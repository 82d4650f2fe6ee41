//! SQL statements: text that is fixed in this crate, and values that are bound.
//!
//! A builder holds its statement as a sequence of pieces. A piece of text is a
//! `&'static str`, so no value that comes from outside ever becomes part of the
//! statement's text: it can only be bound.
use vstd::prelude::*;

use crate::guid::{db_text, guid_text, guid_to_db, hyphenated_text, Guid};
use crate::model::{ItemValueType, MediaStreamType, PermissionKind, PreferenceKind};
use crate::text::{blank, is_blank, opt_text, texts};
use crate::time::Timestamp;

verus! {

/// A value that is bound to a placeholder.
#[derive(Debug, Clone)]
pub enum BindValue {
    Text(String),
    OptionalText(Option<String>),
    Int(i64),
    OptionalInt(Option<i64>),
    Flag(bool),
    OptionalFlag(Option<bool>),
    /// A point in time, as the driver writes it.
    Time(Timestamp),
    OptionalTime(Option<Timestamp>),
    /// A point in time as the schema stores it: `YYYY-MM-DD HH:MM:SS.fffffff`.
    StoredTime(Timestamp),
    /// A double-precision number, by its bits.
    Real(u64),
    OptionalReal(Option<u64>),
    /// The stored number of an item value type.
    ValueType(ItemValueType),
    /// The stored number of a permission kind.
    Permission(PermissionKind),
    /// The stored number of a preference kind.
    Preference(PreferenceKind),
    /// The stored number of a stream type.
    StreamType(MediaStreamType),
}

/// What a bound value stands for.
pub enum BindView {
    Text(Seq<char>),
    OptionalText(Option<Seq<char>>),
    Int(int),
    OptionalInt(Option<int>),
    Flag(bool),
    OptionalFlag(Option<bool>),
    Time(Timestamp),
    OptionalTime(Option<Timestamp>),
    StoredTime(Timestamp),
    Real(u64),
    OptionalReal(Option<u64>),
    ValueType(ItemValueType),
    Permission(PermissionKind),
    Preference(PreferenceKind),
    StreamType(MediaStreamType),
}

/// An optional machine integer as an optional integer.
pub open spec fn opt_int(v: Option<i64>) -> Option<int> {
    match v {
        Some(n) => Some(n as int),
        None => None,
    }
}

impl View for BindValue {
    type V = BindView;

    open spec fn view(&self) -> BindView {
        match *self {
            BindValue::Text(s) => BindView::Text(s@),
            BindValue::OptionalText(s) => BindView::OptionalText(opt_text(s)),
            BindValue::Int(n) => BindView::Int(n as int),
            BindValue::OptionalInt(n) => BindView::OptionalInt(opt_int(n)),
            BindValue::Flag(b) => BindView::Flag(b),
            BindValue::OptionalFlag(b) => BindView::OptionalFlag(b),
            BindValue::Time(t) => BindView::Time(t),
            BindValue::OptionalTime(t) => BindView::OptionalTime(t),
            BindValue::StoredTime(t) => BindView::StoredTime(t),
            BindValue::Real(b) => BindView::Real(b),
            BindValue::OptionalReal(b) => BindView::OptionalReal(b),
            BindValue::ValueType(t) => BindView::ValueType(t),
            BindValue::Permission(k) => BindView::Permission(k),
            BindValue::Preference(k) => BindView::Preference(k),
            BindValue::StreamType(t) => BindView::StreamType(t),
        }
    }
}

/// What a list of bound values stands for.
pub open spec fn binds(v: Seq<BindValue>) -> Seq<BindView> {
    Seq::new(v.len(), |i: int| v[i]@)
}

/// One piece of a statement.
#[derive(Debug, Clone)]
pub enum Piece {
    Sql(&'static str),
    Bind(BindValue),
}

/// What a piece stands for.
pub enum PieceView {
    Sql(Seq<char>),
    Bind(BindView),
}

impl View for Piece {
    type V = PieceView;

    open spec fn view(&self) -> PieceView {
        match *self {
            Piece::Sql(text) => PieceView::Sql(text@),
            Piece::Bind(value) => PieceView::Bind(value@),
        }
    }
}

/// A statement that is being built.
#[derive(Debug, Clone)]
pub struct SqlBuilder {
    pub pieces: Vec<Piece>,
}

impl View for SqlBuilder {
    type V = Seq<PieceView>;

    open spec fn view(&self) -> Seq<PieceView> {
        Seq::new(self.pieces@.len(), |i: int| self.pieces@[i]@)
    }
}

/// A statement, as its pieces stand for it.
pub type Sql = Seq<PieceView>;

/// What a list of statements stands for.
pub open spec fn sql_list(v: Seq<SqlBuilder>) -> Seq<Sql> {
    Seq::new(v.len(), |i: int| v[i]@)
}

// ---------------------------------------------------------------------------
// How statements grow
// ---------------------------------------------------------------------------
/// `acc` and then the text `t`.
pub open spec fn say(acc: Sql, t: Seq<char>) -> Sql {
    acc.push(PieceView::Sql(t))
}

/// `acc` and then a bound value.
pub open spec fn give(acc: Sql, v: BindView) -> Sql {
    acc.push(PieceView::Bind(v))
}

/// `acc`, and the text `t` with the number behind it where there is one.
pub open spec fn say_int(acc: Sql, t: Seq<char>, v: Option<i32>) -> Sql {
    match v {
        Some(n) => give(say(acc, t), BindView::Int(n as int)),
        None => acc,
    }
}

/// `acc`, and the text `t` with the flag behind it where there is one.
pub open spec fn say_flag(acc: Sql, t: Seq<char>, v: Option<bool>) -> Sql {
    match v {
        Some(b) => give(say(acc, t), BindView::Flag(b)),
        None => acc,
    }
}

/// `acc`, and the text `t` with the time behind it where there is one.
pub open spec fn say_time(acc: Sql, t: Seq<char>, v: Option<Timestamp>) -> Sql {
    match v {
        Some(d) => give(say(acc, t), BindView::StoredTime(d)),
        None => acc,
    }
}

/// `acc`, and the text `t` with the number behind it where there is one.
pub open spec fn say_real(acc: Sql, t: Seq<char>, v: Option<u64>) -> Sql {
    match v {
        Some(b) => give(say(acc, t), BindView::Real(b)),
        None => acc,
    }
}

/// The text in `v`, unless there is none or it is blank.
pub open spec fn filled(v: Option<String>) -> Option<Seq<char>> {
    match v {
        Some(s) => if is_blank(s@) {
            None
        } else {
            Some(s@)
        },
        None => None,
    }
}

/// `acc`, and the text `t` with the value behind it where one is filled in.
pub open spec fn say_filled(acc: Sql, t: Seq<char>, v: Option<String>) -> Sql {
    match filled(v) {
        Some(s) => give(say(acc, t), BindView::Text(s)),
        None => acc,
    }
}

/// `acc`, and one of two texts where a flag is given.
pub open spec fn say_either(acc: Sql, flag: Option<bool>, yes: Seq<char>, no: Seq<char>) -> Sql {
    match flag {
        Some(true) => say(acc, yes),
        Some(false) => say(acc, no),
        None => acc,
    }
}

/// `acc` and then every value, with `", "` between them.
pub open spec fn give_all(acc: Sql, values: Seq<BindView>) -> Sql
    decreases values.len(),
{
    if values.len() == 0 {
        acc
    } else {
        let head = give_all(acc, values.drop_last());
        give(
            if values.len() > 1 {
                say(head, ", "@)
            } else {
                head
            },
            values.last(),
        )
    }
}

/// `acc` and then `column IN (..)`; `1 = 0` for an empty list, which nothing is
/// in.
pub open spec fn say_in(acc: Sql, column: Seq<char>, values: Seq<BindView>) -> Sql {
    if values.len() == 0 {
        say(acc, "1 = 0"@)
    } else {
        say(give_all(say(say(acc, column), " IN ("@), values), ")"@)
    }
}

/// The bound values of a list of texts.
pub open spec fn text_values(v: Seq<Seq<char>>) -> Seq<BindView> {
    Seq::new(v.len(), |i: int| BindView::Text(v[i]))
}

/// The bound values of a list of identifiers.
pub open spec fn guid_values(v: Seq<Guid>) -> Seq<BindView> {
    Seq::new(v.len(), |i: int| BindView::Text(db_text(v[i].value)))
}

/// The bound values of a list of identifiers, in lower case.
pub open spec fn plain_guid_values(v: Seq<Guid>) -> Seq<BindView> {
    Seq::new(v.len(), |i: int| BindView::Text(hyphenated_text(v[i].value)))
}

/// The bound values of a list of numbers.
pub open spec fn int_values(v: Seq<i32>) -> Seq<BindView> {
    Seq::new(v.len(), |i: int| BindView::Int(v[i] as int))
}

/// The bound values of a list of item value types.
pub open spec fn type_values(v: Seq<ItemValueType>) -> Seq<BindView> {
    Seq::new(v.len(), |i: int| BindView::ValueType(v[i]))
}

impl BindValue {
    /// The same value once more.
    pub fn duplicate(&self) -> (r: Self)
        ensures
            r@ == self@,
    {
        match self {
            BindValue::Text(s) => BindValue::Text(s.clone()),
            BindValue::OptionalText(s) => BindValue::OptionalText(copy_text(s)),
            BindValue::Int(n) => BindValue::Int(*n),
            BindValue::OptionalInt(n) => BindValue::OptionalInt(*n),
            BindValue::Flag(b) => BindValue::Flag(*b),
            BindValue::OptionalFlag(b) => BindValue::OptionalFlag(*b),
            BindValue::Time(t) => BindValue::Time(*t),
            BindValue::OptionalTime(t) => BindValue::OptionalTime(*t),
            BindValue::StoredTime(t) => BindValue::StoredTime(*t),
            BindValue::Real(b) => BindValue::Real(*b),
            BindValue::OptionalReal(b) => BindValue::OptionalReal(*b),
            BindValue::ValueType(t) => BindValue::ValueType(*t),
            BindValue::Permission(k) => BindValue::Permission(*k),
            BindValue::Preference(k) => BindValue::Preference(*k),
            BindValue::StreamType(t) => BindValue::StreamType(*t),
        }
    }
}

/// An optional string once more.
pub fn copy_text(v: &Option<String>) -> (r: Option<String>)
    ensures
        opt_text(r) == opt_text(*v),
        r is Some == v is Some,
{
    match v {
        Some(s) => Some(s.clone()),
        None => None,
    }
}

/// The string in `value`, unless there is none or it is blank.
pub fn non_blank(value: &Option<String>) -> (r: Option<&str>)
    ensures
        match r {
            Some(s) => filled(*value) == Some(s@),
            None => filled(*value) is None,
        },
{
    match value {
        Some(s) => {
            if blank(s.as_str()) {
                None
            } else {
                Some(s.as_str())
            }
        },
        None => None,
    }
}

impl SqlBuilder {
    /// A statement that begins with `text`.
    pub fn new(text: &'static str) -> (r: Self)
        ensures
            r@ == seq![PieceView::Sql(text@)],
    {
        let r: SqlBuilder = SqlBuilder { pieces: vec![Piece::Sql(text)] };
        assert(r@ =~= seq![PieceView::Sql(text@)]);
        r
    }

    /// A statement of which nothing is written yet.
    pub fn empty() -> (r: Self)
        ensures
            r@ == Seq::<PieceView>::empty(),
    {
        let r: SqlBuilder = SqlBuilder { pieces: Vec::new() };
        assert(r@ =~= Seq::<PieceView>::empty());
        r
    }

    /// Appends the pieces of another statement.
    pub fn append(&mut self, other: SqlBuilder)
        ensures
            final(self)@ == old(self)@ + other@,
    {
        let mut pieces: Vec<Piece> = other.pieces;
        self.pieces.append(&mut pieces);
        assert(self@ =~= old(self)@ + other@);
    }

    /// Appends fixed text.
    pub fn push(&mut self, text: &'static str)
        ensures
            final(self)@ == say(old(self)@, text@),
    {
        self.pieces.push(Piece::Sql(text));
        assert(self@ =~= say(old(self)@, text@));
    }

    /// Appends a bound value.
    pub fn push_bind(&mut self, value: BindValue)
        ensures
            final(self)@ == give(old(self)@, value@),
    {
        self.pieces.push(Piece::Bind(value));
        assert(self@ =~= give(old(self)@, value@));
    }

    /// Appends a bound string.
    pub fn push_text(&mut self, value: &str)
        ensures
            final(self)@ == give(old(self)@, BindView::Text(value@)),
    {
        self.push_bind(BindValue::Text(value.to_owned()));
    }

    /// Appends `text` with the number behind it where there is one.
    pub fn push_int(&mut self, text: &'static str, value: Option<i32>)
        ensures
            final(self)@ == say_int(old(self)@, text@, value),
    {
        if let Some(n) = value {
            self.push(text);
            self.push_bind(BindValue::Int(n as i64));
        }
    }

    /// Appends `text` with the flag behind it where there is one.
    pub fn push_flag(&mut self, text: &'static str, value: Option<bool>)
        ensures
            final(self)@ == say_flag(old(self)@, text@, value),
    {
        if let Some(b) = value {
            self.push(text);
            self.push_bind(BindValue::Flag(b));
        }
    }

    /// Appends `text` with the time behind it where there is one.
    pub fn push_time(&mut self, text: &'static str, value: Option<Timestamp>)
        ensures
            final(self)@ == say_time(old(self)@, text@, value),
    {
        if let Some(d) = value {
            self.push(text);
            self.push_bind(BindValue::StoredTime(d));
        }
    }

    /// Appends `text` with the number behind it where there is one.
    pub fn push_real(&mut self, text: &'static str, value: Option<u64>)
        ensures
            final(self)@ == say_real(old(self)@, text@, value),
    {
        if let Some(b) = value {
            self.push(text);
            self.push_bind(BindValue::Real(b));
        }
    }

    /// Appends `text` with the value behind it where one is filled in.
    pub fn push_filled(&mut self, text: &'static str, value: &Option<String>)
        ensures
            final(self)@ == say_filled(old(self)@, text@, *value),
    {
        if let Some(s) = non_blank(value) {
            self.push(text);
            self.push_text(s);
        }
    }

    /// Appends one of two texts where a flag is given.
    pub fn push_either(&mut self, flag: Option<bool>, yes: &'static str, no: &'static str)
        ensures
            final(self)@ == say_either(old(self)@, flag, yes@, no@),
    {
        match flag {
            Some(true) => self.push(yes),
            Some(false) => self.push(no),
            None => {},
        }
    }

    /// Appends every value, with `", "` between them.
    pub fn push_all(&mut self, values: &[BindValue])
        ensures
            final(self)@ == give_all(old(self)@, binds(values@)),
    {
        let ghost all = binds(values@);
        let ghost start = self@;
        let mut i: usize = 0;
        assert(all.take(0) =~= Seq::<BindView>::empty());
        while i < values.len()
            invariant
                i <= values.len(),
                all == binds(values@),
                self@ == give_all(start, all.take(i as int)),
            decreases values.len() - i,
        {
            assert(all.take(i + 1).drop_last() =~= all.take(i as int));
            assert(all.take(i + 1).last() == values@[i as int]@);
            if i > 0 {
                self.push(", ");
            }
            self.push_bind(values[i].duplicate());
            i += 1;
        }
        assert(all.take(all.len() as int) =~= all);
    }

    /// Appends `column IN (..)`, or `1 = 0` for an empty list.
    pub fn push_in_list(&mut self, column: &'static str, values: &[BindValue])
        ensures
            final(self)@ == say_in(old(self)@, column@, binds(values@)),
    {
        if values.len() == 0 {
            self.push("1 = 0");
            return;
        }
        self.push(column);
        self.push(" IN (");
        self.push_all(values);
        self.push(")");
    }
}

/// Adds a value to those that are bound.
pub fn push_value(values: &mut Vec<BindValue>, value: BindValue)
    ensures
        binds(final(values)@) == binds(old(values)@).push(value@),
{
    let ghost before = binds(values@);
    values.push(value);
    assert(binds(values@) =~= before.push(value@));
}

/// The bound values of a list of strings.
pub fn text_binds(v: &[String]) -> (r: Vec<BindValue>)
    ensures
        binds(r@) == text_values(texts(v@)),
{
    let mut out: Vec<BindValue> = Vec::new();
    let mut i: usize = 0;
    while i < v.len()
        invariant
            i <= v.len(),
            out@.len() == i,
            forall|j: int| 0 <= j < i ==> #[trigger] out@[j]@ == BindView::Text(v@[j]@),
        decreases v.len() - i,
    {
        out.push(BindValue::Text(v[i].clone()));
        i += 1;
    }
    assert(binds(out@) =~= text_values(texts(v@)));
    out
}

/// The bound values of a list of identifiers.
pub fn guid_binds(v: &[Guid]) -> (r: Vec<BindValue>)
    ensures
        binds(r@) == guid_values(v@),
{
    let mut out: Vec<BindValue> = Vec::new();
    let mut i: usize = 0;
    while i < v.len()
        invariant
            i <= v.len(),
            out@.len() == i,
            forall|j: int| 0 <= j < i ==> #[trigger] out@[j]@ == BindView::Text(db_text(v@[j].value)),
        decreases v.len() - i,
    {
        out.push(BindValue::Text(guid_to_db(v[i])));
        i += 1;
    }
    assert(binds(out@) =~= guid_values(v@));
    out
}

/// The bound values of a list of identifiers, in lower case.
pub fn plain_guid_binds(v: &[Guid]) -> (r: Vec<BindValue>)
    ensures
        binds(r@) == plain_guid_values(v@),
{
    let mut out: Vec<BindValue> = Vec::new();
    let mut i: usize = 0;
    while i < v.len()
        invariant
            i <= v.len(),
            out@.len() == i,
            forall|j: int|
                0 <= j < i ==> #[trigger] out@[j]@ == BindView::Text(hyphenated_text(v@[j].value)),
        decreases v.len() - i,
    {
        out.push(BindValue::Text(guid_text(v[i])));
        i += 1;
    }
    assert(binds(out@) =~= plain_guid_values(v@));
    out
}

/// The bound values of a list of numbers.
pub fn int_binds(v: &[i32]) -> (r: Vec<BindValue>)
    ensures
        binds(r@) == int_values(v@),
{
    let mut out: Vec<BindValue> = Vec::new();
    let mut i: usize = 0;
    while i < v.len()
        invariant
            i <= v.len(),
            out@.len() == i,
            forall|j: int| 0 <= j < i ==> #[trigger] out@[j]@ == BindView::Int(v@[j] as int),
        decreases v.len() - i,
    {
        out.push(BindValue::Int(v[i] as i64));
        i += 1;
    }
    assert(binds(out@) =~= int_values(v@));
    out
}

/// The bound values of a list of item value types.
pub fn type_binds(v: &[ItemValueType]) -> (r: Vec<BindValue>)
    ensures
        binds(r@) == type_values(v@),
{
    let mut out: Vec<BindValue> = Vec::new();
    let mut i: usize = 0;
    while i < v.len()
        invariant
            i <= v.len(),
            out@.len() == i,
            forall|j: int| 0 <= j < i ==> #[trigger] out@[j]@ == BindView::ValueType(v@[j]),
        decreases v.len() - i,
    {
        out.push(BindValue::ValueType(v[i]));
        i += 1;
    }
    assert(binds(out@) =~= type_values(v@));
    out
}

} // verus!
