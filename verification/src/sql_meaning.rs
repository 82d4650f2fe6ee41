//! What SQL conditions mean.
//!
//! A condition is a tree. It has a text, which is made of words of SQL and of the
//! values that are given with a statement, and a truth for the rows of a database. A
//! statement that spells the text of a condition therefore asks for what the
//! condition means.
use vstd::prelude::*;

use crate::model::ItemValueType;
use crate::number_text::decimal;
use crate::sort::text_less;
use crate::sql::{give, give_all, say, BindView, PieceView, Sql};
use crate::text::{ascii_lower, ascii_lower_char, same_ignoring_case};
use crate::time::Timestamp;

verus! {

// ---------------------------------------------------------------------------
// Values and rows
// ---------------------------------------------------------------------------
/// What a column of a row holds.
pub enum Val {
    Null,
    Text(Seq<char>),
    Int(int),
    /// A double-precision number, by its bits.
    Real(u64),
    Time(Timestamp),
}

/// A row: what each of its columns holds, by the column's name.
pub type Row = spec_fn(Seq<char>) -> Val;

/// A database: the rows of each table, by the table's name; which of two
/// double-precision numbers is no greater than the other; and the numbers that stand
/// for the types of item values.
pub struct Db {
    pub tables: spec_fn(Seq<char>) -> Seq<Row>,
    pub real_le: spec_fn(u64, u64) -> bool,
    pub type_number: spec_fn(ItemValueType) -> int,
}

/// The rows that names stand for.
pub type Scope = spec_fn(Seq<char>) -> Row;

/// A scope in which every name stands for one row.
pub open spec fn only(row: Row) -> Scope {
    |name: Seq<char>| row
}

/// A scope in which one more name stands for a row.
pub open spec fn with_row(scope: Scope, name: Seq<char>, row: Row) -> Scope {
    |n: Seq<char>|
        if n == name {
            row
        } else {
            scope(n)
        }
}

/// The number that stands for a flag.
pub open spec fn flag_number(b: bool) -> int {
    if b {
        1
    } else {
        0
    }
}

/// What a given value is.
pub open spec fn given(v: BindView, db: Db) -> Val {
    match v {
        BindView::Text(s) => Val::Text(s),
        BindView::OptionalText(Some(s)) => Val::Text(s),
        BindView::Int(n) => Val::Int(n),
        BindView::OptionalInt(Some(n)) => Val::Int(n),
        BindView::Flag(b) => Val::Int(flag_number(b)),
        BindView::OptionalFlag(Some(b)) => Val::Int(flag_number(b)),
        BindView::Time(t) => Val::Time(t),
        BindView::OptionalTime(Some(t)) => Val::Time(t),
        BindView::StoredTime(t) => Val::Time(t),
        BindView::Real(r) => Val::Real(r),
        BindView::OptionalReal(Some(r)) => Val::Real(r),
        BindView::ValueType(t) => Val::Int((db.type_number)(t)),
        _ => Val::Null,
    }
}

/// Whether a value comes before another of its sort.
pub open spec fn less(a: Val, b: Val, db: Db) -> bool {
    match (a, b) {
        (Val::Int(x), Val::Int(y)) => x < y,
        (Val::Text(x), Val::Text(y)) => text_less(x, y),
        (Val::Real(x), Val::Real(y)) => !(db.real_le)(y, x),
        (Val::Time(x), Val::Time(y)) => x.nanos < y.nanos,
        _ => false,
    }
}

/// Whether a text fits a pattern: `%` stands for any run of characters, `_` for any
/// one, and every other character for itself, in either case if it is an ASCII letter.
pub open spec fn fits(t: Seq<char>, pattern: Seq<char>) -> bool
    decreases t.len() + pattern.len(),
{
    if pattern.len() == 0 {
        t.len() == 0
    } else if pattern[0] == '%' {
        fits(t, pattern.drop_first()) || (t.len() > 0 && fits(t.drop_first(), pattern))
    } else {
        t.len() > 0 && (pattern[0] == '_' || ascii_lower_char(pattern[0]) == ascii_lower_char(t[0]))
            && fits(t.drop_first(), pattern.drop_first())
    }
}

/// Whether `part` stands somewhere in `t`, whatever the case of ASCII letters.
pub open spec fn holds(t: Seq<char>, part: Seq<char>) -> bool {
    exists|i: int|
        0 <= i <= t.len() - part.len() && #[trigger] same_ignoring_case(
            t.subrange(i, i + part.len()),
            part,
        )
}

/// Whether `t` begins with `part`, whatever the case of ASCII letters.
pub open spec fn begins(t: Seq<char>, part: Seq<char>) -> bool {
    part.len() <= t.len() && same_ignoring_case(t.subrange(0, part.len() as int), part)
}

/// Whether a text has no character that is special in a pattern.
pub open spec fn no_wildcards(s: Seq<char>) -> bool {
    forall|i: int| 0 <= i < s.len() ==> (#[trigger] s[i]) != '%' && s[i] != '_'
}

// ---------------------------------------------------------------------------
// Conditions
// ---------------------------------------------------------------------------
/// What a condition compares.
pub enum Expr {
    /// A column of the row that a name stands for.
    Column { of: Seq<char>, name: Seq<char> },
    /// A column of the row of the table without a name.
    Bare { name: Seq<char> },
    /// A value that is given with the statement.
    Given(BindView),
    Number(int),
    Quoted(Seq<char>),
    /// A column, with ASCII letters in lower case.
    Lower { of: Seq<char>, name: Seq<char> },
}

/// How two values are compared.
pub enum Op {
    Eq,
    Ne,
    Lt,
    Le,
    Gt,
    Ge,
    Like,
    NotLike,
}

/// A table in a statement, and the name of its row.
pub enum From {
    Named { table: Seq<char>, name: Seq<char> },
    NamedAs { table: Seq<char>, name: Seq<char> },
    Unnamed { table: Seq<char> },
}

/// A condition.
pub enum Cond {
    Compare(Expr, Op, Expr),
    IsNull(Expr),
    NotNull(Expr),
    /// Whether a value is one of those given.
    In(Expr, Seq<BindView>),
    NotIn(Expr, Seq<BindView>),
    /// Whether a value is one of those that the statement names.
    InNamed(Expr, Seq<Expr>),
    /// Whether a value is the missing one, which is never known.
    InNull(Expr),
    /// Whether a value is one of the column `Expr` of the rows that meet a condition.
    InSelect(Expr, Expr, From, Box<Cond>),
    /// Whether some row meets a condition.
    Exists(From, Box<Cond>),
    /// Whether some row, and one of another table that goes with it, meet a condition.
    ExistsJoined(From, From, Box<Cond>, Box<Cond>),
    Not(Box<Cond>),
    And(Box<Cond>, Box<Cond>),
    Or(Box<Cond>, Box<Cond>),
    Group(Box<Cond>),
    Number(int),
}

/// What an expression is in a scope.
pub open spec fn value_of(e: Expr, scope: Scope, db: Db) -> Val {
    match e {
        Expr::Column { of, name } => scope(of)(name),
        Expr::Bare { name } => scope(Seq::empty())(name),
        Expr::Given(v) => given(v, db),
        Expr::Number(n) => Val::Int(n),
        Expr::Quoted(s) => Val::Text(s),
        Expr::Lower { of, name } => match scope(of)(name) {
            Val::Text(s) => Val::Text(ascii_lower(s)),
            v => v,
        },
    }
}

/// Whether two values compare so; unknown where one of them is missing.
pub open spec fn compared(a: Val, op: Op, b: Val, db: Db) -> Option<bool> {
    if a is Null || b is Null {
        None
    } else {
        Some(
            match op {
                Op::Eq => a == b,
                Op::Ne => a != b,
                Op::Lt => less(a, b, db),
                Op::Le => less(a, b, db) || a == b,
                Op::Gt => less(b, a, db),
                Op::Ge => less(b, a, db) || a == b,
                Op::Like => a is Text && b is Text && fits(a->Text_0, b->Text_0),
                Op::NotLike => !(a is Text && b is Text && fits(a->Text_0, b->Text_0)),
            },
        )
    }
}

/// Both, where it is known.
pub open spec fn both(a: Option<bool>, b: Option<bool>) -> Option<bool> {
    if a == Some(false) || b == Some(false) {
        Some(false)
    } else if a is None || b is None {
        None
    } else {
        Some(true)
    }
}

/// One of two, where it is known.
pub open spec fn either(a: Option<bool>, b: Option<bool>) -> Option<bool> {
    if a == Some(true) || b == Some(true) {
        Some(true)
    } else if a is None || b is None {
        None
    } else {
        Some(false)
    }
}

/// Not, where it is known.
pub open spec fn negated(a: Option<bool>) -> Option<bool> {
    match a {
        Some(b) => Some(!b),
        None => None,
    }
}

/// Whether a value is one of those given. None of those that statements give is
/// missing.
pub open spec fn among(v: Val, values: Seq<BindView>, db: Db) -> Option<bool> {
    if v is Null {
        None
    } else {
        Some(exists|i: int| 0 <= i < values.len() && given(#[trigger] values[i], db) == v)
    }
}

/// The table of a source.
pub open spec fn table_of(f: From) -> Seq<char> {
    match f {
        From::Named { table, name } => table,
        From::NamedAs { table, name } => table,
        From::Unnamed { table } => table,
    }
}

/// The name of a source's row.
pub open spec fn name_of(f: From) -> Seq<char> {
    match f {
        From::Named { table, name } => name,
        From::NamedAs { table, name } => name,
        From::Unnamed { table } => Seq::empty(),
    }
}

/// Whether a condition is true in a scope; unknown where a value is missing.
pub open spec fn truth(c: Cond, scope: Scope, db: Db) -> Option<bool>
    decreases c,
{
    match c {
        Cond::Compare(a, op, b) => compared(value_of(a, scope, db), op, value_of(b, scope, db), db),
        Cond::IsNull(e) => Some(value_of(e, scope, db) is Null),
        Cond::NotNull(e) => Some(!(value_of(e, scope, db) is Null)),
        Cond::In(e, values) => among(value_of(e, scope, db), values, db),
        Cond::NotIn(e, values) => negated(among(value_of(e, scope, db), values, db)),
        Cond::InNamed(e, list) => if value_of(e, scope, db) is Null {
            None
        } else {
            Some(
                exists|i: int|
                    0 <= i < list.len() && value_of(#[trigger] list[i], scope, db) == value_of(
                        e,
                        scope,
                        db,
                    ),
            )
        },
        Cond::InNull(e) => None,
        Cond::InSelect(e, column, from, inner) => {
            let v = value_of(e, scope, db);
            if v is Null {
                None
            } else {
                Some(
                    exists|i: int|
                        0 <= i < (db.tables)(table_of(from)).len() && {
                            let s = with_row(
                                scope,
                                name_of(from),
                                #[trigger] (db.tables)(table_of(from))[i],
                            );
                            truth(*inner, s, db) == Some(true) && value_of(column, s, db) == v
                        },
                )
            }
        },
        Cond::Exists(from, inner) => Some(
            exists|i: int|
                0 <= i < (db.tables)(table_of(from)).len() && truth(
                    *inner,
                    with_row(scope, name_of(from), #[trigger] (db.tables)(table_of(from))[i]),
                    db,
                ) == Some(true),
        ),
        Cond::ExistsJoined(from, other, on, inner) => Some(
            exists|i: int, j: int|
                0 <= i < (db.tables)(table_of(from)).len() && 0 <= j < (db.tables)(
                    table_of(other),
                ).len() && {
                    let s = with_row(
                        with_row(scope, name_of(from), #[trigger] (db.tables)(table_of(from))[i]),
                        name_of(other),
                        #[trigger] (db.tables)(table_of(other))[j],
                    );
                    truth(*on, s, db) == Some(true) && truth(*inner, s, db) == Some(true)
                },
        ),
        Cond::Not(a) => negated(truth(*a, scope, db)),
        Cond::And(a, b) => both(truth(*a, scope, db), truth(*b, scope, db)),
        Cond::Or(a, b) => either(truth(*a, scope, db), truth(*b, scope, db)),
        Cond::Group(a) => truth(*a, scope, db),
        Cond::Number(n) => Some(n != 0),
    }
}

/// Whether every condition is true.
pub open spec fn all_true(cs: Seq<Cond>, scope: Scope, db: Db) -> bool {
    forall|i: int| 0 <= i < cs.len() ==> truth(#[trigger] cs[i], scope, db) == Some(true)
}

// ---------------------------------------------------------------------------
// Texts
// ---------------------------------------------------------------------------
/// What a statement says: its text, with a `?` for each value that is given with it, and
/// those values in their order.
#[verifier::ext_equal]
pub struct Said {
    pub text: Seq<char>,
    pub values: Seq<BindView>,
}

impl Said {
    /// One behind the other.
    #[verifier::opaque]
    pub open spec fn spec_add(self, behind: Said) -> Said {
        Said { text: self.text + behind.text, values: self.values + behind.values }
    }
}

/// It does not matter which of three are joined first.
pub broadcast proof fn lemma_said_in_turn(a: Said, b: Said, c: Said)
    ensures
        #[trigger] ((a + b) + c) == a + (b + c),
{
    reveal(Said::spec_add);
    assert(((a + b) + c) =~= a + (b + c));
}

/// Nothing adds nothing.
pub broadcast proof fn lemma_said_nothing(a: Said)
    ensures
        #[trigger] (a + nothing()) == a,
{
    reveal(Said::spec_add);
    assert(a + nothing() =~= a);
}

/// Nothing.
pub open spec fn nothing() -> Said {
    Said { text: Seq::empty(), values: Seq::empty() }
}

/// A text without values.
#[verifier::inline]
pub open spec fn chars(s: Seq<char>) -> Said {
    Said { text: s, values: Seq::empty() }
}

/// A value.
#[verifier::inline]
pub open spec fn hole(v: BindView) -> Said {
    Said { text: "?"@, values: seq![v] }
}

/// The characters and values of a statement, one after the other.
pub open spec fn flat(q: Sql) -> Said
    decreases q.len(),
{
    if q.len() == 0 {
        nothing()
    } else {
        flat(q.drop_last()) + match q.last() {
            PieceView::Sql(t) => chars(t),
            PieceView::Bind(v) => hole(v),
        }
    }
}

/// The values of a list, with commas between them.
pub open spec fn values_text(values: Seq<BindView>) -> Said
    decreases values.len(),
{
    if values.len() == 0 {
        nothing()
    } else if values.len() == 1 {
        hole(values[0])
    } else {
        values_text(values.drop_last()) + chars(", "@) + hole(values.last())
    }
}

/// A column's or a table's name as it stands in a statement.
pub open spec fn quoted(name: Seq<char>) -> Said {
    chars("\""@) + chars(name) + chars("\""@)
}

/// A column of a named row.
pub open spec fn column_text(of: Seq<char>, name: Seq<char>) -> Said {
    chars(of) + chars("."@) + quoted(name)
}

/// The text of an expression.
pub open spec fn expr_text(e: Expr) -> Said {
    match e {
        Expr::Column { of, name } => column_text(of, name),
        Expr::Bare { name } => quoted(name),
        Expr::Given(v) => hole(v),
        Expr::Number(n) => chars(decimal(n)),
        Expr::Quoted(s) => chars("'"@) + chars(s) + chars("'"@),
        Expr::Lower { of, name } => chars("lower("@) + column_text(of, name) + chars(")"@),
    }
}

/// The texts of expressions, with commas between them.
pub open spec fn exprs_text(list: Seq<Expr>) -> Said
    decreases list.len(),
{
    if list.len() == 0 {
        nothing()
    } else if list.len() == 1 {
        expr_text(list[0])
    } else {
        exprs_text(list.drop_last()) + chars(", "@) + expr_text(list.last())
    }
}

/// The text of a comparison.
pub open spec fn op_text(op: Op) -> Seq<char> {
    match op {
        Op::Eq => " = "@,
        Op::Ne => " <> "@,
        Op::Lt => " < "@,
        Op::Le => " <= "@,
        Op::Gt => " > "@,
        Op::Ge => " >= "@,
        Op::Like => " LIKE "@,
        Op::NotLike => " NOT LIKE "@,
    }
}

/// The text of a source.
pub open spec fn from_text(f: From) -> Said {
    match f {
        From::Named { table, name } => quoted(table) + chars(" "@) + chars(name),
        From::NamedAs { table, name } => quoted(table) + chars(" AS "@) + chars(name),
        From::Unnamed { table } => quoted(table),
    }
}

/// The text of a condition.
pub open spec fn text_of(c: Cond) -> Said
    decreases c,
{
    match c {
        Cond::Compare(a, op, b) => expr_text(a) + chars(op_text(op)) + expr_text(b),
        Cond::IsNull(e) => expr_text(e) + chars(" IS NULL"@),
        Cond::NotNull(e) => expr_text(e) + chars(" IS NOT NULL"@),
        Cond::In(e, values) => expr_text(e) + chars(" IN ("@) + values_text(values) + chars(")"@),
        Cond::NotIn(e, values) => expr_text(e) + chars(" NOT IN ("@) + values_text(values)
            + chars(")"@),
        Cond::InNamed(e, list) => expr_text(e) + chars(" IN ("@) + exprs_text(list) + chars(")"@),
        Cond::InNull(e) => expr_text(e) + chars(" IN (NULL)"@),
        Cond::InSelect(e, column, from, inner) => expr_text(e) + chars(" IN (SELECT "@) + expr_text(
            column,
        ) + chars(" FROM "@) + from_text(from) + chars(" WHERE "@) + text_of(*inner) + chars(")"@),
        Cond::Exists(from, inner) => chars("EXISTS (SELECT 1 FROM "@) + from_text(from) + chars(
            " WHERE "@,
        ) + text_of(*inner) + chars(")"@),
        Cond::ExistsJoined(from, other, on, inner) => chars("EXISTS (SELECT 1 FROM "@) + from_text(
            from,
        ) + chars(" JOIN "@) + from_text(other) + chars(" ON "@) + text_of(*on) + chars(" WHERE "@)
            + text_of(*inner) + chars(")"@),
        Cond::Not(a) => chars("NOT "@) + text_of(*a),
        Cond::And(a, b) => text_of(*a) + chars(" AND "@) + text_of(*b),
        Cond::Or(a, b) => text_of(*a) + chars(" OR "@) + text_of(*b),
        Cond::Group(a) => chars("("@) + text_of(*a) + chars(")"@),
        Cond::Number(n) => chars(decimal(n)),
    }
}

/// Whether a condition is read as the tree says: `AND` binds more closely than `OR`,
/// and `NOT` more closely than both.
pub open spec fn reads_so(c: Cond) -> bool
    decreases c,
{
    match c {
        Cond::InSelect(e, column, from, inner) => reads_so(*inner),
        Cond::Exists(from, inner) => reads_so(*inner),
        Cond::ExistsJoined(from, other, on, inner) => reads_so(*on) && reads_so(*inner) && !(
        *on is Or) && !(*on is And),
        Cond::Not(a) => reads_so(*a) && !(*a is Or) && !(*a is And),
        Cond::And(a, b) => reads_so(*a) && reads_so(*b) && !(*a is Or) && !(*b is Or),
        Cond::Or(a, b) => reads_so(*a) && reads_so(*b),
        Cond::Group(a) => reads_so(*a),
        _ => true,
    }
}

/// The text of conditions that all must hold.
pub open spec fn conds_text(cs: Seq<Cond>) -> Said
    decreases cs.len(),
{
    if cs.len() == 0 {
        nothing()
    } else if cs.len() == 1 {
        text_of(cs[0])
    } else {
        conds_text(cs.drop_last()) + chars(" AND "@) + text_of(cs.last())
    }
}

/// Whether each of the conditions is read as its tree says, side by side with the
/// others.
pub open spec fn all_read_so(cs: Seq<Cond>) -> bool {
    forall|i: int| 0 <= i < cs.len() ==> reads_so(#[trigger] cs[i]) && !(cs[i] is Or)
}

/// Where the conditions stand in a statement: `before` is what comes before the part that
/// is read, and `head` what comes before the conditions.
pub struct Lead {
    pub before: Said,
    pub head: Said,
}

/// Whether a part of a statement spells conditions that all must hold.
pub open spec fn spells(lead: Lead, q: Sql, cs: Seq<Cond>) -> bool {
    &&& cs.len() > 0
    &&& all_read_so(cs)
    &&& lead.before + flat(q) == lead.head + conds_text(cs)
}

// ---------------------------------------------------------------------------
// Lemmas
// ---------------------------------------------------------------------------
/// The beginning of a statement that selects columns from a table.
pub open spec fn select_head(columns: Seq<char>, from: From) -> Said {
    chars("SELECT "@) + chars(columns) + chars(" FROM "@) + from_text(from) + chars(" WHERE "@)
}

/// Whether a statement selects columns of the rows of a table that meet conditions; `rest`
/// is what follows them.
pub open spec fn spells_select(
    q: Sql,
    columns: Seq<char>,
    from: From,
    cs: Seq<Cond>,
    rest: Said,
) -> bool {
    &&& cs.len() > 0
    &&& all_read_so(cs)
    &&& flat(q) == select_head(columns, from) + conds_text(cs) + rest
}

/// Whether a statement selects columns of exactly those rows of a table of which `p` holds;
/// `rest` is what follows the conditions.
pub open spec fn selects(
    q: Sql,
    columns: Seq<char>,
    from: From,
    p: spec_fn(Row, Db) -> bool,
    rest: Said,
) -> bool {
    exists|cs: Seq<Cond>| #[trigger]
        spells_select(q, columns, from, cs, rest) && forall|row: Row, db: Db| #[trigger]
            all_true(cs, only(row), db) <==> p(row, db)
}

/// What saying and giving adds to a statement.
pub proof fn lemma_flat_say(q: Sql, t: Seq<char>)
    ensures
        flat(say(q, t)) == flat(q) + chars(t),
{
    broadcast use {lemma_said_in_turn, lemma_said_nothing};

    assert(say(q, t).drop_last() =~= q);
}

pub proof fn lemma_flat_give(q: Sql, v: BindView)
    ensures
        flat(give(q, v)) == flat(q) + hole(v),
{
    broadcast use {lemma_said_in_turn, lemma_said_nothing};

    assert(give(q, v).drop_last() =~= q);
}

pub proof fn lemma_flat_give_all(q: Sql, values: Seq<BindView>)
    ensures
        flat(give_all(q, values)) == flat(q) + values_text(values),
    decreases values.len(),
{
    broadcast use {lemma_said_in_turn, lemma_said_nothing};

    if values.len() == 0 {
        assert(flat(q) + values_text(values) =~= flat(q));
    } else {
        let head = give_all(q, values.drop_last());
        lemma_flat_give_all(q, values.drop_last());
        if values.len() > 1 {
            lemma_flat_say(head, ", "@);
            lemma_flat_give(say(head, ", "@), values.last());
            assert(flat(give_all(q, values)) =~= flat(q) + values_text(values));
        } else {
            assert(values.drop_last() =~= Seq::<BindView>::empty());
            assert(head == q);
            lemma_flat_give(head, values.last());
            assert(flat(give_all(q, values)) =~= flat(q) + values_text(values));
        }
    }
}

/// One statement behind another.
pub proof fn lemma_flat_concat(a: Sql, b: Sql)
    ensures
        flat(a + b) == flat(a) + flat(b),
    decreases b.len(),
{
    broadcast use {lemma_said_in_turn, lemma_said_nothing};

    if b.len() == 0 {
        assert(a + b =~= a);
        assert(flat(a) + flat(b) =~= flat(a));
    } else {
        lemma_flat_concat(a, b.drop_last());
        assert((a + b).drop_last() =~= a + b.drop_last());
        assert(flat(a + b) =~= flat(a) + flat(b));
    }
}

/// One more condition, spelled behind ` AND `.
pub proof fn lemma_spells_more(lead: Lead, q: Sql, cs: Seq<Cond>, longer: Sql, c: Cond)
    requires
        spells(lead, q, cs),
        flat(longer) == flat(q) + chars(" AND "@) + text_of(c),
        reads_so(c),
        !(c is Or),
    ensures
        spells(lead, longer, cs.push(c)),
        forall|scope: Scope, db: Db| #[trigger]
            all_true(cs.push(c), scope, db) <==> all_true(cs, scope, db) && truth(c, scope, db)
                == Some(true),
{
    broadcast use {lemma_said_in_turn, lemma_said_nothing};

    let more = cs.push(c);
    assert(more.drop_last() =~= cs);
    let tail = chars(" AND "@) + text_of(c);
    lemma_said_in_turn(lead.before, flat(q), tail);
    lemma_said_in_turn(lead.head, conds_text(cs), tail);
    assert(lead.before + flat(longer) == lead.head + conds_text(more));
    assert forall|scope: Scope, db: Db| #[trigger]
        all_true(more, scope, db) <==> all_true(cs, scope, db) && truth(c, scope, db) == Some(
            true,
        ) by {
        if all_true(more, scope, db) {
            assert forall|i: int| 0 <= i < cs.len() implies truth(#[trigger] cs[i], scope, db)
                == Some(true) by {
                assert(more[i] == cs[i]);
            }
            assert(more[cs.len() as int] == c);
        }
    }
}

/// Whether a part of a statement spells conditions, and ` AND ` behind them.
pub open spec fn spells_open(lead: Lead, q: Sql, cs: Seq<Cond>) -> bool {
    &&& cs.len() > 0
    &&& all_read_so(cs)
    &&& lead.before + flat(q) == lead.head + conds_text(cs) + chars(" AND "@)
}

/// One more condition, spelled behind an ` AND ` that stands there already.
pub proof fn lemma_spells_closed(lead: Lead, q: Sql, cs: Seq<Cond>, longer: Sql, c: Cond)
    requires
        spells_open(lead, q, cs),
        flat(longer) == flat(q) + text_of(c),
        reads_so(c),
        !(c is Or),
    ensures
        spells(lead, longer, cs.push(c)),
        forall|scope: Scope, db: Db| #[trigger]
            all_true(cs.push(c), scope, db) <==> all_true(cs, scope, db) && truth(c, scope, db)
                == Some(true),
{
    broadcast use {lemma_said_in_turn, lemma_said_nothing};

    let more = cs.push(c);
    assert(more.drop_last() =~= cs);
    lemma_said_in_turn(lead.before, flat(q), text_of(c));
    assert(lead.before + flat(longer) == lead.head + conds_text(more));
    assert forall|scope: Scope, db: Db| #[trigger]
        all_true(more, scope, db) <==> all_true(cs, scope, db) && truth(c, scope, db) == Some(
            true,
        ) by {
        if all_true(more, scope, db) {
            assert forall|i: int| 0 <= i < cs.len() implies truth(#[trigger] cs[i], scope, db)
                == Some(true) by {
                assert(more[i] == cs[i]);
            }
            assert(more[cs.len() as int] == c);
        }
    }
}

/// ` AND ` behind conditions.
pub proof fn lemma_spells_and(lead: Lead, q: Sql, cs: Seq<Cond>)
    requires
        spells(lead, q, cs),
    ensures
        spells_open(lead, say(q, " AND "@), cs),
{
    broadcast use {lemma_said_in_turn, lemma_said_nothing};

    lemma_flat_say(q, " AND "@);
    lemma_said_in_turn(lead.before, flat(q), chars(" AND "@));
    assert(lead.before + flat(say(q, " AND "@)) == lead.head + conds_text(cs) + chars(" AND "@));
}

proof fn lemma_fits_rest(t: Seq<char>, part: Seq<char>, rest: Seq<char>)
    requires
        no_wildcards(part),
    ensures
        fits(t, part + rest) <==> part.len() <= t.len() && same_ignoring_case(
            t.subrange(0, part.len() as int),
            part,
        ) && fits(t.subrange(part.len() as int, t.len() as int), rest),
    decreases part.len(),
{
    let n = part.len() as int;
    if n == 0 {
        assert(part + rest =~= rest);
        assert(t.subrange(0, t.len() as int) =~= t);
        assert(ascii_lower(t.subrange(0, 0)) =~= ascii_lower(part));
    } else {
        let p = part.drop_first();
        assert((part + rest).drop_first() =~= p + rest);
        assert((part + rest)[0] == part[0]);
        assert(part[0] != '%' && part[0] != '_');
        assert forall|i: int| 0 <= i < p.len() implies (#[trigger] p[i]) != '%' && p[i] != '_' by {
            assert(p[i] == part[i + 1]);
        }
        if t.len() > 0 {
            let u = t.drop_first();
            lemma_fits_rest(u, p, rest);
            if n <= t.len() {
                assert(u.subrange(n - 1, u.len() as int) =~= t.subrange(n, t.len() as int));
                let a = t.subrange(0, n);
                let b = u.subrange(0, n - 1);
                if same_ignoring_case(a, part) {
                    assert(ascii_lower(a)[0] == ascii_lower(part)[0]);
                    assert(ascii_lower(b) =~= ascii_lower(p)) by {
                        assert forall|i: int| 0 <= i < n - 1 implies ascii_lower(b)[i]
                            == ascii_lower(p)[i] by {
                            assert(ascii_lower(a)[i + 1] == ascii_lower(part)[i + 1]);
                        }
                    }
                }
                if ascii_lower_char(part[0]) == ascii_lower_char(t[0]) && same_ignoring_case(b, p) {
                    assert(ascii_lower(a) =~= ascii_lower(part)) by {
                        assert forall|i: int| 0 <= i < n implies ascii_lower(a)[i] == ascii_lower(
                            part,
                        )[i] by {
                            if i > 0 {
                                assert(ascii_lower(b)[i - 1] == ascii_lower(p)[i - 1]);
                            }
                        }
                    }
                }
            }
        }
    }
}

proof fn lemma_fits_anything(t: Seq<char>)
    ensures
        fits(t, seq!['%']),
    decreases t.len(),
{
    assert(seq!['%'].drop_first() =~= Seq::<char>::empty());
    assert(fits(t, Seq::empty()) == (t.len() == 0));
    if t.len() > 0 {
        lemma_fits_anything(t.drop_first());
    }
}

proof fn lemma_fits_behind(t: Seq<char>, part: Seq<char>)
    requires
        no_wildcards(part),
    ensures
        fits(t, seq!['%'] + (part + seq!['%'])) <==> holds(t, part),
    decreases t.len(),
{
    let rest = part + seq!['%'];
    let pattern = seq!['%'] + rest;
    assert(pattern.drop_first() =~= rest);
    assert(pattern[0] == '%');
    lemma_fits_rest(t, part, seq!['%']);
    if part.len() <= t.len() {
        lemma_fits_anything(t.subrange(part.len() as int, t.len() as int));
    }
    if fits(t, rest) {
        assert(same_ignoring_case(t.subrange(0int, 0int + part.len()), part));
    }
    if t.len() > 0 {
        let u = t.drop_first();
        lemma_fits_behind(u, part);
        if holds(u, part) {
            let i = choose|i: int|
                0 <= i <= u.len() - part.len() && #[trigger] same_ignoring_case(
                    u.subrange(i, i + part.len()),
                    part,
                );
            assert(u.subrange(i, i + part.len()) =~= t.subrange(i + 1, i + 1 + part.len()));
        }
        if holds(t, part) {
            let i = choose|i: int|
                0 <= i <= t.len() - part.len() && #[trigger] same_ignoring_case(
                    t.subrange(i, i + part.len()),
                    part,
                );
            if i > 0 {
                assert(u.subrange(i - 1, i - 1 + part.len()) =~= t.subrange(i, i + part.len()));
                assert(holds(u, part));
            }
        }
    } else if holds(t, part) {
        let i = choose|i: int|
            0 <= i <= t.len() - part.len() && #[trigger] same_ignoring_case(
                t.subrange(i, i + part.len()),
                part,
            );
        assert(i == 0);
    }
}

/// A text fits a pattern of a part between two `%` where it holds the part.
pub proof fn law_pattern_finds_the_part(t: Seq<char>, part: Seq<char>)
    requires
        no_wildcards(part),
    ensures
        fits(t, "%"@ + part + "%"@) <==> holds(t, part),
{
    reveal_strlit("%");
    assert("%"@ =~= seq!['%']);
    assert("%"@ + part + "%"@ =~= seq!['%'] + (part + seq!['%']));
    lemma_fits_behind(t, part);
}

/// A text fits a pattern of a part before a `%` where it begins with the part.
pub proof fn law_pattern_finds_the_beginning(t: Seq<char>, part: Seq<char>)
    requires
        no_wildcards(part),
    ensures
        fits(t, part + "%"@) <==> begins(t, part),
{
    reveal_strlit("%");
    assert("%"@ =~= seq!['%']);
    lemma_fits_rest(t, part, seq!['%']);
    if part.len() <= t.len() {
        lemma_fits_anything(t.subrange(part.len() as int, t.len() as int));
    }
}

} // verus!
