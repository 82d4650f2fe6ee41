//! What the statement for a filter asks for.
//!
//! The statement is read as a condition over the rows of the database, and the rows
//! that meet it are those that the filter describes.
use vstd::prelude::*;

use crate::items_query::InternalItemsQuery;
use crate::number_text::decimal;
use crate::sql::{
    filled, give, give_all, say, say_filled, say_flag, say_in, say_int, say_real, say_time,
    BindView, Sql,
};
use crate::sql_meaning::{
    all_true, both, chars, column_text, compared, either, flag_number, flat, given,
    lemma_flat_give, lemma_flat_give_all, lemma_flat_say, lemma_said_in_turn, lemma_said_nothing,
    lemma_spells_closed, lemma_spells_more, negated, only, op_text, reads_so, spells, spells_open,
    text_of, truth, Cond, Db, Expr, Lead, Op, Row, Said, Val,
};
use crate::time::Timestamp;
use crate::translate_query::{resolution_predicate, size_predicates};

verus! {

// ---------------------------------------------------------------------------
// Reading single conditions
// ---------------------------------------------------------------------------
/// A column of the item.
pub open spec fn col(name: Seq<char>) -> Expr {
    Expr::Column { of: "bi"@, name }
}

/// ` AND `, a column of the item, and how it is compared.
pub open spec fn and_compare(name: Seq<char>, op: Op) -> Said {
    chars(" AND "@) + column_text("bi"@, name) + chars(op_text(op))
}

pub(crate) proof fn read_given(
    lead: Lead,
    q: Sql,
    cs: Seq<Cond>,
    t: Seq<char>,
    name: Seq<char>,
    op: Op,
    v: BindView,
) -> (out: Seq<Cond>)
    requires
        spells(lead, q, cs),
        chars(t) == and_compare(name, op),
    ensures
        spells(lead, give(say(q, t), v), out),
        forall|row: Row, db: Db| #[trigger]
            all_true(out, only(row), db) <==> all_true(cs, only(row), db) && compared(
                row(name),
                op,
                given(v, db),
                db,
            ) == Some(true),
{
    let c = Cond::Compare(col(name), op, Expr::Given(v));
    lemma_flat_say(q, t);
    lemma_flat_give(say(q, t), v);
    assert(flat(give(say(q, t), v)) == flat(q) + chars(" AND "@) + text_of(c)) by {
        broadcast use {lemma_said_in_turn, lemma_said_nothing};

    }
    lemma_spells_more(lead, q, cs, give(say(q, t), v), c);
    cs.push(c)
}

pub(crate) proof fn read_text(lead: Lead, q: Sql, cs: Seq<Cond>, t: Seq<char>, c: Cond) -> (out: Seq<Cond>)
    requires
        spells(lead, q, cs),
        chars(t) == chars(" AND "@) + text_of(c),
        reads_so(c),
        !(c is Or),
    ensures
        spells(lead, say(q, t), out),
        forall|row: Row, db: Db| #[trigger]
            all_true(out, only(row), db) <==> all_true(cs, only(row), db) && truth(
                c,
                only(row),
                db,
            ) == Some(true),
{
    lemma_flat_say(q, t);
    assert(flat(say(q, t)) == flat(q) + chars(" AND "@) + text_of(c)) by {
        broadcast use {lemma_said_in_turn, lemma_said_nothing};

    }
    lemma_spells_more(lead, q, cs, say(q, t), c);
    cs.push(c)
}

pub(crate) proof fn read_int(
    lead: Lead,
    q: Sql,
    cs: Seq<Cond>,
    t: Seq<char>,
    name: Seq<char>,
    op: Op,
    v: Option<i32>,
) -> (out: Seq<Cond>)
    requires
        spells(lead, q, cs),
        chars(t) == and_compare(name, op),
    ensures
        spells(lead, say_int(q, t, v), out),
        forall|row: Row, db: Db| #[trigger]
            all_true(out, only(row), db) <==> all_true(cs, only(row), db) && (v matches Some(n)
                ==> compared(row(name), op, Val::Int(n as int), db) == Some(true)),
{
    match v {
        Some(n) => read_given(lead, q, cs, t, name, op, BindView::Int(n as int)),
        None => cs,
    }
}

pub(crate) proof fn read_flag(
    lead: Lead,
    q: Sql,
    cs: Seq<Cond>,
    t: Seq<char>,
    name: Seq<char>,
    v: Option<bool>,
) -> (out: Seq<Cond>)
    requires
        spells(lead, q, cs),
        chars(t) == and_compare(name, Op::Eq),
    ensures
        spells(lead, say_flag(q, t, v), out),
        forall|row: Row, db: Db| #[trigger]
            all_true(out, only(row), db) <==> all_true(cs, only(row), db) && (v matches Some(b)
                ==> row(name) == Val::Int(flag_number(b))),
{
    match v {
        Some(b) => read_given(lead, q, cs, t, name, Op::Eq, BindView::Flag(b)),
        None => cs,
    }
}

pub(crate) proof fn read_time(
    lead: Lead,
    q: Sql,
    cs: Seq<Cond>,
    t: Seq<char>,
    name: Seq<char>,
    op: Op,
    v: Option<Timestamp>,
) -> (out: Seq<Cond>)
    requires
        spells(lead, q, cs),
        chars(t) == and_compare(name, op),
    ensures
        spells(lead, say_time(q, t, v), out),
        forall|row: Row, db: Db| #[trigger]
            all_true(out, only(row), db) <==> all_true(cs, only(row), db) && (v matches Some(d)
                ==> compared(row(name), op, Val::Time(d), db) == Some(true)),
{
    match v {
        Some(d) => read_given(lead, q, cs, t, name, op, BindView::StoredTime(d)),
        None => cs,
    }
}

pub(crate) proof fn read_real(
    lead: Lead,
    q: Sql,
    cs: Seq<Cond>,
    t: Seq<char>,
    name: Seq<char>,
    v: Option<u64>,
) -> (out: Seq<Cond>)
    requires
        spells(lead, q, cs),
        chars(t) == and_compare(name, Op::Ge),
    ensures
        spells(lead, say_real(q, t, v), out),
        forall|row: Row, db: Db| #[trigger]
            all_true(out, only(row), db) <==> all_true(cs, only(row), db) && (v matches Some(b)
                ==> compared(row(name), Op::Ge, Val::Real(b), db) == Some(true)),
{
    match v {
        Some(b) => read_given(lead, q, cs, t, name, Op::Ge, BindView::Real(b)),
        None => cs,
    }
}

pub(crate) proof fn read_filled(
    lead: Lead,
    q: Sql,
    cs: Seq<Cond>,
    t: Seq<char>,
    name: Seq<char>,
    v: Option<String>,
) -> (out: Seq<Cond>)
    requires
        spells(lead, q, cs),
        chars(t) == and_compare(name, Op::Eq),
    ensures
        spells(lead, say_filled(q, t, v), out),
        forall|row: Row, db: Db| #[trigger]
            all_true(out, only(row), db) <==> all_true(cs, only(row), db) && (filled(v) matches Some(s)
                ==> row(name) == Val::Text(s)),
{
    match filled(v) {
        Some(s) => read_given(lead, q, cs, t, name, Op::Eq, BindView::Text(s)),
        None => cs,
    }
}

/// Whether a column holds one of the given values.
pub open spec fn is_among(v: Val, values: Seq<BindView>, db: Db) -> bool {
    !(v is Null) && exists|i: int| 0 <= i < values.len() && given(#[trigger] values[i], db) == v
}

/// A list behind ` AND `.
pub(crate) proof fn read_in(
    lead: Lead,
    q: Sql,
    cs: Seq<Cond>,
    column: Seq<char>,
    name: Seq<char>,
    values: Seq<BindView>,
) -> (out: Seq<Cond>)
    requires
        spells_open(lead, q, cs),
        chars(column) == column_text("bi"@, name),
    ensures
        spells(lead, say_in(q, column, values), out),
        forall|row: Row, db: Db| #[trigger]
            all_true(out, only(row), db) <==> all_true(cs, only(row), db) && is_among(
                row(name),
                values,
                db,
            ),
{
    let longer = say_in(q, column, values);
    if values.len() == 0 {
        let c = Cond::Compare(Expr::Number(1), Op::Eq, Expr::Number(0));
        lemma_flat_say(q, "1 = 0"@);
        lemma_small_numbers();
        assert(chars("1 = 0"@) =~= text_of(c)) by {
            reveal(Said::spec_add);
            reveal_strlit("1 = 0");
            reveal_strlit("1");
            reveal_strlit("0");
            reveal_strlit(" = ");
        }
        lemma_spells_closed(lead, q, cs, longer, c);
        cs.push(c)
    } else {
        let c = Cond::In(col(name), values);
        let a = say(say(q, column), " IN ("@);
        lemma_flat_say(q, column);
        lemma_flat_say(say(q, column), " IN ("@);
        lemma_flat_give_all(a, values);
        lemma_flat_say(give_all(a, values), ")"@);
        assert(flat(longer) == flat(q) + text_of(c)) by {
            broadcast use {lemma_said_in_turn, lemma_said_nothing};

        }
        lemma_spells_closed(lead, q, cs, longer, c);
        cs.push(c)
    }
}

/// A list behind ` AND NOT `.
pub(crate) proof fn read_not_in(
    lead: Lead,
    q: Sql,
    cs: Seq<Cond>,
    column: Seq<char>,
    name: Seq<char>,
    values: Seq<BindView>,
) -> (out: Seq<Cond>)
    requires
        spells(lead, q, cs),
        chars(column) == column_text("bi"@, name),
        values.len() > 0,
    ensures
        spells(lead, say_in(say(q, " AND NOT "@), column, values), out),
        forall|row: Row, db: Db| #[trigger]
            all_true(out, only(row), db) <==> all_true(cs, only(row), db) && !(row(name) is Null)
                && !is_among(row(name), values, db),
{
    let start = say(q, " AND NOT "@);
    let longer = say_in(start, column, values);
    let inner = Cond::In(col(name), values);
    let c = Cond::Not(Box::new(inner));
    let a = say(say(start, column), " IN ("@);
    lemma_flat_say(q, " AND NOT "@);
    lemma_flat_say(start, column);
    lemma_flat_say(say(start, column), " IN ("@);
    lemma_flat_give_all(a, values);
    lemma_flat_say(give_all(a, values), ")"@);
    assert(chars(" AND NOT "@) =~= chars(" AND "@) + chars("NOT "@)) by {
        reveal(Said::spec_add);
        reveal_strlit(" AND NOT ");
        reveal_strlit(" AND ");
        reveal_strlit("NOT ");
    }
    assert(text_of(c) == chars("NOT "@) + text_of(inner));
    assert(flat(longer) == flat(q) + chars(" AND "@) + text_of(c)) by {
        broadcast use {lemma_said_in_turn, lemma_said_nothing};

    }
    reveal_with_fuel(reads_so, 3);
    reveal_with_fuel(truth, 3);
    lemma_spells_more(lead, q, cs, longer, c);
    cs.push(c)
}

pub(crate) proof fn lemma_small_numbers()
    ensures
        decimal(0) == "0"@,
        decimal(1) == "1"@,
        decimal(7) == "7"@,
        decimal(1200) == "1200"@,
        decimal(3800) == "3800"@,
        decimal(2100) == "2100"@,
{
    reveal_with_fuel(crate::number_text::digits_of, 5);
    reveal(Said::spec_add);
    reveal_strlit("0");
    reveal_strlit("1");
    reveal_strlit("7");
    reveal_strlit("1200");
    reveal_strlit("3800");
    reveal_strlit("2100");
    assert(decimal(0) =~= "0"@);
    assert(decimal(1) =~= "1"@);
    assert(decimal(7) =~= "7"@);
    assert(decimal(1200) =~= "1200"@);
    assert(decimal(3800) =~= "3800"@);
    assert(decimal(2100) =~= "2100"@);
}

// ---------------------------------------------------------------------------
// Width, height and the lock
// ---------------------------------------------------------------------------
/// Whether a column holds a number that is at least `n`.
pub open spec fn at_least(v: Val, n: int) -> bool {
    v matches Val::Int(x) && x >= n
}

/// Whether a column holds a number that is at most `n`.
pub open spec fn at_most(v: Val, n: int) -> bool {
    v matches Val::Int(x) && x <= n
}

/// Whether an item is in ultra-high definition.
pub open spec fn is_ultra(row: Row) -> bool {
    at_least(row("Width"@), 3800) || at_least(row("Height"@), 2100)
}

/// Whether an item is known not to be in ultra-high definition.
pub open spec fn is_below_ultra(row: Row) -> bool {
    !(row("Width"@) is Null) && !(row("Height"@) is Null) && !is_ultra(row)
}

/// Whether an item is of one of the resolutions that are asked for.
pub open spec fn has_resolution(f: InternalItemsQuery, row: Row) -> bool {
    at_least(row("Width"@), 1) && {
        ||| f.is_hd == Some(false) && at_most(row("Width"@), 1199)
        ||| f.is_hd == Some(true) && at_least(row("Width"@), 1200) && is_below_ultra(row)
        ||| f.is_4k == Some(true) && is_ultra(row)
    }
}

/// Whether an item is as wide and high as a filter asks for, and locked or not.
pub open spec fn is_sized(f: InternalItemsQuery, row: Row) -> bool {
    &&& f.is_hd is Some || f.is_4k is Some ==> has_resolution(f, row)
    &&& f.min_width matches Some(n) ==> at_least(row("Width"@), n as int)
    &&& f.min_height matches Some(n) ==> at_least(row("Height"@), n as int)
    &&& f.max_width matches Some(n) ==> at_most(row("Width"@), n as int)
    &&& f.max_height matches Some(n) ==> at_most(row("Height"@), n as int)
    &&& f.is_locked matches Some(b) ==> row("IsLocked"@) == Val::Int(flag_number(b))
}

spec fn number_is(name: Seq<char>, op: Op, n: int) -> Cond {
    Cond::Compare(col(name), op, Expr::Number(n))
}

spec fn ultra_cond() -> Cond {
    Cond::Group(
        Box::new(
            Cond::Or(
                Box::new(number_is("Width"@, Op::Ge, 3800)),
                Box::new(number_is("Height"@, Op::Ge, 2100)),
            ),
        ),
    )
}

spec fn high_cond() -> Cond {
    Cond::Group(
        Box::new(
            Cond::And(
                Box::new(number_is("Width"@, Op::Ge, 1200)),
                Box::new(Cond::Not(Box::new(ultra_cond()))),
            ),
        ),
    )
}

spec fn classes_cond(f: InternalItemsQuery) -> Cond {
    let first = if f.is_hd == Some(false) {
        number_is("Width"@, Op::Lt, 1200)
    } else {
        high_cond()
    };
    if f.is_hd is Some && f.is_4k == Some(true) {
        Cond::Or(Box::new(first), Box::new(ultra_cond()))
    } else if f.is_hd is Some {
        first
    } else if f.is_4k == Some(true) {
        ultra_cond()
    } else {
        Cond::Number(0)
    }
}

spec fn resolution_cond(f: InternalItemsQuery) -> Cond {
    Cond::Group(
        Box::new(
            Cond::And(
                Box::new(number_is("Width"@, Op::Gt, 0)),
                Box::new(Cond::Group(Box::new(classes_cond(f)))),
            ),
        ),
    )
}

proof fn lemma_ultra_text()
    ensures
        chars(r#"(bi."Width" >= 3800 OR bi."Height" >= 2100)"#@) == text_of(ultra_cond()),
{
    reveal_with_fuel(text_of, 5);
    lemma_small_numbers();
    reveal(Said::spec_add);
    reveal_strlit(r#"(bi."Width" >= 3800 OR bi."Height" >= 2100)"#);
    reveal_strlit("(");
    reveal_strlit(")");
    reveal_strlit("bi");
    reveal_strlit(".");
    reveal_strlit("\"");
    reveal_strlit("Width");
    reveal_strlit("Height");
    reveal_strlit(" >= ");
    reveal_strlit("3800");
    reveal_strlit("2100");
    reveal_strlit(" OR ");
    assert(chars(r#"(bi."Width" >= 3800 OR bi."Height" >= 2100)"#@) =~= text_of(ultra_cond()));
}

proof fn lemma_high_text()
    ensures
        chars(
            r#"(bi."Width" >= 1200 AND NOT (bi."Width" >= 3800 OR bi."Height" >= 2100))"#@,
        ) == text_of(high_cond()),
{
    let all = r#"(bi."Width" >= 1200 AND NOT (bi."Width" >= 3800 OR bi."Height" >= 2100))"#@;
    let top = r#"(bi."Width" >= 3800 OR bi."Height" >= 2100)"#@;
    lemma_ultra_text();
    lemma_small_numbers();
    let w = number_is("Width"@, Op::Ge, 1200);
    let n = Cond::Not(Box::new(ultra_cond()));
    let g = Cond::And(Box::new(w), Box::new(n));
    assert(text_of(n) == chars("NOT "@) + chars(top));
    assert(text_of(g) == text_of(w) + chars(" AND "@) + text_of(n));
    assert(text_of(high_cond()) == chars("("@) + text_of(g) + chars(")"@));
    assert(chars(all) =~= chars("("@) + (text_of(w) + chars(" AND "@) + (chars("NOT "@) + chars(top)))
        + chars(")"@)) by {
        reveal(Said::spec_add);
        reveal_strlit(r#"(bi."Width" >= 1200 AND NOT (bi."Width" >= 3800 OR bi."Height" >= 2100))"#);
        reveal_strlit(r#"(bi."Width" >= 3800 OR bi."Height" >= 2100)"#);
        reveal_strlit("(");
        reveal_strlit(")");
        reveal_strlit("bi");
        reveal_strlit(".");
        reveal_strlit("\"");
        reveal_strlit("Width");
        reveal_strlit(" >= ");
        reveal_strlit("1200");
        reveal_strlit(" AND ");
        reveal_strlit("NOT ");
    }
}

pub(crate) proof fn lemma_flag_cases(b: Option<bool>)
    ensures
        b is None || b == Some(true) || b == Some(false),
{
    match b {
        Some(x) => {
            if x {
                assert(b == Some(true));
            } else {
                assert(b == Some(false));
            }
        },
        None => {},
    }
}

proof fn lemma_classes_truth(f: InternalItemsQuery, row: Row, db: Db)
    ensures
        truth(resolution_cond(f), only(row), db) == Some(true) <==> has_resolution(f, row),
{
    lemma_flag_cases(f.is_hd);
    lemma_flag_cases(f.is_4k);
    let s = only(row);
    let w = row("Width"@);
    let h = row("Height"@);
    let w_ultra = number_is("Width"@, Op::Ge, 3800);
    let h_ultra = number_is("Height"@, Op::Ge, 2100);
    let or_ultra = Cond::Or(Box::new(w_ultra), Box::new(h_ultra));
    assert(truth(w_ultra, s, db) == compared(w, Op::Ge, Val::Int(3800), db));
    assert(truth(h_ultra, s, db) == compared(h, Op::Ge, Val::Int(2100), db));
    assert(truth(or_ultra, s, db) == either(truth(w_ultra, s, db), truth(h_ultra, s, db)));
    assert(truth(ultra_cond(), s, db) == truth(or_ultra, s, db));
    let no_ultra = Cond::Not(Box::new(ultra_cond()));
    assert(truth(no_ultra, s, db) == negated(truth(ultra_cond(), s, db)));
    let w_high = number_is("Width"@, Op::Ge, 1200);
    assert(truth(w_high, s, db) == compared(w, Op::Ge, Val::Int(1200), db));
    let and_high = Cond::And(Box::new(w_high), Box::new(no_ultra));
    assert(truth(and_high, s, db) == both(truth(w_high, s, db), truth(no_ultra, s, db)));
    assert(truth(high_cond(), s, db) == truth(and_high, s, db));
    let w_low = number_is("Width"@, Op::Lt, 1200);
    assert(truth(w_low, s, db) == compared(w, Op::Lt, Val::Int(1200), db));
    let w_any = number_is("Width"@, Op::Gt, 0);
    assert(truth(w_any, s, db) == compared(w, Op::Gt, Val::Int(0), db));
    let first = if f.is_hd == Some(false) {
        w_low
    } else {
        high_cond()
    };
    let two = Cond::Or(Box::new(first), Box::new(ultra_cond()));
    assert(truth(two, s, db) == either(truth(first, s, db), truth(ultra_cond(), s, db)));
    assert(truth(Cond::Number(0), s, db) == Some(false));
    let g = Cond::Group(Box::new(classes_cond(f)));
    assert(truth(g, s, db) == truth(classes_cond(f), s, db));
    let all = Cond::And(Box::new(w_any), Box::new(g));
    assert(truth(all, s, db) == both(truth(w_any, s, db), truth(g, s, db)));
    assert(truth(resolution_cond(f), s, db) == truth(all, s, db));
}

proof fn lemma_classes_read(f: InternalItemsQuery)
    ensures
        reads_so(resolution_cond(f)),
{
    reveal_with_fuel(reads_so, 10);
}

proof fn lemma_classes_text(a: Sql, f: InternalItemsQuery) -> (d: Sql)
    ensures
        flat(d) == flat(a) + text_of(classes_cond(f)),
        forall|q: Sql|
            a == say(q, r#" AND (bi."Width" > 0 AND ("#@) ==> #[trigger] resolution_predicate(q, f)
                == say(d, "))"@),
{
    lemma_flag_cases(f.is_hd);
    lemma_flag_cases(f.is_4k);
    let low = r#"bi."Width" < 1200"#@;
    let mid = r#"(bi."Width" >= 1200 AND NOT (bi."Width" >= 3800 OR bi."Height" >= 2100))"#@;
    let top = r#"(bi."Width" >= 3800 OR bi."Height" >= 2100)"#@;
    lemma_small_numbers();
    lemma_ultra_text();
    lemma_high_text();
    assert(chars(low) =~= text_of(number_is("Width"@, Op::Lt, 1200))) by {
        reveal(Said::spec_add);
        reveal_strlit(r#"bi."Width" < 1200"#);
        reveal_strlit("bi");
        reveal_strlit(".");
        reveal_strlit("\"");
        reveal_strlit("Width");
        reveal_strlit(" < ");
        reveal_strlit("1200");
    }
    if f.is_hd is Some {
        let first = if f.is_hd == Some(false) {
            low
        } else {
            mid
        };
        let b = say(a, first);
        lemma_flat_say(a, first);
        if f.is_4k == Some(true) {
            lemma_flat_say(b, " OR "@);
            lemma_flat_say(say(b, " OR "@), top);
            let d = say(say(b, " OR "@), top);
            assert(flat(d) == flat(a) + text_of(classes_cond(f))) by {
                broadcast use {lemma_said_in_turn, lemma_said_nothing};

            }
            d
        } else {
            b
        }
    } else if f.is_4k == Some(true) {
        lemma_flat_say(a, top);
        say(a, top)
    } else {
        lemma_flat_say(a, "0"@);
        assert(text_of(Cond::Number(0)) == chars("0"@));
        say(a, "0"@)
    }
}

pub(crate) proof fn read_resolution(lead: Lead, q: Sql, cs: Seq<Cond>, f: InternalItemsQuery) -> (out: Seq<
    Cond,
>)
    requires
        spells(lead, q, cs),
    ensures
        spells(lead, resolution_predicate(q, f), out),
        forall|row: Row, db: Db| #[trigger]
            all_true(out, only(row), db) <==> all_true(cs, only(row), db) && has_resolution(f, row),
{
    let c = resolution_cond(f);
    let longer = resolution_predicate(q, f);
    let start = r#" AND (bi."Width" > 0 AND ("#@;
    let a = say(q, start);
    let w = number_is("Width"@, Op::Gt, 0);
    lemma_flat_say(q, start);
    lemma_small_numbers();
    assert(chars(start) =~= chars(" AND "@) + chars("("@) + text_of(w) + chars(" AND "@) + chars(
        "("@,
    )) by {
        reveal(Said::spec_add);
        reveal_strlit(r#" AND (bi."Width" > 0 AND ("#);
        reveal_strlit(" AND ");
        reveal_strlit("(");
        reveal_strlit("bi");
        reveal_strlit(".");
        reveal_strlit("\"");
        reveal_strlit("Width");
        reveal_strlit(" > ");
        reveal_strlit("0");
    }
    assert(chars("))"@) =~= chars(")"@) + chars(")"@)) by {
        reveal(Said::spec_add);
        reveal_strlit("))");
        reveal_strlit(")");
    }
    let d = lemma_classes_text(a, f);
    assert(longer == say(d, "))"@));
    lemma_flat_say(d, "))"@);
    let inner = classes_cond(f);
    let g = Cond::Group(Box::new(inner));
    let both_of = Cond::And(Box::new(w), Box::new(g));
    assert(text_of(g) == chars("("@) + text_of(inner) + chars(")"@));
    assert(text_of(both_of) == text_of(w) + chars(" AND "@) + text_of(g));
    assert(text_of(c) == chars("("@) + text_of(both_of) + chars(")"@));
    assert(flat(longer) == flat(q) + chars(" AND "@) + text_of(c)) by {
        broadcast use {lemma_said_in_turn, lemma_said_nothing};

    }
    lemma_classes_read(f);
    lemma_spells_more(lead, q, cs, longer, c);
    assert forall|row: Row, db: Db| #[trigger]
        all_true(cs.push(c), only(row), db) <==> all_true(cs, only(row), db) && has_resolution(
            f,
            row,
        ) by {
        lemma_classes_truth(f, row, db);
    }
    cs.push(c)
}

pub(crate) proof fn read_size(lead: Lead, q: Sql, cs: Seq<Cond>, f: InternalItemsQuery) -> (out: Seq<Cond>)
    requires
        spells(lead, q, cs),
    ensures
        spells(lead, size_predicates(q, f), out),
        forall|row: Row, db: Db| #[trigger]
            all_true(out, only(row), db) <==> all_true(cs, only(row), db) && is_sized(f, row),
{
    assert(chars(r#" AND bi."Width" >= "#@) =~= and_compare("Width"@, Op::Ge)) by {
        reveal(Said::spec_add);
        reveal_strlit(r#" AND bi."Width" >= "#);
        reveal_strlit(" AND ");
        reveal_strlit("bi");
        reveal_strlit(".");
        reveal_strlit("\"");
        reveal_strlit("Width");
        reveal_strlit(" >= ");
    }
    assert(chars(r#" AND bi."Height" >= "#@) =~= and_compare("Height"@, Op::Ge)) by {
        reveal(Said::spec_add);
        reveal_strlit(r#" AND bi."Height" >= "#);
        reveal_strlit(" AND ");
        reveal_strlit("bi");
        reveal_strlit(".");
        reveal_strlit("\"");
        reveal_strlit("Height");
        reveal_strlit(" >= ");
    }
    assert(chars(r#" AND bi."Width" <= "#@) =~= and_compare("Width"@, Op::Le)) by {
        reveal(Said::spec_add);
        reveal_strlit(r#" AND bi."Width" <= "#);
        reveal_strlit(" AND ");
        reveal_strlit("bi");
        reveal_strlit(".");
        reveal_strlit("\"");
        reveal_strlit("Width");
        reveal_strlit(" <= ");
    }
    assert(chars(r#" AND bi."Height" <= "#@) =~= and_compare("Height"@, Op::Le)) by {
        reveal(Said::spec_add);
        reveal_strlit(r#" AND bi."Height" <= "#);
        reveal_strlit(" AND ");
        reveal_strlit("bi");
        reveal_strlit(".");
        reveal_strlit("\"");
        reveal_strlit("Height");
        reveal_strlit(" <= ");
    }
    assert(chars(r#" AND bi."IsLocked" = "#@) =~= and_compare("IsLocked"@, Op::Eq)) by {
        reveal(Said::spec_add);
        reveal_strlit(r#" AND bi."IsLocked" = "#);
        reveal_strlit(" AND ");
        reveal_strlit("bi");
        reveal_strlit(".");
        reveal_strlit("\"");
        reveal_strlit("IsLocked");
        reveal_strlit(" = ");
    }
    let (q0, c0) = if f.is_hd is Some || f.is_4k is Some {
        (resolution_predicate(q, f), read_resolution(lead, q, cs, f))
    } else {
        (q, cs)
    };
    let q1 = say_int(q0, r#" AND bi."Width" >= "#@, f.min_width);
    let c1 = read_int(lead, q0, c0, r#" AND bi."Width" >= "#@, "Width"@, Op::Ge, f.min_width);
    let q2 = say_int(q1, r#" AND bi."Height" >= "#@, f.min_height);
    let c2 = read_int(lead, q1, c1, r#" AND bi."Height" >= "#@, "Height"@, Op::Ge, f.min_height);
    let q3 = say_int(q2, r#" AND bi."Width" <= "#@, f.max_width);
    let c3 = read_int(lead, q2, c2, r#" AND bi."Width" <= "#@, "Width"@, Op::Le, f.max_width);
    let q4 = say_int(q3, r#" AND bi."Height" <= "#@, f.max_height);
    let c4 = read_int(lead, q3, c3, r#" AND bi."Height" <= "#@, "Height"@, Op::Le, f.max_height);
    read_flag(lead, q4, c4, r#" AND bi."IsLocked" = "#@, "IsLocked"@, f.is_locked)
}

} // verus!
