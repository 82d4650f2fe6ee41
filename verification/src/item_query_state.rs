//! What the statement for a filter asks of the owner, the rating and the state of an item.
use vstd::prelude::*;

use crate::item_query_kinds::{is_one_of, lemma_one_of, read_ids};
use crate::item_query_meaning::{
    and_compare, col, is_among, lemma_flag_cases, lemma_small_numbers, read_flag, read_given,
    read_in, read_not_in, read_text,
};
use crate::items_query::InternalItemsQuery;
use crate::model::{media_type_text, MediaType};
use crate::number_text::{decimal, digits_of};
use crate::sql::{
    give, guid_values, int_values, say, say_either, say_flag, say_in, text_values, BindView, Sql,
};
use crate::sql_meaning::{
    all_true, both, chars, column_text, compared, either, fits, flag_number, flat, given, holds,
    hole, law_pattern_finds_the_part, lemma_flat_give, lemma_flat_say, lemma_said_in_turn,
    lemma_said_nothing, lemma_spells_and, lemma_spells_more, negated, no_wildcards, only, reads_so,
    spells, text_of, truth, Cond, Db, Expr, Lead, Op, Row, Said, Val,
};
use crate::text::texts;
use crate::translate_query::{
    media_names, owner_predicates, rating_predicates, season_predicate, state_predicates, NO_OWNER,
};

verus! {

// ---------------------------------------------------------------------------
// Lists
// ---------------------------------------------------------------------------
/// Whether a column holds one of some texts.
pub open spec fn is_text_of(v: Val, list: Seq<Seq<char>>) -> bool {
    exists|i: int| 0 <= i < list.len() && v == Val::Text(#[trigger] list[i])
}

/// Whether a column holds one of some numbers.
pub open spec fn is_number_of(v: Val, list: Seq<i32>) -> bool {
    exists|i: int| 0 <= i < list.len() && v == Val::Int((#[trigger] list[i]) as int)
}

/// Whether a column holds the name of one of some media types.
pub open spec fn is_media_of(v: Val, list: Seq<MediaType>) -> bool {
    exists|i: int| 0 <= i < list.len() && v == Val::Text(media_type_text(#[trigger] list[i]))
}

proof fn lemma_text_of(v: Val, list: Seq<Seq<char>>, db: Db)
    ensures
        is_among(v, text_values(list), db) <==> is_text_of(v, list),
{
    let values = text_values(list);
    if is_among(v, values, db) {
        let i = choose|i: int| 0 <= i < values.len() && given(#[trigger] values[i], db) == v;
        assert(v == Val::Text(list[i]));
    }
    if is_text_of(v, list) {
        let i = choose|i: int| 0 <= i < list.len() && v == Val::Text(#[trigger] list[i]);
        assert(given(values[i], db) == v);
    }
}

proof fn lemma_number_of(v: Val, list: Seq<i32>, db: Db)
    ensures
        is_among(v, int_values(list), db) <==> is_number_of(v, list),
{
    let values = int_values(list);
    if is_among(v, values, db) {
        let i = choose|i: int| 0 <= i < values.len() && given(#[trigger] values[i], db) == v;
        assert(v == Val::Int(list[i] as int));
    }
    if is_number_of(v, list) {
        let i = choose|i: int| 0 <= i < list.len() && v == Val::Int((#[trigger] list[i]) as int);
        assert(given(values[i], db) == v);
    }
}

proof fn lemma_media_of(v: Val, list: Seq<MediaType>, db: Db)
    ensures
        is_among(v, text_values(media_names(list)), db) <==> is_media_of(v, list),
{
    let names = media_names(list);
    lemma_text_of(v, names, db);
    if is_text_of(v, names) {
        let i = choose|i: int| 0 <= i < names.len() && v == Val::Text(#[trigger] names[i]);
        assert(v == Val::Text(media_type_text(list[i])));
    }
    if is_media_of(v, list) {
        let i = choose|i: int|
            0 <= i < list.len() && v == Val::Text(media_type_text(#[trigger] list[i]));
        assert(v == Val::Text(names[i]));
    }
}

proof fn read_list(
    lead: Lead,
    q: Sql,
    cs: Seq<Cond>,
    column: Seq<char>,
    name: Seq<char>,
    values: Seq<BindView>,
) -> (out: Seq<Cond>)
    requires
        spells(lead, q, cs),
        chars(column) == column_text("bi"@, name),
    ensures
        spells(lead, say_in(say(q, " AND "@), column, values), out),
        forall|row: Row, db: Db| #[trigger]
            all_true(out, only(row), db) <==> all_true(cs, only(row), db) && is_among(
                row(name),
                values,
                db,
            ),
{
    lemma_spells_and(lead, q, cs);
    read_in(lead, say(q, " AND "@), cs, column, name, values)
}

// ---------------------------------------------------------------------------
// Overview and rating
// ---------------------------------------------------------------------------
/// Whether a column holds something, and not the empty text.
pub open spec fn has_something(v: Val) -> bool {
    !(v is Null) && v != Val::Text(Seq::empty())
}

/// Whether an item's overview and rating are what a filter asks for.
pub open spec fn is_rated(f: InternalItemsQuery, row: Row) -> bool {
    &&& f.has_overview matches Some(b) ==> b == has_something(row("Overview"@))
    &&& f.has_official_rating matches Some(b) ==> b == has_something(row("OfficialRating"@))
    &&& f.official_ratings@.len() > 0 ==> is_text_of(
        row("OfficialRating"@),
        texts(f.official_ratings@),
    )
}

spec fn something_cond(name: Seq<char>) -> Cond {
    Cond::Group(
        Box::new(
            Cond::And(
                Box::new(Cond::NotNull(col(name))),
                Box::new(Cond::Compare(col(name), Op::Ne, Expr::Quoted(Seq::empty()))),
            ),
        ),
    )
}

spec fn nothing_cond(name: Seq<char>) -> Cond {
    Cond::Group(
        Box::new(
            Cond::Or(
                Box::new(Cond::IsNull(col(name))),
                Box::new(Cond::Compare(col(name), Op::Eq, Expr::Quoted(Seq::empty()))),
            ),
        ),
    )
}

spec fn something_text(name: Seq<char>) -> Said {
    chars("("@) + (column_text("bi"@, name) + chars(" IS NOT NULL"@) + chars(" AND "@) + (column_text(
        "bi"@,
        name,
    ) + chars(" <> "@) + (chars("'"@) + chars(Seq::empty()) + chars("'"@)))) + chars(")"@)
}

spec fn nothing_text(name: Seq<char>) -> Said {
    chars("("@) + (column_text("bi"@, name) + chars(" IS NULL"@) + chars(" OR "@) + (column_text(
        "bi"@,
        name,
    ) + chars(" = "@) + (chars("'"@) + chars(Seq::empty()) + chars("'"@)))) + chars(")"@)
}

proof fn read_something(
    lead: Lead,
    q: Sql,
    cs: Seq<Cond>,
    flag: Option<bool>,
    yes: Seq<char>,
    no: Seq<char>,
    name: Seq<char>,
) -> (out: Seq<Cond>)
    requires
        spells(lead, q, cs),
        chars(yes) == chars(" AND "@) + something_text(name),
        chars(no) == chars(" AND "@) + nothing_text(name),
    ensures
        spells(lead, say_either(q, flag, yes, no), out),
        forall|row: Row, db: Db| #[trigger]
            all_true(out, only(row), db) <==> all_true(cs, only(row), db) && (flag matches Some(b)
                ==> b == has_something(row(name))),
{
    let c = something_cond(name);
    let d = nothing_cond(name);
    let e = Expr::Quoted(Seq::empty());
    let c1 = Cond::NotNull(col(name));
    let c2 = Cond::Compare(col(name), Op::Ne, e);
    let c12 = Cond::And(Box::new(c1), Box::new(c2));
    let d1 = Cond::IsNull(col(name));
    let d2 = Cond::Compare(col(name), Op::Eq, e);
    let d12 = Cond::Or(Box::new(d1), Box::new(d2));
    assert(text_of(c12) == text_of(c1) + chars(" AND "@) + text_of(c2));
    assert(text_of(c) == chars("("@) + text_of(c12) + chars(")"@));
    assert(text_of(d12) == text_of(d1) + chars(" OR "@) + text_of(d2));
    assert(text_of(d) == chars("("@) + text_of(d12) + chars(")"@));
    assert(reads_so(c1) && reads_so(c2) && reads_so(d1) && reads_so(d2));
    assert(reads_so(c12) && reads_so(d12));
    assert(reads_so(c) && reads_so(d));
    lemma_flag_cases(flag);
    let out = match flag {
        Some(true) => read_text(lead, q, cs, yes, c),
        Some(false) => read_text(lead, q, cs, no, d),
        None => cs,
    };
    assert forall|row: Row, db: Db| #[trigger]
        all_true(out, only(row), db) <==> all_true(cs, only(row), db) && (flag matches Some(b) ==> b
            == has_something(row(name))) by {
        let s = only(row);
        let v = row(name);
        let w = Val::Text(Seq::empty());
        assert(truth(c1, s, db) == Some(!(v is Null)));
        assert(truth(c2, s, db) == compared(v, Op::Ne, w, db));
        assert(truth(d1, s, db) == Some(v is Null));
        assert(truth(d2, s, db) == compared(v, Op::Eq, w, db));
        assert(truth(c12, s, db) == both(truth(c1, s, db), truth(c2, s, db)));
        assert(truth(d12, s, db) == either(truth(d1, s, db), truth(d2, s, db)));
        assert(truth(c, s, db) == truth(c12, s, db));
        assert(truth(d, s, db) == truth(d12, s, db));
    }
    out
}

pub(crate) proof fn read_rating(lead: Lead, q: Sql, cs: Seq<Cond>, f: InternalItemsQuery) -> (out: Seq<
    Cond,
>)
    requires
        spells(lead, q, cs),
    ensures
        spells(lead, rating_predicates(q, f), out),
        forall|row: Row, db: Db| #[trigger]
            all_true(out, only(row), db) <==> all_true(cs, only(row), db) && is_rated(f, row),
{
    let y1 = r#" AND (bi."Overview" IS NOT NULL AND bi."Overview" <> '')"#@;
    let n1 = r#" AND (bi."Overview" IS NULL OR bi."Overview" = '')"#@;
    let y2 = r#" AND (bi."OfficialRating" IS NOT NULL AND bi."OfficialRating" <> '')"#@;
    let n2 = r#" AND (bi."OfficialRating" IS NULL OR bi."OfficialRating" = '')"#@;
    assert(chars(y1) =~= chars(" AND "@) + something_text("Overview"@)) by {
        reveal(Said::spec_add);
        reveal_strlit(r#" AND (bi."Overview" IS NOT NULL AND bi."Overview" <> '')"#);
        reveal_strlit(" AND ");
        reveal_strlit("(");
        reveal_strlit("bi");
        reveal_strlit(".");
        reveal_strlit("\"");
        reveal_strlit("Overview");
        reveal_strlit(" IS NOT NULL");
        reveal_strlit(" <> ");
        reveal_strlit("'");
        reveal_strlit(")");
    }
    assert(chars(n1) =~= chars(" AND "@) + nothing_text("Overview"@)) by {
        reveal(Said::spec_add);
        reveal_strlit(r#" AND (bi."Overview" IS NULL OR bi."Overview" = '')"#);
        reveal_strlit(" AND ");
        reveal_strlit("(");
        reveal_strlit("bi");
        reveal_strlit(".");
        reveal_strlit("\"");
        reveal_strlit("Overview");
        reveal_strlit(" IS NULL");
        reveal_strlit(" OR ");
        reveal_strlit(" = ");
        reveal_strlit("'");
        reveal_strlit(")");
    }
    assert(chars(y2) =~= chars(" AND "@) + something_text("OfficialRating"@)) by {
        reveal(Said::spec_add);
        reveal_strlit(r#" AND (bi."OfficialRating" IS NOT NULL AND bi."OfficialRating" <> '')"#);
        reveal_strlit(" AND ");
        reveal_strlit("(");
        reveal_strlit("bi");
        reveal_strlit(".");
        reveal_strlit("\"");
        reveal_strlit("OfficialRating");
        reveal_strlit(" IS NOT NULL");
        reveal_strlit(" <> ");
        reveal_strlit("'");
        reveal_strlit(")");
    }
    assert(chars(n2) =~= chars(" AND "@) + nothing_text("OfficialRating"@)) by {
        reveal(Said::spec_add);
        reveal_strlit(r#" AND (bi."OfficialRating" IS NULL OR bi."OfficialRating" = '')"#);
        reveal_strlit(" AND ");
        reveal_strlit("(");
        reveal_strlit("bi");
        reveal_strlit(".");
        reveal_strlit("\"");
        reveal_strlit("OfficialRating");
        reveal_strlit(" IS NULL");
        reveal_strlit(" OR ");
        reveal_strlit(" = ");
        reveal_strlit("'");
        reveal_strlit(")");
    }
    let a = say_either(q, f.has_overview, y1, n1);
    let ca = read_something(lead, q, cs, f.has_overview, y1, n1, "Overview"@);
    let b = say_either(a, f.has_official_rating, y2, n2);
    let cb = read_something(lead, a, ca, f.has_official_rating, y2, n2, "OfficialRating"@);
    let column = r#"bi."OfficialRating""#@;
    assert(chars(column) =~= column_text("bi"@, "OfficialRating"@)) by {
        reveal(Said::spec_add);
        reveal_strlit(r#"bi."OfficialRating""#);
        reveal_strlit("bi");
        reveal_strlit(".");
        reveal_strlit("\"");
        reveal_strlit("OfficialRating");
    }
    let values = text_values(texts(f.official_ratings@));
    let out = if f.official_ratings@.len() > 0 {
        read_list(lead, b, cb, column, "OfficialRating"@, values)
    } else {
        cb
    };
    assert forall|row: Row, db: Db| #[trigger]
        all_true(out, only(row), db) <==> all_true(cs, only(row), db) && is_rated(f, row) by {
        lemma_text_of(row("OfficialRating"@), texts(f.official_ratings@), db);
    }
    out
}

// ---------------------------------------------------------------------------
// Owners
// ---------------------------------------------------------------------------
/// Whether an item has an owner: one that is not the nil identifier.
pub open spec fn has_owner(row: Row) -> bool {
    !(row("OwnerId"@) is Null) && row("OwnerId"@) != Val::Text(
        "00000000-0000-0000-0000-000000000000"@,
    )
}

/// Whether an item's owner and extra type are what a filter asks for. One that asks for
/// neither gets items without an owner, and extras; and no other versions of an item, save
/// where it asks for what can be resumed.
pub open spec fn is_owned(f: InternalItemsQuery, row: Row) -> bool {
    &&& f.has_owner_id matches Some(b) ==> b == has_owner(row)
    &&& (f.has_owner_id is None && f.owner_ids@.len() == 0 && f.extra_types@.len() == 0
        && !f.include_owned_items) ==> {
        &&& !has_owner(row) || !(row("ExtraType"@) is Null)
        &&& f.is_resumable == Some(true) || row("PrimaryVersionId"@) is Null
    }
    &&& f.owner_ids@.len() > 0 ==> is_one_of(row("OwnerId"@), f.owner_ids@)
    &&& f.extra_types@.len() > 0 ==> is_number_of(row("ExtraType"@), f.extra_types@)
}

spec fn unowned() -> Cond {
    Cond::Group(
        Box::new(
            Cond::Or(
                Box::new(Cond::IsNull(col("OwnerId"@))),
                Box::new(
                    Cond::Compare(
                        col("OwnerId"@),
                        Op::Eq,
                        Expr::Quoted("00000000-0000-0000-0000-000000000000"@),
                    ),
                ),
            ),
        ),
    )
}

proof fn lemma_unowned()
    ensures
        chars(NO_OWNER@) == text_of(unowned()),
        reads_so(unowned()),
        forall|row: Row, db: Db| #[trigger]
            truth(unowned(), only(row), db) == Some(!has_owner(row)),
{
    let zeros = "00000000-0000-0000-0000-000000000000"@;
    let a = Cond::IsNull(col("OwnerId"@));
    let b = Cond::Compare(col("OwnerId"@), Op::Eq, Expr::Quoted(zeros));
    let ab = Cond::Or(Box::new(a), Box::new(b));
    let c = unowned();
    assert(text_of(a) == column_text("bi"@, "OwnerId"@) + chars(" IS NULL"@));
    assert(text_of(b) == column_text("bi"@, "OwnerId"@) + chars(" = "@) + (chars("'"@) + chars(zeros)
        + chars("'"@)));
    assert(text_of(ab) == text_of(a) + chars(" OR "@) + text_of(b));
    assert(text_of(c) == chars("("@) + text_of(ab) + chars(")"@));
    assert(chars(NO_OWNER@) =~= chars("("@) + (column_text("bi"@, "OwnerId"@) + chars(" IS NULL"@)
        + chars(" OR "@) + (column_text("bi"@, "OwnerId"@) + chars(" = "@) + (chars("'"@) + chars(zeros)
        + chars("'"@)))) + chars(")"@)) by {
        reveal(Said::spec_add);
        reveal_strlit(r#"(bi."OwnerId" IS NULL OR bi."OwnerId" = '00000000-0000-0000-0000-000000000000')"#);
        reveal_strlit("(");
        reveal_strlit("bi");
        reveal_strlit(".");
        reveal_strlit("\"");
        reveal_strlit("OwnerId");
        reveal_strlit(" IS NULL");
        reveal_strlit(" OR ");
        reveal_strlit(" = ");
        reveal_strlit("'");
        reveal_strlit("00000000-0000-0000-0000-000000000000");
        reveal_strlit(")");
    }
    assert(reads_so(a) && reads_so(b));
    assert(reads_so(ab));
    assert(reads_so(c));
    assert forall|row: Row, db: Db| #[trigger]
        truth(unowned(), only(row), db) == Some(!has_owner(row)) by {
        let s = only(row);
        let v = row("OwnerId"@);
        assert(truth(a, s, db) == Some(v is Null));
        assert(truth(b, s, db) == compared(v, Op::Eq, Val::Text(zeros), db));
        assert(truth(ab, s, db) == either(truth(a, s, db), truth(b, s, db)));
        assert(truth(c, s, db) == truth(ab, s, db));
    }
}

proof fn read_owner_flag(lead: Lead, q: Sql, cs: Seq<Cond>, b: bool) -> (out: Seq<Cond>)
    requires
        spells(lead, q, cs),
    ensures
        spells(
            lead,
            say(
                say(
                    q,
                    if b {
                        " AND NOT "@
                    } else {
                        " AND "@
                    },
                ),
                NO_OWNER@,
            ),
            out,
        ),
        forall|row: Row, db: Db| #[trigger]
            all_true(out, only(row), db) <==> all_true(cs, only(row), db) && b == has_owner(row),
{
    lemma_unowned();
    let words = if b {
        " AND NOT "@
    } else {
        " AND "@
    };
    let n = Cond::Not(Box::new(unowned()));
    let c = if b {
        n
    } else {
        unowned()
    };
    let a = say(q, words);
    let longer = say(a, NO_OWNER@);
    lemma_flat_say(q, words);
    lemma_flat_say(a, NO_OWNER@);
    assert(text_of(n) == chars("NOT "@) + text_of(unowned()));
    assert(reads_so(n));
    assert(chars(" AND NOT "@) =~= chars(" AND "@) + chars("NOT "@)) by {
        reveal(Said::spec_add);
        reveal_strlit(" AND NOT ");
        reveal_strlit(" AND ");
        reveal_strlit("NOT ");
    }
    assert(flat(longer) == flat(q) + chars(" AND "@) + text_of(c)) by {
        broadcast use {lemma_said_in_turn, lemma_said_nothing};

    }
    lemma_spells_more(lead, q, cs, longer, c);
    assert forall|row: Row, db: Db| #[trigger]
        all_true(cs.push(c), only(row), db) <==> all_true(cs, only(row), db) && b == has_owner(row) by {
        let s = only(row);
        assert(truth(unowned(), s, db) == Some(!has_owner(row)));
        assert(truth(n, s, db) == negated(truth(unowned(), s, db)));
    }
    cs.push(c)
}

proof fn read_unowned(lead: Lead, q: Sql, cs: Seq<Cond>, resumable: bool) -> (out: Seq<Cond>)
    requires
        spells(lead, q, cs),
    ensures
        spells(
            lead,
            say(
                say(
                    say(
                        q,
                        if resumable {
                            " AND ("@
                        } else {
                            r#" AND bi."PrimaryVersionId" IS NULL AND ("#@
                        },
                    ),
                    NO_OWNER@,
                ),
                r#" OR bi."ExtraType" IS NOT NULL)"#@,
            ),
            out,
        ),
        forall|row: Row, db: Db| #[trigger]
            all_true(out, only(row), db) <==> all_true(cs, only(row), db) && (!has_owner(row) || !(row(
                "ExtraType"@,
            ) is Null)) && (resumable || row("PrimaryVersionId"@) is Null),
{
    lemma_unowned();
    let words = if resumable {
        " AND ("@
    } else {
        r#" AND bi."PrimaryVersionId" IS NULL AND ("#@
    };
    let t = r#" OR bi."ExtraType" IS NOT NULL)"#@;
    let a = say(q, words);
    let b = say(a, NO_OWNER@);
    let longer = say(b, t);
    lemma_flat_say(q, words);
    lemma_flat_say(a, NO_OWNER@);
    lemma_flat_say(b, t);
    let v = Cond::IsNull(col("PrimaryVersionId"@));
    let e = Cond::NotNull(col("ExtraType"@));
    let o = Cond::Or(Box::new(unowned()), Box::new(e));
    let g = Cond::Group(Box::new(o));
    assert(text_of(v) == column_text("bi"@, "PrimaryVersionId"@) + chars(" IS NULL"@));
    assert(text_of(e) == column_text("bi"@, "ExtraType"@) + chars(" IS NOT NULL"@));
    assert(text_of(o) == text_of(unowned()) + chars(" OR "@) + text_of(e));
    assert(text_of(g) == chars("("@) + text_of(o) + chars(")"@));
    assert(reads_so(v) && reads_so(e));
    assert(reads_so(o));
    assert(reads_so(g));
    assert(chars(t) =~= chars(" OR "@) + (column_text("bi"@, "ExtraType"@) + chars(" IS NOT NULL"@))
        + chars(")"@)) by {
        reveal(Said::spec_add);
        reveal_strlit(r#" OR bi."ExtraType" IS NOT NULL)"#);
        reveal_strlit(" OR ");
        reveal_strlit("bi");
        reveal_strlit(".");
        reveal_strlit("\"");
        reveal_strlit("ExtraType");
        reveal_strlit(" IS NOT NULL");
        reveal_strlit(")");
    }
    assert(chars(" AND ("@) =~= chars(" AND "@) + chars("("@)) by {
        reveal(Said::spec_add);
        reveal_strlit(" AND (");
        reveal_strlit(" AND ");
        reveal_strlit("(");
    }
    let first = r#" AND bi."PrimaryVersionId" IS NULL"#@;
    assert(chars(r#" AND bi."PrimaryVersionId" IS NULL AND ("#@) =~= chars(first) + chars(" AND "@)
        + chars("("@)) by {
        reveal(Said::spec_add);
        reveal_strlit(r#" AND bi."PrimaryVersionId" IS NULL AND ("#);
        reveal_strlit(r#" AND bi."PrimaryVersionId" IS NULL"#);
        reveal_strlit(" AND ");
        reveal_strlit("(");
    }
    assert(chars(first) =~= chars(" AND "@) + (column_text("bi"@, "PrimaryVersionId"@) + chars(
        " IS NULL"@,
    ))) by {
        reveal(Said::spec_add);
        reveal_strlit(r#" AND bi."PrimaryVersionId" IS NULL"#);
        reveal_strlit(" AND ");
        reveal_strlit("bi");
        reveal_strlit(".");
        reveal_strlit("\"");
        reveal_strlit("PrimaryVersionId");
        reveal_strlit(" IS NULL");
    }
    let (q1, c1) = if resumable {
        (q, cs)
    } else {
        (say(q, first), read_text(lead, q, cs, first, v))
    };
    lemma_flat_say(q, first);
    assert(flat(longer) == flat(q1) + chars(" AND "@) + text_of(g)) by {
        broadcast use {lemma_said_in_turn, lemma_said_nothing};

    }
    lemma_spells_more(lead, q1, c1, longer, g);
    let out = c1.push(g);
    assert forall|row: Row, db: Db| #[trigger]
        all_true(out, only(row), db) <==> all_true(cs, only(row), db) && (!has_owner(row) || !(row(
            "ExtraType"@,
        ) is Null)) && (resumable || row("PrimaryVersionId"@) is Null) by {
        let s = only(row);
        assert(truth(unowned(), s, db) == Some(!has_owner(row)));
        assert(truth(v, s, db) == Some(row("PrimaryVersionId"@) is Null));
        assert(truth(e, s, db) == Some(!(row("ExtraType"@) is Null)));
        assert(truth(o, s, db) == either(truth(unowned(), s, db), truth(e, s, db)));
        assert(truth(g, s, db) == truth(o, s, db));
    }
    out
}

proof fn read_owner_rule(lead: Lead, q: Sql, cs: Seq<Cond>, f: InternalItemsQuery) -> (r: (
    Sql,
    Seq<Cond>,
))
    requires
        spells(lead, q, cs),
    ensures
        r.0 == match f.has_owner_id {
            Some(true) => say(say(q, " AND NOT "@), NO_OWNER@),
            Some(false) => say(say(q, " AND "@), NO_OWNER@),
            None => if f.owner_ids@.len() == 0 && f.extra_types@.len() == 0
                && !f.include_owned_items {
                let lead = if f.is_resumable == Some(true) {
                    " AND ("@
                } else {
                    r#" AND bi."PrimaryVersionId" IS NULL AND ("#@
                };
                say(say(say(q, lead), NO_OWNER@), r#" OR bi."ExtraType" IS NOT NULL)"#@)
            } else {
                q
            },
        },
        spells(lead, r.0, r.1),
        forall|row: Row, db: Db| #[trigger]
            all_true(r.1, only(row), db) <==> all_true(cs, only(row), db) && (f.has_owner_id matches Some(
                b,
            ) ==> b == has_owner(row)) && ((f.has_owner_id is None && f.owner_ids@.len() == 0
                && f.extra_types@.len() == 0 && !f.include_owned_items) ==> (!has_owner(row) || !(row(
                "ExtraType"@,
            ) is Null)) && (f.is_resumable == Some(true) || row("PrimaryVersionId"@) is Null)),
{
    lemma_flag_cases(f.has_owner_id);
    let t = r#" OR bi."ExtraType" IS NOT NULL)"#@;
    match f.has_owner_id {
        Some(true) => (
            say(say(q, " AND NOT "@), NO_OWNER@),
            read_owner_flag(lead, q, cs, true),
        ),
        Some(false) => (say(say(q, " AND "@), NO_OWNER@), read_owner_flag(lead, q, cs, false)),
        None => if f.owner_ids@.len() == 0 && f.extra_types@.len() == 0 && !f.include_owned_items {
            if f.is_resumable == Some(true) {
                (
                    say(say(say(q, " AND ("@), NO_OWNER@), t),
                    read_unowned(lead, q, cs, true),
                )
            } else {
                (
                    say(
                        say(say(q, r#" AND bi."PrimaryVersionId" IS NULL AND ("#@), NO_OWNER@),
                        t,
                    ),
                    read_unowned(lead, q, cs, false),
                )
            }
        } else {
            (q, cs)
        },
    }
}

pub(crate) proof fn read_owner(lead: Lead, q: Sql, cs: Seq<Cond>, f: InternalItemsQuery) -> (out: Seq<
    Cond,
>)
    requires
        spells(lead, q, cs),
    ensures
        spells(lead, owner_predicates(q, f), out),
        forall|row: Row, db: Db| #[trigger]
            all_true(out, only(row), db) <==> all_true(cs, only(row), db) && is_owned(f, row),
{
    let (a, ca) = read_owner_rule(lead, q, cs, f);
    let t1 = r#" AND bi."OwnerId" IS NOT NULL AND "#@;
    let column1 = r#"bi."OwnerId""#@;
    assert(chars(t1) =~= chars(" AND "@) + text_of(Cond::NotNull(col("OwnerId"@))) + chars(" AND "@)) by {
        reveal(Said::spec_add);
        reveal_strlit(r#" AND bi."OwnerId" IS NOT NULL AND "#);
        reveal_strlit(" AND ");
        reveal_strlit("bi");
        reveal_strlit(".");
        reveal_strlit("\"");
        reveal_strlit("OwnerId");
        reveal_strlit(" IS NOT NULL");
    }
    assert(chars(column1) =~= column_text("bi"@, "OwnerId"@)) by {
        reveal(Said::spec_add);
        reveal_strlit(r#"bi."OwnerId""#);
        reveal_strlit("bi");
        reveal_strlit(".");
        reveal_strlit("\"");
        reveal_strlit("OwnerId");
    }
    let t2 = r#" AND bi."ExtraType" IS NOT NULL AND "#@;
    let column2 = r#"bi."ExtraType""#@;
    assert(chars(t2) =~= chars(" AND "@) + text_of(Cond::NotNull(col("ExtraType"@))) + chars(" AND "@)) by {
        reveal(Said::spec_add);
        reveal_strlit(r#" AND bi."ExtraType" IS NOT NULL AND "#);
        reveal_strlit(" AND ");
        reveal_strlit("bi");
        reveal_strlit(".");
        reveal_strlit("\"");
        reveal_strlit("ExtraType");
        reveal_strlit(" IS NOT NULL");
    }
    assert(chars(column2) =~= column_text("bi"@, "ExtraType"@)) by {
        reveal(Said::spec_add);
        reveal_strlit(r#"bi."ExtraType""#);
        reveal_strlit("bi");
        reveal_strlit(".");
        reveal_strlit("\"");
        reveal_strlit("ExtraType");
    }
    let owners = guid_values(f.owner_ids@);
    let extras = int_values(f.extra_types@);
    let (b, cb) = if f.owner_ids@.len() > 0 {
        (say_in(say(a, t1), column1, owners), read_ids(lead, a, ca, t1, column1, "OwnerId"@, owners))
    } else {
        (a, ca)
    };
    let out = if f.extra_types@.len() > 0 {
        read_ids(lead, b, cb, t2, column2, "ExtraType"@, extras)
    } else {
        cb
    };
    assert forall|row: Row, db: Db| #[trigger]
        all_true(out, only(row), db) <==> all_true(cs, only(row), db) && is_owned(f, row) by {
        lemma_one_of(row("OwnerId"@), f.owner_ids@, db);
        lemma_number_of(row("ExtraType"@), f.extra_types@, db);
    }
    out
}

// ---------------------------------------------------------------------------
// State
// ---------------------------------------------------------------------------
/// Whether an item's year, state, media type and identifier are those that a filter asks
/// for.
pub open spec fn is_in_state(f: InternalItemsQuery, row: Row) -> bool {
    &&& f.years@.len() > 0 ==> is_number_of(row("ProductionYear"@), f.years@)
    &&& f.is_virtual_item matches Some(b) ==> row("IsVirtualItem"@) == Val::Int(flag_number(b))
    &&& f.is_virtual_item is None ==> (f.is_missing matches Some(b) ==> row("IsVirtualItem"@)
        == Val::Int(flag_number(b)))
    &&& f.is_special_season matches Some(b) ==> !(row("IndexNumber"@) is Null) && b == (row(
        "IndexNumber"@,
    ) == Val::Int(0))
    &&& f.media_types@.len() > 0 ==> is_media_of(row("MediaType"@), f.media_types@)
    &&& f.item_ids@.len() > 0 ==> is_one_of(row("Id"@), f.item_ids@)
    &&& f.exclude_item_ids@.len() > 0 ==> !(row("Id"@) is Null) && !is_one_of(
        row("Id"@),
        f.exclude_item_ids@,
    )
}

proof fn read_special(lead: Lead, q: Sql, cs: Seq<Cond>, flag: Option<bool>) -> (out: Seq<Cond>)
    requires
        spells(lead, q, cs),
    ensures
        spells(
            lead,
            say_either(
                q,
                flag,
                r#" AND bi."IndexNumber" = 0"#@,
                r#" AND bi."IndexNumber" <> 0"#@,
            ),
            out,
        ),
        forall|row: Row, db: Db| #[trigger]
            all_true(out, only(row), db) <==> all_true(cs, only(row), db) && (flag matches Some(b)
                ==> !(row("IndexNumber"@) is Null) && b == (row("IndexNumber"@) == Val::Int(0))),
{
    let yes = r#" AND bi."IndexNumber" = 0"#@;
    let no = r#" AND bi."IndexNumber" <> 0"#@;
    let c = Cond::Compare(col("IndexNumber"@), Op::Eq, Expr::Number(0));
    let d = Cond::Compare(col("IndexNumber"@), Op::Ne, Expr::Number(0));
    lemma_small_numbers();
    assert(text_of(c) == column_text("bi"@, "IndexNumber"@) + chars(" = "@) + chars("0"@));
    assert(text_of(d) == column_text("bi"@, "IndexNumber"@) + chars(" <> "@) + chars("0"@));
    assert(chars(yes) =~= chars(" AND "@) + (column_text("bi"@, "IndexNumber"@) + chars(" = "@)
        + chars("0"@))) by {
        reveal(Said::spec_add);
        reveal_strlit(r#" AND bi."IndexNumber" = 0"#);
        reveal_strlit(" AND ");
        reveal_strlit("bi");
        reveal_strlit(".");
        reveal_strlit("\"");
        reveal_strlit("IndexNumber");
        reveal_strlit(" = ");
        reveal_strlit("0");
    }
    assert(chars(no) =~= chars(" AND "@) + (column_text("bi"@, "IndexNumber"@) + chars(" <> "@)
        + chars("0"@))) by {
        reveal(Said::spec_add);
        reveal_strlit(r#" AND bi."IndexNumber" <> 0"#);
        reveal_strlit(" AND ");
        reveal_strlit("bi");
        reveal_strlit(".");
        reveal_strlit("\"");
        reveal_strlit("IndexNumber");
        reveal_strlit(" <> ");
        reveal_strlit("0");
    }
    assert(reads_so(c) && reads_so(d));
    lemma_flag_cases(flag);
    let out = match flag {
        Some(true) => read_text(lead, q, cs, yes, c),
        Some(false) => read_text(lead, q, cs, no, d),
        None => cs,
    };
    assert forall|row: Row, db: Db| #[trigger]
        all_true(out, only(row), db) <==> all_true(cs, only(row), db) && (flag matches Some(b)
            ==> !(row("IndexNumber"@) is Null) && b == (row("IndexNumber"@) == Val::Int(0))) by {
        let s = only(row);
        assert(truth(c, s, db) == compared(row("IndexNumber"@), Op::Eq, Val::Int(0), db));
        assert(truth(d, s, db) == compared(row("IndexNumber"@), Op::Ne, Val::Int(0), db));
    }
    out
}

pub(crate) proof fn read_state(lead: Lead, q: Sql, cs: Seq<Cond>, f: InternalItemsQuery) -> (out: Seq<
    Cond,
>)
    requires
        spells(lead, q, cs),
    ensures
        spells(lead, state_predicates(q, f), out),
        forall|row: Row, db: Db| #[trigger]
            all_true(out, only(row), db) <==> all_true(cs, only(row), db) && is_in_state(f, row),
{
    let year = r#"bi."ProductionYear""#@;
    let media = r#"bi."MediaType""#@;
    let id = r#"bi."Id""#@;
    assert(chars(year) =~= column_text("bi"@, "ProductionYear"@)) by {
        reveal(Said::spec_add);
        reveal_strlit(r#"bi."ProductionYear""#);
        reveal_strlit("bi");
        reveal_strlit(".");
        reveal_strlit("\"");
        reveal_strlit("ProductionYear");
    }
    assert(chars(media) =~= column_text("bi"@, "MediaType"@)) by {
        reveal(Said::spec_add);
        reveal_strlit(r#"bi."MediaType""#);
        reveal_strlit("bi");
        reveal_strlit(".");
        reveal_strlit("\"");
        reveal_strlit("MediaType");
    }
    assert(chars(id) =~= column_text("bi"@, "Id"@)) by {
        reveal(Said::spec_add);
        reveal_strlit(r#"bi."Id""#);
        reveal_strlit("bi");
        reveal_strlit(".");
        reveal_strlit("\"");
        reveal_strlit("Id");
    }
    assert(chars(r#" AND bi."IsVirtualItem" = "#@) =~= and_compare("IsVirtualItem"@, Op::Eq)) by {
        reveal(Said::spec_add);
        reveal_strlit(r#" AND bi."IsVirtualItem" = "#);
        reveal_strlit(" AND ");
        reveal_strlit("bi");
        reveal_strlit(".");
        reveal_strlit("\"");
        reveal_strlit("IsVirtualItem");
        reveal_strlit(" = ");
    }
    let years = int_values(f.years@);
    let (a, ca) = if f.years@.len() > 0 {
        (
            say_in(say(q, " AND "@), year, years),
            read_list(lead, q, cs, year, "ProductionYear"@, years),
        )
    } else {
        (q, cs)
    };
    let flag = if f.is_virtual_item is Some {
        f.is_virtual_item
    } else {
        f.is_missing
    };
    let t = r#" AND bi."IsVirtualItem" = "#@;
    let b = say_flag(a, t, flag);
    let cb = read_flag(lead, a, ca, t, "IsVirtualItem"@, flag);
    let c = say_either(
        b,
        f.is_special_season,
        r#" AND bi."IndexNumber" = 0"#@,
        r#" AND bi."IndexNumber" <> 0"#@,
    );
    let cc = read_special(lead, b, cb, f.is_special_season);
    let medias = text_values(media_names(f.media_types@));
    let (d, cd) = if f.media_types@.len() > 0 {
        (
            say_in(say(c, " AND "@), media, medias),
            read_list(lead, c, cc, media, "MediaType"@, medias),
        )
    } else {
        (c, cc)
    };
    let ids = guid_values(f.item_ids@);
    let (e, ce) = if f.item_ids@.len() > 0 {
        (say_in(say(d, " AND "@), id, ids), read_list(lead, d, cd, id, "Id"@, ids))
    } else {
        (d, cd)
    };
    let others = guid_values(f.exclude_item_ids@);
    let out = if f.exclude_item_ids@.len() > 0 {
        read_not_in(lead, e, ce, id, "Id"@, others)
    } else {
        ce
    };
    assert forall|row: Row, db: Db| #[trigger]
        all_true(out, only(row), db) <==> all_true(cs, only(row), db) && is_in_state(f, row) by {
        lemma_number_of(row("ProductionYear"@), f.years@, db);
        lemma_media_of(row("MediaType"@), f.media_types@, db);
        lemma_one_of(row("Id"@), f.item_ids@, db);
        lemma_one_of(row("Id"@), f.exclude_item_ids@, db);
    }
    out
}

// ---------------------------------------------------------------------------
// The season that an episode aired in
// ---------------------------------------------------------------------------
/// Whether what is stored of an item holds a text.
pub open spec fn data_holds(row: Row, part: Seq<char>) -> bool {
    row("Data"@) matches Val::Text(t) && holds(t, part)
}

/// Whether an item aired during the season that a filter asks for: it is of the season, or,
/// where the season is a regular one, aired right behind or before it.
pub open spec fn is_aired(f: InternalItemsQuery, row: Row) -> bool {
    f.aired_during_season matches Some(n) ==> {
        ||| row("ParentIndexNumber"@) == Val::Int(n as int)
        ||| n >= 1 && data_holds(row, r#""AirsAfterSeasonNumber":"#@ + decimal(n as int))
        ||| n >= 1 && data_holds(row, r#""AirsBeforeSeasonNumber":"#@ + decimal(n as int))
    }
}

proof fn lemma_digits_are_plain(n: nat)
    ensures
        no_wildcards(digits_of(n)),
    decreases n,
{
    if n >= 10 {
        lemma_digits_are_plain(n / 10);
        let d = digits_of(n / 10);
        assert forall|i: int| 0 <= i < digits_of(n).len() implies (#[trigger] digits_of(n)[i]) != '%'
            && digits_of(n)[i] != '_' by {
            if i < d.len() {
                assert(digits_of(n)[i] == d[i]);
            }
        }
    }
}

proof fn lemma_season_pattern(t: Seq<char>, n: int)
    requires
        n >= 0,
    ensures
        fits(t, r#"%"AirsAfterSeasonNumber":"#@ + decimal(n) + "%"@) <==> holds(
            t,
            r#""AirsAfterSeasonNumber":"#@ + decimal(n),
        ),
        fits(t, r#"%"AirsBeforeSeasonNumber":"#@ + decimal(n) + "%"@) <==> holds(
            t,
            r#""AirsBeforeSeasonNumber":"#@ + decimal(n),
        ),
{
    let d = decimal(n);
    lemma_digits_are_plain(n as nat);
    let a = r#""AirsAfterSeasonNumber":"#@;
    let b = r#""AirsBeforeSeasonNumber":"#@;
    assert(no_wildcards(a) && no_wildcards(b)) by {
        reveal_strlit(r#""AirsAfterSeasonNumber":"#);
        reveal_strlit(r#""AirsBeforeSeasonNumber":"#);
    }
    assert(r#"%"AirsAfterSeasonNumber":"#@ =~= "%"@ + a) by {
        reveal_strlit(r#"%"AirsAfterSeasonNumber":"#);
        reveal_strlit(r#""AirsAfterSeasonNumber":"#);
        reveal_strlit("%");
    }
    assert(r#"%"AirsBeforeSeasonNumber":"#@ =~= "%"@ + b) by {
        reveal_strlit(r#"%"AirsBeforeSeasonNumber":"#);
        reveal_strlit(r#""AirsBeforeSeasonNumber":"#);
        reveal_strlit("%");
    }
    assert("%"@ + a + d + "%"@ =~= "%"@ + (a + d) + "%"@);
    assert("%"@ + b + d + "%"@ =~= "%"@ + (b + d) + "%"@);
    assert(no_wildcards(a + d));
    assert(no_wildcards(b + d));
    law_pattern_finds_the_part(t, a + d);
    law_pattern_finds_the_part(t, b + d);
}

spec fn season_number(n: int) -> Cond {
    Cond::Compare(col("ParentIndexNumber"@), Op::Eq, Expr::Given(BindView::Int(n)))
}

spec fn data_like(start: Seq<char>, n: int) -> Cond {
    Cond::Compare(
        col("Data"@),
        Op::Like,
        Expr::Given(BindView::Text(start + decimal(n) + "%"@)),
    )
}

spec fn around(n: int) -> Cond {
    Cond::Or(
        Box::new(data_like(r#"%"AirsAfterSeasonNumber":"#@, n)),
        Box::new(data_like(r#"%"AirsBeforeSeasonNumber":"#@, n)),
    )
}

spec fn stored_around(n: int) -> Cond {
    Cond::And(
        Box::new(Cond::NotNull(col("Data"@))),
        Box::new(Cond::Group(Box::new(around(n)))),
    )
}

spec fn of_season(n: int) -> Cond {
    Cond::Or(
        Box::new(season_number(n)),
        Box::new(Cond::Group(Box::new(stored_around(n)))),
    )
}

proof fn lemma_season_reads(n: int)
    ensures
        reads_so(Cond::Group(Box::new(of_season(n)))),
{
    assert(reads_so(data_like(r#"%"AirsAfterSeasonNumber":"#@, n)));
    assert(reads_so(data_like(r#"%"AirsBeforeSeasonNumber":"#@, n)));
    assert(reads_so(season_number(n)));
    assert(reads_so(Cond::NotNull(col("Data"@))));
    assert(reads_so(around(n)));
    assert(reads_so(Cond::Group(Box::new(around(n)))));
    assert(reads_so(stored_around(n)));
    assert(reads_so(Cond::Group(Box::new(stored_around(n)))));
    assert(reads_so(of_season(n)));
}

proof fn lemma_season_truth(n: int, row: Row, db: Db)
    requires
        n >= 0,
    ensures
        truth(Cond::Group(Box::new(of_season(n))), only(row), db) == Some(true) <==> (row(
            "ParentIndexNumber"@,
        ) == Val::Int(n) || data_holds(row, r#""AirsAfterSeasonNumber":"#@ + decimal(n))
            || data_holds(row, r#""AirsBeforeSeasonNumber":"#@ + decimal(n))),
{
    let s = only(row);
    let v = row("Data"@);
    if v is Text {
        lemma_season_pattern(v->Text_0, n);
    }
    let p2 = r#"%"AirsAfterSeasonNumber":"#@ + decimal(n) + "%"@;
    let p3 = r#"%"AirsBeforeSeasonNumber":"#@ + decimal(n) + "%"@;
    let x = season_number(n);
    let y = Cond::NotNull(col("Data"@));
    let z2 = data_like(r#"%"AirsAfterSeasonNumber":"#@, n);
    let z3 = data_like(r#"%"AirsBeforeSeasonNumber":"#@, n);
    let g1 = Cond::Group(Box::new(around(n)));
    let g2 = Cond::Group(Box::new(stored_around(n)));
    let c = Cond::Group(Box::new(of_season(n)));
    assert(truth(x, s, db) == compared(row("ParentIndexNumber"@), Op::Eq, Val::Int(n), db));
    assert(truth(y, s, db) == Some(!(v is Null)));
    assert(truth(z2, s, db) == compared(v, Op::Like, Val::Text(p2), db));
    assert(truth(z3, s, db) == compared(v, Op::Like, Val::Text(p3), db));
    assert(truth(around(n), s, db) == either(truth(z2, s, db), truth(z3, s, db)));
    assert(truth(g1, s, db) == truth(around(n), s, db));
    assert(truth(stored_around(n), s, db) == both(truth(y, s, db), truth(g1, s, db)));
    assert(truth(g2, s, db) == truth(stored_around(n), s, db));
    assert(truth(of_season(n), s, db) == either(truth(x, s, db), truth(g2, s, db)));
    assert(truth(c, s, db) == truth(of_season(n), s, db));
}

proof fn lemma_season_words()
    ensures
        chars(r#" AND (bi."ParentIndexNumber" = "#@) == chars(" AND "@) + chars("("@) + column_text(
            "bi"@,
            "ParentIndexNumber"@,
        ) + chars(" = "@),
        chars(r#" OR (bi."Data" IS NOT NULL AND (bi."Data" LIKE "#@) == chars(" OR "@) + chars("("@)
            + column_text("bi"@, "Data"@) + chars(" IS NOT NULL"@) + chars(" AND "@) + chars("("@)
            + column_text("bi"@, "Data"@) + chars(" LIKE "@),
        chars(r#" OR bi."Data" LIKE "#@) == chars(" OR "@) + column_text("bi"@, "Data"@) + chars(
            " LIKE "@,
        ),
        chars(")))"@) == chars(")"@) + chars(")"@) + chars(")"@),
{
    assert(chars(r#" AND (bi."ParentIndexNumber" = "#@) =~= chars(" AND "@) + chars("("@)
        + column_text("bi"@, "ParentIndexNumber"@) + chars(" = "@)) by {
        reveal(Said::spec_add);
        reveal_strlit(r#" AND (bi."ParentIndexNumber" = "#);
        reveal_strlit(" AND ");
        reveal_strlit("(");
        reveal_strlit("bi");
        reveal_strlit(".");
        reveal_strlit("\"");
        reveal_strlit("ParentIndexNumber");
        reveal_strlit(" = ");
    }
    assert(chars(r#" OR (bi."Data" IS NOT NULL AND (bi."Data" LIKE "#@) =~= chars(" OR "@) + chars(
        "("@,
    ) + column_text("bi"@, "Data"@) + chars(" IS NOT NULL"@) + chars(" AND "@) + chars("("@)
        + column_text("bi"@, "Data"@) + chars(" LIKE "@)) by {
        reveal(Said::spec_add);
        reveal_strlit(r#" OR (bi."Data" IS NOT NULL AND (bi."Data" LIKE "#);
        reveal_strlit(" OR ");
        reveal_strlit("(");
        reveal_strlit("bi");
        reveal_strlit(".");
        reveal_strlit("\"");
        reveal_strlit("Data");
        reveal_strlit(" IS NOT NULL");
        reveal_strlit(" AND ");
        reveal_strlit(" LIKE ");
    }
    assert(chars(r#" OR bi."Data" LIKE "#@) =~= chars(" OR "@) + column_text("bi"@, "Data"@) + chars(
        " LIKE "@,
    )) by {
        reveal(Said::spec_add);
        reveal_strlit(r#" OR bi."Data" LIKE "#);
        reveal_strlit(" OR ");
        reveal_strlit("bi");
        reveal_strlit(".");
        reveal_strlit("\"");
        reveal_strlit("Data");
        reveal_strlit(" LIKE ");
    }
    assert(chars(")))"@) =~= chars(")"@) + chars(")"@) + chars(")"@)) by {
        reveal(Said::spec_add);
        reveal_strlit(")))");
        reveal_strlit(")");
    }
}

proof fn lemma_season_text(q: Sql, f: InternalItemsQuery, n: i32)
    requires
        f.aired_during_season == Some(n),
        n >= 1,
    ensures
        flat(season_predicate(q, f)) == flat(q) + chars(" AND "@) + text_of(
            Cond::Group(Box::new(of_season(n as int))),
        ),
{
    let t1 = r#" AND (bi."ParentIndexNumber" = "#@;
    let t2 = r#" OR (bi."Data" IS NOT NULL AND (bi."Data" LIKE "#@;
    let t3 = r#" OR bi."Data" LIKE "#@;
    let v1 = BindView::Int(n as int);
    let v2 = BindView::Text(r#"%"AirsAfterSeasonNumber":"#@ + decimal(n as int) + "%"@);
    let v3 = BindView::Text(r#"%"AirsBeforeSeasonNumber":"#@ + decimal(n as int) + "%"@);
    let a1 = say(q, t1);
    let a2 = give(a1, v1);
    let a3 = say(a2, t2);
    let a4 = give(a3, v2);
    let a5 = say(a4, t3);
    let a6 = give(a5, v3);
    let longer = say(a6, ")))"@);
    assert(longer == season_predicate(q, f));
    lemma_flat_say(q, t1);
    lemma_flat_give(a1, v1);
    lemma_flat_say(a2, t2);
    lemma_flat_give(a3, v2);
    lemma_flat_say(a4, t3);
    lemma_flat_give(a5, v3);
    lemma_flat_say(a6, ")))"@);
    lemma_season_words();
    let index = column_text("bi"@, "ParentIndexNumber"@);
    let data = column_text("bi"@, "Data"@);
    let x = season_number(n as int);
    let y = Cond::NotNull(col("Data"@));
    let z2 = data_like(r#"%"AirsAfterSeasonNumber":"#@, n as int);
    let z3 = data_like(r#"%"AirsBeforeSeasonNumber":"#@, n as int);
    let z = around(n as int);
    let g1 = Cond::Group(Box::new(z));
    let w = stored_around(n as int);
    let g2 = Cond::Group(Box::new(w));
    let u = of_season(n as int);
    let c = Cond::Group(Box::new(u));
    let tx = text_of(x);
    let ty = text_of(y);
    let tz2 = text_of(z2);
    let tz3 = text_of(z3);
    assert(tx == index + chars(" = "@) + hole(v1));
    assert(ty == data + chars(" IS NOT NULL"@));
    assert(tz2 == data + chars(" LIKE "@) + hole(v2));
    assert(tz3 == data + chars(" LIKE "@) + hole(v3));
    assert(text_of(z) == tz2 + chars(" OR "@) + tz3);
    assert(text_of(g1) == chars("("@) + text_of(z) + chars(")"@));
    assert(text_of(w) == ty + chars(" AND "@) + text_of(g1));
    assert(text_of(g2) == chars("("@) + text_of(w) + chars(")"@));
    assert(text_of(u) == tx + chars(" OR "@) + text_of(g2));
    assert(text_of(c) == chars("("@) + text_of(u) + chars(")"@));
    let open = chars("("@);
    let close = chars(")"@);
    let and = chars(" AND "@);
    let or = chars(" OR "@);
    assert(flat(a2) == flat(q) + (and + open + tx)) by {
        broadcast use {lemma_said_in_turn, lemma_said_nothing};

    }
    assert(flat(a4) == flat(a2) + (or + open + ty + and + open + tz2)) by {
        broadcast use {lemma_said_in_turn, lemma_said_nothing};

    }
    assert(flat(a6) == flat(a4) + (or + tz3)) by {
        broadcast use {lemma_said_in_turn, lemma_said_nothing};

    }
    lemma_season_joined(flat(q), flat(a2), flat(a4), flat(a6), and, or, open, close, tx, ty, tz2, tz3);
}

proof fn lemma_season_joined(
    q: Said,
    a2: Said,
    a4: Said,
    a6: Said,
    and: Said,
    or: Said,
    open: Said,
    close: Said,
    tx: Said,
    ty: Said,
    tz2: Said,
    tz3: Said,
)
    requires
        a2 == q + (and + open + tx),
        a4 == a2 + (or + open + ty + and + open + tz2),
        a6 == a4 + (or + tz3),
    ensures
        a6 + (close + close + close) == q + and + (open + (tx + or + (open + (ty + and + (open + (tz2
            + or + tz3) + close)) + close)) + close),
{
    broadcast use {lemma_said_in_turn, lemma_said_nothing};

}

proof fn read_regular_season(lead: Lead, q: Sql, cs: Seq<Cond>, f: InternalItemsQuery, n: i32) -> (out: Seq<
    Cond,
>)
    requires
        spells(lead, q, cs),
        f.aired_during_season == Some(n),
        n >= 1,
    ensures
        spells(lead, season_predicate(q, f), out),
        forall|row: Row, db: Db| #[trigger]
            all_true(out, only(row), db) <==> all_true(cs, only(row), db) && is_aired(f, row),
{
    let c = Cond::Group(Box::new(of_season(n as int)));
    lemma_season_text(q, f, n);
    lemma_season_reads(n as int);
    lemma_spells_more(lead, q, cs, season_predicate(q, f), c);
    assert forall|row: Row, db: Db| #[trigger]
        all_true(cs.push(c), only(row), db) <==> all_true(cs, only(row), db) && is_aired(f, row) by {
        lemma_season_truth(n as int, row, db);
    }
    cs.push(c)
}

pub(crate) proof fn read_season(lead: Lead, q: Sql, cs: Seq<Cond>, f: InternalItemsQuery) -> (out: Seq<
    Cond,
>)
    requires
        spells(lead, q, cs),
    ensures
        spells(lead, season_predicate(q, f), out),
        forall|row: Row, db: Db| #[trigger]
            all_true(out, only(row), db) <==> all_true(cs, only(row), db) && is_aired(f, row),
{
    match f.aired_during_season {
        Some(n) => if n < 1 {
            assert(chars(r#" AND bi."ParentIndexNumber" = "#@) =~= and_compare("ParentIndexNumber"@, Op::Eq)) by {
                reveal(Said::spec_add);
                reveal_strlit(r#" AND bi."ParentIndexNumber" = "#);
                reveal_strlit(" AND ");
                reveal_strlit("bi");
                reveal_strlit(".");
                reveal_strlit("\"");
                reveal_strlit("ParentIndexNumber");
                reveal_strlit(" = ");
            }
            read_given(
                lead,
                q,
                cs,
                r#" AND bi."ParentIndexNumber" = "#@,
                "ParentIndexNumber"@,
                Op::Eq,
                BindView::Int(n as int),
            )
        } else {
            read_regular_season(lead, q, cs, f, n)
        },
        None => cs,
    }
}


} // verus!
