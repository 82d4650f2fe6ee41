//! What the statement for a filter asks of an item's numbers, dates and names.
use vstd::prelude::*;

use crate::item_query_kinds::{column_holds, lemma_clean_pattern, of, same};
use crate::item_query_meaning::{
    and_compare, at_least, col, is_among, lemma_flag_cases, read_given, read_int, read_real,
    read_time,
};
use crate::items_query::InternalItemsQuery;
use crate::sql::{
    filled, give, give_all, say, say_int, say_real, say_time, text_values, BindView, Sql,
};
use crate::sql_meaning::{
    all_true, begins, both, chars, column_text, compared, either, expr_text, fits, flat, given,
    hole, law_pattern_finds_the_beginning, law_pattern_finds_the_part, lemma_flat_give,
    lemma_flat_give_all, lemma_flat_say, lemma_said_in_turn, lemma_said_nothing, lemma_spells_more,
    no_wildcards, only, op_text, reads_so, spells, text_of, truth, values_text, Cond, Db, Expr,
    Lead, Op, Row, Said, Val,
};
use crate::sort::text_less;
use crate::text::{ascii_lower, is_blank, lowercase, texts};
use crate::text_util::clean_value;
use crate::time::Timestamp;
use crate::translate_query::{
    clean_names, clean_pattern, date_predicates, name_predicates, number_predicates,
};

verus! {

// ---------------------------------------------------------------------------
// Numbers
// ---------------------------------------------------------------------------
/// Whether a column holds a double-precision number that is at least the one with the
/// given bits.
pub open spec fn real_at_least(v: Val, bits: u64, db: Db) -> bool {
    v matches Val::Real(x) && (x == bits || !(db.real_le)(x, bits))
}

/// Whether an episode is the given one of its season or a later one, or of a later season.
pub open spec fn is_from(row: Row, season: int, episode: int) -> bool {
    row("ParentIndexNumber"@) matches Val::Int(s) && (s > season || (s == season && at_least(
        row("IndexNumber"@),
        episode,
    )))
}

/// Whether an item's ratings and index numbers are as a filter asks for.
pub open spec fn is_numbered(f: InternalItemsQuery, row: Row, db: Db) -> bool {
    &&& f.min_community_rating matches Some(b) ==> real_at_least(row("CommunityRating"@), b, db)
    &&& f.min_critic_rating matches Some(b) ==> real_at_least(row("CriticRating"@), b, db)
    &&& f.min_index_number matches Some(n) ==> at_least(row("IndexNumber"@), n as int)
    &&& f.min_parent_and_index_number matches Some(p) ==> is_from(row, p.0 as int, p.1 as int)
    &&& f.index_number matches Some(n) ==> row("IndexNumber"@) == Val::Int(n as int)
    &&& f.parent_index_number matches Some(n) ==> row("ParentIndexNumber"@) == Val::Int(n as int)
    &&& f.parent_index_number_not_equals matches Some(n) ==> row("ParentIndexNumber"@) != Val::Int(
        n as int,
    )
}

proof fn read_from(lead: Lead, q: Sql, cs: Seq<Cond>, parent: int, index: int) -> (out: Seq<Cond>)
    requires
        spells(lead, q, cs),
    ensures
        ({
            let p = BindView::Int(parent);
            let x = give(say(q, r#" AND ((bi."ParentIndexNumber" = "#@), p);
            let y = give(say(x, r#" AND bi."IndexNumber" >= "#@), BindView::Int(index));
            let z = give(say(y, r#") OR bi."ParentIndexNumber" > "#@), p);
            spells(lead, say(z, ")"@), out)
        }),
        forall|row: Row, db: Db| #[trigger]
            all_true(out, only(row), db) <==> all_true(cs, only(row), db) && is_from(
                row,
                parent,
                index,
            ),
{
    let p = BindView::Int(parent);
    let i = BindView::Int(index);
    let t1 = r#" AND ((bi."ParentIndexNumber" = "#@;
    let t2 = r#" AND bi."IndexNumber" >= "#@;
    let t3 = r#") OR bi."ParentIndexNumber" > "#@;
    let x = give(say(q, t1), p);
    let y = give(say(x, t2), i);
    let z = give(say(y, t3), p);
    let longer = say(z, ")"@);
    lemma_flat_say(q, t1);
    lemma_flat_give(say(q, t1), p);
    lemma_flat_say(x, t2);
    lemma_flat_give(say(x, t2), i);
    lemma_flat_say(y, t3);
    lemma_flat_give(say(y, t3), p);
    lemma_flat_say(z, ")"@);
    let a = same(of("bi"@, "ParentIndexNumber"@), Expr::Given(p));
    let b = Cond::Compare(of("bi"@, "IndexNumber"@), Op::Ge, Expr::Given(i));
    let d = Cond::Compare(of("bi"@, "ParentIndexNumber"@), Op::Gt, Expr::Given(p));
    let ab = Cond::And(Box::new(a), Box::new(b));
    let g = Cond::Group(Box::new(ab));
    let o = Cond::Or(Box::new(g), Box::new(d));
    let c = Cond::Group(Box::new(o));
    assert(chars(t1) =~= chars(" AND "@) + chars("("@) + chars("("@) + column_text(
        "bi"@,
        "ParentIndexNumber"@,
    ) + chars(" = "@)) by {
        reveal(Said::spec_add);
        reveal_strlit(r#" AND ((bi."ParentIndexNumber" = "#);
        reveal_strlit(" AND ");
        reveal_strlit("(");
        reveal_strlit("bi");
        reveal_strlit(".");
        reveal_strlit("\"");
        reveal_strlit("ParentIndexNumber");
        reveal_strlit(" = ");
    }
    assert(chars(t2) =~= chars(" AND "@) + column_text("bi"@, "IndexNumber"@) + chars(" >= "@)) by {
        reveal(Said::spec_add);
        reveal_strlit(r#" AND bi."IndexNumber" >= "#);
        reveal_strlit(" AND ");
        reveal_strlit("bi");
        reveal_strlit(".");
        reveal_strlit("\"");
        reveal_strlit("IndexNumber");
        reveal_strlit(" >= ");
    }
    assert(chars(t3) =~= chars(")"@) + chars(" OR "@) + column_text("bi"@, "ParentIndexNumber"@) + chars(
        " > "@,
    )) by {
        reveal(Said::spec_add);
        reveal_strlit(r#") OR bi."ParentIndexNumber" > "#);
        reveal_strlit(")");
        reveal_strlit(" OR ");
        reveal_strlit("bi");
        reveal_strlit(".");
        reveal_strlit("\"");
        reveal_strlit("ParentIndexNumber");
        reveal_strlit(" > ");
    }
    assert(text_of(ab) == text_of(a) + chars(" AND "@) + text_of(b));
    assert(text_of(g) == chars("("@) + text_of(ab) + chars(")"@));
    assert(text_of(o) == text_of(g) + chars(" OR "@) + text_of(d));
    assert(text_of(c) == chars("("@) + text_of(o) + chars(")"@));
    assert(reads_so(a) && reads_so(b) && reads_so(d));
    assert(reads_so(ab));
    assert(reads_so(g));
    assert(reads_so(o));
    assert(flat(longer) == flat(q) + chars(" AND "@) + text_of(c)) by {
        broadcast use {lemma_said_in_turn, lemma_said_nothing};

    }
    lemma_spells_more(lead, q, cs, longer, c);
    assert forall|row: Row, db: Db| #[trigger]
        all_true(cs.push(c), only(row), db) <==> all_true(cs, only(row), db) && is_from(
            row,
            parent,
            index,
        ) by {
        let s = only(row);
        let season = row("ParentIndexNumber"@);
        assert(truth(a, s, db) == compared(season, Op::Eq, Val::Int(parent), db));
        assert(truth(b, s, db) == compared(row("IndexNumber"@), Op::Ge, Val::Int(index), db));
        assert(truth(d, s, db) == compared(season, Op::Gt, Val::Int(parent), db));
        assert(truth(ab, s, db) == both(truth(a, s, db), truth(b, s, db)));
        assert(truth(g, s, db) == truth(ab, s, db));
        assert(truth(o, s, db) == either(truth(g, s, db), truth(d, s, db)));
        assert(truth(c, s, db) == truth(o, s, db));
    }
    cs.push(c)
}

proof fn read_not_season(lead: Lead, q: Sql, cs: Seq<Cond>, n: int) -> (out: Seq<Cond>)
    requires
        spells(lead, q, cs),
    ensures
        spells(
            lead,
            say(
                give(say(q, r#" AND (bi."ParentIndexNumber" <> "#@), BindView::Int(n)),
                r#" OR bi."ParentIndexNumber" IS NULL)"#@,
            ),
            out,
        ),
        forall|row: Row, db: Db| #[trigger]
            all_true(out, only(row), db) <==> all_true(cs, only(row), db) && row(
                "ParentIndexNumber"@,
            ) != Val::Int(n),
{
    let v = BindView::Int(n);
    let t1 = r#" AND (bi."ParentIndexNumber" <> "#@;
    let t2 = r#" OR bi."ParentIndexNumber" IS NULL)"#@;
    let x = give(say(q, t1), v);
    let longer = say(x, t2);
    lemma_flat_say(q, t1);
    lemma_flat_give(say(q, t1), v);
    lemma_flat_say(x, t2);
    let a = Cond::Compare(of("bi"@, "ParentIndexNumber"@), Op::Ne, Expr::Given(v));
    let b = Cond::IsNull(of("bi"@, "ParentIndexNumber"@));
    let o = Cond::Or(Box::new(a), Box::new(b));
    let c = Cond::Group(Box::new(o));
    assert(chars(t1) =~= chars(" AND "@) + chars("("@) + column_text("bi"@, "ParentIndexNumber"@)
        + chars(" <> "@)) by {
        reveal(Said::spec_add);
        reveal_strlit(r#" AND (bi."ParentIndexNumber" <> "#);
        reveal_strlit(" AND ");
        reveal_strlit("(");
        reveal_strlit("bi");
        reveal_strlit(".");
        reveal_strlit("\"");
        reveal_strlit("ParentIndexNumber");
        reveal_strlit(" <> ");
    }
    assert(chars(t2) =~= chars(" OR "@) + text_of(b) + chars(")"@)) by {
        reveal(Said::spec_add);
        reveal_strlit(r#" OR bi."ParentIndexNumber" IS NULL)"#);
        reveal_strlit(" OR ");
        reveal_strlit("bi");
        reveal_strlit(".");
        reveal_strlit("\"");
        reveal_strlit("ParentIndexNumber");
        reveal_strlit(" IS NULL");
        reveal_strlit(")");
    }
    assert(text_of(o) == text_of(a) + chars(" OR "@) + text_of(b));
    assert(text_of(c) == chars("("@) + text_of(o) + chars(")"@));
    assert(reads_so(a) && reads_so(b));
    assert(reads_so(o));
    assert(flat(longer) == flat(q) + chars(" AND "@) + text_of(c)) by {
        broadcast use {lemma_said_in_turn, lemma_said_nothing};

    }
    lemma_spells_more(lead, q, cs, longer, c);
    assert forall|row: Row, db: Db| #[trigger]
        all_true(cs.push(c), only(row), db) <==> all_true(cs, only(row), db) && row(
            "ParentIndexNumber"@,
        ) != Val::Int(n) by {
        let s = only(row);
        let season = row("ParentIndexNumber"@);
        assert(truth(a, s, db) == compared(season, Op::Ne, Val::Int(n), db));
        assert(truth(b, s, db) == Some(season is Null));
        assert(truth(o, s, db) == either(truth(a, s, db), truth(b, s, db)));
        assert(truth(c, s, db) == truth(o, s, db));
    }
    cs.push(c)
}

pub(crate) proof fn read_numbers(lead: Lead, q: Sql, cs: Seq<Cond>, f: InternalItemsQuery) -> (out:
    Seq<Cond>)
    requires
        spells(lead, q, cs),
    ensures
        spells(lead, number_predicates(q, f), out),
        forall|row: Row, db: Db| #[trigger]
            all_true(out, only(row), db) <==> all_true(cs, only(row), db) && is_numbered(f, row, db),
{
    assert(chars(r#" AND bi."CommunityRating" >= "#@) =~= and_compare("CommunityRating"@, Op::Ge)) by {
        reveal(Said::spec_add);
        reveal_strlit(r#" AND bi."CommunityRating" >= "#);
        reveal_strlit(" AND ");
        reveal_strlit("bi");
        reveal_strlit(".");
        reveal_strlit("\"");
        reveal_strlit("CommunityRating");
        reveal_strlit(" >= ");
    }
    assert(chars(r#" AND bi."CriticRating" >= "#@) =~= and_compare("CriticRating"@, Op::Ge)) by {
        reveal(Said::spec_add);
        reveal_strlit(r#" AND bi."CriticRating" >= "#);
        reveal_strlit(" AND ");
        reveal_strlit("bi");
        reveal_strlit(".");
        reveal_strlit("\"");
        reveal_strlit("CriticRating");
        reveal_strlit(" >= ");
    }
    assert(chars(r#" AND bi."IndexNumber" >= "#@) =~= and_compare("IndexNumber"@, Op::Ge)) by {
        reveal(Said::spec_add);
        reveal_strlit(r#" AND bi."IndexNumber" >= "#);
        reveal_strlit(" AND ");
        reveal_strlit("bi");
        reveal_strlit(".");
        reveal_strlit("\"");
        reveal_strlit("IndexNumber");
        reveal_strlit(" >= ");
    }
    assert(chars(r#" AND bi."IndexNumber" = "#@) =~= and_compare("IndexNumber"@, Op::Eq)) by {
        reveal(Said::spec_add);
        reveal_strlit(r#" AND bi."IndexNumber" = "#);
        reveal_strlit(" AND ");
        reveal_strlit("bi");
        reveal_strlit(".");
        reveal_strlit("\"");
        reveal_strlit("IndexNumber");
        reveal_strlit(" = ");
    }
    assert(chars(r#" AND bi."ParentIndexNumber" = "#@) =~= and_compare("ParentIndexNumber"@, Op::Eq)) by {
        reveal(Said::spec_add);
        reveal_strlit(r#" AND bi."ParentIndexNumber" = "#);
        reveal_strlit(" AND ");
        reveal_strlit("bi");
        reveal_strlit(".");
        reveal_strlit("\"");
        reveal_strlit("ParentIndexNumber");
        reveal_strlit(" = ");
    }
    let q1 = say_real(q, r#" AND bi."CommunityRating" >= "#@, f.min_community_rating);
    let c1 = read_real(
        lead,
        q,
        cs,
        r#" AND bi."CommunityRating" >= "#@,
        "CommunityRating"@,
        f.min_community_rating,
    );
    let q2 = say_real(q1, r#" AND bi."CriticRating" >= "#@, f.min_critic_rating);
    let c2 = read_real(
        lead,
        q1,
        c1,
        r#" AND bi."CriticRating" >= "#@,
        "CriticRating"@,
        f.min_critic_rating,
    );
    let q3 = say_int(q2, r#" AND bi."IndexNumber" >= "#@, f.min_index_number);
    let c3 = read_int(
        lead,
        q2,
        c2,
        r#" AND bi."IndexNumber" >= "#@,
        "IndexNumber"@,
        Op::Ge,
        f.min_index_number,
    );
    let (q4, c4) = match f.min_parent_and_index_number {
        Some((parent, index)) => {
            let p = BindView::Int(parent as int);
            let x = give(say(q3, r#" AND ((bi."ParentIndexNumber" = "#@), p);
            let y = give(say(x, r#" AND bi."IndexNumber" >= "#@), BindView::Int(index as int));
            let z = give(say(y, r#") OR bi."ParentIndexNumber" > "#@), p);
            (say(z, ")"@), read_from(lead, q3, c3, parent as int, index as int))
        },
        None => (q3, c3),
    };
    let q5 = say_int(q4, r#" AND bi."IndexNumber" = "#@, f.index_number);
    let c5 = read_int(
        lead,
        q4,
        c4,
        r#" AND bi."IndexNumber" = "#@,
        "IndexNumber"@,
        Op::Eq,
        f.index_number,
    );
    let q6 = say_int(q5, r#" AND bi."ParentIndexNumber" = "#@, f.parent_index_number);
    let c6 = read_int(
        lead,
        q5,
        c5,
        r#" AND bi."ParentIndexNumber" = "#@,
        "ParentIndexNumber"@,
        Op::Eq,
        f.parent_index_number,
    );
    match f.parent_index_number_not_equals {
        Some(n) => read_not_season(lead, q6, c6, n as int),
        None => c6,
    }
}

// ---------------------------------------------------------------------------
// Dates
// ---------------------------------------------------------------------------
/// Whether a column holds a time that is not before `t`.
pub open spec fn not_before(v: Val, t: Timestamp) -> bool {
    v matches Val::Time(x) && x.nanos >= t.nanos
}

/// Whether a column holds a time that is not after `t`.
pub open spec fn not_after(v: Val, t: Timestamp) -> bool {
    v matches Val::Time(x) && x.nanos <= t.nanos
}

/// Whether a column holds a time before `t`.
pub open spec fn is_before(v: Val, t: Timestamp) -> bool {
    v matches Val::Time(x) && x.nanos < t.nanos
}

/// Whether a column holds a time after `t`.
pub open spec fn is_after(v: Val, t: Timestamp) -> bool {
    v matches Val::Time(x) && x.nanos > t.nanos
}

/// Whether an item's dates are as a filter asks for at the time `at`.
pub open spec fn is_dated(f: InternalItemsQuery, row: Row, at: Timestamp) -> bool {
    &&& f.has_aired == Some(false) ==> not_before(row("EndDate"@), at)
    &&& f.has_aired == Some(true) ==> not_after(row("EndDate"@), at)
    &&& f.has_aired != Some(false) ==> (f.min_end_date matches Some(t) ==> not_before(
        row("EndDate"@),
        t,
    ))
    &&& f.has_aired != Some(true) ==> (f.max_end_date matches Some(t) ==> not_after(
        row("EndDate"@),
        t,
    ))
    &&& f.min_start_date matches Some(t) ==> not_before(row("StartDate"@), t)
    &&& f.max_start_date matches Some(t) ==> not_after(row("StartDate"@), t)
    &&& f.min_premiere_date matches Some(t) ==> not_before(row("PremiereDate"@), t)
    &&& f.max_premiere_date matches Some(t) ==> not_after(row("PremiereDate"@), t)
    &&& f.min_date_created matches Some(t) ==> not_before(row("DateCreated"@), t)
    &&& f.min_date_last_saved matches Some(t) ==> not_before(row("DateLastSaved"@), t)
    &&& f.min_date_last_saved is None ==> (f.min_date_last_saved_for_user matches Some(t)
        ==> not_before(row("DateLastSaved"@), t))
    &&& f.is_airing == Some(true) ==> not_after(row("StartDate"@), at) && not_before(
        row("EndDate"@),
        at,
    )
    &&& f.is_airing == Some(false) ==> is_after(row("StartDate"@), at) && is_before(
        row("EndDate"@),
        at,
    )
    &&& f.is_unaired == Some(true) ==> not_before(row("PremiereDate"@), at)
    &&& f.is_unaired == Some(false) ==> is_before(row("PremiereDate"@), at)
}

proof fn read_last_saved(lead: Lead, q: Sql, cs: Seq<Cond>, t: Timestamp) -> (out: Seq<Cond>)
    requires
        spells(lead, q, cs),
    ensures
        spells(
            lead,
            say(
                give(
                    say(q, r#" AND (bi."DateLastSaved" IS NOT NULL AND bi."DateLastSaved" >= "#@),
                    BindView::StoredTime(t),
                ),
                ")"@,
            ),
            out,
        ),
        forall|row: Row, db: Db| #[trigger]
            all_true(out, only(row), db) <==> all_true(cs, only(row), db) && not_before(
                row("DateLastSaved"@),
                t,
            ),
{
    let v = BindView::StoredTime(t);
    let t1 = r#" AND (bi."DateLastSaved" IS NOT NULL AND bi."DateLastSaved" >= "#@;
    let x = give(say(q, t1), v);
    let longer = say(x, ")"@);
    lemma_flat_say(q, t1);
    lemma_flat_give(say(q, t1), v);
    lemma_flat_say(x, ")"@);
    let a = Cond::NotNull(of("bi"@, "DateLastSaved"@));
    let b = Cond::Compare(of("bi"@, "DateLastSaved"@), Op::Ge, Expr::Given(v));
    let o = Cond::And(Box::new(a), Box::new(b));
    let c = Cond::Group(Box::new(o));
    assert(chars(t1) =~= chars(" AND "@) + chars("("@) + text_of(a) + chars(" AND "@) + column_text(
        "bi"@,
        "DateLastSaved"@,
    ) + chars(" >= "@)) by {
        reveal(Said::spec_add);
        reveal_strlit(r#" AND (bi."DateLastSaved" IS NOT NULL AND bi."DateLastSaved" >= "#);
        reveal_strlit(" AND ");
        reveal_strlit("(");
        reveal_strlit("bi");
        reveal_strlit(".");
        reveal_strlit("\"");
        reveal_strlit("DateLastSaved");
        reveal_strlit(" IS NOT NULL");
        reveal_strlit(" >= ");
    }
    assert(text_of(o) == text_of(a) + chars(" AND "@) + text_of(b));
    assert(text_of(c) == chars("("@) + text_of(o) + chars(")"@));
    assert(reads_so(a) && reads_so(b));
    assert(reads_so(o));
    assert(flat(longer) == flat(q) + chars(" AND "@) + text_of(c)) by {
        broadcast use {lemma_said_in_turn, lemma_said_nothing};

    }
    lemma_spells_more(lead, q, cs, longer, c);
    assert forall|row: Row, db: Db| #[trigger]
        all_true(cs.push(c), only(row), db) <==> all_true(cs, only(row), db) && not_before(
            row("DateLastSaved"@),
            t,
        ) by {
        let s = only(row);
        let d = row("DateLastSaved"@);
        assert(truth(a, s, db) == Some(!(d is Null)));
        assert(truth(b, s, db) == compared(d, Op::Ge, Val::Time(t), db));
        assert(truth(o, s, db) == both(truth(a, s, db), truth(b, s, db)));
        assert(truth(c, s, db) == truth(o, s, db));
    }
    cs.push(c)
}

pub(crate) proof fn read_dates(
    lead: Lead,
    q: Sql,
    cs: Seq<Cond>,
    f: InternalItemsQuery,
    at: Timestamp,
) -> (out: Seq<Cond>)
    requires
        spells(lead, q, cs),
    ensures
        spells(lead, date_predicates(q, f, at), out),
        forall|row: Row, db: Db| #[trigger]
            all_true(out, only(row), db) <==> all_true(cs, only(row), db) && is_dated(f, row, at),
{
    assert(chars(r#" AND bi."EndDate" >= "#@) =~= and_compare("EndDate"@, Op::Ge)) by {
        reveal(Said::spec_add);
        reveal_strlit(r#" AND bi."EndDate" >= "#);
        reveal_strlit(" AND ");
        reveal_strlit("bi");
        reveal_strlit(".");
        reveal_strlit("\"");
        reveal_strlit("EndDate");
        reveal_strlit(" >= ");
    }
    assert(chars(r#" AND bi."EndDate" <= "#@) =~= and_compare("EndDate"@, Op::Le)) by {
        reveal(Said::spec_add);
        reveal_strlit(r#" AND bi."EndDate" <= "#);
        reveal_strlit(" AND ");
        reveal_strlit("bi");
        reveal_strlit(".");
        reveal_strlit("\"");
        reveal_strlit("EndDate");
        reveal_strlit(" <= ");
    }
    assert(chars(r#" AND bi."EndDate" < "#@) =~= and_compare("EndDate"@, Op::Lt)) by {
        reveal(Said::spec_add);
        reveal_strlit(r#" AND bi."EndDate" < "#);
        reveal_strlit(" AND ");
        reveal_strlit("bi");
        reveal_strlit(".");
        reveal_strlit("\"");
        reveal_strlit("EndDate");
        reveal_strlit(" < ");
    }
    assert(chars(r#" AND bi."StartDate" >= "#@) =~= and_compare("StartDate"@, Op::Ge)) by {
        reveal(Said::spec_add);
        reveal_strlit(r#" AND bi."StartDate" >= "#);
        reveal_strlit(" AND ");
        reveal_strlit("bi");
        reveal_strlit(".");
        reveal_strlit("\"");
        reveal_strlit("StartDate");
        reveal_strlit(" >= ");
    }
    assert(chars(r#" AND bi."StartDate" <= "#@) =~= and_compare("StartDate"@, Op::Le)) by {
        reveal(Said::spec_add);
        reveal_strlit(r#" AND bi."StartDate" <= "#);
        reveal_strlit(" AND ");
        reveal_strlit("bi");
        reveal_strlit(".");
        reveal_strlit("\"");
        reveal_strlit("StartDate");
        reveal_strlit(" <= ");
    }
    assert(chars(r#" AND bi."StartDate" > "#@) =~= and_compare("StartDate"@, Op::Gt)) by {
        reveal(Said::spec_add);
        reveal_strlit(r#" AND bi."StartDate" > "#);
        reveal_strlit(" AND ");
        reveal_strlit("bi");
        reveal_strlit(".");
        reveal_strlit("\"");
        reveal_strlit("StartDate");
        reveal_strlit(" > ");
    }
    assert(chars(r#" AND bi."PremiereDate" >= "#@) =~= and_compare("PremiereDate"@, Op::Ge)) by {
        reveal(Said::spec_add);
        reveal_strlit(r#" AND bi."PremiereDate" >= "#);
        reveal_strlit(" AND ");
        reveal_strlit("bi");
        reveal_strlit(".");
        reveal_strlit("\"");
        reveal_strlit("PremiereDate");
        reveal_strlit(" >= ");
    }
    assert(chars(r#" AND bi."PremiereDate" <= "#@) =~= and_compare("PremiereDate"@, Op::Le)) by {
        reveal(Said::spec_add);
        reveal_strlit(r#" AND bi."PremiereDate" <= "#);
        reveal_strlit(" AND ");
        reveal_strlit("bi");
        reveal_strlit(".");
        reveal_strlit("\"");
        reveal_strlit("PremiereDate");
        reveal_strlit(" <= ");
    }
    assert(chars(r#" AND bi."PremiereDate" < "#@) =~= and_compare("PremiereDate"@, Op::Lt)) by {
        reveal(Said::spec_add);
        reveal_strlit(r#" AND bi."PremiereDate" < "#);
        reveal_strlit(" AND ");
        reveal_strlit("bi");
        reveal_strlit(".");
        reveal_strlit("\"");
        reveal_strlit("PremiereDate");
        reveal_strlit(" < ");
    }
    assert(chars(r#" AND bi."DateCreated" >= "#@) =~= and_compare("DateCreated"@, Op::Ge)) by {
        reveal(Said::spec_add);
        reveal_strlit(r#" AND bi."DateCreated" >= "#);
        reveal_strlit(" AND ");
        reveal_strlit("bi");
        reveal_strlit(".");
        reveal_strlit("\"");
        reveal_strlit("DateCreated");
        reveal_strlit(" >= ");
    }
    lemma_flag_cases(f.has_aired);
    lemma_flag_cases(f.is_airing);
    lemma_flag_cases(f.is_unaired);
    let min_end = if f.has_aired == Some(false) {
        Some(at)
    } else {
        f.min_end_date
    };
    let max_end = if f.has_aired == Some(true) {
        Some(at)
    } else {
        f.max_end_date
    };
    let last_saved = if f.min_date_last_saved is Some {
        f.min_date_last_saved
    } else {
        f.min_date_last_saved_for_user
    };
    let now = BindView::StoredTime(at);
    let t1 = r#" AND bi."EndDate" >= "#@;
    let t2 = r#" AND bi."EndDate" <= "#@;
    let t3 = r#" AND bi."StartDate" >= "#@;
    let t4 = r#" AND bi."StartDate" <= "#@;
    let t5 = r#" AND bi."PremiereDate" >= "#@;
    let t6 = r#" AND bi."PremiereDate" <= "#@;
    let t7 = r#" AND bi."DateCreated" >= "#@;
    let q1 = say_time(q, t1, min_end);
    let c1 = read_time(lead, q, cs, t1, "EndDate"@, Op::Ge, min_end);
    let q2 = say_time(q1, t2, max_end);
    let c2 = read_time(lead, q1, c1, t2, "EndDate"@, Op::Le, max_end);
    let q3 = say_time(q2, t3, f.min_start_date);
    let c3 = read_time(lead, q2, c2, t3, "StartDate"@, Op::Ge, f.min_start_date);
    let q4 = say_time(q3, t4, f.max_start_date);
    let c4 = read_time(lead, q3, c3, t4, "StartDate"@, Op::Le, f.max_start_date);
    let q5 = say_time(q4, t5, f.min_premiere_date);
    let c5 = read_time(lead, q4, c4, t5, "PremiereDate"@, Op::Ge, f.min_premiere_date);
    let q6 = say_time(q5, t6, f.max_premiere_date);
    let c6 = read_time(lead, q5, c5, t6, "PremiereDate"@, Op::Le, f.max_premiere_date);
    let q7 = say_time(q6, t7, f.min_date_created);
    let c7 = read_time(lead, q6, c6, t7, "DateCreated"@, Op::Ge, f.min_date_created);
    let (q8, c8) = match last_saved {
        Some(t) => (
            say(
                give(
                    say(q7, r#" AND (bi."DateLastSaved" IS NOT NULL AND bi."DateLastSaved" >= "#@),
                    BindView::StoredTime(t),
                ),
                ")"@,
            ),
            read_last_saved(lead, q7, c7, t),
        ),
        None => (q7, c7),
    };
    let (q9, c9) = match f.is_airing {
        Some(true) => {
            let a = give(say(q8, t4), now);
            let ca = read_given(lead, q8, c8, t4, "StartDate"@, Op::Le, now);
            (give(say(a, t1), now), read_given(lead, a, ca, t1, "EndDate"@, Op::Ge, now))
        },
        Some(false) => {
            let a = give(say(q8, r#" AND bi."StartDate" > "#@), now);
            let ca = read_given(
                lead,
                q8,
                c8,
                r#" AND bi."StartDate" > "#@,
                "StartDate"@,
                Op::Gt,
                now,
            );
            (
                give(say(a, r#" AND bi."EndDate" < "#@), now),
                read_given(lead, a, ca, r#" AND bi."EndDate" < "#@, "EndDate"@, Op::Lt, now),
            )
        },
        None => (q8, c8),
    };
    match f.is_unaired {
        Some(true) => read_given(lead, q9, c9, t5, "PremiereDate"@, Op::Ge, now),
        Some(false) => read_given(
            lead,
            q9,
            c9,
            r#" AND bi."PremiereDate" < "#@,
            "PremiereDate"@,
            Op::Lt,
            now,
        ),
        None => c9,
    }
}

// ---------------------------------------------------------------------------
// Names
// ---------------------------------------------------------------------------
/// Whether a column, with ASCII letters in lower case, begins with a text; a `%` in the
/// text stands for any run of characters, and a `_` for any one.
pub open spec fn lower_begins(v: Val, part: Seq<char>) -> bool {
    v matches Val::Text(t) && if no_wildcards(part) {
        begins(ascii_lower(t), part)
    } else {
        fits(ascii_lower(t), part + "%"@)
    }
}

/// Whether an item has one of the names, in their clean forms; blank ones do not count.
pub open spec fn has_clean_name(row: Row, names: Seq<Seq<char>>) -> bool {
    exists|i: int|
        0 <= i < names.len() && !is_blank(#[trigger] names[i]) && row("CleanName"@) == Val::Text(
            clean_value(names[i]),
        )
}

/// Whether some name is not blank.
pub open spec fn some_filled(names: Seq<Seq<char>>) -> bool {
    exists|i: int| 0 <= i < names.len() && !is_blank(#[trigger] names[i])
}

/// Whether an item's names are as a filter asks for.
pub open spec fn is_named(f: InternalItemsQuery, row: Row) -> bool {
    &&& filled(f.name) matches Some(name) ==> if f.use_raw_name == Some(true) {
        row("Name"@) matches Val::Text(t) && ascii_lower(t) == lowercase(name)
    } else {
        row("CleanName"@) == Val::Text(clean_value(name))
    }
    &&& some_filled(texts(f.names@)) ==> has_clean_name(row, texts(f.names@))
    &&& filled(f.name_contains) matches Some(part) ==> column_holds(
        row("CleanName"@),
        clean_value(part),
    ) || column_holds(row("OriginalTitle"@), clean_value(part))
    &&& filled(f.name_starts_with) matches Some(part) ==> lower_begins(
        row("SortName"@),
        lowercase(part),
    )
    &&& filled(f.name_starts_with_or_greater) matches Some(bound) ==> (row("SortName"@) matches Val::Text(t)
        && (ascii_lower(t) == lowercase(bound) || text_less(lowercase(bound), ascii_lower(t))))
    &&& filled(f.name_less_than) matches Some(bound) ==> (row("SortName"@) matches Val::Text(t)
        && text_less(ascii_lower(t), lowercase(bound)))
}

spec fn and_lower(name: Seq<char>, op: Op) -> Said {
    chars(" AND "@) + expr_text(Expr::Lower { of: "bi"@, name }) + chars(op_text(op))
}

proof fn read_lower(
    lead: Lead,
    q: Sql,
    cs: Seq<Cond>,
    t: Seq<char>,
    name: Seq<char>,
    op: Op,
    text: Seq<char>,
) -> (out: Seq<Cond>)
    requires
        spells(lead, q, cs),
        chars(t) == and_lower(name, op),
    ensures
        spells(lead, give(say(q, t), BindView::Text(text)), out),
        forall|row: Row, db: Db| #[trigger]
            all_true(out, only(row), db) <==> all_true(cs, only(row), db) && compared(
                match row(name) {
                    Val::Text(s) => Val::Text(ascii_lower(s)),
                    v => v,
                },
                op,
                Val::Text(text),
                db,
            ) == Some(true),
{
    let v = BindView::Text(text);
    let e = Expr::Lower { of: "bi"@, name };
    let c = Cond::Compare(e, op, Expr::Given(v));
    let longer = give(say(q, t), v);
    lemma_flat_say(q, t);
    lemma_flat_give(say(q, t), v);
    assert(text_of(c) == expr_text(e) + chars(op_text(op)) + hole(v));
    assert(flat(longer) == flat(q) + chars(" AND "@) + text_of(c)) by {
        broadcast use {lemma_said_in_turn, lemma_said_nothing};

    }
    lemma_spells_more(lead, q, cs, longer, c);
    cs.push(c)
}

proof fn lemma_clean_names(names: Seq<Seq<char>>, v: Val, db: Db)
    ensures
        is_among(v, text_values(clean_names(names)), db) <==> exists|i: int|
            0 <= i < names.len() && !is_blank(#[trigger] names[i]) && v == Val::Text(
                clean_value(names[i]),
            ),
        clean_names(names).len() > 0 <==> some_filled(names),
    decreases names.len(),
{
    if names.len() > 0 {
        let l = names.drop_last();
        lemma_clean_names(l, v, db);
        let p = text_values(clean_names(l));
        let n = text_values(clean_names(names));
        let last = names.len() - 1;
        if is_among(v, n, db) {
            let i = choose|i: int| 0 <= i < n.len() && given(#[trigger] n[i], db) == v;
            if i < p.len() {
                assert(p[i] == n[i]);
                assert(is_among(v, p, db));
                let k = choose|k: int|
                    0 <= k < l.len() && !is_blank(#[trigger] l[k]) && v == Val::Text(
                        clean_value(l[k]),
                    );
                assert(names[k] == l[k]);
            } else {
                assert(!is_blank(names[last]));
            }
        }
        if exists|i: int|
            0 <= i < names.len() && !is_blank(#[trigger] names[i]) && v == Val::Text(
                clean_value(names[i]),
            ) {
            let k = choose|k: int|
                0 <= k < names.len() && !is_blank(#[trigger] names[k]) && v == Val::Text(
                    clean_value(names[k]),
                );
            if k < last {
                assert(l[k] == names[k]);
                assert(is_among(v, p, db));
                let i = choose|i: int| 0 <= i < p.len() && given(#[trigger] p[i], db) == v;
                assert(n[i] == p[i]);
            } else {
                assert(given(n[n.len() - 1], db) == v);
            }
        }
        if some_filled(names) {
            let k = choose|k: int| 0 <= k < names.len() && !is_blank(#[trigger] names[k]);
            if k < last {
                assert(l[k] == names[k]);
                assert(some_filled(l));
            }
        }
        if clean_names(names).len() > 0 {
            if is_blank(names.last()) {
                let k = choose|k: int| 0 <= k < l.len() && !is_blank(#[trigger] l[k]);
                assert(names[k] == l[k]);
            } else {
                assert(!is_blank(names[last]));
            }
        }
    }
}

proof fn read_names_in(lead: Lead, q: Sql, cs: Seq<Cond>, values: Seq<BindView>) -> (out: Seq<Cond>)
    requires
        spells(lead, q, cs),
    ensures
        spells(lead, say(give_all(say(q, r#" AND bi."CleanName" IN ("#@), values), ")"@), out),
        forall|row: Row, db: Db| #[trigger]
            all_true(out, only(row), db) <==> all_true(cs, only(row), db) && is_among(
                row("CleanName"@),
                values,
                db,
            ),
{
    let t = r#" AND bi."CleanName" IN ("#@;
    let longer = say(give_all(say(q, t), values), ")"@);
    let c = Cond::In(col("CleanName"@), values);
    lemma_flat_say(q, t);
    lemma_flat_give_all(say(q, t), values);
    lemma_flat_say(give_all(say(q, t), values), ")"@);
    assert(chars(t) =~= chars(" AND "@) + column_text("bi"@, "CleanName"@) + chars(" IN ("@)) by {
        reveal(Said::spec_add);
        reveal_strlit(r#" AND bi."CleanName" IN ("#);
        reveal_strlit(" AND ");
        reveal_strlit("bi");
        reveal_strlit(".");
        reveal_strlit("\"");
        reveal_strlit("CleanName");
        reveal_strlit(" IN (");
    }
    assert(text_of(c) == column_text("bi"@, "CleanName"@) + chars(" IN ("@) + values_text(values)
        + chars(")"@));
    assert(flat(longer) == flat(q) + chars(" AND "@) + text_of(c)) by {
        broadcast use {lemma_said_in_turn, lemma_said_nothing};

    }
    lemma_spells_more(lead, q, cs, longer, c);
    cs.push(c)
}

proof fn read_contains(lead: Lead, q: Sql, cs: Seq<Cond>, part: Seq<char>) -> (out: Seq<Cond>)
    requires
        spells(lead, q, cs),
        !is_blank(part),
    ensures
        ({
            let pattern = BindView::Text(clean_pattern(part));
            let d = give(say(q, r#" AND (bi."CleanName" LIKE "#@), pattern);
            let e = give(say(d, r#" OR bi."OriginalTitle" LIKE "#@), pattern);
            spells(lead, say(e, ")"@), out)
        }),
        forall|row: Row, db: Db| #[trigger]
            all_true(out, only(row), db) <==> all_true(cs, only(row), db) && (column_holds(
                row("CleanName"@),
                clean_value(part),
            ) || column_holds(row("OriginalTitle"@), clean_value(part))),
{
    let v = BindView::Text(clean_pattern(part));
    let t1 = r#" AND (bi."CleanName" LIKE "#@;
    let t2 = r#" OR bi."OriginalTitle" LIKE "#@;
    let d = give(say(q, t1), v);
    let e = give(say(d, t2), v);
    let longer = say(e, ")"@);
    lemma_flat_say(q, t1);
    lemma_flat_give(say(q, t1), v);
    lemma_flat_say(d, t2);
    lemma_flat_give(say(d, t2), v);
    lemma_flat_say(e, ")"@);
    let a = Cond::Compare(of("bi"@, "CleanName"@), Op::Like, Expr::Given(v));
    let b = Cond::Compare(of("bi"@, "OriginalTitle"@), Op::Like, Expr::Given(v));
    let o = Cond::Or(Box::new(a), Box::new(b));
    let c = Cond::Group(Box::new(o));
    assert(chars(t1) =~= chars(" AND "@) + chars("("@) + column_text("bi"@, "CleanName"@) + chars(
        " LIKE "@,
    )) by {
        reveal(Said::spec_add);
        reveal_strlit(r#" AND (bi."CleanName" LIKE "#);
        reveal_strlit(" AND ");
        reveal_strlit("(");
        reveal_strlit("bi");
        reveal_strlit(".");
        reveal_strlit("\"");
        reveal_strlit("CleanName");
        reveal_strlit(" LIKE ");
    }
    assert(chars(t2) =~= chars(" OR "@) + column_text("bi"@, "OriginalTitle"@) + chars(" LIKE "@)) by {
        reveal(Said::spec_add);
        reveal_strlit(r#" OR bi."OriginalTitle" LIKE "#);
        reveal_strlit(" OR ");
        reveal_strlit("bi");
        reveal_strlit(".");
        reveal_strlit("\"");
        reveal_strlit("OriginalTitle");
        reveal_strlit(" LIKE ");
    }
    assert(text_of(o) == text_of(a) + chars(" OR "@) + text_of(b));
    assert(text_of(c) == chars("("@) + text_of(o) + chars(")"@));
    assert(reads_so(a) && reads_so(b));
    assert(reads_so(o));
    assert(flat(longer) == flat(q) + chars(" AND "@) + text_of(c)) by {
        broadcast use {lemma_said_in_turn, lemma_said_nothing};

    }
    lemma_spells_more(lead, q, cs, longer, c);
    lemma_clean_pattern(part);
    assert forall|row: Row, db: Db| #[trigger]
        all_true(cs.push(c), only(row), db) <==> all_true(cs, only(row), db) && (column_holds(
            row("CleanName"@),
            clean_value(part),
        ) || column_holds(row("OriginalTitle"@), clean_value(part))) by {
        let s = only(row);
        let x = row("CleanName"@);
        let y = row("OriginalTitle"@);
        assert(truth(a, s, db) == compared(x, Op::Like, Val::Text(clean_pattern(part)), db));
        assert(truth(b, s, db) == compared(y, Op::Like, Val::Text(clean_pattern(part)), db));
        assert(truth(o, s, db) == either(truth(a, s, db), truth(b, s, db)));
        assert(truth(c, s, db) == truth(o, s, db));
        if x is Text {
            law_pattern_finds_the_part(x->Text_0, clean_value(part));
        }
        if y is Text {
            law_pattern_finds_the_part(y->Text_0, clean_value(part));
        }
    }
    cs.push(c)
}

proof fn lemma_lower_texts()
    ensures
        chars(r#" AND lower(bi."Name") = "#@) == and_lower("Name"@, Op::Eq),
        chars(r#" AND lower(bi."SortName") LIKE "#@) == and_lower("SortName"@, Op::Like),
        chars(r#" AND lower(bi."SortName") >= "#@) == and_lower("SortName"@, Op::Ge),
        chars(r#" AND lower(bi."SortName") < "#@) == and_lower("SortName"@, Op::Lt),
{
    assert(chars(r#" AND lower(bi."Name") = "#@) =~= and_lower("Name"@, Op::Eq)) by {
        reveal(Said::spec_add);
        reveal_strlit(r#" AND lower(bi."Name") = "#);
        reveal_strlit(" AND ");
        reveal_strlit("lower(");
        reveal_strlit("bi");
        reveal_strlit(".");
        reveal_strlit("\"");
        reveal_strlit("Name");
        reveal_strlit(")");
        reveal_strlit(" = ");
    }
    assert(chars(r#" AND lower(bi."SortName") LIKE "#@) =~= and_lower("SortName"@, Op::Like)) by {
        reveal(Said::spec_add);
        reveal_strlit(r#" AND lower(bi."SortName") LIKE "#);
        reveal_strlit(" AND ");
        reveal_strlit("lower(");
        reveal_strlit("bi");
        reveal_strlit(".");
        reveal_strlit("\"");
        reveal_strlit("SortName");
        reveal_strlit(")");
        reveal_strlit(" LIKE ");
    }
    assert(chars(r#" AND lower(bi."SortName") >= "#@) =~= and_lower("SortName"@, Op::Ge)) by {
        reveal(Said::spec_add);
        reveal_strlit(r#" AND lower(bi."SortName") >= "#);
        reveal_strlit(" AND ");
        reveal_strlit("lower(");
        reveal_strlit("bi");
        reveal_strlit(".");
        reveal_strlit("\"");
        reveal_strlit("SortName");
        reveal_strlit(")");
        reveal_strlit(" >= ");
    }
    assert(chars(r#" AND lower(bi."SortName") < "#@) =~= and_lower("SortName"@, Op::Lt)) by {
        reveal(Said::spec_add);
        reveal_strlit(r#" AND lower(bi."SortName") < "#);
        reveal_strlit(" AND ");
        reveal_strlit("lower(");
        reveal_strlit("bi");
        reveal_strlit(".");
        reveal_strlit("\"");
        reveal_strlit("SortName");
        reveal_strlit(")");
        reveal_strlit(" < ");
    }
}

pub(crate) proof fn read_names(lead: Lead, q: Sql, cs: Seq<Cond>, f: InternalItemsQuery) -> (out: Seq<
    Cond,
>)
    requires
        spells(lead, q, cs),
    ensures
        spells(lead, name_predicates(q, f), out),
        forall|row: Row, db: Db| #[trigger]
            all_true(out, only(row), db) <==> all_true(cs, only(row), db) && is_named(f, row),
{
    assert(chars(r#" AND bi."CleanName" = "#@) =~= and_compare("CleanName"@, Op::Eq)) by {
        reveal(Said::spec_add);
        reveal_strlit(r#" AND bi."CleanName" = "#);
        reveal_strlit(" AND ");
        reveal_strlit("bi");
        reveal_strlit(".");
        reveal_strlit("\"");
        reveal_strlit("CleanName");
        reveal_strlit(" = ");
    }
    lemma_lower_texts();
    let (q1, c1) = match filled(f.name) {
        Some(name) => if f.use_raw_name == Some(true) {
            (
                give(say(q, r#" AND lower(bi."Name") = "#@), BindView::Text(lowercase(name))),
                read_lower(
                    lead,
                    q,
                    cs,
                    r#" AND lower(bi."Name") = "#@,
                    "Name"@,
                    Op::Eq,
                    lowercase(name),
                ),
            )
        } else {
            (
                give(say(q, r#" AND bi."CleanName" = "#@), BindView::Text(clean_value(name))),
                read_given(
                    lead,
                    q,
                    cs,
                    r#" AND bi."CleanName" = "#@,
                    "CleanName"@,
                    Op::Eq,
                    BindView::Text(clean_value(name)),
                ),
            )
        },
        None => (q, cs),
    };
    let cleans = clean_names(texts(f.names@));
    let values = text_values(cleans);
    let (q2, c2) = if cleans.len() > 0 {
        (
            say(give_all(say(q1, r#" AND bi."CleanName" IN ("#@), values), ")"@),
            read_names_in(lead, q1, c1, values),
        )
    } else {
        (q1, c1)
    };
    let (q3, c3) = match filled(f.name_contains) {
        Some(part) => {
            let pattern = BindView::Text(clean_pattern(part));
            let d = give(say(q2, r#" AND (bi."CleanName" LIKE "#@), pattern);
            let e = give(say(d, r#" OR bi."OriginalTitle" LIKE "#@), pattern);
            (say(e, ")"@), read_contains(lead, q2, c2, part))
        },
        None => (q2, c2),
    };
    let t4 = r#" AND lower(bi."SortName") LIKE "#@;
    let (q4, c4) = match filled(f.name_starts_with) {
        Some(prefix) => (
            give(say(q3, t4), BindView::Text(lowercase(prefix) + "%"@)),
            read_lower(lead, q3, c3, t4, "SortName"@, Op::Like, lowercase(prefix) + "%"@),
        ),
        None => (q3, c3),
    };
    let t5 = r#" AND lower(bi."SortName") >= "#@;
    let (q5, c5) = match filled(f.name_starts_with_or_greater) {
        Some(bound) => (
            give(say(q4, t5), BindView::Text(lowercase(bound))),
            read_lower(lead, q4, c4, t5, "SortName"@, Op::Ge, lowercase(bound)),
        ),
        None => (q4, c4),
    };
    let t6 = r#" AND lower(bi."SortName") < "#@;
    let (q6, c6) = match filled(f.name_less_than) {
        Some(bound) => (
            give(say(q5, t6), BindView::Text(lowercase(bound))),
            read_lower(lead, q5, c5, t6, "SortName"@, Op::Lt, lowercase(bound)),
        ),
        None => (q5, c5),
    };
    assert forall|row: Row, db: Db| #[trigger]
        all_true(c6, only(row), db) <==> all_true(cs, only(row), db) && is_named(f, row) by {
        let s = only(row);
        lemma_clean_names(texts(f.names@), row("CleanName"@), db);
        let sort = row("SortName"@);
        if let Some(prefix) = filled(f.name_starts_with) {
            if sort is Text && no_wildcards(lowercase(prefix)) {
                law_pattern_finds_the_beginning(ascii_lower(sort->Text_0), lowercase(prefix));
            }
        }
        assert(all_true(c6, s, db) <==> all_true(c5, s, db) && (filled(f.name_less_than) matches Some(bound)
            ==> (sort matches Val::Text(t) && text_less(ascii_lower(t), lowercase(bound)))));
        assert(all_true(c5, s, db) <==> all_true(c4, s, db) && (filled(
            f.name_starts_with_or_greater,
        ) matches Some(bound) ==> (sort matches Val::Text(t) && (ascii_lower(t) == lowercase(bound)
            || text_less(lowercase(bound), ascii_lower(t))))));
        assert(all_true(c4, s, db) <==> all_true(c3, s, db) && (filled(
            f.name_starts_with,
        ) matches Some(part) ==> lower_begins(sort, lowercase(part))));
        assert(all_true(c2, s, db) <==> all_true(c1, s, db) && (some_filled(texts(f.names@))
            ==> has_clean_name(row, texts(f.names@))));
    }
    c6
}


} // verus!
