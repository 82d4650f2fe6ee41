//! What the statement for a filter asks of an item's kind, place, numbers, dates and
//! names.
use vstd::prelude::*;

use crate::guid::{db_text, Guid};
use crate::item_query_meaning::{
    and_compare, col, is_among, lemma_flag_cases, lemma_small_numbers, read_filled, read_flag,
    read_given, read_in, read_not_in,
};
use crate::item_type_lookup::ItemTypeNames;
use crate::items_query::InternalItemsQuery;
use crate::model::BaseItemKind;
use crate::sql::{
    filled, give, guid_values, say, say_filled, say_flag, say_in, text_values, BindView, Sql,
};
use crate::sql_meaning::{
    all_true, both, chars, column_text, compared, conds_text, either, fits, flag_number, flat,
    from_text, given, holds, law_pattern_finds_the_part, lemma_flat_give, lemma_flat_say,
    lemma_said_in_turn, lemma_said_nothing, lemma_spells_and, lemma_spells_more, no_wildcards, only,
    quoted, reads_so, spells, spells_open, text_of, truth, value_of, with_row, Cond, Db, Expr, From,
    Lead, Op, Row, Said, Val,
};
use crate::text::{is_blank, is_char, strip_end, strip_start};
use crate::text_util::{clean_value, is_word_char, law_clean_value_is_clean};
use crate::translate_query::{
    anywhere, clean_pattern, kind_predicates, parent_predicate, place_predicates, stored_names,
    targets_movies, type_filters,
};

verus! {

// ---------------------------------------------------------------------------
// Kinds and the search term
// ---------------------------------------------------------------------------
/// Whether a column holds a text with the given part.
pub open spec fn column_holds(v: Val, part: Seq<char>) -> bool {
    v matches Val::Text(t) && holds(t, part)
}

/// Whether a column holds a text with the given term; a `%` in the term stands for any
/// run of characters, and a `_` for any one.
pub open spec fn column_holds_term(v: Val, term: Seq<char>) -> bool {
    v matches Val::Text(t) && if no_wildcards(term) {
        holds(t, term)
    } else {
        fits(t, "%"@ + term + "%"@)
    }
}

/// Whether a search for the given term finds an item: its clean name holds the clean
/// form of the term, or its original title holds the term.
pub open spec fn is_found(term: Seq<char>, row: Row) -> bool {
    column_holds(row("CleanName"@), clean_value(term)) || column_holds_term(
        row("OriginalTitle"@),
        term,
    )
}

/// Whether an item is of one of the given kinds.
pub open spec fn is_of_kind(row: Row, kinds: Seq<BaseItemKind>, names: ItemTypeNames) -> bool {
    exists|i: int|
        0 <= i < kinds.len() && names.name_of(#[trigger] kinds[i]) is Some && row("Type"@)
            == Val::Text(names.name_of(kinds[i])->0)
}

/// Whether some of the kinds has a stored name.
pub open spec fn has_name(kinds: Seq<BaseItemKind>, names: ItemTypeNames) -> bool {
    exists|i: int| 0 <= i < kinds.len() && names.name_of(#[trigger] kinds[i]) is Some
}

/// Whether an item is what a filter asks for: a movie, a series, a folder, of a kind, and
/// found by the search.
pub open spec fn is_kind(f: InternalItemsQuery, names: ItemTypeNames, row: Row) -> bool {
    &&& f.is_movie == Some(false) ==> row("IsMovie"@) == Val::Int(0)
    &&& f.is_movie == Some(true) && f.include_item_types@.len() > 0
        && !f.include_item_types@.contains(BaseItemKind::Movie)
        && !f.include_item_types@.contains(BaseItemKind::Trailer) ==> row("IsMovie"@) == Val::Int(1)
    &&& f.is_series matches Some(b) ==> row("IsSeries"@) == Val::Int(flag_number(b))
    &&& filled(f.search_term) matches Some(term) ==> is_found(term, row)
    &&& f.is_folder matches Some(b) ==> row("IsFolder"@) == Val::Int(flag_number(b))
    &&& f.include_item_types@.len() > 0 ==> is_of_kind(row, f.include_item_types@, names)
    &&& f.include_item_types@.len() == 0 && has_name(f.exclude_item_types@, names) ==> !(row(
        "Type"@,
    ) is Null) && !is_of_kind(row, f.exclude_item_types@, names)
}

/// A clean value holds nothing that is special in a pattern.
pub(crate) proof fn lemma_clean_pattern(s: Seq<char>)
    requires
        !is_blank(s),
    ensures
        no_wildcards(clean_value(s)),
        clean_pattern(s) == "%"@ + clean_value(s) + "%"@,
{
    let c = clean_value(s);
    law_clean_value_is_clean(s);
    assert forall|i: int| 0 <= i < c.len() implies (#[trigger] c[i]) != '%' && c[i] != '_' by {
        assert(is_word_char(c[i]) || c[i] == ' ');
    }
    let p = is_char('%');
    assert(strip_start(c, p) == c);
    assert(strip_end(c, p) == c);
}

spec fn search_cond(term: Seq<char>) -> Cond {
    Cond::Group(
        Box::new(
            Cond::Or(
                Box::new(
                    Cond::Compare(
                        col("CleanName"@),
                        Op::Like,
                        Expr::Given(BindView::Text(clean_pattern(term))),
                    ),
                ),
                Box::new(
                    Cond::Group(
                        Box::new(
                            Cond::And(
                                Box::new(Cond::NotNull(col("OriginalTitle"@))),
                                Box::new(
                                    Cond::Compare(
                                        col("OriginalTitle"@),
                                        Op::Like,
                                        Expr::Given(BindView::Text(anywhere(term))),
                                    ),
                                ),
                            ),
                        ),
                    ),
                ),
            ),
        ),
    )
}

proof fn lemma_search_truth(term: Seq<char>, row: Row, db: Db)
    requires
        !is_blank(term),
    ensures
        truth(search_cond(term), only(row), db) == Some(true) <==> is_found(term, row),
{
    let s = only(row);
    let name = row("CleanName"@);
    let title = row("OriginalTitle"@);
    let a = Cond::Compare(
        col("CleanName"@),
        Op::Like,
        Expr::Given(BindView::Text(clean_pattern(term))),
    );
    let b = Cond::NotNull(col("OriginalTitle"@));
    let c = Cond::Compare(
        col("OriginalTitle"@),
        Op::Like,
        Expr::Given(BindView::Text(anywhere(term))),
    );
    let d = Cond::And(Box::new(b), Box::new(c));
    let e = Cond::Group(Box::new(d));
    let g = Cond::Or(Box::new(a), Box::new(e));
    assert(truth(a, s, db) == compared(name, Op::Like, Val::Text(clean_pattern(term)), db));
    assert(truth(b, s, db) == Some(!(title is Null)));
    assert(truth(c, s, db) == compared(title, Op::Like, Val::Text(anywhere(term)), db));
    assert(truth(d, s, db) == both(truth(b, s, db), truth(c, s, db)));
    assert(truth(e, s, db) == truth(d, s, db));
    assert(truth(g, s, db) == either(truth(a, s, db), truth(e, s, db)));
    assert(truth(search_cond(term), s, db) == truth(g, s, db));
    lemma_clean_pattern(term);
    if name is Text {
        law_pattern_finds_the_part(name->Text_0, clean_value(term));
    }
    if title is Text && no_wildcards(term) {
        law_pattern_finds_the_part(title->Text_0, term);
    }
}

proof fn read_search(lead: Lead, q: Sql, cs: Seq<Cond>, term: Seq<char>) -> (out: Seq<Cond>)
    requires
        spells(lead, q, cs),
        !is_blank(term),
    ensures
        ({
            let d = give(
                say(q, r#" AND (bi."CleanName" LIKE "#@),
                BindView::Text(clean_pattern(term)),
            );
            let e = give(
                say(d, r#" OR (bi."OriginalTitle" IS NOT NULL AND bi."OriginalTitle" LIKE "#@),
                BindView::Text(anywhere(term)),
            );
            spells(lead, say(e, "))"@), out)
        }),
        forall|row: Row, db: Db| #[trigger]
            all_true(out, only(row), db) <==> all_true(cs, only(row), db) && is_found(term, row),
{
    let c = search_cond(term);
    let x = BindView::Text(clean_pattern(term));
    let y = BindView::Text(anywhere(term));
    let first = r#" AND (bi."CleanName" LIKE "#@;
    let second = r#" OR (bi."OriginalTitle" IS NOT NULL AND bi."OriginalTitle" LIKE "#@;
    let d = give(say(q, first), x);
    let e = give(say(d, second), y);
    let longer = say(e, "))"@);
    lemma_flat_say(q, first);
    lemma_flat_give(say(q, first), x);
    lemma_flat_say(d, second);
    lemma_flat_give(say(d, second), y);
    lemma_flat_say(e, "))"@);
    assert(chars(first) =~= chars(" AND "@) + chars("("@) + column_text("bi"@, "CleanName"@) + chars(
        " LIKE "@,
    )) by {
        reveal(Said::spec_add);
        reveal_strlit(r#" AND (bi."CleanName" LIKE "#);
        reveal_strlit(" AND ");
        reveal_strlit("(");
        reveal_strlit("bi");
        reveal_strlit(".");
        reveal_strlit("\"");
        reveal_strlit("CleanName");
        reveal_strlit(" LIKE ");
    }
    assert(chars(second) =~= chars(" OR "@) + chars("("@) + column_text("bi"@, "OriginalTitle"@)
        + chars(" IS NOT NULL"@) + chars(" AND "@) + column_text("bi"@, "OriginalTitle"@) + chars(
        " LIKE "@,
    )) by {
        reveal(Said::spec_add);
        reveal_strlit(r#" OR (bi."OriginalTitle" IS NOT NULL AND bi."OriginalTitle" LIKE "#);
        reveal_strlit(" AND ");
        reveal_strlit("(");
        reveal_strlit("bi");
        reveal_strlit(".");
        reveal_strlit("\"");
        reveal_strlit("OriginalTitle");
        reveal_strlit(" LIKE ");
        reveal_strlit(" OR ");
        reveal_strlit(" IS NOT NULL");
    }
    assert(chars("))"@) =~= chars(")"@) + chars(")"@)) by {
        reveal(Said::spec_add);
        reveal_strlit("))");
        reveal_strlit(")");
    }
    let a = Cond::Compare(col("CleanName"@), Op::Like, Expr::Given(x));
    let b = Cond::NotNull(col("OriginalTitle"@));
    let l = Cond::Compare(col("OriginalTitle"@), Op::Like, Expr::Given(y));
    let m = Cond::And(Box::new(b), Box::new(l));
    let n = Cond::Group(Box::new(m));
    let o = Cond::Or(Box::new(a), Box::new(n));
    assert(text_of(m) == text_of(b) + chars(" AND "@) + text_of(l));
    assert(text_of(n) == chars("("@) + text_of(m) + chars(")"@));
    assert(text_of(o) == text_of(a) + chars(" OR "@) + text_of(n));
    assert(text_of(c) == chars("("@) + text_of(o) + chars(")"@));
    assert(reads_so(m) && reads_so(n) && reads_so(o) && reads_so(c)) by {
        assert(reads_so(a) && reads_so(b) && reads_so(l));
        assert(reads_so(m));
        assert(reads_so(n));
        assert(reads_so(o));
    }
    assert(flat(longer) == flat(q) + chars(" AND "@) + text_of(c)) by {
        broadcast use {lemma_said_in_turn, lemma_said_nothing};

    }
    lemma_spells_more(lead, q, cs, longer, c);
    assert forall|row: Row, db: Db| #[trigger]
        all_true(cs.push(c), only(row), db) <==> all_true(cs, only(row), db) && is_found(
            term,
            row,
        ) by {
        lemma_search_truth(term, row, db);
    }
    cs.push(c)
}

proof fn lemma_stored_names(kinds: Seq<BaseItemKind>, names: ItemTypeNames, v: Val, db: Db)
    ensures
        is_among(v, text_values(stored_names(kinds, names)), db) <==> exists|i: int|
            0 <= i < kinds.len() && names.name_of(#[trigger] kinds[i]) is Some && v == Val::Text(
                names.name_of(kinds[i])->0,
            ),
        stored_names(kinds, names).len() > 0 <==> has_name(kinds, names),
    decreases kinds.len(),
{
    if kinds.len() > 0 {
        let l = kinds.drop_last();
        lemma_stored_names(l, names, v, db);
        let before = stored_names(l, names);
        let all = stored_names(kinds, names);
        let p = text_values(before);
        let n = text_values(all);
        let last = kinds.len() - 1;
        if names.name_of(kinds.last()) is Some {
            assert(all == before.push(names.name_of(kinds.last())->0));
            assert(names.name_of(kinds[last]) is Some);
            assert(all.len() > 0);
        }
        if is_among(v, n, db) {
            let i = choose|i: int| 0 <= i < n.len() && given(#[trigger] n[i], db) == v;
            if i < p.len() {
                assert(p[i] == n[i]);
                assert(is_among(v, p, db));
                let k = choose|k: int|
                    0 <= k < l.len() && names.name_of(#[trigger] l[k]) is Some && v == Val::Text(
                        names.name_of(l[k])->0,
                    );
                assert(kinds[k] == l[k]);
            } else {
                assert(names.name_of(kinds[last]) is Some);
            }
        }
        if exists|i: int|
            0 <= i < kinds.len() && names.name_of(#[trigger] kinds[i]) is Some && v == Val::Text(
                names.name_of(kinds[i])->0,
            ) {
            let k = choose|k: int|
                0 <= k < kinds.len() && names.name_of(#[trigger] kinds[k]) is Some && v
                    == Val::Text(names.name_of(kinds[k])->0);
            if k < last {
                assert(l[k] == kinds[k]);
                assert(is_among(v, p, db));
                let i = choose|i: int| 0 <= i < p.len() && given(#[trigger] p[i], db) == v;
                assert(n[i] == p[i]);
            } else {
                assert(given(n[n.len() - 1], db) == v);
            }
        }
        if has_name(kinds, names) {
            let k = choose|k: int| 0 <= k < kinds.len() && names.name_of(#[trigger] kinds[k]) is Some;
            if k < last {
                assert(l[k] == kinds[k]);
                assert(has_name(l, names));
            }
        }
        if has_name(l, names) {
            let k = choose|k: int| 0 <= k < l.len() && names.name_of(#[trigger] l[k]) is Some;
            assert(kinds[k] == l[k]);
        }
    }
}

proof fn read_types(
    lead: Lead,
    q: Sql,
    cs: Seq<Cond>,
    f: InternalItemsQuery,
    names: ItemTypeNames,
) -> (out: Seq<Cond>)
    requires
        spells(lead, q, cs),
    ensures
        spells(lead, type_filters(q, f, names), out),
        forall|row: Row, db: Db| #[trigger]
            all_true(out, only(row), db) <==> all_true(cs, only(row), db) && (
            f.include_item_types@.len() > 0 ==> is_of_kind(row, f.include_item_types@, names)) && (
            f.include_item_types@.len() == 0 && has_name(f.exclude_item_types@, names) ==> !(row(
                "Type"@,
            ) is Null) && !is_of_kind(row, f.exclude_item_types@, names)),
{
    assert(chars(r#"bi."Type""#@) =~= column_text("bi"@, "Type"@)) by {
        reveal(Said::spec_add);
        reveal_strlit(r#"bi."Type""#);
        reveal_strlit("bi");
        reveal_strlit(".");
        reveal_strlit("\"");
        reveal_strlit("Type");
    }
    let kinds = if f.include_item_types@.len() > 0 {
        f.include_item_types@
    } else {
        f.exclude_item_types@
    };
    let values = text_values(stored_names(kinds, names));
    lemma_stored_names(kinds, names, Val::Null, arbitrary());
    let out = if f.include_item_types@.len() > 0 {
        lemma_spells_and(lead, q, cs);
        read_in(lead, say(q, " AND "@), cs, r#"bi."Type""#@, "Type"@, values)
    } else if stored_names(kinds, names).len() > 0 {
        read_not_in(lead, q, cs, r#"bi."Type""#@, "Type"@, values)
    } else {
        cs
    };
    assert forall|row: Row, db: Db| #[trigger]
        all_true(out, only(row), db) <==> all_true(cs, only(row), db) && (
        f.include_item_types@.len() > 0 ==> is_of_kind(row, f.include_item_types@, names)) && (
        f.include_item_types@.len() == 0 && has_name(f.exclude_item_types@, names) ==> !(row(
            "Type"@,
        ) is Null) && !is_of_kind(row, f.exclude_item_types@, names)) by {
        lemma_stored_names(kinds, names, row("Type"@), db);
    }
    out
}

pub(crate) proof fn read_kind(
    lead: Lead,
    q: Sql,
    cs: Seq<Cond>,
    f: InternalItemsQuery,
    names: ItemTypeNames,
) -> (out: Seq<Cond>)
    requires
        spells(lead, q, cs),
    ensures
        spells(lead, kind_predicates(q, f, names), out),
        forall|row: Row, db: Db| #[trigger]
            all_true(out, only(row), db) <==> all_true(cs, only(row), db) && is_kind(f, names, row),
{
    assert(chars(r#" AND bi."IsMovie" = "#@) =~= and_compare("IsMovie"@, Op::Eq)) by {
        reveal(Said::spec_add);
        reveal_strlit(r#" AND bi."IsMovie" = "#);
        reveal_strlit(" AND ");
        reveal_strlit("bi");
        reveal_strlit(".");
        reveal_strlit("\"");
        reveal_strlit("IsMovie");
        reveal_strlit(" = ");
    }
    assert(chars(r#" AND bi."IsSeries" = "#@) =~= and_compare("IsSeries"@, Op::Eq)) by {
        reveal(Said::spec_add);
        reveal_strlit(r#" AND bi."IsSeries" = "#);
        reveal_strlit(" AND ");
        reveal_strlit("bi");
        reveal_strlit(".");
        reveal_strlit("\"");
        reveal_strlit("IsSeries");
        reveal_strlit(" = ");
    }
    assert(chars(r#" AND bi."IsFolder" = "#@) =~= and_compare("IsFolder"@, Op::Eq)) by {
        reveal(Said::spec_add);
        reveal_strlit(r#" AND bi."IsFolder" = "#);
        reveal_strlit(" AND ");
        reveal_strlit("bi");
        reveal_strlit(".");
        reveal_strlit("\"");
        reveal_strlit("IsFolder");
        reveal_strlit(" = ");
    }
    lemma_flag_cases(f.is_movie);
    let movie = r#" AND bi."IsMovie" = "#@;
    let (q1, c1) = match f.is_movie {
        Some(m) => if m && targets_movies(f) {
            (q, cs)
        } else {
            (
                give(say(q, movie), BindView::Flag(m)),
                read_given(lead, q, cs, movie, "IsMovie"@, Op::Eq, BindView::Flag(m)),
            )
        },
        None => (q, cs),
    };
    let q2 = say_flag(q1, r#" AND bi."IsSeries" = "#@, f.is_series);
    let c2 = read_flag(lead, q1, c1, r#" AND bi."IsSeries" = "#@, "IsSeries"@, f.is_series);
    let (q3, c3) = match filled(f.search_term) {
        Some(term) => {
            let d = give(
                say(q2, r#" AND (bi."CleanName" LIKE "#@),
                BindView::Text(clean_pattern(term)),
            );
            let e = give(
                say(d, r#" OR (bi."OriginalTitle" IS NOT NULL AND bi."OriginalTitle" LIKE "#@),
                BindView::Text(anywhere(term)),
            );
            (say(e, "))"@), read_search(lead, q2, c2, term))
        },
        None => (q2, c2),
    };
    let q4 = say_flag(q3, r#" AND bi."IsFolder" = "#@, f.is_folder);
    let c4 = read_flag(lead, q3, c3, r#" AND bi."IsFolder" = "#@, "IsFolder"@, f.is_folder);
    read_types(lead, q4, c4, f, names)
}

// ---------------------------------------------------------------------------
// Place
// ---------------------------------------------------------------------------
/// Whether a column holds one of the identifiers.
pub open spec fn is_one_of(v: Val, ids: Seq<Guid>) -> bool {
    exists|i: int| 0 <= i < ids.len() && v == Val::Text(db_text((#[trigger] ids[i]).value))
}

pub(crate) proof fn lemma_one_of(v: Val, ids: Seq<Guid>, db: Db)
    ensures
        is_among(v, guid_values(ids), db) <==> is_one_of(v, ids),
{
    let values = guid_values(ids);
    if is_among(v, values, db) {
        let i = choose|i: int| 0 <= i < values.len() && given(#[trigger] values[i], db) == v;
        assert(v == Val::Text(db_text(ids[i].value)));
    }
    if is_one_of(v, ids) {
        let i = choose|i: int|
            0 <= i < ids.len() && v == Val::Text(db_text((#[trigger] ids[i]).value));
        assert(given(values[i], db) == v);
    }
}

/// A list of identifiers behind a test that there is one, and ` AND `.
pub(crate) proof fn read_ids(
    lead: Lead,
    q: Sql,
    cs: Seq<Cond>,
    t: Seq<char>,
    column: Seq<char>,
    name: Seq<char>,
    values: Seq<BindView>,
) -> (out: Seq<Cond>)
    requires
        spells(lead, q, cs),
        chars(t) == chars(" AND "@) + text_of(Cond::NotNull(col(name))) + chars(" AND "@),
        chars(column) == column_text("bi"@, name),
    ensures
        spells(lead, say_in(say(q, t), column, values), out),
        forall|row: Row, db: Db| #[trigger]
            all_true(out, only(row), db) <==> all_true(cs, only(row), db) && is_among(
                row(name),
                values,
                db,
            ),
{
    let c = Cond::NotNull(col(name));
    let one = cs.push(c);
    lemma_flat_say(q, t);
    assert(one.drop_last() =~= cs);
    let tail = chars(" AND "@) + text_of(c) + chars(" AND "@);
    lemma_said_in_turn(lead.before, flat(q), tail);
    lemma_said_in_turn(lead.head, conds_text(cs), tail);
    assert(conds_text(one) + chars(" AND "@) == conds_text(cs) + tail) by {
        broadcast use {lemma_said_in_turn, lemma_said_nothing};

    }
    lemma_said_in_turn(lead.head, conds_text(one), chars(" AND "@));
    assert(spells_open(lead, say(q, t), one));
    let out = read_in(lead, say(q, t), one, column, name, values);
    assert forall|row: Row, db: Db| #[trigger]
        all_true(out, only(row), db) <==> all_true(cs, only(row), db) && is_among(
            row(name),
            values,
            db,
        ) by {
        let s = only(row);
        assert(truth(c, s, db) == Some(!(row(name) is Null)));
        if all_true(one, s, db) {
            assert forall|i: int| 0 <= i < cs.len() implies truth(#[trigger] cs[i], s, db) == Some(
                true,
            ) by {
                assert(one[i] == cs[i]);
            }
        }
    }
    out
}

/// Whether an item lies below the folder with the given identifier.
pub open spec fn has_ancestor(db: Db, row: Row, id: Val) -> bool {
    exists|i: int|
        0 <= i < (db.tables)("AncestorIds"@).len() && {
            let a = #[trigger] (db.tables)("AncestorIds"@)[i];
            &&& !(row("Id"@) is Null)
            &&& a("ItemId"@) == row("Id"@)
            &&& a("ParentItemId"@) == id
        }
}

/// Whether a folder links to an item as its child.
pub open spec fn is_linked(db: Db, row: Row, folder: Val) -> bool {
    exists|i: int|
        0 <= i < (db.tables)("HermitLinkedChildren"@).len() && {
            let a = #[trigger] (db.tables)("HermitLinkedChildren"@)[i];
            &&& !(row("Id"@) is Null)
            &&& a("ChildId"@) == row("Id"@)
            &&& a("ParentId"@) == folder
            &&& a("ChildType"@) == Val::Int(0)
        }
}

/// Whether an item stands in the folder that a filter names: anywhere below it, in it, or
/// linked to it.
pub open spec fn is_in_folder(f: InternalItemsQuery, row: Row, db: Db) -> bool {
    let id = Val::Text(db_text(f.parent_id.value));
    if f.recursive {
        has_ancestor(db, row, id)
    } else {
        row("ParentId"@) == id || (!f.physical_children_only && is_linked(db, row, id))
    }
}

/// Whether an item stands where a filter asks for.
pub open spec fn is_placed(f: InternalItemsQuery, row: Row, db: Db) -> bool {
    &&& f.channel_ids@.len() > 0 ==> is_one_of(row("ChannelId"@), f.channel_ids@)
    &&& f.parent_id.value != 0 ==> is_in_folder(f, row, db)
    &&& filled(f.path) matches Some(p) ==> row("Path"@) == Val::Text(p)
    &&& filled(f.presentation_unique_key) matches Some(k) ==> row("PresentationUniqueKey"@)
        == Val::Text(k)
}

pub(crate) open spec fn of(name: Seq<char>, column: Seq<char>) -> Expr {
    Expr::Column { of: name, name: column }
}

pub(crate) open spec fn same(a: Expr, b: Expr) -> Cond {
    Cond::Compare(a, Op::Eq, b)
}

proof fn read_ancestor(lead: Lead, q: Sql, cs: Seq<Cond>, id: BindView) -> (out: Seq<Cond>)
    requires
        spells(lead, q, cs),
        id is Text,
    ensures
        spells(
            lead,
            say(
                give(
                    say(
                        q,
                        r#" AND EXISTS (SELECT 1 FROM "AncestorIds" a WHERE a."ItemId" = bi."Id" AND a."ParentItemId" = "#@,
                    ),
                    id,
                ),
                ")"@,
            ),
            out,
        ),
        forall|row: Row, db: Db| #[trigger]
            all_true(out, only(row), db) <==> all_true(cs, only(row), db) && has_ancestor(
                db,
                row,
                Val::Text(id->Text_0),
            ),
{
    let t = r#" AND EXISTS (SELECT 1 FROM "AncestorIds" a WHERE a."ItemId" = bi."Id" AND a."ParentItemId" = "#@;
    let from = From::Named { table: "AncestorIds"@, name: "a"@ };
    let x = same(of("a"@, "ItemId"@), of("bi"@, "Id"@));
    let y = same(of("a"@, "ParentItemId"@), Expr::Given(id));
    let inner = Cond::And(Box::new(x), Box::new(y));
    let c = Cond::Exists(from, Box::new(inner));
    let longer = say(give(say(q, t), id), ")"@);
    lemma_flat_say(q, t);
    lemma_flat_give(say(q, t), id);
    lemma_flat_say(give(say(q, t), id), ")"@);
    assert(chars(t) =~= chars(" AND "@) + chars("EXISTS (SELECT 1 FROM "@) + from_text(from) + chars(
        " WHERE "@,
    ) + text_of(x) + chars(" AND "@) + column_text("a"@, "ParentItemId"@) + chars(" = "@)) by {
        reveal(Said::spec_add);
        reveal_strlit(r#" AND EXISTS (SELECT 1 FROM "AncestorIds" a WHERE a."ItemId" = bi."Id" AND a."ParentItemId" = "#);
        reveal_strlit(" AND ");
        reveal_strlit("EXISTS (SELECT 1 FROM ");
        reveal_strlit("\"");
        reveal_strlit("AncestorIds");
        reveal_strlit(" ");
        reveal_strlit("a");
        reveal_strlit(" WHERE ");
        reveal_strlit(".");
        reveal_strlit("ItemId");
        reveal_strlit(" = ");
        reveal_strlit("bi");
        reveal_strlit("Id");
        reveal_strlit("ParentItemId");
    }
    assert(text_of(inner) == text_of(x) + chars(" AND "@) + text_of(y));
    assert(text_of(c) == chars("EXISTS (SELECT 1 FROM "@) + from_text(from) + chars(" WHERE "@)
        + text_of(inner) + chars(")"@));
    assert(reads_so(x) && reads_so(y));
    assert(reads_so(inner));
    assert(flat(longer) == flat(q) + chars(" AND "@) + text_of(c)) by {
        broadcast use {lemma_said_in_turn, lemma_said_nothing};

    }
    lemma_spells_more(lead, q, cs, longer, c);
    assert forall|row: Row, db: Db| #[trigger]
        all_true(cs.push(c), only(row), db) <==> all_true(cs, only(row), db) && has_ancestor(
            db,
            row,
            Val::Text(id->Text_0),
        ) by {
        let rows = (db.tables)("AncestorIds"@);
        assert("a"@ != "bi"@) by {
            reveal_strlit("a");
            reveal_strlit("bi");
            assert("a"@.len() != "bi"@.len());
        }
        assert forall|i: int| 0 <= i < rows.len() implies (truth(
            inner,
            with_row(only(row), "a"@, #[trigger] rows[i]),
            db,
        ) == Some(true) <==> {
            &&& !(row("Id"@) is Null)
            &&& rows[i]("ItemId"@) == row("Id"@)
            &&& rows[i]("ParentItemId"@) == Val::Text(id->Text_0)
        }) by {
            let s = with_row(only(row), "a"@, rows[i]);
            assert(s("a"@) == rows[i] && s("bi"@) == row);
            assert(truth(x, s, db) == compared(rows[i]("ItemId"@), Op::Eq, row("Id"@), db));
            assert(truth(y, s, db) == compared(
                rows[i]("ParentItemId"@),
                Op::Eq,
                Val::Text(id->Text_0),
                db,
            ));
            assert(truth(inner, s, db) == both(truth(x, s, db), truth(y, s, db)));
        }
        assert(truth(c, only(row), db) == Some(has_ancestor(db, row, Val::Text(id->Text_0))));
    }
    cs.push(c)
}

proof fn read_child(lead: Lead, q: Sql, cs: Seq<Cond>, id: BindView) -> (out: Seq<Cond>)
    requires
        spells(lead, q, cs),
        id is Text,
    ensures
        ({
            let a = give(say(q, r#" AND (bi."ParentId" = "#@), id);
            let b = give(
                say(
                    a,
                    r#" OR bi."Id" IN (SELECT "ChildId" FROM "HermitLinkedChildren" WHERE "ParentId" = "#@,
                ),
                id,
            );
            spells(lead, say(b, r#" AND "ChildType" = 0))"#@), out)
        }),
        forall|row: Row, db: Db| #[trigger]
            all_true(out, only(row), db) <==> all_true(cs, only(row), db) && (row("ParentId"@)
                == Val::Text(id->Text_0) || is_linked(db, row, Val::Text(id->Text_0))),
{
    let t1 = r#" AND (bi."ParentId" = "#@;
    let t2 = r#" OR bi."Id" IN (SELECT "ChildId" FROM "HermitLinkedChildren" WHERE "ParentId" = "#@;
    let t3 = r#" AND "ChildType" = 0))"#@;
    let from = From::Unnamed { table: "HermitLinkedChildren"@ };
    let p = same(of("bi"@, "ParentId"@), Expr::Given(id));
    let x = same(Expr::Bare { name: "ParentId"@ }, Expr::Given(id));
    let y = same(Expr::Bare { name: "ChildType"@ }, Expr::Number(0));
    let inner = Cond::And(Box::new(x), Box::new(y));
    let l = Cond::InSelect(of("bi"@, "Id"@), Expr::Bare { name: "ChildId"@ }, from, Box::new(inner));
    let o = Cond::Or(Box::new(p), Box::new(l));
    let c = Cond::Group(Box::new(o));
    let a = give(say(q, t1), id);
    let b = give(say(a, t2), id);
    let longer = say(b, t3);
    lemma_small_numbers();
    lemma_flat_say(q, t1);
    lemma_flat_give(say(q, t1), id);
    lemma_flat_say(a, t2);
    lemma_flat_give(say(a, t2), id);
    lemma_flat_say(b, t3);
    assert(chars(t1) =~= chars(" AND "@) + chars("("@) + column_text("bi"@, "ParentId"@) + chars(
        " = "@,
    )) by {
        reveal(Said::spec_add);
        reveal_strlit(r#" AND (bi."ParentId" = "#);
        reveal_strlit(" AND ");
        reveal_strlit("(");
        reveal_strlit("bi");
        reveal_strlit(".");
        reveal_strlit("\"");
        reveal_strlit("ParentId");
        reveal_strlit(" = ");
    }
    assert(chars(t2) =~= chars(" OR "@) + column_text("bi"@, "Id"@) + chars(" IN (SELECT "@) + quoted(
        "ChildId"@,
    ) + chars(" FROM "@) + from_text(from) + chars(" WHERE "@) + quoted("ParentId"@) + chars(" = "@)) by {
        reveal(Said::spec_add);
        reveal_strlit(r#" OR bi."Id" IN (SELECT "ChildId" FROM "HermitLinkedChildren" WHERE "ParentId" = "#);
        reveal_strlit(" OR ");
        reveal_strlit("bi");
        reveal_strlit(".");
        reveal_strlit("\"");
        reveal_strlit("Id");
        reveal_strlit(" IN (SELECT ");
        reveal_strlit("ChildId");
        reveal_strlit(" FROM ");
        reveal_strlit("HermitLinkedChildren");
        reveal_strlit(" WHERE ");
        reveal_strlit("ParentId");
        reveal_strlit(" = ");
    }
    assert(chars(t3) =~= chars(" AND "@) + text_of(y) + chars(")"@) + chars(")"@)) by {
        reveal(Said::spec_add);
        reveal_strlit(r#" AND "ChildType" = 0))"#);
        reveal_strlit(" AND ");
        reveal_strlit("\"");
        reveal_strlit("ChildType");
        reveal_strlit(" = ");
        reveal_strlit("0");
        reveal_strlit(")");
    }
    assert(text_of(inner) == text_of(x) + chars(" AND "@) + text_of(y));
    assert(text_of(l) == column_text("bi"@, "Id"@) + chars(" IN (SELECT "@) + quoted("ChildId"@) + chars(
        " FROM "@,
    ) + from_text(from) + chars(" WHERE "@) + text_of(inner) + chars(")"@));
    assert(text_of(o) == text_of(p) + chars(" OR "@) + text_of(l));
    assert(text_of(c) == chars("("@) + text_of(o) + chars(")"@));
    assert(reads_so(x) && reads_so(y) && reads_so(p));
    assert(reads_so(inner));
    assert(reads_so(l));
    assert(reads_so(o));
    assert(flat(longer) == flat(q) + chars(" AND "@) + text_of(c)) by {
        broadcast use {lemma_said_in_turn, lemma_said_nothing};

    }
    lemma_spells_more(lead, q, cs, longer, c);
    let folder = Val::Text(id->Text_0);
    assert forall|row: Row, db: Db| #[trigger]
        all_true(cs.push(c), only(row), db) <==> all_true(cs, only(row), db) && (row("ParentId"@)
            == folder || is_linked(db, row, folder)) by {
        let rows = (db.tables)("HermitLinkedChildren"@);
        let top = only(row);
        assert forall|i: int| 0 <= i < rows.len() implies (truth(
            inner,
            with_row(top, Seq::empty(), #[trigger] rows[i]),
            db,
        ) == Some(true) <==> rows[i]("ParentId"@) == folder && rows[i]("ChildType"@) == Val::Int(0)) by {
            let s = with_row(top, Seq::empty(), rows[i]);
            assert(s(Seq::empty()) == rows[i]);
            assert(truth(x, s, db) == compared(rows[i]("ParentId"@), Op::Eq, folder, db));
            assert(truth(y, s, db) == compared(rows[i]("ChildType"@), Op::Eq, Val::Int(0), db));
            assert(truth(inner, s, db) == both(truth(x, s, db), truth(y, s, db)));
        }
        let id_of = row("Id"@);
        if is_linked(db, row, folder) {
            let i = choose|i: int|
                0 <= i < rows.len() && {
                    let a = #[trigger] rows[i];
                    &&& !(row("Id"@) is Null)
                    &&& a("ChildId"@) == row("Id"@)
                    &&& a("ParentId"@) == folder
                    &&& a("ChildType"@) == Val::Int(0)
                };
            let s = with_row(top, Seq::empty(), rows[i]);
            assert(value_of(Expr::Bare { name: "ChildId"@ }, s, db) == id_of);
            assert(truth(l, top, db) == Some(true));
        }
        if truth(l, top, db) == Some(true) {
            let i = choose|i: int|
                0 <= i < rows.len() && {
                    let s = with_row(top, Seq::empty(), #[trigger] rows[i]);
                    truth(inner, s, db) == Some(true) && value_of(
                        Expr::Bare { name: "ChildId"@ },
                        s,
                        db,
                    ) == id_of
                };
            assert(rows[i]("ChildId"@) == id_of);
            assert(is_linked(db, row, folder));
        }
        assert(truth(p, top, db) == compared(row("ParentId"@), Op::Eq, folder, db));
        assert(truth(o, top, db) == either(truth(p, top, db), truth(l, top, db)));
        assert(truth(c, top, db) == truth(o, top, db));
    }
    cs.push(c)
}

pub(crate) proof fn read_place(lead: Lead, q: Sql, cs: Seq<Cond>, f: InternalItemsQuery) -> (out: Seq<
    Cond,
>)
    requires
        spells(lead, q, cs),
    ensures
        spells(lead, place_predicates(q, f), out),
        forall|row: Row, db: Db| #[trigger]
            all_true(out, only(row), db) <==> all_true(cs, only(row), db) && is_placed(f, row, db),
{
    assert(chars(r#" AND bi."ParentId" = "#@) =~= and_compare("ParentId"@, Op::Eq)) by {
        reveal(Said::spec_add);
        reveal_strlit(r#" AND bi."ParentId" = "#);
        reveal_strlit(" AND ");
        reveal_strlit("bi");
        reveal_strlit(".");
        reveal_strlit("\"");
        reveal_strlit("ParentId");
        reveal_strlit(" = ");
    }
    assert(chars(r#" AND bi."Path" = "#@) =~= and_compare("Path"@, Op::Eq)) by {
        reveal(Said::spec_add);
        reveal_strlit(r#" AND bi."Path" = "#);
        reveal_strlit(" AND ");
        reveal_strlit("bi");
        reveal_strlit(".");
        reveal_strlit("\"");
        reveal_strlit("Path");
        reveal_strlit(" = ");
    }
    assert(chars(r#" AND bi."PresentationUniqueKey" = "#@) =~= and_compare("PresentationUniqueKey"@, Op::Eq)) by {
        reveal(Said::spec_add);
        reveal_strlit(r#" AND bi."PresentationUniqueKey" = "#);
        reveal_strlit(" AND ");
        reveal_strlit("bi");
        reveal_strlit(".");
        reveal_strlit("\"");
        reveal_strlit("PresentationUniqueKey");
        reveal_strlit(" = ");
    }
    let t = r#" AND bi."ChannelId" IS NOT NULL AND "#@;
    let column = r#"bi."ChannelId""#@;
    assert(chars(t) =~= chars(" AND "@) + text_of(Cond::NotNull(col("ChannelId"@))) + chars(
        " AND "@,
    )) by {
        reveal(Said::spec_add);
        reveal_strlit(r#" AND bi."ChannelId" IS NOT NULL AND "#);
        reveal_strlit(" AND ");
        reveal_strlit("bi");
        reveal_strlit(".");
        reveal_strlit("\"");
        reveal_strlit("ChannelId");
        reveal_strlit(" IS NOT NULL");
    }
    assert(chars(column) =~= column_text("bi"@, "ChannelId"@)) by {
        reveal(Said::spec_add);
        reveal_strlit(r#"bi."ChannelId""#);
        reveal_strlit("bi");
        reveal_strlit(".");
        reveal_strlit("\"");
        reveal_strlit("ChannelId");
    }
    let values = guid_values(f.channel_ids@);
    let (q1, c1) = if f.channel_ids@.len() > 0 {
        (
            say_in(say(q, t), column, values),
            read_ids(lead, q, cs, t, column, "ChannelId"@, values),
        )
    } else {
        (q, cs)
    };
    let id = BindView::Text(db_text(f.parent_id.value));
    let q2 = parent_predicate(q1, f);
    let c2 = if f.parent_id.value == 0 {
        c1
    } else if f.recursive {
        read_ancestor(lead, q1, c1, id)
    } else if f.physical_children_only {
        read_given(lead, q1, c1, r#" AND bi."ParentId" = "#@, "ParentId"@, Op::Eq, id)
    } else {
        read_child(lead, q1, c1, id)
    };
    let q3 = say_filled(q2, r#" AND bi."Path" = "#@, f.path);
    let c3 = read_filled(lead, q2, c2, r#" AND bi."Path" = "#@, "Path"@, f.path);
    let out = read_filled(
        lead,
        q3,
        c3,
        r#" AND bi."PresentationUniqueKey" = "#@,
        "PresentationUniqueKey"@,
        f.presentation_unique_key,
    );
    assert forall|row: Row, db: Db| #[trigger]
        all_true(out, only(row), db) <==> all_true(cs, only(row), db) && is_placed(f, row, db) by {
        lemma_one_of(row("ChannelId"@), f.channel_ids@, db);
        assert(all_true(c2, only(row), db) <==> all_true(c1, only(row), db) && (f.parent_id.value
            != 0 ==> is_in_folder(f, row, db)));
    }
    out
}


} // verus!
