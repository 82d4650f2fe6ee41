//! What the statement for a filter asks for.
use vstd::prelude::*;

use crate::item_query_kinds::{is_kind, is_placed, read_kind, read_place};
use crate::item_query_links::{
    is_below, is_dead, is_peopled, is_provided, read_ancestors, read_dead, read_people,
    read_providers,
};
use crate::item_query_meaning::{and_compare, col, is_sized, read_filled, read_size};
use crate::item_query_relations::{is_rated_by_user, is_valued, read_user, read_values};
use crate::item_query_state::{
    is_aired, is_in_state, is_owned, is_rated, read_owner, read_rating, read_season, read_state,
};
use crate::item_query_values::{
    is_dated, is_named, is_numbered, read_dates, read_names, read_numbers,
};
use crate::item_type_lookup::ItemTypeNames;
use crate::items_query::InternalItemsQuery;
use crate::sql::{filled, give, say, say_filled, BindView, PieceView, Sql};
use crate::sql_meaning::{
    all_true, chars, column_text, compared, conds_text, flat, hole, lemma_flat_concat,
    lemma_flat_give, lemma_flat_say, lemma_said_in_turn, lemma_said_nothing, only, reads_so,
    select_head, selects, spells, spells_select, text_of, truth, Cond, Db, Expr, From, Lead, Op,
    Row, Said, Val,
};
use crate::time::Timestamp;
use crate::translate_query::{
    all_exclude_tags, all_tags, ancestor_predicates, date_predicates, dead_predicates, item_query,
    item_value_predicates, kind_predicates, name_predicates, number_predicates, owner_predicates,
    people_predicates, place_predicates, provider_predicates, rating_predicates, season_predicate,
    select_text, size_predicates, state_predicates, tail_clause, user_data_predicates, where_clause,
    QueryShape, PLACEHOLDER_ID,
};

verus! {

/// Whether a column holds a text that a filter asks for, if it asks for one.
pub open spec fn is_text(v: Val, wanted: Option<String>) -> bool {
    filled(wanted) matches Some(s) ==> v == Val::Text(s)
}

/// Whether an item is what a filter asks for: it meets every part of the filter, and is not
/// the one that only keeps a place.
pub open spec fn is_wanted(
    f: InternalItemsQuery,
    names: ItemTypeNames,
    at: Timestamp,
    row: Row,
    db: Db,
) -> bool {
    &&& !(row("Id"@) is Null) && row("Id"@) != Val::Text("00000000-0000-0000-0000-000000000001"@)
    &&& is_sized(f, row)
    &&& is_kind(f, names, row)
    &&& is_placed(f, row, db)
    &&& is_numbered(f, row, db)
    &&& is_dated(f, row, at)
    &&& is_text(row("ExternalSeriesId"@), f.external_series_id)
    &&& is_text(row("ExternalId"@), f.external_id)
    &&& is_named(f, row)
    &&& is_rated_by_user(f, row, db)
    &&& is_valued(f, row, db)
    &&& is_peopled(f, row, db)
    &&& is_rated(f, row)
    &&& is_owned(f, row)
    &&& is_provided(f, row, db)
    &&& is_in_state(f, row)
    &&& is_below(f, row, db)
    &&& is_text(row("SeriesPresentationUniqueKey"@), f.series_presentation_unique_key)
    &&& is_dead(f, row, db)
    &&& is_aired(f, row)
}

/// What a statement of a shape selects of the rows.
pub open spec fn columns_of(shape: QueryShape) -> Seq<char> {
    match shape {
        QueryShape::FullRows => "bi.*"@,
        QueryShape::IdsOnly => r#"bi."Id""#@,
        QueryShape::Count => "COUNT(*)"@,
        QueryShape::TypeCounts => r#"bi."Type", COUNT(*)"#@,
    }
}

/// The table of items.
pub open spec fn items() -> From {
    From::NamedAs { table: "BaseItems"@, name: "bi"@ }
}

proof fn lemma_external_texts()
    ensures
        chars(r#" AND bi."ExternalSeriesId" = "#@) == and_compare("ExternalSeriesId"@, Op::Eq),
        chars(r#" AND bi."ExternalId" = "#@) == and_compare("ExternalId"@, Op::Eq),
        chars(r#" AND bi."SeriesPresentationUniqueKey" = "#@) == and_compare(
            "SeriesPresentationUniqueKey"@,
            Op::Eq,
        ),
{
    assert(chars(r#" AND bi."ExternalSeriesId" = "#@) =~= and_compare("ExternalSeriesId"@, Op::Eq)) by {
        reveal(Said::spec_add);
        reveal_strlit(r#" AND bi."ExternalSeriesId" = "#);
        reveal_strlit(" AND ");
        reveal_strlit("bi");
        reveal_strlit(".");
        reveal_strlit("\"");
        reveal_strlit("ExternalSeriesId");
        reveal_strlit(" = ");
    }
    assert(chars(r#" AND bi."ExternalId" = "#@) =~= and_compare("ExternalId"@, Op::Eq)) by {
        reveal(Said::spec_add);
        reveal_strlit(r#" AND bi."ExternalId" = "#);
        reveal_strlit(" AND ");
        reveal_strlit("bi");
        reveal_strlit(".");
        reveal_strlit("\"");
        reveal_strlit("ExternalId");
        reveal_strlit(" = ");
    }
    assert(chars(r#" AND bi."SeriesPresentationUniqueKey" = "#@) =~= and_compare("SeriesPresentationUniqueKey"@, Op::Eq)) by {
        reveal(Said::spec_add);
        reveal_strlit(r#" AND bi."SeriesPresentationUniqueKey" = "#);
        reveal_strlit(" AND ");
        reveal_strlit("bi");
        reveal_strlit(".");
        reveal_strlit("\"");
        reveal_strlit("SeriesPresentationUniqueKey");
        reveal_strlit(" = ");
    }
}

spec fn first_half(
    acc: Sql,
    f: InternalItemsQuery,
    names: ItemTypeNames,
    at: Timestamp,
) -> Sql {
    let a = size_predicates(acc, f);
    let b = kind_predicates(a, f, names);
    let c = place_predicates(b, f);
    let d = number_predicates(c, f);
    let e = date_predicates(d, f, at);
    let g = say_filled(e, r#" AND bi."ExternalSeriesId" = "#@, f.external_series_id);
    let h = say_filled(g, r#" AND bi."ExternalId" = "#@, f.external_id);
    let i = name_predicates(h, f);
    user_data_predicates(i, f)
}

proof fn read_first_half(
    lead: Lead,
    q: Sql,
    cs: Seq<Cond>,
    f: InternalItemsQuery,
    names: ItemTypeNames,
    at: Timestamp,
) -> (out: Seq<Cond>)
    requires
        spells(lead, q, cs),
    ensures
        spells(lead, first_half(q, f, names, at), out),
        forall|row: Row, db: Db| #[trigger]
            all_true(out, only(row), db) <==> all_true(cs, only(row), db) && is_sized(f, row)
                && is_kind(f, names, row) && is_placed(f, row, db) && is_numbered(f, row, db)
                && is_dated(f, row, at) && is_text(row("ExternalSeriesId"@), f.external_series_id)
                && is_text(row("ExternalId"@), f.external_id) && is_named(f, row)
                && is_rated_by_user(f, row, db),
{
    lemma_external_texts();
    let a = size_predicates(q, f);
    let ca = read_size(lead, q, cs, f);
    let b = kind_predicates(a, f, names);
    let cb = read_kind(lead, a, ca, f, names);
    let c = place_predicates(b, f);
    let cc = read_place(lead, b, cb, f);
    let d = number_predicates(c, f);
    let cd = read_numbers(lead, c, cc, f);
    let e = date_predicates(d, f, at);
    let ce = read_dates(lead, d, cd, f, at);
    let t1 = r#" AND bi."ExternalSeriesId" = "#@;
    let g = say_filled(e, t1, f.external_series_id);
    let cg = read_filled(lead, e, ce, t1, "ExternalSeriesId"@, f.external_series_id);
    let t2 = r#" AND bi."ExternalId" = "#@;
    let h = say_filled(g, t2, f.external_id);
    let ch = read_filled(lead, g, cg, t2, "ExternalId"@, f.external_id);
    let i = name_predicates(h, f);
    let ci = read_names(lead, h, ch, f);
    read_user(lead, i, ci, f)
}

proof fn read_second_half(lead: Lead, q: Sql, cs: Seq<Cond>, f: InternalItemsQuery) -> (out: (
    Sql,
    Seq<Cond>,
))
    requires
        spells(lead, q, cs),
    ensures
        out.0 == ({
            let k = item_value_predicates(q, f, all_tags(f), all_exclude_tags(f));
            let l = people_predicates(k, f);
            let m = rating_predicates(l, f);
            let n = owner_predicates(m, f);
            let o = provider_predicates(n, f);
            let p = state_predicates(o, f);
            let r = ancestor_predicates(p, f);
            let s = say_filled(
                r,
                r#" AND bi."SeriesPresentationUniqueKey" = "#@,
                f.series_presentation_unique_key,
            );
            let t = dead_predicates(s, f);
            season_predicate(t, f)
        }),
        spells(lead, out.0, out.1),
        forall|row: Row, db: Db| #[trigger]
            all_true(out.1, only(row), db) <==> all_true(cs, only(row), db) && is_valued(f, row, db)
                && is_peopled(f, row, db) && is_rated(f, row) && is_owned(f, row) && is_provided(
                f,
                row,
                db,
            ) && is_in_state(f, row) && is_below(f, row, db) && is_text(
                row("SeriesPresentationUniqueKey"@),
                f.series_presentation_unique_key,
            ) && is_dead(f, row, db) && is_aired(f, row),
{
    lemma_external_texts();
    let k = item_value_predicates(q, f, all_tags(f), all_exclude_tags(f));
    let ck = read_values(lead, q, cs, f);
    let l = people_predicates(k, f);
    let cl = read_people(lead, k, ck, f);
    let m = rating_predicates(l, f);
    let cm = read_rating(lead, l, cl, f);
    let n = owner_predicates(m, f);
    let cn = read_owner(lead, m, cm, f);
    let o = provider_predicates(n, f);
    let co = read_providers(lead, n, cn, f);
    let p = state_predicates(o, f);
    let cp = read_state(lead, o, co, f);
    let r = ancestor_predicates(p, f);
    let cr = read_ancestors(lead, p, cp, f);
    let w = r#" AND bi."SeriesPresentationUniqueKey" = "#@;
    let s = say_filled(r, w, f.series_presentation_unique_key);
    let c1 = read_filled(
        lead,
        r,
        cr,
        w,
        "SeriesPresentationUniqueKey"@,
        f.series_presentation_unique_key,
    );
    let t = dead_predicates(s, f);
    let c2 = read_dead(lead, s, c1, f);
    (season_predicate(t, f), read_season(lead, t, c2, f))
}

proof fn lemma_beginning(shape: QueryShape)
    ensures
        chars(select_text(shape)) == select_head(columns_of(shape), items()) + column_text(
            "bi"@,
            "Id"@,
        ) + chars(" <> "@),
{
    match shape {
        QueryShape::FullRows => {
            assert(chars(r#"SELECT bi.* FROM "BaseItems" AS bi WHERE bi."Id" <> "#@) =~= select_head(
                "bi.*"@,
                items(),
            ) + column_text("bi"@, "Id"@) + chars(" <> "@)) by {
                reveal(Said::spec_add);
                reveal_strlit(r#"SELECT bi.* FROM "BaseItems" AS bi WHERE bi."Id" <> "#);
                reveal_strlit("SELECT ");
                reveal_strlit("bi.*");
                reveal_strlit(" FROM ");
                reveal_strlit("\"");
                reveal_strlit("BaseItems");
                reveal_strlit(" AS ");
                reveal_strlit("bi");
                reveal_strlit(" WHERE ");
                reveal_strlit(".");
                reveal_strlit("Id");
                reveal_strlit(" <> ");
            }
        },
        QueryShape::IdsOnly => {
            assert(chars(r#"SELECT bi."Id" FROM "BaseItems" AS bi WHERE bi."Id" <> "#@)
                =~= select_head(r#"bi."Id""#@, items()) + column_text("bi"@, "Id"@) + chars(" <> "@)) by {
                reveal(Said::spec_add);
                reveal_strlit(r#"SELECT bi."Id" FROM "BaseItems" AS bi WHERE bi."Id" <> "#);
                reveal_strlit("SELECT ");
                reveal_strlit(r#"bi."Id""#);
                reveal_strlit(" FROM ");
                reveal_strlit("\"");
                reveal_strlit("BaseItems");
                reveal_strlit(" AS ");
                reveal_strlit("bi");
                reveal_strlit(" WHERE ");
                reveal_strlit(".");
                reveal_strlit("Id");
                reveal_strlit(" <> ");
            }
        },
        QueryShape::Count => {
            assert(chars(r#"SELECT COUNT(*) FROM "BaseItems" AS bi WHERE bi."Id" <> "#@)
                =~= select_head("COUNT(*)"@, items()) + column_text("bi"@, "Id"@) + chars(" <> "@)) by {
                reveal(Said::spec_add);
                reveal_strlit(r#"SELECT COUNT(*) FROM "BaseItems" AS bi WHERE bi."Id" <> "#);
                reveal_strlit("SELECT ");
                reveal_strlit("COUNT(*)");
                reveal_strlit(" FROM ");
                reveal_strlit("\"");
                reveal_strlit("BaseItems");
                reveal_strlit(" AS ");
                reveal_strlit("bi");
                reveal_strlit(" WHERE ");
                reveal_strlit(".");
                reveal_strlit("Id");
                reveal_strlit(" <> ");
            }
        },
        QueryShape::TypeCounts => {
            assert(chars(r#"SELECT bi."Type", COUNT(*) FROM "BaseItems" AS bi WHERE bi."Id" <> "#@)
                =~= select_head(r#"bi."Type", COUNT(*)"#@, items()) + column_text("bi"@, "Id"@)
                + chars(" <> "@)) by {
                reveal(Said::spec_add);
                reveal_strlit(r#"SELECT bi."Type", COUNT(*) FROM "BaseItems" AS bi WHERE bi."Id" <> "#);
                reveal_strlit("SELECT ");
                reveal_strlit(r#"bi."Type", COUNT(*)"#);
                reveal_strlit(" FROM ");
                reveal_strlit("\"");
                reveal_strlit("BaseItems");
                reveal_strlit(" AS ");
                reveal_strlit("bi");
                reveal_strlit(" WHERE ");
                reveal_strlit(".");
                reveal_strlit("Id");
                reveal_strlit(" <> ");
            }
        },
    }
}

/// The statement for a filter asks for the items that the filter wants, and for no others;
/// what it selects of them goes by its shape, and the order and the page follow.
pub proof fn law_statement_asks_for_what_is_wanted(
    f: InternalItemsQuery,
    shape: QueryShape,
    names: ItemTypeNames,
    at: Timestamp,
)
    ensures
        selects(
            item_query(f, shape, names, at),
            columns_of(shape),
            items(),
            |row: Row, db: Db| is_wanted(f, names, at, row, db),
            flat(tail_clause(f, shape)),
        ),
{
    let v = BindView::Text(PLACEHOLDER_ID@);
    let q = give(Seq::<PieceView>::empty(), v);
    let c = Cond::Compare(col("Id"@), Op::Ne, Expr::Given(v));
    let cs = seq![c];
    let columns = columns_of(shape);
    let head = select_head(columns, items());
    let lead = Lead { before: chars(select_text(shape)), head };
    lemma_beginning(shape);
    lemma_flat_give(Seq::<PieceView>::empty(), v);
    assert(flat(q) =~= hole(v)) by {
        reveal(Said::spec_add);
    }
    assert(text_of(c) == column_text("bi"@, "Id"@) + chars(" <> "@) + hole(v));
    assert(lead.before + flat(q) == head + text_of(c)) by {
        broadcast use {lemma_said_in_turn, lemma_said_nothing};

    }
    assert(conds_text(cs) == text_of(c));
    assert(reads_so(c));
    assert(spells(lead, q, cs));
    let one = first_half(q, f, names, at);
    let c1 = read_first_half(lead, q, cs, f, names, at);
    let (two, c2) = read_second_half(lead, one, c1, f);
    assert(two == where_clause(f, names, at));
    let start = say(Seq::<PieceView>::empty(), select_text(shape));
    let rest = tail_clause(f, shape);
    let all = item_query(f, shape, names, at);
    lemma_flat_say(Seq::<PieceView>::empty(), select_text(shape));
    assert(flat(start) =~= chars(select_text(shape))) by {
        reveal(Said::spec_add);
    }
    lemma_flat_concat(start, two);
    lemma_flat_concat(start + two, rest);
    assert(all == start + two + rest);
    assert(flat(all) == head + conds_text(c2) + flat(rest));
    assert(spells_select(all, columns, items(), c2, flat(rest)));
    let p = |row: Row, db: Db| is_wanted(f, names, at, row, db);
    assert forall|row: Row, db: Db| #[trigger] all_true(c2, only(row), db) <==> p(row, db) by {
        let s = only(row);
        assert(truth(c, s, db) == compared(row("Id"@), Op::Ne, Val::Text(PLACEHOLDER_ID@), db));
        assert(all_true(cs, s, db) <==> truth(c, s, db) == Some(true)) by {
            assert(cs[0] == c);
        }
    }
}


} // verus!
