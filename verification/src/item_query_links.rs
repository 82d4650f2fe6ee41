//! What the statement for a filter asks of the people, providers and folders of an item.
use vstd::prelude::*;

use crate::item_query_kinds::{is_one_of, lemma_one_of, of, read_ids, same};
use crate::item_query_meaning::{col, is_among, lemma_flag_cases};
use crate::item_query_relations::{
    exists_words, is_same, is_type, lemma_flat_in, lemma_row_names, lemma_same_pairs,
    lemma_same_rows, lemma_types, read_exists, read_pairs, some_pair, some_row,
};
use crate::items_query::InternalItemsQuery;
use crate::model::ItemValueType;
use crate::sql::{filled, give, guid_values, say, say_in, type_values, BindView, Sql};
use crate::sql_meaning::{
    all_true, both, chars, column_text, compared, either, expr_text, flat, from_text, hole,
    lemma_flat_give, lemma_flat_say, lemma_said_in_turn, lemma_said_nothing, name_of, only,
    reads_so, spells, table_of, text_of, truth, value_of, with_row, Cond, Db, Expr, From, Lead, Op,
    Row, Said, Scope, Val,
};
use crate::text::{ascii_lower, lowercase};
use crate::translate_query::{
    ancestor_predicates, dead_item_value, dead_predicates, has_provider, people_predicates,
    provider_pairs, provider_predicates,
};

verus! {

/// Some row of a table that stands for the item and has one of some values, or none.
pub(crate) proof fn read_exists_in(
    lead: Lead,
    q: Sql,
    cs: Seq<Cond>,
    t: Seq<char>,
    want: bool,
    from: From,
    a: Seq<char>,
    b: Seq<char>,
    column: Seq<char>,
    c: Seq<char>,
    values: Seq<BindView>,
) -> (out: Seq<Cond>)
    requires
        spells(lead, q, cs),
        values.len() > 0,
        name_of(from) != "bi"@,
        chars(t) == chars(exists_words(want)) + chars("(SELECT 1 FROM "@) + from_text(from) + chars(
            " WHERE "@,
        ) + text_of(same(of(name_of(from), a), of("bi"@, b))) + chars(" AND "@),
        chars(column) == column_text(name_of(from), c),
    ensures
        spells(lead, say(say_in(say(q, t), column, values), ")"@), out),
        forall|row: Row, db: Db| #[trigger]
            all_true(out, only(row), db) <==> all_true(cs, only(row), db) && want == some_row(
                db,
                table_of(from),
                |r: Row| is_same(r(a), row(b)) && is_among(r(c), values, db),
            ),
{
    let name = name_of(from);
    let e = of(name, c);
    let x = same(of(name, a), of("bi"@, b));
    let y = Cond::In(e, values);
    let inner = Cond::And(Box::new(x), Box::new(y));
    let u = say(q, t);
    let d = say_in(u, column, values);
    let longer = say(d, ")"@);
    lemma_flat_say(q, t);
    lemma_flat_in(u, column, e, values);
    lemma_flat_say(d, ")"@);
    assert(text_of(inner) == text_of(x) + chars(" AND "@) + text_of(y));
    assert(reads_so(x) && reads_so(y));
    assert(reads_so(inner));
    assert(flat(longer) == flat(q) + (chars(exists_words(want)) + chars("(SELECT 1 FROM "@)) + (
    from_text(from) + chars(" WHERE "@) + text_of(inner) + chars(")"@))) by {
        broadcast use {lemma_said_in_turn, lemma_said_nothing};

    }
    let p = |row: Row, r: Row, db: Db| is_same(r(a), row(b)) && is_among(r(c), values, db);
    assert forall|row: Row, r: Row, db: Db| #[trigger]
        p(row, r, db) <==> truth(inner, with_row(only(row), name, r), db) == Some(true) by {
        let s = with_row(only(row), name, r);
        assert(s(name) == r && s("bi"@) == row);
        assert(truth(x, s, db) == compared(r(a), Op::Eq, row(b), db));
        assert(truth(y, s, db) == Some(true) <==> is_among(r(c), values, db));
        assert(truth(inner, s, db) == both(truth(x, s, db), truth(y, s, db)));
        lemma_flag_cases(truth(x, s, db));
        lemma_flag_cases(truth(y, s, db));
    }
    let out = read_exists(lead, q, cs, longer, want, from, inner, p);
    assert forall|row: Row, db: Db| #[trigger]
        all_true(out, only(row), db) <==> all_true(cs, only(row), db) && want == some_row(
            db,
            table_of(from),
            |r: Row| is_same(r(a), row(b)) && is_among(r(c), values, db),
        ) by {
        let f = |r: Row| p(row, r, db);
        let g = |r: Row| is_same(r(a), row(b)) && is_among(r(c), values, db);
        lemma_same_rows(db, table_of(from), f, g);
    }
    out
}

// ---------------------------------------------------------------------------
// People
// ---------------------------------------------------------------------------
/// Whether one of the people of an item has a name.
pub open spec fn has_person(db: Db, row: Row, name: Seq<char>) -> bool {
    some_pair(
        db,
        "PeopleBaseItemMap"@,
        "Peoples"@,
        |pm: Row, pp: Row|
            is_same(pp("Id"@), pm("PeopleId"@)) && is_same(pm("ItemId"@), row("Id"@)) && pp("Name"@)
                == Val::Text(name),
    )
}

/// Whether the people of an item are those that a filter asks for.
pub open spec fn is_peopled(f: InternalItemsQuery, row: Row, db: Db) -> bool {
    &&& filled(f.person) matches Some(name) ==> has_person(db, row, name)
    &&& f.person_ids@.len() > 0 ==> some_row(
        db,
        "PeopleBaseItemMap"@,
        |pm: Row| is_same(pm("ItemId"@), row("Id"@)) && is_one_of(pm("PeopleId"@), f.person_ids@),
    )
}

proof fn read_person(lead: Lead, q: Sql, cs: Seq<Cond>, name: Seq<char>) -> (out: Seq<Cond>)
    requires
        spells(lead, q, cs),
    ensures
        spells(
            lead,
            say(
                give(
                    say(
                        q,
                        r#" AND EXISTS (SELECT 1 FROM "PeopleBaseItemMap" pm JOIN "Peoples" pp ON pp."Id" = pm."PeopleId" WHERE pm."ItemId" = bi."Id" AND pp."Name" = "#@,
                    ),
                    BindView::Text(name),
                ),
                ")"@,
            ),
            out,
        ),
        forall|row: Row, db: Db| #[trigger]
            all_true(out, only(row), db) <==> all_true(cs, only(row), db) && has_person(db, row, name),
{
    let t =
        r#" AND EXISTS (SELECT 1 FROM "PeopleBaseItemMap" pm JOIN "Peoples" pp ON pp."Id" = pm."PeopleId" WHERE pm."ItemId" = bi."Id" AND pp."Name" = "#@;
    let v = BindView::Text(name);
    let a = say(q, t);
    let b = give(a, v);
    let longer = say(b, ")"@);
    lemma_flat_say(q, t);
    lemma_flat_give(a, v);
    lemma_flat_say(b, ")"@);
    let from = From::Named { table: "PeopleBaseItemMap"@, name: "pm"@ };
    let other = From::Named { table: "Peoples"@, name: "pp"@ };
    let on = same(of("pp"@, "Id"@), of("pm"@, "PeopleId"@));
    let x = same(of("pm"@, "ItemId"@), of("bi"@, "Id"@));
    let y = same(of("pp"@, "Name"@), Expr::Given(v));
    let inner = Cond::And(Box::new(x), Box::new(y));
    assert(text_of(on) == column_text("pp"@, "Id"@) + chars(" = "@) + column_text("pm"@, "PeopleId"@));
    assert(text_of(x) == column_text("pm"@, "ItemId"@) + chars(" = "@) + column_text("bi"@, "Id"@));
    assert(text_of(y) == column_text("pp"@, "Name"@) + chars(" = "@) + hole(v));
    assert(chars(t) =~= chars(" AND EXISTS "@) + chars("(SELECT 1 FROM "@) + from_text(from) + chars(
        " JOIN "@,
    ) + from_text(other) + chars(" ON "@) + text_of(on) + chars(" WHERE "@) + text_of(x) + chars(
        " AND "@,
    ) + column_text("pp"@, "Name"@) + chars(" = "@)) by {
        reveal(Said::spec_add);
        reveal_strlit(r#" AND EXISTS (SELECT 1 FROM "PeopleBaseItemMap" pm JOIN "Peoples" pp ON pp."Id" = pm."PeopleId" WHERE pm."ItemId" = bi."Id" AND pp."Name" = "#);
        reveal_strlit(" AND EXISTS ");
        reveal_strlit("(SELECT 1 FROM ");
        reveal_strlit("\"");
        reveal_strlit("PeopleBaseItemMap");
        reveal_strlit(" ");
        reveal_strlit("pm");
        reveal_strlit(" JOIN ");
        reveal_strlit("Peoples");
        reveal_strlit("pp");
        reveal_strlit(" ON ");
        reveal_strlit(".");
        reveal_strlit("Id");
        reveal_strlit(" = ");
        reveal_strlit("PeopleId");
        reveal_strlit(" WHERE ");
        reveal_strlit("ItemId");
        reveal_strlit("bi");
        reveal_strlit(" AND ");
        reveal_strlit("Name");
    }
    assert(text_of(inner) == text_of(x) + chars(" AND "@) + text_of(y));
    assert(reads_so(x) && reads_so(y) && reads_so(on));
    assert(reads_so(inner));
    assert(flat(longer) == flat(q) + (chars(exists_words(true)) + chars("(SELECT 1 FROM "@)) + (
    from_text(from) + chars(" JOIN "@) + from_text(other) + chars(" ON "@) + text_of(on) + chars(
        " WHERE "@,
    ) + text_of(inner) + chars(")"@))) by {
        broadcast use {lemma_said_in_turn, lemma_said_nothing};

    }
    let p = |row: Row, pm: Row, pp: Row, db: Db|
        is_same(pp("Id"@), pm("PeopleId"@)) && is_same(pm("ItemId"@), row("Id"@)) && pp("Name"@)
            == Val::Text(name);
    assert forall|row: Row, r: Row, o: Row, db: Db| #[trigger]
        p(row, r, o, db) <==> truth(
            on,
            with_row(with_row(only(row), name_of(from), r), name_of(other), o),
            db,
        ) == Some(true) && truth(
            inner,
            with_row(with_row(only(row), name_of(from), r), name_of(other), o),
            db,
        ) == Some(true) by {
        lemma_row_names();
        let s = with_row(with_row(only(row), "pm"@, r), "pp"@, o);
        assert(s("pp"@) == o && s("pm"@) == r && s("bi"@) == row);
        assert(truth(on, s, db) == compared(o("Id"@), Op::Eq, r("PeopleId"@), db));
        assert(truth(x, s, db) == compared(r("ItemId"@), Op::Eq, row("Id"@), db));
        assert(truth(y, s, db) == compared(o("Name"@), Op::Eq, Val::Text(name), db));
        assert(truth(inner, s, db) == both(truth(x, s, db), truth(y, s, db)));
    }
    let out = read_pairs(lead, q, cs, longer, true, from, other, on, inner, p);
    assert forall|row: Row, db: Db| #[trigger]
        all_true(out, only(row), db) <==> all_true(cs, only(row), db) && has_person(db, row, name) by {
        let f = |r: Row, o: Row| p(row, r, o, db);
        let g = |pm: Row, pp: Row|
            is_same(pp("Id"@), pm("PeopleId"@)) && is_same(pm("ItemId"@), row("Id"@)) && pp("Name"@)
                == Val::Text(name);
        lemma_same_pairs(db, "PeopleBaseItemMap"@, "Peoples"@, f, g);
    }
    out
}

pub(crate) proof fn read_people(lead: Lead, q: Sql, cs: Seq<Cond>, f: InternalItemsQuery) -> (out: Seq<
    Cond,
>)
    requires
        spells(lead, q, cs),
    ensures
        spells(lead, people_predicates(q, f), out),
        forall|row: Row, db: Db| #[trigger]
            all_true(out, only(row), db) <==> all_true(cs, only(row), db) && is_peopled(f, row, db),
{
    let t0 =
        r#" AND EXISTS (SELECT 1 FROM "PeopleBaseItemMap" pm JOIN "Peoples" pp ON pp."Id" = pm."PeopleId" WHERE pm."ItemId" = bi."Id" AND pp."Name" = "#@;
    let (a, ca) = match filled(f.person) {
        Some(name) => (
            say(give(say(q, t0), BindView::Text(name)), ")"@),
            read_person(lead, q, cs, name),
        ),
        None => (q, cs),
    };
    let t =
        r#" AND EXISTS (SELECT 1 FROM "PeopleBaseItemMap" pm WHERE pm."ItemId" = bi."Id" AND "#@;
    let column = r#"pm."PeopleId""#@;
    let from = From::Named { table: "PeopleBaseItemMap"@, name: "pm"@ };
    let values = guid_values(f.person_ids@);
    let x = same(of("pm"@, "ItemId"@), of("bi"@, "Id"@));
    assert(text_of(x) == column_text("pm"@, "ItemId"@) + chars(" = "@) + column_text("bi"@, "Id"@));
    assert(chars(t) =~= chars(" AND EXISTS "@) + chars("(SELECT 1 FROM "@) + from_text(from) + chars(
        " WHERE "@,
    ) + text_of(x) + chars(" AND "@)) by {
        reveal(Said::spec_add);
        reveal_strlit(r#" AND EXISTS (SELECT 1 FROM "PeopleBaseItemMap" pm WHERE pm."ItemId" = bi."Id" AND "#);
        reveal_strlit(" AND EXISTS ");
        reveal_strlit("(SELECT 1 FROM ");
        reveal_strlit("\"");
        reveal_strlit("PeopleBaseItemMap");
        reveal_strlit(" ");
        reveal_strlit("pm");
        reveal_strlit(" WHERE ");
        reveal_strlit(".");
        reveal_strlit("ItemId");
        reveal_strlit(" = ");
        reveal_strlit("bi");
        reveal_strlit("Id");
        reveal_strlit(" AND ");
    }
    assert(chars(column) =~= column_text("pm"@, "PeopleId"@)) by {
        reveal(Said::spec_add);
        reveal_strlit(r#"pm."PeopleId""#);
        reveal_strlit("pm");
        reveal_strlit(".");
        reveal_strlit("\"");
        reveal_strlit("PeopleId");
    }
    lemma_row_names();
    let out = if f.person_ids@.len() > 0 {
        read_exists_in(lead, a, ca, t, true, from, "ItemId"@, "Id"@, column, "PeopleId"@, values)
    } else {
        ca
    };
    assert forall|row: Row, db: Db| #[trigger]
        all_true(out, only(row), db) <==> all_true(cs, only(row), db) && is_peopled(f, row, db) by {
        let h = |r: Row| is_same(r("ItemId"@), row("Id"@)) && is_among(r("PeopleId"@), values, db);
        let g = |pm: Row|
            is_same(pm("ItemId"@), row("Id"@)) && is_one_of(pm("PeopleId"@), f.person_ids@);
        assert forall|r: Row| #[trigger] h(r) <==> g(r) by {
            lemma_one_of(r("PeopleId"@), f.person_ids@, db);
        }
        lemma_same_rows(db, "PeopleBaseItemMap"@, h, g);
    }
    out
}

// ---------------------------------------------------------------------------
// Ancestors
// ---------------------------------------------------------------------------
/// Whether an item stands below the folders that a filter asks for.
pub open spec fn is_below(f: InternalItemsQuery, row: Row, db: Db) -> bool {
    &&& f.top_parent_ids@.len() > 0 ==> is_one_of(row("TopParentId"@), f.top_parent_ids@)
    &&& f.ancestor_ids@.len() > 0 ==> some_row(
        db,
        "AncestorIds"@,
        |a: Row| is_same(a("ItemId"@), row("Id"@)) && is_one_of(a("ParentItemId"@), f.ancestor_ids@),
    )
}

pub(crate) proof fn read_ancestors(lead: Lead, q: Sql, cs: Seq<Cond>, f: InternalItemsQuery) -> (out: Seq<
    Cond,
>)
    requires
        spells(lead, q, cs),
    ensures
        spells(lead, ancestor_predicates(q, f), out),
        forall|row: Row, db: Db| #[trigger]
            all_true(out, only(row), db) <==> all_true(cs, only(row), db) && is_below(f, row, db),
{
    let t0 = r#" AND bi."TopParentId" IS NOT NULL AND "#@;
    let column0 = r#"bi."TopParentId""#@;
    assert(chars(t0) =~= chars(" AND "@) + text_of(Cond::NotNull(col("TopParentId"@))) + chars(
        " AND "@,
    )) by {
        reveal(Said::spec_add);
        reveal_strlit(r#" AND bi."TopParentId" IS NOT NULL AND "#);
        reveal_strlit(" AND ");
        reveal_strlit("bi");
        reveal_strlit(".");
        reveal_strlit("\"");
        reveal_strlit("TopParentId");
        reveal_strlit(" IS NOT NULL");
    }
    assert(chars(column0) =~= column_text("bi"@, "TopParentId"@)) by {
        reveal(Said::spec_add);
        reveal_strlit(r#"bi."TopParentId""#);
        reveal_strlit("bi");
        reveal_strlit(".");
        reveal_strlit("\"");
        reveal_strlit("TopParentId");
    }
    let tops = guid_values(f.top_parent_ids@);
    let (a, ca) = if f.top_parent_ids@.len() > 0 {
        (say_in(say(q, t0), column0, tops), read_ids(lead, q, cs, t0, column0, "TopParentId"@, tops))
    } else {
        (q, cs)
    };
    let t = r#" AND EXISTS (SELECT 1 FROM "AncestorIds" a WHERE a."ItemId" = bi."Id" AND "#@;
    let column = r#"a."ParentItemId""#@;
    let from = From::Named { table: "AncestorIds"@, name: "a"@ };
    let values = guid_values(f.ancestor_ids@);
    let x = same(of("a"@, "ItemId"@), of("bi"@, "Id"@));
    assert(text_of(x) == column_text("a"@, "ItemId"@) + chars(" = "@) + column_text("bi"@, "Id"@));
    assert(chars(t) =~= chars(" AND EXISTS "@) + chars("(SELECT 1 FROM "@) + from_text(from) + chars(
        " WHERE "@,
    ) + text_of(x) + chars(" AND "@)) by {
        reveal(Said::spec_add);
        reveal_strlit(r#" AND EXISTS (SELECT 1 FROM "AncestorIds" a WHERE a."ItemId" = bi."Id" AND "#);
        reveal_strlit(" AND EXISTS ");
        reveal_strlit("(SELECT 1 FROM ");
        reveal_strlit("\"");
        reveal_strlit("AncestorIds");
        reveal_strlit(" ");
        reveal_strlit("a");
        reveal_strlit(" WHERE ");
        reveal_strlit(".");
        reveal_strlit("ItemId");
        reveal_strlit(" = ");
        reveal_strlit("bi");
        reveal_strlit("Id");
        reveal_strlit(" AND ");
    }
    assert(chars(column) =~= column_text("a"@, "ParentItemId"@)) by {
        reveal(Said::spec_add);
        reveal_strlit(r#"a."ParentItemId""#);
        reveal_strlit("a");
        reveal_strlit(".");
        reveal_strlit("\"");
        reveal_strlit("ParentItemId");
    }
    lemma_row_names();
    let out = if f.ancestor_ids@.len() > 0 {
        read_exists_in(lead, a, ca, t, true, from, "ItemId"@, "Id"@, column, "ParentItemId"@, values)
    } else {
        ca
    };
    assert forall|row: Row, db: Db| #[trigger]
        all_true(out, only(row), db) <==> all_true(cs, only(row), db) && is_below(f, row, db) by {
        lemma_one_of(row("TopParentId"@), f.top_parent_ids@, db);
        let h = |r: Row| is_same(r("ItemId"@), row("Id"@)) && is_among(r("ParentItemId"@), values, db);
        let g = |a: Row|
            is_same(a("ItemId"@), row("Id"@)) && is_one_of(a("ParentItemId"@), f.ancestor_ids@);
        assert forall|r: Row| #[trigger] h(r) <==> g(r) by {
            lemma_one_of(r("ParentItemId"@), f.ancestor_ids@, db);
        }
        lemma_same_rows(db, "AncestorIds"@, h, g);
    }
    out
}

// ---------------------------------------------------------------------------
// What is no longer used
// ---------------------------------------------------------------------------
/// Whether there is an item value of such a type with the name of the item.
pub open spec fn is_in_use(db: Db, row: Row, of_type: spec_fn(Val) -> bool) -> bool {
    some_row(
        db,
        "ItemValues"@,
        |iv: Row| is_same(iv("Value"@), row("Name"@)) && of_type(iv("Type"@)),
    )
}

/// Whether the item is no longer in use, where a filter asks for such.
pub open spec fn is_dead(f: InternalItemsQuery, row: Row, db: Db) -> bool {
    &&& f.is_dead_person == Some(true) ==> !some_row(
        db,
        "Peoples"@,
        |p: Row| is_same(p("Name"@), row("Name"@)),
    )
    &&& f.is_dead_genre == Some(true) ==> !is_in_use(
        db,
        row,
        |t: Val| is_type(t, ItemValueType::Genre, db),
    )
    &&& f.is_dead_studio == Some(true) ==> !is_in_use(
        db,
        row,
        |t: Val| is_type(t, ItemValueType::Studios, db),
    )
    &&& f.is_dead_artist == Some(true) ==> !is_in_use(
        db,
        row,
        |t: Val|
            is_type(t, ItemValueType::Artist, db) || is_type(t, ItemValueType::AlbumArtist, db),
    )
}

proof fn read_dead_value(
    lead: Lead,
    q: Sql,
    cs: Seq<Cond>,
    types: Seq<ItemValueType>,
    flag: Option<bool>,
) -> (out: Seq<Cond>)
    requires
        spells(lead, q, cs),
        types.len() > 0,
    ensures
        spells(lead, dead_item_value(q, types, flag), out),
        forall|row: Row, db: Db| #[trigger]
            all_true(out, only(row), db) <==> all_true(cs, only(row), db) && (flag == Some(true)
                ==> !is_in_use(db, row, |t: Val| is_among(t, type_values(types), db))),
{
    let t =
        r#" AND NOT EXISTS (SELECT 1 FROM "ItemValues" iv WHERE iv."Value" = bi."Name" AND "#@;
    let column = r#"iv."Type""#@;
    let from = From::Named { table: "ItemValues"@, name: "iv"@ };
    let values = type_values(types);
    let x = same(of("iv"@, "Value"@), of("bi"@, "Name"@));
    assert(text_of(x) == column_text("iv"@, "Value"@) + chars(" = "@) + column_text("bi"@, "Name"@));
    assert(chars(t) =~= chars(" AND NOT EXISTS "@) + chars("(SELECT 1 FROM "@) + from_text(from)
        + chars(" WHERE "@) + text_of(x) + chars(" AND "@)) by {
        reveal(Said::spec_add);
        reveal_strlit(r#" AND NOT EXISTS (SELECT 1 FROM "ItemValues" iv WHERE iv."Value" = bi."Name" AND "#);
        reveal_strlit(" AND NOT EXISTS ");
        reveal_strlit("(SELECT 1 FROM ");
        reveal_strlit("\"");
        reveal_strlit("ItemValues");
        reveal_strlit(" ");
        reveal_strlit("iv");
        reveal_strlit(" WHERE ");
        reveal_strlit(".");
        reveal_strlit("Value");
        reveal_strlit(" = ");
        reveal_strlit("bi");
        reveal_strlit("Name");
        reveal_strlit(" AND ");
    }
    assert(chars(column) =~= column_text("iv"@, "Type"@)) by {
        reveal(Said::spec_add);
        reveal_strlit(r#"iv."Type""#);
        reveal_strlit("iv");
        reveal_strlit(".");
        reveal_strlit("\"");
        reveal_strlit("Type");
    }
    lemma_row_names();
    if flag == Some(true) {
        let out = read_exists_in(
            lead,
            q,
            cs,
            t,
            false,
            from,
            "Value"@,
            "Name"@,
            column,
            "Type"@,
            values,
        );
        assert forall|row: Row, db: Db| #[trigger]
            all_true(out, only(row), db) <==> all_true(cs, only(row), db) && !is_in_use(
                db,
                row,
                |t: Val| is_among(t, type_values(types), db),
            ) by {
            let of_type = |t: Val| is_among(t, type_values(types), db);
            let h = |r: Row| is_same(r("Value"@), row("Name"@)) && is_among(r("Type"@), values, db);
            let g = |iv: Row| is_same(iv("Value"@), row("Name"@)) && of_type(iv("Type"@));
            lemma_same_rows(db, "ItemValues"@, h, g);
        }
        out
    } else {
        cs
    }
}

proof fn lemma_in_use(db: Db, row: Row, s: spec_fn(Val) -> bool, u: spec_fn(Val) -> bool)
    requires
        forall|v: Val| #[trigger] s(v) <==> u(v),
    ensures
        is_in_use(db, row, s) <==> is_in_use(db, row, u),
{
    lemma_same_rows(
        db,
        "ItemValues"@,
        |iv: Row| is_same(iv("Value"@), row("Name"@)) && s(iv("Type"@)),
        |iv: Row| is_same(iv("Value"@), row("Name"@)) && u(iv("Type"@)),
    );
}

proof fn read_dead_person(lead: Lead, q: Sql, cs: Seq<Cond>) -> (out: Seq<Cond>)
    requires
        spells(lead, q, cs),
    ensures
        spells(
            lead,
            say(q, r#" AND NOT EXISTS (SELECT 1 FROM "Peoples" p WHERE p."Name" = bi."Name")"#@),
            out,
        ),
        forall|row: Row, db: Db| #[trigger]
            all_true(out, only(row), db) <==> all_true(cs, only(row), db) && !some_row(
                db,
                "Peoples"@,
                |p: Row| is_same(p("Name"@), row("Name"@)),
            ),
{
    let t = r#" AND NOT EXISTS (SELECT 1 FROM "Peoples" p WHERE p."Name" = bi."Name")"#@;
    let from = From::Named { table: "Peoples"@, name: "p"@ };
    let x = same(of("p"@, "Name"@), of("bi"@, "Name"@));
    assert(text_of(x) == column_text("p"@, "Name"@) + chars(" = "@) + column_text("bi"@, "Name"@));
    assert(chars(t) =~= chars(" AND NOT EXISTS "@) + chars("(SELECT 1 FROM "@) + (from_text(from)
        + chars(" WHERE "@) + text_of(x) + chars(")"@))) by {
        reveal(Said::spec_add);
        reveal_strlit(r#" AND NOT EXISTS (SELECT 1 FROM "Peoples" p WHERE p."Name" = bi."Name")"#);
        reveal_strlit(" AND NOT EXISTS ");
        reveal_strlit("(SELECT 1 FROM ");
        reveal_strlit("\"");
        reveal_strlit("Peoples");
        reveal_strlit(" ");
        reveal_strlit("p");
        reveal_strlit(" WHERE ");
        reveal_strlit(".");
        reveal_strlit(" = ");
        reveal_strlit("bi");
        reveal_strlit("Name");
        reveal_strlit(")");
    }
    let longer = say(q, t);
    lemma_flat_say(q, t);
    assert(reads_so(x));
    assert(flat(longer) == flat(q) + (chars(exists_words(false)) + chars("(SELECT 1 FROM "@)) + (
    from_text(from) + chars(" WHERE "@) + text_of(x) + chars(")"@))) by {
        broadcast use {lemma_said_in_turn, lemma_said_nothing};

    }
    let p = |row: Row, r: Row, db: Db| is_same(r("Name"@), row("Name"@));
    assert forall|row: Row, r: Row, db: Db| #[trigger]
        p(row, r, db) <==> truth(x, with_row(only(row), name_of(from), r), db) == Some(true) by {
        lemma_row_names();
        let s = with_row(only(row), "p"@, r);
        assert(s("p"@) == r && s("bi"@) == row);
        assert(truth(x, s, db) == compared(r("Name"@), Op::Eq, row("Name"@), db));
    }
    let out = read_exists(lead, q, cs, longer, false, from, x, p);
    assert forall|row: Row, db: Db| #[trigger]
        all_true(out, only(row), db) <==> all_true(cs, only(row), db) && !some_row(
            db,
            "Peoples"@,
            |p: Row| is_same(p("Name"@), row("Name"@)),
        ) by {
        let h = |r: Row| p(row, r, db);
        let g = |p: Row| is_same(p("Name"@), row("Name"@));
        lemma_same_rows(db, "Peoples"@, h, g);
    }
    out
}

pub(crate) proof fn read_dead(lead: Lead, q: Sql, cs: Seq<Cond>, f: InternalItemsQuery) -> (out: Seq<
    Cond,
>)
    requires
        spells(lead, q, cs),
    ensures
        spells(lead, dead_predicates(q, f), out),
        forall|row: Row, db: Db| #[trigger]
            all_true(out, only(row), db) <==> all_true(cs, only(row), db) && is_dead(f, row, db),
{
    let t = r#" AND NOT EXISTS (SELECT 1 FROM "Peoples" p WHERE p."Name" = bi."Name")"#@;
    let (a, ca) = if f.is_dead_person == Some(true) {
        (say(q, t), read_dead_person(lead, q, cs))
    } else {
        (q, cs)
    };
    let genre = seq![ItemValueType::Genre];
    let studio = seq![ItemValueType::Studios];
    let artists = seq![ItemValueType::Artist, ItemValueType::AlbumArtist];
    let b = dead_item_value(a, genre, f.is_dead_genre);
    let cb = read_dead_value(lead, a, ca, genre, f.is_dead_genre);
    let c = dead_item_value(b, studio, f.is_dead_studio);
    let cc = read_dead_value(lead, b, cb, studio, f.is_dead_studio);
    let out = read_dead_value(lead, c, cc, artists, f.is_dead_artist);
    assert forall|row: Row, db: Db| #[trigger]
        all_true(out, only(row), db) <==> all_true(cs, only(row), db) && is_dead(f, row, db) by {
        let g1 = |t: Val| is_among(t, type_values(genre), db);
        let g2 = |t: Val| is_type(t, ItemValueType::Genre, db);
        assert forall|v: Val| #[trigger] g1(v) <==> g2(v) by {
            lemma_types(v, ItemValueType::Genre, ItemValueType::Genre, db);
        }
        lemma_in_use(db, row, g1, g2);
        let s1 = |t: Val| is_among(t, type_values(studio), db);
        let s2 = |t: Val| is_type(t, ItemValueType::Studios, db);
        assert forall|v: Val| #[trigger] s1(v) <==> s2(v) by {
            lemma_types(v, ItemValueType::Studios, ItemValueType::Studios, db);
        }
        lemma_in_use(db, row, s1, s2);
        let a1 = |t: Val| is_among(t, type_values(artists), db);
        let a2 = |t: Val|
            is_type(t, ItemValueType::Artist, db) || is_type(t, ItemValueType::AlbumArtist, db);
        assert forall|v: Val| #[trigger] a1(v) <==> a2(v) by {
            lemma_types(v, ItemValueType::Artist, ItemValueType::AlbumArtist, db);
        }
        lemma_in_use(db, row, a1, a2);
    }
    out
}

// ---------------------------------------------------------------------------
// Providers
// ---------------------------------------------------------------------------
/// Whether a column holds a text, once its ASCII letters are in lower case.
pub open spec fn lower_is(v: Val, s: Seq<char>) -> bool {
    v matches Val::Text(t) && ascii_lower(t) == s
}

/// Whether an item is known to a provider.
pub open spec fn is_known_to(db: Db, row: Row, provider: Seq<char>) -> bool {
    some_row(
        db,
        "BaseItemProviders"@,
        |p: Row| is_same(p("ItemId"@), row("Id"@)) && lower_is(p("ProviderId"@), provider),
    )
}

/// Whether a row names one of some providers with the value that goes with it, whatever the
/// case of either.
pub open spec fn is_one_pair(p: Row, pairs: Seq<(String, String)>) -> bool {
    exists|i: int|
        0 <= i < pairs.len() && lower_is(p("ProviderId"@), lowercase((#[trigger] pairs[i]).0@))
            && lower_is(p("ProviderValue"@), lowercase(pairs[i].1@))
}

/// Whether an item is known to the providers that a filter asks for.
pub open spec fn is_provided(f: InternalItemsQuery, row: Row, db: Db) -> bool {
    &&& f.has_imdb_id matches Some(b) ==> b == is_known_to(db, row, "imdb"@)
    &&& f.has_tmdb_id matches Some(b) ==> b == is_known_to(db, row, "tmdb"@)
    &&& f.has_tvdb_id matches Some(b) ==> b == is_known_to(db, row, "tvdb"@)
    &&& f.any_provider_id_equals@.len() > 0 ==> some_row(
        db,
        "BaseItemProviders"@,
        |p: Row|
            is_same(p("ItemId"@), row("Id"@)) && is_one_pair(p, f.any_provider_id_equals@),
    )
}

spec fn lower_cond(name: Seq<char>, s: Seq<char>) -> Cond {
    same(Expr::Lower { of: "p"@, name }, Expr::Given(BindView::Text(s)))
}

proof fn lemma_lower_truth(name: Seq<char>, s: Seq<char>, scope: Scope, db: Db)
    ensures
        truth(lower_cond(name, s), scope, db) == Some(true) <==> lower_is(scope("p"@)(name), s),
{
    let c = lower_cond(name, s);
    let e = Expr::Lower { of: "p"@, name };
    assert(truth(c, scope, db) == compared(value_of(e, scope, db), Op::Eq, Val::Text(s), db));
}

proof fn read_provider(
    lead: Lead,
    q: Sql,
    cs: Seq<Cond>,
    flag: Option<bool>,
    provider: Seq<char>,
) -> (out: Seq<Cond>)
    requires
        spells(lead, q, cs),
    ensures
        spells(lead, has_provider(q, flag, provider), out),
        forall|row: Row, db: Db| #[trigger]
            all_true(out, only(row), db) <==> all_true(cs, only(row), db) && (flag matches Some(b)
                ==> b == is_known_to(db, row, provider)),
{
    match flag {
        Some(has) => {
            let words = exists_words(has);
            let t =
                r#"(SELECT 1 FROM "BaseItemProviders" p WHERE p."ItemId" = bi."Id" AND lower(p."ProviderId") = "#@;
            let v = BindView::Text(provider);
            let a = say(q, words);
            let b = say(a, t);
            let d = give(b, v);
            let longer = say(d, ")"@);
            lemma_flat_say(q, words);
            lemma_flat_say(a, t);
            lemma_flat_give(b, v);
            lemma_flat_say(d, ")"@);
            assert(longer == has_provider(q, flag, provider));
            let from = From::Named { table: "BaseItemProviders"@, name: "p"@ };
            let x = same(of("p"@, "ItemId"@), of("bi"@, "Id"@));
            let e = Expr::Lower { of: "p"@, name: "ProviderId"@ };
            let y = lower_cond("ProviderId"@, provider);
            let inner = Cond::And(Box::new(x), Box::new(y));
            assert(text_of(x) == column_text("p"@, "ItemId"@) + chars(" = "@) + column_text(
                "bi"@,
                "Id"@,
            ));
            assert(text_of(y) == expr_text(e) + chars(" = "@) + hole(v));
            assert(chars(t) =~= chars("(SELECT 1 FROM "@) + from_text(from) + chars(" WHERE "@)
                + text_of(x) + chars(" AND "@) + expr_text(e) + chars(" = "@)) by {
                reveal(Said::spec_add);
                reveal_strlit(r#"(SELECT 1 FROM "BaseItemProviders" p WHERE p."ItemId" = bi."Id" AND lower(p."ProviderId") = "#);
                reveal_strlit("(SELECT 1 FROM ");
                reveal_strlit("\"");
                reveal_strlit("BaseItemProviders");
                reveal_strlit(" ");
                reveal_strlit("p");
                reveal_strlit(" WHERE ");
                reveal_strlit(".");
                reveal_strlit("ItemId");
                reveal_strlit(" = ");
                reveal_strlit("bi");
                reveal_strlit("Id");
                reveal_strlit(" AND ");
                reveal_strlit("lower(");
                reveal_strlit("ProviderId");
                reveal_strlit(")");
            }
            assert(text_of(inner) == text_of(x) + chars(" AND "@) + text_of(y));
            assert(reads_so(x) && reads_so(y));
            assert(reads_so(inner));
            assert(flat(longer) == flat(q) + (chars(words) + chars("(SELECT 1 FROM "@)) + (from_text(
                from,
            ) + chars(" WHERE "@) + text_of(inner) + chars(")"@))) by {
                broadcast use {lemma_said_in_turn, lemma_said_nothing};

            }
            let p = |row: Row, r: Row, db: Db|
                is_same(r("ItemId"@), row("Id"@)) && lower_is(r("ProviderId"@), provider);
            assert forall|row: Row, r: Row, db: Db| #[trigger]
                p(row, r, db) <==> truth(inner, with_row(only(row), name_of(from), r), db) == Some(
                    true,
                ) by {
                lemma_row_names();
                let s = with_row(only(row), "p"@, r);
                assert(s("p"@) == r && s("bi"@) == row);
                assert(truth(x, s, db) == compared(r("ItemId"@), Op::Eq, row("Id"@), db));
                lemma_lower_truth("ProviderId"@, provider, s, db);
                assert(truth(inner, s, db) == both(truth(x, s, db), truth(y, s, db)));
                lemma_flag_cases(truth(x, s, db));
                lemma_flag_cases(truth(y, s, db));
            }
            let out = read_exists(lead, q, cs, longer, has, from, inner, p);
            assert forall|row: Row, db: Db| #[trigger]
                all_true(out, only(row), db) <==> all_true(cs, only(row), db) && has == is_known_to(
                    db,
                    row,
                    provider,
                ) by {
                let h = |r: Row| p(row, r, db);
                let g = |p: Row|
                    is_same(p("ItemId"@), row("Id"@)) && lower_is(p("ProviderId"@), provider);
                lemma_same_rows(db, "BaseItemProviders"@, h, g);
            }
            out
        },
        None => cs,
    }
}

spec fn pair_cond(pair: (String, String)) -> Cond {
    Cond::Group(
        Box::new(
            Cond::And(
                Box::new(lower_cond("ProviderId"@, lowercase(pair.0@))),
                Box::new(lower_cond("ProviderValue"@, lowercase(pair.1@))),
            ),
        ),
    )
}

spec fn pairs_cond(pairs: Seq<(String, String)>) -> Cond
    decreases pairs.len(),
{
    if pairs.len() <= 1 {
        pair_cond(pairs.last())
    } else {
        Cond::Or(Box::new(pairs_cond(pairs.drop_last())), Box::new(pair_cond(pairs.last())))
    }
}

proof fn lemma_pair_text(q: Sql, pair: (String, String)) -> (longer: Sql)
    ensures
        longer == say(
            give(
                say(
                    give(
                        say(q, r#"(lower(p."ProviderId") = "#@),
                        BindView::Text(lowercase(pair.0@)),
                    ),
                    r#" AND lower(p."ProviderValue") = "#@,
                ),
                BindView::Text(lowercase(pair.1@)),
            ),
            ")"@,
        ),
        flat(longer) == flat(q) + text_of(pair_cond(pair)),
        reads_so(pair_cond(pair)),
{
    let t1 = r#"(lower(p."ProviderId") = "#@;
    let t2 = r#" AND lower(p."ProviderValue") = "#@;
    let v1 = BindView::Text(lowercase(pair.0@));
    let v2 = BindView::Text(lowercase(pair.1@));
    let a = say(q, t1);
    let b = give(a, v1);
    let c = say(b, t2);
    let d = give(c, v2);
    let longer = say(d, ")"@);
    lemma_flat_say(q, t1);
    lemma_flat_give(a, v1);
    lemma_flat_say(b, t2);
    lemma_flat_give(c, v2);
    lemma_flat_say(d, ")"@);
    let e1 = Expr::Lower { of: "p"@, name: "ProviderId"@ };
    let e2 = Expr::Lower { of: "p"@, name: "ProviderValue"@ };
    let x = lower_cond("ProviderId"@, lowercase(pair.0@));
    let y = lower_cond("ProviderValue"@, lowercase(pair.1@));
    let xy = Cond::And(Box::new(x), Box::new(y));
    assert(text_of(x) == expr_text(e1) + chars(" = "@) + hole(v1));
    assert(text_of(y) == expr_text(e2) + chars(" = "@) + hole(v2));
    assert(text_of(xy) == text_of(x) + chars(" AND "@) + text_of(y));
    assert(text_of(pair_cond(pair)) == chars("("@) + text_of(xy) + chars(")"@));
    assert(reads_so(x) && reads_so(y));
    assert(reads_so(xy));
    assert(reads_so(pair_cond(pair)));
    assert(chars(t1) =~= chars("("@) + expr_text(e1) + chars(" = "@)) by {
        reveal(Said::spec_add);
        reveal_strlit(r#"(lower(p."ProviderId") = "#);
        reveal_strlit("(");
        reveal_strlit("lower(");
        reveal_strlit("p");
        reveal_strlit(".");
        reveal_strlit("\"");
        reveal_strlit("ProviderId");
        reveal_strlit(")");
        reveal_strlit(" = ");
    }
    assert(chars(t2) =~= chars(" AND "@) + expr_text(e2) + chars(" = "@)) by {
        reveal(Said::spec_add);
        reveal_strlit(r#" AND lower(p."ProviderValue") = "#);
        reveal_strlit(" AND ");
        reveal_strlit("lower(");
        reveal_strlit("p");
        reveal_strlit(".");
        reveal_strlit("\"");
        reveal_strlit("ProviderValue");
        reveal_strlit(")");
        reveal_strlit(" = ");
    }
    assert(flat(longer) == flat(q) + text_of(pair_cond(pair))) by {
        broadcast use {lemma_said_in_turn, lemma_said_nothing};

    }
    longer
}

proof fn lemma_pairs_text(q: Sql, pairs: Seq<(String, String)>)
    requires
        pairs.len() > 0,
    ensures
        flat(provider_pairs(q, pairs)) == flat(q) + text_of(pairs_cond(pairs)),
        reads_so(pairs_cond(pairs)),
    decreases pairs.len(),
{
    let head = provider_pairs(q, pairs.drop_last());
    if pairs.len() > 1 {
        lemma_pairs_text(q, pairs.drop_last());
        lemma_flat_say(head, " OR "@);
        let longer = lemma_pair_text(say(head, " OR "@), pairs.last());
        assert(longer == provider_pairs(q, pairs));
        assert(text_of(pairs_cond(pairs)) == text_of(pairs_cond(pairs.drop_last())) + chars(" OR "@)
            + text_of(pair_cond(pairs.last())));
        assert(flat(provider_pairs(q, pairs)) == flat(q) + text_of(pairs_cond(pairs))) by {
            broadcast use {lemma_said_in_turn, lemma_said_nothing};

        }
    } else {
        assert(pairs.drop_last().len() == 0);
        assert(head == q);
        let longer = lemma_pair_text(q, pairs.last());
        assert(longer == provider_pairs(q, pairs));
    }
}

proof fn lemma_pair_truth(pair: (String, String), s: Scope, db: Db)
    ensures
        truth(pair_cond(pair), s, db) == Some(true) <==> lower_is(
            s("p"@)("ProviderId"@),
            lowercase(pair.0@),
        ) && lower_is(s("p"@)("ProviderValue"@), lowercase(pair.1@)),
{
    let x = lower_cond("ProviderId"@, lowercase(pair.0@));
    let y = lower_cond("ProviderValue"@, lowercase(pair.1@));
    let xy = Cond::And(Box::new(x), Box::new(y));
    lemma_lower_truth("ProviderId"@, lowercase(pair.0@), s, db);
    lemma_lower_truth("ProviderValue"@, lowercase(pair.1@), s, db);
    assert(truth(xy, s, db) == both(truth(x, s, db), truth(y, s, db)));
    assert(truth(pair_cond(pair), s, db) == truth(xy, s, db));
    lemma_flag_cases(truth(x, s, db));
    lemma_flag_cases(truth(y, s, db));
}

proof fn lemma_pairs_truth(pairs: Seq<(String, String)>, s: Scope, db: Db)
    requires
        pairs.len() > 0,
    ensures
        truth(pairs_cond(pairs), s, db) == Some(true) <==> is_one_pair(s("p"@), pairs),
    decreases pairs.len(),
{
    let r = s("p"@);
    let n = pairs.len() - 1;
    lemma_pair_truth(pairs.last(), s, db);
    assert(pairs[n] == pairs.last());
    if pairs.len() > 1 {
        let head = pairs.drop_last();
        lemma_pairs_truth(head, s, db);
        let a = truth(pairs_cond(head), s, db);
        let b = truth(pair_cond(pairs.last()), s, db);
        assert(truth(pairs_cond(pairs), s, db) == either(a, b));
        if is_one_pair(r, head) {
            let i = choose|i: int|
                0 <= i < head.len() && lower_is(r("ProviderId"@), lowercase((#[trigger] head[i]).0@))
                    && lower_is(r("ProviderValue"@), lowercase(head[i].1@));
            assert(pairs[i] == head[i]);
        }
        if is_one_pair(r, pairs) {
            let i = choose|i: int|
                0 <= i < pairs.len() && lower_is(
                    r("ProviderId"@),
                    lowercase((#[trigger] pairs[i]).0@),
                ) && lower_is(r("ProviderValue"@), lowercase(pairs[i].1@));
            if i < n {
                assert(head[i] == pairs[i]);
            }
        }
    }
}

proof fn read_pair_list(lead: Lead, q: Sql, cs: Seq<Cond>, pairs: Seq<(String, String)>) -> (out: Seq<
    Cond,
>)
    requires
        spells(lead, q, cs),
        pairs.len() > 0,
    ensures
        spells(
            lead,
            say(
                provider_pairs(
                    say(
                        q,
                        r#" AND EXISTS (SELECT 1 FROM "BaseItemProviders" p WHERE p."ItemId" = bi."Id" AND ("#@,
                    ),
                    pairs,
                ),
                "))"@,
            ),
            out,
        ),
        forall|row: Row, db: Db| #[trigger]
            all_true(out, only(row), db) <==> all_true(cs, only(row), db) && some_row(
                db,
                "BaseItemProviders"@,
                |p: Row| is_same(p("ItemId"@), row("Id"@)) && is_one_pair(p, pairs),
            ),
{
    let t =
        r#" AND EXISTS (SELECT 1 FROM "BaseItemProviders" p WHERE p."ItemId" = bi."Id" AND ("#@;
    let a = say(q, t);
    let b = provider_pairs(a, pairs);
    let longer = say(b, "))"@);
    lemma_flat_say(q, t);
    lemma_pairs_text(a, pairs);
    lemma_flat_say(b, "))"@);
    let from = From::Named { table: "BaseItemProviders"@, name: "p"@ };
    let x = same(of("p"@, "ItemId"@), of("bi"@, "Id"@));
    let z = pairs_cond(pairs);
    let y = Cond::Group(Box::new(z));
    let inner = Cond::And(Box::new(x), Box::new(y));
    assert(text_of(x) == column_text("p"@, "ItemId"@) + chars(" = "@) + column_text("bi"@, "Id"@));
    assert(text_of(y) == chars("("@) + text_of(z) + chars(")"@));
    assert(text_of(inner) == text_of(x) + chars(" AND "@) + text_of(y));
    assert(reads_so(x) && reads_so(y));
    assert(reads_so(inner));
    assert(chars(t) =~= chars(" AND EXISTS "@) + chars("(SELECT 1 FROM "@) + from_text(from) + chars(
        " WHERE "@,
    ) + text_of(x) + chars(" AND "@) + chars("("@)) by {
        reveal(Said::spec_add);
        reveal_strlit(r#" AND EXISTS (SELECT 1 FROM "BaseItemProviders" p WHERE p."ItemId" = bi."Id" AND ("#);
        reveal_strlit(" AND EXISTS ");
        reveal_strlit("(SELECT 1 FROM ");
        reveal_strlit("\"");
        reveal_strlit("BaseItemProviders");
        reveal_strlit(" ");
        reveal_strlit("p");
        reveal_strlit(" WHERE ");
        reveal_strlit(".");
        reveal_strlit("ItemId");
        reveal_strlit(" = ");
        reveal_strlit("bi");
        reveal_strlit("Id");
        reveal_strlit(" AND ");
        reveal_strlit("(");
    }
    assert(chars("))"@) =~= chars(")"@) + chars(")"@)) by {
        reveal(Said::spec_add);
        reveal_strlit("))");
        reveal_strlit(")");
    }
    assert(flat(longer) == flat(q) + (chars(exists_words(true)) + chars("(SELECT 1 FROM "@)) + (
    from_text(from) + chars(" WHERE "@) + text_of(inner) + chars(")"@))) by {
        broadcast use {lemma_said_in_turn, lemma_said_nothing};

    }
    let p = |row: Row, r: Row, db: Db| is_same(r("ItemId"@), row("Id"@)) && is_one_pair(r, pairs);
    assert forall|row: Row, r: Row, db: Db| #[trigger]
        p(row, r, db) <==> truth(inner, with_row(only(row), name_of(from), r), db) == Some(true) by {
        lemma_row_names();
        let s = with_row(only(row), "p"@, r);
        assert(s("p"@) == r && s("bi"@) == row);
        assert(truth(x, s, db) == compared(r("ItemId"@), Op::Eq, row("Id"@), db));
        lemma_pairs_truth(pairs, s, db);
        assert(truth(y, s, db) == truth(z, s, db));
        assert(truth(inner, s, db) == both(truth(x, s, db), truth(y, s, db)));
        lemma_flag_cases(truth(x, s, db));
        lemma_flag_cases(truth(y, s, db));
    }
    let out = read_exists(lead, q, cs, longer, true, from, inner, p);
    assert forall|row: Row, db: Db| #[trigger]
        all_true(out, only(row), db) <==> all_true(cs, only(row), db) && some_row(
            db,
            "BaseItemProviders"@,
            |p: Row| is_same(p("ItemId"@), row("Id"@)) && is_one_pair(p, pairs),
        ) by {
        let h = |r: Row| p(row, r, db);
        let g = |p: Row| is_same(p("ItemId"@), row("Id"@)) && is_one_pair(p, pairs);
        lemma_same_rows(db, "BaseItemProviders"@, h, g);
    }
    out
}

pub(crate) proof fn read_providers(lead: Lead, q: Sql, cs: Seq<Cond>, f: InternalItemsQuery) -> (out: Seq<
    Cond,
>)
    requires
        spells(lead, q, cs),
    ensures
        spells(lead, provider_predicates(q, f), out),
        forall|row: Row, db: Db| #[trigger]
            all_true(out, only(row), db) <==> all_true(cs, only(row), db) && is_provided(f, row, db),
{
    let a = has_provider(q, f.has_imdb_id, "imdb"@);
    let ca = read_provider(lead, q, cs, f.has_imdb_id, "imdb"@);
    let b = has_provider(a, f.has_tmdb_id, "tmdb"@);
    let cb = read_provider(lead, a, ca, f.has_tmdb_id, "tmdb"@);
    let c = has_provider(b, f.has_tvdb_id, "tvdb"@);
    let cc = read_provider(lead, b, cb, f.has_tvdb_id, "tvdb"@);
    if f.any_provider_id_equals@.len() > 0 {
        read_pair_list(lead, c, cc, f.any_provider_id_equals@)
    } else {
        cc
    }
}


} // verus!
