//! What the statements for series, for plays and for specials ask for.
use vstd::prelude::*;

use crate::guid::{hyphenated_text, Guid};
use crate::item_query_kinds::{of, same};
use crate::item_query_meaning::{is_among, lemma_small_numbers};
use crate::next_up_meaning::{
    key_cond, lemma_key_text, lemma_key_truth, lemma_keys_text, lemma_select, lemma_spells_two,
};
use crate::next_up_service::{by_date_sql, episodes_sql, keys_sql, series_keys_sql, specials_sql};
use crate::sql::{give, give_all, plain_guid_values, say, BindView, PieceView, Sql};
use crate::sql_meaning::{
    all_read_so, all_true, chars, column_text, compared, conds_text, expr_text, flat, from_text,
    given, hole, lemma_flat_give, lemma_flat_give_all, lemma_flat_say, lemma_said_in_turn,
    lemma_said_nothing, lemma_spells_more, name_of, nothing, only, op_text, quoted, reads_so,
    select_head, selects, spells, text_of, truth, value_of, values_text, with_row, Cond, Db, Expr,
    From, Lead, Op, Row, Said, Scope, Val,
};
use crate::time::Timestamp;
use crate::translate_query::PLACEHOLDER_ID;

verus! {

// ---------------------------------------------------------------------------
// Statements over two tables
// ---------------------------------------------------------------------------
/// The beginning of a statement that selects columns from two tables.
pub open spec fn joined_head(columns: Seq<char>, from: From, other: From, on: Cond) -> Said {
    chars("SELECT "@) + chars(columns) + chars(" FROM "@) + from_text(from) + chars(" JOIN "@)
        + from_text(other) + chars(" ON "@) + text_of(on) + chars(" WHERE "@)
}

/// Whether a statement spells conditions on a row of each of two tables; `rest` is what follows
/// them.
pub open spec fn spells_pairs(
    q: Sql,
    columns: Seq<char>,
    from: From,
    other: From,
    on: Cond,
    cs: Seq<Cond>,
    rest: Said,
) -> bool {
    &&& cs.len() > 0
    &&& all_read_so(cs)
    &&& reads_so(on) && !(on is Or) && !(on is And)
    &&& flat(q) == joined_head(columns, from, other, on) + conds_text(cs) + rest
}

/// Whether a statement selects columns of exactly those rows of two tables of which `p` holds.
pub open spec fn selects_pairs(
    q: Sql,
    columns: Seq<char>,
    from: From,
    other: From,
    p: spec_fn(Row, Row, Db) -> bool,
    rest: Said,
) -> bool {
    exists|on: Cond, cs: Seq<Cond>| #[trigger]
        spells_pairs(q, columns, from, other, on, cs, rest) && forall|a: Row, b: Row, db: Db| #[trigger]
            pair_meets(on, cs, name_of(other), a, b, db) <==> p(a, b, db)
}

/// Whether a row, and one of another table that goes with it, meet conditions.
pub open spec fn pair_meets(
    on: Cond,
    cs: Seq<Cond>,
    name: Seq<char>,
    a: Row,
    b: Row,
    db: Db,
) -> bool {
    let s = with_row(only(a), name, b);
    truth(on, s, db) == Some(true) && all_true(cs, s, db)
}

/// The table of items.
pub open spec fn items() -> From {
    From::Named { table: "BaseItems"@, name: "bi"@ }
}

/// The table of the users' data.
pub open spec fn user_data() -> From {
    From::Named { table: "UserData"@, name: "ud"@ }
}

spec fn on_item() -> Cond {
    same(of("ud"@, "ItemId"@), of("bi"@, "Id"@))
}

spec fn lead_of(columns: Seq<char>) -> Lead {
    Lead { before: nothing(), head: joined_head(columns, items(), user_data(), on_item()) }
}

spec fn is_given(e: Expr, op: Op, v: BindView) -> Cond {
    Cond::Compare(e, op, Expr::Given(v))
}

proof fn lemma_begin(lead: Lead, first: Seq<char>, e: Expr, v: BindView)
    requires
        lead.before == nothing(),
        chars(first) == lead.head + expr_text(e) + chars(" = "@),
    ensures
        spells(
            lead,
            give(say(Seq::<PieceView>::empty(), first), v),
            seq![is_given(e, Op::Eq, v)],
        ),
        forall|s: Scope, db: Db| #[trigger]
            all_true(seq![is_given(e, Op::Eq, v)], s, db) <==> truth(is_given(e, Op::Eq, v), s, db)
                == Some(true),
{
    let empty = Seq::<PieceView>::empty();
    let q = give(say(empty, first), v);
    let c = is_given(e, Op::Eq, v);
    let cs = seq![c];
    lemma_flat_say(empty, first);
    lemma_flat_give(say(empty, first), v);
    assert(nothing() + chars(first) =~= chars(first) && nothing() + flat(q) =~= flat(q)) by {
        reveal(Said::spec_add);
    }
    assert(flat(empty) == nothing());
    assert(text_of(c) == expr_text(e) + chars(" = "@) + hole(v));
    assert(conds_text(cs) == text_of(c));
    assert(flat(q) == lead.head + conds_text(cs)) by {
        broadcast use {lemma_said_in_turn, lemma_said_nothing};

    }
    assert(reads_so(c));
    assert forall|s: Scope, db: Db| #[trigger]
        all_true(cs, s, db) <==> truth(c, s, db) == Some(true) by {
        assert(cs[0] == c);
    }
}

proof fn lemma_more(lead: Lead, q: Sql, cs: Seq<Cond>, t: Seq<char>, e: Expr, op: Op, v: BindView)
    requires
        spells(lead, q, cs),
        chars(t) == chars(" AND "@) + expr_text(e) + chars(op_text(op)),
    ensures
        spells(lead, give(say(q, t), v), cs.push(is_given(e, op, v))),
        forall|s: Scope, db: Db| #[trigger]
            all_true(cs.push(is_given(e, op, v)), s, db) <==> all_true(cs, s, db) && truth(
                is_given(e, op, v),
                s,
                db,
            ) == Some(true),
{
    let c = is_given(e, op, v);
    let longer = give(say(q, t), v);
    lemma_flat_say(q, t);
    lemma_flat_give(say(q, t), v);
    assert(text_of(c) == expr_text(e) + chars(op_text(op)) + hole(v));
    assert(flat(longer) == flat(q) + chars(" AND "@) + text_of(c)) by {
        broadcast use {lemma_said_in_turn, lemma_said_nothing};

    }
    lemma_spells_more(lead, q, cs, longer, c);
}

proof fn lemma_names_differ()
    ensures
        "ud"@ != "bi"@,
{
    reveal(Said::spec_add);
    reveal_strlit("ud");
    reveal_strlit("bi");
    assert("ud"@[0] != "bi"@[0]);
}

proof fn lemma_on_text()
    ensures
        text_of(on_item()) == column_text("ud"@, "ItemId"@) + chars(" = "@) + column_text(
            "bi"@,
            "Id"@,
        ),
        reads_so(on_item()),
{
}

// ---------------------------------------------------------------------------
// Plays
// ---------------------------------------------------------------------------
/// Whether a user's data are of a play of a regular episode of one of the series by the user.
pub open spec fn is_play(
    item: Row,
    data: Row,
    episode_type: Seq<char>,
    user_id: Seq<char>,
    keys: Seq<Seq<char>>,
) -> bool {
    &&& !(item("Id"@) is Null) && data("ItemId"@) == item("Id"@)
    &&& data("ItemId"@) != Val::Text("00000000-0000-0000-0000-000000000001"@)
    &&& data("UserId"@) == Val::Text(user_id)
    &&& data("Played"@) == Val::Int(1)
    &&& item("Type"@) == Val::Text(episode_type)
    &&& !(item("ParentIndexNumber"@) is Null) && item("ParentIndexNumber"@) != Val::Int(0)
    &&& item("SeriesPresentationUniqueKey"@) matches Val::Text(key)
    &&& keys.contains(key)
}

spec fn play_columns() -> Seq<char> {
    r#"bi."SeriesPresentationUniqueKey", bi."Id", ud."LastPlayedDate""#@
}

proof fn lemma_play_texts()
    ensures
        chars(
            r#"SELECT bi."SeriesPresentationUniqueKey", bi."Id", ud."LastPlayedDate" FROM "BaseItems" bi JOIN "UserData" ud ON ud."ItemId" = bi."Id" WHERE bi."Type" = "#@,
        ) == joined_head(play_columns(), items(), user_data(), on_item()) + column_text(
            "bi"@,
            "Type"@,
        ) + chars(" = "@),
        chars(r#" AND ud."UserId" = "#@) == chars(" AND "@) + column_text("ud"@, "UserId"@) + chars(
            " = "@,
        ),
{
    lemma_on_text();
    let first =
        r#"SELECT bi."SeriesPresentationUniqueKey", bi."Id", ud."LastPlayedDate" FROM "BaseItems" bi JOIN "UserData" ud ON ud."ItemId" = bi."Id" WHERE bi."Type" = "#@;
    assert(chars(first) =~= joined_head(play_columns(), items(), user_data(), on_item()) + column_text(
        "bi"@,
        "Type"@,
    ) + chars(" = "@)) by {
        reveal(Said::spec_add);
        reveal_strlit(r#"SELECT bi."SeriesPresentationUniqueKey", bi."Id", ud."LastPlayedDate" FROM "BaseItems" bi JOIN "UserData" ud ON ud."ItemId" = bi."Id" WHERE bi."Type" = "#);
        reveal_strlit(r#"bi."SeriesPresentationUniqueKey", bi."Id", ud."LastPlayedDate""#);
        reveal_strlit("SELECT ");
        reveal_strlit(" FROM ");
        reveal_strlit(" JOIN ");
        reveal_strlit(" ON ");
        reveal_strlit(" WHERE ");
        reveal_strlit("\"");
        reveal_strlit("BaseItems");
        reveal_strlit("UserData");
        reveal_strlit(" ");
        reveal_strlit("bi");
        reveal_strlit("ud");
        reveal_strlit(".");
        reveal_strlit("ItemId");
        reveal_strlit("Id");
        reveal_strlit("Type");
        reveal_strlit(" = ");
    }
    assert(chars(r#" AND ud."UserId" = "#@) =~= chars(" AND "@) + column_text("ud"@, "UserId"@)
        + chars(" = "@)) by {
        reveal(Said::spec_add);
        reveal_strlit(r#" AND ud."UserId" = "#);
        reveal_strlit(" AND ");
        reveal_strlit("ud");
        reveal_strlit(".");
        reveal_strlit("\"");
        reveal_strlit("UserId");
        reveal_strlit(" = ");
    }
}

proof fn read_not_placeholder(lead: Lead, q: Sql, cs: Seq<Cond>) -> (out: Seq<Cond>)
    requires
        spells(lead, q, cs),
    ensures
        spells(
            lead,
            give(
                say(q, r#" AND ud."Played" = 1 AND ud."ItemId" <> "#@),
                BindView::Text(PLACEHOLDER_ID@),
            ),
            out,
        ),
        forall|s: Scope, db: Db| #[trigger]
            all_true(out, s, db) <==> all_true(cs, s, db) && s("ud"@)("Played"@) == Val::Int(1) && !(s(
                "ud"@,
            )("ItemId"@) is Null) && s("ud"@)("ItemId"@) != Val::Text(PLACEHOLDER_ID@),
{
    let t = r#" AND ud."Played" = 1 AND ud."ItemId" <> "#@;
    let v = BindView::Text(PLACEHOLDER_ID@);
    let a = Cond::Compare(of("ud"@, "Played"@), Op::Eq, Expr::Number(1));
    let b = is_given(of("ud"@, "ItemId"@), Op::Ne, v);
    let longer = give(say(q, t), v);
    lemma_small_numbers();
    lemma_flat_say(q, t);
    lemma_flat_give(say(q, t), v);
    assert(text_of(a) == column_text("ud"@, "Played"@) + chars(" = "@) + chars("1"@));
    assert(text_of(b) == column_text("ud"@, "ItemId"@) + chars(" <> "@) + hole(v));
    assert(chars(t) =~= chars(" AND "@) + (column_text("ud"@, "Played"@) + chars(" = "@) + chars("1"@))
        + chars(" AND "@) + column_text("ud"@, "ItemId"@) + chars(" <> "@)) by {
        reveal(Said::spec_add);
        reveal_strlit(r#" AND ud."Played" = 1 AND ud."ItemId" <> "#);
        reveal_strlit(" AND ");
        reveal_strlit("ud");
        reveal_strlit(".");
        reveal_strlit("\"");
        reveal_strlit("Played");
        reveal_strlit(" = ");
        reveal_strlit("1");
        reveal_strlit("ItemId");
        reveal_strlit(" <> ");
    }
    assert(flat(longer) == flat(q) + chars(" AND "@) + text_of(a) + chars(" AND "@) + text_of(b)) by {
        broadcast use {lemma_said_in_turn, lemma_said_nothing};

    }
    assert(reads_so(a) && reads_so(b));
    lemma_spells_two(lead, q, cs, longer, a, b);
    let out = cs.push(a).push(b);
    assert forall|s: Scope, db: Db| #[trigger]
        all_true(out, s, db) <==> all_true(cs, s, db) && s("ud"@)("Played"@) == Val::Int(1) && !(s(
            "ud"@,
        )("ItemId"@) is Null) && s("ud"@)("ItemId"@) != Val::Text(PLACEHOLDER_ID@) by {
        assert(truth(a, s, db) == compared(s("ud"@)("Played"@), Op::Eq, Val::Int(1), db));
        assert(truth(b, s, db) == compared(
            s("ud"@)("ItemId"@),
            Op::Ne,
            Val::Text(PLACEHOLDER_ID@),
            db,
        ));
    }
    out
}

proof fn read_play_keys(lead: Lead, q: Sql, cs: Seq<Cond>, keys: Seq<Seq<char>>) -> (r: (Sql, Seq<Cond>))
    requires
        spells(lead, q, cs),
    ensures
        r.0 == say(
            keys_sql(
                say(
                    q,
                    r#" AND bi."ParentIndexNumber" <> 0 AND bi."SeriesPresentationUniqueKey" IN ("#@,
                ),
                keys,
            ),
            ")"@,
        ),
        spells(lead, r.0, r.1),
        forall|s: Scope, db: Db| #[trigger]
            all_true(r.1, s, db) <==> all_true(cs, s, db) && !(s("bi"@)("ParentIndexNumber"@) is Null)
                && s("bi"@)("ParentIndexNumber"@) != Val::Int(0) && (s("bi"@)(
                "SeriesPresentationUniqueKey"@,
            ) matches Val::Text(key) && keys.contains(key)),
{
    let t = r#" AND bi."ParentIndexNumber" <> 0 AND bi."SeriesPresentationUniqueKey" IN ("#@;
    let e = of("bi"@, "SeriesPresentationUniqueKey"@);
    let a = Cond::Compare(of("bi"@, "ParentIndexNumber"@), Op::Ne, Expr::Number(0));
    let b = key_cond(e, keys);
    let q1 = say(q, t);
    let q2 = keys_sql(q1, keys);
    let longer = say(q2, ")"@);
    lemma_small_numbers();
    lemma_flat_say(q, t);
    lemma_keys_text(q1, keys);
    lemma_flat_say(q2, ")"@);
    lemma_key_text(e, keys);
    assert(text_of(a) == column_text("bi"@, "ParentIndexNumber"@) + chars(" <> "@) + chars("0"@));
    assert(chars(t) =~= chars(" AND "@) + (column_text("bi"@, "ParentIndexNumber"@) + chars(" <> "@)
        + chars("0"@)) + chars(" AND "@) + column_text("bi"@, "SeriesPresentationUniqueKey"@) + chars(
        " IN ("@,
    )) by {
        reveal(Said::spec_add);
        reveal_strlit(r#" AND bi."ParentIndexNumber" <> 0 AND bi."SeriesPresentationUniqueKey" IN ("#);
        reveal_strlit(" AND ");
        reveal_strlit("bi");
        reveal_strlit(".");
        reveal_strlit("\"");
        reveal_strlit("ParentIndexNumber");
        reveal_strlit(" <> ");
        reveal_strlit("0");
        reveal_strlit("SeriesPresentationUniqueKey");
        reveal_strlit(" IN (");
    }
    assert(flat(longer) == flat(q) + chars(" AND "@) + text_of(a) + chars(" AND "@) + text_of(b)) by {
        broadcast use {lemma_said_in_turn, lemma_said_nothing};

    }
    assert(reads_so(a) && reads_so(b));
    lemma_spells_two(lead, q, cs, longer, a, b);
    let out = cs.push(a).push(b);
    assert forall|s: Scope, db: Db| #[trigger]
        all_true(out, s, db) <==> all_true(cs, s, db) && !(s("bi"@)("ParentIndexNumber"@) is Null)
            && s("bi"@)("ParentIndexNumber"@) != Val::Int(0) && (s("bi"@)(
            "SeriesPresentationUniqueKey"@,
        ) matches Val::Text(key) && keys.contains(key)) by {
        assert(truth(a, s, db) == compared(s("bi"@)("ParentIndexNumber"@), Op::Ne, Val::Int(0), db));
        lemma_key_truth(e, keys, s, db);
        assert(value_of(e, s, db) == s("bi"@)("SeriesPresentationUniqueKey"@));
    }
    (longer, out)
}

/// The statement for the last plays selects the plays of regular episodes of the series by the
/// user alone, the newest first.
pub proof fn law_plays_are_the_users_own(
    episode_type: Seq<char>,
    user_id: Seq<char>,
    keys: Seq<Seq<char>>,
)
    ensures
        selects_pairs(
            by_date_sql(episode_type, user_id, keys),
            r#"bi."SeriesPresentationUniqueKey", bi."Id", ud."LastPlayedDate""#@,
            items(),
            user_data(),
            |item: Row, data: Row, db: Db| is_play(item, data, episode_type, user_id, keys),
            chars(" ORDER BY "@) + column_text("ud"@, "LastPlayedDate"@) + chars(" DESC"@),
        ),
{
    let columns = play_columns();
    let lead = lead_of(columns);
    let first =
        r#"SELECT bi."SeriesPresentationUniqueKey", bi."Id", ud."LastPlayedDate" FROM "BaseItems" bi JOIN "UserData" ud ON ud."ItemId" = bi."Id" WHERE bi."Type" = "#@;
    let kind = BindView::Text(episode_type);
    let user = BindView::Text(user_id);
    let et = of("bi"@, "Type"@);
    let eu = of("ud"@, "UserId"@);
    let t1 = r#" AND ud."UserId" = "#@;
    lemma_play_texts();
    lemma_on_text();
    let q0 = give(say(Seq::<PieceView>::empty(), first), kind);
    let c0 = seq![is_given(et, Op::Eq, kind)];
    lemma_begin(lead, first, et, kind);
    let q1 = give(say(q0, t1), user);
    let c1 = c0.push(is_given(eu, Op::Eq, user));
    lemma_more(lead, q0, c0, t1, eu, Op::Eq, user);
    let q2 = give(
        say(q1, r#" AND ud."Played" = 1 AND ud."ItemId" <> "#@),
        BindView::Text(PLACEHOLDER_ID@),
    );
    let c2 = read_not_placeholder(lead, q1, c1);
    let (q3, c3) = read_play_keys(lead, q2, c2, keys);
    let t2 = r#") ORDER BY ud."LastPlayedDate" DESC"#@;
    let rest = chars(" ORDER BY "@) + column_text("ud"@, "LastPlayedDate"@) + chars(" DESC"@);
    let before = keys_sql(
        say(q2, r#" AND bi."ParentIndexNumber" <> 0 AND bi."SeriesPresentationUniqueKey" IN ("#@),
        keys,
    );
    let all = say(before, t2);
    assert(all == by_date_sql(episode_type, user_id, keys));
    lemma_flat_say(before, t2);
    lemma_flat_say(before, ")"@);
    assert(chars(t2) =~= chars(")"@) + rest) by {
        reveal(Said::spec_add);
        reveal_strlit(r#") ORDER BY ud."LastPlayedDate" DESC"#);
        reveal_strlit(")");
        reveal_strlit(" ORDER BY ");
        reveal_strlit("ud");
        reveal_strlit(".");
        reveal_strlit("\"");
        reveal_strlit("LastPlayedDate");
        reveal_strlit(" DESC");
    }
    lemma_said_in_turn(flat(before), chars(")"@), rest);
    assert(flat(all) == flat(q3) + rest);
    assert(nothing() + flat(q3) =~= flat(q3)) by {
        reveal(Said::spec_add);
    }
    assert(flat(all) == lead.head + conds_text(c3) + rest);
    assert(spells_pairs(all, columns, items(), user_data(), on_item(), c3, rest));
    let p = |item: Row, data: Row, db: Db| is_play(item, data, episode_type, user_id, keys);
    assert forall|a: Row, b: Row, db: Db| #[trigger]
        pair_meets(on_item(), c3, name_of(user_data()), a, b, db) <==> p(a, b, db) by {
        lemma_names_differ();
        let s = with_row(only(a), "ud"@, b);
        assert(s("ud"@) == b && s("bi"@) == a);
        assert(truth(on_item(), s, db) == compared(b("ItemId"@), Op::Eq, a("Id"@), db));
        assert(truth(is_given(et, Op::Eq, kind), s, db) == compared(
            a("Type"@),
            Op::Eq,
            Val::Text(episode_type),
            db,
        ));
        assert(truth(is_given(eu, Op::Eq, user), s, db) == compared(
            b("UserId"@),
            Op::Eq,
            Val::Text(user_id),
            db,
        ));
        assert(all_true(c0, s, db) <==> a("Type"@) == Val::Text(episode_type));
        assert(all_true(c1, s, db) <==> a("Type"@) == Val::Text(episode_type) && b("UserId"@)
            == Val::Text(user_id));
        assert(all_true(c3, s, db) <==> all_true(c2, s, db) && !(a("ParentIndexNumber"@) is Null)
            && a("ParentIndexNumber"@) != Val::Int(0) && (a("SeriesPresentationUniqueKey"@) matches Val::Text(
            key,
        ) && keys.contains(key)));
    }
}

// ---------------------------------------------------------------------------
// Specials, and episodes by their identifiers
// ---------------------------------------------------------------------------
/// Whether an item is a special of one of the series, and is there.
pub open spec fn is_special(row: Row, episode_type: Seq<char>, keys: Seq<Seq<char>>) -> bool {
    &&& row("Type"@) == Val::Text(episode_type)
    &&& row("ParentIndexNumber"@) == Val::Int(0)
    &&& row("IsVirtualItem"@) == Val::Int(0)
    &&& row("SeriesPresentationUniqueKey"@) matches Val::Text(key)
    &&& keys.contains(key)
}

spec fn bare(name: Seq<char>) -> Expr {
    Expr::Bare { name }
}

spec fn zero(name: Seq<char>) -> Cond {
    Cond::Compare(bare(name), Op::Eq, Expr::Number(0))
}

proof fn lemma_special_texts()
    ensures
        chars(r#"SELECT * FROM "BaseItems" WHERE "Type" = "#@) == select_head(
            "*"@,
            From::Unnamed { table: "BaseItems"@ },
        ) + quoted("Type"@) + chars(" = "@),
        chars(
            r#" AND "ParentIndexNumber" = 0 AND "IsVirtualItem" = 0 AND "SeriesPresentationUniqueKey" IN ("#@,
        ) == chars(r#" AND "ParentIndexNumber" = 0"#@) + (chars(" AND "@) + (quoted("IsVirtualItem"@)
            + chars(" = "@) + chars("0"@)) + chars(" AND "@) + quoted("SeriesPresentationUniqueKey"@)
            + chars(" IN ("@)),
        chars(r#" AND "ParentIndexNumber" = 0"#@) == chars(" AND "@) + (quoted("ParentIndexNumber"@)
            + chars(" = "@) + chars("0"@)),
{
    assert(chars(r#"SELECT * FROM "BaseItems" WHERE "Type" = "#@) =~= select_head(
        "*"@,
        From::Unnamed { table: "BaseItems"@ },
    ) + quoted("Type"@) + chars(" = "@)) by {
        reveal(Said::spec_add);
        reveal_strlit(r#"SELECT * FROM "BaseItems" WHERE "Type" = "#);
        reveal_strlit("SELECT ");
        reveal_strlit("*");
        reveal_strlit(" FROM ");
        reveal_strlit("\"");
        reveal_strlit("BaseItems");
        reveal_strlit(" WHERE ");
        reveal_strlit("Type");
        reveal_strlit(" = ");
    }
    assert(chars(
        r#" AND "ParentIndexNumber" = 0 AND "IsVirtualItem" = 0 AND "SeriesPresentationUniqueKey" IN ("#@,
    ) =~= chars(r#" AND "ParentIndexNumber" = 0"#@) + (chars(" AND "@) + (quoted("IsVirtualItem"@)
        + chars(" = "@) + chars("0"@)) + chars(" AND "@) + quoted("SeriesPresentationUniqueKey"@)
        + chars(" IN ("@))) by {
        reveal(Said::spec_add);
        reveal_strlit(r#" AND "ParentIndexNumber" = 0 AND "IsVirtualItem" = 0 AND "SeriesPresentationUniqueKey" IN ("#);
        reveal_strlit(r#" AND "ParentIndexNumber" = 0"#);
        reveal_strlit(" AND ");
        reveal_strlit("\"");
        reveal_strlit("IsVirtualItem");
        reveal_strlit(" = ");
        reveal_strlit("0");
        reveal_strlit("SeriesPresentationUniqueKey");
        reveal_strlit(" IN (");
    }
    assert(chars(r#" AND "ParentIndexNumber" = 0"#@) =~= chars(" AND "@) + (quoted(
        "ParentIndexNumber"@,
    ) + chars(" = "@) + chars("0"@))) by {
        reveal(Said::spec_add);
        reveal_strlit(r#" AND "ParentIndexNumber" = 0"#);
        reveal_strlit(" AND ");
        reveal_strlit("\"");
        reveal_strlit("ParentIndexNumber");
        reveal_strlit(" = ");
        reveal_strlit("0");
    }
}

/// The statement for specials selects the episodes of season zero of the series that are there.
pub proof fn law_specials_are_of_season_zero(episode_type: Seq<char>, keys: Seq<Seq<char>>)
    ensures
        selects(
            specials_sql(episode_type, keys),
            "*"@,
            From::Unnamed { table: "BaseItems"@ },
            |row: Row, db: Db| is_special(row, episode_type, keys),
            nothing(),
        ),
{
    let from = From::Unnamed { table: "BaseItems"@ };
    let lead = Lead { before: nothing(), head: select_head("*"@, from) };
    let first = r#"SELECT * FROM "BaseItems" WHERE "Type" = "#@;
    let kind = BindView::Text(episode_type);
    let e = bare("Type"@);
    lemma_special_texts();
    lemma_small_numbers();
    let q0 = give(say(Seq::<PieceView>::empty(), first), kind);
    let c0 = seq![is_given(e, Op::Eq, kind)];
    lemma_begin(lead, first, e, kind);
    let t1 = r#" AND "ParentIndexNumber" = 0"#@;
    let a = zero("ParentIndexNumber"@);
    let q1 = say(q0, t1);
    lemma_flat_say(q0, t1);
    assert(text_of(a) == quoted("ParentIndexNumber"@) + chars(" = "@) + chars("0"@));
    assert(reads_so(a));
    assert(flat(q1) == flat(q0) + chars(" AND "@) + text_of(a)) by {
        broadcast use {lemma_said_in_turn, lemma_said_nothing};

    }
    lemma_spells_more(lead, q0, c0, q1, a);
    let c1 = c0.push(a);
    let t2 =
        r#" AND "ParentIndexNumber" = 0 AND "IsVirtualItem" = 0 AND "SeriesPresentationUniqueKey" IN ("#@;
    let b = zero("IsVirtualItem"@);
    let k = bare("SeriesPresentationUniqueKey"@);
    let c = key_cond(k, keys);
    let q2 = say(q0, t2);
    let q3 = keys_sql(q2, keys);
    let all = say(q3, ")"@);
    assert(all == specials_sql(episode_type, keys));
    lemma_flat_say(q0, t2);
    lemma_keys_text(q2, keys);
    lemma_flat_say(q3, ")"@);
    lemma_key_text(k, keys);
    assert(text_of(b) == quoted("IsVirtualItem"@) + chars(" = "@) + chars("0"@));
    assert(reads_so(b) && reads_so(c));
    assert(flat(all) == flat(q1) + chars(" AND "@) + text_of(b) + chars(" AND "@) + text_of(c)) by {
        broadcast use {lemma_said_in_turn, lemma_said_nothing};

    }
    lemma_spells_two(lead, q1, c1, all, b, c);
    let cs = c1.push(b).push(c);
    lemma_select(all, "*"@, from, cs);
    let p = |row: Row, db: Db| is_special(row, episode_type, keys);
    assert forall|row: Row, db: Db| #[trigger] all_true(cs, only(row), db) <==> p(row, db) by {
        let s = only(row);
        assert(truth(is_given(e, Op::Eq, kind), s, db) == compared(
            row("Type"@),
            Op::Eq,
            Val::Text(episode_type),
            db,
        ));
        assert(truth(a, s, db) == compared(row("ParentIndexNumber"@), Op::Eq, Val::Int(0), db));
        assert(truth(b, s, db) == compared(row("IsVirtualItem"@), Op::Eq, Val::Int(0), db));
        lemma_key_truth(k, keys, s, db);
        assert(value_of(k, s, db) == row("SeriesPresentationUniqueKey"@));
        assert(all_true(c0, s, db) <==> row("Type"@) == Val::Text(episode_type));
    }
}

/// Whether an item has one of some identifiers.
pub open spec fn has_id(row: Row, ids: Seq<Guid>) -> bool {
    exists|i: int|
        0 <= i < ids.len() && row("Id"@) == Val::Text(hyphenated_text((#[trigger] ids[i]).value))
}

/// The statement for episodes by their identifiers selects the items that have one of them.
pub proof fn law_episodes_are_those_named(ids: Seq<Guid>)
    ensures
        selects(
            episodes_sql(ids),
            "*"@,
            From::Unnamed { table: "BaseItems"@ },
            |row: Row, db: Db| has_id(row, ids),
            nothing(),
        ),
{
    let from = From::Unnamed { table: "BaseItems"@ };
    let head = select_head("*"@, from);
    let empty = Seq::<PieceView>::empty();
    let t = r#"SELECT * FROM "BaseItems" WHERE "Id" IN ("#@;
    let values = plain_guid_values(ids);
    let c = Cond::In(bare("Id"@), values);
    let cs = seq![c];
    let a = say(empty, t);
    let b = give_all(a, values);
    let all = say(b, ")"@);
    lemma_flat_say(empty, t);
    lemma_flat_give_all(a, values);
    lemma_flat_say(b, ")"@);
    assert(chars(t) =~= head + quoted("Id"@) + chars(" IN ("@)) by {
        reveal(Said::spec_add);
        reveal_strlit(r#"SELECT * FROM "BaseItems" WHERE "Id" IN ("#);
        reveal_strlit("SELECT ");
        reveal_strlit("*");
        reveal_strlit(" FROM ");
        reveal_strlit("\"");
        reveal_strlit("BaseItems");
        reveal_strlit(" WHERE ");
        reveal_strlit("Id");
        reveal_strlit(" IN (");
    }
    assert(flat(empty) + chars(t) =~= chars(t) && nothing() + flat(all) =~= flat(all)) by {
        reveal(Said::spec_add);
    }
    assert(text_of(c) == quoted("Id"@) + chars(" IN ("@) + values_text(values) + chars(")"@));
    assert(conds_text(cs) == text_of(c));
    assert(flat(all) == head + conds_text(cs)) by {
        broadcast use {lemma_said_in_turn, lemma_said_nothing};

    }
    assert(reads_so(c));
    lemma_select(all, "*"@, from, cs);
    let p = |row: Row, db: Db| has_id(row, ids);
    assert forall|row: Row, db: Db| #[trigger] all_true(cs, only(row), db) <==> p(row, db) by {
        let s = only(row);
        let v = row("Id"@);
        assert(value_of(bare("Id"@), s, db) == v);
        assert(truth(c, s, db) == Some(true) <==> is_among(v, values, db));
        if is_among(v, values, db) {
            let i = choose|i: int| 0 <= i < values.len() && given(#[trigger] values[i], db) == v;
            assert(v == Val::Text(hyphenated_text(ids[i].value)));
        }
        if has_id(row, ids) {
            let i = choose|i: int|
                0 <= i < ids.len() && v == Val::Text(hyphenated_text((#[trigger] ids[i]).value));
            assert(given(values[i], db) == v);
        }
        assert(cs[0] == c);
    }
}

// ---------------------------------------------------------------------------
// Series
// ---------------------------------------------------------------------------
/// Whether a user's data are of an episode of a series, in one of the libraries, by the user.
pub open spec fn is_of_series(
    item: Row,
    data: Row,
    episode_type: Seq<char>,
    user_id: Seq<char>,
    top_parents: Seq<Guid>,
) -> bool {
    &&& !(item("Id"@) is Null) && data("ItemId"@) == item("Id"@)
    &&& data("ItemId"@) != Val::Text("00000000-0000-0000-0000-000000000001"@)
    &&& data("UserId"@) == Val::Text(user_id)
    &&& item("Type"@) == Val::Text(episode_type)
    &&& !(item("SeriesPresentationUniqueKey"@) is Null)
    &&& exists|i: int|
        0 <= i < top_parents.len() && item("TopParentId"@) == Val::Text(
            hyphenated_text((#[trigger] top_parents[i]).value),
        )
}

spec fn series_columns() -> Seq<char> {
    r#"bi."SeriesPresentationUniqueKey" AS key, MAX(ud."LastPlayedDate") AS last_played"#@
}

/// The end of a statement that keeps, of each series, the last of the dates, drops the series
/// that have none or none since `cutoff`, and gives the newest first.
pub open spec fn since(cutoff: Timestamp) -> Said {
    chars(" GROUP BY "@) + column_text("bi"@, "SeriesPresentationUniqueKey"@) + chars(
        " HAVING last_played IS NOT NULL AND last_played >= "@,
    ) + hole(BindView::Time(cutoff)) + chars(" ORDER BY last_played DESC"@)
}

proof fn lemma_series_texts()
    ensures
        chars(
            r#"SELECT bi."SeriesPresentationUniqueKey" AS key, MAX(ud."LastPlayedDate") AS last_played FROM "BaseItems" bi JOIN "UserData" ud ON ud."ItemId" = bi."Id" WHERE bi."Type" = "#@,
        ) == joined_head(series_columns(), items(), user_data(), on_item()) + column_text(
            "bi"@,
            "Type"@,
        ) + chars(" = "@),
        chars(r#" AND ud."ItemId" <> "#@) == chars(" AND "@) + column_text("ud"@, "ItemId"@) + chars(
            " <> "@,
        ),
        chars(r#" AND bi."SeriesPresentationUniqueKey" IS NOT NULL AND bi."TopParentId" IN ("#@)
            == chars(" AND "@) + (column_text("bi"@, "SeriesPresentationUniqueKey"@) + chars(
            " IS NOT NULL"@,
        )) + chars(" AND "@) + column_text("bi"@, "TopParentId"@) + chars(" IN ("@),
        chars(
            r#") GROUP BY bi."SeriesPresentationUniqueKey" HAVING last_played IS NOT NULL AND last_played >= "#@,
        ) == chars(")"@) + (chars(" GROUP BY "@) + column_text("bi"@, "SeriesPresentationUniqueKey"@)
            + chars(" HAVING last_played IS NOT NULL AND last_played >= "@)),
{
    lemma_on_text();
    let first =
        r#"SELECT bi."SeriesPresentationUniqueKey" AS key, MAX(ud."LastPlayedDate") AS last_played FROM "BaseItems" bi JOIN "UserData" ud ON ud."ItemId" = bi."Id" WHERE bi."Type" = "#@;
    assert(chars(first) =~= joined_head(series_columns(), items(), user_data(), on_item())
        + column_text("bi"@, "Type"@) + chars(" = "@)) by {
        reveal(Said::spec_add);
        reveal_strlit(r#"SELECT bi."SeriesPresentationUniqueKey" AS key, MAX(ud."LastPlayedDate") AS last_played FROM "BaseItems" bi JOIN "UserData" ud ON ud."ItemId" = bi."Id" WHERE bi."Type" = "#);
        reveal_strlit(r#"bi."SeriesPresentationUniqueKey" AS key, MAX(ud."LastPlayedDate") AS last_played"#);
        reveal_strlit("SELECT ");
        reveal_strlit(" FROM ");
        reveal_strlit(" JOIN ");
        reveal_strlit(" ON ");
        reveal_strlit(" WHERE ");
        reveal_strlit("\"");
        reveal_strlit("BaseItems");
        reveal_strlit("UserData");
        reveal_strlit(" ");
        reveal_strlit("bi");
        reveal_strlit("ud");
        reveal_strlit(".");
        reveal_strlit("ItemId");
        reveal_strlit("Id");
        reveal_strlit("Type");
        reveal_strlit(" = ");
    }
    assert(chars(r#" AND ud."ItemId" <> "#@) =~= chars(" AND "@) + column_text("ud"@, "ItemId"@)
        + chars(" <> "@)) by {
        reveal(Said::spec_add);
        reveal_strlit(r#" AND ud."ItemId" <> "#);
        reveal_strlit(" AND ");
        reveal_strlit("ud");
        reveal_strlit(".");
        reveal_strlit("\"");
        reveal_strlit("ItemId");
        reveal_strlit(" <> ");
    }
    assert(chars(r#" AND bi."SeriesPresentationUniqueKey" IS NOT NULL AND bi."TopParentId" IN ("#@)
        =~= chars(" AND "@) + (column_text("bi"@, "SeriesPresentationUniqueKey"@) + chars(
        " IS NOT NULL"@,
    )) + chars(" AND "@) + column_text("bi"@, "TopParentId"@) + chars(" IN ("@)) by {
        reveal(Said::spec_add);
        reveal_strlit(r#" AND bi."SeriesPresentationUniqueKey" IS NOT NULL AND bi."TopParentId" IN ("#);
        reveal_strlit(" AND ");
        reveal_strlit("bi");
        reveal_strlit(".");
        reveal_strlit("\"");
        reveal_strlit("SeriesPresentationUniqueKey");
        reveal_strlit(" IS NOT NULL");
        reveal_strlit("TopParentId");
        reveal_strlit(" IN (");
    }
    let last =
        r#") GROUP BY bi."SeriesPresentationUniqueKey" HAVING last_played IS NOT NULL AND last_played >= "#@;
    assert(chars(last) =~= chars(")"@) + (chars(" GROUP BY "@) + column_text(
        "bi"@,
        "SeriesPresentationUniqueKey"@,
    ) + chars(" HAVING last_played IS NOT NULL AND last_played >= "@))) by {
        reveal(Said::spec_add);
        reveal_strlit(r#") GROUP BY bi."SeriesPresentationUniqueKey" HAVING last_played IS NOT NULL AND last_played >= "#);
        reveal_strlit(")");
        reveal_strlit(" GROUP BY ");
        reveal_strlit("bi");
        reveal_strlit(".");
        reveal_strlit("\"");
        reveal_strlit("SeriesPresentationUniqueKey");
        reveal_strlit(" HAVING last_played IS NOT NULL AND last_played >= ");
    }
}

proof fn lemma_top_parents(v: Val, ids: Seq<Guid>, db: Db)
    ensures
        is_among(v, plain_guid_values(ids), db) <==> exists|i: int|
            0 <= i < ids.len() && v == Val::Text(hyphenated_text((#[trigger] ids[i]).value)),
{
    let values = plain_guid_values(ids);
    if is_among(v, values, db) {
        let i = choose|i: int| 0 <= i < values.len() && given(#[trigger] values[i], db) == v;
        assert(v == Val::Text(hyphenated_text(ids[i].value)));
    }
    if exists|i: int|
        0 <= i < ids.len() && v == Val::Text(hyphenated_text((#[trigger] ids[i]).value)) {
        let i = choose|i: int|
            0 <= i < ids.len() && v == Val::Text(hyphenated_text((#[trigger] ids[i]).value));
        assert(given(values[i], db) == v);
    }
}

proof fn read_libraries(lead: Lead, q: Sql, cs: Seq<Cond>, ids: Seq<Guid>) -> (out: Seq<Cond>)
    requires
        spells(lead, q, cs),
    ensures
        spells(
            lead,
            say(
                give_all(
                    say(
                        q,
                        r#" AND bi."SeriesPresentationUniqueKey" IS NOT NULL AND bi."TopParentId" IN ("#@,
                    ),
                    plain_guid_values(ids),
                ),
                ")"@,
            ),
            out,
        ),
        forall|s: Scope, db: Db| #[trigger]
            all_true(out, s, db) <==> all_true(cs, s, db) && !(s("bi"@)(
                "SeriesPresentationUniqueKey"@,
            ) is Null) && is_among(s("bi"@)("TopParentId"@), plain_guid_values(ids), db),
{
    let t = r#" AND bi."SeriesPresentationUniqueKey" IS NOT NULL AND bi."TopParentId" IN ("#@;
    let values = plain_guid_values(ids);
    let a = Cond::NotNull(of("bi"@, "SeriesPresentationUniqueKey"@));
    let b = Cond::In(of("bi"@, "TopParentId"@), values);
    let q1 = say(q, t);
    let q2 = give_all(q1, values);
    let longer = say(q2, ")"@);
    lemma_series_texts();
    lemma_flat_say(q, t);
    lemma_flat_give_all(q1, values);
    lemma_flat_say(q2, ")"@);
    assert(text_of(a) == column_text("bi"@, "SeriesPresentationUniqueKey"@) + chars(
        " IS NOT NULL"@,
    ));
    assert(text_of(b) == column_text("bi"@, "TopParentId"@) + chars(" IN ("@) + values_text(values)
        + chars(")"@));
    assert(flat(longer) == flat(q) + chars(" AND "@) + text_of(a) + chars(" AND "@) + text_of(b)) by {
        broadcast use {lemma_said_in_turn, lemma_said_nothing};

    }
    assert(reads_so(a) && reads_so(b));
    lemma_spells_two(lead, q, cs, longer, a, b);
    let out = cs.push(a).push(b);
    assert forall|s: Scope, db: Db| #[trigger]
        all_true(out, s, db) <==> all_true(cs, s, db) && !(s("bi"@)("SeriesPresentationUniqueKey"@) is Null)
            && is_among(s("bi"@)("TopParentId"@), values, db) by {
        assert(truth(a, s, db) == Some(!(s("bi"@)("SeriesPresentationUniqueKey"@) is Null)));
        assert(truth(b, s, db) == Some(true) <==> is_among(s("bi"@)("TopParentId"@), values, db));
    }
    out
}

/// The statement for the series that are next up reads the user's own data of the episodes in
/// the libraries, keeps the last play of each series, drops those not played since the cutoff,
/// and gives the newest first.
pub proof fn law_series_are_those_played_since(
    episode_type: Seq<char>,
    user_id: Seq<char>,
    top_parents: Seq<Guid>,
    cutoff: Timestamp,
)
    ensures
        selects_pairs(
            series_keys_sql(episode_type, user_id, top_parents, cutoff),
            r#"bi."SeriesPresentationUniqueKey" AS key, MAX(ud."LastPlayedDate") AS last_played"#@,
            items(),
            user_data(),
            |item: Row, data: Row, db: Db|
                is_of_series(item, data, episode_type, user_id, top_parents),
            since(cutoff),
        ),
{
    let columns = series_columns();
    let lead = lead_of(columns);
    let first =
        r#"SELECT bi."SeriesPresentationUniqueKey" AS key, MAX(ud."LastPlayedDate") AS last_played FROM "BaseItems" bi JOIN "UserData" ud ON ud."ItemId" = bi."Id" WHERE bi."Type" = "#@;
    let kind = BindView::Text(episode_type);
    let user = BindView::Text(user_id);
    let place = BindView::Text(PLACEHOLDER_ID@);
    let et = of("bi"@, "Type"@);
    let eu = of("ud"@, "UserId"@);
    let ei = of("ud"@, "ItemId"@);
    let t1 = r#" AND ud."UserId" = "#@;
    let t2 = r#" AND ud."ItemId" <> "#@;
    lemma_play_texts();
    lemma_series_texts();
    lemma_on_text();
    let q0 = give(say(Seq::<PieceView>::empty(), first), kind);
    let c0 = seq![is_given(et, Op::Eq, kind)];
    lemma_begin(lead, first, et, kind);
    let q1 = give(say(q0, t1), user);
    let c1 = c0.push(is_given(eu, Op::Eq, user));
    lemma_more(lead, q0, c0, t1, eu, Op::Eq, user);
    let q2 = give(say(q1, t2), place);
    let c2 = c1.push(is_given(ei, Op::Ne, place));
    lemma_more(lead, q1, c1, t2, ei, Op::Ne, place);
    let q3 = give_all(
        say(q2, r#" AND bi."SeriesPresentationUniqueKey" IS NOT NULL AND bi."TopParentId" IN ("#@),
        plain_guid_values(top_parents),
    );
    let c3 = read_libraries(lead, q2, c2, top_parents);
    let t3 =
        r#") GROUP BY bi."SeriesPresentationUniqueKey" HAVING last_played IS NOT NULL AND last_played >= "#@;
    let t4 = " ORDER BY last_played DESC"@;
    let at = BindView::Time(cutoff);
    let q4 = say(q3, t3);
    let q5 = give(q4, at);
    let all = say(q5, t4);
    let rest = since(cutoff);
    assert(all == series_keys_sql(episode_type, user_id, top_parents, cutoff));
    lemma_flat_say(q3, t3);
    lemma_flat_give(q4, at);
    lemma_flat_say(q5, t4);
    lemma_flat_say(q3, ")"@);
    let closed = say(q3, ")"@);
    assert(flat(all) == flat(closed) + rest) by {
        broadcast use {lemma_said_in_turn, lemma_said_nothing};

    }
    assert(nothing() + flat(closed) =~= flat(closed)) by {
        reveal(Said::spec_add);
    }
    assert(flat(all) == lead.head + conds_text(c3) + rest);
    assert(spells_pairs(all, columns, items(), user_data(), on_item(), c3, rest));
    let p = |item: Row, data: Row, db: Db|
        is_of_series(item, data, episode_type, user_id, top_parents);
    assert forall|a: Row, b: Row, db: Db| #[trigger]
        pair_meets(on_item(), c3, name_of(user_data()), a, b, db) <==> p(a, b, db) by {
        lemma_names_differ();
        lemma_top_parents(a("TopParentId"@), top_parents, db);
        let s = with_row(only(a), "ud"@, b);
        assert(s("ud"@) == b && s("bi"@) == a);
        assert(truth(on_item(), s, db) == compared(b("ItemId"@), Op::Eq, a("Id"@), db));
        assert(truth(is_given(et, Op::Eq, kind), s, db) == compared(
            a("Type"@),
            Op::Eq,
            Val::Text(episode_type),
            db,
        ));
        assert(truth(is_given(eu, Op::Eq, user), s, db) == compared(
            b("UserId"@),
            Op::Eq,
            Val::Text(user_id),
            db,
        ));
        assert(truth(is_given(ei, Op::Ne, place), s, db) == compared(
            b("ItemId"@),
            Op::Ne,
            Val::Text(PLACEHOLDER_ID@),
            db,
        ));
        assert(all_true(c0, s, db) <==> a("Type"@) == Val::Text(episode_type));
        assert(all_true(c3, s, db) <==> all_true(c2, s, db) && !(a("SeriesPresentationUniqueKey"@) is Null)
            && is_among(a("TopParentId"@), plain_guid_values(top_parents), db));
    }
}

} // verus!
