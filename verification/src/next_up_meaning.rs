//! What the statements for next-up episodes ask for.
use vstd::prelude::*;

use crate::item_query_meaning::{lemma_small_numbers, read_text};
use crate::next_up_service::{keys_sql, positions_sql, Played};
use crate::sql::{give, say, text_values, BindView, Sql};
use crate::sql_meaning::{
    all_true, both, chars, column_text, compared, conds_text, expr_text, flat, given, hole,
    lemma_flat_give, lemma_flat_give_all, lemma_flat_say, lemma_said_in_turn, lemma_said_nothing,
    lemma_spells_more, negated, nothing, only, reads_so, select_head, selects, spells,
    spells_select, text_of, truth, value_of, values_text, with_row, Cond, Db, Expr, From, Lead, Op,
    Row, Said, Scope, Val,
};

verus! {

// ---------------------------------------------------------------------------
// Positions of episodes
// ---------------------------------------------------------------------------
/// Whether the user's own data say that an item is played.
pub open spec fn is_played_by(db: Db, user_id: Seq<char>, row: Row) -> bool {
    exists|i: int|
        0 <= i < (db.tables)("UserData"@).len() && {
            let data = #[trigger] (db.tables)("UserData"@)[i];
            &&& !(row("Id"@) is Null)
            &&& data("ItemId"@) == row("Id"@)
            &&& data("UserId"@) == Val::Text(user_id)
            &&& data("Played"@) == Val::Int(1)
        }
}

/// Whether an item is an episode of one of the series, and no special.
pub open spec fn is_regular_episode(
    row: Row,
    episode_type: Seq<char>,
    keys: Seq<Seq<char>>,
) -> bool {
    &&& row("Type"@) == Val::Text(episode_type)
    &&& !(row("ParentIndexNumber"@) is Null)
    &&& row("ParentIndexNumber"@) != Val::Int(0)
    &&& row("SeriesPresentationUniqueKey"@) matches Val::Text(key)
    &&& keys.contains(key)
}

/// Whether an item is among the episodes whose positions are asked for.
pub open spec fn is_asked_for(
    row: Row,
    db: Db,
    episode_type: Seq<char>,
    user_id: Seq<char>,
    keys: Seq<Seq<char>>,
    played: Played,
    real_only: bool,
) -> bool {
    &&& is_regular_episode(row, episode_type, keys)
    &&& played == Played::Only ==> is_played_by(db, user_id, row)
    &&& played == Played::Not ==> !is_played_by(db, user_id, row)
    &&& real_only ==> row("IsVirtualItem"@) == Val::Int(0)
}

spec fn of(name: Seq<char>, column: Seq<char>) -> Expr {
    Expr::Column { of: name, name: column }
}

spec fn user_data() -> From {
    From::Named { table: "UserData"@, name: "ud"@ }
}

spec fn same_item() -> Cond {
    Cond::Compare(of("ud"@, "ItemId"@), Op::Eq, of("bi"@, "Id"@))
}

spec fn of_user(user_id: Seq<char>) -> Cond {
    Cond::Compare(of("ud"@, "UserId"@), Op::Eq, Expr::Given(BindView::Text(user_id)))
}

spec fn is_played() -> Cond {
    Cond::Compare(of("ud"@, "Played"@), Op::Eq, Expr::Number(1))
}

spec fn played_inner(user_id: Seq<char>) -> Cond {
    Cond::And(
        Box::new(Cond::And(Box::new(same_item()), Box::new(of_user(user_id)))),
        Box::new(is_played()),
    )
}

spec fn played_cond(user_id: Seq<char>) -> Cond {
    Cond::Exists(user_data(), Box::new(played_inner(user_id)))
}

proof fn lemma_played_truth(user_id: Seq<char>, row: Row, db: Db)
    ensures
        truth(played_cond(user_id), only(row), db) == Some(is_played_by(db, user_id, row)),
{
    let inner = played_inner(user_id);
    let rows = (db.tables)("UserData"@);
    assert("ud"@ != "bi"@) by {
        reveal_strlit("ud");
        reveal_strlit("bi");
        assert("ud"@[0] != "bi"@[0]);
    }
    assert forall|i: int| 0 <= i < rows.len() implies (truth(
        inner,
        with_row(only(row), "ud"@, #[trigger] rows[i]),
        db,
    ) == Some(true) <==> {
        &&& !(row("Id"@) is Null)
        &&& rows[i]("ItemId"@) == row("Id"@)
        &&& rows[i]("UserId"@) == Val::Text(user_id)
        &&& rows[i]("Played"@) == Val::Int(1)
    }) by {
        let s = with_row(only(row), "ud"@, rows[i]);
        let pair = Cond::And(Box::new(same_item()), Box::new(of_user(user_id)));
        assert(s("ud"@) == rows[i]);
        assert(s("bi"@) == row);
        assert(truth(same_item(), s, db) == compared(rows[i]("ItemId"@), Op::Eq, row("Id"@), db));
        assert(truth(of_user(user_id), s, db) == compared(
            rows[i]("UserId"@),
            Op::Eq,
            Val::Text(user_id),
            db,
        ));
        assert(truth(is_played(), s, db) == compared(rows[i]("Played"@), Op::Eq, Val::Int(1), db));
        assert(truth(pair, s, db) == both(
            truth(same_item(), s, db),
            truth(of_user(user_id), s, db),
        ));
        assert(truth(inner, s, db) == both(truth(pair, s, db), truth(is_played(), s, db)));
    }
}

/// The values of a list of keys, or the word for none.
pub(crate) proof fn lemma_keys_text(q: Sql, keys: Seq<Seq<char>>)
    ensures
        flat(keys_sql(q, keys)) == flat(q) + if keys.len() == 0 {
            chars("NULL"@)
        } else {
            values_text(text_values(keys))
        },
{
    if keys.len() == 0 {
        lemma_flat_say(q, "NULL"@);
    } else {
        lemma_flat_give_all(q, text_values(keys));
    }
}

pub(crate) open spec fn key_cond(e: Expr, keys: Seq<Seq<char>>) -> Cond {
    if keys.len() == 0 {
        Cond::InNull(e)
    } else {
        Cond::In(e, text_values(keys))
    }
}

pub(crate) proof fn lemma_key_text(e: Expr, keys: Seq<Seq<char>>)
    ensures
        text_of(key_cond(e, keys)) == expr_text(e) + chars(" IN ("@) + (if keys.len() == 0 {
            chars("NULL"@)
        } else {
            values_text(text_values(keys))
        }) + chars(")"@),
{
    if keys.len() == 0 {
        assert(chars(" IN (NULL)"@) =~= chars(" IN ("@) + chars("NULL"@) + chars(")"@)) by {
            reveal(Said::spec_add);
            reveal_strlit(" IN (NULL)");
            reveal_strlit(" IN (");
            reveal_strlit("NULL");
            reveal_strlit(")");
        }
        assert(text_of(Cond::InNull(e)) == expr_text(e) + chars(" IN (NULL)"@));
        assert(text_of(key_cond(e, keys)) == expr_text(e) + chars(" IN ("@) + chars("NULL"@) + chars(
            ")"@,
        )) by {
            broadcast use {lemma_said_in_turn, lemma_said_nothing};

        }
    }
}

pub(crate) proof fn lemma_key_truth(e: Expr, keys: Seq<Seq<char>>, s: Scope, db: Db)
    ensures
        truth(key_cond(e, keys), s, db) == Some(true) <==> (value_of(e, s, db) matches Val::Text(key)
            && keys.contains(key)),
{
    let v = value_of(e, s, db);
    let values = text_values(keys);
    if truth(key_cond(e, keys), s, db) == Some(true) {
        let i = choose|i: int| 0 <= i < values.len() && given(#[trigger] values[i], db) == v;
        assert(values[i] == BindView::Text(keys[i]));
        assert(keys.contains(keys[i]));
    }
    if v is Text && keys.contains(v->Text_0) {
        let i = choose|i: int| 0 <= i < keys.len() && keys[i] == v->Text_0;
        assert(given(values[i], db) == v);
    }
}

/// The statement for the positions of played or unplayed episodes selects the regular
/// episodes of the series that the user has played, or has not: by the user's own data,
/// whatever those of others say. If asked to, it leaves out those that are not there.
pub proof fn law_positions_are_of_the_users_own_episodes(
    episode_type: Seq<char>,
    user_id: Seq<char>,
    keys: Seq<Seq<char>>,
    played: Played,
    real_only: bool,
)
    ensures
        selects(
            positions_sql(episode_type, user_id, keys, played, real_only),
            r#"bi."SeriesPresentationUniqueKey", bi."Id", bi."ParentIndexNumber", bi."IndexNumber""#@,
            From::Named { table: "BaseItems"@, name: "bi"@ },
            |row: Row, db: Db|
                is_asked_for(row, db, episode_type, user_id, keys, played, real_only),
            nothing(),
        ),
{
    let columns = r#"bi."SeriesPresentationUniqueKey", bi."Id", bi."ParentIndexNumber", bi."IndexNumber""#@;
    let from = From::Named { table: "BaseItems"@, name: "bi"@ };
    let lead = Lead { before: nothing(), head: select_head(columns, from) };
    let first = r#"SELECT bi."SeriesPresentationUniqueKey", bi."Id", bi."ParentIndexNumber", bi."IndexNumber" FROM "BaseItems" bi WHERE bi."Type" = "#@;
    let kind = BindView::Text(episode_type);
    let q0 = give(say(Seq::empty(), first), kind);
    let cs0 = read_episode_type(episode_type);
    let second = match played {
        Played::Only => {
            r#" AND bi."ParentIndexNumber" <> 0 AND EXISTS (SELECT 1 FROM "UserData" ud WHERE ud."ItemId" = bi."Id" AND ud."UserId" = "#@
        },
        Played::Not => {
            r#" AND bi."ParentIndexNumber" <> 0 AND NOT EXISTS (SELECT 1 FROM "UserData" ud WHERE ud."ItemId" = bi."Id" AND ud."UserId" = "#@
        },
    };
    let third = r#" AND ud."Played" = 1)"#@;
    let q1 = say(give(say(q0, second), BindView::Text(user_id)), third);
    let cs1 = read_played(lead, q0, cs0, user_id, second, third, played);
    let virtual_text = r#" AND bi."IsVirtualItem" = 0"#@;
    let (q2, cs2) = if real_only {
        (say(q1, virtual_text), read_virtual(lead, q1, cs1))
    } else {
        (q1, cs1)
    };
    let q = say(keys_sql(say(q2, r#" AND bi."SeriesPresentationUniqueKey" IN ("#@), keys), ")"@);
    let cs = read_keys(lead, q2, cs2, keys);
    assert(q == positions_sql(episode_type, user_id, keys, played, real_only));
    lemma_select(q, columns, from, cs);
    let p = |row: Row, db: Db|
        is_asked_for(row, db, episode_type, user_id, keys, played, real_only);
    assert forall|row: Row, db: Db| #[trigger] all_true(cs, only(row), db) <==> p(row, db) by {
        assert(all_true(cs, only(row), db) <==> all_true(cs2, only(row), db) && (row(
            "SeriesPresentationUniqueKey"@,
        ) matches Val::Text(key) && keys.contains(key)));
    }
}

/// A statement that spells conditions behind a beginning selects the rows that meet them.
pub(crate) proof fn lemma_select(q: Sql, columns: Seq<char>, from: From, cs: Seq<Cond>)
    requires
        spells(Lead { before: nothing(), head: select_head(columns, from) }, q, cs),
    ensures
        spells_select(q, columns, from, cs, nothing()),
{
    assert(nothing() + flat(q) =~= flat(q)) by {
        reveal(Said::spec_add);
    }
    assert(flat(q) == select_head(columns, from) + conds_text(cs) + nothing()) by {
        broadcast use {lemma_said_in_turn, lemma_said_nothing};

    }
}

proof fn read_episode_type(episode_type: Seq<char>) -> (out: Seq<Cond>)
    ensures
        spells(
            Lead {
                before: nothing(),
                head: select_head(
                    r#"bi."SeriesPresentationUniqueKey", bi."Id", bi."ParentIndexNumber", bi."IndexNumber""#@,
                    From::Named { table: "BaseItems"@, name: "bi"@ },
                ),
            },
            give(
                say(
                    Seq::empty(),
                    r#"SELECT bi."SeriesPresentationUniqueKey", bi."Id", bi."ParentIndexNumber", bi."IndexNumber" FROM "BaseItems" bi WHERE bi."Type" = "#@,
                ),
                BindView::Text(episode_type),
            ),
            out,
        ),
        forall|row: Row, db: Db| #[trigger]
            all_true(out, only(row), db) <==> row("Type"@) == Val::Text(episode_type),
{
    let columns = r#"bi."SeriesPresentationUniqueKey", bi."Id", bi."ParentIndexNumber", bi."IndexNumber""#@;
    let from = From::Named { table: "BaseItems"@, name: "bi"@ };
    let head = select_head(columns, from);
    let first = r#"SELECT bi."SeriesPresentationUniqueKey", bi."Id", bi."ParentIndexNumber", bi."IndexNumber" FROM "BaseItems" bi WHERE bi."Type" = "#@;
    let kind = BindView::Text(episode_type);
    let c0 = Cond::Compare(of("bi"@, "Type"@), Op::Eq, Expr::Given(kind));
    let q0 = give(say(Seq::empty(), first), kind);
    lemma_flat_say(Seq::empty(), first);
    lemma_flat_give(say(Seq::empty(), first), kind);
    assert(chars(first) =~= head + column_text("bi"@, "Type"@) + chars(" = "@)) by {
        reveal(Said::spec_add);
        reveal_strlit(r#"SELECT bi."SeriesPresentationUniqueKey", bi."Id", bi."ParentIndexNumber", bi."IndexNumber" FROM "BaseItems" bi WHERE bi."Type" = "#);
        reveal_strlit(r#"bi."SeriesPresentationUniqueKey", bi."Id", bi."ParentIndexNumber", bi."IndexNumber""#);
        reveal_strlit("SELECT ");
        reveal_strlit(" FROM ");
        reveal_strlit(" WHERE ");
        reveal_strlit("\"");
        reveal_strlit("BaseItems");
        reveal_strlit(" ");
        reveal_strlit("bi");
        reveal_strlit(".");
        reveal_strlit("Type");
        reveal_strlit(" = ");
    }
    let cs0 = seq![c0];
    assert(flat(Seq::empty()) == nothing());
    assert(nothing() + chars(first) =~= chars(first) && nothing() + flat(q0) =~= flat(q0)) by {
        reveal(Said::spec_add);
    }
    assert(conds_text(cs0) == text_of(c0));
    assert(flat(q0) == head + conds_text(cs0)) by {
        broadcast use {lemma_said_in_turn, lemma_said_nothing};

    }
    assert forall|row: Row, db: Db| #[trigger]
        all_true(cs0, only(row), db) <==> row("Type"@) == Val::Text(episode_type) by {
        let s = only(row);
        assert(truth(c0, s, db) == compared(row("Type"@), Op::Eq, Val::Text(episode_type), db));
        assert(cs0[0] == c0);
    }
    cs0
}

proof fn read_played(
    lead: Lead,
    q0: Sql,
    cs0: Seq<Cond>,
    user_id: Seq<char>,
    second: Seq<char>,
    third: Seq<char>,
    played: Played,
) -> (out: Seq<Cond>)
    requires
        spells(lead, q0, cs0),
        third == r#" AND ud."Played" = 1)"#@,
        played == Played::Only ==> second
            == r#" AND bi."ParentIndexNumber" <> 0 AND EXISTS (SELECT 1 FROM "UserData" ud WHERE ud."ItemId" = bi."Id" AND ud."UserId" = "#@,
        played == Played::Not ==> second
            == r#" AND bi."ParentIndexNumber" <> 0 AND NOT EXISTS (SELECT 1 FROM "UserData" ud WHERE ud."ItemId" = bi."Id" AND ud."UserId" = "#@,
    ensures
        spells(lead, say(give(say(q0, second), BindView::Text(user_id)), third), out),
        forall|row: Row, db: Db| #[trigger]
            all_true(out, only(row), db) <==> all_true(cs0, only(row), db) && !(row(
                "ParentIndexNumber"@,
            ) is Null) && row("ParentIndexNumber"@) != Val::Int(0) && (played == Played::Only
                ==> is_played_by(db, user_id, row)) && (played == Played::Not ==> !is_played_by(
                db,
                user_id,
                row,
            )),
{
    let id = BindView::Text(user_id);
    let q1 = say(give(say(q0, second), id), third);
    let c1 = Cond::Compare(of("bi"@, "ParentIndexNumber"@), Op::Ne, Expr::Number(0));
    let base = played_cond(user_id);
    let c2 = match played {
        Played::Only => base,
        Played::Not => Cond::Not(Box::new(base)),
    };
    lemma_flat_say(q0, second);
    lemma_flat_give(say(q0, second), id);
    lemma_flat_say(give(say(q0, second), id), third);
    lemma_data_texts(user_id, second, third, played);
    let tail = chars(second) + hole(id) + chars(third);
    assert(flat(q1) == flat(q0) + tail) by {
        broadcast use {lemma_said_in_turn, lemma_said_nothing};

    }
    assert(flat(q1) == flat(q0) + chars(" AND "@) + text_of(c1) + chars(" AND "@) + text_of(c2)) by {
        broadcast use {lemma_said_in_turn, lemma_said_nothing};

    }
    lemma_spells_two(lead, q0, cs0, q1, c1, c2);
    let out = cs0.push(c1).push(c2);
    assert forall|row: Row, db: Db| #[trigger]
        all_true(out, only(row), db) <==> all_true(cs0, only(row), db) && !(row(
            "ParentIndexNumber"@,
        ) is Null) && row("ParentIndexNumber"@) != Val::Int(0) && (played == Played::Only
            ==> is_played_by(db, user_id, row)) && (played == Played::Not ==> !is_played_by(
            db,
            user_id,
            row,
        )) by {
        let s = only(row);
        lemma_played_truth(user_id, row, db);
        assert(truth(c1, s, db) == compared(row("ParentIndexNumber"@), Op::Ne, Val::Int(0), db));
        assert(truth(Cond::Not(Box::new(base)), s, db) == negated(truth(base, s, db)));
    }
    out
}

proof fn read_virtual(lead: Lead, q: Sql, cs: Seq<Cond>) -> (out: Seq<Cond>)
    requires
        spells(lead, q, cs),
    ensures
        spells(lead, say(q, r#" AND bi."IsVirtualItem" = 0"#@), out),
        forall|row: Row, db: Db| #[trigger]
            all_true(out, only(row), db) <==> all_true(cs, only(row), db) && row("IsVirtualItem"@)
                == Val::Int(0),
{
    let c = Cond::Compare(of("bi"@, "IsVirtualItem"@), Op::Eq, Expr::Number(0));
    lemma_small_numbers();
    assert(chars(r#" AND bi."IsVirtualItem" = 0"#@) =~= chars(" AND "@) + text_of(c)) by {
        reveal(Said::spec_add);
        reveal_strlit(r#" AND bi."IsVirtualItem" = 0"#);
        reveal_strlit(" AND ");
        reveal_strlit("bi");
        reveal_strlit(".");
        reveal_strlit("\"");
        reveal_strlit("IsVirtualItem");
        reveal_strlit(" = ");
        reveal_strlit("0");
    }
    read_text(lead, q, cs, r#" AND bi."IsVirtualItem" = 0"#@, c)
}

proof fn read_keys(lead: Lead, q: Sql, cs: Seq<Cond>, keys: Seq<Seq<char>>) -> (out: Seq<Cond>)
    requires
        spells(lead, q, cs),
    ensures
        spells(
            lead,
            say(keys_sql(say(q, r#" AND bi."SeriesPresentationUniqueKey" IN ("#@), keys), ")"@),
            out,
        ),
        forall|row: Row, db: Db| #[trigger]
            all_true(out, only(row), db) <==> all_true(cs, only(row), db) && (row(
                "SeriesPresentationUniqueKey"@,
            ) matches Val::Text(key) && keys.contains(key)),
{
    let fourth = r#" AND bi."SeriesPresentationUniqueKey" IN ("#@;
    let e = of("bi"@, "SeriesPresentationUniqueKey"@);
    let c = key_cond(e, keys);
    let q4 = say(q, fourth);
    let q5 = keys_sql(q4, keys);
    let longer = say(q5, ")"@);
    lemma_flat_say(q, fourth);
    lemma_keys_text(q4, keys);
    lemma_flat_say(q5, ")"@);
    lemma_key_text(e, keys);
    assert(chars(fourth) =~= chars(" AND "@) + expr_text(e) + chars(" IN ("@)) by {
        reveal(Said::spec_add);
        reveal_strlit(r#" AND bi."SeriesPresentationUniqueKey" IN ("#);
        reveal_strlit(" AND ");
        reveal_strlit("bi");
        reveal_strlit(".");
        reveal_strlit("\"");
        reveal_strlit("SeriesPresentationUniqueKey");
        reveal_strlit(" IN (");
    }
    assert(flat(longer) == flat(q) + chars(" AND "@) + text_of(c)) by {
        broadcast use {lemma_said_in_turn, lemma_said_nothing};

    }
    lemma_spells_more(lead, q, cs, longer, c);
    assert forall|row: Row, db: Db| #[trigger]
        all_true(cs.push(c), only(row), db) <==> all_true(cs, only(row), db) && (row(
            "SeriesPresentationUniqueKey"@,
        ) matches Val::Text(key) && keys.contains(key)) by {
        lemma_key_truth(e, keys, only(row), db);
        assert(value_of(e, only(row), db) == row("SeriesPresentationUniqueKey"@));
    }
    cs.push(c)
}

pub(crate) proof fn lemma_spells_two(lead: Lead, q: Sql, cs: Seq<Cond>, longer: Sql, a: Cond, b: Cond)
    requires
        spells(lead, q, cs),
        flat(longer) == flat(q) + chars(" AND "@) + text_of(a) + chars(" AND "@) + text_of(b),
        reads_so(a),
        reads_so(b),
        !(a is Or),
        !(b is Or),
    ensures
        spells(lead, longer, cs.push(a).push(b)),
        forall|scope: Scope, db: Db| #[trigger]
            all_true(cs.push(a).push(b), scope, db) <==> all_true(cs, scope, db) && truth(
                a,
                scope,
                db,
            ) == Some(true) && truth(b, scope, db) == Some(true),
{
    let one = cs.push(a);
    let more = one.push(b);
    assert(one.drop_last() =~= cs);
    assert(more.drop_last() =~= one);
    let tail = chars(" AND "@) + text_of(a) + chars(" AND "@) + text_of(b);
    assert(flat(longer) == flat(q) + tail) by {
        broadcast use {lemma_said_in_turn, lemma_said_nothing};

    }
    assert(conds_text(one) == conds_text(cs) + chars(" AND "@) + text_of(a));
    assert(conds_text(more) == conds_text(one) + chars(" AND "@) + text_of(b));
    assert(conds_text(more) == conds_text(cs) + tail) by {
        broadcast use {lemma_said_in_turn, lemma_said_nothing};

    }
    lemma_said_in_turn(lead.before, flat(q), tail);
    lemma_said_in_turn(lead.head, conds_text(cs), tail);
    assert forall|scope: Scope, db: Db| #[trigger]
        all_true(more, scope, db) <==> all_true(cs, scope, db) && truth(a, scope, db) == Some(true)
            && truth(b, scope, db) == Some(true) by {
        if all_true(more, scope, db) {
            assert forall|i: int| 0 <= i < cs.len() implies truth(#[trigger] cs[i], scope, db)
                == Some(true) by {
                assert(more[i] == cs[i]);
            }
            assert(more[cs.len() as int] == a);
            assert(more[cs.len() as int + 1] == b);
        }
    }
}

proof fn lemma_data_texts(user_id: Seq<char>, second: Seq<char>, third: Seq<char>, played: Played)
    requires
        third == r#" AND ud."Played" = 1)"#@,
        played == Played::Only ==> second
            == r#" AND bi."ParentIndexNumber" <> 0 AND EXISTS (SELECT 1 FROM "UserData" ud WHERE ud."ItemId" = bi."Id" AND ud."UserId" = "#@,
        played == Played::Not ==> second
            == r#" AND bi."ParentIndexNumber" <> 0 AND NOT EXISTS (SELECT 1 FROM "UserData" ud WHERE ud."ItemId" = bi."Id" AND ud."UserId" = "#@,
    ensures
        ({
            let c1 = Cond::Compare(of("bi"@, "ParentIndexNumber"@), Op::Ne, Expr::Number(0));
            let base = played_cond(user_id);
            let c2 = match played {
                Played::Only => base,
                Played::Not => Cond::Not(Box::new(base)),
            };
            &&& chars(second) + hole(BindView::Text(user_id)) + chars(third) == chars(" AND "@)
                + text_of(c1) + chars(" AND "@) + text_of(c2)
            &&& reads_so(c2)
        }),
{
    lemma_small_numbers();
    let c1 = Cond::Compare(of("bi"@, "ParentIndexNumber"@), Op::Ne, Expr::Number(0));
    let base = played_cond(user_id);
    let inner = played_inner(user_id);
    let pair = Cond::And(Box::new(same_item()), Box::new(of_user(user_id)));
    let table = chars("EXISTS (SELECT 1 FROM "@) + crate::sql_meaning::from_text(user_data()) + chars(
        " WHERE "@,
    );
    assert(text_of(pair) == text_of(same_item()) + chars(" AND "@) + text_of(of_user(user_id)));
    assert(text_of(inner) == text_of(pair) + chars(" AND "@) + text_of(is_played()));
    assert(text_of(base) == table + text_of(inner) + chars(")"@));
    assert(reads_so(same_item()) && reads_so(of_user(user_id)) && reads_so(is_played()));
    assert(reads_so(pair));
    assert(reads_so(inner));
    assert(reads_so(base));
    assert(chars(third) =~= chars(" AND "@) + text_of(is_played()) + chars(")"@)) by {
        reveal(Said::spec_add);
        reveal_strlit(r#" AND ud."Played" = 1)"#);
        reveal_strlit(" AND ");
        reveal_strlit("ud");
        reveal_strlit(".");
        reveal_strlit("\"");
        reveal_strlit("Played");
        reveal_strlit(" = ");
        reveal_strlit("1");
        reveal_strlit(")");
    }
    match played {
        Played::Only => {
            assert(chars(second) =~= chars(" AND "@) + text_of(c1) + chars(" AND "@) + (chars(
                "EXISTS (SELECT 1 FROM "@,
            ) + crate::sql_meaning::from_text(user_data()) + chars(" WHERE "@)) + text_of(same_item())
                + chars(" AND "@) + column_text("ud"@, "UserId"@) + chars(" = "@)) by {
                reveal(Said::spec_add);
                reveal_strlit(r#" AND bi."ParentIndexNumber" <> 0 AND EXISTS (SELECT 1 FROM "UserData" ud WHERE ud."ItemId" = bi."Id" AND ud."UserId" = "#);
                reveal_strlit(" AND ");
                reveal_strlit("bi");
                reveal_strlit(".");
                reveal_strlit("\"");
                reveal_strlit("ParentIndexNumber");
                reveal_strlit(" <> ");
                reveal_strlit("0");
                reveal_strlit("EXISTS (SELECT 1 FROM ");
                reveal_strlit("UserData");
                reveal_strlit(" ");
                reveal_strlit("ud");
                reveal_strlit(" WHERE ");
                reveal_strlit("ItemId");
                reveal_strlit(" = ");
                reveal_strlit("Id");
                reveal_strlit("UserId");
            }
            assert(chars(second) + hole(BindView::Text(user_id)) + chars(third) == chars(" AND "@)
                + text_of(c1) + chars(" AND "@) + text_of(base)) by {
                broadcast use {lemma_said_in_turn, lemma_said_nothing};

            }
        },
        Played::Not => {
            let c2 = Cond::Not(Box::new(base));
            assert(text_of(c2) == chars("NOT "@) + text_of(base));
            assert(reads_so(c2));
            assert(chars(second) =~= chars(" AND "@) + text_of(c1) + chars(" AND "@) + chars("NOT "@) + (
            chars("EXISTS (SELECT 1 FROM "@) + crate::sql_meaning::from_text(user_data()) + chars(
                " WHERE "@,
            )) + text_of(same_item()) + chars(" AND "@) + column_text("ud"@, "UserId"@) + chars(
                " = "@,
            )) by {
                reveal(Said::spec_add);
                reveal_strlit(r#" AND bi."ParentIndexNumber" <> 0 AND NOT EXISTS (SELECT 1 FROM "UserData" ud WHERE ud."ItemId" = bi."Id" AND ud."UserId" = "#);
                reveal_strlit(" AND ");
                reveal_strlit("bi");
                reveal_strlit(".");
                reveal_strlit("\"");
                reveal_strlit("ParentIndexNumber");
                reveal_strlit(" <> ");
                reveal_strlit("0");
                reveal_strlit("NOT ");
                reveal_strlit("EXISTS (SELECT 1 FROM ");
                reveal_strlit("UserData");
                reveal_strlit(" ");
                reveal_strlit("ud");
                reveal_strlit(" WHERE ");
                reveal_strlit("ItemId");
                reveal_strlit(" = ");
                reveal_strlit("Id");
                reveal_strlit("UserId");
            }
            assert(chars(second) + hole(BindView::Text(user_id)) + chars(third) == chars(" AND "@)
                + text_of(c1) + chars(" AND "@) + text_of(c2)) by {
                broadcast use {lemma_said_in_turn, lemma_said_nothing};

            }
        },
    }
}

/// What other users have played changes nothing of which episodes are asked for: two
/// databases with the same data of the user ask for the same.
pub proof fn law_other_users_do_not_matter(
    row: Row,
    one: Db,
    other: Db,
    episode_type: Seq<char>,
    user_id: Seq<char>,
    keys: Seq<Seq<char>>,
    played: Played,
    real_only: bool,
)
    requires
        forall|data: Row|
            data("UserId"@) == Val::Text(user_id) ==> (#[trigger] (one.tables)("UserData"@).contains(
                data,
            ) <==> (other.tables)("UserData"@).contains(data)),
    ensures
        is_asked_for(row, one, episode_type, user_id, keys, played, real_only) <==> is_asked_for(
            row,
            other,
            episode_type,
            user_id,
            keys,
            played,
            real_only,
        ),
{
    let a = (one.tables)("UserData"@);
    let b = (other.tables)("UserData"@);
    if is_played_by(one, user_id, row) {
        let i = choose|i: int|
            0 <= i < a.len() && {
                let data = #[trigger] a[i];
                &&& !(row("Id"@) is Null)
                &&& data("ItemId"@) == row("Id"@)
                &&& data("UserId"@) == Val::Text(user_id)
                &&& data("Played"@) == Val::Int(1)
            };
        assert(a.contains(a[i]));
        assert(b.contains(a[i]));
        let j = choose|j: int| 0 <= j < b.len() && b[j] == a[i];
        assert(b[j]("Played"@) == Val::Int(1));
    }
    if is_played_by(other, user_id, row) {
        let i = choose|i: int|
            0 <= i < b.len() && {
                let data = #[trigger] b[i];
                &&& !(row("Id"@) is Null)
                &&& data("ItemId"@) == row("Id"@)
                &&& data("UserId"@) == Val::Text(user_id)
                &&& data("Played"@) == Val::Int(1)
            };
        assert(b.contains(b[i]));
        assert(a.contains(b[i]));
        let j = choose|j: int| 0 <= j < a.len() && a[j] == b[i];
        assert(a[j]("Played"@) == Val::Int(1));
    }
}


} // verus!
