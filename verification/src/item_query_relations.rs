//! What the statement for a filter asks of what other tables say of an item.
use vstd::prelude::*;

use crate::guid::{db_text, Guid};
use crate::item_query_kinds::{is_one_of, lemma_one_of, of, read_ids, same};
use crate::item_query_meaning::{col, is_among, lemma_flag_cases, lemma_small_numbers};
use crate::items_query::InternalItemsQuery;
use crate::model::ItemValueType;
use crate::number_text::decimal;
use crate::sql::{give, give_all, guid_values, say, say_in, text_values, type_values, BindView, Sql};
use crate::sql_meaning::{
    all_true, both, chars, column_text, compared, expr_text, flat, from_text, given,
    lemma_flat_give, lemma_flat_give_all, lemma_flat_say, lemma_said_in_turn, lemma_said_nothing,
    lemma_spells_more, name_of, negated, nothing, only, op_text, reads_so, spells, table_of,
    text_of, truth, value_of, with_row, Cond, Db, Expr, From, Lead, Op, Row, Said, Scope, Val,
};
use crate::text::texts;
use crate::text_util::clean_value;
use crate::translate_query::{
    all_exclude_tags, all_tags, clean_values, item_value_exists, item_value_predicates,
    item_values_of, referenced_item, user_data_exists, user_data_predicates,
};

verus! {

// ---------------------------------------------------------------------------
// Rows of other tables
// ---------------------------------------------------------------------------
/// Whether some row of a table is such.
pub open spec fn some_row(db: Db, table: Seq<char>, p: spec_fn(Row) -> bool) -> bool {
    exists|i: int| 0 <= i < (db.tables)(table).len() && p(#[trigger] (db.tables)(table)[i])
}

/// Whether some row of a table and some of another are such.
pub open spec fn some_pair(
    db: Db,
    one: Seq<char>,
    other: Seq<char>,
    p: spec_fn(Row, Row) -> bool,
) -> bool {
    exists|i: int, j: int|
        0 <= i < (db.tables)(one).len() && 0 <= j < (db.tables)(other).len() && p(
            #[trigger] (db.tables)(one)[i],
            #[trigger] (db.tables)(other)[j],
        )
}

/// Whether a value is known and the same as another.
pub open spec fn is_same(a: Val, b: Val) -> bool {
    !(b is Null) && a == b
}

pub(crate) open spec fn exists_words(want: bool) -> Seq<char> {
    if want {
        " AND EXISTS "@
    } else {
        " AND NOT EXISTS "@
    }
}

proof fn lemma_exists_words(c: Cond, want: bool)
    requires
        c is Exists || c is ExistsJoined,
    ensures
        ({
            let w = if want {
                c
            } else {
                Cond::Not(Box::new(c))
            };
            &&& text_of(w) == (if want {
                nothing()
            } else {
                chars("NOT "@)
            }) + text_of(c)
            &&& reads_so(c) ==> reads_so(w)
            &&& chars(exists_words(want)) + chars("(SELECT 1 FROM "@) == chars(" AND "@) + (if want {
                nothing()
            } else {
                chars("NOT "@)
            }) + chars("EXISTS (SELECT 1 FROM "@)
        }),
{
    assert(nothing() + text_of(c) =~= text_of(c)) by {
        reveal(Said::spec_add);
    }
    assert(chars(" AND EXISTS "@) + chars("(SELECT 1 FROM "@) =~= chars(" AND "@) + nothing() + chars(
        "EXISTS (SELECT 1 FROM "@,
    )) by {
        reveal(Said::spec_add);
        reveal_strlit(" AND EXISTS ");
        reveal_strlit("(SELECT 1 FROM ");
        reveal_strlit(" AND ");
        reveal_strlit("EXISTS (SELECT 1 FROM ");
    }
    assert(chars(" AND NOT EXISTS "@) + chars("(SELECT 1 FROM "@) =~= chars(" AND "@) + chars("NOT "@)
        + chars("EXISTS (SELECT 1 FROM "@)) by {
        reveal(Said::spec_add);
        reveal_strlit(" AND NOT EXISTS ");
        reveal_strlit("(SELECT 1 FROM ");
        reveal_strlit(" AND ");
        reveal_strlit("NOT ");
        reveal_strlit("EXISTS (SELECT 1 FROM ");
    }
    let n = Cond::Not(Box::new(c));
    assert(text_of(n) == chars("NOT "@) + text_of(c));
    assert(reads_so(c) ==> reads_so(n));
}

/// Whether some row meets a condition, or none does.
pub(crate) proof fn read_exists(
    lead: Lead,
    q: Sql,
    cs: Seq<Cond>,
    longer: Sql,
    want: bool,
    from: From,
    inner: Cond,
    p: spec_fn(Row, Row, Db) -> bool,
) -> (out: Seq<Cond>)
    requires
        spells(lead, q, cs),
        reads_so(inner),
        flat(longer) == flat(q) + (chars(exists_words(want)) + chars("(SELECT 1 FROM "@)) + (from_text(
            from,
        ) + chars(" WHERE "@) + text_of(inner) + chars(")"@)),
        forall|row: Row, r: Row, db: Db| #[trigger]
            p(row, r, db) <==> truth(inner, with_row(only(row), name_of(from), r), db) == Some(true),
    ensures
        spells(lead, longer, out),
        forall|row: Row, db: Db| #[trigger]
            all_true(out, only(row), db) <==> all_true(cs, only(row), db) && want == some_row(
                db,
                table_of(from),
                |r: Row| p(row, r, db),
            ),
{
    let e = Cond::Exists(from, Box::new(inner));
    let c = if want {
        e
    } else {
        Cond::Not(Box::new(e))
    };
    lemma_exists_words(e, want);
    assert(reads_so(e));
    let rest = from_text(from) + chars(" WHERE "@) + text_of(inner) + chars(")"@);
    assert(text_of(e) == chars("EXISTS (SELECT 1 FROM "@) + rest) by {
        broadcast use {lemma_said_in_turn, lemma_said_nothing};

    }
    assert(flat(longer) == flat(q) + chars(" AND "@) + text_of(c)) by {
        broadcast use {lemma_said_in_turn, lemma_said_nothing};

    }
    lemma_spells_more(lead, q, cs, longer, c);
    assert forall|row: Row, db: Db| #[trigger]
        all_true(cs.push(c), only(row), db) <==> all_true(cs, only(row), db) && want == some_row(
            db,
            table_of(from),
            |r: Row| p(row, r, db),
        ) by {
        let s = only(row);
        let rows = (db.tables)(table_of(from));
        let f = |r: Row| p(row, r, db);
        if some_row(db, table_of(from), f) {
            let i = choose|i: int| 0 <= i < rows.len() && f(#[trigger] rows[i]);
            assert(p(row, rows[i], db));
            assert(truth(e, s, db) == Some(true));
        }
        if truth(e, s, db) == Some(true) {
            let i = choose|i: int|
                0 <= i < rows.len() && truth(
                    inner,
                    with_row(s, name_of(from), #[trigger] rows[i]),
                    db,
                ) == Some(true);
            assert(p(row, rows[i], db));
            assert(f(rows[i]));
        }
        assert(truth(e, s, db) is Some);
        assert(truth(Cond::Not(Box::new(e)), s, db) == negated(truth(e, s, db)));
    }
    cs.push(c)
}

/// Whether some row, and one of another table that goes with it, meet a condition, or none
/// do.
pub(crate) proof fn read_pairs(
    lead: Lead,
    q: Sql,
    cs: Seq<Cond>,
    longer: Sql,
    want: bool,
    from: From,
    other: From,
    on: Cond,
    inner: Cond,
    p: spec_fn(Row, Row, Row, Db) -> bool,
) -> (out: Seq<Cond>)
    requires
        spells(lead, q, cs),
        reads_so(inner),
        reads_so(on),
        !(on is Or),
        !(on is And),
        flat(longer) == flat(q) + (chars(exists_words(want)) + chars("(SELECT 1 FROM "@)) + (from_text(
            from,
        ) + chars(" JOIN "@) + from_text(other) + chars(" ON "@) + text_of(on) + chars(" WHERE "@)
            + text_of(inner) + chars(")"@)),
        forall|row: Row, r: Row, o: Row, db: Db| #[trigger]
            p(row, r, o, db) <==> truth(
                on,
                with_row(with_row(only(row), name_of(from), r), name_of(other), o),
                db,
            ) == Some(true) && truth(
                inner,
                with_row(with_row(only(row), name_of(from), r), name_of(other), o),
                db,
            ) == Some(true),
    ensures
        spells(lead, longer, out),
        forall|row: Row, db: Db| #[trigger]
            all_true(out, only(row), db) <==> all_true(cs, only(row), db) && want == some_pair(
                db,
                table_of(from),
                table_of(other),
                |r: Row, o: Row| p(row, r, o, db),
            ),
{
    let e = Cond::ExistsJoined(from, other, Box::new(on), Box::new(inner));
    let c = if want {
        e
    } else {
        Cond::Not(Box::new(e))
    };
    lemma_exists_words(e, want);
    assert(reads_so(e));
    let rest = from_text(from) + chars(" JOIN "@) + from_text(other) + chars(" ON "@) + text_of(on)
        + chars(" WHERE "@) + text_of(inner) + chars(")"@);
    assert(text_of(e) == chars("EXISTS (SELECT 1 FROM "@) + rest) by {
        broadcast use {lemma_said_in_turn, lemma_said_nothing};

    }
    assert(flat(longer) == flat(q) + chars(" AND "@) + text_of(c)) by {
        broadcast use {lemma_said_in_turn, lemma_said_nothing};

    }
    lemma_spells_more(lead, q, cs, longer, c);
    assert forall|row: Row, db: Db| #[trigger]
        all_true(cs.push(c), only(row), db) <==> all_true(cs, only(row), db) && want == some_pair(
            db,
            table_of(from),
            table_of(other),
            |r: Row, o: Row| p(row, r, o, db),
        ) by {
        let s = only(row);
        let a = (db.tables)(table_of(from));
        let b = (db.tables)(table_of(other));
        let f = |r: Row, o: Row| p(row, r, o, db);
        if some_pair(db, table_of(from), table_of(other), f) {
            let (i, j) = choose|i: int, j: int|
                0 <= i < a.len() && 0 <= j < b.len() && f(#[trigger] a[i], #[trigger] b[j]);
            assert(p(row, a[i], b[j], db));
            assert(truth(e, s, db) == Some(true));
        }
        if truth(e, s, db) == Some(true) {
            let (i, j) = choose|i: int, j: int|
                0 <= i < a.len() && 0 <= j < b.len() && {
                    let t = with_row(
                        with_row(s, name_of(from), #[trigger] a[i]),
                        name_of(other),
                        #[trigger] b[j],
                    );
                    truth(on, t, db) == Some(true) && truth(inner, t, db) == Some(true)
                };
            assert(p(row, a[i], b[j], db));
            assert(f(a[i], b[j]));
        }
        assert(truth(e, s, db) is Some);
        assert(truth(Cond::Not(Box::new(e)), s, db) == negated(truth(e, s, db)));
    }
    cs.push(c)
}

pub(crate) proof fn lemma_row_names()
    ensures
        "ud"@ != "bi"@,
        "p"@ != "bi"@,
        "a"@ != "bi"@,
        "pm"@ != "bi"@,
        "pp"@ != "bi"@,
        "pp"@ != "pm"@,
        "iv"@ != "bi"@,
        "ivm"@ != "bi"@,
        "ivm"@ != "iv"@,
        "ref"@ != "iv"@,
{
    reveal(Said::spec_add);
    reveal_strlit("ud");
    reveal_strlit("bi");
    reveal_strlit("p");
    reveal_strlit("a");
    reveal_strlit("pm");
    reveal_strlit("pp");
    reveal_strlit("iv");
    reveal_strlit("ivm");
    reveal_strlit("ref");
    assert("ud"@[0] != "bi"@[0]);
    assert("pm"@[0] != "bi"@[0]);
    assert("pp"@[0] != "bi"@[0]);
    assert("pp"@[1] != "pm"@[1]);
    assert("iv"@[0] != "bi"@[0]);
    assert("ivm"@.len() != "iv"@.len());
    assert("ivm"@.len() != "bi"@.len());
    assert("ref"@.len() != "iv"@.len());
    assert("p"@.len() != "bi"@.len());
}

// ---------------------------------------------------------------------------
// The user's data
// ---------------------------------------------------------------------------
/// Whether a user's own data of an item are such.
pub open spec fn user_says(db: Db, row: Row, user: Guid, p: spec_fn(Row) -> bool) -> bool {
    some_row(
        db,
        "UserData"@,
        |ud: Row|
            is_same(ud("ItemId"@), row("Id"@)) && ud("UserId"@) == Val::Text(db_text(user.value))
                && p(ud),
    )
}

/// Whether a user's own data say that an item is a favourite.
pub open spec fn is_favourite_of(db: Db, row: Row, user: Guid) -> bool {
    user_says(db, row, user, |ud: Row| ud("IsFavorite"@) == Val::Int(1))
}

/// Whether what the user's own data say of an item is what a filter asks for.
pub open spec fn is_rated_by_user(f: InternalItemsQuery, row: Row, db: Db) -> bool {
    f.user_id matches Some(user) ==> {
        &&& f.is_favorite matches Some(b) ==> b == is_favourite_of(db, row, user)
        &&& f.is_favorite_or_liked matches Some(b) ==> b == is_favourite_of(db, row, user)
        &&& f.is_liked matches Some(b) ==> b == user_says(
            db,
            row,
            user,
            |ud: Row| ud("Rating"@) matches Val::Int(n) && n >= 7,
        )
        &&& f.is_played matches Some(b) ==> b == user_says(
            db,
            row,
            user,
            |ud: Row| ud("Played"@) == Val::Int(1),
        )
        &&& f.is_resumable matches Some(b) ==> b == user_says(
            db,
            row,
            user,
            |ud: Row| ud("PlaybackPositionTicks"@) matches Val::Int(n) && n > 0,
        )
    }
}

proof fn read_user_data(
    lead: Lead,
    q: Sql,
    cs: Seq<Cond>,
    user: Guid,
    condition: Seq<char>,
    want: Option<bool>,
    name: Seq<char>,
    op: Op,
    n: int,
) -> (out: Seq<Cond>)
    requires
        spells(lead, q, cs),
        chars(condition) == chars(" AND "@) + column_text("ud"@, name) + chars(op_text(op)) + chars(
            decimal(n),
        ) + chars(")"@),
    ensures
        spells(lead, user_data_exists(q, user, condition, want), out),
        forall|row: Row, db: Db| #[trigger]
            all_true(out, only(row), db) <==> all_true(cs, only(row), db) && (want matches Some(b)
                ==> b == user_says(
                db,
                row,
                user,
                |ud: Row| compared(ud(name), op, Val::Int(n), db) == Some(true),
            )),
{
    match want {
        Some(w) => {
            let t = r#"(SELECT 1 FROM "UserData" ud WHERE ud."ItemId" = bi."Id" AND ud."UserId" = "#@;
            let id = BindView::Text(db_text(user.value));
            let words = exists_words(w);
            let a = say(q, words);
            let b = say(a, t);
            let d = give(b, id);
            let longer = say(d, condition);
            assert(longer == user_data_exists(q, user, condition, want));
            lemma_flat_say(q, words);
            lemma_flat_say(a, t);
            lemma_flat_give(b, id);
            lemma_flat_say(d, condition);
            let from = From::Named { table: "UserData"@, name: "ud"@ };
            let x = same(of("ud"@, "ItemId"@), of("bi"@, "Id"@));
            let y = same(of("ud"@, "UserId"@), Expr::Given(id));
            let z = Cond::Compare(of("ud"@, name), op, Expr::Number(n));
            let xy = Cond::And(Box::new(x), Box::new(y));
            let inner = Cond::And(Box::new(xy), Box::new(z));
            assert(chars(t) =~= chars("(SELECT 1 FROM "@) + from_text(from) + chars(" WHERE "@) + text_of(
                x,
            ) + chars(" AND "@) + column_text("ud"@, "UserId"@) + chars(" = "@)) by {
                reveal(Said::spec_add);
                reveal_strlit(r#"(SELECT 1 FROM "UserData" ud WHERE ud."ItemId" = bi."Id" AND ud."UserId" = "#);
                reveal_strlit("(SELECT 1 FROM ");
                reveal_strlit("\"");
                reveal_strlit("UserData");
                reveal_strlit(" ");
                reveal_strlit("ud");
                reveal_strlit(" WHERE ");
                reveal_strlit(".");
                reveal_strlit("ItemId");
                reveal_strlit(" = ");
                reveal_strlit("bi");
                reveal_strlit("Id");
                reveal_strlit(" AND ");
                reveal_strlit("UserId");
            }
            assert(text_of(z) == column_text("ud"@, name) + chars(op_text(op)) + chars(decimal(n)));
            assert(text_of(xy) == text_of(x) + chars(" AND "@) + text_of(y));
            assert(text_of(inner) == text_of(xy) + chars(" AND "@) + text_of(z));
            assert(reads_so(x) && reads_so(y) && reads_so(z));
            assert(reads_so(xy));
            assert(reads_so(inner));
            assert(flat(longer) == flat(q) + (chars(words) + chars("(SELECT 1 FROM "@)) + (from_text(
                from,
            ) + chars(" WHERE "@) + text_of(inner) + chars(")"@))) by {
                broadcast use {lemma_said_in_turn, lemma_said_nothing};

            }
            let p = |row: Row, r: Row, db: Db|
                is_same(r("ItemId"@), row("Id"@)) && r("UserId"@) == Val::Text(db_text(user.value))
                    && compared(r(name), op, Val::Int(n), db) == Some(true);
            assert forall|row: Row, r: Row, db: Db| #[trigger]
                p(row, r, db) <==> truth(inner, with_row(only(row), name_of(from), r), db) == Some(
                    true,
                ) by {
                lemma_row_names();
                let s = with_row(only(row), "ud"@, r);
                assert(s("ud"@) == r && s("bi"@) == row);
                assert(truth(x, s, db) == compared(r("ItemId"@), Op::Eq, row("Id"@), db));
                assert(truth(y, s, db) == compared(
                    r("UserId"@),
                    Op::Eq,
                    Val::Text(db_text(user.value)),
                    db,
                ));
                assert(truth(z, s, db) == compared(r(name), op, Val::Int(n), db));
                assert(truth(xy, s, db) == both(truth(x, s, db), truth(y, s, db)));
                assert(truth(inner, s, db) == both(truth(xy, s, db), truth(z, s, db)));
            }
            let out = read_exists(lead, q, cs, longer, w, from, inner, p);
            assert forall|row: Row, db: Db| #[trigger]
                all_true(out, only(row), db) <==> all_true(cs, only(row), db) && (want matches Some(b)
                    ==> b == user_says(
                    db,
                    row,
                    user,
                    |ud: Row| compared(ud(name), op, Val::Int(n), db) == Some(true),
                )) by {
                let k = |ud: Row| compared(ud(name), op, Val::Int(n), db) == Some(true);
                let f = |r: Row| p(row, r, db);
                let g = |ud: Row|
                    is_same(ud("ItemId"@), row("Id"@)) && ud("UserId"@) == Val::Text(
                        db_text(user.value),
                    ) && k(ud);
                lemma_same_rows(db, "UserData"@, f, g);
            }
            out
        },
        None => cs,
    }
}

pub(crate) proof fn lemma_same_rows(db: Db, table: Seq<char>, f: spec_fn(Row) -> bool, g: spec_fn(Row) -> bool)
    requires
        forall|r: Row| #[trigger] f(r) <==> g(r),
    ensures
        some_row(db, table, f) <==> some_row(db, table, g),
{
    let rows = (db.tables)(table);
    if some_row(db, table, f) {
        let i = choose|i: int| 0 <= i < rows.len() && f(#[trigger] rows[i]);
        assert(g(rows[i]));
    }
    if some_row(db, table, g) {
        let i = choose|i: int| 0 <= i < rows.len() && g(#[trigger] rows[i]);
        assert(f(rows[i]));
    }
}

proof fn lemma_user_says(
    db: Db,
    row: Row,
    user: Guid,
    f: spec_fn(Row) -> bool,
    g: spec_fn(Row) -> bool,
)
    requires
        forall|r: Row| #[trigger] f(r) <==> g(r),
    ensures
        user_says(db, row, user, f) <==> user_says(db, row, user, g),
{
    lemma_same_rows(
        db,
        "UserData"@,
        |ud: Row|
            is_same(ud("ItemId"@), row("Id"@)) && ud("UserId"@) == Val::Text(db_text(user.value))
                && f(ud),
        |ud: Row|
            is_same(ud("ItemId"@), row("Id"@)) && ud("UserId"@) == Val::Text(db_text(user.value))
                && g(ud),
    );
}

pub(crate) proof fn read_user(lead: Lead, q: Sql, cs: Seq<Cond>, f: InternalItemsQuery) -> (out: Seq<Cond>)
    requires
        spells(lead, q, cs),
    ensures
        spells(lead, user_data_predicates(q, f), out),
        forall|row: Row, db: Db| #[trigger]
            all_true(out, only(row), db) <==> all_true(cs, only(row), db) && is_rated_by_user(
                f,
                row,
                db,
            ),
{
    match f.user_id {
        Some(user) => {
            lemma_small_numbers();
            let t1 = r#" AND ud."IsFavorite" = 1)"#@;
            let t2 = r#" AND ud."Rating" >= 7)"#@;
            let t3 = r#" AND ud."Played" = 1)"#@;
            let t4 = r#" AND ud."PlaybackPositionTicks" > 0)"#@;
            assert(chars(t1) =~= chars(" AND "@) + column_text("ud"@, "IsFavorite"@) + chars(" = "@)
                + chars("1"@) + chars(")"@)) by {
                reveal(Said::spec_add);
                reveal_strlit(r#" AND ud."IsFavorite" = 1)"#);
                reveal_strlit(" AND ");
                reveal_strlit("ud");
                reveal_strlit(".");
                reveal_strlit("\"");
                reveal_strlit("IsFavorite");
                reveal_strlit(" = ");
                reveal_strlit("1");
                reveal_strlit(")");
            }
            assert(chars(t2) =~= chars(" AND "@) + column_text("ud"@, "Rating"@) + chars(" >= "@)
                + chars("7"@) + chars(")"@)) by {
                reveal(Said::spec_add);
                reveal_strlit(r#" AND ud."Rating" >= 7)"#);
                reveal_strlit(" AND ");
                reveal_strlit("ud");
                reveal_strlit(".");
                reveal_strlit("\"");
                reveal_strlit("Rating");
                reveal_strlit(" >= ");
                reveal_strlit("7");
                reveal_strlit(")");
            }
            assert(chars(t3) =~= chars(" AND "@) + column_text("ud"@, "Played"@) + chars(" = "@) + chars(
                "1"@,
            ) + chars(")"@)) by {
                reveal(Said::spec_add);
                reveal_strlit(r#" AND ud."Played" = 1)"#);
                reveal_strlit(" AND ");
                reveal_strlit("ud");
                reveal_strlit(".");
                reveal_strlit("\"");
                reveal_strlit("Played");
                reveal_strlit(" = ");
                reveal_strlit("1");
                reveal_strlit(")");
            }
            assert(chars(t4) =~= chars(" AND "@) + column_text("ud"@, "PlaybackPositionTicks"@) + chars(
                " > "@,
            ) + chars("0"@) + chars(")"@)) by {
                reveal(Said::spec_add);
                reveal_strlit(r#" AND ud."PlaybackPositionTicks" > 0)"#);
                reveal_strlit(" AND ");
                reveal_strlit("ud");
                reveal_strlit(".");
                reveal_strlit("\"");
                reveal_strlit("PlaybackPositionTicks");
                reveal_strlit(" > ");
                reveal_strlit("0");
                reveal_strlit(")");
            }
            let q1 = user_data_exists(q, user, t1, f.is_favorite);
            let c1 = read_user_data(lead, q, cs, user, t1, f.is_favorite, "IsFavorite"@, Op::Eq, 1);
            let q2 = user_data_exists(q1, user, t1, f.is_favorite_or_liked);
            let c2 = read_user_data(
                lead,
                q1,
                c1,
                user,
                t1,
                f.is_favorite_or_liked,
                "IsFavorite"@,
                Op::Eq,
                1,
            );
            let q3 = user_data_exists(q2, user, t2, f.is_liked);
            let c3 = read_user_data(lead, q2, c2, user, t2, f.is_liked, "Rating"@, Op::Ge, 7);
            let q4 = user_data_exists(q3, user, t3, f.is_played);
            let c4 = read_user_data(lead, q3, c3, user, t3, f.is_played, "Played"@, Op::Eq, 1);
            let out = read_user_data(
                lead,
                q4,
                c4,
                user,
                t4,
                f.is_resumable,
                "PlaybackPositionTicks"@,
                Op::Gt,
                0,
            );
            assert forall|row: Row, db: Db| #[trigger]
                all_true(out, only(row), db) <==> all_true(cs, only(row), db) && is_rated_by_user(
                    f,
                    row,
                    db,
                ) by {
                lemma_user_says(
                    db,
                    row,
                    user,
                    |ud: Row| compared(ud("IsFavorite"@), Op::Eq, Val::Int(1), db) == Some(true),
                    |ud: Row| ud("IsFavorite"@) == Val::Int(1),
                );
                lemma_user_says(
                    db,
                    row,
                    user,
                    |ud: Row| compared(ud("Rating"@), Op::Ge, Val::Int(7), db) == Some(true),
                    |ud: Row| ud("Rating"@) matches Val::Int(n) && n >= 7,
                );
                lemma_user_says(
                    db,
                    row,
                    user,
                    |ud: Row| compared(ud("Played"@), Op::Eq, Val::Int(1), db) == Some(true),
                    |ud: Row| ud("Played"@) == Val::Int(1),
                );
                lemma_user_says(
                    db,
                    row,
                    user,
                    |ud: Row|
                        compared(ud("PlaybackPositionTicks"@), Op::Gt, Val::Int(0), db) == Some(true),
                    |ud: Row| ud("PlaybackPositionTicks"@) matches Val::Int(n) && n > 0,
                );
            }
            out
        },
        None => cs,
    }
}

// ---------------------------------------------------------------------------
// Item values
// ---------------------------------------------------------------------------
/// Whether an item has a value of such a type that is such.
pub open spec fn has_value(
    db: Db,
    row: Row,
    of_type: spec_fn(Val) -> bool,
    is_value: spec_fn(Val) -> bool,
) -> bool {
    some_pair(
        db,
        "ItemValuesMap"@,
        "ItemValues"@,
        |ivm: Row, iv: Row|
            is_same(iv("ItemValueId"@), ivm("ItemValueId"@)) && is_same(ivm("ItemId"@), row("Id"@))
                && of_type(iv("Type"@)) && is_value(iv("CleanValue"@)),
    )
}

/// Whether a column holds the number of a type of item values.
pub open spec fn is_type(v: Val, t: ItemValueType, db: Db) -> bool {
    v == Val::Int((db.type_number)(t))
}

/// Whether a column holds one of some names in its clean form.
pub open spec fn is_clean_one_of(v: Val, names: Seq<Seq<char>>) -> bool {
    exists|i: int| 0 <= i < names.len() && v == Val::Text(clean_value(#[trigger] names[i]))
}

/// Whether a column holds the clean name of one of some items.
pub open spec fn names_one_of(v: Val, ids: Seq<Guid>, db: Db) -> bool {
    some_row(db, "BaseItems"@, |r: Row| is_one_of(r("Id"@), ids) && is_same(r("CleanName"@), v))
}

/// Whether a tag is one that a filter asks for.
pub open spec fn is_wanted_tag(f: InternalItemsQuery, t: Seq<char>) -> bool {
    ||| texts(f.tags@).contains(t)
    ||| t == "Sports"@ && f.is_sports == Some(true)
    ||| t == "News"@ && f.is_news == Some(true)
    ||| t == "Kids"@ && f.is_kids == Some(true)
}

/// Whether a tag is one that a filter rules out.
pub open spec fn is_unwanted_tag(f: InternalItemsQuery, t: Seq<char>) -> bool {
    ||| texts(f.exclude_tags@).contains(t)
    ||| t == "Sports"@ && f.is_sports == Some(false)
    ||| t == "News"@ && f.is_news == Some(false)
    ||| t == "Kids"@ && f.is_kids == Some(false)
}

/// Whether a column holds the clean form of a tag that is such.
pub open spec fn is_clean_tag(v: Val, p: spec_fn(Seq<char>) -> bool) -> bool {
    exists|t: Seq<char>| #[trigger] p(t) && v == Val::Text(clean_value(t))
}

/// Whether an item's genres, studios, artists and tags are those that a filter asks for.
pub open spec fn is_valued(f: InternalItemsQuery, row: Row, db: Db) -> bool {
    let genre = |t: Val| is_type(t, ItemValueType::Genre, db);
    let studio = |t: Val| is_type(t, ItemValueType::Studios, db);
    let album_artist = |t: Val| is_type(t, ItemValueType::AlbumArtist, db);
    let artist = |t: Val|
        is_type(t, ItemValueType::Artist, db) || is_type(t, ItemValueType::AlbumArtist, db);
    let tag = |t: Val| is_type(t, ItemValueType::Tags, db);
    &&& f.genres@.len() > 0 ==> has_value(
        db,
        row,
        genre,
        |v: Val| is_clean_one_of(v, texts(f.genres@)),
    )
    &&& f.genre_ids@.len() > 0 ==> has_value(
        db,
        row,
        genre,
        |v: Val| names_one_of(v, f.genre_ids@, db),
    )
    &&& f.studio_ids@.len() > 0 ==> has_value(
        db,
        row,
        studio,
        |v: Val| names_one_of(v, f.studio_ids@, db),
    )
    &&& f.artist_ids@.len() > 0 ==> has_value(
        db,
        row,
        artist,
        |v: Val| names_one_of(v, f.artist_ids@, db),
    )
    &&& f.album_artist_ids@.len() > 0 ==> has_value(
        db,
        row,
        album_artist,
        |v: Val| names_one_of(v, f.album_artist_ids@, db),
    )
    &&& f.exclude_artist_ids@.len() > 0 ==> !has_value(
        db,
        row,
        artist,
        |v: Val| names_one_of(v, f.exclude_artist_ids@, db),
    )
    &&& f.album_ids@.len() > 0 ==> is_one_of(row("ParentId"@), f.album_ids@)
    &&& (exists|t: Seq<char>| is_wanted_tag(f, t)) ==> has_value(
        db,
        row,
        tag,
        |v: Val| is_clean_tag(v, |t: Seq<char>| is_wanted_tag(f, t)),
    )
    &&& (exists|t: Seq<char>| is_unwanted_tag(f, t)) ==> !has_value(
        db,
        row,
        tag,
        |v: Val| is_clean_tag(v, |t: Seq<char>| is_unwanted_tag(f, t)),
    )
}

proof fn lemma_same_values(
    db: Db,
    row: Row,
    s: spec_fn(Val) -> bool,
    t: spec_fn(Val) -> bool,
    f: spec_fn(Val) -> bool,
    g: spec_fn(Val) -> bool,
)
    requires
        forall|v: Val| #[trigger] s(v) <==> t(v),
        forall|v: Val| #[trigger] f(v) <==> g(v),
    ensures
        has_value(db, row, s, f) <==> has_value(db, row, t, g),
{
    let a = (db.tables)("ItemValuesMap"@);
    let b = (db.tables)("ItemValues"@);
    if has_value(db, row, s, f) {
        let (i, j) = choose|i: int, j: int|
            0 <= i < a.len() && 0 <= j < b.len() && is_same(
                (#[trigger] b[j])("ItemValueId"@),
                (#[trigger] a[i])("ItemValueId"@),
            ) && is_same(a[i]("ItemId"@), row("Id"@)) && s(b[j]("Type"@)) && f(b[j]("CleanValue"@));
        assert(t(b[j]("Type"@)) && g(b[j]("CleanValue"@)));
    }
    if has_value(db, row, t, g) {
        let (i, j) = choose|i: int, j: int|
            0 <= i < a.len() && 0 <= j < b.len() && is_same(
                (#[trigger] b[j])("ItemValueId"@),
                (#[trigger] a[i])("ItemValueId"@),
            ) && is_same(a[i]("ItemId"@), row("Id"@)) && t(b[j]("Type"@)) && g(b[j]("CleanValue"@));
        assert(s(b[j]("Type"@)) && f(b[j]("CleanValue"@)));
    }
}

/// A list of values, as a condition.
pub(crate) proof fn lemma_flat_in(q: Sql, column: Seq<char>, e: Expr, values: Seq<BindView>)
    requires
        values.len() > 0,
        chars(column) == expr_text(e),
    ensures
        flat(say_in(q, column, values)) == flat(q) + text_of(Cond::In(e, values)),
{
    let a = say(say(q, column), " IN ("@);
    lemma_flat_say(q, column);
    lemma_flat_say(say(q, column), " IN ("@);
    lemma_flat_give_all(a, values);
    lemma_flat_say(give_all(a, values), ")"@);
    assert(flat(say_in(q, column, values)) == flat(q) + text_of(Cond::In(e, values))) by {
        broadcast use {lemma_said_in_turn, lemma_said_nothing};

    }
}

spec fn map_of_values() -> From {
    From::Named { table: "ItemValuesMap"@, name: "ivm"@ }
}

spec fn values_table() -> From {
    From::Named { table: "ItemValues"@, name: "iv"@ }
}

spec fn joined() -> Cond {
    same(of("iv"@, "ItemValueId"@), of("ivm"@, "ItemValueId"@))
}

spec fn of_item() -> Cond {
    same(of("ivm"@, "ItemId"@), of("bi"@, "Id"@))
}

proof fn lemma_values_text(q: Sql, types: Seq<ItemValueType>, want: bool)
    requires
        types.len() > 0,
    ensures
        flat(item_values_of(q, types, want)) == flat(q) + (chars(exists_words(want)) + chars(
            "(SELECT 1 FROM "@,
        )) + (from_text(map_of_values()) + chars(" JOIN "@) + from_text(values_table()) + chars(
            " ON "@,
        ) + text_of(joined()) + chars(" WHERE "@) + text_of(of_item()) + chars(" AND "@) + text_of(
            Cond::In(of("iv"@, "Type"@), type_values(types)),
        )),
{
    let t =
        r#"(SELECT 1 FROM "ItemValuesMap" ivm JOIN "ItemValues" iv ON iv."ItemValueId" = ivm."ItemValueId" WHERE ivm."ItemId" = bi."Id" AND "#@;
    let words = exists_words(want);
    let a = say(q, words);
    let b = say(a, t);
    lemma_flat_say(q, words);
    lemma_flat_say(a, t);
    let on = joined();
    let x = of_item();
    let column = r#"iv."Type""#@;
    assert(text_of(on) == column_text("iv"@, "ItemValueId"@) + chars(" = "@) + column_text(
        "ivm"@,
        "ItemValueId"@,
    ));
    assert(text_of(x) == column_text("ivm"@, "ItemId"@) + chars(" = "@) + column_text("bi"@, "Id"@));
    let first = chars("(SELECT 1 FROM "@) + from_text(map_of_values()) + chars(" JOIN "@) + from_text(
        values_table(),
    ) + chars(" ON "@) + text_of(on) + chars(" WHERE "@) + text_of(x) + chars(" AND "@);
    assert(chars(t) =~= first) by {
        reveal(Said::spec_add);
        reveal_strlit(r#"(SELECT 1 FROM "ItemValuesMap" ivm JOIN "ItemValues" iv ON iv."ItemValueId" = ivm."ItemValueId" WHERE ivm."ItemId" = bi."Id" AND "#);
        reveal_strlit("(SELECT 1 FROM ");
        reveal_strlit("\"");
        reveal_strlit("ItemValuesMap");
        reveal_strlit(" ");
        reveal_strlit("ivm");
        reveal_strlit(" JOIN ");
        reveal_strlit("ItemValues");
        reveal_strlit("iv");
        reveal_strlit(" ON ");
        reveal_strlit(".");
        reveal_strlit("ItemValueId");
        reveal_strlit(" = ");
        reveal_strlit(" WHERE ");
        reveal_strlit("ItemId");
        reveal_strlit("bi");
        reveal_strlit("Id");
        reveal_strlit(" AND ");
    }
    assert(chars(column) =~= column_text("iv"@, "Type"@)) by {
        reveal(Said::spec_add);
        reveal_strlit(r#"iv."Type""#);
        reveal_strlit("iv");
        reveal_strlit(".");
        reveal_strlit("\"");
        reveal_strlit("Type");
    }
    lemma_flat_in(b, column, of("iv"@, "Type"@), type_values(types));
    let c = Cond::In(of("iv"@, "Type"@), type_values(types));
    assert(flat(item_values_of(q, types, want)) == flat(q) + chars(words) + first + text_of(c));
    assert(flat(item_values_of(q, types, want)) == flat(q) + (chars(words) + chars("(SELECT 1 FROM "@))
        + (from_text(map_of_values()) + chars(" JOIN "@) + from_text(values_table()) + chars(" ON "@)
        + text_of(on) + chars(" WHERE "@) + text_of(x) + chars(" AND "@) + text_of(c))) by {
        broadcast use {lemma_said_in_turn, lemma_said_nothing};

    }
}

proof fn read_value(
    lead: Lead,
    q: Sql,
    cs: Seq<Cond>,
    longer: Sql,
    types: Seq<ItemValueType>,
    want: bool,
    c: Cond,
    is_value: spec_fn(Val, Db) -> bool,
) -> (out: Seq<Cond>)
    requires
        spells(lead, q, cs),
        types.len() > 0,
        reads_so(c),
        !(c is Or),
        flat(longer) == flat(item_values_of(q, types, want)) + chars(" AND "@) + text_of(c) + chars(
            ")"@,
        ),
        forall|s: Scope, db: Db| #[trigger]
            truth(c, s, db) == Some(true) <==> is_value(s("iv"@)("CleanValue"@), db),
    ensures
        spells(lead, longer, out),
        forall|row: Row, db: Db| #[trigger]
            all_true(out, only(row), db) <==> all_true(cs, only(row), db) && want == has_value(
                db,
                row,
                |t: Val| is_among(t, type_values(types), db),
                |v: Val| is_value(v, db),
            ),
{
    let x = of_item();
    let y = Cond::In(of("iv"@, "Type"@), type_values(types));
    let xy = Cond::And(Box::new(x), Box::new(y));
    let inner = Cond::And(Box::new(xy), Box::new(c));
    let on = joined();
    lemma_values_text(q, types, want);
    assert(text_of(xy) == text_of(x) + chars(" AND "@) + text_of(y));
    assert(text_of(inner) == text_of(xy) + chars(" AND "@) + text_of(c));
    assert(reads_so(x) && reads_so(y) && reads_so(on));
    assert(reads_so(xy));
    assert(reads_so(inner));
    let from = map_of_values();
    let other = values_table();
    assert(flat(longer) == flat(q) + (chars(exists_words(want)) + chars("(SELECT 1 FROM "@)) + (
    from_text(from) + chars(" JOIN "@) + from_text(other) + chars(" ON "@) + text_of(on) + chars(
        " WHERE "@,
    ) + text_of(inner) + chars(")"@))) by {
        broadcast use {lemma_said_in_turn, lemma_said_nothing};

    }
    let p = |row: Row, ivm: Row, iv: Row, db: Db|
        is_same(iv("ItemValueId"@), ivm("ItemValueId"@)) && is_same(ivm("ItemId"@), row("Id"@))
            && is_among(iv("Type"@), type_values(types), db) && is_value(iv("CleanValue"@), db);
    assert forall|row: Row, r: Row, o: Row, db: Db| #[trigger]
        p(row, r, o, db) <==> truth(
            on,
            with_row(with_row(only(row), name_of(from), r), name_of(other), o),
            db,
        ) == Some(true) && truth(
            inner,
            with_row(with_row(only(row), name_of(from), r), name_of(other), o),
            db,
        ) == Some(true) by {
        lemma_row_names();
        let s = with_row(with_row(only(row), "ivm"@, r), "iv"@, o);
        assert(s("iv"@) == o && s("ivm"@) == r && s("bi"@) == row);
        assert(truth(on, s, db) == compared(o("ItemValueId"@), Op::Eq, r("ItemValueId"@), db));
        assert(truth(x, s, db) == compared(r("ItemId"@), Op::Eq, row("Id"@), db));
        assert(truth(y, s, db) == Some(true) <==> is_among(o("Type"@), type_values(types), db));
        assert(truth(c, s, db) == Some(true) <==> is_value(o("CleanValue"@), db));
        assert(truth(xy, s, db) == both(truth(x, s, db), truth(y, s, db)));
        assert(truth(inner, s, db) == both(truth(xy, s, db), truth(c, s, db)));
        lemma_flag_cases(truth(x, s, db));
        lemma_flag_cases(truth(y, s, db));
        lemma_flag_cases(truth(c, s, db));
    }
    let out = read_pairs(lead, q, cs, longer, want, from, other, on, inner, p);
    assert forall|row: Row, db: Db| #[trigger]
        all_true(out, only(row), db) <==> all_true(cs, only(row), db) && want == has_value(
            db,
            row,
            |t: Val| is_among(t, type_values(types), db),
            |v: Val| is_value(v, db),
        ) by {
        let of_type = |t: Val| is_among(t, type_values(types), db);
        let iv_is = |v: Val| is_value(v, db);
        let f = |r: Row, o: Row| p(row, r, o, db);
        let g = |ivm: Row, iv: Row|
            is_same(iv("ItemValueId"@), ivm("ItemValueId"@)) && is_same(ivm("ItemId"@), row("Id"@))
                && of_type(iv("Type"@)) && iv_is(iv("CleanValue"@));
        assert forall|r: Row, o: Row| #[trigger] f(r, o) <==> g(r, o) by {}
        lemma_same_pairs(db, "ItemValuesMap"@, "ItemValues"@, f, g);
    }
    out
}

pub(crate) proof fn lemma_same_pairs(
    db: Db,
    one: Seq<char>,
    other: Seq<char>,
    f: spec_fn(Row, Row) -> bool,
    g: spec_fn(Row, Row) -> bool,
)
    requires
        forall|r: Row, o: Row| #[trigger] f(r, o) <==> g(r, o),
    ensures
        some_pair(db, one, other, f) <==> some_pair(db, one, other, g),
{
    let a = (db.tables)(one);
    let b = (db.tables)(other);
    if some_pair(db, one, other, f) {
        let (i, j) = choose|i: int, j: int|
            0 <= i < a.len() && 0 <= j < b.len() && f(#[trigger] a[i], #[trigger] b[j]);
        assert(g(a[i], b[j]));
    }
    if some_pair(db, one, other, g) {
        let (i, j) = choose|i: int, j: int|
            0 <= i < a.len() && 0 <= j < b.len() && g(#[trigger] a[i], #[trigger] b[j]);
        assert(f(a[i], b[j]));
    }
}

proof fn lemma_clean_one_of(v: Val, names: Seq<Seq<char>>, db: Db)
    ensures
        is_among(v, text_values(clean_values(names)), db) <==> is_clean_one_of(v, names),
{
    let values = text_values(clean_values(names));
    if is_among(v, values, db) {
        let i = choose|i: int| 0 <= i < values.len() && given(#[trigger] values[i], db) == v;
        assert(v == Val::Text(clean_value(names[i])));
    }
    if is_clean_one_of(v, names) {
        let i = choose|i: int| 0 <= i < names.len() && v == Val::Text(clean_value(#[trigger] names[i]));
        assert(given(values[i], db) == v);
    }
}

proof fn read_named_value(
    lead: Lead,
    q: Sql,
    cs: Seq<Cond>,
    types: Seq<ItemValueType>,
    names: Seq<Seq<char>>,
    want: bool,
) -> (out: Seq<Cond>)
    requires
        spells(lead, q, cs),
        types.len() > 0,
    ensures
        spells(lead, item_value_exists(q, types, names, want), out),
        forall|row: Row, db: Db| #[trigger]
            all_true(out, only(row), db) <==> all_true(cs, only(row), db) && (names.len() > 0 ==> want
                == has_value(
                db,
                row,
                |t: Val| is_among(t, type_values(types), db),
                |v: Val| is_clean_one_of(v, names),
            )),
{
    if names.len() == 0 {
        cs
    } else {
        let values = text_values(clean_values(names));
        let column = r#"iv."CleanValue""#@;
        let e = of("iv"@, "CleanValue"@);
        let c = Cond::In(e, values);
        let a = item_values_of(q, types, want);
        let b = say(a, " AND "@);
        let longer = say(say_in(b, column, values), ")"@);
        lemma_flat_say(a, " AND "@);
        assert(chars(column) =~= column_text("iv"@, "CleanValue"@)) by {
            reveal(Said::spec_add);
            reveal_strlit(r#"iv."CleanValue""#);
            reveal_strlit("iv");
            reveal_strlit(".");
            reveal_strlit("\"");
            reveal_strlit("CleanValue");
        }
        lemma_flat_in(b, column, e, values);
        lemma_flat_say(say_in(b, column, values), ")"@);
        assert(flat(longer) == flat(a) + chars(" AND "@) + text_of(c) + chars(")"@)) by {
            broadcast use {lemma_said_in_turn, lemma_said_nothing};

        }
        let is_value = |v: Val, db: Db| is_clean_one_of(v, names);
        assert forall|s: Scope, db: Db| #[trigger]
            truth(c, s, db) == Some(true) <==> is_value(s("iv"@)("CleanValue"@), db) by {
            lemma_clean_one_of(s("iv"@)("CleanValue"@), names, db);
        }
        let out = read_value(lead, q, cs, longer, types, want, c, is_value);
        assert forall|row: Row, db: Db| #[trigger]
            all_true(out, only(row), db) <==> all_true(cs, only(row), db) && want == has_value(
                db,
                row,
                |t: Val| is_among(t, type_values(types), db),
                |v: Val| is_clean_one_of(v, names),
            ) by {
            lemma_same_values(
                db,
                row,
                |t: Val| is_among(t, type_values(types), db),
                |t: Val| is_among(t, type_values(types), db),
                |v: Val| is_value(v, db),
                |v: Val| is_clean_one_of(v, names),
            );
        }
        out
    }
}

proof fn lemma_reference_truth(c: Cond, ids: Seq<Guid>, s: Scope, db: Db)
    requires
        c == Cond::InSelect(
            of("iv"@, "CleanValue"@),
            of("ref"@, "CleanName"@),
            From::Named { table: "BaseItems"@, name: "ref"@ },
            Box::new(Cond::In(of("ref"@, "Id"@), guid_values(ids))),
        ),
    ensures
        truth(c, s, db) == Some(true) <==> names_one_of(s("iv"@)("CleanValue"@), ids, db),
{
    let v = s("iv"@)("CleanValue"@);
    let rows = (db.tables)("BaseItems"@);
    let inner = Cond::In(of("ref"@, "Id"@), guid_values(ids));
    let p = |r: Row| is_one_of(r("Id"@), ids) && is_same(r("CleanName"@), v);
    assert forall|i: int| 0 <= i < rows.len() implies (truth(
        inner,
        with_row(s, "ref"@, #[trigger] rows[i]),
        db,
    ) == Some(true) <==> is_one_of(rows[i]("Id"@), ids)) by {
        lemma_one_of(rows[i]("Id"@), ids, db);
        let w = with_row(s, "ref"@, rows[i]);
        assert(w("ref"@) == rows[i]);
        assert(truth(inner, w, db) == Some(true) <==> is_among(
            rows[i]("Id"@),
            guid_values(ids),
            db,
        ));
    }
    assert forall|i: int| 0 <= i < rows.len() implies value_of(
        of("ref"@, "CleanName"@),
        with_row(s, "ref"@, #[trigger] rows[i]),
        db,
    ) == rows[i]("CleanName"@) by {}
    if names_one_of(v, ids, db) {
        let i = choose|i: int| 0 <= i < rows.len() && p(#[trigger] rows[i]);
        assert(truth(c, s, db) == Some(true));
    }
    if truth(c, s, db) == Some(true) {
        let i = choose|i: int|
            0 <= i < rows.len() && {
                let w = with_row(s, "ref"@, #[trigger] rows[i]);
                truth(inner, w, db) == Some(true) && value_of(of("ref"@, "CleanName"@), w, db) == v
            };
        assert(p(rows[i]));
    }
}

proof fn read_reference(
    lead: Lead,
    q: Sql,
    cs: Seq<Cond>,
    types: Seq<ItemValueType>,
    ids: Seq<Guid>,
    exclude: bool,
) -> (out: Seq<Cond>)
    requires
        spells(lead, q, cs),
        types.len() > 0,
    ensures
        spells(lead, referenced_item(q, types, ids, exclude), out),
        forall|row: Row, db: Db| #[trigger]
            all_true(out, only(row), db) <==> all_true(cs, only(row), db) && (ids.len() > 0
                ==> !exclude == has_value(
                db,
                row,
                |t: Val| is_among(t, type_values(types), db),
                |v: Val| names_one_of(v, ids, db),
            )),
{
    if ids.len() == 0 {
        cs
    } else {
        let values = guid_values(ids);
        let t = r#" AND iv."CleanValue" IN (SELECT ref."CleanName" FROM "BaseItems" ref WHERE "#@;
        let column = r#"ref."Id""#@;
        let inner = Cond::In(of("ref"@, "Id"@), values);
        let from = From::Named { table: "BaseItems"@, name: "ref"@ };
        let c = Cond::InSelect(
            of("iv"@, "CleanValue"@),
            of("ref"@, "CleanName"@),
            from,
            Box::new(inner),
        );
        let a = item_values_of(q, types, !exclude);
        let b = say(a, t);
        let d = say_in(b, column, values);
        let longer = say(d, "))"@);
        lemma_flat_say(a, t);
        let first = column_text("iv"@, "CleanValue"@) + chars(" IN (SELECT "@) + column_text(
            "ref"@,
            "CleanName"@,
        ) + chars(" FROM "@) + from_text(from) + chars(" WHERE "@);
        assert(chars(t) =~= chars(" AND "@) + first) by {
            reveal(Said::spec_add);
            reveal_strlit(r#" AND iv."CleanValue" IN (SELECT ref."CleanName" FROM "BaseItems" ref WHERE "#);
            reveal_strlit(" AND ");
            reveal_strlit("iv");
            reveal_strlit(".");
            reveal_strlit("\"");
            reveal_strlit("CleanValue");
            reveal_strlit(" IN (SELECT ");
            reveal_strlit("ref");
            reveal_strlit("CleanName");
            reveal_strlit(" FROM ");
            reveal_strlit("BaseItems");
            reveal_strlit(" ");
            reveal_strlit(" WHERE ");
        }
        assert(chars(column) =~= column_text("ref"@, "Id"@)) by {
            reveal(Said::spec_add);
            reveal_strlit(r#"ref."Id""#);
            reveal_strlit("ref");
            reveal_strlit(".");
            reveal_strlit("\"");
            reveal_strlit("Id");
        }
        assert(chars("))"@) =~= chars(")"@) + chars(")"@)) by {
            reveal(Said::spec_add);
            reveal_strlit("))");
            reveal_strlit(")");
        }
        lemma_flat_in(b, column, of("ref"@, "Id"@), values);
        lemma_flat_say(d, "))"@);
        assert(text_of(c) == first + text_of(inner) + chars(")"@));
        assert(reads_so(inner));
        assert(reads_so(c));
        assert(flat(longer) == flat(a) + chars(" AND "@) + text_of(c) + chars(")"@)) by {
            broadcast use {lemma_said_in_turn, lemma_said_nothing};

        }
        let is_value = |v: Val, db: Db| names_one_of(v, ids, db);
        assert forall|s: Scope, db: Db| #[trigger]
            truth(c, s, db) == Some(true) <==> is_value(s("iv"@)("CleanValue"@), db) by {
            lemma_reference_truth(c, ids, s, db);
        }
        let out = read_value(lead, q, cs, longer, types, !exclude, c, is_value);
        assert forall|row: Row, db: Db| #[trigger]
            all_true(out, only(row), db) <==> all_true(cs, only(row), db) && !exclude == has_value(
                db,
                row,
                |t: Val| is_among(t, type_values(types), db),
                |v: Val| names_one_of(v, ids, db),
            ) by {
            lemma_same_values(
                db,
                row,
                |t: Val| is_among(t, type_values(types), db),
                |t: Val| is_among(t, type_values(types), db),
                |v: Val| is_value(v, db),
                |v: Val| names_one_of(v, ids, db),
            );
        }
        out
    }
}

pub(crate) proof fn lemma_types(t: Val, a: ItemValueType, b: ItemValueType, db: Db)
    ensures
        is_among(t, type_values(seq![a]), db) <==> is_type(t, a, db),
        is_among(t, type_values(seq![a, b]), db) <==> is_type(t, a, db) || is_type(t, b, db),
{
    let one = type_values(seq![a]);
    let two = type_values(seq![a, b]);
    assert(given(one[0], db) == Val::Int((db.type_number)(a)));
    assert(given(two[0], db) == Val::Int((db.type_number)(a)));
    assert(given(two[1], db) == Val::Int((db.type_number)(b)));
}

proof fn lemma_one_type(row: Row, db: Db, a: ItemValueType, f: spec_fn(Val) -> bool)
    ensures
        has_value(db, row, |t: Val| is_among(t, type_values(seq![a]), db), f) <==> has_value(
            db,
            row,
            |t: Val| is_type(t, a, db),
            f,
        ),
{
    let s = |t: Val| is_among(t, type_values(seq![a]), db);
    let u = |t: Val| is_type(t, a, db);
    assert forall|v: Val| #[trigger] s(v) <==> u(v) by {
        lemma_types(v, a, a, db);
    }
    lemma_same_values(db, row, s, u, f, f);
}

proof fn lemma_two_types(
    row: Row,
    db: Db,
    a: ItemValueType,
    b: ItemValueType,
    f: spec_fn(Val) -> bool,
)
    ensures
        has_value(db, row, |t: Val| is_among(t, type_values(seq![a, b]), db), f) <==> has_value(
            db,
            row,
            |t: Val| is_type(t, a, db) || is_type(t, b, db),
            f,
        ),
{
    let s = |t: Val| is_among(t, type_values(seq![a, b]), db);
    let u = |t: Val| is_type(t, a, db) || is_type(t, b, db);
    assert forall|v: Val| #[trigger] s(v) <==> u(v) by {
        lemma_types(v, a, b, db);
    }
    lemma_same_values(db, row, s, u, f, f);
}

/// The tags that are asked for, whichever way they were.
proof fn lemma_tags(f: InternalItemsQuery)
    ensures
        forall|t: Seq<char>| #[trigger] all_tags(f).contains(t) <==> is_wanted_tag(f, t),
        forall|t: Seq<char>| #[trigger]
            all_exclude_tags(f).contains(t) <==> is_unwanted_tag(f, t),
{
    broadcast use vstd::seq_lib::group_seq_properties;

    lemma_flag_cases(f.is_sports);
    lemma_flag_cases(f.is_news);
    lemma_flag_cases(f.is_kids);
}

proof fn lemma_clean_tag(v: Val, names: Seq<Seq<char>>, p: spec_fn(Seq<char>) -> bool)
    requires
        forall|t: Seq<char>| #[trigger] names.contains(t) <==> p(t),
    ensures
        is_clean_one_of(v, names) <==> is_clean_tag(v, p),
        names.len() > 0 <==> exists|t: Seq<char>| #[trigger] p(t),
{
    if is_clean_one_of(v, names) {
        let i = choose|i: int| 0 <= i < names.len() && v == Val::Text(clean_value(#[trigger] names[i]));
        assert(names.contains(names[i]));
        assert(p(names[i]));
    }
    if is_clean_tag(v, p) {
        let t = choose|t: Seq<char>| #[trigger] p(t) && v == Val::Text(clean_value(t));
        assert(names.contains(t));
        let i = choose|i: int| 0 <= i < names.len() && names[i] == t;
        assert(v == Val::Text(clean_value(names[i])));
    }
    if names.len() > 0 {
        assert(names.contains(names[0]));
        assert(p(names[0]));
    }
    if exists|t: Seq<char>| #[trigger] p(t) {
        let t = choose|t: Seq<char>| #[trigger] p(t);
        assert(names.contains(t));
    }
}

proof fn read_tags(
    lead: Lead,
    q: Sql,
    cs: Seq<Cond>,
    names: Seq<Seq<char>>,
    p: spec_fn(Seq<char>) -> bool,
    want: bool,
) -> (out: Seq<Cond>)
    requires
        spells(lead, q, cs),
        forall|t: Seq<char>| #[trigger] names.contains(t) <==> p(t),
    ensures
        spells(lead, item_value_exists(q, seq![ItemValueType::Tags], names, want), out),
        forall|row: Row, db: Db| #[trigger]
            all_true(out, only(row), db) <==> all_true(cs, only(row), db) && ((exists|t: Seq<char>|
             #[trigger] p(t)) ==> want == has_value(
                db,
                row,
                |t: Val| is_type(t, ItemValueType::Tags, db),
                |v: Val| is_clean_tag(v, p),
            )),
{
    let types = seq![ItemValueType::Tags];
    let out = read_named_value(lead, q, cs, types, names, want);
    lemma_clean_tag(Val::Null, names, p);
    assert forall|row: Row, db: Db| #[trigger]
        all_true(out, only(row), db) <==> all_true(cs, only(row), db) && ((exists|t: Seq<char>|
         #[trigger] p(t)) ==> want == has_value(
            db,
            row,
            |t: Val| is_type(t, ItemValueType::Tags, db),
            |v: Val| is_clean_tag(v, p),
        )) by {
        let a = |v: Val| is_clean_one_of(v, names);
        let b = |v: Val| is_clean_tag(v, p);
        let u = |t: Val| is_type(t, ItemValueType::Tags, db);
        assert forall|v: Val| #[trigger] a(v) <==> b(v) by {
            lemma_clean_tag(v, names, p);
        }
        lemma_one_type(row, db, ItemValueType::Tags, a);
        lemma_same_values(db, row, u, u, a, b);
    }
    out
}

spec fn has_references(f: InternalItemsQuery, row: Row, db: Db) -> bool {
    let genre = |t: Val| is_type(t, ItemValueType::Genre, db);
    let studio = |t: Val| is_type(t, ItemValueType::Studios, db);
    let album_artist = |t: Val| is_type(t, ItemValueType::AlbumArtist, db);
    let artist = |t: Val|
        is_type(t, ItemValueType::Artist, db) || is_type(t, ItemValueType::AlbumArtist, db);
    &&& f.genres@.len() > 0 ==> has_value(
        db,
        row,
        genre,
        |v: Val| is_clean_one_of(v, texts(f.genres@)),
    )
    &&& f.genre_ids@.len() > 0 ==> has_value(
        db,
        row,
        genre,
        |v: Val| names_one_of(v, f.genre_ids@, db),
    )
    &&& f.studio_ids@.len() > 0 ==> has_value(
        db,
        row,
        studio,
        |v: Val| names_one_of(v, f.studio_ids@, db),
    )
    &&& f.artist_ids@.len() > 0 ==> has_value(
        db,
        row,
        artist,
        |v: Val| names_one_of(v, f.artist_ids@, db),
    )
    &&& f.album_artist_ids@.len() > 0 ==> has_value(
        db,
        row,
        album_artist,
        |v: Val| names_one_of(v, f.album_artist_ids@, db),
    )
    &&& f.exclude_artist_ids@.len() > 0 ==> !has_value(
        db,
        row,
        artist,
        |v: Val| names_one_of(v, f.exclude_artist_ids@, db),
    )
}

spec fn references(q: Sql, f: InternalItemsQuery) -> Sql {
    let genre = seq![ItemValueType::Genre];
    let artists = seq![ItemValueType::Artist, ItemValueType::AlbumArtist];
    let a = item_value_exists(q, genre, texts(f.genres@), true);
    let b = referenced_item(a, genre, f.genre_ids@, false);
    let c = referenced_item(b, seq![ItemValueType::Studios], f.studio_ids@, false);
    let d = referenced_item(c, artists, f.artist_ids@, false);
    let e = referenced_item(d, seq![ItemValueType::AlbumArtist], f.album_artist_ids@, false);
    referenced_item(e, artists, f.exclude_artist_ids@, true)
}

proof fn read_references(lead: Lead, q: Sql, cs: Seq<Cond>, f: InternalItemsQuery) -> (out: Seq<Cond>)
    requires
        spells(lead, q, cs),
    ensures
        spells(lead, references(q, f), out),
        forall|row: Row, db: Db| #[trigger]
            all_true(out, only(row), db) <==> all_true(cs, only(row), db) && has_references(
                f,
                row,
                db,
            ),
{
    let genre = seq![ItemValueType::Genre];
    let studio = seq![ItemValueType::Studios];
    let album_artist = seq![ItemValueType::AlbumArtist];
    let artists = seq![ItemValueType::Artist, ItemValueType::AlbumArtist];
    let a = item_value_exists(q, genre, texts(f.genres@), true);
    let ca = read_named_value(lead, q, cs, genre, texts(f.genres@), true);
    let b = referenced_item(a, genre, f.genre_ids@, false);
    let cb = read_reference(lead, a, ca, genre, f.genre_ids@, false);
    let c = referenced_item(b, studio, f.studio_ids@, false);
    let cc = read_reference(lead, b, cb, studio, f.studio_ids@, false);
    let d = referenced_item(c, artists, f.artist_ids@, false);
    let cd = read_reference(lead, c, cc, artists, f.artist_ids@, false);
    let e = referenced_item(d, album_artist, f.album_artist_ids@, false);
    let ce = read_reference(lead, d, cd, album_artist, f.album_artist_ids@, false);
    let out = read_reference(lead, e, ce, artists, f.exclude_artist_ids@, true);
    assert(texts(f.genres@).len() == f.genres@.len());
    assert forall|row: Row, db: Db| #[trigger]
        all_true(out, only(row), db) <==> all_true(cs, only(row), db) && has_references(f, row, db) by {
        let g = |v: Val| is_clean_one_of(v, texts(f.genres@));
        lemma_one_type(row, db, ItemValueType::Genre, g);
        lemma_one_type(
            row,
            db,
            ItemValueType::Genre,
            |v: Val| names_one_of(v, f.genre_ids@, db),
        );
        lemma_one_type(
            row,
            db,
            ItemValueType::Studios,
            |v: Val| names_one_of(v, f.studio_ids@, db),
        );
        lemma_two_types(
            row,
            db,
            ItemValueType::Artist,
            ItemValueType::AlbumArtist,
            |v: Val| names_one_of(v, f.artist_ids@, db),
        );
        lemma_one_type(
            row,
            db,
            ItemValueType::AlbumArtist,
            |v: Val| names_one_of(v, f.album_artist_ids@, db),
        );
        lemma_two_types(
            row,
            db,
            ItemValueType::Artist,
            ItemValueType::AlbumArtist,
            |v: Val| names_one_of(v, f.exclude_artist_ids@, db),
        );
    }
    out
}

pub(crate) proof fn read_values(lead: Lead, q: Sql, cs: Seq<Cond>, f: InternalItemsQuery) -> (out: Seq<
    Cond,
>)
    requires
        spells(lead, q, cs),
    ensures
        spells(lead, item_value_predicates(q, f, all_tags(f), all_exclude_tags(f)), out),
        forall|row: Row, db: Db| #[trigger]
            all_true(out, only(row), db) <==> all_true(cs, only(row), db) && is_valued(f, row, db),
{
    let g = references(q, f);
    let cg = read_references(lead, q, cs, f);
    let t = r#" AND bi."ParentId" IS NOT NULL AND "#@;
    let column = r#"bi."ParentId""#@;
    assert(chars(t) =~= chars(" AND "@) + text_of(Cond::NotNull(col("ParentId"@))) + chars(" AND "@)) by {
        reveal(Said::spec_add);
        reveal_strlit(r#" AND bi."ParentId" IS NOT NULL AND "#);
        reveal_strlit(" AND ");
        reveal_strlit("bi");
        reveal_strlit(".");
        reveal_strlit("\"");
        reveal_strlit("ParentId");
        reveal_strlit(" IS NOT NULL");
    }
    assert(chars(column) =~= column_text("bi"@, "ParentId"@)) by {
        reveal(Said::spec_add);
        reveal_strlit(r#"bi."ParentId""#);
        reveal_strlit("bi");
        reveal_strlit(".");
        reveal_strlit("\"");
        reveal_strlit("ParentId");
    }
    let ids = guid_values(f.album_ids@);
    let (h, ch) = if f.album_ids@.len() > 0 {
        (say_in(say(g, t), column, ids), read_ids(lead, g, cg, t, column, "ParentId"@, ids))
    } else {
        (g, cg)
    };
    let tags = seq![ItemValueType::Tags];
    let wanted = |t: Seq<char>| is_wanted_tag(f, t);
    let unwanted = |t: Seq<char>| is_unwanted_tag(f, t);
    lemma_tags(f);
    let i = item_value_exists(h, tags, all_tags(f), true);
    let ci = read_tags(lead, h, ch, all_tags(f), wanted, true);
    let out = read_tags(lead, i, ci, all_exclude_tags(f), unwanted, false);
    assert forall|row: Row, db: Db| #[trigger]
        all_true(out, only(row), db) <==> all_true(cs, only(row), db) && is_valued(f, row, db) by {
        lemma_one_of(row("ParentId"@), f.album_ids@, db);
        assert((exists|t: Seq<char>| #[trigger] wanted(t)) <==> (exists|t: Seq<char>|
            is_wanted_tag(f, t))) by {
            if exists|t: Seq<char>| is_wanted_tag(f, t) {
                let t = choose|t: Seq<char>| is_wanted_tag(f, t);
                assert(wanted(t));
            }
        }
        assert((exists|t: Seq<char>| #[trigger] unwanted(t)) <==> (exists|t: Seq<char>|
            is_unwanted_tag(f, t))) by {
            if exists|t: Seq<char>| is_unwanted_tag(f, t) {
                let t = choose|t: Seq<char>| is_unwanted_tag(f, t);
                assert(unwanted(t));
            }
        }
    }
    out
}


} // verus!
