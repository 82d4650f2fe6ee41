//! What the statement for similar items asks for.
use vstd::prelude::*;

use crate::guid::{hyphenated_text, Guid};
use crate::number_text::decimal;
use crate::similar_items_manager::similar_sql;
use crate::sql::{give, give_all, plain_guid_values, say, BindView, Sql};
use crate::sql_meaning::{
    all_read_so, all_true, both, chars, column_text, compared, conds_text, expr_text, exprs_text,
    flat, from_text, given, hole, lemma_flat_give, lemma_flat_give_all, lemma_flat_say,
    lemma_said_in_turn, lemma_said_nothing, name_of, nothing, only, reads_so, table_of, text_of,
    truth, value_of, with_row, Cond, Db, Expr, From, Op, Row, Said, Scope, Val,
};

verus! {

// ---------------------------------------------------------------------------
// Ranked statements
// ---------------------------------------------------------------------------
/// A weight that depends on a value: that of the arm with the value, or the other one.
pub struct Weigh {
    pub of: Expr,
    pub arms: Seq<(Expr, int)>,
    pub other: int,
}

/// The arms of a weight.
pub open spec fn arms_text(arms: Seq<(Expr, int)>) -> Said
    decreases arms.len(),
{
    if arms.len() == 0 {
        nothing()
    } else {
        arms_text(arms.drop_last()) + chars(" WHEN "@) + expr_text(arms.last().0) + chars(" THEN "@)
            + chars(decimal(arms.last().1))
    }
}

/// The text of a weight.
pub open spec fn weigh_text(w: Weigh) -> Said {
    chars("CASE "@) + expr_text(w.of) + arms_text(w.arms) + chars(" ELSE "@) + chars(
        decimal(w.other),
    ) + chars(" END"@)
}

/// The weight of a value.
pub open spec fn weight_of(v: Val, arms: Seq<(Expr, int)>, other: int, s: Scope, db: Db) -> int
    decreases arms.len(),
{
    if arms.len() == 0 {
        other
    } else if value_of(arms[0].0, s, db) == v {
        arms[0].1
    } else {
        weight_of(v, arms.drop_first(), other, s, db)
    }
}

/// Rows of three tables that go together, each of which gives a candidate a weight.
pub struct Shares {
    pub candidate: Expr,
    pub weight: Weigh,
    pub first: From,
    pub second: From,
    pub second_on: Cond,
    pub third: From,
    pub third_on: Cond,
    pub cond: Cond,
}

/// The text of shares.
#[verifier::opaque]
pub open spec fn shares_text(h: Shares) -> Said {
    chars("SELECT "@) + expr_text(h.candidate) + chars(r#" AS "cand", "#@) + weigh_text(h.weight)
        + chars(r#" AS "w""#@) + chars(" FROM "@) + from_text(h.first) + chars(" JOIN "@)
        + from_text(h.second) + chars(" ON "@) + text_of(h.second_on) + chars(" JOIN "@) + from_text(
        h.third,
    ) + chars(" ON "@) + text_of(h.third_on) + chars(" WHERE "@) + text_of(h.cond)
}

/// Three rows, by the names of their tables.
pub open spec fn triple(h: Shares, a: Row, b: Row, c: Row) -> Scope {
    with_row(with_row(with_row(only(a), name_of(h.first), a), name_of(h.second), b), name_of(h.third), c)
}

/// Whether three rows go together and give a candidate a weight.
pub open spec fn shares_so(h: Shares, id: Val, a: Row, b: Row, c: Row, db: Db) -> bool {
    let s = triple(h, a, b, c);
    &&& truth(h.second_on, s, db) == Some(true)
    &&& truth(h.third_on, s, db) == Some(true)
    &&& truth(h.cond, s, db) == Some(true)
    &&& value_of(h.candidate, s, db) == id
}

/// What three rows give a candidate.
pub open spec fn share_of(h: Shares, id: Val, a: Row, b: Row, c: Row, db: Db) -> int {
    let s = triple(h, a, b, c);
    if shares_so(h, id, a, b, c, db) {
        weight_of(value_of(h.weight.of, s, db), h.weight.arms, h.weight.other, s, db)
    } else {
        0
    }
}

/// The sum of `n` numbers.
pub open spec fn sum(n: nat, f: spec_fn(int) -> int) -> int
    decreases n,
{
    if n == 0 {
        0
    } else {
        sum((n - 1) as nat, f) + f(n - 1)
    }
}

/// The sum over the rows of three tables.
pub open spec fn sum_over(
    a: Seq<Row>,
    b: Seq<Row>,
    c: Seq<Row>,
    f: spec_fn(Row, Row, Row) -> int,
) -> int {
    sum(a.len(), |i: int| sum(b.len(), |j: int| sum(c.len(), |k: int| f(a[i], b[j], c[k]))))
}

/// What a candidate is given in all.
pub open spec fn score_of(h: Shares, id: Val, db: Db) -> int {
    sum_over(
        (db.tables)(table_of(h.first)),
        (db.tables)(table_of(h.second)),
        (db.tables)(table_of(h.third)),
        |a: Row, b: Row, c: Row| share_of(h, id, a, b, c, db),
    )
}

/// Whether some rows of three tables go together.
pub open spec fn some_of(
    a: Seq<Row>,
    b: Seq<Row>,
    c: Seq<Row>,
    f: spec_fn(Row, Row, Row) -> bool,
) -> bool {
    exists|i: int, j: int, k: int|
        0 <= i < a.len() && 0 <= j < b.len() && 0 <= k < c.len() && f(
            #[trigger] a[i],
            #[trigger] b[j],
            #[trigger] c[k],
        )
}

/// Whether a candidate is given anything.
pub open spec fn is_given(h: Shares, id: Val, db: Db) -> bool {
    some_of(
        (db.tables)(table_of(h.first)),
        (db.tables)(table_of(h.second)),
        (db.tables)(table_of(h.third)),
        |a: Row, b: Row, c: Row| shares_so(h, id, a, b, c, db),
    )
}

/// A statement that ranks items by what they are given in two ways.
pub struct Ranked {
    pub one: Shares,
    pub other: Shares,
    pub seed: BindView,
    pub conds: Seq<Cond>,
    pub limit: BindView,
}

/// The text of a ranked statement.
pub open spec fn ranked_text(r: Ranked) -> Said {
    chars(r#"SELECT bi.* FROM (SELECT scored."cand" AS id, SUM(scored."w") AS score FROM ("#@)
        + shares_text(r.one) + chars(" UNION ALL "@) + shares_text(r.other) + chars(
        r#") scored WHERE scored."cand" <> "#@,
    ) + hole(r.seed) + chars(
        r#" GROUP BY scored."cand") s JOIN "BaseItems" bi ON bi."Id" = s.id WHERE "#@,
    ) + conds_text(r.conds) + chars(
        r#" ORDER BY s.score DESC, bi."SortName" ASC, bi."Id" ASC LIMIT "#@,
    ) + hole(r.limit)
}

/// Whether an item is ranked: it is given something, is not the seed, and meets the
/// conditions.
pub open spec fn is_ranked(r: Ranked, row: Row, db: Db) -> bool {
    &&& !(row("Id"@) is Null)
    &&& is_given(r.one, row("Id"@), db) || is_given(r.other, row("Id"@), db)
    &&& row("Id"@) != given(r.seed, db)
    &&& all_true(r.conds, only(row), db)
}

/// What an item is given in both ways.
pub open spec fn rank_of(r: Ranked, row: Row, db: Db) -> int {
    score_of(r.one, row("Id"@), db) + score_of(r.other, row("Id"@), db)
}

/// Whether `answer` answers a ranked statement: it holds ranked items, those that are given
/// most first, and leaves one out only where it is full of such as are given as much.
pub open spec fn is_ranking(r: Ranked, db: Db, answer: Seq<Row>) -> bool {
    &&& forall|i: int|
        0 <= i < answer.len() ==> is_ranked(r, #[trigger] answer[i], db) && (db.tables)(
            "BaseItems"@,
        ).contains(answer[i])
    &&& forall|i: int, j: int|
        0 <= i < j < answer.len() ==> rank_of(r, #[trigger] answer[i], db) >= rank_of(
            r,
            #[trigger] answer[j],
            db,
        )
    &&& given(r.limit, db) matches Val::Int(n) && answer.len() <= n && forall|row: Row| #[trigger]
        (db.tables)("BaseItems"@).contains(row) && is_ranked(r, row, db) ==> answer.contains(row)
            || (answer.len() == n && forall|i: int|
            0 <= i < answer.len() ==> rank_of(r, #[trigger] answer[i], db) >= rank_of(r, row, db))
}

// ---------------------------------------------------------------------------
// Similar items
// ---------------------------------------------------------------------------
/// The weight of a shared value: ten for a genre, five for a studio and for a tag, which
/// are stored as the types two, three and four.
pub open spec fn value_weight(kind: Val) -> int {
    if kind == Val::Int(2) {
        10
    } else if kind == Val::Int(3) || kind == Val::Int(4) {
        5
    } else {
        0
    }
}

/// The weight of a shared person: fifty for a director, fifteen for an actor and for a
/// guest star.
pub open spec fn person_weight(kind: Val) -> int {
    if kind == Val::Text("Director"@) {
        50
    } else if kind == Val::Text("Actor"@) || kind == Val::Text("GuestStar"@) {
        15
    } else {
        0
    }
}

/// Whether the seed and an item have the value: `mine` links it to the seed, `theirs` to
/// the item.
pub open spec fn both_have_value(seed: Seq<char>, id: Val, mine: Row, value: Row, theirs: Row) -> bool {
    &&& mine("ItemId"@) == Val::Text(seed)
    &&& theirs("ItemId"@) == id
    &&& !(mine("ItemValueId"@) is Null)
    &&& value("ItemValueId"@) == mine("ItemValueId"@)
    &&& theirs("ItemValueId"@) == mine("ItemValueId"@)
}

/// Whether the person is credited on the seed, by `mine`, and on an item, by `theirs`.
pub open spec fn both_credit(seed: Seq<char>, id: Val, mine: Row, person: Row, theirs: Row) -> bool {
    &&& mine("ItemId"@) == Val::Text(seed)
    &&& theirs("ItemId"@) == id
    &&& !(mine("PeopleId"@) is Null)
    &&& person("Id"@) == mine("PeopleId"@)
    &&& theirs("PeopleId"@) == mine("PeopleId"@)
}

/// What an item's shared genres, studios and tags weigh.
pub open spec fn shared_values(seed: Seq<char>, id: Val, db: Db) -> int {
    sum_over(
        (db.tables)("ItemValuesMap"@),
        (db.tables)("ItemValues"@),
        (db.tables)("ItemValuesMap"@),
        |mine: Row, value: Row, theirs: Row|
            if both_have_value(seed, id, mine, value, theirs) {
                value_weight(value("Type"@))
            } else {
                0
            },
    )
}

/// What an item's shared people weigh.
pub open spec fn shared_people(seed: Seq<char>, id: Val, db: Db) -> int {
    sum_over(
        (db.tables)("PeopleBaseItemMap"@),
        (db.tables)("Peoples"@),
        (db.tables)("PeopleBaseItemMap"@),
        |mine: Row, person: Row, theirs: Row|
            if both_credit(seed, id, mine, person, theirs) {
                person_weight(person("PersonType"@))
            } else {
                0
            },
    )
}

/// Whether an item shares anything that weighs with the seed.
pub open spec fn shares_anything(seed: Seq<char>, id: Val, db: Db) -> bool {
    some_of(
        (db.tables)("ItemValuesMap"@),
        (db.tables)("ItemValues"@),
        (db.tables)("ItemValuesMap"@),
        |mine: Row, value: Row, theirs: Row|
            both_have_value(seed, id, mine, value, theirs) && value_weight(value("Type"@)) > 0,
    ) || some_of(
        (db.tables)("PeopleBaseItemMap"@),
        (db.tables)("Peoples"@),
        (db.tables)("PeopleBaseItemMap"@),
        |mine: Row, person: Row, theirs: Row|
            both_credit(seed, id, mine, person, theirs) && person_weight(person("PersonType"@)) > 0,
    )
}

/// Whether an item is one of those like the seed: of the type, not excluded, not the seed,
/// and sharing something with it.
pub open spec fn is_similar(
    row: Row,
    db: Db,
    seed: Seq<char>,
    seed_type: Seq<char>,
    exclude: Seq<Guid>,
) -> bool {
    &&& !(row("Id"@) is Null)
    &&& row("Id"@) != Val::Text(seed)
    &&& row("Type"@) == Val::Text(seed_type)
    &&& forall|i: int|
        0 <= i < exclude.len() ==> row("Id"@) != Val::Text(
            hyphenated_text((#[trigger] exclude[i]).value),
        )
    &&& shares_anything(seed, row("Id"@), db)
}

/// What an item like the seed weighs.
pub open spec fn similarity(row: Row, db: Db, seed: Seq<char>) -> int {
    shared_values(seed, row("Id"@), db) + shared_people(seed, row("Id"@), db)
}

spec fn of(name: Seq<char>, column: Seq<char>) -> Expr {
    Expr::Column { of: name, name: column }
}

spec fn values_weight() -> Weigh {
    Weigh {
        of: of("iv0"@, "Type"@),
        arms: seq![(Expr::Number(2), 10int), (Expr::Number(3), 5int), (Expr::Number(4), 5int)],
        other: 0,
    }
}

spec fn people_weight() -> Weigh {
    Weigh {
        of: of("p0"@, "PersonType"@),
        arms: seq![(Expr::Quoted("Director"@), 50int)],
        other: 15,
    }
}

spec fn value_kinds() -> Cond {
    Cond::InNamed(
        of("iv0"@, "Type"@),
        seq![Expr::Number(2), Expr::Number(3), Expr::Number(4)],
    )
}

spec fn person_kinds() -> Cond {
    Cond::InNamed(
        of("p0"@, "PersonType"@),
        seq![Expr::Quoted("Director"@), Expr::Quoted("Actor"@), Expr::Quoted("GuestStar"@)],
    )
}

spec fn same(a: Expr, b: Expr) -> Cond {
    Cond::Compare(a, Op::Eq, b)
}

spec fn by_value(seed: Seq<char>) -> Shares {
    Shares {
        candidate: of("ivm2"@, "ItemId"@),
        weight: values_weight(),
        first: From::Named { table: "ItemValuesMap"@, name: "ivm0"@ },
        second: From::Named { table: "ItemValues"@, name: "iv0"@ },
        second_on: same(of("iv0"@, "ItemValueId"@), of("ivm0"@, "ItemValueId"@)),
        third: From::Named { table: "ItemValuesMap"@, name: "ivm2"@ },
        third_on: same(of("ivm2"@, "ItemValueId"@), of("ivm0"@, "ItemValueId"@)),
        cond: Cond::And(
            Box::new(same(of("ivm0"@, "ItemId"@), Expr::Given(BindView::Text(seed)))),
            Box::new(value_kinds()),
        ),
    }
}

spec fn by_person(seed: Seq<char>) -> Shares {
    Shares {
        candidate: of("pm2"@, "ItemId"@),
        weight: people_weight(),
        first: From::Named { table: "PeopleBaseItemMap"@, name: "pm0"@ },
        second: From::Named { table: "Peoples"@, name: "p0"@ },
        second_on: same(of("p0"@, "Id"@), of("pm0"@, "PeopleId"@)),
        third: From::Named { table: "PeopleBaseItemMap"@, name: "pm2"@ },
        third_on: same(of("pm2"@, "PeopleId"@), of("pm0"@, "PeopleId"@)),
        cond: Cond::And(
            Box::new(same(of("pm0"@, "ItemId"@), Expr::Given(BindView::Text(seed)))),
            Box::new(person_kinds()),
        ),
    }
}

proof fn lemma_numbers()
    ensures
        decimal(0) == "0"@,
        decimal(2) == "2"@,
        decimal(3) == "3"@,
        decimal(4) == "4"@,
        decimal(5) == "5"@,
        decimal(10) == "10"@,
        decimal(15) == "15"@,
        decimal(50) == "50"@,
{
    reveal_with_fuel(crate::number_text::digits_of, 3);
    reveal(Said::spec_add);
    reveal_strlit("0");
    reveal_strlit("2");
    reveal_strlit("3");
    reveal_strlit("4");
    reveal_strlit("5");
    reveal_strlit("10");
    reveal_strlit("15");
    reveal_strlit("50");
    assert(decimal(0) =~= "0"@);
    assert(decimal(2) =~= "2"@);
    assert(decimal(3) =~= "3"@);
    assert(decimal(4) =~= "4"@);
    assert(decimal(5) =~= "5"@);
    assert(decimal(10) =~= "10"@);
    assert(decimal(15) =~= "15"@);
    assert(decimal(50) =~= "50"@);
}

proof fn lemma_value_heads()
    ensures
        chars(
            r#"SELECT ivm2."ItemId" AS "cand", CASE iv0."Type" WHEN 2 THEN 10 WHEN 3 THEN 5 WHEN 4 THEN 5 ELSE 0 END AS "w""#@,
        ) == chars("SELECT "@) + expr_text(of("ivm2"@, "ItemId"@)) + chars(r#" AS "cand", "#@)
            + weigh_text(values_weight()) + chars(r#" AS "w""#@),
        text_of(value_kinds()) == column_text("iv0"@, "Type"@) + chars(" IN ("@) + chars("2"@)
            + chars(", "@) + chars("3"@) + chars(", "@) + chars("4"@) + chars(")"@),
{
    lemma_numbers();
    let all = r#"SELECT ivm2."ItemId" AS "cand", CASE iv0."Type" WHEN 2 THEN 10 WHEN 3 THEN 5 WHEN 4 THEN 5 ELSE 0 END AS "w""#@;
    let arms = values_weight().arms;
    let one = chars(" WHEN "@) + chars("2"@) + chars(" THEN "@) + chars("10"@);
    let two = one + chars(" WHEN "@) + chars("3"@) + chars(" THEN "@) + chars("5"@);
    let three = two + chars(" WHEN "@) + chars("4"@) + chars(" THEN "@) + chars("5"@);
    assert(arms.drop_last() =~= seq![(Expr::Number(2), 10int), (Expr::Number(3), 5int)]);
    assert(arms.drop_last().drop_last() =~= seq![(Expr::Number(2), 10int)]);
    assert(arms.drop_last().drop_last().drop_last() =~= Seq::<(Expr, int)>::empty());
    assert(arms_text(Seq::<(Expr, int)>::empty()) == nothing());
    assert(nothing() + chars(" WHEN "@) =~= chars(" WHEN "@)) by {
        reveal(Said::spec_add);
    }
    assert(arms_text(arms.drop_last().drop_last()) == one);
    assert(arms_text(arms.drop_last()) == two);
    assert(arms_text(arms) == three);
    assert(chars(all) =~= chars("SELECT "@) + expr_text(of("ivm2"@, "ItemId"@)) + chars(
        r#" AS "cand", "#@,
    ) + (chars("CASE "@) + expr_text(of("iv0"@, "Type"@)) + three + chars(" ELSE "@) + chars("0"@)
        + chars(" END"@)) + chars(r#" AS "w""#@)) by {
        reveal(Said::spec_add);
        reveal_strlit(r#"SELECT ivm2."ItemId" AS "cand", CASE iv0."Type" WHEN 2 THEN 10 WHEN 3 THEN 5 WHEN 4 THEN 5 ELSE 0 END AS "w""#);
        reveal_strlit("SELECT ");
        reveal_strlit("ivm2");
        reveal_strlit(".");
        reveal_strlit("\"");
        reveal_strlit("ItemId");
        reveal_strlit(r#" AS "cand", "#);
        reveal_strlit("CASE ");
        reveal_strlit("iv0");
        reveal_strlit("Type");
        reveal_strlit(" WHEN ");
        reveal_strlit("2");
        reveal_strlit("3");
        reveal_strlit("4");
        reveal_strlit("5");
        reveal_strlit("10");
        reveal_strlit("0");
        reveal_strlit(" THEN ");
        reveal_strlit(" ELSE ");
        reveal_strlit(" END");
        reveal_strlit(r#" AS "w""#);
    }
    let list = seq![Expr::Number(2), Expr::Number(3), Expr::Number(4)];
    assert(list.drop_last() =~= seq![Expr::Number(2), Expr::Number(3)]);
    assert(list.drop_last().drop_last() =~= seq![Expr::Number(2)]);
    assert(exprs_text(list.drop_last().drop_last()) == chars("2"@));
    assert(exprs_text(list.drop_last()) == chars("2"@) + chars(", "@) + chars("3"@));
    assert(exprs_text(list) == chars("2"@) + chars(", "@) + chars("3"@) + chars(", "@) + chars(
        "4"@,
    ));
    assert(text_of(value_kinds()) == column_text("iv0"@, "Type"@) + chars(" IN ("@) + exprs_text(
        list,
    ) + chars(")"@));
    assert(text_of(value_kinds()) == column_text("iv0"@, "Type"@) + chars(" IN ("@) + chars("2"@)
        + chars(", "@) + chars("3"@) + chars(", "@) + chars("4"@) + chars(")"@)) by {
        broadcast use {lemma_said_in_turn, lemma_said_nothing};

    }
}

proof fn lemma_person_heads()
    ensures
        chars(
            r#"SELECT pm2."ItemId" AS "cand", CASE p0."PersonType" WHEN 'Director' THEN 50 ELSE 15 END AS "w""#@,
        ) == chars("SELECT "@) + expr_text(of("pm2"@, "ItemId"@)) + chars(r#" AS "cand", "#@)
            + weigh_text(people_weight()) + chars(r#" AS "w""#@),
        chars(
            r#" AND p0."PersonType" IN ('Director', 'Actor', 'GuestStar')) scored WHERE scored."cand" <> "#@,
        ) == chars(" AND "@) + text_of(person_kinds()) + chars(r#") scored WHERE scored."cand" <> "#@),
{
    lemma_numbers();
    let all = r#"SELECT pm2."ItemId" AS "cand", CASE p0."PersonType" WHEN 'Director' THEN 50 ELSE 15 END AS "w""#@;
    let arms = people_weight().arms;
    let director = expr_text(Expr::Quoted("Director"@));
    let actor = expr_text(Expr::Quoted("Actor"@));
    let guest = expr_text(Expr::Quoted("GuestStar"@));
    let one = chars(" WHEN "@) + director + chars(" THEN "@) + chars("50"@);
    assert(arms.drop_last() =~= Seq::<(Expr, int)>::empty());
    assert(nothing() + chars(" WHEN "@) =~= chars(" WHEN "@)) by {
        reveal(Said::spec_add);
    }
    assert(arms_text(arms.drop_last()) == nothing());
    assert(arms_text(arms) == one);
    assert(chars(all) =~= chars("SELECT "@) + expr_text(of("pm2"@, "ItemId"@)) + chars(
        r#" AS "cand", "#@,
    ) + (chars("CASE "@) + expr_text(of("p0"@, "PersonType"@)) + one + chars(" ELSE "@) + chars("15"@)
        + chars(" END"@)) + chars(r#" AS "w""#@)) by {
        reveal(Said::spec_add);
        reveal_strlit(r#"SELECT pm2."ItemId" AS "cand", CASE p0."PersonType" WHEN 'Director' THEN 50 ELSE 15 END AS "w""#);
        reveal_strlit("SELECT ");
        reveal_strlit("pm2");
        reveal_strlit(".");
        reveal_strlit("\"");
        reveal_strlit("ItemId");
        reveal_strlit(r#" AS "cand", "#);
        reveal_strlit("CASE ");
        reveal_strlit("p0");
        reveal_strlit("PersonType");
        reveal_strlit(" WHEN ");
        reveal_strlit("'");
        reveal_strlit("Director");
        reveal_strlit("50");
        reveal_strlit("15");
        reveal_strlit(" THEN ");
        reveal_strlit(" ELSE ");
        reveal_strlit(" END");
        reveal_strlit(r#" AS "w""#);
    }
    let list = seq![Expr::Quoted("Director"@), Expr::Quoted("Actor"@), Expr::Quoted("GuestStar"@)];
    assert(list.drop_last() =~= seq![Expr::Quoted("Director"@), Expr::Quoted("Actor"@)]);
    assert(list.drop_last().drop_last() =~= seq![Expr::Quoted("Director"@)]);
    assert(exprs_text(list.drop_last().drop_last()) == director);
    assert(exprs_text(list.drop_last()) == director + chars(", "@) + actor);
    assert(exprs_text(list) == director + chars(", "@) + actor + chars(", "@) + guest);
    assert(text_of(person_kinds()) == column_text("p0"@, "PersonType"@) + chars(" IN ("@) + exprs_text(
        list,
    ) + chars(")"@));
    let kinds = r#" AND p0."PersonType" IN ('Director', 'Actor', 'GuestStar')) scored WHERE scored."cand" <> "#@;
    assert(chars(kinds) =~= chars(" AND "@) + (column_text("p0"@, "PersonType"@) + chars(" IN ("@) + (
    director + chars(", "@) + actor + chars(", "@) + guest) + chars(")"@)) + chars(
        r#") scored WHERE scored."cand" <> "#@,
    )) by {
        reveal(Said::spec_add);
        reveal_strlit(r#" AND p0."PersonType" IN ('Director', 'Actor', 'GuestStar')) scored WHERE scored."cand" <> "#);
        reveal_strlit(" AND ");
        reveal_strlit("p0");
        reveal_strlit(".");
        reveal_strlit("\"");
        reveal_strlit("PersonType");
        reveal_strlit(" IN (");
        reveal_strlit("'");
        reveal_strlit("Director");
        reveal_strlit("Actor");
        reveal_strlit("GuestStar");
        reveal_strlit(", ");
        reveal_strlit(")");
        reveal_strlit(r#") scored WHERE scored."cand" <> "#);
    }
}

proof fn lemma_value_joins(seed: Seq<char>)
    ensures
        ({
            let h = by_value(seed);
            &&& chars(
                r#" FROM "ItemValuesMap" ivm0 JOIN "ItemValues" iv0 ON iv0."ItemValueId" = ivm0."ItemValueId""#@,
            ) == chars(" FROM "@) + from_text(h.first) + chars(" JOIN "@) + from_text(h.second)
                + chars(" ON "@) + text_of(h.second_on)
            &&& chars(
                r#" JOIN "ItemValuesMap" ivm2 ON ivm2."ItemValueId" = ivm0."ItemValueId" WHERE ivm0."ItemId" = "#@,
            ) + hole(BindView::Text(seed)) == chars(" JOIN "@) + from_text(h.third) + chars(" ON "@)
                + text_of(h.third_on) + chars(" WHERE "@) + text_of(
                same(of("ivm0"@, "ItemId"@), Expr::Given(BindView::Text(seed))),
            )
        }),
{
    let h = by_value(seed);
    let v = BindView::Text(seed);
    let c = same(of("ivm0"@, "ItemId"@), Expr::Given(v));
    assert(chars(
        r#" FROM "ItemValuesMap" ivm0 JOIN "ItemValues" iv0 ON iv0."ItemValueId" = ivm0."ItemValueId""#@,
    ) =~= chars(" FROM "@) + from_text(h.first) + chars(" JOIN "@) + from_text(h.second) + chars(
        " ON "@,
    ) + text_of(h.second_on)) by {
        reveal(Said::spec_add);
        reveal_strlit(r#" FROM "ItemValuesMap" ivm0 JOIN "ItemValues" iv0 ON iv0."ItemValueId" = ivm0."ItemValueId""#);
        reveal_strlit(" FROM ");
        reveal_strlit("\"");
        reveal_strlit("ItemValuesMap");
        reveal_strlit(" ");
        reveal_strlit("ivm0");
        reveal_strlit(" JOIN ");
        reveal_strlit("ItemValues");
        reveal_strlit("iv0");
        reveal_strlit(" ON ");
        reveal_strlit(".");
        reveal_strlit("ItemValueId");
        reveal_strlit(" = ");
    }
    assert(chars(
        r#" JOIN "ItemValuesMap" ivm2 ON ivm2."ItemValueId" = ivm0."ItemValueId" WHERE ivm0."ItemId" = "#@,
    ) =~= chars(" JOIN "@) + from_text(h.third) + chars(" ON "@) + text_of(h.third_on) + chars(
        " WHERE "@,
    ) + column_text("ivm0"@, "ItemId"@) + chars(" = "@)) by {
        reveal(Said::spec_add);
        reveal_strlit(r#" JOIN "ItemValuesMap" ivm2 ON ivm2."ItemValueId" = ivm0."ItemValueId" WHERE ivm0."ItemId" = "#);
        reveal_strlit("\"");
        reveal_strlit("ItemValuesMap");
        reveal_strlit(" ");
        reveal_strlit("ivm0");
        reveal_strlit(" JOIN ");
        reveal_strlit("ivm2");
        reveal_strlit(" ON ");
        reveal_strlit(".");
        reveal_strlit("ItemValueId");
        reveal_strlit(" = ");
        reveal_strlit(" WHERE ");
        reveal_strlit("ItemId");
    }
    assert(text_of(c) == column_text("ivm0"@, "ItemId"@) + chars(" = "@) + hole(v));
    assert(chars(
        r#" JOIN "ItemValuesMap" ivm2 ON ivm2."ItemValueId" = ivm0."ItemValueId" WHERE ivm0."ItemId" = "#@,
    ) + hole(v) == chars(" JOIN "@) + from_text(h.third) + chars(" ON "@) + text_of(h.third_on) + chars(
        " WHERE "@,
    ) + text_of(c)) by {
        broadcast use {lemma_said_in_turn, lemma_said_nothing};

    }
}

proof fn lemma_person_joins(seed: Seq<char>)
    ensures
        ({
            let h = by_person(seed);
            &&& chars(
                r#" FROM "PeopleBaseItemMap" pm0 JOIN "Peoples" p0 ON p0."Id" = pm0."PeopleId""#@,
            ) == chars(" FROM "@) + from_text(h.first) + chars(" JOIN "@) + from_text(h.second)
                + chars(" ON "@) + text_of(h.second_on)
            &&& chars(
                r#" JOIN "PeopleBaseItemMap" pm2 ON pm2."PeopleId" = pm0."PeopleId" WHERE pm0."ItemId" = "#@,
            ) + hole(BindView::Text(seed)) == chars(" JOIN "@) + from_text(h.third) + chars(" ON "@)
                + text_of(h.third_on) + chars(" WHERE "@) + text_of(
                same(of("pm0"@, "ItemId"@), Expr::Given(BindView::Text(seed))),
            )
        }),
{
    let h = by_person(seed);
    let v = BindView::Text(seed);
    let c = same(of("pm0"@, "ItemId"@), Expr::Given(v));
    assert(chars(
        r#" FROM "PeopleBaseItemMap" pm0 JOIN "Peoples" p0 ON p0."Id" = pm0."PeopleId""#@,
    ) =~= chars(" FROM "@) + from_text(h.first) + chars(" JOIN "@) + from_text(h.second) + chars(
        " ON "@,
    ) + text_of(h.second_on)) by {
        reveal(Said::spec_add);
        reveal_strlit(r#" FROM "PeopleBaseItemMap" pm0 JOIN "Peoples" p0 ON p0."Id" = pm0."PeopleId""#);
        reveal_strlit(" FROM ");
        reveal_strlit("\"");
        reveal_strlit("PeopleBaseItemMap");
        reveal_strlit(" ");
        reveal_strlit("pm0");
        reveal_strlit(" JOIN ");
        reveal_strlit("Peoples");
        reveal_strlit("p0");
        reveal_strlit(" ON ");
        reveal_strlit(".");
        reveal_strlit("Id");
        reveal_strlit("PeopleId");
        reveal_strlit(" = ");
    }
    assert(chars(
        r#" JOIN "PeopleBaseItemMap" pm2 ON pm2."PeopleId" = pm0."PeopleId" WHERE pm0."ItemId" = "#@,
    ) =~= chars(" JOIN "@) + from_text(h.third) + chars(" ON "@) + text_of(h.third_on) + chars(
        " WHERE "@,
    ) + column_text("pm0"@, "ItemId"@) + chars(" = "@)) by {
        reveal(Said::spec_add);
        reveal_strlit(r#" JOIN "PeopleBaseItemMap" pm2 ON pm2."PeopleId" = pm0."PeopleId" WHERE pm0."ItemId" = "#);
        reveal_strlit("\"");
        reveal_strlit("PeopleBaseItemMap");
        reveal_strlit(" ");
        reveal_strlit("pm0");
        reveal_strlit(" JOIN ");
        reveal_strlit("pm2");
        reveal_strlit(" ON ");
        reveal_strlit(".");
        reveal_strlit("PeopleId");
        reveal_strlit(" = ");
        reveal_strlit(" WHERE ");
        reveal_strlit("ItemId");
    }
    assert(text_of(c) == column_text("pm0"@, "ItemId"@) + chars(" = "@) + hole(v));
    assert(chars(
        r#" JOIN "PeopleBaseItemMap" pm2 ON pm2."PeopleId" = pm0."PeopleId" WHERE pm0."ItemId" = "#@,
    ) + hole(v) == chars(" JOIN "@) + from_text(h.third) + chars(" ON "@) + text_of(h.third_on) + chars(
        " WHERE "@,
    ) + text_of(c)) by {
        broadcast use {lemma_said_in_turn, lemma_said_nothing};

    }
}

proof fn lemma_by_value_text(q: Sql, seed: Seq<char>) -> (out: Sql)
    ensures
        ({
            let v = BindView::Text(seed);
            let a = say(
                q,
                r#"SELECT ivm2."ItemId" AS "cand", CASE iv0."Type" WHEN 2 THEN 10 WHEN 3 THEN 5 WHEN 4 THEN 5 ELSE 0 END AS "w""#@,
            );
            let b = say(
                a,
                r#" FROM "ItemValuesMap" ivm0 JOIN "ItemValues" iv0 ON iv0."ItemValueId" = ivm0."ItemValueId""#@,
            );
            let c = say(
                b,
                r#" JOIN "ItemValuesMap" ivm2 ON ivm2."ItemValueId" = ivm0."ItemValueId" WHERE ivm0."ItemId" = "#@,
            );
            out == say(give(c, v), r#" AND iv0."Type" IN (2, 3, 4) UNION ALL "#@)
        }),
        flat(out) == flat(q) + shares_text(by_value(seed)) + chars(" UNION ALL "@),
{
    let v = BindView::Text(seed);
    let h = by_value(seed);
    let t1 = r#"SELECT ivm2."ItemId" AS "cand", CASE iv0."Type" WHEN 2 THEN 10 WHEN 3 THEN 5 WHEN 4 THEN 5 ELSE 0 END AS "w""#@;
    let t2 = r#" FROM "ItemValuesMap" ivm0 JOIN "ItemValues" iv0 ON iv0."ItemValueId" = ivm0."ItemValueId""#@;
    let t3 = r#" JOIN "ItemValuesMap" ivm2 ON ivm2."ItemValueId" = ivm0."ItemValueId" WHERE ivm0."ItemId" = "#@;
    let t4 = r#" AND iv0."Type" IN (2, 3, 4) UNION ALL "#@;
    let a = say(q, t1);
    let b = say(a, t2);
    let c = say(b, t3);
    let d = give(c, v);
    let out = say(d, t4);
    lemma_flat_say(q, t1);
    lemma_flat_say(a, t2);
    lemma_flat_say(b, t3);
    lemma_flat_give(c, v);
    lemma_flat_say(d, t4);
    lemma_value_heads();
    lemma_value_joins(seed);
    let s = same(of("ivm0"@, "ItemId"@), Expr::Given(v));
    let kinds = column_text("iv0"@, "Type"@) + chars(" IN ("@) + chars("2"@) + chars(", "@) + chars(
        "3"@,
    ) + chars(", "@) + chars("4"@) + chars(")"@);
    assert(chars(t4) =~= chars(" AND "@) + kinds + chars(" UNION ALL "@)) by {
        reveal(Said::spec_add);
        reveal_strlit(r#" AND iv0."Type" IN (2, 3, 4) UNION ALL "#);
        reveal_strlit(" AND ");
        reveal_strlit("iv0");
        reveal_strlit(".");
        reveal_strlit("\"");
        reveal_strlit("Type");
        reveal_strlit(" IN (");
        reveal_strlit("2");
        reveal_strlit(", ");
        reveal_strlit("3");
        reveal_strlit("4");
        reveal_strlit(")");
        reveal_strlit(" UNION ALL ");
    }
    assert(text_of(h.cond) == text_of(s) + chars(" AND "@) + text_of(value_kinds()));
    reveal(shares_text);
    let end = chars(t3) + hole(v);
    assert(flat(out) == flat(q) + chars(t1) + chars(t2) + end + chars(t4)) by {
        broadcast use {lemma_said_in_turn, lemma_said_nothing};

    }
    assert(flat(out) == flat(q) + shares_text(h) + chars(" UNION ALL "@)) by {
        broadcast use {lemma_said_in_turn, lemma_said_nothing};

    }
    out
}

proof fn lemma_by_person_text(q: Sql, seed: Seq<char>) -> (out: Sql)
    ensures
        ({
            let v = BindView::Text(seed);
            let a = say(
                q,
                r#"SELECT pm2."ItemId" AS "cand", CASE p0."PersonType" WHEN 'Director' THEN 50 ELSE 15 END AS "w""#@,
            );
            let b = say(
                a,
                r#" FROM "PeopleBaseItemMap" pm0 JOIN "Peoples" p0 ON p0."Id" = pm0."PeopleId""#@,
            );
            let c = say(
                b,
                r#" JOIN "PeopleBaseItemMap" pm2 ON pm2."PeopleId" = pm0."PeopleId" WHERE pm0."ItemId" = "#@,
            );
            out == say(
                give(c, v),
                r#" AND p0."PersonType" IN ('Director', 'Actor', 'GuestStar')) scored WHERE scored."cand" <> "#@,
            )
        }),
        flat(out) == flat(q) + shares_text(by_person(seed)) + chars(
            r#") scored WHERE scored."cand" <> "#@,
        ),
{
    let v = BindView::Text(seed);
    let h = by_person(seed);
    let t1 = r#"SELECT pm2."ItemId" AS "cand", CASE p0."PersonType" WHEN 'Director' THEN 50 ELSE 15 END AS "w""#@;
    let t2 = r#" FROM "PeopleBaseItemMap" pm0 JOIN "Peoples" p0 ON p0."Id" = pm0."PeopleId""#@;
    let t3 = r#" JOIN "PeopleBaseItemMap" pm2 ON pm2."PeopleId" = pm0."PeopleId" WHERE pm0."ItemId" = "#@;
    let t4 = r#" AND p0."PersonType" IN ('Director', 'Actor', 'GuestStar')) scored WHERE scored."cand" <> "#@;
    let a = say(q, t1);
    let b = say(a, t2);
    let c = say(b, t3);
    let d = give(c, v);
    let out = say(d, t4);
    lemma_flat_say(q, t1);
    lemma_flat_say(a, t2);
    lemma_flat_say(b, t3);
    lemma_flat_give(c, v);
    lemma_flat_say(d, t4);
    lemma_person_heads();
    lemma_person_joins(seed);
    let s = same(of("pm0"@, "ItemId"@), Expr::Given(v));
    assert(text_of(h.cond) == text_of(s) + chars(" AND "@) + text_of(person_kinds()));
    reveal(shares_text);
    let end = chars(t3) + hole(v);
    assert(flat(out) == flat(q) + chars(t1) + chars(t2) + end + chars(t4)) by {
        broadcast use {lemma_said_in_turn, lemma_said_nothing};

    }
    assert(flat(out) == flat(q) + shares_text(h) + chars(r#") scored WHERE scored."cand" <> "#@)) by {
        broadcast use {lemma_said_in_turn, lemma_said_nothing};

    }
    out
}

spec fn similar_conds(seed_type: Seq<char>, exclude: Seq<Guid>) -> Seq<Cond> {
    let kind = same(of("bi"@, "Type"@), Expr::Given(BindView::Text(seed_type)));
    if exclude.len() == 0 {
        seq![kind]
    } else {
        seq![kind, Cond::NotIn(of("bi"@, "Id"@), plain_guid_values(exclude))]
    }
}

spec fn similar_ranked(seed: Seq<char>, seed_type: Seq<char>, exclude: Seq<Guid>, limit: int) -> Ranked {
    Ranked {
        one: by_value(seed),
        other: by_person(seed),
        seed: BindView::Text(seed),
        conds: similar_conds(seed_type, exclude),
        limit: BindView::Int(
            if limit > 0 {
                limit
            } else {
                0
            },
        ),
    }
}

proof fn lemma_similar_text(seed: Seq<char>, seed_type: Seq<char>, exclude: Seq<Guid>, limit: int)
    ensures
        flat(similar_sql(seed, seed_type, exclude, limit)) == ranked_text(
            similar_ranked(seed, seed_type, exclude, limit),
        ),
{
    let r = similar_ranked(seed, seed_type, exclude, limit);
    let t0 = r#"SELECT bi.* FROM (SELECT scored."cand" AS id, SUM(scored."w") AS score FROM ("#@;
    let q0: Sql = say(Seq::empty(), t0);
    lemma_flat_say(Seq::empty(), t0);
    assert(flat(Seq::empty()) == nothing());
    assert(nothing() + chars(t0) =~= chars(t0)) by {
        reveal(Said::spec_add);
    }
    let q1 = lemma_by_value_text(q0, seed);
    let q2 = lemma_by_person_text(q1, seed);
    let v = BindView::Text(seed);
    let k = BindView::Text(seed_type);
    let q3 = give(q2, v);
    let t3 = r#" GROUP BY scored."cand") s JOIN "BaseItems" bi ON bi."Id" = s.id WHERE bi."Type" = "#@;
    let q4 = say(q3, t3);
    let q5 = give(q4, k);
    lemma_flat_give(q2, v);
    lemma_flat_say(q3, t3);
    lemma_flat_give(q4, k);
    let join = r#" GROUP BY scored."cand") s JOIN "BaseItems" bi ON bi."Id" = s.id WHERE "#@;
    assert(chars(t3) =~= chars(join) + column_text("bi"@, "Type"@) + chars(" = "@)) by {
        reveal(Said::spec_add);
        reveal_strlit(r#" GROUP BY scored."cand") s JOIN "BaseItems" bi ON bi."Id" = s.id WHERE bi."Type" = "#);
        reveal_strlit(r#" GROUP BY scored."cand") s JOIN "BaseItems" bi ON bi."Id" = s.id WHERE "#);
        reveal_strlit("bi");
        reveal_strlit(".");
        reveal_strlit("\"");
        reveal_strlit("Type");
        reveal_strlit(" = ");
    }
    let kind = same(of("bi"@, "Type"@), Expr::Given(k));
    assert(text_of(kind) == column_text("bi"@, "Type"@) + chars(" = "@) + hole(k));
    let t6 = r#" AND bi."Id" NOT IN ("#@;
    let values = plain_guid_values(exclude);
    let q6 = if exclude.len() == 0 {
        q5
    } else {
        say(give_all(say(q5, t6), values), ")"@)
    };
    let conds = similar_conds(seed_type, exclude);
    if exclude.len() == 0 {
        assert(conds_text(conds) == text_of(kind));
        assert(flat(q6) == flat(q3) + chars(join) + conds_text(conds)) by {
            broadcast use {lemma_said_in_turn, lemma_said_nothing};

        }
    } else {
        lemma_flat_say(q5, t6);
        lemma_flat_give_all(say(q5, t6), values);
        lemma_flat_say(give_all(say(q5, t6), values), ")"@);
        let no = Cond::NotIn(of("bi"@, "Id"@), values);
        assert(chars(t6) =~= chars(" AND "@) + column_text("bi"@, "Id"@) + chars(" NOT IN ("@)) by {
            reveal(Said::spec_add);
            reveal_strlit(r#" AND bi."Id" NOT IN ("#);
            reveal_strlit(" AND ");
            reveal_strlit("bi");
            reveal_strlit(".");
            reveal_strlit("\"");
            reveal_strlit("Id");
            reveal_strlit(" NOT IN (");
        }
        assert(conds.drop_last() =~= seq![kind]);
        assert(conds_text(seq![kind]) == text_of(kind));
        assert(conds_text(conds) == text_of(kind) + chars(" AND "@) + text_of(no));
        assert(flat(q6) == flat(q3) + chars(join) + conds_text(conds)) by {
            broadcast use {lemma_said_in_turn, lemma_said_nothing};

        }
    }
    let t7 = r#" ORDER BY s.score DESC, bi."SortName" ASC, bi."Id" ASC LIMIT "#@;
    let q7 = say(q6, t7);
    lemma_flat_say(q6, t7);
    lemma_flat_give(q7, r.limit);
    let q = give(q7, r.limit);
    assert(q == similar_sql(seed, seed_type, exclude, limit));
    let start = chars(t0) + shares_text(r.one) + chars(" UNION ALL "@) + shares_text(r.other) + chars(
        r#") scored WHERE scored."cand" <> "#@,
    ) + hole(v);
    assert(flat(q3) == start);
    assert(flat(q) == start + chars(join) + conds_text(conds) + chars(t7) + hole(r.limit)) by {
        broadcast use {lemma_said_in_turn, lemma_said_nothing};

    }
}

proof fn lemma_sums_agree(n: nat, f: spec_fn(int) -> int, g: spec_fn(int) -> int)
    requires
        forall|i: int| 0 <= i < n ==> #[trigger] f(i) == g(i),
    ensures
        sum(n, f) == sum(n, g),
    decreases n,
{
    if n > 0 {
        lemma_sums_agree((n - 1) as nat, f, g);
        assert(f(n - 1) == g(n - 1));
    }
}

proof fn lemma_triple_sums_agree(
    a: Seq<Row>,
    b: Seq<Row>,
    c: Seq<Row>,
    f: spec_fn(Row, Row, Row) -> int,
    g: spec_fn(Row, Row, Row) -> int,
)
    requires
        forall|x: Row, y: Row, z: Row| #[trigger] f(x, y, z) == g(x, y, z),
    ensures
        sum_over(a, b, c, f) == sum_over(a, b, c, g),
{
    let ff = |i: int| sum(b.len(), |j: int| sum(c.len(), |k: int| f(a[i], b[j], c[k])));
    let gg = |i: int| sum(b.len(), |j: int| sum(c.len(), |k: int| g(a[i], b[j], c[k])));
    assert forall|i: int| 0 <= i < a.len() implies #[trigger] ff(i) == gg(i) by {
        let fi = |j: int| sum(c.len(), |k: int| f(a[i], b[j], c[k]));
        let gi = |j: int| sum(c.len(), |k: int| g(a[i], b[j], c[k]));
        assert forall|j: int| 0 <= j < b.len() implies #[trigger] fi(j) == gi(j) by {
            let fj = |k: int| f(a[i], b[j], c[k]);
            let gj = |k: int| g(a[i], b[j], c[k]);
            assert forall|k: int| 0 <= k < c.len() implies #[trigger] fj(k) == gj(k) by {
                assert(f(a[i], b[j], c[k]) == g(a[i], b[j], c[k]));
            }
            lemma_sums_agree(c.len(), fj, gj);
        }
        lemma_sums_agree(b.len(), fi, gi);
    }
    lemma_sums_agree(a.len(), ff, gg);
}

proof fn lemma_value_share(seed: Seq<char>, id: Val, a: Row, b: Row, c: Row, db: Db)
    ensures
        shares_so(by_value(seed), id, a, b, c, db) <==> both_have_value(seed, id, a, b, c)
            && value_weight(b("Type"@)) > 0,
        share_of(by_value(seed), id, a, b, c, db) == if both_have_value(seed, id, a, b, c) {
            value_weight(b("Type"@))
        } else {
            0
        },
{
    let h = by_value(seed);
    let s = triple(h, a, b, c);
    assert("ivm0"@ != "iv0"@ && "ivm0"@ != "ivm2"@ && "iv0"@ != "ivm2"@) by {
        reveal_strlit("ivm0");
        reveal_strlit("iv0");
        reveal_strlit("ivm2");
        assert("ivm0"@[3] != "ivm2"@[3]);
        assert("ivm0"@.len() != "iv0"@.len());
        assert("ivm2"@.len() != "iv0"@.len());
    }
    assert(s("ivm0"@) == a && s("iv0"@) == b && s("ivm2"@) == c);
    let v = BindView::Text(seed);
    let mine = same(of("ivm0"@, "ItemId"@), Expr::Given(v));
    let kind = b("Type"@);
    assert(truth(h.second_on, s, db) == compared(b("ItemValueId"@), Op::Eq, a("ItemValueId"@), db));
    assert(truth(h.third_on, s, db) == compared(c("ItemValueId"@), Op::Eq, a("ItemValueId"@), db));
    assert(truth(mine, s, db) == compared(a("ItemId"@), Op::Eq, Val::Text(seed), db));
    assert(truth(h.cond, s, db) == both(truth(mine, s, db), truth(value_kinds(), s, db)));
    let list = seq![Expr::Number(2), Expr::Number(3), Expr::Number(4)];
    assert(truth(value_kinds(), s, db) == Some(true) <==> kind == Val::Int(2) || kind == Val::Int(3)
        || kind == Val::Int(4)) by {
        assert(value_of(list[0], s, db) == Val::Int(2));
        assert(value_of(list[1], s, db) == Val::Int(3));
        assert(value_of(list[2], s, db) == Val::Int(4));
        if truth(value_kinds(), s, db) == Some(true) {
            let i = choose|i: int|
                0 <= i < list.len() && value_of(#[trigger] list[i], s, db) == kind;
            assert(i == 0 || i == 1 || i == 2);
        }
    }
    let arms = h.weight.arms;
    assert(arms.drop_first() =~= seq![(Expr::Number(3), 5int), (Expr::Number(4), 5int)]);
    assert(arms.drop_first().drop_first() =~= seq![(Expr::Number(4), 5int)]);
    assert(weight_of(kind, arms.drop_first().drop_first(), 0, s, db) == if kind == Val::Int(4) {
        5int
    } else {
        weight_of(kind, arms.drop_first().drop_first().drop_first(), 0, s, db)
    });
    assert(weight_of(kind, arms.drop_first(), 0, s, db) == if kind == Val::Int(3) {
        5int
    } else {
        weight_of(kind, arms.drop_first().drop_first(), 0, s, db)
    });
    assert(weight_of(kind, arms, 0, s, db) == if kind == Val::Int(2) {
        10int
    } else {
        weight_of(kind, arms.drop_first(), 0, s, db)
    });
}

proof fn lemma_person_share(seed: Seq<char>, id: Val, a: Row, b: Row, c: Row, db: Db)
    ensures
        shares_so(by_person(seed), id, a, b, c, db) <==> both_credit(seed, id, a, b, c)
            && person_weight(b("PersonType"@)) > 0,
        share_of(by_person(seed), id, a, b, c, db) == if both_credit(seed, id, a, b, c) {
            person_weight(b("PersonType"@))
        } else {
            0
        },
{
    let h = by_person(seed);
    let s = triple(h, a, b, c);
    assert("pm0"@ != "p0"@ && "pm0"@ != "pm2"@ && "p0"@ != "pm2"@) by {
        reveal_strlit("pm0");
        reveal_strlit("p0");
        reveal_strlit("pm2");
        assert("pm0"@[2] != "pm2"@[2]);
        assert("pm0"@.len() != "p0"@.len());
        assert("pm2"@.len() != "p0"@.len());
    }
    assert(s("pm0"@) == a && s("p0"@) == b && s("pm2"@) == c);
    let v = BindView::Text(seed);
    let mine = same(of("pm0"@, "ItemId"@), Expr::Given(v));
    let kind = b("PersonType"@);
    assert(truth(h.second_on, s, db) == compared(b("Id"@), Op::Eq, a("PeopleId"@), db));
    assert(truth(h.third_on, s, db) == compared(c("PeopleId"@), Op::Eq, a("PeopleId"@), db));
    assert(truth(mine, s, db) == compared(a("ItemId"@), Op::Eq, Val::Text(seed), db));
    assert(truth(h.cond, s, db) == both(truth(mine, s, db), truth(person_kinds(), s, db)));
    let list = seq![Expr::Quoted("Director"@), Expr::Quoted("Actor"@), Expr::Quoted("GuestStar"@)];
    assert(truth(person_kinds(), s, db) == Some(true) <==> kind == Val::Text("Director"@) || kind
        == Val::Text("Actor"@) || kind == Val::Text("GuestStar"@)) by {
        assert(value_of(list[0], s, db) == Val::Text("Director"@));
        assert(value_of(list[1], s, db) == Val::Text("Actor"@));
        assert(value_of(list[2], s, db) == Val::Text("GuestStar"@));
        if truth(person_kinds(), s, db) == Some(true) {
            let i = choose|i: int|
                0 <= i < list.len() && value_of(#[trigger] list[i], s, db) == kind;
            assert(i == 0 || i == 1 || i == 2);
        }
    }
    let arms = h.weight.arms;
    assert(weight_of(kind, arms, 15, s, db) == if kind == Val::Text("Director"@) {
        50int
    } else {
        weight_of(kind, arms.drop_first(), 15, s, db)
    });
    assert(arms.drop_first() =~= Seq::<(Expr, int)>::empty());
}

proof fn lemma_similar_meaning(
    seed: Seq<char>,
    seed_type: Seq<char>,
    exclude: Seq<Guid>,
    limit: int,
    row: Row,
    db: Db,
)
    ensures
        ({
            let r = similar_ranked(seed, seed_type, exclude, limit);
            &&& is_ranked(r, row, db) <==> is_similar(row, db, seed, seed_type, exclude)
            &&& rank_of(r, row, db) == similarity(row, db, seed)
        }),
{
    let r = similar_ranked(seed, seed_type, exclude, limit);
    let id = row("Id"@);
    let links = (db.tables)("ItemValuesMap"@);
    let values = (db.tables)("ItemValues"@);
    let credits = (db.tables)("PeopleBaseItemMap"@);
    let people = (db.tables)("Peoples"@);
    let f1 = |a: Row, b: Row, c: Row| share_of(r.one, id, a, b, c, db);
    let g1 = |mine: Row, value: Row, theirs: Row|
        if both_have_value(seed, id, mine, value, theirs) {
            value_weight(value("Type"@))
        } else {
            0
        };
    assert forall|x: Row, y: Row, z: Row| #[trigger] f1(x, y, z) == g1(x, y, z) by {
        lemma_value_share(seed, id, x, y, z, db);
    }
    lemma_triple_sums_agree(links, values, links, f1, g1);
    let f2 = |a: Row, b: Row, c: Row| share_of(r.other, id, a, b, c, db);
    let g2 = |mine: Row, person: Row, theirs: Row|
        if both_credit(seed, id, mine, person, theirs) {
            person_weight(person("PersonType"@))
        } else {
            0
        };
    assert forall|x: Row, y: Row, z: Row| #[trigger] f2(x, y, z) == g2(x, y, z) by {
        lemma_person_share(seed, id, x, y, z, db);
    }
    lemma_triple_sums_agree(credits, people, credits, f2, g2);
    let s1 = |a: Row, b: Row, c: Row| shares_so(r.one, id, a, b, c, db);
    let t1 = |mine: Row, value: Row, theirs: Row|
        both_have_value(seed, id, mine, value, theirs) && value_weight(value("Type"@)) > 0;
    assert forall|x: Row, y: Row, z: Row| #[trigger] s1(x, y, z) <==> t1(x, y, z) by {
        lemma_value_share(seed, id, x, y, z, db);
    }
    lemma_some_agree(links, values, links, s1, t1);
    let s2 = |a: Row, b: Row, c: Row| shares_so(r.other, id, a, b, c, db);
    let t2 = |mine: Row, person: Row, theirs: Row|
        both_credit(seed, id, mine, person, theirs) && person_weight(person("PersonType"@)) > 0;
    assert forall|x: Row, y: Row, z: Row| #[trigger] s2(x, y, z) <==> t2(x, y, z) by {
        lemma_person_share(seed, id, x, y, z, db);
    }
    lemma_some_agree(credits, people, credits, s2, t2);
    if !(id is Null) {
        lemma_similar_conds(seed_type, exclude, row, db);
    }
}

proof fn lemma_some_agree(
    a: Seq<Row>,
    b: Seq<Row>,
    c: Seq<Row>,
    f: spec_fn(Row, Row, Row) -> bool,
    g: spec_fn(Row, Row, Row) -> bool,
)
    requires
        forall|x: Row, y: Row, z: Row| #[trigger] f(x, y, z) <==> g(x, y, z),
    ensures
        some_of(a, b, c, f) <==> some_of(a, b, c, g),
{
    if some_of(a, b, c, f) {
        let (i, j, k) = choose|i: int, j: int, k: int|
            0 <= i < a.len() && 0 <= j < b.len() && 0 <= k < c.len() && f(
                #[trigger] a[i],
                #[trigger] b[j],
                #[trigger] c[k],
            );
        assert(g(a[i], b[j], c[k]));
    }
    if some_of(a, b, c, g) {
        let (i, j, k) = choose|i: int, j: int, k: int|
            0 <= i < a.len() && 0 <= j < b.len() && 0 <= k < c.len() && g(
                #[trigger] a[i],
                #[trigger] b[j],
                #[trigger] c[k],
            );
        assert(f(a[i], b[j], c[k]));
    }
}

proof fn lemma_similar_conds(seed_type: Seq<char>, exclude: Seq<Guid>, row: Row, db: Db)
    requires
        !(row("Id"@) is Null),
    ensures
        all_true(similar_conds(seed_type, exclude), only(row), db) <==> row("Type"@) == Val::Text(
            seed_type,
        ) && forall|i: int|
            0 <= i < exclude.len() ==> row("Id"@) != Val::Text(
                hyphenated_text((#[trigger] exclude[i]).value),
            ),
{
    let s = only(row);
    let cs = similar_conds(seed_type, exclude);
    let kind = same(of("bi"@, "Type"@), Expr::Given(BindView::Text(seed_type)));
    let values = plain_guid_values(exclude);
    let no = Cond::NotIn(of("bi"@, "Id"@), values);
    let id = row("Id"@);
    assert(truth(kind, s, db) == compared(row("Type"@), Op::Eq, Val::Text(seed_type), db));
    assert(cs[0] == kind);
    if exclude.len() > 0 {
        assert(cs[1] == no);
        assert(truth(no, s, db) == Some(
            !(exists|i: int| 0 <= i < values.len() && given(#[trigger] values[i], db) == id),
        ));
        if exists|i: int|
            0 <= i < exclude.len() && id == Val::Text(
                hyphenated_text((#[trigger] exclude[i]).value),
            ) {
            let i = choose|i: int|
                0 <= i < exclude.len() && id == Val::Text(
                    hyphenated_text((#[trigger] exclude[i]).value),
                );
            assert(given(values[i], db) == id);
        }
        if exists|i: int| 0 <= i < values.len() && given(#[trigger] values[i], db) == id {
            let i = choose|i: int| 0 <= i < values.len() && given(#[trigger] values[i], db) == id;
            assert(id == Val::Text(hyphenated_text(exclude[i].value)));
        }
    }
}

/// The statement for items like a seed ranks the items of its type that share a genre, a
/// studio, a tag, a director, an actor or a guest star with it and are not excluded, by
/// what they share: ten for each genre, five for each studio and tag, fifty for each
/// director and fifteen for each actor and guest star. Those that share most come first,
/// and an item is left out only where the list is full of such as share as much.
pub proof fn law_similar_items_are_ranked_by_what_they_share(
    seed: Seq<char>,
    seed_type: Seq<char>,
    exclude: Seq<Guid>,
    limit: int,
)
    ensures
        exists|r: Ranked| #[trigger]
            ranks(r, similar_sql(seed, seed_type, exclude, limit)) && forall|db: Db, answer: Seq<Row>|
                #[trigger] is_ranking(r, db, answer) ==> are_most_similar(
                    answer,
                    db,
                    seed,
                    seed_type,
                    exclude,
                    limit,
                ),
{
    let r = similar_ranked(seed, seed_type, exclude, limit);
    lemma_similar_text(seed, seed_type, exclude, limit);
    let conds = r.conds;
    assert forall|i: int| 0 <= i < conds.len() implies reads_so(#[trigger] conds[i]) && !(
    conds[i] is Or) by {
        assert(i == 0 || i == 1);
    }
    assert(ranks(r, similar_sql(seed, seed_type, exclude, limit)));
    assert forall|db: Db, answer: Seq<Row>| #[trigger]
        is_ranking(r, db, answer) implies are_most_similar(
        answer,
        db,
        seed,
        seed_type,
        exclude,
        limit,
    ) by {
        assert forall|row: Row| #[trigger] is_ranked(r, row, db) <==> is_similar(
            row,
            db,
            seed,
            seed_type,
            exclude,
        ) by {
            lemma_similar_meaning(seed, seed_type, exclude, limit, row, db);
        }
        assert forall|row: Row| #[trigger] rank_of(r, row, db) == similarity(row, db, seed) by {
            lemma_similar_meaning(seed, seed_type, exclude, limit, row, db);
        }
        let items = (db.tables)("BaseItems"@);
        assert forall|i: int, j: int| 0 <= i < j < answer.len() implies similarity(
            #[trigger] answer[i],
            db,
            seed,
        ) >= similarity(#[trigger] answer[j], db, seed) by {
            assert(rank_of(r, answer[i], db) >= rank_of(r, answer[j], db));
        }
        assert forall|row: Row| #[trigger]
            items.contains(row) && is_similar(row, db, seed, seed_type, exclude) && !answer.contains(
                row,
            ) implies answer.len() == (if limit > 0 {
            limit
        } else {
            0
        }) && forall|i: int|
            0 <= i < answer.len() ==> similarity(#[trigger] answer[i], db, seed) >= similarity(
                row,
                db,
                seed,
            ) by {
            assert(is_ranked(r, row, db));
            assert forall|i: int| 0 <= i < answer.len() implies similarity(
                #[trigger] answer[i],
                db,
                seed,
            ) >= similarity(row, db, seed) by {
                assert(rank_of(r, answer[i], db) >= rank_of(r, row, db));
            }
        }
    }
}

/// Whether a statement spells a ranked statement.
pub open spec fn ranks(r: Ranked, q: Sql) -> bool {
    flat(q) == ranked_text(r) && all_read_so(r.conds)
}

/// Whether a list holds the items most like the seed, up to a limit: those that share most
/// come first, and one is left out only where the list is full of such as share as much.
pub open spec fn are_most_similar(
    answer: Seq<Row>,
    db: Db,
    seed: Seq<char>,
    seed_type: Seq<char>,
    exclude: Seq<Guid>,
    limit: int,
) -> bool {
    let most = if limit > 0 {
        limit
    } else {
        0
    };
    &&& answer.len() <= most
    &&& forall|i: int|
        0 <= i < answer.len() ==> is_similar(#[trigger] answer[i], db, seed, seed_type, exclude)
    &&& forall|i: int, j: int|
        0 <= i < j < answer.len() ==> similarity(#[trigger] answer[i], db, seed) >= similarity(
            #[trigger] answer[j],
            db,
            seed,
        )
    &&& forall|row: Row| #[trigger]
        (db.tables)("BaseItems"@).contains(row) && is_similar(row, db, seed, seed_type, exclude)
            && !answer.contains(row) ==> answer.len() == most && forall|i: int|
            0 <= i < answer.len() ==> similarity(#[trigger] answer[i], db, seed) >= similarity(
                row,
                db,
                seed,
            )
}


} // verus!
