//! What the statements that store users write, and where.
use vstd::prelude::*;

use crate::guid::{hyphenated_text, Guid};
use crate::user_manager::{
    attempts_after, count_failure_sql, delete_user_sql, password_sql, rename_sql,
    subtitle_mode_number, sync_play_number, update_configuration_sql, update_policy_sql,
    update_user_sql, user_by_name_sql, wide, with_id, UserConfiguration, UserPolicy, UserRow,
};
use crate::number_text::decimal;
use crate::sql::{give, opt_int, say, BindView, PieceView, Sql};
use crate::sql_meaning::{
    all_true, chars, compared, conds_text, flat, hole, lemma_flat_give, lemma_flat_say,
    lemma_said_in_turn, lemma_said_nothing, nothing, only, quoted, reads_so, select_head, selects,
    spells_select, text_of, truth, Cond, Db, Expr, From, Op, Row, Said, Val,
};
use crate::text::{opt_text, uppercase};

verus! {

// ---------------------------------------------------------------------------
// Statements that write
// ---------------------------------------------------------------------------
/// What a column is set to.
pub enum NewValue {
    /// A value that is given with the statement.
    Given(BindView),
    Number(int),
    /// One more than what the column holds.
    Raised,
}

/// A column, and what it is set to.
pub struct Assign {
    pub column: Seq<char>,
    pub value: NewValue,
}

/// The text of what a column is set to.
pub open spec fn assign_text(a: Assign) -> Said {
    quoted(a.column) + chars(" = "@) + match a.value {
        NewValue::Given(v) => hole(v),
        NewValue::Number(n) => chars(decimal(n)),
        NewValue::Raised => quoted(a.column) + chars(" + 1"@),
    }
}

/// The text of what columns are set to.
pub open spec fn assigns_text(list: Seq<Assign>) -> Said
    decreases list.len(),
{
    if list.len() == 0 {
        nothing()
    } else if list.len() == 1 {
        assign_text(list[0])
    } else {
        assigns_text(list.drop_last()) + chars(", "@) + assign_text(list.last())
    }
}

/// The beginning of a statement that writes to a table.
pub open spec fn update_head(table: Seq<char>) -> Said {
    chars("UPDATE "@) + quoted(table) + chars(" SET "@)
}

/// Whether a statement writes to the rows of a table that meet a condition.
pub open spec fn spells_update(q: Sql, table: Seq<char>, list: Seq<Assign>, c: Cond) -> bool {
    &&& list.len() > 0
    &&& reads_so(c)
    &&& flat(q) == update_head(table) + assigns_text(list) + chars(" WHERE "@) + text_of(c)
}

/// Whether a statement sets columns in exactly those rows of a table of which `p` holds.
pub open spec fn updates(
    q: Sql,
    table: Seq<char>,
    list: Seq<Assign>,
    p: spec_fn(Row, Db) -> bool,
) -> bool {
    exists|c: Cond| #[trigger]
        spells_update(q, table, list, c) && forall|row: Row, db: Db| #[trigger]
            truth(c, only(row), db) == Some(true) <==> p(row, db)
}

/// Whether a column is set to a value.
pub open spec fn sets(list: Seq<Assign>, column: Seq<char>, value: NewValue) -> bool {
    list.contains(Assign { column, value })
}

/// Whether a statement removes exactly those rows of a table of which `p` holds.
pub open spec fn removes(q: Sql, table: Seq<char>, p: spec_fn(Row, Db) -> bool) -> bool {
    exists|c: Cond| #[trigger]
        spells_delete(q, table, c) && forall|row: Row, db: Db| #[trigger]
            truth(c, only(row), db) == Some(true) <==> p(row, db)
}

/// Whether a statement removes the rows of a table that meet a condition.
pub open spec fn spells_delete(q: Sql, table: Seq<char>, c: Cond) -> bool {
    &&& reads_so(c)
    &&& flat(q) == chars("DELETE FROM "@) + quoted(table) + chars(" WHERE "@) + text_of(c)
}

/// Whether a row has an identifier.
pub open spec fn has_id(id: Seq<char>) -> spec_fn(Row, Db) -> bool {
    |row: Row, db: Db| row("Id"@) == Val::Text(id)
}

/// Whether a row is of a user.
pub open spec fn is_of(id: Seq<char>) -> spec_fn(Row, Db) -> bool {
    |row: Row, db: Db| row("UserId"@) == Val::Text(id)
}

spec fn bare_is(name: Seq<char>, v: BindView) -> Cond {
    Cond::Compare(Expr::Bare { name }, Op::Eq, Expr::Given(v))
}

proof fn lemma_bare(name: Seq<char>, id: Seq<char>)
    ensures
        text_of(bare_is(name, BindView::Text(id))) == quoted(name) + chars(" = "@) + hole(
            BindView::Text(id),
        ),
        reads_so(bare_is(name, BindView::Text(id))),
        forall|row: Row, db: Db| #[trigger]
            truth(bare_is(name, BindView::Text(id)), only(row), db) == Some(true) <==> row(name)
                == Val::Text(id),
{
    let c = bare_is(name, BindView::Text(id));
    assert forall|row: Row, db: Db| #[trigger]
        truth(c, only(row), db) == Some(true) <==> row(name) == Val::Text(id) by {
        assert(truth(c, only(row), db) == compared(row(name), Op::Eq, Val::Text(id), db));
    }
}

proof fn lemma_first_assign(table: Seq<char>, t: Seq<char>, column: Seq<char>, v: BindView) -> (r: Seq<
    Assign,
>)
    requires
        chars(t) == update_head(table) + quoted(column) + chars(" = "@),
    ensures
        r.len() == 1,
        flat(give(say(Seq::<PieceView>::empty(), t), v)) == update_head(table) + assigns_text(r),
        sets(r, column, NewValue::Given(v)),
{
    let empty = Seq::<PieceView>::empty();
    let a = Assign { column, value: NewValue::Given(v) };
    let r = seq![a];
    lemma_flat_say(empty, t);
    lemma_flat_give(say(empty, t), v);
    assert(flat(empty) + chars(t) =~= chars(t)) by {
        reveal(Said::spec_add);
    }
    assert(r[0] == a);
    assert(assign_text(a) == quoted(column) + chars(" = "@) + hole(v));
    assert(flat(give(say(empty, t), v)) == update_head(table) + assigns_text(r)) by {
        broadcast use {lemma_said_in_turn, lemma_said_nothing};

    }
    r
}

proof fn lemma_next_assign(
    table: Seq<char>,
    q: Sql,
    list: Seq<Assign>,
    t: Seq<char>,
    column: Seq<char>,
    v: BindView,
) -> (r: Seq<Assign>)
    requires
        list.len() > 0,
        flat(q) == update_head(table) + assigns_text(list),
        chars(t) == chars(", "@) + quoted(column) + chars(" = "@),
    ensures
        r.len() == list.len() + 1,
        flat(give(say(q, t), v)) == update_head(table) + assigns_text(r),
        sets(r, column, NewValue::Given(v)),
        forall|c: Seq<char>, w: NewValue| sets(list, c, w) ==> #[trigger] sets(r, c, w),
{
    let a = Assign { column, value: NewValue::Given(v) };
    let r = list.push(a);
    let n = list.len() as int;
    lemma_flat_say(q, t);
    lemma_flat_give(say(q, t), v);
    assert(r.drop_last() =~= list);
    assert(r[n] == a);
    assert(assign_text(a) == quoted(column) + chars(" = "@) + hole(v));
    assert(flat(give(say(q, t), v)) == update_head(table) + assigns_text(r)) by {
        broadcast use {lemma_said_in_turn, lemma_said_nothing};

    }
    assert forall|c: Seq<char>, w: NewValue| sets(list, c, w) implies #[trigger] sets(r, c, w) by {
        let i = choose|i: int|
            0 <= i < list.len() && list[i] == (Assign { column: c, value: w });
        assert(r[i] == list[i]);
    }
    r
}

proof fn lemma_raised_where(table: Seq<char>, q: Sql, list: Seq<Assign>, id: Seq<char>) -> (r: Seq<
    Assign,
>)
    requires
        list.len() > 0,
        flat(q) == update_head(table) + assigns_text(list),
    ensures
        r.len() == list.len() + 1,
        updates(
            give(
                say(q, r#", "RowVersion" = "RowVersion" + 1 WHERE "Id" = "#@),
                BindView::Text(id),
            ),
            table,
            r,
            has_id(id),
        ),
        sets(r, "RowVersion"@, NewValue::Raised),
        forall|c: Seq<char>, w: NewValue| sets(list, c, w) ==> #[trigger] sets(r, c, w),
{
    let t = r#", "RowVersion" = "RowVersion" + 1 WHERE "Id" = "#@;
    let v = BindView::Text(id);
    let all = give(say(q, t), v);
    let a = Assign { column: "RowVersion"@, value: NewValue::Raised };
    let r = list.push(a);
    let n = list.len() as int;
    let c = bare_is("Id"@, v);
    lemma_bare("Id"@, id);
    lemma_flat_say(q, t);
    lemma_flat_give(say(q, t), v);
    assert(r.drop_last() =~= list);
    assert(r[n] == a);
    assert(assign_text(a) == quoted("RowVersion"@) + chars(" = "@) + (quoted("RowVersion"@) + chars(
        " + 1"@,
    )));
    assert(chars(t) =~= chars(", "@) + (quoted("RowVersion"@) + chars(" = "@) + (quoted(
        "RowVersion"@,
    ) + chars(" + 1"@))) + chars(" WHERE "@) + quoted("Id"@) + chars(" = "@)) by {
        reveal(Said::spec_add);
        reveal_strlit(r#", "RowVersion" = "RowVersion" + 1 WHERE "Id" = "#);
        reveal_strlit(", ");
        reveal_strlit("\"");
        reveal_strlit("RowVersion");
        reveal_strlit(" = ");
        reveal_strlit(" + 1");
        reveal_strlit(" WHERE ");
        reveal_strlit("Id");
    }
    assert(flat(all) == update_head(table) + assigns_text(r) + chars(" WHERE "@) + text_of(c)) by {
        broadcast use {lemma_said_in_turn, lemma_said_nothing};

    }
    assert(spells_update(all, table, r, c));
    assert forall|c: Seq<char>, w: NewValue| sets(list, c, w) implies #[trigger] sets(r, c, w) by {
        let i = choose|i: int|
            0 <= i < list.len() && list[i] == (Assign { column: c, value: w });
        assert(r[i] == list[i]);
    }
    r
}

proof fn lemma_where(table: Seq<char>, q: Sql, list: Seq<Assign>, id: Seq<char>)
    requires
        list.len() > 0,
        flat(q) == update_head(table) + assigns_text(list),
    ensures
        updates(
            give(say(q, r#" WHERE "Id" = "#@), BindView::Text(id)),
            table,
            list,
            has_id(id),
        ),
{
    let t = r#" WHERE "Id" = "#@;
    let v = BindView::Text(id);
    let all = give(say(q, t), v);
    let c = bare_is("Id"@, v);
    lemma_bare("Id"@, id);
    lemma_flat_say(q, t);
    lemma_flat_give(say(q, t), v);
    assert(chars(t) =~= chars(" WHERE "@) + quoted("Id"@) + chars(" = "@)) by {
        reveal(Said::spec_add);
        reveal_strlit(r#" WHERE "Id" = "#);
        reveal_strlit(" WHERE ");
        reveal_strlit("\"");
        reveal_strlit("Id");
        reveal_strlit(" = ");
    }
    assert(flat(all) == update_head(table) + assigns_text(list) + chars(" WHERE "@) + text_of(c)) by {
        broadcast use {lemma_said_in_turn, lemma_said_nothing};

    }
    assert(spells_update(all, table, list, c));
}

// ---------------------------------------------------------------------------
// Users
// ---------------------------------------------------------------------------
/// Renaming writes the name, and the name in capitals by which it is found, to the row of the
/// user alone.
pub proof fn law_new_name_is_stored(user_id: Guid, name: Seq<char>) -> (r: Seq<Assign>)
    ensures
        updates(rename_sql(user_id, name), "Users"@, r, has_id(hyphenated_text(user_id.value))),
        r.len() == 2,
        sets(r, "Username"@, NewValue::Given(BindView::Text(name))),
        sets(r, "NormalizedUsername"@, NewValue::Given(BindView::Text(uppercase(name)))),
{
    let t0 = r#"UPDATE "Users" SET "Username" = "#@;
    let t1 = r#", "NormalizedUsername" = "#@;
    let v0 = BindView::Text(name);
    let v1 = BindView::Text(uppercase(name));
    assert(chars(t0) =~= update_head("Users"@) + quoted("Username"@) + chars(" = "@)) by {
        reveal(Said::spec_add);
        reveal_strlit(r#"UPDATE "Users" SET "Username" = "#);
        reveal_strlit("UPDATE ");
        reveal_strlit("\"");
        reveal_strlit("Users");
        reveal_strlit(" SET ");
        reveal_strlit("Username");
        reveal_strlit(" = ");
    }
    assert(chars(t1) =~= chars(", "@) + quoted("NormalizedUsername"@) + chars(" = "@)) by {
        reveal(Said::spec_add);
        reveal_strlit(r#", "NormalizedUsername" = "#);
        reveal_strlit(", ");
        reveal_strlit("\"");
        reveal_strlit("NormalizedUsername");
        reveal_strlit(" = ");
    }
    let q0 = give(say(Seq::<PieceView>::empty(), t0), v0);
    let a0 = lemma_first_assign("Users"@, t0, "Username"@, v0);
    let q1 = give(say(q0, t1), v1);
    let a1 = lemma_next_assign("Users"@, q0, a0, t1, "NormalizedUsername"@, v1);
    lemma_where("Users"@, q1, a1, hyphenated_text(user_id.value));
    a1
}

/// A failed sign-in is counted in the row of the user alone.
pub proof fn law_failure_is_counted(user: UserRow) -> (r: Seq<Assign>)
    ensures
        updates(count_failure_sql(user), "Users"@, r, has_id(user.id@)),
        r.len() == 1,
        sets(
            r,
            "InvalidLoginAttemptCount"@,
            NewValue::Given(BindView::Int(user.invalid_login_attempt_count + 1)),
        ),
{
    let t0 = r#"UPDATE "Users" SET "InvalidLoginAttemptCount" = "#@;
    let v0 = BindView::Int(attempts_after(user));
    assert(chars(t0) =~= update_head("Users"@) + quoted("InvalidLoginAttemptCount"@) + chars(" = "@)) by {
        reveal(Said::spec_add);
        reveal_strlit(r#"UPDATE "Users" SET "InvalidLoginAttemptCount" = "#);
        reveal_strlit("UPDATE ");
        reveal_strlit("\"");
        reveal_strlit("Users");
        reveal_strlit(" SET ");
        reveal_strlit("InvalidLoginAttemptCount");
        reveal_strlit(" = ");
    }
    let q0 = give(say(Seq::<PieceView>::empty(), t0), v0);
    let a0 = lemma_first_assign("Users"@, t0, "InvalidLoginAttemptCount"@, v0);
    lemma_where("Users"@, q0, a0, user.id@);
    a0
}

proof fn lemma_remove(table: Seq<char>, t: Seq<char>, name: Seq<char>, id: Seq<char>)
    requires
        chars(t) == chars("DELETE FROM "@) + quoted(table) + chars(" WHERE "@) + quoted(name)
            + chars(" = "@),
    ensures
        removes(with_id(t, id), table, |row: Row, db: Db| row(name) == Val::Text(id)),
{
    let empty = Seq::<PieceView>::empty();
    let v = BindView::Text(id);
    let c = bare_is(name, v);
    lemma_bare(name, id);
    lemma_flat_say(empty, t);
    lemma_flat_give(say(empty, t), v);
    assert(flat(empty) + chars(t) =~= chars(t)) by {
        reveal(Said::spec_add);
    }
    assert(flat(with_id(t, id)) == chars("DELETE FROM "@) + quoted(table) + chars(" WHERE "@)
        + text_of(c)) by {
        broadcast use {lemma_said_in_turn, lemma_said_nothing};

    }
    assert(spells_delete(with_id(t, id), table, c));
    let p = |row: Row, db: Db| row(name) == Val::Text(id);
    assert forall|row: Row, db: Db| #[trigger]
        truth(c, only(row), db) == Some(true) <==> p(row, db) by {}
}

/// Deleting a user removes what is kept of the user, and then the user; nothing of anyone else.
pub proof fn law_deleted_user_leaves_nothing(user_id: Guid)
    ensures
        ({
            let id = hyphenated_text(user_id.value);
            let all = delete_user_sql(user_id);
            &&& all.len() == 5
            &&& removes(all[0], "Permissions"@, is_of(id))
            &&& removes(all[1], "Preferences"@, is_of(id))
            &&& removes(all[2], "AccessSchedules"@, is_of(id))
            &&& removes(all[3], "ImageInfos"@, is_of(id))
            &&& removes(all[4], "Users"@, has_id(id))
        }),
{
    let id = hyphenated_text(user_id.value);
    assert(chars(r#"DELETE FROM "Permissions" WHERE "UserId" = "#@) =~= chars("DELETE FROM "@) + quoted("Permissions"@) + chars(" WHERE "@) + quoted(
        "UserId"@,
    ) + chars(" = "@)) by {
        reveal(Said::spec_add);
        reveal_strlit(r#"DELETE FROM "Permissions" WHERE "UserId" = "#);
        reveal_strlit("DELETE FROM ");
        reveal_strlit("\"");
        reveal_strlit("Permissions");
        reveal_strlit(" WHERE ");
        reveal_strlit("UserId");
        reveal_strlit(" = ");
    }
    lemma_remove("Permissions"@, r#"DELETE FROM "Permissions" WHERE "UserId" = "#@, "UserId"@, id);
    assert(chars(r#"DELETE FROM "Preferences" WHERE "UserId" = "#@) =~= chars("DELETE FROM "@) + quoted("Preferences"@) + chars(" WHERE "@) + quoted(
        "UserId"@,
    ) + chars(" = "@)) by {
        reveal(Said::spec_add);
        reveal_strlit(r#"DELETE FROM "Preferences" WHERE "UserId" = "#);
        reveal_strlit("DELETE FROM ");
        reveal_strlit("\"");
        reveal_strlit("Preferences");
        reveal_strlit(" WHERE ");
        reveal_strlit("UserId");
        reveal_strlit(" = ");
    }
    lemma_remove("Preferences"@, r#"DELETE FROM "Preferences" WHERE "UserId" = "#@, "UserId"@, id);
    assert(chars(r#"DELETE FROM "AccessSchedules" WHERE "UserId" = "#@) =~= chars("DELETE FROM "@) + quoted("AccessSchedules"@) + chars(" WHERE "@) + quoted(
        "UserId"@,
    ) + chars(" = "@)) by {
        reveal(Said::spec_add);
        reveal_strlit(r#"DELETE FROM "AccessSchedules" WHERE "UserId" = "#);
        reveal_strlit("DELETE FROM ");
        reveal_strlit("\"");
        reveal_strlit("AccessSchedules");
        reveal_strlit(" WHERE ");
        reveal_strlit("UserId");
        reveal_strlit(" = ");
    }
    lemma_remove("AccessSchedules"@, r#"DELETE FROM "AccessSchedules" WHERE "UserId" = "#@, "UserId"@, id);
    assert(chars(r#"DELETE FROM "ImageInfos" WHERE "UserId" = "#@) =~= chars("DELETE FROM "@) + quoted("ImageInfos"@) + chars(" WHERE "@) + quoted(
        "UserId"@,
    ) + chars(" = "@)) by {
        reveal(Said::spec_add);
        reveal_strlit(r#"DELETE FROM "ImageInfos" WHERE "UserId" = "#);
        reveal_strlit("DELETE FROM ");
        reveal_strlit("\"");
        reveal_strlit("ImageInfos");
        reveal_strlit(" WHERE ");
        reveal_strlit("UserId");
        reveal_strlit(" = ");
    }
    lemma_remove("ImageInfos"@, r#"DELETE FROM "ImageInfos" WHERE "UserId" = "#@, "UserId"@, id);
    assert(chars(r#"DELETE FROM "Users" WHERE "Id" = "#@) =~= chars("DELETE FROM "@) + quoted("Users"@) + chars(" WHERE "@) + quoted(
        "Id"@,
    ) + chars(" = "@)) by {
        reveal(Said::spec_add);
        reveal_strlit(r#"DELETE FROM "Users" WHERE "Id" = "#);
        reveal_strlit("DELETE FROM ");
        reveal_strlit("\"");
        reveal_strlit("Users");
        reveal_strlit(" WHERE ");
        reveal_strlit("Id");
        reveal_strlit(" = ");
    }
    lemma_remove("Users"@, r#"DELETE FROM "Users" WHERE "Id" = "#@, "Id"@, id);
    let all = delete_user_sql(user_id);
    let of_user = |row: Row, db: Db| row("UserId"@) == Val::Text(id);
    let of_id = |row: Row, db: Db| row("Id"@) == Val::Text(id);
    assert(of_user =~= is_of(id));
    assert(of_id =~= has_id(id));
}

/// A user is looked up by the name in capitals, and so found in whatever case it is given.
pub proof fn law_user_is_found_by_name(name: Seq<char>)
    ensures
        selects(
            user_by_name_sql(name),
            "*"@,
            From::Unnamed { table: "Users"@ },
            |row: Row, db: Db| row("NormalizedUsername"@) == Val::Text(uppercase(name)),
            chars(" LIMIT 1"@),
        ),
{
    let empty = Seq::<PieceView>::empty();
    let from = From::Unnamed { table: "Users"@ };
    let t = r#"SELECT * FROM "Users" WHERE "NormalizedUsername" = "#@;
    let v = BindView::Text(uppercase(name));
    let c = bare_is("NormalizedUsername"@, v);
    let cs = seq![c];
    let q = give(say(empty, t), v);
    let all = say(q, " LIMIT 1"@);
    lemma_bare("NormalizedUsername"@, uppercase(name));
    lemma_flat_say(empty, t);
    lemma_flat_give(say(empty, t), v);
    lemma_flat_say(q, " LIMIT 1"@);
    assert(chars(t) =~= select_head("*"@, from) + quoted("NormalizedUsername"@) + chars(" = "@)) by {
        reveal(Said::spec_add);
        reveal_strlit(r#"SELECT * FROM "Users" WHERE "NormalizedUsername" = "#);
        reveal_strlit("SELECT ");
        reveal_strlit("*");
        reveal_strlit(" FROM ");
        reveal_strlit("\"");
        reveal_strlit("Users");
        reveal_strlit(" WHERE ");
        reveal_strlit("NormalizedUsername");
        reveal_strlit(" = ");
    }
    assert(flat(empty) + chars(t) =~= chars(t)) by {
        reveal(Said::spec_add);
    }
    assert(conds_text(cs) == text_of(c));
    assert(flat(all) == select_head("*"@, from) + conds_text(cs) + chars(" LIMIT 1"@)) by {
        broadcast use {lemma_said_in_turn, lemma_said_nothing};

    }
    assert(spells_select(all, "*"@, from, cs, chars(" LIMIT 1"@)));
    let p = |row: Row, db: Db| row("NormalizedUsername"@) == Val::Text(uppercase(name));
    assert forall|row: Row, db: Db| #[trigger] all_true(cs, only(row), db) <==> p(row, db) by {
        assert(cs[0] == c);
        assert(truth(c, only(row), db) == Some(true) <==> row("NormalizedUsername"@) == Val::Text(
            uppercase(name),
        ));
    }
}

proof fn lemma_user_texts()
    ensures
        chars(r#", "AuthenticationProviderId" = "#@) == chars(", "@) + quoted("AuthenticationProviderId"@) + chars(" = "@),
        chars(r#", "CastReceiverId" = "#@) == chars(", "@) + quoted("CastReceiverId"@) + chars(" = "@),
        chars(r#", "DisplayCollectionsView" = "#@) == chars(", "@) + quoted("DisplayCollectionsView"@) + chars(" = "@),
        chars(r#", "DisplayMissingEpisodes" = "#@) == chars(", "@) + quoted("DisplayMissingEpisodes"@) + chars(" = "@),
        chars(r#", "EnableAutoLogin" = "#@) == chars(", "@) + quoted("EnableAutoLogin"@) + chars(" = "@),
        chars(r#", "EnableLocalPassword" = "#@) == chars(", "@) + quoted("EnableLocalPassword"@) + chars(" = "@),
        chars(r#", "EnableNextEpisodeAutoPlay" = "#@) == chars(", "@) + quoted("EnableNextEpisodeAutoPlay"@) + chars(" = "@),
        chars(r#", "EnableUserPreferenceAccess" = "#@) == chars(", "@) + quoted("EnableUserPreferenceAccess"@) + chars(" = "@),
        chars(r#", "HidePlayedInLatest" = "#@) == chars(", "@) + quoted("HidePlayedInLatest"@) + chars(" = "@),
        chars(r#", "InternalId" = "#@) == chars(", "@) + quoted("InternalId"@) + chars(" = "@),
        chars(r#", "InvalidLoginAttemptCount" = "#@) == chars(", "@) + quoted("InvalidLoginAttemptCount"@) + chars(" = "@),
        chars(r#", "LastActivityDate" = "#@) == chars(", "@) + quoted("LastActivityDate"@) + chars(" = "@),
        chars(r#", "LastLoginDate" = "#@) == chars(", "@) + quoted("LastLoginDate"@) + chars(" = "@),
        chars(r#", "LoginAttemptsBeforeLockout" = "#@) == chars(", "@) + quoted("LoginAttemptsBeforeLockout"@) + chars(" = "@),
        chars(r#", "MaxActiveSessions" = "#@) == chars(", "@) + quoted("MaxActiveSessions"@) + chars(" = "@),
        chars(r#", "MaxParentalRatingScore" = "#@) == chars(", "@) + quoted("MaxParentalRatingScore"@) + chars(" = "@),
        chars(r#", "MaxParentalRatingSubScore" = "#@) == chars(", "@) + quoted("MaxParentalRatingSubScore"@) + chars(" = "@),
        chars(r#", "MustUpdatePassword" = "#@) == chars(", "@) + quoted("MustUpdatePassword"@) + chars(" = "@),
        chars(r#", "NormalizedUsername" = "#@) == chars(", "@) + quoted("NormalizedUsername"@) + chars(" = "@),
        chars(r#", "Password" = "#@) == chars(", "@) + quoted("Password"@) + chars(" = "@),
        chars(r#", "PasswordResetProviderId" = "#@) == chars(", "@) + quoted("PasswordResetProviderId"@) + chars(" = "@),
        chars(r#", "PlayDefaultAudioTrack" = "#@) == chars(", "@) + quoted("PlayDefaultAudioTrack"@) + chars(" = "@),
        chars(r#", "RememberAudioSelections" = "#@) == chars(", "@) + quoted("RememberAudioSelections"@) + chars(" = "@),
        chars(r#", "RememberSubtitleSelections" = "#@) == chars(", "@) + quoted("RememberSubtitleSelections"@) + chars(" = "@),
        chars(r#", "RemoteClientBitrateLimit" = "#@) == chars(", "@) + quoted("RemoteClientBitrateLimit"@) + chars(" = "@),
        chars(r#", "SubtitleLanguagePreference" = "#@) == chars(", "@) + quoted("SubtitleLanguagePreference"@) + chars(" = "@),
        chars(r#", "SubtitleMode" = "#@) == chars(", "@) + quoted("SubtitleMode"@) + chars(" = "@),
        chars(r#", "SyncPlayAccess" = "#@) == chars(", "@) + quoted("SyncPlayAccess"@) + chars(" = "@),
        chars(r#", "Username" = "#@) == chars(", "@) + quoted("Username"@) + chars(" = "@),
{
    assert(chars(r#", "AuthenticationProviderId" = "#@) =~= chars(", "@) + quoted("AuthenticationProviderId"@) + chars(" = "@)) by {
        reveal(Said::spec_add);
        reveal_strlit(r#", "AuthenticationProviderId" = "#);
        reveal_strlit(", ");
        reveal_strlit("\"");
        reveal_strlit("AuthenticationProviderId");
        reveal_strlit(" = ");
    }
    assert(chars(r#", "CastReceiverId" = "#@) =~= chars(", "@) + quoted("CastReceiverId"@) + chars(" = "@)) by {
        reveal(Said::spec_add);
        reveal_strlit(r#", "CastReceiverId" = "#);
        reveal_strlit(", ");
        reveal_strlit("\"");
        reveal_strlit("CastReceiverId");
        reveal_strlit(" = ");
    }
    assert(chars(r#", "DisplayCollectionsView" = "#@) =~= chars(", "@) + quoted("DisplayCollectionsView"@) + chars(" = "@)) by {
        reveal(Said::spec_add);
        reveal_strlit(r#", "DisplayCollectionsView" = "#);
        reveal_strlit(", ");
        reveal_strlit("\"");
        reveal_strlit("DisplayCollectionsView");
        reveal_strlit(" = ");
    }
    assert(chars(r#", "DisplayMissingEpisodes" = "#@) =~= chars(", "@) + quoted("DisplayMissingEpisodes"@) + chars(" = "@)) by {
        reveal(Said::spec_add);
        reveal_strlit(r#", "DisplayMissingEpisodes" = "#);
        reveal_strlit(", ");
        reveal_strlit("\"");
        reveal_strlit("DisplayMissingEpisodes");
        reveal_strlit(" = ");
    }
    assert(chars(r#", "EnableAutoLogin" = "#@) =~= chars(", "@) + quoted("EnableAutoLogin"@) + chars(" = "@)) by {
        reveal(Said::spec_add);
        reveal_strlit(r#", "EnableAutoLogin" = "#);
        reveal_strlit(", ");
        reveal_strlit("\"");
        reveal_strlit("EnableAutoLogin");
        reveal_strlit(" = ");
    }
    assert(chars(r#", "EnableLocalPassword" = "#@) =~= chars(", "@) + quoted("EnableLocalPassword"@) + chars(" = "@)) by {
        reveal(Said::spec_add);
        reveal_strlit(r#", "EnableLocalPassword" = "#);
        reveal_strlit(", ");
        reveal_strlit("\"");
        reveal_strlit("EnableLocalPassword");
        reveal_strlit(" = ");
    }
    assert(chars(r#", "EnableNextEpisodeAutoPlay" = "#@) =~= chars(", "@) + quoted("EnableNextEpisodeAutoPlay"@) + chars(" = "@)) by {
        reveal(Said::spec_add);
        reveal_strlit(r#", "EnableNextEpisodeAutoPlay" = "#);
        reveal_strlit(", ");
        reveal_strlit("\"");
        reveal_strlit("EnableNextEpisodeAutoPlay");
        reveal_strlit(" = ");
    }
    assert(chars(r#", "EnableUserPreferenceAccess" = "#@) =~= chars(", "@) + quoted("EnableUserPreferenceAccess"@) + chars(" = "@)) by {
        reveal(Said::spec_add);
        reveal_strlit(r#", "EnableUserPreferenceAccess" = "#);
        reveal_strlit(", ");
        reveal_strlit("\"");
        reveal_strlit("EnableUserPreferenceAccess");
        reveal_strlit(" = ");
    }
    assert(chars(r#", "HidePlayedInLatest" = "#@) =~= chars(", "@) + quoted("HidePlayedInLatest"@) + chars(" = "@)) by {
        reveal(Said::spec_add);
        reveal_strlit(r#", "HidePlayedInLatest" = "#);
        reveal_strlit(", ");
        reveal_strlit("\"");
        reveal_strlit("HidePlayedInLatest");
        reveal_strlit(" = ");
    }
    assert(chars(r#", "InternalId" = "#@) =~= chars(", "@) + quoted("InternalId"@) + chars(" = "@)) by {
        reveal(Said::spec_add);
        reveal_strlit(r#", "InternalId" = "#);
        reveal_strlit(", ");
        reveal_strlit("\"");
        reveal_strlit("InternalId");
        reveal_strlit(" = ");
    }
    assert(chars(r#", "InvalidLoginAttemptCount" = "#@) =~= chars(", "@) + quoted("InvalidLoginAttemptCount"@) + chars(" = "@)) by {
        reveal(Said::spec_add);
        reveal_strlit(r#", "InvalidLoginAttemptCount" = "#);
        reveal_strlit(", ");
        reveal_strlit("\"");
        reveal_strlit("InvalidLoginAttemptCount");
        reveal_strlit(" = ");
    }
    assert(chars(r#", "LastActivityDate" = "#@) =~= chars(", "@) + quoted("LastActivityDate"@) + chars(" = "@)) by {
        reveal(Said::spec_add);
        reveal_strlit(r#", "LastActivityDate" = "#);
        reveal_strlit(", ");
        reveal_strlit("\"");
        reveal_strlit("LastActivityDate");
        reveal_strlit(" = ");
    }
    assert(chars(r#", "LastLoginDate" = "#@) =~= chars(", "@) + quoted("LastLoginDate"@) + chars(" = "@)) by {
        reveal(Said::spec_add);
        reveal_strlit(r#", "LastLoginDate" = "#);
        reveal_strlit(", ");
        reveal_strlit("\"");
        reveal_strlit("LastLoginDate");
        reveal_strlit(" = ");
    }
    assert(chars(r#", "LoginAttemptsBeforeLockout" = "#@) =~= chars(", "@) + quoted("LoginAttemptsBeforeLockout"@) + chars(" = "@)) by {
        reveal(Said::spec_add);
        reveal_strlit(r#", "LoginAttemptsBeforeLockout" = "#);
        reveal_strlit(", ");
        reveal_strlit("\"");
        reveal_strlit("LoginAttemptsBeforeLockout");
        reveal_strlit(" = ");
    }
    assert(chars(r#", "MaxActiveSessions" = "#@) =~= chars(", "@) + quoted("MaxActiveSessions"@) + chars(" = "@)) by {
        reveal(Said::spec_add);
        reveal_strlit(r#", "MaxActiveSessions" = "#);
        reveal_strlit(", ");
        reveal_strlit("\"");
        reveal_strlit("MaxActiveSessions");
        reveal_strlit(" = ");
    }
    assert(chars(r#", "MaxParentalRatingScore" = "#@) =~= chars(", "@) + quoted("MaxParentalRatingScore"@) + chars(" = "@)) by {
        reveal(Said::spec_add);
        reveal_strlit(r#", "MaxParentalRatingScore" = "#);
        reveal_strlit(", ");
        reveal_strlit("\"");
        reveal_strlit("MaxParentalRatingScore");
        reveal_strlit(" = ");
    }
    assert(chars(r#", "MaxParentalRatingSubScore" = "#@) =~= chars(", "@) + quoted("MaxParentalRatingSubScore"@) + chars(" = "@)) by {
        reveal(Said::spec_add);
        reveal_strlit(r#", "MaxParentalRatingSubScore" = "#);
        reveal_strlit(", ");
        reveal_strlit("\"");
        reveal_strlit("MaxParentalRatingSubScore");
        reveal_strlit(" = ");
    }
    assert(chars(r#", "MustUpdatePassword" = "#@) =~= chars(", "@) + quoted("MustUpdatePassword"@) + chars(" = "@)) by {
        reveal(Said::spec_add);
        reveal_strlit(r#", "MustUpdatePassword" = "#);
        reveal_strlit(", ");
        reveal_strlit("\"");
        reveal_strlit("MustUpdatePassword");
        reveal_strlit(" = ");
    }
    assert(chars(r#", "NormalizedUsername" = "#@) =~= chars(", "@) + quoted("NormalizedUsername"@) + chars(" = "@)) by {
        reveal(Said::spec_add);
        reveal_strlit(r#", "NormalizedUsername" = "#);
        reveal_strlit(", ");
        reveal_strlit("\"");
        reveal_strlit("NormalizedUsername");
        reveal_strlit(" = ");
    }
    assert(chars(r#", "Password" = "#@) =~= chars(", "@) + quoted("Password"@) + chars(" = "@)) by {
        reveal(Said::spec_add);
        reveal_strlit(r#", "Password" = "#);
        reveal_strlit(", ");
        reveal_strlit("\"");
        reveal_strlit("Password");
        reveal_strlit(" = ");
    }
    assert(chars(r#", "PasswordResetProviderId" = "#@) =~= chars(", "@) + quoted("PasswordResetProviderId"@) + chars(" = "@)) by {
        reveal(Said::spec_add);
        reveal_strlit(r#", "PasswordResetProviderId" = "#);
        reveal_strlit(", ");
        reveal_strlit("\"");
        reveal_strlit("PasswordResetProviderId");
        reveal_strlit(" = ");
    }
    assert(chars(r#", "PlayDefaultAudioTrack" = "#@) =~= chars(", "@) + quoted("PlayDefaultAudioTrack"@) + chars(" = "@)) by {
        reveal(Said::spec_add);
        reveal_strlit(r#", "PlayDefaultAudioTrack" = "#);
        reveal_strlit(", ");
        reveal_strlit("\"");
        reveal_strlit("PlayDefaultAudioTrack");
        reveal_strlit(" = ");
    }
    assert(chars(r#", "RememberAudioSelections" = "#@) =~= chars(", "@) + quoted("RememberAudioSelections"@) + chars(" = "@)) by {
        reveal(Said::spec_add);
        reveal_strlit(r#", "RememberAudioSelections" = "#);
        reveal_strlit(", ");
        reveal_strlit("\"");
        reveal_strlit("RememberAudioSelections");
        reveal_strlit(" = ");
    }
    assert(chars(r#", "RememberSubtitleSelections" = "#@) =~= chars(", "@) + quoted("RememberSubtitleSelections"@) + chars(" = "@)) by {
        reveal(Said::spec_add);
        reveal_strlit(r#", "RememberSubtitleSelections" = "#);
        reveal_strlit(", ");
        reveal_strlit("\"");
        reveal_strlit("RememberSubtitleSelections");
        reveal_strlit(" = ");
    }
    assert(chars(r#", "RemoteClientBitrateLimit" = "#@) =~= chars(", "@) + quoted("RemoteClientBitrateLimit"@) + chars(" = "@)) by {
        reveal(Said::spec_add);
        reveal_strlit(r#", "RemoteClientBitrateLimit" = "#);
        reveal_strlit(", ");
        reveal_strlit("\"");
        reveal_strlit("RemoteClientBitrateLimit");
        reveal_strlit(" = ");
    }
    assert(chars(r#", "SubtitleLanguagePreference" = "#@) =~= chars(", "@) + quoted("SubtitleLanguagePreference"@) + chars(" = "@)) by {
        reveal(Said::spec_add);
        reveal_strlit(r#", "SubtitleLanguagePreference" = "#);
        reveal_strlit(", ");
        reveal_strlit("\"");
        reveal_strlit("SubtitleLanguagePreference");
        reveal_strlit(" = ");
    }
    assert(chars(r#", "SubtitleMode" = "#@) =~= chars(", "@) + quoted("SubtitleMode"@) + chars(" = "@)) by {
        reveal(Said::spec_add);
        reveal_strlit(r#", "SubtitleMode" = "#);
        reveal_strlit(", ");
        reveal_strlit("\"");
        reveal_strlit("SubtitleMode");
        reveal_strlit(" = ");
    }
    assert(chars(r#", "SyncPlayAccess" = "#@) =~= chars(", "@) + quoted("SyncPlayAccess"@) + chars(" = "@)) by {
        reveal(Said::spec_add);
        reveal_strlit(r#", "SyncPlayAccess" = "#);
        reveal_strlit(", ");
        reveal_strlit("\"");
        reveal_strlit("SyncPlayAccess");
        reveal_strlit(" = ");
    }
    assert(chars(r#", "Username" = "#@) =~= chars(", "@) + quoted("Username"@) + chars(" = "@)) by {
        reveal(Said::spec_add);
        reveal_strlit(r#", "Username" = "#);
        reveal_strlit(", ");
        reveal_strlit("\"");
        reveal_strlit("Username");
        reveal_strlit(" = ");
    }
}

proof fn store_user_0(user: UserRow) -> (r: (Sql, Seq<Assign>))
    ensures
        r.0 == give(say(Seq::<PieceView>::empty(), r#"UPDATE "Users" SET "AudioLanguagePreference" = "#@), BindView::OptionalText(opt_text(user.audio_language_preference))),
        r.1.len() == 1,
        flat(r.0) == update_head("Users"@) + assigns_text(r.1),
        sets(r.1, "AudioLanguagePreference"@, NewValue::Given(BindView::OptionalText(opt_text(user.audio_language_preference)))),
{
    let t = r#"UPDATE "Users" SET "AudioLanguagePreference" = "#@;
    let v = BindView::OptionalText(opt_text(user.audio_language_preference));
    assert(chars(t) =~= update_head("Users"@) + quoted("AudioLanguagePreference"@) + chars(" = "@)) by {
        reveal(Said::spec_add);
        reveal_strlit(r#"UPDATE "Users" SET "AudioLanguagePreference" = "#);
        reveal_strlit("UPDATE ");
        reveal_strlit("\"");
        reveal_strlit("Users");
        reveal_strlit(" SET ");
        reveal_strlit("AudioLanguagePreference");
        reveal_strlit(" = ");
    }
    (give(say(Seq::<PieceView>::empty(), t), v), lemma_first_assign("Users"@, t, "AudioLanguagePreference"@, v))
}

proof fn store_user_1(user: UserRow, q: Sql, list: Seq<Assign>) -> (r: (Sql, Seq<Assign>))
    requires
        list.len() > 0,
        flat(q) == update_head("Users"@) + assigns_text(list),
    ensures
        r.0 == give(say(give(say(give(say(give(say(give(say(q, r#", "AuthenticationProviderId" = "#@), BindView::Text(user.authentication_provider_id@)), r#", "CastReceiverId" = "#@), BindView::OptionalText(opt_text(user.cast_receiver_id))), r#", "DisplayCollectionsView" = "#@), BindView::Flag(user.display_collections_view)), r#", "DisplayMissingEpisodes" = "#@), BindView::Flag(user.display_missing_episodes)), r#", "EnableAutoLogin" = "#@), BindView::Flag(user.enable_auto_login)),
        r.1.len() == list.len() + 5,
        flat(r.0) == update_head("Users"@) + assigns_text(r.1),
        sets(r.1, "AuthenticationProviderId"@, NewValue::Given(BindView::Text(user.authentication_provider_id@))),
        sets(r.1, "CastReceiverId"@, NewValue::Given(BindView::OptionalText(opt_text(user.cast_receiver_id)))),
        sets(r.1, "DisplayCollectionsView"@, NewValue::Given(BindView::Flag(user.display_collections_view))),
        sets(r.1, "DisplayMissingEpisodes"@, NewValue::Given(BindView::Flag(user.display_missing_episodes))),
        sets(r.1, "EnableAutoLogin"@, NewValue::Given(BindView::Flag(user.enable_auto_login))),
        forall|c: Seq<char>, w: NewValue| sets(list, c, w) ==> #[trigger] sets(r.1, c, w),
{
    lemma_user_texts();
    let v0 = BindView::Text(user.authentication_provider_id@);
    let q0 = give(say(q, r#", "AuthenticationProviderId" = "#@), v0);
    let a0 = lemma_next_assign("Users"@, q, list, r#", "AuthenticationProviderId" = "#@, "AuthenticationProviderId"@, v0);
    let v1 = BindView::OptionalText(opt_text(user.cast_receiver_id));
    let q1 = give(say(q0, r#", "CastReceiverId" = "#@), v1);
    let a1 = lemma_next_assign("Users"@, q0, a0, r#", "CastReceiverId" = "#@, "CastReceiverId"@, v1);
    let v2 = BindView::Flag(user.display_collections_view);
    let q2 = give(say(q1, r#", "DisplayCollectionsView" = "#@), v2);
    let a2 = lemma_next_assign("Users"@, q1, a1, r#", "DisplayCollectionsView" = "#@, "DisplayCollectionsView"@, v2);
    let v3 = BindView::Flag(user.display_missing_episodes);
    let q3 = give(say(q2, r#", "DisplayMissingEpisodes" = "#@), v3);
    let a3 = lemma_next_assign("Users"@, q2, a2, r#", "DisplayMissingEpisodes" = "#@, "DisplayMissingEpisodes"@, v3);
    let v4 = BindView::Flag(user.enable_auto_login);
    let q4 = give(say(q3, r#", "EnableAutoLogin" = "#@), v4);
    let a4 = lemma_next_assign("Users"@, q3, a3, r#", "EnableAutoLogin" = "#@, "EnableAutoLogin"@, v4);
    (q4, a4)
}

proof fn store_user_2(user: UserRow, q: Sql, list: Seq<Assign>) -> (r: (Sql, Seq<Assign>))
    requires
        list.len() > 0,
        flat(q) == update_head("Users"@) + assigns_text(list),
    ensures
        r.0 == give(say(give(say(give(say(give(say(give(say(q, r#", "EnableLocalPassword" = "#@), BindView::Flag(user.enable_local_password)), r#", "EnableNextEpisodeAutoPlay" = "#@), BindView::Flag(user.enable_next_episode_auto_play)), r#", "EnableUserPreferenceAccess" = "#@), BindView::Flag(user.enable_user_preference_access)), r#", "HidePlayedInLatest" = "#@), BindView::Flag(user.hide_played_in_latest)), r#", "InternalId" = "#@), BindView::Int(user.internal_id as int)),
        r.1.len() == list.len() + 5,
        flat(r.0) == update_head("Users"@) + assigns_text(r.1),
        sets(r.1, "EnableLocalPassword"@, NewValue::Given(BindView::Flag(user.enable_local_password))),
        sets(r.1, "EnableNextEpisodeAutoPlay"@, NewValue::Given(BindView::Flag(user.enable_next_episode_auto_play))),
        sets(r.1, "EnableUserPreferenceAccess"@, NewValue::Given(BindView::Flag(user.enable_user_preference_access))),
        sets(r.1, "HidePlayedInLatest"@, NewValue::Given(BindView::Flag(user.hide_played_in_latest))),
        sets(r.1, "InternalId"@, NewValue::Given(BindView::Int(user.internal_id as int))),
        forall|c: Seq<char>, w: NewValue| sets(list, c, w) ==> #[trigger] sets(r.1, c, w),
{
    lemma_user_texts();
    let v0 = BindView::Flag(user.enable_local_password);
    let q0 = give(say(q, r#", "EnableLocalPassword" = "#@), v0);
    let a0 = lemma_next_assign("Users"@, q, list, r#", "EnableLocalPassword" = "#@, "EnableLocalPassword"@, v0);
    let v1 = BindView::Flag(user.enable_next_episode_auto_play);
    let q1 = give(say(q0, r#", "EnableNextEpisodeAutoPlay" = "#@), v1);
    let a1 = lemma_next_assign("Users"@, q0, a0, r#", "EnableNextEpisodeAutoPlay" = "#@, "EnableNextEpisodeAutoPlay"@, v1);
    let v2 = BindView::Flag(user.enable_user_preference_access);
    let q2 = give(say(q1, r#", "EnableUserPreferenceAccess" = "#@), v2);
    let a2 = lemma_next_assign("Users"@, q1, a1, r#", "EnableUserPreferenceAccess" = "#@, "EnableUserPreferenceAccess"@, v2);
    let v3 = BindView::Flag(user.hide_played_in_latest);
    let q3 = give(say(q2, r#", "HidePlayedInLatest" = "#@), v3);
    let a3 = lemma_next_assign("Users"@, q2, a2, r#", "HidePlayedInLatest" = "#@, "HidePlayedInLatest"@, v3);
    let v4 = BindView::Int(user.internal_id as int);
    let q4 = give(say(q3, r#", "InternalId" = "#@), v4);
    let a4 = lemma_next_assign("Users"@, q3, a3, r#", "InternalId" = "#@, "InternalId"@, v4);
    (q4, a4)
}

proof fn store_user_3(user: UserRow, q: Sql, list: Seq<Assign>) -> (r: (Sql, Seq<Assign>))
    requires
        list.len() > 0,
        flat(q) == update_head("Users"@) + assigns_text(list),
    ensures
        r.0 == give(say(give(say(give(say(give(say(give(say(q, r#", "InvalidLoginAttemptCount" = "#@), BindView::Int(user.invalid_login_attempt_count as int)), r#", "LastActivityDate" = "#@), BindView::OptionalTime(user.last_activity_date)), r#", "LastLoginDate" = "#@), BindView::OptionalTime(user.last_login_date)), r#", "LoginAttemptsBeforeLockout" = "#@), BindView::OptionalInt(opt_int(user.login_attempts_before_lockout))), r#", "MaxActiveSessions" = "#@), BindView::Int(user.max_active_sessions as int)),
        r.1.len() == list.len() + 5,
        flat(r.0) == update_head("Users"@) + assigns_text(r.1),
        sets(r.1, "InvalidLoginAttemptCount"@, NewValue::Given(BindView::Int(user.invalid_login_attempt_count as int))),
        sets(r.1, "LastActivityDate"@, NewValue::Given(BindView::OptionalTime(user.last_activity_date))),
        sets(r.1, "LastLoginDate"@, NewValue::Given(BindView::OptionalTime(user.last_login_date))),
        sets(r.1, "LoginAttemptsBeforeLockout"@, NewValue::Given(BindView::OptionalInt(opt_int(user.login_attempts_before_lockout)))),
        sets(r.1, "MaxActiveSessions"@, NewValue::Given(BindView::Int(user.max_active_sessions as int))),
        forall|c: Seq<char>, w: NewValue| sets(list, c, w) ==> #[trigger] sets(r.1, c, w),
{
    lemma_user_texts();
    let v0 = BindView::Int(user.invalid_login_attempt_count as int);
    let q0 = give(say(q, r#", "InvalidLoginAttemptCount" = "#@), v0);
    let a0 = lemma_next_assign("Users"@, q, list, r#", "InvalidLoginAttemptCount" = "#@, "InvalidLoginAttemptCount"@, v0);
    let v1 = BindView::OptionalTime(user.last_activity_date);
    let q1 = give(say(q0, r#", "LastActivityDate" = "#@), v1);
    let a1 = lemma_next_assign("Users"@, q0, a0, r#", "LastActivityDate" = "#@, "LastActivityDate"@, v1);
    let v2 = BindView::OptionalTime(user.last_login_date);
    let q2 = give(say(q1, r#", "LastLoginDate" = "#@), v2);
    let a2 = lemma_next_assign("Users"@, q1, a1, r#", "LastLoginDate" = "#@, "LastLoginDate"@, v2);
    let v3 = BindView::OptionalInt(opt_int(user.login_attempts_before_lockout));
    let q3 = give(say(q2, r#", "LoginAttemptsBeforeLockout" = "#@), v3);
    let a3 = lemma_next_assign("Users"@, q2, a2, r#", "LoginAttemptsBeforeLockout" = "#@, "LoginAttemptsBeforeLockout"@, v3);
    let v4 = BindView::Int(user.max_active_sessions as int);
    let q4 = give(say(q3, r#", "MaxActiveSessions" = "#@), v4);
    let a4 = lemma_next_assign("Users"@, q3, a3, r#", "MaxActiveSessions" = "#@, "MaxActiveSessions"@, v4);
    (q4, a4)
}

proof fn store_user_4(user: UserRow, q: Sql, list: Seq<Assign>) -> (r: (Sql, Seq<Assign>))
    requires
        list.len() > 0,
        flat(q) == update_head("Users"@) + assigns_text(list),
    ensures
        r.0 == give(say(give(say(give(say(give(say(give(say(q, r#", "MaxParentalRatingScore" = "#@), BindView::OptionalInt(opt_int(user.max_parental_rating_score))), r#", "MaxParentalRatingSubScore" = "#@), BindView::OptionalInt(opt_int(user.max_parental_rating_sub_score))), r#", "MustUpdatePassword" = "#@), BindView::Flag(user.must_update_password)), r#", "NormalizedUsername" = "#@), BindView::Text(user.normalized_username@)), r#", "Password" = "#@), BindView::OptionalText(opt_text(user.password))),
        r.1.len() == list.len() + 5,
        flat(r.0) == update_head("Users"@) + assigns_text(r.1),
        sets(r.1, "MaxParentalRatingScore"@, NewValue::Given(BindView::OptionalInt(opt_int(user.max_parental_rating_score)))),
        sets(r.1, "MaxParentalRatingSubScore"@, NewValue::Given(BindView::OptionalInt(opt_int(user.max_parental_rating_sub_score)))),
        sets(r.1, "MustUpdatePassword"@, NewValue::Given(BindView::Flag(user.must_update_password))),
        sets(r.1, "NormalizedUsername"@, NewValue::Given(BindView::Text(user.normalized_username@))),
        sets(r.1, "Password"@, NewValue::Given(BindView::OptionalText(opt_text(user.password)))),
        forall|c: Seq<char>, w: NewValue| sets(list, c, w) ==> #[trigger] sets(r.1, c, w),
{
    lemma_user_texts();
    let v0 = BindView::OptionalInt(opt_int(user.max_parental_rating_score));
    let q0 = give(say(q, r#", "MaxParentalRatingScore" = "#@), v0);
    let a0 = lemma_next_assign("Users"@, q, list, r#", "MaxParentalRatingScore" = "#@, "MaxParentalRatingScore"@, v0);
    let v1 = BindView::OptionalInt(opt_int(user.max_parental_rating_sub_score));
    let q1 = give(say(q0, r#", "MaxParentalRatingSubScore" = "#@), v1);
    let a1 = lemma_next_assign("Users"@, q0, a0, r#", "MaxParentalRatingSubScore" = "#@, "MaxParentalRatingSubScore"@, v1);
    let v2 = BindView::Flag(user.must_update_password);
    let q2 = give(say(q1, r#", "MustUpdatePassword" = "#@), v2);
    let a2 = lemma_next_assign("Users"@, q1, a1, r#", "MustUpdatePassword" = "#@, "MustUpdatePassword"@, v2);
    let v3 = BindView::Text(user.normalized_username@);
    let q3 = give(say(q2, r#", "NormalizedUsername" = "#@), v3);
    let a3 = lemma_next_assign("Users"@, q2, a2, r#", "NormalizedUsername" = "#@, "NormalizedUsername"@, v3);
    let v4 = BindView::OptionalText(opt_text(user.password));
    let q4 = give(say(q3, r#", "Password" = "#@), v4);
    let a4 = lemma_next_assign("Users"@, q3, a3, r#", "Password" = "#@, "Password"@, v4);
    (q4, a4)
}

proof fn store_user_5(user: UserRow, q: Sql, list: Seq<Assign>) -> (r: (Sql, Seq<Assign>))
    requires
        list.len() > 0,
        flat(q) == update_head("Users"@) + assigns_text(list),
    ensures
        r.0 == give(say(give(say(give(say(give(say(give(say(q, r#", "PasswordResetProviderId" = "#@), BindView::Text(user.password_reset_provider_id@)), r#", "PlayDefaultAudioTrack" = "#@), BindView::Flag(user.play_default_audio_track)), r#", "RememberAudioSelections" = "#@), BindView::Flag(user.remember_audio_selections)), r#", "RememberSubtitleSelections" = "#@), BindView::Flag(user.remember_subtitle_selections)), r#", "RemoteClientBitrateLimit" = "#@), BindView::OptionalInt(opt_int(user.remote_client_bitrate_limit))),
        r.1.len() == list.len() + 5,
        flat(r.0) == update_head("Users"@) + assigns_text(r.1),
        sets(r.1, "PasswordResetProviderId"@, NewValue::Given(BindView::Text(user.password_reset_provider_id@))),
        sets(r.1, "PlayDefaultAudioTrack"@, NewValue::Given(BindView::Flag(user.play_default_audio_track))),
        sets(r.1, "RememberAudioSelections"@, NewValue::Given(BindView::Flag(user.remember_audio_selections))),
        sets(r.1, "RememberSubtitleSelections"@, NewValue::Given(BindView::Flag(user.remember_subtitle_selections))),
        sets(r.1, "RemoteClientBitrateLimit"@, NewValue::Given(BindView::OptionalInt(opt_int(user.remote_client_bitrate_limit)))),
        forall|c: Seq<char>, w: NewValue| sets(list, c, w) ==> #[trigger] sets(r.1, c, w),
{
    lemma_user_texts();
    let v0 = BindView::Text(user.password_reset_provider_id@);
    let q0 = give(say(q, r#", "PasswordResetProviderId" = "#@), v0);
    let a0 = lemma_next_assign("Users"@, q, list, r#", "PasswordResetProviderId" = "#@, "PasswordResetProviderId"@, v0);
    let v1 = BindView::Flag(user.play_default_audio_track);
    let q1 = give(say(q0, r#", "PlayDefaultAudioTrack" = "#@), v1);
    let a1 = lemma_next_assign("Users"@, q0, a0, r#", "PlayDefaultAudioTrack" = "#@, "PlayDefaultAudioTrack"@, v1);
    let v2 = BindView::Flag(user.remember_audio_selections);
    let q2 = give(say(q1, r#", "RememberAudioSelections" = "#@), v2);
    let a2 = lemma_next_assign("Users"@, q1, a1, r#", "RememberAudioSelections" = "#@, "RememberAudioSelections"@, v2);
    let v3 = BindView::Flag(user.remember_subtitle_selections);
    let q3 = give(say(q2, r#", "RememberSubtitleSelections" = "#@), v3);
    let a3 = lemma_next_assign("Users"@, q2, a2, r#", "RememberSubtitleSelections" = "#@, "RememberSubtitleSelections"@, v3);
    let v4 = BindView::OptionalInt(opt_int(user.remote_client_bitrate_limit));
    let q4 = give(say(q3, r#", "RemoteClientBitrateLimit" = "#@), v4);
    let a4 = lemma_next_assign("Users"@, q3, a3, r#", "RemoteClientBitrateLimit" = "#@, "RemoteClientBitrateLimit"@, v4);
    (q4, a4)
}

proof fn store_user_6(user: UserRow, q: Sql, list: Seq<Assign>) -> (r: (Sql, Seq<Assign>))
    requires
        list.len() > 0,
        flat(q) == update_head("Users"@) + assigns_text(list),
    ensures
        r.0 == give(say(give(say(give(say(give(say(q, r#", "SubtitleLanguagePreference" = "#@), BindView::OptionalText(opt_text(user.subtitle_language_preference))), r#", "SubtitleMode" = "#@), BindView::Int(user.subtitle_mode as int)), r#", "SyncPlayAccess" = "#@), BindView::Int(user.sync_play_access as int)), r#", "Username" = "#@), BindView::Text(user.username@)),
        r.1.len() == list.len() + 4,
        flat(r.0) == update_head("Users"@) + assigns_text(r.1),
        sets(r.1, "SubtitleLanguagePreference"@, NewValue::Given(BindView::OptionalText(opt_text(user.subtitle_language_preference)))),
        sets(r.1, "SubtitleMode"@, NewValue::Given(BindView::Int(user.subtitle_mode as int))),
        sets(r.1, "SyncPlayAccess"@, NewValue::Given(BindView::Int(user.sync_play_access as int))),
        sets(r.1, "Username"@, NewValue::Given(BindView::Text(user.username@))),
        forall|c: Seq<char>, w: NewValue| sets(list, c, w) ==> #[trigger] sets(r.1, c, w),
{
    lemma_user_texts();
    let v0 = BindView::OptionalText(opt_text(user.subtitle_language_preference));
    let q0 = give(say(q, r#", "SubtitleLanguagePreference" = "#@), v0);
    let a0 = lemma_next_assign("Users"@, q, list, r#", "SubtitleLanguagePreference" = "#@, "SubtitleLanguagePreference"@, v0);
    let v1 = BindView::Int(user.subtitle_mode as int);
    let q1 = give(say(q0, r#", "SubtitleMode" = "#@), v1);
    let a1 = lemma_next_assign("Users"@, q0, a0, r#", "SubtitleMode" = "#@, "SubtitleMode"@, v1);
    let v2 = BindView::Int(user.sync_play_access as int);
    let q2 = give(say(q1, r#", "SyncPlayAccess" = "#@), v2);
    let a2 = lemma_next_assign("Users"@, q1, a1, r#", "SyncPlayAccess" = "#@, "SyncPlayAccess"@, v2);
    let v3 = BindView::Text(user.username@);
    let q3 = give(say(q2, r#", "Username" = "#@), v3);
    let a3 = lemma_next_assign("Users"@, q2, a2, r#", "Username" = "#@, "Username"@, v3);
    (q3, a3)
}

/// Storing a user writes each of its fields to the column of that field, in the row with its
/// identifier alone, and counts the row's version on.
pub proof fn law_whole_user_is_stored(user: UserRow) -> (r: Seq<Assign>)
    ensures
        updates(update_user_sql(user), "Users"@, r, has_id(user.id@)),
        r.len() == 31,
        sets(r, "AudioLanguagePreference"@, NewValue::Given(BindView::OptionalText(opt_text(user.audio_language_preference)))),
        sets(r, "AuthenticationProviderId"@, NewValue::Given(BindView::Text(user.authentication_provider_id@))),
        sets(r, "CastReceiverId"@, NewValue::Given(BindView::OptionalText(opt_text(user.cast_receiver_id)))),
        sets(r, "DisplayCollectionsView"@, NewValue::Given(BindView::Flag(user.display_collections_view))),
        sets(r, "DisplayMissingEpisodes"@, NewValue::Given(BindView::Flag(user.display_missing_episodes))),
        sets(r, "EnableAutoLogin"@, NewValue::Given(BindView::Flag(user.enable_auto_login))),
        sets(r, "EnableLocalPassword"@, NewValue::Given(BindView::Flag(user.enable_local_password))),
        sets(r, "EnableNextEpisodeAutoPlay"@, NewValue::Given(BindView::Flag(user.enable_next_episode_auto_play))),
        sets(r, "EnableUserPreferenceAccess"@, NewValue::Given(BindView::Flag(user.enable_user_preference_access))),
        sets(r, "HidePlayedInLatest"@, NewValue::Given(BindView::Flag(user.hide_played_in_latest))),
        sets(r, "InternalId"@, NewValue::Given(BindView::Int(user.internal_id as int))),
        sets(r, "InvalidLoginAttemptCount"@, NewValue::Given(BindView::Int(user.invalid_login_attempt_count as int))),
        sets(r, "LastActivityDate"@, NewValue::Given(BindView::OptionalTime(user.last_activity_date))),
        sets(r, "LastLoginDate"@, NewValue::Given(BindView::OptionalTime(user.last_login_date))),
        sets(r, "LoginAttemptsBeforeLockout"@, NewValue::Given(BindView::OptionalInt(opt_int(user.login_attempts_before_lockout)))),
        sets(r, "MaxActiveSessions"@, NewValue::Given(BindView::Int(user.max_active_sessions as int))),
        sets(r, "MaxParentalRatingScore"@, NewValue::Given(BindView::OptionalInt(opt_int(user.max_parental_rating_score)))),
        sets(r, "MaxParentalRatingSubScore"@, NewValue::Given(BindView::OptionalInt(opt_int(user.max_parental_rating_sub_score)))),
        sets(r, "MustUpdatePassword"@, NewValue::Given(BindView::Flag(user.must_update_password))),
        sets(r, "NormalizedUsername"@, NewValue::Given(BindView::Text(user.normalized_username@))),
        sets(r, "Password"@, NewValue::Given(BindView::OptionalText(opt_text(user.password)))),
        sets(r, "PasswordResetProviderId"@, NewValue::Given(BindView::Text(user.password_reset_provider_id@))),
        sets(r, "PlayDefaultAudioTrack"@, NewValue::Given(BindView::Flag(user.play_default_audio_track))),
        sets(r, "RememberAudioSelections"@, NewValue::Given(BindView::Flag(user.remember_audio_selections))),
        sets(r, "RememberSubtitleSelections"@, NewValue::Given(BindView::Flag(user.remember_subtitle_selections))),
        sets(r, "RemoteClientBitrateLimit"@, NewValue::Given(BindView::OptionalInt(opt_int(user.remote_client_bitrate_limit)))),
        sets(r, "SubtitleLanguagePreference"@, NewValue::Given(BindView::OptionalText(opt_text(user.subtitle_language_preference)))),
        sets(r, "SubtitleMode"@, NewValue::Given(BindView::Int(user.subtitle_mode as int))),
        sets(r, "SyncPlayAccess"@, NewValue::Given(BindView::Int(user.sync_play_access as int))),
        sets(r, "Username"@, NewValue::Given(BindView::Text(user.username@))),
        sets(r, "RowVersion"@, NewValue::Raised),
{
    let (q0, a0) = store_user_0(user);
    let (q1, a1) = store_user_1(user, q0, a0);
    let (q2, a2) = store_user_2(user, q1, a1);
    let (q3, a3) = store_user_3(user, q2, a2);
    let (q4, a4) = store_user_4(user, q3, a3);
    let (q5, a5) = store_user_5(user, q4, a4);
    let (q6, a6) = store_user_6(user, q5, a5);
    lemma_raised_where("Users"@, q6, a6, user.id@)
}

proof fn lemma_configuration_texts()
    ensures
        chars(r#", "PlayDefaultAudioTrack" = "#@) == chars(", "@) + quoted("PlayDefaultAudioTrack"@) + chars(" = "@),
        chars(r#", "SubtitleLanguagePreference" = "#@) == chars(", "@) + quoted("SubtitleLanguagePreference"@) + chars(" = "@),
        chars(r#", "DisplayMissingEpisodes" = "#@) == chars(", "@) + quoted("DisplayMissingEpisodes"@) + chars(" = "@),
        chars(r#", "SubtitleMode" = "#@) == chars(", "@) + quoted("SubtitleMode"@) + chars(" = "@),
        chars(r#", "DisplayCollectionsView" = "#@) == chars(", "@) + quoted("DisplayCollectionsView"@) + chars(" = "@),
        chars(r#", "EnableLocalPassword" = "#@) == chars(", "@) + quoted("EnableLocalPassword"@) + chars(" = "@),
        chars(r#", "HidePlayedInLatest" = "#@) == chars(", "@) + quoted("HidePlayedInLatest"@) + chars(" = "@),
        chars(r#", "RememberAudioSelections" = "#@) == chars(", "@) + quoted("RememberAudioSelections"@) + chars(" = "@),
        chars(r#", "RememberSubtitleSelections" = "#@) == chars(", "@) + quoted("RememberSubtitleSelections"@) + chars(" = "@),
        chars(r#", "EnableNextEpisodeAutoPlay" = "#@) == chars(", "@) + quoted("EnableNextEpisodeAutoPlay"@) + chars(" = "@),
        chars(r#", "CastReceiverId" = "#@) == chars(", "@) + quoted("CastReceiverId"@) + chars(" = "@),
{
    assert(chars(r#", "PlayDefaultAudioTrack" = "#@) =~= chars(", "@) + quoted("PlayDefaultAudioTrack"@) + chars(" = "@)) by {
        reveal(Said::spec_add);
        reveal_strlit(r#", "PlayDefaultAudioTrack" = "#);
        reveal_strlit(", ");
        reveal_strlit("\"");
        reveal_strlit("PlayDefaultAudioTrack");
        reveal_strlit(" = ");
    }
    assert(chars(r#", "SubtitleLanguagePreference" = "#@) =~= chars(", "@) + quoted("SubtitleLanguagePreference"@) + chars(" = "@)) by {
        reveal(Said::spec_add);
        reveal_strlit(r#", "SubtitleLanguagePreference" = "#);
        reveal_strlit(", ");
        reveal_strlit("\"");
        reveal_strlit("SubtitleLanguagePreference");
        reveal_strlit(" = ");
    }
    assert(chars(r#", "DisplayMissingEpisodes" = "#@) =~= chars(", "@) + quoted("DisplayMissingEpisodes"@) + chars(" = "@)) by {
        reveal(Said::spec_add);
        reveal_strlit(r#", "DisplayMissingEpisodes" = "#);
        reveal_strlit(", ");
        reveal_strlit("\"");
        reveal_strlit("DisplayMissingEpisodes");
        reveal_strlit(" = ");
    }
    assert(chars(r#", "SubtitleMode" = "#@) =~= chars(", "@) + quoted("SubtitleMode"@) + chars(" = "@)) by {
        reveal(Said::spec_add);
        reveal_strlit(r#", "SubtitleMode" = "#);
        reveal_strlit(", ");
        reveal_strlit("\"");
        reveal_strlit("SubtitleMode");
        reveal_strlit(" = ");
    }
    assert(chars(r#", "DisplayCollectionsView" = "#@) =~= chars(", "@) + quoted("DisplayCollectionsView"@) + chars(" = "@)) by {
        reveal(Said::spec_add);
        reveal_strlit(r#", "DisplayCollectionsView" = "#);
        reveal_strlit(", ");
        reveal_strlit("\"");
        reveal_strlit("DisplayCollectionsView");
        reveal_strlit(" = ");
    }
    assert(chars(r#", "EnableLocalPassword" = "#@) =~= chars(", "@) + quoted("EnableLocalPassword"@) + chars(" = "@)) by {
        reveal(Said::spec_add);
        reveal_strlit(r#", "EnableLocalPassword" = "#);
        reveal_strlit(", ");
        reveal_strlit("\"");
        reveal_strlit("EnableLocalPassword");
        reveal_strlit(" = ");
    }
    assert(chars(r#", "HidePlayedInLatest" = "#@) =~= chars(", "@) + quoted("HidePlayedInLatest"@) + chars(" = "@)) by {
        reveal(Said::spec_add);
        reveal_strlit(r#", "HidePlayedInLatest" = "#);
        reveal_strlit(", ");
        reveal_strlit("\"");
        reveal_strlit("HidePlayedInLatest");
        reveal_strlit(" = ");
    }
    assert(chars(r#", "RememberAudioSelections" = "#@) =~= chars(", "@) + quoted("RememberAudioSelections"@) + chars(" = "@)) by {
        reveal(Said::spec_add);
        reveal_strlit(r#", "RememberAudioSelections" = "#);
        reveal_strlit(", ");
        reveal_strlit("\"");
        reveal_strlit("RememberAudioSelections");
        reveal_strlit(" = ");
    }
    assert(chars(r#", "RememberSubtitleSelections" = "#@) =~= chars(", "@) + quoted("RememberSubtitleSelections"@) + chars(" = "@)) by {
        reveal(Said::spec_add);
        reveal_strlit(r#", "RememberSubtitleSelections" = "#);
        reveal_strlit(", ");
        reveal_strlit("\"");
        reveal_strlit("RememberSubtitleSelections");
        reveal_strlit(" = ");
    }
    assert(chars(r#", "EnableNextEpisodeAutoPlay" = "#@) =~= chars(", "@) + quoted("EnableNextEpisodeAutoPlay"@) + chars(" = "@)) by {
        reveal(Said::spec_add);
        reveal_strlit(r#", "EnableNextEpisodeAutoPlay" = "#);
        reveal_strlit(", ");
        reveal_strlit("\"");
        reveal_strlit("EnableNextEpisodeAutoPlay");
        reveal_strlit(" = ");
    }
    assert(chars(r#", "CastReceiverId" = "#@) =~= chars(", "@) + quoted("CastReceiverId"@) + chars(" = "@)) by {
        reveal(Said::spec_add);
        reveal_strlit(r#", "CastReceiverId" = "#);
        reveal_strlit(", ");
        reveal_strlit("\"");
        reveal_strlit("CastReceiverId");
        reveal_strlit(" = ");
    }
}

proof fn store_configuration_0(user_id: Guid, config: UserConfiguration) -> (r: (Sql, Seq<Assign>))
    ensures
        r.0 == give(say(Seq::<PieceView>::empty(), r#"UPDATE "Users" SET "AudioLanguagePreference" = "#@), BindView::OptionalText(opt_text(config.audio_language_preference))),
        r.1.len() == 1,
        flat(r.0) == update_head("Users"@) + assigns_text(r.1),
        sets(r.1, "AudioLanguagePreference"@, NewValue::Given(BindView::OptionalText(opt_text(config.audio_language_preference)))),
{
    let t = r#"UPDATE "Users" SET "AudioLanguagePreference" = "#@;
    let v = BindView::OptionalText(opt_text(config.audio_language_preference));
    assert(chars(t) =~= update_head("Users"@) + quoted("AudioLanguagePreference"@) + chars(" = "@)) by {
        reveal(Said::spec_add);
        reveal_strlit(r#"UPDATE "Users" SET "AudioLanguagePreference" = "#);
        reveal_strlit("UPDATE ");
        reveal_strlit("\"");
        reveal_strlit("Users");
        reveal_strlit(" SET ");
        reveal_strlit("AudioLanguagePreference");
        reveal_strlit(" = ");
    }
    (give(say(Seq::<PieceView>::empty(), t), v), lemma_first_assign("Users"@, t, "AudioLanguagePreference"@, v))
}

proof fn store_configuration_1(user_id: Guid, config: UserConfiguration, q: Sql, list: Seq<Assign>) -> (r: (Sql, Seq<Assign>))
    requires
        list.len() > 0,
        flat(q) == update_head("Users"@) + assigns_text(list),
    ensures
        r.0 == give(say(give(say(give(say(give(say(give(say(give(say(q, r#", "PlayDefaultAudioTrack" = "#@), BindView::Flag(config.play_default_audio_track)), r#", "SubtitleLanguagePreference" = "#@), BindView::OptionalText(opt_text(config.subtitle_language_preference))), r#", "DisplayMissingEpisodes" = "#@), BindView::Flag(config.display_missing_episodes)), r#", "SubtitleMode" = "#@), BindView::Int(subtitle_mode_number(config.subtitle_mode))), r#", "DisplayCollectionsView" = "#@), BindView::Flag(config.display_collections_view)), r#", "EnableLocalPassword" = "#@), BindView::Flag(config.enable_local_password)),
        r.1.len() == list.len() + 6,
        flat(r.0) == update_head("Users"@) + assigns_text(r.1),
        sets(r.1, "PlayDefaultAudioTrack"@, NewValue::Given(BindView::Flag(config.play_default_audio_track))),
        sets(r.1, "SubtitleLanguagePreference"@, NewValue::Given(BindView::OptionalText(opt_text(config.subtitle_language_preference)))),
        sets(r.1, "DisplayMissingEpisodes"@, NewValue::Given(BindView::Flag(config.display_missing_episodes))),
        sets(r.1, "SubtitleMode"@, NewValue::Given(BindView::Int(subtitle_mode_number(config.subtitle_mode)))),
        sets(r.1, "DisplayCollectionsView"@, NewValue::Given(BindView::Flag(config.display_collections_view))),
        sets(r.1, "EnableLocalPassword"@, NewValue::Given(BindView::Flag(config.enable_local_password))),
        forall|c: Seq<char>, w: NewValue| sets(list, c, w) ==> #[trigger] sets(r.1, c, w),
{
    lemma_configuration_texts();
    let v0 = BindView::Flag(config.play_default_audio_track);
    let q0 = give(say(q, r#", "PlayDefaultAudioTrack" = "#@), v0);
    let a0 = lemma_next_assign("Users"@, q, list, r#", "PlayDefaultAudioTrack" = "#@, "PlayDefaultAudioTrack"@, v0);
    let v1 = BindView::OptionalText(opt_text(config.subtitle_language_preference));
    let q1 = give(say(q0, r#", "SubtitleLanguagePreference" = "#@), v1);
    let a1 = lemma_next_assign("Users"@, q0, a0, r#", "SubtitleLanguagePreference" = "#@, "SubtitleLanguagePreference"@, v1);
    let v2 = BindView::Flag(config.display_missing_episodes);
    let q2 = give(say(q1, r#", "DisplayMissingEpisodes" = "#@), v2);
    let a2 = lemma_next_assign("Users"@, q1, a1, r#", "DisplayMissingEpisodes" = "#@, "DisplayMissingEpisodes"@, v2);
    let v3 = BindView::Int(subtitle_mode_number(config.subtitle_mode));
    let q3 = give(say(q2, r#", "SubtitleMode" = "#@), v3);
    let a3 = lemma_next_assign("Users"@, q2, a2, r#", "SubtitleMode" = "#@, "SubtitleMode"@, v3);
    let v4 = BindView::Flag(config.display_collections_view);
    let q4 = give(say(q3, r#", "DisplayCollectionsView" = "#@), v4);
    let a4 = lemma_next_assign("Users"@, q3, a3, r#", "DisplayCollectionsView" = "#@, "DisplayCollectionsView"@, v4);
    let v5 = BindView::Flag(config.enable_local_password);
    let q5 = give(say(q4, r#", "EnableLocalPassword" = "#@), v5);
    let a5 = lemma_next_assign("Users"@, q4, a4, r#", "EnableLocalPassword" = "#@, "EnableLocalPassword"@, v5);
    (q5, a5)
}

proof fn store_configuration_2(user_id: Guid, config: UserConfiguration, q: Sql, list: Seq<Assign>) -> (r: (Sql, Seq<Assign>))
    requires
        list.len() > 0,
        flat(q) == update_head("Users"@) + assigns_text(list),
    ensures
        r.0 == give(say(give(say(give(say(give(say(give(say(q, r#", "HidePlayedInLatest" = "#@), BindView::Flag(config.hide_played_in_latest)), r#", "RememberAudioSelections" = "#@), BindView::Flag(config.remember_audio_selections)), r#", "RememberSubtitleSelections" = "#@), BindView::Flag(config.remember_subtitle_selections)), r#", "EnableNextEpisodeAutoPlay" = "#@), BindView::Flag(config.enable_next_episode_auto_play)), r#", "CastReceiverId" = "#@), BindView::OptionalText(opt_text(config.cast_receiver_id))),
        r.1.len() == list.len() + 5,
        flat(r.0) == update_head("Users"@) + assigns_text(r.1),
        sets(r.1, "HidePlayedInLatest"@, NewValue::Given(BindView::Flag(config.hide_played_in_latest))),
        sets(r.1, "RememberAudioSelections"@, NewValue::Given(BindView::Flag(config.remember_audio_selections))),
        sets(r.1, "RememberSubtitleSelections"@, NewValue::Given(BindView::Flag(config.remember_subtitle_selections))),
        sets(r.1, "EnableNextEpisodeAutoPlay"@, NewValue::Given(BindView::Flag(config.enable_next_episode_auto_play))),
        sets(r.1, "CastReceiverId"@, NewValue::Given(BindView::OptionalText(opt_text(config.cast_receiver_id)))),
        forall|c: Seq<char>, w: NewValue| sets(list, c, w) ==> #[trigger] sets(r.1, c, w),
{
    lemma_configuration_texts();
    let v0 = BindView::Flag(config.hide_played_in_latest);
    let q0 = give(say(q, r#", "HidePlayedInLatest" = "#@), v0);
    let a0 = lemma_next_assign("Users"@, q, list, r#", "HidePlayedInLatest" = "#@, "HidePlayedInLatest"@, v0);
    let v1 = BindView::Flag(config.remember_audio_selections);
    let q1 = give(say(q0, r#", "RememberAudioSelections" = "#@), v1);
    let a1 = lemma_next_assign("Users"@, q0, a0, r#", "RememberAudioSelections" = "#@, "RememberAudioSelections"@, v1);
    let v2 = BindView::Flag(config.remember_subtitle_selections);
    let q2 = give(say(q1, r#", "RememberSubtitleSelections" = "#@), v2);
    let a2 = lemma_next_assign("Users"@, q1, a1, r#", "RememberSubtitleSelections" = "#@, "RememberSubtitleSelections"@, v2);
    let v3 = BindView::Flag(config.enable_next_episode_auto_play);
    let q3 = give(say(q2, r#", "EnableNextEpisodeAutoPlay" = "#@), v3);
    let a3 = lemma_next_assign("Users"@, q2, a2, r#", "EnableNextEpisodeAutoPlay" = "#@, "EnableNextEpisodeAutoPlay"@, v3);
    let v4 = BindView::OptionalText(opt_text(config.cast_receiver_id));
    let q4 = give(say(q3, r#", "CastReceiverId" = "#@), v4);
    let a4 = lemma_next_assign("Users"@, q3, a3, r#", "CastReceiverId" = "#@, "CastReceiverId"@, v4);
    (q4, a4)
}

/// Storing a configuration writes each of its fields to the column of that field, in the row of
/// the user alone.
pub proof fn law_configuration_is_stored(user_id: Guid, config: UserConfiguration) -> (r: Seq<Assign>)
    ensures
        updates(update_configuration_sql(user_id, config), "Users"@, r, has_id(hyphenated_text(user_id.value))),
        r.len() == 13,
        sets(r, "AudioLanguagePreference"@, NewValue::Given(BindView::OptionalText(opt_text(config.audio_language_preference)))),
        sets(r, "PlayDefaultAudioTrack"@, NewValue::Given(BindView::Flag(config.play_default_audio_track))),
        sets(r, "SubtitleLanguagePreference"@, NewValue::Given(BindView::OptionalText(opt_text(config.subtitle_language_preference)))),
        sets(r, "DisplayMissingEpisodes"@, NewValue::Given(BindView::Flag(config.display_missing_episodes))),
        sets(r, "SubtitleMode"@, NewValue::Given(BindView::Int(subtitle_mode_number(config.subtitle_mode)))),
        sets(r, "DisplayCollectionsView"@, NewValue::Given(BindView::Flag(config.display_collections_view))),
        sets(r, "EnableLocalPassword"@, NewValue::Given(BindView::Flag(config.enable_local_password))),
        sets(r, "HidePlayedInLatest"@, NewValue::Given(BindView::Flag(config.hide_played_in_latest))),
        sets(r, "RememberAudioSelections"@, NewValue::Given(BindView::Flag(config.remember_audio_selections))),
        sets(r, "RememberSubtitleSelections"@, NewValue::Given(BindView::Flag(config.remember_subtitle_selections))),
        sets(r, "EnableNextEpisodeAutoPlay"@, NewValue::Given(BindView::Flag(config.enable_next_episode_auto_play))),
        sets(r, "CastReceiverId"@, NewValue::Given(BindView::OptionalText(opt_text(config.cast_receiver_id)))),
        sets(r, "RowVersion"@, NewValue::Raised),
{
    let (q0, a0) = store_configuration_0(user_id, config);
    let (q1, a1) = store_configuration_1(user_id, config, q0, a0);
    let (q2, a2) = store_configuration_2(user_id, config, q1, a1);
    lemma_raised_where("Users"@, q2, a2, hyphenated_text(user_id.value))
}

proof fn lemma_policy_texts()
    ensures
        chars(r#", "MaxParentalRatingScore" = "#@) == chars(", "@) + quoted("MaxParentalRatingScore"@) + chars(" = "@),
        chars(r#", "MaxParentalRatingSubScore" = "#@) == chars(", "@) + quoted("MaxParentalRatingSubScore"@) + chars(" = "@),
        chars(r#", "LoginAttemptsBeforeLockout" = "#@) == chars(", "@) + quoted("LoginAttemptsBeforeLockout"@) + chars(" = "@),
        chars(r#", "EnableUserPreferenceAccess" = "#@) == chars(", "@) + quoted("EnableUserPreferenceAccess"@) + chars(" = "@),
        chars(r#", "InvalidLoginAttemptCount" = "#@) == chars(", "@) + quoted("InvalidLoginAttemptCount"@) + chars(" = "@),
        chars(r#", "RemoteClientBitrateLimit" = "#@) == chars(", "@) + quoted("RemoteClientBitrateLimit"@) + chars(" = "@),
        chars(r#", "AuthenticationProviderId" = "#@) == chars(", "@) + quoted("AuthenticationProviderId"@) + chars(" = "@),
        chars(r#", "PasswordResetProviderId" = "#@) == chars(", "@) + quoted("PasswordResetProviderId"@) + chars(" = "@),
        chars(r#", "SyncPlayAccess" = "#@) == chars(", "@) + quoted("SyncPlayAccess"@) + chars(" = "@),
{
    assert(chars(r#", "MaxParentalRatingScore" = "#@) =~= chars(", "@) + quoted("MaxParentalRatingScore"@) + chars(" = "@)) by {
        reveal(Said::spec_add);
        reveal_strlit(r#", "MaxParentalRatingScore" = "#);
        reveal_strlit(", ");
        reveal_strlit("\"");
        reveal_strlit("MaxParentalRatingScore");
        reveal_strlit(" = ");
    }
    assert(chars(r#", "MaxParentalRatingSubScore" = "#@) =~= chars(", "@) + quoted("MaxParentalRatingSubScore"@) + chars(" = "@)) by {
        reveal(Said::spec_add);
        reveal_strlit(r#", "MaxParentalRatingSubScore" = "#);
        reveal_strlit(", ");
        reveal_strlit("\"");
        reveal_strlit("MaxParentalRatingSubScore");
        reveal_strlit(" = ");
    }
    assert(chars(r#", "LoginAttemptsBeforeLockout" = "#@) =~= chars(", "@) + quoted("LoginAttemptsBeforeLockout"@) + chars(" = "@)) by {
        reveal(Said::spec_add);
        reveal_strlit(r#", "LoginAttemptsBeforeLockout" = "#);
        reveal_strlit(", ");
        reveal_strlit("\"");
        reveal_strlit("LoginAttemptsBeforeLockout");
        reveal_strlit(" = ");
    }
    assert(chars(r#", "EnableUserPreferenceAccess" = "#@) =~= chars(", "@) + quoted("EnableUserPreferenceAccess"@) + chars(" = "@)) by {
        reveal(Said::spec_add);
        reveal_strlit(r#", "EnableUserPreferenceAccess" = "#);
        reveal_strlit(", ");
        reveal_strlit("\"");
        reveal_strlit("EnableUserPreferenceAccess");
        reveal_strlit(" = ");
    }
    assert(chars(r#", "InvalidLoginAttemptCount" = "#@) =~= chars(", "@) + quoted("InvalidLoginAttemptCount"@) + chars(" = "@)) by {
        reveal(Said::spec_add);
        reveal_strlit(r#", "InvalidLoginAttemptCount" = "#);
        reveal_strlit(", ");
        reveal_strlit("\"");
        reveal_strlit("InvalidLoginAttemptCount");
        reveal_strlit(" = ");
    }
    assert(chars(r#", "RemoteClientBitrateLimit" = "#@) =~= chars(", "@) + quoted("RemoteClientBitrateLimit"@) + chars(" = "@)) by {
        reveal(Said::spec_add);
        reveal_strlit(r#", "RemoteClientBitrateLimit" = "#);
        reveal_strlit(", ");
        reveal_strlit("\"");
        reveal_strlit("RemoteClientBitrateLimit");
        reveal_strlit(" = ");
    }
    assert(chars(r#", "AuthenticationProviderId" = "#@) =~= chars(", "@) + quoted("AuthenticationProviderId"@) + chars(" = "@)) by {
        reveal(Said::spec_add);
        reveal_strlit(r#", "AuthenticationProviderId" = "#);
        reveal_strlit(", ");
        reveal_strlit("\"");
        reveal_strlit("AuthenticationProviderId");
        reveal_strlit(" = ");
    }
    assert(chars(r#", "PasswordResetProviderId" = "#@) =~= chars(", "@) + quoted("PasswordResetProviderId"@) + chars(" = "@)) by {
        reveal(Said::spec_add);
        reveal_strlit(r#", "PasswordResetProviderId" = "#);
        reveal_strlit(", ");
        reveal_strlit("\"");
        reveal_strlit("PasswordResetProviderId");
        reveal_strlit(" = ");
    }
    assert(chars(r#", "SyncPlayAccess" = "#@) =~= chars(", "@) + quoted("SyncPlayAccess"@) + chars(" = "@)) by {
        reveal(Said::spec_add);
        reveal_strlit(r#", "SyncPlayAccess" = "#);
        reveal_strlit(", ");
        reveal_strlit("\"");
        reveal_strlit("SyncPlayAccess");
        reveal_strlit(" = ");
    }
}

proof fn store_policy_0(user_id: Guid, policy: UserPolicy) -> (r: (Sql, Seq<Assign>))
    ensures
        r.0 == give(say(Seq::<PieceView>::empty(), r#"UPDATE "Users" SET "MaxActiveSessions" = "#@), BindView::Int(policy.max_active_sessions as int)),
        r.1.len() == 1,
        flat(r.0) == update_head("Users"@) + assigns_text(r.1),
        sets(r.1, "MaxActiveSessions"@, NewValue::Given(BindView::Int(policy.max_active_sessions as int))),
{
    let t = r#"UPDATE "Users" SET "MaxActiveSessions" = "#@;
    let v = BindView::Int(policy.max_active_sessions as int);
    assert(chars(t) =~= update_head("Users"@) + quoted("MaxActiveSessions"@) + chars(" = "@)) by {
        reveal(Said::spec_add);
        reveal_strlit(r#"UPDATE "Users" SET "MaxActiveSessions" = "#);
        reveal_strlit("UPDATE ");
        reveal_strlit("\"");
        reveal_strlit("Users");
        reveal_strlit(" SET ");
        reveal_strlit("MaxActiveSessions");
        reveal_strlit(" = ");
    }
    (give(say(Seq::<PieceView>::empty(), t), v), lemma_first_assign("Users"@, t, "MaxActiveSessions"@, v))
}

proof fn store_policy_1(user_id: Guid, policy: UserPolicy, q: Sql, list: Seq<Assign>) -> (r: (Sql, Seq<Assign>))
    requires
        list.len() > 0,
        flat(q) == update_head("Users"@) + assigns_text(list),
    ensures
        r.0 == give(say(give(say(give(say(give(say(give(say(q, r#", "MaxParentalRatingScore" = "#@), BindView::OptionalInt(wide(policy.max_parental_rating))), r#", "MaxParentalRatingSubScore" = "#@), BindView::OptionalInt(wide(policy.max_parental_sub_rating))), r#", "LoginAttemptsBeforeLockout" = "#@), BindView::Int(policy.login_attempts_before_lockout as int)), r#", "EnableUserPreferenceAccess" = "#@), BindView::Flag(policy.enable_user_preference_access)), r#", "InvalidLoginAttemptCount" = "#@), BindView::Int(policy.invalid_login_attempt_count as int)),
        r.1.len() == list.len() + 5,
        flat(r.0) == update_head("Users"@) + assigns_text(r.1),
        sets(r.1, "MaxParentalRatingScore"@, NewValue::Given(BindView::OptionalInt(wide(policy.max_parental_rating)))),
        sets(r.1, "MaxParentalRatingSubScore"@, NewValue::Given(BindView::OptionalInt(wide(policy.max_parental_sub_rating)))),
        sets(r.1, "LoginAttemptsBeforeLockout"@, NewValue::Given(BindView::Int(policy.login_attempts_before_lockout as int))),
        sets(r.1, "EnableUserPreferenceAccess"@, NewValue::Given(BindView::Flag(policy.enable_user_preference_access))),
        sets(r.1, "InvalidLoginAttemptCount"@, NewValue::Given(BindView::Int(policy.invalid_login_attempt_count as int))),
        forall|c: Seq<char>, w: NewValue| sets(list, c, w) ==> #[trigger] sets(r.1, c, w),
{
    lemma_policy_texts();
    let v0 = BindView::OptionalInt(wide(policy.max_parental_rating));
    let q0 = give(say(q, r#", "MaxParentalRatingScore" = "#@), v0);
    let a0 = lemma_next_assign("Users"@, q, list, r#", "MaxParentalRatingScore" = "#@, "MaxParentalRatingScore"@, v0);
    let v1 = BindView::OptionalInt(wide(policy.max_parental_sub_rating));
    let q1 = give(say(q0, r#", "MaxParentalRatingSubScore" = "#@), v1);
    let a1 = lemma_next_assign("Users"@, q0, a0, r#", "MaxParentalRatingSubScore" = "#@, "MaxParentalRatingSubScore"@, v1);
    let v2 = BindView::Int(policy.login_attempts_before_lockout as int);
    let q2 = give(say(q1, r#", "LoginAttemptsBeforeLockout" = "#@), v2);
    let a2 = lemma_next_assign("Users"@, q1, a1, r#", "LoginAttemptsBeforeLockout" = "#@, "LoginAttemptsBeforeLockout"@, v2);
    let v3 = BindView::Flag(policy.enable_user_preference_access);
    let q3 = give(say(q2, r#", "EnableUserPreferenceAccess" = "#@), v3);
    let a3 = lemma_next_assign("Users"@, q2, a2, r#", "EnableUserPreferenceAccess" = "#@, "EnableUserPreferenceAccess"@, v3);
    let v4 = BindView::Int(policy.invalid_login_attempt_count as int);
    let q4 = give(say(q3, r#", "InvalidLoginAttemptCount" = "#@), v4);
    let a4 = lemma_next_assign("Users"@, q3, a3, r#", "InvalidLoginAttemptCount" = "#@, "InvalidLoginAttemptCount"@, v4);
    (q4, a4)
}

proof fn store_policy_2(user_id: Guid, policy: UserPolicy, q: Sql, list: Seq<Assign>) -> (r: (Sql, Seq<Assign>))
    requires
        list.len() > 0,
        flat(q) == update_head("Users"@) + assigns_text(list),
    ensures
        r.0 == give(say(give(say(give(say(give(say(q, r#", "RemoteClientBitrateLimit" = "#@), BindView::Int(policy.remote_client_bitrate_limit as int)), r#", "AuthenticationProviderId" = "#@), BindView::Text(policy.authentication_provider_id@)), r#", "PasswordResetProviderId" = "#@), BindView::Text(policy.password_reset_provider_id@)), r#", "SyncPlayAccess" = "#@), BindView::Int(sync_play_number(policy.sync_play_access))),
        r.1.len() == list.len() + 4,
        flat(r.0) == update_head("Users"@) + assigns_text(r.1),
        sets(r.1, "RemoteClientBitrateLimit"@, NewValue::Given(BindView::Int(policy.remote_client_bitrate_limit as int))),
        sets(r.1, "AuthenticationProviderId"@, NewValue::Given(BindView::Text(policy.authentication_provider_id@))),
        sets(r.1, "PasswordResetProviderId"@, NewValue::Given(BindView::Text(policy.password_reset_provider_id@))),
        sets(r.1, "SyncPlayAccess"@, NewValue::Given(BindView::Int(sync_play_number(policy.sync_play_access)))),
        forall|c: Seq<char>, w: NewValue| sets(list, c, w) ==> #[trigger] sets(r.1, c, w),
{
    lemma_policy_texts();
    let v0 = BindView::Int(policy.remote_client_bitrate_limit as int);
    let q0 = give(say(q, r#", "RemoteClientBitrateLimit" = "#@), v0);
    let a0 = lemma_next_assign("Users"@, q, list, r#", "RemoteClientBitrateLimit" = "#@, "RemoteClientBitrateLimit"@, v0);
    let v1 = BindView::Text(policy.authentication_provider_id@);
    let q1 = give(say(q0, r#", "AuthenticationProviderId" = "#@), v1);
    let a1 = lemma_next_assign("Users"@, q0, a0, r#", "AuthenticationProviderId" = "#@, "AuthenticationProviderId"@, v1);
    let v2 = BindView::Text(policy.password_reset_provider_id@);
    let q2 = give(say(q1, r#", "PasswordResetProviderId" = "#@), v2);
    let a2 = lemma_next_assign("Users"@, q1, a1, r#", "PasswordResetProviderId" = "#@, "PasswordResetProviderId"@, v2);
    let v3 = BindView::Int(sync_play_number(policy.sync_play_access));
    let q3 = give(say(q2, r#", "SyncPlayAccess" = "#@), v3);
    let a3 = lemma_next_assign("Users"@, q2, a2, r#", "SyncPlayAccess" = "#@, "SyncPlayAccess"@, v3);
    (q3, a3)
}

/// Storing a policy writes each of its fields to the column of that field, in the row of the user
/// alone.
pub proof fn law_policy_is_stored(user_id: Guid, policy: UserPolicy) -> (r: Seq<Assign>)
    ensures
        updates(update_policy_sql(user_id, policy), "Users"@, r, has_id(hyphenated_text(user_id.value))),
        r.len() == 11,
        sets(r, "MaxActiveSessions"@, NewValue::Given(BindView::Int(policy.max_active_sessions as int))),
        sets(r, "MaxParentalRatingScore"@, NewValue::Given(BindView::OptionalInt(wide(policy.max_parental_rating)))),
        sets(r, "MaxParentalRatingSubScore"@, NewValue::Given(BindView::OptionalInt(wide(policy.max_parental_sub_rating)))),
        sets(r, "LoginAttemptsBeforeLockout"@, NewValue::Given(BindView::Int(policy.login_attempts_before_lockout as int))),
        sets(r, "EnableUserPreferenceAccess"@, NewValue::Given(BindView::Flag(policy.enable_user_preference_access))),
        sets(r, "InvalidLoginAttemptCount"@, NewValue::Given(BindView::Int(policy.invalid_login_attempt_count as int))),
        sets(r, "RemoteClientBitrateLimit"@, NewValue::Given(BindView::Int(policy.remote_client_bitrate_limit as int))),
        sets(r, "AuthenticationProviderId"@, NewValue::Given(BindView::Text(policy.authentication_provider_id@))),
        sets(r, "PasswordResetProviderId"@, NewValue::Given(BindView::Text(policy.password_reset_provider_id@))),
        sets(r, "SyncPlayAccess"@, NewValue::Given(BindView::Int(sync_play_number(policy.sync_play_access)))),
        sets(r, "RowVersion"@, NewValue::Raised),
{
    let (q0, a0) = store_policy_0(user_id, policy);
    let (q1, a1) = store_policy_1(user_id, policy, q0, a0);
    let (q2, a2) = store_policy_2(user_id, policy, q1, a1);
    lemma_raised_where("Users"@, q2, a2, hyphenated_text(user_id.value))
}


/// Storing a password writes its hash to the row of the user alone.
pub proof fn law_password_is_stored(user_id: Guid, hash: Seq<char>) -> (r: Seq<Assign>)
    ensures
        updates(password_sql(user_id, hash), "Users"@, r, has_id(hyphenated_text(user_id.value))),
        r.len() == 2,
        sets(r, "Password"@, NewValue::Given(BindView::Text(hash))),
        sets(r, "RowVersion"@, NewValue::Raised),
{
    assert(chars(r#"UPDATE "Users" SET "Password" = "#@) =~= update_head("Users"@) + quoted("Password"@) + chars(" = "@)) by {
        reveal(Said::spec_add);
        reveal_strlit(r#"UPDATE "Users" SET "Password" = "#);
        reveal_strlit("UPDATE ");
        reveal_strlit("\"");
        reveal_strlit("Users");
        reveal_strlit(" SET ");
        reveal_strlit("Password");
        reveal_strlit(" = ");
    }
    let v0 = BindView::Text(hash);
    let q0 = give(say(Seq::<PieceView>::empty(), r#"UPDATE "Users" SET "Password" = "#@), v0);
    let a0 = lemma_first_assign("Users"@, r#"UPDATE "Users" SET "Password" = "#@, "Password"@, v0);
    lemma_raised_where("Users"@, q0, a0, hyphenated_text(user_id.value))
}


} // verus!
