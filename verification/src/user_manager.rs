//! User accounts: their names, signing in, and what is shown and stored of them.
use vstd::prelude::*;

use crate::guid::{
    guid_in, guid_text, hyphenated_text, hyphenated_texts, new_guid, parse_guid, readable, Guid,
};
use crate::model::{PermissionKind, PreferenceKind};
use crate::paths::{join_path, joined};
use crate::service_error::{ErrorView, ServiceError};
use crate::sort::{inserted, sort_by, sorted, text_before, text_less};
use crate::sql::{
    copy_text, give, opt_int, say, sql_list, BindValue, BindView, PieceView, Sql, SqlBuilder,
};
use crate::text::{
    ascii_lower, ascii_upper, ascii_upper_char, blank, char_is_alphabetic, char_is_numeric,
    char_is_whitespace, chars_of, concat, concat3, eq_ignore_ascii_case, is_alphabetic,
    is_ascii_text, is_blank, is_char, is_numeric, is_whitespace, opt_text, same_ignoring_case,
    same_text, string_of, strip_start, texts, to_uppercase, uppercase,
};
use crate::time::Timestamp;
use crate::user_entity_ext::{
    preference_entries, preference_text, set_guid_preference_queries, set_permission_queries,
    set_permission_sql, set_preference_sql, split_guid_preference, split_preference,
};

verus! {

/// The provider that resets passwords, for a new user.
pub const DEFAULT_PASSWORD_RESET_PROVIDER_ID: &'static str =
    "Jellyfin.Server.Implementations.Users.DefaultPasswordResetProvider";

/// The name of the first user, where the host's user name cannot be one.
pub const DEFAULT_BOOTSTRAP_USERNAME: &'static str = "MyJellyfinUser";

// ---------------------------------------------------------------------------
// Names
// ---------------------------------------------------------------------------
/// Whether a character may stand in a user name: a letter, a digit, a space or
/// one of `_ - ' . @ +`.
pub open spec fn is_name_char(c: char) -> bool {
    char_is_alphabetic(c) || char_is_numeric(c) || c == '_' || c == ' ' || c == '-' || c == '\''
        || c == '.' || c == '@' || c == '+'
}

/// Whether a text can be a user name: it is not empty, holds only name characters,
/// neither begins nor ends with a space, and is neither `.` nor `..`.
pub open spec fn is_valid_name(s: Seq<char>) -> bool {
    &&& s.len() > 0
    &&& s != "."@
    &&& s != ".."@
    &&& !char_is_whitespace(s[0])
    &&& !char_is_whitespace(s.last())
    &&& forall|i: int| 0 <= i < s.len() ==> is_name_char(#[trigger] s[i])
}

fn name_char(c: char) -> (r: bool)
    ensures
        r == is_name_char(c),
{
    is_alphabetic(c) || is_numeric(c) || c == '_' || c == ' ' || c == '-' || c == '\'' || c == '.'
        || c == '@' || c == '+'
}

/// Whether a text can be a user name.
pub fn valid_username(name: &str) -> (r: bool)
    ensures
        r == is_valid_name(name@),
{
    let cs: Vec<char> = chars_of(name);
    if cs.len() == 0 || same_text(name, ".") || same_text(name, "..") {
        return false;
    }
    if is_whitespace(cs[0]) || is_whitespace(cs[cs.len() - 1]) {
        return false;
    }
    let mut i: usize = 0;
    while i < cs.len()
        invariant
            i <= cs.len(),
            cs@ == name@,
            forall|j: int| 0 <= j < i ==> is_name_char(#[trigger] cs@[j]),
        decreases cs.len() - i,
    {
        if !name_char(cs[i]) {
            return false;
        }
        i += 1;
    }
    true
}

/// The error for a name that cannot be a user name.
pub open spec fn bad_name() -> ErrorView {
    ErrorView::InvalidInput(
        "Usernames can contain unicode symbols, numbers (0-9), dashes (-), underscores (_), apostrophes ('), and periods (.)"@,
    )
}

/// Whether a text can be a user name, with the error where it cannot.
pub fn require_valid_username(name: &str) -> (r: Result<(), ServiceError>)
    ensures
        match r {
            Ok(_) => is_valid_name(name@),
            Err(e) => !is_valid_name(name@) && e@ == bad_name(),
        },
{
    if valid_username(name) {
        Ok(())
    } else {
        Err(
            ServiceError::InvalidInput(
                "Usernames can contain unicode symbols, numbers (0-9), dashes (-), underscores (_), apostrophes ('), and periods (.)".to_owned(),
            ),
        )
    }
}

/// The error for a name that another user has.
pub open spec fn name_taken(name: Seq<char>) -> ErrorView {
    ErrorView::InvalidInput("A user with the name '"@ + name + "' already exists."@)
}

fn name_taken_error(name: &str) -> (r: ServiceError)
    ensures
        r@ == name_taken(name@),
{
    ServiceError::InvalidInput(concat3("A user with the name '", name, "' already exists."))
}

/// Whether a user can be created under a name, given whether another one has it.
pub fn check_create(name: &str, is_taken: bool) -> (r: Result<(), ServiceError>)
    ensures
        match r {
            Ok(_) => is_valid_name(name@) && !is_taken,
            Err(e) => if !is_valid_name(name@) {
                e@ == bad_name()
            } else {
                is_taken && e@ == name_taken(name@)
            },
        },
{
    match require_valid_username(name) {
        Ok(_) => {},
        Err(e) => {
            return Err(e);
        },
    }
    if is_taken {
        return Err(name_taken_error(name));
    }
    Ok(())
}

/// Whether a user can be renamed, given whether another one has the name and
/// whether the user exists. The name is looked at first, then whether it is new,
/// then whether it is free.
pub fn check_rename(
    old_name: &str,
    new_name: &str,
    is_taken: bool,
    user_exists: bool,
    user_id: Guid,
) -> (r: Result<(), ServiceError>)
    ensures
        match r {
            Ok(_) => is_valid_name(new_name@) && old_name@ != new_name@ && !is_taken && user_exists,
            Err(e) => if !is_valid_name(new_name@) {
                e@ == bad_name()
            } else if old_name@ == new_name@ {
                e@ == ErrorView::InvalidInput("The new and old names must be different."@)
            } else if is_taken {
                e@ == name_taken(new_name@)
            } else {
                !user_exists && e@ == no_user(user_id)
            },
        },
{
    match require_valid_username(new_name) {
        Ok(_) => {},
        Err(e) => {
            return Err(e);
        },
    }
    if same_text(old_name, new_name) {
        return Err(
            ServiceError::InvalidInput("The new and old names must be different.".to_owned()),
        );
    }
    if is_taken {
        return Err(name_taken_error(new_name));
    }
    if !user_exists {
        return Err(missing_user(user_id));
    }
    Ok(())
}

/// The error for a user who does not exist.
pub open spec fn no_user(user_id: Guid) -> ErrorView {
    ErrorView::NotFound("user "@ + hyphenated_text(user_id.value))
}

/// The error for a user who does not exist.
pub fn missing_user(user_id: Guid) -> (r: ServiceError)
    ensures
        r@ == no_user(user_id),
{
    ServiceError::NotFound(concat("user ", guid_text(user_id).as_str()))
}

/// A statement that ends with an identifier.
pub open spec fn with_id(text: Seq<char>, id: Seq<char>) -> Sql {
    give(say(Seq::empty(), text), BindView::Text(id))
}

fn about(text: &'static str, id: &str) -> (r: SqlBuilder)
    ensures
        r@ == with_id(text@, id@),
{
    let mut qb: SqlBuilder = SqlBuilder::empty();
    qb.push(text);
    qb.push_text(id);
    qb
}

/// The statement for all users, by name.
pub fn users_query() -> (r: SqlBuilder)
    ensures
        r@ == seq![PieceView::Sql(r#"SELECT * FROM "Users" ORDER BY "Username""#@)],
{
    SqlBuilder::new(r#"SELECT * FROM "Users" ORDER BY "Username""#)
}

/// The statement for the identifiers of all users, by name.
pub fn user_ids_query() -> (r: SqlBuilder)
    ensures
        r@ == seq![PieceView::Sql(r#"SELECT "Id" FROM "Users" ORDER BY "Username""#@)],
{
    SqlBuilder::new(r#"SELECT "Id" FROM "Users" ORDER BY "Username""#)
}

/// The statement for the user that was made first.
pub fn first_user_query() -> (r: SqlBuilder)
    ensures
        r@ == seq![PieceView::Sql(r#"SELECT * FROM "Users" ORDER BY "InternalId" LIMIT 1"#@)],
{
    SqlBuilder::new(r#"SELECT * FROM "Users" ORDER BY "InternalId" LIMIT 1"#)
}

/// The statement that counts the users.
pub fn user_count_query() -> (r: SqlBuilder)
    ensures
        r@ == seq![PieceView::Sql(r#"SELECT COUNT(*) FROM "Users""#@)],
{
    SqlBuilder::new(r#"SELECT COUNT(*) FROM "Users""#)
}

/// The statement for the highest number that a user has.
pub fn highest_internal_id_query() -> (r: SqlBuilder)
    ensures
        r@ == seq![PieceView::Sql(r#"SELECT MAX("InternalId") FROM "Users""#@)],
{
    SqlBuilder::new(r#"SELECT MAX("InternalId") FROM "Users""#)
}

/// The statement that looks a user up by identifier.
pub fn user_by_id_query(user_id: Guid) -> (r: SqlBuilder)
    ensures
        r@ == say(
            with_id(r#"SELECT * FROM "Users" WHERE "Id" = "#@, hyphenated_text(user_id.value)),
            " LIMIT 1"@,
        ),
{
    let mut qb: SqlBuilder = about(
        r#"SELECT * FROM "Users" WHERE "Id" = "#,
        guid_text(user_id).as_str(),
    );
    qb.push(" LIMIT 1");
    qb
}

/// The statement that counts the administrators.
pub fn admin_count_query() -> (r: SqlBuilder)
    ensures
        r@ == say(
            give(
                say(
                    Seq::empty(),
                    r#"SELECT COUNT(*) FROM "Users" u WHERE EXISTS (SELECT 1 FROM "Permissions" p WHERE p."UserId" = u."Id" AND p."Kind" = "#@,
                ),
                BindView::Permission(PermissionKind::IsAdministrator),
            ),
            r#" AND p."Value" = 1)"#@,
        ),
{
    let mut qb: SqlBuilder = SqlBuilder::empty();
    qb.push(
        r#"SELECT COUNT(*) FROM "Users" u WHERE EXISTS (SELECT 1 FROM "Permissions" p WHERE p."UserId" = u."Id" AND p."Kind" = "#,
    );
    qb.push_bind(BindValue::Permission(PermissionKind::IsAdministrator));
    qb.push(r#" AND p."Value" = 1)"#);
    qb
}

/// The statement that reads all permissions of a user.
pub fn permissions_query(user_id: &str) -> (r: SqlBuilder)
    ensures
        r@ == with_id(r#"SELECT "Kind", "Value" FROM "Permissions" WHERE "UserId" = "#@, user_id@),
{
    about(r#"SELECT "Kind", "Value" FROM "Permissions" WHERE "UserId" = "#, user_id)
}

/// The statement that reads all preferences of a user.
pub fn preferences_query(user_id: &str) -> (r: SqlBuilder)
    ensures
        r@ == with_id(r#"SELECT "Kind", "Value" FROM "Preferences" WHERE "UserId" = "#@, user_id@),
{
    about(r#"SELECT "Kind", "Value" FROM "Preferences" WHERE "UserId" = "#, user_id)
}

/// The statement that reads when a user may sign in.
pub fn schedules_query(user_id: &str) -> (r: SqlBuilder)
    ensures
        r@ == with_id(
            r#"SELECT "Id", "DayOfWeek", "StartHour", "EndHour" FROM "AccessSchedules" WHERE "UserId" = "#@,
            user_id@,
        ),
{
    about(
        r#"SELECT "Id", "DayOfWeek", "StartHour", "EndHour" FROM "AccessSchedules" WHERE "UserId" = "#,
        user_id,
    )
}

/// The statement that reads a user's image.
pub fn profile_image_query(user_id: Guid) -> (r: SqlBuilder)
    ensures
        r@ == say(
            with_id(
                r#"SELECT * FROM "ImageInfos" WHERE "UserId" = "#@,
                hyphenated_text(user_id.value),
            ),
            " LIMIT 1"@,
        ),
{
    let mut qb: SqlBuilder = about(
        r#"SELECT * FROM "ImageInfos" WHERE "UserId" = "#,
        guid_text(user_id).as_str(),
    );
    qb.push(" LIMIT 1");
    qb
}

/// The statement that takes a user's image away.
pub fn clear_profile_image_query(user_id: &str) -> (r: SqlBuilder)
    ensures
        r@ == with_id(r#"DELETE FROM "ImageInfos" WHERE "UserId" = "#@, user_id@),
{
    about(r#"DELETE FROM "ImageInfos" WHERE "UserId" = "#, user_id)
}

/// The statement that looks a user up by name, whatever its letters' case.
pub open spec fn user_by_name_sql(name: Seq<char>) -> Sql {
    say(
        give(
            say(Seq::empty(), r#"SELECT * FROM "Users" WHERE "NormalizedUsername" = "#@),
            BindView::Text(uppercase(name)),
        ),
        " LIMIT 1"@,
    )
}

/// Two ASCII names that differ in the case of letters only are one name to the
/// search for a user.
pub proof fn law_names_are_found_in_any_case(a: Seq<char>, b: Seq<char>)
    requires
        is_ascii_text(a),
        is_ascii_text(b),
        same_ignoring_case(a, b),
    ensures
        user_by_name_sql(a) == user_by_name_sql(b),
{
    assert(ascii_lower(a).len() == ascii_lower(b).len());
    assert forall|i: int| 0 <= i < a.len() implies ascii_upper_char(a[i]) == ascii_upper_char(
        b[i],
    ) by {
        assert(ascii_lower(a)[i] == ascii_lower(b)[i]);
    }
    assert(ascii_upper(a) =~= ascii_upper(b));
}

/// The statement that looks a user up by name.
pub fn user_by_name_query(name: &str) -> (r: SqlBuilder)
    ensures
        r@ == user_by_name_sql(name@),
{
    let mut qb: SqlBuilder = SqlBuilder::empty();
    qb.push(r#"SELECT * FROM "Users" WHERE "NormalizedUsername" = "#);
    qb.push_bind(BindValue::Text(to_uppercase(name)));
    qb.push(" LIMIT 1");
    qb
}

/// The statement that looks for another user with a name.
pub open spec fn name_clash_sql(name: Seq<char>, user_id: Guid) -> Sql {
    let a = give(
        say(Seq::empty(), r#"SELECT "Id" FROM "Users" WHERE "NormalizedUsername" = "#@),
        BindView::Text(uppercase(name)),
    );
    say(
        give(say(a, r#" AND "Id" != "#@), BindView::Text(hyphenated_text(user_id.value))),
        " LIMIT 1"@,
    )
}

/// The statement that looks for another user with a name.
pub fn name_clash_query(name: &str, user_id: Guid) -> (r: SqlBuilder)
    ensures
        r@ == name_clash_sql(name@, user_id),
{
    let mut qb: SqlBuilder = SqlBuilder::empty();
    qb.push(r#"SELECT "Id" FROM "Users" WHERE "NormalizedUsername" = "#);
    qb.push_bind(BindValue::Text(to_uppercase(name)));
    qb.push(r#" AND "Id" != "#);
    qb.push_bind(BindValue::Text(guid_text(user_id)));
    qb.push(" LIMIT 1");
    qb
}

/// The statement that renames a user.
pub open spec fn rename_sql(user_id: Guid, name: Seq<char>) -> Sql {
    let a = give(say(Seq::empty(), r#"UPDATE "Users" SET "Username" = "#@), BindView::Text(name));
    let b = give(say(a, r#", "NormalizedUsername" = "#@), BindView::Text(uppercase(name)));
    give(say(b, r#" WHERE "Id" = "#@), BindView::Text(hyphenated_text(user_id.value)))
}

/// The statement that renames a user.
pub fn rename_query(user_id: Guid, new_name: &str) -> (r: SqlBuilder)
    ensures
        r@ == rename_sql(user_id, new_name@),
{
    let mut qb: SqlBuilder = SqlBuilder::empty();
    qb.push(r#"UPDATE "Users" SET "Username" = "#);
    qb.push_text(new_name);
    qb.push(r#", "NormalizedUsername" = "#);
    qb.push_bind(BindValue::Text(to_uppercase(new_name)));
    qb.push(r#" WHERE "Id" = "#);
    qb.push_bind(BindValue::Text(guid_text(user_id)));
    qb
}

// ---------------------------------------------------------------------------
// Creating and deleting users
// ---------------------------------------------------------------------------
/// The statement that adds a user.
pub open spec fn insert_user_sql(
    id: Guid,
    auth_provider: Seq<char>,
    internal_id: int,
    name: Seq<char>,
) -> Sql {
    let a = give(
        say(
            Seq::empty(),
            r#"INSERT INTO "Users" ("Id", "AuthenticationProviderId", "DisplayCollectionsView", "DisplayMissingEpisodes", "EnableAutoLogin", "EnableLocalPassword", "EnableNextEpisodeAutoPlay", "EnableUserPreferenceAccess", "HidePlayedInLatest", "CastReceiverId", "InternalId", "InvalidLoginAttemptCount", "MaxActiveSessions", "MustUpdatePassword", "NormalizedUsername", "PasswordResetProviderId", "PlayDefaultAudioTrack", "RememberAudioSelections", "RememberSubtitleSelections", "RowVersion", "SubtitleMode", "SyncPlayAccess", "Username") VALUES ("#@,
        ),
        BindView::Text(hyphenated_text(id.value)),
    );
    let b = give(say(a, ", "@), BindView::Text(auth_provider));
    let c = give(say(b, ", 0, 0, 0, 0, 1, 1, 1, 'F007D354', "@), BindView::Int(internal_id));
    let d = give(say(c, ", 0, 0, 0, "@), BindView::Text(uppercase(name)));
    let e = give(say(d, ", "@), BindView::Text(DEFAULT_PASSWORD_RESET_PROVIDER_ID@));
    say(give(say(e, ", 1, 1, 1, 0, 0, 0, "@), BindView::Text(name)), ")"@)
}

/// The statement that adds a user under the given id.
pub fn insert_user_query(id: Guid, auth_provider: &str, internal_id: i64, name: &str) -> (r: SqlBuilder)
    ensures
        r@ == insert_user_sql(id, auth_provider@, internal_id as int, name@),
{
    let mut qb: SqlBuilder = SqlBuilder::empty();
    qb.push(
        r#"INSERT INTO "Users" ("Id", "AuthenticationProviderId", "DisplayCollectionsView", "DisplayMissingEpisodes", "EnableAutoLogin", "EnableLocalPassword", "EnableNextEpisodeAutoPlay", "EnableUserPreferenceAccess", "HidePlayedInLatest", "CastReceiverId", "InternalId", "InvalidLoginAttemptCount", "MaxActiveSessions", "MustUpdatePassword", "NormalizedUsername", "PasswordResetProviderId", "PlayDefaultAudioTrack", "RememberAudioSelections", "RememberSubtitleSelections", "RowVersion", "SubtitleMode", "SyncPlayAccess", "Username") VALUES ("#,
    );
    qb.push_bind(BindValue::Text(guid_text(id)));
    qb.push(", ");
    qb.push_text(auth_provider);
    qb.push(", 0, 0, 0, 0, 1, 1, 1, 'F007D354', ");
    qb.push_bind(BindValue::Int(internal_id));
    qb.push(", 0, 0, 0, ");
    qb.push_bind(BindValue::Text(to_uppercase(name)));
    qb.push(", ");
    qb.push_text(DEFAULT_PASSWORD_RESET_PROVIDER_ID);
    qb.push(", 1, 1, 1, 0, 0, 0, ");
    qb.push_text(name);
    qb.push(")");
    qb
}

/// A new user's id, which is random, and the statement that adds the user.
pub fn new_user(auth_provider: &str, internal_id: i64, name: &str) -> (r: (Guid, SqlBuilder))
    ensures
        r.0.value != 0,
        r.1@ == insert_user_sql(r.0, auth_provider@, internal_id as int, name@),
{
    let id: Guid = new_guid();
    (id, insert_user_query(id, auth_provider, internal_id, name))
}

/// The number after the highest one that is taken.
pub fn next_internal_id(highest: Option<i64>) -> (r: i64)
    requires
        highest != Some(i64::MAX),
    ensures
        r == match highest {
            Some(n) => n + 1,
            None => 1,
        },
{
    match highest {
        Some(n) => n + 1,
        None => 1,
    }
}

/// The name of the first user: the host's user name, if it can be one.
pub fn bootstrap_name(host_user: Option<String>) -> (r: String)
    ensures
        r@ == match host_user {
            Some(n) => if is_valid_name(n@) {
                n@
            } else {
                DEFAULT_BOOTSTRAP_USERNAME@
            },
            None => DEFAULT_BOOTSTRAP_USERNAME@,
        },
{
    match host_user {
        Some(n) => {
            if valid_username(n.as_str()) {
                return n;
            }
        },
        None => {},
    }
    DEFAULT_BOOTSTRAP_USERNAME.to_owned()
}

/// What the first user may do beyond what every new user may.
pub open spec fn bootstrap_sql(user_id: Seq<char>) -> Seq<Sql> {
    set_permission_sql(user_id, PermissionKind::IsAdministrator, true) + set_permission_sql(
        user_id,
        PermissionKind::EnableContentDeletion,
        true,
    ) + set_permission_sql(user_id, PermissionKind::EnableRemoteControlOfOtherUsers, true)
}

fn append_all(out: &mut Vec<SqlBuilder>, more: Vec<SqlBuilder>)
    ensures
        sql_list(final(out)@) == sql_list(old(out)@) + sql_list(more@),
{
    let mut more: Vec<SqlBuilder> = more;
    let ghost tail = more@;
    out.append(&mut more);
    assert(sql_list(out@) =~= sql_list(old(out)@) + sql_list(tail));
}

/// The statements that make the first user an administrator.
pub fn bootstrap_queries(user_id: &str) -> (r: Vec<SqlBuilder>)
    ensures
        sql_list(r@) == bootstrap_sql(user_id@),
{
    let mut out: Vec<SqlBuilder> = set_permission_queries(
        user_id,
        PermissionKind::IsAdministrator,
        true,
    );
    append_all(
        &mut out,
        set_permission_queries(user_id, PermissionKind::EnableContentDeletion, true),
    );
    append_all(
        &mut out,
        set_permission_queries(user_id, PermissionKind::EnableRemoteControlOfOtherUsers, true),
    );
    out
}

/// Whether a user can be deleted: neither the last user nor the last administrator
/// can.
pub fn check_delete(username: &str, user_count: i64, is_admin: bool, admin_count: i64) -> (r: Result<
    (),
    ServiceError,
>)
    ensures
        match r {
            Ok(_) => user_count != 1 && !(is_admin && admin_count == 1),
            Err(e) => if user_count == 1 {
                e@ == ErrorView::InvalidInput(
                    "The user '"@ + username@
                        + "' cannot be deleted because there must be at least one user in the system."@,
                )
            } else {
                is_admin && admin_count == 1 && e@ == ErrorView::InvalidInput(
                    "The user '"@ + username@
                        + "' cannot be deleted because there must be at least one admin user in the system."@,
                )
            },
        },
{
    if user_count == 1 {
        return Err(
            ServiceError::InvalidInput(
                concat3(
                    "The user '",
                    username,
                    "' cannot be deleted because there must be at least one user in the system.",
                ),
            ),
        );
    }
    if is_admin && admin_count == 1 {
        return Err(
            ServiceError::InvalidInput(
                concat3(
                    "The user '",
                    username,
                    "' cannot be deleted because there must be at least one admin user in the system.",
                ),
            ),
        );
    }
    Ok(())
}

/// The statements that delete a user, with everything that is theirs first.
pub open spec fn delete_user_sql(user_id: Guid) -> Seq<Sql> {
    let id = hyphenated_text(user_id.value);
    seq![
        with_id(r#"DELETE FROM "Permissions" WHERE "UserId" = "#@, id),
        with_id(r#"DELETE FROM "Preferences" WHERE "UserId" = "#@, id),
        with_id(r#"DELETE FROM "AccessSchedules" WHERE "UserId" = "#@, id),
        with_id(r#"DELETE FROM "ImageInfos" WHERE "UserId" = "#@, id),
        with_id(r#"DELETE FROM "Users" WHERE "Id" = "#@, id),
    ]
}

/// The statements that delete a user.
pub fn delete_user_queries(user_id: Guid) -> (r: Vec<SqlBuilder>)
    ensures
        sql_list(r@) == delete_user_sql(user_id),
{
    let text: String = guid_text(user_id);
    let id: &str = text.as_str();
    let out: Vec<SqlBuilder> = vec![
        about(r#"DELETE FROM "Permissions" WHERE "UserId" = "#, id),
        about(r#"DELETE FROM "Preferences" WHERE "UserId" = "#, id),
        about(r#"DELETE FROM "AccessSchedules" WHERE "UserId" = "#, id),
        about(r#"DELETE FROM "ImageInfos" WHERE "UserId" = "#, id),
        about(r#"DELETE FROM "Users" WHERE "Id" = "#, id),
    ];
    assert(sql_list(out@) =~= delete_user_sql(user_id));
    out
}

// ---------------------------------------------------------------------------
// Storing users
// ---------------------------------------------------------------------------
/// A user's row.
#[derive(Debug, Clone)]
pub struct UserRow {
    pub id: String,
    pub audio_language_preference: Option<String>,
    pub authentication_provider_id: String,
    pub cast_receiver_id: Option<String>,
    pub display_collections_view: bool,
    pub display_missing_episodes: bool,
    pub enable_auto_login: bool,
    pub enable_local_password: bool,
    pub enable_next_episode_auto_play: bool,
    pub enable_user_preference_access: bool,
    pub hide_played_in_latest: bool,
    pub internal_id: i64,
    pub invalid_login_attempt_count: i64,
    pub last_activity_date: Option<Timestamp>,
    pub last_login_date: Option<Timestamp>,
    pub login_attempts_before_lockout: Option<i64>,
    pub max_active_sessions: i64,
    pub max_parental_rating_score: Option<i64>,
    pub max_parental_rating_sub_score: Option<i64>,
    pub must_update_password: bool,
    pub normalized_username: String,
    pub password: Option<String>,
    pub password_reset_provider_id: String,
    pub play_default_audio_track: bool,
    pub remember_audio_selections: bool,
    pub remember_subtitle_selections: bool,
    pub remote_client_bitrate_limit: Option<i64>,
    pub subtitle_language_preference: Option<String>,
    pub subtitle_mode: i32,
    pub sync_play_access: i32,
    pub username: String,
}

/// The statement that stores a user's row.
pub open spec fn update_user_sql(user: UserRow) -> Sql {
    let c0 = give(say(Seq::empty(), r#"UPDATE "Users" SET "AudioLanguagePreference" = "#@), BindView::OptionalText(opt_text(user.audio_language_preference)));
    let c1 = give(say(c0, r#", "AuthenticationProviderId" = "#@), BindView::Text(user.authentication_provider_id@));
    let c2 = give(say(c1, r#", "CastReceiverId" = "#@), BindView::OptionalText(opt_text(user.cast_receiver_id)));
    let c3 = give(say(c2, r#", "DisplayCollectionsView" = "#@), BindView::Flag(user.display_collections_view));
    let c4 = give(say(c3, r#", "DisplayMissingEpisodes" = "#@), BindView::Flag(user.display_missing_episodes));
    let c5 = give(say(c4, r#", "EnableAutoLogin" = "#@), BindView::Flag(user.enable_auto_login));
    let c6 = give(say(c5, r#", "EnableLocalPassword" = "#@), BindView::Flag(user.enable_local_password));
    let c7 = give(say(c6, r#", "EnableNextEpisodeAutoPlay" = "#@), BindView::Flag(user.enable_next_episode_auto_play));
    let c8 = give(say(c7, r#", "EnableUserPreferenceAccess" = "#@), BindView::Flag(user.enable_user_preference_access));
    let c9 = give(say(c8, r#", "HidePlayedInLatest" = "#@), BindView::Flag(user.hide_played_in_latest));
    let c10 = give(say(c9, r#", "InternalId" = "#@), BindView::Int(user.internal_id as int));
    let c11 = give(say(c10, r#", "InvalidLoginAttemptCount" = "#@), BindView::Int(user.invalid_login_attempt_count as int));
    let c12 = give(say(c11, r#", "LastActivityDate" = "#@), BindView::OptionalTime(user.last_activity_date));
    let c13 = give(say(c12, r#", "LastLoginDate" = "#@), BindView::OptionalTime(user.last_login_date));
    let c14 = give(say(c13, r#", "LoginAttemptsBeforeLockout" = "#@), BindView::OptionalInt(opt_int(user.login_attempts_before_lockout)));
    let c15 = give(say(c14, r#", "MaxActiveSessions" = "#@), BindView::Int(user.max_active_sessions as int));
    let c16 = give(say(c15, r#", "MaxParentalRatingScore" = "#@), BindView::OptionalInt(opt_int(user.max_parental_rating_score)));
    let c17 = give(say(c16, r#", "MaxParentalRatingSubScore" = "#@), BindView::OptionalInt(opt_int(user.max_parental_rating_sub_score)));
    let c18 = give(say(c17, r#", "MustUpdatePassword" = "#@), BindView::Flag(user.must_update_password));
    let c19 = give(say(c18, r#", "NormalizedUsername" = "#@), BindView::Text(user.normalized_username@));
    let c20 = give(say(c19, r#", "Password" = "#@), BindView::OptionalText(opt_text(user.password)));
    let c21 = give(say(c20, r#", "PasswordResetProviderId" = "#@), BindView::Text(user.password_reset_provider_id@));
    let c22 = give(say(c21, r#", "PlayDefaultAudioTrack" = "#@), BindView::Flag(user.play_default_audio_track));
    let c23 = give(say(c22, r#", "RememberAudioSelections" = "#@), BindView::Flag(user.remember_audio_selections));
    let c24 = give(say(c23, r#", "RememberSubtitleSelections" = "#@), BindView::Flag(user.remember_subtitle_selections));
    let c25 = give(say(c24, r#", "RemoteClientBitrateLimit" = "#@), BindView::OptionalInt(opt_int(user.remote_client_bitrate_limit)));
    let c26 = give(say(c25, r#", "SubtitleLanguagePreference" = "#@), BindView::OptionalText(opt_text(user.subtitle_language_preference)));
    let c27 = give(say(c26, r#", "SubtitleMode" = "#@), BindView::Int(user.subtitle_mode as int));
    let c28 = give(say(c27, r#", "SyncPlayAccess" = "#@), BindView::Int(user.sync_play_access as int));
    let c29 = give(say(c28, r#", "Username" = "#@), BindView::Text(user.username@));
    give(
        say(c29, r#", "RowVersion" = "RowVersion" + 1 WHERE "Id" = "#@),
        BindView::Text(user.id@),
    )
}

/// The statement that stores a user's row. A row whose id cannot be read is
/// refused, and so is that of a user who does not exist.
pub fn update_user_query(user: &UserRow, user_exists: bool) -> (r: Result<SqlBuilder, ServiceError>)
    ensures
        match r {
            Ok(qb) => guid_in(user.id@) is Some && user_exists && qb@ == update_user_sql(*user),
            Err(e) => if guid_in(user.id@) is None {
                e@ == ErrorView::InvalidInput("user id is not a valid guid"@)
            } else {
                !user_exists && e@ == no_user(guid_in(user.id@)->0)
            },
        },
{
    let id: Guid = match parse_guid(user.id.as_str()) {
        Some(id) => id,
        None => {
            return Err(ServiceError::InvalidInput("user id is not a valid guid".to_owned()));
        },
    };
    if !user_exists {
        return Err(missing_user(id));
    }
    Ok(store_user_query(user))
}

fn store_user_query(user: &UserRow) -> (r: SqlBuilder)
    ensures
        r@ == update_user_sql(*user),
{
    let mut qb: SqlBuilder = SqlBuilder::empty();
    qb.push(r#"UPDATE "Users" SET "AudioLanguagePreference" = "#);
    qb.push_bind(BindValue::OptionalText(copy_text(&user.audio_language_preference)));
    qb.push(r#", "AuthenticationProviderId" = "#);
    qb.push_bind(BindValue::Text(user.authentication_provider_id.clone()));
    qb.push(r#", "CastReceiverId" = "#);
    qb.push_bind(BindValue::OptionalText(copy_text(&user.cast_receiver_id)));
    qb.push(r#", "DisplayCollectionsView" = "#);
    qb.push_bind(BindValue::Flag(user.display_collections_view));
    qb.push(r#", "DisplayMissingEpisodes" = "#);
    qb.push_bind(BindValue::Flag(user.display_missing_episodes));
    qb.push(r#", "EnableAutoLogin" = "#);
    qb.push_bind(BindValue::Flag(user.enable_auto_login));
    qb.push(r#", "EnableLocalPassword" = "#);
    qb.push_bind(BindValue::Flag(user.enable_local_password));
    qb.push(r#", "EnableNextEpisodeAutoPlay" = "#);
    qb.push_bind(BindValue::Flag(user.enable_next_episode_auto_play));
    qb.push(r#", "EnableUserPreferenceAccess" = "#);
    qb.push_bind(BindValue::Flag(user.enable_user_preference_access));
    qb.push(r#", "HidePlayedInLatest" = "#);
    qb.push_bind(BindValue::Flag(user.hide_played_in_latest));
    qb.push(r#", "InternalId" = "#);
    qb.push_bind(BindValue::Int(user.internal_id));
    qb.push(r#", "InvalidLoginAttemptCount" = "#);
    qb.push_bind(BindValue::Int(user.invalid_login_attempt_count));
    qb.push(r#", "LastActivityDate" = "#);
    qb.push_bind(BindValue::OptionalTime(user.last_activity_date));
    qb.push(r#", "LastLoginDate" = "#);
    qb.push_bind(BindValue::OptionalTime(user.last_login_date));
    qb.push(r#", "LoginAttemptsBeforeLockout" = "#);
    qb.push_bind(BindValue::OptionalInt(user.login_attempts_before_lockout));
    qb.push(r#", "MaxActiveSessions" = "#);
    qb.push_bind(BindValue::Int(user.max_active_sessions));
    qb.push(r#", "MaxParentalRatingScore" = "#);
    qb.push_bind(BindValue::OptionalInt(user.max_parental_rating_score));
    qb.push(r#", "MaxParentalRatingSubScore" = "#);
    qb.push_bind(BindValue::OptionalInt(user.max_parental_rating_sub_score));
    qb.push(r#", "MustUpdatePassword" = "#);
    qb.push_bind(BindValue::Flag(user.must_update_password));
    qb.push(r#", "NormalizedUsername" = "#);
    qb.push_bind(BindValue::Text(user.normalized_username.clone()));
    qb.push(r#", "Password" = "#);
    qb.push_bind(BindValue::OptionalText(copy_text(&user.password)));
    qb.push(r#", "PasswordResetProviderId" = "#);
    qb.push_bind(BindValue::Text(user.password_reset_provider_id.clone()));
    qb.push(r#", "PlayDefaultAudioTrack" = "#);
    qb.push_bind(BindValue::Flag(user.play_default_audio_track));
    qb.push(r#", "RememberAudioSelections" = "#);
    qb.push_bind(BindValue::Flag(user.remember_audio_selections));
    qb.push(r#", "RememberSubtitleSelections" = "#);
    qb.push_bind(BindValue::Flag(user.remember_subtitle_selections));
    qb.push(r#", "RemoteClientBitrateLimit" = "#);
    qb.push_bind(BindValue::OptionalInt(user.remote_client_bitrate_limit));
    qb.push(r#", "SubtitleLanguagePreference" = "#);
    qb.push_bind(BindValue::OptionalText(copy_text(&user.subtitle_language_preference)));
    qb.push(r#", "SubtitleMode" = "#);
    qb.push_bind(BindValue::Int(user.subtitle_mode as i64));
    qb.push(r#", "SyncPlayAccess" = "#);
    qb.push_bind(BindValue::Int(user.sync_play_access as i64));
    qb.push(r#", "Username" = "#);
    qb.push_bind(BindValue::Text(user.username.clone()));
    qb.push(r#", "RowVersion" = "RowVersion" + 1 WHERE "Id" = "#);
    qb.push_text(user.id.as_str());
    qb
}

// ---------------------------------------------------------------------------
// Passwords
// ---------------------------------------------------------------------------
/// Whether a password can be set: an administrator's must not be blank.
pub fn check_password(new_password: &str, is_admin: bool) -> (r: Result<(), ServiceError>)
    ensures
        r is Ok <==> !(is_blank(new_password@) && is_admin),
        r matches Err(e) ==> e@ == ErrorView::InvalidInput("Admin user passwords must not be empty"@),
{
    if blank(new_password) && is_admin {
        return Err(
            ServiceError::InvalidInput("Admin user passwords must not be empty".to_owned()),
        );
    }
    Ok(())
}

/// The statement that stores a password's hash.
pub open spec fn password_sql(user_id: Guid, hash: Seq<char>) -> Sql {
    let a = give(say(Seq::empty(), r#"UPDATE "Users" SET "Password" = "#@), BindView::Text(hash));
    give(
        say(a, r#", "RowVersion" = "RowVersion" + 1 WHERE "Id" = "#@),
        BindView::Text(hyphenated_text(user_id.value)),
    )
}

/// The statement that stores a password's hash.
pub fn password_query(user_id: Guid, hash: &str) -> (r: SqlBuilder)
    ensures
        r@ == password_sql(user_id, hash@),
{
    let mut qb: SqlBuilder = SqlBuilder::empty();
    qb.push(r#"UPDATE "Users" SET "Password" = "#);
    qb.push_text(hash);
    qb.push(r#", "RowVersion" = "RowVersion" + 1 WHERE "Id" = "#);
    qb.push_bind(BindValue::Text(guid_text(user_id)));
    qb
}

// ---------------------------------------------------------------------------
// Authentication providers
// ---------------------------------------------------------------------------
/// The ids under which rows store the built-in providers.
#[derive(Debug, Clone)]
pub struct BuiltInProviders {
    pub default_id: String,
    pub invalid_id: String,
}

/// The id under which rows store a provider: a built-in one's own, else the name.
pub open spec fn stored_provider_id(name: Seq<char>, built_in: BuiltInProviders) -> Seq<char> {
    if name == "Default"@ {
        built_in.default_id@
    } else if name == "InvalidOrMissingAuthenticationProvider"@ {
        built_in.invalid_id@
    } else {
        name
    }
}

/// The id under which rows store a provider.
pub fn provider_id(name: &str, built_in: &BuiltInProviders) -> (r: String)
    ensures
        r@ == stored_provider_id(name@, *built_in),
{
    if same_text(name, "Default") {
        built_in.default_id.clone()
    } else if same_text(name, "InvalidOrMissingAuthenticationProvider") {
        built_in.invalid_id.clone()
    } else {
        name.to_owned()
    }
}

/// A provider's name, and whether it can be used.
#[derive(Debug, Clone)]
pub struct ProviderState {
    pub name: String,
    pub is_enabled: bool,
}

/// Whether a provider is asked about a user who wants the given one; an empty id
/// means any.
pub open spec fn is_candidate(p: ProviderState, wanted: Seq<char>, built_in: BuiltInProviders) -> bool {
    p.is_enabled && (wanted.len() == 0 || same_ignoring_case(
        stored_provider_id(p.name@, built_in),
        wanted,
    ))
}

/// Where the providers stand that are asked, in their order.
pub open spec fn candidates(
    providers: Seq<ProviderState>,
    wanted: Seq<char>,
    built_in: BuiltInProviders,
) -> Seq<int>
    decreases providers.len(),
{
    if providers.len() == 0 {
        Seq::empty()
    } else {
        let head = candidates(providers.drop_last(), wanted, built_in);
        if is_candidate(providers.last(), wanted, built_in) {
            head.push(providers.len() - 1)
        } else {
            head
        }
    }
}

/// Numbers as integers.
pub open spec fn positions(v: Seq<usize>) -> Seq<int> {
    Seq::new(v.len(), |i: int| v[i] as int)
}

/// Where the providers stand that are asked about a user, in their order.
pub fn candidate_providers(
    providers: &[ProviderState],
    wanted: Option<&str>,
    built_in: &BuiltInProviders,
) -> (r: Vec<usize>)
    ensures
        positions(r@) == candidates(
            providers@,
            match wanted {
                Some(id) => id@,
                None => Seq::empty(),
            },
            *built_in,
        ),
{
    let ghost id = match wanted {
        Some(id) => id@,
        None => Seq::empty(),
    };
    let any: bool = match wanted {
        Some(w) => w.unicode_len() == 0,
        None => true,
    };
    let mut out: Vec<usize> = Vec::new();
    let mut i: usize = 0;
    assert(positions(out@) =~= candidates(providers@.take(0), id, *built_in));
    while i < providers.len()
        invariant
            i <= providers.len(),
            id == (match wanted {
                Some(id) => id@,
                None => Seq::empty(),
            }),
            any == (id.len() == 0),
            positions(out@) == candidates(providers@.take(i as int), id, *built_in),
        decreases providers.len() - i,
    {
        assert(providers@.take(i + 1).drop_last() =~= providers@.take(i as int));
        assert(providers@.take(i + 1).last() == providers@[i as int]);
        let p: &ProviderState = &providers[i];
        let fits: bool = match wanted {
            Some(w) => any || eq_ignore_ascii_case(
                provider_id(p.name.as_str(), built_in).as_str(),
                w,
            ),
            None => true,
        };
        if p.is_enabled && fits {
            let ghost before = out@;
            out.push(i);
            assert(positions(out@) =~= positions(before).push(i as int));
        }
        i += 1;
    }
    assert(providers@.take(providers@.len() as int) =~= providers@);
    out
}

/// A provider's name and the id that rows store.
#[derive(Debug, Clone)]
pub struct NameIdPair {
    pub name: String,
    pub id: String,
}

/// What a pair stands for.
pub struct NameIdView {
    pub name: Seq<char>,
    pub id: Seq<char>,
}

impl View for NameIdPair {
    type V = NameIdView;

    open spec fn view(&self) -> NameIdView {
        NameIdView { name: self.name@, id: self.id@ }
    }
}

/// What a list of pairs stands for.
pub open spec fn pair_views(v: Seq<NameIdPair>) -> Seq<NameIdView> {
    Seq::new(v.len(), |i: int| v[i]@)
}

/// The order in which providers are shown: the default one first, the others by
/// name.
pub open spec fn shown_before(default_id: Seq<char>) -> spec_fn(NameIdView, NameIdView) -> bool {
    |a: NameIdView, b: NameIdView|
        if (a.id == default_id) == (b.id == default_id) {
            text_less(a.name, b.name)
        } else {
            a.id == default_id
        }
}

/// The usable providers, in their order.
pub open spec fn enabled_pairs(providers: Seq<ProviderState>, built_in: BuiltInProviders) -> Seq<
    NameIdView,
>
    decreases providers.len(),
{
    if providers.len() == 0 {
        Seq::empty()
    } else {
        let head = enabled_pairs(providers.drop_last(), built_in);
        if providers.last().is_enabled {
            head.push(
                NameIdView {
                    name: providers.last().name@,
                    id: stored_provider_id(providers.last().name@, built_in),
                },
            )
        } else {
            head
        }
    }
}

/// The usable providers as they are shown.
pub fn get_authentication_providers(providers: &[ProviderState], built_in: &BuiltInProviders) -> (r:
    Vec<NameIdPair>)
    ensures
        pair_views(r@) == sorted(
            enabled_pairs(providers@, *built_in),
            shown_before(built_in.default_id@),
        ),
{
    let mut out: Vec<NameIdPair> = Vec::new();
    let mut i: usize = 0;
    assert(pair_views(out@) =~= enabled_pairs(providers@.take(0), *built_in));
    while i < providers.len()
        invariant
            i <= providers.len(),
            pair_views(out@) == enabled_pairs(providers@.take(i as int), *built_in),
        decreases providers.len() - i,
    {
        assert(providers@.take(i + 1).drop_last() =~= providers@.take(i as int));
        assert(providers@.take(i + 1).last() == providers@[i as int]);
        let p: &ProviderState = &providers[i];
        if p.is_enabled {
            let ghost before = out@;
            let pair: NameIdPair = NameIdPair {
                name: p.name.clone(),
                id: provider_id(p.name.as_str(), built_in),
            };
            let ghost pushed = pair@;
            out.push(pair);
            assert(pair_views(out@) =~= pair_views(before).push(pushed));
        }
        i += 1;
    }
    assert(providers@.take(providers@.len() as int) =~= providers@);
    let ghost all = out@;
    let ghost less = |a: NameIdPair, b: NameIdPair| shown_before(built_in.default_id@)(a@, b@);
    let before = |a: &NameIdPair, b: &NameIdPair| -> (c: bool)
        ensures
            c == shown_before(built_in.default_id@)(a@, b@),
        { is_shown_before(a, b, built_in.default_id.as_str()) };
    let r: Vec<NameIdPair> = sort_by(out, before, Ghost(less));
    proof {
        lemma_sorted_pairs(all, less, built_in.default_id@);
    }
    r
}

fn is_shown_before(a: &NameIdPair, b: &NameIdPair, default_id: &str) -> (r: bool)
    ensures
        r == shown_before(default_id@)(a@, b@),
{
    let first: bool = same_text(a.id.as_str(), default_id);
    let second: bool = same_text(b.id.as_str(), default_id);
    if first == second {
        text_before(a.name.as_str(), b.name.as_str())
    } else {
        first
    }
}

proof fn lemma_sorted_pairs(
    v: Seq<NameIdPair>,
    less: spec_fn(NameIdPair, NameIdPair) -> bool,
    default_id: Seq<char>,
)
    requires
        forall|a: NameIdPair, b: NameIdPair| #[trigger] less(a, b) == shown_before(default_id)(a@, b@),
    ensures
        pair_views(sorted(v, less)) == sorted(pair_views(v), shown_before(default_id)),
    decreases v.len(),
{
    if v.len() == 0 {
        assert(pair_views(sorted(v, less)) =~= sorted(pair_views(v), shown_before(default_id)));
    } else {
        lemma_sorted_pairs(v.drop_last(), less, default_id);
        assert(pair_views(v).drop_last() =~= pair_views(v.drop_last()));
        lemma_inserted_pairs(sorted(v.drop_last(), less), v.last(), less, default_id);
    }
}

proof fn lemma_inserted_pairs(
    s: Seq<NameIdPair>,
    x: NameIdPair,
    less: spec_fn(NameIdPair, NameIdPair) -> bool,
    default_id: Seq<char>,
)
    requires
        forall|a: NameIdPair, b: NameIdPair| #[trigger] less(a, b) == shown_before(default_id)(a@, b@),
    ensures
        pair_views(inserted(s, x, less)) == inserted(pair_views(s), x@, shown_before(default_id)),
    decreases s.len(),
{
    if s.len() > 0 && less(x, s.last()) {
        lemma_inserted_pairs(s.drop_last(), x, less, default_id);
        assert(pair_views(s).drop_last() =~= pair_views(s.drop_last()));
        assert(pair_views(inserted(s.drop_last(), x, less).push(s.last())) =~= pair_views(
            inserted(s.drop_last(), x, less),
        ).push(s.last()@));
    } else {
        assert(pair_views(s.push(x)) =~= pair_views(s).push(x@));
    }
}

/// The providers that reset passwords.
pub fn get_password_reset_providers() -> (r: Vec<NameIdPair>)
    ensures
        pair_views(r@) == seq![
            NameIdView {
                name: "Default Password Reset Provider"@,
                id: DEFAULT_PASSWORD_RESET_PROVIDER_ID@,
            },
        ],
{
    let r: Vec<NameIdPair> = vec![
        NameIdPair {
            name: "Default Password Reset Provider".to_owned(),
            id: DEFAULT_PASSWORD_RESET_PROVIDER_ID.to_owned(),
        },
    ];
    assert(pair_views(r@) =~= seq![
        NameIdView {
            name: "Default Password Reset Provider"@,
            id: DEFAULT_PASSWORD_RESET_PROVIDER_ID@,
        },
    ]);
    r
}

// ---------------------------------------------------------------------------
// Signing in
// ---------------------------------------------------------------------------
/// Whether someone with this name can try to sign in: it must not be blank.
pub fn check_username(username: &str) -> (r: Result<(), ServiceError>)
    ensures
        r is Ok <==> !is_blank(username@),
        r matches Err(e) ==> e@ == ErrorView::InvalidInput("username must not be empty"@),
{
    if blank(username) {
        return Err(ServiceError::InvalidInput("username must not be empty".to_owned()));
    }
    Ok(())
}

/// What a provider answers.
#[derive(Debug, Clone)]
pub enum ProviderAnswer {
    Accepted,
    Refused,
    Failed(ServiceError),
}

/// What to do next to find out whether a password is right.
#[derive(Debug, Clone)]
pub enum PasswordStep {
    /// Ask the provider at this place; without a place, the one that refuses
    /// everyone.
    Ask(Option<usize>),
    /// A provider accepted: the password is right.
    Accepted,
    /// Every provider refused: the password is wrong.
    Refused,
    /// A provider failed: so does signing in.
    Failed(ServiceError),
}

/// How many providers are asked at most: the candidates, or the one that stands in.
pub open spec fn providers_asked(candidates: Seq<usize>) -> int {
    if candidates.len() == 0 {
        1
    } else {
        candidates.len() as int
    }
}

/// What to do next, after `asked` providers were asked and the last of them gave the
/// given answer: the first answer that is no refusal decides, and the candidates are
/// asked in their order.
pub fn next_password_step(candidates: &[usize], asked: usize, answer: Option<ProviderAnswer>) -> (r:
    PasswordStep)
    ensures
        match answer {
            Some(ProviderAnswer::Accepted) => r is Accepted,
            Some(ProviderAnswer::Failed(e)) => r == PasswordStep::Failed(e),
            _ => if asked < providers_asked(candidates@) {
                r == PasswordStep::Ask(
                    if candidates@.len() == 0 {
                        None
                    } else {
                        Some(candidates@[asked as int])
                    },
                )
            } else {
                r is Refused
            },
        },
{
    match answer {
        Some(ProviderAnswer::Accepted) => PasswordStep::Accepted,
        Some(ProviderAnswer::Failed(e)) => PasswordStep::Failed(e),
        _ => {
            if asked < candidates.len() {
                PasswordStep::Ask(Some(candidates[asked]))
            } else if candidates.len() == 0 && asked == 0 {
                PasswordStep::Ask(None)
            } else {
                PasswordStep::Refused
            }
        },
    }
}

/// What becomes of an attempt to sign in.
#[derive(Debug, Clone)]
pub enum LoginOutcome {
    /// The failure is counted; with the last one that is allowed, the account is
    /// disabled.
    Counted { disable: bool, attempts: i64, update: SqlBuilder },
    /// The user is signed in; the failures are forgotten.
    SignedIn { user: UserRow, update: SqlBuilder },
}

/// The number of failures after another one.
pub open spec fn attempts_after(user: UserRow) -> int {
    user.invalid_login_attempt_count + 1
}

/// Whether another failure locks the account: the user has a limit, and it is
/// reached.
pub open spec fn locks_out(user: UserRow) -> bool {
    user.login_attempts_before_lockout matches Some(max) && max > 0 && attempts_after(user) >= max
}

/// The statement that counts a failure.
pub open spec fn count_failure_sql(user: UserRow) -> Sql {
    let a = give(
        say(Seq::empty(), r#"UPDATE "Users" SET "InvalidLoginAttemptCount" = "#@),
        BindView::Int(attempts_after(user)),
    );
    give(say(a, r#" WHERE "Id" = "#@), BindView::Text(user.id@))
}

/// The statement that forgets the failures, and notes the time where a session
/// begins.
pub open spec fn signed_in_sql(user: UserRow, is_user_session: bool, now: Timestamp) -> Sql {
    if is_user_session {
        let a = give(
            say(
                Seq::empty(),
                r#"UPDATE "Users" SET "InvalidLoginAttemptCount" = 0, "LastActivityDate" = "#@,
            ),
            BindView::Time(now),
        );
        let b = give(say(a, r#", "LastLoginDate" = "#@), BindView::Time(now));
        give(say(b, r#" WHERE "Id" = "#@), BindView::Text(user.id@))
    } else {
        give(
            say(
                Seq::empty(),
                r#"UPDATE "Users" SET "InvalidLoginAttemptCount" = 0 WHERE "Id" = "#@,
            ),
            BindView::Text(user.id@),
        )
    }
}

/// A user once signed in: the failures are forgotten, and the time is noted where a
/// session begins.
pub open spec fn signed_in(user: UserRow, is_user_session: bool, now: Timestamp) -> UserRow {
    if is_user_session {
        UserRow {
            invalid_login_attempt_count: 0,
            last_activity_date: Some(now),
            last_login_date: Some(now),
            ..user
        }
    } else {
        UserRow { invalid_login_attempt_count: 0, ..user }
    }
}

/// The error for a name that no user has.
pub open spec fn bad_credentials() -> ErrorView {
    ErrorView::Unauthorized("Invalid username or password entered."@)
}

/// The error for a disabled account.
pub open spec fn disabled_account(username: Seq<char>) -> ErrorView {
    ErrorView::Unauthorized(
        "The "@ + username
            + " account is currently disabled. Please consult with your administrator."@,
    )
}

/// The error for a time at which the user may not sign in.
pub open spec fn outside_schedule() -> ErrorView {
    ErrorView::Unauthorized("User is not allowed access at this time."@)
}

/// What becomes of an attempt to sign in, once the providers have answered. A name
/// that no user has is refused; a failure is counted; a disabled account and a
/// time outside the user's schedules are refused though the password was right.
pub fn conclude_login(
    user: Option<UserRow>,
    accepted: bool,
    is_disabled: bool,
    schedule_allows: bool,
    is_user_session: bool,
    now: Timestamp,
) -> (r: Result<LoginOutcome, ServiceError>)
    requires
        !accepted ==> (user matches Some(u) ==> u.invalid_login_attempt_count < i64::MAX),
    ensures
        match r {
            Ok(LoginOutcome::Counted { disable, attempts, update }) => {
                &&& user is Some
                &&& !accepted
                &&& disable == locks_out(user->0)
                &&& attempts == attempts_after(user->0)
                &&& update@ == count_failure_sql(user->0)
            },
            Ok(LoginOutcome::SignedIn { user: after, update }) => {
                &&& user is Some
                &&& accepted
                &&& !is_disabled
                &&& schedule_allows
                &&& after == signed_in(user->0, is_user_session, now)
                &&& update@ == signed_in_sql(user->0, is_user_session, now)
            },
            Err(e) => match user {
                Some(u) => {
                    &&& accepted
                    &&& if is_disabled {
                        e@ == disabled_account(u.username@)
                    } else {
                        !schedule_allows && e@ == outside_schedule()
                    }
                },
                None => e@ == bad_credentials(),
            },
        },
{
    let mut user: UserRow = match user {
        Some(u) => u,
        None => {
            return Err(
                ServiceError::Unauthorized("Invalid username or password entered.".to_owned()),
            );
        },
    };
    if !accepted {
        let attempts: i64 = user.invalid_login_attempt_count + 1;
        let disable: bool = match user.login_attempts_before_lockout {
            Some(max) => max > 0 && attempts >= max,
            None => false,
        };
        let mut qb: SqlBuilder = SqlBuilder::empty();
        qb.push(r#"UPDATE "Users" SET "InvalidLoginAttemptCount" = "#);
        qb.push_bind(BindValue::Int(attempts));
        qb.push(r#" WHERE "Id" = "#);
        qb.push_text(user.id.as_str());
        return Ok(LoginOutcome::Counted { disable, attempts, update: qb });
    }
    if is_disabled {
        return Err(
            ServiceError::Unauthorized(
                concat3(
                    "The ",
                    user.username.as_str(),
                    " account is currently disabled. Please consult with your administrator.",
                ),
            ),
        );
    }
    if !schedule_allows {
        return Err(
            ServiceError::Unauthorized("User is not allowed access at this time.".to_owned()),
        );
    }
    let mut qb: SqlBuilder = SqlBuilder::empty();
    if is_user_session {
        qb.push(r#"UPDATE "Users" SET "InvalidLoginAttemptCount" = 0, "LastActivityDate" = "#);
        qb.push_bind(BindValue::Time(now));
        qb.push(r#", "LastLoginDate" = "#);
        qb.push_bind(BindValue::Time(now));
        qb.push(r#" WHERE "Id" = "#);
        qb.push_text(user.id.as_str());
    } else {
        qb.push(r#"UPDATE "Users" SET "InvalidLoginAttemptCount" = 0 WHERE "Id" = "#);
        qb.push_text(user.id.as_str());
    }
    user.invalid_login_attempt_count = 0;
    if is_user_session {
        user.last_activity_date = Some(now);
        user.last_login_date = Some(now);
    }
    Ok(LoginOutcome::SignedIn { user, update: qb })
}

/// A user with `n` failures whose limit is `n + 1` is locked out by the next one,
/// and by none before.
pub proof fn law_lockout_at_the_limit(user: UserRow, limit: i64)
    requires
        limit > 0,
        user.login_attempts_before_lockout == Some(limit),
    ensures
        locks_out(user) <==> user.invalid_login_attempt_count >= limit - 1,
{
}

// ---------------------------------------------------------------------------
// Numbers in rows
// ---------------------------------------------------------------------------
/// A stored number as a smaller one: the nearer end of the range where it does not
/// fit.
pub open spec fn narrowed(value: int) -> i32 {
    if value > i32::MAX {
        i32::MAX
    } else if value < i32::MIN {
        i32::MIN
    } else {
        value as i32
    }
}

/// A stored number as a smaller one: the nearer end of the range where it does not
/// fit.
pub fn cast_i32(value: i64) -> (r: i32)
    ensures
        r == narrowed(value as int),
{
    if value > i32::MAX as i64 {
        i32::MAX
    } else if value < i32::MIN as i64 {
        i32::MIN
    } else {
        value as i32
    }
}

/// An optional number as a wider one.
pub open spec fn wide(v: Option<i32>) -> Option<int> {
    match v {
        Some(n) => Some(n as int),
        None => None,
    }
}

fn widen(v: Option<i32>) -> (r: Option<i64>)
    ensures
        opt_int(r) == wide(v),
{
    match v {
        Some(n) => Some(n as i64),
        None => None,
    }
}

/// When subtitles are shown.
#[derive(Debug, Clone, Copy, PartialEq, Eq, Structural)]
pub enum SubtitlePlaybackMode {
    Default,
    Always,
    OnlyForced,
    NoSubtitles,
    Smart,
}

/// Signing in clears the failures, and stamps the user's activity where it opens a session; it
/// changes nothing else.
pub proof fn law_signing_in_clears_failures(user: UserRow, is_user_session: bool, now: Timestamp)
    ensures
        ({
            let after = signed_in(user, is_user_session, now);
            &&& after.invalid_login_attempt_count == 0
            &&& is_user_session ==> after.last_login_date == Some(now) && after.last_activity_date
                == Some(now)
            &&& !is_user_session ==> after.last_login_date == user.last_login_date
                && after.last_activity_date == user.last_activity_date
            &&& after.id == user.id && after.username == user.username && after.password
                == user.password
            &&& after.login_attempts_before_lockout == user.login_attempts_before_lockout
        }),
{
}

/// The providers that are asked are the enabled ones that the user names, or every enabled one
/// where the user names none; each once, in their order.
pub proof fn law_enabled_named_providers_are_asked(
    providers: Seq<ProviderState>,
    wanted: Seq<char>,
    built_in: BuiltInProviders,
)
    ensures
        forall|i: int| #[trigger]
            candidates(providers, wanted, built_in).contains(i) <==> 0 <= i < providers.len()
                && providers[i].is_enabled && (wanted.len() == 0 || same_ignoring_case(
                stored_provider_id(providers[i].name@, built_in),
                wanted,
            )),
        forall|i: int, j: int|
            0 <= i < j < candidates(providers, wanted, built_in).len() ==> #[trigger] candidates(
                providers,
                wanted,
                built_in,
            )[i] < #[trigger] candidates(providers, wanted, built_in)[j],
    decreases providers.len(),
{
    if providers.len() > 0 {
        let rest = providers.drop_last();
        law_enabled_named_providers_are_asked(rest, wanted, built_in);
        let head = candidates(rest, wanted, built_in);
        let all = candidates(providers, wanted, built_in);
        let n = rest.len() as int;
        assert(providers[n] == providers.last());
        assert forall|i: int| 0 <= i < head.len() implies 0 <= #[trigger] head[i] < n by {
            assert(head.contains(head[i]));
        }
        assert forall|i: int| #[trigger]
            all.contains(i) <==> 0 <= i < providers.len() && providers[i].is_enabled && (wanted.len()
                == 0 || same_ignoring_case(
                stored_provider_id(providers[i].name@, built_in),
                wanted,
            )) by {
            if 0 <= i < n {
                assert(rest[i] == providers[i]);
            }
            if is_candidate(providers.last(), wanted, built_in) {
                assert(all =~= head.push(n));
                assert(all[head.len() as int] == n);
                if head.contains(i) {
                    let j = choose|j: int| 0 <= j < head.len() && head[j] == i;
                    assert(all[j] == i);
                }
                if all.contains(i) && i != n {
                    let j = choose|j: int| 0 <= j < all.len() && all[j] == i;
                    assert(head[j] == i);
                }
            }
            assert(head.contains(i) ==> 0 <= i < n);
        }
    }
}

/// What does not fit is brought to the nearest number that does.
pub proof fn law_narrowed_is_nearest(value: int, n: i32)
    ensures
        i32::MIN <= value <= i32::MAX ==> narrowed(value) == value,
        narrowed(value) - value <= n - value || narrowed(value) - value <= value - n,
        value - narrowed(value) <= n - value || value - narrowed(value) <= value - n,
{
}

/// The number that rows store for a subtitle mode.
pub open spec fn subtitle_mode_number(mode: SubtitlePlaybackMode) -> int {
    match mode {
        SubtitlePlaybackMode::Default => 0,
        SubtitlePlaybackMode::Always => 1,
        SubtitlePlaybackMode::OnlyForced => 2,
        SubtitlePlaybackMode::NoSubtitles => 3,
        SubtitlePlaybackMode::Smart => 4,
    }
}

/// The subtitle mode that a stored number stands for; the default one where there
/// is none.
pub open spec fn subtitle_mode_of(value: int) -> SubtitlePlaybackMode {
    if value == 1 {
        SubtitlePlaybackMode::Always
    } else if value == 2 {
        SubtitlePlaybackMode::OnlyForced
    } else if value == 3 {
        SubtitlePlaybackMode::NoSubtitles
    } else if value == 4 {
        SubtitlePlaybackMode::Smart
    } else {
        SubtitlePlaybackMode::Default
    }
}

/// The subtitle mode that a stored number stands for.
pub fn subtitle_mode_from_i32(value: i32) -> (r: SubtitlePlaybackMode)
    ensures
        r == subtitle_mode_of(value as int),
{
    if value == 1 {
        SubtitlePlaybackMode::Always
    } else if value == 2 {
        SubtitlePlaybackMode::OnlyForced
    } else if value == 3 {
        SubtitlePlaybackMode::NoSubtitles
    } else if value == 4 {
        SubtitlePlaybackMode::Smart
    } else {
        SubtitlePlaybackMode::Default
    }
}

fn subtitle_mode_to_i64(mode: SubtitlePlaybackMode) -> (r: i64)
    ensures
        r == subtitle_mode_number(mode),
{
    match mode {
        SubtitlePlaybackMode::Default => 0,
        SubtitlePlaybackMode::Always => 1,
        SubtitlePlaybackMode::OnlyForced => 2,
        SubtitlePlaybackMode::NoSubtitles => 3,
        SubtitlePlaybackMode::Smart => 4,
    }
}

/// What a user may do in synchronized playback.
#[derive(Debug, Clone, Copy, PartialEq, Eq, Structural)]
pub enum SyncPlayUserAccessType {
    CreateAndJoinGroups,
    JoinGroups,
    NoAccess,
}

/// The number that rows store for an access type.
pub open spec fn sync_play_number(access: SyncPlayUserAccessType) -> int {
    match access {
        SyncPlayUserAccessType::CreateAndJoinGroups => 0,
        SyncPlayUserAccessType::JoinGroups => 1,
        SyncPlayUserAccessType::NoAccess => 2,
    }
}

/// The access type that a stored number stands for.
pub open spec fn sync_play_of(value: int) -> SyncPlayUserAccessType {
    if value == 1 {
        SyncPlayUserAccessType::JoinGroups
    } else if value == 2 {
        SyncPlayUserAccessType::NoAccess
    } else {
        SyncPlayUserAccessType::CreateAndJoinGroups
    }
}

/// The access type that a stored number stands for.
pub fn sync_play_from_i32(value: i32) -> (r: SyncPlayUserAccessType)
    ensures
        r == sync_play_of(value as int),
{
    if value == 1 {
        SyncPlayUserAccessType::JoinGroups
    } else if value == 2 {
        SyncPlayUserAccessType::NoAccess
    } else {
        SyncPlayUserAccessType::CreateAndJoinGroups
    }
}

fn sync_play_to_i64(access: SyncPlayUserAccessType) -> (r: i64)
    ensures
        r == sync_play_number(access),
{
    match access {
        SyncPlayUserAccessType::CreateAndJoinGroups => 0,
        SyncPlayUserAccessType::JoinGroups => 1,
        SyncPlayUserAccessType::NoAccess => 2,
    }
}

/// Subtitle modes and access types are read back as they were stored.
pub proof fn law_stored_modes_round_trip(mode: SubtitlePlaybackMode, access: SyncPlayUserAccessType)
    ensures
        subtitle_mode_of(subtitle_mode_number(mode)) == mode,
        sync_play_of(sync_play_number(access)) == access,
{
}

/// A day, or a group of days.
#[derive(Debug, Clone, Copy, PartialEq, Eq, Structural)]
pub enum DynamicDayOfWeek {
    Sunday,
    Monday,
    Tuesday,
    Wednesday,
    Thursday,
    Friday,
    Saturday,
    Everyday,
    Weekday,
    Weekend,
}

/// The days that a stored number stands for; Sunday where there are none.
pub open spec fn dynamic_day_of(value: int) -> DynamicDayOfWeek {
    if value == 1 {
        DynamicDayOfWeek::Monday
    } else if value == 2 {
        DynamicDayOfWeek::Tuesday
    } else if value == 3 {
        DynamicDayOfWeek::Wednesday
    } else if value == 4 {
        DynamicDayOfWeek::Thursday
    } else if value == 5 {
        DynamicDayOfWeek::Friday
    } else if value == 6 {
        DynamicDayOfWeek::Saturday
    } else if value == 7 {
        DynamicDayOfWeek::Everyday
    } else if value == 8 {
        DynamicDayOfWeek::Weekday
    } else if value == 9 {
        DynamicDayOfWeek::Weekend
    } else {
        DynamicDayOfWeek::Sunday
    }
}

/// The days that a stored number stands for.
pub fn dynamic_day_from_i32(value: i32) -> (r: DynamicDayOfWeek)
    ensures
        r == dynamic_day_of(value as int),
{
    if value == 1 {
        DynamicDayOfWeek::Monday
    } else if value == 2 {
        DynamicDayOfWeek::Tuesday
    } else if value == 3 {
        DynamicDayOfWeek::Wednesday
    } else if value == 4 {
        DynamicDayOfWeek::Thursday
    } else if value == 5 {
        DynamicDayOfWeek::Friday
    } else if value == 6 {
        DynamicDayOfWeek::Saturday
    } else if value == 7 {
        DynamicDayOfWeek::Everyday
    } else if value == 8 {
        DynamicDayOfWeek::Weekday
    } else if value == 9 {
        DynamicDayOfWeek::Weekend
    } else {
        DynamicDayOfWeek::Sunday
    }
}

/// What an item without a rating is.
#[derive(Debug, Clone, Copy, PartialEq, Eq, Structural)]
pub enum UnratedItem {
    Movie,
    Trailer,
    Series,
    Music,
    Book,
    LiveTvChannel,
    LiveTvProgram,
    ChannelContent,
    Other,
}

/// What a stored entry stands for, if anything.
pub open spec fn unrated_item_of(value: Seq<char>) -> Option<UnratedItem> {
    if value == "Movie"@ {
        Some(UnratedItem::Movie)
    } else if value == "Trailer"@ {
        Some(UnratedItem::Trailer)
    } else if value == "Series"@ {
        Some(UnratedItem::Series)
    } else if value == "Music"@ {
        Some(UnratedItem::Music)
    } else if value == "Book"@ {
        Some(UnratedItem::Book)
    } else if value == "LiveTvChannel"@ {
        Some(UnratedItem::LiveTvChannel)
    } else if value == "LiveTvProgram"@ {
        Some(UnratedItem::LiveTvProgram)
    } else if value == "ChannelContent"@ {
        Some(UnratedItem::ChannelContent)
    } else if value == "Other"@ {
        Some(UnratedItem::Other)
    } else {
        None
    }
}

/// What a stored entry stands for, if anything.
pub fn parse_unrated_item(value: &str) -> (r: Option<UnratedItem>)
    ensures
        r == unrated_item_of(value@),
{
    if same_text(value, "Movie") {
        Some(UnratedItem::Movie)
    } else if same_text(value, "Trailer") {
        Some(UnratedItem::Trailer)
    } else if same_text(value, "Series") {
        Some(UnratedItem::Series)
    } else if same_text(value, "Music") {
        Some(UnratedItem::Music)
    } else if same_text(value, "Book") {
        Some(UnratedItem::Book)
    } else if same_text(value, "LiveTvChannel") {
        Some(UnratedItem::LiveTvChannel)
    } else if same_text(value, "LiveTvProgram") {
        Some(UnratedItem::LiveTvProgram)
    } else if same_text(value, "ChannelContent") {
        Some(UnratedItem::ChannelContent)
    } else if same_text(value, "Other") {
        Some(UnratedItem::Other)
    } else {
        None
    }
}

/// What the stored entries stand for.
pub open spec fn unrated_items(entries: Seq<Seq<char>>) -> Seq<UnratedItem>
    decreases entries.len(),
{
    if entries.len() == 0 {
        Seq::empty()
    } else {
        match unrated_item_of(entries.last()) {
            Some(item) => unrated_items(entries.drop_last()).push(item),
            None => unrated_items(entries.drop_last()),
        }
    }
}

fn parse_unrated_items(entries: &[String]) -> (r: Vec<UnratedItem>)
    ensures
        r@ == unrated_items(texts(entries@)),
{
    let ghost all = texts(entries@);
    let mut out: Vec<UnratedItem> = Vec::new();
    let mut i: usize = 0;
    while i < entries.len()
        invariant
            i <= entries.len(),
            all == texts(entries@),
            out@ == unrated_items(all.take(i as int)),
        decreases entries.len() - i,
    {
        assert(all.take(i + 1).drop_last() =~= all.take(i as int));
        assert(all.take(i + 1).last() == entries@[i as int]@);
        if let Some(item) = parse_unrated_item(entries[i].as_str()) {
            out.push(item);
        }
        i += 1;
    }
    assert(all.take(all.len() as int) =~= all);
    out
}

// ---------------------------------------------------------------------------
// What is shown of users
// ---------------------------------------------------------------------------
/// What the rows say of a permission: the last one counts, and none says no.
pub open spec fn permission_in(rows: Seq<(PermissionKind, bool)>, kind: PermissionKind) -> bool
    decreases rows.len(),
{
    if rows.len() == 0 {
        false
    } else if rows.last().0 == kind {
        rows.last().1
    } else {
        permission_in(rows.drop_last(), kind)
    }
}

/// What the rows say of a permission.
pub fn perm(rows: &[(PermissionKind, bool)], kind: PermissionKind) -> (r: bool)
    ensures
        r == permission_in(rows@, kind),
{
    let mut i: usize = rows.len();
    assert(rows@.take(rows@.len() as int) =~= rows@);
    while i > 0
        invariant
            i <= rows.len(),
            permission_in(rows@, kind) == permission_in(rows@.take(i as int), kind),
        decreases i,
    {
        i -= 1;
        assert(rows@.take(i + 1).drop_last() =~= rows@.take(i as int));
        if rows[i].0 == kind {
            return rows[i].1;
        }
    }
    false
}

/// The text that the rows store for a preference: the last one counts.
pub open spec fn preference_in(rows: Seq<(PreferenceKind, String)>, kind: PreferenceKind) -> Option<
    Seq<char>,
>
    decreases rows.len(),
{
    if rows.len() == 0 {
        None
    } else if rows.last().0 == kind {
        Some(rows.last().1@)
    } else {
        preference_in(rows.drop_last(), kind)
    }
}

fn stored_preference(rows: &[(PreferenceKind, String)], kind: PreferenceKind) -> (r: Option<&str>)
    ensures
        match r {
            Some(v) => preference_in(rows@, kind) == Some(v@),
            None => preference_in(rows@, kind) is None,
        },
{
    let mut i: usize = rows.len();
    assert(rows@.take(rows@.len() as int) =~= rows@);
    while i > 0
        invariant
            i <= rows.len(),
            preference_in(rows@, kind) == preference_in(rows@.take(i as int), kind),
        decreases i,
    {
        i -= 1;
        assert(rows@.take(i + 1).drop_last() =~= rows@.take(i as int));
        if rows[i].0 == kind {
            return Some(rows[i].1.as_str());
        }
    }
    None
}

/// The entries of a preference.
pub fn pref(rows: &[(PreferenceKind, String)], kind: PreferenceKind) -> (r: Vec<String>)
    ensures
        texts(r@) == preference_entries(preference_in(rows@, kind)),
{
    split_preference(stored_preference(rows, kind))
}

/// The identifiers of a preference. What was stored as a list of identifiers is
/// read back.
pub fn guid_pref(rows: &[(PreferenceKind, String)], kind: PreferenceKind) -> (r: Vec<Guid>)
    ensures
        r@ == readable(preference_entries(preference_in(rows@, kind))),
        forall|ids: Seq<Guid>|
            preference_in(rows@, kind) == Some(preference_text(#[trigger] hyphenated_texts(ids)))
                ==> r@ == ids,
{
    let stored: Option<&str> = stored_preference(rows, kind);
    split_guid_preference(stored)
}

/// A user's settings.
#[derive(Debug, Clone)]
pub struct UserConfiguration {
    pub subtitle_mode: SubtitlePlaybackMode,
    pub hide_played_in_latest: bool,
    pub enable_local_password: bool,
    pub play_default_audio_track: bool,
    pub display_collections_view: bool,
    pub display_missing_episodes: bool,
    pub audio_language_preference: Option<String>,
    pub remember_audio_selections: bool,
    pub enable_next_episode_auto_play: bool,
    pub remember_subtitle_selections: bool,
    pub subtitle_language_preference: Option<String>,
    pub ordered_views: Vec<Guid>,
    pub grouped_folders: Vec<Guid>,
    pub my_media_excludes: Vec<Guid>,
    pub latest_items_excludes: Vec<Guid>,
    pub cast_receiver_id: Option<String>,
}

impl UserConfiguration {
    /// Whether these are the settings that the rows hold.
    pub open spec fn shows(&self, user: UserRow, prefs: Seq<(PreferenceKind, String)>) -> bool {
        &&& self.subtitle_mode == subtitle_mode_of(user.subtitle_mode as int)
        &&& self.hide_played_in_latest == user.hide_played_in_latest
        &&& self.enable_local_password == user.enable_local_password
        &&& self.play_default_audio_track == user.play_default_audio_track
        &&& self.display_collections_view == user.display_collections_view
        &&& self.display_missing_episodes == user.display_missing_episodes
        &&& opt_text(self.audio_language_preference) == opt_text(user.audio_language_preference)
        &&& self.remember_audio_selections == user.remember_audio_selections
        &&& self.enable_next_episode_auto_play == user.enable_next_episode_auto_play
        &&& self.remember_subtitle_selections == user.remember_subtitle_selections
        &&& opt_text(self.subtitle_language_preference) == Some(
            match opt_text(user.subtitle_language_preference) {
                Some(t) => t,
                None => Seq::empty(),
            },
        )
        &&& self.ordered_views@ == readable(
            preference_entries(preference_in(prefs, PreferenceKind::OrderedViews)),
        )
        &&& self.grouped_folders@ == readable(
            preference_entries(preference_in(prefs, PreferenceKind::GroupedFolders)),
        )
        &&& self.my_media_excludes@ == readable(
            preference_entries(preference_in(prefs, PreferenceKind::MyMediaExcludes)),
        )
        &&& self.latest_items_excludes@ == readable(
            preference_entries(preference_in(prefs, PreferenceKind::LatestItemExcludes)),
        )
        &&& opt_text(self.cast_receiver_id) == opt_text(user.cast_receiver_id)
    }
}

/// The settings that the rows hold.
pub fn user_configuration(user: &UserRow, prefs: &[(PreferenceKind, String)]) -> (r:
    UserConfiguration)
    ensures
        r.shows(*user, prefs@),
{
    UserConfiguration {
        subtitle_mode: subtitle_mode_from_i32(user.subtitle_mode),
        hide_played_in_latest: user.hide_played_in_latest,
        enable_local_password: user.enable_local_password,
        play_default_audio_track: user.play_default_audio_track,
        display_collections_view: user.display_collections_view,
        display_missing_episodes: user.display_missing_episodes,
        audio_language_preference: copy_text(&user.audio_language_preference),
        remember_audio_selections: user.remember_audio_selections,
        enable_next_episode_auto_play: user.enable_next_episode_auto_play,
        remember_subtitle_selections: user.remember_subtitle_selections,
        subtitle_language_preference: match &user.subtitle_language_preference {
            Some(t) => Some(t.clone()),
            None => Some(String::new()),
        },
        ordered_views: guid_pref(prefs, PreferenceKind::OrderedViews),
        grouped_folders: guid_pref(prefs, PreferenceKind::GroupedFolders),
        my_media_excludes: guid_pref(prefs, PreferenceKind::MyMediaExcludes),
        latest_items_excludes: guid_pref(prefs, PreferenceKind::LatestItemExcludes),
        cast_receiver_id: copy_text(&user.cast_receiver_id),
    }
}

/// When a user may sign in. The hours are fractions of the day, by the bits of
/// double-precision numbers.
#[derive(Debug, Clone, Copy)]
pub struct AccessSchedule {
    pub id: i32,
    pub user_id: Guid,
    pub day_of_week: DynamicDayOfWeek,
    pub start_hour: u64,
    pub end_hour: u64,
}

/// A schedule's row.
#[derive(Debug, Clone, Copy)]
pub struct ScheduleRow {
    pub id: i64,
    pub day_of_week: i32,
    pub start_hour: u64,
    pub end_hour: u64,
}

/// The schedule that a row holds.
pub open spec fn schedule_of(row: ScheduleRow, user_id: Guid) -> AccessSchedule {
    AccessSchedule {
        id: narrowed(row.id as int),
        user_id,
        day_of_week: dynamic_day_of(row.day_of_week as int),
        start_hour: row.start_hour,
        end_hour: row.end_hour,
    }
}

/// A user's schedules. Where the user's id cannot be read they carry the nil one.
pub fn access_schedules(user_id: &str, rows: &[ScheduleRow]) -> (r: Vec<AccessSchedule>)
    ensures
        r@ == Seq::new(
            rows@.len(),
            |i: int|
                schedule_of(
                    rows@[i],
                    match guid_in(user_id@) {
                        Some(id) => id,
                        None => (Guid { value: 0 }),
                    },
                ),
        ),
{
    let uid: Guid = match parse_guid(user_id) {
        Some(id) => id,
        None => Guid::nil(),
    };
    let mut out: Vec<AccessSchedule> = Vec::new();
    let mut i: usize = 0;
    while i < rows.len()
        invariant
            i <= rows.len(),
            out@.len() == i,
            forall|j: int| 0 <= j < i ==> #[trigger] out@[j] == schedule_of(rows@[j], uid),
        decreases rows.len() - i,
    {
        out.push(
            AccessSchedule {
                id: cast_i32(rows[i].id),
                user_id: uid,
                day_of_week: dynamic_day_from_i32(rows[i].day_of_week),
                start_hour: rows[i].start_hour,
                end_hour: rows[i].end_hour,
            },
        );
        i += 1;
    }
    out
}

/// What a user may do.
#[derive(Debug, Clone)]
pub struct UserPolicy {
    pub max_parental_rating: Option<i32>,
    pub max_parental_sub_rating: Option<i32>,
    pub enable_user_preference_access: bool,
    pub remote_client_bitrate_limit: i32,
    pub authentication_provider_id: String,
    pub password_reset_provider_id: String,
    pub invalid_login_attempt_count: i32,
    pub login_attempts_before_lockout: i32,
    pub max_active_sessions: i32,
    pub is_administrator: bool,
    pub is_hidden: bool,
    pub is_disabled: bool,
    pub enable_shared_device_control: bool,
    pub enable_remote_access: bool,
    pub enable_live_tv_management: bool,
    pub enable_live_tv_access: bool,
    pub enable_media_playback: bool,
    pub enable_audio_playback_transcoding: bool,
    pub enable_video_playback_transcoding: bool,
    pub enable_content_deletion: bool,
    pub enable_content_downloading: bool,
    pub enable_sync_transcoding: bool,
    pub enable_media_conversion: bool,
    pub enable_all_channels: bool,
    pub enable_all_devices: bool,
    pub enable_all_folders: bool,
    pub enable_remote_control_of_other_users: bool,
    pub enable_playback_remuxing: bool,
    pub force_remote_source_transcoding: bool,
    pub enable_public_sharing: bool,
    pub enable_collection_management: bool,
    pub enable_subtitle_management: bool,
    pub enable_lyric_management: bool,
    pub access_schedules: Vec<AccessSchedule>,
    pub blocked_tags: Vec<String>,
    pub allowed_tags: Vec<String>,
    pub enabled_devices: Vec<String>,
    pub enable_content_deletion_from_folders: Vec<String>,
    pub enabled_channels: Vec<Guid>,
    pub enabled_folders: Vec<Guid>,
    pub blocked_channels: Vec<Guid>,
    pub blocked_media_folders: Vec<Guid>,
    pub sync_play_access: SyncPlayUserAccessType,
    pub block_unrated_items: Vec<UnratedItem>,
}

/// An optional stored number as a smaller one.
pub open spec fn opt_narrowed(v: Option<i64>) -> Option<i32> {
    match v {
        Some(n) => Some(narrowed(n as int)),
        None => None,
    }
}

fn cast_opt(v: Option<i64>) -> (r: Option<i32>)
    ensures
        r == opt_narrowed(v),
{
    match v {
        Some(n) => Some(cast_i32(n)),
        None => None,
    }
}

impl UserPolicy {
    /// Whether the numbers and ids are those of the user's row. Where the row has
    /// no limit on failed attempts, the policy says minus one.
    pub open spec fn shows_row(&self, user: UserRow) -> bool {
        &&& self.max_parental_rating == opt_narrowed(user.max_parental_rating_score)
        &&& self.max_parental_sub_rating == opt_narrowed(user.max_parental_rating_sub_score)
        &&& self.enable_user_preference_access == user.enable_user_preference_access
        &&& self.remote_client_bitrate_limit == match user.remote_client_bitrate_limit {
            Some(n) => narrowed(n as int),
            None => 0,
        }
        &&& self.authentication_provider_id@ == user.authentication_provider_id@
        &&& self.password_reset_provider_id@ == user.password_reset_provider_id@
        &&& self.invalid_login_attempt_count == narrowed(user.invalid_login_attempt_count as int)
        &&& self.login_attempts_before_lockout == match user.login_attempts_before_lockout {
            Some(n) => narrowed(n as int) as int,
            None => -1,
        }
        &&& self.max_active_sessions == narrowed(user.max_active_sessions as int)
        &&& self.sync_play_access == sync_play_of(user.sync_play_access as int)
    }

    /// Whether the flags are those of the permission rows.
    pub open spec fn shows_permissions(&self, rows: Seq<(PermissionKind, bool)>) -> bool {
        &&& self.is_administrator == permission_in(rows, PermissionKind::IsAdministrator)
        &&& self.is_hidden == permission_in(rows, PermissionKind::IsHidden)
        &&& self.is_disabled == permission_in(rows, PermissionKind::IsDisabled)
        &&& self.enable_shared_device_control == permission_in(rows, PermissionKind::EnableSharedDeviceControl)
        &&& self.enable_remote_access == permission_in(rows, PermissionKind::EnableRemoteAccess)
        &&& self.enable_live_tv_management == permission_in(rows, PermissionKind::EnableLiveTvManagement)
        &&& self.enable_live_tv_access == permission_in(rows, PermissionKind::EnableLiveTvAccess)
        &&& self.enable_media_playback == permission_in(rows, PermissionKind::EnableMediaPlayback)
        &&& self.enable_audio_playback_transcoding == permission_in(rows, PermissionKind::EnableAudioPlaybackTranscoding)
        &&& self.enable_video_playback_transcoding == permission_in(rows, PermissionKind::EnableVideoPlaybackTranscoding)
        &&& self.enable_content_deletion == permission_in(rows, PermissionKind::EnableContentDeletion)
        &&& self.enable_content_downloading == permission_in(rows, PermissionKind::EnableContentDownloading)
        &&& self.enable_sync_transcoding == permission_in(rows, PermissionKind::EnableSyncTranscoding)
        &&& self.enable_media_conversion == permission_in(rows, PermissionKind::EnableMediaConversion)
        &&& self.enable_all_channels == permission_in(rows, PermissionKind::EnableAllChannels)
        &&& self.enable_all_devices == permission_in(rows, PermissionKind::EnableAllDevices)
        &&& self.enable_all_folders == permission_in(rows, PermissionKind::EnableAllFolders)
        &&& self.enable_remote_control_of_other_users == permission_in(rows, PermissionKind::EnableRemoteControlOfOtherUsers)
        &&& self.enable_playback_remuxing == permission_in(rows, PermissionKind::EnablePlaybackRemuxing)
        &&& self.force_remote_source_transcoding == permission_in(rows, PermissionKind::ForceRemoteSourceTranscoding)
        &&& self.enable_public_sharing == permission_in(rows, PermissionKind::EnablePublicSharing)
        &&& self.enable_collection_management == permission_in(rows, PermissionKind::EnableCollectionManagement)
        &&& self.enable_subtitle_management == permission_in(rows, PermissionKind::EnableSubtitleManagement)
        &&& self.enable_lyric_management == permission_in(rows, PermissionKind::EnableLyricManagement)
    }

    /// Whether the lists are those of the preference rows.
    pub open spec fn shows_preferences(&self, rows: Seq<(PreferenceKind, String)>) -> bool {
        &&& texts(self.blocked_tags@) == preference_entries(
            preference_in(rows, PreferenceKind::BlockedTags),
        )
        &&& texts(self.allowed_tags@) == preference_entries(
            preference_in(rows, PreferenceKind::AllowedTags),
        )
        &&& texts(self.enabled_devices@) == preference_entries(
            preference_in(rows, PreferenceKind::EnabledDevices),
        )
        &&& texts(self.enable_content_deletion_from_folders@) == preference_entries(
            preference_in(rows, PreferenceKind::EnableContentDeletionFromFolders),
        )
        &&& self.enabled_channels@ == readable(
            preference_entries(preference_in(rows, PreferenceKind::EnabledChannels)),
        )
        &&& self.enabled_folders@ == readable(
            preference_entries(preference_in(rows, PreferenceKind::EnabledFolders)),
        )
        &&& self.blocked_channels@ == readable(
            preference_entries(preference_in(rows, PreferenceKind::BlockedChannels)),
        )
        &&& self.blocked_media_folders@ == readable(
            preference_entries(preference_in(rows, PreferenceKind::BlockedMediaFolders)),
        )
        &&& self.block_unrated_items@ == unrated_items(
            preference_entries(preference_in(rows, PreferenceKind::BlockUnratedItems)),
        )
    }
}

/// What a user may do, as their rows have it.
pub fn build_user_policy(
    user: &UserRow,
    perms: &[(PermissionKind, bool)],
    prefs: &[(PreferenceKind, String)],
    schedules: Vec<AccessSchedule>,
) -> (r: UserPolicy)
    ensures
        r.shows_row(*user),
        r.shows_permissions(perms@),
        r.shows_preferences(prefs@),
        r.access_schedules == schedules,
{
    let unrated: Vec<String> = pref(prefs, PreferenceKind::BlockUnratedItems);
    UserPolicy {
        max_parental_rating: cast_opt(user.max_parental_rating_score),
        max_parental_sub_rating: cast_opt(user.max_parental_rating_sub_score),
        enable_user_preference_access: user.enable_user_preference_access,
        remote_client_bitrate_limit: match user.remote_client_bitrate_limit {
            Some(n) => cast_i32(n),
            None => 0,
        },
        authentication_provider_id: user.authentication_provider_id.clone(),
        password_reset_provider_id: user.password_reset_provider_id.clone(),
        invalid_login_attempt_count: cast_i32(user.invalid_login_attempt_count),
        login_attempts_before_lockout: match user.login_attempts_before_lockout {
            Some(n) => cast_i32(n),
            None => -1,
        },
        max_active_sessions: cast_i32(user.max_active_sessions),
        is_administrator: perm(perms, PermissionKind::IsAdministrator),
        is_hidden: perm(perms, PermissionKind::IsHidden),
        is_disabled: perm(perms, PermissionKind::IsDisabled),
        enable_shared_device_control: perm(perms, PermissionKind::EnableSharedDeviceControl),
        enable_remote_access: perm(perms, PermissionKind::EnableRemoteAccess),
        enable_live_tv_management: perm(perms, PermissionKind::EnableLiveTvManagement),
        enable_live_tv_access: perm(perms, PermissionKind::EnableLiveTvAccess),
        enable_media_playback: perm(perms, PermissionKind::EnableMediaPlayback),
        enable_audio_playback_transcoding: perm(perms, PermissionKind::EnableAudioPlaybackTranscoding),
        enable_video_playback_transcoding: perm(perms, PermissionKind::EnableVideoPlaybackTranscoding),
        enable_content_deletion: perm(perms, PermissionKind::EnableContentDeletion),
        enable_content_downloading: perm(perms, PermissionKind::EnableContentDownloading),
        enable_sync_transcoding: perm(perms, PermissionKind::EnableSyncTranscoding),
        enable_media_conversion: perm(perms, PermissionKind::EnableMediaConversion),
        enable_all_channels: perm(perms, PermissionKind::EnableAllChannels),
        enable_all_devices: perm(perms, PermissionKind::EnableAllDevices),
        enable_all_folders: perm(perms, PermissionKind::EnableAllFolders),
        enable_remote_control_of_other_users: perm(perms, PermissionKind::EnableRemoteControlOfOtherUsers),
        enable_playback_remuxing: perm(perms, PermissionKind::EnablePlaybackRemuxing),
        force_remote_source_transcoding: perm(perms, PermissionKind::ForceRemoteSourceTranscoding),
        enable_public_sharing: perm(perms, PermissionKind::EnablePublicSharing),
        enable_collection_management: perm(perms, PermissionKind::EnableCollectionManagement),
        enable_subtitle_management: perm(perms, PermissionKind::EnableSubtitleManagement),
        enable_lyric_management: perm(perms, PermissionKind::EnableLyricManagement),
        access_schedules: schedules,
        blocked_tags: pref(prefs, PreferenceKind::BlockedTags),
        allowed_tags: pref(prefs, PreferenceKind::AllowedTags),
        enabled_devices: pref(prefs, PreferenceKind::EnabledDevices),
        enable_content_deletion_from_folders: pref(prefs, PreferenceKind::EnableContentDeletionFromFolders),
        enabled_channels: guid_pref(prefs, PreferenceKind::EnabledChannels),
        enabled_folders: guid_pref(prefs, PreferenceKind::EnabledFolders),
        blocked_channels: guid_pref(prefs, PreferenceKind::BlockedChannels),
        blocked_media_folders: guid_pref(prefs, PreferenceKind::BlockedMediaFolders),
        sync_play_access: sync_play_from_i32(user.sync_play_access),
        block_unrated_items: parse_unrated_items(unrated.as_slice()),
    }
}

/// What is shown of a user.
#[derive(Debug, Clone)]
pub struct UserDto {
    pub name: String,
    pub id: Guid,
    pub server_id: Option<String>,
    pub enable_auto_login: bool,
    pub last_login_date: Option<Timestamp>,
    pub last_activity_date: Option<Timestamp>,
    pub has_password: bool,
    pub has_configured_password: bool,
    pub configuration: UserConfiguration,
    pub policy: UserPolicy,
}

/// What is shown of a user. The server's id is the caller's, or this server's own;
/// a user whose id cannot be read is shown with the nil one.
pub fn get_user_dto(
    user: &UserRow,
    perms: &[(PermissionKind, bool)],
    prefs: &[(PreferenceKind, String)],
    schedules: &[ScheduleRow],
    server_id: Option<String>,
    own_server_id: &Option<String>,
) -> (r: UserDto)
    ensures
        r.name@ == user.username@,
        r.id == match guid_in(user.id@) {
            Some(id) => id,
            None => (Guid { value: 0 }),
        },
        opt_text(r.server_id) == match opt_text(server_id) {
            Some(s) => Some(s),
            None => opt_text(*own_server_id),
        },
        r.enable_auto_login == user.enable_auto_login,
        r.last_login_date == user.last_login_date,
        r.last_activity_date == user.last_activity_date,
        r.has_password == (user.password is Some),
        r.has_configured_password == (user.password is Some),
        r.configuration.shows(*user, prefs@),
        r.policy.shows_row(*user),
        r.policy.shows_permissions(perms@),
        r.policy.shows_preferences(prefs@),
        r.policy.access_schedules@ == Seq::new(
            schedules@.len(),
            |i: int| schedule_of(schedules@[i], r.id),
        ),
{
    let id: Guid = match parse_guid(user.id.as_str()) {
        Some(id) => id,
        None => Guid::nil(),
    };
    let shown: Vec<AccessSchedule> = access_schedules(user.id.as_str(), schedules);
    UserDto {
        name: user.username.clone(),
        id,
        server_id: match server_id {
            Some(s) => Some(s),
            None => copy_text(own_server_id),
        },
        enable_auto_login: user.enable_auto_login,
        last_login_date: user.last_login_date,
        last_activity_date: user.last_activity_date,
        has_password: user.password.is_some(),
        has_configured_password: user.password.is_some(),
        configuration: user_configuration(user, prefs),
        policy: build_user_policy(user, perms, prefs, shown),
    }
}

// ---------------------------------------------------------------------------
// Storing settings and policies
// ---------------------------------------------------------------------------
/// The statement that stores a user's settings in their row.
pub open spec fn update_configuration_sql(user_id: Guid, config: UserConfiguration) -> Sql {
    let c0 = give(say(Seq::empty(), r#"UPDATE "Users" SET "AudioLanguagePreference" = "#@), BindView::OptionalText(opt_text(config.audio_language_preference)));
    let c1 = give(say(c0, r#", "PlayDefaultAudioTrack" = "#@), BindView::Flag(config.play_default_audio_track));
    let c2 = give(say(c1, r#", "SubtitleLanguagePreference" = "#@), BindView::OptionalText(opt_text(config.subtitle_language_preference)));
    let c3 = give(say(c2, r#", "DisplayMissingEpisodes" = "#@), BindView::Flag(config.display_missing_episodes));
    let c4 = give(say(c3, r#", "SubtitleMode" = "#@), BindView::Int(subtitle_mode_number(config.subtitle_mode)));
    let c5 = give(say(c4, r#", "DisplayCollectionsView" = "#@), BindView::Flag(config.display_collections_view));
    let c6 = give(say(c5, r#", "EnableLocalPassword" = "#@), BindView::Flag(config.enable_local_password));
    let c7 = give(say(c6, r#", "HidePlayedInLatest" = "#@), BindView::Flag(config.hide_played_in_latest));
    let c8 = give(say(c7, r#", "RememberAudioSelections" = "#@), BindView::Flag(config.remember_audio_selections));
    let c9 = give(say(c8, r#", "RememberSubtitleSelections" = "#@), BindView::Flag(config.remember_subtitle_selections));
    let c10 = give(say(c9, r#", "EnableNextEpisodeAutoPlay" = "#@), BindView::Flag(config.enable_next_episode_auto_play));
    let c11 = give(say(c10, r#", "CastReceiverId" = "#@), BindView::OptionalText(opt_text(config.cast_receiver_id)));
    give(
        say(c11, r#", "RowVersion" = "RowVersion" + 1 WHERE "Id" = "#@),
        BindView::Text(hyphenated_text(user_id.value)),
    )
}

fn store_configuration_query(user_id: Guid, config: &UserConfiguration) -> (r: SqlBuilder)
    ensures
        r@ == update_configuration_sql(user_id, *config),
{
    let mut qb: SqlBuilder = SqlBuilder::empty();
    qb.push(r#"UPDATE "Users" SET "AudioLanguagePreference" = "#);
    qb.push_bind(BindValue::OptionalText(copy_text(&config.audio_language_preference)));
    qb.push(r#", "PlayDefaultAudioTrack" = "#);
    qb.push_bind(BindValue::Flag(config.play_default_audio_track));
    qb.push(r#", "SubtitleLanguagePreference" = "#);
    qb.push_bind(BindValue::OptionalText(copy_text(&config.subtitle_language_preference)));
    qb.push(r#", "DisplayMissingEpisodes" = "#);
    qb.push_bind(BindValue::Flag(config.display_missing_episodes));
    qb.push(r#", "SubtitleMode" = "#);
    qb.push_bind(BindValue::Int(subtitle_mode_to_i64(config.subtitle_mode)));
    qb.push(r#", "DisplayCollectionsView" = "#);
    qb.push_bind(BindValue::Flag(config.display_collections_view));
    qb.push(r#", "EnableLocalPassword" = "#);
    qb.push_bind(BindValue::Flag(config.enable_local_password));
    qb.push(r#", "HidePlayedInLatest" = "#);
    qb.push_bind(BindValue::Flag(config.hide_played_in_latest));
    qb.push(r#", "RememberAudioSelections" = "#);
    qb.push_bind(BindValue::Flag(config.remember_audio_selections));
    qb.push(r#", "RememberSubtitleSelections" = "#);
    qb.push_bind(BindValue::Flag(config.remember_subtitle_selections));
    qb.push(r#", "EnableNextEpisodeAutoPlay" = "#);
    qb.push_bind(BindValue::Flag(config.enable_next_episode_auto_play));
    qb.push(r#", "CastReceiverId" = "#);
    qb.push_bind(BindValue::OptionalText(copy_text(&config.cast_receiver_id)));
    qb.push(r#", "RowVersion" = "RowVersion" + 1 WHERE "Id" = "#);
    qb.push_bind(BindValue::Text(guid_text(user_id)));
    qb
}

/// The statements that store a user's settings: in their row, and as preferences
/// for the lists.
pub open spec fn configuration_sql(user_id: Guid, config: UserConfiguration) -> Seq<Sql> {
    let id = hyphenated_text(user_id.value);
    seq![update_configuration_sql(user_id, config)] + set_preference_sql(
        id,
        PreferenceKind::GroupedFolders,
        preference_text(hyphenated_texts(config.grouped_folders@)),
    ) + set_preference_sql(
        id,
        PreferenceKind::OrderedViews,
        preference_text(hyphenated_texts(config.ordered_views@)),
    ) + set_preference_sql(
        id,
        PreferenceKind::LatestItemExcludes,
        preference_text(hyphenated_texts(config.latest_items_excludes@)),
    ) + set_preference_sql(
        id,
        PreferenceKind::MyMediaExcludes,
        preference_text(hyphenated_texts(config.my_media_excludes@)),
    )
}

/// The statements that store a user's settings, or the error for a user who does
/// not exist.
pub fn update_configuration_queries(
    user_id: Guid,
    user_exists: bool,
    config: &UserConfiguration,
) -> (r: Result<Vec<SqlBuilder>, ServiceError>)
    ensures
        match r {
            Ok(v) => user_exists && sql_list(v@) == configuration_sql(user_id, *config),
            Err(e) => !user_exists && e@ == no_user(user_id),
        },
{
    if !user_exists {
        return Err(missing_user(user_id));
    }
    let id: String = guid_text(user_id);
    let id: &str = id.as_str();
    let mut out: Vec<SqlBuilder> = vec![store_configuration_query(user_id, config)];
    assert(sql_list(out@) =~= seq![update_configuration_sql(user_id, *config)]);
    append_all(
        &mut out,
        set_guid_preference_queries(
            id,
            PreferenceKind::GroupedFolders,
            config.grouped_folders.as_slice(),
        ),
    );
    append_all(
        &mut out,
        set_guid_preference_queries(
            id,
            PreferenceKind::OrderedViews,
            config.ordered_views.as_slice(),
        ),
    );
    append_all(
        &mut out,
        set_guid_preference_queries(
            id,
            PreferenceKind::LatestItemExcludes,
            config.latest_items_excludes.as_slice(),
        ),
    );
    append_all(
        &mut out,
        set_guid_preference_queries(
            id,
            PreferenceKind::MyMediaExcludes,
            config.my_media_excludes.as_slice(),
        ),
    );
    Ok(out)
}

/// The statement that stores a user's policy in their row.
pub open spec fn update_policy_sql(user_id: Guid, policy: UserPolicy) -> Sql {
    let c0 = give(say(Seq::empty(), r#"UPDATE "Users" SET "MaxActiveSessions" = "#@), BindView::Int(policy.max_active_sessions as int));
    let c1 = give(say(c0, r#", "MaxParentalRatingScore" = "#@), BindView::OptionalInt(wide(policy.max_parental_rating)));
    let c2 = give(say(c1, r#", "MaxParentalRatingSubScore" = "#@), BindView::OptionalInt(wide(policy.max_parental_sub_rating)));
    let c3 = give(say(c2, r#", "LoginAttemptsBeforeLockout" = "#@), BindView::Int(policy.login_attempts_before_lockout as int));
    let c4 = give(say(c3, r#", "EnableUserPreferenceAccess" = "#@), BindView::Flag(policy.enable_user_preference_access));
    let c5 = give(say(c4, r#", "InvalidLoginAttemptCount" = "#@), BindView::Int(policy.invalid_login_attempt_count as int));
    let c6 = give(say(c5, r#", "RemoteClientBitrateLimit" = "#@), BindView::Int(policy.remote_client_bitrate_limit as int));
    let c7 = give(say(c6, r#", "AuthenticationProviderId" = "#@), BindView::Text(policy.authentication_provider_id@));
    let c8 = give(say(c7, r#", "PasswordResetProviderId" = "#@), BindView::Text(policy.password_reset_provider_id@));
    let c9 = give(say(c8, r#", "SyncPlayAccess" = "#@), BindView::Int(sync_play_number(policy.sync_play_access)));
    give(
        say(c9, r#", "RowVersion" = "RowVersion" + 1 WHERE "Id" = "#@),
        BindView::Text(hyphenated_text(user_id.value)),
    )
}

fn store_policy_query(user_id: Guid, policy: &UserPolicy) -> (r: SqlBuilder)
    ensures
        r@ == update_policy_sql(user_id, *policy),
{
    let mut qb: SqlBuilder = SqlBuilder::empty();
    qb.push(r#"UPDATE "Users" SET "MaxActiveSessions" = "#);
    qb.push_bind(BindValue::Int(policy.max_active_sessions as i64));
    qb.push(r#", "MaxParentalRatingScore" = "#);
    qb.push_bind(BindValue::OptionalInt(widen(policy.max_parental_rating)));
    qb.push(r#", "MaxParentalRatingSubScore" = "#);
    qb.push_bind(BindValue::OptionalInt(widen(policy.max_parental_sub_rating)));
    qb.push(r#", "LoginAttemptsBeforeLockout" = "#);
    qb.push_bind(BindValue::Int(policy.login_attempts_before_lockout as i64));
    qb.push(r#", "EnableUserPreferenceAccess" = "#);
    qb.push_bind(BindValue::Flag(policy.enable_user_preference_access));
    qb.push(r#", "InvalidLoginAttemptCount" = "#);
    qb.push_bind(BindValue::Int(policy.invalid_login_attempt_count as i64));
    qb.push(r#", "RemoteClientBitrateLimit" = "#);
    qb.push_bind(BindValue::Int(policy.remote_client_bitrate_limit as i64));
    qb.push(r#", "AuthenticationProviderId" = "#);
    qb.push_bind(BindValue::Text(policy.authentication_provider_id.clone()));
    qb.push(r#", "PasswordResetProviderId" = "#);
    qb.push_bind(BindValue::Text(policy.password_reset_provider_id.clone()));
    qb.push(r#", "SyncPlayAccess" = "#);
    qb.push_bind(BindValue::Int(sync_play_to_i64(policy.sync_play_access)));
    qb.push(r#", "RowVersion" = "RowVersion" + 1 WHERE "Id" = "#);
    qb.push_bind(BindValue::Text(guid_text(user_id)));
    qb
}

/// The statements that store a user's policy: in their row, and as permissions for
/// the flags that other checks read.
pub open spec fn policy_sql(user_id: Guid, policy: UserPolicy) -> Seq<Sql> {
    let id = hyphenated_text(user_id.value);
    seq![update_policy_sql(user_id, policy)] + set_permission_sql(
        id,
        PermissionKind::IsAdministrator,
        policy.is_administrator,
    ) + set_permission_sql(id, PermissionKind::IsDisabled, policy.is_disabled) + set_permission_sql(
        id,
        PermissionKind::EnableContentDeletion,
        policy.enable_content_deletion,
    ) + set_permission_sql(
        id,
        PermissionKind::EnableRemoteControlOfOtherUsers,
        policy.enable_remote_control_of_other_users,
    )
}

/// The statements that store a user's policy, or the error for a user who does not
/// exist.
pub fn update_policy_queries(user_id: Guid, user_exists: bool, policy: &UserPolicy) -> (r: Result<
    Vec<SqlBuilder>,
    ServiceError,
>)
    ensures
        match r {
            Ok(v) => user_exists && sql_list(v@) == policy_sql(user_id, *policy),
            Err(e) => !user_exists && e@ == no_user(user_id),
        },
{
    if !user_exists {
        return Err(missing_user(user_id));
    }
    let id: String = guid_text(user_id);
    let id: &str = id.as_str();
    let mut out: Vec<SqlBuilder> = vec![store_policy_query(user_id, policy)];
    assert(sql_list(out@) =~= seq![update_policy_sql(user_id, *policy)]);
    append_all(
        &mut out,
        set_permission_queries(id, PermissionKind::IsAdministrator, policy.is_administrator),
    );
    append_all(
        &mut out,
        set_permission_queries(id, PermissionKind::IsDisabled, policy.is_disabled),
    );
    append_all(
        &mut out,
        set_permission_queries(
            id,
            PermissionKind::EnableContentDeletion,
            policy.enable_content_deletion,
        ),
    );
    append_all(
        &mut out,
        set_permission_queries(
            id,
            PermissionKind::EnableRemoteControlOfOtherUsers,
            policy.enable_remote_control_of_other_users,
        ),
    );
    Ok(out)
}

// ---------------------------------------------------------------------------
// Profile images
// ---------------------------------------------------------------------------
/// Where a user's profile image is written.
pub open spec fn profile_image_file(base: Seq<char>, user_id: Seq<char>, extension: Seq<char>) -> Seq<
    char,
> {
    joined(joined(base, user_id), "profile."@ + strip_start(extension, is_char('.')))
}

fn without_dots(s: &str) -> (r: String)
    ensures
        r@ == strip_start(s@, is_char('.')),
{
    let cs: Vec<char> = chars_of(s);
    let mut i: usize = 0;
    assert(cs@.skip(0) =~= cs@);
    while i < cs.len() && cs[i] == '.'
        invariant
            i <= cs.len(),
            strip_start(cs@, is_char('.')) == strip_start(cs@.skip(i as int), is_char('.')),
        decreases cs.len() - i,
    {
        assert(cs@.skip(i as int).drop_first() =~= cs@.skip(i + 1));
        i += 1;
    }
    let rest: &[char] = vstd::slice::slice_subrange(cs.as_slice(), i, cs.len());
    assert(rest@ =~= cs@.skip(i as int));
    string_of(rest)
}

/// Where a user's profile image is written. Without a directory for such images it
/// cannot be.
pub fn profile_image_path(base: &Option<String>, user_id: &str, extension: &str) -> (r: Result<
    String,
    ServiceError,
>)
    ensures
        match r {
            Ok(path) => base matches Some(b) && path@ == profile_image_file(
                b@,
                user_id@,
                extension@,
            ),
            Err(e) => base is None && e@ == ErrorView::Backend(
                "save_profile_image requires a profile-image directory"@,
            ),
        },
{
    match base {
        Some(b) => {
            let dir: String = join_path(b.as_str(), user_id);
            let leaf: String = concat("profile.", without_dots(extension).as_str());
            Ok(join_path(dir.as_str(), leaf.as_str()))
        },
        None => Err(
            ServiceError::Backend(
                "save_profile_image requires a profile-image directory".to_owned(),
            ),
        ),
    }
}

/// The statements that make an image a user's only one.
pub open spec fn profile_image_sql(user_id: Seq<char>, path: Seq<char>, now: Timestamp) -> Seq<Sql> {
    let a = give(
        say(
            Seq::empty(),
            r#"INSERT INTO "ImageInfos" ("LastModified", "Path", "UserId") VALUES ("#@,
        ),
        BindView::Time(now),
    );
    let b = give(say(a, ", "@), BindView::Text(path));
    seq![
        with_id(r#"DELETE FROM "ImageInfos" WHERE "UserId" = "#@, user_id),
        say(give(say(b, ", "@), BindView::Text(user_id)), ")"@),
    ]
}

/// The statements that make an image a user's only one.
pub fn profile_image_queries(user_id: &str, path: &str, now: Timestamp) -> (r: Vec<SqlBuilder>)
    ensures
        sql_list(r@) == profile_image_sql(user_id@, path@, now),
{
    let gone: SqlBuilder = clear_profile_image_query(user_id);
    let mut qb: SqlBuilder = SqlBuilder::empty();
    qb.push(r#"INSERT INTO "ImageInfos" ("LastModified", "Path", "UserId") VALUES ("#);
    qb.push_bind(BindValue::Time(now));
    qb.push(", ");
    qb.push_text(path);
    qb.push(", ");
    qb.push_text(user_id);
    qb.push(")");
    let out: Vec<SqlBuilder> = vec![gone, qb];
    assert(sql_list(out@) =~= profile_image_sql(user_id@, path@, now));
    out
}

} // verus!
