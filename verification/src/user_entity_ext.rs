//! What users may do and what they prefer.
//!
//! Permissions and preferences are rows of their own. A preference holds a list,
//! stored as one text with commas between the entries.
use vstd::prelude::*;

use crate::guid::{
    hyphenated_texts, lemma_guid_text_is_free_of_commas, read_guids, readable, write_guids, Guid,
};
use crate::model::{DayOfWeek, PermissionKind, PreferenceKind};
use crate::sql::{give, say, sql_list, BindValue, BindView, Sql, SqlBuilder};
use crate::text::{
    chars_of, eq_ignore_ascii_case, is_char, is_free_of, join, join_texts, law_split_undoes_join,
    same_ignoring_case, split, split_chars, texts,
};

verus! {

// ---------------------------------------------------------------------------
// Lists in one text
// ---------------------------------------------------------------------------
/// The entries that a stored preference holds. An empty text holds none.
pub open spec fn preference_entries(stored: Option<Seq<char>>) -> Seq<Seq<char>> {
    match stored {
        Some(v) => if v.len() > 0 {
            split(v, is_char(','))
        } else {
            Seq::empty()
        },
        None => Seq::empty(),
    }
}

/// The text that a preference is stored as.
pub open spec fn preference_text(entries: Seq<Seq<char>>) -> Seq<char> {
    join(entries, seq![','])
}

/// What is stored comes back: entries without commas, unless there is only one and
/// it is empty.
pub proof fn law_preference_round_trip(entries: Seq<Seq<char>>)
    requires
        forall|i: int| 0 <= i < entries.len() ==> is_free_of(#[trigger] entries[i], ','),
        !(entries.len() == 1 && entries[0].len() == 0),
    ensures
        preference_entries(Some(preference_text(entries))) == entries,
{
    if entries.len() > 0 {
        law_split_undoes_join(entries, ',');
        let text = preference_text(entries);
        if text.len() == 0 {
            if entries.len() > 1 {
                assert(text == join(entries.drop_last(), seq![',']) + seq![','] + entries.last());
            }
        }
    } else {
        assert(preference_entries(Some(preference_text(entries))) =~= entries);
    }
}

/// A list of identifiers that is stored as a preference comes back as the texts of
/// those identifiers.
pub proof fn law_guid_preference_round_trip(ids: Seq<Guid>)
    ensures
        preference_entries(Some(preference_text(hyphenated_texts(ids)))) == hyphenated_texts(ids),
{
    let entries = hyphenated_texts(ids);
    assert forall|i: int| 0 <= i < entries.len() implies is_free_of(#[trigger] entries[i], ',') by {
        lemma_guid_text_is_free_of_commas(ids[i].value);
    }
    if entries.len() == 1 {
        assert(entries[0].len() == 36);
    }
    law_preference_round_trip(entries);
}

/// The entries that a stored preference holds.
pub fn split_preference(stored: Option<&str>) -> (r: Vec<String>)
    ensures
        texts(r@) == preference_entries(
            match stored {
                Some(v) => Some(v@),
                None => None,
            },
        ),
{
    match stored {
        Some(v) => {
            if v.unicode_len() > 0 {
                let cs: Vec<char> = chars_of(v);
                return split_chars(cs.as_slice(), ',');
            }
        },
        None => {},
    }
    let r: Vec<String> = Vec::new();
    assert(texts(r@) =~= Seq::<Seq<char>>::empty());
    r
}

/// The text that a preference is stored as.
pub fn join_preference(values: &[String]) -> (r: String)
    ensures
        r@ == preference_text(texts(values@)),
{
    proof {
        reveal_strlit(",");
        assert(","@ =~= seq![',']);
    }
    join_texts(values, ",")
}

/// The identifiers that a stored preference holds. What `join_guid_preference`
/// gives is read back.
pub fn split_guid_preference(stored: Option<&str>) -> (r: Vec<Guid>)
    ensures
        r@ == readable(
            preference_entries(
                match stored {
                    Some(v) => Some(v@),
                    None => None,
                },
            ),
        ),
        forall|ids: Seq<Guid>|
            stored is Some && stored->0@ == preference_text(#[trigger] hyphenated_texts(ids)) ==> r@
                == ids,
{
    let entries: Vec<String> = split_preference(stored);
    let r: Vec<Guid> = read_guids(entries.as_slice());
    assert forall|ids: Seq<Guid>|
        stored is Some && stored->0@ == preference_text(#[trigger] hyphenated_texts(ids)) implies r@
        == ids by {
        law_guid_preference_round_trip(ids);
    }
    r
}

/// The text that a list of identifiers is stored as.
pub fn join_guid_preference(ids: &[Guid]) -> (r: String)
    ensures
        r@ == preference_text(hyphenated_texts(ids@)),
{
    let entries: Vec<String> = write_guids(ids);
    join_preference(entries.as_slice())
}

/// Whether one of the entries is the given text, whatever its letters' case.
pub open spec fn has_entry(entries: Seq<Seq<char>>, needle: Seq<char>) -> bool {
    exists|i: int| 0 <= i < entries.len() && same_ignoring_case(#[trigger] entries[i], needle)
}

/// Whether a stored preference holds an entry, whatever its letters' case.
pub fn preference_contains(stored: Option<&str>, needle: &str) -> (r: bool)
    ensures
        r == has_entry(
            preference_entries(
                match stored {
                    Some(v) => Some(v@),
                    None => None,
                },
            ),
            needle@,
        ),
{
    let entries: Vec<String> = split_preference(stored);
    holds_entry(entries.as_slice(), needle)
}

fn holds_entry(entries: &[String], needle: &str) -> (r: bool)
    ensures
        r == has_entry(texts(entries@), needle@),
{
    let mut i: usize = 0;
    while i < entries.len()
        invariant
            i <= entries.len(),
            forall|j: int|
                0 <= j < i ==> !same_ignoring_case(#[trigger] texts(entries@)[j], needle@),
        decreases entries.len() - i,
    {
        assert(texts(entries@)[i as int] == entries@[i as int]@);
        if eq_ignore_ascii_case(entries[i].as_str(), needle) {
            return true;
        }
        i += 1;
    }
    false
}

// ---------------------------------------------------------------------------
// Schedules
// ---------------------------------------------------------------------------
/// The number of a day, from Sunday.
pub open spec fn day_number(day: DayOfWeek) -> int {
    match day {
        DayOfWeek::Sunday => 0,
        DayOfWeek::Monday => 1,
        DayOfWeek::Tuesday => 2,
        DayOfWeek::Wednesday => 3,
        DayOfWeek::Thursday => 4,
        DayOfWeek::Friday => 5,
        DayOfWeek::Saturday => 6,
    }
}

/// Whether a stored day covers a day of the week: zero to six are Sunday to
/// Saturday, seven is every day, eight a weekday and nine the weekend.
pub open spec fn covers_day(stored: int, day: DayOfWeek) -> bool {
    let weekend = day == DayOfWeek::Saturday || day == DayOfWeek::Sunday;
    if stored == 7 {
        true
    } else if stored == 8 {
        !weekend
    } else if stored == 9 {
        weekend
    } else {
        stored == day_number(day)
    }
}

/// Whether a stored day covers a day of the week.
pub fn day_matches(day: i32, weekday: DayOfWeek) -> (r: bool)
    ensures
        r == covers_day(day as int, weekday),
{
    let weekend: bool = weekday == DayOfWeek::Saturday || weekday == DayOfWeek::Sunday;
    if day == 7 {
        return true;
    }
    if day == 8 {
        return !weekend;
    }
    if day == 9 {
        return weekend;
    }
    let number: i32 = match weekday {
        DayOfWeek::Sunday => 0,
        DayOfWeek::Monday => 1,
        DayOfWeek::Tuesday => 2,
        DayOfWeek::Wednesday => 3,
        DayOfWeek::Thursday => 4,
        DayOfWeek::Friday => 5,
        DayOfWeek::Saturday => 6,
    };
    day == number
}

/// An access schedule's day, and whether it is within its hours now.
#[derive(Debug, Clone, Copy)]
pub struct ScheduleHours {
    pub day: i32,
    pub within_hours: bool,
}

/// Whether the schedules allow access: there is none, or one covers the day and
/// the hour.
pub open spec fn access_allowed(schedules: Seq<ScheduleHours>, weekday: DayOfWeek) -> bool {
    schedules.len() == 0 || exists|i: int|
        0 <= i < schedules.len() && covers_day((#[trigger] schedules[i]).day as int, weekday)
            && schedules[i].within_hours
}

/// Whether the schedules allow access.
pub fn is_parental_schedule_allowed(schedules: &[ScheduleHours], weekday: DayOfWeek) -> (r: bool)
    ensures
        r == access_allowed(schedules@, weekday),
{
    if schedules.len() == 0 {
        return true;
    }
    let mut i: usize = 0;
    while i < schedules.len()
        invariant
            i <= schedules.len(),
            forall|j: int|
                0 <= j < i ==> !(covers_day((#[trigger] schedules@[j]).day as int, weekday)
                    && schedules@[j].within_hours),
        decreases schedules.len() - i,
    {
        if day_matches(schedules[i].day, weekday) && schedules[i].within_hours {
            return true;
        }
        i += 1;
    }
    false
}

/// The stored days part the week: seven covers every day, each day is a weekday or
/// of the weekend and not both, and of zero to six just one covers it.
pub proof fn law_stored_days_part_the_week(day: DayOfWeek)
    ensures
        covers_day(7, day),
        covers_day(8, day) != covers_day(9, day),
        0 <= day_number(day) <= 6,
        forall|n: int| 0 <= n <= 6 ==> covers_day(n, day) == (n == day_number(day)),
{
}

// ---------------------------------------------------------------------------
// Statements
// ---------------------------------------------------------------------------
/// The statement that reads a permission.
pub open spec fn permission_sql(user_id: Seq<char>, kind: PermissionKind) -> Sql {
    let a = give(
        say(Seq::empty(), r#"SELECT "Value" FROM "Permissions" WHERE "UserId" = "#@),
        BindView::Text(user_id),
    );
    give(say(a, r#" AND "Kind" = "#@), BindView::Permission(kind))
}

/// The statement that reads a permission.
pub fn permission_query(user_id: &str, kind: PermissionKind) -> (r: SqlBuilder)
    ensures
        r@ == permission_sql(user_id@, kind),
{
    let mut qb: SqlBuilder = SqlBuilder::empty();
    qb.push(r#"SELECT "Value" FROM "Permissions" WHERE "UserId" = "#);
    qb.push_text(user_id);
    qb.push(r#" AND "Kind" = "#);
    qb.push_bind(BindValue::Permission(kind));
    qb
}

/// What a permission's row says; a missing row says no.
pub fn has_permission(value: Option<bool>) -> (r: bool)
    ensures
        r == (value == Some(true)),
{
    match value {
        Some(v) => v,
        None => false,
    }
}

/// The statement that reads a preference.
pub open spec fn preference_sql(user_id: Seq<char>, kind: PreferenceKind) -> Sql {
    let a = give(
        say(Seq::empty(), r#"SELECT "Value" FROM "Preferences" WHERE "UserId" = "#@),
        BindView::Text(user_id),
    );
    give(say(a, r#" AND "Kind" = "#@), BindView::Preference(kind))
}

/// The statement that reads a preference.
pub fn preference_query(user_id: &str, kind: PreferenceKind) -> (r: SqlBuilder)
    ensures
        r@ == preference_sql(user_id@, kind),
{
    let mut qb: SqlBuilder = SqlBuilder::empty();
    qb.push(r#"SELECT "Value" FROM "Preferences" WHERE "UserId" = "#);
    qb.push_text(user_id);
    qb.push(r#" AND "Kind" = "#);
    qb.push_bind(BindValue::Preference(kind));
    qb
}

/// The statement that changes a value where it has a row.
pub open spec fn update_sql(head: Seq<char>, user_id: Seq<char>, kind: BindView, value: BindView) -> Sql {
    let a = give(say(Seq::empty(), head), value);
    let b = give(say(a, r#" WHERE "UserId" = "#@), BindView::Text(user_id));
    give(say(b, r#" AND "Kind" = "#@), kind)
}

/// The statement that adds a value where it has no row.
pub open spec fn insert_if_missing_sql(
    head: Seq<char>,
    middle: Seq<char>,
    user_id: Seq<char>,
    kind: BindView,
    value: BindView,
) -> Sql {
    let a = give(say(Seq::empty(), head), kind);
    let b = give(say(a, ", 1, "@), BindView::Text(user_id));
    let c = give(say(b, ", "@), value);
    let d = give(say(c, middle), BindView::Text(user_id));
    say(give(say(d, r#" AND "Kind" = "#@), kind), ")"@)
}

fn update_query(head: &'static str, user_id: &str, kind: &BindValue, value: &BindValue) -> (r:
    SqlBuilder)
    ensures
        r@ == update_sql(head@, user_id@, kind@, value@),
{
    let mut qb: SqlBuilder = SqlBuilder::empty();
    qb.push(head);
    qb.push_bind(value.duplicate());
    qb.push(r#" WHERE "UserId" = "#);
    qb.push_text(user_id);
    qb.push(r#" AND "Kind" = "#);
    qb.push_bind(kind.duplicate());
    qb
}

fn insert_if_missing_query(
    head: &'static str,
    middle: &'static str,
    user_id: &str,
    kind: &BindValue,
    value: &BindValue,
) -> (r: SqlBuilder)
    ensures
        r@ == insert_if_missing_sql(head@, middle@, user_id@, kind@, value@),
{
    let mut qb: SqlBuilder = SqlBuilder::empty();
    qb.push(head);
    qb.push_bind(kind.duplicate());
    qb.push(", 1, ");
    qb.push_text(user_id);
    qb.push(", ");
    qb.push_bind(value.duplicate());
    qb.push(middle);
    qb.push_text(user_id);
    qb.push(r#" AND "Kind" = "#);
    qb.push_bind(kind.duplicate());
    qb.push(")");
    qb
}

/// The statements that set a permission: its row is changed, or added where it is
/// missing.
pub open spec fn set_permission_sql(user_id: Seq<char>, kind: PermissionKind, value: bool) -> Seq<Sql> {
    seq![
        update_sql(
            r#"UPDATE "Permissions" SET "Value" = "#@,
            user_id,
            BindView::Permission(kind),
            BindView::Flag(value),
        ),
        insert_if_missing_sql(
            r#"INSERT INTO "Permissions" ("Kind", "RowVersion", "UserId", "Value") SELECT "#@,
            r#" WHERE NOT EXISTS (SELECT 1 FROM "Permissions" WHERE "UserId" = "#@,
            user_id,
            BindView::Permission(kind),
            BindView::Flag(value),
        ),
    ]
}

/// The statements that set a permission.
pub fn set_permission_queries(user_id: &str, kind: PermissionKind, value: bool) -> (r: Vec<SqlBuilder>)
    ensures
        sql_list(r@) == set_permission_sql(user_id@, kind, value),
{
    let k: BindValue = BindValue::Permission(kind);
    let v: BindValue = BindValue::Flag(value);
    let out: Vec<SqlBuilder> = vec![
        update_query(r#"UPDATE "Permissions" SET "Value" = "#, user_id, &k, &v),
        insert_if_missing_query(
            r#"INSERT INTO "Permissions" ("Kind", "RowVersion", "UserId", "Value") SELECT "#,
            r#" WHERE NOT EXISTS (SELECT 1 FROM "Permissions" WHERE "UserId" = "#,
            user_id,
            &k,
            &v,
        ),
    ];
    assert(sql_list(out@) =~= set_permission_sql(user_id@, kind, value));
    out
}

/// The statements that set a preference: its row is changed, or added where it is
/// missing.
pub open spec fn set_preference_sql(user_id: Seq<char>, kind: PreferenceKind, stored: Seq<char>) -> Seq<
    Sql,
> {
    seq![
        update_sql(
            r#"UPDATE "Preferences" SET "Value" = "#@,
            user_id,
            BindView::Preference(kind),
            BindView::Text(stored),
        ),
        insert_if_missing_sql(
            r#"INSERT INTO "Preferences" ("Kind", "RowVersion", "UserId", "Value") SELECT "#@,
            r#" WHERE NOT EXISTS (SELECT 1 FROM "Preferences" WHERE "UserId" = "#@,
            user_id,
            BindView::Preference(kind),
            BindView::Text(stored),
        ),
    ]
}

fn set_stored_preference(user_id: &str, kind: PreferenceKind, stored: String) -> (r: Vec<SqlBuilder>)
    ensures
        sql_list(r@) == set_preference_sql(user_id@, kind, stored@),
{
    let k: BindValue = BindValue::Preference(kind);
    let ghost text = stored@;
    let v: BindValue = BindValue::Text(stored);
    let out: Vec<SqlBuilder> = vec![
        update_query(r#"UPDATE "Preferences" SET "Value" = "#, user_id, &k, &v),
        insert_if_missing_query(
            r#"INSERT INTO "Preferences" ("Kind", "RowVersion", "UserId", "Value") SELECT "#,
            r#" WHERE NOT EXISTS (SELECT 1 FROM "Preferences" WHERE "UserId" = "#,
            user_id,
            &k,
            &v,
        ),
    ];
    assert(sql_list(out@) =~= set_preference_sql(user_id@, kind, text));
    out
}

/// The statements that set a preference to a list.
pub fn set_preference_queries(user_id: &str, kind: PreferenceKind, values: &[String]) -> (r: Vec<
    SqlBuilder,
>)
    ensures
        sql_list(r@) == set_preference_sql(user_id@, kind, preference_text(texts(values@))),
{
    set_stored_preference(user_id, kind, join_preference(values))
}

/// The statements that set a preference to a list of identifiers.
pub fn set_guid_preference_queries(user_id: &str, kind: PreferenceKind, values: &[Guid]) -> (r: Vec<
    SqlBuilder,
>)
    ensures
        sql_list(r@) == set_preference_sql(
            user_id@,
            kind,
            preference_text(hyphenated_texts(values@)),
        ),
{
    set_stored_preference(user_id, kind, join_guid_preference(values))
}

// ---------------------------------------------------------------------------
// New users
// ---------------------------------------------------------------------------
/// What a new user may do.
pub open spec fn default_permission_list() -> Seq<(PermissionKind, bool)> {
    seq![
        (PermissionKind::IsAdministrator, false),
        (PermissionKind::IsDisabled, false),
        (PermissionKind::IsHidden, true),
        (PermissionKind::EnableAllChannels, true),
        (PermissionKind::EnableAllDevices, true),
        (PermissionKind::EnableAllFolders, true),
        (PermissionKind::EnableContentDeletion, false),
        (PermissionKind::EnableContentDownloading, true),
        (PermissionKind::EnableMediaConversion, true),
        (PermissionKind::EnableMediaPlayback, true),
        (PermissionKind::EnablePlaybackRemuxing, true),
        (PermissionKind::EnablePublicSharing, true),
        (PermissionKind::EnableRemoteAccess, true),
        (PermissionKind::EnableSyncTranscoding, true),
        (PermissionKind::EnableAudioPlaybackTranscoding, true),
        (PermissionKind::EnableLiveTvAccess, true),
        (PermissionKind::EnableLiveTvManagement, false),
        (PermissionKind::EnableSharedDeviceControl, true),
        (PermissionKind::EnableVideoPlaybackTranscoding, true),
        (PermissionKind::ForceRemoteSourceTranscoding, false),
        (PermissionKind::EnableRemoteControlOfOtherUsers, false),
        (PermissionKind::EnableCollectionManagement, false),
        (PermissionKind::EnableSubtitleManagement, false),
        (PermissionKind::EnableLyricManagement, false),
    ]
}

/// What a new user may do.
pub fn default_permissions() -> (r: Vec<(PermissionKind, bool)>)
    ensures
        r@ == default_permission_list(),
{
    vec![
        (PermissionKind::IsAdministrator, false),
        (PermissionKind::IsDisabled, false),
        (PermissionKind::IsHidden, true),
        (PermissionKind::EnableAllChannels, true),
        (PermissionKind::EnableAllDevices, true),
        (PermissionKind::EnableAllFolders, true),
        (PermissionKind::EnableContentDeletion, false),
        (PermissionKind::EnableContentDownloading, true),
        (PermissionKind::EnableMediaConversion, true),
        (PermissionKind::EnableMediaPlayback, true),
        (PermissionKind::EnablePlaybackRemuxing, true),
        (PermissionKind::EnablePublicSharing, true),
        (PermissionKind::EnableRemoteAccess, true),
        (PermissionKind::EnableSyncTranscoding, true),
        (PermissionKind::EnableAudioPlaybackTranscoding, true),
        (PermissionKind::EnableLiveTvAccess, true),
        (PermissionKind::EnableLiveTvManagement, false),
        (PermissionKind::EnableSharedDeviceControl, true),
        (PermissionKind::EnableVideoPlaybackTranscoding, true),
        (PermissionKind::ForceRemoteSourceTranscoding, false),
        (PermissionKind::EnableRemoteControlOfOtherUsers, false),
        (PermissionKind::EnableCollectionManagement, false),
        (PermissionKind::EnableSubtitleManagement, false),
        (PermissionKind::EnableLyricManagement, false),
    ]
}

/// Every preference kind.
pub open spec fn preference_kinds() -> Seq<PreferenceKind> {
    seq![
        PreferenceKind::BlockedTags,
        PreferenceKind::BlockedChannels,
        PreferenceKind::BlockedMediaFolders,
        PreferenceKind::EnabledDevices,
        PreferenceKind::EnabledChannels,
        PreferenceKind::EnabledFolders,
        PreferenceKind::EnableContentDeletionFromFolders,
        PreferenceKind::LatestItemExcludes,
        PreferenceKind::MyMediaExcludes,
        PreferenceKind::GroupedFolders,
        PreferenceKind::BlockUnratedItems,
        PreferenceKind::OrderedViews,
        PreferenceKind::AllowedTags,
    ]
}

/// Every preference kind.
pub fn all_preference_kinds() -> (r: Vec<PreferenceKind>)
    ensures
        r@ == preference_kinds(),
{
    vec![
        PreferenceKind::BlockedTags,
        PreferenceKind::BlockedChannels,
        PreferenceKind::BlockedMediaFolders,
        PreferenceKind::EnabledDevices,
        PreferenceKind::EnabledChannels,
        PreferenceKind::EnabledFolders,
        PreferenceKind::EnableContentDeletionFromFolders,
        PreferenceKind::LatestItemExcludes,
        PreferenceKind::MyMediaExcludes,
        PreferenceKind::GroupedFolders,
        PreferenceKind::BlockUnratedItems,
        PreferenceKind::OrderedViews,
        PreferenceKind::AllowedTags,
    ]
}

/// A new user is no administrator, is not disabled, may not delete content and may
/// not control others.
pub proof fn law_new_users_are_not_powerful(i: int)
    requires
        0 <= i < default_permission_list().len(),
    ensures
        ({
            let (kind, value) = default_permission_list()[i];
            kind == PermissionKind::IsAdministrator || kind == PermissionKind::IsDisabled || kind
                == PermissionKind::EnableContentDeletion || kind
                == PermissionKind::EnableRemoteControlOfOtherUsers ==> !value
        }),
{
}

/// The statement that adds a permission.
pub open spec fn insert_permission_sql(user_id: Seq<char>, kind: PermissionKind, value: bool) -> Sql {
    let a = give(
        say(
            Seq::empty(),
            r#"INSERT INTO "Permissions" ("Kind", "RowVersion", "UserId", "Value") VALUES ("#@,
        ),
        BindView::Permission(kind),
    );
    let b = give(say(a, ", 1, "@), BindView::Text(user_id));
    say(give(say(b, ", "@), BindView::Flag(value)), ")"@)
}

/// The statement that adds an empty preference.
pub open spec fn insert_preference_sql(user_id: Seq<char>, kind: PreferenceKind) -> Sql {
    let a = give(
        say(
            Seq::empty(),
            r#"INSERT INTO "Preferences" ("Kind", "RowVersion", "UserId", "Value") VALUES ("#@,
        ),
        BindView::Preference(kind),
    );
    say(give(say(a, ", 1, "@), BindView::Text(user_id)), ", '')"@)
}

/// The statements that give a new user every permission and preference.
pub open spec fn seed_sql(user_id: Seq<char>) -> Seq<Sql> {
    Seq::new(
        default_permission_list().len(),
        |i: int|
            insert_permission_sql(
                user_id,
                default_permission_list()[i].0,
                default_permission_list()[i].1,
            ),
    ) + Seq::new(
        preference_kinds().len(),
        |i: int| insert_preference_sql(user_id, preference_kinds()[i]),
    )
}

fn insert_permission_query(user_id: &str, kind: PermissionKind, value: bool) -> (r: SqlBuilder)
    ensures
        r@ == insert_permission_sql(user_id@, kind, value),
{
    let mut qb: SqlBuilder = SqlBuilder::empty();
    qb.push(r#"INSERT INTO "Permissions" ("Kind", "RowVersion", "UserId", "Value") VALUES ("#);
    qb.push_bind(BindValue::Permission(kind));
    qb.push(", 1, ");
    qb.push_text(user_id);
    qb.push(", ");
    qb.push_bind(BindValue::Flag(value));
    qb.push(")");
    qb
}

fn insert_preference_query(user_id: &str, kind: PreferenceKind) -> (r: SqlBuilder)
    ensures
        r@ == insert_preference_sql(user_id@, kind),
{
    let mut qb: SqlBuilder = SqlBuilder::empty();
    qb.push(r#"INSERT INTO "Preferences" ("Kind", "RowVersion", "UserId", "Value") VALUES ("#);
    qb.push_bind(BindValue::Preference(kind));
    qb.push(", 1, ");
    qb.push_text(user_id);
    qb.push(", '')");
    qb
}

/// The statements that give a new user every permission and preference.
pub fn seed_defaults(user_id: &str) -> (r: Vec<SqlBuilder>)
    ensures
        sql_list(r@) == seed_sql(user_id@),
{
    let permissions: Vec<(PermissionKind, bool)> = default_permissions();
    let kinds: Vec<PreferenceKind> = all_preference_kinds();
    let mut out: Vec<SqlBuilder> = Vec::new();
    let mut i: usize = 0;
    while i < permissions.len()
        invariant
            i <= permissions.len(),
            permissions@ == default_permission_list(),
            out@.len() == i,
            forall|j: int|
                0 <= j < i ==> (#[trigger] out@[j])@ == insert_permission_sql(
                    user_id@,
                    permissions@[j].0,
                    permissions@[j].1,
                ),
        decreases permissions.len() - i,
    {
        out.push(insert_permission_query(user_id, permissions[i].0, permissions[i].1));
        i += 1;
    }
    let mut k: usize = 0;
    while k < kinds.len()
        invariant
            k <= kinds.len(),
            permissions@ == default_permission_list(),
            kinds@ == preference_kinds(),
            out@.len() == permissions@.len() + k,
            forall|j: int|
                0 <= j < permissions@.len() ==> (#[trigger] out@[j])@ == insert_permission_sql(
                    user_id@,
                    permissions@[j].0,
                    permissions@[j].1,
                ),
            forall|j: int|
                0 <= j < k ==> out@[permissions@.len() + j]@ == insert_preference_sql(
                    user_id@,
                    #[trigger] kinds@[j],
                ),
        decreases kinds.len() - k,
    {
        out.push(insert_preference_query(user_id, kinds[k]));
        k += 1;
    }
    proof {
        let want = seed_sql(user_id@);
        assert forall|j: int| 0 <= j < want.len() implies sql_list(out@)[j] == want[j] by {
            if j >= permissions@.len() {
                let m = j - permissions@.len();
                assert(out@[permissions@.len() + m]@ == insert_preference_sql(user_id@, kinds@[m]));
            }
        }
        assert(sql_list(out@) =~= want);
    }
    out
}

} // verus!
