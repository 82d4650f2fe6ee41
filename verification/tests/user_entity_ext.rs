use hermit_core::guid::Guid;
use hermit_core::model::{DayOfWeek, PermissionKind, PreferenceKind};
use hermit_core::sql::{Piece, SqlBuilder};
use hermit_core::user_entity_ext::{
    all_preference_kinds, day_matches, default_permissions, has_permission,
    is_parental_schedule_allowed, join_guid_preference, join_preference, permission_query,
    preference_contains, preference_query, seed_defaults, set_guid_preference_queries,
    set_permission_queries, set_preference_queries, split_guid_preference, split_preference,
    ScheduleHours,
};

fn sql(q: &SqlBuilder) -> String {
    let mut out = String::new();
    for p in &q.pieces {
        match p {
            Piece::Sql(t) => out.push_str(t),
            Piece::Bind(v) => out.push_str(&format!("<{v:?}>")),
        }
    }
    out
}

#[test]
fn default_permissions_read_back() {
    let defaults = default_permissions();
    assert!(defaults.contains(&(PermissionKind::EnableAllDevices, true)));
    assert!(defaults.contains(&(PermissionKind::IsAdministrator, false)));
    // Every default is stored.
    let queries = seed_defaults("u");
    assert!(queries.len() >= defaults.len() + all_preference_kinds().len());
}

#[test]
fn set_permission_inserts_then_updates() {
    let queries = set_permission_queries("u", PermissionKind::IsAdministrator, true);
    assert_eq!(queries.len(), 2);
    assert!(sql(&queries[0]).starts_with("UPDATE \"Permissions\" SET \"Value\" = <Flag(true)>"));
    assert!(sql(&queries[1]).starts_with("INSERT INTO \"Permissions\""));
    assert!(sql(&queries[1]).contains("Permission(IsAdministrator)"));
    assert!(sql(&permission_query("u", PermissionKind::IsHidden)).contains("Permission(IsHidden)"));
}

#[test]
fn missing_permission_is_false() {
    assert!(!has_permission(None));
    assert!(!has_permission(Some(false)));
    assert!(has_permission(Some(true)));
}

#[test]
fn no_schedules_is_always_allowed() {
    assert!(is_parental_schedule_allowed(&[], DayOfWeek::Monday));
}

#[test]
fn a_schedule_allows_its_days_and_hours() {
    let weekdays = |within| [ScheduleHours { day: 8, within_hours: within }];
    assert!(is_parental_schedule_allowed(&weekdays(true), DayOfWeek::Monday));
    assert!(!is_parental_schedule_allowed(&weekdays(false), DayOfWeek::Monday));
    assert!(!is_parental_schedule_allowed(&weekdays(true), DayOfWeek::Sunday));
    assert!(day_matches(0, DayOfWeek::Sunday));
    assert!(day_matches(7, DayOfWeek::Wednesday));
    assert!(day_matches(9, DayOfWeek::Saturday));
    assert!(!day_matches(9, DayOfWeek::Friday));
    assert!(!day_matches(10, DayOfWeek::Friday));
}

#[test]
fn preferences_round_trip() {
    let values = vec!["a".to_owned(), "b c".to_owned()];
    assert_eq!(join_preference(&values), "a,b c");
    assert_eq!(split_preference(Some("a,b c")), values);
    assert!(split_preference(Some("")).is_empty());
    assert!(split_preference(None).is_empty());
    let ids = vec![Guid::from_u128(1), Guid::from_u128(2)];
    assert_eq!(split_guid_preference(Some(&join_guid_preference(&ids))), ids);
    assert_eq!(split_guid_preference(Some("nonsense")), Vec::new());
    assert!(preference_contains(Some("a,B"), "b"));
    assert!(!preference_contains(Some("ab"), "b"));
}

#[test]
fn preferences_are_stored() {
    assert!(sql(&preference_query("u", PreferenceKind::BlockedTags)).contains("Preference(BlockedTags)"));
    let queries =
        set_preference_queries("u", PreferenceKind::BlockedTags, &["x".to_owned(), "y".to_owned()]);
    assert!(sql(&queries[0]).contains("<Text(\"x,y\")>"));
    let queries =
        set_guid_preference_queries("u", PreferenceKind::OrderedViews, &[Guid::from_u128(1)]);
    assert!(sql(&queries[0]).contains("00000000-0000-0000-0000-000000000001"));
}
