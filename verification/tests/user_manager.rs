use hermit_core::guid::Guid;
use hermit_core::model::{PermissionKind, PreferenceKind};
use hermit_core::service_error::ServiceError;
use hermit_core::sql::{Piece, SqlBuilder};
use hermit_core::time::Timestamp;
use hermit_core::user_manager::{
    bootstrap_name, bootstrap_queries, build_user_policy, candidate_providers, cast_i32,
    check_create, check_delete, check_password, check_rename, check_username, conclude_login,
    delete_user_queries, dynamic_day_from_i32, get_authentication_providers,
    get_password_reset_providers, get_user_dto, insert_user_query, name_clash_query, new_user,
    next_internal_id, next_password_step, parse_unrated_item, password_query, profile_image_path,
    profile_image_queries, provider_id, rename_query, require_valid_username,
    subtitle_mode_from_i32, sync_play_from_i32, update_configuration_queries,
    update_policy_queries, update_user_query, user_by_name_query, user_configuration,
    valid_username, BuiltInProviders, DynamicDayOfWeek, LoginOutcome,
    ProviderAnswer, ProviderState, ScheduleRow, SubtitlePlaybackMode, SyncPlayUserAccessType,
    PasswordStep, UnratedItem, UserRow,
};

fn sql(q: &SqlBuilder) -> String {
    let mut out = String::new();
    for p in &q.pieces {
        match p {
            Piece::Sql(t) => out.push_str(t),
            Piece::Bind(v) => out.push_str(&format!("<{v:?}>")),
        }
    }
    out
}

fn at(nanos: i128) -> Timestamp {
    Timestamp { nanos }
}

fn row() -> UserRow {
    UserRow {
        id: "00000000-0000-0000-0000-00000000000a".to_owned(),
        audio_language_preference: None,
        authentication_provider_id: "auth".to_owned(),
        cast_receiver_id: Some("F007D354".to_owned()),
        display_collections_view: false,
        display_missing_episodes: false,
        enable_auto_login: false,
        enable_local_password: false,
        enable_next_episode_auto_play: true,
        enable_user_preference_access: true,
        hide_played_in_latest: false,
        internal_id: 1,
        invalid_login_attempt_count: 0,
        last_activity_date: None,
        last_login_date: None,
        login_attempts_before_lockout: None,
        max_active_sessions: 3,
        max_parental_rating_score: None,
        max_parental_rating_sub_score: None,
        must_update_password: false,
        normalized_username: "DAVE".to_owned(),
        password: None,
        password_reset_provider_id: "reset".to_owned(),
        play_default_audio_track: true,
        remember_audio_selections: true,
        remember_subtitle_selections: true,
        remote_client_bitrate_limit: None,
        subtitle_language_preference: None,
        subtitle_mode: 1,
        sync_play_access: 0,
        username: "dave".to_owned(),
    }
}

#[test]
fn valid_username_accepts_and_rejects() {
    assert!(valid_username("alice"));
    assert!(valid_username("a-b_c.d@e+f 1"));
    assert!(!valid_username(""));
    assert!(!valid_username("."));
    assert!(!valid_username(".."));
    assert!(!valid_username(" leading"));
    assert!(!valid_username("trailing "));
    assert!(!valid_username("has\ttab"));
    assert!(!valid_username("bad/slash"));
}

#[test]
fn letters_and_digits_of_other_scripts_are_names() {
    assert!(valid_username("Ångström"));
    assert!(valid_username("用户１"));
    assert!(matches!(require_valid_username(".."), Err(ServiceError::InvalidInput(_))));
    require_valid_username("bob").unwrap();
}

#[test]
fn initialize_bootstraps_one_admin() {
    assert_eq!(bootstrap_name(None), "MyJellyfinUser");
    let queries = bootstrap_queries("u");
    let text: Vec<String> = queries.iter().map(sql).collect();
    assert!(text.iter().any(|t| t.contains("Permission(IsAdministrator)") && t.contains("Flag(true)")));
    assert!(text.iter().all(|t| t.contains("Permissions")));
}

#[test]
fn get_user_dto_projects_policy_and_config() {
    let folder = Guid::from_u128(0xF00D);
    let excluded = Guid::from_u128(0xBEEF);
    let perms = [(PermissionKind::IsAdministrator, true)];
    let prefs = [
        (
            PreferenceKind::EnabledFolders,
            "00000000-0000-0000-0000-00000000f00d".to_owned(),
        ),
        (
            PreferenceKind::LatestItemExcludes,
            "00000000-0000-0000-0000-00000000beef".to_owned(),
        ),
        (PreferenceKind::BlockUnratedItems, "Movie,Nonsense,Book".to_owned()),
    ];
    let schedules = [ScheduleRow { id: 5, day_of_week: 7, start_hour: 0, end_hour: 1 }];
    let dto = get_user_dto(&row(), &perms, &prefs, &schedules, Some("srv-1".to_owned()), &None);

    assert_eq!(dto.name, "dave");
    assert_eq!(dto.id, Guid::from_u128(10));
    assert_eq!(dto.server_id.as_deref(), Some("srv-1"));
    assert!(!dto.has_password);
    assert!(dto.policy.is_administrator);
    assert!(!dto.policy.is_disabled);
    assert_eq!(dto.policy.max_active_sessions, 3);
    assert_eq!(dto.policy.enabled_folders, vec![folder]);
    assert_eq!(dto.policy.block_unrated_items, vec![UnratedItem::Movie, UnratedItem::Book]);
    assert_eq!(dto.policy.access_schedules.len(), 1);
    assert_eq!(dto.policy.access_schedules[0].user_id, Guid::from_u128(10));
    assert_eq!(dto.policy.access_schedules[0].day_of_week, DynamicDayOfWeek::Everyday);
    assert!(!dto.configuration.hide_played_in_latest);
    assert_eq!(dto.configuration.latest_items_excludes, vec![excluded]);
    assert_eq!(dto.configuration.subtitle_mode, SubtitlePlaybackMode::Always);

    let dto = get_user_dto(&row(), &[], &[], &[], None, &Some("own".to_owned()));
    assert_eq!(dto.server_id.as_deref(), Some("own"));
    assert!(!dto.policy.is_administrator);
}

#[test]
fn create_rename_and_duplicate_guard() {
    check_create("alice", false).unwrap();
    assert!(matches!(check_create("ALICE", true), Err(ServiceError::InvalidInput(_))));
    assert!(matches!(check_create("..", false), Err(ServiceError::InvalidInput(_))));

    let id = Guid::from_u128(1);
    check_rename("alice", "bob", false, true, id).unwrap();
    assert!(matches!(
        check_rename("bob", "..", false, true, id),
        Err(ServiceError::InvalidInput(_))
    ));
    assert!(matches!(
        check_rename("bob", "bob", false, true, id),
        Err(ServiceError::InvalidInput(m)) if m == "The new and old names must be different."
    ));
    assert!(matches!(
        check_rename("bob", "carl", true, true, id),
        Err(ServiceError::InvalidInput(_))
    ));
    assert!(matches!(
        check_rename("bob", "carl", false, false, id),
        Err(ServiceError::NotFound(m)) if m == "user 00000000-0000-0000-0000-000000000001"
    ));

    let text = sql(&insert_user_query(id, "auth", 7, "alice"));
    assert!(text.contains("<Text(\"alice\")>"));
    assert!(text.contains("<Text(\"ALICE\")>"));
    assert!(text.contains("<Text(\"auth\")>"));
    assert!(text.contains("F007D354"));
    assert!(text.contains("<Int(7)>"));
    let (made, query) = new_user("auth", 7, "alice");
    assert!(!made.is_nil());
    assert_eq!(query.pieces.len(), insert_user_query(made, "auth", 7, "alice").pieces.len());
}

#[test]
fn names_are_compared_in_upper_case() {
    assert!(sql(&user_by_name_query("straße")).contains("<Text(\"STRASSE\")>"));
    assert_eq!(sql(&user_by_name_query("Erin")), sql(&user_by_name_query("eRIN")));
    assert!(sql(&name_clash_query("bob", Guid::from_u128(1))).contains("<Text(\"BOB\")>"));
    let text = sql(&rename_query(Guid::from_u128(1), "bob"));
    assert!(text.contains("<Text(\"bob\")>"));
    assert!(text.contains("<Text(\"BOB\")>"));
}

#[test]
fn internal_ids_count_up() {
    assert_eq!(next_internal_id(None), 1);
    assert_eq!(next_internal_id(Some(41)), 42);
}

fn login(count: i64, limit: Option<i64>) -> UserRow {
    UserRow {
        id: "u".to_owned(),
        username: "dan".to_owned(),
        invalid_login_attempt_count: count,
        login_attempts_before_lockout: limit,
        ..row()
    }
}

#[test]
fn change_password_then_authenticate() {
    assert_eq!(
        sql(&password_query(Guid::from_u128(1), "hash")),
        "UPDATE \"Users\" SET \"Password\" = <Text(\"hash\")>, \"RowVersion\" = \"RowVersion\" + 1 \
         WHERE \"Id\" = <Text(\"00000000-0000-0000-0000-000000000001\")>"
    );
    let user = login(0, None);
    match conclude_login(Some(user.clone()), true, false, true, true, at(5)).unwrap() {
        LoginOutcome::SignedIn { user: after, update } => {
            assert_eq!(after.id, user.id);
            assert_eq!(after.invalid_login_attempt_count, 0);
            assert_eq!(after.last_login_date, Some(at(5)));
            assert_eq!(after.last_activity_date, Some(at(5)));
            assert!(sql(&update).contains("\"LastLoginDate\" = <Time(Timestamp { nanos: 5 })>"));
        }
        other => panic!("{other:?}"),
    }
    // Without a session no time is noted.
    let late = login(3, None);
    match conclude_login(Some(late.clone()), true, false, true, false, at(5)).unwrap() {
        LoginOutcome::SignedIn { user: after, .. } => {
            assert_eq!(after.invalid_login_attempt_count, 0);
            assert_eq!(after.last_login_date, late.last_login_date);
        }
        other => panic!("{other:?}"),
    }
    // Wrong password: not an error, but counted.
    match conclude_login(Some(user.clone()), false, false, true, true, at(5)).unwrap() {
        LoginOutcome::Counted { disable, attempts, .. } => {
            assert!(!disable);
            assert_eq!(attempts, 1);
        }
        other => panic!("{other:?}"),
    }
    // Unknown user: unauthorized.
    assert!(matches!(
        conclude_login(None, false, false, true, true, at(5)),
        Err(ServiceError::Unauthorized(m)) if m == "Invalid username or password entered."
    ));
}

#[test]
fn admin_password_may_not_be_emptied() {
    assert!(matches!(check_password("   ", true), Err(ServiceError::InvalidInput(_))));
    check_password("   ", false).unwrap();
    check_password("pw", true).unwrap();
    assert!(matches!(check_username(" "), Err(ServiceError::InvalidInput(_))));
    check_username("dan").unwrap();
}

#[test]
fn lockout_disables_after_threshold() {
    // Lockout after 2 failures.
    let user = login(0, Some(2));
    let (disable, attempts) =
        match conclude_login(Some(user.clone()), false, false, true, true, at(1)).unwrap() {
            LoginOutcome::Counted { disable, attempts, .. } => (disable, attempts),
            other => panic!("{other:?}"),
        };
    assert!(!disable);
    let user = login(attempts, Some(2));
    match conclude_login(Some(user.clone()), false, false, true, true, at(1)).unwrap() {
        LoginOutcome::Counted { disable, attempts, .. } => {
            assert!(disable);
            assert_eq!(attempts, 2);
        }
        other => panic!("{other:?}"),
    }
    // Now even the correct password is refused (disabled).
    assert!(matches!(
        conclude_login(Some(user.clone()), true, true, true, true, at(1)),
        Err(ServiceError::Unauthorized(m)) if m == "The dan account is currently disabled. Please consult with your administrator."
    ));
    // So is a time outside the schedules.
    assert!(matches!(
        conclude_login(Some(user.clone()), true, false, false, true, at(1)),
        Err(ServiceError::Unauthorized(m)) if m == "User is not allowed access at this time."
    ));
}

#[test]
fn delete_guards_last_user_and_last_admin() {
    // Only user: cannot delete.
    assert!(matches!(check_delete("a", 1, true, 1), Err(ServiceError::InvalidInput(_))));
    // A second (non-admin) user: still cannot delete the only admin.
    assert!(matches!(check_delete("a", 2, true, 1), Err(ServiceError::InvalidInput(_))));
    // But the non-admin can be deleted.
    check_delete("erin", 2, false, 1).unwrap();
    let queries = delete_user_queries(Guid::from_u128(1));
    assert_eq!(queries.len(), 5);
    assert!(sql(&queries[4]).starts_with("DELETE FROM \"Users\" WHERE \"Id\" = "));
}

fn built_in() -> BuiltInProviders {
    BuiltInProviders { default_id: "default-id".to_owned(), invalid_id: "invalid-id".to_owned() }
}

#[test]
fn providers_list_has_default_first() {
    let providers = [
        ProviderState { name: "LDAP".to_owned(), is_enabled: true },
        ProviderState { name: "Default".to_owned(), is_enabled: true },
    ];
    let listed = get_authentication_providers(&providers, &built_in());
    assert_eq!(listed.len(), 2);
    assert_eq!(listed[0].id, "default-id");
    assert_eq!(provider_id("Default", &built_in()), "default-id");
    assert_eq!(get_password_reset_providers().len(), 1);
}

#[test]
fn only_enabled_providers_are_asked() {
    let providers = [
        ProviderState { name: "Default".to_owned(), is_enabled: true },
        ProviderState { name: "LDAP".to_owned(), is_enabled: false },
    ];
    assert_eq!(candidate_providers(&providers, None, &built_in()), vec![0]);
    assert_eq!(candidate_providers(&providers, Some("default-id"), &built_in()), vec![0]);
    let step = next_password_step;
    assert!(matches!(step(&[4, 2], 0, None), PasswordStep::Ask(Some(4))));
    assert!(matches!(
        step(&[4, 2], 1, Some(ProviderAnswer::Refused)),
        PasswordStep::Ask(Some(2))
    ));
    assert!(matches!(step(&[4, 2], 2, Some(ProviderAnswer::Refused)), PasswordStep::Refused));
    assert!(matches!(step(&[4, 2], 1, Some(ProviderAnswer::Accepted)), PasswordStep::Accepted));
    assert!(matches!(step(&[], 0, None), PasswordStep::Ask(None)));
    assert!(matches!(step(&[], 1, Some(ProviderAnswer::Refused)), PasswordStep::Refused));
    assert!(matches!(
        step(&[4], 1, Some(ProviderAnswer::Failed(ServiceError::Backend("x".to_owned())))),
        PasswordStep::Failed(ServiceError::Backend(m)) if m == "x"
    ));
}

#[test]
fn stored_numbers_are_read() {
    assert_eq!(cast_i32(7), 7);
    // A number out of range becomes the nearer end.
    assert_eq!(cast_i32(i64::MAX), i32::MAX);
    assert_eq!(cast_i32(i64::MIN), i32::MIN);
    assert_eq!(cast_i32(2_147_483_648), i32::MAX);
    assert_eq!(cast_i32(-2_147_483_649), i32::MIN);
    assert_eq!(subtitle_mode_from_i32(1), SubtitlePlaybackMode::Always);
    assert_eq!(subtitle_mode_from_i32(99), SubtitlePlaybackMode::Default);
    assert_eq!(sync_play_from_i32(1), SyncPlayUserAccessType::JoinGroups);
    assert_eq!(dynamic_day_from_i32(0), DynamicDayOfWeek::Sunday);
    assert_eq!(parse_unrated_item("Movie"), Some(UnratedItem::Movie));
    assert_eq!(parse_unrated_item("movie"), None);
}

#[test]
fn rows_settings_and_policies_are_stored() {
    let text = sql(&update_user_query(&row(), true).unwrap());
    assert!(text.starts_with("UPDATE \"Users\" SET \"AudioLanguagePreference\" = <OptionalText(None)>"));
    assert!(text.contains("\"MaxActiveSessions\" = <Int(3)>"));
    assert!(matches!(update_user_query(&row(), false), Err(ServiceError::NotFound(_))));

    let id = Guid::from_u128(10);
    let config = user_configuration(&row(), &[]);
    let queries = update_configuration_queries(id, true, &config).unwrap();
    assert!(sql(&queries[0]).starts_with("UPDATE \"Users\" SET \"AudioLanguagePreference\""));
    assert!(matches!(
        update_configuration_queries(id, false, &config),
        Err(ServiceError::NotFound(_))
    ));

    let policy = build_user_policy(&row(), &[], &[], Vec::new());
    let queries = update_policy_queries(id, true, &policy).unwrap();
    assert!(sql(&queries[0]).starts_with("UPDATE \"Users\" SET "));
    assert!(update_policy_queries(id, false, &policy).is_err());
}

#[test]
fn profile_images_have_a_place() {
    let path = profile_image_path(&Some("/img".to_owned()), "u", "png").unwrap();
    assert!(path.starts_with("/img/u"));
    assert!(path.ends_with("png"));
    assert!(profile_image_path(&None, "u", "png").is_err());
    let queries = profile_image_queries("u", "/img/u/profile.png", at(3));
    assert!(queries.iter().any(|q| sql(q).contains("/img/u/profile.png")));
}
