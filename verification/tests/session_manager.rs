use hermit_core::guid::Guid;
use hermit_core::service_error::ServiceError;
use hermit_core::session_manager::{
    authentication_contact, caller_access, check_logout,
    device_by_access_token_query, device_user, device_with_token, devices_to_revoke,
    message_arguments, message_text, mint_device, next_lookup, playback_event_payload, require,
    session_info_to_dto, session_key, session_user_ids, to_dto, token_contact, users_for, Access,
    Audience, AuthenticationRequest, ClientCapabilities, Contact, Liveness, LookupStage, MessageCommand,
    PlaybackInfo, PlaybackPhase, PlayerStateInfo, SessionQuery, HermitSessionManager, SessionUser, UserLookup,
};
use hermit_core::sql::Piece;
use hermit_core::time::Timestamp;

const ALICE: &str = "00000000-0000-0000-0000-00000000000a";
const BOB: &str = "00000000-0000-0000-0000-00000000000b";

fn at(seconds: i128) -> Timestamp {
    Timestamp { nanos: seconds * 1_000_000_000 }
}

fn contact(app: &str, version: &str, device: &str, name: &str) -> Contact {
    Contact {
        app_name: app.to_owned(),
        app_version: version.to_owned(),
        device_id: device.to_owned(),
        device_name: name.to_owned(),
        remote_endpoint: "1.2.3.4".to_owned(),
    }
}

fn user(id: &str, name: &str) -> SessionUser {
    SessionUser { id: id.to_owned(), username: name.to_owned(), max_active_sessions: 0 }
}

fn nobody() -> Liveness {
    Liveness { open: Vec::new(), on_bus: None }
}

fn all() -> Access {
    Access { can_control_others: true, is_admin: true }
}

fn everything(user_id: u128) -> SessionQuery {
    SessionQuery {
        user_id: Guid::from_u128(user_id),
        device_id: None,
        active_within_seconds: None,
        only_controllable: false,
    }
}

fn table_with(app: &str, device: &str, session: &str, who: &SessionUser) -> HermitSessionManager {
    let mut t = HermitSessionManager::new("server-1".to_owned());
    t.upsert_session(&contact(app, "1.0", device, "TV"), session, Some(who), &None, at(1)).unwrap();
    t
}

#[test]
fn log_session_activity_creates_and_reuses_a_session() {
    let mut t = HermitSessionManager::new("server-1".to_owned());
    let alice = user(ALICE, "alice");
    let (first, created) = t
        .upsert_session(&contact("Web", "1.0", "dev-1", "Chrome"), "s1", Some(&alice), &None, at(1))
        .unwrap();
    assert!(created);
    assert_eq!(first.client.as_deref(), Some("Web"));
    assert_eq!(first.device_name.as_deref(), Some("Chrome"));
    assert_eq!(first.device_id, "dev-1");
    assert_eq!(first.server_id.as_deref(), Some("server-1"));
    assert_eq!(first.user_id, Guid::from_u128(10));

    // Same app+device → same session id (reused, not duplicated).
    let (again, created) = t
        .upsert_session(&contact("Web", "1.1", "dev-1", "Chrome"), "s2", Some(&alice), &None, at(2))
        .unwrap();
    assert!(!created);
    assert_eq!(first.id, again.id);
    assert_eq!(again.application_version.as_deref(), Some("1.1"));
    assert_eq!(t.sessions.len(), 1);
    assert_ne!(session_key("Web", "dev-1"), session_key("Web", "dev-2"));
}

#[test]
fn empty_device_name_falls_back_to_network_device() {
    let mut t = HermitSessionManager::new("server-1".to_owned());
    let (s, _) = t
        .upsert_session(&contact("Web", "1.0", "dev-x", ""), "s", Some(&user(BOB, "bob")), &None, at(1))
        .unwrap();
    assert_eq!(s.device_name.as_deref(), Some("Network Device"));
}

#[test]
fn additional_users_add_and_remove() {
    let mut t = table_with("Web", "dev-1", "s", &user(ALICE, "primary"));
    let guest = Guid::from_u128(11);
    t.add_additional_user("s", guest, Some("guest".to_owned())).unwrap();
    assert_eq!(t.get_session_snapshot("s").unwrap().additional_users.len(), 1);
    assert!(t.get_session_snapshot("s").unwrap().contains_user(guest));
    assert_eq!(
        session_user_ids(&t.get_session_snapshot("s").unwrap()),
        vec![Guid::from_u128(10), guest]
    );
    t.remove_additional_user("s", guest).unwrap();
    assert!(t.get_session_snapshot("s").unwrap().additional_users.is_empty());
    assert!(!t.get_session_snapshot("s").unwrap().contains_user(guest));
}

#[test]
fn adding_the_primary_user_as_additional_is_rejected() {
    let mut t = table_with("Web", "dev-1", "s", &user(ALICE, "primary"));
    assert!(matches!(
        t.add_additional_user("s", Guid::from_u128(10), None),
        Err(ServiceError::InvalidInput(_))
    ));
}

#[test]
fn report_capabilities_updates_session_and_persists() {
    let mut t = table_with("Web", "dev-1", "s", &user(ALICE, "alice"));
    let caps = ClientCapabilities { supports_media_control: true, ..ClientCapabilities::default() };
    assert_eq!(t.report_capabilities("s", &caps).unwrap(), "dev-1");
    assert!(t.get_session_snapshot("s").unwrap().capabilities.supports_media_control);
}

#[test]
fn bus_connected_session_is_controllable_and_receives_play() {
    let mut t = table_with("TV App", "dev-tv", "s", &user(ALICE, "alice"));
    let caps = ClientCapabilities { supports_media_control: true, ..ClientCapabilities::default() };
    t.report_capabilities("s", &caps).unwrap();
    let mut query = everything(10);
    query.only_controllable = true;

    // Not yet connected → not remote-controllable, not listed as castable.
    let off = Liveness { open: Vec::new(), on_bus: Some(Vec::new()) };
    assert!(t.get_sessions(&query, all(), &off, at(2)).is_empty());

    let on = Liveness { open: Vec::new(), on_bus: Some(vec!["s".to_owned()]) };
    let listed = t.get_sessions(&query, all(), &on, at(2));
    assert_eq!(listed.len(), 1);
    assert!(listed[0].supports_remote_control);
    assert!(listed[0].is_active);

    // A command reaches the session over the bus.
    let pushes = t.send_to_controllable("", "s", &on).unwrap();
    assert_eq!(pushes.len(), 1);
    assert!(pushes[0].over_bus);
    let envelope: serde_json::Value =
        serde_json::from_str(&message_text("Play", r#"{"PlayCommand": "PlayNow"}"#)).unwrap();
    assert_eq!(envelope["MessageType"], "Play");
    assert_eq!(envelope["Data"]["PlayCommand"], "PlayNow");
}

#[test]
fn a_session_shows_its_own_sockets_only() {
    let mut t = table_with("TV App", "dev-tv", "s", &user(ALICE, "alice"));
    let caps = ClientCapabilities { supports_media_control: true, ..ClientCapabilities::default() };
    t.report_capabilities("s", &caps).unwrap();
    let session = t.get_session_snapshot("s").unwrap();
    let on_bus = Liveness { open: Vec::new(), on_bus: Some(vec!["s".to_owned()]) };

    let seen = to_dto(&session, &on_bus, true);
    assert!(seen.is_active && seen.supports_remote_control);
    let own = session_info_to_dto(&session, &on_bus);
    assert!(!own.is_active && !own.supports_remote_control);
    assert_eq!(own.id, seen.id);

    // Without any socket a session counts as active, but cannot be controlled.
    assert!(to_dto(&session, &nobody(), true).is_active);
    assert!(!to_dto(&session, &nobody(), true).supports_remote_control);

    t.add_web_socket("s", 7).unwrap();
    let session = t.get_session_snapshot("s").unwrap();
    let open = Liveness { open: vec![7], on_bus: None };
    let own = session_info_to_dto(&session, &open);
    assert!(own.is_active && own.supports_remote_control);
    assert!(!to_dto(&session, &nobody(), true).is_active);
}

#[test]
fn report_now_viewing_rejects_bad_id() {
    let mut t = table_with("Web", "dev-1", "s", &user(ALICE, "alice"));
    assert!(matches!(
        t.report_now_viewing_item("s", "not-a-uuid"),
        Err(ServiceError::InvalidInput(_))
    ));
    t.report_now_viewing_item("s", BOB).unwrap();
    assert_eq!(
        t.get_session_snapshot("s").unwrap().now_viewing_item_id,
        Some(Guid::from_u128(11))
    );
}

fn request() -> AuthenticationRequest {
    AuthenticationRequest {
        user_id: None,
        username: None,
        password: None,
        app: Some("Web".to_owned()),
        app_version: Some("1.0".to_owned()),
        device_id: Some("dev-1".to_owned()),
        device_name: Some("Chrome".to_owned()),
        remote_endpoint: Some("1.2.3.4".to_owned()),
    }
}

#[test]
fn authenticate_direct_opens_a_session_and_mints_a_token() {
    let c = authentication_contact(&request()).unwrap();
    assert_eq!(c.app_name, "Web");
    assert_eq!(c.device_id, "dev-1");
    let alice = user(ALICE, "alice");
    let device = device_with_token(&c, &alice, Guid::from_u128(0xABC), at(7));
    assert_eq!(device.access_token, "00000000000000000000000000000abc");
    assert_eq!(device.device_id, "dev-1");
    assert_eq!(device.date_created, at(7));
    assert_eq!(device_user(&device), Some(Guid::from_u128(10)));
    let minted = mint_device(&c, &alice, at(7));
    assert_eq!(minted.access_token.len(), 32);
    assert_ne!(minted.access_token, mint_device(&c, &alice, at(7)).access_token);

    // The token resolves back to a session.
    let again = token_contact(Some(&device), "dev-1", "1.2.3.4").unwrap();
    assert_eq!(again.app_name, "Web");
    assert_eq!(again.device_id, "dev-1");
}

#[test]
fn authenticate_new_session_enforces_password_and_returns_the_token() {
    let mut r = request();
    r.username = Some("bob".to_owned());
    r.password = Some(String::new());
    let first = next_lookup(&r, true, LookupStage::Begun, false);
    assert!(matches!(&first, UserLookup::ByName(n) if n == "bob"), "{first:?}");
    // The password is checked even though the name was found.
    let second = next_lookup(&r, true, LookupStage::AskedByName, true);
    assert!(
        matches!(&second, UserLookup::ByPassword { username, password, .. } if username == "bob" && password.is_empty()),
        "{second:?}"
    );
    assert!(matches!(
        next_lookup(&r, true, LookupStage::CheckedPassword, true),
        UserLookup::Finished
    ));
    assert!(matches!(
        next_lookup(&r, false, LookupStage::AskedByName, true),
        UserLookup::Finished
    ));
}

#[test]
fn authenticate_requires_the_mandatory_fields() {
    for missing in 0..4 {
        let mut r = request();
        match missing {
            0 => r.app = None,
            1 => r.app_version = None,
            2 => r.device_id = None,
            _ => r.device_name = Some(String::new()),
        }
        assert!(matches!(authentication_contact(&r), Err(ServiceError::InvalidInput(_))));
    }
    assert!(matches!(require(&None, "x"), Err(ServiceError::InvalidInput(_))));
    assert_eq!(require(&Some("y".to_owned()), "x").unwrap(), "y");
}

#[test]
fn logout_by_token_ends_the_session() {
    check_logout("token").unwrap();
    assert!(check_logout("").is_err());
    assert!(matches!(token_contact(None, "dev-1", "e"), Err(ServiceError::Unauthorized(_))));
    let query = device_by_access_token_query("tok");
    assert!(query.pieces.iter().any(|p| matches!(p, Piece::Bind(v) if format!("{v:?}").contains("tok"))));

    let mut t = table_with("Web", "dev-1", "s", &user(ALICE, "alice"));
    assert_eq!(t.sessions_on_device("dev-1"), vec!["s"]);
    assert!(t.report_session_ended("s").is_some());
    assert!(t.sessions_on_device("dev-1").is_empty());
    assert_eq!(
        devices_to_revoke(&["a".to_owned(), "b".to_owned(), "c".to_owned()], "b"),
        vec![0, 2]
    );
}

#[test]
fn get_sessions_non_admin_sees_only_own() {
    let mut t = table_with("Web", "a", "s1", &user(ALICE, "alice"));
    t.upsert_session(&contact("Web", "1.0", "b", "B"), "s2", Some(&user(BOB, "bob")), &None, at(2))
        .unwrap();
    // Alice (non-admin) sees only her own session.
    let access = caller_access(
        false,
        Guid::from_u128(10),
        Some(Access { can_control_others: false, is_admin: false }),
    )
    .unwrap();
    let sessions = t.get_sessions(&everything(10), access, &nobody(), at(3));
    assert_eq!(sessions.len(), 1);
    assert_eq!(sessions[0].user_id, Guid::from_u128(10));
}

#[test]
fn get_sessions_admin_sees_all() {
    let mut t = table_with("Web", "a", "s1", &user(ALICE, "alice"));
    t.upsert_session(&contact("Web", "1.0", "b", "B"), "s2", Some(&user(BOB, "bob")), &None, at(2))
        .unwrap();
    let sessions = t.get_sessions(&everything(10), all(), &nobody(), at(3));
    assert_eq!(sessions.len(), 2);
    // The most recent comes first.
    assert_eq!(sessions[0].id, "s2");
    // One device only.
    let mut query = everything(10);
    query.device_id = Some("a".to_owned());
    assert_eq!(t.get_sessions(&query, all(), &nobody(), at(3)).len(), 1);
    // Only the recent ones.
    let mut query = everything(10);
    query.active_within_seconds = Some(60);
    assert_eq!(t.get_sessions(&query, all(), &nobody(), at(61)).len(), 2);
    assert_eq!(t.get_sessions(&query, all(), &nobody(), at(1000)).len(), 0);
}

#[test]
fn broadcast_pushes_to_attached_connections() {
    let mut t = table_with("Web", "dev-1", "s", &user(ALICE, "alice"));
    t.add_web_socket("s", 7).unwrap();
    let live = Liveness { open: vec![7], on_bus: None };
    let pushes = t.broadcast(&Audience::Users(vec![Guid::from_u128(10)]), &live);
    assert_eq!(pushes.len(), 1);
    assert_eq!(pushes[0].connections, vec![7]);
    assert!(t.broadcast(&Audience::Users(vec![Guid::from_u128(11)]), &live).is_empty());
    let frame: serde_json::Value =
        serde_json::from_str(&message_text("RestartRequired", "")).unwrap();
    assert_eq!(frame["MessageType"], "RestartRequired");
    assert!(t.add_web_socket("nope", 1).is_err());
}

#[test]
fn send_message_command_requires_remote_control_support() {
    let t = table_with("Web", "dev-1", "s", &user(ALICE, "alice"));
    assert!(matches!(
        t.send_to_controllable("", "s", &nobody()),
        Err(ServiceError::InvalidInput(_))
    ));
    assert!(matches!(
        t.send_to_controllable("", "nope", &nobody()),
        Err(ServiceError::NotFound(_))
    ));
    let arguments = message_arguments(&MessageCommand {
        header: None,
        text: "hi".to_owned(),
        timeout_ms: Some(5),
    });
    assert!(arguments.contains(&("Text".to_owned(), "hi".to_owned())));
    assert!(arguments.contains(&("TimeoutMs".to_owned(), "5".to_owned())));
}

#[test]
fn report_session_ended_removes_the_session() {
    let mut t = table_with("Web", "dev-1", "s", &user(ALICE, "alice"));
    let gone = t.report_session_ended("s").unwrap();
    assert_eq!(gone.id, "s");
    assert!(t.get_sessions(&everything(0), all(), &nobody(), at(9)).is_empty());
    assert!(matches!(t.get_session_snapshot("s"), Err(ServiceError::NotFound(_))));
    assert!(t.report_session_ended("s").is_none());
}

#[test]
fn playback_moves_the_session() {
    let mut t = table_with("Web", "dev-1", "s", &user(ALICE, "alice"));
    let info = PlaybackInfo {
        session_id: Some("s".to_owned()),
        item_id: Guid::from_u128(5),
        position_ticks: Some(7),
        is_paused: false,
        failed: false,
    };
    let event = t.on_playback(PlaybackPhase::Started, &info, at(4)).unwrap();
    assert_eq!(
        event.payload,
        playback_event_payload(&event.session, Guid::from_u128(5), Some(7))
    );
    assert!(!event.store_position);
    let now = t.get_session_snapshot("s").unwrap();
    assert!(now.is_playing);
    assert_eq!(now.now_playing_item_id, Some(Guid::from_u128(5)));
    assert_eq!(now.last_playback_check_in, at(4));
    let event = t.on_playback(PlaybackPhase::Stopped, &info, at(5)).unwrap();
    assert!(event.store_position);
    let now = t.get_session_snapshot("s").unwrap();
    assert!(!now.is_playing);
    assert_eq!(now.now_playing_item_id, None);
    let mut bad = info;
    bad.session_id = None;
    assert!(t.on_playback(PlaybackPhase::Progressed, &bad, at(6)).is_err());
}

#[test]
fn too_many_sessions_are_refused() {
    let t = table_with("Web", "dev-1", "s", &user(ALICE, "alice"));
    let mut alice = user(ALICE, "alice");
    assert_eq!(t.user_session_count(Guid::from_u128(10)), 1);
    t.check_admission(&alice, true).unwrap();
    assert!(t.check_admission(&alice, false).is_err());
    alice.max_active_sessions = 1;
    assert!(t.check_admission(&alice, true).is_err());
    alice.max_active_sessions = 2;
    t.check_admission(&alice, true).unwrap();
}

#[test]
fn every_user_must_be_found() {
    assert_eq!(users_for(vec![Some(1), Some(2)]).unwrap(), vec![1, 2]);
    assert!(users_for::<u8>(vec![None]).is_err());
}

#[test]
fn a_play_state_and_queues_are_always_shown() {
    let t = table_with("Web", "dev-1", "s1", &user(ALICE, "alice"));
    let session = t.get_session_snapshot("s1").unwrap();
    for dto in [to_dto(&session, &nobody(), false), session_info_to_dto(&session, &nobody())] {
        let idle =
            PlayerStateInfo { position_ticks: None, can_seek: false, is_paused: false, is_muted: false };
        assert_eq!(dto.play_state, idle);
        assert!(dto.now_playing_queue.is_empty());
        assert!(dto.now_playing_queue_full_items.is_empty());
    }
}

#[test]
fn control_of_others_shows_their_sessions_only_where_asked_for() {
    let t = table_with("Web", "dev-1", "s1", &user(ALICE, "alice"));
    let controller = Access { can_control_others: true, is_admin: false };
    assert!(t.get_sessions(&everything(11), controller, &nobody(), at(2)).is_empty());
    assert_eq!(t.get_sessions(&everything(10), controller, &nobody(), at(2)).len(), 1);
}

#[test]
fn the_second_contact_is_what_the_session_tells() {
    let mut t = table_with("Web", "dev-1", "s", &user(ALICE, "alice"));
    let mut second = contact("Web", "2.0", "dev-1", "Desk");
    second.remote_endpoint = "10.0.0.9".to_owned();
    let (again, created) =
        t.upsert_session(&second, "other", Some(&user(BOB, "bob")), &None, at(9)).unwrap();
    assert!(!created);
    assert_eq!(again.id, "s");
    assert_eq!(again.device_name.as_deref(), Some("Desk"));
    assert_eq!(again.client.as_deref(), Some("Web"));
    assert_eq!(again.application_version.as_deref(), Some("2.0"));
    assert_eq!(again.remote_end_point.as_deref(), Some("10.0.0.9"));
    assert_eq!(again.user_name.as_deref(), Some("bob"));
    assert_eq!(again.last_activity_date, at(9));
}
