use hermit_core::guid::Guid;
use hermit_core::service_error::ServiceError;
use hermit_core::session_manager::{
    device_user, token_contact, AuthenticationRequest, Contact, HermitSessionManager, SessionUser,
    UserLookup,
};
use hermit_core::sign_in::{SignIn, SignInAction, SignInEvent, SignInStage};
use hermit_core::time::Timestamp;

const BOB: &str = "00000000-0000-0000-0000-00000000000b";

fn at(n: i128) -> Timestamp {
    Timestamp { nanos: n }
}

fn bob(max_active_sessions: i64) -> SessionUser {
    SessionUser { id: BOB.to_owned(), username: "bob".to_owned(), max_active_sessions }
}

fn request() -> AuthenticationRequest {
    AuthenticationRequest {
        user_id: None,
        username: Some("bob".to_owned()),
        password: Some("secret".to_owned()),
        app: Some("Web".to_owned()),
        app_version: Some("10".to_owned()),
        device_id: Some("dev-1".to_owned()),
        device_name: Some("Phone".to_owned()),
        remote_endpoint: None,
    }
}

fn no_sessions() -> HermitSessionManager {
    HermitSessionManager::new("server".to_owned())
}

fn one_session() -> HermitSessionManager {
    let mut t = no_sessions();
    let contact = Contact {
        app_name: "Web".to_owned(),
        app_version: "10".to_owned(),
        device_id: "dev-0".to_owned(),
        device_name: "Desk".to_owned(),
        remote_endpoint: String::new(),
    };
    t.upsert_session(&contact, "s", Some(&bob(0)), &None, at(1)).unwrap();
    t
}

/// Answers the questions for the user until the device is asked for.
fn searched(sign_in: &mut SignIn, t: &HermitSessionManager, user: &SessionUser) -> usize {
    let mut asked = 0;
    let mut action = sign_in.step(SignInEvent::Begin, t, at(2));
    while let SignInAction::Ask(_) = action {
        asked += 1;
        action = sign_in.step(SignInEvent::Answer(Some(user.clone())), t, at(2));
    }
    assert!(matches!(action, SignInAction::AskForDevice { user_id, device_id }
        if user_id == Guid::from_u128(0xb) && device_id == "dev-1"));
    asked
}

#[test]
fn a_client_signs_in() {
    let t = no_sessions();
    let mut s = SignIn::new(request(), true).unwrap();
    assert!(s.token.is_none());
    assert_eq!(searched(&mut s, &t, &bob(0)), 2);
    assert!(s.checked);
    let action = s.step(SignInEvent::MayUseDevice(true), &t, at(3));
    assert!(matches!(action, SignInAction::ListDevices { user_id, device_id }
        if user_id == Guid::from_u128(0xb) && device_id == "dev-1"));
    let action = s.step(SignInEvent::Devices(Vec::new()), &t, at(4));
    assert!(matches!(&action, SignInAction::SignOut(rows) if rows.is_empty()));
    let SignInAction::Create(row) = s.step(SignInEvent::SignedOut, &t, at(5)) else {
        panic!("a row was to be stored");
    };
    assert_eq!(row.user_id, BOB);
    assert_eq!(row.device_id, "dev-1");
    assert_eq!(row.date_created, at(5));
    assert_eq!(row.access_token.len(), 32);
    let token = row.access_token.clone();
    let action = s.step(SignInEvent::Created(row), &t, at(6));
    assert!(matches!(action, SignInAction::Open { user_id, device_id }
        if user_id == Guid::from_u128(0xb) && device_id == "dev-1"));
    let action = s.step(SignInEvent::Opened, &t, at(7));
    assert!(matches!(action, SignInAction::Finish(got) if got == token));
    assert_eq!(s.stage, SignInStage::Over);
}

#[test]
fn without_enforcing_no_password_is_asked() {
    let t = no_sessions();
    let mut s = SignIn::new(request(), false).unwrap();
    assert_eq!(searched(&mut s, &t, &bob(0)), 1);
    assert!(!s.checked);
}

#[test]
fn authenticate_unknown_user_is_unauthorized() {
    let t = no_sessions();
    let mut s = SignIn::new(request(), true).unwrap();
    let action = s.step(SignInEvent::Begin, &t, at(1));
    assert!(matches!(action, SignInAction::Ask(UserLookup::ByName(n)) if n == "bob"));
    let action = s.step(SignInEvent::Answer(None), &t, at(1));
    assert!(matches!(action, SignInAction::Ask(UserLookup::ByPassword { .. })));
    let action = s.step(SignInEvent::Answer(None), &t, at(1));
    assert!(matches!(action, SignInAction::Refuse(ServiceError::Unauthorized(m))
        if m == "invalid username or password entered"));
    assert_eq!(s.stage, SignInStage::Over);
}

#[test]
fn a_wrong_password_undoes_the_name() {
    let t = no_sessions();
    let mut s = SignIn::new(request(), true).unwrap();
    s.step(SignInEvent::Begin, &t, at(1));
    s.step(SignInEvent::Answer(Some(bob(0))), &t, at(1));
    let action = s.step(SignInEvent::Answer(None), &t, at(1));
    assert!(matches!(action, SignInAction::Refuse(ServiceError::Unauthorized(_))));
    assert!(!s.checked);
}

#[test]
fn a_client_is_refused_for_its_device_or_for_too_many_sessions() {
    let t = one_session();
    for (user, may_use, words) in [
        (bob(0), false, "user is not allowed access from this device"),
        (bob(1), true, "user is at their maximum number of sessions"),
    ] {
        let mut s = SignIn::new(request(), true).unwrap();
        searched(&mut s, &t, &user);
        let action = s.step(SignInEvent::MayUseDevice(may_use), &t, at(3));
        assert!(matches!(action, SignInAction::Refuse(ServiceError::Unauthorized(m))
            if m == words));
        assert!(!s.admitted);
    }
    let mut s = SignIn::new(request(), true).unwrap();
    searched(&mut s, &t, &bob(2));
    let action = s.step(SignInEvent::MayUseDevice(true), &t, at(3));
    assert!(matches!(action, SignInAction::ListDevices { user_id, device_id }
        if user_id == Guid::from_u128(0xb) && device_id == "dev-1"));
}

#[test]
fn events_out_of_turn_change_nothing() {
    let t = no_sessions();
    let mut s = SignIn::new(request(), true).unwrap();
    for event in [
        SignInEvent::Answer(Some(bob(0))),
        SignInEvent::MayUseDevice(true),
        SignInEvent::SignedOut,
        SignInEvent::Opened,
    ] {
        assert!(matches!(s.step(event, &t, at(1)), SignInAction::Ignore));
        assert!(s.user.is_none());
    }
}

#[test]
fn a_client_must_tell_of_itself() {
    let mut r = request();
    r.device_name = Some(String::new());
    r.app_version = None;
    assert!(matches!(SignIn::new(r, true), Err(ServiceError::InvalidInput(m))
        if m == "deviceName is required"));
}

#[test]
fn the_token_leads_to_the_session_of_the_user() {
    let mut t = no_sessions();
    let mut s = SignIn::new(request(), true).unwrap();
    searched(&mut s, &t, &bob(0));
    s.step(SignInEvent::MayUseDevice(true), &t, at(2));
    s.step(SignInEvent::Devices(Vec::new()), &t, at(2));
    let SignInAction::Create(row) = s.step(SignInEvent::SignedOut, &t, at(3)) else {
        panic!("no row");
    };
    s.step(SignInEvent::Created(row.clone()), &t, at(3));
    let (opened, _) = t.upsert_session(&s.contact, "s", Some(&bob(0)), &None, at(3)).unwrap();
    let SignInAction::Finish(token) = s.step(SignInEvent::Opened, &t, at(4)) else {
        panic!("no token");
    };
    assert_eq!(token, row.access_token);
    assert_eq!(token.len(), 32);

    assert_eq!(device_user(&row), Some(Guid::from_u128(0xb)));
    for device_id in ["", "dev-1"] {
        let contact = token_contact(Some(&row), device_id, "1.2.3.4").unwrap();
        let (seen, is_new) =
            t.upsert_session(&contact, "other", Some(&bob(0)), &None, at(5)).unwrap();
        assert!(!is_new);
        assert_eq!(seen.id, opened.id);
        assert_eq!(seen.user_id, opened.user_id);
        assert_eq!(seen.server_id.as_deref(), Some("server"));
    }
}
