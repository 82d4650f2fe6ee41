use hermit_core::service_error::ServiceError;
use hermit_core::session_websocket_listener::{
    connected_session, force_keep_alive_bytes, HermitWebSocketManager, SocketAuthorization,
    WEB_SOCKET_LOST_TIMEOUT_SECS,
};

#[test]
fn listener_count_reflects_registration() {
    assert_eq!(HermitWebSocketManager::<u8>::new(Vec::new()).listener_count(), 0);
}

#[test]
fn listener_count_counts_every_listener() {
    assert_eq!(HermitWebSocketManager::new(vec!["a", "b"]).listener_count(), 2);
}

#[test]
fn force_keep_alive_encodes_timeout() {
    let bytes = force_keep_alive_bytes();
    let value: serde_json::Value = serde_json::from_slice(&bytes).unwrap();
    assert_eq!(value["MessageType"], "ForceKeepAlive");
    assert_eq!(value["Data"], WEB_SOCKET_LOST_TIMEOUT_SECS);
}

#[test]
fn force_keep_alive_is_exact() {
    assert_eq!(
        String::from_utf8(force_keep_alive_bytes()).unwrap(),
        r#"{"Data":60,"MessageType":"ForceKeepAlive"}"#
    );
}

#[test]
fn handle_request_rejects_non_upgrade() {
    let manager = HermitWebSocketManager::<u8>::new(Vec::new());
    let err = manager.handle_request(None).unwrap_err();
    assert!(matches!(err, ServiceError::InvalidInput(_)));
    let err = manager.handle_request(Some("h2c")).unwrap_err();
    assert!(matches!(err, ServiceError::InvalidInput(m) if m == "not a web socket upgrade request"));
}

#[test]
fn handle_request_accepts_upgrade() {
    let manager = HermitWebSocketManager::<u8>::new(Vec::new());
    manager.handle_request(Some("websocket")).unwrap();
    manager.handle_request(Some("WebSocket")).unwrap();
}

#[test]
fn a_connection_is_resolved_by_its_token() {
    let auth = SocketAuthorization { token: Some("t".to_owned()), device_id: None };
    let lookup = connected_session(&auth, &None, &Some("10.0.0.1".to_owned())).unwrap();
    assert_eq!(lookup.token, "t");
    assert_eq!(lookup.device_id, "");
    assert_eq!(lookup.remote_endpoint, "10.0.0.1");

    let lookup =
        connected_session(&auth, &Some("10.0.0.2".to_owned()), &Some("10.0.0.1".to_owned()))
            .unwrap();
    assert_eq!(lookup.remote_endpoint, "10.0.0.2");

    let nobody = SocketAuthorization { token: None, device_id: Some("d".to_owned()) };
    assert!(matches!(
        connected_session(&nobody, &None, &None),
        Err(ServiceError::Unauthorized(m)) if m == "web socket connection carries no token"
    ));
}
