use base64::Engine;
use quillion_client::connection::transport::{
    ClientConnection, ConnectionEvent, ConnectionState, TransportAction,
};

#[test]
fn new_connection_is_connecting_without_a_session() {
    let conn = ClientConnection::new(&"ws://localhost:1337".to_string());
    assert_eq!(conn.state, ConnectionState::Connecting);
    assert!(conn.crypto.aes_key.is_none());
    assert!(conn.vdom.previous_vdom.is_none());
    assert_eq!(conn.ws_gateway, "ws://localhost:1337");
}

#[test]
fn opening_sends_the_clear_key_announcement() {
    let mut conn = ClientConnection::new(&"ws://h:1337".to_string());
    let expected_key = conn.crypto.public_key_b64();
    let actions = conn.on_event(ConnectionEvent::Opened, &"/".to_string());
    assert_eq!(conn.state, ConnectionState::Open);
    assert_eq!(actions.len(), 1);
    match &actions[0] {
        TransportAction::SendFrame { frame } => {
            assert_eq!(
                *frame,
                format!("{{\"action\":\"public_key\",\"key\":\"{}\"}}", expected_key)
            );
        }
        other => panic!("unexpected: {:?}", other),
    }
}

#[test]
fn losing_the_connection_schedules_one_reconnect() {
    let mut conn = ClientConnection::new(&"ws://h:1337".to_string());
    conn.on_event(ConnectionEvent::Opened, &"/".to_string());
    let actions = conn.on_event(ConnectionEvent::Closed, &"/".to_string());
    assert_eq!(conn.state, ConnectionState::Closed);
    assert_eq!(actions.len(), 1);
    assert!(matches!(
        actions[0],
        TransportAction::ScheduleReconnect { delay_ms: 1000 }
    ));
}

#[test]
fn navigation_is_dropped_before_the_session_exists() {
    let mut conn = ClientConnection::new(&"ws://h:1337".to_string());
    let actions = conn.on_event(
        ConnectionEvent::PopState { path: "/back".to_string() },
        &"/".to_string(),
    );
    assert!(actions.is_empty());
}

#[test]
fn navigation_goes_out_encrypted_once_established() {
    let mut conn = ClientConnection::new(&"ws://h:1337".to_string());
    let server_secret = x25519_dalek::StaticSecret::random_from_rng(rand::rngs::OsRng);
    let server_pub = x25519_dalek::PublicKey::from(&server_secret);
    let server_pub_b64 = base64::engine::general_purpose::STANDARD.encode(server_pub.as_bytes());
    let frame = format!(
        "{{\"action\":\"none\",\"server_public_key\":\"{}\"}}",
        server_pub_b64
    );
    // the key exchange itself answers with one encrypted navigation frame
    let actions = conn.on_event(
        ConnectionEvent::Frame { text: frame },
        &"/current".to_string(),
    );
    assert_eq!(actions.len(), 1);
    assert!(matches!(actions[0], TransportAction::SendFrame { .. }));

    let actions = conn.on_event(
        ConnectionEvent::PopState { path: "/back".to_string() },
        &"/current".to_string(),
    );
    assert_eq!(actions.len(), 1);
    match &actions[0] {
        TransportAction::SendFrame { frame } => {
            assert!(frame.starts_with("{\"action\":\"encrypted_message\""));
        }
        other => panic!("unexpected: {:?}", other),
    }
}

#[test]
fn malformed_frame_answers_with_one_encrypted_error_report() {
    let mut conn = ClientConnection::new(&"ws://h:1337".to_string());
    // before the handshake the report cannot leave encrypted: nothing is sent
    let actions = conn.on_event(
        ConnectionEvent::Frame { text: "garbage".to_string() },
        &"/".to_string(),
    );
    assert!(actions.is_empty());

    // establish a session, then the report leaves over the encrypted path
    let server_secret = x25519_dalek::StaticSecret::random_from_rng(rand::rngs::OsRng);
    let server_pub = x25519_dalek::PublicKey::from(&server_secret);
    let server_pub_b64 = base64::engine::general_purpose::STANDARD.encode(server_pub.as_bytes());
    conn.on_event(
        ConnectionEvent::Frame {
            text: format!("{{\"action\":\"none\",\"server_public_key\":\"{}\"}}", server_pub_b64),
        },
        &"/".to_string(),
    );
    let actions = conn.on_event(
        ConnectionEvent::Frame { text: "garbage".to_string() },
        &"/".to_string(),
    );
    assert_eq!(actions.len(), 1);
    match &actions[0] {
        TransportAction::SendFrame { frame } => {
            assert!(frame.starts_with("{\"action\":\"encrypted_message\""));
        }
        other => panic!("unexpected: {:?}", other),
    }
}

#[test]
fn a_render_frame_yields_an_apply_action() {
    let mut conn = ClientConnection::new(&"ws://h:1337".to_string());
    let actions = conn.on_event(
        ConnectionEvent::Frame {
            text: "{\"action\":\"render_page\",\"content\":[{\"tag\":\"div\"}]}".to_string(),
        },
        &"/".to_string(),
    );
    assert_eq!(actions.len(), 1);
    match actions.into_iter().next().unwrap() {
        TransportAction::ApplyRender { plan } => {
            assert!(plan.full);
            assert_eq!(plan.roots[0].tag, "div");
            // the snapshot waits for the apply report
            assert!(conn.vdom.previous_vdom.is_none());
            conn.render_applied(&plan);
            assert!(conn.vdom.previous_vdom.is_some());
        }
        other => panic!("unexpected: {:?}", other),
    }

    // a failed apply reports nothing: the snapshot stays empty, the next
    // render is full again
    let actions = conn.on_event(
        ConnectionEvent::Frame {
            text: "{\"action\":\"render_page\",\"content\":[{\"tag\":\"p\"}]}".to_string(),
        },
        &"/".to_string(),
    );
    match actions.into_iter().next().unwrap() {
        TransportAction::ApplyRender { plan } => assert!(!plan.full),
        other => panic!("unexpected: {:?}", other),
    }
}
