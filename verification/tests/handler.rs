use aes_gcm::aead::{Aead, KeyInit};
use base64::Engine;
use quillion_client::connection::crypto::Crypto;
use quillion_client::connection::handler::MessageHandler;
use quillion_client::connection::messages::client::ClientMessage;
use quillion_client::connection::messaging::Messaging;
use quillion_client::vdom::VirtualDom;

struct Server {
    secret: x25519_dalek::StaticSecret,
    pub_b64: String,
}

impl Server {
    fn new() -> Server {
        let secret = x25519_dalek::StaticSecret::random_from_rng(rand::rngs::OsRng);
        let public = x25519_dalek::PublicKey::from(&secret);
        let pub_b64 = base64::engine::general_purpose::STANDARD.encode(public.as_bytes());
        Server { secret, pub_b64 }
    }

    fn session_key(&self, client_pub_b64: &str) -> [u8; 32] {
        let bytes = base64::engine::general_purpose::STANDARD
            .decode(client_pub_b64)
            .unwrap();
        let mut arr = [0u8; 32];
        arr.copy_from_slice(&bytes);
        let shared = self
            .secret
            .diffie_hellman(&x25519_dalek::PublicKey::from(arr));
        let hk = hkdf::Hkdf::<sha2::Sha256>::new(None, shared.as_bytes());
        let mut key = [0u8; 32];
        hk.expand(b"quillion-aes-key", &mut key).unwrap();
        key
    }

    fn encrypt_frame(&self, client_pub_b64: &str, plaintext: &str) -> String {
        let key = self.session_key(client_pub_b64);
        let cipher = aes_gcm::Aes256Gcm::new_from_slice(&key).unwrap();
        let nonce = [7u8; 12];
        let ct = cipher
            .encrypt(aes_gcm::Nonce::from_slice(&nonce), plaintext.as_bytes())
            .unwrap();
        format!(
            "{{\"action\":\"none\",\"encrypted_payload\":\"{}\",\"nonce\":\"{}\"}}",
            base64::engine::general_purpose::STANDARD.encode(&ct),
            base64::engine::general_purpose::STANDARD.encode(nonce)
        )
    }

    fn decrypt_frame(&self, client_pub_b64: &str, data_b64: &str, nonce_b64: &str) -> String {
        let key = self.session_key(client_pub_b64);
        let cipher = aes_gcm::Aes256Gcm::new_from_slice(&key).unwrap();
        let ct = base64::engine::general_purpose::STANDARD
            .decode(data_b64)
            .unwrap();
        let nonce = base64::engine::general_purpose::STANDARD
            .decode(nonce_b64)
            .unwrap();
        let pt = cipher
            .decrypt(aes_gcm::Nonce::from_slice(&nonce), ct.as_slice())
            .unwrap();
        String::from_utf8(pt).unwrap()
    }
}

#[test]
fn key_announcement_yields_exactly_one_navigation() {
    let server = Server::new();
    let mut crypto = Crypto::new();
    let mut vdom = VirtualDom::new();
    let frame = format!(
        "{{\"action\":\"none\",\"server_public_key\":\"{}\"}}",
        server.pub_b64
    );
    let current = "/where/i/am".to_string();
    let outcome = MessageHandler::handle_frame(&mut crypto, &vdom, &frame, &current);

    assert!(outcome.plan.is_none());
    assert!(outcome.redirect.is_none());
    assert!(vdom.previous_vdom.is_none());
    assert!(crypto.aes_key.is_some());
    assert_eq!(outcome.outbound.len(), 1);
    match &outcome.outbound[0] {
        ClientMessage::Navigate { path } => assert_eq!(path, "/where/i/am"),
        other => panic!("unexpected: {:?}", other),
    }
}

#[test]
fn bad_key_announcement_sends_nothing() {
    let mut crypto = Crypto::new();
    let mut vdom = VirtualDom::new();
    let short = base64::engine::general_purpose::STANDARD.encode([1u8; 8]);
    let frame = format!("{{\"action\":\"none\",\"server_public_key\":\"{}\"}}", short);
    let current = "/".to_string();
    let outcome = MessageHandler::handle_frame(&mut crypto, &vdom, &frame, &current);
    assert!(outcome.outbound.is_empty());
    assert!(outcome.plan.is_none());
    assert!(crypto.aes_key.is_none());
}

#[test]
fn malformed_frame_sends_exactly_one_client_error() {
    let mut crypto = Crypto::new();
    let mut vdom = VirtualDom::new();
    let current = "/".to_string();
    let outcome =
        MessageHandler::handle_frame(&mut crypto, &vdom, "this is not json", &current);
    assert_eq!(outcome.outbound.len(), 1);
    assert!(matches!(
        outcome.outbound[0],
        ClientMessage::ClientError { .. }
    ));
    assert!(outcome.plan.is_none());
    assert!(vdom.previous_vdom.is_none());
}

#[test]
fn outer_render_page_builds_a_plan() {
    let mut crypto = Crypto::new();
    let mut vdom = VirtualDom::new();
    let current = "/".to_string();
    let frame = "{\"action\":\"render_page\",\"content\":[{\"tag\":\"div\"}]}";
    let outcome = MessageHandler::handle_frame(&mut crypto, &vdom, frame, &current);
    let plan = outcome.plan.expect("a render plan");
    assert!(plan.full);
    assert_eq!(plan.roots.len(), 1);
    assert_eq!(plan.roots[0].tag, "div");
    // the plan carries the candidate; the snapshot waits for the commit
    assert!(plan.snapshot.is_some());
    assert!(vdom.previous_vdom.is_none());
    vdom.commit(&plan);
    assert!(vdom.previous_vdom.is_some());
}

#[test]
fn other_actions_do_nothing() {
    let mut crypto = Crypto::new();
    let mut vdom = VirtualDom::new();
    let current = "/".to_string();
    let frame = "{\"action\":\"redirect\",\"url\":\"/elsewhere\"}";
    let outcome = MessageHandler::handle_frame(&mut crypto, &vdom, frame, &current);
    // an outer (unencrypted) redirect is not honored
    assert!(outcome.redirect.is_none());
    assert!(outcome.plan.is_none());
    assert!(outcome.outbound.is_empty());
}

#[test]
fn encrypted_render_is_decrypted_and_applied() {
    let server = Server::new();
    let mut crypto = Crypto::new();
    let mut vdom = VirtualDom::new();
    let current = "/".to_string();
    crypto.derive_shared_secret(&server.pub_b64).unwrap();
    let client_pub = crypto.public_key_b64();

    let inner = "{\"action\":\"render_page\",\"content\":[{\"tag\":\"main\",\"text\":\"hi\"}]}";
    let frame = server.encrypt_frame(&client_pub, inner);
    let outcome = MessageHandler::handle_frame(&mut crypto, &vdom, &frame, &current);
    let plan = outcome.plan.expect("a render plan");
    assert!(plan.full);
    assert_eq!(plan.roots[0].tag, "main");
    assert_eq!(plan.roots[0].text.as_deref(), Some("hi"));
}

#[test]
fn encrypted_redirect_is_followed() {
    let server = Server::new();
    let mut crypto = Crypto::new();
    let mut vdom = VirtualDom::new();
    let current = "/".to_string();
    crypto.derive_shared_secret(&server.pub_b64).unwrap();
    let client_pub = crypto.public_key_b64();

    let inner = "{\"action\":\"redirect\",\"url\":\"https://example.test/next\"}";
    let frame = server.encrypt_frame(&client_pub, inner);
    let outcome = MessageHandler::handle_frame(&mut crypto, &vdom, &frame, &current);
    assert_eq!(outcome.redirect.as_deref(), Some("https://example.test/next"));
    assert!(outcome.plan.is_none());
}

#[test]
fn tampered_encrypted_payload_is_dropped_silently() {
    let server = Server::new();
    let mut crypto = Crypto::new();
    let mut vdom = VirtualDom::new();
    let current = "/".to_string();
    crypto.derive_shared_secret(&server.pub_b64).unwrap();

    let frame = "{\"action\":\"none\",\"encrypted_payload\":\"AAAAAAAAAAAAAAAAAAAA\",\"nonce\":\"AAAAAAAAAAAAAAAA\"}";
    let outcome = MessageHandler::handle_frame(&mut crypto, &vdom, frame, &current);
    assert!(outcome.outbound.is_empty());
    assert!(outcome.plan.is_none());
    assert!(outcome.redirect.is_none());
}

#[test]
fn malformed_inner_envelope_reports_one_client_error() {
    let server = Server::new();
    let mut crypto = Crypto::new();
    let mut vdom = VirtualDom::new();
    let current = "/".to_string();
    crypto.derive_shared_secret(&server.pub_b64).unwrap();
    let client_pub = crypto.public_key_b64();

    let frame = server.encrypt_frame(&client_pub, "{{{{not json");
    let outcome = MessageHandler::handle_frame(&mut crypto, &vdom, &frame, &current);
    assert_eq!(outcome.outbound.len(), 1);
    assert!(matches!(
        outcome.outbound[0],
        ClientMessage::ClientError { .. }
    ));
    assert!(vdom.previous_vdom.is_none());
}

#[test]
fn successive_encrypted_renders_patch_incrementally() {
    let server = Server::new();
    let mut crypto = Crypto::new();
    let mut vdom = VirtualDom::new();
    let current = "/".to_string();
    crypto.derive_shared_secret(&server.pub_b64).unwrap();
    let client_pub = crypto.public_key_b64();

    let first = "{\"action\":\"render_page\",\"content\":[{\"tag\":\"div\",\"attributes\":{\"class\":\"x\"},\"key\":\"root\"}]}";
    let frame = server.encrypt_frame(&client_pub, first);
    let outcome = MessageHandler::handle_frame(&mut crypto, &vdom, &frame, &current);
    let plan = outcome.plan.unwrap();
    assert!(plan.full);
    vdom.commit(&plan);

    let second = "{\"action\":\"render_page\",\"content\":[{\"tag\":\"div\",\"attributes\":{\"class\":\"y\"},\"key\":\"root\"}]}";
    let frame = server.encrypt_frame(&client_pub, second);
    let outcome = MessageHandler::handle_frame(&mut crypto, &vdom, &frame, &current);
    let plan = outcome.plan.unwrap();
    assert!(!plan.full);
    assert!(plan.ops.iter().any(|op| matches!(
        op,
        quillion_client::vdom::ops::DomOp::SetAttribute { name, value, .. }
            if name == "class" && value == "y"
    )));
    // after the commit the snapshot holds the new tree
    vdom.commit(&plan);
    let snap = vdom.previous_vdom.as_ref().unwrap();
    assert_eq!(snap.attributes[0].1, "y");
}

#[test]
fn unicode_payload_survives_the_encrypted_envelope() {
    let server = Server::new();
    let mut crypto = Crypto::new();
    crypto.derive_shared_secret(&server.pub_b64).unwrap();
    let client_pub = crypto.public_key_b64();

    let m = ClientMessage::ClientError {
        error: "schl\u{00fc}ssel \u{2014} line\nbreak".to_string(),
    };
    let frame = Messaging::send_encrypted_message(&m, &crypto).unwrap();
    let parsed = quillion_client::json::parse_json(&frame).unwrap();
    let (data, nonce) = match parsed {
        quillion_client::json::Json::Obj(fields) => {
            let find = |k: &str| {
                fields
                    .iter()
                    .find(|(n, _)| n == k)
                    .and_then(|(_, v)| match v {
                        quillion_client::json::Json::Str(s) => Some(s.clone()),
                        _ => None,
                    })
                    .unwrap()
            };
            (find("data"), find("nonce"))
        }
        other => panic!("unexpected: {:?}", other),
    };
    let plaintext = server.decrypt_frame(&client_pub, &data, &nonce);
    // the inner frame parses back to the same error text
    match quillion_client::json::parse_json(&plaintext).unwrap() {
        quillion_client::json::Json::Obj(fields) => {
            let err = fields.iter().find(|(n, _)| n == "error").unwrap();
            match &err.1 {
                quillion_client::json::Json::Str(s) => {
                    assert_eq!(s, "schl\u{00fc}ssel \u{2014} line\nbreak")
                }
                other => panic!("unexpected: {:?}", other),
            }
        }
        other => panic!("unexpected: {:?}", other),
    }
}

#[test]
fn encrypted_send_wraps_and_server_can_read_it() {
    let server = Server::new();
    let mut crypto = Crypto::new();
    crypto.derive_shared_secret(&server.pub_b64).unwrap();
    let client_pub = crypto.public_key_b64();

    let m = ClientMessage::Callback { id: "cb-9".to_string() };
    let frame = Messaging::send_encrypted_message(&m, &crypto).unwrap();
    // the wrapper parses as an encrypted_message envelope
    let parsed = quillion_client::json::parse_json(&frame).unwrap();
    let (data, nonce) = match parsed {
        quillion_client::json::Json::Obj(fields) => {
            let find = |k: &str| {
                fields
                    .iter()
                    .find(|(n, _)| n == k)
                    .and_then(|(_, v)| match v {
                        quillion_client::json::Json::Str(s) => Some(s.clone()),
                        _ => None,
                    })
                    .unwrap()
            };
            assert_eq!(find("action"), "encrypted_message");
            (find("data"), find("nonce"))
        }
        other => panic!("unexpected: {:?}", other),
    };
    let plaintext = server.decrypt_frame(&client_pub, &data, &nonce);
    assert_eq!(plaintext, "{\"action\":\"callback\",\"id\":\"cb-9\"}");
}

#[test]
fn unestablished_send_only_lets_the_key_announcement_out() {
    let crypto = Crypto::new();
    let nav = ClientMessage::Navigate { path: "/p".to_string() };
    assert!(Messaging::send_encrypted_message(&nav, &crypto).is_none());
    let announce = ClientMessage::PublicKey { key: "QUJD".to_string() };
    let frame = Messaging::send_encrypted_message(&announce, &crypto).unwrap();
    assert_eq!(frame, "{\"action\":\"public_key\",\"key\":\"QUJD\"}");
}
