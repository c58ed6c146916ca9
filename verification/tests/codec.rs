use quillion_client::connection::messages::client::ClientMessage;
use quillion_client::connection::messages::server::ServerMessage;
use quillion_client::json::{parse_json, Json};

#[test]
fn callback_frame_is_exact() {
    let m = ClientMessage::Callback { id: "btn-1".to_string() };
    assert_eq!(m.to_json(), "{\"action\":\"callback\",\"id\":\"btn-1\"}");
}

#[test]
fn navigate_frame_is_exact() {
    let m = ClientMessage::Navigate { path: "/home".to_string() };
    assert_eq!(m.to_json(), "{\"action\":\"navigate\",\"path\":\"/home\"}");
}

#[test]
fn public_key_frame_is_exact() {
    let m = ClientMessage::PublicKey { key: "QUJD".to_string() };
    assert_eq!(m.to_json(), "{\"action\":\"public_key\",\"key\":\"QUJD\"}");
}

#[test]
fn encrypted_message_frame_is_exact() {
    let m = ClientMessage::EncryptedMessage {
        data: "ZGF0YQ==".to_string(),
        nonce: "bm9uY2U=".to_string(),
    };
    assert_eq!(
        m.to_json(),
        "{\"action\":\"encrypted_message\",\"data\":\"ZGF0YQ==\",\"nonce\":\"bm9uY2U=\"}"
    );
}

#[test]
fn event_callback_frame_is_exact() {
    let m = ClientMessage::EventCallback {
        id: "cb".to_string(),
        event_type: "click".to_string(),
        event_data: "{\"x\":1}".to_string(),
    };
    assert_eq!(
        m.to_json(),
        "{\"action\":\"event_callback\",\"id\":\"cb\",\"event_type\":\"click\",\"event_data\":\"{\\\"x\\\":1}\"}"
    );
}

#[test]
fn client_error_escapes_specials() {
    let m = ClientMessage::ClientError {
        error: "line1\nquote\" back\\slash\ttab".to_string(),
    };
    assert_eq!(
        m.to_json(),
        "{\"action\":\"client_error\",\"error\":\"line1\\nquote\\\" back\\\\slash\\ttab\"}"
    );
}

#[test]
fn control_characters_use_unicode_escapes() {
    let m = ClientMessage::ClientError {
        error: "a\u{0001}b".to_string(),
    };
    assert_eq!(
        m.to_json(),
        "{\"action\":\"client_error\",\"error\":\"a\\u0001b\"}"
    );
}

#[test]
fn parse_json_handles_values() {
    match parse_json("  {\"a\": [1, true, null, \"x\"], \"b\": {\"c\": \"d\"}} ") {
        Some(Json::Obj(fields)) => {
            assert_eq!(fields.len(), 2);
            assert_eq!(fields[0].0, "a");
            match &fields[0].1 {
                Json::Arr(items) => assert_eq!(items.len(), 4),
                other => panic!("unexpected: {:?}", other),
            }
        }
        other => panic!("unexpected: {:?}", other),
    }
}

#[test]
fn parse_json_decodes_escapes() {
    match parse_json("\"A\\u0042\\n\\\"\\\\\"") {
        Some(Json::Str(s)) => assert_eq!(s, "AB\n\"\\"),
        other => panic!("unexpected: {:?}", other),
    }
}

#[test]
fn parse_json_combines_surrogate_pairs() {
    match parse_json("\"\\uD83D\\uDE00\"") {
        Some(Json::Str(s)) => assert_eq!(s, "\u{1F600}"),
        other => panic!("unexpected: {:?}", other),
    }
}

#[test]
fn parse_json_rejects_lone_surrogates() {
    assert!(parse_json("\"\\uD83D\"").is_none());
    assert!(parse_json("\"\\uD83Dx\"").is_none());
    assert!(parse_json("\"\\uDE00\"").is_none());
    assert!(parse_json("\"\\uD83D\\u0041\"").is_none());
}

#[test]
fn parse_json_rejects_garbage() {
    assert!(parse_json("not json").is_none());
    assert!(parse_json("{\"a\":}").is_none());
    assert!(parse_json("{\"a\":1} trailing").is_none());
    assert!(parse_json("\"unterminated").is_none());
    assert!(parse_json("").is_none());
}

#[test]
fn server_message_parses_render_instruction() {
    let frame = "{\"action\":\"render_page\",\"path\":\"/dash\",\"content\":[{\"tag\":\"div\",\"attributes\":{\"class\":\"row\"},\"text\":\"hello\",\"key\":\"root\",\"children\":[{\"tag\":\"span\"}]}],\"css_rules\":{\"body\":{\"color\":\"red\"}}}";
    let msg = ServerMessage::from_json(frame).unwrap();
    assert_eq!(msg.action, "render_page");
    assert_eq!(msg.path.as_deref(), Some("/dash"));
    assert_eq!(msg.content.len(), 1);
    let root = &msg.content[0];
    assert_eq!(root.tag, "div");
    assert_eq!(root.attributes, vec![("class".to_string(), "row".to_string())]);
    assert_eq!(root.text.as_deref(), Some("hello"));
    assert_eq!(root.key.as_deref(), Some("root"));
    assert_eq!(root.children.len(), 1);
    assert_eq!(root.children[0].tag, "span");
    let css = msg.css_rules.unwrap();
    assert_eq!(css.len(), 1);
    assert_eq!(css[0].0, "body");
    assert_eq!(css[0].1, vec![("color".to_string(), "red".to_string())]);
    assert!(msg.server_public_key.is_none());
    assert!(msg.url.is_none());
}

#[test]
fn server_message_parses_key_announcement() {
    let msg = ServerMessage::from_json(
        "{\"action\":\"none\",\"server_public_key\":\"QUJD\"}",
    )
    .unwrap();
    assert_eq!(msg.server_public_key.as_deref(), Some("QUJD"));
    assert!(msg.content.is_empty());
}

#[test]
fn server_message_parses_encrypted_wrapper() {
    let msg = ServerMessage::from_json(
        "{\"action\":\"none\",\"encrypted_payload\":\"ZEFUQQ==\",\"nonce\":\"Tk9OQ0U=\"}",
    )
    .unwrap();
    assert_eq!(msg.encrypted_payload.as_deref(), Some("ZEFUQQ=="));
    assert_eq!(msg.nonce.as_deref(), Some("Tk9OQ0U="));
}

#[test]
fn server_message_rejects_malformed_frames() {
    assert!(ServerMessage::from_json("nonsense").is_err());
    assert!(ServerMessage::from_json("[1,2,3]").is_err());
    assert!(ServerMessage::from_json("{}").is_err());
    assert!(ServerMessage::from_json("{\"action\":7}").is_err());
    assert!(ServerMessage::from_json("{\"action\":\"a\",\"content\":7}").is_err());
    assert!(ServerMessage::from_json("{\"action\":\"a\",\"content\":[{\"attributes\":{}}]}").is_err());
    assert!(ServerMessage::from_json("{\"action\":\"a\",\"css_rules\":{\"b\":{\"c\":1}}}").is_err());
}

#[test]
fn duplicate_envelope_fields_are_rejected() {
    assert!(ServerMessage::from_json("{\"action\":\"a\",\"action\":\"b\"}").is_err());
    assert!(
        ServerMessage::from_json("{\"action\":\"a\",\"path\":null,\"path\":\"/x\"}").is_err()
    );
    assert!(ServerMessage::from_json(
        "{\"action\":\"a\",\"content\":[{\"tag\":\"p\",\"tag\":\"q\"}]}"
    )
    .is_err());
    // duplicates of unknown members are ignored, as unknown members are
    let msg = ServerMessage::from_json("{\"action\":\"a\",\"x\":1,\"x\":2}").unwrap();
    assert_eq!(msg.action, "a");
}

#[test]
fn duplicate_map_entries_let_the_later_value_win() {
    let msg = ServerMessage::from_json(
        "{\"action\":\"a\",\"content\":[{\"tag\":\"p\",\"attributes\":{\"class\":\"x\",\"class\":\"y\"}}]}",
    )
    .unwrap();
    assert_eq!(
        msg.content[0].attributes,
        vec![("class".to_string(), "y".to_string())]
    );
    let msg = ServerMessage::from_json(
        "{\"action\":\"a\",\"css_rules\":{\"p\":{\"color\":\"red\"},\"p\":{\"color\":\"blue\"}}}",
    )
    .unwrap();
    let css = msg.css_rules.unwrap();
    assert_eq!(css.len(), 1);
    assert_eq!(css[0].1, vec![("color".to_string(), "blue".to_string())]);
}

#[test]
fn server_message_ignores_unknown_fields_and_null_options() {
    let msg = ServerMessage::from_json(
        "{\"action\":\"a\",\"path\":null,\"mystery\":[1,2],\"url\":\"/u\"}",
    )
    .unwrap();
    assert!(msg.path.is_none());
    assert_eq!(msg.url.as_deref(), Some("/u"));
}

#[test]
fn encode_then_parse_round_trips_the_wire_fields() {
    let m = ClientMessage::EventCallback {
        id: "id \"x\"".to_string(),
        event_type: "keydown".to_string(),
        event_data: "{\"key\":\"\\n\"}".to_string(),
    };
    let frame = m.to_json();
    match parse_json(&frame) {
        Some(Json::Obj(fields)) => {
            let get = |k: &str| fields.iter().find(|(n, _)| n == k).map(|(_, v)| v);
            assert!(matches!(get("action"), Some(Json::Str(s)) if s == "event_callback"));
            assert!(matches!(get("id"), Some(Json::Str(s)) if s == "id \"x\""));
            assert!(matches!(get("event_data"), Some(Json::Str(s)) if s == "{\"key\":\"\\n\"}"));
        }
        other => panic!("unexpected: {:?}", other),
    }
}
