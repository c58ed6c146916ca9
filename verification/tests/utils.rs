use quillion_client::error::AppError;
use quillion_client::utils::config::MetaConfig;
use quillion_client::utils::extractor::{EventDataExtractor, FormValue, InputTarget};
use quillion_client::utils::formatter::{format_wasm_traceback, WasmTracebackFormatter};

#[test]
fn config_prefers_explicit_gateway() {
    let c = MetaConfig::from_document(
        true,
        Some("wss://edge.example:9000".to_string()),
        &"https:".to_string(),
        &"edge.example".to_string(),
    );
    assert_eq!(c.ws_gateway, "wss://edge.example:9000");
}

#[test]
fn config_dev_mode_defaults_to_localhost() {
    let c = MetaConfig::from_document(true, None, &"http:".to_string(), &"x".to_string());
    assert_eq!(c.ws_gateway, "ws://localhost:1337");
}

#[test]
fn config_derives_url_from_location() {
    let c = MetaConfig::from_document(
        false,
        None,
        &"https:".to_string(),
        &"app.example".to_string(),
    );
    assert_eq!(c.ws_gateway, "wss://app.example:1337");
    let c = MetaConfig::from_document(false, None, &"http:".to_string(), &"app.example".to_string());
    assert_eq!(c.ws_gateway, "ws://app.example:1337");
}

#[test]
fn config_default_is_local() {
    let c = MetaConfig::default();
    assert_eq!(c.ws_gateway, "ws://localhost:1337");
}

#[test]
fn error_messages_carry_their_detail() {
    assert_eq!(AppError::WindowNotFound.message(), "Window not found");
    assert_eq!(
        AppError::CryptoError("bad key".to_string()).message(),
        "Cryptography error: bad key"
    );
    assert_eq!(
        AppError::SerializationError("oops".to_string()).message(),
        "Serialization error: oops"
    );
}

#[test]
fn input_payloads_are_exact() {
    let t = InputTarget::Input { value: "he\"llo".to_string(), checked: true };
    assert_eq!(
        EventDataExtractor::extract_input_data(&t),
        "{\"checked\":true,\"value\":\"he\\\"llo\"}"
    );
    let t = InputTarget::Select { value: "b".to_string(), selected_index: 1 };
    assert_eq!(
        EventDataExtractor::extract_input_data(&t),
        "{\"selectedIndex\":1,\"value\":\"b\"}"
    );
    let t = InputTarget::TextArea { value: "multi\nline".to_string() };
    assert_eq!(
        EventDataExtractor::extract_input_data(&t),
        "{\"value\":\"multi\\nline\"}"
    );
}

#[test]
fn keyboard_payload_is_exact() {
    assert_eq!(
        EventDataExtractor::extract_keyboard_data(
            &"a".to_string(),
            &"KeyA".to_string(),
            true,
            false,
            false,
            true,
        ),
        "{\"altKey\":false,\"code\":\"KeyA\",\"ctrlKey\":true,\"key\":\"a\",\"metaKey\":true,\"shiftKey\":false}"
    );
}

#[test]
fn mouse_payload_formats_negative_coordinates() {
    assert_eq!(
        EventDataExtractor::extract_mouse_data(-5, 240, 0, 1),
        "{\"button\":0,\"buttons\":1,\"clientX\":-5,\"clientY\":240}"
    );
}

#[test]
fn form_payload_is_exact() {
    let fields = vec![
        ("name".to_string(), FormValue::Text("Ada".to_string())),
        ("subscribe".to_string(), FormValue::Checked(true)),
        ("note".to_string(), FormValue::Text("a \"q\"".to_string())),
    ];
    assert_eq!(
        EventDataExtractor::extract_form_data(&fields),
        "{\"name\":\"Ada\",\"subscribe\":true,\"note\":\"a \\\"q\\\"\"}"
    );
    assert_eq!(EventDataExtractor::extract_form_data(&Vec::new()), "{}");
    // a later control of the same name wins, at the first position
    let fields = vec![
        ("a".to_string(), FormValue::Text("1".to_string())),
        ("b".to_string(), FormValue::Checked(true)),
        ("a".to_string(), FormValue::Text("2".to_string())),
    ];
    assert_eq!(
        EventDataExtractor::extract_form_data(&fields),
        "{\"a\":\"2\",\"b\":true}"
    );
}

#[test]
fn traceback_box_carries_message_and_details() {
    let formatter = WasmTracebackFormatter::new();
    let out = formatter.format(
        "index.js:5: Error(\"bad `x`\")",
        "doWork @ app.js:10\nplain line",
    );
    let lines: Vec<&str> = out.split('\n').collect();
    assert!(lines[0].starts_with("\u{250c}\u{2500} Exception Trace "));
    assert!(lines.iter().any(|l| *l == "\u{2502}  Details: bad 'x'"));
    assert!(lines.iter().any(|l| *l == "\u{2502}    \u{2192} doWork"));
    assert!(lines.iter().any(|l| *l == "\u{2502}         at app.js:10"));
    assert!(lines.iter().any(|l| *l == "\u{2502}    \u{2192} plain line"));
    assert!(lines.last().unwrap().starts_with("\u{2514}"));
}

#[test]
fn traceback_of_a_plain_message_keeps_it_whole() {
    let out = format_wasm_traceback("something broke");
    assert!(out.contains("\u{2502}  Message: something broke"));
    assert!(out.contains("\u{2502}    \u{2192} Cannot get stack"));
}

#[test]
fn empty_traceback_is_reported_as_such() {
    let formatter = WasmTracebackFormatter::new();
    assert_eq!(formatter.format("", "  \n "), "Empty traceback provided");
}
