use musikquadrupled::api::{get_entry, set_entry, take_entry, JsonNumber, JsonValue, WsApiMessage, WsApiMessageType};

fn s(x: &str) -> String {
    x.to_string()
}

#[test]
fn message_builder() {
    let m = WsApiMessage::request(s("query_tracks")).id(s("7")).device_id(s("dev"));
    assert_eq!(m.name, "query_tracks");
    assert_eq!(m.kind, WsApiMessageType::Request);
    assert_eq!(m.id, "7");
    assert_eq!(m.device_id, Some(s("dev")));
    assert!(m.options.is_empty());
    let n = WsApiMessage::new(s("x"), WsApiMessageType::Broadcast);
    assert_eq!(n.id, "");
    assert_eq!(n.device_id, None);
}

#[test]
fn authenticate_message_carries_password() {
    let m = WsApiMessage::authenticate(s("hunter2"));
    assert_eq!(m.name, "authenticate");
    assert_eq!(m.kind, WsApiMessageType::Request);
    assert_eq!(m.options, vec![(s("password"), JsonValue::Str(s("hunter2")))]);
    assert_eq!(m.option_str("password"), Some(s("hunter2")));
    assert_eq!(m.option_bool("password"), None);
}

#[test]
fn option_replaces_earlier_value() {
    let m = WsApiMessage::request(s("r"))
        .option(s("a"), JsonValue::Bool(true))
        .option(s("b"), JsonValue::Null)
        .option(s("a"), JsonValue::Bool(false));
    assert_eq!(m.options.len(), 2);
    assert_eq!(m.option_bool("a"), Some(false));
    assert_eq!(get_entry(&m.options, "b"), Some(&JsonValue::Null));
    assert_eq!(get_entry(&m.options, "c"), None);
}

#[test]
fn object_entries_take_and_set() {
    let entries = vec![
        (s("x"), JsonValue::Number(JsonNumber::PosInt(1))),
        (s("y"), JsonValue::Number(JsonNumber::NegInt(-2))),
    ];
    let (rest, x) = take_entry(entries, "x");
    assert_eq!(x, Some(JsonValue::Number(JsonNumber::PosInt(1))));
    assert_eq!(rest, vec![(s("y"), JsonValue::Number(JsonNumber::NegInt(-2)))]);
    let again = set_entry(rest, s("y"), JsonValue::Str(s("z")));
    assert_eq!(again, vec![(s("y"), JsonValue::Str(s("z")))]);
}
