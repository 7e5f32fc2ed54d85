use musikquadrupled::api::{JsonNumber, JsonValue, WsApiMessage, WsApiMessageType};
use musikquadrupled::error::ErrorSource;
use musikquadrupled::music::{check_library_auth_reply, library_auth_request, library_tracks_request, take_library_tracks, MusicInfo, MusicInfoMap};

fn info(id: &str, title: &str, thumb: u32) -> MusicInfo {
    MusicInfo {
        external_id: id.to_string(),
        title: title.to_string(),
        album: "album".to_string(),
        artist: "artist".to_string(),
        thumbnail_id: thumb,
    }
}

#[test]
fn first_track_with_an_id_wins() {
    let mut map = MusicInfoMap::new();
    map.insert_tracks(vec![info("a", "one", 1), info("b", "two", 2), info("a", "three", 3)]);
    assert_eq!(map.get("a"), Some(info("a", "one", 1)));
    assert_eq!(map.get("b"), Some(info("b", "two", 2)));
    assert_eq!(map.get("c"), None);
    map.insert_tracks(vec![info("b", "four", 4)]);
    assert_eq!(map.get("b"), Some(info("b", "two", 2)));
}

#[test]
fn library_requests() {
    let auth = library_auth_request("pw".to_string());
    assert_eq!(auth.name, "authenticate");
    assert_eq!(auth.id, "auth");
    assert_eq!(auth.device_id, Some("musikquadrupled".to_string()));
    assert_eq!(auth.option_str("password"), Some("pw".to_string()));
    let q = library_tracks_request();
    assert_eq!(q.name, "query_tracks");
    assert_eq!(q.kind, WsApiMessageType::Request);
    assert_eq!(q.id, "fetch_tracks");
    assert_eq!(q.options.len(), 2);
    assert!(q.options.contains(&("limit".to_string(), JsonValue::Number(JsonNumber::PosInt(4294967295)))));
    assert!(q.options.contains(&("offset".to_string(), JsonValue::Number(JsonNumber::PosInt(0)))));
}

#[test]
fn library_auth_reply_must_say_authenticated() {
    let yes = WsApiMessage::new("authenticate".to_string(), WsApiMessageType::Response)
        .option("authenticated".to_string(), JsonValue::Bool(true));
    assert!(check_library_auth_reply(&yes).is_ok());
    let no = WsApiMessage::new("authenticate".to_string(), WsApiMessageType::Response)
        .option("authenticated".to_string(), JsonValue::Bool(false));
    let e = check_library_auth_reply(&no).unwrap_err();
    assert!(matches!(e.source, ErrorSource::Message(ref m) if m == "not authenticated"));
    let missing = WsApiMessage::new("authenticate".to_string(), WsApiMessageType::Response);
    assert!(check_library_auth_reply(&missing).is_err());
}

#[test]
fn library_tracks_come_from_data_array() {
    let reply = WsApiMessage::new("query_tracks".to_string(), WsApiMessageType::Response)
        .option("data".to_string(), JsonValue::Array(vec![JsonValue::Null]));
    assert_eq!(take_library_tracks(reply).unwrap(), vec![JsonValue::Null]);
    let bad = WsApiMessage::new("query_tracks".to_string(), WsApiMessageType::Response)
        .option("data".to_string(), JsonValue::Bool(true));
    let e = take_library_tracks(bad).unwrap_err();
    assert!(matches!(e.source, ErrorSource::Message(ref m) if m == "must have tracks"));
}
