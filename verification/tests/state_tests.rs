use musikquadrupled::error::{AppError, ErrorSource};
use musikquadrupled::music::{MusicInfo, MusicInfoMap};
use musikquadrupled::state::{adds_cache_header, audio_cache_header, serve_mode, AppCore, ServeMode};

fn core_with_token(token: &str) -> AppCore {
    let mut music = MusicInfoMap::new();
    music.insert_tracks(vec![MusicInfo {
        external_id: "ext-1".to_string(),
        title: "t".to_string(),
        album: "a".to_string(),
        artist: "r".to_string(),
        thumbnail_id: 77,
    }]);
    let mut core = AppCore::new(
        8443,
        "127.0.0.1".to_string(),
        7905,
        7906,
        "pw".to_string(),
        "tokens.txt".to_string(),
        "",
        3600,
        music,
    );
    core.tokens.generate_with(token.to_string()).unwrap();
    core
}

fn message(e: &AppError) -> &str {
    match &e.source {
        ErrorSource::Message(m) => m.as_str(),
        other => panic!("unexpected {other:?}"),
    }
}

#[test]
fn core_urls_and_header() {
    let core = core_with_token("tok");
    assert_eq!(core.musikcubed_url("/thumbnail/1"), "http://127.0.0.1:7905/thumbnail/1");
    assert_eq!(core.musikcubed_ws_url(), "ws://127.0.0.1:7906");
    assert_eq!(core.musikcubed_auth_header_value, "Basic ZGVmYXVsdDpwdw==");
}

#[test]
fn token_gate() {
    let core = core_with_token("tok");
    assert!(core.verify_token(Some("tok")).is_ok());
    let e = core.verify_token(Some("bad")).unwrap_err();
    assert_eq!(e.status, Some(401));
    assert_eq!(message(&e), "Invalid token or token not present");
    let e = core.verify_token(None).unwrap_err();
    assert_eq!(e.response_status(), 401);
}

#[test]
fn data_request_urls() {
    let core = core_with_token("tok");
    assert_eq!(
        core.data_request_url(Some("tok"), None, "/audio/external_id/ext-1", Some("token=tok&x=1")).unwrap(),
        "http://127.0.0.1:7905/audio/external_id/ext-1?x=1"
    );
    // "default:tok" in a Basic header
    assert_eq!(
        core.data_request_url(None, Some("Basic ZGVmYXVsdDp0b2s="), "/thumbnail/3", None).unwrap(),
        "http://127.0.0.1:7905/thumbnail/3"
    );
    let e = core.data_request_url(None, Some("Basic !!"), "/thumbnail/3", None).unwrap_err();
    assert_eq!(e.status, Some(401));
    let e = core.data_request_url(Some("bad"), Some("Basic ZGVmYXVsdDp0b2s="), "/thumbnail/3", None).unwrap_err();
    assert_eq!(e.status, Some(401));
}

#[test]
fn scoped_sharing_flow() {
    let mut core = core_with_token("tok");
    let e = core.generate_scoped_token(Some("bad"), "ext-1".to_string()).unwrap_err();
    assert_eq!(e.status, Some(401));
    let scoped = core.generate_scoped_token(Some("tok"), "ext-1".to_string()).unwrap();
    assert_eq!(scoped.len(), 12);
    let info = core.scoped_music_info(&scoped).unwrap();
    assert_eq!(info.thumbnail_id, 77);
    assert_eq!(core.scoped_thumbnail_url(&scoped).unwrap(), "http://127.0.0.1:7905/thumbnail/77");
    assert_eq!(core.scoped_audio_url(&scoped).unwrap(), "http://127.0.0.1:7905/audio/external_id/ext-1");
    let e = core.scoped_audio_url("unknown").unwrap_err();
    assert_eq!(e.status, Some(401));
    assert_eq!(message(&e), "Invalid token or not authorized");
}

#[test]
fn unknown_music_is_not_found() {
    let mut core = core_with_token("tok");
    let scoped = core.generate_scoped_token(Some("tok"), "missing".to_string()).unwrap();
    let e = core.scoped_music_info(&scoped).unwrap_err();
    assert_eq!(e.status, Some(404));
    assert_eq!(message(&e), "music id not found");
    assert_eq!(core.scoped_thumbnail_url(&scoped).unwrap_err().status, Some(404));
    assert_eq!(core.scoped_audio_url(&scoped).unwrap(), "http://127.0.0.1:7905/audio/external_id/missing");
}

#[test]
fn cache_header_on_success_only() {
    assert!(adds_cache_header(200));
    assert!(adds_cache_header(206));
    assert!(!adds_cache_header(304));
    assert!(!adds_cache_header(404));
    assert_eq!(audio_cache_header(), "private, max-age=604800");
}

#[test]
fn error_status_and_body() {
    let e = AppError::message("boom".to_string());
    assert_eq!(e.response_status(), 500);
    let e = e.status(418);
    assert_eq!(e.response_status(), 418);
    assert_eq!(AppError::response_text("boom"), "Something went wrong: boom");
}

#[test]
fn scoped_requests_at_given_times() {
    let mut core = core_with_token("tok");
    core.scoped_tokens.generate_for_id_at("scoped".to_string(), "ext-1".to_string(), 1000);
    assert_eq!(core.verify_scoped_token_at("scoped", 1500).unwrap(), "ext-1");
    assert_eq!(core.scoped_music_info_at("scoped", 1500).unwrap().thumbnail_id, 77);
    assert_eq!(core.scoped_thumbnail_url_at("scoped", 1500).unwrap(), "http://127.0.0.1:7905/thumbnail/77");
    assert_eq!(core.scoped_audio_url_at("scoped", 4600).unwrap(), "http://127.0.0.1:7905/audio/external_id/ext-1");
    // past the expiry of 3600 seconds it is refused and dropped
    let e = core.scoped_audio_url_at("scoped", 4601).unwrap_err();
    assert_eq!(e.status, Some(401));
    assert_eq!(message(&e), "Invalid token or not authorized");
    assert_eq!(core.verify_scoped_token_at("scoped", 1500).unwrap_err().status, Some(401));
    core.scoped_tokens.generate_for_id_at("other".to_string(), "missing".to_string(), 1000);
    assert_eq!(core.scoped_music_info_at("other", 1001).unwrap_err().status, Some(404));
    assert_eq!(core.scoped_thumbnail_url_at("other", 1001).unwrap_err().status, Some(404));
}

#[test]
fn clock_error_is_a_plain_500() {
    let e = musikquadrupled::state::clock_error();
    assert_eq!(e.response_status(), 500);
    assert_eq!(message(&e), "the clock reads earlier than the Unix epoch");
}

#[test]
fn scoped_token_is_alphanumeric() {
    let mut core = core_with_token("tok");
    let scoped = core.generate_scoped_token(Some("tok"), "ext-1".to_string()).unwrap();
    assert!(scoped.chars().all(|c| c.is_ascii_alphanumeric()));
    let e = core.generate_scoped_token(None, "ext-1".to_string()).unwrap_err();
    assert_eq!(message(&e), "Invalid token or token not present");
}

#[test]
fn both_tls_paths_serve_over_tls() {
    match serve_mode(Some("cert.pem".to_string()), Some("key.pem".to_string()), true) {
        ServeMode::Tls { cert_path, key_path } => {
            assert_eq!(cert_path, "cert.pem");
            assert_eq!(key_path, "key.pem");
        }
        _ => panic!("expected TLS"),
    }
}

#[test]
fn missing_tls_path_serves_plain_http_only_when_insecure() {
    assert!(matches!(serve_mode(Some("cert.pem".to_string()), None, true), ServeMode::Insecure));
    assert!(matches!(serve_mode(None, Some("key.pem".to_string()), false), ServeMode::Refuse));
    assert!(matches!(serve_mode(None, None, false), ServeMode::Refuse));
    assert!(matches!(serve_mode(None, None, true), ServeMode::Insecure));
}
