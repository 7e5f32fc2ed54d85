use musikquadrupled::auth::{basic_auth_header_value, extract_password_from_basic_auth, password_from_decoded};
use musikquadrupled::error::ErrorSource;

#[test]
fn password_from_basic_auth() {
    // "default:secret"
    assert_eq!(extract_password_from_basic_auth("Basic ZGVmYXVsdDpzZWNyZXQ=").unwrap(), "secret");
    // "secret" without the user name
    assert_eq!(extract_password_from_basic_auth("Basic c2VjcmV0").unwrap(), "secret");
    // no scheme prefix at all
    assert_eq!(extract_password_from_basic_auth("c2VjcmV0").unwrap(), "secret");
}

#[test]
fn basic_auth_errors() {
    let e = extract_password_from_basic_auth("Basic not base64!").unwrap_err();
    assert!(matches!(e.source, ErrorSource::Base64(_)));
    assert_eq!(e.status, None);
    // 0xff is not UTF-8
    let e = extract_password_from_basic_auth("Basic /w==").unwrap_err();
    assert!(matches!(e.source, ErrorSource::Utf8(_)));
}

#[test]
fn auth_header_round_trip() {
    let header = basic_auth_header_value("pw");
    assert_eq!(header, "Basic ZGVmYXVsdDpwdw==");
    assert_eq!(extract_password_from_basic_auth(&header).unwrap(), "pw");
    let odd = basic_auth_header_value("default:x");
    assert_eq!(extract_password_from_basic_auth(&odd).unwrap(), "x");
}

#[test]
fn password_from_decoded_bytes() {
    assert_eq!(password_from_decoded(b"default:default:pw".to_vec()).unwrap(), "pw");
    assert_eq!(password_from_decoded(b"pw".to_vec()).unwrap(), "pw");
    assert_eq!(password_from_decoded(Vec::new()).unwrap(), "");
    let e = password_from_decoded(vec![0xc3]).unwrap_err();
    assert!(matches!(e.source, ErrorSource::Utf8(_)));
}
