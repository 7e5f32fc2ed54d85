use musikquadrupled::error::ErrorSource;
use musikquadrupled::token::{alnum_string, generate_random_string, get_current_time, MusicScopedTokens, Tokens};

#[test]
fn tokens_file_lines_are_trimmed_and_blank_lines_skipped() {
    let mut tokens = Tokens::read("first\n  second \r\n\n\t\nthird");
    let written = tokens.write();
    let mut lines: Vec<&str> = written.lines().collect();
    lines.sort();
    assert_eq!(lines, vec!["first", "second", "third"]);
    assert!(written.ends_with('\n'));
}

#[test]
fn empty_tokens_file_holds_nothing() {
    let mut tokens = Tokens::read("");
    assert_eq!(tokens.write(), "");
    let mut blank = Tokens::read("\n \n\r\n");
    assert_eq!(blank.write(), "");
}

#[test]
fn duplicate_lines_are_stored_once() {
    let mut tokens = Tokens::read("x\nx\n x \n");
    assert_eq!(tokens.write(), "x\n");
}

#[test]
fn generated_token_verifies_and_survives_the_file() {
    let mut tokens = Tokens::read("");
    let token = tokens.generate().expect("hashing succeeds");
    assert_eq!(token.len(), 30);
    assert!(token.chars().all(|c| c.is_ascii_alphanumeric()));
    assert!(tokens.verify(&token).unwrap());
    let contents = tokens.write();
    assert!(contents.starts_with("$argon2"));
    assert!(!contents.contains(token.as_str()));
    let reread = Tokens::read(&contents);
    assert!(reread.verify(&token).unwrap());
}

#[test]
fn unknown_and_revoked_tokens_fail() {
    let mut tokens = Tokens::read("");
    tokens.generate_with("abc".to_string()).unwrap();
    assert!(!tokens.verify("abd").unwrap());
    assert!(tokens.verify("abc").unwrap());
    tokens.revoke_all();
    assert!(!tokens.verify("abc").unwrap());
    assert_eq!(tokens.write(), "");
}

#[test]
fn random_strings_have_the_length_asked_for() {
    let s = generate_random_string(12).expect("random source works");
    assert_eq!(s.len(), 12);
    assert!(s.chars().all(|c| c.is_ascii_alphanumeric()));
    assert_eq!(generate_random_string(0), Some(String::new()));
}

#[test]
fn scoped_token_valid_until_expiry() {
    let mut scoped = MusicScopedTokens::new(60);
    let t = scoped.generate_for_id_at("tok".to_string(), "song-1".to_string(), 1000);
    assert_eq!(t, "tok");
    assert_eq!(scoped.verify_at("tok", 1000), Some("song-1".to_string()));
    assert_eq!(scoped.verify_at("tok", 1060), Some("song-1".to_string()));
    assert_eq!(scoped.verify_at("other", 1010), None);
}

#[test]
fn expired_scoped_token_is_dropped() {
    let mut scoped = MusicScopedTokens::new(60);
    scoped.generate_for_id_at("tok".to_string(), "song-1".to_string(), 1000);
    assert_eq!(scoped.verify_at("tok", 1061), None);
    // it is gone, so even an earlier time no longer finds it
    assert_eq!(scoped.verify_at("tok", 1000), None);
}

#[test]
fn scoped_token_in_use_keeps_its_entry() {
    let mut scoped = MusicScopedTokens::new(60);
    scoped.generate_for_id_at("tok".to_string(), "song-1".to_string(), 1000);
    scoped.generate_for_id_at("tok".to_string(), "song-2".to_string(), 1030);
    assert_eq!(scoped.verify_at("tok", 1010), Some("song-1".to_string()));
}

#[test]
fn clock_going_back_wraps_and_expires() {
    let mut scoped = MusicScopedTokens::new(60);
    scoped.generate_for_id_at("tok".to_string(), "song-1".to_string(), 1000);
    assert_eq!(scoped.verify_at("tok", 999), None);
}

#[test]
fn generated_scoped_token_verifies_now() {
    let mut scoped = MusicScopedTokens::new(3600);
    let token = scoped.generate_for_id("song-9".to_string()).expect("clock after epoch");
    assert_eq!(token.len(), 12);
    assert!(token.chars().all(|c| c.is_ascii_alphanumeric()));
    assert_eq!(scoped.verify(&token), Some("song-9".to_string()));
}

#[test]
fn storing_a_hash_twice_is_refused() {
    let mut tokens = Tokens::read("");
    assert_eq!(tokens.generate_with("same".to_string()).unwrap(), "same");
    let before = tokens.write();
    let e = tokens.generate_with("same".to_string()).unwrap_err();
    assert_eq!(e.status, None);
    match &e.source {
        ErrorSource::Message(m) => assert_eq!(format!("{m}\n"), before),
        other => panic!("unexpected {other:?}"),
    }
    assert_eq!(tokens.write(), before);
}

#[test]
fn clock_reads_after_epoch() {
    let now = get_current_time().expect("clock after epoch");
    assert!(now > 1_600_000_000);
}

#[test]
fn drawn_bytes_become_the_string_in_order() {
    assert_eq!(alnum_string(&vec![b'a', b'Z', b'0', b'9', b'q']), "aZ09q");
    assert_eq!(alnum_string(&Vec::new()), "");
}

#[test]
fn random_strings_differ_between_draws() {
    let a = generate_random_string(30).expect("random source works");
    let b = generate_random_string(30).expect("random source works");
    assert_ne!(a, b);
}

#[test]
fn stored_hashes_use_the_default_argon2_configuration() {
    let mut tokens = Tokens::read("");
    tokens.generate_with("token".to_string()).unwrap();
    let contents = tokens.write();
    assert!(contents.starts_with("$argon2i$v=19$m=4096,t=3,p=1$"));
    assert!(!contents.contains("token"));
}
