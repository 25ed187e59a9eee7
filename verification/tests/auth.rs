use handy_server::auth::{authorize, bearer, check_auth, secret_eq};
use handy_server::config::ServerConfig;
use handy_server::error::StatusCode;

#[test]
fn secret_eq_matches_only_the_exact_token() {
    assert!(secret_eq("swordfish", "swordfish"));
    assert!(!secret_eq("swordfish", "swordfisi"));
    assert!(!secret_eq("swordfish", "swordfis"));
    assert!(!secret_eq("", "x"));
    assert!(secret_eq("", ""));
}

#[test]
fn no_configured_token_lets_the_caller_through() {
    // Only reachable on loopback; see ServerConfig::resolve.
    assert!(authorize(None, None, None));
}

#[test]
fn a_configured_token_is_required() {
    assert!(!authorize(Some("swordfish"), None, None));
    assert!(!authorize(Some("swordfish"), Some("wrong"), None));
    assert!(!authorize(Some("swordfish"), None, Some("wrong")));
}

#[test]
fn either_the_header_or_the_query_may_carry_it() {
    assert!(authorize(Some("swordfish"), Some("swordfish"), None));
    assert!(authorize(Some("swordfish"), None, Some("swordfish")));
}

#[test]
fn a_wrong_header_does_not_fall_through_to_the_query() {
    // Otherwise a client could guess at the header while holding a valid
    // query token, and every attempt would still succeed.
    assert!(!authorize(
        Some("swordfish"),
        Some("wrong"),
        Some("swordfish")
    ));
}

#[test]
fn a_bearer_header_is_read_and_trimmed() {
    assert_eq!(bearer(Some(b"Bearer swordfish")), Some("swordfish"));
    assert_eq!(bearer(Some(b"Bearer  \tswordfish\t ")), Some("swordfish"));
    assert_eq!(bearer(Some(b"Bearer a b")), Some("a b"));
    assert_eq!(bearer(Some(b"Bearer ")), Some(""));
    assert_eq!(bearer(Some(b"Bearer")), None);
    assert_eq!(bearer(Some(b"bearer swordfish")), None);
    assert_eq!(bearer(Some(b"Basic swordfish")), None);
    assert_eq!(bearer(Some(b"")), None);
    assert_eq!(bearer(None), None);
}

#[test]
fn a_header_that_is_not_visible_ascii_holds_no_token() {
    assert_eq!(bearer(Some("Bearer sw\u{f6}rd".as_bytes())), None);
    assert_eq!(bearer(Some(b"Bearer sword\x7f")), None);
    assert_eq!(bearer(Some(b"Bearer sword\x01")), None);
    assert_eq!(bearer(Some(b"Bearer \xff\xfe")), None);
}

#[test]
fn an_unauthorized_request_is_told_so() {
    let refusal = check_auth(Some("secret"), Some(b"Bearer wrong"), Some("secret")).unwrap_err();
    assert_eq!(refusal.status, StatusCode::Unauthorized);
    assert_eq!(refusal.status.as_u16(), 401);
    assert_eq!(refusal.message, "missing or invalid bearer token");
    assert_eq!(
        refusal.body(),
        r#"{"error":{"message":"missing or invalid bearer token","type":"invalid_request_error"}}"#
    );
    assert!(check_auth(Some("secret"), Some(b"Bearer secret"), None).is_ok());
    assert!(check_auth(Some("secret"), None, Some("secret")).is_ok());
    assert!(check_auth(None, None, None).is_ok());
}

#[test]
fn secrets_of_other_alphabets_are_told_apart() {
    assert!(secret_eq("schl\u{fc}ssel", "schl\u{fc}ssel"));
    assert!(!secret_eq("schl\u{fc}ssel", "schlussel"));
    assert!(!secret_eq("a\u{0}b", "a\u{0}c"));
}

#[test]
fn white_space_around_a_token_does_not_matter() {
    for field in ["tok", " tok", "tok\t", "  tok  "] {
        let config = ServerConfig::resolve(8915, Some(field), true).unwrap();
        let token = config.token.as_deref();
        for sent in ["tok", "tok ", "\ttok"] {
            let header = format!("Bearer {sent}");
            assert!(check_auth(token, Some(header.as_bytes()), Some("x")).is_ok());
        }
        for sent in ["", " ", "to k", "Tok", "tokk"] {
            let header = format!("Bearer {sent}");
            let refusal = check_auth(token, Some(header.as_bytes()), Some("tok")).unwrap_err();
            assert_eq!(refusal.status, StatusCode::Unauthorized);
        }
    }
}

#[test]
fn every_byte_of_a_secret_counts() {
    // Differences that would cancel out if they were added up.
    assert!(!secret_eq("ab", "ba"));
    assert!(!secret_eq("aaaa", "abab"));
    for i in 0..16 {
        let mut other = [b'a'; 16];
        other[i] = b'b';
        assert!(!secret_eq("aaaaaaaaaaaaaaaa", std::str::from_utf8(&other).unwrap()));
    }
}

#[test]
fn every_visible_token_is_accepted_as_it_was_configured() {
    for token in ["x", "a b", "!~", "tok\ten", "Bearer ", "0123456789abcdef"] {
        let config = ServerConfig::resolve(8915, Some(token), true).unwrap();
        let configured = config.token.unwrap();
        let header = format!("Bearer {}", configured);
        assert!(check_auth(Some(&configured), Some(header.as_bytes()), None).is_ok());
        assert!(check_auth(Some(&configured), None, None).is_err());
    }
}
