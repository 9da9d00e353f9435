use sha2::Digest;
use majin::auth::{AuthState, ClientAddr, LoginOutcome, MAX_FAILED_ATTEMPTS};
use majin::cookie::{clear_cookie, cookie_value, session_cookie, COOKIE_NAME};
use majin::crypto::random_hex;

/// Nanoseconds in a millisecond.
const MS: u128 = 1_000_000;

const LOCALHOST: ClientAddr = ClientAddr::V4(0x7f00_0001);

fn state() -> AuthState {
    AuthState::new(Some("s3cret"), 60)
}

#[test]
fn a_correct_token_mints_a_session_that_validates() {
    let mut auth = state();
    let (outcome, session) = auth.login(LOCALHOST, "s3cret").expect("random source");
    assert_eq!(outcome, LoginOutcome::Success);
    let (id, _) = session.expect("session");
    assert!(auth.validate(&id).is_some());
}

#[test]
fn a_wrong_token_mints_nothing() {
    let mut auth = state();
    let (outcome, session) = auth.login(LOCALHOST, "wrong").expect("random source");
    assert_eq!(outcome, LoginOutcome::BadToken);
    assert!(session.is_none());
}

#[test]
fn an_unknown_session_id_is_rejected() {
    assert!(state().validate("not-a-session").is_none());
}

#[test]
fn revoking_invalidates_immediately() {
    let mut auth = state();
    let (_, session) = auth.login(LOCALHOST, "s3cret").expect("random source");
    let (id, _) = session.expect("session");
    auth.revoke(&id);
    assert!(auth.validate(&id).is_none());
}

#[test]
fn repeated_failures_trip_the_rate_limiter() {
    let mut auth = state();
    for _ in 0..MAX_FAILED_ATTEMPTS {
        assert_eq!(
            auth.login(LOCALHOST, "wrong").expect("random source").0,
            LoginOutcome::BadToken
        );
    }
    // Even the correct token is refused once the window is exhausted.
    assert_eq!(
        auth.login(LOCALHOST, "s3cret").expect("random source").0,
        LoginOutcome::RateLimited
    );
}

#[test]
fn expired_sessions_do_not_validate() {
    let mut auth = AuthState::new(Some("s3cret"), 0);
    let (_, session) = auth.login(LOCALHOST, "s3cret").expect("random source");
    let (id, _) = session.expect("session");
    assert!(auth.validate(&id).is_none());
}

#[test]
fn disabled_auth_accepts_anything() {
    let mut auth = AuthState::new(None, 60);
    assert!(!auth.auth_required());
    assert_eq!(
        auth.login(LOCALHOST, "").expect("random source").0,
        LoginOutcome::Success
    );
    assert!(auth.validate("anything").is_some());
}

#[test]
fn cookies_are_parsed_out_of_a_multi_value_header() {
    let header = "theme=dark; majin_session=abc123; other=1";
    assert_eq!(cookie_value(header, COOKIE_NAME), Some("abc123"));
    assert_eq!(cookie_value(header, "missing"), None);
}

#[test]
fn session_cookie_is_http_only_and_same_site_strict() {
    let cookie = session_cookie("abc", 60, true);
    assert!(cookie.contains("HttpOnly"));
    assert!(cookie.contains("SameSite=Strict"));
    assert!(cookie.contains("Secure"));
    assert!(!session_cookie("abc", 60, false).contains("Secure"));
}

#[test]
fn random_ids_are_unique_and_full_length() {
    let a = random_hex(32).expect("random source");
    let b = random_hex(32).expect("random source");
    assert_eq!(a.len(), 64);
    assert_ne!(a, b);
}

#[test]
fn random_ids_are_lowercase_hex() {
    let a = random_hex(16).expect("random source");
    assert_eq!(a.len(), 32);
    assert!(a.chars().all(|c| c.is_ascii_digit() || ('a'..='f').contains(&c)));
    assert_eq!(random_hex(0).expect("random source"), "");
}

#[test]
fn session_cookie_has_the_exact_expected_text() {
    assert_eq!(
        session_cookie("abc", 43200, false),
        "majin_session=abc; Path=/; HttpOnly; SameSite=Strict; Max-Age=43200"
    );
    assert_eq!(
        session_cookie("x", 0, true),
        "majin_session=x; Path=/; HttpOnly; SameSite=Strict; Max-Age=0; Secure"
    );
}

#[test]
fn clearing_the_cookie_expires_it_at_once() {
    assert_eq!(
        clear_cookie(false),
        "majin_session=; Path=/; HttpOnly; SameSite=Strict; Max-Age=0"
    );
    assert_eq!(
        clear_cookie(true),
        "majin_session=; Path=/; HttpOnly; SameSite=Strict; Max-Age=0; Secure"
    );
}

#[test]
fn cookie_values_and_keys_are_trimmed_and_the_first_match_wins() {
    assert_eq!(cookie_value(" a = 1 ; a=2", "a"), Some("1"));
    assert_eq!(cookie_value("novalue; b=2", "b"), Some("2"));
    assert_eq!(cookie_value("a=x=y", "a"), Some("x=y"));
    assert_eq!(cookie_value("", "a"), None);
    assert_eq!(cookie_value("ab=1", "a"), None);
}

#[test]
fn a_success_clears_earlier_failures() {
    let mut auth = state();
    for _ in 0..MAX_FAILED_ATTEMPTS - 1 {
        auth.login(LOCALHOST, "wrong").expect("random source");
    }
    assert_eq!(
        auth.login(LOCALHOST, "s3cret").expect("random source").0,
        LoginOutcome::Success
    );
    for _ in 0..MAX_FAILED_ATTEMPTS - 1 {
        assert_eq!(
            auth.login(LOCALHOST, "wrong").expect("random source").0,
            LoginOutcome::BadToken
        );
    }
    assert_eq!(
        auth.login(LOCALHOST, "s3cret").expect("random source").0,
        LoginOutcome::Success
    );
}

#[test]
fn the_rate_limit_is_per_client() {
    let mut auth = state();
    for _ in 0..MAX_FAILED_ATTEMPTS {
        auth.login(LOCALHOST, "wrong").expect("random source");
    }
    let other = ClientAddr::V6(1);
    assert_eq!(
        auth.login(other, "s3cret").expect("random source").0,
        LoginOutcome::Success
    );
    assert_eq!(
        auth.login(LOCALHOST, "s3cret").expect("random source").0,
        LoginOutcome::RateLimited
    );
}

#[test]
fn the_lockout_window_lapses_after_a_minute() {
    let mut auth = state();
    for _ in 0..MAX_FAILED_ATTEMPTS {
        let (o, _) = auth.login_at(LOCALHOST, "wrong", 0, 1_000 * MS, String::from("unused"));
        assert_eq!(o, LoginOutcome::BadToken);
    }
    let (o, _) = auth.login_at(LOCALHOST, "s3cret", 0, 61_000 * MS - 1, String::from("unused"));
    assert_eq!(o, LoginOutcome::RateLimited);
    let (o, s) = auth.login_at(LOCALHOST, "s3cret", 5 * MS, 61_000 * MS, String::from("fresh"));
    assert_eq!(o, LoginOutcome::Success);
    assert_eq!(s, Some((String::from("fresh"), 60_005 * MS)));
}

#[test]
fn sessions_expire_exactly_at_their_expiry_time() {
    let mut auth = state();
    let (_, s) = auth.login_at(LOCALHOST, "s3cret", 1_000 * MS, 0, String::from("id1"));
    assert_eq!(s, Some((String::from("id1"), 61_000 * MS)));
    assert_eq!(auth.validate_at("id1", 61_000 * MS - 1), Some(61_000 * MS));
    assert_eq!(auth.validate_at("id1", 61_000 * MS), None);
    // An expired session is dropped, not just refused.
    assert_eq!(auth.validate_at("id1", 0), None);
}

#[test]
fn expiry_keeps_sub_millisecond_precision() {
    let mut auth = state();
    // Minted 0.9 ms into a millisecond: still live half a millisecond into
    // the millisecond in which it expires.
    let minted = 1_000 * MS + 900_000;
    let (_, s) = auth.login_at(LOCALHOST, "s3cret", minted, 0, String::from("id1"));
    assert_eq!(s, Some((String::from("id1"), 61_000 * MS + 900_000)));
    assert_eq!(auth.validate_at("id1", 61_000 * MS + 500_000), Some(61_000 * MS + 900_000));
    assert_eq!(auth.validate_at("id1", 61_000 * MS + 900_000), None);
    // The UI is told whole milliseconds, rounded down.
    assert_eq!(AuthState::expires_at_millis(61_000 * MS + 900_000), 61_000);
}

#[test]
fn sweeping_drops_only_expired_sessions() {
    let mut auth = state();
    auth.login_at(LOCALHOST, "s3cret", 0, 0, String::from("old"));
    auth.login_at(LOCALHOST, "s3cret", 30_000 * MS, 0, String::from("new"));
    auth.sweep_at(60_000 * MS, 0);
    assert_eq!(auth.validate_at("old", 0), None);
    assert_eq!(auth.validate_at("new", 60_000 * MS), Some(90_000 * MS));
}

#[test]
fn disabled_auth_validates_for_the_session_lifetime() {
    let mut auth = AuthState::new(None, 60);
    assert_eq!(auth.validate_at("whatever", 1_000 * MS), Some(61_000 * MS));
}

#[test]
fn tokens_are_compared_by_their_sha256_digest() {
    let digest = sha2::Sha256::digest(b"s3cret").to_vec();
    let mut auth = AuthState::with_digest(Some(digest.clone()), 60);
    let (o, s) = auth.login_digest_at(LOCALHOST, &digest, 0, 0, String::from("id"));
    assert_eq!(o, LoginOutcome::Success);
    assert_eq!(s, Some((String::from("id"), 60_000 * MS)));
    // The raw token is not its digest.
    let (o, _) = auth.login_digest_at(LOCALHOST, b"s3cret", 0, 0, String::from("id2"));
    assert_eq!(o, LoginOutcome::BadToken);
    // A state built from the token compares against the same digest.
    let mut by_token = AuthState::new(Some("s3cret"), 60);
    let (o, _) = by_token.login_digest_at(LOCALHOST, &digest, 0, 0, String::from("id3"));
    assert_eq!(o, LoginOutcome::Success);
    let (o, _) = by_token.login_digest_at(LOCALHOST, b"s3cret", 0, 0, String::from("id4"));
    assert_eq!(o, LoginOutcome::BadToken);
}
