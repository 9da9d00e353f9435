use majin::auth::{AuthState, ClientAddr, LoginOutcome};
use majin::config::session_ttl;
use majin::gate::{check_and_reserve_at, check_at, origin_allowed, Refusal};
use majin::slots::SessionSlots;
use majin::protocol::{
    TerminalErrorCode, CLOSE_SESSION_LIMIT, CLOSE_UNAUTHORIZED, PROTOCOL_VERSION,
};
use majin::routes::{
    current_session_at, login_reply, server_info, sign_in, sign_out, use_secure_cookie, LoginReply,
};

const PEER: ClientAddr = ClientAddr::V4(0x0a00_0001);

fn allowed(list: &[&str]) -> Vec<String> {
    list.iter().map(|s| s.to_string()).collect()
}

#[test]
fn refusals_carry_the_close_code_the_client_acts_on() {
    assert_eq!(Refusal::Unauthorized.close_code(), CLOSE_UNAUTHORIZED);
    assert_eq!(Refusal::ForbiddenOrigin.close_code(), CLOSE_UNAUTHORIZED);
    assert_eq!(Refusal::SessionLimit.close_code(), CLOSE_SESSION_LIMIT);
}

#[test]
fn refusals_explain_themselves() {
    let e = Refusal::Unauthorized.error();
    assert_eq!(e.code, TerminalErrorCode::Unauthorized);
    assert_eq!(e.message, "Not signed in, or the session expired.");
    let e = Refusal::ForbiddenOrigin.error();
    assert_eq!(e.code, TerminalErrorCode::Unauthorized);
    assert_eq!(e.message, "Request origin is not allowed.");
    let e = Refusal::SessionLimit.error();
    assert_eq!(e.code, TerminalErrorCode::SessionLimit);
    assert_eq!(e.message, "Too many terminals are already open.");
}

#[test]
fn requests_without_an_origin_pass_the_origin_check() {
    assert!(origin_allowed(None, Some("localhost:8999"), &allowed(&[])));
}

#[test]
fn same_origin_requests_pass_and_cross_origin_ones_do_not() {
    let none = allowed(&[]);
    assert!(origin_allowed(Some("http://localhost:8999"), Some("localhost:8999"), &none));
    assert!(!origin_allowed(Some("http://evil.example"), Some("localhost:8999"), &none));
    assert!(!origin_allowed(Some("http://localhost:8999"), None, &none));
    assert!(!origin_allowed(Some("localhost:8999"), Some("localhost:8999"), &none));
}

#[test]
fn listed_origins_pass() {
    let list = allowed(&["http://localhost:5173"]);
    assert!(origin_allowed(Some("http://localhost:5173"), Some("localhost:8999"), &list));
    assert!(origin_allowed(Some("http://localhost:5173"), None, &list));
    assert!(!origin_allowed(Some("http://localhost:5174"), None, &list));
}

#[test]
fn the_admission_check_runs_origin_then_session_then_limit() {
    let mut auth = AuthState::new(Some("s3cret"), 60);
    let none = allowed(&[]);
    // Bad origin wins over everything.
    assert_eq!(
        check_at(&mut auth, Some("http://evil"), Some("h"), None, &none, 99, 1, 0),
        Some(Refusal::ForbiddenOrigin)
    );
    // No cookie, sign-in required.
    assert_eq!(
        check_at(&mut auth, None, None, None, &none, 99, 1, 0),
        Some(Refusal::Unauthorized)
    );
    // Unknown session.
    assert_eq!(
        check_at(&mut auth, None, None, Some("majin_session=nope"), &none, 0, 1, 0),
        Some(Refusal::Unauthorized)
    );
    let (o, _) = auth.login_at(PEER, "s3cret", 0, 0, String::from("good"));
    assert_eq!(o, LoginOutcome::Success);
    assert_eq!(
        check_at(&mut auth, None, None, Some("majin_session=good"), &none, 1, 1, 10),
        Some(Refusal::SessionLimit)
    );
    assert_eq!(
        check_at(&mut auth, None, None, Some("a=b; majin_session=good"), &none, 0, 1, 10),
        None
    );
    // Once expired, the session no longer admits.
    assert_eq!(
        check_at(&mut auth, None, None, Some("majin_session=good"), &none, 0, 1, 60_000_000_000),
        Some(Refusal::Unauthorized)
    );
}

#[test]
fn without_sign_in_only_the_origin_and_the_limit_matter() {
    let mut auth = AuthState::new(None, 60);
    let none = allowed(&[]);
    assert_eq!(check_at(&mut auth, None, None, None, &none, 0, 8, 0), None);
    assert_eq!(
        check_at(&mut auth, None, None, None, &none, 8, 8, 0),
        Some(Refusal::SessionLimit)
    );
}

#[test]
fn the_secure_flag_follows_tls_or_the_operator() {
    assert!(use_secure_cookie(true, None));
    assert!(use_secure_cookie(false, Some("https")));
    assert!(use_secure_cookie(false, Some("HTTPS")));
    assert!(!use_secure_cookie(false, Some("http")));
    assert!(!use_secure_cookie(false, Some("https ")));
    assert!(!use_secure_cookie(false, None));
}

#[test]
fn login_replies_map_each_outcome_to_its_status() {
    match login_reply((LoginOutcome::RateLimited, None), 60, false) {
        LoginReply::Refused { status, body } => {
            assert_eq!(status, 429);
            assert_eq!(body.error, "rate_limited");
            assert_eq!(body.message, "Too many failed attempts. Wait a minute and try again.");
        }
        LoginReply::SignedIn { .. } => panic!("expected a refusal"),
    }
    match login_reply((LoginOutcome::BadToken, None), 60, false) {
        LoginReply::Refused { status, body } => {
            assert_eq!(status, 401);
            assert_eq!(body.error, "invalid_token");
            assert_eq!(body.message, "That token is not valid.");
        }
        LoginReply::SignedIn { .. } => panic!("expected a refusal"),
    }
    match login_reply((LoginOutcome::Success, None), 60, false) {
        LoginReply::Refused { status, body } => {
            assert_eq!(status, 500);
            assert_eq!(body.error, "internal");
        }
        LoginReply::SignedIn { .. } => panic!("expected a refusal"),
    }
    match login_reply((LoginOutcome::Success, Some((String::from("abc"), 42))), 60, true) {
        LoginReply::SignedIn { set_cookie, expires_at } => {
            assert_eq!(
                set_cookie,
                "majin_session=abc; Path=/; HttpOnly; SameSite=Strict; Max-Age=60; Secure"
            );
            assert_eq!(expires_at, 42);
        }
        LoginReply::Refused { .. } => panic!("expected a sign-in"),
    }
}

#[test]
fn signing_in_then_out_ends_the_session() {
    let mut auth = AuthState::new(Some("s3cret"), 60);
    let reply = sign_in(&mut auth, PEER, "s3cret", 60, false).expect("random source");
    let cookie = match reply {
        LoginReply::SignedIn { set_cookie, .. } => set_cookie,
        LoginReply::Refused { .. } => panic!("expected a sign-in"),
    };
    let header = cookie.split(';').next().unwrap().to_string();
    assert!(header.starts_with("majin_session="));
    assert_eq!(header.len(), "majin_session=".len() + 64);
    assert!(current_session_at(&mut auth, Some(&header), 0).is_some());
    let cleared = sign_out(&mut auth, Some(&header), false);
    assert_eq!(cleared, "majin_session=; Path=/; HttpOnly; SameSite=Strict; Max-Age=0");
    assert!(current_session_at(&mut auth, Some(&header), 0).is_none());
}

#[test]
fn a_wrong_token_is_answered_with_unauthorized() {
    let mut auth = AuthState::new(Some("s3cret"), 60);
    match sign_in(&mut auth, PEER, "nope", 60, false).expect("random source") {
        LoginReply::Refused { status, .. } => assert_eq!(status, 401),
        LoginReply::SignedIn { .. } => panic!("a wrong token signed in"),
    }
}

#[test]
fn current_session_needs_no_cookie_when_sign_in_is_off() {
    let mut auth = AuthState::new(None, 60);
    assert_eq!(current_session_at(&mut auth, None, 1_000), Some(60_000_001_000));
    let mut auth = AuthState::new(Some("t"), 60);
    assert_eq!(current_session_at(&mut auth, None, 1_000), None);
}

#[test]
fn server_info_reports_version_protocol_and_auth() {
    let auth = AuthState::new(Some("t"), 60);
    let info = server_info("1.2.3", &auth);
    assert_eq!(info.version, "1.2.3");
    assert_eq!(info.protocol_version, PROTOCOL_VERSION);
    assert!(info.auth_required);
    assert!(!server_info("1.2.3", &AuthState::new(None, 60)).auth_required);
}

#[test]
fn the_session_lifetime_is_at_least_a_minute() {
    assert_eq!(session_ttl(720), 43_200);
    assert_eq!(session_ttl(0), 60);
    assert_eq!(session_ttl(1), 60);
}

#[test]
fn a_signed_in_client_is_admitted_with_the_cookie_it_was_given() {
    let mut auth = AuthState::new(Some("s3cret"), 60);
    let (outcome, session) = auth.login(PEER, "s3cret").expect("random source");
    assert_eq!(outcome, LoginOutcome::Success);
    let (id, _) = session.expect("session");
    let set_cookie = majin::cookie::session_cookie(&id, 60, false);
    assert_eq!(
        majin::cookie::cookie_value(&set_cookie, majin::cookie::COOKIE_NAME),
        Some(id.as_str())
    );
    let sent = format!("majin_session={id}");
    assert_eq!(
        check_at(&mut auth, Some("http://h:1"), Some("h:1"), Some(&sent), &allowed(&[]), 0, 8, 0),
        None
    );
}

#[test]
fn the_last_free_slot_goes_to_exactly_one_upgrade() {
    let mut auth = AuthState::new(None, 60);
    let mut slots = SessionSlots::new(2);
    let none = allowed(&[]);
    assert_eq!(check_and_reserve_at(&mut auth, None, None, None, &none, &mut slots, 0), None);
    assert_eq!(slots.active(), 1);
    assert_eq!(check_and_reserve_at(&mut auth, None, None, None, &none, &mut slots, 0), None);
    assert_eq!(slots.active(), 2);
    for _ in 0..3 {
        assert_eq!(
            check_and_reserve_at(&mut auth, None, None, None, &none, &mut slots, 0),
            Some(Refusal::SessionLimit)
        );
        assert_eq!(slots.active(), 2);
    }
    slots.release();
    assert_eq!(check_and_reserve_at(&mut auth, None, None, None, &none, &mut slots, 0), None);
    assert_eq!(slots.active(), 2);
}

#[test]
fn a_refused_upgrade_takes_no_slot() {
    let mut auth = AuthState::new(Some("t"), 60);
    let mut slots = SessionSlots::new(8);
    assert_eq!(
        check_and_reserve_at(&mut auth, None, None, None, &allowed(&[]), &mut slots, 0),
        Some(Refusal::Unauthorized)
    );
    assert_eq!(slots.active(), 0);
    assert_eq!(slots.capacity(), 8);
    slots.release();
    assert_eq!(slots.active(), 0);
}
