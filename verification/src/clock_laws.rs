//! What the methods that read the clocks themselves promise across calls:
//! sessions are stamped and judged by one wall clock, and lockout windows
//! opened and judged by one monotonic clock, each reading being the one the
//! state records (`AuthState::readings`).
use vstd::prelude::*;

use crate::auth::{
    elapsed_ns, expiry_after, login_explained_at, login_explains, login_outcome, rate_limited,
    swept, validate_result, AuthView, ClientAddr, LoginOutcome, LOCKOUT_WINDOW_NS,
};
use crate::cookie::{law_sent_cookie_reads_back, COOKIE_NAME};
use crate::gate::{admission, origin_ok, Refusal};
use crate::routes::current_session_spec;

verus! {

/// Sweeping never lifts a lockout: a sign-in at the monotonic reading the
/// sweep used, or any later one, gets the same outcome as without the
/// sweep. It never drops a session that is live at the wall reading it
/// used, and it keeps no session expired by then.
pub proof fn law_sweeping_keeps_what_is_live(
    before: AuthView,
    after: AuthView,
    wall: u128,
    mono: u128,
    client: ClientAddr,
    token: Seq<char>,
    later: u128,
    id: Seq<char>,
)
    requires
        swept(before, after, wall, mono),
        mono <= later,
    ensures
        rate_limited(after.attempts, client, later) == rate_limited(before.attempts, client, later),
        login_outcome(after, client, token, later) == login_outcome(before, client, token, later),
        validate_result(after, id, wall) == validate_result(before, id, wall),
        after.sessions.contains_key(id) ==> after.sessions[id] > wall,
{
    if before.attempts.contains_key(client) {
        let start = before.attempts[client].1;
        if elapsed_ns(later, start) < LOCKOUT_WINDOW_NS {
            assert(elapsed_ns(mono, start) <= elapsed_ns(later, start));
        }
    }
}

/// With sign-in disabled, the session status is one session lifetime from
/// the wall reading; with it enabled, a session is reported exactly while
/// that reading is before its expiry.
pub proof fn law_session_status_is_judged_at_the_wall_clock(
    v: AuthView,
    id: Seq<char>,
    now: u128,
)
    ensures
        v.token_digest is None ==> current_session_spec(v, Some(id), now).0 == Some(
            expiry_after(now, v.ttl_ns),
        ),
        v.token_digest is Some && v.sessions.contains_key(id) ==> (current_session_spec(
            v,
            Some(id),
            now,
        ).0 == if now < v.sessions[id] {
            Some(v.sessions[id])
        } else {
            None
        }),
        v.token_digest is Some && !v.sessions.contains_key(id) ==> current_session_spec(
            v,
            Some(id),
            now,
        ).0 is None,
{
}

/// A session minted by a sign-in at wall reading `wall` is reported as
/// signed in, with the expiry it was minted with, at every wall reading
/// `now` before `wall` plus the session lifetime.
pub proof fn law_minted_session_is_reported_until_expiry(
    v0: AuthView,
    v1: AuthView,
    client: ClientAddr,
    token: Seq<char>,
    res: (LoginOutcome, Option<(String, u128)>),
    wall: u128,
    mono: u128,
    now: u128,
)
    requires
        v0.token_digest is Some,
        login_explained_at(v0, v1, client, token, res, wall, mono),
        res.1 is Some,
        now < expiry_after(wall, v0.ttl_ns),
    ensures
        current_session_spec(v1, Some((res.1->0).0@), now).0 == Some(expiry_after(wall, v0.ttl_ns)),
{
    let id = choose|id: Seq<char>|
        #[trigger] login_explains(v0, client, token, res, wall, mono, id) && v1 == crate::auth::login_next(
            v0,
            client,
            token,
            wall,
            mono,
            id,
        );
    assert((res.1->0).0@ == id);
}

/// A client signed in at wall reading `wall` that sends back its cookie is
/// admitted, from an allowed origin while a terminal is free, at every wall
/// reading `now` before `wall` plus the session lifetime; admitting it
/// changes no session.
pub proof fn law_signed_in_client_is_admitted_until_expiry(
    v0: AuthView,
    v1: AuthView,
    client: ClientAddr,
    token: Seq<char>,
    res: (LoginOutcome, Option<(String, u128)>),
    wall: u128,
    mono: u128,
    origin: Option<Seq<char>>,
    host: Option<Seq<char>>,
    allowed: Seq<Seq<char>>,
    active: usize,
    max_sessions: usize,
    now: u128,
)
    requires
        v0.token_digest is Some,
        login_explained_at(v0, v1, client, token, res, wall, mono),
        res.1 is Some,
        now < expiry_after(wall, v0.ttl_ns),
        origin_ok(origin, host, allowed),
        active < max_sessions,
    ensures
        admission(
            v1,
            origin,
            host,
            Some(COOKIE_NAME@ + "="@ + (res.1->0).0@),
            allowed,
            active,
            max_sessions,
            now,
        ) == (None::<Refusal>, v1),
{
    let id = choose|id: Seq<char>|
        #[trigger] login_explains(v0, client, token, res, wall, mono, id) && v1 == crate::auth::login_next(
            v0,
            client,
            token,
            wall,
            mono,
            id,
        );
    assert((res.1->0).0@ == id);
    crate::admission_laws::lemma_session_ids_are_plain(id);
    law_sent_cookie_reads_back(id);
}

} // verus!
