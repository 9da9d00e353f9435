//! Admission to the `/ws` endpoint: one WebSocket, one PTY, and only for a
//! signed-in browser page from an allowed origin while terminals are free.
use vstd::prelude::*;

use crate::auth::{validate_next, validate_result, AuthState, AuthView};
use crate::cookie::{cookie_in, cookie_value, COOKIE_NAME};
use crate::slots::SessionSlots;
use crate::protocol::{ErrorFrame, TerminalErrorCode, CLOSE_SESSION_LIMIT, CLOSE_UNAUTHORIZED};
use crate::text::{chars_of, range_equals};

verus! {

broadcast use vstd::seq::group_seq_axioms;

/// Why a connection was refused, kept separate from the upgrade itself.
#[derive(Debug, Clone, Copy, PartialEq, Eq, Structural)]
pub enum Refusal {
    Unauthorized,
    ForbiddenOrigin,
    SessionLimit,
}

impl Refusal {
    /// The close code the client acts on: a refused origin looks like a
    /// missing sign-in, so the client goes back to the login screen.
    pub fn close_code(&self) -> (code: u16)
        ensures
            code == (match *self {
                Refusal::Unauthorized | Refusal::ForbiddenOrigin => CLOSE_UNAUTHORIZED,
                Refusal::SessionLimit => CLOSE_SESSION_LIMIT,
            }),
    {
        match self {
            Refusal::Unauthorized | Refusal::ForbiddenOrigin => CLOSE_UNAUTHORIZED,
            Refusal::SessionLimit => CLOSE_SESSION_LIMIT,
        }
    }

    /// The error frame sent before closing.
    pub fn error(&self) -> (frame: ErrorFrame)
        ensures
            frame.code == (match *self {
                Refusal::Unauthorized | Refusal::ForbiddenOrigin => TerminalErrorCode::Unauthorized,
                Refusal::SessionLimit => TerminalErrorCode::SessionLimit,
            }),
            frame.message@ == (match *self {
                Refusal::Unauthorized => "Not signed in, or the session expired."@,
                Refusal::ForbiddenOrigin => "Request origin is not allowed."@,
                Refusal::SessionLimit => "Too many terminals are already open."@,
            }),
    {
        match self {
            Refusal::Unauthorized => ErrorFrame {
                code: TerminalErrorCode::Unauthorized,
                message: String::from_str("Not signed in, or the session expired."),
            },
            Refusal::ForbiddenOrigin => ErrorFrame {
                code: TerminalErrorCode::Unauthorized,
                message: String::from_str("Request origin is not allowed."),
            },
            Refusal::SessionLimit => ErrorFrame {
                code: TerminalErrorCode::SessionLimit,
                message: String::from_str("Too many terminals are already open."),
            },
        }
    }
}

/// Index of the first `://` in `s`, or -1 when there is none.
pub open spec fn scheme_separator(s: Seq<char>) -> int
    decreases s.len(),
{
    if s.len() < 3 {
        -1
    } else if s[0] == ':' && s[1] == '/' && s[2] == '/' {
        0
    } else {
        let r = scheme_separator(s.drop_first());
        if r < 0 {
            -1
        } else {
            r + 1
        }
    }
}

pub proof fn lemma_scheme_separator_bounds(s: Seq<char>)
    ensures
        scheme_separator(s) == -1 || 0 <= scheme_separator(s) <= s.len() - 3,
        scheme_separator(s) >= 0 ==> s[scheme_separator(s)] == ':' && s[scheme_separator(s) + 1]
            == '/' && s[scheme_separator(s) + 2] == '/',
    decreases s.len(),
{
    if s.len() >= 3 && !(s[0] == ':' && s[1] == '/' && s[2] == '/') {
        lemma_scheme_separator_bounds(s.drop_first());
    }
}

/// Cookie-authenticated WebSockets need an explicit origin check: a request
/// without `Origin` (not a browser) passes, as does an origin listed in
/// `allowed`, or one whose authority (after the first `://`) is the `Host`
/// the request was sent to.
pub open spec fn origin_ok(origin: Option<Seq<char>>, host: Option<Seq<char>>, allowed: Seq<Seq<char>>) -> bool {
    match origin {
        None => true,
        Some(o) => allowed.contains(o) || (scheme_separator(o) >= 0 && host == Some(
            o.skip(scheme_separator(o) + 3),
        )),
    }
}

/// The texts of a list of strings.
pub open spec fn texts(v: Seq<String>) -> Seq<Seq<char>> {
    v.map_values(|s: String| s@)
}

fn first_separator(v: &Vec<char>) -> (r: Option<usize>)
    ensures
        match r {
            Some(i) => i as int == scheme_separator(v@),
            None => scheme_separator(v@) < 0,
        },
{
    let n = v.len();
    let mut i: usize = 0;
    proof {
        lemma_scheme_separator_bounds(v@);
        assert(v@.skip(0) =~= v@);
    }
    while n >= 3 && i <= n - 3 && !(v[i] == ':' && v[i + 1] == '/' && v[i + 2] == '/')
        invariant
            i <= n == v@.len(),
            scheme_separator(v@) == (if scheme_separator(v@.skip(i as int)) < 0 {
                -1
            } else {
                i + scheme_separator(v@.skip(i as int))
            }),
        decreases n - i,
    {
        assert(v@.skip(i as int).drop_first() =~= v@.skip(i + 1));
        proof {
            lemma_scheme_separator_bounds(v@.skip(i + 1));
        }
        i += 1;
    }
    if n >= 3 && i <= n - 3 {
        Some(i)
    } else {
        None
    }
}

/// Decides whether the upgrade's origin is acceptable.
pub fn origin_allowed(origin: Option<&str>, host: Option<&str>, allowed: &Vec<String>) -> (r: bool)
    ensures
        r == origin_ok(opt_text(origin), opt_text(host), texts(allowed@)),
{
    let o = match origin {
        None => return true,
        Some(o) => o,
    };
    let oc = chars_of(o);
    let mut i: usize = 0;
    while i < allowed.len()
        invariant
            i <= allowed@.len(),
            oc@ == o@,
            opt_text(origin) == Some(o@),
            forall|j: int| 0 <= j < i ==> texts(allowed@)[j] != o@,
        decreases allowed@.len() - i,
    {
        let ac = chars_of(allowed[i].as_str());
        if range_equals(&oc, 0, oc.len(), &ac) {
            proof {
                assert(oc@.subrange(0, oc@.len() as int) =~= oc@);
                assert(texts(allowed@)[i as int] == o@);
                assert(texts(allowed@).contains(o@));
            }
            return true;
        }
        proof {
            assert(oc@.subrange(0, oc@.len() as int) =~= oc@);
        }
        i += 1;
    }
    assert(!texts(allowed@).contains(o@));
    let h = match host {
        None => return false,
        Some(h) => h,
    };
    match first_separator(&oc) {
        None => false,
        Some(k) => {
            proof {
                lemma_scheme_separator_bounds(oc@);
            }
            let hc = chars_of(h);
            let r = range_equals(&oc, k + 3, oc.len(), &hc);
            assert(oc@.subrange(k + 3, oc@.len() as int) =~= o@.skip(k + 3));
            r
        },
    }
}

/// Whether a connection is refused, and why: the origin is checked first,
/// then (when sign-in is required) the session named by the cookie at wall
/// time `now`, then the number of terminals already open.
pub open spec fn refusal_for(
    v: AuthView,
    origin_is_ok: bool,
    session: Option<Seq<char>>,
    active: usize,
    max_sessions: usize,
    now: u128,
) -> Option<Refusal> {
    if !origin_is_ok {
        Some(Refusal::ForbiddenOrigin)
    } else if v.token_digest is Some && (session is None || validate_result(v, session->0, now) is None) {
        Some(Refusal::Unauthorized)
    } else if active >= max_sessions {
        Some(Refusal::SessionLimit)
    } else {
        None
    }
}

/// The session id the `Cookie` header names, if any.
pub open spec fn session_named(cookie_header: Option<Seq<char>>) -> Option<Seq<char>> {
    match cookie_header {
        Some(h) => cookie_in(h, COOKIE_NAME@),
        None => None,
    }
}

/// Sign-in state after the admission check: validating an expired session
/// drops it.
pub open spec fn state_after_check(v: AuthView, origin_is_ok: bool, session: Option<Seq<char>>, now: u128) -> AuthView {
    if origin_is_ok && v.token_digest is Some && session is Some {
        validate_next(v, session->0, now)
    } else {
        v
    }
}

/// The text of an optional header value.
pub open spec fn opt_text(s: Option<&str>) -> Option<Seq<char>> {
    match s {
        Some(x) => Some(x@),
        None => None,
    }
}

/// Outcome of the admission check at wall time `now`, and the sign-in state
/// it leaves behind.
pub open spec fn admission(
    v: AuthView,
    origin: Option<Seq<char>>,
    host: Option<Seq<char>>,
    cookie_header: Option<Seq<char>>,
    allowed: Seq<Seq<char>>,
    active: usize,
    max_sessions: usize,
    now: u128,
) -> (Option<Refusal>, AuthView) {
    let ok = origin_ok(origin, host, allowed);
    let session = session_named(cookie_header);
    (refusal_for(v, ok, session, active, max_sessions, now), state_after_check(v, ok, session, now))
}

/// Decides whether to accept an upgrade at wall time `now`, given the
/// request's `Origin`, `Host` and `Cookie` headers, the extra allowed
/// origins, and how many terminals are open out of how many allowed.
pub fn check_at(
    auth: &mut AuthState,
    origin: Option<&str>,
    host: Option<&str>,
    cookie_header: Option<&str>,
    allowed: &Vec<String>,
    active: usize,
    max_sessions: usize,
    now: u128,
) -> (r: Option<Refusal>)
    ensures
        final(auth).readings() == old(auth).readings(),
        (r, final(auth)@) == admission(
            old(auth)@,
            opt_text(origin),
            opt_text(host),
            opt_text(cookie_header),
            texts(allowed@),
            active,
            max_sessions,
            now,
        ),
{
    if !origin_allowed(origin, host, allowed) {
        return Some(Refusal::ForbiddenOrigin);
    }
    if auth.auth_required() {
        let session = match cookie_header {
            Some(h) => cookie_value(h, COOKIE_NAME),
            None => None,
        };
        match session {
            Some(id) => {
                if auth.validate_at(id, now).is_none() {
                    return Some(Refusal::Unauthorized);
                }
            },
            None => {
                return Some(Refusal::Unauthorized);
            },
        }
    }
    if active >= max_sessions {
        return Some(Refusal::SessionLimit);
    }
    None
}

/// `check_at`, at the current wall-clock time.
pub fn check(
    auth: &mut AuthState,
    origin: Option<&str>,
    host: Option<&str>,
    cookie_header: Option<&str>,
    allowed: &Vec<String>,
    active: usize,
    max_sessions: usize,
) -> (r: Option<Refusal>)
    ensures
        (r, final(auth)@) == admission(
            old(auth)@,
            opt_text(origin),
            opt_text(host),
            opt_text(cookie_header),
            texts(allowed@),
            active,
            max_sessions,
            final(auth).readings().0,
        ),
        final(auth).readings().1 == old(auth).readings().1,
        exists|now: u128|
            (r, final(auth)@) == #[trigger] admission(
                old(auth)@,
                opt_text(origin),
                opt_text(host),
                opt_text(cookie_header),
                texts(allowed@),
                active,
                max_sessions,
                now,
            ),
{
    let now = auth.read_wall_clock();
    check_at(auth, origin, host, cookie_header, allowed, active, max_sessions, now)
}

/// Decides whether to accept an upgrade at wall time `now`, against the
/// terminals open in `slots`, and when it is accepted takes a slot for it in
/// the same step: the caller gives the slot back when the terminal closes.
/// Held under one lock, this makes the cap hold for simultaneous upgrades.
pub fn check_and_reserve_at(
    auth: &mut AuthState,
    origin: Option<&str>,
    host: Option<&str>,
    cookie_header: Option<&str>,
    allowed: &Vec<String>,
    slots: &mut SessionSlots,
    now: u128,
) -> (r: Option<Refusal>)
    ensures
        final(auth).readings() == old(auth).readings(),
        (r, final(auth)@) == admission(
            old(auth)@,
            opt_text(origin),
            opt_text(host),
            opt_text(cookie_header),
            texts(allowed@),
            old(slots).active_count(),
            old(slots).capacity_count(),
            now,
        ),
        final(slots).capacity_count() == old(slots).capacity_count(),
        final(slots).active_count() == (if r is None {
            old(slots).active_count() + 1
        } else {
            old(slots).active_count() as int
        }),
{
    let r = check_at(auth, origin, host, cookie_header, allowed, slots.active(), slots.capacity(), now);
    if r.is_none() {
        let granted = slots.try_reserve();
        assert(granted);
    }
    r
}

/// `check_and_reserve_at`, at the current wall-clock time.
pub fn check_and_reserve(
    auth: &mut AuthState,
    origin: Option<&str>,
    host: Option<&str>,
    cookie_header: Option<&str>,
    allowed: &Vec<String>,
    slots: &mut SessionSlots,
) -> (r: Option<Refusal>)
    ensures
        (r, final(auth)@) == admission(
            old(auth)@,
            opt_text(origin),
            opt_text(host),
            opt_text(cookie_header),
            texts(allowed@),
            old(slots).active_count(),
            old(slots).capacity_count(),
            final(auth).readings().0,
        ),
        final(auth).readings().1 == old(auth).readings().1,
        exists|now: u128|
            (r, final(auth)@) == #[trigger] admission(
                old(auth)@,
                opt_text(origin),
                opt_text(host),
                opt_text(cookie_header),
                texts(allowed@),
                old(slots).active_count(),
                old(slots).capacity_count(),
                now,
            ),
        final(slots).capacity_count() == old(slots).capacity_count(),
        final(slots).active_count() == (if r is None {
            old(slots).active_count() + 1
        } else {
            old(slots).active_count() as int
        }),
{
    let now = auth.read_wall_clock();
    check_and_reserve_at(auth, origin, host, cookie_header, allowed, slots, now)
}

} // verus!
