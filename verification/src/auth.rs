//! Token sign-in and session tracking.
//!
//! A client proves it knows the access token once and gets back an opaque
//! random session id in an httpOnly cookie. Sessions live in this process
//! only: they are revocable immediately, there is no signing key to manage
//! or leak, and a restart invalidates everything.
//!
//! Every operation comes twice: one that reads the clocks (and the random
//! source) itself, and one that takes their readings as arguments and whose
//! contract says exactly what it does with them. Wall times are
//! nanoseconds since the Unix epoch and monotonic times nanoseconds since
//! the state was made, which is the clocks' own precision, so no session
//! ends early and no lockout lasts long by rounding.
use vstd::prelude::*;
use vstd::utf8::encode_utf8;

use crate::crypto::{
    constant_time_eq, instant_now, nanos_since, random_hex, sha256, sha256_digest,
    wall_clock_nanos, RandomSourceError,
};
use crate::keyed::{
    lemma_filter_step, lemma_push_unique, lemma_take_all, lemma_to_map_contains,
    lemma_to_map_index, map_filter, to_map, unique_keys,
};
use crate::text::{chars_of, hex_text, range_equals};

verus! {

broadcast use vstd::seq::group_seq_axioms;

/// Failed sign-in attempts allowed per client address within the window.
pub const MAX_FAILED_ATTEMPTS: u32 = 10;

/// Length of the rate-limit window, in nanoseconds (one minute).
pub const LOCKOUT_WINDOW_NS: u128 = 60_000_000_000;

/// Nanoseconds in a second.
pub const NANOS_PER_SEC: u128 = 1_000_000_000;

/// Bytes of randomness in a session id (it is twice as many hex digits).
pub const SESSION_ID_BYTES: usize = 32;

/// A client's network address, as the rate limiter keys it.
#[derive(Debug, Clone, Copy, PartialEq, Eq, Structural)]
pub enum ClientAddr {
    V4(u32),
    V6(u128),
}

#[derive(Debug, Clone, Copy, PartialEq, Eq, Structural)]
pub enum LoginOutcome {
    Success,
    BadToken,
    RateLimited,
}

struct SessionEntry {
    id: String,
    expires_at: u128,
}

struct AttemptEntry {
    client: ClientAddr,
    failures: u32,
    window_start: u128,
}

spec fn session_pairs(v: Seq<SessionEntry>) -> Seq<(Seq<char>, u128)> {
    v.map_values(|e: SessionEntry| (e.id@, e.expires_at))
}

spec fn attempt_pairs(v: Seq<AttemptEntry>) -> Seq<(ClientAddr, (u32, u128))> {
    v.map_values(|e: AttemptEntry| (e.client, (e.failures, e.window_start)))
}

/// What sign-in state consists of.
pub struct AuthView {
    /// SHA-256 of the access token; `None` when authentication is disabled.
    pub token_digest: Option<Seq<u8>>,
    /// How long a new session stays valid, in nanoseconds.
    pub ttl_ns: u128,
    /// Live sessions: id to expiry (nanoseconds since the Unix epoch).
    pub sessions: Map<Seq<char>, u128>,
    /// Failed attempts per client: count, and start of the window (monotonic
    /// nanoseconds).
    pub attempts: Map<ClientAddr, (u32, u128)>,
}

/// The digest a presented token is compared by.
pub open spec fn token_digest_of(token: Seq<char>) -> Seq<u8> {
    sha256_digest(encode_utf8(token))
}

/// `now + ttl`, saturating at the end of time.
pub open spec fn expiry_after(now: u128, ttl_ns: u128) -> u128 {
    if now + ttl_ns > u128::MAX {
        u128::MAX
    } else {
        (now + ttl_ns) as u128
    }
}

/// Nanoseconds from `since` to `now`, zero when `now` is earlier.
pub open spec fn elapsed_ns(now: u128, since: u128) -> int {
    if now >= since {
        now - since
    } else {
        0
    }
}

/// The client has used up its failed attempts within a window still open.
pub open spec fn rate_limited(attempts: Map<ClientAddr, (u32, u128)>, client: ClientAddr, now: u128) -> bool {
    &&& attempts.contains_key(client)
    &&& elapsed_ns(now, attempts[client].1) < LOCKOUT_WINDOW_NS
    &&& attempts[client].0 >= MAX_FAILED_ATTEMPTS
}

/// The attempt table after one more failure from `client` at `now`: a new
/// or lapsed window restarts at `now` with one failure, an open one counts
/// one more.
pub open spec fn after_failure(attempts: Map<ClientAddr, (u32, u128)>, client: ClientAddr, now: u128) -> Map<
    ClientAddr,
    (u32, u128),
> {
    let e = if attempts.contains_key(client) {
        attempts[client]
    } else {
        (0u32, now)
    };
    let e2 = if elapsed_ns(now, e.1) >= LOCKOUT_WINDOW_NS {
        (0u32, now)
    } else {
        e
    };
    attempts.insert(client, ((e2.0 + 1) as u32, e2.1))
}

/// Outcome of presenting a token whose digest is `presented`, from `client`
/// at monotonic time `now`.
pub open spec fn outcome_for_digest(v: AuthView, client: ClientAddr, presented: Seq<u8>, now: u128) -> LoginOutcome {
    match v.token_digest {
        None => LoginOutcome::Success,
        Some(d) => if rate_limited(v.attempts, client, now) {
            LoginOutcome::RateLimited
        } else if presented == d {
            LoginOutcome::Success
        } else {
            LoginOutcome::BadToken
        },
    }
}

/// Outcome of presenting `token` from `client` at monotonic time `now`.
pub open spec fn login_outcome(v: AuthView, client: ClientAddr, token: Seq<char>, now: u128) -> LoginOutcome {
    outcome_for_digest(v, client, token_digest_of(token), now)
}

/// State after presenting a token whose digest is `presented`, from
/// `client` at wall time `wall` and monotonic time `mono`, with `id` as the
/// id a new session would get.
pub open spec fn next_for_digest(
    v: AuthView,
    client: ClientAddr,
    presented: Seq<u8>,
    wall: u128,
    mono: u128,
    id: Seq<char>,
) -> AuthView {
    match outcome_for_digest(v, client, presented, mono) {
        LoginOutcome::Success => AuthView {
            sessions: v.sessions.insert(id, expiry_after(wall, v.ttl_ns)),
            attempts: if v.token_digest is Some {
                v.attempts.remove(client)
            } else {
                v.attempts
            },
            ..v
        },
        LoginOutcome::BadToken => AuthView { attempts: after_failure(v.attempts, client, mono), ..v },
        LoginOutcome::RateLimited => v,
    }
}

/// State after presenting `token` from `client` at wall time `wall` and
/// monotonic time `mono`, with `id` as the id a new session would get.
pub open spec fn login_next(
    v: AuthView,
    client: ClientAddr,
    token: Seq<char>,
    wall: u128,
    mono: u128,
    id: Seq<char>,
) -> AuthView {
    next_for_digest(v, client, token_digest_of(token), wall, mono, id)
}

/// What validating `id` at wall time `now` answers: the expiry of a live
/// session, or `None`.
pub open spec fn validate_result(v: AuthView, id: Seq<char>, now: u128) -> Option<u128> {
    if v.token_digest is None {
        Some(expiry_after(now, v.ttl_ns))
    } else if !v.sessions.contains_key(id) || v.sessions[id] <= now {
        None
    } else {
        Some(v.sessions[id])
    }
}

/// State after validating `id` at wall time `now`: an expired session is
/// dropped.
pub open spec fn validate_next(v: AuthView, id: Seq<char>, now: u128) -> AuthView {
    if v.token_digest is Some && v.sessions.contains_key(id) && v.sessions[id] <= now {
        AuthView { sessions: v.sessions.remove(id), ..v }
    } else {
        v
    }
}

/// Sessions still valid at `now`.
pub open spec fn live_sessions(sessions: Map<Seq<char>, u128>, now: u128) -> Map<Seq<char>, u128> {
    map_filter(sessions, |k: Seq<char>, e: u128| e > now)
}

/// Attempt windows still open at `now`.
pub open spec fn open_windows(attempts: Map<ClientAddr, (u32, u128)>, now: u128) -> Map<
    ClientAddr,
    (u32, u128),
> {
    map_filter(attempts, |k: ClientAddr, a: (u32, u128)| elapsed_ns(now, a.1) < LOCKOUT_WINDOW_NS)
}

/// `after` is `before` swept at wall time `wall` and monotonic time
/// `mono`: the sessions still valid at `wall` and the attempt windows
/// still open at `mono` are kept, nothing else changes.
pub open spec fn swept(before: AuthView, after: AuthView, wall: u128, mono: u128) -> bool {
    after == AuthView {
        sessions: live_sessions(before.sessions, wall),
        attempts: open_windows(before.attempts, mono),
        ..before
    }
}

/// A session id: 64 lowercase hex digits drawn from 32 random bytes.
pub open spec fn is_session_id(id: Seq<char>) -> bool {
    exists|b: Seq<u8>| b.len() == SESSION_ID_BYTES && id == hex_text(b)
}

/// `res` is what signing in with `token` from `client` gives
/// at wall time `wall` and monotonic time `mono`, minting the session id `id`.
pub open spec fn login_explains(
    before: AuthView,
    client: ClientAddr,
    token: Seq<char>,
    res: (LoginOutcome, Option<(String, u128)>),
    wall: u128,
    mono: u128,
    id: Seq<char>,
) -> bool {
    &&& is_session_id(id)
    &&& res.0 == login_outcome(before, client, token, mono)
    &&& (res.0 == LoginOutcome::Success) == res.1 is Some
    &&& (res.1 matches Some(p) ==> p.0@ == id && p.1 == expiry_after(wall, before.ttl_ns))
}

/// `after` and `res` are what signing in with `token` from `client` gives
/// for some readings of the clocks and some fresh session id.
pub open spec fn login_explained(
    before: AuthView,
    after: AuthView,
    client: ClientAddr,
    token: Seq<char>,
    res: (LoginOutcome, Option<(String, u128)>),
) -> bool {
    exists|wall: u128, mono: u128, id: Seq<char>|
        #[trigger] login_explains(before, client, token, res, wall, mono, id) && after == login_next(
            before,
            client,
            token,
            wall,
            mono,
            id,
        )
}

/// `after` and `res` are what signing in with `token` from `client` gives
/// at wall time `wall` and monotonic time `mono`, for some fresh session id.
pub open spec fn login_explained_at(
    before: AuthView,
    after: AuthView,
    client: ClientAddr,
    token: Seq<char>,
    res: (LoginOutcome, Option<(String, u128)>),
    wall: u128,
    mono: u128,
) -> bool {
    exists|id: Seq<char>|
        #[trigger] login_explains(before, client, token, res, wall, mono, id) && after == login_next(
            before,
            client,
            token,
            wall,
            mono,
            id,
        )
}

/// `after` is what an accepted sign-in of `token` from `client` leaves
/// when no session could be minted: for some reading of the monotonic
/// clock the sign-in was accepted, and only the client's failures were
/// forgotten.
pub open spec fn accepted_without_session(
    before: AuthView,
    after: AuthView,
    client: ClientAddr,
    token: Seq<char>,
) -> bool {
    &&& exists|mono: u128| #[trigger] login_outcome(before, client, token, mono) == LoginOutcome::Success
    &&& after == (AuthView {
        attempts: if before.token_digest is Some {
            before.attempts.remove(client)
        } else {
            before.attempts
        },
        ..before
    })
}

/// No client is ever counted past the limit.
pub open spec fn within_limits(v: AuthView) -> bool {
    forall|c: ClientAddr| #[trigger] v.attempts.contains_key(c) ==> v.attempts[c].0 <= MAX_FAILED_ATTEMPTS
}

/// Sign-in state shared by every request handler.
pub struct AuthState {
    token_digest: Option<Vec<u8>>,
    ttl_ns: u128,
    sessions: Vec<SessionEntry>,
    attempts: Vec<AttemptEntry>,
    origin: std::time::Instant,
    /// The last reading of the wall clock taken through this state.
    wall_seen: u128,
    /// The last reading of the monotonic clock taken through this state.
    mono_seen: u128,
}

/// The view leaves out `origin`, the monotonic clock's zero: it is where
/// the readings handed to the `*_at` methods start, not sign-in state.
impl View for AuthState {
    type V = AuthView;

    closed spec fn view(&self) -> AuthView {
        AuthView {
            token_digest: match self.token_digest {
                Some(d) => Some(d@),
                None => None,
            },
            ttl_ns: self.ttl_ns,
            sessions: to_map(session_pairs(self.sessions@)),
            attempts: to_map(attempt_pairs(self.attempts@)),
        }
    }
}

proof fn lemma_bounded_view(v: Seq<AttemptEntry>)
    requires
        forall|i: int| 0 <= i < v.len() ==> (#[trigger] v[i]).failures <= MAX_FAILED_ATTEMPTS,
    ensures
        forall|c: ClientAddr| #[trigger] to_map(attempt_pairs(v)).contains_key(c) ==> to_map(
            attempt_pairs(v),
        )[c].0 <= MAX_FAILED_ATTEMPTS,
    decreases v.len(),
{
    if v.len() > 0 {
        let d = v.drop_last();
        assert(attempt_pairs(v).drop_last() =~= attempt_pairs(d));
        assert forall|i: int| 0 <= i < d.len() implies (#[trigger] d[i]).failures
            <= MAX_FAILED_ATTEMPTS by {
            assert(d[i] == v[i]);
        }
        lemma_bounded_view(d);
        let p = attempt_pairs(v);
        assert(p.last() == (v.last().client, (v.last().failures, v.last().window_start)));
        assert(to_map(p) == to_map(attempt_pairs(d)).insert(p.last().0, p.last().1));
    }
}

/// Whether the characters of `s` are exactly `want`.
fn same_text(s: &String, want: &Vec<char>) -> (r: bool)
    ensures
        r == (s@ == want@),
{
    let c = chars_of(s.as_str());
    let r = range_equals(&c, 0, c.len(), want);
    assert(c@.subrange(0, c@.len() as int) =~= c@);
    r
}

impl AuthState {
    #[verifier::type_invariant]
    spec fn well_formed(self) -> bool {
        &&& unique_keys(session_pairs(self.sessions@))
        &&& unique_keys(attempt_pairs(self.attempts@))
        &&& forall|i: int|
            0 <= i < self.attempts@.len() ==> (#[trigger] self.attempts@[i]).failures
                <= MAX_FAILED_ATTEMPTS
    }

    /// Authentication against the token whose SHA-256 digest is
    /// `token_digest`, or none at all when it is `None`; sessions last
    /// `ttl_secs` seconds.
    pub fn with_digest(token_digest: Option<Vec<u8>>, ttl_secs: u64) -> (auth: Self)
        ensures
            auth@.token_digest == (match token_digest {
                Some(d) => Some(d@),
                None => None,
            }),
            auth@.ttl_ns == ttl_secs * NANOS_PER_SEC,
            auth@.sessions == Map::<Seq<char>, u128>::empty(),
            auth@.attempts == Map::<ClientAddr, (u32, u128)>::empty(),
            auth.readings() == (0u128, 0u128),
    {
        assert(ttl_secs * NANOS_PER_SEC <= u128::MAX) by (nonlinear_arith)
            requires
                ttl_secs <= u64::MAX,
        ;
        let ttl_ns: u128 = ttl_secs as u128 * NANOS_PER_SEC;
        let auth = AuthState {
            token_digest,
            ttl_ns,
            sessions: Vec::new(),
            attempts: Vec::new(),
            origin: instant_now(),
            wall_seen: 0,
            mono_seen: 0,
        };
        assert(session_pairs(auth.sessions@) =~= Seq::<(Seq<char>, u128)>::empty());
        assert(attempt_pairs(auth.attempts@) =~= Seq::<(ClientAddr, (u32, u128))>::empty());
        auth
    }

    /// Authentication with `token`, or none at all when it is `None`;
    /// sessions last `ttl_secs` seconds. Sessions live in this value only.
    pub fn new(token: Option<&str>, ttl_secs: u64) -> (auth: Self)
        ensures
            auth@.token_digest == (match token {
                Some(t) => Some(token_digest_of(t@)),
                None => None,
            }),
            auth@.ttl_ns == ttl_secs * NANOS_PER_SEC,
            auth@.sessions == Map::<Seq<char>, u128>::empty(),
            auth@.attempts == Map::<ClientAddr, (u32, u128)>::empty(),
            auth.readings() == (0u128, 0u128),
    {
        let token_digest = match token {
            Some(t) => Some(sha256(t.as_bytes())),
            None => None,
        };
        AuthState::with_digest(token_digest, ttl_secs)
    }

    /// The last readings of the wall clock (nanoseconds since the Unix
    /// epoch) and of the monotonic clock (nanoseconds since the state was
    /// made) taken through this state; both 0 before the first. Every
    /// method that reads a clock itself judges by the reading it records
    /// here, so expiries stamped at sign-in and the times they are checked
    /// against come from one clock, and so do lockout windows.
    pub closed spec fn readings(&self) -> (u128, u128) {
        (self.wall_seen, self.mono_seen)
    }

    /// Reads the wall clock and records the reading.
    pub(crate) fn read_wall_clock(&mut self) -> (t: u128)
        ensures
            final(self)@ == old(self)@,
            final(self).readings() == (t, old(self).readings().1),
    {
        proof {
            use_type_invariant(&*self);
        }
        let t = wall_clock_nanos();
        self.wall_seen = t;
        t
    }

    /// Reads the monotonic clock and records the reading.
    pub(crate) fn read_monotonic_clock(&mut self) -> (t: u128)
        ensures
            final(self)@ == old(self)@,
            final(self).readings() == (old(self).readings().0, t),
    {
        proof {
            use_type_invariant(&*self);
        }
        let t = nanos_since(&self.origin);
        self.mono_seen = t;
        t
    }

    /// An expiry as the UI is told it: whole milliseconds since the Unix
    /// epoch, rounded down.
    pub fn expires_at_millis(expiry: u128) -> (ms: u128)
        ensures
            ms == expiry / 1_000_000,
    {
        expiry / 1_000_000
    }

    pub fn auth_required(&self) -> (r: bool)
        ensures
            r == self@.token_digest is Some,
    {
        self.token_digest.is_some()
    }

    /// Every mutation keeps the failure counts within the limit.
    proof fn lemma_limits(&self)
        requires
            forall|i: int|
                0 <= i < self.attempts@.len() ==> (#[trigger] self.attempts@[i]).failures
                    <= MAX_FAILED_ATTEMPTS,
        ensures
            within_limits(self@),
    {
        lemma_bounded_view(self.attempts@);
    }

    /// Index of the session called `want`.
    fn find_session(&self, want: &Vec<char>) -> (r: Option<usize>)
        ensures
            match r {
                Some(i) => i < self.sessions@.len() && self.sessions@[i as int].id@ == want@,
                None => !self@.sessions.contains_key(want@),
            },
    {
        let mut i: usize = 0;
        while i < self.sessions.len()
            invariant
                i <= self.sessions@.len(),
                forall|j: int| 0 <= j < i ==> (#[trigger] self.sessions@[j]).id@ != want@,
            decreases self.sessions@.len() - i,
        {
            if same_text(&self.sessions[i].id, want) {
                return Some(i);
            }
            i += 1;
        }
        proof {
            lemma_to_map_contains(session_pairs(self.sessions@), want@);
        }
        None
    }

    /// Index of the attempt record for `client`.
    fn find_attempts(&self, client: ClientAddr) -> (r: Option<usize>)
        ensures
            match r {
                Some(i) => i < self.attempts@.len() && self.attempts@[i as int].client == client,
                None => !self@.attempts.contains_key(client),
            },
    {
        let mut i: usize = 0;
        while i < self.attempts.len()
            invariant
                i <= self.attempts@.len(),
                forall|j: int| 0 <= j < i ==> (#[trigger] self.attempts@[j]).client != client,
            decreases self.attempts@.len() - i,
        {
            if self.attempts[i].client == client {
                return Some(i);
            }
            i += 1;
        }
        proof {
            lemma_to_map_contains(attempt_pairs(self.attempts@), client);
        }
        None
    }

    /// The sessions that satisfy the keep rule: not `drop`, and still valid
    /// at `alive_at` when that is given.
    fn kept_sessions(&self, drop: Option<&Vec<char>>, alive_at: Option<u128>) -> (kept: Vec<SessionEntry>)
        ensures
            unique_keys(session_pairs(kept@)),
            to_map(session_pairs(kept@)) == map_filter(
                self@.sessions,
                |k: Seq<char>, e: u128|
                    (match drop {
                        Some(d) => k != d@,
                        None => true,
                    }) && (match alive_at {
                        Some(t) => e > t,
                        None => true,
                    }),
            ),
    {
        proof {
            use_type_invariant(self);
        }
        let ghost keep = |k: Seq<char>, e: u128|
            (match drop {
                Some(d) => k != d@,
                None => true,
            }) && (match alive_at {
                Some(t) => e > t,
                None => true,
            });
        let ghost all = session_pairs(self.sessions@);
        let mut kept: Vec<SessionEntry> = Vec::new();
        let mut j: usize = 0;
        assert(to_map(all.take(0)) =~= Map::<Seq<char>, u128>::empty());
        assert(session_pairs(kept@) =~= Seq::<(Seq<char>, u128)>::empty());
        assert(to_map(session_pairs(kept@)) =~= map_filter(to_map(all.take(0)), keep));
        while j < self.sessions.len()
            invariant
                j <= self.sessions@.len() == all.len(),
                all == session_pairs(self.sessions@),
                unique_keys(all),
                unique_keys(session_pairs(kept@)),
                to_map(session_pairs(kept@)) == map_filter(to_map(all.take(j as int)), keep),
                keep == (|k: Seq<char>, e: u128|
                    (match drop {
                        Some(d) => k != d@,
                        None => true,
                    }) && (match alive_at {
                        Some(t) => e > t,
                        None => true,
                    })),
            decreases self.sessions@.len() - j,
        {
            let e = &self.sessions[j];
            let dropped = match drop {
                Some(d) => same_text(&e.id, d),
                None => false,
            };
            let expired = match alive_at {
                Some(t) => e.expires_at <= t,
                None => false,
            };
            proof {
                lemma_filter_step(all, j as int, session_pairs(kept@), keep);
            }
            if !dropped && !expired {
                let copy = SessionEntry { id: e.id.clone(), expires_at: e.expires_at };
                let ghost before = kept@;
                kept.push(copy);
                assert(session_pairs(kept@) =~= session_pairs(before).push(all[j as int]));
            }
            j += 1;
        }
        proof {
            lemma_take_all(all);
        }
        kept
    }

    /// The attempt records that satisfy the keep rule: not `drop`, and with
    /// a window still open at `open_at` when that is given.
    fn kept_attempts(&self, drop: Option<ClientAddr>, open_at: Option<u128>) -> (kept: Vec<AttemptEntry>)
        ensures
            unique_keys(attempt_pairs(kept@)),
            forall|i: int| 0 <= i < kept@.len() ==> (#[trigger] kept@[i]).failures <= MAX_FAILED_ATTEMPTS,
            to_map(attempt_pairs(kept@)) == map_filter(
                self@.attempts,
                |k: ClientAddr, a: (u32, u128)|
                    (match drop {
                        Some(d) => k != d,
                        None => true,
                    }) && (match open_at {
                        Some(t) => elapsed_ns(t, a.1) < LOCKOUT_WINDOW_NS,
                        None => true,
                    }),
            ),
    {
        proof {
            use_type_invariant(self);
        }
        let ghost keep = |k: ClientAddr, a: (u32, u128)|
            (match drop {
                Some(d) => k != d,
                None => true,
            }) && (match open_at {
                Some(t) => elapsed_ns(t, a.1) < LOCKOUT_WINDOW_NS,
                None => true,
            });
        let ghost all = attempt_pairs(self.attempts@);
        let mut kept: Vec<AttemptEntry> = Vec::new();
        let mut j: usize = 0;
        assert(to_map(all.take(0)) =~= Map::<ClientAddr, (u32, u128)>::empty());
        assert(attempt_pairs(kept@) =~= Seq::<(ClientAddr, (u32, u128))>::empty());
        assert(to_map(attempt_pairs(kept@)) =~= map_filter(to_map(all.take(0)), keep));
        while j < self.attempts.len()
            invariant
                j <= self.attempts@.len() == all.len(),
                all == attempt_pairs(self.attempts@),
                unique_keys(all),
                forall|i: int|
                    0 <= i < self.attempts@.len() ==> (#[trigger] self.attempts@[i]).failures
                        <= MAX_FAILED_ATTEMPTS,
                unique_keys(attempt_pairs(kept@)),
                forall|i: int| 0 <= i < kept@.len() ==> (#[trigger] kept@[i]).failures <= MAX_FAILED_ATTEMPTS,
                to_map(attempt_pairs(kept@)) == map_filter(to_map(all.take(j as int)), keep),
                keep == (|k: ClientAddr, a: (u32, u128)|
                    (match drop {
                        Some(d) => k != d,
                        None => true,
                    }) && (match open_at {
                        Some(t) => elapsed_ns(t, a.1) < LOCKOUT_WINDOW_NS,
                        None => true,
                    })),
            decreases self.attempts@.len() - j,
        {
            let e = &self.attempts[j];
            let dropped = match drop {
                Some(d) => e.client == d,
                None => false,
            };
            let lapsed = match open_at {
                Some(t) => t.saturating_sub(e.window_start) >= LOCKOUT_WINDOW_NS,
                None => false,
            };
            proof {
                lemma_filter_step(all, j as int, attempt_pairs(kept@), keep);
            }
            if !dropped && !lapsed {
                let copy = AttemptEntry {
                    client: e.client,
                    failures: e.failures,
                    window_start: e.window_start,
                };
                let ghost before = kept@;
                kept.push(copy);
                assert(attempt_pairs(kept@) =~= attempt_pairs(before).push(all[j as int]));
            }
            j += 1;
        }
        proof {
            lemma_take_all(all);
        }
        kept
    }

    /// Whether `client` is locked out at monotonic time `now`.
    fn is_rate_limited(&self, client: ClientAddr, now: u128) -> (r: bool)
        ensures
            r == rate_limited(self@.attempts, client, now),
    {
        proof {
            use_type_invariant(self);
        }
        match self.find_attempts(client) {
            Some(i) => {
                proof {
                    lemma_to_map_index(attempt_pairs(self.attempts@), i as int);
                }
                let e = &self.attempts[i];
                now.saturating_sub(e.window_start) < LOCKOUT_WINDOW_NS && e.failures
                    >= MAX_FAILED_ATTEMPTS
            },
            None => false,
        }
    }

    /// Counts one more failure for `client` at monotonic time `now`.
    fn record_failure(&mut self, client: ClientAddr, now: u128)
        requires
            !rate_limited(old(self)@.attempts, client, now),
        ensures
            final(self).readings() == old(self).readings(),
            final(self)@ == (AuthView { attempts: after_failure(old(self)@.attempts, client, now), ..old(self)@ }),
            within_limits(final(self)@),
    {
        proof {
            use_type_invariant(&*self);
        }
        let (failures, start) = match self.find_attempts(client) {
            Some(i) => {
                proof {
                    lemma_to_map_index(attempt_pairs(self.attempts@), i as int);
                }
                (self.attempts[i].failures, self.attempts[i].window_start)
            },
            None => (0u32, now),
        };
        let (failures, start) = if now.saturating_sub(start) >= LOCKOUT_WINDOW_NS {
            (0u32, now)
        } else {
            (failures, start)
        };
        let mut kept = self.kept_attempts(Some(client), None);
        let entry = AttemptEntry { client, failures: failures + 1, window_start: start };
        let ghost before = kept@;
        proof {
            lemma_push_unique(attempt_pairs(before), (client, ((failures + 1) as u32, start)));
        }
        kept.push(entry);
        assert(attempt_pairs(kept@) =~= attempt_pairs(before).push(
            (client, ((failures + 1) as u32, start)),
        ));
        assert forall|i: int| 0 <= i < kept@.len() implies (#[trigger] kept@[i]).failures
            <= MAX_FAILED_ATTEMPTS by {
            if i < before.len() {
                assert(kept@[i] == before[i]);
            }
        }
        self.attempts = kept;
        proof {
            assert(to_map(attempt_pairs(self.attempts@)) =~= after_failure(
                old(self)@.attempts,
                client,
                now,
            ));
            self.lemma_limits();
        }
    }

    /// Forgets the failures of `client`.
    fn clear_attempts(&mut self, client: ClientAddr)
        ensures
            final(self).readings() == old(self).readings(),
            final(self)@ == (AuthView { attempts: old(self)@.attempts.remove(client), ..old(self)@ }),
            within_limits(final(self)@),
    {
        proof {
            use_type_invariant(&*self);
        }
        let kept = self.kept_attempts(Some(client), None);
        self.attempts = kept;
        proof {
            assert(to_map(attempt_pairs(self.attempts@)) =~= old(self)@.attempts.remove(client));
            self.lemma_limits();
        }
    }

    /// Records a session `id` that expires `ttl` after wall time `now`.
    fn create_session(&mut self, id: String, now: u128) -> (r: (String, u128))
        ensures
            final(self).readings() == old(self).readings(),
            final(self)@ == (AuthView {
                sessions: old(self)@.sessions.insert(id@, expiry_after(now, old(self)@.ttl_ns)),
                ..old(self)@
            }),
            r.0@ == id@,
            r.1 == expiry_after(now, old(self)@.ttl_ns),
    {
        proof {
            use_type_invariant(&*self);
        }
        let want = chars_of(id.as_str());
        let mut kept = self.kept_sessions(Some(&want), None);
        let expires_at = now.saturating_add(self.ttl_ns);
        let returned = id.clone();
        let ghost before = kept@;
        proof {
            lemma_push_unique(session_pairs(before), (id@, expires_at));
        }
        kept.push(SessionEntry { id, expires_at });
        assert(session_pairs(kept@) =~= session_pairs(before).push((returned@, expires_at)));
        self.sessions = kept;
        proof {
            assert(to_map(session_pairs(self.sessions@)) =~= old(self)@.sessions.insert(
                returned@,
                expires_at,
            ));
        }
        (returned, expires_at)
    }

    /// Decides a sign-in attempt at monotonic time `now`, updating the
    /// failure counts, without minting anything.
    fn authenticate_at(&mut self, client: ClientAddr, presented: &[u8], now: u128) -> (r: LoginOutcome)
        ensures
            final(self).readings() == old(self).readings(),
            r == outcome_for_digest(old(self)@, client, presented@, now),
            final(self)@ == (match r {
                LoginOutcome::Success => if old(self)@.token_digest is Some {
                    AuthView { attempts: old(self)@.attempts.remove(client), ..old(self)@ }
                } else {
                    old(self)@
                },
                LoginOutcome::BadToken => AuthView {
                    attempts: after_failure(old(self)@.attempts, client, now),
                    ..old(self)@
                },
                LoginOutcome::RateLimited => old(self)@,
            }),
            within_limits(final(self)@),
    {
        proof {
            use_type_invariant(&*self);
            self.lemma_limits();
        }
        if self.token_digest.is_none() {
            return LoginOutcome::Success;
        }
        if self.is_rate_limited(client, now) {
            return LoginOutcome::RateLimited;
        }
        let matches = match &self.token_digest {
            Some(d) => constant_time_eq(presented, d.as_slice()),
            None => false,
        };
        if matches {
            self.clear_attempts(client);
            LoginOutcome::Success
        } else {
            self.record_failure(client, now);
            LoginOutcome::BadToken
        }
    }

    /// Decides a sign-in by `client` that presented a token with digest
    /// `presented` and, on success, mints the session `id`, all at wall time
    /// `wall` and monotonic time `mono`.
    ///
    /// Returns the outcome and, on success, the session id and its expiry.
    /// The digests are compared in constant time.
    pub fn login_digest_at(
        &mut self,
        client: ClientAddr,
        presented: &[u8],
        wall: u128,
        mono: u128,
        id: String,
    ) -> (r: (LoginOutcome, Option<(String, u128)>))
        ensures
            final(self).readings() == old(self).readings(),
            r.0 == outcome_for_digest(old(self)@, client, presented@, mono),
            final(self)@ == next_for_digest(old(self)@, client, presented@, wall, mono, id@),
            within_limits(final(self)@),
            (r.0 == LoginOutcome::Success) == r.1 is Some,
            r.1 matches Some(p) ==> p.0@ == id@ && p.1 == expiry_after(wall, old(self)@.ttl_ns),
    {
        let outcome = self.authenticate_at(client, presented, mono);
        match outcome {
            LoginOutcome::Success => {
                let minted = self.create_session(id, wall);
                proof {
                    use_type_invariant(&*self);
                    self.lemma_limits();
                }
                (outcome, Some(minted))
            },
            _ => (outcome, None),
        }
    }

    /// Verifies the token presented by `client` and, on success, mints the
    /// session `id`, all at wall time `wall` and monotonic time `mono`.
    ///
    /// Returns the outcome and, on success, the session id and its expiry.
    /// The comparison runs over SHA-256 digests, so it is constant time and
    /// independent of the token's length.
    pub fn login_at(
        &mut self,
        client: ClientAddr,
        token: &str,
        wall: u128,
        mono: u128,
        id: String,
    ) -> (r: (LoginOutcome, Option<(String, u128)>))
        ensures
            final(self).readings() == old(self).readings(),
            r.0 == login_outcome(old(self)@, client, token@, mono),
            final(self)@ == login_next(old(self)@, client, token@, wall, mono, id@),
            within_limits(final(self)@),
            (r.0 == LoginOutcome::Success) == r.1 is Some,
            r.1 matches Some(p) ==> p.0@ == id@ && p.1 == expiry_after(wall, old(self)@.ttl_ns),
    {
        let presented = sha256(token.as_bytes());
        self.login_digest_at(client, presented.as_slice(), wall, mono, id)
    }

    /// Verifies the token and, on success, mints a session with a fresh
    /// random id, reading the clocks and the random source itself.
    ///
    /// Fails only when the operating system's random source is unavailable
    /// for a sign-in that was otherwise accepted; then no session is made.
    pub fn login(&mut self, client: ClientAddr, token: &str) -> (r: Result<
        (LoginOutcome, Option<(String, u128)>),
        RandomSourceError,
    >)
        ensures
            r matches Ok(res) ==> login_explained(old(self)@, final(self)@, client, token@, res),
            r matches Ok(res) ==> login_explained_at(
                old(self)@,
                final(self)@,
                client,
                token@,
                res,
                final(self).readings().0,
                final(self).readings().1,
            ),
            r is Err ==> accepted_without_session(old(self)@, final(self)@, client, token@),
            r is Err ==> login_outcome(old(self)@, client, token@, final(self).readings().1)
                == LoginOutcome::Success,
            within_limits(final(self)@),
    {
        let mono = self.read_monotonic_clock();
        let presented = sha256(token.as_bytes());
        let outcome = self.authenticate_at(client, presented.as_slice(), mono);
        if outcome != LoginOutcome::Success {
            let r = (outcome, None);
            proof {
                let b = Seq::new(32, |i: int| 0u8);
                let id = hex_text(b);
                assert(is_session_id(id));
                assert(login_explains(old(self)@, client, token@, r, 0, mono, id));
                assert(login_explained(old(self)@, self@, client, token@, r));
                assert(login_explains(old(self)@, client, token@, r, self.readings().0, mono, id));
            }
            return Ok(r);
        }
        let fresh = random_hex(SESSION_ID_BYTES);
        match fresh {
            Ok(id) => {
                let wall = self.read_wall_clock();
                let ghost idv = id@;
                let minted = self.create_session(id, wall);
                let r = (outcome, Some(minted));
                proof {
                    use_type_invariant(&*self);
                    self.lemma_limits();
                    assert(login_explains(old(self)@, client, token@, r, wall, mono, idv));
                    assert(login_explained(old(self)@, self@, client, token@, r));
                }
                Ok(r)
            },
            Err(e) => {
                proof {
                    assert(login_outcome(old(self)@, client, token@, mono) == LoginOutcome::Success);
                }
                Err(e)
            },
        }
    }

    /// The expiry of session `id` when it is live at wall time `now`;
    /// an expired session is dropped on the way. With authentication
    /// disabled every id is accepted, valid for the session lifetime.
    pub fn validate_at(&mut self, id: &str, now: u128) -> (r: Option<u128>)
        ensures
            final(self).readings() == old(self).readings(),
            r == validate_result(old(self)@, id@, now),
            final(self)@ == validate_next(old(self)@, id@, now),
            within_limits(final(self)@),
    {
        proof {
            use_type_invariant(&*self);
            self.lemma_limits();
        }
        if self.token_digest.is_none() {
            return Some(now.saturating_add(self.ttl_ns));
        }
        let want = chars_of(id);
        match self.find_session(&want) {
            None => None,
            Some(i) => {
                proof {
                    lemma_to_map_index(session_pairs(self.sessions@), i as int);
                }
                let expires_at = self.sessions[i].expires_at;
                if expires_at <= now {
                    self.revoke(id);
                    None
                } else {
                    Some(expires_at)
                }
            },
        }
    }

    /// `validate_at`, at the current wall-clock time.
    pub fn validate(&mut self, id: &str) -> (r: Option<u128>)
        ensures
            exists|now: u128|
                r == validate_result(old(self)@, id@, now) && final(self)@ == validate_next(
                    old(self)@,
                    id@,
                    now,
                ),
            r == validate_result(old(self)@, id@, final(self).readings().0),
            final(self)@ == validate_next(old(self)@, id@, final(self).readings().0),
            final(self).readings().1 == old(self).readings().1,
            within_limits(final(self)@),
    {
        let now = self.read_wall_clock();
        self.validate_at(id, now)
    }

    /// Ends session `id` immediately.
    pub fn revoke(&mut self, id: &str)
        ensures
            final(self).readings() == old(self).readings(),
            final(self)@ == (AuthView { sessions: old(self)@.sessions.remove(id@), ..old(self)@ }),
            within_limits(final(self)@),
    {
        proof {
            use_type_invariant(&*self);
        }
        let want = chars_of(id);
        let kept = self.kept_sessions(Some(&want), None);
        self.sessions = kept;
        proof {
            assert(to_map(session_pairs(self.sessions@)) =~= old(self)@.sessions.remove(id@));
            use_type_invariant(&*self);
            self.lemma_limits();
        }
    }

    /// Drops the sessions expired at wall time `wall` and the attempt
    /// windows lapsed at monotonic time `mono`, so neither table grows
    /// without bound.
    pub fn sweep_at(&mut self, wall: u128, mono: u128)
        ensures
            swept(old(self)@, final(self)@, wall, mono),
            final(self).readings() == old(self).readings(),
            final(self)@ == (AuthView {
                sessions: live_sessions(old(self)@.sessions, wall),
                attempts: open_windows(old(self)@.attempts, mono),
                ..old(self)@
            }),
            within_limits(final(self)@),
    {
        proof {
            use_type_invariant(&*self);
        }
        let sessions = self.kept_sessions(None, Some(wall));
        self.sessions = sessions;
        let attempts = self.kept_attempts(None, Some(mono));
        self.attempts = attempts;
        proof {
            assert(to_map(session_pairs(self.sessions@)) =~= live_sessions(old(self)@.sessions, wall));
            assert(to_map(attempt_pairs(self.attempts@)) =~= open_windows(old(self)@.attempts, mono));
            self.lemma_limits();
        }
    }

    /// `sweep_at`, at the current readings of both clocks.
    pub fn sweep(&mut self)
        ensures
            exists|wall: u128, mono: u128|
                #![trigger live_sessions(old(self)@.sessions, wall), open_windows(old(self)@.attempts, mono)]
                final(self)@ == (AuthView {
                    sessions: live_sessions(old(self)@.sessions, wall),
                    attempts: open_windows(old(self)@.attempts, mono),
                    ..old(self)@
                }),
            swept(old(self)@, final(self)@, final(self).readings().0, final(self).readings().1),
            within_limits(final(self)@),
    {
        let wall = self.read_wall_clock();
        let mono = self.read_monotonic_clock();
        self.sweep_at(wall, mono);
    }
}

} // verus!
