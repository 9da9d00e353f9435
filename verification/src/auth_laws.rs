//! What sign-in promises across calls, proved over the state model of
//! `AuthState` that its methods' contracts are written in.
use vstd::prelude::*;

use crate::auth::{
    after_failure, elapsed_ns, expiry_after, live_sessions, login_next, login_outcome,
    open_windows, rate_limited, token_digest_of, validate_next, validate_result, AuthView,
    ClientAddr, LoginOutcome, LOCKOUT_WINDOW_NS, MAX_FAILED_ATTEMPTS,
};

verus! {

/// A correct token, presented while the client is not locked out, mints a
/// session that validates, with the expiry it was minted with, until that
/// expiry.
pub proof fn law_correct_token_mints_a_session_that_validates(
    v: AuthView,
    client: ClientAddr,
    token: Seq<char>,
    wall: u128,
    mono: u128,
    id: Seq<char>,
    later: u128,
)
    requires
        v.token_digest == Some(token_digest_of(token)),
        !rate_limited(v.attempts, client, mono),
        later < expiry_after(wall, v.ttl_ns),
    ensures
        login_outcome(v, client, token, mono) == LoginOutcome::Success,
        validate_result(login_next(v, client, token, wall, mono, id), id, later) == Some(
            expiry_after(wall, v.ttl_ns),
        ),
        validate_next(login_next(v, client, token, wall, mono, id), id, later) == login_next(
            v,
            client,
            token,
            wall,
            mono,
            id,
        ),
{
}

/// A wrong token mints nothing: the outcome is a refusal and the session
/// table is untouched.
pub proof fn law_wrong_token_mints_nothing(
    v: AuthView,
    client: ClientAddr,
    token: Seq<char>,
    wall: u128,
    mono: u128,
    id: Seq<char>,
)
    requires
        v.token_digest is Some,
        v.token_digest != Some(token_digest_of(token)),
    ensures
        login_outcome(v, client, token, mono) != LoginOutcome::Success,
        login_next(v, client, token, wall, mono, id).sessions == v.sessions,
{
}

/// An id that names no session is rejected, and nothing changes.
pub proof fn law_unknown_session_is_rejected(v: AuthView, id: Seq<char>, now: u128)
    requires
        v.token_digest is Some,
        !v.sessions.contains_key(id),
    ensures
        validate_result(v, id, now) is None,
        validate_next(v, id, now) == v,
{
}

/// Revoking a session invalidates it immediately.
pub proof fn law_revoked_session_never_validates(v: AuthView, id: Seq<char>, now: u128)
    requires
        v.token_digest is Some,
    ensures
        validate_result(AuthView { sessions: v.sessions.remove(id), ..v }, id, now) is None,
{
}

/// A session does not validate once its expiry has passed, and is dropped
/// when that is found out.
pub proof fn law_expired_session_does_not_validate(v: AuthView, id: Seq<char>, now: u128)
    requires
        v.token_digest is Some,
        v.sessions.contains_key(id),
        v.sessions[id] <= now,
    ensures
        validate_result(v, id, now) is None,
        !validate_next(v, id, now).sessions.contains_key(id),
{
}

/// With authentication disabled, any token signs in and any id validates.
pub proof fn law_disabled_auth_accepts_anything(
    v: AuthView,
    client: ClientAddr,
    token: Seq<char>,
    mono: u128,
    id: Seq<char>,
    now: u128,
)
    requires
        v.token_digest is None,
    ensures
        login_outcome(v, client, token, mono) == LoginOutcome::Success,
        validate_result(v, id, now) is Some,
{
}

/// A successful sign-in forgets the client's earlier failures.
pub proof fn law_success_clears_failures(
    v: AuthView,
    client: ClientAddr,
    token: Seq<char>,
    wall: u128,
    mono: u128,
    id: Seq<char>,
)
    requires
        v.token_digest == Some(token_digest_of(token)),
        !rate_limited(v.attempts, client, mono),
    ensures
        !login_next(v, client, token, wall, mono, id).attempts.contains_key(client),
{
}

/// The state after signing in with `token` from `client` at each of the
/// monotonic `times` in turn.
pub open spec fn after_logins(
    v: AuthView,
    client: ClientAddr,
    token: Seq<char>,
    wall: u128,
    times: Seq<u128>,
    id: Seq<char>,
) -> AuthView
    decreases times.len(),
{
    if times.len() == 0 {
        v
    } else {
        login_next(after_logins(v, client, token, wall, times.drop_last(), id), client, token, wall, times.last(), id)
    }
}

proof fn lemma_failures_accumulate(
    v: AuthView,
    client: ClientAddr,
    token: Seq<char>,
    wall: u128,
    times: Seq<u128>,
    id: Seq<char>,
)
    requires
        v.token_digest is Some,
        v.token_digest != Some(token_digest_of(token)),
        !v.attempts.contains_key(client),
        1 <= times.len() <= MAX_FAILED_ATTEMPTS,
        forall|i: int| 0 <= i < times.len() ==> times[0] <= #[trigger] times[i] < times[0] + LOCKOUT_WINDOW_NS,
    ensures
        after_logins(v, client, token, wall, times, id).attempts.contains_key(client),
        after_logins(v, client, token, wall, times, id).attempts[client] == (times.len() as u32, times[0]),
        after_logins(v, client, token, wall, times, id).token_digest == v.token_digest,
        after_logins(v, client, token, wall, times, id).sessions == v.sessions,
    decreases times.len(),
{
    let d = times.drop_last();
    if times.len() == 1 {
        assert(d.len() == 0);
        assert(after_logins(v, client, token, wall, d, id) == v);
        assert(!rate_limited(v.attempts, client, times.last()));
        assert(times.last() == times[0]);
    } else {
        assert forall|i: int| 0 <= i < d.len() implies d[0] <= #[trigger] d[i] < d[0]
            + LOCKOUT_WINDOW_NS by {
            assert(d[i] == times[i]);
        }
        lemma_failures_accumulate(v, client, token, wall, d, id);
        let prev = after_logins(v, client, token, wall, d, id);
        let t = times.last();
        assert(t == times[times.len() - 1]);
        assert(elapsed_ns(t, times[0]) < LOCKOUT_WINDOW_NS);
        assert(!rate_limited(prev.attempts, client, t));
        assert(login_outcome(prev, client, token, t) == LoginOutcome::BadToken);
        assert(after_failure(prev.attempts, client, t)[client] == (times.len() as u32, times[0]));
    }
}

/// Ten failed sign-ins from one address within the window lock that address
/// out for the rest of the window, correct token included.
pub proof fn law_repeated_failures_lock_out(
    v: AuthView,
    client: ClientAddr,
    wrong: Seq<char>,
    wall: u128,
    times: Seq<u128>,
    id: Seq<char>,
    any_token: Seq<char>,
    now: u128,
)
    requires
        v.token_digest is Some,
        v.token_digest != Some(token_digest_of(wrong)),
        !v.attempts.contains_key(client),
        times.len() == MAX_FAILED_ATTEMPTS,
        forall|i: int| 0 <= i < times.len() ==> times[0] <= #[trigger] times[i] < times[0] + LOCKOUT_WINDOW_NS,
        times[0] <= now < times[0] + LOCKOUT_WINDOW_NS,
    ensures
        forall|k: int|
            0 <= k < times.len() ==> login_outcome(
                #[trigger] after_logins(v, client, wrong, wall, times.take(k), id),
                client,
                wrong,
                times[k],
            ) == LoginOutcome::BadToken,
        login_outcome(after_logins(v, client, wrong, wall, times, id), client, any_token, now)
            == LoginOutcome::RateLimited,
{
    lemma_failures_accumulate(v, client, wrong, wall, times, id);
    assert forall|k: int| 0 <= k < times.len() implies login_outcome(
        #[trigger] after_logins(v, client, wrong, wall, times.take(k), id),
        client,
        wrong,
        times[k],
    ) == LoginOutcome::BadToken by {
        let p = times.take(k);
        if k == 0 {
            assert(p.len() == 0);
            assert(after_logins(v, client, wrong, wall, p, id) == v);
        } else {
            assert forall|i: int| 0 <= i < p.len() implies p[0] <= #[trigger] p[i] < p[0]
                + LOCKOUT_WINDOW_NS by {
                assert(p[i] == times[i]);
            }
            lemma_failures_accumulate(v, client, wrong, wall, p, id);
            assert(p[0] == times[0]);
        }
    }
}

/// Failures are counted per address: a sign-in from one address leaves
/// another address's count, and whether it is locked out, as they were.
pub proof fn law_failures_are_counted_per_address(
    v: AuthView,
    a: ClientAddr,
    b: ClientAddr,
    token: Seq<char>,
    wall: u128,
    mono: u128,
    id: Seq<char>,
    any_token: Seq<char>,
    now: u128,
)
    requires
        a != b,
    ensures
        login_next(v, a, token, wall, mono, id).attempts.contains_key(b) == v.attempts.contains_key(b),
        v.attempts.contains_key(b) ==> login_next(v, a, token, wall, mono, id).attempts[b]
            == v.attempts[b],
        rate_limited(login_next(v, a, token, wall, mono, id).attempts, b, now) == rate_limited(
            v.attempts,
            b,
            now,
        ),
        login_outcome(login_next(v, a, token, wall, mono, id), b, any_token, now) == login_outcome(
            v,
            b,
            any_token,
            now,
        ),
{
}

/// A lockout ends one window after the first failure it counted: from then
/// on the address is not refused, and the right token signs in again.
pub proof fn law_lockout_ends_after_its_window(
    v: AuthView,
    client: ClientAddr,
    token: Seq<char>,
    now: u128,
)
    requires
        v.token_digest == Some(token_digest_of(token)),
        v.attempts.contains_key(client),
        now >= v.attempts[client].1 + LOCKOUT_WINDOW_NS,
    ensures
        !rate_limited(v.attempts, client, now),
        login_outcome(v, client, token, now) == LoginOutcome::Success,
{
}

/// A successful sign-in restarts the count: the next ten wrong tokens from
/// that address within one window are each refused as wrong, and only then
/// is the address locked out.
pub proof fn law_success_restarts_the_count(
    v: AuthView,
    client: ClientAddr,
    token: Seq<char>,
    wall: u128,
    mono: u128,
    id: Seq<char>,
    wrong: Seq<char>,
    times: Seq<u128>,
    any_token: Seq<char>,
    now: u128,
)
    requires
        v.token_digest == Some(token_digest_of(token)),
        v.token_digest != Some(token_digest_of(wrong)),
        !rate_limited(v.attempts, client, mono),
        times.len() == MAX_FAILED_ATTEMPTS,
        forall|i: int| 0 <= i < times.len() ==> times[0] <= #[trigger] times[i] < times[0] + LOCKOUT_WINDOW_NS,
        times[0] <= now < times[0] + LOCKOUT_WINDOW_NS,
    ensures
        ({
            let fresh = login_next(v, client, token, wall, mono, id);
            &&& forall|k: int|
                0 <= k < times.len() ==> login_outcome(
                    #[trigger] after_logins(fresh, client, wrong, wall, times.take(k), id),
                    client,
                    wrong,
                    times[k],
                ) == LoginOutcome::BadToken
            &&& login_outcome(after_logins(fresh, client, wrong, wall, times, id), client, any_token, now)
                == LoginOutcome::RateLimited
        }),
{
    let fresh = login_next(v, client, token, wall, mono, id);
    law_success_clears_failures(v, client, token, wall, mono, id);
    law_repeated_failures_lock_out(fresh, client, wrong, wall, times, id, any_token, now);
}

/// One operation on sign-in state, as the methods of `AuthState` perform it.
pub enum AuthOp {
    /// `login_at(client, token, wall, mono, id)`.
    Login { client: ClientAddr, token: Seq<char>, wall: u128, mono: u128, id: Seq<char> },
    /// `validate_at(id, now)`.
    Validate { id: Seq<char>, now: u128 },
    /// `revoke(id)`.
    Revoke { id: Seq<char> },
    /// `sweep_at(wall, mono)`.
    Sweep { wall: u128, mono: u128 },
}

/// The state an operation leaves, as the method's contract gives it.
pub open spec fn apply_op(v: AuthView, op: AuthOp) -> AuthView {
    match op {
        AuthOp::Login { client, token, wall, mono, id } => login_next(v, client, token, wall, mono, id),
        AuthOp::Validate { id, now } => validate_next(v, id, now),
        AuthOp::Revoke { id } => AuthView { sessions: v.sessions.remove(id), ..v },
        AuthOp::Sweep { wall, mono } => AuthView {
            sessions: live_sessions(v.sessions, wall),
            attempts: open_windows(v.attempts, mono),
            ..v
        },
    }
}

/// The state after the operations `ops`, in order.
pub open spec fn run_ops(v: AuthView, ops: Seq<AuthOp>) -> AuthView
    decreases ops.len(),
{
    if ops.len() == 0 {
        v
    } else {
        apply_op(run_ops(v, ops.drop_last()), ops.last())
    }
}

/// Whether `op` is a sign-in that would mint the session id `x`.
pub open spec fn could_mint(op: AuthOp, x: Seq<char>) -> bool {
    op matches AuthOp::Login { id, .. } && id == x
}

proof fn lemma_run_keeps_digest(v: AuthView, ops: Seq<AuthOp>)
    ensures
        run_ops(v, ops).token_digest == v.token_digest,
        run_ops(v, ops).ttl_ns == v.ttl_ns,
    decreases ops.len(),
{
    if ops.len() > 0 {
        lemma_run_keeps_digest(v, ops.drop_last());
    }
}

/// An id that no sign-in minted never validates: starting from a table
/// without it (a fresh `AuthState` has none, and an expired session is
/// dropped when found), whatever validations, revocations, sweeps and
/// other sign-ins follow, the id stays absent and is rejected.
pub proof fn law_unminted_id_never_validates(v: AuthView, ops: Seq<AuthOp>, x: Seq<char>, now: u128)
    requires
        v.token_digest is Some,
        !v.sessions.contains_key(x),
        forall|i: int| 0 <= i < ops.len() ==> !could_mint(#[trigger] ops[i], x),
    ensures
        !run_ops(v, ops).sessions.contains_key(x),
        validate_result(run_ops(v, ops), x, now) is None,
    decreases ops.len(),
{
    lemma_run_keeps_digest(v, ops);
    if ops.len() > 0 {
        let d = ops.drop_last();
        assert forall|i: int| 0 <= i < d.len() implies !could_mint(#[trigger] d[i], x) by {
            assert(d[i] == ops[i]);
        }
        law_unminted_id_never_validates(v, d, x, now);
        assert(!could_mint(ops[ops.len() - 1], x));
    }
}

/// Whether `op` leaves the session `x`, live until `expiry`, alone: it is
/// not revoked, not re-minted, and no sweep or validation happens at or
/// after its expiry.
pub open spec fn spares(op: AuthOp, x: Seq<char>, expiry: u128) -> bool {
    match op {
        AuthOp::Login { id, .. } => id != x,
        AuthOp::Validate { id, now } => id != x || now < expiry,
        AuthOp::Revoke { id } => id != x,
        AuthOp::Sweep { wall, .. } => wall < expiry,
    }
}

/// A live session keeps validating with its expiry, through any operations
/// that spare it, until that expiry.
pub proof fn law_live_session_keeps_validating(v: AuthView, ops: Seq<AuthOp>, x: Seq<char>, now: u128)
    requires
        v.token_digest is Some,
        v.sessions.contains_key(x),
        now < v.sessions[x],
        forall|i: int| 0 <= i < ops.len() ==> spares(#[trigger] ops[i], x, v.sessions[x]),
    ensures
        run_ops(v, ops).sessions.contains_key(x),
        run_ops(v, ops).sessions[x] == v.sessions[x],
        validate_result(run_ops(v, ops), x, now) == Some(v.sessions[x]),
    decreases ops.len(),
{
    lemma_run_keeps_digest(v, ops);
    if ops.len() > 0 {
        let d = ops.drop_last();
        assert forall|i: int| 0 <= i < d.len() implies spares(#[trigger] d[i], x, v.sessions[x]) by {
            assert(d[i] == ops[i]);
        }
        law_live_session_keeps_validating(v, d, x, now);
        assert(spares(ops[ops.len() - 1], x, v.sessions[x]));
        lemma_run_keeps_digest(v, d);
    }
}

} // verus!
