//! What the `/api` routes decide: the session status, sign-in and sign-out
//! replies, the server description, and when the cookie must be `Secure`.
use vstd::prelude::*;

use crate::auth::{
    accepted_without_session, expiry_after, login_explained, login_explained_at, login_outcome,
    validate_next, validate_result, AuthState, AuthView, ClientAddr, LoginOutcome,
};
use crate::cookie::{
    clear_cookie, clear_cookie_text, cookie_value, session_cookie, session_cookie_text,
    COOKIE_NAME,
};
use crate::crypto::RandomSourceError;
use crate::gate::{opt_text, session_named};
use crate::protocol::{ApiError, ServerInfo, PROTOCOL_VERSION};
use crate::text::chars_of;

verus! {

/// The character with ASCII letters folded to lower case, as a code.
pub open spec fn ascii_lower_code(c: char) -> u32 {
    if 'A' <= c <= 'Z' {
        (c as u32 + 32) as u32
    } else {
        c as u32
    }
}

/// Equality up to ASCII case, as `str::eq_ignore_ascii_case` decides it.
pub open spec fn eq_ignore_ascii_case(a: Seq<char>, b: Seq<char>) -> bool {
    &&& a.len() == b.len()
    &&& forall|i: int| 0 <= i < a.len() ==> ascii_lower_code(a[i]) == ascii_lower_code(b[i])
}

fn lower_code(c: char) -> (r: u32)
    ensures
        r == ascii_lower_code(c),
{
    if 'A' <= c && c <= 'Z' {
        c as u32 + 32
    } else {
        c as u32
    }
}

fn equals_ignoring_ascii_case(a: &str, b: &str) -> (r: bool)
    ensures
        r == eq_ignore_ascii_case(a@, b@),
{
    let x = chars_of(a);
    let y = chars_of(b);
    if x.len() != y.len() {
        return false;
    }
    let mut i: usize = 0;
    while i < x.len()
        invariant
            x@ == a@,
            y@ == b@,
            x@.len() == y@.len(),
            i <= x@.len(),
            forall|j: int| 0 <= j < i ==> ascii_lower_code(x@[j]) == ascii_lower_code(y@[j]),
        decreases x@.len() - i,
    {
        if lower_code(x[i]) != lower_code(y[i]) {
            return false;
        }
        i += 1;
    }
    true
}

/// `Secure` cookies are dropped over plain HTTP, which would break the common
/// `http://localhost` case, so the flag is set only when the operator forced
/// it or the request arrived over TLS (`X-Forwarded-Proto: https`).
pub fn use_secure_cookie(forced: bool, forwarded_proto: Option<&str>) -> (r: bool)
    ensures
        r == (forced || (forwarded_proto matches Some(p) && eq_ignore_ascii_case(p@, "https"@))),
{
    if forced {
        return true;
    }
    match forwarded_proto {
        Some(p) => equals_ignoring_ascii_case(p, "https"),
        None => false,
    }
}

/// The session id the `Cookie` header carries.
pub fn session_id(cookie_header: Option<&str>) -> (r: Option<&str>)
    ensures
        match r {
            Some(id) => session_named(opt_text(cookie_header)) == Some(id@),
            None => session_named(opt_text(cookie_header)) is None,
        },
{
    match cookie_header {
        Some(h) => cookie_value(h, COOKIE_NAME),
        None => None,
    }
}

/// When the session the cookie names stays valid: with sign-in disabled
/// every request counts as signed in for one session lifetime from `now`.
pub open spec fn current_session_spec(v: AuthView, session: Option<Seq<char>>, now: u128) -> (Option<u128>, AuthView) {
    if v.token_digest is None {
        (Some(expiry_after(now, v.ttl_ns)), v)
    } else {
        match session {
            None => (None, v),
            Some(id) => (validate_result(v, id, now), validate_next(v, id, now)),
        }
    }
}

/// The expiry of the caller's session at wall time `now`, if signed in.
pub fn current_session_at(auth: &mut AuthState, cookie_header: Option<&str>, now: u128) -> (r: Option<u128>)
    ensures
        final(auth).readings() == old(auth).readings(),
        (r, final(auth)@) == current_session_spec(old(auth)@, session_named(opt_text(cookie_header)), now),
{
    if !auth.auth_required() {
        return auth.validate_at("", now);
    }
    match session_id(cookie_header) {
        Some(id) => auth.validate_at(id, now),
        None => None,
    }
}

/// `current_session_at`, at the current wall-clock time.
pub fn current_session(auth: &mut AuthState, cookie_header: Option<&str>) -> (r: Option<u128>)
    ensures
        (r, final(auth)@) == current_session_spec(
            old(auth)@,
            session_named(opt_text(cookie_header)),
            final(auth).readings().0,
        ),
        final(auth).readings().1 == old(auth).readings().1,
        exists|now: u128|
            (r, final(auth)@) == #[trigger] current_session_spec(
                old(auth)@,
                session_named(opt_text(cookie_header)),
                now,
            ),
{
    let now = auth.read_wall_clock();
    current_session_at(auth, cookie_header, now)
}

/// How the sign-in route answers.
pub enum LoginReply {
    /// An error status with its body.
    Refused { status: u16, body: ApiError },
    /// Success: the `Set-Cookie` value and when the session expires
    /// (nanoseconds since the Unix epoch).
    SignedIn { set_cookie: String, expires_at: u128 },
}

/// `reply` is how the sign-in route answers the login result `res` when
/// sessions last `ttl_secs` and the cookie is `Secure` exactly when `secure`.
pub open spec fn replies_to(
    res: (LoginOutcome, Option<(String, u128)>),
    ttl_secs: u64,
    secure: bool,
    reply: LoginReply,
) -> bool {
    match res.0 {
        LoginOutcome::RateLimited => reply matches LoginReply::Refused { status, body } && status
            == 429 && body.error@ == "rate_limited"@ && body.message@
            == "Too many failed attempts. Wait a minute and try again."@,
        LoginOutcome::BadToken => reply matches LoginReply::Refused { status, body } && status == 401
            && body.error@ == "invalid_token"@ && body.message@ == "That token is not valid."@,
        LoginOutcome::Success => match res.1 {
            None => reply matches LoginReply::Refused { status, body } && status == 500
                && body.error@ == "internal"@ && body.message@ == "Failed to create a session."@,
            Some(p) => reply matches LoginReply::SignedIn { set_cookie, expires_at } && set_cookie@
                == session_cookie_text(p.0@, ttl_secs as nat, secure) && expires_at == p.1,
        },
    }
}

fn api_error(error: &str, message: &str) -> (e: ApiError)
    ensures
        e.error@ == error@,
        e.message@ == message@,
{
    ApiError { error: String::from_str(error), message: String::from_str(message) }
}

/// The answer of the sign-in route to a login result.
pub fn login_reply(res: (LoginOutcome, Option<(String, u128)>), ttl_secs: u64, secure: bool) -> (reply: LoginReply)
    ensures
        replies_to(res, ttl_secs, secure, reply),
{
    match res.0 {
        LoginOutcome::RateLimited => LoginReply::Refused {
            status: 429,
            body: api_error("rate_limited", "Too many failed attempts. Wait a minute and try again."),
        },
        LoginOutcome::BadToken => LoginReply::Refused {
            status: 401,
            body: api_error("invalid_token", "That token is not valid."),
        },
        LoginOutcome::Success => match res.1 {
            None => LoginReply::Refused {
                status: 500,
                body: api_error("internal", "Failed to create a session."),
            },
            Some((id, expires_at)) => LoginReply::SignedIn {
                set_cookie: session_cookie(id.as_str(), ttl_secs, secure),
                expires_at,
            },
        },
    }
}

/// Some login result explains both the new sign-in state and the reply.
pub open spec fn sign_in_explained(
    before: AuthView,
    after: AuthView,
    client: ClientAddr,
    token: Seq<char>,
    ttl_secs: u64,
    secure: bool,
    reply: LoginReply,
) -> bool {
    exists|res: (LoginOutcome, Option<(String, u128)>)|
        #[trigger] login_explained(before, after, client, token, res) && replies_to(
            res,
            ttl_secs,
            secure,
            reply,
        )
}

/// `POST /api/auth/session`: signs in with `token` and builds the reply.
/// Fails only when the random source is unavailable.
pub fn sign_in(auth: &mut AuthState, client: ClientAddr, token: &str, ttl_secs: u64, secure: bool) -> (r: Result<
    LoginReply,
    RandomSourceError,
>)
    ensures
        r matches Ok(reply) ==> sign_in_explained(
            old(auth)@,
            final(auth)@,
            client,
            token@,
            ttl_secs,
            secure,
            reply,
        ),
        r matches Ok(reply) ==> exists|res: (LoginOutcome, Option<(String, u128)>)|
            #[trigger] login_explained_at(
                old(auth)@,
                final(auth)@,
                client,
                token@,
                res,
                final(auth).readings().0,
                final(auth).readings().1,
            ) && replies_to(res, ttl_secs, secure, reply),
        r is Err ==> accepted_without_session(old(auth)@, final(auth)@, client, token@),
        r is Err ==> login_outcome(old(auth)@, client, token@, final(auth).readings().1)
            == LoginOutcome::Success,
{
    match auth.login(client, token) {
        Ok(res) => {
            let ghost res_v = res;
            let reply = login_reply(res, ttl_secs, secure);
            assert(login_explained(old(auth)@, auth@, client, token@, res_v));
            assert(login_explained_at(
                old(auth)@,
                auth@,
                client,
                token@,
                res_v,
                auth.readings().0,
                auth.readings().1,
            ));
            Ok(reply)
        },
        Err(e) => Err(e),
    }
}

/// `DELETE /api/auth/session`: revokes the caller's session, if any, and
/// returns the `Set-Cookie` value that clears the cookie.
pub fn sign_out(auth: &mut AuthState, cookie_header: Option<&str>, secure: bool) -> (cookie: String)
    ensures
        cookie@ == clear_cookie_text(secure),
        final(auth)@ == (match session_named(opt_text(cookie_header)) {
            Some(id) => AuthView { sessions: old(auth)@.sessions.remove(id), ..old(auth)@ },
            None => old(auth)@,
        }),
{
    match session_id(cookie_header) {
        Some(id) => auth.revoke(id),
        None => {},
    }
    clear_cookie(secure)
}

/// `GET /api/info`: what the UI needs before sign-in.
pub fn server_info(version: &str, auth: &AuthState) -> (info: ServerInfo)
    ensures
        info.version@ == version@,
        info.protocol_version == PROTOCOL_VERSION,
        info.auth_required == auth@.token_digest is Some,
{
    ServerInfo {
        version: String::from_str(version),
        protocol_version: PROTOCOL_VERSION,
        auth_required: auth.auth_required(),
    }
}

} // verus!
