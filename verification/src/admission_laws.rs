//! What the WebSocket admission check promises across sign-in and cookies.
use vstd::prelude::*;

use crate::auth::{
    expiry_after, is_session_id, login_next, rate_limited, token_digest_of, AuthView, ClientAddr,
};
use crate::cookie::{is_plain_cookie_value, law_sent_cookie_reads_back, COOKIE_NAME};
use crate::gate::{admission, origin_ok, scheme_separator, Refusal};
use crate::text::{hex_text, is_hex_digit_char, is_white_space, lemma_hex_text_shape};

verus! {

/// Session ids travel through a `Cookie` header intact.
pub proof fn lemma_session_ids_are_plain(id: Seq<char>)
    requires
        is_session_id(id),
    ensures
        is_plain_cookie_value(id),
{
    let b = choose|b: Seq<u8>| b.len() == crate::auth::SESSION_ID_BYTES && id == hex_text(b);
    lemma_hex_text_shape(b);
    assert forall|i: int| 0 <= i < id.len() implies id[i] != ';' && !is_white_space(
        #[trigger] id[i],
    ) by {
        assert(is_hex_digit_char(id[i]));
    }
}

/// A client that signed in with the right token and sends back the cookie
/// it was given is admitted, from an allowed origin while a terminal is
/// free, until the session expires; and admitting it changes nothing.
pub proof fn law_signed_in_client_is_admitted(
    v: AuthView,
    client: ClientAddr,
    token: Seq<char>,
    wall: u128,
    mono: u128,
    id: Seq<char>,
    origin: Option<Seq<char>>,
    host: Option<Seq<char>>,
    allowed: Seq<Seq<char>>,
    active: usize,
    max_sessions: usize,
    now: u128,
)
    requires
        v.token_digest == Some(token_digest_of(token)),
        !rate_limited(v.attempts, client, mono),
        is_session_id(id),
        now < expiry_after(wall, v.ttl_ns),
        origin_ok(origin, host, allowed),
        active < max_sessions,
    ensures
        ({
            let after = login_next(v, client, token, wall, mono, id);
            admission(
                after,
                origin,
                host,
                Some(COOKIE_NAME@ + "="@ + id),
                allowed,
                active,
                max_sessions,
                now,
            ) == (None::<Refusal>, after)
        }),
{
    lemma_session_ids_are_plain(id);
    law_sent_cookie_reads_back(id);
}

/// A browser page from a foreign origin is refused whatever it presents,
/// and the refusal touches no session.
pub proof fn law_foreign_origin_is_always_refused(
    v: AuthView,
    origin: Seq<char>,
    host: Option<Seq<char>>,
    cookie_header: Option<Seq<char>>,
    allowed: Seq<Seq<char>>,
    active: usize,
    max_sessions: usize,
    now: u128,
)
    requires
        !origin_ok(Some(origin), host, allowed),
    ensures
        admission(v, Some(origin), host, cookie_header, allowed, active, max_sessions, now) == (
            Some(Refusal::ForbiddenOrigin),
            v,
        ),
{
}

/// When sign-in is required, a request whose cookie names no live session is
/// refused as unauthorized, unless its origin is refused first.
pub proof fn law_no_live_session_is_unauthorized(
    v: AuthView,
    origin: Option<Seq<char>>,
    host: Option<Seq<char>>,
    cookie_header: Option<Seq<char>>,
    allowed: Seq<Seq<char>>,
    active: usize,
    max_sessions: usize,
    now: u128,
)
    requires
        v.token_digest is Some,
        origin_ok(origin, host, allowed),
        crate::gate::session_named(cookie_header) matches Some(id) ==> (!v.sessions.contains_key(id)
            || v.sessions[id] <= now),
    ensures
        admission(v, origin, host, cookie_header, allowed, active, max_sessions, now).0 == Some(
            Refusal::Unauthorized,
        ),
{
}

/// A same-origin request is always allowed, whatever extra origins are
/// listed: an origin whose authority (the text after its first `://`) is
/// the `Host` the request was sent to passes.
pub proof fn law_same_origin_is_allowed_whatever_the_list(
    origin: Seq<char>,
    host: Seq<char>,
    allowed: Seq<Seq<char>>,
)
    requires
        scheme_separator(origin) >= 0,
        origin.skip(scheme_separator(origin) + 3) == host,
    ensures
        origin_ok(Some(origin), Some(host), allowed),
{
}

/// Listing more origins never refuses one that was allowed.
pub proof fn law_listing_more_origins_never_refuses(
    origin: Option<Seq<char>>,
    host: Option<Seq<char>>,
    allowed: Seq<Seq<char>>,
    extra: Seq<Seq<char>>,
)
    requires
        origin_ok(origin, host, allowed),
    ensures
        origin_ok(origin, host, allowed + extra),
{
    if let Some(o) = origin {
        if allowed.contains(o) {
            let i = choose|i: int| 0 <= i < allowed.len() && allowed[i] == o;
            assert((allowed + extra)[i] == o);
        }
    }
}

} // verus!
