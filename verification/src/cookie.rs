//! The session cookie: reading it out of a `Cookie` header and building the
//! `Set-Cookie` values that create and clear it.
use vstd::prelude::*;

use crate::text::{
    chars_of, decimal_text, find_in, index_of, is_white_space, lemma_index_of_absent,
    lemma_index_of_bounds, lemma_index_of_concat, lemma_trim_without_white_space, push_decimal,
    range_equals, trim, trim_bounds,
};

verus! {

/// Name of the session cookie.
pub const COOKIE_NAME: &'static str = "majin_session";

/// The value of cookie `name` in the raw `Cookie` header `h`: the header is
/// split at `;`, each piece at its first `=`, and the first piece whose
/// trimmed key is `name` gives its trimmed value. Pieces without `=` are
/// skipped.
pub open spec fn cookie_in(h: Seq<char>, name: Seq<char>) -> Option<Seq<char>>
    decreases h.len(),
{
    let end = index_of(h, ';');
    let pair = h.take(end);
    let eq = index_of(pair, '=');
    if 0 <= eq < pair.len() && trim(pair.take(eq)) == name {
        Some(trim(pair.skip(eq + 1)))
    } else if end >= h.len() || end < 0 {
        None
    } else {
        cookie_in(h.skip(end + 1), name)
    }
}

/// Extracts one cookie value from a raw `Cookie` header.
pub fn cookie_value<'a>(header: &'a str, name: &str) -> (r: Option<&'a str>)
    ensures
        r matches Some(v) ==> cookie_in(header@, name@) == Some(v@),
        r is None ==> cookie_in(header@, name@) is None,
{
    let h = chars_of(header);
    let w = chars_of(name);
    let n = h.len();
    let mut st: usize = 0;
    assert(h@.skip(0) =~= h@);
    loop
        invariant
            st <= n == h@.len(),
            h@ == header@,
            w@ == name@,
            cookie_in(header@, name@) == cookie_in(h@.skip(st as int), name@),
        decreases n - st,
    {
        let end = find_in(&h, st, n, ';');
        let eq = find_in(&h, st, end, '=');
        let ghost rest = h@.skip(st as int);
        proof {
            assert(h@.subrange(st as int, n as int) =~= rest);
            assert(rest.take(end - st) =~= h@.subrange(st as int, end as int));
            lemma_index_of_bounds(rest, ';');
            lemma_index_of_bounds(rest.take(end - st), '=');
        }
        if eq < end {
            let (ka, kb) = trim_bounds(&h, st, eq);
            proof {
                assert(rest.take(end - st).take(eq - st) =~= h@.subrange(st as int, eq as int));
            }
            if range_equals(&h, ka, kb, &w) {
                let (va, vb) = trim_bounds(&h, eq + 1, end);
                proof {
                    assert(rest.take(end - st).skip(eq - st + 1) =~= h@.subrange(eq + 1, end as int));
                }
                return Some(header.substring_char(va, vb));
            }
        }
        if end >= n {
            return None;
        }
        assert(rest.skip(end - st + 1) =~= h@.skip(end + 1));
        st = end + 1;
    }
}

/// A cookie value that survives the trip through a `Cookie` header intact:
/// no `;` to end it early, no white space for trimming to take.
pub open spec fn is_plain_cookie_value(value: Seq<char>) -> bool {
    forall|i: int| 0 <= i < value.len() ==> value[i] != ';' && !is_white_space(#[trigger] value[i])
}

/// A header that starts with the session cookie's `name=value` pair,
/// alone or followed by more after a `;`, names that value.
pub proof fn lemma_leading_pair_is_found(value: Seq<char>, rest: Seq<char>)
    requires
        is_plain_cookie_value(value),
        rest.len() == 0 || rest[0] == ';',
    ensures
        cookie_in(COOKIE_NAME@ + "="@ + value + rest, COOKIE_NAME@) == Some(value),
{
    reveal_strlit("majin_session");
    reveal_strlit("=");
    let name = COOKIE_NAME@;
    let pair = name + "="@ + value;
    let h = pair + rest;
    assert forall|i: int| 0 <= i < pair.len() implies pair[i] != ';' by {
        if i >= name.len() + 1 {
            assert(pair[i] == value[i - name.len() - 1]);
        }
    }
    lemma_index_of_absent(pair, ';');
    lemma_index_of_concat(pair, rest, ';');
    if rest.len() > 0 {
        assert(index_of(rest, ';') == 0);
    }
    assert(index_of(h, ';') == pair.len());
    assert(h.take(pair.len() as int) =~= pair);
    assert forall|i: int| 0 <= i < name.len() implies name[i] != '=' by {}
    lemma_index_of_absent(name, '=');
    assert(pair =~= name + ("="@ + value));
    lemma_index_of_concat(name, "="@ + value, '=');
    assert(index_of("="@ + value, '=') == 0);
    assert(index_of(pair, '=') == name.len());
    assert(pair.take(name.len() as int) =~= name);
    assert(pair.skip(name.len() as int + 1) =~= value);
    assert forall|i: int| 0 <= i < name.len() implies !is_white_space(#[trigger] name[i]) by {}
    lemma_trim_without_white_space(name);
    lemma_trim_without_white_space(value);
}

/// What the browser sends back, `majin_session=<value>`, reads back as the
/// value that was set, for a value that a `Cookie` header carries intact.
pub proof fn law_sent_cookie_reads_back(value: Seq<char>)
    requires
        is_plain_cookie_value(value),
    ensures
        cookie_in(COOKIE_NAME@ + "="@ + value, COOKIE_NAME@) == Some(value),
{
    lemma_leading_pair_is_found(value, Seq::empty());
    assert(COOKIE_NAME@ + "="@ + value + Seq::<char>::empty() =~= COOKIE_NAME@ + "="@ + value);
}

/// The `Set-Cookie` value, read as a cookie header, names the session id it
/// sets: the cookie's attributes never shadow its value.
pub proof fn law_set_cookie_names_its_value(value: Seq<char>, max_age_secs: nat, secure: bool)
    requires
        is_plain_cookie_value(value),
    ensures
        cookie_in(session_cookie_text(value, max_age_secs, secure), COOKIE_NAME@) == Some(value),
{
    let rest = "; Path=/; HttpOnly; SameSite=Strict; Max-Age="@ + decimal_text(max_age_secs) + if secure {
        "; Secure"@
    } else {
        Seq::<char>::empty()
    };
    reveal_strlit("; Path=/; HttpOnly; SameSite=Strict; Max-Age=");
    assert(rest[0] == ';');
    assert(session_cookie_text(value, max_age_secs, secure) =~= COOKIE_NAME@ + "="@ + value + rest);
    lemma_leading_pair_is_found(value, rest);
}

/// The `Set-Cookie` value that creates a session: the id, scoped to the
/// whole site, hidden from scripts, never sent cross-site, expiring after
/// `max_age_secs`, and `Secure` when asked for.
pub open spec fn session_cookie_text(value: Seq<char>, max_age_secs: nat, secure: bool) -> Seq<char> {
    COOKIE_NAME@ + "="@ + value + "; Path=/; HttpOnly; SameSite=Strict; Max-Age="@ + decimal_text(
        max_age_secs,
    ) + if secure {
        "; Secure"@
    } else {
        Seq::<char>::empty()
    }
}

/// The `Set-Cookie` value that clears the session cookie.
pub open spec fn clear_cookie_text(secure: bool) -> Seq<char> {
    COOKIE_NAME@ + "=; Path=/; HttpOnly; SameSite=Strict; Max-Age=0"@ + if secure {
        "; Secure"@
    } else {
        Seq::<char>::empty()
    }
}

/// Builds the `Set-Cookie` header for a new session.
///
/// `SameSite=Strict` keeps another site from riding the cookie into a
/// WebSocket upgrade; the explicit origin check on the upgrade covers the
/// same ground for clients where that guarantee is weaker.
pub fn session_cookie(value: &str, max_age_secs: u64, secure: bool) -> (cookie: String)
    ensures
        cookie@ == session_cookie_text(value@, max_age_secs as nat, secure),
{
    let mut cookie = String::from_str(COOKIE_NAME);
    cookie.append("=");
    cookie.append(value);
    cookie.append("; Path=/; HttpOnly; SameSite=Strict; Max-Age=");
    push_decimal(&mut cookie, max_age_secs);
    if secure {
        cookie.append("; Secure");
    }
    proof {
        if !secure {
            assert(cookie@ =~= cookie@ + Seq::<char>::empty());
        }
    }
    cookie
}

/// Builds the `Set-Cookie` header that removes the session cookie.
pub fn clear_cookie(secure: bool) -> (cookie: String)
    ensures
        cookie@ == clear_cookie_text(secure),
{
    let mut cookie = String::from_str(COOKIE_NAME);
    cookie.append("=; Path=/; HttpOnly; SameSite=Strict; Max-Age=0");
    if secure {
        cookie.append("; Secure");
    }
    proof {
        if !secure {
            assert(cookie@ =~= cookie@ + Seq::<char>::empty());
        }
    }
    cookie
}

} // verus!
