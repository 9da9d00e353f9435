//! The text printed when the server starts: where to open it, how to sign
//! in, and the warnings an operator must see.
use vstd::prelude::*;

use crate::gate::texts;
use crate::text::{decimal_text, push_decimal};

verus! {

/// What the start-up text depends on, gathered by the caller.
pub struct BannerFacts {
    /// The program's version.
    pub version: String,
    /// The address listened on, without the port, as text.
    pub ip: String,
    /// Whether that address is the unspecified one (listening everywhere).
    pub ip_unspecified: bool,
    /// Whether that address is a loopback address.
    pub ip_loopback: bool,
    /// The port listened on.
    pub port: u16,
    /// The address and port listened on, as text.
    pub bound: String,
    /// The access token, or `None` when authentication is disabled.
    pub token: Option<String>,
    /// The user the shells run as, named in the no-auth warning.
    pub user: String,
    /// Whether the web app is compiled into the binary.
    pub frontend_embedded: bool,
}

/// The URL the server is reached at; an unspecified address is shown as
/// `localhost`.
pub open spec fn base_url(f: BannerFacts) -> Seq<char> {
    "http://"@ + (if f.ip_unspecified {
        "localhost"@
    } else {
        f.ip@
    }) + ":"@ + decimal_text(f.port as nat)
}

/// How to get in: a link that carries the token in its fragment, or, with
/// authentication disabled, the bare address and a warning.
pub open spec fn access_lines(f: BannerFacts) -> Seq<Seq<char>> {
    match f.token {
        Some(t) => seq![
            "  Open:  "@ + base_url(f) + "/#token="@ + t@,
            Seq::<char>::empty(),
            "  Token: "@ + t@,
            "  The link carries the token in the URL fragment, which browsers"@,
            "  never send to a server. It is cleared from the address bar as"@,
            "  soon as the page exchanges it for a session cookie."@,
        ],
        None => seq![
            "  Open:  "@ + base_url(f),
            Seq::<char>::empty(),
            "  !! Authentication is DISABLED (--insecure-no-auth)."@,
            "  !! Anyone who can reach this port gets a shell as "@ + f.user@ + "."@,
        ],
    }
}

/// The warning shown when the address is reachable from other machines.
pub open spec fn exposure_lines(f: BannerFacts) -> Seq<Seq<char>> {
    if f.ip_loopback {
        Seq::empty()
    } else {
        seq![
            Seq::<char>::empty(),
            "  !! Listening on "@ + f.bound@ + ", which is reachable beyond this machine."@,
            "  !! Put it behind TLS; the session cookie and every keystroke"@,
            "  !! travel in clear text over plain HTTP."@,
        ]
    }
}

/// The note shown when the binary carries no web app.
pub open spec fn frontend_lines(f: BannerFacts) -> Seq<Seq<char>> {
    if f.frontend_embedded {
        Seq::empty()
    } else {
        seq![
            Seq::<char>::empty(),
            "  Note: no frontend is embedded in this binary. Build it with"@,
            "  `pnpm build:web`, or use the Vite dev server on port 5173."@,
        ]
    }
}

/// The whole start-up text, line by line.
pub open spec fn banner_text(f: BannerFacts) -> Seq<Seq<char>> {
    seq![
        Seq::<char>::empty(),
        "  majin "@ + f.version@ + " \u{2014} terminal over the web"@,
        Seq::<char>::empty(),
    ] + access_lines(f) + exposure_lines(f) + frontend_lines(f) + seq![Seq::<char>::empty()]
}

/// Whether to log that authentication is off on an address other machines
/// can reach.
pub open spec fn unsafe_exposure(insecure_no_auth: bool, ip_loopback: bool) -> bool {
    insecure_no_auth && !ip_loopback
}

/// The warning that the server is reachable from other machines.
pub open spec fn exposure_warning(f: BannerFacts) -> Seq<char> {
    "  !! Listening on "@ + f.bound@ + ", which is reachable beyond this machine."@
}

/// Whenever the address listened on is not a loopback address, the text
/// warns that it is reachable from other machines, whatever else holds:
/// with a token or without, with the web app or without.
pub proof fn law_exposure_is_always_warned_of(f: BannerFacts)
    requires
        !f.ip_loopback,
    ensures
        banner_text(f).contains(exposure_warning(f)),
{
    let k: int = 3 + access_lines(f).len() as int + 1;
    assert(banner_text(f)[k] == exposure_lines(f)[1]);
    assert(exposure_lines(f)[1] == exposure_warning(f));
}

fn push_line(lines: &mut Vec<String>, line: String)
    ensures
        texts(final(lines)@) == texts(old(lines)@).push(line@),
{
    lines.push(line);
    assert(texts(lines@) =~= texts(old(lines)@).push(line@));
}

fn base_url_of(f: &BannerFacts) -> (u: String)
    ensures
        u@ == base_url(*f),
{
    let mut u = String::from_str("http://");
    if f.ip_unspecified {
        u.append("localhost");
    } else {
        u.append(f.ip.as_str());
    }
    u.append(":");
    push_decimal(&mut u, f.port as u64);
    u
}

/// The start-up text, one string per printed line.
pub fn banner_lines(f: &BannerFacts) -> (lines: Vec<String>)
    ensures
        texts(lines@) == banner_text(*f),
{
    let mut lines: Vec<String> = Vec::new();
    push_line(&mut lines, String::new());
    let mut title = String::from_str("  majin ");
    title.append(f.version.as_str());
    title.append(" \u{2014} terminal over the web");
    push_line(&mut lines, title);
    push_line(&mut lines, String::new());
    let ghost head = texts(lines@);

    let base = base_url_of(f);
    let mut open = String::from_str("  Open:  ");
    open.append(base.as_str());
    match &f.token {
        Some(t) => {
            open.append("/#token=");
            open.append(t.as_str());
            push_line(&mut lines, open);
            push_line(&mut lines, String::new());
            let mut shown = String::from_str("  Token: ");
            shown.append(t.as_str());
            push_line(&mut lines, shown);
            push_line(
                &mut lines,
                String::from_str(
                    "  The link carries the token in the URL fragment, which browsers",
                ),
            );
            push_line(
                &mut lines,
                String::from_str(
                    "  never send to a server. It is cleared from the address bar as",
                ),
            );
            push_line(
                &mut lines,
                String::from_str("  soon as the page exchanges it for a session cookie."),
            );
        },
        None => {
            push_line(&mut lines, open);
            push_line(&mut lines, String::new());
            push_line(
                &mut lines,
                String::from_str("  !! Authentication is DISABLED (--insecure-no-auth)."),
            );
            let mut who = String::from_str("  !! Anyone who can reach this port gets a shell as ");
            who.append(f.user.as_str());
            who.append(".");
            push_line(&mut lines, who);
        },
    }
    assert(texts(lines@) =~= head + access_lines(*f));
    let ghost with_access = texts(lines@);

    if !f.ip_loopback {
        push_line(&mut lines, String::new());
        let mut listening = String::from_str("  !! Listening on ");
        listening.append(f.bound.as_str());
        listening.append(", which is reachable beyond this machine.");
        push_line(&mut lines, listening);
        push_line(
            &mut lines,
            String::from_str("  !! Put it behind TLS; the session cookie and every keystroke"),
        );
        push_line(&mut lines, String::from_str("  !! travel in clear text over plain HTTP."));
    }
    assert(texts(lines@) =~= with_access + exposure_lines(*f));
    let ghost with_exposure = texts(lines@);

    if !f.frontend_embedded {
        push_line(&mut lines, String::new());
        push_line(
            &mut lines,
            String::from_str("  Note: no frontend is embedded in this binary. Build it with"),
        );
        push_line(
            &mut lines,
            String::from_str("  `pnpm build:web`, or use the Vite dev server on port 5173."),
        );
    }
    assert(texts(lines@) =~= with_exposure + frontend_lines(*f));
    push_line(&mut lines, String::new());
    assert(texts(lines@) =~= banner_text(*f));
    lines
}

/// Whether authentication is off on an address other machines can reach,
/// which the caller logs as a warning.
pub fn warns_of_unsafe_exposure(insecure_no_auth: bool, ip_loopback: bool) -> (r: bool)
    ensures
        r == unsafe_exposure(insecure_no_auth, ip_loopback),
{
    insecure_no_auth && !ip_loopback
}

} // verus!
