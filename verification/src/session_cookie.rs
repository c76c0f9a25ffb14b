//! The `Set-Cookie` values that open and close a session, and the random session IDs.

use vstd::prelude::*;

use cookie::{Cookie, SameSite};

use rand::Rng;

use time::OffsetDateTime;

verus! {

/// The `SameSite` policies of a cookie.
#[derive(Clone, Copy, Debug, PartialEq, Eq, Structural)]
pub enum SameSitePolicy {
    Strict,
    Lax,
    Unrestricted,
}

/// The `Set-Cookie` value that `cookie::Cookie` renders for the cookie `name=value` with the
/// given path, `Secure` and `HttpOnly` flags, `SameSite` policy and expiry (seconds since the
/// Unix epoch, `None` for a cookie that lasts the browser session).
pub uninterp spec fn cookie_text(
    name: Seq<char>,
    value: Seq<char>,
    path: Seq<char>,
    secure: bool,
    http_only: bool,
    same_site: SameSitePolicy,
    expires: Option<i64>,
) -> Seq<char>;

/// How `cookie::SameSite` renders a policy.
pub open spec fn same_site_text(same_site: SameSitePolicy) -> Seq<char> {
    match same_site {
        SameSitePolicy::Strict => "Strict"@,
        SameSitePolicy::Lax => "Lax"@,
        SameSitePolicy::Unrestricted => "None"@,
    }
}

/// The `Set-Cookie` text of a cookie without an expiry date: `name=value`, then `HttpOnly`,
/// the `SameSite` policy, `Secure` and the path, in the order `cookie::Cookie` writes them.
pub open spec fn session_length_cookie_text(
    name: Seq<char>,
    value: Seq<char>,
    path: Seq<char>,
    secure: bool,
    http_only: bool,
    same_site: SameSitePolicy,
) -> Seq<char> {
    name + "="@ + value + (if http_only {
        "; HttpOnly"@
    } else {
        Seq::empty()
    }) + "; SameSite="@ + same_site_text(same_site) + (if secure {
        "; Secure"@
    } else {
        Seq::empty()
    }) + "; Path="@ + path
}

/// `cookie::Cookie::build((name, value))` with `path`, `secure`, `http_only`, `same_site` and,
/// where given, `expires` (the time read by `time::OffsetDateTime::from_unix_timestamp`),
/// rendered by `to_string`. Claimed: the text is `cookie_text` of these arguments and, as the
/// crate documents for its `Display`, begins with `name=value`; and, as its `Display` and
/// `fmt_parameters` show, a cookie without an expiry date is exactly
/// `session_length_cookie_text` (the expiry's rendering is left to the name).
#[verifier::external_body]
fn render_cookie(
    name: &str,
    value: &str,
    path: &str,
    secure: bool,
    http_only: bool,
    same_site: SameSitePolicy,
    expires: Option<i64>,
) -> (r: String)
    ensures
        r@ == cookie_text(name@, value@, path@, secure, http_only, same_site, expires),
        (name@ + "="@ + value@).is_prefix_of(r@),
        expires is None ==> r@ == session_length_cookie_text(
            name@,
            value@,
            path@,
            secure,
            http_only,
            same_site,
        ),
{
    let same_site = match same_site {
        SameSitePolicy::Strict => SameSite::Strict,
        SameSitePolicy::Lax => SameSite::Lax,
        SameSitePolicy::Unrestricted => SameSite::None,
    };
    let expires = expires.and_then(|t| OffsetDateTime::from_unix_timestamp(t).ok());
    Cookie::build((name, value)).expires(expires).path(path).secure(secure).http_only(
        http_only,
    ).same_site(same_site).to_string()
}

/// The session cookie `sessionID=value`, as `cookie::Cookie` renders it: valid for the whole
/// site, sent over TLS only, hidden from scripts and never sent along with requests of other
/// sites.
pub open spec fn session_cookie_text(value: Seq<char>) -> Seq<char> {
    "sessionID="@ + value + "; HttpOnly; SameSite=Strict; Secure; Path=/"@
}

/// The session cookie with the value `deleted` and an expiry at the Unix epoch, which makes
/// the client delete it.
pub open spec fn expired_session_cookie_text() -> Seq<char> {
    cookie_text("sessionID"@, "deleted"@, "/"@, true, true, SameSitePolicy::Strict, Some(0))
}

/// The `Set-Cookie` value of the session cookie with the given value.
pub fn session_cookie(value: &str) -> (r: String)
    ensures
        r@ == session_cookie_text(value@),
        ("sessionID"@ + "="@ + value@).is_prefix_of(r@),
{
    proof {
        reveal_strlit("sessionID");
        reveal_strlit("=");
        reveal_strlit("sessionID=");
        reveal_strlit("; HttpOnly");
        reveal_strlit("; SameSite=");
        reveal_strlit("Strict");
        reveal_strlit("; Secure");
        reveal_strlit("; Path=");
        reveal_strlit("/");
        reveal_strlit("; HttpOnly; SameSite=Strict; Secure; Path=/");
    }
    let r = render_cookie(
        crate::cookies::SESSION_ID_COOKIE_NAME,
        value,
        "/",
        true,
        true,
        SameSitePolicy::Strict,
        None,
    );
    assert(r@ =~= session_cookie_text(value@));
    r
}

/// The `Set-Cookie` value that makes a client delete its session cookie.
pub fn expired_session_cookie() -> (r: String)
    ensures
        r@ == expired_session_cookie_text(),
{
    render_cookie(crate::cookies::SESSION_ID_COOKIE_NAME, "deleted", "/", true, true, SameSitePolicy::Strict, Some(0))
}

/// `rand::thread_rng().gen::<u128>()`: a fresh random session ID. Nothing is claimed of the
/// number: it rests on chance. (`rand` panics where the operating system offers no
/// randomness to seed its generator.)
#[verifier::external_body]
pub(crate) fn random_session_id() -> u128 {
    rand::thread_rng().gen()
}

} // verus!
