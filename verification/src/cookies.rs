//! The `Cookie` request header: its bytes, the cookies it carries and the session ID among them.

use vstd::prelude::*;
use vstd::string::StringSliceAdditionalSpecFns;

use cookie::CookieJar;

use crate::decimal::{decimal_text, law_parse_decimal_round_trip, lemma_decimal_text, parse_u128, parse_u128_spec};

verus! {

/// The name of the session ID cookie.
pub const SESSION_ID_COOKIE_NAME: &'static str = "sessionID";

/// Whether `b` is a visible ASCII byte, the only bytes a header value may hold to be read as text.
pub open spec fn is_visible_ascii(b: u8) -> bool {
    (32 <= b && b < 127) || b == 9
}

pub open spec fn all_visible_ascii(bytes: Seq<u8>) -> bool {
    forall|i: int| 0 <= i < bytes.len() ==> is_visible_ascii(#[trigger] bytes[i])
}

pub open spec fn all_ascii(bytes: Seq<u8>) -> bool {
    forall|i: int| 0 <= i < bytes.len() ==> #[trigger] bytes[i] < 128
}

/// The characters of an ASCII byte string.
pub open spec fn ascii_chars(bytes: Seq<u8>) -> Seq<char> {
    Seq::new(bytes.len(), |i: int| bytes[i] as char)
}

/// Why no session ID could be read from a request's cookies.
#[derive(Clone, Copy, Debug, PartialEq, Eq, Structural)]
pub enum CookieError {
    /// The request has no `Cookie` header.
    NoCookies,
    /// The `Cookie` header holds bytes other than visible ASCII.
    InvalidCookieChars,
    /// No cookie is named `sessionID`.
    MissingSessionId,
    /// The `sessionID` cookie is not an unsigned 128-bit integer.
    InvalidSessionId,
}

#[verifier::external_type_specification]
#[verifier::external_body]
pub struct ExUtf8Error(std::str::Utf8Error);

/// `std::str::from_utf8`. Claimed, as its documentation says: the text it gives back has the
/// input as its bytes, and ASCII input (valid UTF-8 in which every byte is one character) is
/// accepted and comes back as those characters. Which other inputs it accepts is left unsaid.
#[verifier::external_body]
fn str_from_utf8(bytes: &[u8]) -> (r: Result<&str, std::str::Utf8Error>)
    ensures
        r matches Ok(s) ==> s.spec_bytes() == bytes@,
        all_ascii(bytes@) ==> r is Ok,
        r matches Ok(s) ==> (all_ascii(bytes@) ==> s@ == ascii_chars(bytes@)),
{
    std::str::from_utf8(bytes)
}

/// A cookie as `cookie::Cookie::split_parse` yields it: its name and value, or `None` where
/// that piece of the header did not parse.
pub open spec fn parsed_view(v: Seq<Option<(String, String)>>) -> Seq<Option<(Seq<char>, Seq<char>)>> {
    v.map_values(
        |o: Option<(String, String)>|
            match o {
                Some(p) => Some((p.0@, p.1@)),
                None => None,
            },
    )
}

/// What `cookie::Cookie::split_parse` yields for a `Cookie` header: for each `;`-separated
/// piece that is not blank, the name and value of the cookie it holds, or `None`.
pub uninterp spec fn cookie_split_parse(header: Seq<char>) -> Seq<Option<(Seq<char>, Seq<char>)>>;

/// Whether `s` consists of spaces and tabs only.
pub open spec fn is_blank(s: Seq<char>) -> bool {
    forall|i: int| 0 <= i < s.len() ==> #[trigger] s[i] == ' ' || s[i] == '\t'
}

/// A cookie name and value without whitespace, control characters or `;`: a non-empty name
/// without `=`, and a value of visible characters.
pub open spec fn is_cookie_pair(name: Seq<char>, value: Seq<char>) -> bool {
    &&& name.len() > 0
    &&& forall|i: int|
        0 <= i < name.len() ==> 33 <= #[trigger] (name[i] as u32) <= 126 && name[i] != ';' && name[i] != '='
    &&& forall|i: int| 0 <= i < value.len() ==> 33 <= #[trigger] (value[i] as u32) <= 126 && value[i] != ';'
}

/// One piece of a `Cookie` header: the pair `name=value`, with blanks around it.
pub open spec fn spaced_pair(lead: Seq<char>, name: Seq<char>, value: Seq<char>, trail: Seq<char>) -> Seq<char> {
    lead + name + "="@ + value + trail
}

/// A `Cookie` header made of `rest`, a `;` and a last piece.
pub open spec fn after_cookies(rest: Seq<char>, last: Seq<char>) -> Seq<char> {
    rest + ";"@ + last
}

/// `cookie::Cookie::split_parse` on a `Cookie` header, each parsed cookie reduced to its
/// name and value (`None` for a piece that failed to parse). Claimed: the result is
/// `cookie_split_parse` of the header; and, as the crate's source shows (it cuts the header at
/// each `;`, parses each piece on its own, and trims blanks around a piece and around the name
/// and value it cuts at the first `=`): a header that is one blank-padded `name=value` pair
/// yields exactly that cookie, and a header whose last piece is such a pair yields the
/// cookies of what comes before its last `;`, then that cookie.
#[verifier::external_body]
fn split_cookie_header(header: &str) -> (r: Vec<Option<(String, String)>>)
    ensures
        parsed_view(r@) == cookie_split_parse(header@),
        forall|lead: Seq<char>, name: Seq<char>, value: Seq<char>, trail: Seq<char>|
            is_blank(lead) && is_blank(trail) && is_cookie_pair(name, value) && header@
                == #[trigger] spaced_pair(lead, name, value, trail) ==> parsed_view(r@) == seq![
                Some((name, value)),
            ],
        forall|rest: Seq<char>, lead: Seq<char>, name: Seq<char>, value: Seq<char>, trail: Seq<char>|
            is_blank(lead) && is_blank(trail) && is_cookie_pair(name, value) && header@
                == #[trigger] after_cookies(rest, spaced_pair(lead, name, value, trail)) ==> parsed_view(r@)
                == cookie_split_parse(rest) + seq![Some((name, value))],
{
    cookie::Cookie::split_parse(header.to_string()).map(
        |c| c.ok().map(|c| (c.name().to_string(), c.value().to_string())),
    ).collect()
}

#[verifier::external_type_specification]
#[verifier::external_body]
pub struct ExCookieJar(CookieJar);

/// The cookies a `cookie::CookieJar` holds, by name.
pub uninterp spec fn cookie_jar_contents(jar: CookieJar) -> Map<Seq<char>, Seq<char>>;

/// `cookie::CookieJar::new`. Claimed: the jar holds no cookie.
#[verifier::external_body]
fn jar_new() -> (r: CookieJar)
    ensures
        cookie_jar_contents(r) =~= Map::empty(),
{
    CookieJar::new()
}

/// `cookie::CookieJar::add` with the cookie `name=value`. Claimed, as the crate's source
/// shows: a cookie of the same name is replaced, the others stay.
#[verifier::external_body]
fn jar_add(jar: &mut CookieJar, name: String, value: String)
    ensures
        cookie_jar_contents(*final(jar)) == cookie_jar_contents(*old(jar)).insert(name@, value@),
{
    jar.add((name, value));
}

/// `cookie::CookieJar::get`, reduced to the cookie's value. Claimed: the value of the cookie
/// of that name, or `None` where the jar holds none.
#[verifier::external_body]
fn jar_get_value(jar: &CookieJar, name: &str) -> (r: Option<String>)
    ensures
        match r {
            Some(v) => cookie_jar_contents(*jar).contains_key(name@) && v@ == cookie_jar_contents(
                *jar,
            )[name@],
            None => !cookie_jar_contents(*jar).contains_key(name@),
        },
{
    jar.get(name).map(|c| c.value().to_string())
}

/// The jar that results from adding the parsed cookies in order, skipping those that did not
/// parse; a later cookie replaces an earlier one of the same name.
pub open spec fn jar_of(parsed: Seq<Option<(Seq<char>, Seq<char>)>>) -> Map<Seq<char>, Seq<char>>
    decreases parsed.len(),
{
    if parsed.len() == 0 {
        Map::empty()
    } else {
        let before = jar_of(parsed.drop_last());
        match parsed.last() {
            Some(p) => before.insert(p.0, p.1),
            None => before,
        }
    }
}

/// The session ID in a jar: the `sessionID` cookie read as an unsigned 128-bit integer.
pub open spec fn session_id_in(jar: Map<Seq<char>, Seq<char>>) -> Result<u128, CookieError> {
    if !jar.contains_key("sessionID"@) {
        Err(CookieError::MissingSessionId)
    } else {
        match parse_u128_spec(jar["sessionID"@]) {
            Some(id) => Ok(id),
            None => Err(CookieError::InvalidSessionId),
        }
    }
}

/// The cookies of a `Cookie` header whose bytes are `bytes`.
pub open spec fn cookies_of(bytes: Seq<u8>) -> Map<Seq<char>, Seq<char>> {
    jar_of(cookie_split_parse(ascii_chars(bytes)))
}

/// The session ID of a request whose `Cookie` header is `header` (`None` where it has none).
pub open spec fn session_id_of(header: Option<Seq<u8>>) -> Result<u128, CookieError> {
    match header {
        None => Err(CookieError::NoCookies),
        Some(bytes) => if !all_visible_ascii(bytes) {
            Err(CookieError::InvalidCookieChars)
        } else {
            session_id_in(cookies_of(bytes))
        },
    }
}

/// A `Cookie` header that carries exactly the session cookie `sessionID=<id>`, as a client
/// sends it back after a login.
pub open spec fn carries_session_cookie(bytes: Seq<u8>, id: u128) -> bool {
    &&& all_visible_ascii(bytes)
    &&& ends_with_session_cookie(ascii_chars(bytes), id)
}

/// A `Cookie` header whose last piece is the session cookie `sessionID=<id>` (blanks around it
/// allowed), whatever cookies come before it.
pub open spec fn ends_with_session_cookie(chars: Seq<char>, id: u128) -> bool {
    ||| exists|lead: Seq<char>, trail: Seq<char>|
        is_blank(lead) && is_blank(trail) && chars == #[trigger] spaced_pair(
            lead,
            "sessionID"@,
            decimal_text(id as nat),
            trail,
        )
    ||| exists|rest: Seq<char>, lead: Seq<char>, trail: Seq<char>|
        is_blank(lead) && is_blank(trail) && chars == #[trigger] after_cookies(
            rest,
            spaced_pair(lead, "sessionID"@, decimal_text(id as nat), trail),
        )
}

pub open spec fn header_view(header: Option<&[u8]>) -> Option<Seq<u8>> {
    match header {
        Some(b) => Some(b@),
        None => None,
    }
}

/// Builds the jar of the parsed cookies, in order.
pub fn jar_from_parsed(parsed: &Vec<Option<(String, String)>>) -> (jar: CookieJar)
    ensures
        cookie_jar_contents(jar) == jar_of(parsed_view(parsed@)),
{
    let mut jar = jar_new();
    let mut i: usize = 0;
    while i < parsed.len()
        invariant
            i <= parsed@.len(),
            cookie_jar_contents(jar) == jar_of(parsed_view(parsed@.take(i as int))),
        decreases parsed@.len() - i,
    {
        assert(parsed_view(parsed@.take(i + 1)).drop_last() =~= parsed_view(parsed@.take(i as int)));
        match &parsed[i] {
            Some(pair) => {
                jar_add(&mut jar, pair.0.clone(), pair.1.clone());
            },
            None => {},
        }
        i = i + 1;
    }
    assert(parsed@.take(parsed@.len() as int) =~= parsed@);
    jar
}

/// Parses a `Cookie` header into a jar. The header must consist of visible ASCII; pieces that
/// do not parse as cookies are skipped.
pub fn parse_cookies(header: &[u8]) -> (r: Result<CookieJar, CookieError>)
    ensures
        (r is Ok) == all_visible_ascii(header@),
        (r is Ok) == (forall|i: int| 0 <= i < header@.len() ==> (32 <= #[trigger] header@[i] <= 126 || header@[i] == 9)),
        r matches Ok(jar) ==> cookie_jar_contents(jar) == cookies_of(header@),
        r matches Err(e) ==> e == CookieError::InvalidCookieChars,
        forall|lead: Seq<char>, name: Seq<char>, value: Seq<char>, trail: Seq<char>|
            all_visible_ascii(header@) && is_blank(lead) && is_blank(trail) && is_cookie_pair(name, value)
                && ascii_chars(header@) == #[trigger] spaced_pair(lead, name, value, trail) ==> (r matches Ok(jar)
                && cookie_jar_contents(jar) == map![name => value]),
        forall|rest: Seq<char>, lead: Seq<char>, name: Seq<char>, value: Seq<char>, trail: Seq<char>|
            all_visible_ascii(header@) && is_blank(lead) && is_blank(trail) && is_cookie_pair(name, value)
                && ascii_chars(header@) == #[trigger] after_cookies(rest, spaced_pair(lead, name, value, trail))
                ==> (r matches Ok(jar) && cookie_jar_contents(jar) == jar_of(cookie_split_parse(rest)).insert(
                name,
                value,
            )),
{
    let mut i: usize = 0;
    while i < header.len()
        invariant
            i <= header@.len(),
            forall|j: int| 0 <= j < i ==> is_visible_ascii(#[trigger] header@[j]),
        decreases header@.len() - i,
    {
        let b = header[i];
        if !((32 <= b && b < 127) || b == 9) {
            return Err(CookieError::InvalidCookieChars);
        }
        i = i + 1;
    }
    match str_from_utf8(header) {
        Ok(text) => {
            let parsed = split_cookie_header(text);
            let jar = jar_from_parsed(&parsed);
            proof {
                assert forall|lead: Seq<char>, name: Seq<char>, value: Seq<char>, trail: Seq<char>|
                    is_blank(lead) && is_blank(trail) && is_cookie_pair(name, value) && ascii_chars(header@)
                        == #[trigger] spaced_pair(lead, name, value, trail) implies cookie_jar_contents(jar)
                    == map![name => value] by {
                    let one: Seq<Option<(Seq<char>, Seq<char>)>> = seq![Some((name, value))];
                    assert(one.drop_last() =~= Seq::<Option<(Seq<char>, Seq<char>)>>::empty());
                    assert(jar_of(one.drop_last()) =~= Map::empty());
                    assert(one.last() == Some((name, value)));
                    assert(jar_of(one) =~= map![name => value]);
                }
                assert forall|rest: Seq<char>, lead: Seq<char>, name: Seq<char>, value: Seq<char>, trail: Seq<char>|
                    is_blank(lead) && is_blank(trail) && is_cookie_pair(name, value) && ascii_chars(header@)
                        == #[trigger] after_cookies(rest, spaced_pair(lead, name, value, trail)) implies cookie_jar_contents(
                    jar,
                ) == jar_of(cookie_split_parse(rest)).insert(name, value) by {
                    let all = cookie_split_parse(rest) + seq![Some((name, value))];
                    assert(all.drop_last() =~= cookie_split_parse(rest));
                    assert(all.last() == Some((name, value)));
                }
            }
            Ok(jar)
        },
        Err(_) => {
            assert(all_ascii(header@));
            Err(CookieError::InvalidCookieChars)
        },
    }
}

/// Reads the session ID out of a jar: the `sessionID` cookie as an unsigned integer.
pub fn session_id_from_jar(jar: &CookieJar) -> (r: Result<u128, CookieError>)
    ensures
        r == session_id_in(cookie_jar_contents(*jar)),
{
    match jar_get_value(jar, SESSION_ID_COOKIE_NAME) {
        Some(value) => match parse_u128(value.as_str()) {
            Some(id) => Ok(id),
            None => Err(CookieError::InvalidSessionId),
        },
        None => Err(CookieError::MissingSessionId),
    }
}

/// Whether the `Cookie` header `header` ends with the session cookie of `id`.
pub open spec fn header_carries_session(header: Option<Seq<u8>>, id: u128) -> bool {
    match header {
        Some(bytes) => carries_session_cookie(bytes, id),
        None => false,
    }
}

proof fn lemma_session_pair_is_cookie_pair(id: u128)
    ensures
        is_cookie_pair("sessionID"@, decimal_text(id as nat)),
{
    reveal_strlit("sessionID");
    lemma_decimal_text(id as nat);
}

/// Extracts the session ID from a request's `Cookie` header (`None` where the request has no
/// such header).
///
/// A header whose last cookie is the session cookie a login hands out, `sessionID=<id>`,
/// gives back that `id`, whatever cookies come before it.
pub fn extract_session_id(header: Option<&[u8]>) -> (r: Result<u128, CookieError>)
    ensures
        r == session_id_of(header_view(header)),
        forall|id: u128| #[trigger] header_carries_session(header_view(header), id) ==> r == Ok::<u128, CookieError>(id),
        forall|id: u128|
            header_view(header) is Some && (forall|i: int|
                0 <= i < header_view(header)->0.len() ==> (32 <= #[trigger] header_view(header)->0[i] <= 126
                    || header_view(header)->0[i] == 9)) && #[trigger] ends_with_session_cookie(
                ascii_chars(header_view(header)->0),
                id,
            ) ==> r == Ok::<u128, CookieError>(id),
{
    let r = match header {
        None => Err(CookieError::NoCookies),
        Some(bytes) => match parse_cookies(bytes) {
            Ok(jar) => {
                let r = session_id_from_jar(&jar);
                proof {
                    assert forall|id: u128| #[trigger]
                        header_carries_session(header_view(header), id) implies r == Ok::<u128, CookieError>(id) by {
                        lemma_session_pair_is_cookie_pair(id);
                        law_parse_decimal_round_trip(id);
                        let d = decimal_text(id as nat);
                        let c = ascii_chars(bytes@);
                        if exists|lead: Seq<char>, trail: Seq<char>|
                            is_blank(lead) && is_blank(trail) && c == #[trigger] spaced_pair(lead, "sessionID"@, d, trail) {
                            let (lead, trail) = choose|lead: Seq<char>, trail: Seq<char>|
                                is_blank(lead) && is_blank(trail) && c == #[trigger] spaced_pair(
                                    lead,
                                    "sessionID"@,
                                    d,
                                    trail,
                                );
                            assert(c == spaced_pair(lead, "sessionID"@, d, trail));
                            assert(map!["sessionID"@ => d]["sessionID"@] == d);
                        } else {
                            let (rest, lead, trail) = choose|rest: Seq<char>, lead: Seq<char>, trail: Seq<char>|
                                is_blank(lead) && is_blank(trail) && c == #[trigger] after_cookies(
                                    rest,
                                    spaced_pair(lead, "sessionID"@, d, trail),
                                );
                            assert(c == after_cookies(rest, spaced_pair(lead, "sessionID"@, d, trail)));
                            assert(jar_of(cookie_split_parse(rest)).insert("sessionID"@, d)["sessionID"@] == d);
                        }
                    }
                }
                r
            },
            Err(e) => Err(e),
        },
    };
    proof {
        assert forall|id: u128|
            header_view(header) is Some && (forall|i: int|
                0 <= i < header_view(header)->0.len() ==> (32 <= #[trigger] header_view(header)->0[i] <= 126
                    || header_view(header)->0[i] == 9)) && #[trigger] ends_with_session_cookie(
                ascii_chars(header_view(header)->0),
                id,
            ) implies r == Ok::<u128, CookieError>(id) by {
            let b = header_view(header)->0;
            assert forall|i: int| 0 <= i < b.len() implies is_visible_ascii(#[trigger] b[i]) by {}
            assert(header_carries_session(header_view(header), id));
        }
    }
    r
}

} // verus!
