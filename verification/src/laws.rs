//! Properties of the application that span several requests, proved over the handlers'
//! specifications.

use vstd::prelude::*;

use crate::decimal::decimal_text;
use crate::cookies::{jar_of, session_id_in, session_id_of, CookieError};
use crate::handlers::{
    already_logged_in_reply, begin_login_spec, check_for_login_spec, finish_login_spec,
    password_outcome, store_position_spec, empty_success_reply, get_login_spec,
    get_positions_spec, logged_in, login_failure_reply, login_outcome, login_spec,
    login_success_reply, logout_spec, logout_success_reply, post_login_spec, post_position_spec,
    LoginOutcome,
};
use crate::reply::{message_reply, redirect_path, status_code, Message, ReplyView, Status};
use crate::runtime::ipv6_mapped_spec;
use crate::state::{pruned, Coordinates, StateView, SESSION_TTL};
use crate::users::{bcrypt_verifies, lookup_hash_spec, lookup_name_spec};

verus! {

/// The sessions after `k` time units have passed.
pub open spec fn pruned_times(m: Map<u128, (Seq<char>, u8)>, k: nat) -> Map<u128, (Seq<char>, u8)>
    decreases k,
{
    if k == 0 {
        m
    } else {
        pruned(pruned_times(m, (k - 1) as nat))
    }
}

/// A session with `t` time units left stays open, losing a unit per time unit, for `t` time
/// units; one unit later it is closed.
pub proof fn law_session_lifetime(m: Map<u128, (Seq<char>, u8)>, id: u128, k: nat)
    requires
        m.contains_key(id),
    ensures
        k <= m[id].1 ==> pruned_times(m, k).contains_key(id) && pruned_times(m, k)[id] == (
            m[id].0,
            (m[id].1 - k) as u8,
        ),
        k > m[id].1 ==> !pruned_times(m, k).contains_key(id),
    decreases k,
{
    if k > 0 {
        law_session_lifetime(m, id, (k - 1) as nat);
    }
}

/// The state after `k` time units have passed, sessions being the only part that time
/// changes.
pub open spec fn after_units(s: StateView, k: nat) -> StateView {
    StateView { sessions: pruned_times(s.sessions, k), ..s }
}

/// A session opened by a login stays open for exactly 24 time units (`SESSION_TTL`, an hour
/// each): a request that carries its ID still gets the positions after 24 units and is
/// refused as not logged in one unit later.
pub proof fn law_new_session_lasts_ttl_units(
    s: StateView,
    name: Seq<char>,
    password: Seq<char>,
    id: u128,
    header: Option<Seq<u8>>,
)
    requires
        login_outcome(s, name, password) == LoginOutcome::Accepted,
        session_id_of(header) == Ok::<u128, crate::cookies::CookieError>(id),
    ensures
        pruned_times(login_spec(s, name, password, id).0.sessions, 24).contains_key(id),
        !pruned_times(login_spec(s, name, password, id).0.sessions, 25).contains_key(id),
        logged_in(after_units(login_spec(s, name, password, id).0, 24), header),
        get_positions_spec(after_units(login_spec(s, name, password, id).0, 25), header)
            == Err::<Map<Seq<char>, Coordinates>, _>(message_reply(Status::BadRequest, Message::NotLoggedIn)),
{
    let m = login_spec(s, name, password, id).0.sessions;
    law_session_lifetime(m, id, 24);
    law_session_lifetime(m, id, 25);
}

/// A successful login opens the session it hands out, for the user who logged in, and sets
/// the cookie `sessionID=<id>` (hidden from scripts, strictly same-site, sent over TLS only,
/// for the whole site): a request carrying that session ID is logged in, is redirected away
/// from the login, and is given the positions.
pub proof fn law_login_opens_session(
    s: StateView,
    name: Seq<char>,
    password: Seq<char>,
    id: u128,
    header: Option<Seq<u8>>,
)
    requires
        login_outcome(s, name, password) == LoginOutcome::Accepted,
        session_id_of(header) == Ok::<u128, crate::cookies::CookieError>(id),
    ensures
        ({
            let (after, reply) = login_spec(s, name, password, id);
            &&& reply == login_success_reply(id)
            &&& reply.set_cookie == Some(
                "sessionID="@ + decimal_text(id as nat) + "; HttpOnly; SameSite=Strict; Secure; Path=/"@,
            )
            &&& after.sessions[id] == (name, SESSION_TTL)
            &&& logged_in(after, header)
            &&& check_for_login_spec(after, header) == Some(already_logged_in_reply())
            &&& get_positions_spec(after, header) == Ok::<_, ReplyView>(s.positions)
        }),
{
}

/// A login that fails changes nothing, whatever session ID would have been handed out.
pub proof fn law_failed_login_changes_nothing(
    s: StateView,
    name: Seq<char>,
    password: Seq<char>,
    id: u128,
)
    requires
        login_outcome(s, name, password) != LoginOutcome::Accepted,
    ensures
        login_spec(s, name, password, id).0 == s,
        login_spec(s, name, password, id).1 == login_failure_reply(login_outcome(s, name, password)),
{
}

/// A logout closes the session: the same cookie is then refused for another logout and for
/// the positions.
pub proof fn law_logout_closes_session(s: StateView, header: Option<Seq<u8>>)
    requires
        logout_spec(s, header).1.status == Status::Success,
    ensures
        ({
            let after = logout_spec(s, header).0;
            &&& !logged_in(after, header)
            &&& logout_spec(after, header) == (after, message_reply(Status::BadRequest, Message::SessionMissing))
            &&& get_positions_spec(after, header) == Err::<Map<Seq<char>, Coordinates>, _>(
                message_reply(Status::BadRequest, Message::NotLoggedIn),
            )
        }),
{
}

/// A logout undoes a login: where the login opened a session under a fresh ID, logging out
/// with that session's cookie leaves the state as it was before the login.
pub proof fn law_logout_undoes_login(
    s: StateView,
    name: Seq<char>,
    password: Seq<char>,
    id: u128,
    header: Option<Seq<u8>>,
)
    requires
        login_outcome(s, name, password) == LoginOutcome::Accepted,
        !s.sessions.contains_key(id),
        session_id_of(header) == Ok::<u128, crate::cookies::CookieError>(id),
    ensures
        logout_spec(login_spec(s, name, password, id).0, header) == (s, logout_success_reply()),
{
    let after = login_spec(s, name, password, id).0;
    assert(after.sessions.remove(id) =~= s.sessions);
}

/// A position posted under an upload user's key is what a logged-in client then gets for that
/// user; the other users' positions stay as they were.
pub proof fn law_posted_position_is_served(
    s: StateView,
    key: Seq<char>,
    c: Coordinates,
    header: Option<Seq<u8>>,
)
    requires
        lookup_name_spec(key, s.upload_users) is Some,
        logged_in(s, header),
    ensures
        ({
            let name = lookup_name_spec(key, s.upload_users)->0;
            let after = post_position_spec(s, key, Some(c)).0;
            &&& post_position_spec(s, key, Some(c)).1 == empty_success_reply()
            &&& get_positions_spec(after, header) matches Ok(m) && m[name] == c && m.remove(name)
                == s.positions.remove(name)
        }),
{
    let name = lookup_name_spec(key, s.upload_users)->0;
    assert(s.positions.insert(name, c).remove(name) =~= s.positions.remove(name));
}

/// A request that posts no position or has no valid key changes nothing.
pub proof fn law_rejected_position_changes_nothing(s: StateView, key: Seq<char>, c: Option<Coordinates>)
    requires
        lookup_name_spec(key, s.upload_users) is None || c is None,
    ensures
        post_position_spec(s, key, c).0 == s,
        post_position_spec(s, key, c).1.status == Status::BadRequest,
{
}

/// No request changes the user databases or the pages; only logins and logouts change the
/// sessions, and only posted positions change the positions.
pub proof fn law_request_frames(
    s: StateView,
    header: Option<Seq<u8>>,
    query: Option<(Seq<char>, Seq<char>)>,
    key: Seq<char>,
    c: Option<Coordinates>,
    id: u128,
)
    ensures
        ({
            let a = post_login_spec(s, header, query, id).0;
            &&& a.download_users == s.download_users && a.upload_users == s.upload_users
            &&& a.pages == s.pages && a.positions == s.positions
        }),
        ({
            let a = logout_spec(s, header).0;
            &&& a.download_users == s.download_users && a.upload_users == s.upload_users
            &&& a.pages == s.pages && a.positions == s.positions
        }),
        ({
            let a = post_position_spec(s, key, c).0;
            &&& a.download_users == s.download_users && a.upload_users == s.upload_users
            &&& a.pages == s.pages && a.sessions == s.sessions
        }),
{
}

/// A client that is logged in already is redirected by a login request, and nothing changes.
pub proof fn law_login_when_logged_in(
    s: StateView,
    header: Option<Seq<u8>>,
    query: Option<(Seq<char>, Seq<char>)>,
    id: u128,
)
    requires
        logged_in(s, header),
    ensures
        post_login_spec(s, header, query, id) == (s, already_logged_in_reply()),
        get_login_spec(s, header) == already_logged_in_reply(),
{
}

/// A login request run in steps (read the credentials and the stored hash, check the
/// password, then open the session) ends as the request run at once, where the state did not
/// change between the steps.
pub proof fn law_login_in_steps(
    s: StateView,
    header: Option<Seq<u8>>,
    query: Option<(Seq<char>, Seq<char>)>,
    id: u128,
)
    ensures
        begin_login_spec(s, header, query) matches Err(reply) ==> post_login_spec(s, header, query, id)
            == (s, reply),
        begin_login_spec(s, header, query) matches Ok(c) ==> post_login_spec(s, header, query, id)
            == finish_login_spec(s, c.0, password_outcome(c.1, c.2), id),
{
}

/// A posted position handled in steps (look up the key's user, then store the position) ends
/// as the request handled at once, where the state did not change between the steps.
pub proof fn law_post_position_in_steps(s: StateView, key: Seq<char>, c: Option<Coordinates>)
    ensures
        post_position_spec(s, key, c) == store_position_spec(s, lookup_name_spec(key, s.upload_users), c),
{
}

/// The positions are served exactly to the requests that a login request would redirect as
/// logged in already.
pub proof fn law_positions_served_iff_logged_in(s: StateView, header: Option<Seq<u8>>)
    ensures
        (get_positions_spec(s, header) is Ok) == (check_for_login_spec(s, header) is Some),
        (get_positions_spec(s, header) is Ok) == logged_in(s, header),
{
}

/// The name that a key looks up is that of the first upload user whose hash the key
/// verifies against; no key looks up a name where no hash verifies it.
pub proof fn law_lookup_name_first_match(password: Seq<char>, users: Seq<(Seq<char>, Seq<char>)>)
    ensures
        lookup_name_spec(password, users) matches Some(n) ==> exists|i: int|
            0 <= i < users.len() && users[i].0 == n && bcrypt_verifies(password, #[trigger] users[i].1)
                == Some(true) && forall|j: int|
                0 <= j < i ==> bcrypt_verifies(password, #[trigger] users[j].1) != Some(true),
        lookup_name_spec(password, users) is None <==> forall|i: int|
            0 <= i < users.len() ==> bcrypt_verifies(password, #[trigger] users[i].1) != Some(true),
    decreases users.len(),
{
    if users.len() > 0 {
        let rest = users.drop_first();
        law_lookup_name_first_match(password, rest);
        if bcrypt_verifies(password, users[0].1) != Some(true) {
            if let Some(n) = lookup_name_spec(password, rest) {
                let i = choose|i: int|
                    0 <= i < rest.len() && rest[i].0 == n && bcrypt_verifies(password, #[trigger] rest[i].1)
                        == Some(true) && forall|j: int|
                        0 <= j < i ==> bcrypt_verifies(password, #[trigger] rest[j].1) != Some(true);
                assert(users[i + 1] == rest[i]);
                assert forall|j: int| 0 <= j < i + 1 implies bcrypt_verifies(password, #[trigger] users[j].1)
                    != Some(true) by {
                    if j > 0 {
                        assert(users[j] == rest[j - 1]);
                    }
                }
            }
            assert((forall|i: int| 0 <= i < users.len() ==> bcrypt_verifies(password, #[trigger] users[i].1)
                != Some(true)) <==> (forall|i: int|
                0 <= i < rest.len() ==> bcrypt_verifies(password, #[trigger] rest[i].1) != Some(true))) by {
                assert forall|i: int| 0 <= i < rest.len() implies rest[i] == users[i + 1] by {}
                assert forall|i: int| 0 < i < users.len() implies users[i] == rest[i - 1] by {}
            }
        }
    }
}

/// The hash that a name looks up is that of the first download user of that name; no hash is
/// found where no user has the name.
pub proof fn law_lookup_hash_first_match(name: Seq<char>, users: Seq<(Seq<char>, Seq<char>)>)
    ensures
        lookup_hash_spec(name, users) matches Some(h) ==> exists|i: int|
            0 <= i < users.len() && #[trigger] users[i] == (name, h) && forall|j: int|
                0 <= j < i ==> (#[trigger] users[j]).0 != name,
        lookup_hash_spec(name, users) is None <==> forall|i: int|
            0 <= i < users.len() ==> (#[trigger] users[i]).0 != name,
    decreases users.len(),
{
    if users.len() > 0 {
        let rest = users.drop_first();
        law_lookup_hash_first_match(name, rest);
        if users[0].0 != name {
            if let Some(h) = lookup_hash_spec(name, rest) {
                let i = choose|i: int|
                    0 <= i < rest.len() && #[trigger] rest[i] == (name, h) && forall|j: int|
                        0 <= j < i ==> (#[trigger] rest[j]).0 != name;
                assert(users[i + 1] == rest[i]);
                assert forall|j: int| 0 <= j < i + 1 implies (#[trigger] users[j]).0 != name by {
                    if j > 0 {
                        assert(users[j] == rest[j - 1]);
                    }
                }
            }
            assert((forall|i: int| 0 <= i < users.len() ==> (#[trigger] users[i]).0 != name) <==> (forall|i: int|
                0 <= i < rest.len() ==> (#[trigger] rest[i]).0 != name)) by {
                assert forall|i: int| 0 <= i < rest.len() implies rest[i] == users[i + 1] by {}
                assert forall|i: int| 0 < i < users.len() implies users[i] == rest[i - 1] by {}
            }
        } else {
            assert(users[0] == (name, users[0].1));
        }
    }
}

/// A login request is answered `303 See Other` exactly where the client is logged in already
/// or its password is accepted, and then it sends the client to `/tracker`; a failed login
/// is answered `400` or `500`.
pub proof fn law_login_redirects_to_tracker(
    s: StateView,
    header: Option<Seq<u8>>,
    query: Option<(Seq<char>, Seq<char>)>,
    id: u128,
)
    ensures
        ({
            let reply = post_login_spec(s, header, query, id).1;
            let succeeds = logged_in(s, header) || (query matches Some(q) && login_outcome(s, q.0, q.1)
                == LoginOutcome::Accepted);
            &&& (status_code(reply.status) == 303) == succeeds
            &&& succeeds ==> (reply.location matches Some(to) && redirect_path(to) == "/tracker"@)
            &&& !succeeds ==> (status_code(reply.status) == 400 || status_code(reply.status) == 500)
        }),
        logged_in(s, header) ==> (get_login_spec(s, header).location matches Some(to) && redirect_path(to)
            == "/tracker"@ && status_code(get_login_spec(s, header).status) == 303),
{
}

/// A logout is answered `200` exactly where the request names an open session, and then it
/// sends the client to `/`; otherwise it is answered `400` and redirects nowhere.
pub proof fn law_logout_redirects_to_root(s: StateView, header: Option<Seq<u8>>)
    ensures
        ({
            let reply = logout_spec(s, header).1;
            &&& (status_code(reply.status) == 200) == logged_in(s, header)
            &&& logged_in(s, header) ==> (reply.location matches Some(to) && redirect_path(to) == "/"@)
            &&& !logged_in(s, header) ==> (status_code(reply.status) == 400 && reply.location is None)
        }),
{
}

/// A `Cookie` header is refused for its characters exactly where it holds a byte other than a
/// tab or a visible ASCII character (`0x20` to `0x7E`); no other reason to refuse a present
/// header gives that error.
pub proof fn law_cookie_header_bytes(bytes: Seq<u8>)
    ensures
        (session_id_of(Some(bytes)) == Err::<u128, CookieError>(CookieError::InvalidCookieChars)) == (exists|i: int|
            0 <= i < bytes.len() && !(32 <= #[trigger] bytes[i] <= 126 || bytes[i] == 9)),
{
}

/// A piece of a `Cookie` header that does not parse as a cookie is skipped: the jar, and so
/// the session ID read from it, is that of the pieces before it.
pub proof fn law_unparsed_cookie_skipped(parsed: Seq<Option<(Seq<char>, Seq<char>)>>)
    ensures
        jar_of(parsed.push(None)) == jar_of(parsed),
        session_id_in(jar_of(parsed.push(None))) == session_id_in(jar_of(parsed)),
{
    assert(parsed.push(None).drop_last() =~= parsed);
}

/// A piece that parses as the cookie `name=value` adds that cookie to the jar of the pieces
/// before it, replacing an earlier cookie of the same name.
pub proof fn law_parsed_cookie_added(
    parsed: Seq<Option<(Seq<char>, Seq<char>)>>,
    name: Seq<char>,
    value: Seq<char>,
)
    ensures
        jar_of(parsed.push(Some((name, value)))) == jar_of(parsed).insert(name, value),
{
    assert(parsed.push(Some((name, value))).drop_last() =~= parsed);
}

/// The address the server binds to is `::ffff:a.b.c.d`: five zero segments, `0xffff`, then the
/// four octets of the IPv4 address read back in order from the last two segments, each
/// segment holding two octets big-endian.
pub proof fn law_ipv6_mapped_octets(octets: [u8; 4])
    ensures
        ipv6_mapped_spec(octets).len() == 8,
        forall|i: int| 0 <= i < 5 ==> ipv6_mapped_spec(octets)[i] == 0,
        ipv6_mapped_spec(octets)[5] == 0xffff,
        ipv6_mapped_spec(octets)[6] / 256 == octets[0],
        ipv6_mapped_spec(octets)[6] % 256 == octets[1],
        ipv6_mapped_spec(octets)[7] / 256 == octets[2],
        ipv6_mapped_spec(octets)[7] % 256 == octets[3],
{
    let high: int = octets[0] * 256 + octets[1];
    let low: int = octets[2] * 256 + octets[3];
    assert(0 <= high < 65536 && 0 <= low < 65536);
    assert(ipv6_mapped_spec(octets)[6] == high);
    assert(ipv6_mapped_spec(octets)[7] == low);
}

} // verus!
