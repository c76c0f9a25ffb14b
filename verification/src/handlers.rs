//! The decisions of the HTTP handlers: given the state and what a request carries, the new
//! state and the reply.

use vstd::prelude::*;

use crate::cookies::{
    extract_session_id, header_carries_session, header_view, session_id_of, CookieError,
};
use crate::decimal::{decimal_string, decimal_text};
use crate::reply::{message_reply, redirect_reply, BodyView, Message, Redirect, Reply, ReplyBody, ReplyView, Status};
use crate::session_cookie::{
    expired_session_cookie, expired_session_cookie_text, random_session_id, session_cookie,
    session_cookie_text,
};
use crate::state::{
    AppState, Coordinates, PageName, Positions, SessionState, StateView, SESSION_TTL,
};
use crate::users::{
    bcrypt_verifies, lookup_hash, lookup_hash_spec, lookup_name, lookup_name_spec,
    string_option_view, verify_password,
};

verus! {

broadcast use vstd::std_specs::hash::group_hash_axioms;

/// The reply to a request whose session ID cannot be read.
pub open spec fn cookie_error_reply(e: CookieError) -> ReplyView {
    match e {
        CookieError::NoCookies => message_reply(Status::BadRequest, Message::NoCookies),
        CookieError::InvalidCookieChars => message_reply(Status::BadRequest, Message::InvalidCookieChars),
        CookieError::MissingSessionId => message_reply(Status::BadRequest, Message::MissingSessionCookie),
        CookieError::InvalidSessionId => message_reply(Status::BadRequest, Message::InvalidSessionId),
    }
}

impl CookieError {
    /// The reply to a request whose session ID cannot be read.
    pub fn reply(&self) -> (r: Reply)
        ensures
            r@ == cookie_error_reply(*self),
    {
        let m = match self {
            CookieError::NoCookies => Message::NoCookies,
            CookieError::InvalidCookieChars => Message::InvalidCookieChars,
            CookieError::MissingSessionId => Message::MissingSessionCookie,
            CookieError::InvalidSessionId => Message::InvalidSessionId,
        };
        Reply::message(Status::BadRequest, m)
    }
}

/// The reply to a client that is logged in already: a redirect to the tracker.
pub open spec fn already_logged_in_reply() -> ReplyView {
    redirect_reply(Status::SeeOther, Redirect::Tracker, Message::AlreadyLoggedIn)
}

/// Whether the request's session ID names an open session.
pub open spec fn logged_in(s: StateView, header: Option<Seq<u8>>) -> bool {
    session_id_of(header) matches Ok(id) && s.sessions.contains_key(id)
}

/// The redirect that a logged-in client gets where it asks to log in.
pub open spec fn check_for_login_spec(s: StateView, header: Option<Seq<u8>>) -> Option<ReplyView> {
    if logged_in(s, header) {
        Some(already_logged_in_reply())
    } else {
        None
    }
}

/// How a login attempt with a name and a password fares against the download users.
#[derive(Clone, Copy, Debug, PartialEq, Eq, Structural)]
pub enum LoginOutcome {
    /// The password verifies against the user's hash.
    Accepted,
    /// No download user has the name.
    UnknownUser,
    /// The password does not verify against the user's hash.
    WrongPassword,
    /// The user's hash could not be checked.
    VerifyFailed,
}

/// How a password fares against the hash stored for a name (`None` where no user has the
/// name).
pub open spec fn password_outcome(password: Seq<char>, hash: Option<Seq<char>>) -> LoginOutcome {
    match hash {
        None => LoginOutcome::UnknownUser,
        Some(hash) => match bcrypt_verifies(password, hash) {
            Some(true) => LoginOutcome::Accepted,
            Some(false) => LoginOutcome::WrongPassword,
            None => LoginOutcome::VerifyFailed,
        },
    }
}

pub open spec fn login_outcome(s: StateView, name: Seq<char>, password: Seq<char>) -> LoginOutcome {
    password_outcome(password, lookup_hash_spec(name, s.download_users))
}

/// The reply to a login that opened the session `id`: a redirect to the tracker that sets the
/// session cookie.
pub open spec fn login_success_reply(id: u128) -> ReplyView {
    ReplyView {
        status: Status::SeeOther,
        location: Some(Redirect::Tracker),
        set_cookie: Some(session_cookie_text(decimal_text(id as nat))),
        body: BodyView::Text(Message::LoginSuccessful),
    }
}

/// Where the reply sets a cookie, the cookie begins with the session cookie `sessionID=<id>`.
pub open spec fn cookie_names_session(r: ReplyView, id: u128) -> bool {
    r.set_cookie matches Some(c) ==> ("sessionID"@ + "="@ + decimal_text(id as nat)).is_prefix_of(c)
}

/// The session cookie that a login hands out begins with `sessionID=<id>`.
pub proof fn lemma_session_cookie_prefix(id: u128)
    ensures
        ("sessionID"@ + "="@ + decimal_text(id as nat)).is_prefix_of(
            session_cookie_text(decimal_text(id as nat)),
        ),
{
    reveal_strlit("sessionID");
    reveal_strlit("=");
    reveal_strlit("sessionID=");
    let d = decimal_text(id as nat);
    assert(("sessionID"@ + "="@ + d) =~= ("sessionID="@ + d));
    let t = session_cookie_text(d);
    assert(t =~= ("sessionID="@ + d) + "; HttpOnly; SameSite=Strict; Secure; Path=/"@);
    assert(("sessionID="@ + d) =~= t.subrange(0, ("sessionID="@ + d).len() as int));
}

/// The reply to a login that failed.
pub open spec fn login_failure_reply(outcome: LoginOutcome) -> ReplyView {
    match outcome {
        LoginOutcome::VerifyFailed => message_reply(Status::InternalServerError, Message::LoginValidationFailed),
        _ => redirect_reply(Status::BadRequest, Redirect::Login, Message::InvalidLoginData),
    }
}

/// The state with the session `id` opened for the user `name`.
pub open spec fn with_session(s: StateView, id: u128, name: Seq<char>) -> StateView {
    StateView { sessions: s.sessions.insert(id, (name, SESSION_TTL)), ..s }
}

/// The end of a login of `name` whose password fared as `outcome`; `id` is the random ID a new
/// session gets.
pub open spec fn finish_login_spec(s: StateView, name: Seq<char>, outcome: LoginOutcome, id: u128) -> (StateView, ReplyView) {
    if outcome == LoginOutcome::Accepted {
        (with_session(s, id, name), login_success_reply(id))
    } else {
        (s, login_failure_reply(outcome))
    }
}

/// A login of `name` with `password`; `id` is the random ID a new session gets.
pub open spec fn login_spec(s: StateView, name: Seq<char>, password: Seq<char>, id: u128) -> (StateView, ReplyView) {
    finish_login_spec(s, name, login_outcome(s, name, password), id)
}

/// The name and password of a login request.
pub struct LoginQuery {
    pub name: String,
    pub password: String,
}

pub open spec fn query_view(q: Option<LoginQuery>) -> Option<(Seq<char>, Seq<char>)> {
    match q {
        Some(q) => Some((q.name@, q.password@)),
        None => None,
    }
}

/// A login request: `query` is its name and password, `None` where its body could not be read
/// as such; `id` is the random ID a new session gets.
pub open spec fn post_login_spec(
    s: StateView,
    header: Option<Seq<u8>>,
    query: Option<(Seq<char>, Seq<char>)>,
    id: u128,
) -> (StateView, ReplyView) {
    if logged_in(s, header) {
        (s, already_logged_in_reply())
    } else {
        match query {
            None => (s, message_reply(Status::BadRequest, Message::InvalidLoginData)),
            Some(q) => login_spec(s, q.0, q.1, id),
        }
    }
}

/// The first step of a login request, which only reads the state: the reply where the client
/// is logged in already or the body held no credentials, and otherwise the name, the password
/// and the hash stored for the name.
pub open spec fn begin_login_spec(
    s: StateView,
    header: Option<Seq<u8>>,
    query: Option<(Seq<char>, Seq<char>)>,
) -> Result<(Seq<char>, Seq<char>, Option<Seq<char>>), ReplyView> {
    if logged_in(s, header) {
        Err(already_logged_in_reply())
    } else {
        match query {
            None => Err(message_reply(Status::BadRequest, Message::InvalidLoginData)),
            Some(q) => Ok((q.0, q.1, lookup_hash_spec(q.0, s.download_users))),
        }
    }
}

/// The credentials of a login request, with the hash stored for the name (`None` where no
/// download user has it).
pub struct Credentials {
    pub name: String,
    pub password: String,
    pub hash: Option<String>,
}

pub open spec fn credentials_view(c: Credentials) -> (Seq<char>, Seq<char>, Option<Seq<char>>) {
    (c.name@, c.password@, string_option_view(c.hash))
}

/// The reply to a logout: it redirects to the root page and makes the client delete its
/// session cookie.
pub open spec fn logout_success_reply() -> ReplyView {
    ReplyView {
        status: Status::Success,
        location: Some(Redirect::Root),
        set_cookie: Some(expired_session_cookie_text()),
        body: BodyView::Text(Message::LogoutSuccessful),
    }
}

/// A logout request: the session the request names is closed.
pub open spec fn logout_spec(s: StateView, header: Option<Seq<u8>>) -> (StateView, ReplyView) {
    match session_id_of(header) {
        Err(e) => (s, cookie_error_reply(e)),
        Ok(id) => if s.sessions.contains_key(id) {
            (StateView { sessions: s.sessions.remove(id), ..s }, logout_success_reply())
        } else {
            (s, message_reply(Status::BadRequest, Message::SessionMissing))
        },
    }
}

/// A request for the positions: the positions where the request's session is open.
pub open spec fn get_positions_spec(s: StateView, header: Option<Seq<u8>>) -> Result<Map<Seq<char>, Coordinates>, ReplyView> {
    match session_id_of(header) {
        Err(e) => Err(cookie_error_reply(e)),
        Ok(id) => if s.sessions.contains_key(id) {
            Ok(s.positions)
        } else {
            Err(message_reply(Status::BadRequest, Message::NotLoggedIn))
        },
    }
}

/// The reply that accepts a posted position.
pub open spec fn empty_success_reply() -> ReplyView {
    ReplyView { status: Status::Success, location: None, set_cookie: None, body: BodyView::Empty }
}

/// A posted position: `key` is the upload user's password, `coordinates` the position that
/// the body holds (`None` where it holds none).
pub open spec fn post_position_spec(s: StateView, key: Seq<char>, coordinates: Option<Coordinates>) -> (StateView, ReplyView) {
    store_position_spec(s, lookup_name_spec(key, s.upload_users), coordinates)
}

/// The second step of a posted position: `user` is the upload user the key named (`None`
/// where it named none), `coordinates` the position that the body holds.
pub open spec fn store_position_spec(s: StateView, user: Option<Seq<char>>, coordinates: Option<Coordinates>) -> (StateView, ReplyView) {
    match user {
        None => (s, message_reply(Status::BadRequest, Message::InvalidKey)),
        Some(name) => match coordinates {
            None => (s, message_reply(Status::BadRequest, Message::InvalidCoordinates)),
            Some(c) => (StateView { positions: s.positions.insert(name, c), ..s }, empty_success_reply()),
        },
    }
}

/// A reply that serves a page.
pub open spec fn page_reply(text: Seq<char>) -> ReplyView {
    ReplyView { status: Status::Success, location: None, set_cookie: None, body: BodyView::Page(text) }
}

/// A request for the login page: logged-in clients are redirected to the tracker.
pub open spec fn get_login_spec(s: StateView, header: Option<Seq<u8>>) -> ReplyView {
    if logged_in(s, header) {
        already_logged_in_reply()
    } else {
        page_reply(s.pages.1)
    }
}

impl AppState {
    /// Redirects a client that is logged in already to the tracker; `None` where the request
    /// names no open session.
    pub fn check_for_login(&self, header: Option<&[u8]>) -> (r: Option<Reply>)
        ensures
            match r {
                Some(reply) => check_for_login_spec(self@, header_view(header)) == Some(reply@),
                None => check_for_login_spec(self@, header_view(header)) is None,
            },
            forall|id: u128|
                #[trigger] header_carries_session(header_view(header), id) && self@.sessions.contains_key(id)
                    ==> r is Some,
    {
        match extract_session_id(header) {
            Ok(session_id) => {
                if self.sessions.contains_key(&session_id) {
                    return Some(
                        Reply::redirect(Status::SeeOther, Redirect::Tracker, Message::AlreadyLoggedIn),
                    );
                }
                None
            },
            Err(_) => None,
        }
    }

    /// Checks a name and a password against the download users.
    pub fn check_credentials(&self, name: &str, password: &str) -> (r: LoginOutcome)
        ensures
            r == login_outcome(self@, name@, password@),
    {
        let hash = lookup_hash(name, &self.download_users);
        match &hash {
            Some(h) => check_password(password, Some(h.as_str())),
            None => check_password(password, None),
        }
    }

    /// The first step of a login request, which only reads the state: a logged-in client is
    /// redirected to the tracker and a request without credentials refused; otherwise the
    /// credentials come back with the hash stored for the name.
    pub fn begin_login(&self, header: Option<&[u8]>, query: Option<LoginQuery>) -> (r: Result<Credentials, Reply>)
        ensures
            match r {
                Ok(c) => begin_login_spec(self@, header_view(header), query_view(query)) == Ok::<_, ReplyView>(credentials_view(c)),
                Err(reply) => begin_login_spec(self@, header_view(header), query_view(query)) == Err::<(Seq<char>, Seq<char>, Option<Seq<char>>), _>(reply@),
            },
    {
        if let Some(reply) = self.check_for_login(header) {
            return Err(reply);
        }
        match query {
            None => Err(Reply::message(Status::BadRequest, Message::InvalidLoginData)),
            Some(q) => {
                let hash = lookup_hash(q.name.as_str(), &self.download_users);
                Ok(Credentials { name: q.name, password: q.password, hash })
            },
        }
    }

    /// The last step of a login of `name` whose password fared as `outcome`: on `Accepted`, a
    /// session with a random ID is opened and its cookie set.
    pub fn finish_login(&mut self, name: &str, outcome: LoginOutcome) -> (r: Reply)
        ensures
            exists|id: u128|
                (final(self)@, r@) == finish_login_spec(old(self)@, name@, outcome, id)
                    && cookie_names_session(r@, id),
    {
        let session_id = if outcome == LoginOutcome::Accepted {
            random_session_id()
        } else {
            0
        };
        let r = self.complete_login(name, outcome, session_id);
        assert((self@, r@) == finish_login_spec(old(self)@, name@, outcome, session_id));
        proof {
            lemma_session_cookie_prefix(session_id);
        }
        assert(cookie_names_session(r@, session_id));
        r
    }

    /// The upload user whose password is `key`, or `None` where there is none.
    pub fn upload_user(&self, key: &str) -> (r: Option<String>)
        ensures
            string_option_view(r) == lookup_name_spec(key@, self@.upload_users),
    {
        lookup_name(key, &self.upload_users)
    }

    /// The second step of a posted position: records `coordinates` (`None` where the body held
    /// none) for `user`, the upload user that the key named (`None` where it named none).
    pub fn store_position(&mut self, user: Option<String>, coordinates: Option<Coordinates>) -> (r: Reply)
        ensures
            (final(self)@, r@) == store_position_spec(old(self)@, string_option_view(user), coordinates),
    {
        match user {
            Some(name) => match coordinates {
                Some(c) => {
                    let _fresh = self.positions.insert(name, c);
                    Reply { status: Status::Success, location: None, set_cookie: None, body: ReplyBody::Empty }
                },
                None => Reply::message(Status::BadRequest, Message::InvalidCoordinates),
            },
            None => Reply::message(Status::BadRequest, Message::InvalidKey),
        }
    }

    /// Opens the session `session_id` for the user `name` and returns the `Set-Cookie` value
    /// that hands the session ID to the client. A session of the same ID is replaced.
    pub fn open_session(&mut self, name: &str, session_id: u128) -> (r: String)
        ensures
            final(self)@ == with_session(old(self)@, session_id, name@),
            r@ == session_cookie_text(decimal_text(session_id as nat)),
            ("sessionID"@ + "="@ + decimal_text(session_id as nat)).is_prefix_of(r@),
    {
        let ghost pre = self.sessions@;
        self.sessions.insert(session_id, SessionState { name: name.to_owned(), ttl: SESSION_TTL });
        assert(crate::state::sessions_view(self.sessions@) =~= crate::state::sessions_view(pre).insert(
            session_id,
            (name@, SESSION_TTL),
        ));
        let value = decimal_string(session_id);
        session_cookie(value.as_str())
    }

    /// Opens a session with a random ID for the user `name` and returns the `Set-Cookie` value
    /// that hands the session ID to the client.
    pub fn make_session_cookie(&mut self, name: &str) -> (r: String)
        ensures
            exists|id: u128|
                final(self)@ == with_session(old(self)@, id, name@) && r@ == session_cookie_text(decimal_text(id as nat))
                    && ("sessionID"@ + "="@ + decimal_text(id as nat)).is_prefix_of(r@),
    {
        let session_id = random_session_id();
        self.open_session(name, session_id)
    }

    /// Ends a login whose credentials have been checked: on `Accepted`, the session
    /// `session_id` is opened for `name`.
    pub fn complete_login(&mut self, name: &str, outcome: LoginOutcome, session_id: u128) -> (r: Reply)
        ensures
            outcome == LoginOutcome::Accepted ==> final(self)@ == with_session(old(self)@, session_id, name@)
                && r@ == login_success_reply(session_id) && cookie_names_session(r@, session_id),
            outcome != LoginOutcome::Accepted ==> final(self)@ == old(self)@ && r@ == login_failure_reply(
                outcome,
            ),
    {
        match outcome {
            LoginOutcome::Accepted => {
                let cookie = self.open_session(name, session_id);
                Reply {
                    status: Status::SeeOther,
                    location: Some(Redirect::Tracker),
                    set_cookie: Some(cookie),
                    body: ReplyBody::Text(Message::LoginSuccessful),
                }
            },
            LoginOutcome::VerifyFailed => Reply::message(
                Status::InternalServerError,
                Message::LoginValidationFailed,
            ),
            _ => Reply::redirect(Status::BadRequest, Redirect::Login, Message::InvalidLoginData),
        }
    }

    /// Logs in the download user `name` with `password`: on success a session with a random ID
    /// is opened and its cookie set.
    pub fn login(&mut self, name: &str, password: &str) -> (r: Reply)
        ensures
            exists|id: u128|
                (final(self)@, r@) == login_spec(old(self)@, name@, password@, id) && cookie_names_session(r@, id),
    {
        let outcome = self.check_credentials(name, password);
        let session_id = if outcome == LoginOutcome::Accepted {
            random_session_id()
        } else {
            0
        };
        let r = self.complete_login(name, outcome, session_id);
        assert((self@, r@) == login_spec(old(self)@, name@, password@, session_id));
        assert(cookie_names_session(r@, session_id));
        r
    }

    /// Handles a login request: a logged-in client is redirected to the tracker; otherwise the
    /// name and password of `query` are checked (`None` where the body held none).
    pub fn post_login(&mut self, header: Option<&[u8]>, query: Option<LoginQuery>) -> (r: Reply)
        ensures
            exists|id: u128|
                (final(self)@, r@) == post_login_spec(old(self)@, header_view(header), query_view(query), id)
                    && cookie_names_session(r@, id),
    {
        let ghost qv = query_view(query);
        if let Some(reply) = self.check_for_login(header) {
            assert((self@, reply@) == post_login_spec(old(self)@, header_view(header), qv, 0));
            assert(cookie_names_session(reply@, 0));
            return reply;
        }
        match query {
            None => {
                let r = Reply::message(Status::BadRequest, Message::InvalidLoginData);
                assert((self@, r@) == post_login_spec(old(self)@, header_view(header), None, 0));
                assert(cookie_names_session(r@, 0));
                r
            },
            Some(q) => {
                let r = self.login(q.name.as_str(), q.password.as_str());
                proof {
                    let id = choose|id: u128|
                        (self@, r@) == login_spec(old(self)@, q.name@, q.password@, id)
                            && cookie_names_session(r@, id);
                    assert((self@, r@) == post_login_spec(old(self)@, header_view(header), qv, id));
                }
                r
            },
        }
    }

    /// Closes the session `session_id`; returns the `Set-Cookie` value that makes the client
    /// delete its session cookie, and the name of the session's user.
    pub fn delete_session_cookie(&mut self, session_id: u128) -> (r: Result<(String, String), Reply>)
        ensures
            old(self)@.sessions.contains_key(session_id) ==> (r matches Ok(p) && p.0@ == expired_session_cookie_text() && p.1@ == old(self)@.sessions[session_id].0 && final(self)@ == StateView {
                sessions: old(self)@.sessions.remove(session_id),
                ..old(self)@
            }),
            !old(self)@.sessions.contains_key(session_id) ==> (r matches Err(reply) && reply@
                == message_reply(Status::BadRequest, Message::SessionMissing) && final(self)@ == old(
                self,
            )@),
    {
        let ghost pre = self.sessions@;
        match self.sessions.remove(&session_id) {
            Some(session_state) => {
                assert(crate::state::sessions_view(self.sessions@) =~= crate::state::sessions_view(pre).remove(session_id));
                let cookie = expired_session_cookie();
                Ok((cookie, session_state.name))
            },
            None => {
                assert(self.sessions@ =~= pre);
                Err(Reply::message(Status::BadRequest, Message::SessionMissing))
            },
        }
    }

    /// Logs out: the session that the request names is closed and the client told to delete
    /// its session cookie.
    pub fn logout(&mut self, header: Option<&[u8]>) -> (r: Reply)
        ensures
            (final(self)@, r@) == logout_spec(old(self)@, header_view(header)),
    {
        match extract_session_id(header) {
            Ok(session_id) => match self.delete_session_cookie(session_id) {
                Ok((cookie, _name)) => Reply {
                    status: Status::Success,
                    location: Some(Redirect::Root),
                    set_cookie: Some(cookie),
                    body: ReplyBody::Text(Message::LogoutSuccessful),
                },
                Err(reply) => reply,
            },
            Err(e) => e.reply(),
        }
    }

    /// The positions, for a client that is logged in; otherwise the reply that refuses them.
    pub fn get_positions(&self, header: Option<&[u8]>) -> (r: Result<&Positions, Reply>)
        ensures
            match r {
                Ok(p) => get_positions_spec(self@, header_view(header)) == Ok::<_, ReplyView>(p@),
                Err(reply) => get_positions_spec(self@, header_view(header)) == Err::<Map<Seq<char>, Coordinates>, _>(reply@),
            },
    {
        match extract_session_id(header) {
            Ok(session_id) => {
                if self.sessions.contains_key(&session_id) {
                    Ok(&self.positions)
                } else {
                    Err(Reply::message(Status::BadRequest, Message::NotLoggedIn))
                }
            },
            Err(e) => Err(e.reply()),
        }
    }

    /// Records a posted position: `key` must be the password of an upload user, and
    /// `coordinates` is the position the request body holds (`None` where it holds none).
    pub fn post_position(&mut self, key: &str, coordinates: Option<Coordinates>) -> (r: Reply)
        ensures
            (final(self)@, r@) == post_position_spec(old(self)@, key@, coordinates),
    {
        let user = self.upload_user(key);
        self.store_position(user, coordinates)
    }

    /// Serves the login page, or redirects a client that is logged in already to the tracker.
    pub fn get_login(&self, header: Option<&[u8]>) -> (r: Reply)
        ensures
            r@ == get_login_spec(self@, header_view(header)),
    {
        if let Some(reply) = self.check_for_login(header) {
            return reply;
        }
        self.page_reply(PageName::Login)
    }

    /// Serves a page.
    pub fn page_reply(&self, page: PageName) -> (r: Reply)
        ensures
            r@ == page_reply(crate::state::page_text(self.pages, page)),
    {
        let text = self.pages.page(page).clone();
        Reply { status: Status::Success, location: None, set_cookie: None, body: ReplyBody::Page(text) }
    }

    /// Serves the page for posting positions.
    pub fn postpos(&self) -> (r: Reply)
        ensures
            r@ == page_reply(self@.pages.2),
    {
        self.page_reply(PageName::Postpos)
    }

    /// Serves the home page.
    pub fn home(&self) -> (r: Reply)
        ensures
            r@ == page_reply(self@.pages.0),
    {
        self.page_reply(PageName::Home)
    }

    /// Serves the tracker page.
    pub fn tracker(&self) -> (r: Reply)
        ensures
            r@ == page_reply(self@.pages.3),
    {
        self.page_reply(PageName::Tracker)
    }
}

pub open spec fn str_option_view(o: Option<&str>) -> Option<Seq<char>> {
    match o {
        Some(s) => Some(s@),
        None => None,
    }
}

/// Checks a password against the hash stored for a name (`None` where no user has the name).
pub fn check_password(password: &str, hash: Option<&str>) -> (r: LoginOutcome)
    ensures
        r == password_outcome(password@, str_option_view(hash)),
{
    match hash {
        None => LoginOutcome::UnknownUser,
        Some(h) => match verify_password(password, h) {
            Ok(true) => LoginOutcome::Accepted,
            Ok(false) => LoginOutcome::WrongPassword,
            Err(_) => LoginOutcome::VerifyFailed,
        },
    }
}

/// The answer to a health check: the service is up.
pub fn health_check() -> (r: Status)
    ensures
        r == Status::Success,
{
    Status::Success
}

} // verus!
