//! What a handler answers: a status, an optional redirect, an optional cookie to set and a body.

use vstd::prelude::*;

verus! {

/// The HTTP status codes the application answers with.
#[derive(Clone, Copy, Debug, PartialEq, Eq, Structural)]
pub enum Status {
    Success,
    SeeOther,
    BadRequest,
    InternalServerError,
}

pub open spec fn status_code(s: Status) -> u16 {
    match s {
        Status::Success => 200,
        Status::SeeOther => 303,
        Status::BadRequest => 400,
        Status::InternalServerError => 500,
    }
}

impl Status {
    /// The numeric HTTP status code.
    pub fn code(&self) -> (r: u16)
        ensures
            r == status_code(*self),
            *self == Status::Success ==> r == 200,
            *self == Status::SeeOther ==> r == 303,
            *self == Status::BadRequest ==> r == 400,
            *self == Status::InternalServerError ==> r == 500,
    {
        match self {
            Status::Success => 200,
            Status::SeeOther => 303,
            Status::BadRequest => 400,
            Status::InternalServerError => 500,
        }
    }
}

/// The pages a reply can redirect a client to.
#[derive(Clone, Copy, Debug, PartialEq, Eq, Structural)]
pub enum Redirect {
    Root,
    Login,
    Tracker,
}

pub open spec fn redirect_path(r: Redirect) -> Seq<char> {
    match r {
        Redirect::Root => "/"@,
        Redirect::Login => "/login"@,
        Redirect::Tracker => "/tracker"@,
    }
}

impl Redirect {
    /// The path that goes into the `Location` header.
    pub fn path(&self) -> (r: &'static str)
        ensures
            r@ == redirect_path(*self),
            *self == Redirect::Root ==> r@ == "/"@,
            *self == Redirect::Login ==> r@ == "/login"@,
            *self == Redirect::Tracker ==> r@ == "/tracker"@,
    {
        match self {
            Redirect::Root => "/",
            Redirect::Login => "/login",
            Redirect::Tracker => "/tracker",
        }
    }
}

/// The fixed texts the application answers with.
#[derive(Clone, Copy, Debug, PartialEq, Eq, Structural)]
pub enum Message {
    AlreadyLoggedIn,
    LoginSuccessful,
    InvalidLoginData,
    LoginValidationFailed,
    LogoutSuccessful,
    SessionMissing,
    NotLoggedIn,
    PositionDataFailed,
    InvalidKey,
    InvalidCoordinates,
    InvalidCookieChars,
    InvalidSessionId,
    MissingSessionCookie,
    NoCookies,
}

pub open spec fn message_text(m: Message) -> Seq<char> {
    match m {
        Message::AlreadyLoggedIn => "You are already logged in."@,
        Message::LoginSuccessful => "Login successful."@,
        Message::InvalidLoginData => "You must have valid login data."@,
        Message::LoginValidationFailed => "Failed to validate login data."@,
        Message::LogoutSuccessful => "Logout successful."@,
        Message::SessionMissing => "Your session does not exist."@,
        Message::NotLoggedIn => "You must be logged in to retrieve positions."@,
        Message::PositionDataFailed => "Failed to generate position data."@,
        Message::InvalidKey => "You must have a valid key to post coordinates."@,
        Message::InvalidCoordinates => "Coordinates must be a pair of floats."@,
        Message::InvalidCookieChars => "Cookies must consist of visible ASCII characters only."@,
        Message::InvalidSessionId => "The 'sessionID' must be an integer."@,
        Message::MissingSessionCookie => "The 'sessionID' cookie is missing."@,
        Message::NoCookies => "No cookies were found, specifically the 'sessionID' cookie."@,
    }
}

impl Message {
    /// The text of the message, as it goes into a reply body.
    pub fn text(&self) -> (r: &'static str)
        ensures
            r@ == message_text(*self),
            *self == Message::AlreadyLoggedIn ==> r@ == "You are already logged in."@,
            *self == Message::LoginSuccessful ==> r@ == "Login successful."@,
            *self == Message::InvalidLoginData ==> r@ == "You must have valid login data."@,
            *self == Message::LoginValidationFailed ==> r@ == "Failed to validate login data."@,
            *self == Message::LogoutSuccessful ==> r@ == "Logout successful."@,
            *self == Message::SessionMissing ==> r@ == "Your session does not exist."@,
            *self == Message::NotLoggedIn ==> r@ == "You must be logged in to retrieve positions."@,
            *self == Message::PositionDataFailed ==> r@ == "Failed to generate position data."@,
            *self == Message::InvalidKey ==> r@ == "You must have a valid key to post coordinates."@,
            *self == Message::InvalidCoordinates ==> r@ == "Coordinates must be a pair of floats."@,
            *self == Message::InvalidCookieChars ==> r@ == "Cookies must consist of visible ASCII characters only."@,
            *self == Message::InvalidSessionId ==> r@ == "The 'sessionID' must be an integer."@,
            *self == Message::MissingSessionCookie ==> r@ == "The 'sessionID' cookie is missing."@,
            *self == Message::NoCookies ==> r@ == "No cookies were found, specifically the 'sessionID' cookie."@,
    {
        match self {
            Message::AlreadyLoggedIn => "You are already logged in.",
            Message::LoginSuccessful => "Login successful.",
            Message::InvalidLoginData => "You must have valid login data.",
            Message::LoginValidationFailed => "Failed to validate login data.",
            Message::LogoutSuccessful => "Logout successful.",
            Message::SessionMissing => "Your session does not exist.",
            Message::NotLoggedIn => "You must be logged in to retrieve positions.",
            Message::PositionDataFailed => "Failed to generate position data.",
            Message::InvalidKey => "You must have a valid key to post coordinates.",
            Message::InvalidCoordinates => "Coordinates must be a pair of floats.",
            Message::InvalidCookieChars => "Cookies must consist of visible ASCII characters only.",
            Message::InvalidSessionId => "The 'sessionID' must be an integer.",
            Message::MissingSessionCookie => "The 'sessionID' cookie is missing.",
            Message::NoCookies => "No cookies were found, specifically the 'sessionID' cookie.",
        }
    }
}

/// The body of a reply.
pub enum ReplyBody {
    Empty,
    Text(Message),
    Page(String),
}

/// The mathematical content of a reply body.
pub enum BodyView {
    Empty,
    Text(Message),
    Page(Seq<char>),
}

impl View for ReplyBody {
    type V = BodyView;

    open spec fn view(&self) -> BodyView {
        match self {
            ReplyBody::Empty => BodyView::Empty,
            ReplyBody::Text(m) => BodyView::Text(*m),
            ReplyBody::Page(p) => BodyView::Page(p@),
        }
    }
}

/// A handler's answer, before it is turned into an HTTP response.
pub struct Reply {
    pub status: Status,
    pub location: Option<Redirect>,
    pub set_cookie: Option<String>,
    pub body: ReplyBody,
}

/// The mathematical content of a reply.
pub struct ReplyView {
    pub status: Status,
    pub location: Option<Redirect>,
    pub set_cookie: Option<Seq<char>>,
    pub body: BodyView,
}

pub open spec fn cookie_view(c: Option<String>) -> Option<Seq<char>> {
    match c {
        Some(s) => Some(s@),
        None => None,
    }
}

impl View for Reply {
    type V = ReplyView;

    open spec fn view(&self) -> ReplyView {
        ReplyView {
            status: self.status,
            location: self.location,
            set_cookie: cookie_view(self.set_cookie),
            body: self.body@,
        }
    }
}

/// A reply that carries one of the fixed messages and neither redirects nor sets a cookie.
pub open spec fn message_reply(status: Status, m: Message) -> ReplyView {
    ReplyView { status, location: None, set_cookie: None, body: BodyView::Text(m) }
}

/// A reply that carries one of the fixed messages and redirects.
pub open spec fn redirect_reply(status: Status, to: Redirect, m: Message) -> ReplyView {
    ReplyView { status, location: Some(to), set_cookie: None, body: BodyView::Text(m) }
}

impl Reply {
    pub fn message(status: Status, m: Message) -> (r: Reply)
        ensures
            r@ == message_reply(status, m),
    {
        Reply { status, location: None, set_cookie: None, body: ReplyBody::Text(m) }
    }

    pub fn redirect(status: Status, to: Redirect, m: Message) -> (r: Reply)
        ensures
            r@ == redirect_reply(status, to, m),
    {
        Reply { status, location: Some(to), set_cookie: None, body: ReplyBody::Text(m) }
    }
}

}
