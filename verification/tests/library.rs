use std::collections::HashMap;

use mtrack::cookies::{
    extract_session_id, jar_from_parsed, parse_cookies, session_id_from_jar, CookieError,
    SESSION_ID_COOKIE_NAME,
};
use mtrack::decimal::{decimal_string, parse_u128};
use mtrack::handlers::{check_password, health_check, LoginOutcome, LoginQuery};
use mtrack::reply::{Message, Redirect, Reply, ReplyBody, Status};
use mtrack::runtime::{
    ipv6_mapped, log_level, stop_action, ConnectionIds, HandleError, StopEvent, TraceLevel,
};
use mtrack::state::{
    page_path, AppState, Coordinates, PageName, Pages, Positions, SessionState, PAGE_NAMES,
    SESSION_TTL,
};
use mtrack::users::{lookup_hash, lookup_name, UserEntry};

const HASHFOO: &str = "$2a$04$hu2ZTKvt/3px6oAj5XVxiOs1mRQcinxBJgGFNLF80JUSJQyMdWQma";
const PASSWORDFOO: &str = "0000";

fn pages() -> Pages {
    Pages {
        home: "home page".to_string(),
        login: "login page".to_string(),
        postpos: "postpos page".to_string(),
        tracker: "tracker page".to_string(),
    }
}

fn state() -> AppState {
    let download = vec![UserEntry::new("Foo".to_string(), HASHFOO.to_string())];
    let upload = vec![UserEntry::new("bar".to_string(), HASHFOO.to_string())];
    AppState::new(download, upload, pages())
}

fn text_of(reply: &Reply) -> Option<Message> {
    match &reply.body {
        ReplyBody::Text(m) => Some(*m),
        _ => None,
    }
}

fn session_header(id: u128) -> Vec<u8> {
    format!("sessionID={}", id).into_bytes()
}

#[test]
fn parse_u128_accepts_decimal_numbers() {
    assert_eq!(parse_u128("1234"), Some(1234));
    assert_eq!(parse_u128("+5"), Some(5));
    assert_eq!(parse_u128("007"), Some(7));
    assert_eq!(
        parse_u128("340282366920938463463374607431768211455"),
        Some(u128::MAX)
    );
}

#[test]
fn parse_u128_rejects_what_std_rejects() {
    for s in ["", "+", "-1", "12a", "xyz", " 1", "++1", "340282366920938463463374607431768211456"] {
        assert_eq!(parse_u128(s), None, "{}", s);
        assert!(s.parse::<u128>().is_err());
    }
}

#[test]
fn session_cookie_value_reads_back() {
    for n in [0u128, 9, 10, 1234, u128::MAX] {
        let mut s = state();
        let cookie = s.open_session("Foo", n);
        let pair = cookie.split(';').next().unwrap();
        assert_eq!(pair, format!("sessionID={}", n));
        let text = pair.strip_prefix("sessionID=").unwrap();
        assert_eq!(parse_u128(text), Some(n));
        assert_eq!(extract_session_id(Some(pair.as_bytes())), Ok(n));
    }
}

#[test]
fn extract_session_id_reports_each_error() {
    assert_eq!(extract_session_id(None), Err(CookieError::NoCookies));
    assert_eq!(
        extract_session_id(Some("ß".as_bytes())),
        Err(CookieError::InvalidCookieChars)
    );
    assert_eq!(
        extract_session_id(Some(&[b's', 0x7f][..])),
        Err(CookieError::InvalidCookieChars)
    );
    assert_eq!(
        extract_session_id(Some(b"foo=bar")),
        Err(CookieError::MissingSessionId)
    );
    assert_eq!(
        extract_session_id(Some(b"sessionID=xyz")),
        Err(CookieError::InvalidSessionId)
    );
}

#[test]
fn extract_session_id_reads_the_session_cookie() {
    assert_eq!(extract_session_id(Some(b"sessionID=1234")), Ok(1234));
    assert_eq!(
        extract_session_id(Some(b"a=1; sessionID=42;\tb=2")),
        Ok(42)
    );
    assert_eq!(
        extract_session_id(Some(b"sessionID=1; sessionID=2")),
        Ok(2)
    );
    assert_eq!(
        extract_session_id(Some(b"junk; ; sessionID = 7 ")),
        Ok(7)
    );
    assert_eq!(extract_session_id(Some(&session_header(u128::MAX))), Ok(u128::MAX));
}

#[test]
fn parse_cookies_builds_the_jar() {
    let jar = parse_cookies(b"a=123; b=456").ok().unwrap();
    assert_eq!(jar.get("a").map(|c| c.value()), Some("123"));
    assert_eq!(jar.get("b").map(|c| c.value()), Some("456"));
    assert_eq!(session_id_from_jar(&jar), Err(CookieError::MissingSessionId));
}

#[test]
fn jar_from_parsed_keeps_the_last_cookie_of_a_name() {
    let parsed = vec![
        Some(("sessionID".to_string(), "1".to_string())),
        None,
        Some(("sessionID".to_string(), "9".to_string())),
    ];
    let jar = jar_from_parsed(&parsed);
    assert_eq!(session_id_from_jar(&jar), Ok(9));
    assert_eq!(SESSION_ID_COOKIE_NAME, "sessionID");
}

#[test]
fn lookups_find_the_first_match() {
    let users = vec![
        UserEntry::new("a".to_string(), "not a hash".to_string()),
        UserEntry::new("b".to_string(), HASHFOO.to_string()),
        UserEntry::new("b".to_string(), "second".to_string()),
    ];
    assert_eq!(lookup_name(PASSWORDFOO, &users), Some("b".to_string()));
    assert_eq!(lookup_name("1111", &users), None);
    assert_eq!(lookup_hash("b", &users), Some(HASHFOO.to_string()));
    assert_eq!(lookup_hash("a", &users), Some("not a hash".to_string()));
    assert_eq!(lookup_hash("c", &users), None);
}

#[test]
fn check_credentials_tells_the_outcomes_apart() {
    let mut s = state();
    assert_eq!(s.check_credentials("Foo", PASSWORDFOO), LoginOutcome::Accepted);
    assert_eq!(s.check_credentials("Foo", "a"), LoginOutcome::WrongPassword);
    assert_eq!(s.check_credentials("F", PASSWORDFOO), LoginOutcome::UnknownUser);
    s.download_users.push(UserEntry::new("Broken".to_string(), "$2a$xx".to_string()));
    assert_eq!(s.check_credentials("Broken", PASSWORDFOO), LoginOutcome::VerifyFailed);
}

#[test]
fn open_session_sets_the_session_cookie() {
    let mut s = state();
    let cookie = s.open_session("Foo", 5);
    assert_eq!(cookie, "sessionID=5; HttpOnly; SameSite=Strict; Secure; Path=/");
    let session = s.sessions.get(&5).unwrap();
    assert_eq!(session.name, "Foo");
    assert_eq!(session.ttl, SESSION_TTL);
}

#[test]
fn login_then_check_then_logout() {
    let mut s = state();
    let reply = s.login("Foo", PASSWORDFOO);
    assert_eq!(reply.status, Status::SeeOther);
    assert_eq!(reply.location, Some(Redirect::Tracker));
    assert_eq!(text_of(&reply), Some(Message::LoginSuccessful));
    assert_eq!(s.sessions.len(), 1);
    let id = *s.sessions.keys().next().unwrap();
    let cookie = reply.set_cookie.unwrap();
    assert!(cookie.starts_with(&format!("sessionID={};", id)));

    let header = session_header(id);
    let again = s.check_for_login(Some(&header)).unwrap();
    assert_eq!(again.status, Status::SeeOther);
    assert_eq!(again.location, Some(Redirect::Tracker));
    assert_eq!(text_of(&again), Some(Message::AlreadyLoggedIn));
    assert!(s.get_positions(Some(&header)).is_ok());

    let out = s.logout(Some(&header));
    assert_eq!(out.status, Status::Success);
    assert_eq!(out.location, Some(Redirect::Root));
    assert_eq!(text_of(&out), Some(Message::LogoutSuccessful));
    assert_eq!(
        out.set_cookie.unwrap(),
        "sessionID=deleted; HttpOnly; SameSite=Strict; Secure; Path=/; Expires=Thu, 01 Jan 1970 00:00:00 GMT"
    );
    assert!(s.sessions.is_empty());

    let twice = s.logout(Some(&header));
    assert_eq!(twice.status, Status::BadRequest);
    assert_eq!(text_of(&twice), Some(Message::SessionMissing));
    assert!(s.check_for_login(Some(&header)).is_none());
}

#[test]
fn failed_logins_change_nothing() {
    let mut s = state();
    let bad_password = s.login("Foo", "a");
    assert_eq!(bad_password.status, Status::BadRequest);
    assert_eq!(text_of(&bad_password), Some(Message::InvalidLoginData));
    let bad_name = s.login("F", PASSWORDFOO);
    assert_eq!(bad_name.status, Status::BadRequest);
    assert!(s.sessions.is_empty());
}

#[test]
fn complete_login_maps_each_outcome() {
    let mut s = state();
    let failed = s.complete_login("Foo", LoginOutcome::VerifyFailed, 3);
    assert_eq!(failed.status, Status::InternalServerError);
    assert_eq!(text_of(&failed), Some(Message::LoginValidationFailed));
    let unknown = s.complete_login("Foo", LoginOutcome::UnknownUser, 3);
    assert_eq!(unknown.status, Status::BadRequest);
    assert_eq!(unknown.location, Some(Redirect::Login));
    assert!(s.sessions.is_empty());
    let accepted = s.complete_login("Foo", LoginOutcome::Accepted, 3);
    assert_eq!(accepted.status, Status::SeeOther);
    assert!(s.sessions.contains_key(&3));
}

#[test]
fn post_login_handles_query_and_existing_session() {
    let mut s = state();
    let missing = s.post_login(None, None);
    assert_eq!(missing.status, Status::BadRequest);
    assert_eq!(text_of(&missing), Some(Message::InvalidLoginData));

    let query = LoginQuery { name: "Foo".to_string(), password: PASSWORDFOO.to_string() };
    let ok = s.post_login(None, Some(query));
    assert_eq!(ok.status, Status::SeeOther);
    let id = *s.sessions.keys().next().unwrap();

    let query = LoginQuery { name: "Foo".to_string(), password: PASSWORDFOO.to_string() };
    let redirected = s.post_login(Some(&session_header(id)), Some(query));
    assert_eq!(redirected.status, Status::SeeOther);
    assert_eq!(text_of(&redirected), Some(Message::AlreadyLoggedIn));
    assert_eq!(s.sessions.len(), 1);
}

#[test]
fn positions_need_a_session() {
    let s = state();
    let refused = s.get_positions(Some(b"sessionID=1234")).err().unwrap();
    assert_eq!(refused.status, Status::BadRequest);
    assert_eq!(text_of(&refused), Some(Message::NotLoggedIn));
    let no_cookie = s.get_positions(None).err().unwrap();
    assert_eq!(text_of(&no_cookie), Some(Message::NoCookies));
    let bad = s.get_positions(Some(b"foo=bar")).err().unwrap();
    assert_eq!(text_of(&bad), Some(Message::MissingSessionCookie));
}

#[test]
fn posted_positions_are_served() {
    let mut s = state();
    let c = Coordinates { latitude_bits: 0.5f32.to_bits(), longitude_bits: 1.5f32.to_bits() };
    let bad_key = s.post_position("1111", Some(c));
    assert_eq!(bad_key.status, Status::BadRequest);
    assert_eq!(text_of(&bad_key), Some(Message::InvalidKey));
    let bad_body = s.post_position(PASSWORDFOO, None);
    assert_eq!(bad_body.status, Status::BadRequest);
    assert_eq!(text_of(&bad_body), Some(Message::InvalidCoordinates));
    assert_eq!(s.positions.len(), 0);

    let ok = s.post_position(PASSWORDFOO, Some(c));
    assert_eq!(ok.status, Status::Success);
    assert!(matches!(ok.body, ReplyBody::Empty));

    s.open_session("Foo", 77);
    let positions = s.get_positions(Some(&session_header(77))).ok().unwrap();
    assert_eq!(positions.entries().len(), 1);
    assert_eq!(positions.entries()[0].0, "bar");
    assert_eq!(positions.entries()[0].1, c);
}

#[test]
fn positions_keep_one_entry_per_name() {
    let mut p = Positions::new();
    let a = Coordinates { latitude_bits: 1, longitude_bits: 2 };
    let b = Coordinates { latitude_bits: 3, longitude_bits: 4 };
    assert!(p.insert("x".to_string(), a));
    assert!(p.insert("y".to_string(), a));
    assert!(!p.insert("x".to_string(), b));
    assert_eq!(p.len(), 2);
    assert_eq!(p.entries()[0], ("x".to_string(), b));
}

#[test]
fn prune_sessions_counts_down_and_closes() {
    let mut s = state();
    let mut sessions = HashMap::new();
    sessions.insert(1u128, SessionState { name: "a".to_string(), ttl: 1 });
    sessions.insert(2u128, SessionState { name: "b".to_string(), ttl: 0 });
    s.sessions = sessions;
    s.prune_sessions();
    assert_eq!(s.sessions.len(), 1);
    assert_eq!(s.sessions.get(&1).unwrap().ttl, 0);
    assert_eq!(s.sessions.get(&1).unwrap().name, "a");
    s.prune_sessions();
    assert!(s.sessions.is_empty());
}

#[test]
fn new_session_lives_ttl_units() {
    let mut s = state();
    s.open_session("Foo", 1);
    for _ in 0..SESSION_TTL {
        s.prune_sessions();
        assert!(s.sessions.contains_key(&1));
    }
    s.prune_sessions();
    assert!(!s.sessions.contains_key(&1));
}

#[test]
fn pages_are_served() {
    let mut s = state();
    let login = s.get_login(None);
    assert_eq!(login.status, Status::Success);
    assert!(matches!(&login.body, ReplyBody::Page(p) if p == "login page"));
    assert!(matches!(&s.postpos().body, ReplyBody::Page(p) if p == "postpos page"));
    assert!(matches!(&s.tracker().body, ReplyBody::Page(p) if p == "tracker page"));
    s.open_session("Foo", 8);
    let redirected = s.get_login(Some(&session_header(8)));
    assert_eq!(redirected.location, Some(Redirect::Tracker));
    let h = s.home();
    assert_eq!(h.status.code(), 200);
    assert!(matches!(&h.body, ReplyBody::Page(p) if p == "home page"));
    assert_eq!(health_check(), Status::Success);
}

#[test]
fn page_paths() {
    assert_eq!(page_path("dist", PageName::Home), "dist/index.html");
    assert_eq!(page_path("dist", PageName::Login), "dist/login/index.html");
    assert_eq!(page_path("d", PageName::Postpos), "d/postpos/index.html");
    assert_eq!(page_path("d", PageName::Tracker), "d/tracker/index.html");
    assert_eq!(PAGE_NAMES, [PageName::Login, PageName::Postpos, PageName::Tracker]);
}

#[test]
fn messages_and_codes() {
    assert_eq!(Status::SeeOther.code(), 303);
    assert_eq!(Status::BadRequest.code(), 400);
    assert_eq!(Status::InternalServerError.code(), 500);
    assert_eq!(Redirect::Login.path(), "/login");
    assert_eq!(Message::InvalidKey.text(), "You must have a valid key to post coordinates.");
    assert_eq!(
        CookieError::InvalidSessionId.reply().status,
        Status::BadRequest
    );
    assert_eq!(
        text_of(&CookieError::InvalidCookieChars.reply()),
        Some(Message::InvalidCookieChars)
    );
}

#[test]
fn runtime_decisions() {
    assert_eq!(log_level(true), TraceLevel::Trace);
    assert_eq!(log_level(false), TraceLevel::Info);
    assert_eq!(
        ipv6_mapped([127, 0, 0, 1]),
        [0, 0, 0, 0, 0, 0xffff, 0x7f00, 0x0001]
    );
    let mut ids = ConnectionIds::new();
    assert_eq!(ids.next_id(), 0);
    assert_eq!(ids.next_id(), 1);

    let ended = stop_action::<u8, (), ()>(StopEvent::TaskEnded(Ok(3)));
    assert!(!ended.abort);
    assert!(matches!(ended.result, Ok(Some(3))));
    let interrupted = stop_action::<u8, (), ()>(StopEvent::Interrupted(Ok(())));
    assert!(interrupted.abort);
    assert!(matches!(interrupted.result, Ok(None)));
    let failed = stop_action::<u8, &str, ()>(StopEvent::TaskEnded(Err("join")));
    assert!(matches!(failed.result, Err(HandleError::Join("join"))));
}

#[test]
fn requests_touch_only_their_part_of_the_state() {
    let mut s = state();
    s.login("Foo", PASSWORDFOO);
    assert_eq!(s.positions.len(), 0);
    let id = *s.sessions.keys().next().unwrap();
    let c = Coordinates { latitude_bits: 7, longitude_bits: 8 };
    s.post_position(PASSWORDFOO, Some(c));
    assert_eq!(s.sessions.len(), 1);
    assert!(s.sessions.contains_key(&id));
    s.logout(Some(&session_header(id)));
    assert_eq!(s.positions.len(), 1);
    assert_eq!(s.download_users.len(), 1);
    assert_eq!(s.upload_users.len(), 1);
    assert_eq!(s.pages.login, "login page");
}

#[test]
fn decimal_string_writes_what_to_string_writes() {
    for n in [0u128, 7, 10, 99, 100, 1234, u64::MAX as u128, u128::MAX] {
        assert_eq!(decimal_string(n), n.to_string());
    }
}

#[test]
fn login_in_steps() {
    let mut s = state();
    let refused = s.begin_login(None, None).err().unwrap();
    assert_eq!(text_of(&refused), Some(Message::InvalidLoginData));

    let query = LoginQuery { name: "F".to_string(), password: PASSWORDFOO.to_string() };
    let creds = s.begin_login(None, Some(query)).ok().unwrap();
    assert_eq!(creds.hash, None);
    assert_eq!(check_password(&creds.password, creds.hash.as_deref()), LoginOutcome::UnknownUser);

    let query = LoginQuery { name: "Foo".to_string(), password: PASSWORDFOO.to_string() };
    let creds = s.begin_login(None, Some(query)).ok().unwrap();
    assert_eq!(creds.hash.as_deref(), Some(HASHFOO));
    let outcome = check_password(&creds.password, creds.hash.as_deref());
    assert_eq!(outcome, LoginOutcome::Accepted);
    assert_eq!(check_password("a", Some(HASHFOO)), LoginOutcome::WrongPassword);
    assert_eq!(check_password("a", Some("$2a$")), LoginOutcome::VerifyFailed);

    let failed = s.finish_login("Foo", LoginOutcome::WrongPassword);
    assert_eq!(failed.status, Status::BadRequest);
    assert!(s.sessions.is_empty());
    let done = s.finish_login(&creds.name, outcome);
    assert_eq!(done.status, Status::SeeOther);
    let id = *s.sessions.keys().next().unwrap();
    let again = s.begin_login(Some(&session_header(id)), None).err().unwrap();
    assert_eq!(text_of(&again), Some(Message::AlreadyLoggedIn));
}

#[test]
fn position_in_steps() {
    let mut s = state();
    assert_eq!(s.upload_user(PASSWORDFOO), Some("bar".to_string()));
    assert_eq!(s.upload_user("1"), None);
    let c = Coordinates { latitude_bits: 1, longitude_bits: 1 };
    let refused = s.store_position(None, Some(c));
    assert_eq!(text_of(&refused), Some(Message::InvalidKey));
    let stored = s.store_position(Some("bar".to_string()), Some(c));
    assert_eq!(stored.status, Status::Success);
    assert_eq!(s.positions.len(), 1);
}

#[test]
fn session_cookie_last_among_others() {
    assert_eq!(extract_session_id(Some(b"a=1; sessionID=4")), Ok(4));
    assert_eq!(extract_session_id(Some(b"sessionID=9;sessionID=4")), Ok(4));
    assert_eq!(extract_session_id(Some(b"x;\t sessionID=12 \t")), Ok(12));
    assert_eq!(extract_session_id(Some(b"\tsessionID=3 ")), Ok(3));
}
