use std::collections::HashMap;

use mtrack::cookies::{extract_session_id, parse_cookies};
use mtrack::state::{AppState, Pages, Positions, SessionState};
use mtrack::users::{lookup_hash, lookup_name, UserEntry};

const HASHFOO: &str = "$2a$04$hu2ZTKvt/3px6oAj5XVxiOs1mRQcinxBJgGFNLF80JUSJQyMdWQma";
const PASSWORDFOO: &str = "0000";
const PASSWORDBAD: &str = "0";

const COOKIE: &str = "a=123; b=456";
const GOOD_ID: &str = "sessionID=1234";
const BAD_CHAR: &str = "ß";
const BAD_COOKIE: &str = "foo=bar";
const BAD_ID: &str = "sessionID=xyz";

const GOOD_ID_INT: u128 = 1234;

fn no_pages() -> Pages {
    Pages {
        home: String::new(),
        login: String::new(),
        postpos: String::new(),
        tracker: String::new(),
    }
}

#[test]
fn test_lookup_name() {
    let mut users = Vec::new();
    let user = UserEntry {
        name: "foo".to_string(),
        hash: HASHFOO.to_string(),
    };
    users.push(user);

    assert!(lookup_name(PASSWORDFOO, &users).is_some());
    assert!(lookup_name(PASSWORDBAD, &users).is_none());
}

#[test]
fn test_lookup_hash() {
    let mut users = Vec::new();
    let user = UserEntry {
        name: "Foo".to_string(),
        hash: HASHFOO.to_string(),
    };
    users.push(user);

    assert!(lookup_hash("Foo", &users).is_some());
    assert!(lookup_hash("Bar", &users).is_none());
}

#[test]
fn test_parse_cookies() {
    assert!(parse_cookies(COOKIE.as_bytes()).is_ok());
    assert!(parse_cookies(BAD_CHAR.as_bytes()).is_err());
}

#[test]
fn test_extract_session_id() {
    assert!(extract_session_id(Some(GOOD_ID.as_bytes())).is_ok());

    assert!(extract_session_id(None).is_err());

    assert!(extract_session_id(Some(BAD_CHAR.as_bytes())).is_err());

    assert!(extract_session_id(Some(BAD_COOKIE.as_bytes())).is_err());

    assert!(extract_session_id(Some(BAD_ID.as_bytes())).is_err());
}

#[test]
fn test_check_for_login() {
    let mut sessions = HashMap::new();
    sessions.insert(
        GOOD_ID_INT,
        SessionState {
            name: String::new(),
            ttl: 0,
        },
    );
    let app_state = AppState {
        sessions,
        positions: Positions::new(),
        download_users: Vec::new(),
        upload_users: Vec::new(),
        pages: no_pages(),
    };

    assert!(app_state.check_for_login(Some(GOOD_ID.as_bytes())).is_some());

    assert!(app_state.check_for_login(None).is_none());
}
