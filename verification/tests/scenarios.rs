use std::collections::BTreeMap;

use mtrack::handlers::{health_check, LoginQuery};
use mtrack::reply::{Reply, Status};
use mtrack::state::{AppState, Coordinates, Pages};
use mtrack::users::UserEntry;

const NAMEFOO: &str = "Foo";
const NAMEBAR: &str = "Bar";
const NAMEBAD: &str = "F";
const PASSWORDFOO: &str = "0000";
const PASSWORDBAR: &str = "1111";
const PASSWORDBAD: &str = "a";
const COORDINATES: &str = "{\"latitude\":0.0,\"longitude\":0.0}";
const BODYBAD: &str = "a";
const BAD_COOKIE: &str = "foo=bar";
const BAD_CHAR: &str = "ß";
const BAD_ID_1: &str = "sessionID=xyz";
const BAD_ID_2: &str = "sessionID=1234";

fn hash(password: &str) -> String {
    bcrypt::hash(password, 4).unwrap()
}

fn app_state() -> AppState {
    let download = vec![
        UserEntry::new(NAMEFOO.to_string(), hash(PASSWORDFOO)),
        UserEntry::new(NAMEBAR.to_string(), hash(PASSWORDBAR)),
    ];
    let upload = vec![
        UserEntry::new("foo".to_string(), hash(PASSWORDFOO)),
        UserEntry::new("bar".to_string(), hash(PASSWORDBAR)),
    ];
    let pages = Pages {
        home: "home".to_string(),
        login: "login".to_string(),
        postpos: "postpos".to_string(),
        tracker: "tracker".to_string(),
    };
    AppState::new(download, upload, pages)
}

fn query(name: &str, password: &str) -> Option<LoginQuery> {
    Some(LoginQuery {
        name: name.to_string(),
        password: password.to_string(),
    })
}

/// What a client with a cookie store sends back of a `Set-Cookie` value: its `name=value` pair.
fn cookie_of(reply: &Reply) -> Vec<u8> {
    let set_cookie = reply.set_cookie.as_ref().unwrap();
    set_cookie.split(';').next().unwrap().as_bytes().to_vec()
}

/// Reads a posted body as coordinates, as the server does before it hands them on.
fn parse_coordinates(body: &str) -> Option<Coordinates> {
    let value: serde_json::Value = serde_json::from_str(body).ok()?;
    let latitude = value.get("latitude")?.as_f64()? as f32;
    let longitude = value.get("longitude")?.as_f64()? as f32;
    Some(Coordinates {
        latitude_bits: latitude.to_bits(),
        longitude_bits: longitude.to_bits(),
    })
}

fn is_success(s: Status) -> bool {
    (200..300).contains(&s.code())
}

fn is_redirection(s: Status) -> bool {
    (300..400).contains(&s.code())
}

fn is_client_error(s: Status) -> bool {
    (400..500).contains(&s.code())
}

#[test]
fn test_health_check() {
    assert!(is_success(health_check()));
}

#[test]
fn test_home() {
    let state = app_state();
    let response_ok_1 = state.home();
    assert!(is_success(response_ok_1.status));
    let response_ok_2 = state.home();
    assert!(is_success(response_ok_2.status));
}

#[test]
fn test_postpos() {
    let state = app_state();
    assert!(is_success(state.home().status));
    assert!(is_success(state.home().status));
}

#[test]
fn test_post_login() {
    let mut state = app_state();

    let response_redirection_1 = state.post_login(None, query(NAMEFOO, PASSWORDFOO));
    assert!(is_redirection(response_redirection_1.status));

    let login = state.post_login(None, query(NAMEFOO, PASSWORDFOO));
    let cookie = cookie_of(&login);
    let response_redirection_2 = state.post_login(Some(&cookie), query(NAMEFOO, PASSWORDFOO));
    assert!(is_redirection(response_redirection_2.status));

    let response_bad_name = state.post_login(None, query(NAMEBAD, PASSWORDFOO));
    assert!(is_client_error(response_bad_name.status));

    let response_bad_password = state.post_login(None, query(NAMEFOO, PASSWORDBAD));
    assert!(is_client_error(response_bad_password.status));
}

#[test]
fn test_logout() {
    let mut state = app_state();

    let login = state.post_login(None, query(NAMEBAR, PASSWORDBAR));
    let cookie = cookie_of(&login);
    let response_ok = state.logout(Some(&cookie));
    assert!(is_success(response_ok.status));

    let response_empty_header = state.logout(None);
    assert!(is_client_error(response_empty_header.status));

    let response_bad_cookie = state.logout(Some(BAD_COOKIE.as_bytes()));
    assert!(is_client_error(response_bad_cookie.status));

    let response_bad_char = state.logout(Some(BAD_CHAR.as_bytes()));
    assert!(is_client_error(response_bad_char.status));

    let response_bad_id = state.logout(Some(BAD_ID_1.as_bytes()));
    assert!(is_client_error(response_bad_id.status));

    let response_bad_id_2 = state.logout(Some(BAD_ID_2.as_bytes()));
    assert!(is_client_error(response_bad_id_2.status));
}

#[test]
fn test_post_position() {
    let mut state = app_state();

    let response_ok = state.post_position(PASSWORDBAR, parse_coordinates(COORDINATES));
    assert!(is_success(response_ok.status));

    let response_bad_key = state.post_position(PASSWORDBAD, parse_coordinates(""));
    assert!(is_client_error(response_bad_key.status));

    let response_bad_body = state.post_position(PASSWORDBAR, parse_coordinates(BODYBAD));
    assert!(is_client_error(response_bad_body.status));
}

#[test]
fn test_get_positions() {
    let mut state = app_state();

    let login = state.post_login(None, query(NAMEFOO, PASSWORDFOO));
    let cookie = cookie_of(&login);
    state.post_position(PASSWORDBAR, parse_coordinates(COORDINATES));
    let positions = state.get_positions(Some(&cookie)).ok().unwrap();
    let mut served = BTreeMap::new();
    for (name, c) in positions.entries() {
        let mut fields = BTreeMap::new();
        fields.insert("latitude", f32::from_bits(c.latitude_bits));
        fields.insert("longitude", f32::from_bits(c.longitude_bits));
        served.insert(name.clone(), fields);
    }
    let response_ok_body = serde_json::to_string(&served).unwrap();
    assert_eq!(format!("{{\"bar\":{}}}", COORDINATES), response_ok_body);

    let response_empty_header_1 = state.get_positions(None).err().unwrap();
    assert!(is_client_error(response_empty_header_1.status));

    let response_bad_cookie = state.get_positions(Some(BAD_COOKIE.as_bytes())).err().unwrap();
    assert!(is_client_error(response_bad_cookie.status));

    let response_bad_char = state.get_positions(Some(BAD_CHAR.as_bytes())).err().unwrap();
    assert!(is_client_error(response_bad_char.status));

    let response_bad_id_1 = state.get_positions(Some(BAD_ID_1.as_bytes())).err().unwrap();
    assert!(is_client_error(response_bad_id_1.status));

    let response_bad_id_2 = state.get_positions(Some(BAD_ID_2.as_bytes())).err().unwrap();
    assert!(is_client_error(response_bad_id_2.status));
}
