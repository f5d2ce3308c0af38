//! Path helpers, client configuration, and the probe endpoints.

use relay_auth::auth::{login, BackendState};
use relay_auth::common::LoginRequest;
use relay_auth::config::{resolve_config, Config};
use relay_auth::cookies::{CookieAuthError, CookieJar};
use relay_auth::db::{create_dummy_user, SESSION_TTL_SECONDS};
use relay_auth::testing::{api_test1, api_test2, api_test3};
use relay_auth::utils::{api_route, relative_path};

#[test]
fn path_helpers() {
    assert_eq!(relative_path("/srv/app", "static/index.html"), "/srv/app/static/index.html");
    assert_eq!(relative_path("", "x"), "/x");
    assert_eq!(api_route("/api/", "login"), "/api/login");
    assert_eq!(api_route("", ""), "");
}

#[test]
fn default_config() {
    let c = Config::default();
    assert!(c.token.is_none());
    assert_eq!(c.url.as_deref(), Some("http://localhost:8000"));
}

#[test]
fn merge_keeps_set_fields() {
    let mut c = Config { token: Some("keep".to_string()), url: None };
    c.merge(Config { token: Some("lose".to_string()), url: Some("u".to_string()) });
    assert_eq!(c.token.as_deref(), Some("keep"));
    assert_eq!(c.url.as_deref(), Some("u"));
}

#[test]
fn resolve_config_precedence() {
    // The file's token wins over the arguments'; the default URL always
    // stays, because the default already sets it.
    let file = Config { token: Some("file-token".to_string()), url: Some("file-url".to_string()) };
    let args = Config { token: Some("arg-token".to_string()), url: Some("arg-url".to_string()) };
    let c = resolve_config(Some(file), args);
    assert_eq!(c.token.as_deref(), Some("file-token"));
    assert_eq!(c.url.as_deref(), Some("http://localhost:8000"));

    let args2 = Config { token: Some("arg-token".to_string()), url: None };
    let c2 = resolve_config(None, args2);
    assert_eq!(c2.token.as_deref(), Some("arg-token"));
    assert_eq!(c2.url.as_deref(), Some("http://localhost:8000"));

    let c3 = resolve_config(
        Some(Config { token: None, url: None }),
        Config { token: None, url: None },
    );
    assert!(c3.token.is_none());
}

#[test]
fn probe_endpoints() {
    assert_eq!(api_test1(12345).number, 12345);
    // Nothing is promised of the random number; the call must simply work.
    let _ = api_test2();
}

#[test]
fn user_listing_needs_authentication() {
    let key: Vec<u8> = (0u8..64).collect();
    let mut state = BackendState::new(key, SESSION_TTL_SECONDS);
    create_dummy_user(&mut state.db, "alice", "correct-horse").expect("seed");

    let anonymous = CookieJar::new();
    assert_eq!(
        api_test3(&state, 1000, &anonymous).expect_err("unauthenticated"),
        CookieAuthError::NoSessionCookie,
    );

    let req = LoginRequest {
        username: "alice".to_string(),
        password: "correct-horse".to_string(),
    };
    let (outcome, response) = login(&mut state, 1000, &req);
    outcome.expect("login succeeds");
    let mut client = CookieJar::new();
    client.apply_response(&response, 1000);
    let line = api_test3(&state, 1001, &client).expect("authenticated");
    assert_eq!(line, "user(1, alice), ");
}
