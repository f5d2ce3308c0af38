//! The login / whoami / logout protocol end to end.

use relay_auth::auth::{login, logout, whoami, BackendState};
use relay_auth::common::{LoginRequest, LogoutResponse};
use relay_auth::cookies::{decode, CookieAuthError, CookieJar, DecodeOutcome};
use relay_auth::db::{create_dummy_user, LoginError, SESSION_TTL_SECONDS};
use relay_auth::store::DBError;

fn dev_key() -> Vec<u8> {
    (100u8..164).collect()
}

fn fresh_state() -> BackendState {
    let mut state = BackendState::new(dev_key(), SESSION_TTL_SECONDS);
    create_dummy_user(&mut state.db, "alice", "correct-horse").expect("seed alice");
    state
}

fn request(username: &str, password: &str) -> LoginRequest {
    LoginRequest { username: username.to_string(), password: password.to_string() }
}

#[test]
fn scenario_alice() {
    let mut state = fresh_state();
    let now = 1_000_000;
    let alice = state.db.users.get_user_by_username("alice").expect("seeded");
    assert_eq!(alice.id, 1);

    // Login with the right password: success, a session row for user 1.
    let (outcome, response) = login(&mut state, now, &request("alice", "correct-horse"));
    let success = outcome.expect("login succeeds");
    assert_eq!(success.username, "alice");
    let sid = match decode(state.key.as_slice(), &response) {
        DecodeOutcome::SessionId(id) => id,
        other => panic!("expected a session cookie, got {:?}", other),
    };
    let session = state.db.sessions.find(sid).expect("session row created");
    assert_eq!(session.user_id, 1);
    assert_eq!(session.expires_at, now + SESSION_TTL_SECONDS);

    // The client stores the cookie.
    let mut client = CookieJar::new();
    client.apply_response(&response, now);

    // Login with a wrong password: InvalidCredentials, a wiped cookie,
    // and no new session row.
    let (outcome2, response2) = login(&mut state, now, &request("alice", "wrong"));
    assert_eq!(outcome2.expect_err("login fails"), LoginError::LoginFail);
    assert_eq!(response2.get("session").expect("tombstone").value, "");
    assert_eq!(state.db.sessions.find(sid + 1), None);

    // Whoami with the cookie from the first call.
    let me = whoami(&state, now + 10, &client).expect("authenticated");
    assert_eq!(me.username, "alice");

    // Logout: the presented session is deleted server-side, so even a
    // replay of the old (pre-logout) cookie is unauthenticated.
    let replayed = client.clone();
    let (logout_outcome, logout_response) = logout(&mut state, &client);
    assert_eq!(logout_outcome, LogoutResponse::Success);
    assert_eq!(state.db.sessions.find(sid), None);
    assert_eq!(
        whoami(&state, now + 30, &replayed).expect_err("replayed cookie"),
        CookieAuthError::DBError(DBError::NotFound),
    );

    // The client applies the wiped response and is left cookie-less.
    client.apply_response(&logout_response, now + 20);
    assert_eq!(
        whoami(&state, now + 30, &client).expect_err("logged out"),
        CookieAuthError::NoSessionCookie,
    );
}

#[test]
fn login_unknown_user_is_indistinguishable() {
    let mut state = fresh_state();
    let (unknown, jar_u) = login(&mut state, 1000, &request("mallory", "whatever"));
    let (wrong, jar_w) = login(&mut state, 1000, &request("alice", "whatever"));
    // Unknown username and wrong password yield the same error and the
    // same wiped-cookie response shape.
    assert_eq!(unknown.expect_err("unknown user"), LoginError::LoginFail);
    assert_eq!(wrong.expect_err("wrong password"), LoginError::LoginFail);
    assert_eq!(jar_u.get("session").expect("tombstone").value, "");
    assert_eq!(jar_w.get("session").expect("tombstone").value, "");
    assert_eq!(jar_u.get("session").expect("tombstone").expires_at, Some(0));
}

#[test]
fn whoami_without_cookie_is_unauthenticated() {
    let state = fresh_state();
    let jar = CookieJar::new();
    assert_eq!(
        whoami(&state, 1000, &jar).expect_err("no cookie"),
        CookieAuthError::NoSessionCookie,
    );
}

#[test]
fn whoami_with_expired_session_is_unauthenticated() {
    let mut state = BackendState::new(dev_key(), 10);
    create_dummy_user(&mut state.db, "alice", "correct-horse").expect("seed");
    let (outcome, response) = login(&mut state, 1000, &request("alice", "correct-horse"));
    outcome.expect("login succeeds");
    let mut client = CookieJar::new();
    client.apply_response(&response, 1000);

    // Still valid just before the expiry instant.
    assert_eq!(whoami(&state, 1009, &client).expect("valid").username, "alice");

    // At and after the expiry the row still exists, yet whoami refuses.
    let sid = match decode(state.key.as_slice(), &response) {
        DecodeOutcome::SessionId(id) => id,
        other => panic!("expected a session cookie, got {:?}", other),
    };
    assert!(state.db.sessions.find(sid).is_some());
    assert_eq!(
        whoami(&state, 1010, &client).expect_err("expired"),
        CookieAuthError::DBError(DBError::Expired),
    );
    assert_eq!(
        whoami(&state, 99_999, &client).expect_err("expired"),
        CookieAuthError::DBError(DBError::Expired),
    );
}

#[test]
fn cookie_round_trips_and_tampering_is_detected() {
    let mut state = fresh_state();
    let (outcome, response) = login(&mut state, 1000, &request("alice", "correct-horse"));
    outcome.expect("login succeeds");
    let cookie = response.get("session").expect("session cookie");
    let sid = match decode(state.key.as_slice(), &response) {
        DecodeOutcome::SessionId(id) => id,
        other => panic!("expected a session cookie, got {:?}", other),
    };
    assert!(state.db.sessions.find(sid).is_some());

    // Flip one character of the sealed value: the cookie must decode to
    // Invalid, never to some other valid session id.
    let mut chars: Vec<char> = cookie.value.chars().collect();
    chars[0] = if chars[0] == 'A' { 'B' } else { 'A' };
    let tampered_value: String = chars.into_iter().collect();
    let mut tampered = CookieJar::new();
    tampered.add(relay_auth::cookies::Cookie {
        name: "session".to_string(),
        value: tampered_value,
        path: "/".to_string(),
        http_only: true,
        secure: true,
        same_site_strict: true,
        expires_at: cookie.expires_at,
    });
    assert_eq!(decode(state.key.as_slice(), &tampered), DecodeOutcome::Invalid);
    assert_eq!(
        whoami(&state, 1000, &tampered).expect_err("tampered"),
        CookieAuthError::NoSessionCookie,
    );

    // A different key never accepts the cookie either.
    let other_key: Vec<u8> = (200u8..255).chain(0u8..9).collect();
    assert_eq!(decode(other_key.as_slice(), &response), DecodeOutcome::Invalid);
}

#[test]
fn logout_is_idempotent() {
    let mut state = fresh_state();
    let (outcome, response) = login(&mut state, 1000, &request("alice", "correct-horse"));
    outcome.expect("login succeeds");
    let sid = match decode(state.key.as_slice(), &response) {
        DecodeOutcome::SessionId(id) => id,
        other => panic!("expected a session cookie, got {:?}", other),
    };
    let mut client = CookieJar::new();
    client.apply_response(&response, 1000);
    assert!(client.get("session").is_some());

    let (first, first_jar) = logout(&mut state, &client);
    assert_eq!(first, LogoutResponse::Success);
    assert_eq!(state.db.sessions.find(sid), None);
    client.apply_response(&first_jar, 1001);
    assert!(client.get("session").is_none());

    // A second logout, with or without a cookie, succeeds the same way
    // and leaves the client cookie-less and the store unchanged.
    let (second, second_jar) = logout(&mut state, &client);
    assert_eq!(second, LogoutResponse::Success);
    assert_eq!(state.db.sessions.find(sid), None);
    client.apply_response(&second_jar, 1002);
    assert!(client.get("session").is_none());
    assert_eq!(client.len(), 0);
}

#[test]
fn two_users_get_their_own_sessions() {
    let mut state = fresh_state();
    create_dummy_user(&mut state.db, "bob", "hunter2").expect("seed bob");
    let (a, jar_a) = login(&mut state, 1000, &request("alice", "correct-horse"));
    let (b, jar_b) = login(&mut state, 1000, &request("bob", "hunter2"));
    assert_eq!(a.expect("alice logs in").username, "alice");
    assert_eq!(b.expect("bob logs in").username, "bob");

    let mut client_a = CookieJar::new();
    client_a.apply_response(&jar_a, 1000);
    let mut client_b = CookieJar::new();
    client_b.apply_response(&jar_b, 1000);
    assert_eq!(whoami(&state, 1001, &client_a).expect("alice").username, "alice");
    assert_eq!(whoami(&state, 1001, &client_b).expect("bob").username, "bob");
}

#[test]
fn error_status_mapping() {
    assert_eq!(LoginError::LoginFail.status_code(), 401);
    assert_eq!(LoginError::DBError(DBError::NotFound).status_code(), 401);
    assert_eq!(CookieAuthError::NoSessionCookie.status_code(), 401);
    assert_eq!(CookieAuthError::NotI32.status_code(), 401);
    assert_eq!(CookieAuthError::DBError(DBError::Expired).status_code(), 401);
}
