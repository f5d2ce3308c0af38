//! The cookie jar and the session-cookie codec.

use relay_auth::cookies::{
    decode, get_wiped_cookie_jar, set_cookie_security, Cookie, CookieJar, DecodeOutcome,
};

fn dev_key() -> Vec<u8> {
    // 64 fixed bytes; a development key, as a deployment would load from
    // a secret store.
    (0u8..64).collect()
}

fn plain_cookie(name: &str, value: &str) -> Cookie {
    Cookie {
        name: name.to_string(),
        value: value.to_string(),
        path: "/".to_string(),
        http_only: false,
        secure: false,
        same_site_strict: false,
        expires_at: None,
    }
}

#[test]
fn jar_get_add_remove() {
    let mut jar = CookieJar::new();
    assert_eq!(jar.len(), 0);
    assert!(jar.get("session").is_none());

    jar.add(plain_cookie("session", "one"));
    jar.add(plain_cookie("other", "two"));
    assert_eq!(jar.len(), 2);
    assert_eq!(jar.get("session").expect("present").value, "one");

    // Adding under the same name replaces.
    jar.add(plain_cookie("session", "three"));
    assert_eq!(jar.len(), 2);
    assert_eq!(jar.get("session").expect("present").value, "three");

    jar.remove("session");
    assert_eq!(jar.len(), 1);
    assert!(jar.get("session").is_none());
    assert_eq!(jar.get("other").expect("kept").value, "two");
}

#[test]
fn security_attributes() {
    let mut c = plain_cookie("session", "v");
    set_cookie_security(&mut c);
    assert!(c.http_only);
    assert!(c.secure);
    assert!(c.same_site_strict);
    assert_eq!(c.name, "session");
    assert_eq!(c.value, "v");
}

#[test]
fn wiped_jar_is_a_tombstone() {
    let jar = get_wiped_cookie_jar();
    assert_eq!(jar.len(), 1);
    let c = jar.get("session").expect("tombstone present");
    assert_eq!(c.value, "");
    assert_eq!(c.path, "/");
    assert_eq!(c.expires_at, Some(0));
    assert!(c.http_only && c.secure && c.same_site_strict);
}

#[test]
fn decode_of_wiped_jar_is_not_authenticated() {
    let key = dev_key();
    let jar = get_wiped_cookie_jar();
    assert_eq!(decode(key.as_slice(), &jar), DecodeOutcome::Invalid);
}

#[test]
fn decode_of_empty_jar_is_absent() {
    let key = dev_key();
    let jar = CookieJar::new();
    assert_eq!(decode(key.as_slice(), &jar), DecodeOutcome::Absent);
}

#[test]
fn decode_of_plaintext_value_is_invalid() {
    let key = dev_key();
    let mut jar = CookieJar::new();
    jar.add(plain_cookie("session", "1"));
    assert_eq!(decode(key.as_slice(), &jar), DecodeOutcome::Invalid);
}

#[test]
fn apply_response_sets_and_drops() {
    let mut client = CookieJar::new();
    let mut response = CookieJar::new();
    response.add(plain_cookie("session", "abc"));
    client.apply_response(&response, 1000);
    assert_eq!(client.get("session").expect("set").value, "abc");

    // A cookie already expired at `now` deletes its name instead.
    let mut tombstone = plain_cookie("session", "");
    tombstone.expires_at = Some(0);
    let mut wipe_response = CookieJar::new();
    wipe_response.add(tombstone);
    client.apply_response(&wipe_response, 1000);
    assert!(client.get("session").is_none());
    assert_eq!(client.len(), 0);
}
