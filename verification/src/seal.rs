//! Sealing of cookie values.
//!
//! A session cookie's value must be confidential and tamper-evident, so
//! it is sealed with the `cookie` crate's private-jar machinery: AES-256
//! GCM under a key derived from the given master key, with a random nonce
//! carried inside the sealed value and the cookie's name as associated
//! data.  Unsealing is a function of key, name and token alone; it is
//! named by `unseal_of`.  Sealing draws a fresh nonce, so only the round
//! trip through `unseal_of` is promised of its output.

use vstd::prelude::*;

verus! {

/// What authenticated decryption of `token` under `key`, bound to the
/// cookie name `name`, yields: the plaintext value, or nothing when the
/// token fails to authenticate.  Names the outcome of
/// `cookie::PrivateJar::decrypt`, a deterministic function of the three
/// arguments (the nonce travels inside the token).
pub uninterp spec fn unseal_of(key: Seq<u8>, name: Seq<char>, token: Seq<char>) -> Option<
    Seq<char>,
>;

/// Relies on `cookie::Key::from` (which needs at least 64 key bytes) and
/// `cookie::PrivateJar::add`: the sealed value decrypts back to the
/// original under the same key and name, as the cookie crate documents
/// ("authentication and decryption always succeeds if the cookie was
/// generated by a `PrivateJar` with the same key").
#[verifier::external_body]
pub(crate) fn seal_value(key: &[u8], name: &str, value: &str) -> (r: String)
    requires
        key@.len() >= 64,
    ensures
        unseal_of(key@, name@, r@) == Some(value@),
{
    let k = cookie::Key::from(key);
    let mut jar = cookie::CookieJar::new();
    jar.private_mut(&k).add(cookie::Cookie::new(name.to_string(), value.to_string()));
    jar.get(name).expect("freshly added cookie").value().to_string()
}

/// Relies on `cookie::Key::from` and `cookie::PrivateJar::decrypt`:
/// deterministic authenticated decryption of the token.  A token shorter
/// than the nonce-and-tag overhead — the empty token in particular —
/// never decrypts.
#[verifier::external_body]
pub(crate) fn unseal_value(key: &[u8], name: &str, token: &str) -> (r: Option<String>)
    requires
        key@.len() >= 64,
    ensures
        (match r {
            Some(v) => unseal_of(key@, name@, token@) == Some(v@),
            None => unseal_of(key@, name@, token@) is None,
        }),
        token@.len() == 0 ==> r is None,
{
    let k = cookie::Key::from(key);
    let jar = cookie::CookieJar::new();
    let c = cookie::Cookie::new(name.to_string(), token.to_string());
    jar.private(&k).decrypt(c).map(|d| d.value().to_string())
}

} // verus!
