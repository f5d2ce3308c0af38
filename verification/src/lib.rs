//! A cookie-based session authentication core.
//!
//! The library models the protocol of a small web service: a credential
//! store maps usernames to password hashes, a session store binds opaque
//! session ids to users with an expiry, and a cookie codec turns a session
//! id into a tamper-proof client-held cookie and back.  The top-level
//! operations `login`, `whoami` and `logout` orchestrate the three.
//!
//! Password hashing and cookie encryption are done by outside crates behind
//! small trusted wrappers; everything around them is verified.

pub mod auth;
pub mod common;
pub mod config;
pub mod cookies;
pub mod crypt;
pub mod db;
pub mod numstr;
pub mod seal;
pub mod store;
pub mod testing;
pub mod utils;
