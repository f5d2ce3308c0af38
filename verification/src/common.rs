//! Request and response shapes shared with the HTTP layer.

use vstd::prelude::*;

verus! {

/// Payload of the test endpoints: a single number.
#[derive(Clone, Copy, PartialEq, Eq, Structural, Debug)]
pub struct Test1 {
    pub number: u64,
}

/// Body of a registration request.
#[derive(Debug)]
pub struct RegisterRequest {
    pub username: String,
    pub register_key: String,
    pub password: String,
}

/// Body of a login request.
#[derive(Debug)]
pub struct LoginRequest {
    pub username: String,
    pub password: String,
}

/// Body of a successful login or whoami response: the username is the
/// only user-facing identity field.
#[derive(Debug)]
pub struct LoginSuccess {
    pub username: String,
}

/// Outcome of a logout request.
#[derive(Clone, Copy, PartialEq, Eq, Structural, Debug)]
pub enum LogoutResponse {
    Error,
    Success,
}

/// Why a permission check failed.
#[derive(Clone, Copy, PartialEq, Eq, Structural, Debug)]
pub enum PermissionFail {
    AuthenticationRequired,
    BadCookie,
}

/// Body of a whoami response.
#[derive(Debug)]
pub struct WhoAmIResponse {
    pub username: String,
}

} // verus!
