//! Small path helpers for the HTTP layer.

use vstd::prelude::*;

verus! {

/// Joins a path onto a root directory with a single separator.  The
/// caller supplies the root, typically the directory the server was
/// built or started from.
pub fn relative_path(root: &str, path: &str) -> (r: String)
    ensures
        r@ == root@ + "/"@ + path@,
{
    let mut s = root.to_owned();
    s.append("/");
    s.append(path);
    s
}

/// Joins an API prefix and a route suffix.
pub fn api_route(prefix: &str, suffix: &str) -> (r: String)
    ensures
        r@ == prefix@ + suffix@,
{
    let mut s = prefix.to_owned();
    s.append(suffix);
    s
}

} // verus!
