//! Client configuration and its merge rules.
//!
//! A configuration may come from a file and from command-line arguments.
//! Merging is field-wise and keeps a value that is already set: the
//! receiver wins, the other side only fills gaps.  The default carries
//! the development server URL, so the URL stays at its default unless
//! the default itself changes.

use vstd::prelude::*;

verus! {

/// What the client needs to talk to the server: an optional session
/// token and the server URL.
#[derive(Debug)]
pub struct Config {
    pub token: Option<String>,
    pub url: Option<String>,
}

impl Config {
    /// Fills every unset field of `self` from `other`; a field already
    /// set keeps its value.
    pub fn merge(&mut self, other: Config)
        ensures
            final(self).token == (if old(self).token is Some {
                old(self).token
            } else {
                other.token
            }),
            final(self).url == (if old(self).url is Some {
                old(self).url
            } else {
                other.url
            }),
    {
        if self.token.is_none() {
            self.token = other.token;
        }
        if self.url.is_none() {
            self.url = other.url;
        }
    }
}

impl Default for Config {
    /// No token, and the development server URL.
    fn default() -> (c: Self)
        ensures
            c.token is None,
            c.url matches Some(u) && u@ == "http://localhost:8000"@,
    {
        Config { token: None, url: Some("http://localhost:8000".to_owned()) }
    }
}

/// Resolves the effective configuration: the defaults, with gaps filled
/// first from the config file and then from the command-line arguments.
/// The default URL is set, so it always wins; the token comes from the
/// file when the file has one, else from the arguments.
pub fn resolve_config(file_config: Option<Config>, args: Config) -> (c: Config)
    ensures
        c.url matches Some(u) && u@ == "http://localhost:8000"@,
        c.token == (match file_config {
            Some(f) => if f.token is Some {
                f.token
            } else {
                args.token
            },
            None => args.token,
        }),
{
    let mut config = Config::default();
    match file_config {
        Some(f) => {
            config.merge(f);
        },
        None => {},
    }
    config.merge(args);
    config
}

} // verus!
