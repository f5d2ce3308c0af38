//! The test endpoints' computations.
//!
//! Three probe endpoints: one answers the current time, one a random
//! number, and one lists every stored user to an authenticated caller.

use crate::common::Test1;
use crate::cookies::{session_and_user_from_cookies, spec_cookie_auth, CookieAuthError, CookieJar};
use crate::numstr::{i32_to_string, spec_i32_string};
use crate::store::UserV;
use crate::auth::BackendState;
use vstd::prelude::*;

verus! {

/// Payload of the first test endpoint: the instant it was asked at,
/// supplied by the caller in seconds of Unix time.
pub fn api_test1(now_secs: u64) -> (r: Test1)
    ensures
        r.number == now_secs,
{
    Test1 { number: now_secs }
}

/// Relies on `rand::random`, which draws from the thread-local
/// generator; nothing is promised of the value.
pub assume_specification<T>[ rand::random::<T> ]() -> (r: T)
    where
        rand::distributions::Standard: rand::distributions::Distribution<T>,
;

/// Payload of the second test endpoint: a random number.
pub fn api_test2() -> Test1 {
    Test1 { number: rand::random::<u64>() }
}

/// One user's entry in the listing.
pub open spec fn spec_user_entry(u: UserV) -> Seq<char> {
    "user("@ + spec_i32_string(u.id) + ", "@ + u.username + "), "@
}

/// The whole listing, in store order.
pub open spec fn spec_users_line(users: Seq<UserV>) -> Seq<char>
    decreases users.len(),
{
    if users.len() == 0 {
        Seq::<char>::empty()
    } else {
        spec_user_entry(users[0]) + spec_users_line(users.drop_first())
    }
}

/// The third test endpoint: for an authenticated caller, every stored
/// user rendered in order; otherwise the caller's authentication error.
pub fn api_test3(state: &BackendState, now: i64, jar: &CookieJar) -> (r: Result<
    String,
    CookieAuthError,
>)
    requires
        state.wf(),
    ensures
        (match spec_cookie_auth(state.key@, state.db.users@, state.db.sessions@, now as int, jar@) {
            Ok(_) => r matches Ok(s) && s@ == spec_users_line(state.db.users@),
            Err(e) => r matches Err(re) && re == e,
        }),
{
    match session_and_user_from_cookies(state.key.as_slice(), &state.db, now, jar) {
        Err(e) => {
            return Err(e);
        },
        Ok(_) => {},
    }
    let users = match state.db.users.get_all_users() {
        Ok(us) => us,
        Err(e) => {
            return Err(CookieAuthError::DBError(e));
        },
    };
    let ghost uv = state.db.users@;
    let n = users.len();
    let mut line = String::new();
    let mut i: usize = 0;
    proof {
        assert(uv.skip(0) =~= uv);
    }
    while i < n
        invariant
            i <= n,
            n == users@.len(),
            n == uv.len(),
            forall|j: int| 0 <= j < n ==> (#[trigger] users@[j])@ == uv[j],
            spec_users_line(uv) =~= line@ + spec_users_line(uv.skip(i as int)),
        decreases n - i,
    {
        proof {
            assert(uv.skip(i as int)[0] == uv[i as int]);
            assert(uv.skip(i as int).drop_first() =~= uv.skip(i as int + 1));
        }
        let u = &users[i];
        let mut entry = "user(".to_owned();
        let id_str = i32_to_string(u.id);
        entry.append(id_str.as_str());
        entry.append(", ");
        entry.append(u.username.as_str());
        entry.append("), ");
        proof {
            assert(entry@ =~= spec_user_entry(uv[i as int]));
        }
        line.append(entry.as_str());
        proof {
            assert(line@ + spec_users_line(uv.skip(i as int + 1)) =~= spec_users_line(uv));
        }
        i = i + 1;
    }
    proof {
        assert(uv.skip(n as int) =~= Seq::<UserV>::empty());
        assert(line@ =~= spec_users_line(uv));
    }
    Ok(line)
}

} // verus!
