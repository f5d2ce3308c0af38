//! The database: credential store and session store together.
//!
//! `attempt_login` gates session creation on password verification, and
//! `get_session` resolves a session id to its session and owning user in
//! one call, enforcing expiry at read time.  A failed lookup and a wrong
//! password are both reported as `LoginFail`, so a caller cannot tell an
//! unknown username from a bad password.

use crate::crypt::{argon2_matches, encrypt_password, is_phc_hash, CryptError};
use crate::numstr::two_digit_string;
use crate::store::{
    lemma_find_by_name_found_by_id, lemma_find_user_by_id_push, spec_find_session,
    spec_find_user_by_id, spec_find_user_by_name, CredentialStore, DBError, Session, SessionStore,
    SessionV, User, UserV,
};
use vstd::prelude::*;

verus! {

/// Sessions live one week from issuance unless configured otherwise.
pub const SESSION_TTL_SECONDS: i64 = 604800;

/// The two stores a connection reaches.  A well-formed database has
/// well-formed stores, and every session's `user_id` resolves to a user.
pub struct Db {
    pub users: CredentialStore,
    pub sessions: SessionStore,
}

impl Db {
    pub open spec fn wf(&self) -> bool {
        &&& self.users.wf()
        &&& self.sessions.wf()
        &&& forall|i: int|
            0 <= i < self.sessions@.len() ==> spec_find_user_by_id(
                self.users@,
                (#[trigger] self.sessions@[i]).user_id,
            ) is Some
    }

    pub fn new() -> (db: Db)
        ensures
            db.wf(),
            db.users@ == Seq::<UserV>::empty(),
            db.sessions@ == Seq::<SessionV>::empty(),
            !db.users.spec_at_capacity(),
            !db.sessions.spec_at_capacity(),
    {
        Db { users: CredentialStore::new(), sessions: SessionStore::new() }
    }
}

/// Outcome of resolving a session id at time `now`: the session and its
/// user when the session exists, is not yet expired, and its user is
/// present; the precise error otherwise.
pub open spec fn spec_get_session(
    users: Seq<UserV>,
    sessions: Seq<SessionV>,
    now: int,
    id: int,
) -> Result<(SessionV, UserV), DBError> {
    match spec_find_session(sessions, id) {
        None => Err(DBError::NotFound),
        Some(s) => if s.expires_at <= now {
            Err(DBError::Expired)
        } else {
            match spec_find_user_by_id(users, s.user_id) {
                None => Err(DBError::NotFound),
                Some(u) => Ok((s, u)),
            }
        },
    }
}

/// Resolves a session id to its session row and owning user.  A session
/// is honoured strictly before its expiry only; an expired row may still
/// be stored but is reported as `Expired`.
pub fn get_session(db: &Db, now: i64, id: i32) -> (r: Result<(Session, User), DBError>)
    ensures
        ({
            let m = spec_get_session(db.users@, db.sessions@, now as int, id as int);
            match r {
                Ok(p) => m matches Ok(mp) && mp.0 == p.0@ && mp.1 == p.1@,
                Err(e) => m == Err::<(SessionV, UserV), DBError>(e),
            }
        }),
{
    match db.sessions.find(id) {
        None => Err(DBError::NotFound),
        Some(s) => {
            if s.expires_at <= now {
                Err(DBError::Expired)
            } else {
                match db.users.get_user_by_id(s.user_id) {
                    Ok(u) => Ok((s, u)),
                    Err(_) => Err(DBError::NotFound),
                }
            }
        },
    }
}

/// Login failure: either an infrastructure error, or an invalid
/// credential.  `LoginFail` covers both an unknown username and a wrong
/// password, so the two are indistinguishable to the caller.
#[derive(Clone, Copy, PartialEq, Eq, Structural, Debug)]
pub enum LoginError {
    DBError(DBError),
    LoginFail,
}

impl LoginError {
    pub open spec fn spec_status_code(&self) -> u16 {
        match *self {
            LoginError::LoginFail => 401u16,
            LoginError::DBError(e) => e.spec_status_code(),
        }
    }

    pub fn status_code(&self) -> (c: u16)
        ensures
            c == self.spec_status_code(),
    {
        match *self {
            LoginError::LoginFail => 401,
            LoginError::DBError(e) => e.status_code(),
        }
    }
}

/// Outcome of checking a credential pair against the stored users: the
/// matched user, or `LoginFail` for an unknown username as well as for a
/// password that does not verify, or `MalformedHash` for a stored hash
/// that no longer parses.
pub open spec fn spec_attempt_login(
    users: Seq<UserV>,
    username: Seq<char>,
    password: Seq<char>,
) -> Result<UserV, LoginError> {
    match spec_find_user_by_name(users, username) {
        None => Err(LoginError::LoginFail),
        Some(u) => if !is_phc_hash(u.password_hash) {
            Err(LoginError::DBError(DBError::Crypt(CryptError::MalformedHash)))
        } else if !argon2_matches(password, u.password_hash) {
            Err(LoginError::LoginFail)
        } else {
            Ok(u)
        },
    }
}

/// Verifies the credential pair and, on success, creates a session for
/// the matched user expiring at `now + ttl`.  On any failure the session
/// store is untouched; the user store is never written.
pub fn attempt_login(db: &mut Db, now: i64, ttl: i64, username: &str, password: &str) -> (r: Result<
    (Session, User),
    LoginError,
>)
    requires
        old(db).wf(),
        !old(db).sessions.spec_at_capacity(),
        0 <= ttl,
        now <= i64::MAX - ttl,
    ensures
        final(db).wf(),
        final(db).users@ == old(db).users@,
        (match spec_attempt_login(old(db).users@, username@, password@) {
            Ok(u) => r matches Ok(p) && p.1@ == u && p.0@.id == old(db).sessions.spec_next_id()
                && p.0@.user_id == u.id && p.0@.expires_at == now + ttl && spec_find_session(
                old(db).sessions@,
                p.0@.id,
            ) is None && final(db).sessions@ == old(db).sessions@.push(p.0@),
            Err(e) => r matches Err(re) && re == e && final(db).sessions@ == old(db).sessions@,
        }),
{
    let user = match db.users.get_user_by_username(username) {
        Ok(u) => u,
        Err(_) => {
            return Err(LoginError::LoginFail);
        },
    };
    let valid_login = match crate::crypt::verify_password(password, user.password_hash.as_str()) {
        Ok(b) => b,
        Err(e) => {
            return Err(LoginError::DBError(DBError::Crypt(e)));
        },
    };
    if !valid_login {
        return Err(LoginError::LoginFail);
    }
    proof {
        lemma_find_by_name_found_by_id(db.users@, username@);
    }
    let session = db.sessions.create(user.id, now, ttl);
    proof {
        assert forall|i: int| 0 <= i < db.sessions@.len() implies spec_find_user_by_id(
            db.users@,
            (#[trigger] db.sessions@[i]).user_id,
        ) is Some by {
            if i < db.sessions@.len() - 1 {
                assert(db.sessions@[i] == old(db).sessions@[i]);
            }
        }
    }
    Ok((session, user))
}

/// Relies on `rand::thread_rng` and `Rng::gen_range`, which returns a
/// value inside the given range.
#[verifier::external_body]
fn random_below_100() -> (r: u16)
    ensures
        r < 100,
{
    rand::Rng::gen_range(&mut rand::thread_rng(), 0u16..100)
}

/// Hashes the given password and stores a new user under the given
/// username.  Fails when hashing fails, or with `Conflict` when the
/// username is taken.
pub fn create_dummy_user(db: &mut Db, username: &str, password_plaintext: &str) -> (r: Result<
    (),
    DBError,
>)
    requires
        old(db).wf(),
        !old(db).users.spec_at_capacity(),
    ensures
        final(db).wf(),
        final(db).sessions@ == old(db).sessions@,
        (r matches Err(e) ==> final(db).users@ == old(db).users@ && (e == DBError::Crypt(
            CryptError::HashingFailed,
        ) || (e == DBError::Conflict && spec_find_user_by_name(
            old(db).users@,
            username@,
        ) is Some))),
        (r is Ok ==> spec_find_user_by_name(old(db).users@, username@) is None && ({
            let nu = final(db).users@.last();
            final(db).users@ == old(db).users@.push(nu) && nu.id == old(db).users.spec_next_id()
                && nu.username == username@ && is_phc_hash(nu.password_hash) && argon2_matches(
                password_plaintext@,
                nu.password_hash,
            ) && spec_find_user_by_id(old(db).users@, nu.id) is None
        })),
{
    let hashed = match encrypt_password(password_plaintext) {
        Ok(h) => h,
        Err(e) => {
            return Err(DBError::Crypt(e));
        },
    };
    let created = match db.users.create(username, hashed.as_str()) {
        Ok(u) => u,
        Err(e) => {
            return Err(e);
        },
    };
    proof {
        assert forall|i: int| 0 <= i < db.sessions@.len() implies spec_find_user_by_id(
            db.users@,
            (#[trigger] db.sessions@[i]).user_id,
        ) is Some by {
            lemma_find_user_by_id_push(
                old(db).users@,
                created@,
                db.sessions@[i].user_id,
            );
        }
    }
    Ok(())
}

/// Makes sure the fixed test user exists: a no-op when it is already
/// stored, otherwise it is created with the fixed test password.
pub fn create_test_user(db: &mut Db) -> (r: Result<(), DBError>)
    requires
        old(db).wf(),
        !old(db).users.spec_at_capacity(),
    ensures
        final(db).wf(),
        final(db).sessions@ == old(db).sessions@,
        (spec_find_user_by_name(old(db).users@, "test_user"@) is Some ==> r is Ok && final(
            db).users@ == old(db).users@),
        (r matches Err(e) ==> final(db).users@ == old(db).users@ && e == DBError::Crypt(
            CryptError::HashingFailed,
        )),
        (spec_find_user_by_name(old(db).users@, "test_user"@) is None && r is Ok ==> ({
            let nu = final(db).users@.last();
            final(db).users@ == old(db).users@.push(nu) && nu.username == "test_user"@
                && is_phc_hash(nu.password_hash) && argon2_matches(
                "test_password"@,
                nu.password_hash,
            )
        })),
{
    match db.users.get_user_by_username("test_user") {
        Ok(_) => Ok(()),
        Err(_) => create_dummy_user(db, "test_user", "test_password"),
    }
}

/// Seeds up to `num` random test users; a draw whose username is already
/// taken, an exhausted id space, or a hashing failure skips that user,
/// as seeding is best-effort.
pub fn create_dummy_users(db: &mut Db, num: usize) -> (r: Result<(), DBError>)
    requires
        old(db).wf(),
    ensures
        final(db).wf(),
        final(db).sessions@ == old(db).sessions@,
        r is Ok,
        old(db).users@.len() <= final(db).users@.len() <= old(db).users@.len() + num,
        forall|i: int|
            0 <= i < old(db).users@.len() ==> #[trigger] final(db).users@[i] == old(db).users@[i],
{
    let mut i: usize = 0;
    while i < num
        invariant
            i <= num,
            db.wf(),
            db.sessions@ == old(db).sessions@,
            old(db).users@.len() <= db.users@.len() <= old(db).users@.len() + i,
            forall|j: int|
                0 <= j < old(db).users@.len() ==> #[trigger] db.users@[j] == old(db).users@[j],
        decreases num - i,
    {
        if !db.users.at_capacity() {
            let n = random_below_100();
            let tag = two_digit_string(n as u32);
            let username = "testuser".to_owned().concat(tag.as_str());
            let password = "dummy_pass_".to_owned().concat(tag.as_str());
            let _ = create_dummy_user(db, username.as_str(), password.as_str());
        }
        i = i + 1;
    }
    Ok(())
}

} // verus!
