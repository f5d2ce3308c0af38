//! User and session records and their stores.
//!
//! The credential store maps unique usernames to password hashes; the
//! session store binds fresh session ids to a user and an expiry.  Both
//! are value stores with a well-formedness invariant (ids unique and
//! below the next free id, usernames unique) that constructors establish
//! and every operation preserves.  Lookup errors are reported through
//! `DBError`, keeping "no such row" and "row expired" distinct from a
//! failing crypto subsystem.

use crate::crypt::CryptError;
use vstd::prelude::*;

verus! {

/// A stored user: unique id, unique case-sensitive username, and the
/// PHC password-hash string (salt and parameters embedded).
pub struct User {
    pub id: i32,
    pub username: String,
    pub password_hash: String,
}

/// Mathematical value of a `User`.
#[verifier::ext_equal]
pub struct UserV {
    pub id: int,
    pub username: Seq<char>,
    pub password_hash: Seq<char>,
}

impl View for User {
    type V = UserV;

    open spec fn view(&self) -> UserV {
        UserV { id: self.id as int, username: self.username@, password_hash: self.password_hash@ }
    }
}

impl Clone for User {
    fn clone(&self) -> (r: Self)
        ensures
            r@ == self@,
    {
        User {
            id: self.id,
            username: self.username.clone(),
            password_hash: self.password_hash.clone(),
        }
    }
}

impl User {
    /// The user-facing rendering of a user: the username alone.
    pub fn display(&self) -> (r: String)
        ensures
            r@ == self@.username,
    {
        self.username.clone()
    }
}

/// A stored session: unique id, the owning user's id, and the expiry
/// instant in seconds of Unix time.  The session is valid strictly
/// before `expires_at` only.
#[derive(Clone, Copy, PartialEq, Eq, Structural, Debug)]
pub struct Session {
    pub id: i32,
    pub user_id: i32,
    pub expires_at: i64,
}

/// Mathematical value of a `Session`.
#[verifier::ext_equal]
pub struct SessionV {
    pub id: int,
    pub user_id: int,
    pub expires_at: int,
}

impl View for Session {
    type V = SessionV;

    open spec fn view(&self) -> SessionV {
        SessionV {
            id: self.id as int,
            user_id: self.user_id as int,
            expires_at: self.expires_at as int,
        }
    }
}

/// Error type of every store operation.
#[derive(Clone, Copy, PartialEq, Eq, Structural, Debug)]
pub enum DBError {
    /// The queried row does not exist.
    NotFound,
    /// The session row exists but lies past its expiry.
    Expired,
    /// The insert would duplicate a unique column.
    Conflict,
    /// The password-hashing subsystem failed.
    Crypt(CryptError),
}

impl DBError {
    /// The HTTP status this error maps to: lookup failures are the
    /// client's problem, a crypto failure is the server's.
    pub open spec fn spec_status_code(&self) -> u16 {
        match *self {
            DBError::NotFound | DBError::Expired | DBError::Conflict => 401u16,
            DBError::Crypt(_) => 500u16,
        }
    }

    pub fn status_code(&self) -> (c: u16)
        ensures
            c == self.spec_status_code(),
    {
        match *self {
            DBError::NotFound | DBError::Expired | DBError::Conflict => 401,
            DBError::Crypt(_) => 500,
        }
    }
}

/// First user whose username equals `name`, scanning front to back.
pub open spec fn spec_find_user_by_name(users: Seq<UserV>, name: Seq<char>) -> Option<UserV>
    decreases users.len(),
{
    if users.len() == 0 {
        None
    } else if users[0].username == name {
        Some(users[0])
    } else {
        spec_find_user_by_name(users.drop_first(), name)
    }
}

/// First user whose id equals `id`, scanning front to back.
pub open spec fn spec_find_user_by_id(users: Seq<UserV>, id: int) -> Option<UserV>
    decreases users.len(),
{
    if users.len() == 0 {
        None
    } else if users[0].id == id {
        Some(users[0])
    } else {
        spec_find_user_by_id(users.drop_first(), id)
    }
}

/// First session whose id equals `id`, scanning front to back.
pub open spec fn spec_find_session(sessions: Seq<SessionV>, id: int) -> Option<SessionV>
    decreases sessions.len(),
{
    if sessions.len() == 0 {
        None
    } else if sessions[0].id == id {
        Some(sessions[0])
    } else {
        spec_find_session(sessions.drop_first(), id)
    }
}

/// The subsequence of sessions satisfying `pred`, in order.
pub open spec fn spec_keep_sessions(sessions: Seq<SessionV>, pred: spec_fn(SessionV) -> bool) -> Seq<
    SessionV,
>
    decreases sessions.len(),
{
    if sessions.len() == 0 {
        sessions
    } else {
        let rest = spec_keep_sessions(sessions.drop_first(), pred);
        if pred(sessions[0]) {
            seq![sessions[0]] + rest
        } else {
            rest
        }
    }
}

pub open spec fn unique_session_ids(sessions: Seq<SessionV>) -> bool {
    forall|i: int, j: int|
        0 <= i < j < sessions.len() ==> #[trigger] sessions[i].id != #[trigger] sessions[j].id
}

pub open spec fn unique_user_ids(users: Seq<UserV>) -> bool {
    forall|i: int, j: int|
        0 <= i < j < users.len() ==> #[trigger] users[i].id != #[trigger] users[j].id
}

/// A found user is one of the stored users.
pub proof fn lemma_find_user_by_id_member(users: Seq<UserV>, id: int)
    requires
        spec_find_user_by_id(users, id) is Some,
    ensures
        exists|k: int|
            0 <= k < users.len() && users[k] == spec_find_user_by_id(users, id).unwrap()
                && (#[trigger] users[k]).id == id,
    decreases users.len(),
{
    if users[0].id == id {
        assert(users[0] == spec_find_user_by_id(users, id).unwrap() && users[0].id == id);
    } else {
        lemma_find_user_by_id_member(users.drop_first(), id);
        let k = choose|k: int|
            0 <= k < users.drop_first().len() && users.drop_first()[k] == spec_find_user_by_id(
                users.drop_first(),
                id,
            ).unwrap() && (#[trigger] users.drop_first()[k]).id == id;
        assert(users[k + 1] == users.drop_first()[k]);
    }
}

/// With unique ids, looking the found-by-name user up by its id gives
/// that same user back.
pub proof fn lemma_find_by_name_id_agree(users: Seq<UserV>, name: Seq<char>)
    requires
        unique_user_ids(users),
        spec_find_user_by_name(users, name) is Some,
    ensures
        spec_find_user_by_id(users, spec_find_user_by_name(users, name).unwrap().id) == Some(
            spec_find_user_by_name(users, name).unwrap(),
        ),
    decreases users.len(),
{
    let u = spec_find_user_by_name(users, name).unwrap();
    if users[0].username == name {
    } else {
        let tail = users.drop_first();
        assert forall|i: int, j: int|
            0 <= i < j < tail.len() implies #[trigger] tail[i].id != #[trigger] tail[j].id by {
            assert(tail[i] == users[i + 1] && tail[j] == users[j + 1]);
        }
        lemma_find_by_name_id_agree(tail, name);
        if users[0].id == u.id {
            lemma_find_user_by_id_member(tail, u.id);
            let k = choose|k: int|
                0 <= k < tail.len() && tail[k] == spec_find_user_by_id(tail, u.id).unwrap() && (
                #[trigger] tail[k]).id == u.id;
            assert(users[k + 1] == tail[k]);
            assert(users[0].id == users[k + 1].id);
            assert(false);
        }
    }
}

/// Appending a session changes no established lookup by id.
pub proof fn lemma_find_session_push(sessions: Seq<SessionV>, s: SessionV, id: int)
    ensures
        spec_find_session(sessions.push(s), id) == (if spec_find_session(sessions, id) is Some {
            spec_find_session(sessions, id)
        } else if s.id == id {
            Some(s)
        } else {
            None
        }),
    decreases sessions.len(),
{
    if sessions.len() == 0 {
        assert(sessions.push(s)[0] == s);
        assert(sessions.push(s).drop_first() =~= Seq::<SessionV>::empty());
    } else {
        assert(sessions.push(s)[0] == sessions[0]);
        assert(sessions.push(s).drop_first() =~= sessions.drop_first().push(s));
        lemma_find_session_push(sessions.drop_first(), s, id);
    }
}

pub proof fn lemma_find_user_by_name_none(users: Seq<UserV>, name: Seq<char>)
    requires
        spec_find_user_by_name(users, name) is None,
    ensures
        forall|i: int| 0 <= i < users.len() ==> (#[trigger] users[i]).username != name,
    decreases users.len(),
{
    if users.len() > 0 {
        lemma_find_user_by_name_none(users.drop_first(), name);
        assert forall|i: int| 0 <= i < users.len() implies (#[trigger] users[i]).username
            != name by {
            if i > 0 {
                assert(users.drop_first()[i - 1] == users[i]);
            }
        }
    }
}

/// An id that no user carries is not found.
pub proof fn lemma_find_user_by_id_absent(users: Seq<UserV>, id: int)
    requires
        forall|i: int| 0 <= i < users.len() ==> (#[trigger] users[i]).id != id,
    ensures
        spec_find_user_by_id(users, id) is None,
    decreases users.len(),
{
    if users.len() > 0 {
        assert forall|i: int|
            0 <= i < users.drop_first().len() implies (#[trigger] users.drop_first()[i]).id
            != id by {
            assert(users.drop_first()[i] == users[i + 1]);
        }
        lemma_find_user_by_id_absent(users.drop_first(), id);
    }
}

/// Appending a user changes no established lookup by id.
pub proof fn lemma_find_user_by_id_push(users: Seq<UserV>, u: UserV, id: int)
    ensures
        spec_find_user_by_id(users.push(u), id) == (if spec_find_user_by_id(users, id) is Some {
            spec_find_user_by_id(users, id)
        } else if u.id == id {
            Some(u)
        } else {
            None
        }),
    decreases users.len(),
{
    if users.len() == 0 {
        assert(users.push(u)[0] == u);
        assert(users.push(u).drop_first() =~= Seq::<UserV>::empty());
    } else {
        assert(users.push(u)[0] == users[0]);
        assert(users.push(u).drop_first() =~= users.drop_first().push(u));
        lemma_find_user_by_id_push(users.drop_first(), u, id);
    }
}

/// A user found by name is also found by id.
pub proof fn lemma_find_by_name_found_by_id(users: Seq<UserV>, name: Seq<char>)
    requires
        spec_find_user_by_name(users, name) is Some,
    ensures
        spec_find_user_by_id(users, spec_find_user_by_name(users, name).unwrap().id) is Some,
    decreases users.len(),
{
    if users.len() > 0 && users[0].username != name {
        lemma_find_by_name_found_by_id(users.drop_first(), name);
    }
}

/// The in-memory credential store: username -> user record, usernames
/// and ids unique, ids assigned from a private counter.
pub struct CredentialStore {
    users: Vec<User>,
    next_id: i32,
}

impl View for CredentialStore {
    type V = Seq<UserV>;

    closed spec fn view(&self) -> Seq<UserV> {
        Seq::new(self.users@.len(), |i: int| self.users@[i]@)
    }
}

impl CredentialStore {
    pub closed spec fn wf(&self) -> bool {
        &&& 1 <= self.next_id
        &&& forall|i: int| 0 <= i < self@.len() ==> 1 <= (#[trigger] self@[i]).id < self.next_id
        &&& forall|i: int, j: int|
            0 <= i < j < self@.len() ==> (#[trigger] self@[i]).id != (#[trigger] self@[j]).id
        &&& forall|i: int, j: int|
            0 <= i < j < self@.len() ==> (#[trigger] self@[i]).username != (
            #[trigger] self@[j]).username
    }

    /// The id the next created user receives.
    pub closed spec fn spec_next_id(&self) -> int {
        self.next_id as int
    }

    /// No id is left for another user.
    pub closed spec fn spec_at_capacity(&self) -> bool {
        self.next_id == i32::MAX
    }

    pub fn at_capacity(&self) -> (b: bool)
        ensures
            b == self.spec_at_capacity(),
    {
        self.next_id == i32::MAX
    }

    pub fn new() -> (s: Self)
        ensures
            s.wf(),
            s@ == Seq::<UserV>::empty(),
            s.spec_next_id() == 1,
            !s.spec_at_capacity(),
    {
        let s = CredentialStore { users: Vec::new(), next_id: 1 };
        proof {
            assert(s@ =~= Seq::<UserV>::empty());
        }
        s
    }

    /// The invariant keeps user ids unique.  Callers of the protocol
    /// laws use this to discharge their uniqueness hypothesis, since the
    /// invariant itself is opaque outside this module.
    pub proof fn lemma_wf_unique_user_ids(&self)
        requires
            self.wf(),
        ensures
            unique_user_ids(self@),
    {
    }

    /// Exact-match, case-sensitive lookup by username.
    pub fn get_user_by_username(&self, username: &str) -> (r: Result<User, DBError>)
        ensures
            (match spec_find_user_by_name(self@, username@) {
                Some(u) => r matches Ok(ru) && ru@ == u,
                None => r == Err::<User, DBError>(DBError::NotFound),
            }),
    {
        let target: String = username.to_owned();
        let n = self.users.len();
        let mut i: usize = 0;
        proof {
            assert(self@.skip(0) =~= self@);
        }
        while i < n
            invariant
                i <= n,
                n == self.users.len(),
                target@ == username@,
                spec_find_user_by_name(self@, username@) == spec_find_user_by_name(
                    self@.skip(i as int),
                    username@,
                ),
            decreases n - i,
        {
            proof {
                assert(self@.skip(i as int)[0] == self@[i as int]);
                assert(self@.skip(i as int).drop_first() =~= self@.skip(i as int + 1));
            }
            if self.users[i].username == target {
                return Ok(self.users[i].clone());
            }
            i = i + 1;
        }
        proof {
            assert(self@.skip(n as int) =~= Seq::<UserV>::empty());
        }
        Err(DBError::NotFound)
    }

    /// Exact-match lookup by user id.
    pub fn get_user_by_id(&self, user_id: i32) -> (r: Result<User, DBError>)
        ensures
            (match spec_find_user_by_id(self@, user_id as int) {
                Some(u) => r matches Ok(ru) && ru@ == u,
                None => r == Err::<User, DBError>(DBError::NotFound),
            }),
    {
        let n = self.users.len();
        let mut i: usize = 0;
        proof {
            assert(self@.skip(0) =~= self@);
        }
        while i < n
            invariant
                i <= n,
                n == self.users.len(),
                spec_find_user_by_id(self@, user_id as int) == spec_find_user_by_id(
                    self@.skip(i as int),
                    user_id as int,
                ),
            decreases n - i,
        {
            proof {
                assert(self@.skip(i as int)[0] == self@[i as int]);
                assert(self@.skip(i as int).drop_first() =~= self@.skip(i as int + 1));
            }
            if self.users[i].id == user_id {
                return Ok(self.users[i].clone());
            }
            i = i + 1;
        }
        proof {
            assert(self@.skip(n as int) =~= Seq::<UserV>::empty());
        }
        Err(DBError::NotFound)
    }

    /// All users, in insertion order.
    pub fn get_all_users(&self) -> (r: Result<Vec<User>, DBError>)
        ensures
            r matches Ok(us) && us@.len() == self@.len(),
            r matches Ok(us) ==> forall|i: int| 0 <= i < self@.len() ==> (#[trigger] us@[i])@
                == self@[i],
    {
        let n = self.users.len();
        let mut out: Vec<User> = Vec::new();
        let mut i: usize = 0;
        while i < n
            invariant
                i <= n,
                n == self.users.len(),
                out@.len() == i,
                forall|j: int| 0 <= j < i ==> (#[trigger] out@[j])@ == self@[j],
            decreases n - i,
        {
            out.push(self.users[i].clone());
            i = i + 1;
        }
        Ok(out)
    }

    /// Inserts a new user under a fresh id.  Fails exactly when the
    /// username is already taken.
    pub fn create(&mut self, username: &str, password_hash: &str) -> (r: Result<User, DBError>)
        requires
            old(self).wf(),
            !old(self).spec_at_capacity(),
        ensures
            final(self).wf(),
            (match spec_find_user_by_name(old(self)@, username@) {
                Some(_) => r == Err::<User, DBError>(DBError::Conflict) && final(self)@ == old(
                    self)@ && final(self).spec_next_id() == old(self).spec_next_id(),
                None => r matches Ok(u) && u@.username == username@ && u@.password_hash
                    == password_hash@ && u@.id == old(self).spec_next_id()
                    && spec_find_user_by_id(old(self)@, u@.id) is None && final(self)@ == old(
                    self)@.push(u@) && final(self).spec_next_id() == old(self).spec_next_id() + 1,
            }),
    {
        match self.get_user_by_username(username) {
            Ok(_) => Err(DBError::Conflict),
            Err(_) => {
                let u = User {
                    id: self.next_id,
                    username: username.to_owned(),
                    password_hash: password_hash.to_owned(),
                };
                let created = u.clone();
                proof {
                    lemma_find_user_by_id_absent(self@, self.next_id as int);
                    lemma_find_user_by_name_none(self@, username@);
                }
                self.users.push(u);
                self.next_id = self.next_id + 1;
                proof {
                    assert(self@ =~= old(self)@.push(created@));
                }
                Ok(created)
            },
        }
    }
}

/// What `spec_keep_sessions` keeps: only matching rows, all of them
/// drawn from the original, with unique ids staying unique.
pub proof fn lemma_keep_sessions_props(sessions: Seq<SessionV>, pred: spec_fn(SessionV) -> bool)
    ensures
        spec_keep_sessions(sessions, pred).len() <= sessions.len(),
        forall|j: int|
            0 <= j < spec_keep_sessions(sessions, pred).len() ==> pred(
                #[trigger] spec_keep_sessions(sessions, pred)[j],
            ) && sessions.contains(spec_keep_sessions(sessions, pred)[j]),
        unique_session_ids(sessions) ==> unique_session_ids(spec_keep_sessions(sessions, pred)),
    decreases sessions.len(),
{
    if sessions.len() > 0 {
        let head = sessions[0];
        let tail = sessions.drop_first();
        lemma_keep_sessions_props(tail, pred);
        let kept_tail = spec_keep_sessions(tail, pred);
        let kept = spec_keep_sessions(sessions, pred);
        assert forall|j: int| 0 <= j < kept_tail.len() implies sessions.contains(
            #[trigger] kept_tail[j],
        ) by {
            let k = choose|k: int| 0 <= k < tail.len() && tail[k] == kept_tail[j];
            assert(sessions[k + 1] == tail[k]);
        }
        if unique_session_ids(sessions) {
            assert forall|i: int, j: int|
                0 <= i < j < tail.len() implies #[trigger] tail[i].id != #[trigger] tail[j].id by {
                assert(tail[i] == sessions[i + 1] && tail[j] == sessions[j + 1]);
            }
            if pred(head) {
                assert(kept == seq![head] + kept_tail);
                assert forall|i: int, j: int|
                    0 <= i < j < kept.len() implies #[trigger] kept[i].id
                    != #[trigger] kept[j].id by {
                    if i == 0 {
                        let k = choose|k: int|
                            0 <= k < tail.len() && tail[k] == kept_tail[j - 1];
                        assert(sessions[k + 1] == tail[k]);
                        assert(sessions[0].id != sessions[k + 1].id);
                    } else {
                        assert(kept[i] == kept_tail[i - 1] && kept[j] == kept_tail[j - 1]);
                    }
                }
            }
        }
    }
}

/// The in-memory session store: session id -> (user id, expiry), ids
/// assigned from a private counter.
pub struct SessionStore {
    sessions: Vec<Session>,
    next_id: i32,
}

impl View for SessionStore {
    type V = Seq<SessionV>;

    closed spec fn view(&self) -> Seq<SessionV> {
        Seq::new(self.sessions@.len(), |i: int| self.sessions@[i]@)
    }
}

impl SessionStore {
    pub closed spec fn wf(&self) -> bool {
        &&& 1 <= self.next_id
        &&& forall|i: int| 0 <= i < self@.len() ==> 1 <= (#[trigger] self@[i]).id < self.next_id
        &&& unique_session_ids(self@)
    }

    /// The id the next created session receives.
    pub closed spec fn spec_next_id(&self) -> int {
        self.next_id as int
    }

    /// No id is left for another session.
    pub closed spec fn spec_at_capacity(&self) -> bool {
        self.next_id == i32::MAX
    }

    pub fn at_capacity(&self) -> (b: bool)
        ensures
            b == self.spec_at_capacity(),
    {
        self.next_id == i32::MAX
    }

    pub fn new() -> (s: Self)
        ensures
            s.wf(),
            s@ == Seq::<SessionV>::empty(),
            s.spec_next_id() == 1,
            !s.spec_at_capacity(),
    {
        let s = SessionStore { sessions: Vec::new(), next_id: 1 };
        proof {
            assert(s@ =~= Seq::<SessionV>::empty());
        }
        s
    }

    /// Every stored session id fits the id space.  Callers of the
    /// protocol laws use this to discharge their range hypothesis, since
    /// the invariant itself is opaque outside this module.
    pub proof fn lemma_wf_session_id_bounds(&self)
        requires
            self.wf(),
        ensures
            forall|i: int| 0 <= i < self@.len() ==> 1 <= (#[trigger] self@[i]).id < i32::MAX as int,
    {
    }

    /// Creates a session for `user_id` that expires at `now + ttl`,
    /// under a fresh id.
    pub fn create(&mut self, user_id: i32, now: i64, ttl: i64) -> (s: Session)
        requires
            old(self).wf(),
            !old(self).spec_at_capacity(),
            0 <= ttl,
            now <= i64::MAX - ttl,
        ensures
            final(self).wf(),
            s@.id == old(self).spec_next_id(),
            final(self).spec_next_id() == old(self).spec_next_id() + 1,
            s@.user_id == user_id as int,
            s@.expires_at == now + ttl,
            spec_find_session(old(self)@, s@.id) is None,
            final(self)@ == old(self)@.push(s@),
    {
        let s = Session { id: self.next_id, user_id, expires_at: now + ttl };
        proof {
            lemma_find_session_absent(self@, self.next_id as int);
        }
        self.sessions.push(s);
        self.next_id = self.next_id + 1;
        proof {
            assert(self@ =~= old(self)@.push(s@));
        }
        s
    }

    /// Looks a session up by id, expired or not.
    pub fn find(&self, id: i32) -> (r: Option<Session>)
        ensures
            (match spec_find_session(self@, id as int) {
                Some(s) => r matches Some(rs) && rs@ == s,
                None => r is None,
            }),
    {
        let n = self.sessions.len();
        let mut i: usize = 0;
        proof {
            assert(self@.skip(0) =~= self@);
        }
        while i < n
            invariant
                i <= n,
                n == self.sessions.len(),
                spec_find_session(self@, id as int) == spec_find_session(
                    self@.skip(i as int),
                    id as int,
                ),
            decreases n - i,
        {
            proof {
                assert(self@.skip(i as int)[0] == self@[i as int]);
                assert(self@.skip(i as int).drop_first() =~= self@.skip(i as int + 1));
            }
            if self.sessions[i].id == id {
                return Some(self.sessions[i]);
            }
            i = i + 1;
        }
        proof {
            assert(self@.skip(n as int) =~= Seq::<SessionV>::empty());
        }
        None
    }

    /// Removes the session with the given id, if present; removing an
    /// absent id changes nothing, so the operation is idempotent.
    pub fn delete(&mut self, id: i32)
        requires
            old(self).wf(),
        ensures
            final(self).wf(),
            final(self)@ == spec_keep_sessions(old(self)@, |s: SessionV| s.id != id as int),
            spec_find_session(final(self)@, id as int) is None,
    {
        let ghost pred = |s: SessionV| s.id != id as int;
        let n = self.sessions.len();
        let mut out: Vec<Session> = Vec::new();
        let mut i: usize = 0;
        proof {
            assert(self@.skip(0) =~= self@);
        }
        while i < n
            invariant
                i <= n,
                n == self.sessions.len(),
                pred == (|s: SessionV| s.id != id as int),
                spec_keep_sessions(self@, pred) =~= Seq::new(out@.len(), |j: int| out@[j]@)
                    + spec_keep_sessions(self@.skip(i as int), pred),
            decreases n - i,
        {
            proof {
                assert(self@.skip(i as int)[0] == self@[i as int]);
                assert(self@.skip(i as int).drop_first() =~= self@.skip(i as int + 1));
            }
            let ghost pre = out@;
            if self.sessions[i].id != id {
                out.push(self.sessions[i]);
                proof {
                    assert(Seq::new(out@.len(), |j: int| out@[j]@) =~= Seq::new(
                        pre.len(),
                        |j: int| pre[j]@,
                    ).push(self@[i as int]));
                    assert(spec_keep_sessions(self@, pred) =~= Seq::new(
                        out@.len(),
                        |j: int| out@[j]@,
                    ) + spec_keep_sessions(self@.skip(i as int + 1), pred));
                }
            }
            i = i + 1;
        }
        proof {
            assert(self@.skip(n as int) =~= Seq::<SessionV>::empty());
        }
        self.sessions = out;
        proof {
            assert(self@ =~= spec_keep_sessions(old(self)@, pred));
            lemma_keep_sessions_props(old(self)@, pred);
            assert forall|j: int| 0 <= j < self@.len() implies (#[trigger] self@[j]).id != id
                as int && 1 <= self@[j].id < self.next_id by {
                assert(pred(self@[j]) && old(self)@.contains(self@[j]));
                let k = choose|k: int|
                    0 <= k < old(self)@.len() && old(self)@[k] == self@[j];
            }
            lemma_find_session_absent(self@, id as int);
        }
    }

    /// Deletes every session that expired strictly before `now`.
    pub fn wipe_expired_sessions(&mut self, now: i64)
        requires
            old(self).wf(),
        ensures
            final(self).wf(),
            final(self)@ == spec_keep_sessions(old(self)@, |s: SessionV| s.expires_at >= now as int),
    {
        let ghost pred = |s: SessionV| s.expires_at >= now as int;
        let n = self.sessions.len();
        let mut out: Vec<Session> = Vec::new();
        let mut i: usize = 0;
        proof {
            assert(self@.skip(0) =~= self@);
        }
        while i < n
            invariant
                i <= n,
                n == self.sessions.len(),
                pred == (|s: SessionV| s.expires_at >= now as int),
                spec_keep_sessions(self@, pred) =~= Seq::new(out@.len(), |j: int| out@[j]@)
                    + spec_keep_sessions(self@.skip(i as int), pred),
            decreases n - i,
        {
            proof {
                assert(self@.skip(i as int)[0] == self@[i as int]);
                assert(self@.skip(i as int).drop_first() =~= self@.skip(i as int + 1));
            }
            let ghost pre = out@;
            if self.sessions[i].expires_at >= now {
                out.push(self.sessions[i]);
                proof {
                    assert(Seq::new(out@.len(), |j: int| out@[j]@) =~= Seq::new(
                        pre.len(),
                        |j: int| pre[j]@,
                    ).push(self@[i as int]));
                    assert(spec_keep_sessions(self@, pred) =~= Seq::new(
                        out@.len(),
                        |j: int| out@[j]@,
                    ) + spec_keep_sessions(self@.skip(i as int + 1), pred));
                }
            }
            i = i + 1;
        }
        proof {
            assert(self@.skip(n as int) =~= Seq::<SessionV>::empty());
        }
        self.sessions = out;
        proof {
            assert(self@ =~= spec_keep_sessions(old(self)@, pred));
            lemma_keep_sessions_props(old(self)@, pred);
            assert forall|j: int| 0 <= j < self@.len() implies 1 <= (#[trigger] self@[j]).id
                < self.next_id by {
                assert(old(self)@.contains(self@[j]));
                let k = choose|k: int|
                    0 <= k < old(self)@.len() && old(self)@[k] == self@[j];
            }
        }
    }
}

/// An id that no session carries is not found.
pub proof fn lemma_find_session_absent(sessions: Seq<SessionV>, id: int)
    requires
        forall|i: int| 0 <= i < sessions.len() ==> (#[trigger] sessions[i]).id != id,
    ensures
        spec_find_session(sessions, id) is None,
    decreases sessions.len(),
{
    if sessions.len() > 0 {
        assert forall|i: int|
            0 <= i < sessions.drop_first().len() implies (#[trigger] sessions.drop_first()[i]).id
            != id by {
            assert(sessions.drop_first()[i] == sessions[i + 1]);
        }
        lemma_find_session_absent(sessions.drop_first(), id);
    }
}

} // verus!
