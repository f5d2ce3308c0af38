//! The authentication protocol: login, whoami, logout.
//!
//! Each operation is a plain function over the backend state, the
//! current time, and the request's cookie jar; the HTTP layer supplies
//! the time and applies the returned cookie jar to the response.  The
//! state machine per client is `Anonymous` or `Authenticated(session)`,
//! observed through its cookie: login mints a session and answers with
//! the sealed session cookie, whoami resolves it read-only, and logout
//! deletes the presented session and answers with the tombstone that
//! drops the cookie.

use crate::common::{LoginRequest, LoginSuccess, LogoutResponse};
use crate::cookies::{
    decode, get_wiped_cookie_jar, session_and_user_from_cookies, spec_cookie_auth, spec_decode,
    spec_jar_get, spec_keep_cookies, spec_session_cookie_name, spec_wiped_jar, CookieAuthError,
    CookieJar, CookieV, DecodeOutcome,
};
use crate::db::{attempt_login, spec_attempt_login, Db};
use crate::numstr::{lemma_i32_string_round_trip, spec_i32_string};
use crate::seal::unseal_of;
use crate::store::{
    lemma_find_by_name_id_agree, lemma_find_session_push, lemma_keep_sessions_props,
    spec_find_session, spec_find_user_by_id, spec_keep_sessions, unique_user_ids, DBError,
    SessionV, UserV,
};
use vstd::prelude::*;

verus! {

/// Everything a request handler needs: the cookie-sealing key (supplied
/// by the caller, never hard-coded), the database, and the session
/// time-to-live in seconds.
pub struct BackendState {
    pub key: Vec<u8>,
    pub db: Db,
    pub session_ttl: i64,
}

impl BackendState {
    pub open spec fn wf(&self) -> bool {
        &&& self.db.wf()
        &&& self.key@.len() >= 64
        &&& 0 < self.session_ttl
    }

    pub fn new(key: Vec<u8>, session_ttl: i64) -> (s: Self)
        requires
            key@.len() >= 64,
            0 < session_ttl,
        ensures
            s.wf(),
            s.key@ == key@,
            s.session_ttl == session_ttl,
            s.db.users@ == Seq::<UserV>::empty(),
            s.db.sessions@ == Seq::<SessionV>::empty(),
            !s.db.users.spec_at_capacity(),
            !s.db.sessions.spec_at_capacity(),
    {
        BackendState { key, db: Db::new(), session_ttl }
    }
}

/// Handles a login request at time `now`.
///
/// On success a session is created for the matched user and the response
/// jar holds exactly the new sealed session cookie — any pre-existing
/// cookie is wiped by that replacement.  On failure — for a wrong
/// password just as for an unknown username — the response jar is the
/// wiped jar, so the client is left without a valid cookie, and no
/// session is created.
pub fn login(state: &mut BackendState, now: i64, login_req: &LoginRequest) -> (r: (
    Result<LoginSuccess, crate::db::LoginError>,
    CookieJar,
))
    requires
        old(state).wf(),
        !old(state).db.sessions.spec_at_capacity(),
        now <= i64::MAX - old(state).session_ttl,
    ensures
        final(state).wf(),
        final(state).key@ == old(state).key@,
        final(state).session_ttl == old(state).session_ttl,
        final(state).db.users@ == old(state).db.users@,
        r.1.wf(),
        (match spec_attempt_login(old(state).db.users@, login_req.username@, login_req.password@) {
            Ok(u) => r.0 matches Ok(ls) && ls.username@ == u.username && ({
                let s = final(state).db.sessions@.last();
                final(state).db.sessions@ == old(state).db.sessions@.push(s) && s.id == old(
                    state).db.sessions.spec_next_id() && s.user_id == u.id && s.expires_at == now
                    + old(state).session_ttl && spec_find_session(
                    old(state).db.sessions@,
                    s.id,
                ) is None && r.1@.len() == 1 && ({
                    let cv = r.1@[0];
                    cv.name == spec_session_cookie_name() && unseal_of(
                        old(state).key@,
                        spec_session_cookie_name(),
                        cv.value,
                    ) == Some(spec_i32_string(s.id)) && cv.path == "/"@ && cv.http_only
                        && cv.secure && cv.same_site_strict && cv.expires_at == Some(s.expires_at)
                })
            }),
            Err(e) => r.0 matches Err(re) && re == e && final(state).db.sessions@ == old(
                state).db.sessions@ && r.1@ == spec_wiped_jar(),
        }),
{
    let ttl = state.session_ttl;
    match attempt_login(
        &mut state.db,
        now,
        ttl,
        login_req.username.as_str(),
        login_req.password.as_str(),
    ) {
        Err(e) => (Err(e), get_wiped_cookie_jar()),
        Ok((session, user)) => {
            // Wipe any pre-existing cookie, then attach the new one; the
            // attachment replaces the tombstone, which has the same name.
            let wiped = get_wiped_cookie_jar();
            let jar = session.apply_cookies(state.key.as_slice(), wiped);
            proof {
                let pred = |c: CookieV| c.name != spec_session_cookie_name();
                assert(spec_wiped_jar().drop_first() =~= Seq::<CookieV>::empty());
                assert(spec_keep_cookies(Seq::<CookieV>::empty(), pred) =~= Seq::<
                    CookieV,
                >::empty());
                assert(spec_keep_cookies(spec_wiped_jar(), pred) =~= Seq::<CookieV>::empty());
                assert(jar@ =~= Seq::<CookieV>::empty().push(jar@.last()));
            }
            (Ok(LoginSuccess { username: user.username }), jar)
        },
    }
}

/// Outcome of a whoami request: the username the presented session
/// cookie resolves to, or the reason it does not.
pub open spec fn spec_whoami(
    key: Seq<u8>,
    users: Seq<UserV>,
    sessions: Seq<SessionV>,
    now: int,
    jar: Seq<CookieV>,
) -> Result<Seq<char>, CookieAuthError> {
    match spec_cookie_auth(key, users, sessions, now, jar) {
        Ok(p) => Ok(p.1.username),
        Err(e) => Err(e),
    }
}

/// Answers a whoami request read-only: the username of the session
/// holder.
///
/// With no session cookie presented the outcome is `NoSessionCookie`; a
/// wiped cookie never authenticates; and a session whose expiry lies at
/// or before `now` is reported `Expired` even though its row may still
/// be stored.
pub fn whoami(state: &BackendState, now: i64, jar: &CookieJar) -> (r: Result<
    LoginSuccess,
    CookieAuthError,
>)
    requires
        state.wf(),
    ensures
        (match spec_whoami(state.key@, state.db.users@, state.db.sessions@, now as int, jar@) {
            Ok(name) => r matches Ok(ls) && ls.username@ == name,
            Err(e) => r matches Err(re) && re == e,
        }),
        spec_jar_get(jar@, spec_session_cookie_name()) is None ==> r == Err::<
            LoginSuccess,
            CookieAuthError,
        >(CookieAuthError::NoSessionCookie),
        jar@ == spec_wiped_jar() ==> r == Err::<LoginSuccess, CookieAuthError>(
            CookieAuthError::NoSessionCookie,
        ),
        (spec_decode(state.key@, jar@) matches DecodeOutcome::SessionId(id) && spec_find_session(
            state.db.sessions@,
            id as int,
        ) matches Some(s) && s.expires_at <= now ==> r == Err::<LoginSuccess, CookieAuthError>(
            CookieAuthError::DBError(DBError::Expired),
        )),
{
    proof {
        if jar@ == spec_wiped_jar() {
            assert(spec_jar_get(jar@, spec_session_cookie_name()) == Some(
                crate::cookies::spec_wiped_cookie(),
            ));
        }
    }
    match session_and_user_from_cookies(state.key.as_slice(), &state.db, now, jar) {
        Ok((_session, user)) => Ok(LoginSuccess { username: user.username }),
        Err(e) => Err(e),
    }
}

/// Handles a logout: always succeeds and answers with the wiped jar,
/// whether or not a valid session was presented.
///
/// The session the presented cookie names is also deleted server-side,
/// so a replay of the old cookie no longer authenticates; a cookie that
/// names no session, or no cookie at all, leaves the store untouched.
pub fn logout(state: &mut BackendState, jar: &CookieJar) -> (r: (LogoutResponse, CookieJar))
    requires
        old(state).wf(),
    ensures
        final(state).wf(),
        final(state).key@ == old(state).key@,
        final(state).session_ttl == old(state).session_ttl,
        final(state).db.users@ == old(state).db.users@,
        r.0 == LogoutResponse::Success,
        r.1.wf(),
        r.1@ == spec_wiped_jar(),
        (match spec_decode(old(state).key@, jar@) {
            DecodeOutcome::SessionId(id) => final(state).db.sessions@ == spec_keep_sessions(
                old(state).db.sessions@,
                |s: SessionV| s.id != id as int,
            ) && spec_find_session(final(state).db.sessions@, id as int) is None,
            _ => final(state).db.sessions@ == old(state).db.sessions@,
        }),
{
    match decode(state.key.as_slice(), jar) {
        DecodeOutcome::SessionId(id) => {
            state.db.sessions.delete(id);
            proof {
                let pred = |s: SessionV| s.id != id as int;
                lemma_keep_sessions_props(old(state).db.sessions@, pred);
                assert forall|i: int|
                    0 <= i < state.db.sessions@.len() implies spec_find_user_by_id(
                    state.db.users@,
                    (#[trigger] state.db.sessions@[i]).user_id,
                ) is Some by {
                    assert(old(state).db.sessions@.contains(state.db.sessions@[i]));
                    let k = choose|k: int|
                        0 <= k < old(state).db.sessions@.len() && old(state).db.sessions@[k]
                            == state.db.sessions@[i];
                }
            }
        },
        _ => {},
    }
    (LogoutResponse::Success, get_wiped_cookie_jar())
}

/// Law: a cookie presented to logout no longer authenticates afterwards.
/// Whatever the cookie held — nothing, an unauthentic value, or a
/// session id that logout has deleted — whoami on the post-logout state
/// fails.  The hypothesis is exactly what `logout` ensures of the state.
pub proof fn lemma_logout_then_whoami(
    key: Seq<u8>,
    users: Seq<UserV>,
    sessions: Seq<SessionV>,
    now: int,
    jar: Seq<CookieV>,
)
    requires
        spec_decode(key, jar) matches DecodeOutcome::SessionId(id) ==> spec_find_session(
            sessions,
            id as int,
        ) is None,
    ensures
        spec_whoami(key, users, sessions, now, jar) is Err,
{
}

/// Law: a successful login followed immediately by whoami with the
/// returned cookie yields the same username, at any instant before the
/// session expires.  The hypotheses are exactly what `login` ensures of
/// the state and response jar after a successful call.
pub proof fn lemma_login_then_whoami(
    key: Seq<u8>,
    users: Seq<UserV>,
    sessions0: Seq<SessionV>,
    s: SessionV,
    jar: Seq<CookieV>,
    username: Seq<char>,
    password: Seq<char>,
    now: int,
)
    requires
        unique_user_ids(users),
        spec_attempt_login(users, username, password) matches Ok(u) && s.user_id == u.id,
        spec_find_session(sessions0, s.id) is None,
        i32::MIN <= s.id <= i32::MAX,
        now < s.expires_at,
        spec_jar_get(jar, spec_session_cookie_name()) matches Some(cv) && unseal_of(
            key,
            spec_session_cookie_name(),
            cv.value,
        ) == Some(spec_i32_string(s.id)),
    ensures
        spec_whoami(key, users, sessions0.push(s), now, jar) == Ok::<Seq<char>, CookieAuthError>(
            spec_attempt_login(users, username, password).unwrap().username,
        ),
{
    let u = spec_attempt_login(users, username, password).unwrap();
    let sid = s.id as i32;
    lemma_i32_string_round_trip(sid);
    assert(spec_i32_string(sid as int) == spec_i32_string(s.id));
    lemma_find_session_push(sessions0, s, s.id);
    lemma_find_by_name_id_agree(users, username);
}

} // verus!
