//! The cookie model and the session-cookie codec.
//!
//! A cookie is modelled by its value and the attributes the protocol
//! sets: path, `HttpOnly`, `Secure`, `SameSite=Strict` and an optional
//! expiry instant.  A jar holds at most one cookie per name.  The codec
//! turns a session id into a sealed session cookie (`apply_cookies`),
//! reads one back (`decode`, `session_and_user_from_cookies`), and
//! produces the tombstone that makes a client drop its session cookie
//! (`get_wiped_cookie_jar`).

use crate::db::{get_session, Db};
use crate::numstr::{parse_i32, spec_i32_string, spec_parse_i32};
use crate::seal::{seal_value, unseal_of, unseal_value};
use crate::store::{DBError, Session, SessionV, User, UserV};
use vstd::prelude::*;

verus! {

/// Name of the one cookie this protocol uses.
pub open spec fn spec_session_cookie_name() -> Seq<char> {
    "session"@
}

pub fn session_cookie_name() -> (s: &'static str)
    ensures
        s@ == spec_session_cookie_name(),
{
    "session"
}

/// A cookie as the protocol sees it: a name, a value, and the security
/// attributes that every issued cookie carries.
#[derive(Debug)]
pub struct Cookie {
    pub name: String,
    pub value: String,
    pub path: String,
    pub http_only: bool,
    pub secure: bool,
    pub same_site_strict: bool,
    /// Expiry instant in seconds of Unix time; `None` for a session-
    /// lifetime cookie.
    pub expires_at: Option<i64>,
}

/// Mathematical value of a `Cookie`.
#[verifier::ext_equal]
pub struct CookieV {
    pub name: Seq<char>,
    pub value: Seq<char>,
    pub path: Seq<char>,
    pub http_only: bool,
    pub secure: bool,
    pub same_site_strict: bool,
    pub expires_at: Option<int>,
}

impl View for Cookie {
    type V = CookieV;

    open spec fn view(&self) -> CookieV {
        CookieV {
            name: self.name@,
            value: self.value@,
            path: self.path@,
            http_only: self.http_only,
            secure: self.secure,
            same_site_strict: self.same_site_strict,
            expires_at: match self.expires_at {
                Some(t) => Some(t as int),
                None => None,
            },
        }
    }
}

impl Clone for Cookie {
    fn clone(&self) -> (r: Self)
        ensures
            r@ == self@,
    {
        Cookie {
            name: self.name.clone(),
            value: self.value.clone(),
            path: self.path.clone(),
            http_only: self.http_only,
            secure: self.secure,
            same_site_strict: self.same_site_strict,
            expires_at: self.expires_at,
        }
    }
}

/// Sets the attributes every issued cookie carries: strict same-site,
/// kept from scripts, and sent over secure transport only.
pub fn set_cookie_security(cookie: &mut Cookie)
    ensures
        final(cookie)@ == (CookieV {
            http_only: true,
            secure: true,
            same_site_strict: true,
            ..old(cookie)@
        }),
{
    cookie.same_site_strict = true;
    cookie.http_only = true;
    cookie.secure = true;
}

/// First cookie with the given name, scanning front to back.
pub open spec fn spec_jar_get(jar: Seq<CookieV>, name: Seq<char>) -> Option<CookieV>
    decreases jar.len(),
{
    if jar.len() == 0 {
        None
    } else if jar[0].name == name {
        Some(jar[0])
    } else {
        spec_jar_get(jar.drop_first(), name)
    }
}

/// The subsequence of cookies satisfying `pred`, in order.
pub open spec fn spec_keep_cookies(jar: Seq<CookieV>, pred: spec_fn(CookieV) -> bool) -> Seq<
    CookieV,
>
    decreases jar.len(),
{
    if jar.len() == 0 {
        jar
    } else {
        let rest = spec_keep_cookies(jar.drop_first(), pred);
        if pred(jar[0]) {
            seq![jar[0]] + rest
        } else {
            rest
        }
    }
}

pub open spec fn unique_cookie_names(jar: Seq<CookieV>) -> bool {
    forall|i: int, j: int|
        0 <= i < j < jar.len() ==> #[trigger] jar[i].name != #[trigger] jar[j].name
}

/// A name that no cookie carries is not found.
pub proof fn lemma_jar_get_absent(jar: Seq<CookieV>, name: Seq<char>)
    requires
        forall|i: int| 0 <= i < jar.len() ==> (#[trigger] jar[i]).name != name,
    ensures
        spec_jar_get(jar, name) is None,
    decreases jar.len(),
{
    if jar.len() > 0 {
        assert forall|i: int|
            0 <= i < jar.drop_first().len() implies (#[trigger] jar.drop_first()[i]).name
            != name by {
            assert(jar.drop_first()[i] == jar[i + 1]);
        }
        lemma_jar_get_absent(jar.drop_first(), name);
    }
}

/// What `spec_keep_cookies` keeps: only matching cookies, all of them
/// drawn from the original, with unique names staying unique.
pub proof fn lemma_keep_cookies_props(jar: Seq<CookieV>, pred: spec_fn(CookieV) -> bool)
    ensures
        spec_keep_cookies(jar, pred).len() <= jar.len(),
        forall|j: int|
            0 <= j < spec_keep_cookies(jar, pred).len() ==> pred(
                #[trigger] spec_keep_cookies(jar, pred)[j],
            ) && jar.contains(spec_keep_cookies(jar, pred)[j]),
        unique_cookie_names(jar) ==> unique_cookie_names(spec_keep_cookies(jar, pred)),
    decreases jar.len(),
{
    if jar.len() > 0 {
        let head = jar[0];
        let tail = jar.drop_first();
        lemma_keep_cookies_props(tail, pred);
        let kept_tail = spec_keep_cookies(tail, pred);
        let kept = spec_keep_cookies(jar, pred);
        assert forall|j: int| 0 <= j < kept_tail.len() implies jar.contains(
            #[trigger] kept_tail[j],
        ) by {
            let k = choose|k: int| 0 <= k < tail.len() && tail[k] == kept_tail[j];
            assert(jar[k + 1] == tail[k]);
        }
        if unique_cookie_names(jar) {
            assert forall|i: int, j: int|
                0 <= i < j < tail.len() implies #[trigger] tail[i].name
                != #[trigger] tail[j].name by {
                assert(tail[i] == jar[i + 1] && tail[j] == jar[j + 1]);
            }
            if pred(head) {
                assert(kept == seq![head] + kept_tail);
                assert forall|i: int, j: int|
                    0 <= i < j < kept.len() implies #[trigger] kept[i].name
                    != #[trigger] kept[j].name by {
                    if i == 0 {
                        let k = choose|k: int|
                            0 <= k < tail.len() && tail[k] == kept_tail[j - 1];
                        assert(jar[k + 1] == tail[k]);
                        assert(jar[0].name != jar[k + 1].name);
                    } else {
                        assert(kept[i] == kept_tail[i - 1] && kept[j] == kept_tail[j - 1]);
                    }
                }
            }
        }
    }
}

/// Keeping everything keeps the jar as it is.
pub proof fn lemma_keep_cookies_all(jar: Seq<CookieV>, pred: spec_fn(CookieV) -> bool)
    requires
        forall|i: int| 0 <= i < jar.len() ==> pred(#[trigger] jar[i]),
    ensures
        spec_keep_cookies(jar, pred) == jar,
    decreases jar.len(),
{
    if jar.len() > 0 {
        assert forall|i: int| 0 <= i < jar.drop_first().len() implies pred(
            #[trigger] jar.drop_first()[i],
        ) by {
            assert(jar.drop_first()[i] == jar[i + 1]);
        }
        lemma_keep_cookies_all(jar.drop_first(), pred);
        assert(spec_keep_cookies(jar, pred) =~= jar);
    }
}

/// A jar of cookies, at most one per name.
pub struct CookieJar {
    cookies: Vec<Cookie>,
}

impl View for CookieJar {
    type V = Seq<CookieV>;

    closed spec fn view(&self) -> Seq<CookieV> {
        Seq::new(self.cookies@.len(), |i: int| self.cookies@[i]@)
    }
}

impl Clone for CookieJar {
    fn clone(&self) -> (r: Self)
        ensures
            r@ == self@,
    {
        let n = self.cookies.len();
        let mut out: Vec<Cookie> = Vec::new();
        let mut i: usize = 0;
        while i < n
            invariant
                i <= n,
                n == self.cookies.len(),
                out@.len() == i,
                forall|j: int| 0 <= j < i ==> (#[trigger] out@[j])@ == self@[j],
            decreases n - i,
        {
            out.push(self.cookies[i].clone());
            i = i + 1;
        }
        let r = CookieJar { cookies: out };
        proof {
            assert(r@ =~= self@);
        }
        r
    }
}

impl CookieJar {
    pub open spec fn wf(&self) -> bool {
        unique_cookie_names(self@)
    }

    pub fn new() -> (jar: Self)
        ensures
            jar.wf(),
            jar@ == Seq::<CookieV>::empty(),
    {
        let jar = CookieJar { cookies: Vec::new() };
        proof {
            assert(jar@ =~= Seq::<CookieV>::empty());
        }
        jar
    }

    /// The number of cookies held.
    pub fn len(&self) -> (n: usize)
        ensures
            n == self@.len(),
    {
        self.cookies.len()
    }

    /// The cookie with the given name, if any.
    pub fn get(&self, name: &str) -> (r: Option<Cookie>)
        ensures
            (match spec_jar_get(self@, name@) {
                Some(c) => r matches Some(rc) && rc@ == c,
                None => r is None,
            }),
    {
        let target: String = name.to_owned();
        let n = self.cookies.len();
        let mut i: usize = 0;
        proof {
            assert(self@.skip(0) =~= self@);
        }
        while i < n
            invariant
                i <= n,
                n == self.cookies.len(),
                target@ == name@,
                spec_jar_get(self@, name@) == spec_jar_get(self@.skip(i as int), name@),
            decreases n - i,
        {
            proof {
                assert(self@.skip(i as int)[0] == self@[i as int]);
                assert(self@.skip(i as int).drop_first() =~= self@.skip(i as int + 1));
            }
            if self.cookies[i].name == target {
                return Some(self.cookies[i].clone());
            }
            i = i + 1;
        }
        proof {
            assert(self@.skip(n as int) =~= Seq::<CookieV>::empty());
        }
        None
    }

    /// Removes any cookie with the given name.
    pub fn remove(&mut self, name: &str)
        requires
            old(self).wf(),
        ensures
            final(self).wf(),
            final(self)@ == spec_keep_cookies(old(self)@, |c: CookieV| c.name != name@),
            spec_jar_get(final(self)@, name@) is None,
    {
        let ghost pred = |c: CookieV| c.name != name@;
        let target: String = name.to_owned();
        let n = self.cookies.len();
        let mut out: Vec<Cookie> = Vec::new();
        let mut i: usize = 0;
        proof {
            assert(self@.skip(0) =~= self@);
        }
        while i < n
            invariant
                i <= n,
                n == self.cookies.len(),
                pred == (|c: CookieV| c.name != name@),
                target@ == name@,
                spec_keep_cookies(self@, pred) =~= Seq::new(out@.len(), |j: int| out@[j]@)
                    + spec_keep_cookies(self@.skip(i as int), pred),
            decreases n - i,
        {
            proof {
                assert(self@.skip(i as int)[0] == self@[i as int]);
                assert(self@.skip(i as int).drop_first() =~= self@.skip(i as int + 1));
            }
            let ghost pre = out@;
            if !(self.cookies[i].name == target) {
                out.push(self.cookies[i].clone());
                proof {
                    assert(Seq::new(out@.len(), |j: int| out@[j]@) =~= Seq::new(
                        pre.len(),
                        |j: int| pre[j]@,
                    ).push(self@[i as int]));
                    assert(spec_keep_cookies(self@, pred) =~= Seq::new(
                        out@.len(),
                        |j: int| out@[j]@,
                    ) + spec_keep_cookies(self@.skip(i as int + 1), pred));
                }
            }
            i = i + 1;
        }
        proof {
            assert(self@.skip(n as int) =~= Seq::<CookieV>::empty());
        }
        self.cookies = out;
        proof {
            assert(self@ =~= spec_keep_cookies(old(self)@, pred));
            lemma_keep_cookies_props(old(self)@, pred);
            assert forall|j: int| 0 <= j < self@.len() implies (#[trigger] self@[j]).name
                != name@ by {
                assert(pred(self@[j]));
            }
            lemma_jar_get_absent(self@, name@);
        }
    }

    /// Adds a cookie, replacing any cookie of the same name.
    pub fn add(&mut self, cookie: Cookie)
        requires
            old(self).wf(),
        ensures
            final(self).wf(),
            final(self)@ == spec_keep_cookies(
                old(self)@,
                |c: CookieV| c.name != cookie@.name,
            ).push(cookie@),
    {
        let ghost cv = cookie@;
        let name_owned = cookie.name.clone();
        self.remove(name_owned.as_str());
        proof {
            lemma_keep_cookies_props(old(self)@, |c: CookieV| c.name != cv.name);
            assert(spec_keep_cookies(old(self)@, |c: CookieV| c.name != name_owned@)
                =~= spec_keep_cookies(old(self)@, |c: CookieV| c.name != cv.name));
        }
        let ghost kept = self@;
        self.cookies.push(cookie);
        proof {
            assert(self@ =~= kept.push(cv));
            assert forall|i: int, j: int|
                0 <= i < j < self@.len() implies #[trigger] self@[i].name
                != #[trigger] self@[j].name by {
                if j == self@.len() - 1 {
                    assert(spec_keep_cookies(old(self)@, |c: CookieV| c.name != cv.name)[i]
                        == self@[i]);
                }
            }
        }
    }

    /// Applies a response jar to this client-held jar the way a browser
    /// would: each response cookie replaces the one of its name, and a
    /// cookie already expired at `now` is dropped instead.
    pub fn apply_response(&mut self, response: &CookieJar, now: i64)
        requires
            old(self).wf(),
        ensures
            final(self).wf(),
            final(self)@ == spec_apply_response(old(self)@, response@, now as int),
    {
        let n = response.cookies.len();
        let mut i: usize = 0;
        proof {
            assert(response@.skip(0) =~= response@);
        }
        while i < n
            invariant
                i <= n,
                n == response.cookies.len(),
                self.wf(),
                spec_apply_response(old(self)@, response@, now as int) == spec_apply_response(
                    self@,
                    response@.skip(i as int),
                    now as int,
                ),
            decreases n - i,
        {
            proof {
                assert(response@.skip(i as int)[0] == response@[i as int]);
                assert(response@.skip(i as int).drop_first() =~= response@.skip(i as int + 1));
            }
            let c = response.cookies[i].clone();
            let expired = match c.expires_at {
                Some(t) => t <= now,
                None => false,
            };
            if expired {
                let name_owned = c.name.clone();
                self.remove(name_owned.as_str());
            } else {
                self.add(c);
            }
            i = i + 1;
        }
        proof {
            assert(response@.skip(n as int) =~= Seq::<CookieV>::empty());
        }
    }
}

/// A response jar applied to a client jar, cookie by cookie: a cookie
/// already expired at `now` deletes its name, any other replaces it.
pub open spec fn spec_apply_response(client: Seq<CookieV>, response: Seq<CookieV>, now: int) -> Seq<
    CookieV,
>
    decreases response.len(),
{
    if response.len() == 0 {
        client
    } else {
        let c = response[0];
        let expired = match c.expires_at {
            Some(t) => t <= now,
            None => false,
        };
        let client1 = if expired {
            spec_keep_cookies(client, |x: CookieV| x.name != c.name)
        } else {
            spec_keep_cookies(client, |x: CookieV| x.name != c.name).push(c)
        };
        spec_apply_response(client1, response.drop_first(), now)
    }
}

/// The tombstone cookie: same name and path as the session cookie, an
/// empty value, and an expiry at the Unix epoch, so the client drops it.
pub open spec fn spec_wiped_cookie() -> CookieV {
    CookieV {
        name: spec_session_cookie_name(),
        value: Seq::<char>::empty(),
        path: "/"@,
        http_only: true,
        secure: true,
        same_site_strict: true,
        expires_at: Some(0),
    }
}

/// The jar a logout or failed login responds with: the tombstone alone.
pub open spec fn spec_wiped_jar() -> Seq<CookieV> {
    seq![spec_wiped_cookie()]
}

/// A jar holding only the already-expired blank session cookie, which
/// forces the client to drop its session cookie on the next response.
pub fn get_wiped_cookie_jar() -> (jar: CookieJar)
    ensures
        jar.wf(),
        jar@ == spec_wiped_jar(),
{
    let mut regular = CookieJar::new();
    let mut session_cookie = Cookie {
        name: session_cookie_name().to_owned(),
        value: String::new(),
        path: "/".to_owned(),
        http_only: false,
        secure: false,
        same_site_strict: false,
        expires_at: Some(0),
    };
    set_cookie_security(&mut session_cookie);
    regular.add(session_cookie);
    proof {
        assert(regular@ =~= spec_wiped_jar());
    }
    regular
}

impl Session {
    /// Seals this session's id into the session cookie and sets it on
    /// the jar, replacing any cookie of that name.  The cookie carries
    /// the session's expiry and the standard security attributes.
    pub fn apply_cookies(&self, key: &[u8], private: CookieJar) -> (r: CookieJar)
        requires
            key@.len() >= 64,
            private.wf(),
        ensures
            r.wf(),
            r@.len() >= 1,
            r@ == spec_keep_cookies(
                private@,
                |c: CookieV| c.name != spec_session_cookie_name(),
            ).push(r@.last()),
            ({
                let cv = r@.last();
                cv.name == spec_session_cookie_name() && unseal_of(
                    key@,
                    spec_session_cookie_name(),
                    cv.value,
                ) == Some(spec_i32_string(self@.id)) && cv.path == "/"@ && cv.http_only
                    && cv.secure && cv.same_site_strict && cv.expires_at == Some(self@.expires_at)
            }),
    {
        let payload = crate::numstr::i32_to_string(self.id);
        let sealed = seal_value(key, session_cookie_name(), payload.as_str());
        let mut session_cookie = Cookie {
            name: session_cookie_name().to_owned(),
            value: sealed,
            path: "/".to_owned(),
            http_only: false,
            secure: false,
            same_site_strict: false,
            expires_at: Some(self.expires_at),
        };
        set_cookie_security(&mut session_cookie);
        let mut private = private;
        private.add(session_cookie);
        private
    }
}

/// What reading the session cookie back yields: no cookie at all, a
/// cookie that fails authentication or whose payload is not a session
/// id, or the embedded session id.
#[derive(Clone, Copy, PartialEq, Eq, Structural, Debug)]
pub enum DecodeOutcome {
    Absent,
    Invalid,
    SessionId(i32),
}

pub open spec fn spec_decode(key: Seq<u8>, jar: Seq<CookieV>) -> DecodeOutcome {
    match spec_jar_get(jar, spec_session_cookie_name()) {
        None => DecodeOutcome::Absent,
        Some(c) => match unseal_of(key, spec_session_cookie_name(), c.value) {
            None => DecodeOutcome::Invalid,
            Some(payload) => match spec_parse_i32(payload) {
                None => DecodeOutcome::Invalid,
                Some(id) => DecodeOutcome::SessionId(id),
            },
        },
    }
}

/// Reads the session id back out of a jar.  `Absent` exactly when no
/// session cookie is present; `Invalid` when one is present but fails to
/// authenticate or does not carry a session id — a wiped (tombstone)
/// cookie in particular never authenticates.
pub fn decode(key: &[u8], jar: &CookieJar) -> (r: DecodeOutcome)
    requires
        key@.len() >= 64,
    ensures
        r == spec_decode(key@, jar@),
        spec_jar_get(jar@, spec_session_cookie_name()) is None ==> r == DecodeOutcome::Absent,
        jar@ == spec_wiped_jar() ==> r == DecodeOutcome::Invalid,
{
    match jar.get(session_cookie_name()) {
        None => DecodeOutcome::Absent,
        Some(c) => {
            proof {
                if jar@ == spec_wiped_jar() {
                    assert(spec_jar_get(jar@, spec_session_cookie_name()) == Some(
                        spec_wiped_cookie(),
                    ));
                }
            }
            match unseal_value(key, session_cookie_name(), c.value.as_str()) {
                None => DecodeOutcome::Invalid,
                Some(payload) => {
                    match parse_i32(payload.as_str()) {
                        None => DecodeOutcome::Invalid,
                        Some(id) => DecodeOutcome::SessionId(id),
                    }
                },
            }
        },
    }
}

/// Law: a jar whose session cookie unseals to the decimal rendering of
/// `sid` decodes to exactly that session id — the codec round-trips.
pub proof fn lemma_decode_encode(key: Seq<u8>, jar: Seq<CookieV>, sid: i32)
    requires
        spec_jar_get(jar, spec_session_cookie_name()) matches Some(cv) && unseal_of(
            key,
            spec_session_cookie_name(),
            cv.value,
        ) == Some(spec_i32_string(sid as int)),
    ensures
        spec_decode(key, jar) == DecodeOutcome::SessionId(sid),
{
    crate::numstr::lemma_i32_string_round_trip(sid);
}

/// Law: applying the logout (wiped) response leaves the client without a
/// session cookie, and applying it a second time changes nothing more —
/// logout is idempotent.
pub proof fn lemma_wipe_idempotent(client: Seq<CookieV>, now: int)
    requires
        0 <= now,
    ensures
        spec_jar_get(
            spec_apply_response(client, spec_wiped_jar(), now),
            spec_session_cookie_name(),
        ) is None,
        spec_apply_response(
            spec_apply_response(client, spec_wiped_jar(), now),
            spec_wiped_jar(),
            now,
        ) == spec_apply_response(client, spec_wiped_jar(), now),
{
    let w = spec_wiped_jar();
    let c = w[0];
    let pred = |x: CookieV| x.name != c.name;
    let once = spec_keep_cookies(client, pred);
    assert(c == spec_wiped_cookie());
    assert(w.drop_first() =~= Seq::<CookieV>::empty());
    assert(spec_apply_response(once, Seq::<CookieV>::empty(), now) == once);
    assert(spec_apply_response(client, w, now) == once);
    lemma_keep_cookies_props(client, pred);
    assert forall|i: int| 0 <= i < once.len() implies (#[trigger] once[i]).name
        != spec_session_cookie_name() by {
        assert(pred(once[i]));
    }
    lemma_jar_get_absent(once, spec_session_cookie_name());
    lemma_keep_cookies_all(once, pred);
    assert(spec_keep_cookies(once, pred) == once);
    assert(spec_apply_response(once, w, now) == once);
}

/// Why reading the session cookie failed.  A missing cookie and one that
/// fails to authenticate are deliberately the same variant, and every
/// variant renders as the same unauthenticated status, so the reasons
/// are indistinguishable downstream.
#[derive(Clone, Copy, PartialEq, Eq, Structural, Debug)]
pub enum CookieAuthError {
    /// No session cookie was presented, or the presented one failed to
    /// authenticate.
    NoSessionCookie,
    /// The unsealed payload is not a session id.
    NotI32,
    /// The store could not resolve the session.
    DBError(DBError),
}

impl CookieAuthError {
    pub open spec fn spec_status_code(&self) -> u16 {
        match *self {
            CookieAuthError::NoSessionCookie => 401u16,
            CookieAuthError::NotI32 => 401u16,
            CookieAuthError::DBError(e) => e.spec_status_code(),
        }
    }

    pub fn status_code(&self) -> (c: u16)
        ensures
            c == self.spec_status_code(),
    {
        match *self {
            CookieAuthError::NoSessionCookie => 401,
            CookieAuthError::NotI32 => 401,
            CookieAuthError::DBError(e) => e.status_code(),
        }
    }
}

/// Outcome of authenticating a request by its cookies: the session and
/// user the cookie resolves to, or the first failure along the way.
pub open spec fn spec_cookie_auth(
    key: Seq<u8>,
    users: Seq<UserV>,
    sessions: Seq<SessionV>,
    now: int,
    jar: Seq<CookieV>,
) -> Result<(SessionV, UserV), CookieAuthError> {
    match spec_jar_get(jar, spec_session_cookie_name()) {
        None => Err(CookieAuthError::NoSessionCookie),
        Some(c) => match unseal_of(key, spec_session_cookie_name(), c.value) {
            None => Err(CookieAuthError::NoSessionCookie),
            Some(payload) => match spec_parse_i32(payload) {
                None => Err(CookieAuthError::NotI32),
                Some(id) => match crate::db::spec_get_session(users, sessions, now, id as int) {
                    Err(e) => Err(CookieAuthError::DBError(e)),
                    Ok(p) => Ok(p),
                },
            },
        },
    }
}

/// Resolves the session cookie of a request jar to the session and user
/// it stands for: unseal, parse the id, then look the session up with
/// its expiry checked at `now`.
pub fn session_and_user_from_cookies(key: &[u8], db: &Db, now: i64, jar: &CookieJar) -> (r: Result<
    (Session, User),
    CookieAuthError,
>)
    requires
        key@.len() >= 64,
    ensures
        ({
            let m = spec_cookie_auth(key@, db.users@, db.sessions@, now as int, jar@);
            match r {
                Ok(p) => m matches Ok(mp) && mp.0 == p.0@ && mp.1 == p.1@,
                Err(e) => m == Err::<(SessionV, UserV), CookieAuthError>(e),
            }
        }),
        (spec_jar_get(jar@, spec_session_cookie_name()) matches Some(c) && c.value.len() == 0
            ==> r == Err::<(Session, User), CookieAuthError>(CookieAuthError::NoSessionCookie)),
{
    let session_cookie = match jar.get(session_cookie_name()) {
        None => {
            return Err(CookieAuthError::NoSessionCookie);
        },
        Some(c) => c,
    };
    let payload = match unseal_value(key, session_cookie_name(), session_cookie.value.as_str()) {
        None => {
            return Err(CookieAuthError::NoSessionCookie);
        },
        Some(p) => p,
    };
    let session_id = match parse_i32(payload.as_str()) {
        None => {
            return Err(CookieAuthError::NotI32);
        },
        Some(id) => id,
    };
    match get_session(db, now, session_id) {
        Ok(p) => Ok(p),
        Err(e) => Err(CookieAuthError::DBError(e)),
    }
}

} // verus!
