//! Sessions, and the procedure that settles who a request comes from.
//!
//! The procedure runs as a state machine: [`SessionManager::authenticate`]
//! reads the request and either settles it or asks the caller to look up a
//! bearer token or to check a login; the caller then hands the answer to
//! [`token_outcome`] or [`login_outcome`].

use vstd::prelude::*;
use vstd::string::*;

use crate::external::{base64_decoded, decode_base64, string_from_utf8};
use crate::permissions::UserModel;
use crate::text::{
    chars_eq, chars_of, split_exact, split_first, split_once_exact, split_once_first,
};
use vstd::utf8::{decode_utf8, valid_utf8};

verus! {

/// How long a new or renewed session lasts, in seconds.
pub const SESSION_LIFETIME: u64 = 86400;

/// A login session behind an opaque cookie token; `user_id` is `None` until
/// someone logs in. `expiration` is in seconds since the Unix epoch.
#[derive(Debug)]
pub struct Session {
    pub token: String,
    pub user_id: Option<i64>,
    pub expiration: u64,
}

impl Clone for Session {
    fn clone(&self) -> (r: Self)
        ensures
            r == *self,
    {
        Session { token: self.token.clone(), user_id: self.user_id, expiration: self.expiration }
    }
}

/// A long-lived bearer credential of a user.
#[derive(Clone, Debug)]
pub struct AuthToken {
    pub token: String,
    pub user_id: i64,
}

/// Who a request comes from.
#[derive(Clone, Debug)]
pub enum Authentication {
    Session(Session),
    AuthToken(AuthToken),
    Basic(UserModel),
    /// An `Authorization` header of another scheme: the scheme and the value.
    AuthorizationHeaderUnknown(String, String),
    NoIdentification,
}

/// What a request carries that identifies its sender.
#[derive(Clone, Debug)]
pub struct AuthRequest {
    pub is_options: bool,
    pub session_cookie: Option<String>,
    pub authorization: Option<String>,
    pub has_origin: bool,
}

/// Where the procedure stands after reading a request.
#[derive(Clone, Debug)]
pub enum AuthStep {
    /// A pre-flight request: it passes unauthenticated.
    PassThrough,
    /// Settled; a session to set as a cookie on the response, if any.
    Settled(Authentication, Option<Session>),
    /// Look this bearer token up, then call [`token_outcome`].
    LookupToken(String),
    /// Check this username and password, then call [`login_outcome`].
    VerifyLogin(String, String),
}

/// A header that could not be decoded.
#[derive(Debug)]
pub enum BadRequestErrors {
    Base64DecodeError(base64::DecodeError),
    InvalidUTF8,
    InvalidAuthorizationHeader(InvalidAuthorizationHeader),
    Other(String),
}

/// What is wrong with an `Authorization` header.
#[derive(Clone, Copy, Debug, PartialEq, Eq, Structural)]
pub enum InvalidAuthorizationHeader {
    InvalidScheme,
    InvalidValue,
    InvalidFormat,
    InvalidBasicValue,
}

/// The `Set-Cookie` that hands a session to the client.
#[derive(Clone, Debug)]
pub struct SessionCookie {
    pub name: String,
    pub value: String,
    pub secure: bool,
    pub same_site_lax: bool,
    pub path: String,
    pub expires: u64,
}

/// The sessions that the server knows, by token.
pub struct SessionManager {
    sessions: Vec<Session>,
}

/// The first session at or after `i` whose token is `t`.
pub open spec fn lookup_from(s: Seq<Session>, t: Seq<char>, i: int) -> Option<Session>
    decreases s.len() - i,
{
    if i < 0 || i >= s.len() {
        None
    } else if s[i].token@ == t {
        Some(s[i])
    } else {
        lookup_from(s, t, i + 1)
    }
}

proof fn lemma_lookup_skip(s: Seq<Session>, t: Seq<char>, j: int, i: int)
    requires
        0 <= j <= i <= s.len(),
        forall|k: int| j <= k < i ==> s[k].token@ != t,
    ensures
        lookup_from(s, t, j) == lookup_from(s, t, i),
    decreases i - j,
{
    if j < i {
        lemma_lookup_skip(s, t, j + 1, i);
    }
}

/// Whether a session has run out at time `now`.
pub open spec fn expired(s: Session, now: u64) -> bool {
    s.expiration <= now
}

/// A session renewed at `now`: same token and user, a fresh expiration.
pub open spec fn renewed(s: Session, now: u64) -> Session {
    Session { token: s.token, user_id: s.user_id, expiration: (now + SESSION_LIFETIME) as u64 }
}

/// A new anonymous session.
pub open spec fn fresh(token: String, now: u64) -> Session {
    Session { token, user_id: None, expiration: (now + SESSION_LIFETIME) as u64 }
}

pub open spec fn bearer() -> Seq<char> {
    seq!['B', 'e', 'a', 'r', 'e', 'r']
}

pub open spec fn basic() -> Seq<char> {
    seq!['B', 'a', 's', 'i', 'c']
}

pub open spec fn token_user() -> Seq<char> {
    seq!['t', 'o', 'k', 'e', 'n']
}

/// The step that a `Basic` credential, decoded to `text`, leads to: it is
/// cut at its first `:` into user and password.
pub open spec fn basic_step(text: Seq<char>, step: AuthStep) -> bool {
    match split_first(text, ':') {
        None => step matches AuthStep::Settled(Authentication::NoIdentification, None),
        Some(p) => if p.0 == token_user() {
            step matches AuthStep::LookupToken(t) && t@ == p.1
        } else {
            step matches AuthStep::VerifyLogin(u, w) && u@ == p.0 && w@ == p.1
        },
    }
}

/// The step that an `Authorization` header leads to, or the decoding error.
pub open spec fn header_step(h: Seq<char>, r: Result<AuthStep, BadRequestErrors>) -> bool {
    match split_exact(h, ' ') {
        None => r matches Ok(AuthStep::Settled(Authentication::NoIdentification, None)),
        Some(p) => if p.0 == bearer() {
            r matches Ok(AuthStep::LookupToken(t)) && t@ == p.1
        } else if p.0 == basic() {
            match base64_decoded(p.1) {
                None => r matches Err(BadRequestErrors::Base64DecodeError(_)),
                Some(b) => if valid_utf8(b) {
                    r matches Ok(step) && basic_step(decode_utf8(b), step)
                } else {
                    r matches Err(BadRequestErrors::InvalidUTF8)
                },
            }
        } else {
            r matches Ok(
                AuthStep::Settled(Authentication::AuthorizationHeaderUnknown(s, v), None),
            ) && s@ == p.0 && v@ == p.1
        },
    }
}

/// What a request whose session cookie found `found` settles to, where
/// `fresh` is the session to create for it: a known session is used as it
/// is, unless it has expired, when it is renewed and handed out again; an
/// unknown one starts a new session only where the request has an `Origin`.
pub open spec fn cookie_step(found: Option<Session>, has_origin: bool, fresh: Session, now: u64) -> AuthStep {
    match found {
        Some(s) => if expired(s, now) {
            AuthStep::Settled(Authentication::Session(renewed(s, now)), Some(renewed(s, now)))
        } else {
            AuthStep::Settled(Authentication::Session(s), None)
        },
        None => if has_origin {
            AuthStep::Settled(Authentication::Session(fresh), Some(fresh))
        } else {
            AuthStep::Settled(Authentication::NoIdentification, None)
        },
    }
}

/// What a request with neither a session cookie nor an `Authorization`
/// header settles to.
pub open spec fn anonymous_step(has_origin: bool, fresh: Session) -> AuthStep {
    if has_origin {
        AuthStep::Settled(Authentication::Session(fresh), Some(fresh))
    } else {
        AuthStep::Settled(Authentication::NoIdentification, None)
    }
}

proof fn lemma_lookup_from_token(s: Seq<Session>, t: Seq<char>, i: int)
    ensures
        lookup_from(s, t, i) matches Some(x) ==> x.token@ == t,
    decreases s.len() - i,
{
    if 0 <= i < s.len() && s[i].token@ != t {
        lemma_lookup_from_token(s, t, i + 1);
    }
}

proof fn lemma_lookup_push(s: Seq<Session>, x: Session, t: Seq<char>, j: int)
    requires
        0 <= j <= s.len(),
        x.token@ != t,
    ensures
        lookup_from(s.push(x), t, j) == lookup_from(s, t, j),
    decreases s.len() - j,
{
    if j < s.len() {
        lemma_lookup_push(s, x, t, j + 1);
    } else {
        assert(lookup_from(s.push(x), t, j + 1) is None);
    }
}

proof fn lemma_lookup_update(s: Seq<Session>, i: int, x: Session, t: Seq<char>, j: int)
    requires
        0 <= j <= s.len(),
        0 <= i < s.len(),
        x.token@ == s[i].token@,
        s[i].token@ != t,
    ensures
        lookup_from(s.update(i, x), t, j) == lookup_from(s, t, j),
    decreases s.len() - j,
{
    if j < s.len() {
        lemma_lookup_update(s, i, x, t, j + 1);
    }
}

/// A session that has run out is renewed on its next use: the renewed one
/// keeps the token and the user and runs out later than `now`, so later than
/// before. One that has not run out is used as it is, with no new cookie.
pub proof fn lemma_session_rotation(s: Session, has_origin: bool, fresh: Session, now: u64)
    requires
        now <= u64::MAX - SESSION_LIFETIME,
    ensures
        expired(s, now) ==> cookie_step(Some(s), has_origin, fresh, now) == AuthStep::Settled(
            Authentication::Session(renewed(s, now)),
            Some(renewed(s, now)),
        ) && renewed(s, now).token == s.token && renewed(s, now).user_id == s.user_id
            && renewed(s, now).expiration > now && renewed(s, now).expiration != s.expiration,
        !expired(s, now) ==> cookie_step(Some(s), has_origin, fresh, now) == AuthStep::Settled(
            Authentication::Session(s),
            None,
        ),
{
}

/// A request whose cookie names a session that has run out settles to a
/// renewed session under the cookie's own token, running out later than
/// `now`, and hands that session back as a cookie.
pub proof fn lemma_cookie_rotation(
    m: SessionManager,
    c: Seq<char>,
    has_origin: bool,
    fresh: Session,
    now: u64,
)
    requires
        now <= u64::MAX - SESSION_LIFETIME,
        m.lookup(c) matches Some(s) && expired(s, now),
    ensures
        cookie_step(m.lookup(c), has_origin, fresh, now) matches AuthStep::Settled(
            Authentication::Session(n),
            Some(k),
        ) && n == k && n.token@ == c && n.expiration > now,
{
    m.lemma_lookup_token(c);
}

impl SessionManager {
    /// The session whose token is `t`.
    pub closed spec fn lookup(&self, t: Seq<char>) -> Option<Session> {
        lookup_from(self.sessions@, t, 0)
    }

    /// A manager that knows no session.
    pub fn new() -> (r: SessionManager)
        ensures
            forall|t: Seq<char>| r.lookup(t) is None,
    {
        SessionManager { sessions: Vec::new() }
    }

    /// The position of the session whose token is `token`.
    fn position(&self, token: &str) -> (r: Option<usize>)
        ensures
            match r {
                Some(i) => i < self.sessions@.len() && self.sessions@[i as int].token@ == token@
                    && forall|k: int| 0 <= k < i ==> self.sessions@[k].token@ != token@,
                None => forall|k: int|
                    0 <= k < self.sessions@.len() ==> self.sessions@[k].token@ != token@,
            },
    {
        let t = chars_of(token);
        let mut i: usize = 0;
        while i < self.sessions.len()
            invariant
                i <= self.sessions@.len(),
                t@ == token@,
                forall|k: int| 0 <= k < i ==> self.sessions@[k].token@ != token@,
            decreases self.sessions@.len() - i,
        {
            if chars_eq(&chars_of(self.sessions[i].token.as_str()), &t) {
                return Some(i);
            }
            i = i + 1;
        }
        None
    }

    /// A session found under a token carries that token.
    pub proof fn lemma_lookup_token(&self, t: Seq<char>)
        ensures
            self.lookup(t) matches Some(s) ==> s.token@ == t,
    {
        lemma_lookup_from_token(self.sessions@, t, 0);
    }

    /// The session whose token is `token`.
    pub fn retrieve_session(&self, token: &str) -> (r: Option<Session>)
        ensures
            r == self.lookup(token@),
            r matches Some(s) ==> s.token@ == token@,
    {
        proof {
            lemma_lookup_from_token(self.sessions@, token@, 0);
        }
        match self.position(token) {
            Some(i) => {
                proof {
                    lemma_lookup_skip(self.sessions@, token@, 0, i as int);
                }
                Some(self.sessions[i].clone())
            },
            None => {
                proof {
                    lemma_lookup_skip(self.sessions@, token@, 0, self.sessions@.len() as int);
                }
                None
            },
        }
    }

    /// Starts an anonymous session under `token`, unless that token is taken.
    pub fn create_session(&mut self, token: String, now: u64) -> (r: Option<Session>)
        requires
            now <= u64::MAX - SESSION_LIFETIME,
        ensures
            old(self).lookup(token@) is Some ==> r is None && final(self).lookup(token@) == old(self).lookup(token@),
            old(self).lookup(token@) is None ==> r == Some(fresh(token, now)) && final(self).lookup(
                token@,
            ) == r,
            forall|t: Seq<char>| t != token@ ==> final(self).lookup(t) == old(self).lookup(t),
    {
        match self.position(token.as_str()) {
            Some(i) => {
                proof {
                    lemma_lookup_skip(self.sessions@, token@, 0, i as int);
                }
                None
            },
            None => {
                proof {
                    lemma_lookup_skip(self.sessions@, token@, 0, self.sessions@.len() as int);
                }
                let s = Session { token, user_id: None, expiration: now + SESSION_LIFETIME };
                let ghost before = self.sessions@;
                self.sessions.push(s.clone());
                proof {
                    assert(self.sessions@ == before.push(s));
                    lemma_lookup_skip(self.sessions@, s.token@, 0, before.len() as int);
                    assert forall|t: Seq<char>| t != s.token@ implies lookup_from(
                        self.sessions@,
                        t,
                        0,
                    ) == lookup_from(before, t, 0) by {
                        lemma_lookup_push(before, s, t, 0);
                    }
                }
                Some(s)
            },
        }
    }

    /// Renews the session under `token` at `now`: same token and user, a
    /// fresh expiration.
    pub fn re_create_session(&mut self, token: &str, now: u64) -> (r: Option<Session>)
        requires
            now <= u64::MAX - SESSION_LIFETIME,
        ensures
            match old(self).lookup(token@) {
                Some(s) => r == Some(renewed(s, now)),
                None => r is None,
            },
            r is Some ==> final(self).lookup(token@) == r,
            r matches Some(n) ==> n.token@ == token@,
            forall|t: Seq<char>| t != token@ ==> final(self).lookup(t) == old(self).lookup(t),
            r is None ==> final(self).lookup(token@) == old(self).lookup(token@),
    {
        match self.position(token) {
            Some(i) => {
                proof {
                    lemma_lookup_skip(self.sessions@, token@, 0, i as int);
                }
                let old_s = self.sessions[i].clone();
                let s = Session {
                    token: old_s.token,
                    user_id: old_s.user_id,
                    expiration: now + SESSION_LIFETIME,
                };
                let ghost before = self.sessions@;
                self.sessions.set(i, s.clone());
                proof {
                    assert(self.sessions@ == before.update(i as int, s));
                    lemma_lookup_skip(self.sessions@, token@, 0, i as int);
                    assert forall|t: Seq<char>| t != token@ implies lookup_from(
                        self.sessions@,
                        t,
                        0,
                    ) == lookup_from(before, t, 0) by {
                        lemma_lookup_update(before, i as int, s, t, 0);
                    }
                }
                Some(s)
            },
            None => {
                proof {
                    lemma_lookup_skip(self.sessions@, token@, 0, self.sessions@.len() as int);
                }
                None
            },
        }
    }

    /// Settles who a request comes from, or says what to look up next.
    /// `fresh_token`, an unused token, names the session that the request
    /// starts, if it starts one.
    pub fn authenticate(&mut self, req: &AuthRequest, now: u64, fresh_token: String) -> (r: Result<
        AuthStep,
        BadRequestErrors,
    >)
        requires
            now <= u64::MAX - SESSION_LIFETIME,
            old(self).lookup(fresh_token@) is None,
        ensures
            req.is_options ==> (r matches Ok(AuthStep::PassThrough)) && *final(self) == *old(self),
            !req.is_options ==> match req.session_cookie {
                Some(c) => r == Ok::<AuthStep, BadRequestErrors>(
                    cookie_step(old(self).lookup(c@), req.has_origin, fresh(fresh_token, now), now),
                ),
                None => match req.authorization {
                    Some(h) => header_step(h@, r) && *final(self) == *old(self),
                    None => r == Ok::<AuthStep, BadRequestErrors>(
                        anonymous_step(req.has_origin, fresh(fresh_token, now)),
                    ),
                },
            },
            r matches Ok(AuthStep::Settled(_, Some(s))) ==> final(self).lookup(s.token@) == Some(s),
            forall|t: Seq<char>|
                t != fresh_token@ && (req.session_cookie matches Some(c) ==> t != c@) ==> final(self).lookup(t) == old(self).lookup(t),
    {
        if req.is_options {
            return Ok(AuthStep::PassThrough);
        }
        match &req.session_cookie {
            Some(c) => match self.retrieve_session(c.as_str()) {
                Some(s) => {
                    if s.expiration <= now {
                        match self.re_create_session(c.as_str(), now) {
                            Some(n) => Ok(
                                AuthStep::Settled(Authentication::Session(n.clone()), Some(n)),
                            ),
                            None => Ok(AuthStep::Settled(Authentication::NoIdentification, None)),
                        }
                    } else {
                        Ok(AuthStep::Settled(Authentication::Session(s), None))
                    }
                },
                None => Ok(self.start_anonymous(req.has_origin, fresh_token, now)),
            },
            None => match &req.authorization {
                Some(h) => header_step_of(h.as_str()),
                None => Ok(self.start_anonymous(req.has_origin, fresh_token, now)),
            },
        }
    }

    /// A new anonymous session where the request has an `Origin`, else no
    /// identification.
    fn start_anonymous(&mut self, has_origin: bool, fresh_token: String, now: u64) -> (r: AuthStep)
        requires
            now <= u64::MAX - SESSION_LIFETIME,
            old(self).lookup(fresh_token@) is None,
        ensures
            r == anonymous_step(has_origin, fresh(fresh_token, now)),
            r matches AuthStep::Settled(_, Some(s)) ==> final(self).lookup(s.token@) == Some(s),
            forall|t: Seq<char>| t != fresh_token@ ==> final(self).lookup(t) == old(self).lookup(t),
    {
        if has_origin {
            match self.create_session(fresh_token, now) {
                Some(s) => AuthStep::Settled(Authentication::Session(s.clone()), Some(s)),
                None => AuthStep::Settled(Authentication::NoIdentification, None),
            }
        } else {
            AuthStep::Settled(Authentication::NoIdentification, None)
        }
    }
}

/// Whether `s` is the literal `lit`.
fn is_literal(s: &str, lit: &str) -> (r: bool)
    ensures
        r == (s@ == lit@),
{
    chars_eq(&chars_of(s), &chars_of(lit))
}

/// The step that a `Basic` credential, decoded to `text`, leads to: the
/// text is cut at its first `:` into user and password, and the user
/// `token` hands its password over as a bearer token.
pub fn basic_step_of(text: &str) -> (r: AuthStep)
    ensures
        basic_step(text@, r),
{
    match split_once_first(text, ':') {
        None => AuthStep::Settled(Authentication::NoIdentification, None),
        Some((user, password)) => {
            let is_token = is_literal(user.as_str(), "token");
            proof {
                reveal_strlit("token");
                assert("token"@ =~= token_user());
            }
            if is_token {
                AuthStep::LookupToken(password)
            } else {
                AuthStep::VerifyLogin(user, password)
            }
        },
    }
}

/// The step that an `Authorization` header leads to: `Bearer <token>`,
/// `Basic base64(user:password)`, or another scheme, which is passed on.
pub fn header_step_of(h: &str) -> (r: Result<AuthStep, BadRequestErrors>)
    ensures
        header_step(h@, r),
{
    match split_once_exact(h, ' ') {
        None => Ok(AuthStep::Settled(Authentication::NoIdentification, None)),
        Some((scheme, value)) => {
            proof {
                reveal_strlit("Bearer");
                reveal_strlit("Basic");
                assert("Bearer"@ =~= bearer());
                assert("Basic"@ =~= basic());
            }
            if is_literal(scheme.as_str(), "Bearer") {
                Ok(AuthStep::LookupToken(value))
            } else if is_literal(scheme.as_str(), "Basic") {
                match decode_base64(value.as_str()) {
                    Err(e) => Err(BadRequestErrors::Base64DecodeError(e)),
                    Ok(bytes) => match string_from_utf8(bytes) {
                        None => Err(BadRequestErrors::InvalidUTF8),
                        Some(text) => Ok(basic_step_of(text.as_str())),
                    },
                }
            } else {
                Ok(
                    AuthStep::Settled(
                        Authentication::AuthorizationHeaderUnknown(scheme, value),
                        None,
                    ),
                )
            }
        },
    }
}

/// Settles a request after its bearer token was looked up.
pub fn token_outcome(found: Option<AuthToken>) -> (r: Authentication)
    ensures
        match found {
            Some(t) => r == Authentication::AuthToken(t),
            None => r is NoIdentification,
        },
{
    match found {
        Some(t) => Authentication::AuthToken(t),
        None => Authentication::NoIdentification,
    }
}

/// Settles a request after its username and password were checked.
pub fn login_outcome(user: Option<UserModel>) -> (r: Authentication)
    ensures
        match user {
            Some(u) => r == Authentication::Basic(u),
            None => r is NoIdentification,
        },
{
    match user {
        Some(u) => Authentication::Basic(u),
        None => Authentication::NoIdentification,
    }
}

/// The cookie that hands a session to the client: named `session`, not
/// secure-only, `SameSite=Lax`, path `/`, expiring with the session.
pub fn session_cookie(session: &Session) -> (r: SessionCookie)
    ensures
        r.name@ == seq!['s', 'e', 's', 's', 'i', 'o', 'n'],
        r.value@ == session.token@,
        !r.secure,
        r.same_site_lax,
        r.path@ == seq!['/'],
        r.expires == session.expiration,
{
    proof {
        reveal_strlit("session");
        reveal_strlit("/");
    }
    let name = String::from_str("session");
    let path = String::from_str("/");
    assert(name@ =~= seq!['s', 'e', 's', 's', 'i', 'o', 'n']);
    assert(path@ =~= seq!['/']);
    SessionCookie {
        name,
        value: session.token.clone(),
        secure: false,
        same_site_lax: true,
        path,
        expires: session.expiration,
    }
}

} // verus!
