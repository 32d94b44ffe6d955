use nitro_repo::auth::{
    header_step_of, login_outcome, session_cookie, token_outcome, AuthRequest, AuthStep,
    AuthToken, Authentication, BadRequestErrors, SessionManager, SESSION_LIFETIME,
};

fn request(cookie: Option<&str>, authorization: Option<&str>, origin: bool) -> AuthRequest {
    AuthRequest {
        is_options: false,
        session_cookie: cookie.map(|s| s.to_string()),
        authorization: authorization.map(|s| s.to_string()),
        has_origin: origin,
    }
}

#[test]
fn expired_session_is_renewed_with_cookie() {
    let mut m = SessionManager::new();
    let s = m.create_session("tok".to_string(), 100).unwrap();
    assert_eq!(s.expiration, 100 + SESSION_LIFETIME);
    let now = s.expiration;
    match m.authenticate(&request(Some("tok"), None, false), now, "fresh".to_string()) {
        Ok(AuthStep::Settled(Authentication::Session(n), Some(c))) => {
            assert_eq!(n.token, "tok");
            assert_eq!(n.user_id, None);
            assert_eq!(n.expiration, now + SESSION_LIFETIME);
            assert!(n.expiration > now);
            assert_eq!(c.token, "tok");
        }
        other => panic!("unexpected {:?}", other),
    }
    assert_eq!(m.retrieve_session("tok").unwrap().expiration, now + SESSION_LIFETIME);
}

#[test]
fn valid_session_is_used_without_cookie() {
    let mut m = SessionManager::new();
    m.create_session("tok".to_string(), 100).unwrap();
    match m.authenticate(&request(Some("tok"), None, true), 150, "fresh".to_string()) {
        Ok(AuthStep::Settled(Authentication::Session(s), None)) => {
            assert_eq!(s.token, "tok");
            assert_eq!(s.expiration, 100 + SESSION_LIFETIME);
        }
        other => panic!("unexpected {:?}", other),
    }
}

#[test]
fn unknown_cookie_with_origin_starts_session() {
    let mut m = SessionManager::new();
    match m.authenticate(&request(Some("gone"), None, true), 10, "fresh".to_string()) {
        Ok(AuthStep::Settled(Authentication::Session(s), Some(c))) => {
            assert_eq!(s.token, "fresh");
            assert_eq!(c.token, "fresh");
            assert_eq!(s.user_id, None);
        }
        other => panic!("unexpected {:?}", other),
    }
    assert!(m.retrieve_session("fresh").is_some());
}

#[test]
fn unknown_cookie_without_origin_is_anonymous() {
    let mut m = SessionManager::new();
    let r = m.authenticate(&request(Some("gone"), None, false), 10, "fresh".to_string());
    assert!(matches!(r, Ok(AuthStep::Settled(Authentication::NoIdentification, None))));
    assert!(m.retrieve_session("fresh").is_none());
}

#[test]
fn no_credentials() {
    let mut m = SessionManager::new();
    let r = m.authenticate(&request(None, None, false), 10, "fresh".to_string());
    assert!(matches!(r, Ok(AuthStep::Settled(Authentication::NoIdentification, None))));
    let r = m.authenticate(&request(None, None, true), 10, "fresh".to_string());
    assert!(matches!(r, Ok(AuthStep::Settled(Authentication::Session(_), Some(_)))));
}

#[test]
fn options_pass_through() {
    let mut m = SessionManager::new();
    let mut req = request(Some("tok"), Some("Bearer x"), true);
    req.is_options = true;
    assert!(matches!(m.authenticate(&req, 1, "f".to_string()), Ok(AuthStep::PassThrough)));
}

#[test]
fn bearer_header() {
    match header_step_of("Bearer abc123") {
        Ok(AuthStep::LookupToken(t)) => assert_eq!(t, "abc123"),
        other => panic!("unexpected {:?}", other),
    }
}

#[test]
fn basic_token_alias() {
    match header_step_of("Basic dG9rZW46c2VjcmV0") {
        Ok(AuthStep::LookupToken(t)) => assert_eq!(t, "secret"),
        other => panic!("unexpected {:?}", other),
    }
}

#[test]
fn basic_login() {
    match header_step_of("Basic YWxpY2U6cHc=") {
        Ok(AuthStep::VerifyLogin(u, p)) => {
            assert_eq!(u, "alice");
            assert_eq!(p, "pw");
        }
        other => panic!("unexpected {:?}", other),
    }
}

#[test]
fn basic_without_colon() {
    assert!(matches!(
        header_step_of("Basic bm9jb2xvbg=="),
        Ok(AuthStep::Settled(Authentication::NoIdentification, None))
    ));
}

#[test]
fn basic_password_with_colon() {
    match header_step_of("Basic YTpiOmM=") {
        Ok(AuthStep::VerifyLogin(u, p)) => {
            assert_eq!(u, "a");
            assert_eq!(p, "b:c");
        }
        other => panic!("unexpected {:?}", other),
    }
}

#[test]
fn basic_bad_base64() {
    assert!(matches!(header_step_of("Basic %%%"), Err(BadRequestErrors::Base64DecodeError(_))));
}

#[test]
fn basic_bad_utf8() {
    // "/w==" decodes to the single byte 0xFF
    assert!(matches!(header_step_of("Basic /w=="), Err(BadRequestErrors::InvalidUTF8)));
}

#[test]
fn malformed_header() {
    assert!(matches!(
        header_step_of("Bearer"),
        Ok(AuthStep::Settled(Authentication::NoIdentification, None))
    ));
    assert!(matches!(
        header_step_of("Bearer a b"),
        Ok(AuthStep::Settled(Authentication::NoIdentification, None))
    ));
}

#[test]
fn unknown_scheme() {
    match header_step_of("Digest xyz") {
        Ok(AuthStep::Settled(Authentication::AuthorizationHeaderUnknown(s, v), None)) => {
            assert_eq!(s, "Digest");
            assert_eq!(v, "xyz");
        }
        other => panic!("unexpected {:?}", other),
    }
}

#[test]
fn lookup_outcomes() {
    let t = AuthToken { token: "t".to_string(), user_id: 7 };
    assert!(matches!(token_outcome(Some(t)), Authentication::AuthToken(x) if x.user_id == 7));
    assert!(matches!(token_outcome(None), Authentication::NoIdentification));
    assert!(matches!(login_outcome(None), Authentication::NoIdentification));
}

#[test]
fn cookie_attributes() {
    let mut m = SessionManager::new();
    let s = m.create_session("abc".to_string(), 5).unwrap();
    let c = session_cookie(&s);
    assert_eq!(c.name, "session");
    assert_eq!(c.value, "abc");
    assert!(!c.secure);
    assert!(c.same_site_lax);
    assert_eq!(c.path, "/");
    assert_eq!(c.expires, 5 + SESSION_LIFETIME);
}

#[test]
fn taken_token_is_refused() {
    let mut m = SessionManager::new();
    assert!(m.create_session("a".to_string(), 1).is_some());
    assert!(m.create_session("a".to_string(), 2).is_none());
    assert_eq!(m.retrieve_session("a").unwrap().expiration, 1 + SESSION_LIFETIME);
    assert!(m.re_create_session("missing", 3).is_none());
}
