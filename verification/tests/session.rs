use snowflake_api::responses::{
    AuthErrorResponseData, AuthResponse, AuthenticatorResponseData, BaseRestResponse,
    LoginResponseData, RenewSessionResponseData, SessionInfo,
};
use snowflake_api::session::{
    login_params, login_proof, AuthToken, LoginProof, Session, TokenAction,
};
use snowflake_api::{CertificateArgs, PasswordArgs};
use snowflake_api::{AuthError, AuthType};

fn envelope<D>(data: D) -> BaseRestResponse<D> {
    BaseRestResponse { code: None, message: None, success: true, data }
}

fn login(token: &str, validity: i64, master: &str, master_validity: i64) -> AuthResponse {
    AuthResponse::Login(envelope(LoginResponseData {
        session_id: 1,
        token: token.to_owned(),
        master_token: master.to_owned(),
        server_version: "8".to_owned(),
        parameters: Vec::new(),
        session_info: SessionInfo {
            database_name: None,
            schema_name: None,
            warehouse_name: None,
            role_name: "PUBLIC".to_owned(),
        },
        master_validity_in_seconds: master_validity,
        validity_in_seconds: validity,
    }))
}

fn renewal(token: &str, validity: i64, master: &str, master_validity: i64) -> AuthResponse {
    AuthResponse::Renew(envelope(RenewSessionResponseData {
        session_token: token.to_owned(),
        validity_in_seconds_s_t: validity,
        master_token: master.to_owned(),
        validity_in_seconds_m_t: master_validity,
        session_id: 1,
    }))
}

fn rejection(code: Option<&str>, message: Option<&str>) -> AuthResponse {
    AuthResponse::Error(BaseRestResponse {
        code: code.map(str::to_owned),
        message: message.map(str::to_owned),
        success: false,
        data: AuthErrorResponseData { authn_method: None, error_code: None },
    })
}

fn session() -> Session {
    Session::password_auth("acct", Some("wh"), None, Some("public"), "user", None, "secret")
}

fn logged_in(now: u64) -> Session {
    let mut s = session();
    s.complete_login(login("st", 3600, "mt", 14400), now).unwrap();
    s
}

#[test]
fn a_fresh_session_has_the_account_in_upper_case() {
    let s = session();
    assert_eq!(s.account_identifier, "ACCT");
    assert_eq!(s.warehouse.as_deref(), Some("wh"));
    assert_eq!(s.database, None);
    assert_eq!(s.schema.as_deref(), Some("public"));
    assert_eq!(s.username, "user");
    assert_eq!(s.role, None);
    assert!(s.tokens.is_none());
    assert_eq!(s.sequence_id, 0);
    assert!(matches!(&s.credential, Some(AuthType::Password(p)) if p.password == "secret"));
}

#[test]
fn a_certificate_session_keeps_the_key() {
    let s = Session::cert_auth("a-b.c", None, None, None, "user", Some("role"), "PEM");
    assert_eq!(s.account_identifier, "A-B.C");
    assert_eq!(s.role.as_deref(), Some("role"));
    assert!(matches!(&s.credential, Some(AuthType::Certificate(c)) if c.private_key_pem == "PEM"));
}

#[test]
fn the_first_request_logs_in() {
    let mut s = session();
    match s.get_token(0).unwrap() {
        TokenAction::Login(request) => {
            assert_eq!(request.account_name, "ACCT");
            assert_eq!(request.login_name, "user");
            assert_eq!(request.warehouse.as_deref(), Some("wh"));
            assert_eq!(request.schema.as_deref(), Some("public"));
            assert!(matches!(request.credential, AuthType::Password(p) if p.password == "secret"));
        }
        other => panic!("{:?}", other),
    }
    assert_eq!(s.sequence_id, 0);
    assert!(s.tokens.is_none());
}

#[test]
fn a_login_without_credential_fails() {
    let mut s = session();
    s.credential = None;
    assert!(matches!(s.get_token(0), Err(AuthError::MissingCredential)));
}

#[test]
fn after_the_login_the_token_is_handed_out() {
    let mut s = logged_in(100);
    match s.get_token(100).unwrap() {
        TokenAction::Ready(parts) => {
            assert_eq!(parts.session_token_auth_header, "Snowflake Token=\"st\"");
            assert_eq!(parts.sequence_id, 1);
        }
        other => panic!("{:?}", other),
    }
}

#[test]
fn sequence_ids_increase_by_one() {
    let mut s = logged_in(0);
    let mut last = 0;
    for now in [0, 1, 1, 500, 3599] {
        match s.get_token(now).unwrap() {
            TokenAction::Ready(parts) => {
                assert_eq!(parts.sequence_id, last + 1);
                last = parts.sequence_id;
            }
            other => panic!("{:?}", other),
        }
    }
    assert_eq!(s.sequence_id, 5);
}

#[test]
fn an_expired_session_token_is_renewed_once() {
    let mut s = logged_in(0);
    let now = 3600;
    match s.get_token(now).unwrap() {
        TokenAction::Renew(request) => {
            assert_eq!(request.old_session_token, "st");
            assert_eq!(request.master_token_auth_header, "Snowflake Token=\"mt\"");
        }
        other => panic!("{:?}", other),
    }
    assert_eq!(s.sequence_id, 0);
    s.complete_renewal(renewal("st2", 3600, "mt2", 14400), now).unwrap();
    match s.get_token(now).unwrap() {
        TokenAction::Ready(parts) => {
            assert_eq!(parts.session_token_auth_header, "Snowflake Token=\"st2\"");
            assert_eq!(parts.sequence_id, 1);
        }
        other => panic!("{:?}", other),
    }
    assert!(matches!(s.get_token(now + 1).unwrap(), TokenAction::Ready(_)));
}

#[test]
fn a_token_is_valid_until_its_window_has_elapsed() {
    let mut s = logged_in(10);
    assert!(matches!(s.get_token(3609).unwrap(), TokenAction::Ready(_)));
    assert!(matches!(s.get_token(3610).unwrap(), TokenAction::Renew(_)));
}

#[test]
fn a_failed_renewal_leaves_the_renewal_due() {
    let mut s = logged_in(0);
    let err = s.complete_renewal(rejection(Some("390114"), Some("expired")), 4000).unwrap_err();
    assert!(matches!(err, AuthError::AuthFailed(c, m) if c == "390114" && m == "expired"));
    assert!(matches!(s.get_token(4000).unwrap(), TokenAction::Renew(_)));
    assert!(matches!(s.get_token(5000).unwrap(), TokenAction::Renew(_)));
}

#[test]
fn tokens_with_an_empty_window_are_refused() {
    let mut s = session();
    assert!(matches!(s.complete_login(login("st", 0, "mt", 10), 0), Err(AuthError::StaleToken)));
    assert!(matches!(s.complete_login(login("st", 10, "mt", -1), 0), Err(AuthError::StaleToken)));
    assert!(s.tokens.is_none());

    let mut s = logged_in(0);
    assert!(matches!(
        s.complete_renewal(renewal("st2", 0, "mt2", 10), 3600),
        Err(AuthError::StaleToken)
    ));
    assert!(matches!(
        s.complete_renewal(renewal("st2", 10, "mt2", 0), 3600),
        Err(AuthError::StaleToken)
    ));
    match s.get_token(3600).unwrap() {
        TokenAction::Renew(request) => assert_eq!(request.old_session_token, "st"),
        other => panic!("{:?}", other),
    }
}

#[test]
fn an_expired_master_token_starts_the_login_over() {
    let mut s = logged_in(0);
    assert!(matches!(s.get_token(14400).unwrap(), TokenAction::Login(_)));
}

#[test]
fn a_rejected_login_is_an_auth_failure() {
    let mut s = session();
    let err = s.complete_login(rejection(None, None), 0).unwrap_err();
    assert!(matches!(err, AuthError::AuthFailed(c, m) if c.is_empty() && m.is_empty()));
    assert!(s.tokens.is_none());
}

#[test]
fn an_answer_of_another_kind_is_unexpected() {
    let mut s = session();
    let other = AuthResponse::Auth(envelope(AuthenticatorResponseData {
        token_url: String::new(),
        sso_url: String::new(),
        proof_key: String::new(),
    }));
    assert!(matches!(s.complete_login(other, 0), Err(AuthError::UnexpectedResponse)));
    assert!(matches!(
        s.complete_login(renewal("a", 1, "b", 1), 0),
        Err(AuthError::UnexpectedResponse)
    ));
    assert!(matches!(
        s.complete_renewal(login("a", 1, "b", 1), 0),
        Err(AuthError::UnexpectedResponse)
    ));
    assert!(s.tokens.is_none());
}

#[test]
fn closing_twice_is_closing_once() {
    let mut s = logged_in(0);
    let request = s.close().unwrap();
    assert_eq!(request.session_token_auth_header, "Snowflake Token=\"st\"");
    assert!(s.tokens.is_none());
    assert!(s.close().is_none());
    assert!(s.tokens.is_none());
    assert!(matches!(s.get_token(1).unwrap(), TokenAction::Login(_)));
}

#[test]
fn closing_keeps_the_sequence() {
    let mut s = logged_in(0);
    assert!(matches!(s.get_token(0).unwrap(), TokenAction::Ready(_)));
    s.close();
    s.complete_login(login("st", 3600, "mt", 14400), 10).unwrap();
    match s.get_token(10).unwrap() {
        TokenAction::Ready(parts) => assert_eq!(parts.sequence_id, 2),
        other => panic!("{:?}", other),
    }
}

#[test]
fn the_answer_to_a_close() {
    assert!(Session::complete_close(AuthResponse::Close(envelope(None))).is_ok());
    assert!(matches!(
        Session::complete_close(rejection(Some("1"), Some("no"))),
        Err(AuthError::AuthFailed(c, m)) if c == "1" && m == "no"
    ));
    assert!(matches!(
        Session::complete_close(login("a", 1, "b", 1)),
        Err(AuthError::UnexpectedResponse)
    ));
}

#[test]
fn a_window_of_no_length_is_elapsed_at_once() {
    let token = AuthToken::new("t".to_owned(), 0, 50);
    assert!(token.is_expired(50));
    assert!(token.is_expired(0));
    let negative = AuthToken::new("t".to_owned(), -5, 50);
    assert_eq!(negative.valid_for, 0);
    assert!(negative.is_expired(50));
}

#[test]
fn a_clock_that_runs_backwards_does_not_expire_a_token() {
    let token = AuthToken::new("t".to_owned(), 10, 100);
    assert!(!token.is_expired(0));
    assert!(!token.is_expired(109));
    assert!(token.is_expired(110));
    assert!(token.is_expired(u64::MAX));
}

#[test]
fn the_header_quotes_the_token() {
    let token = AuthToken::new("a\"b".to_owned(), 10, 0);
    assert_eq!(token.auth_header(), "Snowflake Token=\"a\"b\"");
}

#[test]
fn a_login_sends_the_parameters_that_are_configured() {
    let mut s = Session::password_auth("a", Some("wh"), Some("db"), Some("sc"), "u", Some("r"), "p");
    let request = match s.get_token(0).unwrap() {
        TokenAction::Login(request) => request,
        other => panic!("{:?}", other),
    };
    assert_eq!(
        login_params(&request),
        vec![
            ("warehouse", "wh".to_owned()),
            ("databaseName", "db".to_owned()),
            ("schemaName", "sc".to_owned()),
            ("roleName", "r".to_owned()),
        ]
    );
    let mut s = Session::password_auth("a", None, Some("db"), None, "u", None, "p");
    let request = match s.get_token(0).unwrap() {
        TokenAction::Login(request) => request,
        other => panic!("{:?}", other),
    };
    assert_eq!(login_params(&request), vec![("databaseName", "db".to_owned())]);
}

#[test]
fn a_login_is_proved_by_password_or_by_assertion() {
    let password = AuthType::Password(PasswordArgs { password: "pw".to_owned() });
    assert!(matches!(
        login_proof(password, Some("ignored".to_owned())),
        Ok(LoginProof::Password(p)) if p == "pw"
    ));
    let key = AuthType::Certificate(CertificateArgs { private_key_pem: "PEM".to_owned() });
    assert!(matches!(
        login_proof(key, Some("signed".to_owned())),
        Ok(LoginProof::Assertion { authenticator, token })
            if authenticator == "SNOWFLAKE_JWT" && token == "signed"
    ));
    let key = AuthType::Certificate(CertificateArgs { private_key_pem: "PEM".to_owned() });
    assert!(matches!(login_proof(key, None), Err(AuthError::MissingCredential)));
}
