//! The session: who is logged in, with which tokens, and for how long.
//!
//! A login yields a session token and a master token, each with a validity
//! window of its own. The session token goes with every request; once its
//! window has elapsed it is renewed with the master token, and once the
//! window of the master token has elapsed the login starts over. The
//! exchanges themselves are the caller's: `get_token` says which one is due,
//! and the matching `complete_` function takes the answer. Time is what the
//! caller says it is, in seconds.

use crate::auth::{AuthType, CertificateArgs, PasswordArgs};
use crate::bindings::{to_uppercase, uppercase_text};
use crate::error::AuthError;
use crate::responses::{
    AuthErrorResponse, AuthResponse, BaseRestResponse, LoginResponseData,
    RenewSessionResponseData,
};
use vstd::prelude::*;

verus! {

/// A token and its validity window.
#[derive(Debug)]
pub struct AuthToken {
    pub token: String,
    /// When the token was issued.
    pub issued_at: u64,
    /// For how many seconds from then on it is valid.
    pub valid_for: u64,
}

/// The two tokens of a session.
#[derive(Debug)]
pub struct AuthTokens {
    pub session_token: AuthToken,
    pub master_token: AuthToken,
}

/// What a request needs from the session.
#[derive(Debug)]
pub struct AuthParts {
    pub session_token_auth_header: String,
    pub sequence_id: u64,
}

/// What a login is made of.
#[derive(Debug)]
pub struct LoginRequest {
    pub account_name: String,
    pub login_name: String,
    pub warehouse: Option<String>,
    pub database: Option<String>,
    pub schema: Option<String>,
    pub role: Option<String>,
    /// The password to send, or the key to sign the assertion with.
    pub credential: AuthType,
}

/// How a login proves who logs in.
#[derive(Debug)]
pub enum LoginProof {
    /// The password as it is.
    Password(String),
    /// An assertion signed with the private key, and the name of the
    /// authenticator that takes it.
    Assertion { authenticator: String, token: String },
}

/// What a renewal is made of.
#[derive(Debug)]
pub struct RenewRequest {
    pub old_session_token: String,
    pub master_token_auth_header: String,
}

/// What closing a session is made of.
#[derive(Debug)]
pub struct CloseRequest {
    pub session_token_auth_header: String,
}

/// What is due before a request can be sent.
#[derive(Debug)]
pub enum TokenAction {
    /// Nothing: the session token is valid, and these are the parts.
    Ready(AuthParts),
    /// A login.
    Login(LoginRequest),
    /// A renewal of the session token.
    Renew(RenewRequest),
}

#[derive(Debug)]
pub struct Session {
    /// In upper case.
    pub account_identifier: String,
    pub warehouse: Option<String>,
    pub database: Option<String>,
    pub schema: Option<String>,
    pub username: String,
    pub role: Option<String>,
    pub credential: Option<AuthType>,
    /// The tokens of the open session; `None` while no session is open.
    pub tokens: Option<AuthTokens>,
    /// The sequence id of the last request.
    pub sequence_id: u64,
}

/// The authorization header that carries `token`.
pub open spec fn auth_header_of(token: Seq<char>) -> Seq<char> {
    "Snowflake Token=\""@ + token + "\""@
}

/// The length of a validity window that the service declares: nothing where
/// it declares less than nothing.
pub open spec fn window(validity_in_seconds: i64) -> u64 {
    if validity_in_seconds <= 0 {
        0
    } else {
        validity_in_seconds as u64
    }
}

/// The seconds from `since` to `now`; none where `now` is the earlier.
pub open spec fn elapsed(since: u64, now: u64) -> int {
    if now >= since {
        now - since
    } else {
        0
    }
}

/// The tokens that a login at `now` yields.
pub open spec fn tokens_of_login(data: LoginResponseData, now: u64) -> AuthTokens {
    AuthTokens {
        session_token: AuthToken {
            token: data.token,
            issued_at: now,
            valid_for: window(data.validity_in_seconds),
        },
        master_token: AuthToken {
            token: data.master_token,
            issued_at: now,
            valid_for: window(data.master_validity_in_seconds),
        },
    }
}

/// The tokens that a renewal at `now` yields.
pub open spec fn tokens_of_renewal(data: RenewSessionResponseData, now: u64) -> AuthTokens {
    AuthTokens {
        session_token: AuthToken {
            token: data.session_token,
            issued_at: now,
            valid_for: window(data.validity_in_seconds_s_t),
        },
        master_token: AuthToken {
            token: data.master_token,
            issued_at: now,
            valid_for: window(data.validity_in_seconds_m_t),
        },
    }
}

/// Whether tokens are of use at all: each has a window that is not empty.
pub open spec fn usable(tokens: AuthTokens) -> bool {
    tokens.session_token.valid_for > 0 && tokens.master_token.valid_for > 0
}

/// What taking new tokens does to a session, and what it returns: tokens
/// that are of use replace the old ones, and tokens that are not are
/// refused and change nothing.
pub open spec fn tokens_taken(
    before: Session,
    tokens: AuthTokens,
    after: Session,
    r: Result<(), AuthError>,
) -> bool {
    if usable(tokens) {
        r is Ok && after == (Session { tokens: Some(tokens), ..before })
    } else {
        r matches Err(AuthError::StaleToken) && after == before
    }
}

/// Whether `err` is the rejection that the service expressed in `e`.
pub open spec fn is_auth_failure(e: AuthErrorResponse, err: AuthError) -> bool {
    &&& err matches AuthError::AuthFailed(code, message)
    &&& code@ == match e.code {
        Some(c) => c@,
        None => Seq::<char>::empty(),
    }
    &&& message@ == match e.message {
        Some(m) => m@,
        None => Seq::<char>::empty(),
    }
}

impl AuthToken {
    /// Whether the validity window has elapsed at `now`.
    pub open spec fn expired(&self, now: u64) -> bool {
        elapsed(self.issued_at, now) >= self.valid_for
    }

    /// A token issued at `now` for as long as the service declares.
    pub fn new(token: String, validity_in_seconds: i64, now: u64) -> (r: Self)
        ensures
            r == (AuthToken { token, issued_at: now, valid_for: window(validity_in_seconds) }),
    {
        let valid_for: u64 = if validity_in_seconds <= 0 {
            0
        } else {
            validity_in_seconds as u64
        };
        AuthToken { token, issued_at: now, valid_for }
    }

    /// Whether the validity window has elapsed at `now`.
    pub fn is_expired(&self, now: u64) -> (r: bool)
        ensures
            r == self.expired(now),
    {
        let passed: u64 = if now >= self.issued_at {
            now - self.issued_at
        } else {
            0
        };
        passed >= self.valid_for
    }

    /// The authorization header that carries the token.
    pub fn auth_header(&self) -> (r: String)
        ensures
            r@ == auth_header_of(self.token@),
    {
        let head = "Snowflake Token=\"".to_owned();
        head.concat(self.token.as_str()).concat("\"")
    }
}

/// An owned copy of an optional text.
fn owned(text: Option<&str>) -> (r: Option<String>)
    ensures
        text_of(r) == str_of(text),
{
    match text {
        Some(t) => Some(t.to_owned()),
        None => None,
    }
}

/// A copy of an optional text.
fn copied(text: &Option<String>) -> (r: Option<String>)
    ensures
        r == *text,
{
    match text {
        Some(t) => Some(t.clone()),
        None => None,
    }
}

/// The rejection that the service expressed in `e`.
fn auth_failure(e: AuthErrorResponse) -> (err: AuthError)
    ensures
        is_auth_failure(e, err),
{
    let BaseRestResponse { code, message, success: _, data: _ } = e;
    let code = match code {
        Some(c) => c,
        None => String::new(),
    };
    let message = match message {
        Some(m) => m,
        None => String::new(),
    };
    AuthError::AuthFailed(code, message)
}

impl Session {
    /// Whether `self` is a session for this account and user with no
    /// session open and no request sent.
    pub open spec fn is_fresh(
        &self,
        account_identifier: Seq<char>,
        warehouse: Option<Seq<char>>,
        database: Option<Seq<char>>,
        schema: Option<Seq<char>>,
        username: Seq<char>,
        role: Option<Seq<char>>,
    ) -> bool {
        &&& self.account_identifier@ == uppercase_text(account_identifier)
        &&& text_of(self.warehouse) == warehouse
        &&& text_of(self.database) == database
        &&& text_of(self.schema) == schema
        &&& self.username@ == username
        &&& text_of(self.role) == role
        &&& self.tokens is None
        &&& self.sequence_id == 0
    }

    /// A session that logs in with a password on its first request.
    pub fn password_auth(
        account_identifier: &str,
        warehouse: Option<&str>,
        database: Option<&str>,
        schema: Option<&str>,
        username: &str,
        role: Option<&str>,
        password: &str,
    ) -> (r: Self)
        ensures
            r.is_fresh(
                account_identifier@,
                str_of(warehouse),
                str_of(database),
                str_of(schema),
                username@,
                str_of(role),
            ),
            r.credential matches Some(AuthType::Password(args)) && args.password@ == password@,
    {
        Session {
            account_identifier: to_uppercase(account_identifier),
            warehouse: owned(warehouse),
            database: owned(database),
            schema: owned(schema),
            username: username.to_owned(),
            role: owned(role),
            credential: Some(AuthType::Password(PasswordArgs { password: password.to_owned() })),
            tokens: None,
            sequence_id: 0,
        }
    }

    /// A session that logs in with a signed assertion on its first request.
    pub fn cert_auth(
        account_identifier: &str,
        warehouse: Option<&str>,
        database: Option<&str>,
        schema: Option<&str>,
        username: &str,
        role: Option<&str>,
        private_key_pem: &str,
    ) -> (r: Self)
        ensures
            r.is_fresh(
                account_identifier@,
                str_of(warehouse),
                str_of(database),
                str_of(schema),
                username@,
                str_of(role),
            ),
            r.credential matches Some(AuthType::Certificate(args)) && args.private_key_pem@
                == private_key_pem@,
    {
        Session {
            account_identifier: to_uppercase(account_identifier),
            warehouse: owned(warehouse),
            database: owned(database),
            schema: owned(schema),
            username: username.to_owned(),
            role: owned(role),
            credential: Some(
                AuthType::Certificate(
                    CertificateArgs { private_key_pem: private_key_pem.to_owned() },
                ),
            ),
            tokens: None,
            sequence_id: 0,
        }
    }

    /// Whether a login is due at `now`: no session is open, or the window of
    /// the master token has elapsed.
    pub open spec fn needs_login(&self, now: u64) -> bool {
        match self.tokens {
            None => true,
            Some(t) => t.master_token.expired(now),
        }
    }

    /// Whether a renewal is due at `now`: the master token is valid and the
    /// window of the session token has elapsed.
    pub open spec fn needs_renewal(&self, now: u64) -> bool {
        !self.needs_login(now) && self.tokens->0.session_token.expired(now)
    }

    /// Whether a request can be sent at `now` with the tokens as they are.
    pub open spec fn ready(&self, now: u64) -> bool {
        !self.needs_login(now) && !self.needs_renewal(now)
    }

    /// Whether `request` is the login of this session.
    pub open spec fn is_login(&self, request: LoginRequest) -> bool {
        &&& request.account_name == self.account_identifier
        &&& request.login_name == self.username
        &&& request.warehouse == self.warehouse
        &&& request.database == self.database
        &&& request.schema == self.schema
        &&& request.role == self.role
        &&& match self.credential {
            Some(AuthType::Password(args)) => request.credential matches AuthType::Password(p)
                && p.password == args.password,
            Some(AuthType::Certificate(args)) => request.credential matches AuthType::Certificate(
                c,
            ) && c.private_key_pem == args.private_key_pem,
            None => false,
        }
    }

    /// Says what is due before a request can be sent at `now`.
    ///
    /// A login where no session is open or the master token has run out; it
    /// fails where no credential is configured. Else a renewal where the
    /// session token has run out. Else nothing: the request gets the header
    /// of the session token and the next sequence id. A token whose window
    /// has elapsed is never handed out.
    pub fn get_token(&mut self, now: u64) -> (r: Result<TokenAction, AuthError>)
        requires
            old(self).sequence_id < u64::MAX,
        ensures
            token_outcome(*old(self), now, *final(self), r),
    {
        let due_login = match &self.tokens {
            None => true,
            Some(t) => t.master_token.is_expired(now),
        };
        if due_login {
            let credential = match &self.credential {
                Some(AuthType::Password(args)) => AuthType::Password(
                    PasswordArgs { password: args.password.clone() },
                ),
                Some(AuthType::Certificate(args)) => AuthType::Certificate(
                    CertificateArgs { private_key_pem: args.private_key_pem.clone() },
                ),
                None => {
                    return Err(AuthError::MissingCredential);
                },
            };
            return Ok(
                TokenAction::Login(
                    LoginRequest {
                        account_name: self.account_identifier.clone(),
                        login_name: self.username.clone(),
                        warehouse: copied(&self.warehouse),
                        database: copied(&self.database),
                        schema: copied(&self.schema),
                        role: copied(&self.role),
                        credential,
                    },
                ),
            );
        }
        let (due_renewal, header, old_session_token, master_header) = match &self.tokens {
            Some(t) => (
                t.session_token.is_expired(now),
                t.session_token.auth_header(),
                t.session_token.token.clone(),
                t.master_token.auth_header(),
            ),
            None => (false, String::new(), String::new(), String::new()),
        };
        if due_renewal {
            return Ok(
                TokenAction::Renew(
                    RenewRequest { old_session_token, master_token_auth_header: master_header },
                ),
            );
        }
        self.sequence_id = self.sequence_id + 1;
        Ok(
            TokenAction::Ready(
                AuthParts { session_token_auth_header: header, sequence_id: self.sequence_id },
            ),
        )
    }

    /// Replaces the tokens, where the new ones are of use.
    fn take_tokens(&mut self, tokens: AuthTokens) -> (r: Result<(), AuthError>)
        ensures
            tokens_taken(*old(self), tokens, *final(self), r),
    {
        if tokens.session_token.valid_for > 0 && tokens.master_token.valid_for > 0 {
            self.tokens = Some(tokens);
            Ok(())
        } else {
            Err(AuthError::StaleToken)
        }
    }

    /// Takes the answer to a login that was sent at `now`.
    ///
    /// A login answer opens the session with the tokens it carries, unless
    /// one of them has an empty window. An error answer is the rejection of
    /// the credential and any other answer is unexpected. Whatever fails
    /// leaves the session as it was.
    pub fn complete_login(&mut self, response: AuthResponse, now: u64) -> (r: Result<
        (),
        AuthError,
    >)
        ensures
            match response {
                AuthResponse::Login(answer) => tokens_taken(
                    *old(self),
                    tokens_of_login(answer.data, now),
                    *final(self),
                    r,
                ),
                AuthResponse::Error(e) => r matches Err(err) && is_auth_failure(e, err) && *final(self) == *old(self),
                _ => r matches Err(AuthError::UnexpectedResponse) && *final(self) == *old(self),
            },
    {
        match response {
            AuthResponse::Login(answer) => {
                let data = answer.data;
                self.take_tokens(
                    AuthTokens {
                        session_token: AuthToken::new(data.token, data.validity_in_seconds, now),
                        master_token: AuthToken::new(
                            data.master_token,
                            data.master_validity_in_seconds,
                            now,
                        ),
                    },
                )
            },
            AuthResponse::Error(e) => Err(auth_failure(e)),
            _ => Err(AuthError::UnexpectedResponse),
        }
    }

    /// Takes the answer to a renewal that was sent at `now`.
    ///
    /// A renewal answer replaces both tokens, unless one of the new ones
    /// has an empty window. An error answer is the rejection of the master
    /// token and any other answer is unexpected. Whatever fails leaves the
    /// session as it was: with a session token that has run out and that
    /// `get_token` will not hand out.
    pub fn complete_renewal(&mut self, response: AuthResponse, now: u64) -> (r: Result<
        (),
        AuthError,
    >)
        ensures
            match response {
                AuthResponse::Renew(answer) => tokens_taken(
                    *old(self),
                    tokens_of_renewal(answer.data, now),
                    *final(self),
                    r,
                ),
                AuthResponse::Error(e) => r matches Err(err) && is_auth_failure(e, err) && *final(self) == *old(self),
                _ => r matches Err(AuthError::UnexpectedResponse) && *final(self) == *old(self),
            },
    {
        match response {
            AuthResponse::Renew(answer) => {
                let data = answer.data;
                self.take_tokens(
                    AuthTokens {
                        session_token: AuthToken::new(
                            data.session_token,
                            data.validity_in_seconds_s_t,
                            now,
                        ),
                        master_token: AuthToken::new(
                            data.master_token,
                            data.validity_in_seconds_m_t,
                            now,
                        ),
                    },
                )
            },
            AuthResponse::Error(e) => Err(auth_failure(e)),
            _ => Err(AuthError::UnexpectedResponse),
        }
    }

    /// Closes the session: forgets the tokens and says what to tell the
    /// service. Where no session is open there is nothing to tell and
    /// nothing changes.
    pub fn close(&mut self) -> (r: Option<CloseRequest>)
        ensures
            close_outcome(*old(self), *final(self), r),
    {
        match self.tokens.take() {
            Some(t) => Some(CloseRequest { session_token_auth_header: t.session_token.auth_header() }),
            None => None,
        }
    }

    /// Takes the answer to the closing of a session.
    pub fn complete_close(response: AuthResponse) -> (r: Result<(), AuthError>)
        ensures
            match response {
                AuthResponse::Close(_) => r is Ok,
                AuthResponse::Error(e) => r matches Err(err) && is_auth_failure(e, err),
                _ => r matches Err(AuthError::UnexpectedResponse),
            },
    {
        match response {
            AuthResponse::Close(_) => Ok(()),
            AuthResponse::Error(e) => Err(auth_failure(e)),
            _ => Err(AuthError::UnexpectedResponse),
        }
    }
}

/// The query parameter `name` of a login, where a value is configured for
/// it.
pub open spec fn parameter(name: Seq<char>, value: Option<String>) -> Seq<(Seq<char>, Seq<char>)> {
    match value {
        Some(v) => seq![(name, v@)],
        None => Seq::empty(),
    }
}

/// The query parameters of a login: the warehouse, the database, the
/// schema and the role, in this order, each only where it is configured.
pub open spec fn login_parameters(request: LoginRequest) -> Seq<(Seq<char>, Seq<char>)> {
    parameter("warehouse"@, request.warehouse) + parameter("databaseName"@, request.database)
        + parameter("schemaName"@, request.schema) + parameter("roleName"@, request.role)
}

/// What a list of parameters holds.
pub open spec fn parameters_of(list: Seq<(&'static str, String)>) -> Seq<(Seq<char>, Seq<char>)> {
    list.map_values(|p: (&'static str, String)| (p.0@, p.1@))
}

/// The authenticator that takes a signed assertion.
pub open spec fn assertion_authenticator() -> Seq<char> {
    "SNOWFLAKE_JWT"@
}

/// Adds a parameter to a list, where a value is configured for it.
fn add_parameter(list: &mut Vec<(&'static str, String)>, name: &'static str, value: &Option<String>)
    ensures
        parameters_of(final(list)@) == parameters_of(old(list)@) + parameter(name@, *value),
{
    match value {
        Some(v) => {
            let ghost before = list@;
            list.push((name, v.clone()));
            assert(parameters_of(list@) =~= parameters_of(before) + seq![(name@, v@)]);
        },
        None => {
            assert(parameters_of(list@) + Seq::empty() =~= parameters_of(list@));
        },
    }
}

/// The query parameters of a login.
pub fn login_params(request: &LoginRequest) -> (r: Vec<(&'static str, String)>)
    ensures
        parameters_of(r@) == login_parameters(*request),
{
    let mut list: Vec<(&'static str, String)> = Vec::new();
    assert(parameters_of(list@) =~= Seq::empty());
    add_parameter(&mut list, "warehouse", &request.warehouse);
    add_parameter(&mut list, "databaseName", &request.database);
    add_parameter(&mut list, "schemaName", &request.schema);
    add_parameter(&mut list, "roleName", &request.role);
    assert(Seq::<(Seq<char>, Seq<char>)>::empty() + parameter("warehouse"@, request.warehouse)
        =~= parameter("warehouse"@, request.warehouse));
    list
}

/// Says how a login proves who logs in: with the password where one is
/// configured, else with the assertion that the caller has signed with the
/// private key. A key without an assertion proves nothing.
pub fn login_proof(credential: AuthType, assertion: Option<String>) -> (r: Result<
    LoginProof,
    AuthError,
>)
    ensures
        match credential {
            AuthType::Password(args) => r == Ok::<LoginProof, AuthError>(
                LoginProof::Password(args.password),
            ),
            AuthType::Certificate(_) => match assertion {
                Some(signed) => r matches Ok(LoginProof::Assertion { authenticator, token })
                    && authenticator@ == assertion_authenticator() && token == signed,
                None => r matches Err(AuthError::MissingCredential),
            },
        },
{
    match credential {
        AuthType::Password(args) => Ok(LoginProof::Password(args.password)),
        AuthType::Certificate(_) => match assertion {
            Some(token) => Ok(
                LoginProof::Assertion { authenticator: "SNOWFLAKE_JWT".to_owned(), token },
            ),
            None => Err(AuthError::MissingCredential),
        },
    }
}

/// What `get_token` does to a session at `now`, and what it returns.
pub open spec fn token_outcome(
    before: Session,
    now: u64,
    after: Session,
    r: Result<TokenAction, AuthError>,
) -> bool {
    if before.needs_login(now) {
        &&& after == before
        &&& match r {
            Ok(TokenAction::Login(request)) => before.is_login(request),
            Err(AuthError::MissingCredential) => before.credential is None,
            _ => false,
        }
    } else if before.needs_renewal(now) {
        &&& after == before
        &&& r matches Ok(TokenAction::Renew(request))
        &&& request.old_session_token == before.tokens->0.session_token.token
        &&& request.master_token_auth_header@ == auth_header_of(
            before.tokens->0.master_token.token@,
        )
    } else {
        &&& r matches Ok(TokenAction::Ready(parts))
        &&& parts.session_token_auth_header@ == auth_header_of(
            before.tokens->0.session_token.token@,
        )
        &&& parts.sequence_id == before.sequence_id + 1
        &&& after == (Session { sequence_id: parts.sequence_id, ..before })
    }
}

/// The characters of an optional text.
pub open spec fn text_of(text: Option<String>) -> Option<Seq<char>> {
    match text {
        Some(t) => Some(t@),
        None => None,
    }
}

/// The characters of an optional borrowed text.
pub open spec fn str_of(text: Option<&str>) -> Option<Seq<char>> {
    match text {
        Some(t) => Some(t@),
        None => None,
    }
}

/// A session token that has run out is renewed once: after a renewal that
/// is accepted, nothing more is due at the time of the renewal, and the
/// request goes out with the new token. The same holds of a login.
pub proof fn law_one_renewal(
    before: Session,
    data: RenewSessionResponseData,
    now: u64,
    after: Session,
)
    requires
        tokens_taken(before, tokens_of_renewal(data, now), after, Ok(())),
    ensures
        after.ready(now),
        !after.needs_renewal(now),
        !after.needs_login(now),
        after.tokens->0.session_token.token == data.session_token,
        after.sequence_id == before.sequence_id,
{
}

/// A request that finds the session token run out goes through exactly one
/// renewal: it is told to renew, and once the renewal is accepted it is
/// handed the new token, with the sequence id that follows the last one.
pub proof fn law_renewed_once_then_ready(
    before: Session,
    now: u64,
    asked: Session,
    first: Result<TokenAction, AuthError>,
    data: RenewSessionResponseData,
    renewed: Session,
    after: Session,
    second: Result<TokenAction, AuthError>,
)
    requires
        before.needs_renewal(now),
        token_outcome(before, now, asked, first),
        tokens_taken(asked, tokens_of_renewal(data, now), renewed, Ok(())),
        token_outcome(renewed, now, after, second),
    ensures
        first matches Ok(TokenAction::Renew(request)) && request.old_session_token
            == before.tokens->0.session_token.token,
        second matches Ok(TokenAction::Ready(parts)) && parts.session_token_auth_header@
            == auth_header_of(data.session_token@) && parts.sequence_id == before.sequence_id + 1,
{
}

/// After a login that is accepted, nothing more is due at the time of the
/// login.
pub proof fn law_one_login(before: Session, data: LoginResponseData, now: u64, after: Session)
    requires
        tokens_taken(before, tokens_of_login(data, now), after, Ok(())),
    ensures
        after.ready(now),
        after.tokens->0.session_token.token == data.token,
        after.sequence_id == before.sequence_id,
{
}

/// A renewal that fails leaves a renewal due: the token that has run out is
/// not fallen back on.
pub proof fn law_no_stale_token(session: Session, now: u64, later: u64)
    requires
        session.needs_renewal(now),
        later >= now,
    ensures
        !session.ready(later),
{
}

/// Sequence ids grow: of two requests of one session, the later one has the
/// greater id, and what happens to the tokens in between does not matter.
pub proof fn law_sequence_ids_increase(
    first: Session,
    first_time: u64,
    between: Session,
    first_parts: AuthParts,
    second: Session,
    second_time: u64,
    after: Session,
    second_parts: AuthParts,
)
    requires
        token_outcome(first, first_time, between, Ok(TokenAction::Ready(first_parts))),
        second.sequence_id == between.sequence_id,
        token_outcome(second, second_time, after, Ok(TokenAction::Ready(second_parts))),
    ensures
        first_parts.sequence_id < second_parts.sequence_id,
        second_parts.sequence_id == after.sequence_id,
{
}

/// What `close` does to a session, and what it returns: the tokens are
/// forgotten, and the service is told where there were any.
pub open spec fn close_outcome(before: Session, after: Session, r: Option<CloseRequest>) -> bool {
    &&& after == (Session { tokens: None, ..before })
    &&& match before.tokens {
        Some(t) => r matches Some(request) && request.session_token_auth_header@
            == auth_header_of(t.session_token.token@),
        None => r is None,
    }
}

/// Closing twice is closing once: the second close tells the service
/// nothing and changes nothing.
pub proof fn law_close_is_idempotent(
    open: Session,
    closed: Session,
    first: Option<CloseRequest>,
    again: Session,
    second: Option<CloseRequest>,
)
    requires
        close_outcome(open, closed, first),
        close_outcome(closed, again, second),
    ensures
        second is None,
        again == closed,
{
}

/// After a close the next request logs in again.
pub proof fn law_close_ends_the_session(
    open: Session,
    closed: Session,
    r: Option<CloseRequest>,
    now: u64,
)
    requires
        close_outcome(open, closed, r),
    ensures
        closed.needs_login(now),
        closed.sequence_id == open.sequence_id,
{
}

} // verus!
