//! The entry points: how an API handle is made, how a statement is begun,
//! and what goes into the requests of a statement.

use crate::auth::{from_env_outcome, AuthArgs, AuthType, EnvValues};
use crate::bindings::{regex_is_match, regex_search, to_uppercase, uppercase_text};
use crate::error::SnowflakeApiError;
use crate::executor::{ExecRequest, QueryState, QueryType};
use crate::session::{close_outcome, str_of, text_of, AuthParts, CloseRequest, Session};
use vstd::prelude::*;

verus! {

/// Makes an API handle from arguments.
#[derive(Debug)]
#[must_use]
pub struct SnowflakeApiBuilder {
    pub auth: AuthArgs,
}

/// The handle for one account: its session and its identifier in upper
/// case.
#[derive(Debug)]
pub struct SnowflakeApi {
    pub session: Session,
    pub account_identifier: String,
}

/// An execution request and where it goes.
#[derive(Debug)]
pub struct ExecCall {
    pub query_type: QueryType,
    pub account_identifier: String,
    /// The authorization header.
    pub auth: String,
    pub body: ExecRequest,
}

/// A poll and where it goes.
#[derive(Debug)]
pub struct PollCall {
    pub query_type: QueryType,
    pub account_identifier: String,
    /// The authorization header.
    pub auth: String,
    /// The address the service gave.
    pub url: String,
}

/// The pattern of a staging statement: the verb `put` in any case, after
/// any number of block comments, followed by white space.
pub open spec fn put_pattern() -> Seq<char> {
    "(?i)^(?:/\\*.*\\*/\\s*)*put\\s+"@
}

/// How a statement starts, given what the search for the staging verb
/// found: a staging statement is submitted for JSON, any other statement
/// for columnar streams. A search that could not be made found nothing.
pub open spec fn submission(found: Option<bool>) -> (QueryState, QueryType) {
    if found == Some(true) {
        (QueryState::Submitted { staging: true }, QueryType::JsonQuery)
    } else {
        (QueryState::Submitted { staging: false }, QueryType::ArrowQuery)
    }
}

/// Says in which state a statement starts and to which endpoint it is
/// submitted, given what the search for the staging verb found.
pub fn submit(found: Option<bool>) -> (r: (QueryState, QueryType))
    ensures
        r == submission(found),
{
    match found {
        Some(true) => (QueryState::Submitted { staging: true }, QueryType::JsonQuery),
        _ => (QueryState::Submitted { staging: false }, QueryType::ArrowQuery),
    }
}

/// Whether `api` is the handle that these arguments describe: nobody is
/// logged in yet, and the credential is the one given.
pub open spec fn is_handle_for(api: SnowflakeApi, auth: AuthArgs) -> bool {
    &&& api.account_identifier@ == uppercase_text(auth.account_identifier@)
    &&& api.session.is_fresh(
        auth.account_identifier@,
        text_of(auth.warehouse),
        text_of(auth.database),
        text_of(auth.schema),
        auth.username@,
        text_of(auth.role),
    )
    &&& match auth.auth_type {
        AuthType::Password(given) => api.session.credential matches Some(AuthType::Password(p))
            && p.password@ == given.password@,
        AuthType::Certificate(given) => api.session.credential matches Some(
            AuthType::Certificate(c),
        ) && c.private_key_pem@ == given.private_key_pem@,
    }
}

/// Borrows an optional text.
fn borrowed(text: &Option<String>) -> (r: Option<&str>)
    ensures
        str_of(r) == text_of(*text),
{
    match text {
        Some(t) => Some(t.as_str()),
        None => None,
    }
}

impl SnowflakeApiBuilder {
    pub fn new(auth: AuthArgs) -> (r: Self)
        ensures
            r.auth == auth,
    {
        Self { auth }
    }

    /// Makes the handle. Nothing is sent: the login happens with the first
    /// request.
    pub fn build(self) -> (r: Result<SnowflakeApi, SnowflakeApiError>)
        ensures
            r matches Ok(api) && is_handle_for(api, self.auth),
    {
        let auth = &self.auth;
        let session = match &auth.auth_type {
            AuthType::Password(args) => Session::password_auth(
                auth.account_identifier.as_str(),
                borrowed(&auth.warehouse),
                borrowed(&auth.database),
                borrowed(&auth.schema),
                auth.username.as_str(),
                borrowed(&auth.role),
                args.password.as_str(),
            ),
            AuthType::Certificate(args) => Session::cert_auth(
                auth.account_identifier.as_str(),
                borrowed(&auth.warehouse),
                borrowed(&auth.database),
                borrowed(&auth.schema),
                auth.username.as_str(),
                borrowed(&auth.role),
                args.private_key_pem.as_str(),
            ),
        };
        let account_identifier = to_uppercase(auth.account_identifier.as_str());
        Ok(SnowflakeApi { session, account_identifier })
    }
}

impl SnowflakeApi {
    /// A handle on a session that exists, for the account with this
    /// identifier. The identifier is kept in upper case, and so goes into
    /// every request in upper case.
    pub fn new(session: Session, account_identifier: String) -> (r: Self)
        ensures
            r.session == session,
            r.account_identifier@ == uppercase_text(account_identifier@),
    {
        Self { session, account_identifier: to_uppercase(account_identifier.as_str()) }
    }

    /// A handle that logs in with a password on its first request.
    pub fn with_password_auth(
        account_identifier: &str,
        warehouse: Option<&str>,
        database: Option<&str>,
        schema: Option<&str>,
        username: &str,
        role: Option<&str>,
        password: &str,
    ) -> (r: Result<Self, SnowflakeApiError>)
        ensures
            r matches Ok(api) && api.account_identifier@ == uppercase_text(account_identifier@)
                && api.session.is_fresh(
                account_identifier@,
                str_of(warehouse),
                str_of(database),
                str_of(schema),
                username@,
                str_of(role),
            ) && (api.session.credential matches Some(AuthType::Password(p)) && p.password@
                == password@),
    {
        let session = Session::password_auth(
            account_identifier,
            warehouse,
            database,
            schema,
            username,
            role,
            password,
        );
        let account_identifier = to_uppercase(account_identifier);
        Ok(Self { session, account_identifier })
    }

    /// A handle that logs in with a signed assertion on its first request.
    pub fn with_certificate_auth(
        account_identifier: &str,
        warehouse: Option<&str>,
        database: Option<&str>,
        schema: Option<&str>,
        username: &str,
        role: Option<&str>,
        private_key_pem: &str,
    ) -> (r: Result<Self, SnowflakeApiError>)
        ensures
            r matches Ok(api) && api.account_identifier@ == uppercase_text(account_identifier@)
                && api.session.is_fresh(
                account_identifier@,
                str_of(warehouse),
                str_of(database),
                str_of(schema),
                username@,
                str_of(role),
            ) && (api.session.credential matches Some(AuthType::Certificate(c))
                && c.private_key_pem@ == private_key_pem@),
    {
        let session = Session::cert_auth(
            account_identifier,
            warehouse,
            database,
            schema,
            username,
            role,
            private_key_pem,
        );
        let account_identifier = to_uppercase(account_identifier);
        Ok(Self { session, account_identifier })
    }

    /// A handle for what the environment holds.
    pub fn from_env(values: EnvValues) -> (r: Result<Self, SnowflakeApiError>)
        ensures
            match r {
                Ok(api) => exists|auth: AuthArgs|
                    from_env_outcome(values, Ok(auth)) && is_handle_for(api, auth),
                Err(e) => from_env_outcome(values, Err(e)),
            },
    {
        match AuthArgs::from_env(values) {
            Ok(auth) => {
                let built = SnowflakeApiBuilder::new(auth).build();
                proof {
                    assert(from_env_outcome(values, Ok(auth)));
                }
                built
            },
            Err(e) => Err(e),
        }
    }

    /// Begins the execution of a statement: says in which state it starts
    /// and to which endpoint it is submitted. A staging statement asks for
    /// JSON, because its answer is never a columnar stream.
    pub fn exec_raw(&self, sql: &str) -> (r: (QueryState, QueryType))
        ensures
            r == submission(regex_search(put_pattern(), sql@)),
    {
        submit(regex_is_match("(?i)^(?:/\\*.*\\*/\\s*)*put\\s+", sql))
    }

    /// The request that submits a statement.
    pub fn run_sql(&self, sql_text: &str, query_type: QueryType, parts: AuthParts) -> (call:
        ExecCall)
        ensures
            call.query_type == query_type,
            call.account_identifier == self.account_identifier,
            call.auth == parts.session_token_auth_header,
            call.body.sql_text@ == sql_text@,
            !call.body.async_exec,
            call.body.sequence_id == parts.sequence_id,
            !call.body.is_internal,
    {
        ExecCall {
            query_type,
            account_identifier: self.account_identifier.clone(),
            auth: parts.session_token_auth_header,
            body: ExecRequest {
                sql_text: sql_text.to_owned(),
                async_exec: false,
                sequence_id: parts.sequence_id,
                is_internal: false,
            },
        }
    }

    /// The request that polls for the result of a statement.
    pub fn poll(&self, get_result_url: &str, parts: AuthParts) -> (call: PollCall)
        ensures
            call.query_type is ArrowQuery,
            call.account_identifier == self.account_identifier,
            call.auth == parts.session_token_auth_header,
            call.url@ == get_result_url@,
    {
        PollCall {
            query_type: QueryType::ArrowQuery,
            account_identifier: self.account_identifier.clone(),
            auth: parts.session_token_auth_header,
            url: get_result_url.to_owned(),
        }
    }

    /// Closes the session. The next request opens a new one.
    pub fn close_session(&mut self) -> (r: Option<CloseRequest>)
        ensures
            final(self).account_identifier == old(self).account_identifier,
            close_outcome(old(self).session, final(self).session, r),
    {
        self.session.close()
    }
}

} // verus!
