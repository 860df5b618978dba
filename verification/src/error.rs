//! What can go wrong, as tagged values. Nothing is swallowed and nothing is
//! retried: every failure reaches the caller as one of these.

use vstd::prelude::*;
use vstd::std_specs::convert::FromSpecImpl;

verus! {

/// A failure of the session exchange.
#[derive(Debug)]
pub enum AuthError {
    /// A variable the configuration is read from is not set.
    MissingEnvArgument(String),
    /// Neither a password nor a private key is configured.
    MissingCredential,
    /// The transport failed; its own account of the failure.
    RequestError(String),
    /// The service answered with a shape the exchange has no use for.
    UnexpectedResponse,
    /// The service rejected the credential or the token: its code and message.
    AuthFailed(String, String),
    /// The service issued a token whose validity window is empty.
    StaleToken,
}

/// Any failure of the engine.
#[derive(Debug)]
pub enum SnowflakeApiError {
    /// The transport failed; its own account of the failure.
    RequestError(String),
    AuthError(AuthError),
    /// The inline binary payload is not base64.
    ResponseDeserializationError(base64::DecodeError),
    /// A binary chunk is not a columnar stream.
    ArrowError(arrow::error::ArrowError),
    /// The stage location has no bucket in front of its path.
    InvalidBucketPath(String),
    /// No file name can be taken from a local path.
    InvalidLocalPath(String),
    LocalIoError(String),
    ObjectStoreError(String),
    ObjectStorePathError(String),
    TokioTaskJoinError(String),
    /// The service rejected the statement.
    ApiError { code: String, message: String, query_id: String },
    EmptyResponse,
    /// The answer holds no payload that can be used.
    BrokenResponse,
    /// A capability that is declared and not built.
    Unimplemented(String),
    /// The answer has a shape that the statement does not allow.
    UnexpectedResponse,
    /// The answer says one thing about asynchrony and carries another.
    UnexpectedAsyncQueryResponse,
    GlobPatternError(String),
    GlobError(String),
}

impl From<AuthError> for SnowflakeApiError {
    fn from(value: AuthError) -> (r: Self) {
        SnowflakeApiError::AuthError(value)
    }
}

impl FromSpecImpl<AuthError> for SnowflakeApiError {
    open spec fn obeys_from_spec() -> bool {
        true
    }

    open spec fn from_spec(value: AuthError) -> Self {
        SnowflakeApiError::AuthError(value)
    }
}

impl From<base64::DecodeError> for SnowflakeApiError {
    fn from(value: base64::DecodeError) -> (r: Self) {
        SnowflakeApiError::ResponseDeserializationError(value)
    }
}

impl FromSpecImpl<base64::DecodeError> for SnowflakeApiError {
    open spec fn obeys_from_spec() -> bool {
        true
    }

    open spec fn from_spec(value: base64::DecodeError) -> Self {
        SnowflakeApiError::ResponseDeserializationError(value)
    }
}

impl From<arrow::error::ArrowError> for SnowflakeApiError {
    fn from(value: arrow::error::ArrowError) -> (r: Self) {
        SnowflakeApiError::ArrowError(value)
    }
}

impl FromSpecImpl<arrow::error::ArrowError> for SnowflakeApiError {
    open spec fn obeys_from_spec() -> bool {
        true
    }

    open spec fn from_spec(value: arrow::error::ArrowError) -> Self {
        SnowflakeApiError::ArrowError(value)
    }
}

} // verus!
