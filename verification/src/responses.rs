//! The shapes the service answers with, as plain data.
//!
//! The wire format carries no tag: which shape an answer has is decided by the
//! fields that are present. The types here are what is left once that
//! decision has been taken, so every alternative is an explicit variant.

use crate::error::SnowflakeApiError;
use crate::results::{QueryResult, RawQueryResult};
use std::collections::HashMap;
use vstd::prelude::*;

verus! {

/// The status code with which the service announces that a statement is
/// still running.
pub open spec fn async_in_progress() -> Seq<char> {
    "333333"@
}

/// The status code with which the service announces that a statement was
/// accepted for asynchronous execution.
pub open spec fn async_accepted() -> Seq<char> {
    "333334"@
}

/// Whether a status code marks an answer as a poll handle instead of a result.
pub open spec fn is_async_code(code: Option<String>) -> bool {
    code matches Some(c) && (c@ == async_in_progress() || c@ == async_accepted())
}

/// Any answer to an execution request.
#[derive(Debug)]
pub enum ExecResponse {
    Query(QueryExecResponse),
    PutGet(PutGetExecResponse),
    Error(ExecErrorResponse),
}

impl ExecResponse {
    /// What `is_async` computes.
    pub open spec fn spec_is_async(&self) -> bool {
        match self {
            ExecResponse::Query(q) => is_async_code(q.code),
            ExecResponse::PutGet(p) => is_async_code(p.code),
            ExecResponse::Error(_) => false,
        }
    }

    /// Whether the answer is a poll handle. An error never is.
    pub fn is_async(&self) -> (r: bool)
        ensures
            r == self.spec_is_async(),
    {
        match self {
            ExecResponse::Query(q) => q.is_async(),
            ExecResponse::PutGet(p) => p.is_async(),
            ExecResponse::Error(_) => false,
        }
    }
}

/// Any answer of the session endpoints.
#[derive(Debug)]
pub enum AuthResponse {
    Login(LoginResponse),
    Auth(AuthenticatorResponse),
    Renew(RenewSessionResponse),
    Close(CloseSessionResponse),
    Error(AuthErrorResponse),
}

/// The envelope every answer comes in.
#[derive(Debug, Clone)]
pub struct BaseRestResponse<D> {
    /// Absent on session answers.
    pub code: Option<String>,
    pub message: Option<String>,
    pub success: bool,
    pub data: D,
}

impl<D> BaseRestResponse<D> {
    /// Whether the status code says that the statement has not finished.
    pub fn is_async(&self) -> (r: bool)
        ensures
            r == is_async_code(self.code),
    {
        match &self.code {
            Some(c) => {
                let in_progress = "333333".to_owned();
                let accepted = "333334".to_owned();
                *c == in_progress || *c == accepted
            },
            None => false,
        }
    }
}

pub type PutGetExecResponse = BaseRestResponse<PutGetResponseData>;

pub type QueryExecResponse = BaseRestResponse<QueryExecResponseData>;

pub type ExecErrorResponse = BaseRestResponse<ExecErrorResponseData>;

pub type AuthErrorResponse = BaseRestResponse<AuthErrorResponseData>;

pub type AuthenticatorResponse = BaseRestResponse<AuthenticatorResponseData>;

pub type LoginResponse = BaseRestResponse<LoginResponseData>;

pub type RenewSessionResponse = BaseRestResponse<RenewSessionResponseData>;

/// A successful close carries no data.
pub type CloseSessionResponse = BaseRestResponse<Option<()>>;

/// The answer to a statement, with its result still undecoded.
pub type ProcessedRestResponse = BaseRestResponse<RawQueryResult>;

/// The answer to a statement, as the caller gets it.
pub type ExecRestResponse = BaseRestResponse<QueryResult>;

#[derive(Debug)]
pub struct ExecErrorResponseData {
    pub age: i64,
    pub error_code: String,
    pub internal_error: bool,
    /// Present when the statement text is invalid.
    pub line: Option<i64>,
    pub pos: Option<i64>,
    pub query_id: String,
    pub sql_state: String,
}

#[derive(Debug)]
pub struct AuthErrorResponseData {
    pub authn_method: Option<String>,
    pub error_code: Option<String>,
}

#[derive(Debug)]
pub struct NameValueParameter {
    pub name: String,
    pub value: serde_json::Value,
}

#[derive(Debug)]
pub struct LoginResponseData {
    pub session_id: i64,
    pub token: String,
    pub master_token: String,
    pub server_version: String,
    pub parameters: Vec<NameValueParameter>,
    pub session_info: SessionInfo,
    pub master_validity_in_seconds: i64,
    pub validity_in_seconds: i64,
}

#[derive(Debug)]
pub struct SessionInfo {
    pub database_name: Option<String>,
    pub schema_name: Option<String>,
    pub warehouse_name: Option<String>,
    pub role_name: String,
}

#[derive(Debug)]
pub struct AuthenticatorResponseData {
    pub token_url: String,
    pub sso_url: String,
    pub proof_key: String,
}

#[derive(Debug)]
pub struct RenewSessionResponseData {
    pub session_token: String,
    pub validity_in_seconds_s_t: i64,
    pub master_token: String,
    pub validity_in_seconds_m_t: i64,
    pub session_id: i64,
}

/// What a query answer carries: a result, or a handle to poll for one.
#[derive(Debug)]
pub enum QueryExecResponseData {
    Sync(SyncQueryExecResponseData),
    Async(AsyncQueryExecResponseData),
}

impl QueryExecResponseData {
    /// The result, where the answer carries one.
    pub fn as_sync(self) -> (r: Result<SyncQueryExecResponseData, SnowflakeApiError>)
        ensures
            match self {
                QueryExecResponseData::Sync(data) => r == Ok::<
                    SyncQueryExecResponseData,
                    SnowflakeApiError,
                >(data),
                QueryExecResponseData::Async(_) => r == Err::<
                    SyncQueryExecResponseData,
                    SnowflakeApiError,
                >(SnowflakeApiError::UnexpectedAsyncQueryResponse),
            },
    {
        match self {
            QueryExecResponseData::Sync(data) => Ok(data),
            QueryExecResponseData::Async(_) => Err(SnowflakeApiError::UnexpectedAsyncQueryResponse),
        }
    }

    /// The poll handle, where the answer carries one.
    pub fn as_async(self) -> (r: Result<AsyncQueryExecResponseData, SnowflakeApiError>)
        ensures
            match self {
                QueryExecResponseData::Async(data) => r == Ok::<
                    AsyncQueryExecResponseData,
                    SnowflakeApiError,
                >(data),
                QueryExecResponseData::Sync(_) => r == Err::<
                    AsyncQueryExecResponseData,
                    SnowflakeApiError,
                >(SnowflakeApiError::UnexpectedAsyncQueryResponse),
            },
    {
        match self {
            QueryExecResponseData::Async(data) => Ok(data),
            QueryExecResponseData::Sync(_) => Err(SnowflakeApiError::UnexpectedAsyncQueryResponse),
        }
    }
}

#[derive(Debug, Clone)]
pub struct AsyncQueryExecResponseData {
    pub query_id: String,
    pub get_result_url: String,
    pub query_aborts_after_secs: i64,
}

#[derive(Debug, Clone)]
pub struct QueryContextEntry {
    pub id: isize,
    pub timestamp: usize,
}

/// The ordering token the service hands back with each result.
#[derive(Debug, Clone)]
pub struct QueryContext {
    pub entries: Vec<QueryContextEntry>,
}

#[derive(Debug)]
pub struct SyncQueryExecResponseData {
    pub parameters: Option<Vec<NameValueParameter>>,
    pub rowtype: Option<Vec<ExecResponseRowType>>,
    /// The rows as inline JSON; the default for statements other than SELECT.
    pub rowset: Option<serde_json::Value>,
    /// The rows as a base64-encoded columnar stream; the default for SELECT.
    pub rowset_base64: Option<String>,
    pub total: i64,
    pub returned: i64,
    pub query_id: String,
    pub database_provider: Option<String>,
    pub final_database_name: Option<String>,
    pub final_schema_name: Option<String>,
    pub final_warehouse_name: Option<String>,
    pub final_role_name: Option<String>,
    pub number_of_binds: Option<i32>,
    pub statement_type_id: Option<i64>,
    pub version: Option<i64>,
    /// The remote partitions of a large result, in row order.
    pub chunks: Vec<ExecResponseChunk>,
    pub qrmk: Option<String>,
    /// Headers every chunk request has to carry.
    pub chunk_headers: HashMap<String, String>,
    pub result_ids: Option<String>,
    pub send_result_time: usize,
    pub query_context: QueryContext,
}

#[derive(Debug, Clone)]
pub struct ExecResponseRowType {
    pub name: String,
    pub byte_length: Option<i64>,
    pub length: Option<i64>,
    pub type_: SnowflakeType,
    pub scale: Option<i64>,
    pub precision: Option<i64>,
    pub nullable: bool,
}

#[derive(Debug, Clone)]
pub enum SnowflakeType {
    Fixed,
    Real,
    Text,
    Date,
    Variant,
    TimestampLtz,
    TimestampNtz,
    TimestampTz,
    Object,
    Binary,
    Time,
    Boolean,
    Array,
}

#[derive(Debug, Clone)]
pub struct ExecResponseChunk {
    pub url: String,
    pub row_count: i32,
    pub uncompressed_size: i64,
}

#[derive(Debug)]
pub struct PutGetResponseData {
    pub command: CommandType,
    pub local_location: Option<String>,
    /// The local source patterns of the statement.
    pub src_locations: Vec<String>,
    /// How many transfers may run at once.
    pub parallel: usize,
    /// The size from which on a file is sent in parts.
    pub threshold: i64,
    pub auto_compress: bool,
    pub overwrite: bool,
    /// The compression the sources already have, `none` if they have none.
    pub source_compression: String,
    pub stage_info: PutGetStageInfo,
    pub encryption_material: EncryptionMaterialVariant,
    pub presigned_urls: Vec<String>,
    pub parameters: Vec<NameValueParameter>,
    pub statement_type_id: Option<i64>,
    pub query_id: String,
    pub send_result_time: usize,
    pub query_context: QueryContext,
}

#[derive(Debug)]
pub enum CommandType {
    Upload,
    Download,
}

#[derive(Debug)]
pub enum PutGetStageInfo {
    Aws(AwsPutGetStageInfo),
    Azure(AzurePutGetStageInfo),
    Gcs(GcsPutGetStageInfo),
}

#[derive(Debug)]
pub struct AwsPutGetStageInfo {
    pub location_type: String,
    pub location: String,
    pub region: String,
    pub creds: AwsCredentials,
    pub end_point: Option<String>,
}

#[derive(Debug)]
pub struct AwsCredentials {
    pub aws_key_id: String,
    pub aws_secret_key: String,
    pub aws_token: String,
    pub aws_id: String,
    pub aws_key: String,
}

#[derive(Debug)]
pub struct GcsPutGetStageInfo {
    pub location_type: String,
    pub location: String,
    pub storage_account: String,
    pub creds: GcsCredentials,
    pub presigned_url: String,
}

#[derive(Debug)]
pub struct GcsCredentials {
    pub gcs_access_token: String,
}

#[derive(Debug)]
pub struct AzurePutGetStageInfo {
    pub location_type: String,
    pub location: String,
    pub storage_account: String,
    pub creds: AzureCredentials,
}

#[derive(Debug)]
pub struct AzureCredentials {
    pub azure_sas_token: String,
}

/// The encryption material of a transfer: one for all files, or one per file
/// in file order.
#[derive(Debug)]
pub enum EncryptionMaterialVariant {
    Single(PutGetEncryptionMaterial),
    Multiple(Vec<PutGetEncryptionMaterial>),
}

#[derive(Debug)]
pub struct PutGetEncryptionMaterial {
    /// Base64 text of the key.
    pub query_stage_master_key: String,
    pub query_id: String,
    pub smk_id: i64,
}

} // verus!
