//! Client-side protocol engine for a cloud data warehouse's REST-based SQL
//! API.
//!
//! The engine decides; it does not talk. Whatever needs the network, the
//! clock or the file system is an action that the engine hands to its
//! caller, and what came of it is a value that the caller hands back.
//!
//! - [`session`]: the tokens of a session and when they are renewed.
//! - [`executor`]: the execution of one statement, from submission over
//!   polling to the result, as a state machine.
//! - [`resolver`]: the reassembly of a chunked result.
//! - [`results`]: the results, raw and decoded.
//! - [`ipc`]: the check that a columnar stream goes through before it is
//!   decoded.
//! - [`stage`]: the plan of a file transfer to a stage.
//! - [`responses`]: the shapes of the answers of the service.
//! - [`api`], [`auth`]: how a handle is made, and from which arguments.
//! - [`bindings`]: what is taken on trust from third-party code.

pub mod api;
pub mod auth;
pub mod bindings;
pub mod error;
pub mod executor;
pub mod ipc;
pub mod resolver;
pub mod responses;
pub mod results;
pub mod session;
pub mod stage;

pub use crate::api::{SnowflakeApi, SnowflakeApiBuilder};
pub use crate::auth::{AuthArgs, AuthType, CertificateArgs, PasswordArgs};
pub use crate::error::{AuthError, SnowflakeApiError};
pub use crate::results::{
    ArrowResult, BytesResult, EmptyJsonResult, FieldSchema, JsonResult, QueryResult,
    RawQueryResult,
};
