//! What a caller configures to be authenticated.

use crate::error::{AuthError, SnowflakeApiError};
use vstd::prelude::*;

verus! {

#[derive(Debug)]
pub struct PasswordArgs {
    pub password: String,
}

#[derive(Debug)]
pub struct CertificateArgs {
    /// The private key, PEM-encoded.
    pub private_key_pem: String,
}

/// The credential: exactly one of a password and a private key.
#[derive(Debug)]
pub enum AuthType {
    Password(PasswordArgs),
    Certificate(CertificateArgs),
}

#[derive(Debug)]
pub struct AuthArgs {
    pub account_identifier: String,
    pub warehouse: Option<String>,
    pub database: Option<String>,
    pub schema: Option<String>,
    pub username: String,
    pub role: Option<String>,
    pub auth_type: AuthType,
}

/// The settings that can be taken from the environment.
#[derive(Debug, Clone, Copy)]
pub enum EnvKey {
    Account,
    Warehouse,
    Database,
    Schema,
    User,
    Role,
    Password,
    PrivateKey,
}

/// What the environment holds for each setting; `None` where the variable
/// is not set.
#[derive(Debug)]
pub struct EnvValues {
    pub account: Option<String>,
    pub warehouse: Option<String>,
    pub database: Option<String>,
    pub schema: Option<String>,
    pub user: Option<String>,
    pub role: Option<String>,
    pub password: Option<String>,
    pub private_key: Option<String>,
}

/// The name of the variable that holds a setting.
pub open spec fn variable_name(key: EnvKey) -> Seq<char> {
    match key {
        EnvKey::Account => "SNOWFLAKE_ACCOUNT"@,
        EnvKey::Warehouse => "SNOWLFLAKE_WAREHOUSE"@,
        EnvKey::Database => "SNOWFLAKE_DATABASE"@,
        EnvKey::Schema => "SNOWFLAKE_SCHEMA"@,
        EnvKey::User => "SNOWFLAKE_USER"@,
        EnvKey::Role => "SNOWFLAKE_ROLE"@,
        EnvKey::Password => "SNOWFLAKE_PASSWORD"@,
        EnvKey::PrivateKey => "SNOWFLAKE_PRIVATE_KEY"@,
    }
}

/// How the missing credential is named in the error.
pub open spec fn credential_variables() -> Seq<char> {
    "SNOWFLAKE_PASSWORD or SNOWFLAKE_PRIVATE_KEY"@
}

/// The credential that the environment holds: the password where one is
/// set, else the private key.
pub open spec fn credential_of(values: EnvValues) -> Option<AuthType> {
    match values.password {
        Some(password) => Some(AuthType::Password(PasswordArgs { password })),
        None => match values.private_key {
            Some(private_key_pem) => Some(AuthType::Certificate(CertificateArgs { private_key_pem })),
            None => None,
        },
    }
}

/// Whether `err` says that the variable called `name` is not set.
pub open spec fn is_missing(err: SnowflakeApiError, name: Seq<char>) -> bool {
    err matches SnowflakeApiError::AuthError(AuthError::MissingEnvArgument(what)) && what@ == name
}

/// What `AuthArgs::from_env` makes of the environment.
///
/// The account is looked at first, then the user, then the credential: the
/// first of them that is missing is the one that is reported.
pub open spec fn from_env_outcome(values: EnvValues, r: Result<AuthArgs, SnowflakeApiError>) -> bool {
    if values.account is None {
        r matches Err(e) && is_missing(e, variable_name(EnvKey::Account))
    } else if values.user is None {
        r matches Err(e) && is_missing(e, variable_name(EnvKey::User))
    } else if credential_of(values) is None {
        r matches Err(e) && is_missing(e, credential_variables())
    } else {
        r == Ok::<AuthArgs, SnowflakeApiError>(
            AuthArgs {
                account_identifier: values.account->0,
                warehouse: values.warehouse,
                database: values.database,
                schema: values.schema,
                username: values.user->0,
                role: values.role,
                auth_type: credential_of(values)->0,
            },
        )
    }
}

impl EnvKey {
    /// The name of the variable that holds the setting.
    pub fn name(self) -> (r: &'static str)
        ensures
            r@ == variable_name(self),
    {
        match self {
            EnvKey::Account => "SNOWFLAKE_ACCOUNT",
            EnvKey::Warehouse => "SNOWLFLAKE_WAREHOUSE",
            EnvKey::Database => "SNOWFLAKE_DATABASE",
            EnvKey::Schema => "SNOWFLAKE_SCHEMA",
            EnvKey::User => "SNOWFLAKE_USER",
            EnvKey::Role => "SNOWFLAKE_ROLE",
            EnvKey::Password => "SNOWFLAKE_PASSWORD",
            EnvKey::PrivateKey => "SNOWFLAKE_PRIVATE_KEY",
        }
    }
}

/// The error for a variable that is not set.
fn missing(name: &str) -> (e: SnowflakeApiError)
    ensures
        is_missing(e, name@),
{
    SnowflakeApiError::AuthError(AuthError::MissingEnvArgument(name.to_owned()))
}

impl AuthArgs {
    /// Puts together the arguments from what the environment holds.
    pub fn from_env(values: EnvValues) -> (r: Result<AuthArgs, SnowflakeApiError>)
        ensures
            from_env_outcome(values, r),
    {
        let EnvValues { account, warehouse, database, schema, user, role, password, private_key } =
            values;
        let account_identifier = match account {
            Some(a) => a,
            None => {
                return Err(missing(EnvKey::Account.name()));
            },
        };
        let username = match user {
            Some(u) => u,
            None => {
                return Err(missing(EnvKey::User.name()));
            },
        };
        let auth_type = match password {
            Some(password) => AuthType::Password(PasswordArgs { password }),
            None => match private_key {
                Some(private_key_pem) => AuthType::Certificate(
                    CertificateArgs { private_key_pem },
                ),
                None => {
                    return Err(missing("SNOWFLAKE_PASSWORD or SNOWFLAKE_PRIVATE_KEY"));
                },
            },
        };
        Ok(AuthArgs { account_identifier, warehouse, database, schema, username, role, auth_type })
    }
}

} // verus!
