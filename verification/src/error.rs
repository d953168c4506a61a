//! Error types for the router, the System One client and model providers.

use vstd::prelude::*;

use crate::text::{decimal, decimal_string};

verus! {

/// `std::io::Error`, carried through by the I/O-backed stores and providers.
#[verifier::external_type_specification]
#[verifier::external_body]
pub struct ExIoError(std::io::Error);

/// `serde_json::Error`, carried through by JSON-backed stores and providers.
#[verifier::external_type_specification]
#[verifier::external_body]
pub struct ExJsonError(serde_json::Error);

#[derive(Debug)]
pub enum RouterError {
    /// The allowlist is empty.
    EmptyAllowlist,
    /// The model is on the allowlist but missing from the cost/cache catalog.
    MissingCatalogEntry(String),
    /// `current_model` is not in the allowlist.
    CurrentNotAllowlisted(String),
    /// The System One client failed.
    Typesafe(TypesafeError),
    /// The model provider failed.
    ModelProvider(ModelProviderError),
    /// The System One answers do not form a valid routing decision.
    InvalidDecision(String),
    /// Configuration problem.
    Config(String),
    Io(std::io::Error),
    Json(serde_json::Error),
}

#[derive(Debug, PartialEq, Eq)]
pub enum TypesafeError {
    /// Transport-level failure.
    Http(String),
    /// The API answered with a non-success HTTP status.
    Api { status: u16, body: String },
    /// The payload could not be (de)serialized.
    Serde(String),
    /// `TYPESAFE_API_KEY` is missing or empty.
    MissingApiKey,
    /// The answer does not have the expected shape.
    UnexpectedAnswer(String),
}

#[derive(Debug)]
pub enum ModelProviderError {
    /// `CURSOR_API_KEY` is missing or empty.
    MissingCursorApiKey,
    /// The Cursor agent helper failed.
    CursorHelper(String),
    /// Databricks credentials are missing.
    MissingDatabricksCredentials,
    /// The Databricks CLI failed.
    DatabricksCli(String),
    /// Transport-level failure talking to the AI Gateway.
    DatabricksHttp(String),
    /// The AI Gateway answered with a non-success HTTP status.
    DatabricksApi { status: u16, body: String },
    Io(std::io::Error),
    Json(serde_json::Error),
    Other(String),
}

/// The human-readable message of a System One client error.
pub open spec fn typesafe_error_text(e: TypesafeError) -> Seq<char> {
    match e {
        TypesafeError::Http(m) => "HTTP error: "@ + m@,
        TypesafeError::Api { status, body } => "TypeSafe API returned HTTP "@ + decimal(status as nat) + ": "@ + body@,
        TypesafeError::Serde(m) => "failed to serialize/deserialize TypeSafe payload: "@ + m@,
        TypesafeError::MissingApiKey => "missing or empty TYPESAFE_API_KEY"@,
        TypesafeError::UnexpectedAnswer(m) => "unexpected answer shape: "@ + m@,
    }
}

impl TypesafeError {
    pub fn message(&self) -> (r: String)
        ensures
            r@ == typesafe_error_text(*self),
    {
        match self {
            TypesafeError::Http(m) => {
                let mut r = "HTTP error: ".to_owned();
                r.append(m.as_str());
                r
            },
            TypesafeError::Api { status, body } => {
                let mut r = "TypeSafe API returned HTTP ".to_owned();
                let d = decimal_string(*status as u128);
                r.append(d.as_str());
                r.append(": ");
                r.append(body.as_str());
                r
            },
            TypesafeError::Serde(m) => {
                let mut r = "failed to serialize/deserialize TypeSafe payload: ".to_owned();
                r.append(m.as_str());
                r
            },
            TypesafeError::MissingApiKey => "missing or empty TYPESAFE_API_KEY".to_owned(),
            TypesafeError::UnexpectedAnswer(m) => {
                let mut r = "unexpected answer shape: ".to_owned();
                r.append(m.as_str());
                r
            },
        }
    }
}

} // verus!
