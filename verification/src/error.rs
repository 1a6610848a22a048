//! The library's error type and field-level validation errors.

use vstd::prelude::*;

use crate::text::{concat2, concat3, concat4};

verus! {

/// One failed check on one input field.
#[derive(Debug, Clone, PartialEq, Eq)]
pub struct ValidationError {
    pub field: String,
    pub message: String,
}

impl ValidationError {
    /// `field: message`.
    pub fn to_string(&self) -> (r: String)
        ensures
            r@ == self.field@ + ": "@ + self.message@,
    {
        concat3(self.field.as_str(), ": ", self.message.as_str())
    }
}

/// Errors of the service layer. Outside failures (database, file system)
/// are carried as their message text.
#[derive(Debug, Clone)]
pub enum Error {
    NotFound { entity: &'static str, id: String },
    Conflict { message: String },
    Validation(Vec<ValidationError>),
    Forbidden { action: &'static str },
    Unauthorized,
    BadRequest(String),
    Database(String),
    Io(String),
    Pijul(String),
    AtProto(String),
    Render(String),
    Internal(String),
}

impl Error {
    /// The user-facing message of an error (what `Display` prints).
    pub open spec fn message(self) -> Seq<char> {
        match self {
            Error::NotFound { entity, id } => "not found: "@ + entity@ + ": "@ + id@,
            Error::Conflict { message } => "conflict: "@ + message@,
            Error::Validation(_) => "validation failed"@,
            Error::Forbidden { action } => "forbidden: "@ + action@,
            Error::Unauthorized => "unauthorized"@,
            Error::BadRequest(m) => "bad request: "@ + m@,
            Error::Database(m) => "database error: "@ + m@,
            Error::Io(m) => "io error: "@ + m@,
            Error::Pijul(m) => "pijul error: "@ + m@,
            Error::AtProto(m) => "atproto error: "@ + m@,
            Error::Render(m) => "render error: "@ + m@,
            Error::Internal(m) => m@,
        }
    }

    pub fn to_string(&self) -> (r: String)
        ensures
            r@ == self.message(),
    {
        match self {
            Error::NotFound { entity, id } => concat4("not found: ", entity, ": ", id.as_str()),
            Error::Conflict { message } => concat2("conflict: ", message.as_str()),
            Error::Validation(_) => "validation failed".to_owned(),
            Error::Forbidden { action } => concat2("forbidden: ", action),
            Error::Unauthorized => "unauthorized".to_owned(),
            Error::BadRequest(m) => concat2("bad request: ", m.as_str()),
            Error::Database(m) => concat2("database error: ", m.as_str()),
            Error::Io(m) => concat2("io error: ", m.as_str()),
            Error::Pijul(m) => concat2("pijul error: ", m.as_str()),
            Error::AtProto(m) => concat2("atproto error: ", m.as_str()),
            Error::Render(m) => concat2("render error: ", m.as_str()),
            Error::Internal(m) => m.as_str().to_owned(),
        }
    }
}

/// Result alias of the service layer.
pub type Result<T> = std::result::Result<T, Error>;

} // verus!
