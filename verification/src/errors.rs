//! The error taxonomy of the dispatch core. Every failure is returned to
//! the caller fully typed, scoped to a single command, and carries enough
//! context (topic string, object kind) to diagnose without re-deriving
//! state.

use vstd::prelude::*;

verus! {

#[derive(Debug, Clone, PartialEq, Eq)]
pub enum NeoiotError {
    /// A topic string whose prefix or segment count matches no known shape.
    InvalidTopic(String),
    /// The HTTP client could not complete the publish request.
    RequestClientError(String),
    /// The broker's management API rejected the publish call.
    EmqxManagementError(String),
    /// The backing store failed.
    DatabaseError(String),
    /// The named object kind could not be resolved.
    ObjectNotFound(String),
    NotImplemented,
    AuthenticateError,
    PermissionDenied,
    /// A synchronous wait elapsed without a response being pushed to the
    /// command's correlation key.
    Timeout,
}

impl NeoiotError {
    /// The HTTP status this error maps to at the API boundary.
    pub fn status_code(&self) -> (r: u16)
        ensures
            r == match self {
                NeoiotError::InvalidTopic(_) => 400u16,
                NeoiotError::RequestClientError(_) => 500u16,
                NeoiotError::EmqxManagementError(_) => 500u16,
                NeoiotError::DatabaseError(_) => 500u16,
                NeoiotError::ObjectNotFound(_) => 400u16,
                NeoiotError::NotImplemented => 501u16,
                NeoiotError::AuthenticateError => 401u16,
                NeoiotError::PermissionDenied => 403u16,
                NeoiotError::Timeout => 504u16,
            },
    {
        match self {
            NeoiotError::InvalidTopic(_) => 400,
            NeoiotError::RequestClientError(_) => 500,
            NeoiotError::EmqxManagementError(_) => 500,
            NeoiotError::DatabaseError(_) => 500,
            NeoiotError::ObjectNotFound(_) => 400,
            NeoiotError::NotImplemented => 501,
            NeoiotError::AuthenticateError => 401,
            NeoiotError::PermissionDenied => 403,
            NeoiotError::Timeout => 504,
        }
    }

    /// A human-readable description of the error.
    pub fn message(&self) -> (r: String)
        ensures
            r@ == match self {
                NeoiotError::InvalidTopic(t) => "invalid topic :"@ + t@,
                NeoiotError::RequestClientError(_) => "http client request failed"@,
                NeoiotError::EmqxManagementError(m) => "emqx management api error:"@ + m@,
                NeoiotError::DatabaseError(m) => "database error:"@ + m@,
                NeoiotError::ObjectNotFound(o) => "specified "@ + o@ + " not found"@,
                NeoiotError::NotImplemented => "feature not implemented yet"@,
                NeoiotError::AuthenticateError => "authenticate failed"@,
                NeoiotError::PermissionDenied => "permission denied"@,
                NeoiotError::Timeout => "sync wait timed out"@,
            },
    {
        match self {
            NeoiotError::InvalidTopic(t) => {
                let mut m = String::from_str("invalid topic :");
                m.append(t.as_str());
                m
            },
            NeoiotError::RequestClientError(_) => String::from_str("http client request failed"),
            NeoiotError::EmqxManagementError(e) => {
                let mut m = String::from_str("emqx management api error:");
                m.append(e.as_str());
                m
            },
            NeoiotError::DatabaseError(e) => {
                let mut m = String::from_str("database error:");
                m.append(e.as_str());
                m
            },
            NeoiotError::ObjectNotFound(o) => {
                let mut m = String::from_str("specified ");
                m.append(o.as_str());
                m.append(" not found");
                m
            },
            NeoiotError::NotImplemented => String::from_str("feature not implemented yet"),
            NeoiotError::AuthenticateError => String::from_str("authenticate failed"),
            NeoiotError::PermissionDenied => String::from_str("permission denied"),
            NeoiotError::Timeout => String::from_str("sync wait timed out"),
        }
    }
}

} // verus!
