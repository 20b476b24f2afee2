//! Error types shared by the archiving engine.
use vstd::prelude::*;

verus! {

/// How a session operation failed, as the engine tells failures apart.
#[derive(Debug, Clone, PartialEq, Eq)]
pub enum ProtocolError {
    /// The server has no such article and will not have it: recorded and skipped.
    ArticleUnavailable,
    /// The connection itself failed: the session must be reopened.
    Network(String),
    /// Any other refusal or malformed reply.
    Other(String),
}

/// The kind of a `ProtocolError`, without its message.
#[derive(Debug, Clone, Copy, PartialEq, Eq, Structural)]
pub enum ErrorClass {
    Unavailable,
    Network,
    Other,
}

impl ProtocolError {
    pub open spec fn class_spec(&self) -> ErrorClass {
        match self {
            ProtocolError::ArticleUnavailable => ErrorClass::Unavailable,
            ProtocolError::Network(_) => ErrorClass::Network,
            ProtocolError::Other(_) => ErrorClass::Other,
        }
    }

    /// Which kind of failure this is.
    pub fn class(&self) -> (r: ErrorClass)
        ensures
            r == self.class_spec(),
    {
        match self {
            ProtocolError::ArticleUnavailable => ErrorClass::Unavailable,
            ProtocolError::Network(_) => ErrorClass::Network,
            ProtocolError::Other(_) => ErrorClass::Other,
        }
    }

    /// Whether the failure calls for a new connection.
    pub fn is_network(&self) -> (r: bool)
        ensures
            r == (self.class_spec() == ErrorClass::Network),
    {
        match self {
            ProtocolError::Network(_) => true,
            _ => false,
        }
    }
}

/// The errors that stop a run of the engine.
#[derive(Debug, Clone, PartialEq, Eq)]
pub enum Error {
    /// Nothing to work on (no group was selected).
    Unknown,
    /// The archive could not be read or written.
    Io(String),
    /// The session failed.
    Nntp(ProtocolError),
}

} // verus!
