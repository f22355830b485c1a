//! Serializable error envelope for the IPC boundary.
//!
//! Domain errors are translated here into a machine-readable code, a
//! human-readable message and an optional entity id, so a frontend can
//! react to failures programmatically.  The service never constructs this
//! envelope itself; the transport layer wraps domain errors through it.

use vstd::prelude::*;

use crate::error::DomainError;
use crate::error::RepoError;

verus! {

/// Machine-readable error codes for the frontend.
#[derive(Debug, Clone, Copy, PartialEq, Eq, Structural)]
pub enum ErrorCode {
    /// A requested channel was not found.
    ChannelNotFound,
    /// A requested block was not found.
    BlockNotFound,
    /// A requested connection was not found.
    ConnectionNotFound,
    /// Input validation failed.
    ValidationError,
    /// A duplicate record was detected.
    DuplicateError,
    /// A database operation failed.
    DatabaseError,
    /// Application initialization failed.
    InitializationError,
    /// A media operation failed (import, download, etc.).
    MediaError,
    /// An unexpected internal error occurred.
    InternalError,
}

/// Serializable error for IPC responses.
#[derive(Debug)]
pub struct TauriError {
    /// Machine-readable error code.
    pub code: ErrorCode,
    /// Human-readable error message.
    pub message: String,
    /// Optional entity ID for context.
    pub entity_id: Option<String>,
}

/// The code a domain error is translated to.
pub open spec fn spec_code_of(e: &DomainError) -> ErrorCode {
    match e {
        DomainError::ChannelNotFound(_) => ErrorCode::ChannelNotFound,
        DomainError::BlockNotFound(_) => ErrorCode::BlockNotFound,
        DomainError::ConnectionNotFound(_, _) => ErrorCode::ConnectionNotFound,
        DomainError::InvalidInput(_) => ErrorCode::ValidationError,
        DomainError::Repository(re) => spec_code_of_repo(re),
    }
}

/// The code a repository error is translated to.
pub open spec fn spec_code_of_repo(e: &RepoError) -> ErrorCode {
    match e {
        RepoError::NotFound => ErrorCode::DatabaseError,
        RepoError::Duplicate => ErrorCode::DuplicateError,
        RepoError::Database(_) => ErrorCode::DatabaseError,
        RepoError::Serialization(_) => ErrorCode::InternalError,
    }
}

/// The message a domain error is translated to.
pub open spec fn spec_message_of(e: &DomainError) -> Seq<char> {
    match e {
        DomainError::ChannelNotFound(id) => "Channel not found: "@ + id.0@,
        DomainError::BlockNotFound(id) => "Block not found: "@ + id.0@,
        DomainError::ConnectionNotFound(b, c) => "Connection not found: block "@ + b.0@
            + " in channel "@ + c.0@,
        DomainError::InvalidInput(msg) => msg@,
        DomainError::Repository(re) => spec_message_of_repo(re),
    }
}

/// The message a repository error is translated to.
pub open spec fn spec_message_of_repo(e: &RepoError) -> Seq<char> {
    match e {
        RepoError::NotFound => "Record not found"@,
        RepoError::Duplicate => "Record already exists"@,
        RepoError::Database(msg) => msg@,
        RepoError::Serialization(msg) => "Serialization error: "@ + msg@,
    }
}

/// The entity id a domain error carries for the frontend, if any.
pub open spec fn spec_entity_of(e: &DomainError) -> Option<Seq<char>> {
    match e {
        DomainError::ChannelNotFound(id) => Some(id.0@),
        DomainError::BlockNotFound(id) => Some(id.0@),
        _ => None,
    }
}

impl TauriError {
    /// Create a new error with the given code and message.
    pub fn new(code: ErrorCode, message: String) -> (r: Self)
        ensures
            r.code == code,
            r.message == message,
            r.entity_id is None,
    {
        Self { code, message, entity_id: None }
    }

    /// Create an error with an associated entity ID.
    pub fn with_entity(code: ErrorCode, message: String, entity_id: String) -> (r: Self)
        ensures
            r.code == code,
            r.message == message,
            r.entity_id == Some(entity_id),
    {
        Self { code, message, entity_id: Some(entity_id) }
    }

    /// Create an initialization error.
    pub fn initialization(message: String) -> (r: Self)
        ensures
            r.code == ErrorCode::InitializationError,
            r.message == message,
            r.entity_id is None,
    {
        Self::new(ErrorCode::InitializationError, message)
    }

    /// Create an internal error (for unexpected failures).
    pub fn internal(message: String) -> (r: Self)
        ensures
            r.code == ErrorCode::InternalError,
            r.message == message,
            r.entity_id is None,
    {
        Self::new(ErrorCode::InternalError, message)
    }

    /// Create a media error (for import, download and file operations).
    pub fn media(message: String) -> (r: Self)
        ensures
            r.code == ErrorCode::MediaError,
            r.message == message,
            r.entity_id is None,
    {
        Self::new(ErrorCode::MediaError, message)
    }

    /// Translate a repository error for the IPC boundary.
    pub fn from_repo(e: RepoError) -> (r: Self)
        ensures
            r.code == spec_code_of_repo(&e),
            r.message@ == spec_message_of_repo(&e),
            r.entity_id is None,
    {
        match e {
            RepoError::NotFound => Self::new(ErrorCode::DatabaseError, "Record not found".to_owned()),
            RepoError::Duplicate => Self::new(
                ErrorCode::DuplicateError,
                "Record already exists".to_owned(),
            ),
            RepoError::Database(msg) => Self::new(ErrorCode::DatabaseError, msg),
            RepoError::Serialization(msg) => {
                let mut m = "Serialization error: ".to_owned();
                m.append(msg.as_str());
                Self::new(ErrorCode::InternalError, m)
            },
        }
    }

    /// Translate a domain error for the IPC boundary, keeping the entity
    /// id where one applies.
    pub fn from_domain(e: DomainError) -> (r: Self)
        ensures
            r.code == spec_code_of(&e),
            r.message@ == spec_message_of(&e),
            match spec_entity_of(&e) {
                Some(s) => r.entity_id matches Some(x) && x@ == s,
                None => r.entity_id is None,
            },
    {
        match e {
            DomainError::ChannelNotFound(id) => {
                let mut m = "Channel not found: ".to_owned();
                m.append(id.0.as_str());
                Self::with_entity(ErrorCode::ChannelNotFound, m, id.0)
            },
            DomainError::BlockNotFound(id) => {
                let mut m = "Block not found: ".to_owned();
                m.append(id.0.as_str());
                Self::with_entity(ErrorCode::BlockNotFound, m, id.0)
            },
            DomainError::ConnectionNotFound(block_id, channel_id) => {
                let mut m = "Connection not found: block ".to_owned();
                m.append(block_id.0.as_str());
                m.append(" in channel ");
                m.append(channel_id.0.as_str());
                Self::new(ErrorCode::ConnectionNotFound, m)
            },
            DomainError::InvalidInput(msg) => Self::new(ErrorCode::ValidationError, msg),
            DomainError::Repository(re) => Self::from_repo(re),
        }
    }
}

impl From<DomainError> for TauriError {
    fn from(e: DomainError) -> (r: Self) {
        TauriError::from_domain(e)
    }
}

impl vstd::std_specs::convert::FromSpecImpl<DomainError> for TauriError {
    open spec fn obeys_from_spec() -> bool {
        false
    }

    open spec fn from_spec(e: DomainError) -> Self {
        arbitrary()
    }
}

impl From<RepoError> for TauriError {
    fn from(e: RepoError) -> (r: Self) {
        TauriError::from_repo(e)
    }
}

impl vstd::std_specs::convert::FromSpecImpl<RepoError> for TauriError {
    open spec fn obeys_from_spec() -> bool {
        false
    }

    open spec fn from_spec(e: RepoError) -> Self {
        arbitrary()
    }
}

/// Result type for IPC commands.
pub type CommandResult<T> = Result<T, TauriError>;

} // verus!
