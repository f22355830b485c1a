//! Error types for the domain.

use vstd::prelude::*;

use crate::models::block::BlockId;
use crate::models::channel::ChannelId;

verus! {

/// Errors that can occur in repository operations.
#[derive(Debug)]
pub enum RepoError {
    /// Record not found.
    NotFound,
    /// Duplicate record.
    Duplicate,
    /// Database error.
    Database(String),
    /// Serialization error.
    Serialization(String),
}

impl RepoError {
    /// Create a database error from an error message.
    pub fn database(msg: String) -> (r: Self)
        ensures
            r == RepoError::Database(msg),
    {
        Self::Database(msg)
    }

    /// Create a serialization error from an error message.
    pub fn serialization(msg: String) -> (r: Self)
        ensures
            r == RepoError::Serialization(msg),
    {
        Self::Serialization(msg)
    }

    /// The message that describes this error.
    pub fn message(&self) -> (r: String)
        ensures
            r@ == spec_repo_message(self),
    {
        match self {
            Self::NotFound => "not found".to_owned(),
            Self::Duplicate => "duplicate record".to_owned(),
            Self::Database(msg) => {
                let mut r = "database error: ".to_owned();
                r.append(msg.as_str());
                r
            },
            Self::Serialization(msg) => {
                let mut r = "serialization error: ".to_owned();
                r.append(msg.as_str());
                r
            },
        }
    }
}

/// The text that [`RepoError::message`] returns for each variant.
pub open spec fn spec_repo_message(e: &RepoError) -> Seq<char> {
    match e {
        RepoError::NotFound => "not found"@,
        RepoError::Duplicate => "duplicate record"@,
        RepoError::Database(msg) => "database error: "@ + msg@,
        RepoError::Serialization(msg) => "serialization error: "@ + msg@,
    }
}

/// Errors that can occur in domain operations.
#[derive(Debug)]
pub enum DomainError {
    /// Channel not found.
    ChannelNotFound(ChannelId),
    /// Block not found.
    BlockNotFound(BlockId),
    /// Connection not found: the block and channel whose pair is missing.
    ConnectionNotFound(BlockId, ChannelId),
    /// Invalid input.
    InvalidInput(String),
    /// Repository error.
    Repository(RepoError),
}

impl DomainError {
    /// The message that describes this error.
    pub fn message(&self) -> (r: String)
        ensures
            r@ == spec_domain_message(self),
    {
        match self {
            Self::ChannelNotFound(id) => {
                let mut r = "channel not found: ".to_owned();
                r.append(id.0.as_str());
                r
            },
            Self::BlockNotFound(id) => {
                let mut r = "block not found: ".to_owned();
                r.append(id.0.as_str());
                r
            },
            Self::ConnectionNotFound(block_id, channel_id) => {
                let mut r = "connection not found: block ".to_owned();
                r.append(block_id.0.as_str());
                r.append(" in channel ");
                r.append(channel_id.0.as_str());
                r
            },
            Self::InvalidInput(msg) => {
                let mut r = "invalid input: ".to_owned();
                r.append(msg.as_str());
                r
            },
            Self::Repository(e) => {
                let mut r = "repository error: ".to_owned();
                let inner = e.message();
                r.append(inner.as_str());
                r
            },
        }
    }
}

/// The text that [`DomainError::message`] returns for each variant.
pub open spec fn spec_domain_message(e: &DomainError) -> Seq<char> {
    match e {
        DomainError::ChannelNotFound(id) => "channel not found: "@ + id.0@,
        DomainError::BlockNotFound(id) => "block not found: "@ + id.0@,
        DomainError::ConnectionNotFound(b, c) => "connection not found: block "@ + b.0@
            + " in channel "@ + c.0@,
        DomainError::InvalidInput(msg) => "invalid input: "@ + msg@,
        DomainError::Repository(inner) => "repository error: "@ + spec_repo_message(inner),
    }
}

/// Result type for domain operations.
pub type DomainResult<T> = Result<T, DomainError>;

/// Result type for repository operations.
pub type RepoResult<T> = Result<T, RepoError>;

impl From<RepoError> for DomainError {
    fn from(e: RepoError) -> (r: Self) {
        DomainError::Repository(e)
    }
}

impl vstd::std_specs::convert::FromSpecImpl<RepoError> for DomainError {
    open spec fn obeys_from_spec() -> bool {
        true
    }

    open spec fn from_spec(e: RepoError) -> Self {
        DomainError::Repository(e)
    }
}

} // verus!
