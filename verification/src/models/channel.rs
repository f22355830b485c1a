//! Channel model - a collection of blocks.

use vstd::prelude::*;

use crate::models::common::FieldUpdate;
use crate::models::common::fresh_id;
use crate::models::common::now_millis;

verus! {

/// Unique identifier for a channel.
#[derive(Debug, Eq, Hash)]
pub struct ChannelId(pub String);

impl ChannelId {
    /// Create a new channel ID.
    pub fn new() -> (r: Self)
        ensures
            r.0@.len() == 36,
    {
        Self(fresh_id())
    }

    /// Create a channel ID from an existing string.
    pub fn from_string(s: String) -> (r: Self)
        ensures
            r.0 == s,
    {
        Self(s)
    }
}

impl Clone for ChannelId {
    fn clone(&self) -> (r: Self)
        ensures
            r == *self,
    {
        Self(self.0.clone())
    }
}

impl PartialEq for ChannelId {
    fn eq(&self, other: &ChannelId) -> bool {
        self.0 == other.0
    }
}

impl vstd::std_specs::cmp::PartialEqSpecImpl for ChannelId {
    open spec fn obeys_eq_spec() -> bool {
        true
    }

    open spec fn eq_spec(&self, other: &ChannelId) -> bool {
        self.0@ == other.0@
    }
}

impl Default for ChannelId {
    fn default() -> (r: Self)
        ensures
            r.0@.len() == 36,
    {
        Self::new()
    }
}

/// A channel is a collection of blocks.
///
/// Timestamps are milliseconds since the Unix epoch.
#[derive(Debug)]
pub struct Channel {
    /// Unique identifier.
    pub id: ChannelId,
    /// Display title.
    pub title: String,
    /// Optional description.
    pub description: Option<String>,
    /// When the channel was created.
    pub created_at: i64,
    /// When the channel was last updated.
    pub updated_at: i64,
}

impl Channel {
    /// Create a new channel with the given title.
    pub fn new(title: String) -> (r: Self)
        ensures
            r.id.0@.len() == 36,
            r.title == title,
            r.description is None,
            r.created_at == r.updated_at,
    {
        let now = now_millis();
        Self { id: ChannelId::new(), title, description: None, created_at: now, updated_at: now }
    }

    /// Create a new channel with title and description.
    pub fn with_description(title: String, description: String) -> (r: Self)
        ensures
            r.id.0@.len() == 36,
            r.title == title,
            r.description == Some(description),
            r.created_at == r.updated_at,
    {
        let mut channel = Self::new(title);
        channel.description = Some(description);
        channel
    }
}

impl Clone for Channel {
    fn clone(&self) -> (r: Self)
        ensures
            r == *self,
    {
        Self {
            id: self.id.clone(),
            title: self.title.clone(),
            description: clone_opt_string(&self.description),
            created_at: self.created_at,
            updated_at: self.updated_at,
        }
    }
}

/// Clone an optional string, field for field.
pub(crate) fn clone_opt_string(o: &Option<String>) -> (r: Option<String>)
    ensures
        r == *o,
{
    match o {
        Some(s) => Some(s.clone()),
        None => None,
    }
}

/// Data for creating a new channel.
#[derive(Debug, Clone)]
pub struct NewChannel {
    pub title: String,
    pub description: Option<String>,
}

/// Data for updating a channel.
#[derive(Debug, Clone, Default)]
pub struct ChannelUpdate {
    /// New title (None = keep current).
    pub title: Option<String>,
    /// Description update (Keep/Clear/Assign).
    pub description: FieldUpdate<String>,
}

} // verus!
