//! Connection model - links blocks to channels.

use vstd::prelude::*;

use crate::models::block::BlockId;
use crate::models::channel::ChannelId;
use crate::models::common::now_millis;

verus! {

/// A connection links a block to a channel.
///
/// Blocks can belong to multiple channels, and this is the join entity.
/// The position field orders blocks within a channel.
#[derive(Debug)]
pub struct Connection {
    /// The block being connected.
    pub block_id: BlockId,
    /// The channel the block is connected to.
    pub channel_id: ChannelId,
    /// Position within the channel (for ordering).
    pub position: i32,
    /// When this connection was created, in milliseconds since the Unix
    /// epoch.
    pub connected_at: i64,
}

impl Connection {
    /// Create a new connection.
    pub fn new(block_id: BlockId, channel_id: ChannelId, position: i32) -> (r: Self)
        ensures
            r.block_id == block_id,
            r.channel_id == channel_id,
            r.position == position,
    {
        Self { block_id, channel_id, position, connected_at: now_millis() }
    }
}

impl Clone for Connection {
    fn clone(&self) -> (r: Self)
        ensures
            r == *self,
    {
        Self {
            block_id: self.block_id.clone(),
            channel_id: self.channel_id.clone(),
            position: self.position,
            connected_at: self.connected_at,
        }
    }
}

/// Data for creating a new connection.
#[derive(Debug)]
pub struct NewConnection {
    pub block_id: BlockId,
    pub channel_id: ChannelId,
    /// Optional position; if not provided, append to end.
    pub position: Option<i32>,
}

} // verus!
