//! Domain models: field updates, pagination, channels, blocks, connections.

pub mod block;
pub mod channel;
pub mod common;
pub mod connection;

pub use block::Block;
pub use block::BlockContent;
pub use block::BlockId;
pub use block::BlockUpdate;
pub use block::NewBlock;
pub use channel::Channel;
pub use channel::ChannelId;
pub use channel::ChannelUpdate;
pub use channel::NewChannel;
pub use common::FieldUpdate;
pub use common::Page;
pub use connection::Connection;
pub use connection::NewConnection;
