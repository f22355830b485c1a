//! Port definitions (interfaces) for the domain, and their in-memory
//! adapters.
//!
//! Ports define the contracts that storage adapters must honor.  The
//! service depends only on these traits, never on a concrete adapter.

pub mod memory;
pub mod repository;

pub use memory::InMemoryBlockRepository;
pub use memory::InMemoryChannelRepository;
pub use memory::InMemoryConnectionRepository;
pub use repository::BlockRepository;
pub use repository::ChannelRepository;
pub use repository::ConnectionRepository;
