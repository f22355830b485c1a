//! Domain core of a personal content-curation application.
//!
//! Users collect pieces of content ("blocks") into named collections
//! ("channels"); a block is attached to a channel through a "connection"
//! that carries an ordering position.  This crate holds the domain logic:
//! the entity models, the validation rules, the repository ports with their
//! contracts, verified in-memory adapters, and the service that enforces the
//! cross-aggregate invariants (unique connections, ordered positions,
//! cascading deletes, atomic batches).

pub mod datetime;
pub mod error;
pub mod ipc;
pub mod laws;
pub mod models;
pub mod ports;
pub mod seqs;
pub mod services;
pub mod text;
pub mod validation;
