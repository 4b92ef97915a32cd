//! The state storage and consistency layer of an execution node, with the
//! node's configuration, transaction codec and classification rules.
//!
//! Blocks are executed ahead of finality against overlay states, each block
//! leaving a change set; once consensus finalizes a digest, the change sets
//! of its unpersisted ancestors are merged oldest first and committed to the
//! partitioned store, which commits to its contents with a state root.

pub mod primitives;
pub mod text;
pub mod sync;

pub mod change_set;
pub mod root;
pub mod store;
pub mod state_db;
pub mod handle;
pub mod overlay;
pub mod snapshot;
pub mod laws;

pub mod block;
pub mod consensus;
pub mod tx;
pub mod classifier;
pub mod precompiles;

pub mod keys;
pub mod config;
pub mod service;
pub mod archive;
pub mod simplex;
pub mod transport;
pub mod simulation;
