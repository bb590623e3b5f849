//! A per-account hierarchical namespace of folder and file metadata, guarded
//! by a capability-based sharing engine.
//!
//! Each registered account owns a tree of folders whose root is a self-loop
//! node (its `parent` field equals its own id). Files are metadata records
//! listed by exactly one folder. Every mutation resolves the target's tree
//! root to establish a trust context, then checks the caller against
//! ownership or a recorded sharing grant before touching any table.
//!
//! All state lives in explicit in-memory tables held by [`contract::Contract`].
//! The host that embeds the library asserts each caller's identity; here it
//! is an explicit parameter of every mutating operation.

pub mod contract;
pub mod laws;
pub mod model;
pub mod types;

pub use contract::Contract;
pub use types::{ErrorKind, File, FolderV2, ShareDoc, User};
