//! A file-backed record store for a small project/client tracker.
//!
//! Clients and projects live in two flat CSV files; every project also owns
//! a directory tree under a single projects root.  The store assigns ids,
//! keeps project rows pointing at existing clients, refuses folder-name
//! collisions, and says exactly which directory must be created or renamed
//! alongside each table change.  The tables, the codec and every decision
//! are verified; reading and writing the actual files and directories is
//! the caller's part.

pub mod client_store;
pub mod codec;
pub mod csvio;
pub mod frontend;
pub mod ids;
pub mod model;
pub mod paths;
pub mod project_store;
pub mod text;
