//! An in-memory inode layer for serving a pluggable storage backend through a
//! userspace-filesystem bridge.
//!
//! The crate models the core of such a server: a sharded inode tree keyed by
//! monotonically assigned inode numbers (`tree`), a manager that adds a
//! name index on top of it (`manager`), a filesystem facade that combines the
//! manager with a storage backend and implements the lazy-fetch policy
//! (`filesystem`), and a request translator that turns kernel-style calls
//! into facade calls, allocates open handles, and maps errors to numeric
//! codes (`fuse`).

pub mod backend;
pub mod bytes;
pub mod cachefs;
pub mod counter;
pub mod error;
pub mod filer;
pub mod filesystem;
pub mod fuse;
pub mod manager;
pub mod memory;
pub mod node;
pub mod s3;
pub mod simple;
pub mod stat;
pub mod tree;
pub mod util;
