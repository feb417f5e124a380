//! The filesystem statistics block reported by `statfs`.

use vstd::prelude::*;

verus! {

/// Filesystem statistics, as the kernel bridge wants them.
#[derive(Clone, Copy, Debug, PartialEq, Eq, Structural)]
pub struct Stat {
    pub blocks: u64,
    pub blocks_free: u64,
    pub blocks_available: u64,
    pub files: u64,
    pub files_free: u64,
    pub block_size: u32,
    pub namelen: u32,
    pub frsize: u32,
}

} // verus!
