//! A lookaside cache keyed by inode, as the caching bridge shell keeps
//! it: for each inode the reply offset it was announced under, its kind,
//! and its entry name.

use std::collections::HashMap;
use vstd::prelude::*;
use crate::node::FileType;

verus! {

broadcast use vstd::std_specs::hash::group_hash_axioms;

/// The cache: inode to (reply offset, kind, entry name).
#[derive(Debug)]
pub struct CacheFs {
    pub inode_cache: HashMap<u64, (i64, FileType, Vec<u8>)>,
}

impl CacheFs {
    /// An empty cache.
    pub fn new() -> (r: CacheFs)
        ensures
            r.inode_cache@ == Map::<u64, (i64, FileType, Vec<u8>)>::empty(),
    {
        CacheFs { inode_cache: HashMap::new() }
    }

    /// Records what inode `ino` was announced as; a later record for the
    /// same inode displaces the earlier one.
    pub fn remember(&mut self, ino: u64, offset: i64, kind: FileType, name: Vec<u8>)
        ensures
            final(self).inode_cache@ == old(self).inode_cache@.insert(ino, (offset, kind, name)),
    {
        self.inode_cache.insert(ino, (offset, kind, name));
    }

    /// What inode `ino` was announced as, if anything.
    pub fn cached(&self, ino: u64) -> (r: Option<&(i64, FileType, Vec<u8>)>)
        ensures
            match r {
                Some(v) => self.inode_cache@.contains_key(ino) && *v == self.inode_cache@[ino],
                None => !self.inode_cache@.contains_key(ino),
            },
    {
        self.inode_cache.get(&ino)
    }
}

} // verus!
