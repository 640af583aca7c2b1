//! The stateful core of a pass-through filesystem: a bounded inode cache with
//! a ring journal, a registry of open handles that pins inodes, the
//! per-request identity envelope and the directory read-stream cache.

pub mod fasthashes;
pub mod ring;
pub mod clock;
pub mod journal;
pub mod filehandles;
pub mod cachemodel;
pub mod inodecache;
pub mod cachelaws;
pub mod helper;
pub mod mirrorfs;
pub mod user;
pub mod dentries;
