//! A verified engine for a read-only, HTTP-backed music filesystem.
//!
//! Remote tracks appear as regular files; each `read(ino, offset, size)` is
//! translated into HTTP range requests against the backing server. The crate
//! holds the verified core: the inode/attribute table built from the remote
//! catalog, the content-length cache, the bounded file-head byte cache with
//! its eviction rule, the read engine that picks between the prefix and tail
//! regimes, the synthetic metrics file, and the translation of transport
//! failures into POSIX error numbers.
//!
//! The engine performs no I/O itself: whenever it needs the network it hands
//! the caller a [`engine::ReadStep`] naming the HTTP request to perform, and
//! the caller feeds the response back in. The unverified binary around this
//! crate owns the sockets, the command line, and the FUSE loop.
use vstd::prelude::*;

pub mod attr;
pub mod config;
pub mod engine;
pub mod head_cache;
pub mod laws;
pub mod length_cache;
pub mod metrics;
pub mod model;
pub mod table;
pub mod text;
pub mod track;

verus! {

/// POSIX error number returned when a transport error or a missing header
/// makes a read impossible.
pub const EIO: i32 = 5;

/// POSIX error number returned for a name or inode that does not exist.
pub const ENOENT: i32 = 2;

} // verus!
