//! Archiving engine: directory-tree to archive compression, archive to
//! directory-tree extraction, per-entry progress reporting and cooperative
//! cancellation.
//!
//! The engine works on an in-memory model of the filesystem: a tree of named
//! nodes whose file contents are byte vectors. A thin unverified shell reads
//! real directories into that model, hands the resulting archive bytes to
//! disk, and materializes extracted entries, so all decisions the engine
//! makes (ordering, naming, cancellation, path-safety checks) are proved
//! here.

pub mod archive;
pub mod compress;
pub mod extract;
pub mod laws;
pub mod paths;
pub mod state;
pub mod tree;

use vstd::prelude::*;

verus! {

/// The failure classes an operation can end with.
#[derive(Clone, Copy, PartialEq, Eq, Structural, Debug)]
pub enum ErrorKind {
    /// A path was missing or unreadable, or the container could not be
    /// written for an I/O reason.
    FilesystemError,
    /// The archive structure is corrupt, a member's checksum does not match,
    /// or a member's stored path would escape the extraction root.
    ArchiveFormatError,
    /// The lock guarding the shared run state was poisoned.
    ConcurrencyError,
}

} // verus!
