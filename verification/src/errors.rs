//! The closed taxonomy of per-pair failures.  Every error is scoped to one
//! (origin, link) pair; the caller reports it and moves on to the next pair.

use vstd::prelude::*;

verus! {

/// Why installing one (origin, link) pair failed.  Each variant carries the
/// offending data as plain bytes; rendering a message out of it is the front
/// end's concern.
#[derive(Debug)]
pub enum LinkError {
    /// The link path references an environment variable that is not defined.
    ExpansionError { var: Vec<u8> },
    /// The origin path does not exist under the dotfiles root.
    OriginMissing { path: Vec<u8> },
    /// The link path has no usable file-name component (e.g. it is the
    /// filesystem root).
    InvalidPath { path: Vec<u8> },
    /// Renaming the pre-existing occupant of the link path failed; the
    /// occupant is left untouched and no symlink is created.
    BackupFailed { path: Vec<u8>, os_error: Vec<u8> },
    /// The symlink call itself failed after any backup step had completed.
    LinkCreationFailed { path: Vec<u8>, os_error: Vec<u8> },
}

} // verus!
