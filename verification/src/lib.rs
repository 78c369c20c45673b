//! Verified decision engine for installing symbolic links to configuration
//! files kept in a central dotfiles directory.
//!
//! Paths are handled as byte strings (`Vec<u8>`), the form in which a Unix
//! filesystem actually stores them.  The library expands shell-style
//! variables in a declared link path, splits it into parent directory and
//! file name, classifies what action a (origin, link) pair requires given an
//! observation of the current filesystem state, and emits a plan of concrete
//! steps (create directories, rename the occupant to a timestamped backup,
//! create the symlink).  An unverified front end gathers the observations,
//! executes the steps, and renders messages.

use vstd::prelude::*;

pub mod errors;
pub mod env;
pub mod expand;
pub mod paths;
pub mod backup;
pub mod classify;
pub mod plan;
pub mod model;

verus! {

/// Command-line options: the dotfiles directory and the name of the file
/// that lists the desired symlinks.  The front end parses the real command
/// line into its own copy of this struct and converts.
pub struct Cli {
    /// Directory that holds the configuration files.
    pub dir: String,
    /// YAML file that lists the desired symlinks, relative to `dir`.
    pub config: String,
}

} // verus!
