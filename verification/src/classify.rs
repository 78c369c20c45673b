//! Classifying what one (origin, link) pair requires, as a pure function of
//! the resolved origin and one observation of the filesystem around the
//! link path.

use vstd::prelude::*;
use crate::env::bytes_eq;

verus! {

/// What occupies the link path right now.  A plain existence check follows
/// symlinks, so a dangling symlink reads as vacant — exactly as the
/// filesystem reports it.
#[derive(Debug)]
pub enum Occupant {
    /// Nothing is there.
    Vacant,
    /// A symlink whose target canonicalizes to the held path.
    SymlinkTo(Vec<u8>),
    /// Something else exists there: a regular file, a directory, or a link
    /// that cannot be read.
    Present,
}

/// One look at the filesystem around the link path, taken by the front end
/// just before planning.
#[derive(Debug)]
pub struct LinkObservation {
    /// The canonical form of the link's parent directory, or `None` when
    /// the parent does not exist.
    pub parent_canonical: Option<Vec<u8>>,
    /// What occupies the link path itself.
    pub occupant: Occupant,
}

/// The action one pair requires.  Classification computes it; execution
/// consumes it.
#[derive(Clone, Copy, Debug, PartialEq, Eq, Structural)]
pub enum InstallAction {
    /// The link already points at the origin; nothing to do.
    Skip,
    /// Something else occupies the link path: rename it aside, then link.
    BackupAndLink,
    /// The parent directory is missing: create it, then link.
    CreateDirAndLink,
    /// The path is free and its parent exists: just link.
    Link,
}

/// Ghost mirror of `Occupant`, over mathematical byte strings.
pub enum OccupantModel {
    Vacant,
    SymlinkTo(Seq<u8>),
    Present,
}

/// Ghost mirror of `LinkObservation`.
pub struct ObservationModel {
    pub parent_canonical: Option<Seq<u8>>,
    pub occupant: OccupantModel,
}

impl View for Occupant {
    type V = OccupantModel;

    open spec fn view(&self) -> OccupantModel {
        match self {
            Occupant::Vacant => OccupantModel::Vacant,
            Occupant::SymlinkTo(t) => OccupantModel::SymlinkTo(t@),
            Occupant::Present => OccupantModel::Present,
        }
    }
}

impl View for LinkObservation {
    type V = ObservationModel;

    open spec fn view(&self) -> ObservationModel {
        ObservationModel {
            parent_canonical: match self.parent_canonical {
                Some(p) => Some(p@),
                None => None,
            },
            occupant: self.occupant@,
        }
    }
}

/// The action required: create the parent when it is missing; skip when the
/// link already resolves to the origin; back up any other occupant; plain
/// link otherwise.
pub open spec fn spec_choose_install_action(origin_abs: Seq<u8>, obs: ObservationModel)
    -> InstallAction {
    match obs.parent_canonical {
        None => InstallAction::CreateDirAndLink,
        Some(_) => match obs.occupant {
            OccupantModel::SymlinkTo(t) => if t == origin_abs {
                InstallAction::Skip
            } else {
                InstallAction::BackupAndLink
            },
            OccupantModel::Present => InstallAction::BackupAndLink,
            OccupantModel::Vacant => InstallAction::Link,
        },
    }
}

/// Classify what installing the pair requires.
///
/// `origin_abs` is the canonical origin path; `obs` is the current look at
/// the filesystem around the link path.
pub fn choose_install_action(origin_abs: &Vec<u8>, obs: &LinkObservation) -> (a: InstallAction)
    ensures
        a == spec_choose_install_action(origin_abs@, obs@),
{
    match &obs.parent_canonical {
        None => InstallAction::CreateDirAndLink,
        Some(_) => match &obs.occupant {
            Occupant::SymlinkTo(t) => if bytes_eq(t, origin_abs) {
                InstallAction::Skip
            } else {
                InstallAction::BackupAndLink
            },
            Occupant::Present => InstallAction::BackupAndLink,
            Occupant::Vacant => InstallAction::Link,
        },
    }
}

} // verus!
