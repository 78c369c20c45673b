//! Turning one (origin, link) pair and a filesystem observation into the
//! concrete steps the front end must execute.

use vstd::prelude::*;
use crate::backup::{Timestamp, backup_file_name, spec_backup_file_name, local_now};
use crate::classify::{
    InstallAction, LinkObservation, ObservationModel, choose_install_action,
    spec_choose_install_action,
};
use crate::errors::LinkError;
use crate::paths::{
    copy_range, join_path, link_filename, link_parent, spec_join, spec_link_filename,
    spec_link_parent, spec_path_splits,
};

verus! {

/// The steps that install one pair, with every path pinned down.  The front
/// end executes them in order: directories first, then the backup rename,
/// then the symlink; a failed rename stops the pair before the symlink.
#[derive(Debug)]
pub enum InstallPlan {
    /// The link already points at the origin: touch nothing.
    Skip,
    /// Create a symlink at `link` pointing at `origin`.
    Link { link: Vec<u8>, origin: Vec<u8> },
    /// Create `parent` (with any missing ancestors), then the symlink.
    CreateDirAndLink { parent: Vec<u8>, link: Vec<u8>, origin: Vec<u8> },
    /// Rename the occupant from `backup_from` to `backup_to`, then create
    /// the symlink.
    BackupAndLink { backup_from: Vec<u8>, backup_to: Vec<u8>, link: Vec<u8>, origin: Vec<u8> },
}

/// Ghost mirror of `InstallPlan`.
pub enum PlanModel {
    Skip,
    Link { link: Seq<u8>, origin: Seq<u8> },
    CreateDirAndLink { parent: Seq<u8>, link: Seq<u8>, origin: Seq<u8> },
    BackupAndLink { backup_from: Seq<u8>, backup_to: Seq<u8>, link: Seq<u8>, origin: Seq<u8> },
}

impl View for InstallPlan {
    type V = PlanModel;

    open spec fn view(&self) -> PlanModel {
        match self {
            InstallPlan::Skip => PlanModel::Skip,
            InstallPlan::Link { link, origin } => PlanModel::Link { link: link@, origin: origin@ },
            InstallPlan::CreateDirAndLink { parent, link, origin } => PlanModel::CreateDirAndLink {
                parent: parent@,
                link: link@,
                origin: origin@,
            },
            InstallPlan::BackupAndLink { backup_from, backup_to, link, origin } => PlanModel::BackupAndLink {
                backup_from: backup_from@,
                backup_to: backup_to@,
                link: link@,
                origin: origin@,
            },
        }
    }
}

/// The first component of an optional path; meaningful only where the
/// option is known to be `Some`.
pub open spec fn opt_path(o: Option<Seq<u8>>) -> Seq<u8> {
    match o {
        Some(p) => p,
        None => Seq::empty(),
    }
}

/// The plan for one pair: `Err` carries the link path when it has no usable
/// file-name component; otherwise the plan of the classified action, with
/// the backup destination named after `ts`.
pub open spec fn spec_plan_install(
    origin: Seq<u8>,
    link: Seq<u8>,
    obs: ObservationModel,
    ts: Timestamp,
) -> Result<PlanModel, Seq<u8>> {
    if !spec_path_splits(link) {
        Err(link)
    } else {
        let name = spec_link_filename(link);
        match spec_choose_install_action(origin, obs) {
            InstallAction::Skip => Ok(PlanModel::Skip),
            InstallAction::Link => Ok(PlanModel::Link { link, origin }),
            InstallAction::CreateDirAndLink => Ok(
                PlanModel::CreateDirAndLink { parent: spec_link_parent(link), link, origin },
            ),
            InstallAction::BackupAndLink => {
                let pc = opt_path(obs.parent_canonical);
                Ok(
                    PlanModel::BackupAndLink {
                        backup_from: spec_join(pc, name),
                        backup_to: spec_join(pc, spec_backup_file_name(name, ts)),
                        link,
                        origin,
                    },
                )
            },
        }
    }
}

/// Plan the installation of one pair at the instant `ts`.
///
/// `origin_abs` is the canonical origin path, `link` the expanded link
/// path, `obs` the current look at the filesystem.  Returns `InvalidPath`
/// exactly when the link path has no usable file-name component.
pub fn plan_install(
    origin_abs: &Vec<u8>,
    link: &Vec<u8>,
    obs: &LinkObservation,
    ts: &Timestamp,
) -> (r: Result<InstallPlan, LinkError>)
    ensures
        match r {
            Ok(p) => spec_plan_install(origin_abs@, link@, obs@, *ts) == Ok::<PlanModel, Seq<u8>>(
                p@,
            ),
            Err(e) => e matches LinkError::InvalidPath { path } && spec_plan_install(
                origin_abs@,
                link@,
                obs@,
                *ts,
            ) == Err::<PlanModel, Seq<u8>>(path@),
        },
{
    let name = match link_filename(link) {
        Ok(n) => n,
        Err(e) => {
            return Err(e);
        },
    };
    match choose_install_action(origin_abs, obs) {
        InstallAction::Skip => Ok(InstallPlan::Skip),
        InstallAction::Link => {
            let l = copy_range(link, 0, link.len());
            let o = copy_range(origin_abs, 0, origin_abs.len());
            proof {
                assert(l@ =~= link@);
                assert(o@ =~= origin_abs@);
            }
            Ok(InstallPlan::Link { link: l, origin: o })
        },
        InstallAction::CreateDirAndLink => {
            let parent = match link_parent(link) {
                Ok(p) => p,
                Err(e) => {
                    return Err(e);
                },
            };
            let l = copy_range(link, 0, link.len());
            let o = copy_range(origin_abs, 0, origin_abs.len());
            proof {
                assert(l@ =~= link@);
                assert(o@ =~= origin_abs@);
            }
            Ok(InstallPlan::CreateDirAndLink { parent, link: l, origin: o })
        },
        InstallAction::BackupAndLink => {
            match &obs.parent_canonical {
                Some(pc) => {
                    let backup_from = join_path(pc, &name);
                    let bname = backup_file_name(&name, ts);
                    let backup_to = join_path(pc, &bname);
                    let l = copy_range(link, 0, link.len());
                    let o = copy_range(origin_abs, 0, origin_abs.len());
                    proof {
                        assert(l@ =~= link@);
                        assert(o@ =~= origin_abs@);
                    }
                    Ok(InstallPlan::BackupAndLink { backup_from, backup_to, link: l, origin: o })
                },
                None => unreached(),
            }
        },
    }
}

/// Whether `r` is the plan that `spec_plan_install` gives for the instant
/// `ts`: the shape of what `plan_install_now` returns.
pub open spec fn plan_now_matches(
    origin: Seq<u8>,
    link: Seq<u8>,
    obs: ObservationModel,
    r: Result<InstallPlan, LinkError>,
    ts: Timestamp,
) -> bool {
    ts.wf() && match r {
        Ok(p) => spec_plan_install(origin, link, obs, ts) == Ok::<PlanModel, Seq<u8>>(p@),
        Err(e) => e matches LinkError::InvalidPath { path } && spec_plan_install(
            origin,
            link,
            obs,
            ts,
        ) == Err::<PlanModel, Seq<u8>>(path@),
    }
}

/// Plan the installation of one pair at the current local time: the plan of
/// `plan_install` for some well-formed timestamp, the one the clock gave.
pub fn plan_install_now(origin_abs: &Vec<u8>, link: &Vec<u8>, obs: &LinkObservation) -> (r: Result<
    InstallPlan,
    LinkError,
>)
    ensures
        exists|ts: Timestamp| #[trigger] plan_now_matches(origin_abs@, link@, obs@, r, ts),
{
    let ts = local_now();
    let r = plan_install(origin_abs, link, obs, &ts);
    proof {
        assert(plan_now_matches(origin_abs@, link@, obs@, r, ts));
    }
    r
}

/// The canonical parent directory of the link, from the outcome of
/// canonicalizing it: the canonical form while the parent exists, or
/// `InvalidPath` naming the full link path when the parent vanished before
/// it could be resolved — the link path then has no parent to install into.
pub fn canonicalize_link_parent(
    link_parent: &Vec<u8>,
    link_filename: &Vec<u8>,
    canonical: Option<Vec<u8>>,
) -> (r: Result<Vec<u8>, LinkError>)
    ensures
        match canonical {
            Some(c) => r matches Ok(v) && v == c,
            None => r matches Err(LinkError::InvalidPath { path }) && path@ == spec_join(
                link_parent@,
                link_filename@,
            ),
        },
{
    match canonical {
        Some(c) => Ok(c),
        None => Err(LinkError::InvalidPath { path: join_path(link_parent, link_filename) }),
    }
}

/// The canonical origin path, from the outcome of canonicalizing it: the
/// canonical form when the origin exists, `OriginMissing` when it does not.
pub fn canonicalize_origin(origin: &Vec<u8>, canonical: Option<Vec<u8>>) -> (r: Result<
    Vec<u8>,
    LinkError,
>)
    ensures
        match canonical {
            Some(c) => r matches Ok(v) && v == c,
            None => r matches Err(LinkError::OriginMissing { path }) && path@ == origin@,
        },
{
    match canonical {
        Some(c) => Ok(c),
        None => Err(LinkError::OriginMissing { path: copy_range(origin, 0, origin.len()) }),
    }
}

} // verus!
