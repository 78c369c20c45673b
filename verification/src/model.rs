//! A model filesystem, and the laws of the installer proved over it.
//!
//! The model is a map from canonical paths to nodes; a `Symlink` node
//! stands for a link whose target exists and is recorded in canonical form.
//! The laws speak of link paths whose parent component is already canonical
//! (joining parent and name gives the path back), which is how the front
//! end feeds the planner.

use vstd::prelude::*;
use crate::backup::{Timestamp, lemma_backup_name_longer, spec_backup_file_name};
use crate::classify::{ObservationModel, OccupantModel};
use crate::paths::{
    lemma_filename_nonempty, spec_join, spec_link_filename, spec_link_parent, spec_path_splits,
};
use crate::plan::{PlanModel, spec_plan_install};

verus! {

/// One entry of the model filesystem.  `File` carries its bytes, so that
/// moving a node demonstrably moves its content.
pub enum FsNode {
    Dir,
    File(Seq<u8>),
    Symlink(Seq<u8>),
}

/// A filesystem: canonical paths to nodes.
pub struct FsModel {
    pub nodes: Map<Seq<u8>, FsNode>,
}

/// What an observer reports about the link path and its parent.
pub open spec fn spec_observe(fs: FsModel, parent: Seq<u8>, link: Seq<u8>) -> ObservationModel {
    ObservationModel {
        parent_canonical: if fs.nodes.dom().contains(parent) && fs.nodes[parent] is Dir {
            Some(parent)
        } else {
            None
        },
        occupant: if fs.nodes.dom().contains(link) {
            match fs.nodes[link] {
                FsNode::Symlink(t) => OccupantModel::SymlinkTo(t),
                _ => OccupantModel::Present,
            }
        } else {
            OccupantModel::Vacant
        },
    }
}

/// The filesystem after the front end executes `p`.  Renaming a missing
/// path fails, so a backup of nothing changes nothing.
pub open spec fn spec_apply_plan(fs: FsModel, p: PlanModel) -> FsModel {
    match p {
        PlanModel::Skip => fs,
        PlanModel::Link { link, origin } => FsModel {
            nodes: fs.nodes.insert(link, FsNode::Symlink(origin)),
        },
        PlanModel::CreateDirAndLink { parent, link, origin } => FsModel {
            nodes: fs.nodes.insert(parent, FsNode::Dir).insert(link, FsNode::Symlink(origin)),
        },
        PlanModel::BackupAndLink { backup_from, backup_to, link, origin } => {
            if fs.nodes.dom().contains(backup_from) {
                let n = fs.nodes[backup_from];
                FsModel {
                    nodes: fs.nodes.remove(backup_from).insert(backup_to, n).insert(
                        link,
                        FsNode::Symlink(origin),
                    ),
                }
            } else {
                fs
            }
        },
    }
}

/// Law: installing the same pair twice mutates the filesystem only on the
/// first run.  Whatever the first plan was, after executing it the second
/// planning of the same pair yields `Skip`, and a `Skip` plan changes
/// nothing.
pub proof fn lemma_install_idempotent(
    fs: FsModel,
    origin: Seq<u8>,
    link: Seq<u8>,
    ts: Timestamp,
    ts2: Timestamp,
)
    requires
        spec_path_splits(link),
        spec_join(spec_link_parent(link), spec_link_filename(link)) == link,
    ensures
        ({
            let parent = spec_link_parent(link);
            let obs = spec_observe(fs, parent, link);
            let r = spec_plan_install(origin, link, obs, ts);
            &&& r is Ok
            &&& ({
                let fs1 = spec_apply_plan(fs, r->Ok_0);
                let obs1 = spec_observe(fs1, parent, link);
                &&& spec_plan_install(origin, link, obs1, ts2) == Ok::<PlanModel, Seq<u8>>(
                    PlanModel::Skip,
                )
                &&& spec_apply_plan(fs1, PlanModel::Skip) == fs1
            })
        }),
{
    let parent = spec_link_parent(link);
    let name = spec_link_filename(link);
    lemma_filename_nonempty(link);
    lemma_backup_name_longer(name, ts);
    let bname = spec_backup_file_name(name, ts);
    assert(link.len() > parent.len());
    assert(spec_join(parent, bname).len() > link.len());
}

/// Law: no data is lost.  Whatever occupies the link path and does not
/// already resolve to the origin is renamed, node and content intact, to
/// the backup path; the link path then holds the new symlink.
pub proof fn lemma_no_data_loss(
    fs: FsModel,
    origin: Seq<u8>,
    link: Seq<u8>,
    ts: Timestamp,
)
    requires
        spec_path_splits(link),
        spec_join(spec_link_parent(link), spec_link_filename(link)) == link,
        fs.nodes.dom().contains(spec_link_parent(link)),
        fs.nodes[spec_link_parent(link)] is Dir,
        fs.nodes.dom().contains(link),
        !(fs.nodes[link] matches FsNode::Symlink(t) && t == origin),
    ensures
        ({
            let parent = spec_link_parent(link);
            let obs = spec_observe(fs, parent, link);
            let r = spec_plan_install(origin, link, obs, ts);
            let backup_to = spec_join(parent, spec_backup_file_name(spec_link_filename(link), ts));
            &&& r == Ok::<PlanModel, Seq<u8>>(
                PlanModel::BackupAndLink { backup_from: link, backup_to, link, origin },
            )
            &&& ({
                let fs1 = spec_apply_plan(fs, r->Ok_0);
                &&& fs1.nodes.dom().contains(backup_to)
                &&& fs1.nodes[backup_to] == fs.nodes[link]
                &&& fs1.nodes.dom().contains(link)
                &&& fs1.nodes[link] == FsNode::Symlink(origin)
            })
        }),
{
    let parent = spec_link_parent(link);
    let name = spec_link_filename(link);
    lemma_filename_nonempty(link);
    lemma_backup_name_longer(name, ts);
    let bname = spec_backup_file_name(name, ts);
    assert(link.len() > parent.len());
    assert(spec_join(parent, bname).len() > link.len());
}

/// Law: a missing parent is recovered.  When the parent directory does not
/// exist, the plan creates it, and afterwards the parent exists and holds
/// the symlink to the origin.
pub proof fn lemma_missing_parent_recovery(
    fs: FsModel,
    origin: Seq<u8>,
    link: Seq<u8>,
    ts: Timestamp,
)
    requires
        spec_path_splits(link),
        spec_join(spec_link_parent(link), spec_link_filename(link)) == link,
        !(fs.nodes.dom().contains(spec_link_parent(link)) && fs.nodes[spec_link_parent(link)]
            is Dir),
    ensures
        ({
            let parent = spec_link_parent(link);
            let obs = spec_observe(fs, parent, link);
            let r = spec_plan_install(origin, link, obs, ts);
            &&& r == Ok::<PlanModel, Seq<u8>>(
                PlanModel::CreateDirAndLink { parent, link, origin },
            )
            &&& ({
                let fs1 = spec_apply_plan(fs, r->Ok_0);
                &&& fs1.nodes.dom().contains(parent)
                &&& fs1.nodes[parent] is Dir
                &&& fs1.nodes.dom().contains(link)
                &&& fs1.nodes[link] == FsNode::Symlink(origin)
            })
        }),
{
    let parent = spec_link_parent(link);
    lemma_filename_nonempty(link);
    assert(link.len() > parent.len());
}

} // verus!
