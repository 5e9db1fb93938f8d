//! The pack reconciler: given the tile list of an already-uploaded remote
//! pack (or its absence) and the count of freshly computed tiles, decides
//! which remote operations bring the pack in step with the new tiles.
//!
//! New tiles are named by their index into the new tile sequence, which is
//! row-major and shared by every consumer of the plan. Replacement is
//! positional: new tile `i` always lands in remote slot `i`, never matched by
//! content. When the new set is smaller than the remote one, the trailing
//! remote entries are left untouched and become stale leftovers; that is the
//! documented behaviour, not an accident of this module.

use vstd::prelude::*;

verus! {

/// What the core knows of an existing remote pack: the opaque remote
/// identifier of the tile at each position.
#[derive(Clone, Debug, PartialEq, Eq)]
pub struct RemotePack {
    pub remote_ids: Vec<String>,
}

/// One remote operation of a reconciliation plan. `index` names the new tile
/// it carries; `remote_id` names the remote slot a replacement lands in.
#[derive(Clone, Debug, PartialEq, Eq)]
pub enum PlanOp {
    Replace { index: usize, remote_id: String },
    Append { index: usize },
}

/// A reconciliation plan, produced fresh per run. `Create` stands for one
/// atomic remote creation carrying all `tile_count` new tiles together with
/// the derived metadata (full identifier, title, marker); `Edit` is an
/// ordered list of per-tile operations: every `Replace` in ascending index
/// order, then every `Append` in ascending index order.
#[derive(Clone, Debug, PartialEq, Eq)]
pub enum Plan {
    Create { tile_count: usize },
    Edit { ops: Vec<PlanOp> },
}

/// What the plan for `n` existing entries and `m` new tiles must hold:
/// one `Replace` per common position, then one `Append` per extra new tile;
/// positions `m..n` of the remote pack are mentioned nowhere and thus left
/// untouched.
pub open spec fn spec_edit_plan(ids: Seq<String>, m: int, ops: Seq<PlanOp>) -> bool {
    let n = ids.len() as int;
    &&& ops.len() == m
    &&& forall|i: int|
        0 <= i < m ==> #[trigger] ops[i] == if i < n {
            PlanOp::Replace { index: i as usize, remote_id: ids[i] }
        } else {
            PlanOp::Append { index: i as usize }
        }
}

/// Decides, per new tile index, whether to replace the remote entry in the
/// same slot or to append, and orders the operations; with no existing pack,
/// the plan is a single atomic creation of the whole tile set.
pub fn reconcile(existing: &Option<RemotePack>, new_tile_count: usize) -> (p: Plan)
    ensures
        existing is None ==> p == (Plan::Create { tile_count: new_tile_count }),
        existing matches Some(pack) ==> (p matches Plan::Edit { ops }
            && spec_edit_plan(pack.remote_ids@, new_tile_count as int, ops@)),
{
    match existing {
        None => Plan::Create { tile_count: new_tile_count },
        Some(pack) => {
            let n = pack.remote_ids.len();
            let mut ops: Vec<PlanOp> = Vec::new();
            for i in 0..new_tile_count
                invariant
                    n == pack.remote_ids@.len(),
                    ops@.len() == i,
                    forall|j: int|
                        0 <= j < i ==> #[trigger] ops@[j] == if j < n as int {
                            PlanOp::Replace {
                                index: j as usize,
                                remote_id: pack.remote_ids@[j],
                            }
                        } else {
                            PlanOp::Append { index: j as usize }
                        },
            {
                if i < n {
                    let id = pack.remote_ids[i].clone();
                    ops.push(PlanOp::Replace { index: i, remote_id: id });
                } else {
                    ops.push(PlanOp::Append { index: i });
                }
            }
            Plan::Edit { ops }
        },
    }
}

} // verus!
