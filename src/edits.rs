use vstd::prelude::*;
use crate::mounts::MountSpec;

verus! {

/// One group of container edits.
#[derive(Debug, PartialEq)]
pub struct EditGroup {
    pub env: Vec<String>,
    pub mounts: Vec<MountSpec>,
}

/// The side-channel document: an optional tag and the edit groups.
#[derive(Debug, PartialEq)]
pub struct EditSet {
    pub precreate: Option<String>,
    pub container_edits: Vec<EditGroup>,
}

/// The mounts of all groups, group by group, each in its own order.
pub open spec fn flat_mounts(gs: Seq<EditGroup>) -> Seq<MountSpec>
    decreases gs.len(),
{
    if gs.len() == 0 {
        Seq::empty()
    } else {
        flat_mounts(gs.drop_last()) + gs.last().mounts@
    }
}

/// The environment strings of all groups, group by group, each in its own
/// order.
pub open spec fn flat_env(gs: Seq<EditGroup>) -> Seq<String>
    decreases gs.len(),
{
    if gs.len() == 0 {
        Seq::empty()
    } else {
        flat_env(gs.drop_last()) + gs.last().env@
    }
}

impl EditSet {
    /// The edit set with no groups.
    pub fn empty() -> (r: EditSet)
        ensures
            r.precreate is None,
            r.container_edits@.len() == 0,
    {
        EditSet { precreate: None, container_edits: Vec::new() }
    }
}

/// Flattens an edit set into one list of mounts and one list of environment
/// strings, keeping the order across groups and within each.
pub fn flatten_edits(set: EditSet) -> (r: (Vec<MountSpec>, Vec<String>))
    ensures
        r.0@ == flat_mounts(set.container_edits@),
        r.1@ == flat_env(set.container_edits@),
{
    let mut rest = set.container_edits;
    let ghost all = rest@;
    let ghost k: int = 0;
    let mut mounts: Vec<MountSpec> = Vec::new();
    let mut env: Vec<String> = Vec::new();
    while rest.len() > 0
        invariant
            0 <= k <= all.len(),
            rest@ == all.skip(k),
            mounts@ == flat_mounts(all.take(k)),
            env@ == flat_env(all.take(k)),
        decreases rest@.len(),
    {
        let ghost before = rest@;
        let g = rest.remove(0);
        proof {
            assert(g == before[0]);
            assert(rest@ =~= all.skip(k + 1));
            assert(all.take(k + 1).drop_last() =~= all.take(k));
            assert(all.take(k + 1).last() == all[k]);
        }
        let EditGroup { env: mut g_env, mounts: mut g_mounts } = g;
        mounts.append(&mut g_mounts);
        env.append(&mut g_env);
        proof {
            k = k + 1;
        }
    }
    proof {
        assert(all.take(k) =~= all);
    }
    (mounts, env)
}

} // verus!
