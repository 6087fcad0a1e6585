//! What the seed session does when the node starts.

use vstd::prelude::*;

verus! {

/// What is done about seeds at the start.
#[derive(Clone, Copy, Debug, PartialEq, Eq, Structural)]
pub enum SeedPlan {
    /// No seeds are configured and the node has no address of its own:
    /// nothing is done.
    Skip,
    /// No seeds are configured: the node's own addresses go to the hosts.
    StoreExternal,
    /// Each of this many seeds is asked, each in a task of its own.
    Query(usize),
}

/// What the seed session does at the start, given how many seeds and how
/// many addresses of its own the node is configured with.
pub fn start(seeds: usize, external_addrs: usize) -> (plan: SeedPlan)
    ensures
        plan == if seeds > 0 {
            SeedPlan::Query(seeds)
        } else if external_addrs > 0 {
            SeedPlan::StoreExternal
        } else {
            SeedPlan::Skip
        },
{
    if seeds == 0 {
        if external_addrs != 0 {
            return SeedPlan::StoreExternal;
        }
        return SeedPlan::Skip;
    }
    SeedPlan::Query(seeds)
}

} // verus!
