//! Task identifiers.

use vstd::prelude::*;

verus! {

/// Whether `id` occurs among `ids`.
pub open spec fn is_taken(ids: Seq<u32>, id: int) -> bool {
    exists|k: int| 0 <= k < ids.len() && ids[k] == id
}

/// Whether every identifier in `lo..hi` occurs among `ids`.
pub open spec fn all_taken(ids: Seq<u32>, lo: int, hi: int) -> bool {
    forall|j: int| lo <= j < hi ==> is_taken(ids, j)
}

/// Tells whether `id` occurs in `task_ids`.
fn id_in_use(task_ids: &[u32], id: u32) -> (found: bool)
    ensures
        found == is_taken(task_ids@, id as int),
{
    let mut k: usize = 0;
    while k < task_ids.len()
        invariant
            k <= task_ids.len(),
            forall|j: int| 0 <= j < k ==> task_ids@[j] != id,
        decreases task_ids.len() - k,
    {
        if task_ids[k] == id {
            return true;
        }
        k += 1;
    }
    false
}

/// The smallest identifier from 1 upwards that `task_ids` does not hold.
///
/// When every identifier from 1 to `u32::MAX` is taken there is none to
/// hand out, and the answer is 1.
pub fn find_free_id(task_ids: &[u32]) -> (id: u32)
    ensures
        id >= 1,
        all_taken(task_ids@, 1, id as int),
        !is_taken(task_ids@, id as int) || (id == 1 && all_taken(
            task_ids@,
            1,
            u32::MAX as int + 1,
        )),
{
    let mut i: u32 = 1;
    while i < u32::MAX
        invariant
            1 <= i <= u32::MAX,
            all_taken(task_ids@, 1, i as int),
        decreases u32::MAX - i,
    {
        if !id_in_use(task_ids, i) {
            return i;
        }
        i += 1;
    }
    if !id_in_use(task_ids, i) {
        return i;
    }
    1
}

} // verus!
