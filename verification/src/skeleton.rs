//! Joint hierarchy evaluation order for skeletal animation: which earlier
//! joint's world transform each joint's local transform is composed with.
use vstd::prelude::*;

verus! {

/// The parent whose world transform joint `j` is composed with when joints
/// are evaluated in index order: its recorded parent when that is a valid
/// index of an earlier joint; none for roots (negative parents), out-of-range
/// parents, and parents not yet evaluated (whose world transform is still
/// the identity at that point, so the joint keeps its local transform).
pub open spec fn spec_fk_parent(parents: Seq<i32>, j: int) -> Option<usize> {
    let p = parents[j];
    if 0 <= p && p < j {
        Some(p as usize)
    } else {
        None
    }
}

/// For each joint, the earlier joint whose world transform it is composed
/// with, if any.
pub fn fk_parents(parent_indices: &[i32]) -> (r: Vec<Option<usize>>)
    ensures
        r@.len() == parent_indices@.len(),
        forall|j: int| 0 <= j < r@.len() ==> #[trigger] r@[j] == spec_fk_parent(parent_indices@, j),
{
    let mut r: Vec<Option<usize>> = Vec::new();
    let mut j: usize = 0;
    while j < parent_indices.len()
        invariant
            j <= parent_indices@.len(),
            r@.len() == j,
            forall|k: int| 0 <= k < j ==> #[trigger] r@[k] == spec_fk_parent(parent_indices@, k),
        decreases parent_indices@.len() - j,
    {
        let p = parent_indices[j];
        if p >= 0 && (p as usize) < j {
            r.push(Some(p as usize));
        } else {
            r.push(None);
        }
        j += 1;
    }
    r
}

/// Number of joints on the path from joint `j` up through its effective
/// parents to a root, `j` included.
pub open spec fn spec_chain_len(parents: Seq<i32>, j: int) -> nat
    decreases j,
{
    if j < 0 {
        0
    } else {
        match spec_fk_parent(parents, j) {
            Some(p) => if (p as int) < j { 1 + spec_chain_len(parents, p as int) } else { 1 },
            None => 1,
        }
    }
}

/// Evaluating joints in index order is sound: every effective parent is an
/// earlier joint, so its world transform is final when the child reads it,
/// and the chain from any joint to its root is no longer than its index
/// plus one (the hierarchy as evaluated has no cycle).
pub proof fn lemma_fk_parents_precede(parents: Seq<i32>, j: int)
    requires
        0 <= j < parents.len(),
    ensures
        spec_fk_parent(parents, j) matches Some(p) ==> (p as int) < j,
        1 <= spec_chain_len(parents, j) <= j + 1,
    decreases j,
{
    if let Some(p) = spec_fk_parent(parents, j) {
        lemma_fk_parents_precede(parents, p as int);
    }
}

/// Number of bone matrices a blend of two poses yields: one per joint both
/// poses have.
pub fn blended_joint_count(a_len: usize, b_len: usize) -> (n: usize)
    ensures
        n == if a_len < b_len { a_len } else { b_len },
{
    if a_len < b_len {
        a_len
    } else {
        b_len
    }
}

} // verus!
