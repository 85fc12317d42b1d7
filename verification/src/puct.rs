//! Root move choice of a finished search: the most-visited action, the lower
//! action winning ties.

use vstd::prelude::*;

verus! {

/// Edge `a` (`(visits, action)`) is chosen over edge `b`: more visits, or as
/// many visits and a lower action.
pub open spec fn chosen_over(a: (u32, u32), b: (u32, u32)) -> bool {
    a.0 > b.0 || (a.0 == b.0 && a.1 < b.1)
}

/// Entry `i` of `edges` is a best edge: no other edge is chosen over it.
pub open spec fn is_best(edges: Seq<(u32, u32)>, i: int) -> bool {
    &&& 0 <= i < edges.len()
    &&& forall|j: int| 0 <= j < edges.len() ==> !chosen_over(#[trigger] edges[j], edges[i])
}

/// The highest-visit action of the root edges `(visits, action)`; ties are
/// broken by the lower action. `None` when there are no edges.
pub fn best_action(edges: &Vec<(u32, u32)>) -> (r: Option<u32>)
    ensures
        edges@.len() == 0 <==> r is None,
        r is Some ==> exists|i: int| is_best(edges@, i) && edges@[i].1 == r->Some_0,
{
    if edges.len() == 0 {
        return None;
    }
    let mut best: usize = 0;
    let mut i: usize = 1;
    while i < edges.len()
        invariant
            1 <= i <= edges@.len(),
            best < i,
            forall|j: int| 0 <= j < i ==> !chosen_over(#[trigger] edges@[j], edges@[best as int]),
        decreases edges.len() - i,
    {
        let (v, a) = edges[i];
        let (bv, ba) = edges[best];
        if v > bv || (v == bv && a < ba) {
            best = i;
        }
        i = i + 1;
    }
    assert(is_best(edges@, best as int));
    Some(edges[best].1)
}

/// The choice is unique: two best edges name the same action.
pub proof fn lemma_best_action_unique(edges: Seq<(u32, u32)>, i: int, k: int)
    requires
        is_best(edges, i),
        is_best(edges, k),
    ensures
        edges[i].1 == edges[k].1,
        edges[i].0 == edges[k].0,
{
    assert(!chosen_over(edges[k], edges[i]));
    assert(!chosen_over(edges[i], edges[k]));
}

} // verus!
