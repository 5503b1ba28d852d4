//! Binding of actors to resources, and the global acquisition order.
//!
//! Actor `i` of `n` is bound to resource slots `i` and `(i + 1) % n`,
//! so the binding graph is a simple cycle. To rule out circular wait,
//! an actor never acquires in binding order: it always takes the
//! lower-indexed slot first. Every actor thereby respects one global
//! total order over the slots, and `lemma_ordered_acquisition_acyclic`
//! proves that no cycle of waiting actors can exist under that rule.

use vstd::prelude::*;

verus! {

/// The resource on the actor's own side of the ring.
pub open spec fn spec_left(i: int, n: int) -> int {
    i
}

/// The resource shared with the next actor around the ring.
pub open spec fn spec_right(i: int, n: int) -> int {
    (i + 1) % n
}

/// The lower-indexed of the actor's two resources: acquired first.
pub open spec fn spec_first(i: int, n: int) -> int {
    if spec_left(i, n) <= spec_right(i, n) {
        spec_left(i, n)
    } else {
        spec_right(i, n)
    }
}

/// The higher-indexed of the actor's two resources: acquired second.
pub open spec fn spec_second(i: int, n: int) -> int {
    if spec_left(i, n) <= spec_right(i, n) {
        spec_right(i, n)
    } else {
        spec_left(i, n)
    }
}

/// Bounds on the acquisition pair: for any actor of a ring of at
/// least two, the two bound resources are distinct, in-range slots,
/// and the pair is exactly the actor's own slot and its right
/// neighbour's, lower index first.
pub proof fn lemma_pair_bounds(i: int, n: int)
    requires
        2 <= n,
        0 <= i < n,
    ensures
        0 <= spec_first(i, n),
        spec_first(i, n) < spec_second(i, n),
        spec_second(i, n) < n,
        spec_first(i, n) == i || spec_first(i, n) == spec_right(i, n),
        spec_second(i, n) == i || spec_second(i, n) == spec_right(i, n),
        spec_first(i, n) != spec_second(i, n),
{
    if i + 1 < n {
        vstd::arithmetic::div_mod::lemma_small_mod((i + 1) as nat, n as nat);
    } else {
        vstd::arithmetic::div_mod::lemma_mod_self_0(n);
    }
}

/// The ordered acquisition pair of actor `i` among `n`: its two bound
/// resources, lower index first. The two are distinct whenever the ring
/// has at least two slots, so the order is strict.
pub fn acquisition_pair(i: usize, n: usize) -> (r: (usize, usize))
    requires
        2 <= n,
        i < n,
    ensures
        r.0 == spec_first(i as int, n as int),
        r.1 == spec_second(i as int, n as int),
        r.0 < r.1,
        r.1 < n,
        (r.0 == i && r.1 == spec_right(i as int, n as int)) || (r.1 == i && r.0 == spec_right(
            i as int,
            n as int,
        )),
{
    let left: usize = i;
    let right: usize = (i + 1) % n;
    proof {
        lemma_pair_bounds(i as int, n as int);
    }
    if left <= right {
        (left, right)
    } else {
        (right, left)
    }
}

/// No circular wait under the ordered-acquisition rule.
///
/// Model a wait-for chain of waiting actors: actor `j` of the chain
/// holds resource `held[j]` and waits for resource `held[j + 1]`, held
/// by its successor. Under the global order an actor only ever waits
/// for a resource of higher index than the one it holds, so
/// `held[j] < held[j + 1]` along the chain. This lemma shows that no
/// such chain can close into a cycle: the last actor cannot be waiting
/// for a resource the first actor holds, since the indices increase
/// strictly along the chain. A deadlock would be exactly such a closed
/// cycle, so none can form.
pub proof fn lemma_ordered_acquisition_acyclic(held: Seq<int>)
    requires
        held.len() >= 1,
        forall|j: int| 0 <= j < held.len() - 1 ==> #[trigger] held[j] < held[j + 1],
    ensures
        !(held[held.len() - 1] < held[0]),
{
    let k = held.len() as int;
    lemma_prefix_increasing(held, k - 1);
}

/// Along a chain where each entry is below its successor, the first
/// entry is at most the entry at any position.
proof fn lemma_prefix_increasing(held: Seq<int>, j: int)
    requires
        held.len() >= 1,
        0 <= j < held.len(),
        forall|m: int| 0 <= m < held.len() - 1 ==> #[trigger] held[m] < held[m + 1],
    ensures
        held[0] <= held[j],
    decreases j,
{
    if j > 0 {
        lemma_prefix_increasing(held, j - 1);
        assert(held[j - 1] < held[j]);
    }
}

} // verus!
