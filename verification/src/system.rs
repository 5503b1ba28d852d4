//! A whole-system model of the protocol: every actor's position in its
//! cycle at lock granularity, together with an instrumented resource
//! pool that records which actor holds each slot.
//!
//! Stepping one actor at a time reproduces any interleaving of the real
//! threads. Two theorems hold of every reachable state. Mutual
//! exclusion: a slot is held by at most one actor, so two actors bound
//! to a shared slot are never both eating. Deadlock freedom: as long as
//! any actor is still running, some running actor can take its next
//! step -- a cycle of waiting actors cannot form, because every actor
//! acquires its lower-indexed slot first.

use vstd::prelude::*;
use crate::binding::spec_first;
use crate::binding::spec_right;
use crate::binding::spec_second;

verus! {

/// An actor's position in its cycle, at the granularity of single lock
/// operations: `WantFirst` and `WantSecond` stand before the two
/// acquisitions, `Eating` holds both slots, `Thinking` holds none.
#[derive(Clone, Copy, Debug, PartialEq, Eq, Structural)]
pub enum SimPhase {
    AtTop,
    WantFirst,
    WantSecond,
    Eating,
    Thinking,
    Done,
}

/// The state of the whole run: one phase per actor and, per resource
/// slot, the actor currently holding it.
pub struct System {
    pub actor_count: usize,
    pub phases: Vec<SimPhase>,
    pub holder: Vec<Option<usize>>,
}

/// The phase an actor moves to when it takes a step, given what the
/// shutdown signal read at the top of its cycle.
pub open spec fn next_phase(p: SimPhase, stopped: bool) -> SimPhase {
    match p {
        SimPhase::AtTop => if stopped {
            SimPhase::Done
        } else {
            SimPhase::WantFirst
        },
        SimPhase::WantFirst => SimPhase::WantSecond,
        SimPhase::WantSecond => SimPhase::Eating,
        SimPhase::Eating => SimPhase::Thinking,
        SimPhase::Thinking => SimPhase::AtTop,
        SimPhase::Done => SimPhase::Done,
    }
}

impl System {
    /// Basic shape: a ring of at least two, one phase per actor, one
    /// holder slot per resource.
    pub open spec fn wf(self) -> bool {
        &&& self.actor_count >= 2
        &&& self.phases@.len() == self.actor_count
        &&& self.holder@.len() == self.actor_count
    }

    /// Whether actor `a` holds resource `r`, read off its phase: past
    /// the first acquisition it holds its first slot, and while eating
    /// it holds both.
    pub open spec fn holds(self, a: int, r: int) -> bool {
        let n = self.actor_count as int;
        ||| ((self.phases@[a] is WantSecond || self.phases@[a] is Eating) && r == spec_first(a, n))
        ||| (self.phases@[a] is Eating && r == spec_second(a, n))
    }

    /// Whether actor `a` stands before one of its two acquisitions.
    pub open spec fn waiting(self, a: int) -> bool {
        self.phases@[a] is WantFirst || self.phases@[a] is WantSecond
    }

    /// The resource a waiting actor's next acquisition asks for.
    pub open spec fn wanted(self, a: int) -> int {
        let n = self.actor_count as int;
        if self.phases@[a] is WantFirst {
            spec_first(a, n)
        } else {
            spec_second(a, n)
        }
    }

    /// Whether actor `a` can take its next step now: an acquisition
    /// needs its slot to be free; every other step of a running actor
    /// is always possible; a terminated actor steps no more.
    pub open spec fn enabled(self, a: int) -> bool {
        let n = self.actor_count as int;
        match self.phases@[a] {
            SimPhase::AtTop => true,
            SimPhase::WantFirst => self.holder@[spec_first(a, n)] is None,
            SimPhase::WantSecond => self.holder@[spec_second(a, n)] is None,
            SimPhase::Eating => true,
            SimPhase::Thinking => true,
            SimPhase::Done => false,
        }
    }

    /// The holder table agrees exactly with the phases: an actor holds
    /// a slot if and only if the table says so. Mutual exclusion is a
    /// direct consequence, since a table cell names at most one actor.
    pub open spec fn holder_inv(self) -> bool {
        let n = self.actor_count as int;
        &&& forall|a: int, r: int|
            0 <= a < n && 0 <= r < n && #[trigger] self.holds(a, r) ==> self.holder@[r] == Some(
                a as usize,
            )
        &&& forall|r: int|
            0 <= r < n && #[trigger] self.holder@[r] is Some ==> {
                let h = self.holder@[r]->0;
                h < n && self.holds(h as int, r)
            }
    }

    /// The initial state: every actor at the top of its first cycle,
    /// every slot free.
    pub fn new(actor_count: usize) -> (s: System)
        requires
            2 <= actor_count,
        ensures
            s.wf(),
            s.holder_inv(),
            s.actor_count == actor_count,
            forall|a: int| 0 <= a < actor_count ==> s.phases@[a] == SimPhase::AtTop,
            forall|r: int| 0 <= r < actor_count ==> s.holder@[r] is None,
    {
        let mut phases: Vec<SimPhase> = Vec::new();
        let mut holder: Vec<Option<usize>> = Vec::new();
        let mut i: usize = 0;
        while i < actor_count
            invariant
                i <= actor_count,
                phases@.len() == i,
                holder@.len() == i,
                forall|a: int| 0 <= a < i ==> phases@[a] == SimPhase::AtTop,
                forall|r: int| 0 <= r < i ==> holder@[r] is None,
            decreases actor_count - i,
        {
            phases.push(SimPhase::AtTop);
            holder.push(None);
            i = i + 1;
        }
        System { actor_count, phases, holder }
    }

    /// One step of one actor, under the signal value it would read at
    /// the top of its cycle. Returns whether the actor could move; a
    /// blocked or terminated actor leaves the state unchanged. The
    /// holder table is kept exactly in line with the phases, so the
    /// mutual-exclusion invariant is preserved by every step.
    pub fn step(&mut self, a: usize, stopped: bool) -> (progressed: bool)
        requires
            old(self).wf(),
            old(self).holder_inv(),
            a < old(self).actor_count,
        ensures
            final(self).wf(),
            final(self).holder_inv(),
            final(self).actor_count == old(self).actor_count,
            progressed == old(self).enabled(a as int),
            !progressed ==> *final(self) == *old(self),
            progressed ==> final(self).phases@ == old(self).phases@.update(
                a as int,
                next_phase(old(self).phases@[a as int], stopped),
            ),
    {
        proof {
            crate::binding::lemma_pair_bounds(a as int, self.actor_count as int);
        }
        let (first, second) = crate::binding::acquisition_pair(a, self.actor_count);
        let ghost pre = *self;
        match self.phases[a] {
            SimPhase::AtTop => {
                if stopped {
                    self.phases[a] = SimPhase::Done;
                } else {
                    self.phases[a] = SimPhase::WantFirst;
                }
                proof {
                    lemma_holds_unchanged(pre, *self, a as int);
                }
                true
            },
            SimPhase::WantFirst => {
                if self.holder[first].is_none() {
                    self.phases[a] = SimPhase::WantSecond;
                    self.holder[first] = Some(a);
                    proof {
                        lemma_acquire_preserves_inv(pre, *self, a as int, first as int);
                    }
                    true
                } else {
                    false
                }
            },
            SimPhase::WantSecond => {
                if self.holder[second].is_none() {
                    self.phases[a] = SimPhase::Eating;
                    self.holder[second] = Some(a);
                    proof {
                        lemma_acquire_preserves_inv(pre, *self, a as int, second as int);
                    }
                    true
                } else {
                    false
                }
            },
            SimPhase::Eating => {
                self.phases[a] = SimPhase::Thinking;
                self.holder[second] = None;
                self.holder[first] = None;
                proof {
                    lemma_release_preserves_inv(pre, *self, a as int);
                }
                true
            },
            SimPhase::Thinking => {
                self.phases[a] = SimPhase::AtTop;
                proof {
                    lemma_holds_unchanged(pre, *self, a as int);
                }
                true
            },
            SimPhase::Done => false,
        }
    }
}

/// A step that only moves actor `a` between phases that hold nothing
/// leaves every holding unchanged, so the holder table stays in line.
proof fn lemma_holds_unchanged(pre: System, post: System, a: int)
    requires
        pre.wf(),
        pre.holder_inv(),
        0 <= a < pre.actor_count,
        post.actor_count == pre.actor_count,
        post.holder@ == pre.holder@,
        post.phases@.len() == pre.phases@.len(),
        forall|b: int| 0 <= b < pre.actor_count && b != a ==> post.phases@[b] == pre.phases@[b],
        !(pre.phases@[a] is WantSecond) && !(pre.phases@[a] is Eating),
        !(post.phases@[a] is WantSecond) && !(post.phases@[a] is Eating),
    ensures
        post.holder_inv(),
{
    let n = pre.actor_count as int;
    assert forall|b: int, r: int|
        0 <= b < n && 0 <= r < n && #[trigger] post.holds(b, r) implies post.holder@[r] == Some(
        b as usize,
    ) by {
        assert(pre.holds(b, r));
    }
    assert forall|r: int| 0 <= r < n && #[trigger] post.holder@[r] is Some implies {
        let h = post.holder@[r]->0;
        h < n && post.holds(h as int, r)
    } by {
        assert(pre.holder@[r] is Some);
        let h = pre.holder@[r]->0;
        assert(pre.holds(h as int, r));
        assert(h != a);
        assert(post.holds(h as int, r));
    }
}

/// Acquiring a free slot preserves the holder invariant: the acquiring
/// actor's new holding is recorded, and nothing else changes hands.
proof fn lemma_acquire_preserves_inv(pre: System, post: System, a: int, acquired: int)
    requires
        pre.wf(),
        pre.holder_inv(),
        0 <= a < pre.actor_count,
        0 <= acquired < pre.actor_count,
        post.actor_count == pre.actor_count,
        pre.holder@[acquired] is None,
        post.holder@ == pre.holder@.update(acquired, Some(a as usize)),
        post.phases@.len() == pre.phases@.len(),
        forall|b: int| 0 <= b < pre.actor_count && b != a ==> post.phases@[b] == pre.phases@[b],
        // the two acquisition steps: before first, or between first and second
        (pre.phases@[a] is WantFirst && post.phases@[a] is WantSecond && acquired == spec_first(
            a,
            pre.actor_count as int,
        )) || (pre.phases@[a] is WantSecond && post.phases@[a] is Eating && acquired == spec_second(
            a,
            pre.actor_count as int,
        )),
    ensures
        post.holder_inv(),
{
    let n = pre.actor_count as int;
    crate::binding::lemma_pair_bounds(a, n);
    assert forall|b: int, r: int|
        0 <= b < n && 0 <= r < n && #[trigger] post.holds(b, r) implies post.holder@[r] == Some(
        b as usize,
    ) by {
        if b == a {
            if r != acquired {
                assert(pre.holds(b, r));
            }
        } else {
            assert(pre.holds(b, r));
            assert(r != acquired) by {
                if r == acquired {
                    assert(pre.holder@[r] == Some(b as usize));
                }
            }
        }
    }
    assert forall|r: int| 0 <= r < n && #[trigger] post.holder@[r] is Some implies {
        let h = post.holder@[r]->0;
        h < n && post.holds(h as int, r)
    } by {
        if r == acquired {
            assert(post.holder@[r] == Some(a as usize));
            assert(post.holds(a, r));
        } else {
            assert(pre.holder@[r] is Some);
            let h = pre.holder@[r]->0;
            assert(pre.holds(h as int, r));
            assert(h != a || pre.phases@[a] is WantSecond);
            assert(post.holds(h as int, r));
        }
    }
}

/// Releasing both slots on leaving the eating phase preserves the
/// holder invariant: the releasing actor was the sole holder of each.
proof fn lemma_release_preserves_inv(pre: System, post: System, a: int)
    requires
        pre.wf(),
        pre.holder_inv(),
        0 <= a < pre.actor_count,
        pre.phases@[a] is Eating,
        post.actor_count == pre.actor_count,
        post.holder@ == pre.holder@.update(spec_second(a, pre.actor_count as int), None).update(
            spec_first(a, pre.actor_count as int),
            None,
        ),
        post.phases@.len() == pre.phases@.len(),
        post.phases@[a] is Thinking,
        forall|b: int| 0 <= b < pre.actor_count && b != a ==> post.phases@[b] == pre.phases@[b],
    ensures
        post.holder_inv(),
{
    let n = pre.actor_count as int;
    crate::binding::lemma_pair_bounds(a, n);
    let f = spec_first(a, n);
    let s = spec_second(a, n);
    assert forall|b: int, r: int|
        0 <= b < n && 0 <= r < n && #[trigger] post.holds(b, r) implies post.holder@[r] == Some(
        b as usize,
    ) by {
        assert(b != a);
        assert(pre.holds(b, r));
        assert(r != f && r != s) by {
            if r == f || r == s {
                assert(pre.holds(a, r));
                assert(pre.holder@[r] == Some(b as usize));
                assert(pre.holder@[r] == Some(a as usize));
            }
        }
    }
    assert forall|r: int| 0 <= r < n && #[trigger] post.holder@[r] is Some implies {
        let h = post.holder@[r]->0;
        h < n && post.holds(h as int, r)
    } by {
        assert(r != f && r != s);
        assert(pre.holder@[r] is Some);
        let h = pre.holder@[r]->0;
        assert(pre.holds(h as int, r));
        assert(h != a) by {
            if h == a {
                assert(r == f || r == s);
            }
        }
        assert(post.holds(h as int, r));
    }
}

/// Mutual exclusion, stated over any state the holder invariant
/// describes: a resource slot is held by at most one actor at any
/// instant.
pub proof fn lemma_mutual_exclusion(s: System, a: int, b: int, r: int)
    requires
        s.wf(),
        s.holder_inv(),
        0 <= a < s.actor_count,
        0 <= b < s.actor_count,
        0 <= r < s.actor_count,
        s.holds(a, r),
        s.holds(b, r),
    ensures
        a == b,
{
    assert(s.holder@[r] == Some(a as usize));
    assert(s.holder@[r] == Some(b as usize));
}

/// Two distinct actors bound to a shared resource slot are never both
/// in the eating phase at once: whichever eats holds the shared slot
/// exclusively.
pub proof fn lemma_shared_slot_one_eater(s: System, a: int, b: int, r: int)
    requires
        s.wf(),
        s.holder_inv(),
        0 <= a < s.actor_count,
        0 <= b < s.actor_count,
        a != b,
        r == a || r == spec_right(a, s.actor_count as int),
        r == b || r == spec_right(b, s.actor_count as int),
        s.phases@[a] is Eating,
    ensures
        !(s.phases@[b] is Eating),
{
    let n = s.actor_count as int;
    crate::binding::lemma_pair_bounds(a, n);
    crate::binding::lemma_pair_bounds(b, n);
    if s.phases@[b] is Eating {
        assert(s.holds(a, r));
        assert(s.holds(b, r));
        lemma_mutual_exclusion(s, a, b, r);
    }
}

/// How many steps a signaled actor still takes before it terminates:
/// the remainder of its in-flight cycle, then the one check at the
/// top, never more.
pub open spec fn steps_until_done(p: SimPhase) -> nat {
    match p {
        SimPhase::AtTop => 1,
        SimPhase::WantFirst => 5,
        SimPhase::WantSecond => 4,
        SimPhase::Eating => 3,
        SimPhase::Thinking => 2,
        SimPhase::Done => 0,
    }
}

/// Bounded termination after shutdown, at step granularity: while the
/// signal reads stopped, every step of a running actor strictly
/// shrinks its distance to `Done`, which is at most one in-flight
/// cycle plus the final check. No actor can keep cycling past the
/// signal.
pub proof fn lemma_signaled_steps_shrink(p: SimPhase)
    requires
        !(p is Done),
    ensures
        steps_until_done(next_phase(p, true)) < steps_until_done(p),
        steps_until_done(p) <= 5,
{
}

/// Deadlock freedom: in any reachable state where some actor is still
/// running, some running actor can take its next step. A closed cycle
/// of waiting actors cannot exist, because an actor only ever waits
/// for a slot of higher index than the one it already holds.
pub proof fn lemma_no_deadlock(s: System)
    requires
        s.wf(),
        s.holder_inv(),
        exists|a: int| 0 <= a < s.actor_count && !((#[trigger] s.phases@[a]) is Done),
    ensures
        exists|a: int|
            0 <= a < s.actor_count && !((#[trigger] s.phases@[a]) is Done) && s.enabled(a),
{
    let n = s.actor_count as int;
    if exists|a: int|
        0 <= a < n && !((#[trigger] s.phases@[a]) is Done) && s.enabled(a) {
    } else {
        // every running actor is waiting on a taken slot; chase the
        // holders upward through the global order
        assert(forall|a: int|
            0 <= a < n && !((#[trigger] s.phases@[a]) is Done) ==> s.waiting(a) && !s.enabled(a));
        let a0 = choose|a: int| 0 <= a < n && !((#[trigger] s.phases@[a]) is Done);
        lemma_wait_ascent(s, a0, 0);
    }
}

/// From any blocked waiter one can reach, in finitely many holder
/// steps, a waiter whose wanted slot index is at least `k`; since slot
/// indices stay below the ring size, blocking every running actor is
/// impossible, and the conclusion here reports an enabled runner.
proof fn lemma_wait_ascent(s: System, a: int, k: int)
    requires
        s.wf(),
        s.holder_inv(),
        0 <= a < s.actor_count,
        s.waiting(a),
        forall|b: int|
            0 <= b < s.actor_count && !(s.phases@[b] is Done) ==> #[trigger] s.waiting(b)
                && !s.enabled(b),
        0 <= k,
        s.wanted(a) >= k,
    ensures
        exists|b: int|
            0 <= b < s.actor_count && !((#[trigger] s.phases@[b]) is Done) && s.enabled(b),
    decreases s.actor_count - k,
{
    let n = s.actor_count as int;
    crate::binding::lemma_pair_bounds(a, n);
    let w = s.wanted(a);
    assert(0 <= w < n);
    assert(!s.enabled(a));
    assert(s.holder@[w] is Some);
    let h = s.holder@[w]->0;
    let b = h as int;
    assert(0 <= b < n && s.holds(b, w));
    assert(!(s.phases@[b] is Done));
    assert(s.waiting(b));
    assert(s.phases@[b] is WantSecond);
    assert(w == spec_first(b, n));
    crate::binding::lemma_pair_bounds(b, n);
    assert(s.wanted(b) == spec_second(b, n));
    assert(s.wanted(b) > w);
    assert(s.wanted(b) >= k + 1);
    lemma_wait_ascent(s, b, k + 1);
}

} // verus!
