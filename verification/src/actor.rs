//! The actor ("philosopher") state machine.
//!
//! An actor alternates two steady phases, eating (holding both of its
//! bound resources) and thinking (holding none), and checks the
//! shutdown signal at the top of every cycle. The blocking work --
//! taking the locks and sleeping -- happens outside this library; the
//! decisions and the bookkeeping live here, so the surrounding loop
//! only performs the action each method asks for and reports back.

use vstd::prelude::*;

verus! {

/// The final statistics of one actor, produced exactly once when it
/// terminates.
#[derive(Clone, Copy, Debug, PartialEq, Eq, Structural)]
pub struct ActorResult {
    pub identity: usize,
    pub think_count: usize,
    pub eat_count: usize,
}

/// Where an actor stands in its cycle.
///
/// `AtTop` is the point where the shutdown signal is checked, just
/// before acquiring; `Eating` holds both bound resources; `Thinking`
/// holds none; `Done` is reached only by observing the signal at the
/// top of a cycle.
#[derive(Clone, Copy, Debug, PartialEq, Eq, Structural)]
pub enum Phase {
    AtTop,
    Eating,
    Thinking,
    Done,
}

/// One actor's private state while it runs.
pub struct Actor {
    pub identity: usize,
    pub actor_count: usize,
    pub think_count: usize,
    pub eat_count: usize,
    pub phase: Phase,
}

impl Actor {
    /// An actor is well formed when it belongs to a ring of at least
    /// two and its identity lies inside the ring.
    pub open spec fn wf(self) -> bool {
        &&& self.actor_count >= 2
        &&& self.identity < self.actor_count
    }

    /// The statistics this actor would report if it terminated now.
    pub open spec fn spec_result(self) -> ActorResult {
        ActorResult {
            identity: self.identity,
            think_count: self.think_count,
            eat_count: self.eat_count,
        }
    }

    /// A fresh actor: counters at zero, about to check the signal for
    /// the first time.
    pub fn new(identity: usize, actor_count: usize) -> (a: Actor)
        requires
            2 <= actor_count,
            identity < actor_count,
        ensures
            a.wf(),
            a.identity == identity,
            a.actor_count == actor_count,
            a.think_count == 0,
            a.eat_count == 0,
            a.phase == Phase::AtTop,
    {
        Actor { identity, actor_count, think_count: 0, eat_count: 0, phase: Phase::AtTop }
    }

    /// The ordered pair of resources this actor must acquire before
    /// eating: its two bound slots, lower index first, so that every
    /// actor respects the same global total order.
    pub fn acquisition_pair(&self) -> (r: (usize, usize))
        requires
            self.wf(),
        ensures
            r.0 == crate::binding::spec_first(self.identity as int, self.actor_count as int),
            r.1 == crate::binding::spec_second(self.identity as int, self.actor_count as int),
            r.0 < r.1 < self.actor_count,
    {
        crate::binding::acquisition_pair(self.identity, self.actor_count)
    }

    /// The check at the top of each cycle. If the signal reads
    /// stopped, the actor terminates at once and hands out its
    /// statistics; otherwise nothing changes and the cycle goes ahead.
    pub fn observe_shutdown(&mut self, stopped: bool) -> (r: Option<ActorResult>)
        requires
            old(self).phase == Phase::AtTop,
        ensures
            stopped ==> {
                &&& r == Some(old(self).spec_result())
                &&& *final(self) == (Actor { phase: Phase::Done, ..*old(self) })
            },
            !stopped ==> r is None && *final(self) == *old(self),
    {
        if stopped {
            self.phase = Phase::Done;
            Some(
                ActorResult {
                    identity: self.identity,
                    think_count: self.think_count,
                    eat_count: self.eat_count,
                },
            )
        } else {
            None
        }
    }

    /// Entry into the eating phase, once the surrounding loop holds
    /// both bound resources: the eat counter goes up by one and
    /// nothing else changes.
    pub fn begin_eating(&mut self)
        requires
            old(self).phase == Phase::AtTop,
            old(self).eat_count < usize::MAX,
        ensures
            *final(self) == (Actor {
                phase: Phase::Eating,
                eat_count: (old(self).eat_count + 1) as usize,
                ..*old(self)
            }),
    {
        self.eat_count = self.eat_count + 1;
        self.phase = Phase::Eating;
    }

    /// Entry into the thinking phase, once both resources have been
    /// released: the think counter goes up by one and nothing else
    /// changes.
    pub fn begin_thinking(&mut self)
        requires
            old(self).phase == Phase::Eating,
            old(self).think_count < usize::MAX,
        ensures
            *final(self) == (Actor {
                phase: Phase::Thinking,
                think_count: (old(self).think_count + 1) as usize,
                ..*old(self)
            }),
    {
        self.think_count = self.think_count + 1;
        self.phase = Phase::Thinking;
    }

    /// End of one cycle: back to the top, where the signal is checked
    /// again before anything is acquired.
    pub fn finish_cycle(&mut self)
        requires
            old(self).phase == Phase::Thinking,
        ensures
            *final(self) == (Actor { phase: Phase::AtTop, ..*old(self) }),
    {
        self.phase = Phase::AtTop;
    }
}

/// The cycle in which an actor first sees the signal read "stopped":
/// the index of the first `true` in its sequence of top-of-cycle
/// observations, or the sequence's length if it never does.
pub open spec fn first_stop(obs: Seq<bool>) -> int
    decreases obs.len(),
{
    if obs.len() == 0 {
        0
    } else if obs[0] {
        0
    } else {
        1 + first_stop(obs.drop_first())
    }
}

/// `first_stop` is exactly the position of the first `true`.
proof fn lemma_first_stop_at(obs: Seq<bool>, i: int)
    requires
        0 <= i <= obs.len(),
        forall|m: int| 0 <= m < i ==> !obs[m],
        i < obs.len() ==> obs[i],
    ensures
        first_stop(obs) == i,
    decreases i,
{
    if i > 0 {
        let rest = obs.drop_first();
        assert(forall|m: int| 0 <= m < i - 1 ==> !rest[m]);
        lemma_first_stop_at(rest, i - 1);
    }
}

/// Bounded termination after shutdown: once the signal is visible at
/// some top-of-cycle check, the actor runs no further cycle -- it
/// completes at most the cycles that came before that check.
pub proof fn lemma_shutdown_bounds_cycles(obs: Seq<bool>, j: int)
    requires
        0 <= j < obs.len(),
        obs[j],
    ensures
        0 <= first_stop(obs) <= j,
    decreases j,
{
    if !obs[0] {
        lemma_shutdown_bounds_cycles(obs.drop_first(), j - 1);
    }
}

/// One actor's whole run, against a given sequence of top-of-cycle
/// signal observations: each cycle before the signal is seen eats once
/// and thinks once, and the run stops at the first observation that
/// reads stopped (or when the observations run out, for a run that was
/// never signaled within the window considered).
///
/// The returned statistics are pinned exactly: both counters equal the
/// index of the first stopped observation.
pub fn run_actor(identity: usize, actor_count: usize, observations: &Vec<bool>) -> (r: ActorResult)
    requires
        2 <= actor_count,
        identity < actor_count,
    ensures
        r.identity == identity,
        r.eat_count == first_stop(observations@),
        r.think_count == first_stop(observations@),
{
    let mut actor = Actor::new(identity, actor_count);
    let mut i: usize = 0;
    let n = observations.len();
    while i < n
        invariant
            i <= n,
            n == observations@.len(),
            actor.identity == identity,
            actor.actor_count == actor_count,
            actor.phase == Phase::AtTop,
            actor.eat_count == i,
            actor.think_count == i,
            forall|m: int| 0 <= m < i ==> !observations@[m],
        decreases n - i,
    {
        let stopped = observations[i];
        let outcome = actor.observe_shutdown(stopped);
        if outcome.is_some() {
            proof {
                lemma_first_stop_at(observations@, i as int);
            }
            return outcome.unwrap();
        }
        actor.begin_eating();
        actor.begin_thinking();
        actor.finish_cycle();
        i = i + 1;
    }
    proof {
        lemma_first_stop_at(observations@, n as int);
    }
    ActorResult { identity: actor.identity, think_count: actor.think_count, eat_count: actor.eat_count }
}

} // verus!
