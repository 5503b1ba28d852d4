//! The coordinator's aggregation step: once every actor has returned,
//! its statistics are ordered deterministically by identity ascending,
//! and a run that lost an actor is reported as a failure rather than
//! as a complete result set.

use vstd::prelude::*;
use crate::actor::ActorResult;
use crate::actor::first_stop;
use crate::actor::run_actor;
use crate::config::Config;
use crate::errors::RunError;

verus! {

/// Whether some entry of the result set carries the given identity.
pub open spec fn has_identity(results: Seq<ActorResult>, id: int) -> bool {
    exists|j: int| 0 <= j < results.len() && (#[trigger] results[j]).identity == id
}

/// A result set is complete for `actor_count` actors when it has
/// exactly one slot per actor and every identity below `actor_count`
/// appears in it.
pub open spec fn complete(results: Seq<ActorResult>, actor_count: int) -> bool {
    &&& results.len() == actor_count
    &&& forall|id: int| 0 <= id < actor_count ==> #[trigger] has_identity(results, id)
}

/// Orders the collected statistics by identity ascending and checks
/// that no actor is missing.
///
/// On a complete result set the outcome is the input reordered so that
/// position `i` holds the entry with identity `i`; every entry comes
/// from the input. An incomplete set means some actor was aborted (the
/// fatal poisoned-resource case), and the run fails as a whole:
/// partial statistics are never reported as complete.
pub fn aggregate(results: &Vec<ActorResult>, actor_count: usize) -> (r: Result<
    Vec<ActorResult>,
    RunError,
>)
    ensures
        complete(results@, actor_count as int) ==> {
            &&& r is Ok
            &&& r->Ok_0@.len() == actor_count
            &&& forall|i: int|
                0 <= i < actor_count ==> (#[trigger] r->Ok_0@[i]).identity == i
                    && results@.contains(r->Ok_0@[i])
        },
        !complete(results@, actor_count as int) ==> r == Result::<
            Vec<ActorResult>,
            RunError,
        >::Err(RunError::PoisonedResource),
{
    if results.len() != actor_count {
        return Err(RunError::PoisonedResource);
    }
    let mut out: Vec<ActorResult> = Vec::new();
    let mut id: usize = 0;
    while id < actor_count
        invariant
            id <= actor_count,
            results@.len() == actor_count,
            out@.len() == id,
            forall|i: int|
                0 <= i < id ==> (#[trigger] out@[i]).identity == i && results@.contains(out@[i]),
        decreases actor_count - id,
    {
        let mut found = false;
        let mut idx: usize = 0;
        let mut j: usize = 0;
        while j < results.len()
            invariant
                j <= results@.len(),
                found ==> idx < results@.len() && results@[idx as int].identity == id,
                !found ==> forall|m: int|
                    0 <= m < j ==> (#[trigger] results@[m]).identity != id,
            decreases results@.len() - j,
        {
            if results[j].identity == id {
                found = true;
                idx = j;
            }
            j = j + 1;
        }
        if !found {
            assert(!has_identity(results@, id as int));
            return Err(RunError::PoisonedResource);
        }
        let picked = results[idx];
        out.push(picked);
        id = id + 1;
    }
    assert forall|i: int| 0 <= i < actor_count implies #[trigger] has_identity(
        results@,
        i,
    ) by {
        assert(out@[i].identity == i && results@.contains(out@[i]));
        let w = choose|j2: int| 0 <= j2 < results@.len() && results@[j2] == out@[i];
        assert(results@[w].identity == i);
    }
    Ok(out)
}

/// A whole run played out deterministically: each actor is driven by
/// its own sequence of top-of-cycle signal observations, and the
/// statistics are aggregated as the coordinator would after joining
/// every thread.
///
/// An invalid configuration is rejected before any actor runs. On a
/// valid one the outcome is pinned exactly: one entry per actor, in
/// identity order, whose counters both equal the index of the first
/// stopped observation that actor saw.
pub fn simulate_run(config: &Config, observations: &Vec<Vec<bool>>) -> (r: Result<
    Vec<ActorResult>,
    RunError,
>)
    requires
        observations@.len() == config.actor_count,
    ensures
        !config.valid() ==> r == Result::<Vec<ActorResult>, RunError>::Err(
            RunError::InvalidConfiguration,
        ),
        config.valid() ==> {
            &&& r is Ok
            &&& r->Ok_0@.len() == config.actor_count
            &&& forall|i: int|
                0 <= i < config.actor_count ==> {
                    let res = #[trigger] r->Ok_0@[i];
                    &&& res.identity == i
                    &&& res.eat_count == first_stop(observations@[i]@)
                    &&& res.think_count == first_stop(observations@[i]@)
                }
        },
{
    match config.validate() {
        Err(e) => {
            return Err(e);
        },
        Ok(()) => {},
    }
    let n = config.actor_count;
    let mut results: Vec<ActorResult> = Vec::new();
    let mut i: usize = 0;
    while i < n
        invariant
            i <= n,
            n == config.actor_count,
            config.valid(),
            observations@.len() == n,
            results@.len() == i,
            forall|j: int|
                0 <= j < i ==> {
                    let res = #[trigger] results@[j];
                    &&& res.identity == j
                    &&& res.eat_count == first_stop(observations@[j]@)
                    &&& res.think_count == first_stop(observations@[j]@)
                },
        decreases n - i,
    {
        let res = run_actor(i, n, &observations[i]);
        results.push(res);
        i = i + 1;
    }
    assert forall|id: int| 0 <= id < n implies #[trigger] has_identity(results@, id) by {
        assert(results@[id].identity == id);
    }
    assert(complete(results@, n as int));
    match aggregate(&results, n) {
        Ok(out) => {
            assert forall|k: int| 0 <= k < n implies #[trigger] out@[k] == results@[k] by {
                assert(out@[k].identity == k && results@.contains(out@[k]));
                let w = choose|j2: int| 0 <= j2 < results@.len() && results@[j2] == out@[k];
                assert(results@[w].identity == w);
                assert(out@[k].identity == w);
            }
            Ok(out)
        },
        Err(_) => vstd::pervasive::unreached(),
    }
}

} // verus!
