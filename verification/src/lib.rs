//! Deadlock-free coordination of a ring of concurrent actors ("philosophers")
//! that each need two adjacent exclusive resources ("forks") at once.
//!
//! The library holds the verified logic: configuration validation, the
//! resource-ordering rule that prevents circular wait, the per-actor
//! state machine with its counters, the shutdown signal's monotone
//! semantics, and the coordinator's result aggregation. The surrounding
//! binary runs the real threads, locks and sleeps and feeds each actor's
//! decisions back into this library.

mod actor;
mod binding;
mod config;
mod delay;
mod errors;
mod report;
mod signal;
mod system;

pub use actor::Actor;
pub use actor::ActorResult;
pub use actor::Phase;
pub use actor::first_stop;
pub use actor::lemma_shutdown_bounds_cycles;
pub use actor::run_actor;
pub use binding::acquisition_pair;
pub use binding::lemma_ordered_acquisition_acyclic;
pub use binding::lemma_pair_bounds;
pub use binding::spec_first;
pub use binding::spec_left;
pub use binding::spec_right;
pub use binding::spec_second;
pub use config::Config;
pub use delay::eat_delay;
pub use delay::think_delay;
pub use errors::RunError;
pub use report::aggregate;
pub use report::complete;
pub use report::has_identity;
pub use report::simulate_run;
pub use signal::ShutdownSignal;
pub use signal::lemma_signal_idempotent;
pub use signal::signaled;
pub use system::SimPhase;
pub use system::System;
pub use system::lemma_mutual_exclusion;
pub use system::lemma_no_deadlock;
pub use system::lemma_shared_slot_one_eater;
pub use system::lemma_signaled_steps_shrink;
pub use system::next_phase;
pub use system::steps_until_done;

