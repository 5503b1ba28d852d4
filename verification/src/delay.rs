//! The injected duration source: each work phase sleeps for a random
//! number of seconds drawn from the configured inclusive range.
//!
//! The draw itself comes from an outside random-number generator, so
//! nothing can be said about which value comes back -- only that every
//! outcome lies within the bounds. Everything downstream is verified
//! for every value in the range.

use vstd::prelude::*;
use crate::config::Config;
use rand::Rng;

verus! {

/// Relies on rand::Rng::gen_range over the inclusive range lo..=hi:
/// it panics only on an empty range, which the precondition rules
/// out, and every value it returns lies within the bounds. Which
/// value comes back depends on the thread-local generator, so no more
/// is stated.
#[verifier::external_body]
fn draw_in_range(lo: u64, hi: u64) -> (r: u64)
    requires
        lo <= hi,
    ensures
        lo <= r <= hi,
{
    let mut rng = rand::thread_rng();
    rng.gen_range(lo..=hi)
}

/// A random eating duration, in seconds, within the configured range.
pub fn eat_delay(config: &Config) -> (r: u64)
    requires
        config.valid(),
    ensures
        config.eat_min <= r <= config.eat_max,
{
    draw_in_range(config.eat_min, config.eat_max)
}

/// A random thinking duration, in seconds, within the configured
/// range.
pub fn think_delay(config: &Config) -> (r: u64)
    requires
        config.valid(),
    ensures
        config.think_min <= r <= config.think_max,
{
    draw_in_range(config.think_min, config.think_max)
}

} // verus!
