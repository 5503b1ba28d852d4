use dining_philosophers::eat_delay;
use dining_philosophers::think_delay;
use dining_philosophers::Config;
use dining_philosophers::SimPhase;
use dining_philosophers::System;

/// Drives one actor from the top of its cycle into the eating phase.
fn step_into_eating(system: &mut System, actor: usize) {
    assert!(system.step(actor, false)); // top of cycle -> wants first
    assert!(system.step(actor, false)); // acquires first
    assert!(system.step(actor, false)); // acquires second -> eating
    assert_eq!(system.phases[actor], SimPhase::Eating);
}

#[test]
fn shared_slot_blocks_the_neighbour() {
    // the minimum ring: both actors are bound to the same two slots
    let mut system = System::new(2);
    step_into_eating(&mut system, 0);
    assert!(system.step(1, false)); // top of cycle -> wants first
    // actor 1 now asks for a slot actor 0 holds: it cannot move,
    // and the two are never both eating
    assert!(!system.step(1, false));
    assert_eq!(system.phases[0], SimPhase::Eating);
    assert_eq!(system.phases[1], SimPhase::WantFirst);
    // once actor 0 releases, actor 1 gets through
    assert!(system.step(0, false)); // eating -> thinking, slots freed
    assert!(system.step(1, false)); // acquires first
    assert!(system.step(1, false)); // acquires second -> eating
    assert_eq!(system.phases[1], SimPhase::Eating);
    assert_ne!(system.phases[0], SimPhase::Eating);
}

#[test]
fn neighbours_never_eat_together() {
    // walk a contended interleaving on a ring of five and watch every
    // pair of neighbours: the shared slot keeps them apart
    let mut system = System::new(5);
    let schedule = [0usize, 2, 4, 1, 3, 0, 1, 2, 3, 4, 4, 3, 2, 1, 0, 0, 2, 4, 1, 3];
    for round in 0..40 {
        let actor = schedule[round % schedule.len()];
        system.step(actor, false);
        for a in 0..5usize {
            let b = (a + 1) % 5;
            assert!(
                !(system.phases[a] == SimPhase::Eating && system.phases[b] == SimPhase::Eating),
                "neighbours {} and {} are eating at once",
                a,
                b
            );
        }
    }
}

#[test]
fn every_round_makes_progress() {
    // no interleaving wedges the ring: as long as nobody has
    // terminated, a full sweep over the actors always moves someone
    let mut system = System::new(5);
    for _round in 0..60 {
        let mut progressed = false;
        for actor in 0..5usize {
            if system.step(actor, false) {
                progressed = true;
            }
        }
        assert!(progressed, "a full sweep moved nobody: the ring is wedged");
    }
}

#[test]
fn signaled_ring_drains_completely() {
    // once the signal reads stopped, every actor terminates within its
    // current cycle, whatever the interleaving
    let mut system = System::new(5);
    // scatter the actors across their cycles first
    let warmup = [0usize, 0, 1, 2, 0, 3, 1, 4, 2, 1];
    for &actor in warmup.iter() {
        system.step(actor, false);
    }
    // now drive everyone with the signal set until nobody moves
    let mut rounds = 0;
    loop {
        let mut progressed = false;
        for actor in 0..5usize {
            if system.step(actor, true) {
                progressed = true;
            }
        }
        if !progressed {
            break;
        }
        rounds += 1;
        assert!(rounds <= 60, "the ring failed to drain after the signal");
    }
    for actor in 0..5usize {
        assert_eq!(system.phases[actor], SimPhase::Done);
    }
    for slot in 0..5usize {
        assert_eq!(system.holder[slot], None);
    }
}

#[test]
fn delays_respect_degenerate_bounds() {
    // with a single-point range the draw is forced exactly
    let config = Config { actor_count: 2, eat_min: 2, eat_max: 2, think_min: 3, think_max: 3 };
    for _ in 0..10 {
        assert_eq!(eat_delay(&config), 2);
        assert_eq!(think_delay(&config), 3);
    }
}

#[test]
fn delays_stay_within_the_configured_range() {
    let config = Config::default_config();
    for _ in 0..50 {
        assert!(eat_delay(&config) <= 3);
        assert!(think_delay(&config) <= 5);
    }
}
