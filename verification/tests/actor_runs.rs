use dining_philosophers::acquisition_pair;
use dining_philosophers::run_actor;
use dining_philosophers::Actor;
use dining_philosophers::Phase;

#[test]
fn pairs_for_five_actors() {
    assert_eq!(acquisition_pair(0, 5), (0, 1));
    assert_eq!(acquisition_pair(1, 5), (1, 2));
    assert_eq!(acquisition_pair(2, 5), (2, 3));
    assert_eq!(acquisition_pair(3, 5), (3, 4));
    assert_eq!(acquisition_pair(4, 5), (0, 4));
}

#[test]
fn pairs_for_two_actors() {
    assert_eq!(acquisition_pair(0, 2), (0, 1));
    assert_eq!(acquisition_pair(1, 2), (0, 1));
}

#[test]
fn pairs_respect_the_global_order() {
    for n in 2..12usize {
        for i in 0..n {
            let (first, second) = acquisition_pair(i, n);
            assert!(first < second);
            assert!(second < n);
        }
    }
}

#[test]
fn actor_walks_one_full_cycle() {
    let mut actor = Actor::new(3, 5);
    assert_eq!(actor.phase, Phase::AtTop);
    assert_eq!(actor.acquisition_pair(), (3, 4));
    assert_eq!(actor.observe_shutdown(false), None);
    actor.begin_eating();
    assert_eq!(actor.phase, Phase::Eating);
    actor.begin_thinking();
    assert_eq!(actor.phase, Phase::Thinking);
    actor.finish_cycle();
    let result = actor.observe_shutdown(true).expect("stopped actor must report");
    assert_eq!(result.identity, 3);
    assert_eq!(result.eat_count, 1);
    assert_eq!(result.think_count, 1);
    assert_eq!(actor.phase, Phase::Done);
}

#[test]
fn actor_stops_before_any_cycle() {
    let result = run_actor(0, 5, &vec![true]);
    assert_eq!(result.identity, 0);
    assert_eq!(result.eat_count, 0);
    assert_eq!(result.think_count, 0);
}

#[test]
fn actor_counts_cycles_until_signal() {
    let result = run_actor(2, 5, &vec![false, false, false, true]);
    assert_eq!(result.identity, 2);
    assert_eq!(result.eat_count, 3);
    assert_eq!(result.think_count, 3);
}

#[test]
fn actor_ignores_observations_after_the_first_stop() {
    let result = run_actor(1, 3, &vec![false, true, false, false]);
    assert_eq!(result.eat_count, 1);
    assert_eq!(result.think_count, 1);
}

#[test]
fn actor_runs_through_an_unsignaled_window() {
    let result = run_actor(1, 2, &vec![false, false, false, false]);
    assert_eq!(result.eat_count, 4);
    assert_eq!(result.think_count, 4);
}
