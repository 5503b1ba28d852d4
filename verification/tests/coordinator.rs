use dining_philosophers::aggregate;
use dining_philosophers::simulate_run;
use dining_philosophers::ActorResult;
use dining_philosophers::Config;
use dining_philosophers::RunError;

fn result(identity: usize, think_count: usize, eat_count: usize) -> ActorResult {
    ActorResult { identity, think_count, eat_count }
}

#[test]
fn aggregate_orders_by_identity() {
    let collected = vec![result(2, 7, 5), result(0, 1, 2), result(1, 3, 4)];
    let sorted = aggregate(&collected, 3).expect("complete set must aggregate");
    assert_eq!(sorted, vec![result(0, 1, 2), result(1, 3, 4), result(2, 7, 5)]);
}

#[test]
fn aggregate_rejects_a_missing_actor() {
    let collected = vec![result(0, 1, 2), result(2, 7, 5)];
    assert_eq!(aggregate(&collected, 3), Err(RunError::PoisonedResource));
}

#[test]
fn aggregate_rejects_a_duplicated_identity() {
    let collected = vec![result(0, 1, 2), result(0, 3, 4), result(2, 7, 5)];
    assert_eq!(aggregate(&collected, 3), Err(RunError::PoisonedResource));
}

#[test]
fn aggregate_rejects_an_empty_set() {
    let collected: Vec<ActorResult> = vec![];
    assert_eq!(aggregate(&collected, 2), Err(RunError::PoisonedResource));
}

#[test]
fn shutdown_at_start_yields_five_zero_results() {
    // five actors, signal already visible at every actor's first check
    let config = Config::default_config();
    let observations = vec![vec![true]; 5];
    let report = simulate_run(&config, &observations).expect("valid run must report");
    assert_eq!(report.len(), 5);
    for (i, entry) in report.iter().enumerate() {
        assert_eq!(entry.identity, i);
        assert!(entry.eat_count <= 1);
        assert!(entry.think_count <= 1);
    }
}

#[test]
fn contended_pair_stays_even() {
    // the minimum ring under full contention: both actors cycle with
    // zero-length delays for a fixed window, then the signal lands
    let config = Config { actor_count: 2, eat_min: 0, eat_max: 0, think_min: 0, think_max: 0 };
    let window = vec![false, false, false, false, false, false, false, true];
    let observations = vec![window.clone(), window];
    let report = simulate_run(&config, &observations).expect("valid run must report");
    assert_eq!(report.len(), 2);
    assert!(report[0].eat_count > 0 && report[0].think_count > 0);
    assert!(report[1].eat_count > 0 && report[1].think_count > 0);
    let eat_gap = report[0].eat_count.abs_diff(report[1].eat_count);
    let think_gap = report[0].think_count.abs_diff(report[1].think_count);
    assert!(eat_gap <= 1);
    assert!(think_gap <= 1);
}

#[test]
fn invalid_configuration_rejected_before_any_actor() {
    let config = Config { actor_count: 1, eat_min: 0, eat_max: 3, think_min: 0, think_max: 5 };
    let observations = vec![vec![true]];
    assert_eq!(simulate_run(&config, &observations), Err(RunError::InvalidConfiguration));
}

#[test]
fn mixed_windows_count_exactly() {
    let config = Config { actor_count: 3, eat_min: 0, eat_max: 1, think_min: 0, think_max: 1 };
    let observations = vec![vec![true], vec![false, true], vec![false, false, true]];
    let report = simulate_run(&config, &observations).expect("valid run must report");
    assert_eq!(report.len(), 3);
    for (i, entry) in report.iter().enumerate() {
        assert_eq!(entry.identity, i);
        assert_eq!(entry.eat_count, i);
        assert_eq!(entry.think_count, i);
    }
}
