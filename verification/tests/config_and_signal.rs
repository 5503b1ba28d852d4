use dining_philosophers::Config;
use dining_philosophers::RunError;
use dining_philosophers::ShutdownSignal;

#[test]
fn default_config_is_valid() {
    let config = Config::default_config();
    assert_eq!(config.actor_count, 5);
    assert_eq!((config.eat_min, config.eat_max), (0, 3));
    assert_eq!((config.think_min, config.think_max), (0, 5));
    assert_eq!(config.validate(), Ok(()));
}

#[test]
fn single_actor_is_rejected() {
    let config = Config { actor_count: 1, eat_min: 0, eat_max: 3, think_min: 0, think_max: 5 };
    assert_eq!(config.validate(), Err(RunError::InvalidConfiguration));
}

#[test]
fn zero_actors_are_rejected() {
    let config = Config { actor_count: 0, eat_min: 0, eat_max: 3, think_min: 0, think_max: 5 };
    assert_eq!(config.validate(), Err(RunError::InvalidConfiguration));
}

#[test]
fn empty_eat_range_is_rejected() {
    let config = Config { actor_count: 5, eat_min: 4, eat_max: 3, think_min: 0, think_max: 5 };
    assert_eq!(config.validate(), Err(RunError::InvalidConfiguration));
}

#[test]
fn empty_think_range_is_rejected() {
    let config = Config { actor_count: 5, eat_min: 0, eat_max: 3, think_min: 6, think_max: 5 };
    assert_eq!(config.validate(), Err(RunError::InvalidConfiguration));
}

#[test]
fn minimum_ring_is_accepted() {
    let config = Config { actor_count: 2, eat_min: 0, eat_max: 0, think_min: 0, think_max: 0 };
    assert_eq!(config.validate(), Ok(()));
}

#[test]
fn signal_starts_running() {
    let signal = ShutdownSignal::new();
    assert!(!signal.is_stopped());
}

#[test]
fn signal_stops_once_set() {
    let mut signal = ShutdownSignal::new();
    signal.signal();
    assert!(signal.is_stopped());
}

#[test]
fn signal_setter_is_idempotent() {
    let mut signal = ShutdownSignal::new();
    signal.signal();
    assert!(signal.is_stopped());
    signal.signal();
    assert!(signal.is_stopped());
    signal.signal();
    assert!(signal.is_stopped());
}
