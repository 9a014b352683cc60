//! Tests of the random sampling primitives and the task generator.

use queuing_generator::smo_engine::model::{Distribution, Options, Task};
use queuing_generator::smo_engine::rng;

fn options_with(appearance: Distribution, low_priority_probability: u64) -> Options {
    Options {
        appearance_time: appearance,
        task_weight_time: Distribution { expectation_time: 3, dispersion_time: 1 },
        low_priority_probability,
        time_scale_millis: 0,
        max_number_of_rounds: 100,
    }
}

#[test]
fn zero_dispersion_draw_is_the_expectation() {
    assert_eq!(rng::next_int(5, 0), 5);
    assert_eq!(rng::next_int(0, 0), 0);
    assert_eq!(rng::next_int(1_000_000, 0), 1_000_000);
}

#[test]
fn draws_stay_within_three_dispersions() {
    for _ in 0..200 {
        let value = rng::next_int(10, 2);
        assert!(value >= 4);
        assert!(value <= 16);
    }
}

#[test]
fn bernoulli_extremes_are_certain() {
    for _ in 0..50 {
        assert!(!rng::next_bool(0));
        assert!(rng::next_bool(1_000_000));
    }
}

#[test]
fn full_probability_task_is_low_priority() {
    let options = options_with(
        Distribution { expectation_time: 5, dispersion_time: 1 },
        1_000_000,
    );
    let task = Task::new(5, options);
    assert_eq!(task.incoming_time, 5);
    assert!(task.low_priority);
    assert!(task.require_time <= 6);
}

#[test]
fn zero_probability_task_is_normal_priority() {
    let options = options_with(
        Distribution { expectation_time: 5, dispersion_time: 1 },
        0,
    );
    let task = Task::new(9, options);
    assert_eq!(task.incoming_time, 9);
    assert!(!task.low_priority);
}

#[test]
fn long_gap_produces_no_arrival() {
    let options = options_with(
        Distribution { expectation_time: 100, dispersion_time: 1 },
        0,
    );
    for _ in 0..50 {
        assert!(Task::try_new(7, 1, options).is_none());
    }
}

#[test]
fn zero_gap_always_produces_an_arrival() {
    let options = options_with(
        Distribution { expectation_time: 0, dispersion_time: 0 },
        0,
    );
    for _ in 0..50 {
        let task = Task::try_new(7, 1, options).unwrap();
        assert_eq!(task.incoming_time, 7);
    }
}
