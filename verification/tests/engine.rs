//! End-to-end tests of the simulation engine: construction, the stepping
//! loop, the dispatch policy, and the derived statistics.

use queuing_generator::smo_engine::engine::{Engine, EngineError};
use queuing_generator::smo_engine::model::{Distribution, Options, Ratio, State, Task};

/// Options under which no task ever arrives on one-tick rounds: the drawn
/// inter-arrival gap is at least 97, far above an elapsed count of 1.
fn quiet_options() -> Options {
    Options {
        appearance_time: Distribution { expectation_time: 100, dispersion_time: 1 },
        task_weight_time: Distribution { expectation_time: 3, dispersion_time: 1 },
        low_priority_probability: 0,
        time_scale_millis: 0,
        max_number_of_rounds: 100,
    }
}

fn normal_task(incoming_time: u64, require_time: u64) -> Task {
    Task { incoming_time, require_time, low_priority: false }
}

fn low_task(incoming_time: u64, require_time: u64) -> Task {
    Task { incoming_time, require_time, low_priority: true }
}

#[test]
fn stats_after_construction_are_zero() {
    let engine = Engine::new(quiet_options()).unwrap();
    let stats = engine.get_stats();
    assert_eq!(stats.now, 0);
    assert!(stats.task.is_none());
    assert_eq!(stats.task_time_spent, 0);
    assert_eq!(stats.rest_time_working, 0);
    assert_eq!(stats.task_done_total, 0);
    assert_eq!(stats.low_prior_task_done_total, 0);
    assert_eq!(stats.task_in_q_total, 0);
    assert_eq!(stats.low_prior_task_in_q_total, 0);
    assert_eq!(stats.avg_task_wait_time, Ratio { num: 0, den: 0 });
    assert_eq!(stats.low_prior_avg_task_wait_time, Ratio { num: 0, den: 0 });
    assert_eq!(stats.normal_prior_avg_task_wait_time, Ratio { num: 0, den: 0 });
    assert_eq!(stats.avg_time_between_tasks, Ratio { num: 0, den: 0 });
    assert_eq!(stats.avg_time_between_low_prior_tasks, Ratio { num: 0, den: 0 });
    assert_eq!(stats.avg_time_between_normal_prior_tasks, Ratio { num: 0, den: 0 });
}

#[test]
fn state_new_stats_are_well_formed() {
    let stats = State::new().get_stats();
    assert_eq!(stats.now, 0);
    assert!(stats.task.is_none());
    assert_eq!(stats.avg_task_wait_time, Ratio { num: 0, den: 0 });
}

#[test]
fn out_of_range_probability_is_rejected() {
    let mut options = quiet_options();
    options.low_priority_probability = 1_000_001;
    assert_eq!(Engine::new(options).unwrap_err(), EngineError::InvalidOptions);
}

#[test]
fn zero_round_limit_is_rejected() {
    let mut options = quiet_options();
    options.max_number_of_rounds = 0;
    assert_eq!(Engine::new(options).unwrap_err(), EngineError::InvalidOptions);
}

#[test]
fn double_start_is_rejected() {
    let mut engine = Engine::new(quiet_options()).unwrap();
    assert!(engine.start().is_ok());
    assert_eq!(engine.start().unwrap_err(), EngineError::AlreadyRunning);
}

#[test]
fn stop_is_idempotent() {
    let mut engine = Engine::new(quiet_options()).unwrap();
    engine.start().unwrap();
    engine.step();
    engine.stop();
    let first = engine.get_stats();
    assert!(!engine.step());
    engine.stop();
    let second = engine.get_stats();
    assert_eq!(first.now, second.now);
    assert_eq!(first.task, second.task);
    assert_eq!(first.task_done_total, second.task_done_total);
    assert_eq!(first.task_in_q_total, second.task_in_q_total);
    assert_eq!(first.avg_task_wait_time, second.avg_task_wait_time);
    assert!(!engine.step());
}

#[test]
fn injected_tasks_finish_on_schedule() {
    let mut engine = Engine::new(quiet_options()).unwrap();
    engine.put_task(Some(normal_task(0, 2)));
    engine.put_task(Some(normal_task(0, 2)));
    engine.put_task(Some(normal_task(0, 2)));

    engine.make_round(1);
    let s1 = engine.get_stats();
    assert_eq!(s1.task_done_total, 1);
    assert_eq!(s1.rest_time_working, 2);

    engine.make_round(2);
    let s2 = engine.get_stats();
    assert_eq!(s2.task_done_total, 1);
    assert_eq!(s2.rest_time_working, 1);

    engine.make_round(3);
    let s3 = engine.get_stats();
    assert_eq!(s3.task_done_total, 2);
    assert_eq!(s3.rest_time_working, 2);

    engine.make_round(4);
    engine.make_round(5);
    let s5 = engine.get_stats();
    assert_eq!(s5.task_done_total, 3);
    assert_eq!(s5.rest_time_working, 2);

    engine.make_round(6);
    let s6 = engine.get_stats();
    assert_eq!(s6.task_done_total, 3);
    assert_eq!(s6.rest_time_working, 1);
    assert_eq!(s6.task_in_q_total, 0);
}

#[test]
fn stats_formulas_are_exact() {
    let mut engine = Engine::new(quiet_options()).unwrap();
    engine.put_task(Some(normal_task(0, 2)));
    engine.put_task(Some(normal_task(0, 2)));
    engine.put_task(Some(normal_task(0, 2)));
    for now in 1..=6 {
        engine.make_round(now);
    }
    let stats = engine.get_stats();
    assert_eq!(stats.now, 6);
    // Dispatches happened at ticks 1, 3 and 5, so the waits were 1, 3 and 5.
    assert_eq!(stats.avg_task_wait_time, Ratio { num: 9, den: 3 });
    assert_eq!(stats.normal_prior_avg_task_wait_time, Ratio { num: 9, den: 3 });
    assert_eq!(stats.low_prior_avg_task_wait_time, Ratio { num: 0, den: 0 });
    assert_eq!(stats.avg_time_between_tasks, Ratio { num: 6, den: 3 });
    assert_eq!(stats.avg_time_between_normal_prior_tasks, Ratio { num: 6, den: 3 });
    assert_eq!(stats.avg_time_between_low_prior_tasks, Ratio { num: 6, den: 0 });
    // The third task has been in the system for 6 ticks, one of which is
    // still to be served: 6 - 0 - 2 + 1.
    assert_eq!(stats.task_time_spent, 5);
    assert_eq!(stats.rest_time_working, 1);
}

#[test]
fn normal_tasks_run_first_come_first_served() {
    let mut engine = Engine::new(quiet_options()).unwrap();
    engine.put_task(Some(normal_task(0, 5)));
    engine.put_task(Some(normal_task(0, 7)));

    engine.make_round(1);
    let first = engine.get_stats().task.unwrap();
    assert_eq!(first.require_time, 5);

    for now in 2..=5 {
        engine.make_round(now);
    }
    assert_eq!(engine.get_stats().task.unwrap().require_time, 5);

    engine.make_round(6);
    let second = engine.get_stats().task.unwrap();
    assert_eq!(second.require_time, 7);
    assert_eq!(engine.get_stats().task_done_total, 2);
}

#[test]
fn low_priority_tasks_run_last_come_first_served() {
    let mut engine = Engine::new(quiet_options()).unwrap();
    engine.put_task(Some(low_task(0, 5)));
    engine.put_task(Some(low_task(0, 7)));

    engine.make_round(1);
    let first = engine.get_stats().task.unwrap();
    assert!(first.low_priority);
    assert_eq!(first.require_time, 7);

    for now in 2..=8 {
        engine.make_round(now);
    }
    let stats = engine.get_stats();
    let second = stats.task.unwrap();
    assert_eq!(second.require_time, 5);
    assert_eq!(stats.task_done_total, 2);
    assert_eq!(stats.low_prior_task_done_total, 2);
    // The stack's top was dispatched at tick 1 (wait 1), the older task at
    // tick 8 (wait 8).
    assert_eq!(stats.low_prior_avg_task_wait_time, Ratio { num: 9, den: 2 });
    assert_eq!(stats.avg_task_wait_time, Ratio { num: 9, den: 2 });
    assert_eq!(stats.normal_prior_avg_task_wait_time, Ratio { num: 0, den: 0 });
}

#[test]
fn normal_queue_dominates_low_priority_queue() {
    let mut engine = Engine::new(quiet_options()).unwrap();
    engine.put_task(Some(low_task(0, 9)));
    engine.put_task(Some(normal_task(0, 4)));

    engine.make_round(1);
    let stats = engine.get_stats();
    let current = stats.task.unwrap();
    assert!(!current.low_priority);
    assert_eq!(current.require_time, 4);
    assert_eq!(stats.low_prior_task_in_q_total, 1);
    assert_eq!(stats.low_prior_task_done_total, 0);
}

#[test]
fn clock_advances_by_the_elapsed_time() {
    let mut engine = Engine::new(quiet_options()).unwrap();
    engine.make_round(1);
    assert_eq!(engine.get_stats().now, 1);
    engine.make_round(2);
    assert_eq!(engine.get_stats().now, 2);
    engine.make_round(5);
    assert_eq!(engine.get_stats().now, 5);
}

#[test]
fn run_stops_right_after_the_round_limit() {
    let mut options = quiet_options();
    options.max_number_of_rounds = 10;
    let mut engine = Engine::new(options).unwrap();
    engine.start().unwrap();
    let mut executed: u64 = 0;
    while engine.step() {
        executed += 1;
        assert!(executed <= 11);
    }
    assert_eq!(executed, 11);
    assert_eq!(engine.get_stats().now, 11);
    assert!(!engine.step());
}

#[test]
fn zero_probability_runs_without_low_priority_tasks() {
    let options = Options {
        appearance_time: Distribution { expectation_time: 5, dispersion_time: 1 },
        task_weight_time: Distribution { expectation_time: 3, dispersion_time: 1 },
        low_priority_probability: 0,
        time_scale_millis: 0,
        max_number_of_rounds: 100,
    };
    let mut engine = Engine::new(options).unwrap();
    engine.start().unwrap();
    while engine.step() {}
    let stats = engine.get_stats();
    assert_eq!(stats.low_prior_task_done_total, 0);
    assert_eq!(stats.low_prior_task_in_q_total, 0);
    // No low-priority task was ever counted, so the average is the defined
    // zero-denominator sentinel, not a crash.
    assert_eq!(stats.low_prior_avg_task_wait_time.den, 0);
}
