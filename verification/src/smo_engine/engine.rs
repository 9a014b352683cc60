//! The simulation engine: owns the mutable [`State`] and the immutable
//! [`Options`], and steps the model one round at a time.
//!
//! Every operation is specified against the pure transition functions of
//! the model module ([`round_spec`], [`dispatch_spec`], [`stop_spec`]), so
//! that what a round does is stated once, mathematically, and proved of the
//! executable code.

use crate::smo_engine::model::{
    account_spec, dispatch_spec, enqueue_spec, round_outcome, round_spec, serve_spec, spec_stats,
    stop_spec, Options, State, StateModel, Stats, Task, MAX_CLOCK, MAX_SERVICE_TIME, MAX_TASKS,
};
use vstd::prelude::*;

verus! {

/// The ways an engine operation can be refused.
#[derive(Clone, Copy, Debug, PartialEq, Eq, Structural)]
pub enum EngineError {
    /// The supplied [`Options`] are out of range.
    InvalidOptions,
    /// `start` was called while the engine was already running.
    AlreadyRunning,
}

/// The simulation engine: state plus options.
#[derive(Debug)]
pub struct Engine {
    state: State,
    options: Options,
}

impl Engine {
    /// The mathematical model of the engine's state.
    pub closed spec fn m(self) -> StateModel {
        self.state@
    }

    /// The options the engine was built with.
    pub closed spec fn opts(self) -> Options {
        self.options
    }

    /// A well-formed engine: valid options and a well-formed state.
    pub open spec fn inv(self) -> bool {
        &&& self.m().inv()
        &&& self.opts().valid()
    }

    /// Builds an engine over an empty state.  Construction fails, rather
    /// than producing an engine that would misbehave, exactly when the
    /// options are out of range.
    pub fn new(options: Options) -> (r: Result<Engine, EngineError>)
        ensures
            options.valid() ==> (r matches Ok(e) && e.inv() && e.opts() == options && e.m()
                == State::initial()),
            !options.valid() ==> (r matches Err(e) && e == EngineError::InvalidOptions),
    {
        if options.is_valid() {
            Ok(Engine { state: State::new(), options })
        } else {
            Err(EngineError::InvalidOptions)
        }
    }

    /// Marks the engine running.  Starting an engine that already runs is
    /// refused explicitly and changes nothing; a second stepping loop over
    /// the same state would break the single-writer discipline.
    pub fn start(&mut self) -> (r: Result<(), EngineError>)
        requires
            old(self).inv(),
        ensures
            final(self).inv(),
            final(self).opts() == old(self).opts(),
            old(self).m().started ==> (r matches Err(e) && e == EngineError::AlreadyRunning
                && final(self).m() == old(self).m()),
            !old(self).m().started ==> (r is Ok && final(self).m() == StateModel {
                started: true,
                ..old(self).m()
            }),
    {
        if self.state.started {
            Err(EngineError::AlreadyRunning)
        } else {
            self.state.started = true;
            proof {
                assert(self.m() =~= StateModel { started: true, ..old(self).m() });
            }
            Ok(())
        }
    }

    /// Clears the running flag; the stepping loop observes it at the start
    /// of its next iteration.  Stopping a stopped engine changes nothing,
    /// so a second stop is a no-op.
    pub fn stop(&mut self)
        requires
            old(self).inv(),
        ensures
            final(self).inv(),
            final(self).opts() == old(self).opts(),
            final(self).m() == stop_spec(old(self).m()),
    {
        self.state.started = false;
        proof {
            assert(self.m() =~= stop_spec(old(self).m()));
        }
    }

    /// True once the clock has passed the configured number of rounds.
    fn time_is_over(&self) -> (r: bool)
        ensures
            r == (self.m().now > self.opts().max_number_of_rounds),
    {
        self.state.now > self.options.max_number_of_rounds
    }

    /// Runs one round if the engine is running and the clock has not passed
    /// the round limit; otherwise leaves the state untouched.  Returns
    /// whether the stepping loop should continue.  Each executed round
    /// advances the clock by exactly one, so a run started at clock `c`
    /// executes at most `max_number_of_rounds + 1 - c` further rounds.
    pub fn step(&mut self) -> (cont: bool)
        requires
            old(self).inv(),
        ensures
            final(self).inv(),
            final(self).opts() == old(self).opts(),
            cont == (old(self).m().started && old(self).m().now
                <= old(self).opts().max_number_of_rounds),
            !cont ==> final(self).m() == old(self).m(),
            cont ==> final(self).m().now == old(self).m().now + 1,
            cont ==> exists|a: Option<Task>|
                #[trigger] round_outcome(old(self).m(), a, final(self).m(), old(self).opts()),
            (old(self).opts().low_priority_probability == 0 && old(self).m().low_queue.len() == 0)
                ==> (final(self).m().low_queue.len() == 0 && final(self).m().low_done == old(
                self,
            ).m().low_done),
    {
        if !self.state.started || self.time_is_over() {
            return false;
        }
        let now = self.state.now + 1;
        self.make_round(now);
        true
    }

    /// Computes one round of the model at tick `now`: advances the clock,
    /// evaluates one probabilistic arrival, serves the current task, and
    /// dispatches the next task once no service time remains.  The round's
    /// effect is `round_spec` applied to some arrival allowed by the
    /// options; when the drawn inter-arrival gap cannot reach the elapsed
    /// tick count, the round provably has no arrival.
    pub fn make_round(&mut self, now: u64)
        requires
            old(self).inv(),
            old(self).m().now < now <= MAX_CLOCK,
            old(self).m().rest > 0 ==> now - old(self).m().now <= old(self).m().rest,
        ensures
            final(self).inv(),
            final(self).opts() == old(self).opts(),
            final(self).m().now == now,
            exists|a: Option<Task>|
                #[trigger] round_outcome(old(self).m(), a, final(self).m(), old(self).opts()),
            old(self).opts().appearance_time.expectation_time > 3 * old(
                self,
            ).opts().appearance_time.dispersion_time + (now - old(self).m().now) ==> final(self).m()
                == round_spec(old(self).m(), now as int, None),
            (old(self).opts().low_priority_probability == 0 && old(self).m().low_queue.len() == 0)
                ==> (final(self).m().low_queue.len() == 0 && final(self).m().low_done == old(
                self,
            ).m().low_done),
    {
        let ghost g0 = self.m();
        let time_elapsed = now - self.state.now;
        self.state.now = now;
        proof {
            assert(self.m() =~= StateModel { now: now as int, ..g0 });
        }

        let arrival = Task::try_new(now, time_elapsed, self.options);
        self.put_task(arrival);
        let ghost g2 = self.m();

        let rest_work = self.state.rest_time_working;
        if rest_work > 0 {
            self.state.rest_time_working = rest_work - time_elapsed;
            self.state.load = self.state.load + 1;
        }
        proof {
            assert(self.m() =~= serve_spec(g2, time_elapsed as int));
        }
        let ghost g3 = self.m();

        if self.state.rest_time_working == 0 {
            self.state.task = None;
            proof {
                assert(self.m() =~= StateModel { task: None, ..g3 });
            }
            self.try_start_task();
        }
        proof {
            assert(final(self).m() =~= round_spec(g0, now as int, arrival));
            assert(final(self).m().now == now);
            assert(round_outcome(g0, arrival, final(self).m(), old(self).opts()));
        }
    }

    /// Folds an arriving task into the queue of its priority class: normal
    /// priority joins the back of the FIFO queue, low priority is stacked.
    pub fn put_task(&mut self, task: Option<Task>)
        requires
            old(self).inv(),
            task matches Some(t) ==> {
                &&& t.incoming_time <= old(self).m().now
                &&& t.require_time <= MAX_SERVICE_TIME
                &&& old(self).m().done + old(self).m().queue.len() + old(self).m().low_queue.len()
                    < old(self).m().now + MAX_TASKS
            },
        ensures
            final(self).inv(),
            final(self).opts() == old(self).opts(),
            final(self).m() == match task {
                Some(t) => enqueue_spec(old(self).m(), t),
                None => old(self).m(),
            },
    {
        match task {
            Some(t) => {
                if t.low_priority {
                    self.state.low_prior_queue.push(t);
                } else {
                    self.state.queue.push_back(t);
                }
                proof {
                    assert(self.m() =~= enqueue_spec(old(self).m(), t));
                }
            },
            None => {},
        }
    }

    /// Dispatches the next task while the service slot is free: the front
    /// of the normal FIFO queue first; only when that queue is empty, the
    /// top of the low-priority LIFO stack.  With both queues empty, nothing
    /// changes.
    pub fn try_start_task(&mut self)
        requires
            old(self).inv(),
            old(self).m().task is None,
        ensures
            final(self).inv(),
            final(self).opts() == old(self).opts(),
            final(self).m() == dispatch_spec(old(self).m()),
    {
        let popped = self.state.queue.pop_front();
        match popped {
            Some(task) => {
                self.update_state(task);
                proof {
                    assert(final(self).m() =~= dispatch_spec(old(self).m()));
                }
            },
            None => {
                let low_popped = self.state.low_prior_queue.pop();
                match low_popped {
                    Some(task) => {
                        self.update_state(task);
                        proof {
                            assert(old(self).m().low_queue.drop_last() =~= old(
                                self,
                            ).m().low_queue.subrange(
                                0,
                                old(self).m().low_queue.len() - 1,
                            ));
                            assert(final(self).m() =~= dispatch_spec(old(self).m()));
                        }
                    },
                    None => {
                        proof {
                            assert(final(self).m() =~= dispatch_spec(old(self).m()));
                        }
                    },
                }
            },
        }
    }

    /// Accounts one dispatched task: it becomes the current task with its
    /// full required service time, and its wait time is folded into the
    /// totals, the per-class maxima, the minimum requirement, and the
    /// queue-depth sum.
    fn update_state(&mut self, task: Task)
        requires
            old(self).inv(),
            task.incoming_time <= old(self).m().now,
            task.require_time <= MAX_SERVICE_TIME,
            old(self).m().done + old(self).m().queue.len() + old(self).m().low_queue.len() < old(
                self,
            ).m().now + MAX_TASKS,
        ensures
            final(self).inv(),
            final(self).opts() == old(self).opts(),
            final(self).m().queue == old(self).m().queue,
            final(self).m().low_queue == old(self).m().low_queue,
            final(self).m() == account_spec(old(self).m(), task),
    {
        proof {
            let om = old(self).m();
            let wait = om.now - task.incoming_time;
            let lens = om.queue.len() + om.low_queue.len();
            assert(om.wait_sum + wait <= (om.done + 1) * MAX_CLOCK) by (nonlinear_arith)
                requires
                    om.wait_sum <= om.done * MAX_CLOCK,
                    0 <= wait <= MAX_CLOCK,
                    0 <= om.done,
            ;
            assert(om.low_wait_sum + wait <= (om.low_done + 1) * MAX_CLOCK) by (nonlinear_arith)
                requires
                    om.low_wait_sum <= om.low_done * MAX_CLOCK,
                    0 <= wait <= MAX_CLOCK,
                    0 <= om.low_done,
            ;
            assert(om.depth_sum + lens <= (om.done + 1) * (MAX_CLOCK + MAX_TASKS))
                by (nonlinear_arith)
                requires
                    om.depth_sum <= om.done * (MAX_CLOCK + MAX_TASKS),
                    0 <= lens <= MAX_CLOCK + MAX_TASKS,
                    0 <= om.done,
            ;
            assert(om.wait_sum <= (MAX_CLOCK + MAX_TASKS) * MAX_CLOCK) by (nonlinear_arith)
                requires
                    om.wait_sum <= om.done * MAX_CLOCK,
                    0 <= om.done <= MAX_CLOCK + MAX_TASKS,
            ;
            assert(om.low_wait_sum <= (MAX_CLOCK + MAX_TASKS) * MAX_CLOCK) by (nonlinear_arith)
                requires
                    om.low_wait_sum <= om.low_done * MAX_CLOCK,
                    0 <= om.low_done <= MAX_CLOCK + MAX_TASKS,
            ;
            assert(om.depth_sum <= (MAX_CLOCK + MAX_TASKS) * (MAX_CLOCK + MAX_TASKS))
                by (nonlinear_arith)
                requires
                    om.depth_sum <= om.done * (MAX_CLOCK + MAX_TASKS),
                    0 <= om.done <= MAX_CLOCK + MAX_TASKS,
            ;
        }

        self.state.load = self.state.load + 1;
        self.state.rest_time_working = task.require_time;

        if self.state.min_task_time_require > task.require_time {
            self.state.min_task_time_require = task.require_time;
        }

        let wait_time = self.state.now - task.incoming_time;
        self.state.task_done_total = self.state.task_done_total + 1;
        self.state.task_wait_time_total = self.state.task_wait_time_total + wait_time;

        if task.low_priority {
            self.state.low_prior_task_done_total = self.state.low_prior_task_done_total + 1;
            self.state.low_prior_task_wait_time_total = self.state.low_prior_task_wait_time_total
                + wait_time;

            if self.state.low_prior_task_max_wait_time_total < wait_time {
                self.state.low_prior_task_max_wait_time_total = wait_time;
            }
        } else {
            if self.state.normal_prior_task_max_wait_time_total < wait_time {
                self.state.normal_prior_task_max_wait_time_total = wait_time;
            }
        }

        self.state.task_wait_in_q_total = self.state.task_wait_in_q_total + (
        self.state.queue.len() as u64) + (self.state.low_prior_queue.len() as u64);
        self.state.task = Some(task);
        proof {
            assert(final(self).m() =~= account_spec(old(self).m(), task));
        }
    }

    /// Derives the statistics snapshot of the current state.
    pub fn get_stats(&self) -> (r: Stats)
        requires
            self.inv(),
        ensures
            r == spec_stats(self.m()),
    {
        self.state.get_stats()
    }
}

} // verus!
