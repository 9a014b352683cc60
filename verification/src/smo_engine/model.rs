//! Data model of the simulation: the run parameters ([`Options`]), one unit
//! of work ([`Task`]), the mutable simulation state ([`State`]) with its
//! mathematical model ([`StateModel`]) and invariant, and the derived
//! statistics snapshot ([`Stats`]).

use crate::smo_engine::rng;
use crate::smo_engine::rng::{MAX_DISTRIBUTION_PARAM, PROBABILITY_SCALE};
use std::collections::VecDeque;
use vstd::prelude::*;

verus! {

/// Largest clock value a simulation may reach; keeps every accumulator of
/// [`State`] inside `u64`.
pub const MAX_CLOCK: u64 = 0x4000_0000;

/// Largest number of tasks a simulation may hold beyond its clock; keeps the
/// queue bookkeeping inside `u64`.
pub const MAX_TASKS: u64 = 0x4000_0000;

/// Largest accepted required service time of a task.
pub const MAX_SERVICE_TIME: u64 = 0x4000_0000;

/// Parameters of the normal-like distribution used for a timing draw.
#[derive(Clone, Copy, Debug, PartialEq, Eq, Structural)]
pub struct Distribution {
    /// Expectation of the drawn interval.
    pub expectation_time: u64,
    /// Dispersion (spread) of the drawn interval.
    pub dispersion_time: u64,
}

impl Distribution {
    /// The parameters the sampler accepts.
    pub open spec fn valid(self) -> bool {
        &&& self.expectation_time <= MAX_DISTRIBUTION_PARAM
        &&& self.dispersion_time <= MAX_DISTRIBUTION_PARAM
    }
}

/// User-supplied settings of one simulation run, immutable once the engine
/// is built.
#[derive(Clone, Copy, Debug, PartialEq, Eq, Structural)]
pub struct Options {
    /// Distribution of the interval between task arrivals.
    pub appearance_time: Distribution,
    /// Distribution of the required service time of a task.
    pub task_weight_time: Distribution,
    /// Probability that a task gets low priority, in millionths
    /// (`0 ..= PROBABILITY_SCALE`).
    pub low_priority_probability: u64,
    /// How many real milliseconds one round lasts; zero means no pause.
    pub time_scale_millis: u64,
    /// Number of simulated rounds after which the run stops itself.
    pub max_number_of_rounds: u64,
}

impl Options {
    /// The configurations the engine accepts: distribution parameters and
    /// the probability in range, and a positive, bounded round limit.
    pub open spec fn valid(self) -> bool {
        &&& self.appearance_time.valid()
        &&& self.task_weight_time.valid()
        &&& self.low_priority_probability <= PROBABILITY_SCALE
        &&& 0 < self.max_number_of_rounds < MAX_CLOCK
    }

    /// Runtime check of [`Options::valid`].
    pub fn is_valid(&self) -> (r: bool)
        ensures
            r == self.valid(),
    {
        self.appearance_time.expectation_time <= MAX_DISTRIBUTION_PARAM
            && self.appearance_time.dispersion_time <= MAX_DISTRIBUTION_PARAM
            && self.task_weight_time.expectation_time <= MAX_DISTRIBUTION_PARAM
            && self.task_weight_time.dispersion_time <= MAX_DISTRIBUTION_PARAM
            && self.low_priority_probability <= PROBABILITY_SCALE
            && 0 < self.max_number_of_rounds && self.max_number_of_rounds < MAX_CLOCK
    }
}

/// One unit of work.
#[derive(Clone, Copy, Debug, PartialEq, Eq, Structural)]
pub struct Task {
    /// The tick at which the task arrived.
    pub incoming_time: u64,
    /// How many ticks of service the task requires.
    pub require_time: u64,
    /// Whether the task is served only when no normal task waits.
    pub low_priority: bool,
}

impl Task {
    /// What holds of every task the generator produces at tick `now` under
    /// the given options.
    pub open spec fn generated_by(self, now: u64, options: Options) -> bool {
        &&& self.incoming_time == now
        &&& self.require_time <= options.task_weight_time.expectation_time + 3
            * options.task_weight_time.dispersion_time
        &&& (options.low_priority_probability == 0 ==> !self.low_priority)
        &&& (options.low_priority_probability == PROBABILITY_SCALE ==> self.low_priority)
    }

    /// Probabilistic arrival: draws a candidate inter-arrival gap; a task is
    /// born at `now` exactly when the gap is at most the elapsed tick count.
    pub fn try_new(now: u64, elapsed: u64, options: Options) -> (r: Option<Task>)
        requires
            options.valid(),
        ensures
            r matches Some(t) ==> t.generated_by(now, options),
            options.appearance_time.expectation_time > 3 * options.appearance_time.dispersion_time
                + elapsed ==> r is None,
            options.appearance_time.expectation_time + 3 * options.appearance_time.dispersion_time
                <= elapsed ==> r is Some,
    {
        let rand_appearance = rng::next_int(
            options.appearance_time.expectation_time,
            options.appearance_time.dispersion_time,
        );
        if rand_appearance <= elapsed {
            Some(Task::new(now, options))
        } else {
            None
        }
    }

    /// Builds a new task arriving at `time`: its required service time and
    /// priority class are drawn from the configured distributions.
    pub fn new(time: u64, options: Options) -> (t: Task)
        requires
            options.valid(),
        ensures
            t.generated_by(time, options),
    {
        Task {
            incoming_time: time,
            require_time: rng::next_int(
                options.task_weight_time.expectation_time,
                options.task_weight_time.dispersion_time,
            ),
            low_priority: rng::next_bool(options.low_priority_probability),
        }
    }
}

/// Mathematical model of a [`State`]: the same information over `int` and
/// `Seq`, which the contracts and the transition functions speak of.
#[verifier::ext_equal]
pub ghost struct StateModel {
    pub started: bool,
    pub now: int,
    pub rest: int,
    pub queue: Seq<Task>,
    pub low_queue: Seq<Task>,
    pub task: Option<Task>,
    pub done: int,
    pub low_done: int,
    pub wait_sum: int,
    pub low_wait_sum: int,
    pub low_max_wait: int,
    pub normal_max_wait: int,
    pub min_require: int,
    pub depth_sum: int,
    pub load: int,
}

impl StateModel {
    /// Well-formedness of a reachable state.
    ///
    /// The service slot obeys: no current task means no remaining service
    /// time, and a current task never has more remaining time than it
    /// required; a current task with positive requirement keeps a positive
    /// remainder until the round that retires it.  Queued tasks arrived no
    /// later than the clock and sit in the queue of their priority class.
    /// The remaining clauses bound the accumulators so that no `u64`
    /// arithmetic on them can overflow.
    pub open spec fn inv(self) -> bool {
        &&& 0 <= self.now <= MAX_CLOCK
        &&& 0 <= self.rest <= MAX_SERVICE_TIME
        &&& (self.task is None ==> self.rest == 0)
        &&& (self.task matches Some(t) ==> {
            &&& t.require_time <= MAX_SERVICE_TIME
            &&& self.rest <= t.require_time
            &&& t.incoming_time + t.require_time <= self.now + self.rest
            &&& (self.rest > 0 || t.require_time == 0)
        })
        &&& (forall|i: int|
            0 <= i < self.queue.len() ==> {
                &&& (#[trigger] self.queue[i]).incoming_time <= self.now
                &&& !self.queue[i].low_priority
                &&& self.queue[i].require_time <= MAX_SERVICE_TIME
            })
        &&& (forall|i: int|
            0 <= i < self.low_queue.len() ==> {
                &&& (#[trigger] self.low_queue[i]).incoming_time <= self.now
                &&& self.low_queue[i].low_priority
                &&& self.low_queue[i].require_time <= MAX_SERVICE_TIME
            })
        &&& 0 <= self.low_done <= self.done
        &&& self.done + self.queue.len() + self.low_queue.len() <= self.now + MAX_TASKS
        &&& 0 <= self.low_wait_sum <= self.wait_sum
        &&& self.wait_sum <= self.done * MAX_CLOCK
        &&& self.low_wait_sum <= self.low_done * MAX_CLOCK
        &&& 0 <= self.depth_sum <= self.done * (MAX_CLOCK + MAX_TASKS)
        &&& 0 <= self.load <= 2 * self.now + self.done
        &&& 0 <= self.low_max_wait <= self.now
        &&& 0 <= self.normal_max_wait <= self.now
        &&& 0 <= self.min_require
    }
}

/// Appends an arriving task to the queue of its priority class: low-priority
/// tasks are stacked (LIFO), normal tasks join the back of the FIFO queue.
pub open spec fn enqueue_spec(m: StateModel, t: Task) -> StateModel {
    if t.low_priority {
        StateModel { low_queue: m.low_queue.push(t), ..m }
    } else {
        StateModel { queue: m.queue.push(t), ..m }
    }
}

/// The task the dispatch policy would start next: the front of the normal
/// FIFO queue first; only when that queue is empty, the top of the
/// low-priority LIFO stack.
pub open spec fn pick_spec(m: StateModel) -> Option<Task> {
    if m.queue.len() > 0 {
        Some(m.queue[0])
    } else if m.low_queue.len() > 0 {
        Some(m.low_queue.last())
    } else {
        None
    }
}

/// Accounts one dispatched task `t` on a state whose queues no longer hold
/// it: `t` becomes the current task with its full required service time,
/// and its wait time (clock minus arrival) is folded into the totals, the
/// per-class maxima, the minimum requirement, and the queue-depth sum.
pub open spec fn account_spec(m: StateModel, t: Task) -> StateModel {
    let wait = m.now - t.incoming_time;
    StateModel {
        task: Some(t),
        rest: t.require_time as int,
        done: m.done + 1,
        low_done: m.low_done + if t.low_priority {
            1int
        } else {
            0int
        },
        wait_sum: m.wait_sum + wait,
        low_wait_sum: m.low_wait_sum + if t.low_priority {
            wait
        } else {
            0int
        },
        low_max_wait: if t.low_priority && m.low_max_wait < wait {
            wait
        } else {
            m.low_max_wait
        },
        normal_max_wait: if !t.low_priority && m.normal_max_wait < wait {
            wait
        } else {
            m.normal_max_wait
        },
        min_require: if t.require_time < m.min_require {
            t.require_time as int
        } else {
            m.min_require
        },
        depth_sum: m.depth_sum + m.queue.len() + m.low_queue.len(),
        load: m.load + 1,
        ..m
    }
}

/// Dispatch when idle: removes the picked task from its queue and accounts
/// it.  With both queues empty the state is unchanged.
pub open spec fn dispatch_spec(m: StateModel) -> StateModel {
    match pick_spec(m) {
        None => m,
        Some(t) => {
            let popped = if m.queue.len() > 0 {
                StateModel { queue: m.queue.drop_first(), ..m }
            } else {
                StateModel { low_queue: m.low_queue.drop_last(), ..m }
            };
            account_spec(popped, t)
        },
    }
}

/// Service progress of one round: with a task in service, its remaining time
/// shrinks by the elapsed ticks and the busy-round counter grows.
pub open spec fn serve_spec(m: StateModel, elapsed: int) -> StateModel {
    if m.rest > 0 {
        StateModel { rest: m.rest - elapsed, load: m.load + 1, ..m }
    } else {
        m
    }
}

/// One full round at tick `now` with the given arrival: the clock advances,
/// the arrival (if any) is enqueued, the current task is served, and if no
/// service time remains the current slot is cleared and the next task (if
/// any) is dispatched.
pub open spec fn round_spec(m: StateModel, now: int, arrival: Option<Task>) -> StateModel {
    let m1 = StateModel { now: now, ..m };
    let m2 = match arrival {
        Some(t) => enqueue_spec(m1, t),
        None => m1,
    };
    let m3 = serve_spec(m2, now - m.now);
    if m3.rest == 0 {
        dispatch_spec(StateModel { task: None, ..m3 })
    } else {
        m3
    }
}

/// Stopping only clears the running flag.
pub open spec fn stop_spec(m: StateModel) -> StateModel {
    StateModel { started: false, ..m }
}

/// What holds of every arrival the task generator can produce at tick `now`.
pub open spec fn arrival_ok(a: Option<Task>, now: u64, options: Options) -> bool {
    a matches Some(t) ==> t.generated_by(now, options)
}

/// The state `m1` is the outcome of one round over `m0`: some arrival that
/// the generator can produce at the round's tick, folded in by
/// [`round_spec`].
pub open spec fn round_outcome(
    m0: StateModel,
    a: Option<Task>,
    m1: StateModel,
    options: Options,
) -> bool {
    &&& arrival_ok(a, m1.now as u64, options)
    &&& m1 == round_spec(m0, m1.now, a)
}

/// The current-task slot is exclusive with an idle countdown: in every
/// well-formed state whose current task requires positive service, a task
/// occupies the slot exactly when service time remains.
///
/// Well-formedness holds of every reachable state: construction establishes
/// it and every engine operation preserves it.  The positive-requirement
/// hypothesis is needed because a task drawn with required service time
/// zero sits in the slot with no remaining time for the one round before it
/// is retired.
pub proof fn lemma_service_slot_exclusive(m: StateModel)
    requires
        m.inv(),
        m.task matches Some(t) ==> t.require_time > 0,
    ensures
        (m.task is Some) <==> m.rest != 0,
{
}

/// The clock is monotonic: a round computed for a later tick moves the
/// clock to exactly that tick, so consecutive rounds increase it by exactly
/// the elapsed time.
pub proof fn lemma_monotonic_clock(m: StateModel, now: int, a: Option<Task>)
    requires
        m.now < now,
    ensures
        round_spec(m, now, a).now == now,
{
}

/// Enqueuing appends: an arriving task joins the back of the queue of its
/// priority class and leaves the other queue alone.  Of two tasks of one
/// class, the one enqueued first therefore keeps the smaller index.
pub proof fn lemma_enqueue_order(m: StateModel, t: Task)
    ensures
        !t.low_priority ==> enqueue_spec(m, t).queue == m.queue.push(t) && enqueue_spec(
            m,
            t,
        ).low_queue == m.low_queue,
        t.low_priority ==> enqueue_spec(m, t).low_queue == m.low_queue.push(t) && enqueue_spec(
            m,
            t,
        ).queue == m.queue,
{
}

/// FIFO dispatch of normal tasks: dispatch takes the front of the normal
/// queue and shifts every remaining task one index forward.  Together with
/// [`lemma_enqueue_order`], two normal tasks enqueued in order A then B are
/// dispatched in order A then B whenever both stay queued in between.
pub proof fn lemma_fifo_order(m: StateModel)
    requires
        m.queue.len() >= 1,
    ensures
        dispatch_spec(m).task == Some(m.queue[0]),
        dispatch_spec(m).queue == m.queue.drop_first(),
        dispatch_spec(m).low_queue == m.low_queue,
        forall|i: int|
            0 <= i < m.queue.len() - 1 ==> #[trigger] dispatch_spec(m).queue[i] == m.queue[i + 1],
{
}

/// LIFO dispatch of low-priority tasks: with the normal queue empty,
/// dispatch takes the most recently pushed low-priority task.  Together
/// with [`lemma_enqueue_order`], two low-priority tasks enqueued in order A
/// then B are dispatched in order B then A when the normal queue is empty
/// at both dispatches.
pub proof fn lemma_lifo_order(m: StateModel)
    requires
        m.queue.len() == 0,
        m.low_queue.len() >= 1,
    ensures
        dispatch_spec(m).task == Some(m.low_queue.last()),
        dispatch_spec(m).low_queue == m.low_queue.drop_last(),
        dispatch_spec(m).queue == m.queue,
{
}

/// FIFO, concretely: enqueue two normal tasks A then B on an idle engine
/// with an empty normal queue; the first dispatch starts A, and the next
/// dispatch after A retires starts B.
pub proof fn lemma_fifo_pair(m: StateModel, a: Task, b: Task)
    requires
        !a.low_priority,
        !b.low_priority,
        m.queue.len() == 0,
    ensures
        ({
            let queued = enqueue_spec(enqueue_spec(m, a), b);
            let first = dispatch_spec(queued);
            let second = dispatch_spec(StateModel { task: None, rest: 0, ..first });
            first.task == Some(a) && second.task == Some(b)
        }),
{
    let queued = enqueue_spec(enqueue_spec(m, a), b);
    assert(queued.queue[0] == a);
    assert(queued.queue[1] == b);
    assert(dispatch_spec(queued).queue[0] == b);
}

/// LIFO, concretely: enqueue two low-priority tasks A then B on an idle
/// engine with both queues empty; the first dispatch starts B (the more
/// recent), and the next dispatch after B retires starts A.
pub proof fn lemma_lifo_pair(m: StateModel, a: Task, b: Task)
    requires
        a.low_priority,
        b.low_priority,
        m.queue.len() == 0,
        m.low_queue.len() == 0,
    ensures
        ({
            let queued = enqueue_spec(enqueue_spec(m, a), b);
            let first = dispatch_spec(queued);
            let second = dispatch_spec(StateModel { task: None, rest: 0, ..first });
            first.task == Some(b) && second.task == Some(a)
        }),
{
    let queued = enqueue_spec(enqueue_spec(m, a), b);
    assert(queued.low_queue.last() == b);
    assert(dispatch_spec(queued).low_queue.last() == a);
}

/// Priority dominance: while the normal queue is non-empty, dispatch picks
/// a normal-priority task from it and the low-priority stack is untouched,
/// whatever it holds.
pub proof fn lemma_priority_dominance(m: StateModel)
    requires
        m.inv(),
        m.queue.len() > 0,
    ensures
        pick_spec(m) == Some(m.queue[0]),
        !m.queue[0].low_priority,
        dispatch_spec(m).low_queue == m.low_queue,
{
}

/// Termination measure: while the clock has not passed the round limit, one
/// more round advances the clock by one and strictly shrinks the number of
/// rounds still allowed.  The stepping loop refuses to run once the clock
/// passes the limit, so a run started at clock `c` executes at most
/// `max_rounds + 1 - c` rounds.
pub proof fn lemma_termination(m: StateModel, max_rounds: int, a: Option<Task>)
    requires
        m.now <= max_rounds,
    ensures
        round_spec(m, m.now + 1, a).now == m.now + 1,
        max_rounds + 1 - round_spec(m, m.now + 1, a).now < max_rounds + 1 - m.now,
{
}

/// With the low-priority probability at zero, every arrival is normal, so a
/// round over a state without queued low-priority tasks leaves the
/// low-priority queue empty and the low-priority completion count
/// unchanged.
pub proof fn lemma_low_probability_zero(m: StateModel, now: int, a: Option<Task>, options: Options)
    requires
        m.inv(),
        m.low_queue.len() == 0,
        options.low_priority_probability == 0,
        arrival_ok(a, now as u64, options),
    ensures
        round_spec(m, now, a).low_queue.len() == 0,
        round_spec(m, now, a).low_done == m.low_done,
{
}

/// Stopping is idempotent: a second stop observes the same state as the
/// first produced.
pub proof fn lemma_stop_idempotent(m: StateModel)
    ensures
        stop_spec(stop_spec(m)) == stop_spec(m),
{
    assert(stop_spec(stop_spec(m)) =~= stop_spec(m));
}

/// Mutable state of one simulation run.
#[derive(Debug)]
pub struct State {
    /// True while the stepping loop is running.
    pub started: bool,
    /// Current simulated tick.
    pub now: u64,
    /// Remaining service time of the current task (0: nothing in service).
    pub rest_time_working: u64,
    /// Normal-priority tasks, served first come first (FIFO).
    pub queue: VecDeque<Task>,
    /// Low-priority tasks, served most recent first (LIFO).
    pub low_prior_queue: Vec<Task>,
    /// The task currently in service.
    pub task: Option<Task>,
    /// Tasks taken into service so far.
    pub task_done_total: u64,
    /// Low-priority tasks taken into service so far.
    pub low_prior_task_done_total: u64,
    /// Wait time, summed over all tasks taken into service.
    pub task_wait_time_total: u64,
    /// Wait time, summed over low-priority tasks taken into service.
    pub low_prior_task_wait_time_total: u64,
    /// Largest wait time observed on a low-priority task.
    pub low_prior_task_max_wait_time_total: u64,
    /// Largest wait time observed on a normal-priority task.
    pub normal_prior_task_max_wait_time_total: u64,
    /// Smallest required service time observed at dispatch.
    pub min_task_time_require: u64,
    /// Combined queue depth, summed at every dispatch.
    pub task_wait_in_q_total: u64,
    /// Rounds that made service progress or dispatched a task.
    pub load: u64,
}

impl View for State {
    type V = StateModel;

    open spec fn view(&self) -> StateModel {
        StateModel {
            started: self.started,
            now: self.now as int,
            rest: self.rest_time_working as int,
            queue: self.queue@,
            low_queue: self.low_prior_queue@,
            task: self.task,
            done: self.task_done_total as int,
            low_done: self.low_prior_task_done_total as int,
            wait_sum: self.task_wait_time_total as int,
            low_wait_sum: self.low_prior_task_wait_time_total as int,
            low_max_wait: self.low_prior_task_max_wait_time_total as int,
            normal_max_wait: self.normal_prior_task_max_wait_time_total as int,
            min_require: self.min_task_time_require as int,
            depth_sum: self.task_wait_in_q_total as int,
            load: self.load as int,
        }
    }
}

impl State {
    /// The model of a freshly built state: clock at zero, both queues empty,
    /// nothing in service, every accumulator at zero, and no observed
    /// minimum service time yet.
    pub open spec fn initial() -> StateModel {
        StateModel {
            started: false,
            now: 0,
            rest: 0,
            queue: Seq::empty(),
            low_queue: Seq::empty(),
            task: None,
            done: 0,
            low_done: 0,
            wait_sum: 0,
            low_wait_sum: 0,
            low_max_wait: 0,
            normal_max_wait: 0,
            min_require: u64::MAX as int,
            depth_sum: 0,
            load: 0,
        }
    }

    /// A new, empty state.
    pub fn new() -> (s: State)
        ensures
            s@ == State::initial(),
            s@.inv(),
    {
        let s = State {
            started: false,
            now: 0,
            rest_time_working: 0,
            queue: VecDeque::new(),
            low_prior_queue: Vec::new(),
            task: None,
            task_done_total: 0,
            low_prior_task_done_total: 0,
            task_wait_time_total: 0,
            low_prior_task_wait_time_total: 0,
            low_prior_task_max_wait_time_total: 0,
            normal_prior_task_max_wait_time_total: 0,
            min_task_time_require: u64::MAX,
            task_wait_in_q_total: 0,
            load: 0,
        };
        proof {
            assert(s@ =~= State::initial());
        }
        s
    }
}

/// An exact average: `num` summed ticks over `den` counted tasks.  A zero
/// `den` means no task of that class has been seen yet; the average is then
/// undefined-as-zero rather than a crash, and presentation layers may render
/// it as zero or as "not available".
#[derive(Clone, Copy, Debug, PartialEq, Eq, Structural)]
pub struct Ratio {
    pub num: u64,
    pub den: u64,
}

/// Statistics snapshot, derived from a [`State`] on demand and never stored.
#[derive(Clone, Copy, Debug)]
pub struct Stats {
    /// Current simulated tick.
    pub now: u64,
    /// The task currently in service.
    pub task: Option<Task>,
    /// How long the current task has been in the system.
    pub task_time_spent: u64,
    /// Remaining service time of the current task.
    pub rest_time_working: u64,
    /// Tasks taken into service so far.
    pub task_done_total: u64,
    /// Low-priority tasks taken into service so far.
    pub low_prior_task_done_total: u64,
    /// Tasks waiting in both queues.
    pub task_in_q_total: u64,
    /// Tasks waiting in the low-priority queue.
    pub low_prior_task_in_q_total: u64,
    /// Average wait time over all tasks, served and still queued.
    pub avg_task_wait_time: Ratio,
    /// Average wait time over low-priority tasks, served and still queued.
    pub low_prior_avg_task_wait_time: Ratio,
    /// Average wait time over normal-priority tasks, served and still queued.
    pub normal_prior_avg_task_wait_time: Ratio,
    /// Average interval between arrivals of any task.
    pub avg_time_between_tasks: Ratio,
    /// Average interval between arrivals of low-priority tasks.
    pub avg_time_between_low_prior_tasks: Ratio,
    /// Average interval between arrivals of normal-priority tasks.
    pub avg_time_between_normal_prior_tasks: Ratio,
}

/// Wait time accumulated by the tasks still sitting in a queue: for each,
/// the ticks from its arrival to the clock `now`, summed front to back.
pub open spec fn queue_wait_sum(q: Seq<Task>, now: int) -> int
    decreases q.len(),
{
    if q.len() == 0 {
        0
    } else {
        (now - q[0].incoming_time) + queue_wait_sum(q.drop_first(), now)
    }
}

/// Appending a task adds its wait time to the queue's wait sum.
pub proof fn lemma_queue_wait_sum_push(q: Seq<Task>, t: Task, now: int)
    ensures
        queue_wait_sum(q.push(t), now) == queue_wait_sum(q, now) + (now - t.incoming_time),
    decreases q.len(),
{
    if q.len() == 0 {
        assert(q.push(t)[0] == t);
        assert(q.push(t).drop_first() =~= Seq::<Task>::empty());
        assert(queue_wait_sum(q.push(t), now) == (now - t.incoming_time) + queue_wait_sum(
            Seq::<Task>::empty(),
            now,
        ));
        assert(queue_wait_sum(Seq::<Task>::empty(), now) == 0);
    } else {
        assert(q.push(t)[0] == q[0]);
        assert(q.push(t).drop_first() =~= q.drop_first().push(t));
        lemma_queue_wait_sum_push(q.drop_first(), t, now);
        assert(queue_wait_sum(q.push(t), now) == (now - q[0].incoming_time) + queue_wait_sum(
            q.drop_first().push(t),
            now,
        ));
        assert(queue_wait_sum(q, now) == (now - q[0].incoming_time) + queue_wait_sum(
            q.drop_first(),
            now,
        ));
    }
}

/// A queue of tasks that all arrived by `now` has a wait sum between zero
/// and its length times `now`.
pub proof fn lemma_queue_wait_sum_bounds(q: Seq<Task>, now: int)
    requires
        forall|i: int| 0 <= i < q.len() ==> (#[trigger] q[i]).incoming_time <= now,
    ensures
        0 <= queue_wait_sum(q, now) <= q.len() * now,
    decreases q.len(),
{
    if q.len() == 0 {
    } else {
        assert(q[0].incoming_time <= now);
        lemma_queue_wait_sum_bounds(q.drop_first(), now);
        assert(queue_wait_sum(q, now) <= now + (q.len() - 1) * now);
        assert(now + (q.len() - 1) * now == q.len() * now) by (nonlinear_arith);
    }
}

/// The statistics that [`State::get_stats`] derives from a state model.
pub open spec fn spec_stats(m: StateModel) -> Stats {
    let q_sum = queue_wait_sum(m.queue, m.now);
    let lq_sum = queue_wait_sum(m.low_queue, m.now);
    let total_wait = m.wait_sum + q_sum + lq_sum;
    let low_wait = m.low_wait_sum + lq_sum;
    let total_count = m.done + m.queue.len() + m.low_queue.len();
    let low_count = m.low_done + m.low_queue.len();
    Stats {
        now: m.now as u64,
        task: m.task,
        task_time_spent: (match m.task {
            Some(t) => m.now + m.rest - t.incoming_time - t.require_time,
            None => 0int,
        }) as u64,
        rest_time_working: m.rest as u64,
        task_done_total: m.done as u64,
        low_prior_task_done_total: m.low_done as u64,
        task_in_q_total: (m.queue.len() + m.low_queue.len()) as u64,
        low_prior_task_in_q_total: m.low_queue.len() as u64,
        avg_task_wait_time: Ratio { num: total_wait as u64, den: total_count as u64 },
        low_prior_avg_task_wait_time: Ratio { num: low_wait as u64, den: low_count as u64 },
        normal_prior_avg_task_wait_time: Ratio {
            num: (total_wait - low_wait) as u64,
            den: (total_count - low_count) as u64,
        },
        avg_time_between_tasks: Ratio { num: m.now as u64, den: total_count as u64 },
        avg_time_between_low_prior_tasks: Ratio { num: m.now as u64, den: low_count as u64 },
        avg_time_between_normal_prior_tasks: Ratio {
            num: m.now as u64,
            den: (total_count - low_count) as u64,
        },
    }
}

impl State {
    /// Derives the statistics snapshot of the current state: totals from the
    /// accumulators, plus a live pass over both queues for the wait time of
    /// tasks not yet served.  Averages are exact ratios; a class nobody has
    /// seen yet gets a zero denominator, never a crash.
    pub fn get_stats(&self) -> (r: Stats)
        requires
            self@.inv(),
        ensures
            r == spec_stats(self@),
    {
        let task_time_spent: u64 = match &self.task {
            Some(t) => (self.now + self.rest_time_working) - (t.incoming_time + t.require_time),
            None => 0,
        };

        let ghost mq = self@.queue;
        let ghost mnow = self@.now;
        proof {
            lemma_queue_wait_sum_bounds(mq, mnow);
            assert(mq.len() * mnow <= (MAX_CLOCK + MAX_TASKS) * MAX_CLOCK) by (nonlinear_arith)
                requires
                    0 <= mq.len() <= MAX_CLOCK + MAX_TASKS,
                    0 <= mnow <= MAX_CLOCK,
            ;
        }
        let qn: usize = self.queue.len();
        let mut total_wait_time_in_q: u64 = 0;
        let mut i: usize = 0;
        while i < qn
            invariant
                self@.inv(),
                qn == mq.len(),
                mq == self@.queue,
                mnow == self@.now,
                i <= qn,
                total_wait_time_in_q == queue_wait_sum(mq.subrange(0, i as int), mnow),
            decreases qn - i,
        {
            let t = self.queue[i];
            proof {
                assert(mq.subrange(0, i as int).push(mq[i as int]) =~= mq.subrange(0, i + 1));
                lemma_queue_wait_sum_push(mq.subrange(0, i as int), mq[i as int], mnow);
                lemma_queue_wait_sum_bounds(mq.subrange(0, i + 1), mnow);
                assert(mq.subrange(0, i + 1).len() * mnow <= (MAX_CLOCK + MAX_TASKS) * MAX_CLOCK)
                    by (nonlinear_arith)
                    requires
                        0 <= mq.subrange(0, i + 1).len() <= MAX_CLOCK + MAX_TASKS,
                        0 <= mnow <= MAX_CLOCK,
                ;
            }
            total_wait_time_in_q = total_wait_time_in_q + (self.now - t.incoming_time);
            i = i + 1;
        }
        proof {
            assert(mq.subrange(0, qn as int) =~= mq);
        }

        let ghost mlq = self@.low_queue;
        proof {
            lemma_queue_wait_sum_bounds(mlq, mnow);
            assert(mlq.len() * mnow <= (MAX_CLOCK + MAX_TASKS) * MAX_CLOCK) by (nonlinear_arith)
                requires
                    0 <= mlq.len() <= MAX_CLOCK + MAX_TASKS,
                    0 <= mnow <= MAX_CLOCK,
            ;
        }
        let lqn: usize = self.low_prior_queue.len();
        let mut total_wait_time_in_low_prior_q: u64 = 0;
        let mut j: usize = 0;
        while j < lqn
            invariant
                self@.inv(),
                lqn == mlq.len(),
                mlq == self@.low_queue,
                mnow == self@.now,
                j <= lqn,
                total_wait_time_in_low_prior_q == queue_wait_sum(mlq.subrange(0, j as int), mnow),
            decreases lqn - j,
        {
            let t = self.low_prior_queue[j];
            proof {
                assert(mlq.subrange(0, j as int).push(mlq[j as int]) =~= mlq.subrange(0, j + 1));
                lemma_queue_wait_sum_push(mlq.subrange(0, j as int), mlq[j as int], mnow);
                lemma_queue_wait_sum_bounds(mlq.subrange(0, j + 1), mnow);
                assert(mlq.subrange(0, j + 1).len() * mnow <= (MAX_CLOCK + MAX_TASKS) * MAX_CLOCK)
                    by (nonlinear_arith)
                    requires
                        0 <= mlq.subrange(0, j + 1).len() <= MAX_CLOCK + MAX_TASKS,
                        0 <= mnow <= MAX_CLOCK,
                ;
            }
            total_wait_time_in_low_prior_q = total_wait_time_in_low_prior_q + (self.now
                - t.incoming_time);
            j = j + 1;
        }
        proof {
            assert(mlq.subrange(0, lqn as int) =~= mlq);
            assert(self@.wait_sum <= (MAX_CLOCK + MAX_TASKS) * MAX_CLOCK) by (nonlinear_arith)
                requires
                    self@.wait_sum <= self@.done * MAX_CLOCK,
                    0 <= self@.done <= MAX_CLOCK + MAX_TASKS,
            ;
        }

        let total_wait_time = self.task_wait_time_total + total_wait_time_in_q
            + total_wait_time_in_low_prior_q;
        let total_wait_time_low_prior = self.low_prior_task_wait_time_total
            + total_wait_time_in_low_prior_q;

        let qlen = qn as u64;
        let lqlen = lqn as u64;
        let total_task = self.task_done_total + qlen + lqlen;
        let total_low_task = self.low_prior_task_done_total + lqlen;
        let total_norm_task = total_task - total_low_task;

        Stats {
            now: self.now,
            task: self.task,
            task_time_spent,
            rest_time_working: self.rest_time_working,
            task_done_total: self.task_done_total,
            low_prior_task_done_total: self.low_prior_task_done_total,
            task_in_q_total: qlen + lqlen,
            low_prior_task_in_q_total: lqlen,
            avg_task_wait_time: Ratio { num: total_wait_time, den: total_task },
            low_prior_avg_task_wait_time: Ratio {
                num: total_wait_time_low_prior,
                den: total_low_task,
            },
            normal_prior_avg_task_wait_time: Ratio {
                num: total_wait_time - total_wait_time_low_prior,
                den: total_norm_task,
            },
            avg_time_between_tasks: Ratio { num: self.now, den: total_task },
            avg_time_between_low_prior_tasks: Ratio { num: self.now, den: total_low_task },
            avg_time_between_normal_prior_tasks: Ratio { num: self.now, den: total_norm_task },
        }
    }
}

} // verus!
