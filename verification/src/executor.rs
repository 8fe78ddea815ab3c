//! A cooperative, single-threaded task scheduler.
//!
//! The scheduler decides which task runs next and what becomes of it after it
//! was polled; whoever drives it holds the futures, polls the one it is told
//! to poll and reports the outcome back.

pub mod task_handle;
pub mod task_id;
pub mod task_local;
pub mod task_manager;

use vstd::prelude::*;
use crate::executor::task_handle::TaskHandle;
use crate::executor::task_id::TaskId;
use crate::executor::task_local::{TaskStatus, TaskView};
use crate::executor::task_manager::TaskManager;

verus! {

/// What polling a task's future gave.
#[derive(Debug, Clone, Copy, PartialEq, Eq, Structural)]
pub enum PollOutcome {
    /// The future finished.
    Ready,
    /// The future yielded and wants to be polled again.
    Pending,
}

/// The abstract state of an executor.
#[verifier::ext_equal]
pub struct ExecutorView {
    /// The number the next spawned task gets.
    pub next_id: nat,
    /// Every task not finished yet, by task number.
    pub tasks: Map<u64, TaskView>,
    /// The tasks waiting for their turn, front first.
    pub queue: Seq<u64>,
    /// The task handed out for polling, whose outcome is not reported yet.
    pub current: Option<u64>,
}

/// The state every operation of the executor keeps: task numbers are handed
/// out once; the queue holds no task twice; every task in the table is either
/// waiting in the queue (in status `Init` or `Pending`) or being polled (in
/// status `Running`), and nothing else is in the queue or being polled.
pub open spec fn executor_inv(v: ExecutorView) -> bool {
    &&& inv_numbers(v)
    &&& inv_queue_distinct(v)
    &&& inv_queue_waiting(v)
    &&& inv_current_running(v)
    &&& inv_tasks_accounted(v)
}

/// Task numbers start at 1, are below the next number, and key their records;
/// the table is finite.
pub open spec fn inv_numbers(v: ExecutorView) -> bool {
    &&& 1 <= v.next_id
    &&& v.tasks.dom().finite()
    &&& forall|k: u64| #[trigger]
        v.tasks.contains_key(k) ==> 1 <= k < v.next_id && v.tasks[k].id == k
}

/// No task waits in the queue twice.
pub open spec fn inv_queue_distinct(v: ExecutorView) -> bool {
    forall|i: int, j: int| 0 <= i < j < v.queue.len() ==> v.queue[i] != v.queue[j]
}

/// Every queued task is in the table, in status `Init` or `Pending`.
pub open spec fn inv_queue_waiting(v: ExecutorView) -> bool {
    forall|i: int| 0 <= i < v.queue.len() ==> {
        &&& #[trigger] v.tasks.contains_key(v.queue[i])
        &&& (v.tasks[v.queue[i]].status == TaskStatus::Init
            || v.tasks[v.queue[i]].status == TaskStatus::Pending)
    }
}

/// The task being polled is in the table, `Running`, and not queued.
pub open spec fn inv_current_running(v: ExecutorView) -> bool {
    v.current matches Some(c) ==> {
        &&& v.tasks.contains_key(c)
        &&& v.tasks[c].status == TaskStatus::Running
        &&& !v.queue.contains(c)
    }
}

/// Every task in the table is queued or being polled.
pub open spec fn inv_tasks_accounted(v: ExecutorView) -> bool {
    forall|k: u64| #[trigger]
        v.tasks.contains_key(k) ==> v.queue.contains(k) || v.current == Some(k)
}

/// `spawn`: a task named `name`, under the next number and in status `Init`,
/// joins the table and the back of the queue; its number is returned.
pub open spec fn spawn_step(v: ExecutorView, name: Seq<char>) -> (ExecutorView, u64) {
    let id = v.next_id as u64;
    (
        ExecutorView {
            next_id: v.next_id + 1,
            tasks: v.tasks.insert(id, TaskView { id, name, status: TaskStatus::Init }),
            queue: v.queue.push(id),
            current: v.current,
        },
        id,
    )
}

/// `schedule`: the task being polled, if its outcome is not reported yet;
/// else the front of the queue, which leaves the queue, is marked `Running`
/// and becomes the task being polled; nothing when no task waits.
pub open spec fn schedule_step(v: ExecutorView) -> (ExecutorView, Option<u64>) {
    match v.current {
        Some(c) => (v, Some(c)),
        None => if v.queue.len() == 0 {
            (v, None)
        } else {
            let first = v.queue[0];
            (
                ExecutorView {
                    tasks: v.tasks.insert(
                        first,
                        TaskView { status: TaskStatus::Running, ..v.tasks[first] },
                    ),
                    queue: v.queue.drop_first(),
                    current: Some(first),
                    ..v
                },
                Some(first),
            )
        },
    }
}

/// `report`: a task that finished leaves the table; one still pending goes
/// to the back of the queue in status `Pending`; nothing changes when no task
/// is being polled.
pub open spec fn report_step(v: ExecutorView, outcome: PollOutcome) -> ExecutorView {
    match v.current {
        None => v,
        Some(c) => match outcome {
            PollOutcome::Ready => ExecutorView { tasks: v.tasks.remove(c), current: None, ..v },
            PollOutcome::Pending => ExecutorView {
                tasks: v.tasks.insert(c, TaskView { status: TaskStatus::Pending, ..v.tasks[c] }),
                queue: v.queue.push(c),
                current: None,
                ..v
            },
        },
    }
}

/// The task number that a spawn may use is free: every task in the table has
/// a smaller number.
pub proof fn lemma_spawn_keeps_inv(v: ExecutorView, name: Seq<char>)
    requires
        executor_inv(v),
        v.next_id < u64::MAX,
    ensures
        executor_inv(spawn_step(v, name).0),
        forall|k: u64| v.tasks.contains_key(k) ==> k < spawn_step(v, name).1,
{
    let (w, id) = spawn_step(v, name);
    assert(!v.tasks.contains_key(id));
    assert forall|k: u64| #[trigger] w.tasks.contains_key(k) implies w.queue.contains(k)
        || w.current == Some(k) by {
        if k == id {
            assert(w.queue[w.queue.len() - 1] == k);
        } else if v.queue.contains(k) {
            let i = choose|i: int| 0 <= i < v.queue.len() && v.queue[i] == k;
            assert(w.queue[i] == k);
        }
    }
    assert forall|i: int| 0 <= i < w.queue.len() implies {
        &&& #[trigger] w.tasks.contains_key(w.queue[i])
        &&& (w.tasks[w.queue[i]].status == TaskStatus::Init
            || w.tasks[w.queue[i]].status == TaskStatus::Pending)
    } by {
        if i < v.queue.len() {
            assert(v.tasks.contains_key(v.queue[i]));
        }
    }
    assert forall|i: int, j: int| 0 <= i < j < w.queue.len() implies w.queue[i]
        != w.queue[j] by {
        if j == v.queue.len() {
            assert(v.tasks.contains_key(v.queue[i]));
        }
    }
    if let Some(c) = w.current {
        if w.queue.contains(c) {
            let i = choose|i: int| 0 <= i < w.queue.len() && w.queue[i] == c;
            if i < v.queue.len() {
                assert(v.queue.contains(c));
            }
        }
    }
    assert(inv_queue_waiting(w));
    assert(inv_tasks_accounted(w));
}

/// Scheduling keeps the invariant, hands out only a task in the table, and
/// hands out nothing only when every task has finished.
pub proof fn lemma_schedule_keeps_inv(v: ExecutorView)
    requires
        executor_inv(v),
    ensures
        executor_inv(schedule_step(v).0),
        schedule_step(v).1 matches Some(c) ==> v.tasks.contains_key(c),
        schedule_step(v).1.is_none() ==> v.tasks == Map::<u64, TaskView>::empty(),
{
    if v.current.is_none() {
        if v.queue.len() == 0 {
            lemma_idle_means_all_finished(v);
        } else {
            let w = schedule_step(v).0;
            let first = v.queue[0];
            assert(v.tasks.contains_key(first));
            assert forall|i: int| 0 <= i < w.queue.len() implies {
                &&& #[trigger] w.tasks.contains_key(w.queue[i])
                &&& (w.tasks[w.queue[i]].status == TaskStatus::Init
                    || w.tasks[w.queue[i]].status == TaskStatus::Pending)
            } by {
                assert(w.queue[i] == v.queue[i + 1]);
                assert(v.tasks.contains_key(v.queue[i + 1]));
            }
            assert forall|i: int, j: int| 0 <= i < j < w.queue.len() implies w.queue[i]
                != w.queue[j] by {
                assert(w.queue[i] == v.queue[i + 1]);
                assert(w.queue[j] == v.queue[j + 1]);
            }
            assert(!w.queue.contains(first)) by {
                if w.queue.contains(first) {
                    let i = choose|i: int| 0 <= i < w.queue.len() && w.queue[i] == first;
                    assert(v.queue[i + 1] == v.queue[0]);
                }
            }
            assert forall|k: u64| #[trigger] w.tasks.contains_key(k) implies w.queue.contains(k)
                || w.current == Some(k) by {
                if k != first {
                    assert(v.tasks.contains_key(k));
                    let i = choose|i: int| 0 <= i < v.queue.len() && v.queue[i] == k;
                    assert(i != 0);
                    assert(w.queue[i - 1] == k);
                }
            }
        }
    }
}

/// Reporting an outcome keeps the invariant.
pub proof fn lemma_report_keeps_inv(v: ExecutorView, outcome: PollOutcome)
    requires
        executor_inv(v),
    ensures
        executor_inv(report_step(v, outcome)),
{
    if let Some(c) = v.current {
        let w = report_step(v, outcome);
        assert(v.tasks.contains_key(c));
        match outcome {
            PollOutcome::Ready => {
                assert forall|i: int| 0 <= i < w.queue.len() implies {
                    &&& #[trigger] w.tasks.contains_key(w.queue[i])
                    &&& (w.tasks[w.queue[i]].status == TaskStatus::Init
                        || w.tasks[w.queue[i]].status == TaskStatus::Pending)
                } by {
                    assert(v.tasks.contains_key(v.queue[i]));
                    if v.queue[i] == c {
                        assert(v.queue.contains(c));
                    }
                }
                assert forall|k: u64| #[trigger] w.tasks.contains_key(k) implies w.queue.contains(
                    k,
                ) || w.current == Some(k) by {
                    assert(v.tasks.contains_key(k));
                }
                assert(inv_queue_waiting(w));
                assert(inv_tasks_accounted(w));
            },
            PollOutcome::Pending => {
                assert forall|i: int| 0 <= i < w.queue.len() implies {
                    &&& #[trigger] w.tasks.contains_key(w.queue[i])
                    &&& (w.tasks[w.queue[i]].status == TaskStatus::Init
                        || w.tasks[w.queue[i]].status == TaskStatus::Pending)
                } by {
                    if i < v.queue.len() {
                        assert(v.tasks.contains_key(v.queue[i]));
                    }
                }
                assert forall|i: int, j: int| 0 <= i < j < w.queue.len() implies w.queue[i]
                    != w.queue[j] by {
                    if j == v.queue.len() {
                        assert(v.queue.contains(v.queue[i]));
                    }
                }
                assert forall|k: u64| #[trigger] w.tasks.contains_key(k) implies w.queue.contains(
                    k,
                ) || w.current == Some(k) by {
                    if k == c {
                        assert(w.queue[w.queue.len() - 1] == c);
                    } else {
                        assert(v.tasks.contains_key(k));
                        let i = choose|i: int| 0 <= i < v.queue.len() && v.queue[i] == k;
                        assert(w.queue[i] == k);
                    }
                }
            },
        }
    }
}

/// Once no task is being polled and none waits in the queue, every task that
/// was spawned has finished: the table is empty.
pub proof fn lemma_idle_means_all_finished(v: ExecutorView)
    requires
        executor_inv(v),
        v.current.is_none(),
        v.queue.len() == 0,
    ensures
        v.tasks == Map::<u64, TaskView>::empty(),
{
    assert forall|k: u64| !v.tasks.contains_key(k) by {
        if v.tasks.contains_key(k) {
            assert(v.queue.contains(k));
        }
    }
    assert(v.tasks =~= Map::<u64, TaskView>::empty());
}

/// Every task in the table is exactly one of: waiting in the queue, or being
/// polled; and nothing else waits or is polled.
pub proof fn lemma_each_task_waits_or_runs(v: ExecutorView, k: u64)
    requires
        executor_inv(v),
    ensures
        v.tasks.contains_key(k) <==> (v.queue.contains(k) || v.current == Some(k)),
        !(v.queue.contains(k) && v.current == Some(k)),
{
    if v.queue.contains(k) {
        let i = choose|i: int| 0 <= i < v.queue.len() && v.queue[i] == k;
        assert(v.tasks.contains_key(v.queue[i]));
    }
}

/// One call on an executor.
pub enum ExecOp {
    Spawn(Seq<char>),
    Schedule,
    Report(PollOutcome),
}

/// The state after one call.
pub open spec fn apply_op(v: ExecutorView, op: ExecOp) -> ExecutorView {
    match op {
        ExecOp::Spawn(name) => spawn_step(v, name).0,
        ExecOp::Schedule => schedule_step(v).0,
        ExecOp::Report(o) => report_step(v, o),
    }
}

/// The state after a sequence of calls, first call first.
pub open spec fn apply_ops(v: ExecutorView, ops: Seq<ExecOp>) -> ExecutorView
    decreases ops.len(),
{
    if ops.len() == 0 {
        v
    } else {
        apply_ops(apply_op(v, ops[0]), ops.drop_first())
    }
}

/// The tasks that the `schedule` calls of a sequence of calls hand out, in
/// order.
pub open spec fn handed_out(v: ExecutorView, ops: Seq<ExecOp>) -> Seq<u64>
    decreases ops.len(),
{
    if ops.len() == 0 {
        Seq::empty()
    } else {
        let rest = handed_out(apply_op(v, ops[0]), ops.drop_first());
        match (ops[0], schedule_step(v).1) {
            (ExecOp::Schedule, Some(c)) => seq![c] + rest,
            _ => rest,
        }
    }
}

/// Every call keeps the invariant and never lowers the next task number.
pub proof fn lemma_op_keeps_inv(v: ExecutorView, op: ExecOp)
    requires
        executor_inv(v),
        v.next_id < u64::MAX,
    ensures
        executor_inv(apply_op(v, op)),
        v.next_id <= apply_op(v, op).next_id <= v.next_id + 1,
{
    match op {
        ExecOp::Spawn(name) => lemma_spawn_keeps_inv(v, name),
        ExecOp::Schedule => lemma_schedule_keeps_inv(v),
        ExecOp::Report(o) => lemma_report_keeps_inv(v, o),
    }
}

/// A task that is not in the table, under a number already handed out, is
/// never handed out for polling again and never comes back, whatever the
/// calls: a task that finished is not polled after it finished.
pub proof fn lemma_finished_never_polled_again(v: ExecutorView, c: u64, ops: Seq<ExecOp>)
    requires
        executor_inv(v),
        v.next_id + ops.len() <= u64::MAX,
        c < v.next_id,
        !v.tasks.contains_key(c),
    ensures
        !handed_out(v, ops).contains(c),
        !apply_ops(v, ops).tasks.contains_key(c),
    decreases ops.len(),
{
    if ops.len() > 0 {
        let op = ops[0];
        lemma_op_keeps_inv(v, op);
        lemma_schedule_keeps_inv(v);
        let w = apply_op(v, op);
        assert(!w.tasks.contains_key(c)) by {
            if let ExecOp::Report(o) = op {
                if let Some(x) = v.current {
                    assert(v.tasks.contains_key(x));
                }
            }
        }
        lemma_finished_never_polled_again(w, c, ops.drop_first());
        let rest = handed_out(w, ops.drop_first());
        if let (ExecOp::Schedule, Some(x)) = (op, schedule_step(v).1) {
            assert(handed_out(v, ops) == seq![x] + rest);
            assert(x != c);
            if handed_out(v, ops).contains(c) {
                let i = choose|i: int| 0 <= i < handed_out(v, ops).len() && handed_out(v, ops)[i] == c;
                assert(rest[i - 1] == c);
            }
        }
    }
}

/// Once a task is reported finished, no later call hands it out again.
pub proof fn lemma_ready_task_never_polled_again(v: ExecutorView, ops: Seq<ExecOp>)
    requires
        executor_inv(v),
        v.current.is_some(),
        v.next_id + ops.len() <= u64::MAX,
    ensures
        !handed_out(report_step(v, PollOutcome::Ready), ops).contains(v.current.unwrap()),
{
    let c = v.current.unwrap();
    lemma_report_keeps_inv(v, PollOutcome::Ready);
    lemma_finished_never_polled_again(report_step(v, PollOutcome::Ready), c, ops);
}

/// One round of the run loop: hand out a task, then report `outcome` for it.
pub open spec fn round(v: ExecutorView, outcome: PollOutcome) -> ExecutorView {
    report_step(schedule_step(v).0, outcome)
}

/// The state after a round per outcome, first outcome first.
pub open spec fn rounds(v: ExecutorView, outcomes: Seq<PollOutcome>) -> ExecutorView
    decreases outcomes.len(),
{
    if outcomes.len() == 0 {
        v
    } else {
        rounds(round(v, outcomes[0]), outcomes.drop_first())
    }
}

/// The tasks polled in those rounds, in order.
pub open spec fn polled(v: ExecutorView, outcomes: Seq<PollOutcome>) -> Seq<u64>
    decreases outcomes.len(),
{
    if outcomes.len() == 0 {
        Seq::empty()
    } else {
        let first = match schedule_step(v).1 {
            Some(c) => seq![c],
            None => Seq::empty(),
        };
        first + polled(round(v, outcomes[0]), outcomes.drop_first())
    }
}

/// Round-robin: from a state where no task is being polled, whatever the
/// outcomes, the first `i` rounds poll the first `i` waiting tasks in queue
/// order, each once, and the next task handed out is the one at position `i`.
pub proof fn lemma_round_robin(v: ExecutorView, outcomes: Seq<PollOutcome>, i: int)
    requires
        executor_inv(v),
        v.current.is_none(),
        0 <= i < v.queue.len(),
        outcomes.len() == i,
    ensures
        polled(v, outcomes) == v.queue.take(i),
        executor_inv(rounds(v, outcomes)),
        rounds(v, outcomes).current.is_none(),
        schedule_step(rounds(v, outcomes)).1 == Some(v.queue[i]),
    decreases i,
{
    if i == 0 {
        assert(v.queue.take(0) =~= Seq::<u64>::empty());
    } else {
        let o = outcomes[0];
        lemma_schedule_keeps_inv(v);
        lemma_report_keeps_inv(schedule_step(v).0, o);
        let w = round(v, o);
        assert(w.queue.len() >= v.queue.len() - 1);
        assert(w.queue[i - 1] == v.queue[i]);
        lemma_round_robin(w, outcomes.drop_first(), i - 1);
        assert(w.queue.take(i - 1) =~= v.queue.subrange(1, i));
        assert(polled(v, outcomes) =~= v.queue.take(i));
    }
}

/// A task reported pending is polled again after exactly the tasks that were
/// waiting before it, each polled once and in queue order, whatever their
/// outcomes.
pub proof fn lemma_pending_task_polled_after_all_waiting(
    v: ExecutorView,
    outcomes: Seq<PollOutcome>,
)
    requires
        executor_inv(v),
        v.current.is_some(),
        outcomes.len() == v.queue.len(),
    ensures
        polled(report_step(v, PollOutcome::Pending), outcomes) == v.queue,
        schedule_step(rounds(report_step(v, PollOutcome::Pending), outcomes)).1 == v.current,
{
    let w = report_step(v, PollOutcome::Pending);
    lemma_report_keeps_inv(v, PollOutcome::Pending);
    lemma_round_robin(w, outcomes, v.queue.len() as int);
    assert(w.queue.take(v.queue.len() as int) =~= v.queue);
}

/// The number of times `c` occurs in `s`.
pub open spec fn occurrences(s: Seq<u64>, c: u64) -> nat
    decreases s.len(),
{
    if s.len() == 0 {
        0
    } else {
        (if s[0] == c { 1nat } else { 0nat }) + occurrences(s.drop_first(), c)
    }
}

/// The outcomes reported in a run's rounds are those of a future of task `c`
/// that returns `Pending` on its first `k` polls and `Ready` on the next one,
/// `c` having been polled `j` times before these rounds.
pub open spec fn outcomes_of_future(
    v: ExecutorView,
    outcomes: Seq<PollOutcome>,
    c: u64,
    j: nat,
    k: nat,
) -> bool
    decreases outcomes.len(),
{
    outcomes.len() == 0 || {
        let polls_c = schedule_step(v).1 == Some(c);
        &&& (polls_c ==> outcomes[0] == if j < k {
            PollOutcome::Pending
        } else {
            PollOutcome::Ready
        })
        &&& outcomes_of_future(
            round(v, outcomes[0]),
            outcomes.drop_first(),
            c,
            if polls_c { j + 1 } else { j },
            k,
        )
    }
}

proof fn lemma_occurrences_cons(x: u64, rest: Seq<u64>, c: u64)
    ensures
        occurrences(seq![x] + rest, c) == (if x == c { 1nat } else { 0nat }) + occurrences(rest, c),
{
    assert((seq![x] + rest).drop_first() =~= rest);
}

/// A task that is not in the table is polled in no round.
pub proof fn lemma_gone_task_not_polled(v: ExecutorView, outcomes: Seq<PollOutcome>, c: u64)
    requires
        executor_inv(v),
        !v.tasks.contains_key(c),
    ensures
        occurrences(polled(v, outcomes), c) == 0,
    decreases outcomes.len(),
{
    if outcomes.len() > 0 {
        lemma_schedule_keeps_inv(v);
        let s = schedule_step(v).0;
        lemma_report_keeps_inv(s, outcomes[0]);
        let w = round(v, outcomes[0]);
        if let Some(x) = schedule_step(v).1 {
            assert(x != c);
        }
        assert(!w.tasks.contains_key(c)) by {
            if let Some(x) = s.current {
                assert(s.tasks.contains_key(x));
            }
        }
        lemma_gone_task_not_polled(w, outcomes.drop_first(), c);
        match schedule_step(v).1 {
            Some(x) => lemma_occurrences_cons(x, polled(w, outcomes.drop_first()), c),
            None => assert(polled(v, outcomes) =~= polled(w, outcomes.drop_first())),
        }
    }
}

/// A run polls a task until its future is ready, and never after: if the
/// future of task `c` returns `Pending` on its first `k` polls and `Ready` on
/// the next, and the run ends (nothing is handed out any more), `c` was polled
/// exactly `k + 1` times (`k + 1 - j` in these rounds, after `j` polls before).
pub proof fn lemma_task_polled_until_ready(
    v: ExecutorView,
    outcomes: Seq<PollOutcome>,
    c: u64,
    j: nat,
    k: nat,
)
    requires
        executor_inv(v),
        v.current.is_none(),
        v.tasks.contains_key(c),
        j <= k,
        outcomes_of_future(v, outcomes, c, j, k),
        schedule_step(rounds(v, outcomes)).1.is_none(),
    ensures
        occurrences(polled(v, outcomes), c) == k + 1 - j,
    decreases outcomes.len(),
{
    lemma_schedule_keeps_inv(v);
    if outcomes.len() == 0 {
        assert(v.tasks.contains_key(c));
    } else {
        let o = outcomes[0];
        let s = schedule_step(v).0;
        lemma_report_keeps_inv(s, o);
        let w = round(v, o);
        assert(v.queue.len() > 0) by {
            if v.queue.len() == 0 {
                lemma_idle_means_all_finished(v);
            }
        }
        let x = v.queue[0];
        assert(schedule_step(v).1 == Some(x));
        let rest = outcomes.drop_first();
        lemma_occurrences_cons(x, polled(w, rest), c);
        if x == c {
            if j < k {
                assert(w.tasks.contains_key(c));
                lemma_task_polled_until_ready(w, rest, c, j + 1, k);
            } else {
                assert(!w.tasks.contains_key(c));
                lemma_gone_task_not_polled(w, rest, c);
            }
        } else {
            assert(w.tasks.contains_key(c));
            lemma_task_polled_until_ready(w, rest, c, j, k);
        }
    }
}

/// Runs spawned tasks round-robin until each of them has finished.
pub struct Executor {
    manager: TaskManager,
    current: Option<TaskHandle>,
}

impl View for Executor {
    type V = ExecutorView;

    open spec fn view(&self) -> ExecutorView {
        self.executor_view()
    }
}

/// The task identifiers of task numbers.
pub open spec fn task_ids(o: Option<u64>) -> Option<TaskId> {
    match o {
        Some(k) => Some(TaskId { id: k }),
        None => None,
    }
}

impl Executor {
    pub closed spec fn executor_view(&self) -> ExecutorView {
        ExecutorView {
            next_id: self.manager@.next_id,
            tasks: self.manager@.tasks,
            queue: self.manager@.queue,
            current: match self.current {
                Some(h) => Some(h.task()),
                None => None,
            },
        }
    }

    /// The executor's invariant, which every value of the type keeps; see
    /// `executor_inv`.
    #[verifier::type_invariant]
    spec fn inv(&self) -> bool {
        executor_inv(self@)
    }


    /// Adds a task named `name`; see `spawn_step`. It waits at the back of the
    /// queue under a number that no task had before.
    pub fn spawn(&mut self, name: &str) -> (id: TaskId)
        requires
            old(self)@.next_id < u64::MAX,
        ensures
            (final(self)@, id.id) == spawn_step(old(self)@, name@),
            forall|k: u64| old(self)@.tasks.contains_key(k) ==> k < id.id,
    {
        proof {
            use_type_invariant(&*self);
            lemma_spawn_keeps_inv(self@, name@);
        }
        let mut taken = Executor::default();
        std::mem::swap(self, &mut taken);
        proof {
            use_type_invariant(&taken);
        }
        let Executor { manager: mut m, current } = taken;
        let id = m.spawn(name);
        *self = Executor { manager: m, current };
        assert(self@ =~= spawn_step(old(self)@, name@).0);
        id
    }

    /// Hands out the task to poll next; see `schedule_step`. `None` means that
    /// every spawned task has finished.
    pub fn schedule(&mut self) -> (next: Option<TaskId>)
        ensures
            final(self)@ == schedule_step(old(self)@).0,
            next == task_ids(schedule_step(old(self)@).1),
            next.is_none() ==> final(self)@.tasks == Map::<u64, TaskView>::empty(),
    {
        proof {
            use_type_invariant(&*self);
            lemma_schedule_keeps_inv(self@);
        }
        if let Some(h) = &self.current {
            return Some(h.id());
        }
        let mut taken = Executor::default();
        std::mem::swap(self, &mut taken);
        proof {
            use_type_invariant(&taken);
        }
        let Executor { manager: mut m, current: _ } = taken;
        match m.pop_next() {
            None => {
                *self = Executor { manager: m, current: None };
                None
            },
            Some(h) => {
                let id = h.id();
                proof {
                    assert(old(self)@.tasks.contains_key(old(self)@.queue[0]));
                }
                let _found = m.set_task_status(id, TaskStatus::Running);
                proof {
                    let w = ExecutorView {
                        next_id: m@.next_id,
                        tasks: m@.tasks,
                        queue: m@.queue,
                        current: Some(h.task()),
                    };
                    assert(w =~= schedule_step(old(self)@).0);
                }
                *self = Executor { manager: m, current: Some(h) };
                Some(id)
            },
        }
    }

    /// Takes the outcome of polling the task handed out by `schedule`; see
    /// `report_step`.
    pub fn report(&mut self, outcome: PollOutcome)
        ensures
            final(self)@ == report_step(old(self)@, outcome),
    {
        proof {
            use_type_invariant(&*self);
            lemma_report_keeps_inv(self@, outcome);
        }
        let mut taken = Executor::default();
        std::mem::swap(self, &mut taken);
        proof {
            use_type_invariant(&taken);
        }
        let Executor { manager: mut m, current } = taken;
        match current {
            None => {
                *self = Executor { manager: m, current: None };
            },
            Some(h) => {
                let id = h.id();
                proof {
                    assert(old(self)@.tasks.contains_key(id.id));
                }
                match outcome {
                    PollOutcome::Ready => {
                        m.set_task_status(id, TaskStatus::Completed);
                        m.remove_task(id);
                        assert(m@.tasks =~= old(self)@.tasks.remove(id.id));
                    },
                    PollOutcome::Pending => {
                        m.set_task_status(id, TaskStatus::Pending);
                        m.requeue(h);
                    },
                }
                proof {
                    let w = ExecutorView {
                        next_id: m@.next_id,
                        tasks: m@.tasks,
                        queue: m@.queue,
                        current: None,
                    };
                    assert(w =~= report_step(old(self)@, outcome));
                }
                *self = Executor { manager: m, current: None };
            },
        }
        assert(self@ =~= report_step(old(self)@, outcome));
    }

    /// Whether one more task can be spawned: task numbers are not used up.
    pub fn can_spawn(&self) -> (r: bool)
        ensures
            r == (self@.next_id < u64::MAX),
    {
        self.manager.can_spawn()
    }

    /// The number of tasks not finished yet.
    pub fn active_task_count(&self) -> (n: usize)
        ensures
            n == self@.tasks.len(),
    {
        self.manager.active_task_count()
    }

    /// The number of tasks waiting in the queue.
    pub fn queue_len(&self) -> (n: usize)
        ensures
            n == self@.queue.len(),
    {
        self.manager.queue_len()
    }

    /// The status of task `id`, or `None` once it has finished (or was never
    /// spawned).
    pub fn task_status(&self, id: TaskId) -> (st: Option<TaskStatus>)
        ensures
            match st {
                Some(s) => self@.tasks.contains_key(id.id) && s == self@.tasks[id.id].status,
                None => !self@.tasks.contains_key(id.id),
            },
    {
        match self.manager.get_task(id) {
            Some(t) => Some(t.status()),
            None => None,
        }
    }
}

impl Default for Executor {
    /// An executor with no task; the first task gets number 1.
    fn default() -> (e: Self)
        ensures
            e@.next_id == 1,
            e@.tasks == Map::<u64, TaskView>::empty(),
            e@.queue == Seq::<u64>::empty(),
            e@.current.is_none(),
    {
        Self { manager: TaskManager::new(), current: None }
    }
}

} // verus!
