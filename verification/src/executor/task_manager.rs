//! The task table and the run queue.

use std::collections::HashMap;
use std::collections::VecDeque;
use vstd::prelude::*;
use crate::executor::task_handle::TaskHandle;
use crate::executor::task_id::TaskId;
use crate::executor::task_local::{TaskLocal, TaskStatus, TaskView};

verus! {

broadcast use vstd::std_specs::hash::group_hash_axioms;

/// The abstract state of a task manager.
pub struct ManagerView {
    /// The number the next spawned task gets.
    pub next_id: nat,
    /// The task table, by task number.
    pub tasks: Map<u64, TaskView>,
    /// The task numbers in the run queue, front first.
    pub queue: Seq<u64>,
}

/// Task numbers start at 1, the table is finite, every number in it was
/// handed out already, and each record holds the number it is filed under.
pub open spec fn manager_inv(m: ManagerView) -> bool {
    &&& 1 <= m.next_id
    &&& m.tasks.dom().finite()
    &&& forall|k: u64| #[trigger]
        m.tasks.contains_key(k) ==> 1 <= k < m.next_id && m.tasks[k].id == k
}

/// `spawn`: a task named `name` under the next number, in status `Init`,
/// added to the table and to the back of the queue; the number is returned.
pub open spec fn manager_spawn(m: ManagerView, name: Seq<char>) -> (ManagerView, u64) {
    let id = m.next_id as u64;
    (
        ManagerView {
            next_id: m.next_id + 1,
            tasks: m.tasks.insert(id, TaskView { id, name, status: TaskStatus::Init }),
            queue: m.queue.push(id),
        },
        id,
    )
}

/// `pop_next`: the front of the queue leaves it and is returned.
pub open spec fn manager_pop(m: ManagerView) -> (ManagerView, Option<u64>) {
    if m.queue.len() == 0 {
        (m, None)
    } else {
        (ManagerView { queue: m.queue.drop_first(), ..m }, Some(m.queue[0]))
    }
}

/// `requeue`: task number `id` goes to the back of the queue.
pub open spec fn manager_requeue(m: ManagerView, id: u64) -> ManagerView {
    ManagerView { queue: m.queue.push(id), ..m }
}

/// `set_task_status`: the status of task `id` changes, if it is in the table;
/// whether it is is returned.
pub open spec fn manager_set_status(m: ManagerView, id: u64, st: TaskStatus) -> (ManagerView, bool) {
    if m.tasks.contains_key(id) {
        (ManagerView { tasks: m.tasks.insert(id, TaskView { status: st, ..m.tasks[id] }), ..m }, true)
    } else {
        (m, false)
    }
}

/// `remove_task`: task `id` leaves the table.
pub open spec fn manager_remove(m: ManagerView, id: u64) -> ManagerView {
    ManagerView { tasks: m.tasks.remove(id), ..m }
}

/// One call on a task manager.
pub enum ManagerOp {
    Spawn(Seq<char>),
    PopNext,
    Requeue(u64),
    SetStatus(u64, TaskStatus),
    Remove(u64),
}

/// The state after one call.
pub open spec fn manager_apply(m: ManagerView, op: ManagerOp) -> ManagerView {
    match op {
        ManagerOp::Spawn(name) => manager_spawn(m, name).0,
        ManagerOp::PopNext => manager_pop(m).0,
        ManagerOp::Requeue(id) => manager_requeue(m, id),
        ManagerOp::SetStatus(id, st) => manager_set_status(m, id, st).0,
        ManagerOp::Remove(id) => manager_remove(m, id),
    }
}

/// The state after a sequence of calls, first call first.
pub open spec fn manager_apply_all(m: ManagerView, ops: Seq<ManagerOp>) -> ManagerView
    decreases ops.len(),
{
    if ops.len() == 0 {
        m
    } else {
        manager_apply_all(manager_apply(m, ops[0]), ops.drop_first())
    }
}

/// The numbers that the spawns of a sequence of calls return, in order.
pub open spec fn manager_spawned(m: ManagerView, ops: Seq<ManagerOp>) -> Seq<u64>
    decreases ops.len(),
{
    if ops.len() == 0 {
        Seq::empty()
    } else {
        let rest = manager_spawned(manager_apply(m, ops[0]), ops.drop_first());
        match ops[0] {
            ManagerOp::Spawn(name) => seq![manager_spawn(m, name).1] + rest,
            _ => rest,
        }
    }
}

/// The number of spawns in a sequence of calls.
pub open spec fn manager_spawn_count(ops: Seq<ManagerOp>) -> nat
    decreases ops.len(),
{
    if ops.len() == 0 {
        0
    } else {
        (if ops[0] is Spawn { 1nat } else { 0nat }) + manager_spawn_count(ops.drop_first())
    }
}

/// Every call keeps the manager's invariant.
pub proof fn lemma_manager_op_keeps_inv(m: ManagerView, op: ManagerOp)
    requires
        manager_inv(m),
        m.next_id < u64::MAX,
    ensures
        manager_inv(manager_apply(m, op)),
        manager_apply(m, op).next_id == m.next_id + if op is Spawn { 1nat } else { 0nat },
{
}

/// Whatever the calls in between (pops, requeues, status changes, removals),
/// a manager's spawns return consecutive numbers starting at its next number:
/// from a new manager, the n spawns return 1, 2, ..., n, all distinct.
pub proof fn lemma_spawns_numbered_in_order(m: ManagerView, ops: Seq<ManagerOp>)
    requires
        manager_inv(m),
        m.next_id + ops.len() <= u64::MAX,
    ensures
        manager_spawned(m, ops) == Seq::new(
            manager_spawn_count(ops),
            |j: int| (m.next_id + j) as u64,
        ),
        manager_apply_all(m, ops).next_id == m.next_id + manager_spawn_count(ops),
        manager_inv(manager_apply_all(m, ops)),
    decreases ops.len(),
{
    if ops.len() > 0 {
        lemma_manager_op_keeps_inv(m, ops[0]);
        let w = manager_apply(m, ops[0]);
        lemma_spawns_numbered_in_order(w, ops.drop_first());
        assert(manager_spawned(m, ops) =~= Seq::new(
            manager_spawn_count(ops),
            |j: int| (m.next_id + j) as u64,
        ));
    } else {
        assert(manager_spawned(m, ops) =~= Seq::new(0, |j: int| (m.next_id + j) as u64));
    }
}

/// Every task number in the queue was handed out already.
pub open spec fn queue_known(m: ManagerView) -> bool {
    forall|i: int| 0 <= i < m.queue.len() ==> #[trigger] m.queue[i] < m.next_id
}

/// Every requeue in a sequence of calls puts back a number handed out before
/// it, as the handle of a popped task holds.
pub open spec fn requeues_known(m: ManagerView, ops: Seq<ManagerOp>) -> bool
    decreases ops.len(),
{
    ops.len() == 0 || {
        &&& (ops[0] matches ManagerOp::Requeue(id) ==> id < m.next_id)
        &&& requeues_known(manager_apply(m, ops[0]), ops.drop_first())
    }
}

/// When every requeue puts back a number handed out before it, every queued
/// number stays below the next number, whatever the calls; with
/// `lemma_spawns_numbered_in_order`, from a new manager every key of the table
/// and every queued number stays below `n + 1` after `n` spawns.
pub proof fn lemma_queue_stays_known(m: ManagerView, ops: Seq<ManagerOp>)
    requires
        queue_known(m),
        requeues_known(m, ops),
    ensures
        queue_known(manager_apply_all(m, ops)),
    decreases ops.len(),
{
    if ops.len() > 0 {
        let w = manager_apply(m, ops[0]);
        assert(queue_known(w)) by {
            if let ManagerOp::PopNext = ops[0] {
                if m.queue.len() > 0 {
                    assert forall|i: int| 0 <= i < w.queue.len() implies #[trigger] w.queue[i]
                        < w.next_id by {
                        assert(w.queue[i] == m.queue[i + 1]);
                    }
                }
            }
        }
        lemma_queue_stays_known(w, ops.drop_first());
    }
}

/// Owns every spawned task and the queue of tasks waiting to be polled.
pub struct TaskManager {
    next_id: u64,
    tasks: HashMap<u64, TaskLocal>,
    run_queue: VecDeque<TaskHandle>,
}

impl View for TaskManager {
    type V = ManagerView;

    open spec fn view(&self) -> ManagerView {
        self.manager_view()
    }
}

/// The task numbers of a sequence of handles.
pub open spec fn handle_ids(hs: Seq<TaskHandle>) -> Seq<u64> {
    hs.map_values(|h: TaskHandle| h.task())
}

impl TaskManager {
    pub closed spec fn manager_view(&self) -> ManagerView {
        ManagerView {
            next_id: self.next_id as nat,
            tasks: self.tasks@.map_values(|t: TaskLocal| t@),
            queue: handle_ids(self.run_queue@),
        }
    }

    /// The manager's invariant, which every value of the type keeps; see
    /// `manager_inv`.
    #[verifier::type_invariant]
    spec fn inv(&self) -> bool {
        manager_inv(self@)
    }


    proof fn lemma_table_finite(tasks: &HashMap<u64, TaskLocal>)
        ensures
            tasks@.map_values(|t: TaskLocal| t@).dom() == tasks@.dom(),
            tasks@.dom().finite(),
    {
        assert(tasks@.map_values(|t: TaskLocal| t@).dom() =~= tasks@.dom());
    }

    /// An empty manager; the first task gets number 1.
    pub fn new() -> (m: Self)
        ensures
            m@.next_id == 1,
            m@.tasks == Map::<u64, TaskView>::empty(),
            m@.queue == Seq::<u64>::empty(),
    {
        let tasks: HashMap<u64, TaskLocal> = HashMap::new();
        proof {
            Self::lemma_table_finite(&tasks);
        }
        let m = Self { next_id: 1, tasks, run_queue: VecDeque::new() };
        assert(m@.tasks =~= Map::<u64, TaskView>::empty());
        assert(m@.queue =~= Seq::<u64>::empty());
        m
    }

    /// Takes the manager's fields out, leaving an empty manager behind.
    fn take_parts(&mut self) -> (parts: (u64, HashMap<u64, TaskLocal>, VecDeque<TaskHandle>))
        ensures
            manager_inv(old(self)@),
            parts.0 == old(self)@.next_id,
            parts.1@.map_values(|t: TaskLocal| t@) == old(self)@.tasks,
            handle_ids(parts.2@) == old(self)@.queue,
    {
        proof {
            use_type_invariant(&*self);
        }
        let mut taken = TaskManager::new();
        std::mem::swap(self, &mut taken);
        proof {
            use_type_invariant(&taken);
        }
        let TaskManager { next_id, tasks, run_queue } = taken;
        (next_id, tasks, run_queue)
    }

    /// Adds a task named `name` to the table and to the back of the run queue;
    /// see `manager_spawn`. The number it gets is held by no task in the table.
    pub fn spawn(&mut self, name: &str) -> (id: TaskId)
        requires
            old(self)@.next_id < u64::MAX,
        ensures
            (final(self)@, id.id) == manager_spawn(old(self)@, name@),
            !old(self)@.tasks.contains_key(id.id),
    {
        let (next_id, mut tasks, mut run_queue) = self.take_parts();
        let id = TaskId::new(next_id);
        let task = TaskLocal::new(id, name.to_string());
        assert(!tasks@.contains_key(id.id)) by {
            if tasks@.contains_key(id.id) {
                assert(old(self)@.tasks.contains_key(id.id));
            }
        }
        if !tasks.contains_key(&id.id) {
            tasks.insert(id.id, task);
            let handle = TaskHandle::new(id);
            run_queue.push_back(handle);
        }
        proof {
            Self::lemma_table_finite(&tasks);
            assert(tasks@.map_values(|t: TaskLocal| t@) =~= old(self)@.tasks.insert(
                id.id,
                TaskView { id: id.id, name: name@, status: TaskStatus::Init },
            ));
            assert(handle_ids(run_queue@) =~= old(self)@.queue.push(id.id));
        }
        *self = TaskManager { next_id: next_id + 1, tasks, run_queue };
        id
    }

    /// Takes the handle at the front of the run queue, if there is one; see
    /// `manager_pop`.
    pub fn pop_next(&mut self) -> (h: Option<TaskHandle>)
        ensures
            final(self)@ == manager_pop(old(self)@).0,
            match h {
                Some(h) => manager_pop(old(self)@).1 == Some(h.task()),
                None => manager_pop(old(self)@).1.is_none(),
            },
    {
        let (next_id, tasks, mut run_queue) = self.take_parts();
        let h = run_queue.pop_front();
        proof {
            Self::lemma_table_finite(&tasks);
            if h.is_some() {
                assert(handle_ids(run_queue@) =~= old(self)@.queue.drop_first());
            }
        }
        *self = TaskManager { next_id, tasks, run_queue };
        h
    }

    /// Puts a handle back at the end of the run queue; see `manager_requeue`.
    pub fn requeue(&mut self, handle: TaskHandle)
        ensures
            final(self)@ == manager_requeue(old(self)@, handle.task()),
    {
        let (next_id, tasks, mut run_queue) = self.take_parts();
        let ghost k = handle.task();
        run_queue.push_back(handle);
        proof {
            Self::lemma_table_finite(&tasks);
            assert(handle_ids(run_queue@) =~= old(self)@.queue.push(k));
        }
        *self = TaskManager { next_id, tasks, run_queue };
    }

    /// The record of task `id`, if it is in the table.
    pub fn get_task(&self, id: TaskId) -> (t: Option<&TaskLocal>)
        ensures
            match t {
                Some(t) => self@.tasks.contains_key(id.id) && t@ == self@.tasks[id.id],
                None => !self@.tasks.contains_key(id.id),
            },
    {
        self.tasks.get(&id.id)
    }

    /// Sets the status of task `id`; says whether the task is in the table.
    /// See `manager_set_status`.
    pub fn set_task_status(&mut self, id: TaskId, status: TaskStatus) -> (found: bool)
        ensures
            (final(self)@, found) == manager_set_status(old(self)@, id.id, status),
    {
        let (next_id, mut tasks, run_queue) = self.take_parts();
        let found = match tasks.remove(&id.id) {
            Some(mut task) => {
                task.set_status(status);
                tasks.insert(id.id, task);
                assert(tasks@.map_values(|t: TaskLocal| t@) =~= old(self)@.tasks.insert(
                    id.id,
                    TaskView { status, ..old(self)@.tasks[id.id] },
                ));
                true
            },
            None => {
                assert(tasks@.map_values(|t: TaskLocal| t@) =~= old(self)@.tasks);
                false
            },
        };
        proof {
            Self::lemma_table_finite(&tasks);
        }
        *self = TaskManager { next_id, tasks, run_queue };
        found
    }

    /// Removes task `id` from the table and hands back its record; see
    /// `manager_remove`. The table holds one task less when it held `id`.
    pub fn remove_task(&mut self, id: TaskId) -> (t: Option<TaskLocal>)
        ensures
            final(self)@ == manager_remove(old(self)@, id.id),
            match t {
                Some(t) => old(self)@.tasks.contains_key(id.id) && t@ == old(self)@.tasks[id.id],
                None => !old(self)@.tasks.contains_key(id.id),
            },
            final(self)@.tasks.len() == if old(self)@.tasks.contains_key(id.id) {
                old(self)@.tasks.len() - 1
            } else {
                old(self)@.tasks.len() as int
            },
    {
        let (next_id, mut tasks, run_queue) = self.take_parts();
        let t = tasks.remove(&id.id);
        proof {
            Self::lemma_table_finite(&tasks);
            assert(tasks@.map_values(|t: TaskLocal| t@) =~= old(self)@.tasks.remove(id.id));
            if !old(self)@.tasks.contains_key(id.id) {
                assert(old(self)@.tasks.remove(id.id) =~= old(self)@.tasks);
            }
        }
        *self = TaskManager { next_id, tasks, run_queue };
        t
    }

    /// Whether one more task can be spawned: task numbers are not used up.
    pub fn can_spawn(&self) -> (r: bool)
        ensures
            r == (self@.next_id < u64::MAX),
    {
        self.next_id < u64::MAX
    }

    /// The number of tasks in the table.
    pub fn active_task_count(&self) -> (n: usize)
        ensures
            n == self@.tasks.len(),
    {
        assert(self@.tasks.dom() =~= self.tasks@.dom());
        self.tasks.len()
    }

    /// The number of handles in the run queue.
    pub fn queue_len(&self) -> (n: usize)
        ensures
            n == self@.queue.len(),
    {
        self.run_queue.len()
    }
}

} // verus!
