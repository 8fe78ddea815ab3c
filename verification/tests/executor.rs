use rustbox::executor::task_id::TaskId;
use rustbox::executor::task_local::{TaskLocal, TaskStatus};
use rustbox::executor::task_handle::TaskHandle;
use rustbox::executor::task_manager::TaskManager;
use rustbox::executor::{Executor, PollOutcome};

#[test]
fn task_id_round_trip_and_label() {
    let id = TaskId::new(42);
    assert_eq!(id.as_u32(), 42);
    assert_eq!(id.label(), "Task #42");
    assert_eq!(TaskId::new(0).label(), "Task #0");
    assert_eq!(TaskId::new(u64::MAX).label(), "Task #18446744073709551615");
    assert_eq!(TaskId::new(7), TaskId { id: 7 });
}

#[test]
fn task_local_starts_in_init() {
    let mut t = TaskLocal::new(TaskId::new(3), "job".to_string());
    assert_eq!(t.status(), TaskStatus::Init);
    assert_eq!(t.name(), "job");
    assert_eq!(t.id(), TaskId::new(3));
    t.set_status(TaskStatus::Running);
    assert_eq!(t.status(), TaskStatus::Running);
    assert_eq!(t.name(), "job");
}

#[test]
fn task_handle_keeps_its_id() {
    let h = TaskHandle::new(TaskId::new(9));
    assert_eq!(h.id().id, 9);
}

#[test]
fn manager_spawns_fifo() {
    let mut m = TaskManager::new();
    let a = m.spawn("a");
    let b = m.spawn("b");
    assert_eq!(a.id, 1);
    assert_eq!(b.id, 2);
    assert_eq!(m.active_task_count(), 2);
    assert_eq!(m.queue_len(), 2);
    let h = m.pop_next().unwrap();
    assert_eq!(h.id(), a);
    assert_eq!(m.queue_len(), 1);
    m.requeue(h);
    assert_eq!(m.pop_next().unwrap().id(), b);
    assert_eq!(m.pop_next().unwrap().id(), a);
    assert!(m.pop_next().is_none());
    assert_eq!(m.get_task(a).unwrap().name(), "a");
    assert!(m.set_task_status(a, TaskStatus::Failed));
    assert_eq!(m.get_task(a).unwrap().status(), TaskStatus::Failed);
    assert!(m.remove_task(a).is_some());
    assert!(m.get_task(a).is_none());
    assert!(m.remove_task(a).is_none());
    assert!(!m.set_task_status(a, TaskStatus::Failed));
    assert_eq!(m.active_task_count(), 1);
}

#[test]
fn executor_runs_round_robin() {
    let mut e = Executor::default();
    let t1 = e.spawn("task_1");
    let t2 = e.spawn("task_2");
    assert_eq!(e.task_status(t1), Some(TaskStatus::Init));
    assert_eq!(e.schedule(), Some(t1));
    assert_eq!(e.task_status(t1), Some(TaskStatus::Running));
    // asking again before reporting hands out the same task
    assert_eq!(e.schedule(), Some(t1));
    e.report(PollOutcome::Pending);
    assert_eq!(e.task_status(t1), Some(TaskStatus::Pending));
    assert_eq!(e.schedule(), Some(t2));
    e.report(PollOutcome::Ready);
    assert_eq!(e.task_status(t2), None);
    assert_eq!(e.schedule(), Some(t1));
    e.report(PollOutcome::Ready);
    assert_eq!(e.schedule(), None);
    assert_eq!(e.active_task_count(), 0);
    assert_eq!(e.queue_len(), 0);
}

#[test]
fn executor_report_without_task_changes_nothing() {
    let mut e = Executor::default();
    let t = e.spawn("x");
    e.report(PollOutcome::Ready);
    assert_eq!(e.task_status(t), Some(TaskStatus::Init));
    assert_eq!(e.queue_len(), 1);
}

#[test]
fn executor_idle_means_all_finished() {
    let mut e = Executor::default();
    for _ in 0..3 {
        e.spawn("t");
    }
    let mut polls = 0;
    while let Some(_) = e.schedule() {
        polls += 1;
        e.report(if polls < 3 { PollOutcome::Pending } else { PollOutcome::Ready });
    }
    assert_eq!(e.active_task_count(), 0);
}

#[test]
fn spawned_ids_are_fresh_and_increasing() {
    let mut e = Executor::default();
    let a = e.spawn("a");
    assert_eq!(e.schedule(), Some(a));
    e.report(PollOutcome::Ready);
    let b = e.spawn("b");
    assert!(b.id > a.id);
    assert_ne!(a, b);
}

#[test]
fn removing_a_task_drops_the_count_by_one() {
    let mut m = TaskManager::new();
    let a = m.spawn("a");
    m.spawn("b");
    assert_eq!(m.active_task_count(), 2);
    m.remove_task(a);
    assert_eq!(m.active_task_count(), 1);
    m.remove_task(a);
    assert_eq!(m.active_task_count(), 1);
}

#[test]
fn spawn_numbers_stay_consecutive_between_other_calls() {
    let mut m = TaskManager::new();
    let a = m.spawn("a");
    let h = m.pop_next().unwrap();
    m.requeue(h);
    m.remove_task(a);
    let b = m.spawn("b");
    m.set_task_status(b, TaskStatus::Pending);
    let c = m.spawn("c");
    assert_eq!((a.id, b.id, c.id), (1, 2, 3));
}

#[test]
fn pending_task_waits_for_every_task_ahead() {
    let mut e = Executor::default();
    let ids: Vec<TaskId> = (0..4).map(|_| e.spawn("t")).collect();
    let mut order = Vec::new();
    // poll the first task, which stays pending, then the three others once each
    for round in 0..5 {
        let id = e.schedule().unwrap();
        order.push(id.id);
        e.report(if round == 0 { PollOutcome::Pending } else { PollOutcome::Ready });
    }
    assert_eq!(order, vec![ids[0].id, ids[1].id, ids[2].id, ids[3].id, ids[0].id]);
    assert_eq!(e.schedule(), None);
}

#[test]
fn task_polled_until_ready_and_never_after() {
    // task 1 is pending on its first two polls, ready on the third;
    // task 2 is ready at once
    let mut e = Executor::default();
    let t1 = e.spawn("slow");
    let t2 = e.spawn("fast");
    let mut polls_of_t1 = 0;
    let mut order = Vec::new();
    while let Some(id) = e.schedule() {
        order.push(id.id);
        let outcome = if id == t1 {
            polls_of_t1 += 1;
            if polls_of_t1 <= 2 { PollOutcome::Pending } else { PollOutcome::Ready }
        } else {
            PollOutcome::Ready
        };
        e.report(outcome);
    }
    assert_eq!(polls_of_t1, 3);
    assert_eq!(order, vec![t1.id, t2.id, t1.id, t1.id]);
    assert_eq!(e.task_status(t1), None);
}
