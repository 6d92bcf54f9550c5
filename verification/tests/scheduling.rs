use webhook_queue::coordinator::Coordinator;
use webhook_queue::state::{StartCommand, HISTORY_LIMIT};
use webhook_queue::task::{Outcome, Task, TaskStatus};

fn ok() -> Outcome {
    Outcome { success: true, exit_code: Some(0), detail: String::from("done") }
}

fn failed(detail: &str) -> Outcome {
    Outcome { success: false, exit_code: None, detail: String::from(detail) }
}

fn ids(list: &[webhook_queue::task::TaskSummary]) -> Vec<u64> {
    list.iter().map(|s| s.id).collect()
}

#[test]
fn empty_coordinator_projects_three_empty_lists() {
    let c = Coordinator::new(3);
    let snap = c.get_queue_snapshot();
    assert!(snap.queued.is_empty());
    assert!(snap.running.is_empty());
    assert!(snap.recent_history.is_empty());
    assert_eq!(c.pool_size(), 3);
    assert_eq!(c.pending_len(), 0);
    assert!(c.can_submit());
}

#[test]
fn single_worker_runs_first_and_queues_second() {
    let mut c = Coordinator::new(1);
    let a = c.submit(String::from("build"), Vec::new(), 100);
    let b = c.submit(String::from("deploy"), Vec::new(), 100);
    assert_eq!(a, vec![StartCommand { worker: 0, task_id: 0 }]);
    assert_eq!(b, Vec::<StartCommand>::new());

    let snap = c.get_queue_snapshot();
    assert_eq!(snap.running.len(), 1);
    assert_eq!(snap.running[0].name, "build");
    assert_eq!(snap.running[0].status, TaskStatus::Running);
    assert_eq!(snap.running[0].worker, Some(0));
    assert_eq!(snap.running[0].started_at, Some(100));
    assert_eq!(snap.queued.len(), 1);
    assert_eq!(snap.queued[0].name, "deploy");
    assert_eq!(snap.queued[0].status, TaskStatus::Queued);
    assert_eq!(snap.queued[0].worker, None);
    assert_eq!(snap.queued[0].started_at, None);

    let done = c.report_completion(0, 0, ok(), 130);
    assert!(done.accepted);
    assert_eq!(done.started, vec![StartCommand { worker: 0, task_id: 1 }]);

    let snap = c.get_queue_snapshot();
    assert!(snap.queued.is_empty());
    assert_eq!(snap.running.len(), 1);
    assert_eq!(snap.running[0].name, "deploy");
    assert_eq!(snap.running[0].status, TaskStatus::Running);
    assert_eq!(snap.running[0].started_at, Some(130));
    assert_eq!(snap.recent_history.len(), 1);
    assert_eq!(snap.recent_history[0].name, "build");
    assert_eq!(snap.recent_history[0].status, TaskStatus::Succeeded);
    assert_eq!(snap.recent_history[0].created_at, 100);
    assert_eq!(snap.recent_history[0].started_at, Some(100));
    assert_eq!(snap.recent_history[0].finished_at, Some(130));
}

#[test]
fn two_workers_take_two_of_three() {
    let mut c = Coordinator::new(2);
    let a = c.submit(String::from("a"), Vec::new(), 1);
    let b = c.submit(String::from("b"), Vec::new(), 1);
    let third = c.submit(String::from("c"), Vec::new(), 1);
    assert_eq!(a, vec![StartCommand { worker: 0, task_id: 0 }]);
    assert_eq!(b, vec![StartCommand { worker: 1, task_id: 1 }]);
    assert!(third.is_empty());
    assert_eq!(c.pending_len(), 1);
    assert_eq!(c.running_task(0).map(|t| t.name.clone()), Some(String::from("a")));
    assert_eq!(c.running_task(1).map(|t| t.name.clone()), Some(String::from("b")));
    assert!(c.running_task(2).is_none());
    let snap = c.get_queue_snapshot();
    assert_eq!(ids(&snap.queued), vec![2]);
    assert_eq!(snap.queued[0].status, TaskStatus::Queued);

    // the second worker finishes first: the waiting task goes to it
    let done = c.report_completion(1, 1, failed("exit 2"), 9);
    assert!(done.accepted);
    assert_eq!(done.started, vec![StartCommand { worker: 1, task_id: 2 }]);
    let snap = c.get_queue_snapshot();
    assert_eq!(ids(&snap.running), vec![0, 2]);
    assert_eq!(snap.running[1].worker, Some(1));
    assert_eq!(snap.recent_history[0].status, TaskStatus::Failed);
    assert_eq!(c.pending_len(), 0);
}

#[test]
fn unknown_report_changes_nothing() {
    let mut c = Coordinator::new(2);
    c.submit(String::from("a"), Vec::new(), 1);
    c.submit(String::from("b"), Vec::new(), 1);
    c.submit(String::from("c"), Vec::new(), 1);

    // an id that is not in flight, a worker that does not run the id, a
    // worker outside the pool, and a task that still waits
    for (worker, task_id) in [(0usize, 77u64), (0, 1), (1, 0), (5, 0), (0, 2)] {
        let r = c.report_completion(worker, task_id, ok(), 50);
        assert!(!r.accepted);
        assert!(r.started.is_empty());
        let snap = c.get_queue_snapshot();
        assert_eq!(ids(&snap.running), vec![0, 1]);
        assert_eq!(snap.running[0].worker, Some(0));
        assert_eq!(snap.running[1].worker, Some(1));
        assert_eq!(ids(&snap.queued), vec![2]);
        assert!(snap.recent_history.is_empty());
    }
}

#[test]
fn report_on_idle_pool_is_rejected() {
    let mut c = Coordinator::new(1);
    let r = c.report_completion(0, 0, ok(), 1);
    assert!(!r.accepted);
    let snap = c.get_queue_snapshot();
    assert!(snap.queued.is_empty() && snap.running.is_empty() && snap.recent_history.is_empty());
}

#[test]
fn single_worker_completes_in_submission_order() {
    let mut c = Coordinator::new(1);
    let n: u64 = 6;
    for i in 0..n {
        c.submit(format!("job{}", i), Vec::new(), i);
    }
    let mut finished = Vec::new();
    for step in 0..n {
        let running = c.running_task(0).map(|t| t.id).unwrap();
        finished.push(running);
        let r = c.report_completion(0, running, ok(), 100 + step);
        assert!(r.accepted);
    }
    assert_eq!(finished, vec![0, 1, 2, 3, 4, 5]);
    let snap = c.get_queue_snapshot();
    assert_eq!(ids(&snap.recent_history), vec![5, 4, 3, 2, 1, 0]);
    assert!(snap.running.is_empty());
    assert!(snap.queued.is_empty());
}

#[test]
fn running_never_exceeds_pool() {
    let mut c = Coordinator::new(3);
    for i in 0..10u64 {
        c.submit(format!("t{}", i), Vec::new(), i);
        let snap = c.get_queue_snapshot();
        assert!(snap.running.len() <= 3);
        let mut workers: Vec<usize> = snap.running.iter().map(|s| s.worker.unwrap()).collect();
        workers.dedup();
        assert_eq!(workers.len(), snap.running.len());
        for s in &snap.running {
            assert_eq!(c.running_task(s.worker.unwrap()).unwrap().id, s.id);
            assert_eq!(s.status, TaskStatus::Running);
        }
        assert_eq!(snap.running.len() + snap.queued.len(), (i + 1) as usize);
    }
    let snap = c.get_queue_snapshot();
    assert_eq!(ids(&snap.running), vec![0, 1, 2]);
    assert_eq!(ids(&snap.queued), vec![3, 4, 5, 6, 7, 8, 9]);
}

#[test]
fn lowest_idle_slot_is_chosen() {
    let mut c = Coordinator::new(3);
    c.submit(String::from("a"), Vec::new(), 0);
    c.submit(String::from("b"), Vec::new(), 0);
    c.submit(String::from("c"), Vec::new(), 0);
    assert!(c.report_completion(2, 2, ok(), 1).accepted);
    assert!(c.report_completion(0, 0, ok(), 2).accepted);
    let started = c.submit(String::from("d"), Vec::new(), 3);
    assert_eq!(started, vec![StartCommand { worker: 0, task_id: 3 }]);
    let started = c.submit(String::from("e"), Vec::new(), 4);
    assert_eq!(started, vec![StartCommand { worker: 2, task_id: 4 }]);
}

#[test]
fn try_dispatch_on_settled_state_does_nothing() {
    let mut c = Coordinator::new(1);
    c.submit(String::from("a"), Vec::new(), 0);
    c.submit(String::from("b"), Vec::new(), 0);
    assert!(c.try_dispatch(5).is_empty());
    let snap = c.get_queue_snapshot();
    assert_eq!(ids(&snap.running), vec![0]);
    assert_eq!(ids(&snap.queued), vec![1]);
}

#[test]
fn status_moves_forward_one_step_at_a_time() {
    let t = Task::new(7, String::from("build"), vec![(String::from("k"), String::from("v"))], 10);
    assert_eq!(t.status, TaskStatus::Queued);
    assert_eq!((t.started_at, t.finished_at), (None, None));
    assert!(t.result.is_none());
    assert!(!t.status.terminal());
    let t = t.start(11);
    assert_eq!(t.status, TaskStatus::Running);
    assert_eq!((t.created_at, t.started_at, t.finished_at), (10, Some(11), None));
    assert!(!t.status.terminal());
    let t = t.finish(failed("no such command"), 12);
    assert_eq!(t.status, TaskStatus::Failed);
    assert!(t.status.terminal());
    assert_eq!((t.created_at, t.started_at, t.finished_at), (10, Some(11), Some(12)));
    assert_eq!(t.id, 7);
    assert_eq!(t.name, "build");
    assert_eq!(t.parameters, vec![(String::from("k"), String::from("v"))]);
    let result = t.result.unwrap();
    assert!(!result.success);
    assert_eq!(result.exit_code, None);
    assert_eq!(result.detail, "no such command");

    let s = Task::new(8, String::from("x"), Vec::new(), 0).start(1).finish(ok(), 2);
    assert_eq!(s.status, TaskStatus::Succeeded);
    assert_eq!(s.result.unwrap().exit_code, Some(0));
}

#[test]
fn summary_copies_the_task() {
    let t = Task::new(3, String::from("deploy"), Vec::new(), 40).start(41);
    let s = t.summarize(Some(2));
    assert_eq!(s.id, 3);
    assert_eq!(s.name, "deploy");
    assert_eq!(s.status, TaskStatus::Running);
    assert_eq!(s.worker, Some(2));
    assert_eq!((s.created_at, s.started_at, s.finished_at), (40, Some(41), None));
}

#[test]
fn snapshot_read_twice_is_the_same() {
    let mut c = Coordinator::new(2);
    c.submit(String::from("a"), Vec::new(), 1);
    c.submit(String::from("b"), Vec::new(), 2);
    c.submit(String::from("c"), Vec::new(), 3);
    c.report_completion(0, 0, ok(), 4);
    let first = format!("{:?}", c.get_queue_snapshot());
    let second = format!("{:?}", c.get_queue_snapshot());
    assert_eq!(first, second);
}

#[test]
fn parameters_stay_with_the_task() {
    let mut c = Coordinator::new(1);
    let params = vec![(String::from("branch"), String::from("main"))];
    c.submit(String::from("build"), params.clone(), 9);
    let t = c.running_task(0).unwrap();
    assert_eq!(t.parameters, params);
    assert_eq!(t.created_at, 9);
    assert_eq!(t.started_at, Some(9));
}

#[test]
fn history_keeps_the_most_recent() {
    let mut c = Coordinator::new(1);
    let total = HISTORY_LIMIT as u64 + 3;
    for i in 0..total {
        c.submit(String::from("t"), Vec::new(), i);
        assert!(c.report_completion(0, i, ok(), i).accepted);
    }
    let snap = c.get_queue_snapshot();
    assert_eq!(snap.recent_history.len(), HISTORY_LIMIT);
    assert_eq!(snap.recent_history[0].id, total - 1);
    assert_eq!(snap.recent_history[HISTORY_LIMIT - 1].id, 3);
}

#[test]
fn ids_are_given_out_in_submission_order() {
    let mut c = Coordinator::new(1);
    assert_eq!(c.next_id(), 0);
    c.submit(String::from("a"), Vec::new(), 0);
    assert_eq!(c.next_id(), 1);
    c.submit(String::from("b"), Vec::new(), 0);
    assert_eq!(c.next_id(), 2);
    // neither a report nor a dispatch gives out an id
    assert!(c.report_completion(0, 0, ok(), 1).accepted);
    assert!(!c.report_completion(0, 0, ok(), 1).accepted);
    c.try_dispatch(2);
    assert_eq!(c.next_id(), 2);
    let snap = c.get_queue_snapshot();
    assert_eq!(ids(&snap.recent_history), vec![0]);
    assert_eq!(ids(&snap.running), vec![1]);
}

#[test]
fn no_task_is_lost_between_queue_slots_and_history() {
    let mut c = Coordinator::new(2);
    let mut reported = 0usize;
    for i in 0..7u64 {
        c.submit(format!("t{}", i), Vec::new(), i);
        if i % 2 == 1 {
            let id = c.running_task(0).unwrap().id;
            assert!(c.report_completion(0, id, ok(), i).accepted);
            reported += 1;
        }
        let snap = c.get_queue_snapshot();
        assert_eq!(
            snap.queued.len() + snap.running.len() + snap.recent_history.len(),
            (i + 1) as usize
        );
        assert_eq!(snap.recent_history.len(), reported);
        assert_eq!(snap.queued.len(), c.pending_len());
    }
}
