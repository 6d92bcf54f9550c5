use webhook_queue::coordinator::Coordinator;
use webhook_queue::task::{Outcome, TaskStatus};
use webhook_queue::worker::Worker;

#[test]
fn exit_code_zero_is_success() {
    let o = Outcome::exited(Some(0), String::from("built"));
    assert!(o.success);
    assert_eq!(o.exit_code, Some(0));
    assert_eq!(o.detail, "built");
}

#[test]
fn other_exit_codes_are_failures() {
    let o = Outcome::exited(Some(2), String::from("boom"));
    assert!(!o.success);
    assert_eq!(o.exit_code, Some(2));
    let o = Outcome::exited(Some(-1), String::new());
    assert!(!o.success);
    let o = Outcome::exited(None, String::from("killed"));
    assert!(!o.success);
    assert_eq!(o.exit_code, None);
    assert_eq!(o.detail, "killed");
}

#[test]
fn launch_failure_is_a_failure_with_the_reason() {
    let o = Outcome::not_launched(String::from("no such file"));
    assert!(!o.success);
    assert_eq!(o.exit_code, None);
    assert_eq!(o.detail, "no such file");
}

#[test]
fn worker_takes_one_task_at_a_time() {
    let mut w = Worker::new(4);
    assert_eq!(w.id(), 4);
    assert!(!w.is_busy());
    assert!(w.start(10));
    assert!(w.is_busy());
    assert!(!w.start(11));
    let report = w.finish(Outcome::exited(Some(0), String::new())).unwrap();
    assert_eq!(report.worker, 4);
    assert_eq!(report.task_id, 10);
    assert!(report.outcome.success);
    assert!(!w.is_busy());
    assert!(w.finish(Outcome::exited(Some(0), String::new())).is_none());
    assert!(w.start(11));
}

#[test]
fn worker_report_frees_its_slot() {
    let mut c = Coordinator::new(2);
    let mut workers = vec![Worker::new(0), Worker::new(1)];
    for name in ["a", "b", "c"] {
        for command in c.submit(String::from(name), Vec::new(), 0) {
            assert!(workers[command.worker].start(command.task_id));
        }
    }
    let report = workers[1].finish(Outcome::not_launched(String::from("missing"))).unwrap();
    let done = c.report_completion(report.worker, report.task_id, report.outcome, 5);
    assert!(done.accepted);
    assert_eq!(done.started.len(), 1);
    assert_eq!(done.started[0].worker, 1);
    assert_eq!(done.started[0].task_id, 2);
    assert!(workers[1].start(done.started[0].task_id));
    let snap = c.get_queue_snapshot();
    assert_eq!(snap.recent_history[0].status, TaskStatus::Failed);
    assert_eq!(snap.recent_history[0].id, 1);
    assert_eq!(snap.running.len(), 2);
}
