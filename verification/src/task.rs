//! Tasks and their lifecycle.

use vstd::prelude::*;

verus! {

/// Where a task stands in its lifecycle.
#[derive(Clone, Copy, Debug, PartialEq, Eq, Structural)]
pub enum TaskStatus {
    Queued,
    Running,
    Succeeded,
    Failed,
}

impl TaskStatus {
    /// A terminal status is never left again.
    pub open spec fn is_terminal(self) -> bool {
        self == TaskStatus::Succeeded || self == TaskStatus::Failed
    }

    /// The stage of the lifecycle: 0 while queued, 1 while running, 2 once finished.
    pub open spec fn rank(self) -> nat {
        match self {
            TaskStatus::Queued => 0,
            TaskStatus::Running => 1,
            TaskStatus::Succeeded => 2,
            TaskStatus::Failed => 2,
        }
    }

    /// The single steps a status may take.
    pub open spec fn may_become(self, next: TaskStatus) -> bool {
        (self == TaskStatus::Queued && next == TaskStatus::Running) || (self
            == TaskStatus::Running && next.is_terminal())
    }

    /// Whether the status is `Succeeded` or `Failed`.
    pub fn terminal(self) -> (r: bool)
        ensures
            r == self.is_terminal(),
    {
        match self {
            TaskStatus::Succeeded => true,
            TaskStatus::Failed => true,
            _ => false,
        }
    }
}

/// What a worker reports when the command of a task has ended, or could not
/// be launched.
#[derive(Clone, Debug)]
pub struct Outcome {
    pub success: bool,
    pub exit_code: Option<i32>,
    pub detail: String,
}

impl Outcome {
    /// The outcome of a command that ran and ended with `exit_code` (`None`
    /// where a signal ended it): a success exactly when the code is 0. The
    /// captured output is kept as the detail.
    pub fn exited(exit_code: Option<i32>, output: String) -> (o: Outcome)
        ensures
            o.success == (exit_code == Some(0i32)),
            o.exit_code == exit_code,
            o.detail == output,
    {
        let success = match exit_code {
            Some(code) => code == 0,
            None => false,
        };
        Outcome { success, exit_code, detail: output }
    }

    /// The outcome of a command that could not be launched: a failure
    /// without an exit code, with the reason as the detail.
    pub fn not_launched(reason: String) -> (o: Outcome)
        ensures
            !o.success,
            o.exit_code is None,
            o.detail == reason,
    {
        Outcome { success: false, exit_code: None, detail: reason }
    }
}

/// A unit of work made from one webhook call.
#[derive(Clone, Debug)]
pub struct Task {
    pub id: u64,
    pub name: String,
    pub parameters: Vec<(String, String)>,
    pub status: TaskStatus,
    pub created_at: u64,
    pub started_at: Option<u64>,
    pub finished_at: Option<u64>,
    pub result: Option<Outcome>,
}

/// What the queue projection shows of one task.
#[derive(Clone, Debug)]
pub struct TaskSummary {
    pub id: u64,
    pub name: String,
    pub status: TaskStatus,
    pub worker: Option<usize>,
    pub created_at: u64,
    pub started_at: Option<u64>,
    pub finished_at: Option<u64>,
}

impl Task {
    /// A freshly submitted task.
    pub open spec fn created(
        id: u64,
        name: String,
        parameters: Vec<(String, String)>,
        now: u64,
    ) -> Task {
        Task {
            id,
            name,
            parameters,
            status: TaskStatus::Queued,
            created_at: now,
            started_at: None,
            finished_at: None,
            result: None,
        }
    }

    /// The task once a worker has taken it at time `now`.
    pub open spec fn started(self, now: u64) -> Task {
        Task { status: TaskStatus::Running, started_at: Some(now), ..self }
    }

    /// The status that an outcome leads to.
    pub open spec fn status_for(outcome: Outcome) -> TaskStatus {
        if outcome.success {
            TaskStatus::Succeeded
        } else {
            TaskStatus::Failed
        }
    }

    /// The task once its worker has reported `outcome` at time `now`.
    pub open spec fn finished(self, outcome: Outcome, now: u64) -> Task {
        Task {
            status: Task::status_for(outcome),
            finished_at: Some(now),
            result: Some(outcome),
            ..self
        }
    }

    /// The record of the task agrees with its status: each time and the
    /// result are set from the transition that brings them on, and not
    /// before. A finished task has the status that its result leads to.
    pub open spec fn consistent(self) -> bool {
        match self.status {
            TaskStatus::Queued => self.started_at is None && self.finished_at is None
                && self.result is None,
            TaskStatus::Running => self.started_at is Some && self.finished_at is None
                && self.result is None,
            _ => self.started_at is Some && self.finished_at is Some && self.result is Some
                && self.status == Task::status_for(self.result.unwrap()),
        }
    }

    /// The entry of the projection for the task.
    pub open spec fn summary(self, worker: Option<usize>) -> TaskSummary {
        TaskSummary {
            id: self.id,
            name: self.name,
            status: self.status,
            worker,
            created_at: self.created_at,
            started_at: self.started_at,
            finished_at: self.finished_at,
        }
    }

    /// Creates a task in status `Queued`.
    pub fn new(id: u64, name: String, parameters: Vec<(String, String)>, now: u64) -> (t: Task)
        ensures
            t == Task::created(id, name, parameters, now),
            t.consistent(),
    {
        Task {
            id,
            name,
            parameters,
            status: TaskStatus::Queued,
            created_at: now,
            started_at: None,
            finished_at: None,
            result: None,
        }
    }

    /// Moves a queued task to `Running` and records when.
    pub fn start(self, now: u64) -> (t: Task)
        requires
            self.status == TaskStatus::Queued,
        ensures
            t == self.started(now),
            self.status.may_become(t.status),
            self.consistent() ==> t.consistent(),
    {
        Task {
            id: self.id,
            name: self.name,
            parameters: self.parameters,
            status: TaskStatus::Running,
            created_at: self.created_at,
            started_at: Some(now),
            finished_at: self.finished_at,
            result: self.result,
        }
    }

    /// Moves a running task to `Succeeded` or `Failed`, with the outcome and
    /// the time of the report.
    pub fn finish(self, outcome: Outcome, now: u64) -> (t: Task)
        requires
            self.status == TaskStatus::Running,
        ensures
            t == self.finished(outcome, now),
            self.status.may_become(t.status),
            self.consistent() ==> t.consistent(),
    {
        let status = if outcome.success {
            TaskStatus::Succeeded
        } else {
            TaskStatus::Failed
        };
        Task {
            id: self.id,
            name: self.name,
            parameters: self.parameters,
            status,
            created_at: self.created_at,
            started_at: self.started_at,
            finished_at: Some(now),
            result: Some(outcome),
        }
    }

    /// The entry of the projection for the task, with `worker` as its worker.
    pub fn summarize(&self, worker: Option<usize>) -> (s: TaskSummary)
        ensures
            s == self.summary(worker),
    {
        TaskSummary {
            id: self.id,
            name: self.name.clone(),
            status: self.status,
            worker,
            created_at: self.created_at,
            started_at: self.started_at,
            finished_at: self.finished_at,
        }
    }
}

/// A status only ever moves forward, one stage at a time: a step that is
/// allowed raises the rank by exactly one, and no step leaves a terminal
/// status.
pub proof fn lemma_status_steps_forward(a: TaskStatus, b: TaskStatus)
    ensures
        a.may_become(b) ==> b.rank() == a.rank() + 1,
        a.is_terminal() ==> !a.may_become(b),
        !a.may_become(a),
{
}

} // verus!
