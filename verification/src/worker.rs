//! The worker's side of the protocol: one task at a time, and one report
//! for each task taken.

use vstd::prelude::*;
use crate::task::Outcome;

verus! {

/// The report that a worker sends back when its task has ended.
#[derive(Debug)]
pub struct Report {
    pub worker: usize,
    pub task_id: u64,
    pub outcome: Outcome,
}

/// An execution unit. It holds the id of the task it runs and nothing of
/// the queue.
#[derive(Debug)]
pub struct Worker {
    id: usize,
    current: Option<u64>,
}

impl Worker {
    /// The slot id of the worker.
    pub closed spec fn slot(&self) -> usize {
        self.id
    }

    /// The id of the task that the worker runs, if it runs one.
    pub closed spec fn current(&self) -> Option<u64> {
        self.current
    }

    /// An idle worker for slot `id`.
    pub fn new(id: usize) -> (w: Worker)
        ensures
            w.slot() == id,
            w.current() is None,
    {
        Worker { id, current: None }
    }

    /// The slot id of the worker.
    pub fn id(&self) -> (id: usize)
        ensures
            id == self.slot(),
    {
        self.id
    }

    /// Whether the worker runs a task.
    pub fn is_busy(&self) -> (b: bool)
        ensures
            b == self.current() is Some,
    {
        self.current.is_some()
    }

    /// Takes a start command. An idle worker accepts it and is busy with
    /// `task_id` from then on; a busy worker refuses it and goes on with
    /// the task it has.
    pub fn start(&mut self, task_id: u64) -> (accepted: bool)
        ensures
            accepted == old(self).current() is None,
            final(self).slot() == old(self).slot(),
            final(self).current() == (if accepted {
                Some(task_id)
            } else {
                old(self).current()
            }),
    {
        if self.current.is_some() {
            return false;
        }
        self.current = Some(task_id);
        true
    }

    /// Ends the task with `outcome`: the worker is idle again, and the
    /// result is the report to send, naming this worker and the task it
    /// ran. An idle worker has nothing to report.
    pub fn finish(&mut self, outcome: Outcome) -> (report: Option<Report>)
        ensures
            final(self).slot() == old(self).slot(),
            final(self).current() is None,
            match old(self).current() {
                Some(task_id) => report == Some(
                    Report { worker: old(self).slot(), task_id, outcome },
                ),
                None => report is None,
            },
    {
        match self.current {
            Some(task_id) => {
                self.current = None;
                Some(Report { worker: self.id, task_id, outcome })
            },
            None => None,
        }
    }
}

} // verus!
