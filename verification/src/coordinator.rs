//! The coordinator: sole owner of the pending queue, the worker slots and
//! the history of finished tasks.

use vstd::prelude::*;
use crate::state::{
    first_idle_from, lemma_assign_wf, lemma_complete_wf, lemma_dispatch, lemma_dispatch_fifo,
    lemma_enqueue_wf, lemma_first_idle, running_among, CoordinatorState, StartCommand,
    HISTORY_LIMIT,
};
use crate::task::{Outcome, Task, TaskSummary};

verus! {

/// What a completion report led to.
#[derive(Debug)]
pub struct Completion {
    /// Whether the report matched the slot; a report that did not changes nothing.
    pub accepted: bool,
    /// The tasks that were dispatched once the worker was idle again.
    pub started: Vec<StartCommand>,
}

/// A read-only projection of the coordinator's state.
#[derive(Debug)]
pub struct QueueSnapshot {
    /// Tasks that wait, in the order in which they will be dispatched.
    pub queued: Vec<TaskSummary>,
    /// Tasks that run, each with its worker.
    pub running: Vec<TaskSummary>,
    /// Finished tasks, most recent first.
    pub recent_history: Vec<TaskSummary>,
}

impl QueueSnapshot {
    /// The snapshot is the projection of state `s`.
    pub open spec fn shows(self, s: CoordinatorState) -> bool {
        &&& self.queued@ == s.queued_view()
        &&& self.running@ == s.running_view()
        &&& self.recent_history@ == s.recent_view()
    }
}

/// The scheduling engine: a FIFO queue of waiting tasks, a fixed pool of
/// worker slots and the finished tasks that are retained. Every change goes
/// through `&mut self`, one operation at a time.
pub struct Coordinator {
    pending: Vec<Task>,
    slots: Vec<Option<Task>>,
    history: Vec<Task>,
    next_id: u64,
}

impl View for Coordinator {
    type V = CoordinatorState;

    closed spec fn view(&self) -> CoordinatorState {
        CoordinatorState {
            pending: self.pending@,
            slots: self.slots@,
            history: self.history@,
            next_id: self.next_id,
        }
    }
}

impl Coordinator {
    /// A coordinator with `pool_size` idle workers, no task and no history.
    pub fn new(pool_size: usize) -> (c: Coordinator)
        requires
            pool_size >= 1,
        ensures
            c@ == CoordinatorState::initial(pool_size as nat),
            c@.wf(),
    {
        let mut slots: Vec<Option<Task>> = Vec::new();
        let mut i: usize = 0;
        while i < pool_size
            invariant
                i <= pool_size,
                slots@.len() == i,
                forall|k: int| 0 <= k < i ==> #[trigger] slots@[k] == None::<Task>,
            decreases pool_size - i,
        {
            slots.push(None);
            i += 1;
        }
        let c = Coordinator { pending: Vec::new(), slots, history: Vec::new(), next_id: 0 };
        proof {
            assert(c@.slots =~= CoordinatorState::initial(pool_size as nat).slots);
            assert(c@.pending =~= Seq::<Task>::empty());
            assert(c@.history =~= Seq::<Task>::empty());
        }
        c
    }

    /// The number of worker slots.
    pub fn pool_size(&self) -> (n: usize)
        ensures
            n == self@.pool_size(),
    {
        self.slots.len()
    }

    /// The number of tasks that wait.
    pub fn pending_len(&self) -> (n: usize)
        ensures
            n == self@.pending.len(),
    {
        self.pending.len()
    }

    /// The id that the next submitted task gets.
    pub fn next_id(&self) -> (id: u64)
        ensures
            id == self@.next_id,
    {
        self.next_id
    }

    /// Whether one more task can be given an id.
    pub fn can_submit(&self) -> (r: bool)
        ensures
            r == (self@.next_id < u64::MAX),
    {
        self.next_id < u64::MAX
    }

    /// The task that worker `worker` runs, if the slot exists and is busy.
    pub fn running_task(&self, worker: usize) -> (r: Option<&Task>)
        ensures
            match r {
                Some(t) => worker < self@.slots.len() && self@.slots[worker as int] == Some(*t),
                None => worker >= self@.slots.len() || self@.slots[worker as int] is None,
            },
    {
        if worker >= self.slots.len() {
            return None;
        }
        match &self.slots[worker] {
            Some(t) => Some(t),
            None => None,
        }
    }

    /// The idle worker with the lowest slot id.
    fn find_idle(&self) -> (r: Option<usize>)
        ensures
            match r {
                Some(w) => self@.lowest_idle() == Some(w as int),
                None => self@.lowest_idle() is None,
            },
    {
        let mut i: usize = 0;
        while i < self.slots.len()
            invariant
                i <= self.slots.len(),
                first_idle_from(self.slots@, 0) == first_idle_from(self.slots@, i as int),
            decreases self.slots.len() - i,
        {
            if self.slots[i].is_none() {
                return Some(i);
            }
            i += 1;
        }
        None
    }

    /// Dispatches for as long as a task waits and a worker is idle: the head
    /// of the queue goes to the idle worker with the lowest slot id, becomes
    /// `Running` and gets `now` as its start time. Returns one start command
    /// for each task dispatched, in that order.
    pub fn try_dispatch(&mut self, now: u64) -> (started: Vec<StartCommand>)
        requires
            old(self)@.wf(),
        ensures
            final(self)@ == old(self)@.dispatch(now),
            started@ == old(self)@.dispatch_commands(now),
            old(self)@.dispatch_is_fifo(now),
            final(self)@.wf(),
            final(self)@.settled(),
            final(self)@.pool_size() == old(self)@.pool_size(),
            final(self)@.history == old(self)@.history,
            final(self)@.next_id == old(self)@.next_id,
    {
        let ghost start = self@;
        let pool: usize = self.slots.len();
        let mut started: Vec<StartCommand> = Vec::new();
        let mut more: bool = true;
        while more
            invariant
                self@.wf(),
                start.slots.len() == pool,
                self@.dispatch(now) == start.dispatch(now),
                started@ + self@.dispatch_commands(now) == start.dispatch_commands(now),
                !more ==> self@.dispatch(now) == self@ && self@.dispatch_commands(now)
                    == Seq::<StartCommand>::empty(),
            decreases self.pending.len() + if more { 1nat } else { 0nat },
        {
            let idle = if self.pending.len() == 0 {
                None
            } else {
                self.find_idle()
            };
            match idle {
                None => {
                    more = false;
                },
                Some(w) => {
                    let ghost before = self@;
                    proof {
                        lemma_first_idle(before.slots, 0);
                        lemma_assign_wf(before, w as int, now);
                    }
                    let task = self.pending.remove(0);
                    let command = StartCommand { worker: w, task_id: task.id };
                    let task = task.start(now);
                    self.slots.remove(w);
                    self.slots.insert(w, Some(task));
                    proof {
                        assert(self@.pending =~= before.assign(w as int, now).pending);
                        assert(self@.slots =~= before.assign(w as int, now).slots);
                        assert(self@ == before.assign(w as int, now));
                        assert((started@.push(command)) + self@.dispatch_commands(now) =~= started@
                            + before.dispatch_commands(now));
                    }
                    started.push(command);
                },
            }
        }
        proof {
            lemma_dispatch(start, now);
            lemma_dispatch_fifo(start, now);
            assert(started@ + Seq::<StartCommand>::empty() =~= started@);
        }
        started
    }

    /// Enqueues a new task in status `Queued`, with the next id, and
    /// dispatches at once. Returns the start commands of that dispatch.
    pub fn submit(&mut self, name: String, parameters: Vec<(String, String)>, now: u64) -> (started:
        Vec<StartCommand>)
        requires
            old(self)@.wf(),
            old(self)@.next_id < u64::MAX,
        ensures
            final(self)@ == old(self)@.enqueue(name, parameters, now).dispatch(now),
            started@ == old(self)@.enqueue(name, parameters, now).dispatch_commands(now),
            final(self)@.wf(),
            final(self)@.settled(),
            final(self)@.pool_size() == old(self)@.pool_size(),
            final(self)@.history == old(self)@.history,
            final(self)@.next_id == old(self)@.next_id + 1,
    {
        proof {
            lemma_enqueue_wf(old(self)@, name, parameters, now);
        }
        let task = Task::new(self.next_id, name, parameters, now);
        self.pending.push(task);
        self.next_id = self.next_id + 1;
        self.try_dispatch(now)
    }

    /// Takes the report of worker `worker` that task `task_id` has ended.
    /// A report that matches the slot frees the worker, moves the task to
    /// the history with its final status, and dispatches. Any other report
    /// changes nothing.
    pub fn report_completion(
        &mut self,
        worker: usize,
        task_id: u64,
        outcome: Outcome,
        now: u64,
    ) -> (r: Completion)
        requires
            old(self)@.wf(),
        ensures
            r.accepted == old(self)@.runs(worker as int, task_id),
            r.accepted ==> final(self)@ == old(self)@.complete(worker as int, outcome, now).dispatch(
                now,
            ) && r.started@ == old(self)@.complete(worker as int, outcome, now).dispatch_commands(
                now,
            ),
            !r.accepted ==> final(self)@ == old(self)@ && r.started@ == Seq::<StartCommand>::empty(),
            final(self)@.wf(),
            final(self)@.pool_size() == old(self)@.pool_size(),
            final(self)@.next_id == old(self)@.next_id,
            r.accepted ==> final(self)@.settled(),
    {
        let known = if worker < self.slots.len() {
            match &self.slots[worker] {
                Some(t) => t.id == task_id,
                None => false,
            }
        } else {
            false
        };
        if !known {
            return Completion { accepted: false, started: Vec::new() };
        }
        let ghost before = self@;
        proof {
            lemma_complete_wf(before, worker as int, outcome, now);
        }
        let taken = self.slots.remove(worker);
        self.slots.insert(worker, None);
        let task = taken.unwrap().finish(outcome, now);
        if self.history.len() >= HISTORY_LIMIT {
            self.history.remove(0);
        }
        self.history.push(task);
        proof {
            assert(self@.slots =~= before.complete(worker as int, outcome, now).slots);
            assert(self@.history =~= before.complete(worker as int, outcome, now).history);
        }
        let started = self.try_dispatch(now);
        Completion { accepted: true, started }
    }

    /// The projection of the current state: the waiting tasks in queue
    /// order, the running tasks by slot id with their workers, and the
    /// retained finished tasks, most recent first. Reads only.
    pub fn get_queue_snapshot(&self) -> (snapshot: QueueSnapshot)
        ensures
            snapshot.shows(self@),
    {
        let mut queued: Vec<TaskSummary> = Vec::new();
        let mut i: usize = 0;
        while i < self.pending.len()
            invariant
                i <= self.pending.len(),
                queued@.len() == i,
                forall|k: int| 0 <= k < i ==> #[trigger] queued@[k] == self@.pending[k].summary(None),
            decreases self.pending.len() - i,
        {
            queued.push(self.pending[i].summarize(None));
            i += 1;
        }
        let mut running: Vec<TaskSummary> = Vec::new();
        let mut w: usize = 0;
        while w < self.slots.len()
            invariant
                w <= self.slots.len(),
                running@ == running_among(self@.slots, w as nat),
            decreases self.slots.len() - w,
        {
            match &self.slots[w] {
                Some(t) => {
                    running.push(t.summarize(Some(w)));
                },
                None => {},
            }
            w += 1;
        }
        let mut recent: Vec<TaskSummary> = Vec::new();
        let n: usize = self.history.len();
        let mut left: usize = n;
        while left > 0
            invariant
                left <= n,
                n == self@.history.len(),
                recent@.len() == n - left,
                forall|k: int|
                    0 <= k < n - left ==> #[trigger] recent@[k] == self@.history[n - 1 - k].summary(
                        None,
                    ),
            decreases left,
        {
            left -= 1;
            recent.push(self.history[left].summarize(None));
        }
        proof {
            assert(queued@ =~= self@.queued_view());
            assert(recent@ =~= self@.recent_view());
        }
        QueueSnapshot { queued, running, recent_history: recent }
    }
}

} // verus!
