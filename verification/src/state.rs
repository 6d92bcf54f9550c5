//! The coordinator's state as a mathematical value: what it holds, what
//! each operation makes of it, and what holds of every state reached.

use vstd::prelude::*;
use crate::task::{Outcome, Task, TaskStatus, TaskSummary};

verus! {

/// How many finished tasks the coordinator retains; the oldest is evicted
/// when one more arrives.
pub const HISTORY_LIMIT: usize = 64;

/// The command that a dispatch produces: worker `worker` is to run task
/// `task_id`, which from now on stands in that worker's slot.
#[derive(Clone, Copy, Debug, PartialEq, Eq, Structural)]
pub struct StartCommand {
    pub worker: usize,
    pub task_id: u64,
}

/// The coordinator's state as a mathematical value.
pub struct CoordinatorState {
    /// Tasks that wait, head first.
    pub pending: Seq<Task>,
    /// One entry per worker: the task it runs, or `None` while it is idle.
    pub slots: Seq<Option<Task>>,
    /// Finished tasks, oldest first.
    pub history: Seq<Task>,
    /// The id that the next submitted task gets.
    pub next_id: u64,
}

/// The lowest index from `from` on whose slot is idle.
pub open spec fn first_idle_from(slots: Seq<Option<Task>>, from: int) -> Option<int>
    decreases slots.len() - from,
{
    if from < 0 || from >= slots.len() {
        None
    } else if slots[from] is None {
        Some(from)
    } else {
        first_idle_from(slots, from + 1)
    }
}

/// The number of busy slots among the first `n`.
pub open spec fn busy_among(slots: Seq<Option<Task>>, n: nat) -> nat
    decreases n,
{
    if n == 0 {
        0
    } else {
        busy_among(slots, (n - 1) as nat) + if slots[n - 1] is Some {
            1nat
        } else {
            0nat
        }
    }
}

/// The summaries of the tasks that run in the first `n` slots, by slot id,
/// each with its worker.
pub open spec fn running_among(slots: Seq<Option<Task>>, n: nat) -> Seq<TaskSummary>
    decreases n,
{
    if n == 0 {
        Seq::empty()
    } else {
        let rest = running_among(slots, (n - 1) as nat);
        match slots[n - 1] {
            Some(t) => rest.push(t.summary(Some((n - 1) as usize))),
            None => rest,
        }
    }
}

/// The history after one more task has finished.
pub open spec fn retain(history: Seq<Task>, task: Task) -> Seq<Task> {
    if history.len() >= HISTORY_LIMIT {
        history.drop_first().push(task)
    } else {
        history.push(task)
    }
}

impl CoordinatorState {
    /// The state of a new coordinator with `pool_size` idle workers.
    pub open spec fn initial(pool_size: nat) -> CoordinatorState {
        CoordinatorState {
            pending: Seq::empty(),
            slots: Seq::new(pool_size, |i: int| None::<Task>),
            history: Seq::empty(),
            next_id: 0,
        }
    }

    pub open spec fn pool_size(self) -> nat {
        self.slots.len()
    }

    /// Worker `worker` is busy with the task of id `task_id`.
    pub open spec fn runs(self, worker: int, task_id: u64) -> bool {
        0 <= worker < self.slots.len() && self.slots[worker] is Some
            && self.slots[worker].unwrap().id == task_id
    }

    /// The tasks in flight: from the id of each running task to its worker.
    pub open spec fn in_flight(self) -> Map<u64, int> {
        Map::new(
            |id: u64| exists|w: int| self.runs(w, id),
            |id: u64| choose|w: int| self.runs(w, id),
        )
    }

    /// The number of running tasks.
    pub open spec fn running_count(self) -> nat {
        busy_among(self.slots, self.slots.len())
    }

    /// The idle worker with the lowest slot id, if any is idle.
    pub open spec fn lowest_idle(self) -> Option<int> {
        first_idle_from(self.slots, 0)
    }

    /// What holds of every state that the coordinator reaches.
    pub open spec fn wf(self) -> bool {
        &&& self.slots.len() >= 1
        &&& self.history.len() <= HISTORY_LIMIT
        &&& forall|i: int|
            0 <= i < self.pending.len() ==> (#[trigger] self.pending[i]).status
                == TaskStatus::Queued && self.pending[i].id < self.next_id
                && self.pending[i].consistent()
        &&& forall|i: int, j: int|
            0 <= i < j < self.pending.len() ==> (#[trigger] self.pending[i]).id < (
            #[trigger] self.pending[j]).id
        &&& forall|w: int|
            0 <= w < self.slots.len() && (#[trigger] self.slots[w]) is Some ==> self.slots[w].unwrap().status
                == TaskStatus::Running && self.slots[w].unwrap().id < self.next_id
                && self.slots[w].unwrap().consistent()
        &&& forall|w: int, j: int|
            0 <= w < self.slots.len() && (#[trigger] self.slots[w]) is Some && 0 <= j
                < self.pending.len() ==> self.slots[w].unwrap().id < (
            #[trigger] self.pending[j]).id
        &&& forall|v: int, w: int|
            0 <= v < w < self.slots.len() && (#[trigger] self.slots[v]) is Some && (
            #[trigger] self.slots[w]) is Some ==> self.slots[v].unwrap().id
                != self.slots[w].unwrap().id
        &&& forall|h: int|
            0 <= h < self.history.len() ==> (#[trigger] self.history[h]).status.is_terminal()
                && self.history[h].id < self.next_id && self.history[h].consistent()
        &&& self.history_ids_apart()
        &&& self.slots.len() == 1 ==> self.completes_in_order()
    }

    /// No id is used twice: a finished task shares its id with no other
    /// finished task, and with none that runs or waits.
    pub open spec fn history_ids_apart(self) -> bool {
        &&& forall|g: int, h: int|
            0 <= g < h < self.history.len() ==> (#[trigger] self.history[g]).id != (
            #[trigger] self.history[h]).id
        &&& forall|h: int, w: int|
            0 <= h < self.history.len() && 0 <= w < self.slots.len() && (
            #[trigger] self.slots[w]) is Some ==> (#[trigger] self.history[h]).id
                != self.slots[w].unwrap().id
        &&& forall|h: int, j: int|
            0 <= h < self.history.len() && 0 <= j < self.pending.len() ==> (
            #[trigger] self.history[h]).id != (#[trigger] self.pending[j]).id
    }

    /// The task with id `id` waits in the queue.
    pub open spec fn waits(self, id: u64) -> bool {
        exists|j: int| 0 <= j < self.pending.len() && (#[trigger] self.pending[j]).id == id
    }

    /// The task with id `id` runs on some worker.
    pub open spec fn is_running(self, id: u64) -> bool {
        exists|w: int| self.runs(w, id)
    }

    /// The task with id `id` has finished and is retained.
    pub open spec fn is_finished(self, id: u64) -> bool {
        exists|h: int| 0 <= h < self.history.len() && (#[trigger] self.history[h]).id == id
    }

    /// From this state to `next` the task with id `id` has not gone back
    /// and has skipped nothing: one that waited waits still or runs, one
    /// that ran runs still or has finished, and one that had finished has
    /// finished still, or is gone for good.
    pub open spec fn moves_forward(self, next: CoordinatorState, id: u64) -> bool {
        &&& self.waits(id) ==> next.waits(id) || next.is_running(id)
        &&& self.is_running(id) ==> next.is_running(id) || next.is_finished(id)
        &&& self.is_finished(id) ==> !next.waits(id) && !next.is_running(id)
    }

    /// With ids given out in submission order: the finished tasks stand in
    /// the order of their ids, and each was submitted before every task that
    /// runs or waits.
    pub open spec fn completes_in_order(self) -> bool {
        &&& forall|g: int, h: int|
            0 <= g < h < self.history.len() ==> (#[trigger] self.history[g]).id < (
            #[trigger] self.history[h]).id
        &&& forall|h: int, w: int|
            0 <= h < self.history.len() && 0 <= w < self.slots.len() && (
            #[trigger] self.slots[w]) is Some ==> (#[trigger] self.history[h]).id
                < self.slots[w].unwrap().id
        &&& forall|h: int, j: int|
            0 <= h < self.history.len() && 0 <= j < self.pending.len() ==> (
            #[trigger] self.history[h]).id < (#[trigger] self.pending[j]).id
    }

    /// The state after a task with the next id has joined the queue.
    pub open spec fn enqueue(
        self,
        name: String,
        parameters: Vec<(String, String)>,
        now: u64,
    ) -> CoordinatorState {
        CoordinatorState {
            pending: self.pending.push(Task::created(self.next_id, name, parameters, now)),
            next_id: (self.next_id + 1) as u64,
            ..self
        }
    }

    /// The state after the head of the queue has gone to `worker`.
    pub open spec fn assign(self, worker: int, now: u64) -> CoordinatorState {
        CoordinatorState {
            pending: self.pending.drop_first(),
            slots: self.slots.update(worker, Some(self.pending[0].started(now))),
            ..self
        }
    }

    /// The state after dispatching for as long as a task waits and a worker
    /// is idle: each time the head of the queue goes to the idle worker with
    /// the lowest slot id.
    pub open spec fn dispatch(self, now: u64) -> CoordinatorState
        decreases self.pending.len(),
    {
        if self.pending.len() == 0 {
            self
        } else {
            match self.lowest_idle() {
                None => self,
                Some(w) => self.assign(w, now).dispatch(now),
            }
        }
    }

    /// The start commands that `dispatch` produces, in the order of dispatch.
    pub open spec fn dispatch_commands(self, now: u64) -> Seq<StartCommand>
        decreases self.pending.len(),
    {
        if self.pending.len() == 0 {
            Seq::empty()
        } else {
            match self.lowest_idle() {
                None => Seq::empty(),
                Some(w) => seq![
                    (StartCommand { worker: w as usize, task_id: self.pending[0].id }),
                ] + self.assign(w, now).dispatch_commands(now),
            }
        }
    }

    /// The state after worker `worker` has finished its task with `outcome`.
    pub open spec fn complete(self, worker: int, outcome: Outcome, now: u64) -> CoordinatorState {
        CoordinatorState {
            slots: self.slots.update(worker, None),
            history: retain(self.history, self.slots[worker].unwrap().finished(outcome, now)),
            ..self
        }
    }

    /// Nothing more can be dispatched: no task waits, or no worker is idle.
    pub open spec fn settled(self) -> bool {
        self.pending.len() == 0 || forall|w: int|
            0 <= w < self.slots.len() ==> (#[trigger] self.slots[w]) is Some
    }

    /// Dispatch is first in, first out. With `n` commands produced, the
    /// tasks dispatched are the first `n` of the queue, in their order, and
    /// the rest of the queue waits on as it stood. Command `k` names task
    /// `k` of the queue and a worker that was idle, which then runs that
    /// task, started at `now`. Idle workers are taken by rising slot id, and
    /// no busy worker is touched.
    pub open spec fn dispatch_is_fifo(self, now: u64) -> bool {
        let commands = self.dispatch_commands(now);
        let after = self.dispatch(now);
        &&& commands.len() <= self.pending.len()
        &&& after.pending == self.pending.skip(commands.len() as int)
        &&& forall|k: int|
            0 <= k < commands.len() ==> {
                &&& (#[trigger] commands[k]).task_id == self.pending[k].id
                &&& commands[k].worker < self.slots.len()
                &&& self.slots[commands[k].worker as int] is None
                &&& after.slots[commands[k].worker as int] == Some(self.pending[k].started(now))
            }
        &&& forall|k: int, l: int|
            0 <= k < l < commands.len() ==> (#[trigger] commands[k]).worker < (
            #[trigger] commands[l]).worker
        &&& forall|w: int|
            0 <= w < self.slots.len() && (#[trigger] self.slots[w]) is Some ==> after.slots[w]
                == self.slots[w]
    }

    /// The waiting tasks as the projection lists them: in queue order.
    pub open spec fn queued_view(self) -> Seq<TaskSummary> {
        Seq::new(self.pending.len(), |i: int| self.pending[i].summary(None))
    }

    /// The running tasks as the projection lists them: by slot id.
    pub open spec fn running_view(self) -> Seq<TaskSummary> {
        running_among(self.slots, self.slots.len())
    }

    /// The finished tasks as the projection lists them: most recent first.
    pub open spec fn recent_view(self) -> Seq<TaskSummary> {
        Seq::new(
            self.history.len(),
            |i: int| self.history[self.history.len() - 1 - i].summary(None),
        )
    }
}

/// `first_idle_from` finds the lowest idle slot from `from` on: the slot it
/// names is idle and all before it are busy; it names none only if all are busy.
pub proof fn lemma_first_idle(slots: Seq<Option<Task>>, from: int)
    requires
        0 <= from <= slots.len(),
    ensures
        match first_idle_from(slots, from) {
            Some(w) => from <= w < slots.len() && slots[w] is None && forall|v: int|
                from <= v < w ==> (#[trigger] slots[v]) is Some,
            None => forall|v: int| from <= v < slots.len() ==> (#[trigger] slots[v]) is Some,
        },
    decreases slots.len() - from,
{
    if from < slots.len() && slots[from] is Some {
        lemma_first_idle(slots, from + 1);
    }
}

/// Assigning the head of the queue to an idle worker keeps the state well formed.
pub proof fn lemma_assign_wf(s: CoordinatorState, w: int, now: u64)
    requires
        s.wf(),
        s.pending.len() > 0,
        0 <= w < s.slots.len(),
        s.slots[w] is None,
    ensures
        s.assign(w, now).wf(),
{
    let t = s.assign(w, now);
    assert forall|i: int| 0 <= i < t.pending.len() implies (#[trigger] t.pending[i]).status
        == TaskStatus::Queued && t.pending[i].id < t.next_id by {
        assert(t.pending[i] == s.pending[i + 1]);
    }
    assert forall|i: int, j: int| 0 <= i < j < t.pending.len() implies (#[trigger] t.pending[i]).id
        < (#[trigger] t.pending[j]).id by {
        assert(t.pending[i] == s.pending[i + 1]);
        assert(t.pending[j] == s.pending[j + 1]);
    }
    assert forall|v: int, j: int|
        0 <= v < t.slots.len() && (#[trigger] t.slots[v]) is Some && 0 <= j
            < t.pending.len() implies t.slots[v].unwrap().id < (#[trigger] t.pending[j]).id by {
        assert(t.pending[j] == s.pending[j + 1]);
        if v == w {
            assert(s.pending[0].id < s.pending[j + 1].id);
        } else {
            assert(t.slots[v] == s.slots[v]);
        }
    }
    assert forall|v: int|
        0 <= v < t.slots.len() && (#[trigger] t.slots[v]) is Some implies t.slots[v].unwrap().status
        == TaskStatus::Running && t.slots[v].unwrap().id < t.next_id by {
        if v == w {
            assert(s.pending[0].id < s.next_id);
        } else {
            assert(t.slots[v] == s.slots[v]);
        }
    }
    assert forall|u: int, v: int|
        0 <= u < v < t.slots.len() && (#[trigger] t.slots[u]) is Some && (
        #[trigger] t.slots[v]) is Some implies t.slots[u].unwrap().id
        != t.slots[v].unwrap().id by {
        if u == w {
            assert(t.slots[v] == s.slots[v]);
            assert(s.slots[v].unwrap().id < s.pending[0].id);
        } else if v == w {
            assert(t.slots[u] == s.slots[u]);
            assert(s.slots[u].unwrap().id < s.pending[0].id);
        } else {
            assert(t.slots[u] == s.slots[u]);
            assert(t.slots[v] == s.slots[v]);
        }
    }
    if t.slots.len() == 1 {
        assert forall|h: int, v: int|
            0 <= h < t.history.len() && 0 <= v < t.slots.len() && (
            #[trigger] t.slots[v]) is Some implies (#[trigger] t.history[h]).id
            < t.slots[v].unwrap().id by {
            assert(s.history[h].id < s.pending[0].id);
        }
        assert forall|h: int, j: int|
            0 <= h < t.history.len() && 0 <= j < t.pending.len() implies (
        #[trigger] t.history[h]).id < (#[trigger] t.pending[j]).id by {
            assert(t.pending[j] == s.pending[j + 1]);
        }
    }
}

/// Dispatching keeps the state well formed, and ends in a state in which
/// nothing more can be dispatched. It leaves the history and the id counter
/// alone, and the pool keeps its size.
pub proof fn lemma_dispatch(s: CoordinatorState, now: u64)
    requires
        s.wf(),
    ensures
        s.dispatch(now).wf(),
        s.dispatch(now).settled(),
        s.dispatch(now).slots.len() == s.slots.len(),
        s.dispatch(now).history == s.history,
        s.dispatch(now).next_id == s.next_id,
        s.dispatch_commands(now).len() + s.dispatch(now).pending.len() == s.pending.len(),
    decreases s.pending.len(),
{
    lemma_first_idle(s.slots, 0);
    if s.pending.len() > 0 {
        match s.lowest_idle() {
            None => {},
            Some(w) => {
                lemma_assign_wf(s, w, now);
                lemma_dispatch(s.assign(w, now), now);
            },
        }
    }
}

/// A new task at the tail of the queue keeps the state well formed.
pub proof fn lemma_enqueue_wf(
    s: CoordinatorState,
    name: String,
    parameters: Vec<(String, String)>,
    now: u64,
)
    requires
        s.wf(),
        s.next_id < u64::MAX,
    ensures
        s.enqueue(name, parameters, now).wf(),
{
    let t = s.enqueue(name, parameters, now);
    let last = s.pending.len() as int;
    assert forall|i: int| 0 <= i < t.pending.len() implies (#[trigger] t.pending[i]).status
        == TaskStatus::Queued && t.pending[i].id < t.next_id by {
        if i < last {
            assert(t.pending[i] == s.pending[i]);
        }
    }
    assert forall|i: int, j: int| 0 <= i < j < t.pending.len() implies (#[trigger] t.pending[i]).id
        < (#[trigger] t.pending[j]).id by {
        assert(t.pending[i] == s.pending[i]);
        if j < last {
            assert(t.pending[j] == s.pending[j]);
        }
    }
    assert forall|w: int, j: int|
        0 <= w < t.slots.len() && (#[trigger] t.slots[w]) is Some && 0 <= j
            < t.pending.len() implies t.slots[w].unwrap().id < (#[trigger] t.pending[j]).id by {
        if j < last {
            assert(t.pending[j] == s.pending[j]);
        }
    }
    if t.slots.len() == 1 {
        assert forall|h: int, j: int|
            0 <= h < t.history.len() && 0 <= j < t.pending.len() implies (
        #[trigger] t.history[h]).id < (#[trigger] t.pending[j]).id by {
            if j < last {
                assert(t.pending[j] == s.pending[j]);
            }
        }
    }
}

/// A finished task leaving its slot for the history keeps the state well formed.
pub proof fn lemma_complete_wf(s: CoordinatorState, w: int, outcome: Outcome, now: u64)
    requires
        s.wf(),
        0 <= w < s.slots.len(),
        s.slots[w] is Some,
    ensures
        s.complete(w, outcome, now).wf(),
{
    let t = s.complete(w, outcome, now);
    let done = s.slots[w].unwrap().finished(outcome, now);
    let shift: int = if s.history.len() >= HISTORY_LIMIT {
        1
    } else {
        0
    };
    let last = t.history.len() - 1;
    assert(t.history[last] == done);
    assert forall|h: int| 0 <= h < last implies #[trigger] t.history[h] == s.history[h + shift] by {}
    assert forall|v: int| 0 <= v < t.slots.len() && v != w implies #[trigger] t.slots[v]
        == s.slots[v] by {}
    assert forall|h: int| 0 <= h < t.history.len() implies (#[trigger] t.history[h]).status.is_terminal()
        && t.history[h].id < t.next_id by {
        if h < last {
            assert(t.history[h] == s.history[h + shift]);
        }
    }
    if t.slots.len() == 1 {
        assert forall|g: int, h: int| 0 <= g < h < t.history.len() implies (
        #[trigger] t.history[g]).id < (#[trigger] t.history[h]).id by {
            assert(t.history[g] == s.history[g + shift]);
            if h < last {
                assert(t.history[h] == s.history[h + shift]);
            }
        }
        assert forall|h: int, j: int|
            0 <= h < t.history.len() && 0 <= j < t.pending.len() implies (
        #[trigger] t.history[h]).id < (#[trigger] t.pending[j]).id by {
            if h < last {
                assert(t.history[h] == s.history[h + shift]);
            }
        }
    }
}

/// Every dispatch is first in, first out, with the lowest idle slot first.
pub proof fn lemma_dispatch_fifo(s: CoordinatorState, now: u64)
    requires
        s.wf(),
        s.slots.len() <= usize::MAX,
    ensures
        s.dispatch_is_fifo(now),
    decreases s.pending.len(),
{
    lemma_first_idle(s.slots, 0);
    let commands = s.dispatch_commands(now);
    let after = s.dispatch(now);
    if s.pending.len() == 0 {
        assert(after.pending =~= s.pending.skip(0));
    } else {
        match s.lowest_idle() {
            None => {
                assert(after.pending =~= s.pending.skip(0));
            },
            Some(w) => {
                let a = s.assign(w, now);
                let rest = a.dispatch_commands(now);
                lemma_assign_wf(s, w, now);
                lemma_dispatch_fifo(a, now);
                assert(commands.len() == rest.len() + 1);
                assert(commands[0].worker == w);
                assert(after.pending =~= s.pending.skip(commands.len() as int));
                assert(a.slots[w] is Some);
                assert forall|k: int| 0 <= k < commands.len() implies {
                    &&& (#[trigger] commands[k]).task_id == s.pending[k].id
                    &&& commands[k].worker < s.slots.len()
                    &&& s.slots[commands[k].worker as int] is None
                    &&& after.slots[commands[k].worker as int] == Some(s.pending[k].started(now))
                } by {
                    if k > 0 {
                        assert(commands[k] == rest[k - 1]);
                        assert(a.pending[k - 1] == s.pending[k]);
                        let v = rest[k - 1].worker as int;
                        assert(a.slots[v] is None);
                        assert(a.slots[v] == s.slots[v]);
                    }
                }
                assert forall|k: int, l: int| 0 <= k < l < commands.len() implies (
                #[trigger] commands[k]).worker < (#[trigger] commands[l]).worker by {
                    assert(commands[l] == rest[l - 1]);
                    let v = rest[l - 1].worker as int;
                    assert(a.slots[v] is None);
                    if k > 0 {
                        assert(commands[k] == rest[k - 1]);
                    } else {
                        if v < w {
                            assert(s.slots[v] is Some);
                            assert(a.slots[v] == s.slots[v]);
                        }
                    }
                }
                assert forall|u: int| 0 <= u < s.slots.len() && (#[trigger] s.slots[u]) is Some implies after.slots[u]
                    == s.slots[u] by {
                    assert(a.slots[u] == s.slots[u]);
                    assert(a.slots[u] is Some);
                }
            },
        }
    }
}

} // verus!
