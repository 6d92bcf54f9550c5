//! What holds of the scheduling engine as a whole, proved from the model
//! of its state.

use vstd::prelude::*;
use crate::coordinator::QueueSnapshot;
use crate::state::{
    busy_among, lemma_assign_wf, lemma_complete_wf, lemma_enqueue_wf, lemma_first_idle,
    running_among, CoordinatorState,
};
use crate::task::{Outcome, Task, TaskStatus, TaskSummary};

verus! {

/// Among the first `n` slots no more are busy than `n`.
pub proof fn lemma_busy_bounded(slots: Seq<Option<Task>>, n: nat)
    ensures
        busy_among(slots, n) <= n,
    decreases n,
{
    if n > 0 {
        lemma_busy_bounded(slots, (n - 1) as nat);
    }
}

/// At no time do more tasks run than there are workers. The tasks that run
/// are exactly those in the slots: no waiting or finished task is `Running`.
/// Busy slots and tasks in flight correspond one to one: the in-flight map
/// sends the id of the task in a busy slot to that slot, and every id it
/// holds to a slot that runs the task of that id.
pub proof fn lemma_running_matches_workers(s: CoordinatorState)
    requires
        s.wf(),
    ensures
        s.running_count() <= s.pool_size(),
        s.running_view().len() == s.running_count(),
        forall|i: int| 0 <= i < s.pending.len() ==> (#[trigger] s.pending[i]).status != TaskStatus::Running,
        forall|h: int| 0 <= h < s.history.len() ==> (#[trigger] s.history[h]).status != TaskStatus::Running,
        forall|w: int|
            0 <= w < s.slots.len() && (#[trigger] s.slots[w]) is Some ==> s.slots[w].unwrap().status
                == TaskStatus::Running && s.in_flight().dom().contains(s.slots[w].unwrap().id)
                && s.in_flight()[s.slots[w].unwrap().id] == w,
        forall|id: u64| #[trigger]
            s.in_flight().dom().contains(id) ==> s.runs(s.in_flight()[id], id),
{
    lemma_busy_bounded(s.slots, s.slots.len());
    lemma_running_list_length(s.slots, s.slots.len());
    assert forall|w: int| 0 <= w < s.slots.len() && (#[trigger] s.slots[w]) is Some implies s.slots[w].unwrap().status
        == TaskStatus::Running && s.in_flight().dom().contains(s.slots[w].unwrap().id)
        && s.in_flight()[s.slots[w].unwrap().id] == w by {
        let id = s.slots[w].unwrap().id;
        assert(s.runs(w, id));
        let v = choose|v: int| s.runs(v, id);
        assert(s.runs(v, id));
        if v < w {
            assert(s.slots[v] is Some && s.slots[w] is Some);
        } else if w < v {
            assert(s.slots[w] is Some && s.slots[v] is Some);
        }
    }
}

/// With a single worker, tasks finish in the order in which they were
/// submitted: ids are given out in submission order, the history holds the
/// finished tasks in the order in which they finished, and in it the ids
/// rise; each finished task was submitted before the one that runs and
/// before every one that waits, and the one that runs before every one that
/// waits.
pub proof fn lemma_single_worker_keeps_order(s: CoordinatorState)
    requires
        s.wf(),
        s.pool_size() == 1,
    ensures
        s.completes_in_order(),
        forall|i: int, j: int|
            0 <= i < j < s.pending.len() ==> (#[trigger] s.pending[i]).id < (
            #[trigger] s.pending[j]).id,
        forall|j: int|
            s.slots[0] is Some && 0 <= j < s.pending.len() ==> s.slots[0].unwrap().id < (
            #[trigger] s.pending[j]).id,
{
    assert forall|j: int| s.slots[0] is Some && 0 <= j < s.pending.len() implies s.slots[0].unwrap().id
        < (#[trigger] s.pending[j]).id by {
        let first = s.slots[0];
        assert(first is Some);
    }
}

/// Every move that the coordinator makes follows the lifecycle. A
/// dispatched task goes from `Queued` to `Running` and a reported one from
/// `Running` to `Succeeded` or `Failed`, each one step; the move changes
/// nothing else of the task but the time and the result that it records,
/// and no task in another slot changes.
pub proof fn lemma_moves_follow_lifecycle(s: CoordinatorState, w: int, outcome: Outcome, now: u64)
    requires
        s.wf(),
        0 <= w < s.slots.len(),
    ensures
        s.pending.len() > 0 && s.slots[w] is None ==> {
            let before = s.pending[0];
            let after = s.assign(w, now).slots[w].unwrap();
            &&& before.status.may_become(after.status)
            &&& after.id == before.id && after.name == before.name && after.parameters
                == before.parameters && after.created_at == before.created_at
            &&& after.started_at == Some(now)
        },
        s.slots[w] is Some ==> {
            let before = s.slots[w].unwrap();
            let moved = s.complete(w, outcome, now);
            let after = moved.history[moved.history.len() - 1];
            &&& before.status.may_become(after.status)
            &&& after.status == Task::status_for(outcome)
            &&& after.id == before.id && after.name == before.name && after.parameters
                == before.parameters && after.created_at == before.created_at
                && after.started_at == before.started_at
            &&& after.finished_at == Some(now) && after.result == Some(outcome)
            &&& moved.pending == s.pending
        },
        forall|v: int|
            0 <= v < s.slots.len() && v != w ==> #[trigger] s.assign(w, now).slots[v] == s.slots[v]
                && s.complete(w, outcome, now).slots[v] == s.slots[v],
{
    if s.pending.len() > 0 && s.slots[w] is None {
        let first = s.pending[0];
        assert(first.status == TaskStatus::Queued);
    }
    if s.slots[w] is Some {
        let slot = s.slots[w];
        assert(slot.unwrap().status == TaskStatus::Running);
    }
}

/// Reading twice with no change in between gives the same projection: a
/// snapshot is determined by the state alone.
pub proof fn lemma_snapshot_repeatable(s: CoordinatorState, a: QueueSnapshot, b: QueueSnapshot)
    requires
        a.shows(s),
        b.shows(s),
    ensures
        a.queued@ == b.queued@,
        a.running@ == b.running@,
        a.recent_history@ == b.recent_history@,
{
}

/// A coordinator that has seen no task projects to three empty lists.
pub proof fn lemma_initial_projection_empty(pool_size: nat)
    ensures
        CoordinatorState::initial(pool_size).queued_view() == Seq::<TaskSummary>::empty(),
        CoordinatorState::initial(pool_size).running_view() == Seq::<TaskSummary>::empty(),
        CoordinatorState::initial(pool_size).recent_view() == Seq::<TaskSummary>::empty(),
{
    let s = CoordinatorState::initial(pool_size);
    lemma_idle_slots_show_nothing(s.slots, pool_size);
    assert(s.queued_view() =~= Seq::<TaskSummary>::empty());
    assert(s.recent_view() =~= Seq::<TaskSummary>::empty());
}

/// Idle slots contribute nothing to the list of running tasks.
pub proof fn lemma_idle_slots_show_nothing(slots: Seq<Option<Task>>, n: nat)
    requires
        n <= slots.len(),
        forall|w: int| 0 <= w < n ==> (#[trigger] slots[w]) is None,
    ensures
        running_among(slots, n) == Seq::<TaskSummary>::empty(),
    decreases n,
{
    if n > 0 {
        lemma_idle_slots_show_nothing(slots, (n - 1) as nat);
    }
}

/// The place of a task tells its status: a task that waits is `Queued`,
/// one in a slot is `Running`, one in the history is `Succeeded` or
/// `Failed`. And a task has one place: of waiting, running and finished at
/// most one holds of an id.
pub proof fn lemma_one_place(s: CoordinatorState, id: u64)
    requires
        s.wf(),
    ensures
        forall|j: int| 0 <= j < s.pending.len() ==> (#[trigger] s.pending[j]).status == TaskStatus::Queued,
        forall|w: int|
            0 <= w < s.slots.len() && (#[trigger] s.slots[w]) is Some ==> s.slots[w].unwrap().status
                == TaskStatus::Running,
        forall|h: int| 0 <= h < s.history.len() ==> (#[trigger] s.history[h]).status.is_terminal(),
        !(s.waits(id) && s.is_running(id)),
        !(s.waits(id) && s.is_finished(id)),
        !(s.is_running(id) && s.is_finished(id)),
        s.waits(id) || s.is_running(id) || s.is_finished(id) ==> id < s.next_id,
{
    if s.waits(id) {
        let j = choose|j: int| 0 <= j < s.pending.len() && (#[trigger] s.pending[j]).id == id;
        assert(s.pending[j].id < s.next_id);
        if s.is_running(id) {
            let w = choose|w: int| s.runs(w, id);
            assert(s.slots[w] is Some);
            assert(s.slots[w].unwrap().id < s.pending[j].id);
        }
        if s.is_finished(id) {
            let h = choose|h: int| 0 <= h < s.history.len() && (#[trigger] s.history[h]).id == id;
            assert(s.history[h].id != s.pending[j].id);
        }
    }
    if s.is_running(id) {
        let w = choose|w: int| s.runs(w, id);
        assert(s.slots[w] is Some);
        if s.is_finished(id) {
            let h = choose|h: int| 0 <= h < s.history.len() && (#[trigger] s.history[h]).id == id;
            assert(s.history[h].id != s.slots[w].unwrap().id);
        }
    }
    if s.is_finished(id) {
        let h = choose|h: int| 0 <= h < s.history.len() && (#[trigger] s.history[h]).id == id;
        assert(s.history[h].id < s.next_id);
    }
}

/// What one assignment does to the place of the task with id `id`.
pub proof fn lemma_assign_moves(s: CoordinatorState, w: int, now: u64, id: u64)
    requires
        s.wf(),
        s.pending.len() > 0,
        0 <= w < s.slots.len(),
        s.slots[w] is None,
    ensures
        s.waits(id) ==> s.assign(w, now).waits(id) || s.assign(w, now).is_running(id),
        s.is_running(id) ==> s.assign(w, now).is_running(id),
        s.assign(w, now).waits(id) ==> s.waits(id),
        s.assign(w, now).is_running(id) ==> s.is_running(id) || s.waits(id),
        s.assign(w, now).history == s.history,
{
    let a = s.assign(w, now);
    if s.waits(id) {
        let j = choose|j: int| 0 <= j < s.pending.len() && (#[trigger] s.pending[j]).id == id;
        if j == 0 {
            assert(a.runs(w, id));
        } else {
            assert(a.pending[j - 1] == s.pending[j]);
        }
    }
    if s.is_running(id) {
        let v = choose|v: int| s.runs(v, id);
        assert(a.slots[v] == s.slots[v]);
        assert(a.runs(v, id));
    }
    if a.waits(id) {
        let j = choose|j: int| 0 <= j < a.pending.len() && (#[trigger] a.pending[j]).id == id;
        assert(a.pending[j] == s.pending[j + 1]);
    }
    if a.is_running(id) {
        let v = choose|v: int| a.runs(v, id);
        if v == w {
            assert(s.pending[0].id == id);
        } else {
            assert(a.slots[v] == s.slots[v]);
            assert(s.runs(v, id));
        }
    }
}

/// What dispatching does to the place of the task with id `id`: a task
/// that runs goes on running, the finished tasks stay as they are, and a
/// task that runs afterwards ran or waited before.
pub proof fn lemma_dispatch_moves(s: CoordinatorState, now: u64, id: u64)
    requires
        s.wf(),
    ensures
        s.waits(id) ==> s.dispatch(now).waits(id) || s.dispatch(now).is_running(id),
        s.is_running(id) ==> s.dispatch(now).is_running(id),
        s.dispatch(now).waits(id) ==> s.waits(id),
        s.dispatch(now).is_running(id) ==> s.is_running(id) || s.waits(id),
        s.dispatch(now).history == s.history,
    decreases s.pending.len(),
{
    lemma_first_idle(s.slots, 0);
    if s.pending.len() > 0 {
        match s.lowest_idle() {
            None => {},
            Some(w) => {
                lemma_assign_wf(s, w, now);
                lemma_assign_moves(s, w, now, id);
                lemma_dispatch_moves(s.assign(w, now), now, id);
            },
        }
    }
}

/// What a new task at the tail of the queue does to the place of the task
/// with id `id`.
pub proof fn lemma_enqueue_moves(
    s: CoordinatorState,
    name: String,
    parameters: Vec<(String, String)>,
    now: u64,
    id: u64,
)
    requires
        s.wf(),
        s.next_id < u64::MAX,
    ensures
        s.waits(id) ==> s.enqueue(name, parameters, now).waits(id),
        s.enqueue(name, parameters, now).waits(id) ==> s.waits(id) || id == s.next_id,
        s.enqueue(name, parameters, now).waits(s.next_id),
        s.enqueue(name, parameters, now).slots == s.slots,
        s.enqueue(name, parameters, now).history == s.history,
{
    let e = s.enqueue(name, parameters, now);
    let last = s.pending.len() as int;
    assert(e.pending[last].id == s.next_id);
    if s.waits(id) {
        let j = choose|j: int| 0 <= j < s.pending.len() && (#[trigger] s.pending[j]).id == id;
        assert(e.pending[j] == s.pending[j]);
    }
    if e.waits(id) {
        let j = choose|j: int| 0 <= j < e.pending.len() && (#[trigger] e.pending[j]).id == id;
        if j < last {
            assert(e.pending[j] == s.pending[j]);
        }
    }
}

/// What a completion does to the place of the task with id `id`.
pub proof fn lemma_complete_moves(s: CoordinatorState, w: int, outcome: Outcome, now: u64, id: u64)
    requires
        s.wf(),
        0 <= w < s.slots.len(),
        s.slots[w] is Some,
    ensures
        s.complete(w, outcome, now).pending == s.pending,
        s.is_running(id) ==> s.complete(w, outcome, now).is_running(id) || s.complete(
            w,
            outcome,
            now,
        ).is_finished(id),
        s.complete(w, outcome, now).is_running(id) ==> s.is_running(id),
        s.complete(w, outcome, now).is_finished(s.slots[w].unwrap().id),
{
    let c = s.complete(w, outcome, now);
    let last = c.history.len() - 1;
    assert(c.history[last].id == s.slots[w].unwrap().id);
    if s.is_running(id) {
        let v = choose|v: int| s.runs(v, id);
        if v != w {
            assert(c.slots[v] == s.slots[v]);
            assert(c.runs(v, id));
        }
    }
    if c.is_running(id) {
        let v = choose|v: int| c.runs(v, id);
        assert(v != w);
        assert(c.slots[v] == s.slots[v]);
        assert(s.runs(v, id));
    }
}

/// A submission moves no task back and lets none skip a stage: whatever
/// waited waits still or runs, whatever ran runs still, and whatever had
/// finished neither waits nor runs again. The submitted task itself, which
/// has the id that was next, waits or runs afterwards.
pub proof fn lemma_submit_moves_forward(
    s: CoordinatorState,
    name: String,
    parameters: Vec<(String, String)>,
    now: u64,
    id: u64,
)
    requires
        s.wf(),
        s.next_id < u64::MAX,
    ensures
        s.moves_forward(s.enqueue(name, parameters, now).dispatch(now), id),
        s.is_running(id) ==> s.enqueue(name, parameters, now).dispatch(now).is_running(id),
        s.enqueue(name, parameters, now).dispatch(now).waits(s.next_id) || s.enqueue(
            name,
            parameters,
            now,
        ).dispatch(now).is_running(s.next_id),
{
    let e = s.enqueue(name, parameters, now);
    lemma_enqueue_wf(s, name, parameters, now);
    lemma_enqueue_moves(s, name, parameters, now, id);
    lemma_dispatch_moves(e, now, id);
    lemma_dispatch_moves(e, now, s.next_id);
    lemma_one_place(s, id);
    assert(s.is_running(id) ==> e.is_running(id)) by {
        if s.is_running(id) {
            let v = choose|v: int| s.runs(v, id);
            assert(e.runs(v, id));
        }
    }
    assert(e.is_running(id) ==> s.is_running(id)) by {
        if e.is_running(id) {
            let v = choose|v: int| e.runs(v, id);
            assert(s.runs(v, id));
        }
    }
}

/// An accepted completion report moves no task back and lets none skip a
/// stage: whatever waited waits still or runs, whatever ran runs still or
/// has finished, and whatever had finished neither waits nor runs again.
/// The reported task itself has finished.
pub proof fn lemma_report_moves_forward(
    s: CoordinatorState,
    w: int,
    outcome: Outcome,
    now: u64,
    id: u64,
)
    requires
        s.wf(),
        0 <= w < s.slots.len(),
        s.slots[w] is Some,
    ensures
        s.moves_forward(s.complete(w, outcome, now).dispatch(now), id),
        s.complete(w, outcome, now).dispatch(now).is_finished(s.slots[w].unwrap().id),
{
    let c = s.complete(w, outcome, now);
    lemma_complete_wf(s, w, outcome, now);
    lemma_complete_moves(s, w, outcome, now, id);
    lemma_dispatch_moves(c, now, id);
    lemma_one_place(s, id);
    assert(s.waits(id) == c.waits(id));
    assert(c.is_finished(id) ==> c.dispatch(now).is_finished(id));
    assert(c.is_finished(s.slots[w].unwrap().id) ==> c.dispatch(now).is_finished(
        s.slots[w].unwrap().id,
    ));
}

/// The list of running tasks has one entry for each busy slot.
pub proof fn lemma_running_list_length(slots: Seq<Option<Task>>, n: nat)
    requires
        n <= slots.len(),
    ensures
        running_among(slots, n).len() == busy_among(slots, n),
    decreases n,
{
    if n > 0 {
        lemma_running_list_length(slots, (n - 1) as nat);
    }
}

/// Filling or freeing slot `w` changes the number of busy slots among the
/// first `n` by the change in that slot, if it is among them.
pub proof fn lemma_busy_after_update(slots: Seq<Option<Task>>, w: int, entry: Option<Task>, n: nat)
    requires
        0 <= w < slots.len(),
        n <= slots.len(),
    ensures
        busy_among(slots.update(w, entry), n) + (if w < n && slots[w] is Some {
            1nat
        } else {
            0nat
        }) == busy_among(slots, n) + (if w < n && entry is Some {
            1nat
        } else {
            0nat
        }),
    decreases n,
{
    if n > 0 {
        lemma_busy_after_update(slots, w, entry, (n - 1) as nat);
    }
}

/// No task is lost or made up. Dispatching takes as many tasks from the
/// queue as it produces commands, and as many more tasks run afterwards. A
/// completion frees one slot and leaves the queue alone.
pub proof fn lemma_tasks_conserved(s: CoordinatorState, w: int, outcome: Outcome, now: u64)
    requires
        s.wf(),
    ensures
        s.dispatch(now).pending.len() + s.dispatch_commands(now).len() == s.pending.len(),
        s.dispatch(now).running_count() == s.running_count() + s.dispatch_commands(now).len(),
        0 <= w < s.slots.len() && s.slots[w] is Some ==> s.complete(
            w,
            outcome,
            now,
        ).running_count() + 1 == s.running_count() && s.complete(w, outcome, now).pending
            == s.pending,
    decreases s.pending.len(),
{
    lemma_first_idle(s.slots, 0);
    if 0 <= w < s.slots.len() && s.slots[w] is Some {
        lemma_busy_after_update(s.slots, w, None, s.slots.len());
    }
    if s.pending.len() > 0 {
        match s.lowest_idle() {
            None => {},
            Some(v) => {
                let a = s.assign(v, now);
                lemma_assign_wf(s, v, now);
                lemma_busy_after_update(
                    s.slots,
                    v,
                    Some(s.pending[0].started(now)),
                    s.slots.len(),
                );
                lemma_tasks_conserved(a, v, outcome, now);
            },
        }
    }
}

} // verus!
