//! The one worker that does tasks, one after the other.

use vstd::prelude::*;
use vstd::string::*;

use crate::json::{opt_text, Json, JsonView};
use crate::tasks::{
    added, changed, find_task, ids_distinct, index_of_task, law_add_keeps_bounds,
    law_change_read_back, lemma_added_from, task_at, MAX_TASKS, TaskStore, TaskUpdate, TaskView,
};

verus! {

/// The identifier of the task that is at work, if one is.
pub struct WorkSlot {
    active: Option<String>,
}

impl View for WorkSlot {
    type V = Option<Seq<char>>;

    closed spec fn view(&self) -> Option<Seq<char>> {
        opt_text(self.active)
    }
}

/// The tasks and the one of them that is at work.
pub struct WorkView {
    pub active: Option<Seq<char>>,
    pub tasks: Seq<TaskView>,
}

/// What becomes of a task that was at work.
pub open spec fn ended(
    task: TaskView,
    outcome: Result<JsonView, Seq<char>>,
    now: Seq<char>,
) -> TaskView {
    match outcome {
        Ok(result) => task.succeeded(result, now),
        Err(error) => task.failed(error, now),
    }
}

/// A task begins only where none is at work; otherwise it goes on waiting.
pub open spec fn after_begin(w: WorkView, task_id: Seq<char>, now: Seq<char>) -> WorkView {
    if w.active is Some {
        w
    } else {
        WorkView {
            active: Some(task_id),
            tasks: changed(w.tasks, task_id, |t: TaskView| t.begun(now)),
        }
    }
}

/// The task that is at work ends, and the next one can begin.
pub open spec fn after_end(
    w: WorkView,
    outcome: Result<JsonView, Seq<char>>,
    now: Seq<char>,
) -> WorkView {
    match w.active {
        Some(task_id) => WorkView {
            active: None,
            tasks: changed(w.tasks, task_id, |t: TaskView| ended(t, outcome, now)),
        },
        None => w,
    }
}

/// The task that is at work is left as it is, and the next one can begin.
pub open spec fn after_abandon(w: WorkView) -> WorkView {
    WorkView { active: None, ..w }
}

/// What the outcome of a worker stands for.
pub open spec fn outcome_view(outcome: Result<Json, String>) -> Result<JsonView, Seq<char>> {
    match outcome {
        Ok(result) => Ok(result@),
        Err(error) => Err(error@),
    }
}

impl WorkSlot {
    /// No task is at work.
    pub fn new() -> (r: Self)
        ensures
            r@ is None,
    {
        WorkSlot { active: None }
    }

    /// Begins a task where none is at work, and tells whether it did.
    pub fn begin_task(&mut self, tasks: &mut TaskStore, task_id: &str, now: &str) -> (r: bool)
        ensures
            r == (old(self)@ is None),
            (WorkView { active: final(self)@, tasks: final(tasks)@ }) == after_begin(
                WorkView { active: old(self)@, tasks: old(tasks)@ },
                task_id@,
                now@,
            ),
    {
        if self.active.is_some() {
            return false;
        }
        let update = TaskUpdate::Begun;
        assert((|t: TaskView| update.applied(t, now@)) =~= (|t: TaskView| t.begun(now@)));
        tasks.update_task(task_id, update, now);
        self.active = Some(task_id.to_owned());
        true
    }

    /// Ends the task that is at work, with its result or its error.
    pub fn end_task(&mut self, tasks: &mut TaskStore, outcome: Result<Json, String>, now: &str)
        ensures
            (WorkView { active: final(self)@, tasks: final(tasks)@ }) == after_end(
                WorkView { active: old(self)@, tasks: old(tasks)@ },
                outcome_view(outcome),
                now@,
            ),
    {
        let ghost goal = outcome_view(outcome);
        let mut active: Option<String> = None;
        std::mem::swap(&mut active, &mut self.active);
        match active {
            Some(task_id) => {
                let update = match outcome {
                    Ok(result) => TaskUpdate::Succeeded(result),
                    Err(error) => TaskUpdate::Failed(error),
                };
                assert((|t: TaskView| update.applied(t, now@)) =~= (|t: TaskView|
                    ended(t, goal, now@)));
                tasks.update_task(task_id.as_str(), update, now);
            },
            None => {},
        }
    }

    /// Lets the next task begin after a worker that did not come back; its task stays
    /// as it is.
    pub fn abandon_task(&mut self)
        ensures
            final(self)@ is None,
    {
        self.active = None;
    }
}

// ---------------------------------------------------------------------------
// Laws
// ---------------------------------------------------------------------------

/// Whether a task is shown as running only where it is the one at work, or its worker
/// did not come back: `left` are the tasks of such workers.
pub open spec fn one_at_work(w: WorkView, left: Set<Seq<char>>) -> bool {
    &&& ids_distinct(w.tasks)
    &&& w.tasks.len() <= MAX_TASKS
    &&& forall|i: int|
        0 <= i < w.tasks.len() && (#[trigger] w.tasks[i]).status is Running ==> w.active == Some(
            w.tasks[i].task_id,
        ) || left.contains(w.tasks[i].task_id)
}

/// The tasks whose workers did not come back, once the one at work is such a task.
pub open spec fn left_after(w: WorkView, left: Set<Seq<char>>) -> Set<Seq<char>> {
    match w.active {
        Some(task_id) => left.insert(task_id),
        None => left,
    }
}

/// At any time one worker runs at most. It is so before there are tasks, and stays so
/// when a waiting task is added, when one is to begin, and when the one at work ends; a
/// task that is to begin while another is at work changes nothing, so it goes on waiting.
/// Where the worker does not come back, its task stays as it is shown, and the next one
/// can begin all the same; only such tasks are shown as running without being at work.
pub proof fn law_one_worker(
    w: WorkView,
    left: Set<Seq<char>>,
    task: TaskView,
    task_id: Seq<char>,
    outcome: Result<JsonView, Seq<char>>,
    now: Seq<char>,
)
    requires
        one_at_work(w, left),
        task.status is Queued,
    ensures
        one_at_work(WorkView { active: None, tasks: Seq::empty() }, Set::empty()),
        one_at_work(WorkView { tasks: added(w.tasks, task), ..w }, left),
        one_at_work(after_begin(w, task_id, now), left),
        one_at_work(after_end(w, outcome, now), left),
        one_at_work(after_abandon(w), left_after(w, left)),
        w.active is Some ==> after_begin(w, task_id, now) == w,
        after_abandon(w).tasks == w.tasks,
        after_begin(after_abandon(w), task_id, now).active == Some(task_id),
        forall|i: int, j: int|
            0 <= i < w.tasks.len() && 0 <= j < w.tasks.len() && (#[trigger] w.tasks[i]).status
                is Running && (#[trigger] w.tasks[j]).status is Running && !left.contains(
                w.tasks[i].task_id,
            ) && !left.contains(w.tasks[j].task_id) ==> i == j,
{
    law_add_keeps_bounds(w.tasks, task);
    lemma_added_from(w.tasks, task);
    let with = added(w.tasks, task);
    assert forall|i: int| 0 <= i < with.len() && (#[trigger] with[i]).status is Running implies
        w.active == Some(with[i].task_id) || left.contains(with[i].task_id) by {
        assert(with[i] == task || w.tasks.contains(with[i]));
        let k = choose|k: int| 0 <= k < w.tasks.len() && w.tasks[k] == with[i];
        assert(w.tasks[k].status is Running);
    }
    if w.active is None {
        let change = |t: TaskView| t.begun(now);
        law_change_read_back(w.tasks, task_id, change, task_id);
        let after = changed(w.tasks, task_id, change);
        if exists|i: int| task_at(w.tasks, task_id, i) {
            let k = index_of_task(w.tasks, task_id);
            assert(task_at(w.tasks, task_id, k));
            assert forall|i: int| 0 <= i < after.len() && (#[trigger] after[i]).status is Running
                implies after[i].task_id == task_id || left.contains(after[i].task_id) by {
                if i != k {
                    assert(after[i] == w.tasks[i]);
                }
            }
        }
    } else {
        let id = w.active->0;
        let change = |t: TaskView| ended(t, outcome, now);
        law_change_read_back(w.tasks, id, change, id);
        let after = changed(w.tasks, id, change);
        if exists|i: int| task_at(w.tasks, id, i) {
            let k = index_of_task(w.tasks, id);
            assert(task_at(w.tasks, id, k));
            assert forall|i: int| 0 <= i < after.len() && (#[trigger] after[i]).status is Running
                implies left.contains(after[i].task_id) by {
                if i != k {
                    assert(after[i] == w.tasks[i]);
                    if i < k {
                        assert(w.tasks[i].task_id != w.tasks[k].task_id);
                    } else {
                        assert(w.tasks[k].task_id != w.tasks[i].task_id);
                    }
                }
            }
        } else {
            assert forall|i: int| 0 <= i < after.len() && (#[trigger] after[i]).status is Running
                implies left.contains(after[i].task_id) by {
                assert(!task_at(w.tasks, id, i));
            }
        }
    }
    assert forall|i: int, j: int|
        0 <= i < w.tasks.len() && 0 <= j < w.tasks.len() && (#[trigger] w.tasks[i]).status
            is Running && (#[trigger] w.tasks[j]).status is Running && !left.contains(
            w.tasks[i].task_id,
        ) && !left.contains(w.tasks[j].task_id) implies i == j by {
        if i < j {
            assert(w.tasks[i].task_id != w.tasks[j].task_id);
        } else if j < i {
            assert(w.tasks[j].task_id != w.tasks[i].task_id);
        }
    }
}

/// A task that waits and gets its turn ends with what its worker gave: with the result
/// and no error, or with the error and no result, and with the times at which it began
/// and ended.
pub proof fn law_work_outcome(
    tasks: Seq<TaskView>,
    task_id: Seq<char>,
    outcome: Result<JsonView, Seq<char>>,
    t1: Seq<char>,
    t2: Seq<char>,
)
    requires
        ids_distinct(tasks),
        find_task(tasks, task_id) matches Some(t) && t.status is Queued && t.result is Null
            && t.error is None,
    ensures
        ({
            let begun = after_begin(WorkView { active: None, tasks }, task_id, t1);
            let done = after_end(begun, outcome, t2);
            &&& done.active is None
            &&& find_task(begun.tasks, task_id) matches Some(b) && b.status is Running
                && b.started_at == Some(t1)
            &&& find_task(done.tasks, task_id) matches Some(d) && d.started_at == Some(t1)
                && d.finished_at == Some(t2) && match outcome {
                Ok(v) => d.status is Success && d.result == v && d.error is None,
                Err(e) => d.status is Failed && d.error == Some(e) && d.result is Null,
            }
        }),
{
    let begin = |t: TaskView| t.begun(t1);
    let end = |t: TaskView| ended(t, outcome, t2);
    law_change_read_back(tasks, task_id, begin, task_id);
    law_change_read_back(changed(tasks, task_id, begin), task_id, end, task_id);
}

} // verus!
