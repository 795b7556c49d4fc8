//! Long-running operations, kept in memory as tasks.

use vstd::prelude::*;
use vstd::string::*;

use crate::clock::{is_iso_time, is_task_id, new_task_id, now_iso};
use crate::json::{
    json_opt_text, json_text, lemma_entry_value, opt_slice, opt_text, text_or_null, Fields, Json,
    JsonView,
};
use crate::order::{
    find_oldest, is_newer, is_newest_first, is_oldest, newest_first, oldest_index, positions,
    sort_newest_first,
};
use crate::text::{law_text_order, same, text_before, texts};

verus! {

/// The number of tasks that are kept.
pub const MAX_TASKS: usize = 100;

// ---------------------------------------------------------------------------
// Tasks
// ---------------------------------------------------------------------------

/// How far a task has come.
#[derive(Debug, Clone, Copy, PartialEq, Eq, Structural)]
pub enum TaskStatus {
    Queued,
    Running,
    Success,
    Failed,
}

impl TaskStatus {
    /// The word for it.
    pub open spec fn word(self) -> Seq<char> {
        match self {
            TaskStatus::Queued => "queued"@,
            TaskStatus::Running => "running"@,
            TaskStatus::Success => "success"@,
            TaskStatus::Failed => "failed"@,
        }
    }

    /// The word for it.
    pub fn as_str(self) -> (r: &'static str)
        ensures
            r@ == self.word(),
    {
        match self {
            TaskStatus::Queued => "queued",
            TaskStatus::Running => "running",
            TaskStatus::Success => "success",
            TaskStatus::Failed => "failed",
        }
    }
}

/// A task.
pub struct Task {
    pub task_id: String,
    pub kind: String,
    pub status: TaskStatus,
    pub payload: Json,
    pub result: Json,
    pub error: Option<String>,
    pub created_at: String,
    pub started_at: Option<String>,
    pub finished_at: Option<String>,
    pub updated_at: String,
}

/// What a [`Task`] stands for.
pub struct TaskView {
    pub task_id: Seq<char>,
    pub kind: Seq<char>,
    pub status: TaskStatus,
    pub payload: JsonView,
    pub result: JsonView,
    pub error: Option<Seq<char>>,
    pub created_at: Seq<char>,
    pub started_at: Option<Seq<char>>,
    pub finished_at: Option<Seq<char>>,
    pub updated_at: Seq<char>,
}

impl View for Task {
    type V = TaskView;

    open spec fn view(&self) -> TaskView {
        TaskView {
            task_id: self.task_id@,
            kind: self.kind@,
            status: self.status,
            payload: self.payload@,
            result: self.result@,
            error: opt_text(self.error),
            created_at: self.created_at@,
            started_at: opt_text(self.started_at),
            finished_at: opt_text(self.finished_at),
            updated_at: self.updated_at@,
        }
    }
}

/// A task that waits for its turn.
pub open spec fn queued(
    task_id: Seq<char>,
    kind: Seq<char>,
    payload: JsonView,
    now: Seq<char>,
) -> TaskView {
    TaskView {
        task_id,
        kind,
        status: TaskStatus::Queued,
        payload,
        result: JsonView::Null,
        error: None,
        created_at: now,
        started_at: None,
        finished_at: None,
        updated_at: now,
    }
}

impl TaskView {
    /// The task, at work since `now`.
    pub open spec fn begun(self, now: Seq<char>) -> TaskView {
        TaskView {
            status: TaskStatus::Running,
            started_at: Some(now),
            updated_at: now,
            ..self
        }
    }

    /// The task, done with a result at `now`.
    pub open spec fn succeeded(self, result: JsonView, now: Seq<char>) -> TaskView {
        TaskView {
            status: TaskStatus::Success,
            result,
            finished_at: Some(now),
            updated_at: now,
            ..self
        }
    }

    /// The task, given up with an error at `now`.
    pub open spec fn failed(self, error: Seq<char>, now: Seq<char>) -> TaskView {
        TaskView {
            status: TaskStatus::Failed,
            error: Some(error),
            finished_at: Some(now),
            updated_at: now,
            ..self
        }
    }

    /// The task as it is reported.
    pub open spec fn report(self) -> JsonView {
        JsonView::Object(
            seq![
                ("task_id"@, JsonView::Str(self.task_id)),
                ("kind"@, JsonView::Str(self.kind)),
                ("status"@, JsonView::Str(self.status.word())),
                ("payload"@, self.payload),
                ("result"@, self.result),
                ("error"@, text_or_null(self.error)),
                ("created_at"@, JsonView::Str(self.created_at)),
                ("started_at"@, text_or_null(self.started_at)),
                ("finished_at"@, text_or_null(self.finished_at)),
                ("updated_at"@, JsonView::Str(self.updated_at)),
            ],
        )
    }
}

impl Task {
    /// A task that waits for its turn.
    pub fn queued(task_id: &str, kind: &str, payload: Json, now: &str) -> (r: Task)
        ensures
            r@ == queued(task_id@, kind@, payload@, now@),
    {
        Task {
            task_id: task_id.to_owned(),
            kind: kind.to_owned(),
            status: TaskStatus::Queued,
            payload,
            result: Json::Null,
            error: None,
            created_at: now.to_owned(),
            started_at: None,
            finished_at: None,
            updated_at: now.to_owned(),
        }
    }

    /// Another task that stands for the same.
    pub fn copy(&self) -> (r: Task)
        ensures
            r@ == self@,
    {
        Task {
            task_id: self.task_id.clone(),
            kind: self.kind.clone(),
            status: self.status,
            payload: self.payload.copy(),
            result: self.result.copy(),
            error: match &self.error {
                Some(s) => Some(s.clone()),
                None => None,
            },
            created_at: self.created_at.clone(),
            started_at: match &self.started_at {
                Some(s) => Some(s.clone()),
                None => None,
            },
            finished_at: match &self.finished_at {
                Some(s) => Some(s.clone()),
                None => None,
            },
            updated_at: self.updated_at.clone(),
        }
    }

    /// The task as it is reported.
    pub fn to_json(&self) -> (r: Json)
        ensures
            r@ == self@.report(),
    {
        let mut fields = Fields::new();
        fields.put("task_id", json_text(self.task_id.as_str()));
        fields.put("kind", json_text(self.kind.as_str()));
        fields.put("status", json_text(self.status.as_str()));
        fields.put("payload", self.payload.copy());
        fields.put("result", self.result.copy());
        fields.put("error", json_opt_text(opt_slice(&self.error)));
        fields.put("created_at", json_text(self.created_at.as_str()));
        fields.put("started_at", json_opt_text(opt_slice(&self.started_at)));
        fields.put("finished_at", json_opt_text(opt_slice(&self.finished_at)));
        fields.put("updated_at", json_text(self.updated_at.as_str()));
        assert(fields@ == self@.report()->Object_0);
        fields.object()
    }
}

// ---------------------------------------------------------------------------
// The store
// ---------------------------------------------------------------------------

/// The tasks that a sequence of [`Task`] stands for.
pub open spec fn task_views(tasks: Seq<Task>) -> Seq<TaskView> {
    tasks.map_values(|t: Task| t@)
}

/// The times at which tasks were made.
pub open spec fn creation_times(tasks: Seq<TaskView>) -> Seq<Seq<char>> {
    tasks.map_values(|t: TaskView| t.created_at)
}

/// Whether no two tasks have the same identifier.
pub open spec fn ids_distinct(tasks: Seq<TaskView>) -> bool {
    forall|i: int, j: int|
        0 <= i < j < tasks.len() ==> (#[trigger] tasks[i]).task_id != (#[trigger] tasks[j]).task_id
}

/// Whether the task with the identifier stands at position `i`.
pub open spec fn task_at(tasks: Seq<TaskView>, task_id: Seq<char>, i: int) -> bool {
    0 <= i < tasks.len() && tasks[i].task_id == task_id
}

/// The position of the task with the identifier.
pub open spec fn index_of_task(tasks: Seq<TaskView>, task_id: Seq<char>) -> int {
    choose|i: int| task_at(tasks, task_id, i)
}

/// The task with the identifier.
pub open spec fn find_task(tasks: Seq<TaskView>, task_id: Seq<char>) -> Option<TaskView> {
    if exists|i: int| task_at(tasks, task_id, i) {
        Some(tasks[index_of_task(tasks, task_id)])
    } else {
        None
    }
}

/// The tasks with `task` among them: in the place of one with the same identifier,
/// or behind the others.
pub open spec fn with_task(tasks: Seq<TaskView>, task: TaskView) -> Seq<TaskView> {
    if exists|i: int| task_at(tasks, task.task_id, i) {
        tasks.update(index_of_task(tasks, task.task_id), task)
    } else {
        tasks.push(task)
    }
}

/// The tasks without the oldest one, where there are too many of them.
pub open spec fn pruned(tasks: Seq<TaskView>) -> Seq<TaskView> {
    if tasks.len() > MAX_TASKS {
        tasks.remove(oldest_index(creation_times(tasks)))
    } else {
        tasks
    }
}

/// The tasks after one was added.
pub open spec fn added(tasks: Seq<TaskView>, task: TaskView) -> Seq<TaskView> {
    pruned(with_task(tasks, task))
}

/// The tasks with `change` made to the one with the identifier, if it is there.
pub open spec fn changed(
    tasks: Seq<TaskView>,
    task_id: Seq<char>,
    change: spec_fn(TaskView) -> TaskView,
) -> Seq<TaskView> {
    if exists|i: int| task_at(tasks, task_id, i) {
        let i = index_of_task(tasks, task_id);
        tasks.update(i, change(tasks[i]))
    } else {
        tasks
    }
}

/// The first `limit` tasks, from the newest to the oldest.
pub open spec fn newest_tasks(tasks: Seq<TaskView>, limit: nat) -> Seq<TaskView> {
    let order = newest_first(creation_times(tasks));
    let n = if order.len() < limit {
        order.len()
    } else {
        limit
    };
    Seq::new(n, |k: int| tasks[order[k]])
}

/// The tasks that are kept: at most [`MAX_TASKS`], no two with the same identifier.
pub struct TaskStore {
    tasks: Vec<Task>,
}

impl View for TaskStore {
    type V = Seq<TaskView>;

    closed spec fn view(&self) -> Seq<TaskView> {
        task_views(self.tasks@)
    }
}

/// A change of the state of a task.
pub enum TaskUpdate {
    Begun,
    Succeeded(Json),
    Failed(String),
}

impl TaskUpdate {
    /// The task after the change at `now`.
    pub open spec fn applied(self, task: TaskView, now: Seq<char>) -> TaskView {
        match self {
            TaskUpdate::Begun => task.begun(now),
            TaskUpdate::Succeeded(result) => task.succeeded(result@, now),
            TaskUpdate::Failed(error) => task.failed(error@, now),
        }
    }
}

impl TaskStore {
    #[verifier::type_invariant]
    spec fn well_formed(self) -> bool {
        self.tasks@.len() <= MAX_TASKS && ids_distinct(task_views(self.tasks@))
    }

    /// No tasks.
    pub fn new() -> (r: Self)
        ensures
            r@ == Seq::<TaskView>::empty(),
    {
        let r = TaskStore { tasks: Vec::new() };
        assert(r@ =~= Seq::<TaskView>::empty());
        r
    }

    /// The number of tasks that are kept.
    pub fn len(&self) -> (r: usize)
        ensures
            r == self@.len(),
            r <= MAX_TASKS,
            ids_distinct(self@),
    {
        proof {
            use_type_invariant(self);
        }
        assert(self@.len() == self.tasks@.len());
        self.tasks.len()
    }

    fn position(tasks: &Vec<Task>, task_id: &str) -> (r: Option<usize>)
        requires
            ids_distinct(task_views(tasks@)),
        ensures
            match r {
                Some(i) => task_at(task_views(tasks@), task_id@, i as int) && i
                    == index_of_task(task_views(tasks@), task_id@),
                None => !(exists|i: int| task_at(task_views(tasks@), task_id@, i)),
            },
    {
        let ghost all = task_views(tasks@);
        let mut i: usize = 0;
        while i < tasks.len()
            invariant
                i <= tasks@.len(),
                all == task_views(tasks@),
                ids_distinct(all),
                forall|j: int| 0 <= j < i ==> !task_at(all, task_id@, j),
            decreases tasks@.len() - i,
        {
            assert(all[i as int] == tasks@[i as int]@);
            if same(tasks[i].task_id.as_str(), task_id) {
                proof {
                    assert(task_at(all, task_id@, i as int));
                    let c = index_of_task(all, task_id@);
                    assert(task_at(all, task_id@, c));
                    assert(c == i) by {
                        if c < i {
                            assert(all[c].task_id != all[i as int].task_id);
                        } else if c > i {
                            assert(all[i as int].task_id != all[c].task_id);
                        }
                    }
                }
                return Some(i);
            }
            i = i + 1;
        }
        None
    }

    /// Adds a task; where there are too many then, the oldest one leaves.
    pub fn add(&mut self, task: Task)
        ensures
            final(self)@ == added(old(self)@, task@),
    {
        proof {
            use_type_invariant(&*self);
        }
        let ghost start = self@;
        let mut tasks: Vec<Task> = Vec::new();
        std::mem::swap(&mut tasks, &mut self.tasks);
        let found = TaskStore::position(&tasks, task.task_id.as_str());
        match found {
            Some(i) => {
                let ghost before = tasks@;
                assert(task_at(start, task@.task_id, i as int));
                assert(i == index_of_task(start, task@.task_id));
                tasks.set(i, task);
                assert(tasks@ == before.update(i as int, task));
                assert(task_views(tasks@) =~= start.update(i as int, task@));
                assert forall|a: int, b: int|
                    0 <= a < b < tasks@.len() implies (#[trigger] task_views(tasks@)[a]).task_id
                    != (#[trigger] task_views(tasks@)[b]).task_id by {
                    assert(start[a].task_id != start[b].task_id);
                }
            },
            None => {
                let ghost before = tasks@;
                assert(!(exists|i: int| task_at(start, task@.task_id, i)));
                tasks.push(task);
                assert(tasks@ == before.push(task));
                assert(task_views(tasks@) =~= start.push(task@));
                assert forall|i: int, j: int|
                    0 <= i < j < tasks@.len() implies (#[trigger] task_views(tasks@)[i]).task_id
                    != (#[trigger] task_views(tasks@)[j]).task_id by {
                    if j == tasks@.len() - 1 {
                        assert(!task_at(start, task@.task_id, i));
                    } else {
                        assert(start[i].task_id != start[j].task_id);
                    }
                }
            },
        }
        let ghost more = task_views(tasks@);
        if tasks.len() > MAX_TASKS {
            let mut times: Vec<String> = Vec::new();
            let mut k: usize = 0;
            while k < tasks.len()
                invariant
                    k <= tasks@.len(),
                    more == task_views(tasks@),
                    texts(times@) == creation_times(more).take(k as int),
                decreases tasks@.len() - k,
            {
                let ghost before = texts(times@);
                times.push(tasks[k].created_at.clone());
                proof {
                    assert(more[k as int] == tasks@[k as int]@);
                    assert(texts(times@) =~= before.push(more[k as int].created_at));
                    assert(creation_times(more).take(k + 1) =~= creation_times(more).take(
                        k as int,
                    ).push(more[k as int].created_at));
                }
                k = k + 1;
            }
            assert(creation_times(more).take(k as int) =~= creation_times(more));
            assert(texts(times@).len() == times@.len());
            let oldest = find_oldest(&times);
            tasks.remove(oldest);
            proof {
                assert(task_views(tasks@) =~= more.remove(oldest as int));
                assert forall|i: int, j: int|
                    0 <= i < j < tasks@.len() implies (#[trigger] task_views(tasks@)[i]).task_id
                    != (#[trigger] task_views(tasks@)[j]).task_id by {
                    let a = if i < oldest {
                        i
                    } else {
                        i + 1
                    };
                    let b = if j < oldest {
                        j
                    } else {
                        j + 1
                    };
                    assert(more[a].task_id != more[b].task_id);
                }
            }
        }
        self.tasks = tasks;
    }

    /// Makes a task with a fresh identifier at the current time, and adds it.
    pub fn create_task(&mut self, kind: &str, payload: Json) -> (r: Task)
        ensures
            r@ == queued(r.task_id@, kind@, payload@, r.created_at@),
            is_task_id(r.task_id@),
            is_iso_time(r.created_at@),
            final(self)@ == added(old(self)@, r@),
    {
        let id = new_task_id();
        let now = now_iso();
        let task = Task::queued(id.as_str(), kind, payload, now.as_str());
        let r = task.copy();
        self.add(task);
        r
    }

    /// Changes the state of a task at `now`, if it is there.
    pub fn update_task(&mut self, task_id: &str, update: TaskUpdate, now: &str)
        ensures
            final(self)@ == changed(
                old(self)@,
                task_id@,
                |t: TaskView| update.applied(t, now@),
            ),
    {
        proof {
            use_type_invariant(&*self);
        }
        let ghost start = self@;
        let ghost change = |t: TaskView| update.applied(t, now@);
        match TaskStore::position(&self.tasks, task_id) {
            Some(i) => {
                let mut tasks: Vec<Task> = Vec::new();
                std::mem::swap(&mut tasks, &mut self.tasks);
                let mut task = tasks[i].copy();
                match update {
                    TaskUpdate::Begun => {
                        task.status = TaskStatus::Running;
                        task.started_at = Some(now.to_owned());
                    },
                    TaskUpdate::Succeeded(result) => {
                        task.status = TaskStatus::Success;
                        task.result = result;
                        task.finished_at = Some(now.to_owned());
                    },
                    TaskUpdate::Failed(error) => {
                        task.status = TaskStatus::Failed;
                        task.error = Some(error);
                        task.finished_at = Some(now.to_owned());
                    },
                }
                task.updated_at = now.to_owned();
                tasks.set(i, task);
                proof {
                    assert(start[i as int] == old(self).tasks@[i as int]@);
                    assert(task@ == change(start[i as int]));
                    assert(task_views(tasks@) =~= start.update(i as int, task@));
                    assert forall|a: int, b: int|
                        0 <= a < b < tasks@.len() implies (#[trigger] task_views(
                        tasks@,
                    )[a]).task_id != (#[trigger] task_views(tasks@)[b]).task_id by {
                        assert(start[a].task_id != start[b].task_id);
                    }
                }
                self.tasks = tasks;
            },
            None => {},
        }
    }

    /// The task with the identifier.
    pub fn get_task(&self, task_id: &str) -> (r: Option<&Task>)
        ensures
            match r {
                Some(t) => find_task(self@, task_id@) == Some(t@),
                None => find_task(self@, task_id@) is None,
            },
    {
        proof {
            use_type_invariant(self);
        }
        match TaskStore::position(&self.tasks, task_id) {
            Some(i) => {
                assert(self@[i as int] == self.tasks@[i as int]@);
                Some(&self.tasks[i])
            },
            None => None,
        }
    }

    /// The first `limit` tasks, from the newest to the oldest.
    pub fn list_tasks(&self, limit: usize) -> (r: Vec<Task>)
        ensures
            task_views(r@) == newest_tasks(self@, limit as nat),
            is_newest_first(newest_first(creation_times(self@)), creation_times(self@)),
    {
        let ghost all = self@;
        let mut times: Vec<String> = Vec::new();
        let mut k: usize = 0;
        while k < self.tasks.len()
            invariant
                k <= self.tasks@.len(),
                all == task_views(self.tasks@),
                texts(times@) == creation_times(all).take(k as int),
            decreases self.tasks@.len() - k,
        {
            let ghost before = texts(times@);
            times.push(self.tasks[k].created_at.clone());
            proof {
                assert(all[k as int] == self.tasks@[k as int]@);
                assert(texts(times@) =~= before.push(all[k as int].created_at));
                assert(creation_times(all).take(k + 1) =~= creation_times(all).take(
                    k as int,
                ).push(all[k as int].created_at));
            }
            k = k + 1;
        }
        assert(creation_times(all).take(k as int) =~= creation_times(all));
        let order = sort_newest_first(&times);
        let ghost goal = newest_tasks(all, limit as nat);
        let mut out: Vec<Task> = Vec::new();
        let mut i: usize = 0;
        while i < order.len() && i < limit
            invariant
                i <= order@.len(),
                i <= limit,
                all == task_views(self.tasks@),
                positions(order@) == newest_first(creation_times(all)),
                forall|a: int| 0 <= a < order@.len() ==> #[trigger] positions(order@)[a] < all.len(),
                goal == newest_tasks(all, limit as nat),
                out@.len() == i,
                forall|a: int| 0 <= a < i ==> (#[trigger] out@[a])@ == goal[a],
            decreases limit - i,
        {
            assert(positions(order@)[i as int] == order@[i as int]);
            out.push(self.tasks[order[i]].copy());
            i = i + 1;
        }
        assert(positions(order@).len() == order@.len());
        assert(task_views(out@) =~= goal);
        out
    }
}

// ---------------------------------------------------------------------------
// Laws
// ---------------------------------------------------------------------------

proof fn lemma_found(tasks: Seq<TaskView>, task_id: Seq<char>, i: int)
    requires
        ids_distinct(tasks),
        task_at(tasks, task_id, i),
    ensures
        find_task(tasks, task_id) == Some(tasks[i]),
{
    let c = index_of_task(tasks, task_id);
    assert(task_at(tasks, task_id, c));
    if c < i {
        assert(tasks[c].task_id != tasks[i].task_id);
    } else if i < c {
        assert(tasks[i].task_id != tasks[c].task_id);
    }
}

/// Adding a task keeps what the store promises: no two tasks with the same
/// identifier, and no more of them than [`MAX_TASKS`].
pub proof fn law_add_keeps_bounds(tasks: Seq<TaskView>, task: TaskView)
    requires
        ids_distinct(tasks),
        tasks.len() <= MAX_TASKS,
    ensures
        ids_distinct(added(tasks, task)),
        added(tasks, task).len() <= MAX_TASKS,
{
    let more = with_task(tasks, task);
    lemma_with_task(tasks, task);
    if more.len() > MAX_TASKS {
        let t = creation_times(more);
        lemma_oldest_exists(t);
        let o = oldest_index(t);
        assert(is_oldest(t, o));
        let less = more.remove(o);
        assert forall|i: int, j: int| 0 <= i < j < less.len() implies (#[trigger] less[i]).task_id
            != (#[trigger] less[j]).task_id by {
            let a = if i < o {
                i
            } else {
                i + 1
            };
            let b = if j < o {
                j
            } else {
                j + 1
            };
            assert(more[a].task_id != more[b].task_id);
        }
    }
}

proof fn lemma_with_task(tasks: Seq<TaskView>, task: TaskView)
    requires
        ids_distinct(tasks),
    ensures
        ids_distinct(with_task(tasks, task)),
        with_task(tasks, task).len() <= tasks.len() + 1,
        exists|i: int| task_at(with_task(tasks, task), task.task_id, i) && with_task(
            tasks,
            task,
        )[i] == task,
{
    let more = with_task(tasks, task);
    if exists|i: int| task_at(tasks, task.task_id, i) {
        let c = index_of_task(tasks, task.task_id);
        assert(task_at(more, task.task_id, c));
        assert forall|i: int, j: int| 0 <= i < j < more.len() implies (#[trigger] more[i]).task_id
            != (#[trigger] more[j]).task_id by {
            assert(tasks[i].task_id != tasks[j].task_id);
        }
    } else {
        let n = tasks.len() as int;
        assert(task_at(more, task.task_id, n));
        assert forall|i: int, j: int| 0 <= i < j < more.len() implies (#[trigger] more[i]).task_id
            != (#[trigger] more[j]).task_id by {
            if j == n {
                assert(!task_at(tasks, task.task_id, i));
            } else {
                assert(tasks[i].task_id != tasks[j].task_id);
            }
        }
    }
}

proof fn lemma_oldest_exists(times: Seq<Seq<char>>)
    requires
        times.len() > 0,
    ensures
        exists|i: int| is_oldest(times, i),
    decreases times.len(),
{
    if times.len() == 1 {
        assert(is_oldest(times, 0));
    } else {
        let t = times.drop_last();
        let n = t.len() as int;
        lemma_oldest_exists(t);
        let b = choose|i: int| is_oldest(t, i);
        if text_before(times[n], times[b]) {
            assert forall|j: int| 0 <= j < n implies text_before(times[n], #[trigger] times[j]) by {
                law_text_order(times[n], times[b], times[j]);
                law_text_order(times[j], times[b], times[n]);
                if j < b {
                    assert(text_before(t[b], t[j]));
                } else if j > b {
                    assert(!text_before(t[j], t[b]));
                }
            }
            assert(is_oldest(times, n));
        } else {
            assert forall|j: int| 0 <= j < b implies text_before(times[b], #[trigger] times[j]) by {
                assert(text_before(t[b], t[j]));
            }
            assert forall|j: int| b < j < times.len() implies !text_before(
                #[trigger] times[j],
                times[b],
            ) by {
                if j < n {
                    assert(!text_before(t[j], t[b]));
                }
            }
            assert(is_oldest(times, b));
        }
    }
}

/// The tasks after one was added are that one and tasks that were there.
pub proof fn lemma_added_from(tasks: Seq<TaskView>, task: TaskView)
    requires
        tasks.len() <= MAX_TASKS,
    ensures
        forall|i: int|
            0 <= i < added(tasks, task).len() ==> (#[trigger] added(tasks, task)[i]) == task
                || tasks.contains(added(tasks, task)[i]),
{
    let with = with_task(tasks, task);
    if exists|i: int| task_at(tasks, task.task_id, i) {
        let k = index_of_task(tasks, task.task_id);
        assert(task_at(tasks, task.task_id, k));
        assert forall|i: int| 0 <= i < with.len() implies (#[trigger] with[i]) == task
            || tasks.contains(with[i]) by {
            if i != k {
                assert(with[i] == tasks[i]);
            }
        }
    } else {
        assert forall|i: int| 0 <= i < with.len() implies (#[trigger] with[i]) == task
            || tasks.contains(with[i]) by {
            if i < tasks.len() {
                assert(with[i] == tasks[i]);
            }
        }
    }
    if with.len() > MAX_TASKS {
        let o = oldest_index(creation_times(with));
        let all = added(tasks, task);
        lemma_oldest_exists(creation_times(with));
        assert forall|i: int| 0 <= i < all.len() implies (#[trigger] all[i]) == task
            || tasks.contains(all[i]) by {
            if i < o {
                assert(all[i] == with[i]);
            } else {
                assert(all[i] == with[i + 1]);
            }
        }
    }
}

/// A task that was added is found under its identifier, as long as it is not older
/// than the tasks that are there.
pub proof fn law_added_task_found(tasks: Seq<TaskView>, task: TaskView)
    requires
        ids_distinct(tasks),
        tasks.len() <= MAX_TASKS,
        forall|i: int|
            0 <= i < tasks.len() ==> !text_before(task.created_at, (#[trigger] tasks[i]).created_at),
    ensures
        find_task(added(tasks, task), task.task_id) == Some(task),
{
    let more = with_task(tasks, task);
    lemma_with_task(tasks, task);
    law_add_keeps_bounds(tasks, task);
    let p = choose|i: int| task_at(more, task.task_id, i) && more[i] == task;
    let after = added(tasks, task);
    if more.len() > MAX_TASKS {
        let t = creation_times(more);
        lemma_oldest_exists(t);
        let o = oldest_index(t);
        assert(is_oldest(t, o));
        assert(more[tasks.len() as int].task_id == task.task_id);
        assert(p == tasks.len()) by {
            if p < tasks.len() {
                assert(more[p].task_id != more[tasks.len() as int].task_id);
            }
        }
        if o == p {
            assert(text_before(t[p], t[0]));
            assert(t[0] == tasks[0].created_at);
            assert(false);
        }
        let q = if p < o {
            p
        } else {
            p - 1
        };
        assert(after[q] == task);
        assert(task_at(after, task.task_id, q));
        lemma_found(after, task.task_id, q);
    } else {
        lemma_found(after, task.task_id, p);
    }
}

/// A change of a task is what is found of it, a task that is not there is not made
/// by it, and every other task stays as it is.
pub proof fn law_change_read_back(
    tasks: Seq<TaskView>,
    task_id: Seq<char>,
    change: spec_fn(TaskView) -> TaskView,
    other: Seq<char>,
)
    requires
        ids_distinct(tasks),
        forall|t: TaskView| (#[trigger] change(t)).task_id == t.task_id,
    ensures
        find_task(changed(tasks, task_id, change), task_id) == match find_task(tasks, task_id) {
            Some(t) => Some(change(t)),
            None => None,
        },
        other != task_id ==> find_task(changed(tasks, task_id, change), other) == find_task(
            tasks,
            other,
        ),
        ids_distinct(changed(tasks, task_id, change)),
{
    let after = changed(tasks, task_id, change);
    if exists|i: int| task_at(tasks, task_id, i) {
        let c = index_of_task(tasks, task_id);
        assert forall|i: int, j: int| 0 <= i < j < after.len() implies (#[trigger] after[i]).task_id
            != (#[trigger] after[j]).task_id by {
            assert(tasks[i].task_id != tasks[j].task_id);
        }
        assert(task_at(after, task_id, c));
        lemma_found(after, task_id, c);
        assert forall|i: int| task_at(after, other, i) == task_at(tasks, other, i) by {}
        if other != task_id {
            if exists|i: int| task_at(tasks, other, i) {
                let d = index_of_task(tasks, other);
                assert(task_at(after, other, d));
                lemma_found(after, other, d);
                lemma_found(tasks, other, d);
            } else {
                assert(!(exists|i: int| task_at(after, other, i)));
            }
        }
    }
}

/// A task goes from waiting to work, and from work to success or failure: after each
/// update it reports the state that the update names, its identifier, its kind, its
/// payload and the time at which it was made stay, and a result or an error is
/// there only after the update that brings it.
pub proof fn law_task_life(
    task_id: Seq<char>,
    kind: Seq<char>,
    payload: JsonView,
    t0: Seq<char>,
    t1: Seq<char>,
    t2: Seq<char>,
    result: JsonView,
    error: Seq<char>,
)
    ensures
        ({
            let waiting = queued(task_id, kind, payload, t0);
            let working = waiting.begun(t1);
            let done = working.succeeded(result, t2);
            let lost = working.failed(error, t2);
            &&& waiting.status is Queued && waiting.result is Null && waiting.error is None
            &&& working.status is Running && working.result is Null && working.error is None
            &&& working.started_at == Some(t1) && working.finished_at is None
            &&& done.status is Success && done.result == result && done.error is None
            &&& lost.status is Failed && lost.result is Null && lost.error == Some(error)
            &&& done.started_at == Some(t1) && done.finished_at == Some(t2)
            &&& lost.started_at == Some(t1) && lost.finished_at == Some(t2)
            &&& done.task_id == task_id && done.kind == kind && done.payload == payload
            &&& lost.task_id == task_id && lost.kind == kind && lost.payload == payload
            &&& done.created_at == t0 && lost.created_at == t0
        }),
{
}

/// A task waits first; then it runs, since the time at which it began; and then it has
/// succeeded, with its result, or failed, with its error, at the time at which it ended. None
/// of this changes what the task is, nor when it was made.
pub proof fn law_task_stages(
    id: Seq<char>,
    kind: Seq<char>,
    payload: JsonView,
    t0: Seq<char>,
    t1: Seq<char>,
    t2: Seq<char>,
    result: JsonView,
    error: Seq<char>,
)
    ensures
        ({
            let waits = queued(id, kind, payload, t0);
            let runs = waits.begun(t1);
            let done = runs.succeeded(result, t2);
            let lost = runs.failed(error, t2);
            &&& waits.status is Queued && waits.started_at is None && waits.finished_at is None
            &&& waits.result is Null && waits.error is None && waits.updated_at == t0
            &&& runs.status is Running && runs.started_at == Some(t1) && runs.finished_at is None
            &&& runs.updated_at == t1 && runs.result is Null && runs.error is None
            &&& done.status is Success && done.result == result && done.error is None
            &&& done.started_at == Some(t1) && done.finished_at == Some(t2) && done.updated_at == t2
            &&& lost.status is Failed && lost.error == Some(error) && lost.result is Null
            &&& lost.started_at == Some(t1) && lost.finished_at == Some(t2) && lost.updated_at == t2
            &&& waits.task_id == id && runs.task_id == id && done.task_id == id && lost.task_id
                == id
            &&& waits.kind == kind && runs.kind == kind && done.kind == kind && lost.kind == kind
            &&& waits.payload == payload && runs.payload == payload && done.payload == payload
                && lost.payload == payload
            &&& waits.created_at == t0 && runs.created_at == t0 && done.created_at == t0
                && lost.created_at == t0
        }),
{
}

/// The report on a task shows each of its parts under its own name, and its stage in a word.
pub proof fn law_task_reported(t: TaskView)
    ensures
        ({
            let told = t.report();
            &&& told.get("task_id"@) == Some(JsonView::Str(t.task_id))
            &&& told.get("kind"@) == Some(JsonView::Str(t.kind))
            &&& told.get("status"@) == Some(
                JsonView::Str(
                    match t.status {
                        TaskStatus::Queued => "queued"@,
                        TaskStatus::Running => "running"@,
                        TaskStatus::Success => "success"@,
                        TaskStatus::Failed => "failed"@,
                    },
                ),
            )
            &&& told.get("payload"@) == Some(t.payload)
            &&& told.get("result"@) == Some(t.result)
            &&& told.get("error"@) == Some(text_or_null(t.error))
            &&& told.get("created_at"@) == Some(JsonView::Str(t.created_at))
            &&& told.get("started_at"@) == Some(text_or_null(t.started_at))
            &&& told.get("finished_at"@) == Some(text_or_null(t.finished_at))
            &&& told.get("updated_at"@) == Some(JsonView::Str(t.updated_at))
        }),
{
    let entries = t.report()->Object_0;
    reveal_strlit("task_id");
    assert("task_id"@.len() == 7);
    reveal_strlit("kind");
    assert("kind"@.len() == 4);
    reveal_strlit("status");
    assert("status"@.len() == 6);
    reveal_strlit("payload");
    assert("payload"@.len() == 7);
    reveal_strlit("result");
    assert("result"@.len() == 6);
    reveal_strlit("error");
    assert("error"@.len() == 5);
    reveal_strlit("created_at");
    assert("created_at"@.len() == 10);
    reveal_strlit("started_at");
    assert("started_at"@.len() == 10);
    reveal_strlit("finished_at");
    assert("finished_at"@.len() == 11);
    reveal_strlit("updated_at");
    assert("updated_at"@.len() == 10);
    assert("task_id"@[0] != "payload"@[0]);
    assert("status"@[0] != "result"@[0]);
    assert("created_at"@[0] != "started_at"@[0]);
    assert("created_at"@[0] != "updated_at"@[0]);
    assert("started_at"@[0] != "updated_at"@[0]);
    lemma_entry_value(entries, "task_id"@, 0);
    lemma_entry_value(entries, "kind"@, 1);
    lemma_entry_value(entries, "status"@, 2);
    lemma_entry_value(entries, "payload"@, 3);
    lemma_entry_value(entries, "result"@, 4);
    lemma_entry_value(entries, "error"@, 5);
    lemma_entry_value(entries, "created_at"@, 6);
    lemma_entry_value(entries, "started_at"@, 7);
    lemma_entry_value(entries, "finished_at"@, 8);
    lemma_entry_value(entries, "updated_at"@, 9);
}

/// A new task is put behind the others. A hundred tasks are kept at most: the one that then
/// leaves is one that no other was made before, and every other one stays.
pub proof fn law_oldest_leaves(tasks: Seq<TaskView>, task: TaskView)
    requires
        ids_distinct(tasks),
        tasks.len() <= 100,
        forall|i: int| 0 <= i < tasks.len() ==> (#[trigger] tasks[i]).task_id != task.task_id,
    ensures
        tasks.len() < 100 ==> added(tasks, task) == tasks.push(task),
        tasks.len() == 100 ==> exists|o: int|
            0 <= o <= 100 && added(tasks, task) == #[trigger] tasks.push(task).remove(o) && forall|
                i: int,
            |
                0 <= i <= 100 ==> !text_before(
                    (#[trigger] tasks.push(task)[i]).created_at,
                    tasks.push(task)[o].created_at,
                ),
{
    let more = tasks.push(task);
    assert(!(exists|i: int| task_at(tasks, task.task_id, i)));
    assert(with_task(tasks, task) == more);
    if tasks.len() == 100 {
        let times = creation_times(more);
        lemma_oldest_exists(times);
        let o = oldest_index(times);
        assert(is_oldest(times, o));
        assert forall|i: int| 0 <= i <= 100 implies !text_before(
            (#[trigger] more[i]).created_at,
            more[o].created_at,
        ) by {
            assert(times[i] == more[i].created_at && times[o] == more[o].created_at);
            law_text_order(times[o], times[i], times[o]);
        }
        assert(added(tasks, task) == more.remove(o));
    }
}

/// The list of tasks holds as many as are asked for, or all, each of them one that is kept,
/// and the later ones first.
pub proof fn law_tasks_listed(store: &TaskStore, limit: usize, r: Vec<Task>, a: int, b: int)
    requires
        call_ensures(TaskStore::list_tasks, (store, limit), r),
        0 <= a < b < r@.len(),
    ensures
        r@.len() == if store@.len() < limit {
            store@.len()
        } else {
            limit as nat
        },
        store@.contains(r@[a]@),
        r@[a]@.created_at == r@[b]@.created_at || text_before(
            r@[b]@.created_at,
            r@[a]@.created_at,
        ),
{
    let all = store@;
    let times = creation_times(all);
    let order = newest_first(times);
    let listed = task_views(r@);
    assert(listed == newest_tasks(all, limit as nat));
    assert(is_newest_first(order, times));
    assert(listed[a] == r@[a]@ && listed[b] == r@[b]@);
    assert(is_newer(times, order[a], order[b]));
    assert(listed[a] == all[order[a]] && listed[b] == all[order[b]]);
    assert(times[order[a]] == all[order[a]].created_at);
    assert(times[order[b]] == all[order[b]].created_at);
}

} // verus!
