use crate::task::{Task, TaskId, TaskModel};
use vstd::prelude::*;

verus! {

/// The abstract value of the store: the counter that issues identifiers and
/// the (owner, task) records in order of creation.
pub struct TasksModel {
    pub next_id: TaskId,
    pub records: Seq<(Seq<char>, TaskModel)>,
}

/// The tasks among `records` that belong to `owner`, in order of creation.
pub open spec fn owned_by(records: Seq<(Seq<char>, TaskModel)>, owner: Seq<char>) -> Seq<TaskModel>
    decreases records.len(),
{
    if records.len() == 0 {
        Seq::empty()
    } else {
        let prev = owned_by(records.drop_last(), owner);
        if records.last().0 == owner {
            prev.push(records.last().1)
        } else {
            prev
        }
    }
}

/// The abstract values of a sequence of tasks.
pub open spec fn task_views(s: Seq<Task>) -> Seq<TaskModel> {
    s.map_values(|t: Task| t@)
}

/// The abstract values of (owner, task) pairs.
pub open spec fn entry_views(s: Seq<(String, Task)>) -> Seq<(Seq<char>, TaskModel)> {
    s.map_values(|e: (String, Task)| (e.0@, e.1@))
}

impl TasksModel {
    /// Identifiers increase in order of creation and stay below the counter,
    /// so no identifier is held twice or issued again.
    pub open spec fn wf(self) -> bool {
        &&& forall|i: int, j: int|
            0 <= i < j < self.records.len() ==> (#[trigger] self.records[i]).1.id < (
            #[trigger] self.records[j]).1.id
        &&& forall|i: int| 0 <= i < self.records.len() ==> (#[trigger] self.records[i]).1.id < self.next_id
    }

    pub open spec fn has_id(self, id: TaskId) -> bool {
        exists|i: int| 0 <= i < self.records.len() && (#[trigger] self.records[i]).1.id == id
    }

    pub open spec fn position_of(self, id: TaskId) -> int {
        choose|i: int| 0 <= i < self.records.len() && (#[trigger] self.records[i]).1.id == id
    }

    pub open spec fn task_with_id(self, id: TaskId) -> Option<TaskModel> {
        if self.has_id(id) {
            Some(self.records[self.position_of(id)].1)
        } else {
            None
        }
    }

    pub open spec fn tasks_of(self, owner: Seq<char>) -> Seq<TaskModel> {
        owned_by(self.records, owner)
    }

    pub open spec fn all_tasks(self) -> Seq<TaskModel> {
        self.records.map_values(|r: (Seq<char>, TaskModel)| r.1)
    }

    /// The store after `owner` creates a task: it takes the counter's value as
    /// its identifier, and the counter moves on by one.
    pub open spec fn after_create(
        self,
        owner: Seq<char>,
        text: Seq<char>,
        day: Seq<char>,
        reminder: bool,
    ) -> TasksModel {
        TasksModel {
            next_id: (self.next_id + 1) as TaskId,
            records: self.records.push(
                (owner, TaskModel { id: self.next_id, text: text, day: day, reminder: reminder }),
            ),
        }
    }

    /// The store after the task `id` is deleted; unchanged where no task has it.
    pub open spec fn after_delete(self, id: TaskId) -> TasksModel {
        if self.has_id(id) {
            TasksModel { next_id: self.next_id, records: self.records.remove(self.position_of(id)) }
        } else {
            self
        }
    }
}

/// Removing one record keeps the identifiers in increasing order.
proof fn lemma_remove_keeps_wf(m: TasksModel, k: int)
    requires
        m.wf(),
        0 <= k < m.records.len(),
    ensures
        (TasksModel { next_id: m.next_id, records: m.records.remove(k) }).wf(),
{
    let r = m.records.remove(k);
    assert forall|i: int, j: int| 0 <= i < j < r.len() implies (#[trigger] r[i]).1.id < (
    #[trigger] r[j]).1.id by {
        let oi = if i < k { i } else { i + 1 };
        let oj = if j < k { j } else { j + 1 };
        assert(r[i] == m.records[oi]);
        assert(r[j] == m.records[oj]);
    }
    assert forall|i: int| 0 <= i < r.len() implies (#[trigger] r[i]).1.id < m.next_id by {
        let oi = if i < k { i } else { i + 1 };
        assert(r[i] == m.records[oi]);
    }
}

/// In a well-formed store the record at `k` is the one `position_of` picks.
proof fn lemma_position_unique(m: TasksModel, k: int)
    requires
        m.wf(),
        0 <= k < m.records.len(),
    ensures
        m.has_id(m.records[k].1.id),
        m.position_of(m.records[k].1.id) == k,
{
    let id = m.records[k].1.id;
    assert(m.has_id(id));
    let p = m.position_of(id);
    assert(m.records[p].1.id == id);
    if p < k {
        assert(m.records[p].1.id < m.records[k].1.id);
    } else if p > k {
        assert(m.records[k].1.id < m.records[p].1.id);
    }
}

/// The task store: the counter that issues identifiers, and each task
/// beside the owner who created it, in order of creation.
pub struct Tasks {
    next_task_id: TaskId,
    tasks: Vec<(String, Task)>,
}

impl View for Tasks {
    type V = TasksModel;

    closed spec fn view(&self) -> TasksModel {
        TasksModel {
            next_id: self.next_task_id,
            records: entry_views(self.tasks@),
        }
    }
}

impl Default for Tasks {
    fn default() -> (r: Self)
        ensures
            r@ == (TasksModel { next_id: 0, records: Seq::empty() }),
            r.wf(),
    {
        Tasks::new()
    }
}

impl Tasks {
    /// The store's invariant: that of its abstract value.
    pub open spec fn wf(&self) -> bool {
        self@.wf()
    }

    /// An empty store whose counter starts at zero.
    pub fn new() -> (r: Self)
        ensures
            r@ == (TasksModel { next_id: 0, records: Seq::empty() }),
            r.wf(),
    {
        let r = Tasks { next_task_id: 0, tasks: Vec::new() };
        assert(r@.records =~= Seq::empty());
        r
    }

    /// Creates a task owned by `account_id` and returns its identifier, the
    /// counter's value before the call.
    pub fn create_task(&mut self, account_id: String, text: String, day: String, reminder: bool) -> (r:
        TaskId)
        requires
            old(self).wf(),
            old(self)@.next_id < usize::MAX,
        ensures
            r == old(self)@.next_id,
            final(self)@ == old(self)@.after_create(account_id@, text@, day@, reminder),
            final(self).wf(),
    {
        let task_id = self.get_next_task_id();
        let task = Task::new(task_id, text, day, reminder);
        self.next_task_id = self.increase_post_id();
        self.tasks.push((account_id, task));
        assert(self@.records =~= old(self)@.after_create(account_id@, text@, day@, reminder).records);
        task_id
    }

    /// The tasks of `account_id`, in order of creation; empty for an unknown owner.
    pub fn get_user_tasks(&self, account_id: String) -> (r: Vec<Task>)
        ensures
            task_views(r@) == self@.tasks_of(account_id@),
    {
        let ghost recs = self@.records;
        let mut out: Vec<Task> = Vec::new();
        let mut i: usize = 0;
        while i < self.tasks.len()
            invariant
                i <= self.tasks.len(),
                recs == self@.records,
                task_views(out@) == owned_by(recs.subrange(0, i as int), account_id@),
            decreases self.tasks.len() - i,
        {
            assert(recs.subrange(0, i + 1).drop_last() =~= recs.subrange(0, i as int));
            assert(recs[i as int] == (self.tasks@[i as int].0@, self.tasks@[i as int].1@));
            if self.tasks[i].0 == account_id {
                let t = self.tasks[i].1.duplicate();
                let ghost before = out@;
                out.push(t);
                assert(task_views(out@) =~= task_views(before).push(t@));
            }
            i += 1;
        }
        assert(recs.subrange(0, i as int) =~= recs);
        out
    }

    /// The task with identifier `task_id`, if the store holds one.
    pub fn get_task_by_id(&self, task_id: TaskId) -> (r: Option<Task>)
        requires
            self.wf(),
        ensures
            (match r {
                Some(t) => Some(t@),
                None => None,
            }) == self@.task_with_id(task_id),
    {
        let mut i: usize = 0;
        while i < self.tasks.len()
            invariant
                i <= self.tasks.len(),
                self.wf(),
                forall|j: int| 0 <= j < i ==> (#[trigger] self@.records[j]).1.id != task_id,
            decreases self.tasks.len() - i,
        {
            assert(self@.records[i as int] == (self.tasks@[i as int].0@, self.tasks@[i as int].1@));
            if self.tasks[i].1.get_task_id() == task_id {
                proof {
                    lemma_position_unique(self@, i as int);
                }
                return Some(self.tasks[i].1.duplicate());
            }
            i += 1;
        }
        None
    }

    /// Every task of the store, in order of creation.
    pub fn get_tasks(&self) -> (r: Vec<Task>)
        ensures
            task_views(r@) == self@.all_tasks(),
    {
        let mut out: Vec<Task> = Vec::new();
        let mut i: usize = 0;
        while i < self.tasks.len()
            invariant
                i <= self.tasks.len(),
                out@.len() == i,
                forall|j: int| 0 <= j < i ==> (#[trigger] out@[j])@ == self@.records[j].1,
            decreases self.tasks.len() - i,
        {
            assert(self@.records[i as int] == (self.tasks@[i as int].0@, self.tasks@[i as int].1@));
            out.push(self.tasks[i].1.duplicate());
            i += 1;
        }
        assert(task_views(out@) =~= self@.all_tasks());
        out
    }

    /// The number of tasks in the store.
    pub fn get_total_task(&self) -> (r: u64)
        ensures
            r == self@.records.len(),
    {
        self.tasks.len() as u64
    }

    /// The number of tasks of `account_id`; zero for an unknown owner.
    pub fn get_user_total_task(&self, account_id: String) -> (r: usize)
        ensures
            r == self@.tasks_of(account_id@).len(),
    {
        let ghost recs = self@.records;
        let mut count: usize = 0;
        let mut i: usize = 0;
        while i < self.tasks.len()
            invariant
                i <= self.tasks.len(),
                count <= i,
                recs == self@.records,
                count == owned_by(recs.subrange(0, i as int), account_id@).len(),
            decreases self.tasks.len() - i,
        {
            assert(recs.subrange(0, i + 1).drop_last() =~= recs.subrange(0, i as int));
            assert(recs[i as int] == (self.tasks@[i as int].0@, self.tasks@[i as int].1@));
            if self.tasks[i].0 == account_id {
                count += 1;
            }
            i += 1;
        }
        assert(recs.subrange(0, i as int) =~= recs);
        count
    }

    /// Deletes the task `task_id` from the store, whoever asks. Returns whether
    /// such a task was there; where none was, the store is left as it was.
    pub fn delete_task_by_id(&mut self, task_id: TaskId) -> (r: bool)
        requires
            old(self).wf(),
        ensures
            r == old(self)@.has_id(task_id),
            final(self)@ == old(self)@.after_delete(task_id),
            final(self).wf(),
    {
        let mut i: usize = 0;
        while i < self.tasks.len()
            invariant
                i <= self.tasks.len(),
                self@ == old(self)@,
                self.wf(),
                forall|j: int| 0 <= j < i ==> (#[trigger] self@.records[j]).1.id != task_id,
            decreases self.tasks.len() - i,
        {
            assert(self@.records[i as int] == (self.tasks@[i as int].0@, self.tasks@[i as int].1@));
            if self.tasks[i].1.get_task_id() == task_id {
                proof {
                    lemma_position_unique(self@, i as int);
                    lemma_remove_keeps_wf(self@, i as int);
                }
                let ghost before = self@;
                self.tasks.remove(i);
                assert(self@.records =~= before.records.remove(i as int));
                return true;
            }
            i += 1;
        }
        false
    }

    /// Every task beside its owner, in order of creation: what a caller
    /// needs to keep the store and rebuild it with `from_entries`.
    pub fn entries(&self) -> (r: Vec<(String, Task)>)
        ensures
            entry_views(r@) == self@.records,
    {
        let mut out: Vec<(String, Task)> = Vec::new();
        let mut i: usize = 0;
        while i < self.tasks.len()
            invariant
                i <= self.tasks.len(),
                out@.len() == i,
                forall|j: int| 0 <= j < i ==> entry_views(out@)[j] == self@.records[j],
            decreases self.tasks.len() - i,
        {
            assert(self@.records[i as int] == (self.tasks@[i as int].0@, self.tasks@[i as int].1@));
            let e = (self.tasks[i].0.clone(), self.tasks[i].1.duplicate());
            let ghost before = out@;
            out.push(e);
            assert(forall|j: int| 0 <= j < i ==> out@[j] == before[j]);
            i += 1;
        }
        assert(entry_views(out@) =~= self@.records);
        out
    }

    /// Rebuilds a store from its counter and its (owner, task) pairs in order
    /// of creation. Gives `None` where the identifiers do not increase or do
    /// not all lie below the counter.
    pub fn from_entries(next_task_id: TaskId, entries: Vec<(String, Task)>) -> (r: Option<Tasks>)
        ensures
            r is Some <==> (TasksModel { next_id: next_task_id, records: entry_views(entries@) }).wf(),
            r matches Some(t) ==> t@ == (TasksModel {
                next_id: next_task_id,
                records: entry_views(entries@),
            }),
    {
        let ghost m = TasksModel { next_id: next_task_id, records: entry_views(entries@) };
        let mut i: usize = 0;
        while i < entries.len()
            invariant
                i <= entries.len(),
                m == (TasksModel { next_id: next_task_id, records: entry_views(entries@) }),
                forall|a: int, b: int|
                    0 <= a < b < i ==> (#[trigger] m.records[a]).1.id < (#[trigger] m.records[b]).1.id,
                forall|a: int| 0 <= a < i ==> (#[trigger] m.records[a]).1.id < next_task_id,
            decreases entries.len() - i,
        {
            assert(m.records[i as int] == (entries@[i as int].0@, entries@[i as int].1@));
            let id = entries[i].1.get_task_id();
            if id >= next_task_id {
                return None;
            }
            if i > 0 {
                assert(m.records[i - 1] == (entries@[i - 1].0@, entries@[i - 1].1@));
                if entries[i - 1].1.get_task_id() >= id {
                    assert(!m.wf());
                    return None;
                }
                assert forall|a: int, b: int|
                    0 <= a < b < i + 1 implies (#[trigger] m.records[a]).1.id < (
                    #[trigger] m.records[b]).1.id by {
                    if b == i && a < i - 1 {
                        assert(m.records[a].1.id < m.records[i - 1].1.id);
                    }
                }
            }
            i += 1;
        }
        Some(Tasks { next_task_id, tasks: entries })
    }

    /// The identifier that the next created task will receive.
    pub fn get_next_task_id(&self) -> (r: TaskId)
        ensures
            r == self@.next_id,
    {
        self.next_task_id
    }

    /// The counter's value after one more task is created.
    pub fn increase_post_id(&self) -> (r: TaskId)
        requires
            self@.next_id < usize::MAX,
        ensures
            r == self@.next_id + 1,
    {
        self.next_task_id + 1
    }
}

} // verus!
