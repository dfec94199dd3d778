use vstd::prelude::*;

verus! {

/// Identifier of a task, drawn from the store's counter.
pub type TaskId = usize;

/// The abstract value of a task record.
pub struct TaskModel {
    pub id: TaskId,
    pub text: Seq<char>,
    pub day: Seq<char>,
    pub reminder: bool,
}

/// One task: its identifier, its text, a free-form day label and a reminder flag.
pub struct Task {
    pub task_id: TaskId,
    text: String,
    day: String,
    reminder: bool,
}

impl View for Task {
    type V = TaskModel;

    closed spec fn view(&self) -> TaskModel {
        TaskModel { id: self.task_id, text: self.text@, day: self.day@, reminder: self.reminder }
    }
}

impl Task {
    pub fn new(task_id: TaskId, text: String, day: String, reminder: bool) -> (r: Self)
        ensures
            r@ == (TaskModel { id: task_id, text: text@, day: day@, reminder: reminder }),
    {
        Task { task_id, text, day, reminder }
    }

    pub fn get_task_id(&self) -> (r: TaskId)
        ensures
            r == self@.id,
    {
        self.task_id
    }

    pub fn get_task_content(&self) -> (r: String)
        ensures
            r@ == self@.text,
    {
        self.text.clone()
    }

    pub fn get_day(&self) -> (r: String)
        ensures
            r@ == self@.day,
    {
        self.day.clone()
    }

    pub fn get_reminder(&self) -> (r: bool)
        ensures
            r == self@.reminder,
    {
        self.reminder
    }

    /// Another task with the same identifier, text, day and flag.
    pub fn duplicate(&self) -> (r: Task)
        ensures
            r@ == self@,
    {
        Task {
            task_id: self.task_id,
            text: self.text.clone(),
            day: self.day.clone(),
            reminder: self.reminder,
        }
    }
}

} // verus!
