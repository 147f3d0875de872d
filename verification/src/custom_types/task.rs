//! The task: what a scheduler is given to run.

use vstd::prelude::*;

verus! {

/// What a task is, as a mathematical value.
pub struct TaskView {
    pub id: u32,
    pub name: Seq<char>,
    pub priority: u8,
}

/// A unit of work: an identity, a display name and a priority (higher runs sooner).
#[derive(Debug)]
pub struct Task {
    pub id: u32,
    pub name: String,
    pub priority: u8,
}

impl View for Task {
    type V = TaskView;

    open spec fn view(&self) -> TaskView {
        TaskView { id: self.id, name: self.name@, priority: self.priority }
    }
}

impl Clone for Task {
    fn clone(&self) -> (copy: Self)
        ensures
            copy == *self,
    {
        Task { id: self.id, name: self.name.clone(), priority: self.priority }
    }
}

impl Task {
    /// Makes the task with the given identity, name and priority.
    pub fn new(id: u32, name: &str, priority: u8) -> (task: Self)
        ensures
            task@ == (TaskView { id, name: name@, priority }),
    {
        Task { id, name: name.to_owned(), priority }
    }
}

/// The views of a sequence of tasks, in the same order.
pub open spec fn task_views(tasks: Seq<Task>) -> Seq<TaskView> {
    tasks.map_values(|t: Task| t@)
}

} // verus!
