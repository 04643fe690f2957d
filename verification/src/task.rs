//! The task record: one row of the todo table.

use vstd::prelude::*;

verus! {

/// Mathematical model of a task: its id, its description as a character
/// sequence, and whether it has been completed.
pub ghost struct TaskModel {
    pub id: int,
    pub description: Seq<char>,
    pub status: bool,
}

/// A single todo item. `status` is `false` while the task is open and `true`
/// once it has been completed; it is the only field that ever changes after
/// creation.
pub struct Todo {
    pub id: i32,
    pub description: String,
    pub status: bool,
}

impl View for Todo {
    type V = TaskModel;

    open spec fn view(&self) -> TaskModel {
        TaskModel { id: self.id as int, description: self.description@, status: self.status }
    }
}

impl Clone for Todo {
    fn clone(&self) -> (r: Todo)
        ensures
            r@ == self@,
    {
        Todo { id: self.id, description: self.description.clone(), status: self.status }
    }
}

impl Todo {
    /// Builds a task record from its parts.
    pub fn new(id: i32, description: String, status: bool) -> (t: Todo)
        ensures
            t@ == (TaskModel { id: id as int, description: description@, status }),
    {
        Todo { id, description, status }
    }
}

} // verus!
