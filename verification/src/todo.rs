//! The record that the store keeps, and its mathematical view.

use vstd::prelude::*;

verus! {

/// One task: an identity that the store assigned, and a payload that callers
/// may change.
#[derive(Debug, PartialEq, Eq)]
pub struct Todo {
    pub id: u32,
    pub title: String,
    pub description: String,
    pub completed: bool,
}

/// What a [`Todo`] is to the contracts: its fields, with the text as
/// sequences of characters.
pub struct TodoView {
    pub id: u32,
    pub title: Seq<char>,
    pub description: Seq<char>,
    pub completed: bool,
}

impl View for Todo {
    type V = TodoView;

    open spec fn view(&self) -> TodoView {
        TodoView {
            id: self.id,
            title: self.title@,
            description: self.description@,
            completed: self.completed,
        }
    }
}

/// The records of `list`, in order, each by its view.
pub open spec fn views(list: Seq<Todo>) -> Seq<TodoView> {
    list.map_values(|t: Todo| t@)
}

impl Clone for Todo {
    fn clone(&self) -> (copy: Self)
        ensures
            copy@ == self@,
    {
        Todo {
            id: self.id,
            title: self.title.clone(),
            description: self.description.clone(),
            completed: self.completed,
        }
    }
}

} // verus!
