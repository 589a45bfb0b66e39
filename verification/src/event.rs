//! The notifications that the store emits, one for each successful mutation.

use vstd::prelude::*;

verus! {

/// A record was created.
#[derive(Debug, PartialEq, Eq)]
pub struct TodoCreated {
    pub id: u32,
    pub title: String,
}

/// A record's payload changed; `completed` is the flag as it stands after the
/// change.
#[derive(Debug, PartialEq, Eq, Clone, Copy)]
pub struct TodoUpdated {
    pub id: u32,
    pub completed: bool,
}

/// A record was removed.
#[derive(Debug, PartialEq, Eq, Clone, Copy)]
pub struct TodoDeleted {
    pub id: u32,
}

/// Any of the three notifications, in the order in which the outbox holds them.
#[derive(Debug, PartialEq, Eq)]
pub enum TodoEvent {
    Created(TodoCreated),
    Updated(TodoUpdated),
    Deleted(TodoDeleted),
}

/// What a [`TodoEvent`] is to the contracts.
pub enum EventView {
    Created { id: u32, title: Seq<char> },
    Updated { id: u32, completed: bool },
    Deleted { id: u32 },
}

impl EventView {
    /// The id of the record that the notification is about.
    pub open spec fn subject(self) -> u32 {
        match self {
            EventView::Created { id, .. } => id,
            EventView::Updated { id, .. } => id,
            EventView::Deleted { id } => id,
        }
    }
}

impl View for TodoEvent {
    type V = EventView;

    open spec fn view(&self) -> EventView {
        match *self {
            TodoEvent::Created(e) => EventView::Created { id: e.id, title: e.title@ },
            TodoEvent::Updated(e) => EventView::Updated { id: e.id, completed: e.completed },
            TodoEvent::Deleted(e) => EventView::Deleted { id: e.id },
        }
    }
}

/// The notifications of `log`, in order, each by its view.
pub open spec fn notices(log: Seq<TodoEvent>) -> Seq<EventView> {
    log.map_values(|e: TodoEvent| e@)
}

impl TodoEvent {
    /// The id of the record that the notification is about.
    pub fn id(&self) -> (id: u32)
        ensures
            id == self@.subject(),
    {
        match self {
            TodoEvent::Created(e) => e.id,
            TodoEvent::Updated(e) => e.id,
            TodoEvent::Deleted(e) => e.id,
        }
    }
}

} // verus!
