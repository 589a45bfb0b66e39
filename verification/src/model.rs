//! The store as a mathematical state machine.
//!
//! [`StoreState`] is the state that the contracts of the executable store speak
//! of: the live records by id, the id that the next creation will issue, and
//! the notifications that wait in the outbox. Each operation of the store is a
//! function from state to state here; [`Op`] and [`StoreState::run`] put them in
//! sequence, so that the laws can speak of every history.

use vstd::prelude::*;
use crate::event::EventView;
use crate::todo::TodoView;

verus! {

/// The id that the first record of a fresh store gets.
pub const FIRST_ID: u32 = 1;

/// The counter after issuing `id`: one more, and fixed once it has reached
/// the largest value of its type.
pub open spec fn successor(id: u32) -> u32 {
    if id < u32::MAX {
        (id + 1) as u32
    } else {
        u32::MAX
    }
}

/// Whether a store can be rebuilt from `list` and `next_id`: the records come
/// in ascending order of id, and each id was issued by a counter that now
/// stands at `next_id`.
pub open spec fn restorable(list: Seq<TodoView>, next_id: u32) -> bool {
    &&& next_id >= FIRST_ID
    &&& forall|i: int, j: int|
        0 <= i < j < list.len() ==> (#[trigger] list[i]).id < (#[trigger] list[j]).id
    &&& forall|i: int|
        0 <= i < list.len() ==> FIRST_ID <= (#[trigger] list[i]).id && (list[i].id < next_id
            || next_id == u32::MAX)
}

/// The state of a store.
pub struct StoreState {
    /// The live records, each under its id.
    pub todos: Map<u32, TodoView>,
    /// The id that the next creation issues.
    pub next_id: u32,
    /// The notifications emitted and not yet taken, oldest first.
    pub events: Seq<EventView>,
}

/// One mutating call, with its arguments.
#[allow(inconsistent_fields)]
pub enum Op {
    Create { title: Seq<char>, description: Seq<char> },
    Update { id: u32, title: Option<Seq<char>>, description: Option<Seq<char>> },
    Toggle { id: u32 },
    Delete { id: u32 },
}

impl StoreState {
    /// The fresh store: no record, nothing emitted, ids starting at
    /// [`FIRST_ID`].
    pub open spec fn init() -> StoreState {
        StoreState { todos: Map::empty(), next_id: FIRST_ID, events: Seq::empty() }
    }

    /// What every reachable state satisfies: finitely many records, each
    /// stored under its own id, and each id issued before. An id below
    /// `next_id` was issued; once the counter is stuck at its largest value,
    /// that value was issued too.
    pub open spec fn wf(self) -> bool {
        &&& self.next_id >= FIRST_ID
        &&& self.todos.dom().finite()
        &&& forall|k: u32| #[trigger]
            self.todos.contains_key(k) ==> {
                &&& FIRST_ID <= k
                &&& k < self.next_id || self.next_id == u32::MAX
                &&& self.todos[k].id == k
            }
    }

    /// The record under `id`, if it is live.
    pub open spec fn get(self, id: u32) -> Option<TodoView> {
        if self.todos.contains_key(id) {
            Some(self.todos[id])
        } else {
            None
        }
    }

    /// Creation: the record gets the id `next_id` and starts out not
    /// completed; one `Created` notification follows.
    pub open spec fn create(self, title: Seq<char>, description: Seq<char>) -> StoreState {
        let id = self.next_id;
        StoreState {
            todos: self.todos.insert(id, TodoView { id, title, description, completed: false }),
            next_id: successor(id),
            events: self.events.push(EventView::Created { id, title }),
        }
    }

    /// Partial update: a field that is given replaces the stored one, a field
    /// that is absent stays. One `Updated` notification follows. On an unknown
    /// id nothing changes.
    pub open spec fn update(
        self,
        id: u32,
        title: Option<Seq<char>>,
        description: Option<Seq<char>>,
    ) -> StoreState {
        if self.todos.contains_key(id) {
            let before = self.todos[id];
            let after = TodoView {
                id: before.id,
                title: if title is Some { title->0 } else { before.title },
                description: if description is Some { description->0 } else { before.description },
                completed: before.completed,
            };
            StoreState {
                todos: self.todos.insert(id, after),
                next_id: self.next_id,
                events: self.events.push(
                    EventView::Updated { id, completed: after.completed },
                ),
            }
        } else {
            self
        }
    }

    /// Toggle: the completion flag flips; one `Updated` notification with the
    /// new flag follows. On an unknown id nothing changes.
    pub open spec fn toggle(self, id: u32) -> StoreState {
        if self.todos.contains_key(id) {
            let before = self.todos[id];
            let after = TodoView {
                id: before.id,
                title: before.title,
                description: before.description,
                completed: !before.completed,
            };
            StoreState {
                todos: self.todos.insert(id, after),
                next_id: self.next_id,
                events: self.events.push(
                    EventView::Updated { id, completed: after.completed },
                ),
            }
        } else {
            self
        }
    }

    /// Deletion: the record leaves the store for good; one `Deleted`
    /// notification follows. On an unknown id nothing changes.
    pub open spec fn delete(self, id: u32) -> StoreState {
        if self.todos.contains_key(id) {
            StoreState {
                todos: self.todos.remove(id),
                next_id: self.next_id,
                events: self.events.push(EventView::Deleted { id }),
            }
        } else {
            self
        }
    }

    /// The same store with an empty outbox.
    pub open spec fn drained(self) -> StoreState {
        StoreState { todos: self.todos, next_id: self.next_id, events: Seq::empty() }
    }

    /// Whether `list` is the enumeration of the live records: ascending by id,
    /// nothing in it that is not live, and every live record in it.
    pub open spec fn lists(self, list: Seq<TodoView>) -> bool {
        &&& forall|i: int, j: int|
            0 <= i < j < list.len() ==> (#[trigger] list[i]).id < (#[trigger] list[j]).id
        &&& forall|i: int|
            0 <= i < list.len() ==> self.todos.contains_key((#[trigger] list[i]).id)
                && self.todos[list[i].id] == list[i]
        &&& forall|k: u32| #[trigger]
            self.todos.contains_key(k) ==> exists|i: int|
                0 <= i < list.len() && (#[trigger] list[i]).id == k
    }

    /// Whether the call `op` finds its target: a creation always does, the
    /// others when their id is live.
    pub open spec fn accepts(self, op: Op) -> bool {
        match op {
            Op::Create { .. } => true,
            Op::Update { id, .. } => self.todos.contains_key(id),
            Op::Toggle { id } => self.todos.contains_key(id),
            Op::Delete { id } => self.todos.contains_key(id),
        }
    }

    /// The notification that the call `op` emits if it finds its target.
    pub open spec fn notice(self, op: Op) -> EventView {
        match op {
            Op::Create { title, .. } => EventView::Created { id: self.next_id, title },
            Op::Update { id, .. } => EventView::Updated {
                id,
                completed: self.todos[id].completed,
            },
            Op::Toggle { id } => EventView::Updated { id, completed: !self.todos[id].completed },
            Op::Delete { id } => EventView::Deleted { id },
        }
    }

    /// The state after the call `op`.
    pub open spec fn apply(self, op: Op) -> StoreState {
        match op {
            Op::Create { title, description } => self.create(title, description),
            Op::Update { id, title, description } => self.update(id, title, description),
            Op::Toggle { id } => self.toggle(id),
            Op::Delete { id } => self.delete(id),
        }
    }

    /// The state after the calls `ops`, first to last.
    pub open spec fn run(self, ops: Seq<Op>) -> StoreState
        decreases ops.len(),
    {
        if ops.len() == 0 {
            self
        } else {
            self.run(ops.drop_last()).apply(ops.last())
        }
    }
}

} // verus!
