//! The executable store.

use std::collections::HashMap;
use vstd::prelude::*;
use crate::event::notices;
use crate::event::EventView;
use crate::event::TodoCreated;
use crate::event::TodoDeleted;
use crate::event::TodoEvent;
use crate::event::TodoUpdated;
use crate::model::restorable;
use crate::model::StoreState;
use crate::model::FIRST_ID;
use crate::todo::views;
use crate::todo::Todo;
use crate::todo::TodoView;

verus! {

broadcast use vstd::std_specs::hash::group_hash_axioms;

/// The records of `m`, each by its view.
spec fn records(m: Map<u32, Todo>) -> Map<u32, TodoView> {
    m.map_values(|t: Todo| t@)
}

/// `records` keeps the keys, so a finite map has finitely many records, and
/// it holds under each key the view of what `m` holds there.
proof fn lemma_records_dom(m: Map<u32, Todo>)
    ensures
        records(m).dom() == m.dom(),
        forall|k: u32| #[trigger]
            m.contains_key(k) ==> records(m).contains_key(k) && records(m)[k] == m[k]@,
{
}

/// The task registry: the live records, the id counter and the outbox.
///
/// Its fields are private and every value of the type satisfies
/// [`StoreState::wf`], so no operation asks anything of its caller.
pub struct TodoContract {
    todos: HashMap<u32, Todo>,
    next_id: u32,
    events: Vec<TodoEvent>,
}

impl View for TodoContract {
    type V = StoreState;

    closed spec fn view(&self) -> StoreState {
        StoreState {
            todos: records(self.todos@),
            next_id: self.next_id,
            events: notices(self.events@),
        }
    }
}

impl TodoContract {
    #[verifier::type_invariant]
    closed spec fn inv(&self) -> bool {
        self@.wf()
    }

    /// An empty store whose first record will get the id 1.
    pub fn new() -> (store: Self)
        ensures
            store@ == StoreState::init(),
            store@.wf(),
    {
        let todos: HashMap<u32, Todo> = HashMap::new();
        let events: Vec<TodoEvent> = Vec::new();
        proof {
            lemma_records_dom(todos@);
            assert(records(todos@) =~= Map::empty());
            assert(notices(events@) =~= Seq::empty());
        }
        TodoContract { todos, next_id: FIRST_ID, events }
    }

    /// The same as [`TodoContract::new`].
    pub fn default() -> (store: Self)
        ensures
            store@ == StoreState::init(),
            store@.wf(),
    {
        Self::new()
    }

    /// Rebuilds a store from the records and the counter that a host kept:
    /// what [`TodoContract::get_all_todos`] and [`TodoContract::next_id`] gave
    /// it. The outbox starts empty. Returns `None` if the records are not in
    /// ascending order of id, or hold an id that a counter standing at
    /// `next_id` cannot have issued.
    pub fn restore(todos: &[Todo], next_id: u32) -> (restored: Option<Self>)
        ensures
            restored is Some <==> restorable(views(todos@), next_id),
            restored matches Some(store) ==> {
                &&& store@.lists(views(todos@))
                &&& store@.next_id == next_id
                &&& store@.events == Seq::<EventView>::empty()
                &&& store@.wf()
            },
    {
        if next_id < FIRST_ID {
            return None;
        }
        let ghost list = views(todos@);
        let mut kept: HashMap<u32, Todo> = HashMap::new();
        let mut last: u32 = 0;
        let mut i: usize = 0;
        while i < todos.len()
            invariant
                next_id >= FIRST_ID,
                list == views(todos@),
                i <= todos.len(),
                restorable(list.subrange(0, i as int), next_id),
                last == if i == 0 {
                    0
                } else {
                    list[i - 1].id
                },
                forall|k: u32| #[trigger]
                    kept@.contains_key(k) ==> exists|j: int|
                        0 <= j < i && (#[trigger] list[j]).id == k,
                forall|j: int|
                    0 <= j < i ==> kept@.contains_key((#[trigger] list[j]).id)
                        && kept@[list[j].id]@ == list[j],
            decreases todos.len() - i,
        {
            let todo = todos[i].clone();
            let id = todo.id;
            assert(todo@ == list[i as int]);
            let in_range = id >= FIRST_ID && (id < next_id || next_id == u32::MAX);
            if !in_range || id <= last {
                return None;
            }
            let ghost seen = list.subrange(0, i as int);
            proof {
                assert forall|j: int| 0 <= j < i implies (#[trigger] list[j]).id < id by {
                    if j < i - 1 {
                        assert(seen[j].id < seen[i - 1].id);
                    }
                }
            }
            kept.insert(id, todo);
            last = id;
            i = i + 1;
            proof {
                let head = list.subrange(0, i as int);
                assert forall|a: int, b: int| 0 <= a < b < head.len() implies (#[trigger] head[a]).id
                    < (#[trigger] head[b]).id by {
                    if b < i - 1 {
                        assert(seen[a].id < seen[b].id);
                    }
                }
            }
        }
        let events: Vec<TodoEvent> = Vec::new();
        proof {
            lemma_records_dom(kept@);
            assert(list.subrange(0, list.len() as int) =~= list);
        }
        Some(TodoContract { todos: kept, next_id, events })
    }

    /// The id that the next creation will issue.
    pub fn next_id(&self) -> (id: u32)
        ensures
            id == self@.next_id,
    {
        self.next_id
    }

    /// How many records are live.
    pub fn live_count(&self) -> (count: usize)
        ensures
            count == self@.todos.dom().len(),
    {
        proof {
            lemma_records_dom(self.todos@);
        }
        self.todos.len()
    }

    /// Empties the outbox and returns what was in it, oldest first.
    pub fn take_events(&mut self) -> (events: Vec<TodoEvent>)
        ensures
            notices(events@) == old(self)@.events,
            final(self)@ == old(self)@.drained(),
            final(self)@.wf(),
    {
        let mut events: Vec<TodoEvent> = Vec::new();
        proof {
            use_type_invariant(&*self);
            assert(notices(events@) =~= Seq::empty());
        }
        std::mem::swap(&mut events, &mut self.events);
        events
    }

    /// Moves the records out, leaving none behind, so that they can be
    /// worked on; the caller puts them back.
    fn take_todos(&mut self) -> (todos: HashMap<u32, Todo>)
        ensures
            todos == old(self).todos,
            final(self).todos@ == Map::<u32, Todo>::empty(),
            final(self).next_id == old(self).next_id,
            final(self).events == old(self).events,
    {
        let mut todos: HashMap<u32, Todo> = HashMap::new();
        proof {
            use_type_invariant(&*self);
            lemma_records_dom(todos@);
        }
        std::mem::swap(&mut todos, &mut self.todos);
        todos
    }

    /// Appends `event` to the outbox.
    fn emit(&mut self, event: TodoEvent)
        ensures
            final(self).todos == old(self).todos,
            final(self).next_id == old(self).next_id,
            final(self).events@ == old(self).events@.push(event),
            final(self)@.events == old(self)@.events.push(event@),
    {
        proof {
            use_type_invariant(&*self);
        }
        let mut events = Vec::new();
        std::mem::swap(&mut events, &mut self.events);
        events.push(event);
        self.events = events;
    }

    /// Replaces the title, the description, both or neither of the record
    /// `id`, and emits `TodoUpdated` with its completion flag. Returns whether
    /// the record exists; if it does not, nothing changes and nothing is
    /// emitted.
    pub fn update_todo(
        &mut self,
        id: u32,
        title: Option<String>,
        description: Option<String>,
    ) -> (ok: bool)
        ensures
            ok == old(self)@.todos.contains_key(id),
            final(self)@ == old(self)@.update(id, title.deep_view(), description.deep_view()),
            final(self)@.wf(),
    {
        proof {
            use_type_invariant(&*self);
        }
        let mut todos = self.take_todos();
        let updated = match todos.remove(&id) {
            Some(mut todo) => {
                if let Some(new_title) = title {
                    todo.title = new_title;
                }
                if let Some(new_description) = description {
                    todo.description = new_description;
                }
                let completed = todo.completed;
                todos.insert(id, todo);
                Some(TodoUpdated { id, completed })
            },
            None => None,
        };
        proof {
            lemma_records_dom(todos@);
            assert(records(todos@) =~= old(self)@.update(
                id,
                title.deep_view(),
                description.deep_view(),
            ).todos);
        }
        self.todos = todos;
        match updated {
            Some(event) => {
                self.emit(TodoEvent::Updated(event));
                true
            },
            None => false,
        }
    }

    /// Stores a new record, not completed, under the next free id, emits
    /// `TodoCreated` with that id and the title, and returns the id. The
    /// counter then moves on by one; once it has reached `u32::MAX` it stays
    /// there, and a further creation replaces the record under that id.
    pub fn create_todo(&mut self, title: String, description: String) -> (id: u32)
        ensures
            id == old(self)@.next_id,
            final(self)@ == old(self)@.create(title@, description@),
            final(self)@.wf(),
    {
        proof {
            use_type_invariant(&*self);
        }
        let id = self.next_id;
        let todo = Todo { id, title: title.clone(), description, completed: false };
        let mut todos = self.take_todos();
        todos.insert(id, todo);
        proof {
            lemma_records_dom(self.todos@);
        }
        self.next_id = id.saturating_add(1);
        proof {
            lemma_records_dom(todos@);
            assert(records(todos@) =~= old(self)@.create(title@, description@).todos);
        }
        self.todos = todos;
        self.emit(TodoEvent::Created(TodoCreated { id, title }));
        id
    }

    /// The record `id`, or `None` if there is none.
    pub fn get_todo(&self, id: u32) -> (found: Option<Todo>)
        ensures
            match found {
                Some(todo) => self@.get(id) == Some(todo@),
                None => self@.get(id) is None,
            },
    {
        match self.todos.get(&id) {
            Some(todo) => Some(todo.clone()),
            None => None,
        }
    }

    /// Flips the completion flag of the record `id` and emits `TodoUpdated`
    /// with the new flag. Returns whether the record exists; if it does not,
    /// nothing changes and nothing is emitted.
    pub fn toggle_todo(&mut self, id: u32) -> (ok: bool)
        ensures
            ok == old(self)@.todos.contains_key(id),
            final(self)@ == old(self)@.toggle(id),
            final(self)@.wf(),
    {
        proof {
            use_type_invariant(&*self);
        }
        let mut todos = self.take_todos();
        let updated = match todos.remove(&id) {
            Some(mut todo) => {
                todo.completed = !todo.completed;
                let completed = todo.completed;
                todos.insert(id, todo);
                Some(TodoUpdated { id, completed })
            },
            None => None,
        };
        proof {
            lemma_records_dom(todos@);
            assert(records(todos@) =~= old(self)@.toggle(id).todos);
        }
        self.todos = todos;
        match updated {
            Some(event) => {
                self.emit(TodoEvent::Updated(event));
                true
            },
            None => false,
        }
    }

    /// Removes the record `id` and emits `TodoDeleted`. Returns whether the
    /// record existed; if it did not, nothing changes and nothing is emitted.
    pub fn delete_todo(&mut self, id: u32) -> (ok: bool)
        ensures
            ok == old(self)@.todos.contains_key(id),
            final(self)@ == old(self)@.delete(id),
            final(self)@.wf(),
    {
        proof {
            use_type_invariant(&*self);
        }
        let mut todos = self.take_todos();
        let removed = todos.remove(&id);
        proof {
            lemma_records_dom(todos@);
            assert(records(todos@) =~= old(self)@.delete(id).todos);
        }
        self.todos = todos;
        match removed {
            Some(_) => {
                self.emit(TodoEvent::Deleted(TodoDeleted { id }));
                true
            },
            None => false,
        }
    }

    /// All records, in ascending order of id.
    pub fn get_all_todos(&self) -> (all: Vec<Todo>)
        ensures
            self@.lists(views(all@)),
    {
        proof {
            use_type_invariant(self);
            lemma_records_dom(self.todos@);
        }
        let mut all: Vec<Todo> = Vec::new();
        let mut i: u32 = 0;
        // Every live id lies in 1..=next_id: below the counter, or equal to it
        // where the counter has stopped at its largest value.
        while i < self.next_id
            invariant
                i <= self.next_id,
                self@.wf(),
                self@.todos.dom() == self.todos@.dom(),
                forall|k: u32| #[trigger]
                    self.todos@.contains_key(k) ==> self@.todos[k] == self.todos@[k]@,
                forall|a: int, b: int|
                    0 <= a < b < all.len() ==> (#[trigger] all[a]).id < (#[trigger] all[b]).id,
                forall|a: int|
                    0 <= a < all.len() ==> (#[trigger] all[a]).id <= i && self@.todos.contains_key(
                        all[a].id,
                    ) && self@.todos[all[a].id] == all[a]@,
                forall|k: u32|
                    k <= i && #[trigger] self@.todos.contains_key(k) ==> exists|a: int|
                        0 <= a < all.len() && (#[trigger] all[a]).id == k,
            decreases self.next_id - i,
        {
            i = i + 1;
            let ghost before = all@;
            if let Some(todo) = self.todos.get(&i) {
                all.push(todo.clone());
                assert forall|k: u32| k <= i && #[trigger] self@.todos.contains_key(k) implies {
                    exists|a: int| 0 <= a < all.len() && (#[trigger] all[a]).id == k
                } by {
                    if k < i {
                        let a = choose|a: int|
                            0 <= a < before.len() && (#[trigger] before[a]).id == k;
                        assert(all[a].id == k);
                    } else {
                        assert(all[all.len() - 1].id == k);
                    }
                }
            }
        }
        proof {
            let list = views(all@);
            assert forall|k: u32| #[trigger] self@.todos.contains_key(k) implies {
                exists|a: int| 0 <= a < list.len() && (#[trigger] list[a]).id == k
            } by {
                let a = choose|a: int| 0 <= a < all.len() && (#[trigger] all[a]).id == k;
                assert(list[a].id == k);
            }
        }
        all
    }

    /// How many records were ever created: deleting one does not lower the
    /// count.
    pub fn get_todo_count(&self) -> (count: u32)
        ensures
            count == self@.next_id - FIRST_ID,
    {
        proof {
            use_type_invariant(self);
        }
        self.next_id - FIRST_ID
    }
}

} // verus!
