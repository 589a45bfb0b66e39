//! What holds of every store, in every history.
//!
//! Each law is stated over [`StoreState`], the state that the contracts of
//! [`TodoContract`](crate::store::TodoContract) speak of, so it holds of the
//! executable store call by call.

use vstd::prelude::*;
use crate::event::EventView;
use crate::model::restorable;
use crate::model::Op;
use crate::model::StoreState;
use crate::todo::TodoView;

verus! {

/// Every call keeps a well-formed store well formed.
pub proof fn lemma_apply_preserves_wf(s: StoreState, op: Op)
    requires
        s.wf(),
    ensures
        s.apply(op).wf(),
{
}

/// Every history keeps a well-formed store well formed.
pub proof fn lemma_run_preserves_wf(s: StoreState, ops: Seq<Op>)
    requires
        s.wf(),
    ensures
        s.run(ops).wf(),
    decreases ops.len(),
{
    if ops.len() > 0 {
        lemma_run_preserves_wf(s, ops.drop_last());
        lemma_apply_preserves_wf(s.run(ops.drop_last()), ops.last());
    }
}

/// The fresh store is well formed.
pub proof fn lemma_init_is_wf()
    ensures
        StoreState::init().wf(),
{
}

/// The id counter never goes down.
pub proof fn lemma_counter_never_decreases(s: StoreState, ops: Seq<Op>)
    ensures
        s.next_id <= s.run(ops).next_id,
    decreases ops.len(),
{
    if ops.len() > 0 {
        lemma_counter_never_decreases(s, ops.drop_last());
    }
}

/// Ids are issued in strictly increasing order, so none is issued twice:
/// the id that a creation returns is below the id that any later creation
/// returns, whatever calls come between, deletions included. The one
/// exception is a counter that has reached `u32::MAX`, which issues that
/// value again.
pub proof fn lemma_ids_strictly_increase(
    s: StoreState,
    title: Seq<char>,
    description: Seq<char>,
    ops: Seq<Op>,
)
    requires
        s.next_id < u32::MAX,
    ensures
        s.next_id < s.create(title, description).run(ops).next_id,
{
    lemma_counter_never_decreases(s.create(title, description), ops);
}

/// Right after a creation, the id that it returned leads to the record as
/// it was given, not completed.
pub proof fn lemma_create_then_get(s: StoreState, title: Seq<char>, description: Seq<char>)
    ensures
        s.create(title, description).get(s.next_id) == Some(
            TodoView { id: s.next_id, title, description, completed: false },
        ),
{
}

/// An update that gives only a title changes the title of its record and
/// nothing else: not the description, not the completion flag, not the id,
/// no other record and not the counter.
pub proof fn lemma_update_title_only(s: StoreState, id: u32, title: Seq<char>)
    requires
        s.todos.contains_key(id),
    ensures
        ({
            let after = s.update(id, Some(title), None);
            &&& after.todos[id] == TodoView {
                id: s.todos[id].id,
                title,
                description: s.todos[id].description,
                completed: s.todos[id].completed,
            }
            &&& after.todos.dom() == s.todos.dom()
            &&& forall|k: u32| k != id && s.todos.contains_key(k) ==> after.todos[k] == s.todos[k]
            &&& after.next_id == s.next_id
        }),
{
}

/// An update that gives only a description changes the description of its
/// record and nothing else.
pub proof fn lemma_update_description_only(s: StoreState, id: u32, description: Seq<char>)
    requires
        s.todos.contains_key(id),
    ensures
        ({
            let after = s.update(id, None, Some(description));
            &&& after.todos[id] == TodoView {
                id: s.todos[id].id,
                title: s.todos[id].title,
                description,
                completed: s.todos[id].completed,
            }
            &&& after.todos.dom() == s.todos.dom()
            &&& forall|k: u32| k != id && s.todos.contains_key(k) ==> after.todos[k] == s.todos[k]
            &&& after.next_id == s.next_id
        }),
{
}

/// A call on an id that is not live is refused and changes nothing at all.
pub proof fn lemma_refused_call_changes_nothing(s: StoreState, op: Op)
    requires
        !s.accepts(op),
    ensures
        s.apply(op) == s,
{
}

/// An id that is below the counter and not live never becomes live again.
pub proof fn lemma_absent_stays_absent(s: StoreState, id: u32, ops: Seq<Op>)
    requires
        !s.todos.contains_key(id),
        id < s.next_id,
    ensures
        !s.run(ops).todos.contains_key(id),
        id < s.run(ops).next_id,
    decreases ops.len(),
{
    if ops.len() > 0 {
        lemma_absent_stays_absent(s, id, ops.drop_last());
    }
}

/// Deletion is final. Once a record is deleted, looking it up finds
/// nothing, deleting it again is refused, and no later call brings its id
/// back. The one exception is the id `u32::MAX` under a counter that has
/// reached that value, which the next creation issues again.
pub proof fn lemma_delete_is_final(s: StoreState, id: u32, ops: Seq<Op>)
    requires
        s.todos.contains_key(id),
        id < s.next_id,
    ensures
        s.delete(id).get(id) is None,
        !s.delete(id).accepts(Op::Delete { id }),
        s.delete(id).delete(id) == s.delete(id),
        s.delete(id).run(ops).get(id) is None,
{
    lemma_absent_stays_absent(s.delete(id), id, ops);
}

/// No enumeration of the records, at any later time, holds the id of a
/// record that was deleted, with the same exception as
/// [`lemma_delete_is_final`].
pub proof fn lemma_listing_excludes_deleted(
    s: StoreState,
    id: u32,
    ops: Seq<Op>,
    list: Seq<TodoView>,
)
    requires
        s.todos.contains_key(id),
        id < s.next_id,
        s.delete(id).run(ops).lists(list),
    ensures
        forall|i: int| 0 <= i < list.len() ==> (#[trigger] list[i]).id != id,
{
    lemma_absent_stays_absent(s.delete(id), id, ops);
}

/// A call that finds its target emits exactly one notification, of the
/// kind that belongs to the call and about the record that the call
/// touched; a call that is refused emits none.
pub proof fn lemma_one_event_per_accepted_call(s: StoreState, op: Op)
    ensures
        s.accepts(op) ==> s.apply(op).events == s.events.push(s.notice(op)),
        !s.accepts(op) ==> s.apply(op).events == s.events,
        match op {
            Op::Create { title, .. } => s.notice(op) == (EventView::Created {
                id: s.next_id,
                title,
            }),
            Op::Update { id, .. } => s.notice(op) is Updated && s.notice(op).subject() == id,
            Op::Toggle { id } => s.notice(op) is Updated && s.notice(op).subject() == id,
            Op::Delete { id } => s.notice(op) == (EventView::Deleted { id }),
        },
{
}

/// The enumeration of the records is unique: two lists that both
/// enumerate the records of one store are the same list.
pub proof fn lemma_listing_is_unique(s: StoreState, a: Seq<TodoView>, b: Seq<TodoView>)
    requires
        s.lists(a),
        s.lists(b),
    ensures
        a == b,
    decreases a.len(),
{
    if a.len() == 0 {
        if b.len() > 0 {
            assert(s.todos.contains_key(b[0].id));
        }
        assert(a =~= b);
    } else {
        // The record with the largest id closes both lists.
        let top = a.last();
        let j = choose|j: int| 0 <= j < b.len() && (#[trigger] b[j]).id == top.id;
        if j < b.len() - 1 {
            let above = b[j + 1];
            let i = choose|i: int| 0 <= i < a.len() && (#[trigger] a[i]).id == above.id;
            assert(a[i].id <= top.id);
        }
        assert(b.last() == top);
        let rest = StoreState {
            todos: s.todos.remove(top.id),
            next_id: s.next_id,
            events: s.events,
        };
        lemma_drop_last_lists(s, a);
        lemma_drop_last_lists(s, b);
        lemma_listing_is_unique(rest, a.drop_last(), b.drop_last());
        assert(a =~= a.drop_last().push(top));
        assert(b =~= b.drop_last().push(top));
    }
}

/// Without its last record, an enumeration enumerates the store without
/// that record.
proof fn lemma_drop_last_lists(s: StoreState, list: Seq<TodoView>)
    requires
        s.lists(list),
        list.len() > 0,
    ensures
        (StoreState {
            todos: s.todos.remove(list.last().id),
            next_id: s.next_id,
            events: s.events,
        }).lists(list.drop_last()),
{
    let rest = StoreState {
        todos: s.todos.remove(list.last().id),
        next_id: s.next_id,
        events: s.events,
    };
    let shorter = list.drop_last();
    assert forall|k: u32| #[trigger] rest.todos.contains_key(k) implies exists|i: int|
        0 <= i < shorter.len() && (#[trigger] shorter[i]).id == k by {
        let i = choose|i: int| 0 <= i < list.len() && (#[trigger] list[i]).id == k;
        assert(shorter[i].id == k);
    }
}

/// The enumeration of a store's records fixes the records: two stores
/// with one enumeration hold the same records.
pub proof fn lemma_listing_determines_records(s: StoreState, t: StoreState, list: Seq<TodoView>)
    requires
        s.lists(list),
        t.lists(list),
    ensures
        s.todos == t.todos,
{
    assert forall|k: u32| s.todos.contains_key(k) implies t.todos.contains_key(k) && s.todos[k]
        == t.todos[k] by {
        let i = choose|i: int| 0 <= i < list.len() && (#[trigger] list[i]).id == k;
        assert(t.todos[list[i].id] == list[i]);
    }
    assert forall|k: u32| t.todos.contains_key(k) implies s.todos.contains_key(k) by {
        let i = choose|i: int| 0 <= i < list.len() && (#[trigger] list[i]).id == k;
        assert(s.todos.contains_key(list[i].id));
    }
    assert(s.todos =~= t.todos);
}

/// A store can always be rebuilt from its own enumeration and counter,
/// and what is rebuilt is the store with an empty outbox.
pub proof fn lemma_restore_round_trip(s: StoreState, list: Seq<TodoView>, rebuilt: StoreState)
    requires
        s.wf(),
        s.lists(list),
        rebuilt.lists(list),
        rebuilt.next_id == s.next_id,
        rebuilt.events == Seq::<EventView>::empty(),
    ensures
        restorable(list, s.next_id),
        rebuilt == s.drained(),
{
    lemma_listing_determines_records(s, rebuilt, list);
}

} // verus!
