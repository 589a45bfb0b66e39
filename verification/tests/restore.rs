use todo_contract::Todo;
use todo_contract::TodoContract;
use todo_contract::TodoCreated;
use todo_contract::TodoEvent;

fn text(s: &str) -> String {
    String::from(s)
}

fn todo(id: u32, title: &str) -> Todo {
    Todo { id, title: text(title), description: text("d"), completed: id % 2 == 0 }
}

#[test]
fn a_store_is_rebuilt_from_its_own_list_and_counter() {
    let mut store = TodoContract::new();
    for _ in 0..5 {
        store.create_todo(text("t"), text("d"));
    }
    store.delete_todo(2);
    store.toggle_todo(3);
    store.update_todo(4, Some(text("four")), None);
    let list = store.get_all_todos();

    let rebuilt = TodoContract::restore(&list, store.next_id());
    assert!(rebuilt.is_some());
    let mut rebuilt = rebuilt.unwrap();
    assert_eq!(rebuilt.get_all_todos(), list);
    assert_eq!(rebuilt.next_id(), 6);
    assert_eq!(rebuilt.get_todo_count(), 5);
    assert_eq!(rebuilt.live_count(), 4);
    assert_eq!(rebuilt.take_events(), vec![]);
    assert_eq!(rebuilt.get_todo(2), None);
    assert_eq!(rebuilt.get_todo(4), store.get_todo(4));
    assert_eq!(rebuilt.create_todo(text("next"), text("")), 6);
}

#[test]
fn nothing_with_the_first_id_is_the_fresh_store() {
    let mut store = TodoContract::restore(&[], 1).unwrap();
    assert_eq!(store.get_all_todos(), vec![]);
    assert_eq!(store.create_todo(text("a"), text("b")), 1);
}

#[test]
fn a_counter_of_zero_is_refused() {
    assert!(TodoContract::restore(&[], 0).is_none());
}

#[test]
fn an_id_of_zero_is_refused() {
    assert!(TodoContract::restore(&[todo(0, "a")], 5).is_none());
}

#[test]
fn an_id_at_or_above_the_counter_is_refused() {
    assert!(TodoContract::restore(&[todo(1, "a"), todo(5, "b")], 5).is_none());
    assert!(TodoContract::restore(&[todo(1, "a"), todo(6, "b")], 5).is_none());
    assert!(TodoContract::restore(&[todo(1, "a"), todo(4, "b")], 5).is_some());
}

#[test]
fn records_out_of_order_are_refused() {
    assert!(TodoContract::restore(&[todo(2, "a"), todo(1, "b")], 5).is_none());
    assert!(TodoContract::restore(&[todo(1, "a"), todo(3, "b"), todo(2, "c")], 5).is_none());
}

#[test]
fn an_id_that_occurs_twice_is_refused() {
    assert!(TodoContract::restore(&[todo(1, "a"), todo(1, "b")], 5).is_none());
    assert!(TodoContract::restore(&[todo(1, "a"), todo(2, "b"), todo(2, "c")], 5).is_none());
}

#[test]
fn the_counter_stays_at_its_largest_value() {
    let mut store = TodoContract::restore(&[todo(7, "seven")], u32::MAX).unwrap();
    assert_eq!(store.create_todo(text("last"), text("x")), u32::MAX);
    assert_eq!(store.next_id(), u32::MAX);
    assert_eq!(store.get_todo_count(), u32::MAX - 1);
    assert_eq!(
        store.get_todo(u32::MAX),
        Some(Todo { id: u32::MAX, title: text("last"), description: text("x"), completed: false })
    );

    assert_eq!(store.create_todo(text("again"), text("y")), u32::MAX);
    assert_eq!(store.next_id(), u32::MAX);
    assert_eq!(store.live_count(), 2);
    assert_eq!(
        store.get_todo(u32::MAX),
        Some(Todo { id: u32::MAX, title: text("again"), description: text("y"), completed: false })
    );
    assert_eq!(
        store.take_events(),
        vec![
            TodoEvent::Created(TodoCreated { id: u32::MAX, title: text("last") }),
            TodoEvent::Created(TodoCreated { id: u32::MAX, title: text("again") }),
        ]
    );
}

#[test]
fn the_largest_id_is_accepted_only_under_the_largest_counter() {
    assert!(TodoContract::restore(&[todo(u32::MAX, "a")], u32::MAX).is_some());
    assert!(TodoContract::restore(&[todo(u32::MAX, "a")], u32::MAX - 1).is_none());
    assert!(TodoContract::restore(&[todo(u32::MAX - 1, "a")], u32::MAX).is_some());
}

#[test]
fn the_counter_moves_from_the_value_before_the_largest() {
    let mut store = TodoContract::restore(&[], u32::MAX - 1).unwrap();
    assert_eq!(store.create_todo(text("a"), text("")), u32::MAX - 1);
    assert_eq!(store.next_id(), u32::MAX);
    assert_eq!(store.create_todo(text("b"), text("")), u32::MAX);
    assert_eq!(store.next_id(), u32::MAX);
    assert_eq!(store.live_count(), 2);
}
