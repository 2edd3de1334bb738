use everyframe::{Interval, Task, TemplateApp, Today};

fn snapshot(store: &TemplateApp) -> Vec<(u64, String, bool, Interval)> {
    store
        .iter()
        .into_iter()
        .map(|(id, task)| (id, task.name.clone(), task.done, task.period))
        .collect()
}

#[test]
fn default_store_is_empty_and_counts_from_zero() {
    let store = TemplateApp::default();
    assert_eq!(store.len(), 0);
    assert_eq!(store.next_id(), 0);
    assert!(store.iter().is_empty());
    assert!(store.ids().is_empty());
    assert!(store.has_room());
    assert!(!store.contains(0));
    assert!(store.get(0).is_none());
}

#[test]
fn inserted_task_is_not_done_and_carries_the_creation_date() {
    let mut store = TemplateApp::default();
    let on = Today { day: 14, week: 7 };
    let daily = store.insert("stretch".to_owned(), true, on);
    let weekly = store.insert("laundry".to_owned(), false, on);
    assert_eq!((daily, weekly), (0, 1));
    assert_eq!(
        snapshot(&store),
        vec![
            (0, "stretch".to_owned(), false, Interval::Daily(14)),
            (1, "laundry".to_owned(), false, Interval::Weekly(7)),
        ]
    );
    assert_eq!(store.next_id(), 2);
    assert_eq!(store.len(), 2);
}

#[test]
fn names_need_not_be_unique() {
    let mut store = TemplateApp::default();
    let on = Today { day: 2, week: 1 };
    let a = store.insert("same".to_owned(), true, on);
    let b = store.insert("same".to_owned(), true, on);
    assert_ne!(a, b);
    assert_eq!(store.len(), 2);
}

#[test]
fn ids_increase_and_are_not_reused_after_removal() {
    let mut store = TemplateApp::default();
    let on = Today { day: 2, week: 1 };
    let a = store.insert("a".to_owned(), true, on);
    let b = store.insert("b".to_owned(), false, on);
    store.remove(b);
    let c = store.insert("c".to_owned(), true, on);
    store.remove(a);
    store.remove(c);
    assert_eq!(store.len(), 0);
    let d = store.insert("d".to_owned(), false, on);
    store.refresh(Today { day: 3, week: 2 });
    store.toggle_done(d);
    let e = store.insert("e".to_owned(), false, on);
    assert_eq!((a, b, c, d, e), (0, 1, 2, 3, 4));
    assert_eq!(store.ids(), vec![3, 4]);
    assert_eq!(store.next_id(), 5);
}

#[test]
fn removed_task_is_gone_for_good() {
    let mut store = TemplateApp::default();
    let on = Today { day: 2, week: 1 };
    let a = store.insert("a".to_owned(), true, on);
    let b = store.insert("b".to_owned(), false, on);
    store.remove(a);
    assert!(!store.contains(a));
    assert!(store.get(a).is_none());
    assert!(store.iter().into_iter().all(|(id, _)| id != a));
    let left = snapshot(&store);
    assert_eq!(left, vec![(b, "b".to_owned(), false, Interval::Weekly(1))]);

    store.toggle_done(a);
    assert_eq!(snapshot(&store), left);
    assert_eq!(store.next_id(), 2);

    store.remove(a);
    assert_eq!(snapshot(&store), left);
    assert_eq!(store.next_id(), 2);
}

#[test]
fn removing_an_identifier_never_handed_out_does_nothing() {
    let mut store = TemplateApp::default();
    store.insert("a".to_owned(), true, Today { day: 2, week: 1 });
    store.remove(7);
    store.toggle_done(7);
    assert_eq!(snapshot(&store), vec![(0, "a".to_owned(), false, Interval::Daily(2))]);
    assert_eq!(store.next_id(), 1);
}

#[test]
fn toggle_flips_one_task_and_back() {
    let mut store = TemplateApp::default();
    let on = Today { day: 2, week: 1 };
    let a = store.insert("a".to_owned(), true, on);
    let b = store.insert("b".to_owned(), false, on);
    store.toggle_done(b);
    assert_eq!(
        snapshot(&store),
        vec![
            (a, "a".to_owned(), false, Interval::Daily(2)),
            (b, "b".to_owned(), true, Interval::Weekly(1)),
        ]
    );
    store.toggle_done(b);
    assert_eq!(
        snapshot(&store),
        vec![
            (a, "a".to_owned(), false, Interval::Daily(2)),
            (b, "b".to_owned(), false, Interval::Weekly(1)),
        ]
    );
}

#[test]
fn listing_is_in_ascending_order_and_restartable() {
    let tasks = vec![
        (9, Task { name: "nine".to_owned(), done: false, period: Interval::Daily(1) }),
        (2, Task { name: "two".to_owned(), done: true, period: Interval::Weekly(8) }),
        (5, Task { name: "five".to_owned(), done: false, period: Interval::Daily(30) }),
    ];
    let store = TemplateApp::restore(tasks, 10).expect("all identifiers are below 10");
    let first = snapshot(&store);
    assert_eq!(
        first,
        vec![
            (2, "two".to_owned(), true, Interval::Weekly(8)),
            (5, "five".to_owned(), false, Interval::Daily(30)),
            (9, "nine".to_owned(), false, Interval::Daily(1)),
        ]
    );
    assert_eq!(snapshot(&store), first);
    assert_eq!(store.ids(), vec![2, 5, 9]);
    assert_eq!(store.len(), 3);
}

#[test]
fn saved_store_is_restored_as_it_was() {
    let mut store = TemplateApp::default();
    let on = Today { day: 20, week: 3 };
    store.insert("a".to_owned(), true, on);
    let b = store.insert("b".to_owned(), false, on);
    let c = store.insert("c".to_owned(), true, on);
    store.toggle_done(c);
    store.remove(b);

    let (saved, counter) = store.save();
    assert_eq!(counter, 3);
    assert_eq!(saved.iter().map(|(id, _)| *id).collect::<Vec<u64>>(), vec![0, 2]);
    let restored = TemplateApp::restore(saved, counter).expect("a saved store is valid");

    assert_eq!(snapshot(&restored), snapshot(&store));
    assert_eq!(restored.next_id(), 3);
    assert_eq!(format!("{:?}", restored), format!("{:?}", store));
}

#[test]
fn restored_store_goes_on_counting_where_it_stopped() {
    let tasks = vec![(4, Task { name: "four".to_owned(), done: false, period: Interval::Daily(1) })];
    let mut store = TemplateApp::restore(tasks, 7).expect("4 is below 7");
    let id = store.insert("next".to_owned(), true, Today { day: 1, week: 1 });
    assert_eq!(id, 7);
    assert_eq!(store.ids(), vec![4, 7]);
}

#[test]
fn restore_rejects_an_identifier_at_or_above_the_counter() {
    let at = vec![(3, Task::default())];
    assert!(TemplateApp::restore(at, 3).is_none());
    let above = vec![(0, Task::default()), (8, Task::default()), (1, Task::default())];
    assert!(TemplateApp::restore(above, 5).is_none());
    let any = vec![(0, Task::default())];
    assert!(TemplateApp::restore(any, 0).is_none());
}

#[test]
fn restore_of_nothing_is_an_empty_store_with_the_saved_counter() {
    let store = TemplateApp::restore(Vec::new(), 12).expect("nothing to reject");
    assert_eq!(store.len(), 0);
    assert_eq!(store.next_id(), 12);
}

#[test]
fn restore_lets_the_later_entry_count() {
    let tasks = vec![
        (1, Task { name: "first".to_owned(), done: false, period: Interval::Daily(1) }),
        (1, Task { name: "second".to_owned(), done: true, period: Interval::Weekly(2) }),
    ];
    let store = TemplateApp::restore(tasks, 2).expect("1 is below 2");
    assert_eq!(snapshot(&store), vec![(1, "second".to_owned(), true, Interval::Weekly(2))]);
}

#[test]
fn store_at_the_last_identifier_has_no_room() {
    let store = TemplateApp::restore(Vec::new(), u64::MAX).expect("nothing to reject");
    assert!(!store.has_room());
    let mut store = TemplateApp::restore(Vec::new(), u64::MAX - 1).expect("nothing to reject");
    assert!(store.has_room());
    let id = store.insert("last".to_owned(), true, Today { day: 1, week: 1 });
    assert_eq!(id, u64::MAX - 1);
    assert!(!store.has_room());
    assert_eq!(store.next_id(), u64::MAX);
}

#[test]
fn save_copies_the_tasks_in_order() {
    let tasks = vec![
        (9, Task { name: "nine".to_owned(), done: false, period: Interval::Daily(1) }),
        (2, Task { name: "two".to_owned(), done: true, period: Interval::Weekly(8) }),
    ];
    let store = TemplateApp::restore(tasks, 10).expect("all identifiers are below 10");
    let (saved, counter) = store.save();
    let seen: Vec<(u64, String, bool, Interval)> =
        saved.into_iter().map(|(id, t)| (id, t.name, t.done, t.period)).collect();
    assert_eq!(
        seen,
        vec![
            (2, "two".to_owned(), true, Interval::Weekly(8)),
            (9, "nine".to_owned(), false, Interval::Daily(1)),
        ]
    );
    assert_eq!(counter, 10);
    assert_eq!(store.len(), 2);
}

#[test]
fn save_of_an_empty_store() {
    let (saved, counter) = TemplateApp::default().save();
    assert!(saved.is_empty());
    assert_eq!(counter, 0);
}

#[test]
fn task_is_left_alone_by_a_refresh_on_the_day_of_its_creation() {
    let mut store = TemplateApp::default();
    let on = Today { day: 14, week: 7 };
    let daily = store.insert("stretch".to_owned(), true, on);
    let weekly = store.insert("laundry".to_owned(), false, on);
    store.toggle_done(daily);
    store.toggle_done(weekly);
    store.refresh(on);
    assert_eq!(
        snapshot(&store),
        vec![
            (0, "stretch".to_owned(), true, Interval::Daily(14)),
            (1, "laundry".to_owned(), true, Interval::Weekly(7)),
        ]
    );
}

#[test]
fn new_store_is_the_saved_one() {
    let mut store = TemplateApp::default();
    let on = Today { day: 20, week: 3 };
    let a = store.insert("a".to_owned(), true, on);
    let b = store.insert("b".to_owned(), false, on);
    store.toggle_done(a);
    store.remove(b);

    let mut loaded = TemplateApp::new(Some(store.save()));
    assert_eq!(snapshot(&loaded), vec![(0, "a".to_owned(), true, Interval::Daily(20))]);
    assert_eq!(loaded.next_id(), 2);
    assert_eq!(format!("{:?}", loaded), format!("{:?}", store));

    let c = loaded.insert("c".to_owned(), true, on);
    assert_eq!(c, 2);
}

#[test]
fn new_store_without_saved_state_is_empty() {
    let store = TemplateApp::new(None);
    assert_eq!(store.len(), 0);
    assert_eq!(store.next_id(), 0);
}

#[test]
fn new_store_from_a_corrupt_state_is_empty() {
    let saved = vec![(5, Task::default())];
    let store = TemplateApp::new(Some((saved, 5)));
    assert_eq!(store.len(), 0);
    assert_eq!(store.next_id(), 0);
}
