use everyframe::{Anchor, Today, WrapApp};

#[test]
fn all_panels_in_order() {
    assert_eq!(Anchor::all(), vec![Anchor::TodoList, Anchor::NewTask]);
}

#[test]
fn default_panel_is_the_task_list() {
    assert_eq!(Anchor::default(), Anchor::TodoList);
}

#[test]
fn panel_names() {
    assert_eq!(Anchor::TodoList.name(), "TodoList");
    assert_eq!(Anchor::NewTask.name(), "NewTask");
}

#[test]
fn panel_is_found_by_its_name() {
    assert_eq!(Anchor::from_name("TodoList"), Some(Anchor::TodoList));
    assert_eq!(Anchor::from_name("NewTask"), Some(Anchor::NewTask));
    for anchor in Anchor::all() {
        assert_eq!(Anchor::from_name(&anchor.name()), Some(anchor));
    }
}

#[test]
fn unknown_names_find_no_panel() {
    assert_eq!(Anchor::from_name(""), None);
    assert_eq!(Anchor::from_name("todolist"), None);
    assert_eq!(Anchor::from_name("TodoList "), None);
    assert_eq!(Anchor::from_name("#TodoList"), None);
    assert_eq!(Anchor::from_name("Tasks"), None);
}

#[test]
fn default_frame_shows_an_empty_task_list() {
    let app = WrapApp::default();
    assert_eq!(app.selected_anchor, Anchor::TodoList);
    assert_eq!(app.todo_list.len(), 0);
    assert_eq!(app.todo_list.next_id(), 0);
}

#[test]
fn only_the_selected_panel_is_shown() {
    let app = WrapApp::default();
    assert!(app.shows(Anchor::TodoList, false));
    assert!(!app.shows(Anchor::NewTask, false));
}

#[test]
fn every_panel_is_shown_while_everything_is_visible() {
    let app = WrapApp::default();
    assert!(app.shows(Anchor::TodoList, true));
    assert!(app.shows(Anchor::NewTask, true));
}

#[test]
fn fragment_selects_the_panel_it_names() {
    let mut app = WrapApp::default();
    app.follow_fragment("#NewTask");
    assert_eq!(app.selected_anchor, Anchor::NewTask);
    assert!(app.shows(Anchor::NewTask, false));
    assert!(!app.shows(Anchor::TodoList, false));
    app.follow_fragment("#TodoList");
    assert_eq!(app.selected_anchor, Anchor::TodoList);
}

#[test]
fn fragment_that_names_no_panel_changes_nothing() {
    let mut app = WrapApp::default();
    app.selected_anchor = Anchor::NewTask;
    for fragment in ["", "#", "NewTask", "TodoList", "#todolist", "##TodoList", "#TodoList/", "é#TodoList"] {
        app.follow_fragment(fragment);
        assert_eq!(app.selected_anchor, Anchor::NewTask, "after {:?}", fragment);
    }
}

#[test]
fn fragment_leaves_the_tasks_alone() {
    let mut app = WrapApp::default();
    let id = app.todo_list.insert("stretch".to_owned(), true, Today { day: 3, week: 1 });
    app.follow_fragment("#NewTask");
    assert_eq!(app.todo_list.ids(), vec![id]);
    assert_eq!(app.todo_list.get(id).map(|t| t.name.as_str()), Some("stretch"));
}
