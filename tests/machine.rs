use rust_todo::machine::{has_distinct_ids, App, Effect, Input, Mode};
use rust_todo::task::Task;

fn task(id: i64, description: &str, status: bool) -> Task {
    Task { id: Some(id), description: description.to_string(), status }
}

fn three_tasks() -> App {
    App::with_tasks(vec![task(1, "a", false), task(2, "b", true), task(3, "c", false)])
}

fn descriptions(app: &App) -> Vec<String> {
    app.tasks().iter().map(|t| t.description.clone()).collect()
}

fn type_text(app: &mut App, text: &str) {
    for c in text.chars() {
        assert!(matches!(app.handle_input(Input::AppendChar(c)), Effect::Nothing));
    }
}

#[test]
fn new_task_is_open_and_unpersisted() {
    let t = Task::new("Buy milk".to_string());
    assert_eq!(t.id, None);
    assert_eq!(t.description, "Buy milk");
    assert!(!t.status);
}

#[test]
fn task_line_shows_status_mark() {
    assert_eq!(task(1, "Buy milk", false).line(), "[ ] Buy milk");
    assert_eq!(task(1, "Buy milk", true).line(), "[x] Buy milk");
    assert_eq!(task(1, "", true).line(), "[x] ");
}

#[test]
fn default_app_is_empty_and_navigating() {
    let app = App::default();
    assert!(app.tasks().is_empty());
    assert_eq!(app.selected_task(), 0);
    assert!(!app.is_editing());
    assert!(!app.exit());
    assert_eq!(app.input_buffer(), "");
}

#[test]
fn navigation_clamps_at_both_ends() {
    let mut app = three_tasks();
    let script = [
        (Input::MoveUp, 0),
        (Input::MoveDown, 1),
        (Input::MoveDown, 2),
        (Input::MoveDown, 2),
        (Input::MoveDown, 2),
        (Input::MoveUp, 1),
        (Input::MoveUp, 0),
        (Input::MoveUp, 0),
    ];
    for (input, expected) in script {
        app.handle_input(input);
        assert_eq!(app.selected_task(), expected);
        assert!(app.selected_task() < app.tasks().len());
        assert_eq!(app.tasks().len(), 3);
    }
}

#[test]
fn navigation_on_empty_store_is_ignored() {
    let mut app = App::new();
    app.handle_input(Input::MoveDown);
    app.handle_input(Input::MoveUp);
    assert_eq!(app.selected_task(), 0);
    assert!(matches!(app.handle_input(Input::Confirm), Effect::Nothing));
    assert!(app.tasks().is_empty());
}

#[test]
fn moves_are_ignored_while_entering_text() {
    let mut app = three_tasks();
    app.handle_input(Input::EnterEditMode);
    app.handle_input(Input::MoveDown);
    assert_eq!(app.selected_task(), 0);
}

#[test]
fn confirm_twice_restores_status() {
    let mut app = three_tasks();
    app.handle_input(Input::MoveDown);
    let first = app.handle_input(Input::Confirm);
    assert!(matches!(first, Effect::UpdateStatus { id: 2, status: false }));
    assert!(!app.tasks()[1].status);
    let second = app.handle_input(Input::Confirm);
    assert!(matches!(second, Effect::UpdateStatus { id: 2, status: true }));
    assert!(app.tasks()[1].status);
    assert_eq!(descriptions(&app), vec!["a", "b", "c"]);
}

#[test]
fn cancel_discards_typed_text() {
    let mut app = three_tasks();
    app.handle_input(Input::EnterEditMode);
    assert!(app.is_editing());
    type_text(&mut app, "draft");
    assert_eq!(app.input_buffer(), "draft");
    assert!(matches!(app.handle_input(Input::CancelEdit), Effect::Nothing));
    assert!(!app.is_editing());
    assert!(matches!(app.mode(), Mode::Navigation));
    assert_eq!(app.input_buffer(), "");
    assert_eq!(descriptions(&app), vec!["a", "b", "c"]);
}

#[test]
fn confirm_adds_typed_task() {
    let mut app = three_tasks();
    app.handle_input(Input::EnterEditMode);
    type_text(&mut app, "Buy milk");
    let e = app.handle_input(Input::Confirm);
    match e {
        Effect::Create { index, description, status } => {
            assert_eq!(index, 3);
            assert_eq!(description, "Buy milk");
            assert!(!status);
        }
        other => panic!("unexpected effect {:?}", other),
    }
    assert_eq!(app.tasks().len(), 4);
    let added = &app.tasks()[3];
    assert_eq!(added.description, "Buy milk");
    assert!(!added.status);
    assert_eq!(added.id, None);
    assert!(!app.is_editing());
    app.on_created(3, 42);
    assert_eq!(app.tasks()[3].id, Some(42));
}

#[test]
fn confirm_with_empty_buffer_only_leaves_text_entry() {
    let mut app = three_tasks();
    app.handle_input(Input::EnterEditMode);
    assert!(matches!(app.handle_input(Input::Confirm), Effect::Nothing));
    assert!(!app.is_editing());
    assert_eq!(app.tasks().len(), 3);
}

#[test]
fn backspace_removes_last_character() {
    let mut app = App::new();
    app.handle_input(Input::EnterEditMode);
    app.handle_input(Input::Backspace);
    assert_eq!(app.input_buffer(), "");
    type_text(&mut app, "ab");
    app.handle_input(Input::Backspace);
    assert_eq!(app.input_buffer(), "a");
}

#[test]
fn typing_is_ignored_while_navigating() {
    let mut app = App::new();
    app.handle_input(Input::AppendChar('x'));
    app.handle_input(Input::Backspace);
    assert_eq!(app.input_buffer(), "");
    assert!(!app.is_editing());
}

#[test]
fn enter_edit_mode_starts_with_empty_buffer() {
    let mut app = App::new();
    app.handle_input(Input::EnterEditMode);
    type_text(&mut app, "xy");
    app.handle_input(Input::EnterEditMode);
    assert_eq!(app.input_buffer(), "xy");
}

#[test]
fn delete_only_task_empties_store() {
    let mut app = App::with_tasks(vec![task(7, "only", false)]);
    let e = app.handle_input(Input::DeleteSelected);
    assert!(matches!(e, Effect::Delete { id: 7 }));
    assert!(app.tasks().is_empty());
    assert_eq!(app.selected_task(), 0);
    assert!(matches!(app.handle_input(Input::DeleteSelected), Effect::Nothing));
    assert!(app.tasks().is_empty());
    assert_eq!(app.selected_task(), 0);
}

#[test]
fn delete_middle_task_shifts_later_ones() {
    let mut app = three_tasks();
    app.handle_input(Input::MoveDown);
    let e = app.handle_input(Input::DeleteSelected);
    assert!(matches!(e, Effect::Delete { id: 2 }));
    assert_eq!(descriptions(&app), vec!["a", "c"]);
    assert_eq!(app.selected_task(), 1);
    assert_eq!(app.tasks()[1].id, Some(3));
}

#[test]
fn delete_last_task_moves_selection_back() {
    let mut app = three_tasks();
    app.handle_input(Input::MoveDown);
    app.handle_input(Input::MoveDown);
    app.handle_input(Input::DeleteSelected);
    assert_eq!(descriptions(&app), vec!["a", "b"]);
    assert_eq!(app.selected_task(), 1);
}

#[test]
fn delete_is_ignored_while_entering_text() {
    let mut app = three_tasks();
    app.handle_input(Input::EnterEditMode);
    assert!(matches!(app.handle_input(Input::DeleteSelected), Effect::Nothing));
    assert_eq!(app.tasks().len(), 3);
}

#[test]
fn unpersisted_task_needs_no_storage_work() {
    let mut app = App::new();
    app.add_task("local".to_string());
    assert!(matches!(app.handle_input(Input::Confirm), Effect::Nothing));
    assert!(app.tasks()[0].status);
    assert!(matches!(app.handle_input(Input::DeleteSelected), Effect::Nothing));
    assert!(app.tasks().is_empty());
}

#[test]
fn quit_sets_exit_in_either_mode() {
    let mut app = App::new();
    app.handle_input(Input::Quit);
    assert!(app.exit());
    let mut editing = App::new();
    editing.handle_input(Input::EnterEditMode);
    editing.handle_input(Input::Quit);
    assert!(editing.exit());
    assert!(editing.is_editing());
}

#[test]
fn direct_operations_out_of_range_do_nothing() {
    let mut app = three_tasks();
    assert!(matches!(app.delete_task(5), Effect::Nothing));
    assert!(matches!(app.update_task_status(3, true), Effect::Nothing));
    app.on_created(9, 4);
    assert_eq!(descriptions(&app), vec!["a", "b", "c"]);
    assert!(matches!(app.update_task_status(0, true), Effect::UpdateStatus { id: 1, status: true }));
    assert!(app.tasks()[0].status);
}

#[test]
fn distinct_ids_are_checked() {
    assert!(has_distinct_ids(&vec![task(1, "a", false), task(2, "b", false)]));
    assert!(has_distinct_ids(&vec![Task::new("a".to_string()), Task::new("b".to_string())]));
    assert!(!has_distinct_ids(&vec![task(1, "a", false), task(2, "b", false), task(1, "c", true)]));
    assert!(has_distinct_ids(&vec![]));
}

#[test]
fn free_ids_are_checked() {
    let app = three_tasks();
    assert!(app.id_is_free(0, 1));
    assert!(!app.id_is_free(0, 2));
    assert!(app.id_is_free(1, 4));
    assert!(!app.id_is_free(5, 3));
}
