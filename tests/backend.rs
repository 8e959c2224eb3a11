use rust_todo::backend::{apply_input, MemoryBackend, StorageError};
use rust_todo::machine::{App, Effect, Input};

fn snapshot(tasks: &[rust_todo::task::Task]) -> Vec<(Option<i64>, String, bool)> {
    tasks.iter().map(|t| (t.id, t.description.clone(), t.status)).collect()
}

fn seeded() -> (App, MemoryBackend) {
    let mut b = MemoryBackend::new();
    assert_eq!(b.create("a".to_string(), false), Ok(1));
    assert_eq!(b.create("b".to_string(), true), Ok(2));
    assert_eq!(b.create("c".to_string(), false), Ok(3));
    (App::with_tasks(b.list()), b)
}

#[test]
fn backend_crud() {
    let mut b = MemoryBackend::new();
    assert_eq!(b.create("x".to_string(), false), Ok(1));
    assert_eq!(b.create("y".to_string(), false), Ok(2));
    assert_eq!(b.update_status(2, true), Ok(()));
    assert_eq!(b.delete(1), Ok(()));
    assert_eq!(snapshot(&b.list()), vec![(Some(2), "y".to_string(), true)]);
    assert_eq!(b.create("z".to_string(), false), Ok(3));
}

#[test]
fn backend_unknown_identity_is_not_found() {
    let mut b = MemoryBackend::new();
    assert_eq!(b.update_status(4, true), Err(StorageError::NotFound));
    assert_eq!(b.delete(4), Err(StorageError::NotFound));
    assert!(b.list().is_empty());
}

#[test]
fn backend_runs_out_of_identities() {
    let mut b = MemoryBackend::starting_at(i64::MAX - 1);
    assert_eq!(b.create("last".to_string(), false), Ok(i64::MAX - 1));
    assert_eq!(b.create("one too many".to_string(), false), Err(StorageError::Exhausted));
    assert_eq!(b.list().len(), 1);
}

#[test]
fn perform_dispatches_effects() {
    let mut b = MemoryBackend::new();
    assert_eq!(b.perform(Effect::Nothing), Ok(None));
    let create = Effect::Create { index: 0, description: "t".to_string(), status: false };
    assert_eq!(b.perform(create), Ok(Some(1)));
    assert_eq!(b.perform(Effect::UpdateStatus { id: 1, status: true }), Ok(None));
    assert_eq!(b.perform(Effect::Delete { id: 9 }), Err(StorageError::NotFound));
    assert_eq!(b.perform(Effect::Delete { id: 1 }), Ok(None));
    assert!(b.list().is_empty());
}

#[test]
fn typed_task_is_persisted() {
    let (mut app, mut b) = seeded();
    apply_input(&mut app, &mut b, Input::EnterEditMode).unwrap();
    for c in "Buy milk".chars() {
        apply_input(&mut app, &mut b, Input::AppendChar(c)).unwrap();
    }
    apply_input(&mut app, &mut b, Input::Confirm).unwrap();
    let listed = snapshot(&b.list());
    assert_eq!(listed.len(), 4);
    assert_eq!(listed[3], (Some(4), "Buy milk".to_string(), false));
    assert_eq!(snapshot(app.tasks()), listed);
}

#[test]
fn round_trip_toggle() {
    let (mut app, mut b) = seeded();
    apply_input(&mut app, &mut b, Input::MoveDown).unwrap();
    apply_input(&mut app, &mut b, Input::Confirm).unwrap();
    let listed = snapshot(&b.list());
    assert_eq!(
        listed,
        vec![
            (Some(1), "a".to_string(), false),
            (Some(2), "b".to_string(), false),
            (Some(3), "c".to_string(), false),
        ]
    );
    assert_eq!(snapshot(app.tasks()), listed);
}

#[test]
fn round_trip_delete() {
    let (mut app, mut b) = seeded();
    apply_input(&mut app, &mut b, Input::DeleteSelected).unwrap();
    let listed = snapshot(&b.list());
    assert_eq!(
        listed,
        vec![(Some(2), "b".to_string(), true), (Some(3), "c".to_string(), false)]
    );
    assert_eq!(snapshot(app.tasks()), listed);
}

#[test]
fn refused_creation_is_reported() {
    let mut b = MemoryBackend::starting_at(i64::MAX);
    let mut app = App::with_tasks(b.list());
    apply_input(&mut app, &mut b, Input::EnterEditMode).unwrap();
    apply_input(&mut app, &mut b, Input::AppendChar('x')).unwrap();
    assert_eq!(apply_input(&mut app, &mut b, Input::Confirm), Err(StorageError::Exhausted));
    assert!(b.list().is_empty());
    assert_eq!(app.tasks().len(), 1);
    assert_eq!(app.tasks()[0].id, None);
}
