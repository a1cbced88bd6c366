use todo_sync::error::StoreError;
use todo_sync::local::commands::{
    clear_completed, create_todo, create_todo_with, delete_todo, find_by_id, get_todos,
    has_unique_ids, newest_created_first, sync_local, toggle_todo, toggle_todo_at, update_todo,
    update_todo_at, AppState,
};
use todo_sync::local::models::{CreateTodoRequest, SyncStatus, Todo, UpdateTodoRequest};
use todo_sync::priority::Priority;
use todo_sync::time::Timestamp;

fn at(secs: i64) -> Timestamp {
    Timestamp::new(secs, 0)
}

fn titled(title: &str) -> CreateTodoRequest {
    CreateTodoRequest {
        title: title.to_string(),
        description: None,
        priority: None,
        due_date: None,
    }
}

fn record(id: &str, title: &str, completed: bool, created: i64, updated: i64) -> Todo {
    Todo {
        id: id.to_string(),
        title: title.to_string(),
        description: None,
        completed,
        priority: Priority::Medium,
        created_at: at(created),
        updated_at: at(updated),
        due_date: None,
    }
}

fn ids(todos: &[Todo]) -> Vec<String> {
    todos.iter().map(|t| t.id.clone()).collect()
}

#[test]
fn new_store_is_empty() {
    let state = AppState::new();
    assert!(get_todos(&state).is_empty());
}

#[test]
fn create_fills_in_the_defaults() {
    let mut state = AppState::new();
    let todo = create_todo_with(titled("Buy milk"), "a".to_string(), at(10), &mut state).unwrap();
    assert_eq!(todo, record("a", "Buy milk", false, 10, 10));
    assert_eq!(todo.priority, Priority::Medium);
    assert!(!todo.completed);
    assert_eq!(todo.created_at, todo.updated_at);
    assert_eq!(todo.due_date, None);
    assert_eq!(todo.description, None);
}

#[test]
fn create_takes_what_the_request_gives() {
    let mut state = AppState::new();
    let request = CreateTodoRequest {
        title: "Write report".to_string(),
        description: Some("quarterly".to_string()),
        priority: Some(Priority::High),
        due_date: Some(at(500)),
    };
    let todo = create_todo_with(request, "r".to_string(), at(20), &mut state).unwrap();
    assert_eq!(todo.id, "r");
    assert_eq!(todo.title, "Write report");
    assert_eq!(todo.description, Some("quarterly".to_string()));
    assert_eq!(todo.priority, Priority::High);
    assert_eq!(todo.due_date, Some(at(500)));
    assert_eq!(todo.created_at, at(20));
    assert_eq!(todo.updated_at, at(20));
    assert!(!todo.completed);
}

#[test]
fn create_then_list_holds_exactly_the_created_record() {
    let mut state = AppState::new();
    let todo = create_todo_with(titled("Buy milk"), "a".to_string(), at(10), &mut state).unwrap();
    let listed = get_todos(&state);
    assert_eq!(listed, vec![todo.clone()]);
    assert_eq!(listed[0].created_at, listed[0].updated_at);
}

#[test]
fn create_under_a_stored_id_is_a_storage_fault() {
    let mut state = AppState::new();
    create_todo_with(titled("first"), "a".to_string(), at(10), &mut state).unwrap();
    let again = create_todo_with(titled("second"), "a".to_string(), at(11), &mut state);
    assert_eq!(again, Err(StoreError::StorageFault));
    assert_eq!(get_todos(&state), vec![record("a", "first", false, 10, 10)]);
}

#[test]
fn created_ids_are_unique() {
    let mut state = AppState::new();
    let mut seen: Vec<String> = Vec::new();
    for n in 0..50 {
        let todo = create_todo(titled("same title"), &mut state).unwrap();
        assert_eq!(todo.id.len(), 36);
        assert!(!seen.contains(&todo.id));
        seen.push(todo.id.clone());
        if n % 2 == 0 {
            delete_todo(todo.id.clone(), &mut state).unwrap();
        }
    }
    let listed = get_todos(&state);
    assert_eq!(listed.len(), 25);
    assert!(has_unique_ids(&listed));
}

#[test]
fn create_with_the_clock_sets_both_times_alike() {
    let mut state = AppState::new();
    let todo = create_todo(titled("Buy milk"), &mut state).unwrap();
    assert_eq!(todo.created_at, todo.updated_at);
    assert!(todo.created_at.secs > 1_600_000_000);
    assert_eq!(todo.title, "Buy milk");
    assert_eq!(todo.priority, Priority::Medium);
    assert!(!todo.completed);
    assert_eq!(get_todos(&state), vec![todo]);
}

#[test]
fn list_is_newest_created_first() {
    let mut state = AppState::new();
    create_todo_with(titled("old"), "a".to_string(), at(10), &mut state).unwrap();
    create_todo_with(titled("newest"), "b".to_string(), at(30), &mut state).unwrap();
    create_todo_with(titled("middle"), "c".to_string(), at(20), &mut state).unwrap();
    assert_eq!(ids(&get_todos(&state)), vec!["b", "c", "a"]);
}

#[test]
fn list_keeps_records_of_one_instant_in_arrival_order() {
    let mut state = AppState::new();
    create_todo_with(titled("one"), "a".to_string(), at(10), &mut state).unwrap();
    create_todo_with(titled("two"), "b".to_string(), at(10), &mut state).unwrap();
    create_todo_with(titled("three"), "c".to_string(), at(11), &mut state).unwrap();
    create_todo_with(titled("four"), "d".to_string(), at(10), &mut state).unwrap();
    assert_eq!(ids(&get_todos(&state)), vec!["c", "a", "b", "d"]);
}

#[test]
fn newest_created_first_sorts_any_records() {
    let records = vec![
        record("a", "a", false, 5, 50),
        record("b", "b", true, 7, 7),
        record("c", "c", false, 6, 60),
    ];
    let listed = newest_created_first(&records);
    assert_eq!(
        listed,
        vec![
            record("b", "b", true, 7, 7),
            record("c", "c", false, 6, 60),
            record("a", "a", false, 5, 50),
        ]
    );
}

#[test]
fn update_applies_only_the_given_fields() {
    let mut state = AppState::new();
    let request = CreateTodoRequest {
        title: "Buy milk".to_string(),
        description: Some("two litres".to_string()),
        priority: Some(Priority::Low),
        due_date: Some(at(900)),
    };
    create_todo_with(request, "a".to_string(), at(10), &mut state).unwrap();
    let patch = UpdateTodoRequest {
        title: None,
        description: None,
        completed: Some(true),
        priority: None,
        due_date: None,
    };
    let todo = update_todo_at("a".to_string(), patch, at(20), &mut state).unwrap();
    assert_eq!(todo.id, "a");
    assert_eq!(todo.title, "Buy milk");
    assert_eq!(todo.description, Some("two litres".to_string()));
    assert!(todo.completed);
    assert_eq!(todo.priority, Priority::Low);
    assert_eq!(todo.created_at, at(10));
    assert_eq!(todo.updated_at, at(20));
    assert_eq!(todo.due_date, Some(at(900)));
    assert_eq!(get_todos(&state), vec![todo]);
}

#[test]
fn update_replaces_every_given_field() {
    let mut state = AppState::new();
    create_todo_with(titled("Buy milk"), "a".to_string(), at(10), &mut state).unwrap();
    let patch = UpdateTodoRequest {
        title: Some("Buy oat milk".to_string()),
        description: Some("barista".to_string()),
        completed: Some(true),
        priority: Some(Priority::High),
        due_date: Some(at(77)),
    };
    let todo = update_todo_at("a".to_string(), patch, at(20), &mut state).unwrap();
    let expected = Todo {
        id: "a".to_string(),
        title: "Buy oat milk".to_string(),
        description: Some("barista".to_string()),
        completed: true,
        priority: Priority::High,
        created_at: at(10),
        updated_at: at(20),
        due_date: Some(at(77)),
    };
    assert_eq!(todo, expected);
    assert_eq!(get_todos(&state), vec![expected]);
}

#[test]
fn empty_update_only_advances_updated_at() {
    let mut state = AppState::new();
    let request = CreateTodoRequest {
        title: "Buy milk".to_string(),
        description: Some("two litres".to_string()),
        priority: Some(Priority::High),
        due_date: Some(at(900)),
    };
    let before = create_todo_with(request, "a".to_string(), at(10), &mut state).unwrap();
    let after = update_todo_at("a".to_string(), UpdateTodoRequest::empty(), at(11), &mut state)
        .unwrap();
    assert!(after.updated_at.is_after(&before.updated_at));
    assert_eq!(after, Todo { updated_at: at(11), ..before });
}

#[test]
fn update_touches_no_other_record() {
    let mut state = AppState::new();
    create_todo_with(titled("one"), "a".to_string(), at(10), &mut state).unwrap();
    create_todo_with(titled("two"), "b".to_string(), at(11), &mut state).unwrap();
    let patch = UpdateTodoRequest { title: Some("uno".to_string()), ..UpdateTodoRequest::empty() };
    update_todo_at("a".to_string(), patch, at(20), &mut state).unwrap();
    assert_eq!(
        get_todos(&state),
        vec![record("b", "two", false, 11, 11), record("a", "uno", false, 10, 20)]
    );
}

#[test]
fn update_of_an_unknown_id_is_not_found() {
    let mut state = AppState::new();
    create_todo_with(titled("one"), "a".to_string(), at(10), &mut state).unwrap();
    let outcome = update_todo_at("zz".to_string(), UpdateTodoRequest::empty(), at(20), &mut state);
    assert_eq!(outcome, Err(StoreError::NotFound));
    let outcome = update_todo("zz".to_string(), UpdateTodoRequest::empty(), &mut state);
    assert_eq!(outcome, Err(StoreError::NotFound));
    assert_eq!(get_todos(&state), vec![record("a", "one", false, 10, 10)]);
}

#[test]
fn update_with_the_clock_stamps_the_record() {
    let mut state = AppState::new();
    let created = create_todo(titled("Buy milk"), &mut state).unwrap();
    let patch = UpdateTodoRequest { completed: Some(true), ..UpdateTodoRequest::empty() };
    let updated = update_todo(created.id.clone(), patch, &mut state).unwrap();
    assert!(updated.completed);
    assert_eq!(updated.title, "Buy milk");
    assert_eq!(updated.created_at, created.created_at);
    assert!(!updated.updated_at.is_before(&created.updated_at));
    assert_eq!(get_todos(&state), vec![updated]);
}

#[test]
fn toggle_twice_restores_completed() {
    let mut state = AppState::new();
    let created = create_todo_with(titled("one"), "a".to_string(), at(10), &mut state).unwrap();
    let once = toggle_todo_at("a".to_string(), at(11), &mut state).unwrap();
    assert!(once.completed);
    assert!(once.updated_at.is_after(&created.updated_at));
    assert_eq!(once, Todo { completed: true, updated_at: at(11), ..created.clone() });
    let twice = toggle_todo_at("a".to_string(), at(12), &mut state).unwrap();
    assert!(!twice.completed);
    assert!(twice.updated_at.is_after(&once.updated_at));
    assert_eq!(twice, Todo { updated_at: at(12), ..created });
    assert_eq!(get_todos(&state), vec![twice]);
}

#[test]
fn toggle_of_an_unknown_id_is_not_found() {
    let mut state = AppState::new();
    assert_eq!(toggle_todo_at("a".to_string(), at(1), &mut state), Err(StoreError::NotFound));
    assert_eq!(toggle_todo("a".to_string(), &mut state), Err(StoreError::NotFound));
}

#[test]
fn toggle_with_the_clock_flips_completed() {
    let mut state = AppState::new();
    let created = create_todo(titled("one"), &mut state).unwrap();
    let once = toggle_todo(created.id.clone(), &mut state).unwrap();
    assert!(once.completed);
    let twice = toggle_todo(created.id.clone(), &mut state).unwrap();
    assert!(!twice.completed);
    assert!(!twice.updated_at.is_before(&once.updated_at));
    assert_eq!(twice.title, created.title);
    assert_eq!(twice.created_at, created.created_at);
}

#[test]
fn delete_removes_the_record_from_the_list() {
    let mut state = AppState::new();
    create_todo_with(titled("one"), "a".to_string(), at(10), &mut state).unwrap();
    create_todo_with(titled("two"), "b".to_string(), at(11), &mut state).unwrap();
    create_todo_with(titled("three"), "c".to_string(), at(12), &mut state).unwrap();
    assert_eq!(delete_todo("b".to_string(), &mut state), Ok(()));
    assert_eq!(
        get_todos(&state),
        vec![record("c", "three", false, 12, 12), record("a", "one", false, 10, 10)]
    );
}

#[test]
fn delete_of_an_unknown_id_is_not_found() {
    let mut state = AppState::new();
    assert_eq!(delete_todo("a".to_string(), &mut state), Err(StoreError::NotFound));
    create_todo_with(titled("one"), "a".to_string(), at(10), &mut state).unwrap();
    assert_eq!(delete_todo("b".to_string(), &mut state), Err(StoreError::NotFound));
    assert_eq!(delete_todo("a".to_string(), &mut state), Ok(()));
    assert_eq!(delete_todo("a".to_string(), &mut state), Err(StoreError::NotFound));
    assert!(get_todos(&state).is_empty());
}

#[test]
fn a_deleted_id_can_be_created_again() {
    let mut state = AppState::new();
    create_todo_with(titled("one"), "a".to_string(), at(10), &mut state).unwrap();
    delete_todo("a".to_string(), &mut state).unwrap();
    let again = create_todo_with(titled("one again"), "a".to_string(), at(20), &mut state).unwrap();
    assert_eq!(get_todos(&state), vec![again]);
}

#[test]
fn clear_completed_removes_all_and_only_completed() {
    let mut state = AppState::new();
    sync_local(
        vec![
            record("a", "done", true, 10, 15),
            record("b", "open", false, 11, 16),
            record("c", "done too", true, 12, 17),
            record("d", "open too", false, 13, 13),
        ],
        &mut state,
    )
    .unwrap();
    let remaining = clear_completed(&mut state);
    let expected = vec![record("d", "open too", false, 13, 13), record("b", "open", false, 11, 16)];
    assert_eq!(remaining, expected);
    assert_eq!(get_todos(&state), expected);
}

#[test]
fn clear_completed_on_nothing_completed_changes_nothing() {
    let mut state = AppState::new();
    assert!(clear_completed(&mut state).is_empty());
    create_todo_with(titled("one"), "a".to_string(), at(10), &mut state).unwrap();
    assert_eq!(clear_completed(&mut state), vec![record("a", "one", false, 10, 10)]);
    toggle_todo_at("a".to_string(), at(11), &mut state).unwrap();
    assert!(clear_completed(&mut state).is_empty());
    assert!(get_todos(&state).is_empty());
}

#[test]
fn sync_local_replaces_everything() {
    let mut state = AppState::new();
    create_todo_with(titled("local only"), "a".to_string(), at(10), &mut state).unwrap();
    let remote = vec![record("x", "remote one", true, 5, 9), record("y", "remote two", false, 6, 6)];
    assert_eq!(sync_local(remote.clone(), &mut state), Ok(()));
    assert_eq!(
        get_todos(&state),
        vec![record("y", "remote two", false, 6, 6), record("x", "remote one", true, 5, 9)]
    );
    assert_eq!(sync_local(Vec::new(), &mut state), Ok(()));
    assert!(get_todos(&state).is_empty());
}

#[test]
fn sync_local_is_all_or_nothing() {
    let mut state = AppState::new();
    create_todo_with(titled("kept"), "a".to_string(), at(10), &mut state).unwrap();
    let remote = vec![
        record("x", "one", false, 5, 5),
        record("y", "two", false, 6, 6),
        record("x", "one again", false, 7, 7),
    ];
    assert_eq!(sync_local(remote, &mut state), Err(StoreError::StorageFault));
    assert_eq!(get_todos(&state), vec![record("a", "kept", false, 10, 10)]);
}

#[test]
fn find_by_id_gives_the_position() {
    let records = vec![record("a", "one", false, 1, 1), record("b", "two", false, 2, 2)];
    assert_eq!(find_by_id(&records, &"a".to_string()), Some(0));
    assert_eq!(find_by_id(&records, &"b".to_string()), Some(1));
    assert_eq!(find_by_id(&records, &"c".to_string()), None);
    assert_eq!(find_by_id(&Vec::new(), &"a".to_string()), None);
}

#[test]
fn has_unique_ids_finds_a_repeated_id() {
    assert!(has_unique_ids(&Vec::new()));
    assert!(has_unique_ids(&vec![record("a", "one", false, 1, 1)]));
    assert!(has_unique_ids(&vec![record("a", "one", false, 1, 1), record("b", "one", false, 1, 1)]));
    assert!(!has_unique_ids(&vec![
        record("a", "one", false, 1, 1),
        record("b", "two", false, 2, 2),
        record("a", "three", true, 3, 3),
    ]));
}

#[test]
fn sync_status_is_plain_data() {
    let status = SyncStatus { connected: true, last_sync: Some(at(3)), pending_changes: 2 };
    assert_eq!(status, SyncStatus { connected: true, last_sync: Some(at(3)), pending_changes: 2 });
    assert_ne!(status, SyncStatus { connected: false, last_sync: None, pending_changes: 0 });
}

#[test]
fn create_on_an_empty_store_succeeds() {
    for _ in 0..20 {
        let mut state = AppState::new();
        assert!(create_todo(titled("first"), &mut state).is_ok());
        assert_eq!(get_todos(&state).len(), 1);
    }
}
