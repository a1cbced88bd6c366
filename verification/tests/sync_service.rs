use todo_sync::error::StoreError;
use todo_sync::priority::Priority;
use todo_sync::request::{CreateTodoRequest, UpdateTodoRequest};
use todo_sync::server::db::database_file;
use todo_sync::server::handlers::{
    create_todo, create_todo_with, delete_todo, get_todos, health_check, sync_todos, sync_todos_at,
    update_todo, update_todo_at,
};
use todo_sync::server::models::{SyncRequest, Todo};
use todo_sync::server::table::{
    changed_records, find_by_key, newest_created_first, newest_updated_first, owned_records,
    TodoTable,
};
use todo_sync::time::Timestamp;

fn at(secs: i64) -> Timestamp {
    Timestamp::new(secs, 0)
}

fn titled(title: &str) -> CreateTodoRequest {
    CreateTodoRequest {
        title: title.to_string(),
        description: None,
        priority: None,
        due_date: None,
    }
}

fn row(id: &str, user: &str, title: &str, created: i64, updated: i64) -> Todo {
    Todo {
        id: id.to_string(),
        user_id: user.to_string(),
        title: title.to_string(),
        description: None,
        completed: false,
        priority: Priority::Medium,
        created_at: at(created),
        updated_at: at(updated),
        due_date: None,
    }
}

fn batch(todos: Vec<Todo>) -> SyncRequest {
    SyncRequest { last_sync: None, todos }
}

fn list(table: &TodoTable, user: &str) -> Vec<Todo> {
    let response = get_todos(table, user.to_string());
    assert!(response.success);
    assert_eq!(response.error, None);
    response.data.unwrap()
}

fn table_of(user: &str, todos: Vec<Todo>) -> TodoTable {
    let mut table = TodoTable::new();
    sync_todos_at(&mut table, user.to_string(), batch(todos), at(0));
    table
}

#[test]
fn health_check_answers_ok() {
    assert_eq!(health_check(), "OK");
}

#[test]
fn status_codes_and_messages() {
    assert_eq!(StoreError::NotFound.status_code(), 404);
    assert_eq!(StoreError::StorageFault.status_code(), 500);
    assert_eq!(StoreError::NotFound.message(), "not found");
    assert_eq!(StoreError::StorageFault.message(), "internal error");
}

#[test]
fn deletion_outcome_goes_by_the_rows_affected() {
    assert_eq!(StoreError::deletion_outcome(0), Err(StoreError::NotFound));
    assert_eq!(StoreError::deletion_outcome(1), Ok(()));
    assert_eq!(StoreError::deletion_outcome(2), Ok(()));
}

#[test]
fn new_table_is_empty() {
    let table = TodoTable::new();
    assert!(table.rows().is_empty());
    assert!(list(&table, "u1").is_empty());
}

#[test]
fn server_create_is_scoped_to_the_user() {
    let mut table = TodoTable::new();
    let response =
        create_todo_with(&mut table, "u1".to_string(), titled("Buy milk"), "a".to_string(), at(10))
            .unwrap();
    assert!(response.success);
    assert_eq!(response.error, None);
    assert_eq!(response.data, Some(row("a", "u1", "Buy milk", 10, 10)));
    assert_eq!(list(&table, "u1"), vec![row("a", "u1", "Buy milk", 10, 10)]);
    assert!(list(&table, "u2").is_empty());
}

#[test]
fn server_create_under_a_stored_key_is_a_storage_fault() {
    let mut table = TodoTable::new();
    create_todo_with(&mut table, "u1".to_string(), titled("one"), "a".to_string(), at(10)).unwrap();
    let again =
        create_todo_with(&mut table, "u1".to_string(), titled("two"), "a".to_string(), at(11));
    assert_eq!(again.err(), Some(StoreError::StorageFault));
    assert_eq!(list(&table, "u1"), vec![row("a", "u1", "one", 10, 10)]);
}

#[test]
fn two_users_may_share_an_id() {
    let mut table = TodoTable::new();
    create_todo_with(&mut table, "u1".to_string(), titled("mine"), "a".to_string(), at(10)).unwrap();
    create_todo_with(&mut table, "u2".to_string(), titled("yours"), "a".to_string(), at(11)).unwrap();
    assert_eq!(list(&table, "u1"), vec![row("a", "u1", "mine", 10, 10)]);
    assert_eq!(list(&table, "u2"), vec![row("a", "u2", "yours", 11, 11)]);
}

#[test]
fn server_create_with_the_clock() {
    let mut table = TodoTable::new();
    let todo = create_todo(&mut table, "u1".to_string(), titled("Buy milk")).unwrap().data.unwrap();
    assert_eq!(todo.id.len(), 36);
    assert_eq!(todo.user_id, "u1");
    assert_eq!(todo.priority, Priority::Medium);
    assert!(!todo.completed);
    assert_eq!(todo.created_at, todo.updated_at);
    assert_eq!(list(&table, "u1"), vec![todo]);
}

#[test]
fn server_list_is_newest_created_first() {
    let mut table = TodoTable::new();
    create_todo_with(&mut table, "u1".to_string(), titled("old"), "a".to_string(), at(10)).unwrap();
    create_todo_with(&mut table, "u2".to_string(), titled("other"), "z".to_string(), at(40)).unwrap();
    create_todo_with(&mut table, "u1".to_string(), titled("new"), "b".to_string(), at(30)).unwrap();
    create_todo_with(&mut table, "u1".to_string(), titled("mid"), "c".to_string(), at(20)).unwrap();
    assert_eq!(
        list(&table, "u1"),
        vec![row("b", "u1", "new", 30, 30), row("c", "u1", "mid", 20, 20), row("a", "u1", "old", 10, 10)]
    );
}

#[test]
fn server_update_applies_the_patch() {
    let mut table = TodoTable::new();
    create_todo_with(&mut table, "u1".to_string(), titled("Buy milk"), "a".to_string(), at(10))
        .unwrap();
    let patch = UpdateTodoRequest { completed: Some(true), ..UpdateTodoRequest::empty() };
    let response =
        update_todo_at(&mut table, "u1".to_string(), "a".to_string(), patch, at(20)).unwrap();
    let expected = Todo { completed: true, ..row("a", "u1", "Buy milk", 10, 20) };
    assert!(response.success);
    assert_eq!(response.data, Some(expected.clone()));
    assert_eq!(list(&table, "u1"), vec![expected]);
}

#[test]
fn server_update_of_another_users_todo_is_not_found() {
    let mut table = TodoTable::new();
    create_todo_with(&mut table, "u1".to_string(), titled("mine"), "a".to_string(), at(10)).unwrap();
    let outcome = update_todo_at(
        &mut table,
        "u2".to_string(),
        "a".to_string(),
        UpdateTodoRequest::empty(),
        at(20),
    );
    assert_eq!(outcome.err(), Some(StoreError::NotFound));
    let outcome =
        update_todo(&mut table, "u1".to_string(), "b".to_string(), UpdateTodoRequest::empty());
    assert_eq!(outcome.err(), Some(StoreError::NotFound));
    assert_eq!(list(&table, "u1"), vec![row("a", "u1", "mine", 10, 10)]);
}

#[test]
fn server_update_with_the_clock() {
    let mut table = TodoTable::new();
    let created = create_todo(&mut table, "u1".to_string(), titled("t")).unwrap().data.unwrap();
    let patch = UpdateTodoRequest { title: Some("u".to_string()), ..UpdateTodoRequest::empty() };
    let updated = update_todo(&mut table, "u1".to_string(), created.id.clone(), patch)
        .unwrap()
        .data
        .unwrap();
    assert_eq!(updated.title, "u");
    assert_eq!(updated.created_at, created.created_at);
    assert!(!updated.updated_at.is_before(&created.updated_at));
    assert_eq!(list(&table, "u1"), vec![updated]);
}

#[test]
fn server_delete_is_scoped_to_the_user() {
    let mut table = TodoTable::new();
    create_todo_with(&mut table, "u1".to_string(), titled("mine"), "a".to_string(), at(10)).unwrap();
    create_todo_with(&mut table, "u2".to_string(), titled("yours"), "a".to_string(), at(11)).unwrap();
    let outcome = delete_todo(&mut table, "u3".to_string(), "a".to_string());
    assert_eq!(outcome.err(), Some(StoreError::NotFound));
    let response = delete_todo(&mut table, "u1".to_string(), "a".to_string()).unwrap();
    assert!(response.success);
    assert_eq!(response.data, Some(()));
    assert_eq!(response.error, None);
    assert!(list(&table, "u1").is_empty());
    assert_eq!(list(&table, "u2"), vec![row("a", "u2", "yours", 11, 11)]);
    let outcome = delete_todo(&mut table, "u1".to_string(), "a".to_string());
    assert_eq!(outcome.err(), Some(StoreError::NotFound));
}

#[test]
fn sync_inserts_unknown_records_as_they_are() {
    let mut table = TodoTable::new();
    let sent = Todo {
        description: Some("d".to_string()),
        completed: true,
        priority: Priority::High,
        due_date: Some(at(99)),
        ..row("a", "u1", "from client", 5, 7)
    };
    let response = sync_todos_at(&mut table, "u1".to_string(), batch(vec![sent.clone()]), at(50));
    assert_eq!(response.sync_time, at(50));
    assert_eq!(response.todos, vec![sent.clone()]);
    assert_eq!(table.rows(), &vec![sent]);
}

#[test]
fn sync_stores_records_under_the_user_of_the_route() {
    let mut table = TodoTable::new();
    let sent = row("a", "someone else", "from client", 5, 7);
    let response = sync_todos_at(&mut table, "u1".to_string(), batch(vec![sent]), at(50));
    assert_eq!(response.todos, vec![row("a", "u1", "from client", 5, 7)]);
    assert!(list(&table, "someone else").is_empty());
}

#[test]
fn sync_tie_keeps_the_server_record() {
    let mut table = table_of("u1", vec![row("a", "u1", "server", 5, 10)]);
    let incoming = Todo { completed: true, ..row("a", "u1", "client", 6, 10) };
    let response = sync_todos_at(&mut table, "u1".to_string(), batch(vec![incoming]), at(50));
    assert_eq!(table.rows(), &vec![row("a", "u1", "server", 5, 10)]);
    assert_eq!(response.todos, vec![row("a", "u1", "server", 5, 10)]);
}

#[test]
fn sync_older_record_is_dropped() {
    let mut table = table_of("u1", vec![row("a", "u1", "server", 5, 10)]);
    sync_todos_at(&mut table, "u1".to_string(), batch(vec![row("a", "u1", "client", 5, 9)]), at(50));
    assert_eq!(table.rows(), &vec![row("a", "u1", "server", 5, 10)]);
}

#[test]
fn sync_newer_record_overwrites_the_server_record() {
    let mut table = table_of("u1", vec![row("a", "u1", "server", 5, 10)]);
    let incoming = Todo {
        id: "a".to_string(),
        user_id: "ignored".to_string(),
        title: "client".to_string(),
        description: Some("d".to_string()),
        completed: true,
        priority: Priority::Low,
        created_at: at(1),
        updated_at: at(11),
        due_date: Some(at(70)),
    };
    sync_todos_at(&mut table, "u1".to_string(), batch(vec![incoming]), at(50));
    assert_eq!(
        table.rows(),
        &vec![Todo {
            id: "a".to_string(),
            user_id: "u1".to_string(),
            title: "client".to_string(),
            description: Some("d".to_string()),
            completed: true,
            priority: Priority::Low,
            created_at: at(5),
            updated_at: at(11),
            due_date: Some(at(70)),
        }]
    );
}

#[test]
fn sync_newer_by_one_nanosecond_overwrites() {
    let mut table = table_of("u1", vec![row("a", "u1", "server", 5, 10)]);
    let incoming = Todo { updated_at: Timestamp::new(10, 1), ..row("a", "u1", "client", 5, 10) };
    sync_todos_at(&mut table, "u1".to_string(), batch(vec![incoming.clone()]), at(50));
    assert_eq!(table.rows(), &vec![incoming]);
}

#[test]
fn sync_merges_the_batch_in_order() {
    let mut table = TodoTable::new();
    let sent = vec![
        row("a", "u1", "first", 1, 3),
        row("a", "u1", "second", 2, 5),
        row("a", "u1", "third", 3, 4),
    ];
    sync_todos_at(&mut table, "u1".to_string(), batch(sent), at(50));
    assert_eq!(table.rows(), &vec![row("a", "u1", "second", 1, 5)]);
}

#[test]
fn sync_twice_is_idempotent() {
    let mut table = table_of(
        "u1",
        vec![row("a", "u1", "server a", 1, 10), row("b", "u1", "server b", 2, 20)],
    );
    let sent = vec![
        row("a", "u1", "client a", 1, 15),
        row("b", "u1", "client b", 2, 20),
        row("c", "u1", "client c", 3, 3),
        row("c", "u1", "client c again", 3, 8),
        row("a", "u1", "client a, stale", 1, 12),
    ];
    let first = sync_todos_at(&mut table, "u1".to_string(), batch(sent.clone()), at(50));
    let after_first = table.rows().clone();
    let second = sync_todos_at(&mut table, "u1".to_string(), batch(sent), at(60));
    assert_eq!(table.rows(), &after_first);
    assert_eq!(first.todos, second.todos);
    assert_eq!(
        after_first,
        vec![
            row("a", "u1", "client a", 1, 15),
            row("b", "u1", "server b", 2, 20),
            row("c", "u1", "client c again", 3, 8),
        ]
    );
}

#[test]
fn sync_leaves_other_users_alone() {
    let mut table = table_of("u2", vec![row("a", "u2", "theirs", 1, 10)]);
    let response = sync_todos_at(
        &mut table,
        "u1".to_string(),
        batch(vec![row("a", "u1", "mine", 2, 99)]),
        at(50),
    );
    assert_eq!(response.todos, vec![row("a", "u1", "mine", 2, 99)]);
    assert_eq!(list(&table, "u2"), vec![row("a", "u2", "theirs", 1, 10)]);
    assert_eq!(list(&table, "u1"), vec![row("a", "u1", "mine", 2, 99)]);
}

#[test]
fn sync_answers_newest_updated_first() {
    let mut table = TodoTable::new();
    let sent = vec![
        row("a", "u1", "a", 30, 31),
        row("b", "u1", "b", 10, 50),
        row("c", "u1", "c", 20, 40),
    ];
    let response = sync_todos_at(&mut table, "u1".to_string(), batch(sent), at(60));
    assert_eq!(
        response.todos,
        vec![row("b", "u1", "b", 10, 50), row("c", "u1", "c", 20, 40), row("a", "u1", "a", 30, 31)]
    );
}

#[test]
fn sync_answers_only_what_changed_since_last_sync() {
    let mut table = table_of(
        "u1",
        vec![row("a", "u1", "a", 1, 10), row("b", "u1", "b", 2, 20), row("c", "u1", "c", 3, 30)],
    );
    let request = SyncRequest { last_sync: Some(at(20)), todos: Vec::new() };
    let response = sync_todos_at(&mut table, "u1".to_string(), request, at(60));
    assert_eq!(response.todos, vec![row("c", "u1", "c", 3, 30)]);
    let request = SyncRequest { last_sync: Some(at(9)), todos: Vec::new() };
    let response = sync_todos_at(&mut table, "u1".to_string(), request, at(61));
    assert_eq!(
        response.todos,
        vec![row("c", "u1", "c", 3, 30), row("b", "u1", "b", 2, 20), row("a", "u1", "a", 1, 10)]
    );
    let request = SyncRequest { last_sync: Some(at(30)), todos: Vec::new() };
    let response = sync_todos_at(&mut table, "u1".to_string(), request, at(62));
    assert!(response.todos.is_empty());
}

#[test]
fn sync_with_the_clock_hands_back_a_sync_time() {
    let mut table = TodoTable::new();
    let response = sync_todos(&mut table, "u1".to_string(), batch(vec![row("a", "u1", "a", 1, 2)]));
    assert_eq!(response.todos, vec![row("a", "u1", "a", 1, 2)]);
    assert!(response.sync_time.secs > 1_600_000_000);
    assert_eq!(table.rows(), &vec![row("a", "u1", "a", 1, 2)]);
}

#[test]
fn end_to_end_scenario() {
    let mut table = TodoTable::new();
    let created = create_todo_with(
        &mut table,
        "u1".to_string(),
        titled("Buy milk"),
        "todo-1".to_string(),
        at(100),
    )
    .unwrap()
    .data
    .unwrap();
    assert_eq!(created.priority, Priority::Medium);
    assert_eq!(created.priority.as_str(), "medium");
    assert!(!created.completed);

    let patch = UpdateTodoRequest { completed: Some(true), ..UpdateTodoRequest::empty() };
    let updated = update_todo_at(&mut table, "u1".to_string(), "todo-1".to_string(), patch, at(200))
        .unwrap()
        .data
        .unwrap();
    assert!(updated.completed);
    assert_eq!(updated.title, "Buy milk");
    assert!(updated.updated_at.is_after(&created.updated_at));

    let request = SyncRequest { last_sync: Some(at(300)), todos: Vec::new() };
    let response = sync_todos_at(&mut table, "u1".to_string(), request, at(400));
    assert!(response.todos.is_empty());
    assert_eq!(response.sync_time, at(400));
}

#[test]
fn end_to_end_scenario_with_the_clock() {
    let mut table = TodoTable::new();
    let created = create_todo(&mut table, "u1".to_string(), titled("Buy milk")).unwrap().data.unwrap();
    assert_eq!(created.priority, Priority::Medium);
    assert!(!created.completed);
    let patch = UpdateTodoRequest { completed: Some(true), ..UpdateTodoRequest::empty() };
    let updated =
        update_todo(&mut table, "u1".to_string(), created.id.clone(), patch).unwrap().data.unwrap();
    assert!(updated.completed);
    assert_eq!(updated.title, "Buy milk");
    let later = Timestamp::new(updated.updated_at.secs + 1, 0);
    let request = SyncRequest { last_sync: Some(later), todos: Vec::new() };
    let response = sync_todos(&mut table, "u1".to_string(), request);
    assert!(response.todos.is_empty());
}

#[test]
fn helpers_select_and_sort_rows() {
    let rows = vec![
        row("a", "u1", "a", 3, 10),
        row("b", "u2", "b", 2, 20),
        row("c", "u1", "c", 1, 30),
    ];
    assert_eq!(find_by_key(&rows, &"u1".to_string(), &"c".to_string()), Some(2));
    assert_eq!(find_by_key(&rows, &"u2".to_string(), &"c".to_string()), None);
    assert_eq!(find_by_key(&rows, &"u2".to_string(), &"b".to_string()), Some(1));
    assert_eq!(
        owned_records(&rows, &"u1".to_string()),
        vec![row("a", "u1", "a", 3, 10), row("c", "u1", "c", 1, 30)]
    );
    assert_eq!(
        changed_records(&rows, &"u1".to_string(), Some(at(10))),
        vec![row("c", "u1", "c", 1, 30)]
    );
    assert_eq!(
        changed_records(&rows, &"u1".to_string(), None),
        vec![row("a", "u1", "a", 3, 10), row("c", "u1", "c", 1, 30)]
    );
    assert_eq!(
        newest_created_first(&rows),
        vec![row("a", "u1", "a", 3, 10), row("b", "u2", "b", 2, 20), row("c", "u1", "c", 1, 30)]
    );
    assert_eq!(
        newest_updated_first(&rows),
        vec![row("c", "u1", "c", 1, 30), row("b", "u2", "b", 2, 20), row("a", "u1", "a", 3, 10)]
    );
}

#[test]
fn database_file_is_the_path_in_the_address() {
    assert_eq!(database_file("sqlite:./todos.db?mode=rwc"), Some("./todos.db".to_string()));
    assert_eq!(database_file("sqlite:./todos.db"), Some("./todos.db".to_string()));
    assert_eq!(database_file("sqlite:/var/lib/todo/data.db?mode=rwc&cache=shared"), Some("/var/lib/todo/data.db".to_string()));
    assert_eq!(database_file("sqlite:a?b?c"), Some("a".to_string()));
}

#[test]
fn database_file_without_scheme_is_the_address_before_the_query() {
    assert_eq!(database_file("./todos.db"), Some("./todos.db".to_string()));
    assert_eq!(database_file("todos.db?mode=ro"), Some("todos.db".to_string()));
    assert_eq!(database_file("xsqlite:todos.db"), Some("xsqlite:todos.db".to_string()));
    assert_eq!(database_file("sqlite"), Some("sqlite".to_string()));
    assert_eq!(database_file("sqlite:"), Some(String::new()));
    assert_eq!(database_file(""), Some(String::new()));
    assert_eq!(database_file("?mode=rwc"), Some(String::new()));
    assert_eq!(database_file("sqlite:d\u{e9}p\u{f4}t.db?x"), Some("d\u{e9}p\u{f4}t.db".to_string()));
}

#[test]
fn database_file_of_a_database_in_memory_is_none() {
    assert_eq!(database_file("sqlite::memory:"), None);
    assert_eq!(database_file(":memory:"), None);
    assert_eq!(database_file("sqlite::memory:?cache=shared"), None);
    assert_eq!(database_file("sqlite:file:memdb1?mode=memory"), Some("file:memdb1".to_string()));
    assert_eq!(database_file("sqlite:./todos.db?x=:memory:"), None);
    assert_eq!(database_file(":memory"), Some(":memory".to_string()));
}
