use task_store::record::{Task, User};
use task_store::service::{
    create_task, delete_task, get_all_tasks, get_task, login, register, update_task, Reply,
};
use task_store::store::Database;

fn new_task(id: u64, name: &str, completed: bool) -> Task {
    Task { id, name: name.to_string(), completed }
}

fn new_user(id: u64, username: &str, password: &str) -> User {
    User { id, username: username.to_string(), password: password.to_string() }
}

#[test]
fn create_list_delete_get_scenario() {
    let mut db = Database::new();
    let created = create_task(&mut db, new_task(1, "buy milk", false));
    assert!(matches!(created, Reply::Done));
    assert_eq!(created.status(), 200);
    match get_all_tasks(&db) {
        Reply::Tasks(all) => {
            assert_eq!(all.len(), 1);
            assert_eq!(all[0].id, 1);
            assert_eq!(all[0].name, "buy milk");
            assert!(!all[0].completed);
        }
        other => panic!("expected the tasks, got {:?}", other),
    }
    let deleted = delete_task(&mut db, 1);
    assert!(matches!(deleted, Reply::Done));
    assert_eq!(deleted.status(), 200);
    let missing = get_task(&db, 1);
    assert!(matches!(missing, Reply::NotFound));
    assert_eq!(missing.status(), 404);
}

#[test]
fn login_with_a_registered_name_succeeds_whatever_the_password() {
    let mut db = Database::new();
    let registered = register(&mut db, new_user(1, "alice", "p1"));
    assert!(matches!(registered, Reply::Done));
    let same_password = login(&db, &new_user(1, "alice", "p1"));
    assert!(matches!(same_password, Reply::LoggedIn));
    assert_eq!(same_password.status(), 200);
    assert_eq!(same_password.text(), "User Logged in!");
    let other_password = login(&db, &new_user(77, "alice", "something else"));
    assert!(matches!(other_password, Reply::LoggedIn));
}

#[test]
fn login_with_an_unknown_name_is_turned_down() {
    let mut db = Database::new();
    register(&mut db, new_user(1, "alice", "p1"));
    let reply = login(&db, &new_user(2, "bob", "tulip"));
    assert!(matches!(reply, Reply::InvalidCredentials));
    assert_eq!(reply.status(), 400);
    assert_eq!(reply.text(), "Invalid Username or Password");
}

#[test]
fn login_on_an_empty_store_is_turned_down() {
    let db = Database::new();
    let reply = login(&db, &new_user(1, "alice", "tulip"));
    assert!(matches!(reply, Reply::InvalidCredentials));
}

#[test]
fn get_task_returns_the_stored_task() {
    let mut db = Database::new();
    create_task(&mut db, new_task(7, "file taxes", true));
    match get_task(&db, 7) {
        Reply::Task(found) => {
            assert_eq!(found.id, 7);
            assert_eq!(found.name, "file taxes");
            assert!(found.completed);
        }
        other => panic!("expected the task, got {:?}", other),
    }
    assert_eq!(get_task(&db, 7).status(), 200);
    assert!(matches!(get_task(&db, 8), Reply::NotFound));
}

#[test]
fn update_task_creates_and_replaces() {
    let mut db = Database::new();
    let created = update_task(&mut db, new_task(3, "plan", false));
    assert!(matches!(created, Reply::Done));
    match get_task(&db, 3) {
        Reply::Task(found) => assert_eq!(found.name, "plan"),
        other => panic!("expected the task, got {:?}", other),
    }
    update_task(&mut db, new_task(3, "plan trip", true));
    match get_task(&db, 3) {
        Reply::Task(found) => {
            assert_eq!(found.name, "plan trip");
            assert!(found.completed);
        }
        other => panic!("expected the task, got {:?}", other),
    }
}

#[test]
fn delete_task_of_an_absent_id_is_answered_like_any_other() {
    let mut db = Database::new();
    create_task(&mut db, new_task(1, "keep", false));
    let reply = delete_task(&mut db, 2);
    assert!(matches!(reply, Reply::Done));
    assert!(matches!(get_task(&db, 1), Reply::Task(_)));
}

#[test]
fn get_all_tasks_on_an_empty_store_lists_nothing() {
    let db = Database::new();
    match get_all_tasks(&db) {
        Reply::Tasks(all) => assert!(all.is_empty()),
        other => panic!("expected the tasks, got {:?}", other),
    }
}

#[test]
fn register_does_not_look_for_a_name_already_taken() {
    let mut db = Database::new();
    register(&mut db, new_user(1, "sam", "tulip"));
    register(&mut db, new_user(2, "sam", "orchid"));
    assert_eq!(db.get_all_users().len(), 2);
    assert!(matches!(login(&db, &new_user(0, "sam", "")), Reply::LoggedIn));
}

#[test]
fn replies_carry_their_status_and_text() {
    let task = new_task(1, "t", false);
    assert_eq!(Reply::Done.status(), 200);
    assert_eq!(Reply::Done.text(), "");
    assert_eq!(Reply::Task(&task).status(), 200);
    assert_eq!(Reply::Task(&task).text(), "");
    assert_eq!(Reply::Tasks(vec![&task]).status(), 200);
    assert_eq!(Reply::NotFound.status(), 404);
    assert_eq!(Reply::NotFound.text(), "");
    assert_eq!(Reply::LoggedIn.status(), 200);
    assert_eq!(Reply::InvalidCredentials.status(), 400);
}
