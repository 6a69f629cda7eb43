//! The store's four operations, addressed by position.

use taskfile::cli::{CreateTaskArgs, StatusArg, UpdateTaskArgs};
use taskfile::error::Error;
use taskfile::manager::{find_default_journal_file, TasksManager};
use taskfile::task::Status;

fn create(manager: &mut TasksManager, name: &str, text: Option<&str>, status: Option<StatusArg>) {
    let args = CreateTaskArgs {
        name: name.to_string(),
        text: text.map(|t| t.to_string()),
        status,
    };
    manager.create_task(args).unwrap();
}

#[test]
fn test_new() {
    let path = "./filename.json";
    let manager = TasksManager::new(path.to_string());
    assert_eq!(manager.file(), &path.to_string());
    assert_eq!(manager.tasks().len(), 0);
}

#[test]
fn test_add_task() {
    let path = "./filename.json";
    let mut manager = TasksManager::new(path.to_string());
    create(&mut manager, "task title", None, None);
    assert_eq!(manager.tasks().len(), 1);
}

#[test]
fn test_list_tasks() {
    let path = "./filename.json";
    let mut manager = TasksManager::new(path.to_string());
    create(&mut manager, "task title", None, None);
    let rows = manager.list_tasks();
    assert_eq!(rows.len(), 1);
    assert_eq!(rows[0].id, 0);
    assert_eq!(rows[0].name, "task title".to_string());
}

#[test]
fn test_load_save() {
    let path = "./filename.json";
    let mut manager = TasksManager::new(path.to_string());
    create(&mut manager, "task title", None, None);
    let text = manager.save();

    let mut manager2 = TasksManager::new(path.to_string());
    manager2.load(&text).unwrap();

    assert_eq!(manager.tasks().len(), manager2.tasks().len());
}

#[test]
fn default_journal_file() {
    assert_eq!(find_default_journal_file(), Some("./todo-tasks.json".to_string()));
}

#[test]
fn empty_file_is_empty_collection() {
    let mut manager = TasksManager::new("t.json".to_string());
    assert!(manager.load("").is_ok());
    assert_eq!(manager.tasks().len(), 0);
    assert!(manager.load("  \n\t ").is_ok());
    assert_eq!(manager.tasks().len(), 0);
}

#[test]
fn malformed_text_is_an_error() {
    let mut manager = TasksManager::new("t.json".to_string());
    assert!(matches!(manager.load("not a task file"), Err(Error::MalformedContent)));
    assert!(matches!(manager.load("[{\"name\":"), Err(Error::MalformedContent)));
    assert_eq!(manager.tasks().len(), 0);
}

#[test]
fn create_appends_in_order() {
    let mut manager = TasksManager::new("t.json".to_string());
    create(&mut manager, "first", None, None);
    create(&mut manager, "second", None, None);
    create(&mut manager, "third", None, None);
    let tasks = manager.tasks();
    assert_eq!(tasks.len(), 3);
    assert_eq!(tasks[0].name, "first".to_string());
    assert_eq!(tasks[1].name, "second".to_string());
    assert_eq!(tasks[2].name, "third".to_string());
}

#[test]
fn create_defaults_to_pending_without_text() {
    let mut manager = TasksManager::new("t.json".to_string());
    create(&mut manager, "Task", None, None);
    let tasks = manager.tasks();
    assert_eq!(tasks[0].status, Status::Pending);
    assert_eq!(tasks[0].text, None);
}

#[test]
fn delete_shifts_later_ids_down() {
    let mut manager = TasksManager::new("t.json".to_string());
    create(&mut manager, "A", None, None);
    create(&mut manager, "B", None, None);
    create(&mut manager, "C", None, None);
    manager.delete_task(0).unwrap();
    let tasks = manager.tasks();
    assert_eq!(tasks.len(), 2);
    assert_eq!(tasks[0].name, "B".to_string());
    assert_eq!(tasks[1].name, "C".to_string());
}

#[test]
fn update_overwrites_only_supplied_fields() {
    let mut manager = TasksManager::new("t.json".to_string());
    create(&mut manager, "X", Some("Y"), None);
    let stamp = manager.tasks()[0].created_at.clone();
    let args = UpdateTaskArgs { id: 0, name: Some("Z".to_string()), text: None, status: None };
    manager.update_task(args).unwrap();
    let tasks = manager.tasks();
    assert_eq!(tasks[0].name, "Z".to_string());
    assert_eq!(tasks[0].text, Some("Y".to_string()));
    assert_eq!(tasks[0].status, Status::Pending);
    assert_eq!(tasks[0].created_at, stamp);
}

#[test]
fn out_of_range_operations_fail_closed() {
    let mut manager = TasksManager::new("t.json".to_string());
    create(&mut manager, "one", None, None);
    create(&mut manager, "two", None, None);
    let before = manager.save();
    let args = UpdateTaskArgs { id: 5, name: Some("n".to_string()), text: None, status: None };
    assert!(matches!(manager.update_task(args), Err(Error::InvalidIndex)));
    assert!(matches!(manager.delete_task(5), Err(Error::InvalidIndex)));
    assert_eq!(manager.save(), before);
}

#[test]
fn list_renders_rows_in_order() {
    let mut manager = TasksManager::new("t.json".to_string());
    create(&mut manager, "Write spec", Some("draft v1"), Some(StatusArg::Doing));
    create(&mut manager, "Review", None, None);
    let rows = manager.list_tasks();
    assert_eq!(rows.len(), 2);
    assert_eq!(rows[0].id, 0);
    assert_eq!(rows[0].name, "Write spec".to_string());
    assert_eq!(rows[0].text, "draft v1".to_string());
    assert_eq!(rows[0].status, "Doing".to_string());
    assert_eq!(rows[1].id, 1);
    assert_eq!(rows[1].name, "Review".to_string());
    assert_eq!(rows[1].text, "".to_string());
    assert_eq!(rows[1].status, "Pending".to_string());

    manager.delete_task(0).unwrap();
    let rows = manager.list_tasks();
    assert_eq!(rows.len(), 1);
    assert_eq!(rows[0].id, 0);
    assert_eq!(rows[0].name, "Review".to_string());
    assert_eq!(rows[0].text, "".to_string());
    assert_eq!(rows[0].status, "Pending".to_string());
}

#[test]
fn invalid_index_message() {
    assert_eq!(Error::InvalidIndex.message(), "Invalid Task ID".to_string());
    assert_eq!(Error::IoFailure("disk gone".to_string()).message(), "disk gone".to_string());
    assert_eq!(Error::MalformedContent.message(), "Malformed task file".to_string());
}
