//! The task record and its builder.

use taskfile::task::{Status, Task};

#[test]
fn todo_new() {
    let task = Task::new("Task title").build();
    assert_eq!(task.status, Status::Pending);
    assert_eq!(task.text, None);
    assert_eq!(task.name, "Task title".to_string());
}

#[test]
fn todo_new_with_text() {
    let task = Task::new("Task title").text("adding text").build();
    assert_eq!(task.status, Status::Pending);
    assert_eq!(task.text, Some("adding text".to_string()));
    assert_eq!(task.name, "Task title".to_string());
}

#[test]
fn todo_new_with_status() {
    let task = Task::new("Task title").status(Status::Doing).build();
    assert_eq!(task.status, Status::Doing);
    assert_eq!(task.name, "Task title".to_string());
}

#[test]
fn status_words() {
    assert_eq!(Status::Pending.to_string(), "Pending".to_string());
    assert_eq!(Status::Doing.to_string(), "Doing".to_string());
    assert_eq!(Status::Done.to_string(), "Done".to_string());
}

#[test]
fn created_at_is_rfc3339() {
    let task = Task::new("stamped").build();
    assert!(chrono::DateTime::parse_from_rfc3339(&task.created_at).is_ok());
}
