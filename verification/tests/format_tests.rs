//! The persisted text itself: exact form, round trip, escaping, and
//! agreement with an ordinary JSON reader.

use taskfile::decode::decode_tasks;
use taskfile::encode::encode_tasks;
use taskfile::error::Error;
use taskfile::manager::TasksManager;
use taskfile::task::{Status, Task};

fn sample(name: &str, text: Option<&str>, status: Status) -> Task {
    Task {
        name: name.to_string(),
        text: text.map(|t| t.to_string()),
        status,
        created_at: "2024-01-02T03:04:05+00:00".to_string(),
    }
}

#[test]
fn encode_writes_the_exact_compact_form() {
    let tasks = vec![sample("a", Some("b"), Status::Doing)];
    let text = encode_tasks(&tasks);
    assert_eq!(
        text,
        "[{\"name\":\"a\",\"text\":\"b\",\"status\":\"Doing\",\"created_at\":\"2024-01-02T03:04:05+00:00\"}]"
            .to_string()
    );
    let none = vec![sample("a", None, Status::Pending)];
    assert_eq!(
        encode_tasks(&none),
        "[{\"name\":\"a\",\"text\":null,\"status\":\"Pending\",\"created_at\":\"2024-01-02T03:04:05+00:00\"}]"
            .to_string()
    );
    let empty: Vec<Task> = vec![];
    assert_eq!(encode_tasks(&empty), "[]".to_string());
}

#[test]
fn decode_reads_the_compact_form_back() {
    let text = "[{\"name\":\"a\",\"text\":null,\"status\":\"Done\",\"created_at\":\"2024-01-02T03:04:05+00:00\"}]";
    let tasks = decode_tasks(text).unwrap();
    assert_eq!(tasks.len(), 1);
    assert_eq!(tasks[0].name, "a".to_string());
    assert_eq!(tasks[0].text, None);
    assert_eq!(tasks[0].status, Status::Done);
    assert_eq!(tasks[0].created_at, "2024-01-02T03:04:05+00:00".to_string());
}

#[test]
fn round_trip_keeps_every_field() {
    let tasks = vec![
        sample("plain", None, Status::Pending),
        sample("with text", Some("some\nlines\tand \"quotes\" \\ here"), Status::Doing),
        sample("odd \u{1} control", Some(""), Status::Done),
        sample("unicode \u{e9}\u{4e16}\u{754c}", Some("caf\u{e9}"), Status::Pending),
    ];
    let text = encode_tasks(&tasks);
    let back = decode_tasks(&text).unwrap();
    assert_eq!(back.len(), tasks.len());
    for (a, b) in tasks.iter().zip(back.iter()) {
        assert_eq!(a.name, b.name);
        assert_eq!(a.text, b.text);
        assert_eq!(a.status, b.status);
        assert_eq!(a.created_at, b.created_at);
    }
}

#[test]
fn store_round_trip_through_save_and_load() {
    let mut manager = TasksManager::new("t.json".to_string());
    manager
        .load("[{\"name\":\"kept\",\"text\":\"v\",\"status\":\"Doing\",\"created_at\":\"2020-05-06T07:08:09+00:00\"}]")
        .unwrap();
    let text = manager.save();
    let mut manager2 = TasksManager::new("t.json".to_string());
    manager2.load(&text).unwrap();
    assert_eq!(manager2.tasks().len(), 1);
    assert_eq!(manager2.tasks()[0].name, "kept".to_string());
    assert_eq!(manager2.tasks()[0].text, Some("v".to_string()));
    assert_eq!(manager2.tasks()[0].status, Status::Doing);
    assert_eq!(manager2.tasks()[0].created_at, "2020-05-06T07:08:09+00:00".to_string());
}

#[test]
fn decode_accepts_surrounding_whitespace() {
    let text = "  \n[{\"name\":\"a\",\"text\":null,\"status\":\"Pending\",\"created_at\":\"c\"}]\n ";
    let tasks = decode_tasks(text).unwrap();
    assert_eq!(tasks.len(), 1);
}

#[test]
fn decode_accepts_shorthand_escapes() {
    let text = "[{\"name\":\"a\\n\\t\\\"b\\\\c\\/d\\u0007\",\"text\":null,\"status\":\"Pending\",\"created_at\":\"c\"}]";
    let tasks = decode_tasks(text).unwrap();
    assert_eq!(tasks[0].name, "a\n\t\"b\\c/d\u{7}".to_string());
}

#[test]
fn decode_accepts_whitespace_between_tokens() {
    let tasks = decode_tasks("[ ]").unwrap();
    assert_eq!(tasks.len(), 0);
    let text = "[ { \"name\" : \"a\" ,\n \"text\" : null ,\t \"status\" : \"Done\" , \"created_at\" : \"c\" } ]";
    let tasks = decode_tasks(text).unwrap();
    assert_eq!(tasks.len(), 1);
    assert_eq!(tasks[0].name, "a".to_string());
    assert_eq!(tasks[0].status, Status::Done);
}

#[test]
fn decode_accepts_keys_in_any_order() {
    let text = "[{\"status\":\"Doing\",\"created_at\":\"c\",\"text\":\"t\",\"name\":\"n\"}]";
    let tasks = decode_tasks(text).unwrap();
    assert_eq!(tasks[0].name, "n".to_string());
    assert_eq!(tasks[0].text, Some("t".to_string()));
    assert_eq!(tasks[0].status, Status::Doing);
    assert_eq!(tasks[0].created_at, "c".to_string());
}

#[test]
fn decode_accepts_a_missing_text_key() {
    let text = "[{\"name\":\"n\",\"status\":\"Pending\",\"created_at\":\"c\"}]";
    let tasks = decode_tasks(text).unwrap();
    assert_eq!(tasks[0].text, None);
}

#[test]
fn decode_accepts_full_unicode_escapes() {
    let text = "[{\"name\":\"\\u0041\\u00e9\\u4e16\\ud83d\\ude00\",\"text\":null,\"status\":\"Pending\",\"created_at\":\"c\"}]";
    let tasks = decode_tasks(text).unwrap();
    assert_eq!(tasks[0].name, "A\u{e9}\u{4e16}\u{1f600}".to_string());
}

#[test]
fn decode_rejects_bad_records() {
    // a lone surrogate
    assert!(matches!(
        decode_tasks("[{\"name\":\"\\ud800\",\"text\":null,\"status\":\"Pending\",\"created_at\":\"c\"}]"),
        Err(Error::MalformedContent)
    ));
    // a repeated key
    assert!(matches!(
        decode_tasks("[{\"name\":\"a\",\"name\":\"b\",\"status\":\"Pending\",\"created_at\":\"c\"}]"),
        Err(Error::MalformedContent)
    ));
    // a key that is not a task record's
    assert!(matches!(
        decode_tasks("[{\"name\":\"a\",\"status\":\"Pending\",\"created_at\":\"c\",\"extra\":\"x\"}]"),
        Err(Error::MalformedContent)
    ));
    // a missing required key
    assert!(matches!(
        decode_tasks("[{\"name\":\"a\",\"status\":\"Pending\"}]"),
        Err(Error::MalformedContent)
    ));
    // a status outside the three words
    assert!(matches!(
        decode_tasks("[{\"name\":\"a\",\"status\":\"Paused\",\"created_at\":\"c\"}]"),
        Err(Error::MalformedContent)
    ));
}

#[test]
fn decode_reads_what_a_plain_writer_writes() {
    let value: serde_json::Value = serde_json::from_str(
        "[{\"name\":\"n\",\"text\":\"t\",\"status\":\"Done\",\"created_at\":\"c\"}]",
    )
    .unwrap();
    let text = serde_json::to_string(&value).unwrap();
    let tasks = decode_tasks(&text).unwrap();
    assert_eq!(tasks[0].name, "n".to_string());
    assert_eq!(tasks[0].text, Some("t".to_string()));
    assert_eq!(tasks[0].status, Status::Done);
}

#[test]
fn decode_rejects_trailing_garbage() {
    assert!(matches!(decode_tasks("[]x"), Err(Error::MalformedContent)));
    assert!(matches!(decode_tasks("[],"), Err(Error::MalformedContent)));
    assert!(matches!(decode_tasks("{}"), Err(Error::MalformedContent)));
}

#[test]
fn written_text_is_json_a_plain_reader_accepts() {
    let tasks = vec![sample("quoted \"name\"", Some("line\nbreak"), Status::Doing)];
    let text = encode_tasks(&tasks);
    let value: serde_json::Value = serde_json::from_str(&text).unwrap();
    let arr = value.as_array().unwrap();
    assert_eq!(arr.len(), 1);
    assert_eq!(arr[0]["name"].as_str().unwrap(), "quoted \"name\"");
    assert_eq!(arr[0]["text"].as_str().unwrap(), "line\nbreak");
    assert_eq!(arr[0]["status"].as_str().unwrap(), "Doing");
    assert_eq!(arr[0]["created_at"].as_str().unwrap(), "2024-01-02T03:04:05+00:00");
}
