use ede_todo::export::{encode_tasks, escape_str};
use ede_todo::store::{Database, Task};

fn fresh() -> Database {
    Database::open_in_memory().unwrap()
}

#[test]
fn test_export_to_json() {
    let mut db = fresh();
    db.add_task("Export Task").unwrap();
    let r = db.export_to_json();
    assert!(r.is_ok());
    assert!(r.unwrap().contains("Export Task"));
}

#[test]
fn export_empty_store_is_empty_array() {
    let db = fresh();
    assert_eq!(db.export_to_json().unwrap(), "[]");
}

#[test]
fn export_renders_the_exact_pretty_form() {
    let mut db = fresh();
    db.import_from_json(
        "[{\"id\":1,\"description\":\"Buy milk\",\"completed\":false},\
          {\"id\":2,\"description\":\"Workout\",\"completed\":true}]",
    )
    .unwrap();
    let expected = "[\n  {\n    \"id\": 1,\n    \"description\": \"Buy milk\",\n    \"completed\": false\n  },\n  {\n    \"id\": 2,\n    \"description\": \"Workout\",\n    \"completed\": true\n  }\n]";
    assert_eq!(db.export_to_json().unwrap(), expected);
}

#[test]
fn export_renders_negative_ids() {
    let mut db = fresh();
    db.import_from_json("[{\"id\":-12,\"description\":\"neg\"}]")
        .unwrap();
    let out = db.export_to_json().unwrap();
    assert!(out.contains("\"id\": -12"));
}

#[test]
fn export_is_valid_json_for_serde() {
    let mut db = fresh();
    db.add_task("plain").unwrap();
    let out = db.export_to_json().unwrap();
    let parsed: Vec<serde_json::Value> = serde_json::from_str(&out).unwrap();
    assert_eq!(parsed.len(), 1);
    assert_eq!(parsed[0]["description"], "plain");
}

#[test]
fn export_then_import_reproduces_the_store() {
    let mut db = fresh();
    db.import_from_json(
        "[{\"id\":1,\"description\":\"alpha\",\"completed\":false},\
          {\"id\":3,\"description\":\"beta\",\"completed\":true},\
          {\"id\":10,\"description\":\"gamma\",\"completed\":false}]",
    )
    .unwrap();
    let exported = db.export_to_json().unwrap();
    let mut copy = fresh();
    let n = copy.import_from_json(&exported).unwrap();
    assert_eq!(n, 3);
    assert_eq!(db.list_tasks().unwrap(), copy.list_tasks().unwrap());
}

#[test]
fn export_escapes_special_characters_and_round_trips() {
    let mut db = fresh();
    db.add_task("say \"hi\"\\ then\tgo\nhome").unwrap();
    let exported = db.export_to_json().unwrap();
    let mut copy = fresh();
    copy.import_from_json(&exported).unwrap();
    assert_eq!(db.list_tasks().unwrap(), copy.list_tasks().unwrap());
}

#[test]
fn encode_tasks_renders_one_task_exactly() {
    let tasks = vec![Task {
        id: 42,
        description: String::from("answer"),
        completed: true,
    }];
    let expected =
        "[\n  {\n    \"id\": 42,\n    \"description\": \"answer\",\n    \"completed\": true\n  }\n]";
    assert_eq!(encode_tasks(&tasks), expected);
}

#[test]
fn escape_str_rewrites_the_named_escapes() {
    assert_eq!(escape_str("a\"b"), "a\\\"b");
    assert_eq!(escape_str("a\\b"), "a\\\\b");
    assert_eq!(escape_str("a\nb\tc\rd"), "a\\nb\\tc\\rd");
    assert_eq!(escape_str("\u{1}"), "\\u0001");
    assert_eq!(escape_str("\u{1f}"), "\\u001f");
    assert_eq!(escape_str("plain"), "plain");
}
