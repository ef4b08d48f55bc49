use ede_todo::error::TodoError;
use ede_todo::store::Database;

fn fresh() -> Database {
    Database::open_in_memory().unwrap()
}

#[test]
fn test_import_from_json() {
    let mut db = fresh();
    let json = "[{\"id\": 1, \"description\": \"Imported Task\", \"completed\": false}]\n";
    assert!(db.import_from_json(json).is_ok());
    let tasks = db.list_tasks().unwrap();
    assert_eq!(tasks.len(), 1);
    assert_eq!(tasks[0].1, "Imported Task");
}

#[test]
fn test_import_from_json_dry_run() {
    let db = fresh();
    let json = "[{\"id\": 1, \"description\": \"Dry Run Task\", \"completed\": true}]\n";
    assert!(db.import_from_json_dry_run(json).is_ok());
}

#[test]
fn import_single_explicit_record() {
    let mut db = fresh();
    let n = db
        .import_from_json("[{\"id\":1,\"description\":\"Buy milk\",\"completed\":false}]")
        .unwrap();
    assert_eq!(n, 1);
    let tasks = db.list_tasks().unwrap();
    assert_eq!(tasks, vec![(1, String::from("Buy milk"), false)]);
}

#[test]
fn import_missing_id_gets_max_plus_one() {
    let mut db = fresh();
    db.import_from_json("[{\"id\":5,\"description\":\"five\",\"completed\":false}]")
        .unwrap();
    db.import_from_json("[{\"description\":\"no id\",\"completed\":true}]")
        .unwrap();
    let tasks = db.list_tasks().unwrap();
    assert_eq!(tasks.len(), 2);
    assert_eq!(tasks[1], (6, String::from("no id"), true));
}

#[test]
fn import_two_idless_records_get_distinct_ids() {
    let mut db = fresh();
    let n = db
        .import_from_json("[{\"description\":\"one\"},{\"description\":\"two\"}]")
        .unwrap();
    assert_eq!(n, 2);
    let tasks = db.list_tasks().unwrap();
    assert_eq!(
        tasks,
        vec![
            (1, String::from("one"), false),
            (2, String::from("two"), false)
        ]
    );
}

#[test]
fn import_existing_id_overwrites_instead_of_duplicating() {
    let mut db = fresh();
    db.import_from_json("[{\"id\":1,\"description\":\"old\",\"completed\":false}]")
        .unwrap();
    db.import_from_json("[{\"id\":1,\"description\":\"new\",\"completed\":true}]")
        .unwrap();
    let tasks = db.list_tasks().unwrap();
    assert_eq!(tasks, vec![(1, String::from("new"), true)]);
}

#[test]
fn import_duplicate_ids_in_one_batch_last_wins() {
    let mut db = fresh();
    let json = "[{\"id\":7,\"description\":\"first\",\"completed\":false},\
                 {\"id\":7,\"description\":\"second\",\"completed\":true}]";
    assert_eq!(db.import_from_json(json).unwrap(), 2);
    let tasks = db.list_tasks().unwrap();
    assert_eq!(tasks, vec![(7, String::from("second"), true)]);
}

#[test]
fn import_defaults_missing_description_and_completed() {
    let mut db = fresh();
    db.import_from_json("[{\"id\":3}]").unwrap();
    let tasks = db.list_tasks().unwrap();
    assert_eq!(
        tasks,
        vec![(3, String::from("Task without description"), false)]
    );
}

#[test]
fn import_defaults_wrongly_typed_fields() {
    let mut db = fresh();
    let json = "[{\"id\":\"nope\",\"description\":42,\"completed\":\"yes\"}]";
    db.import_from_json(json).unwrap();
    let tasks = db.list_tasks().unwrap();
    assert_eq!(
        tasks,
        vec![(1, String::from("Task without description"), false)]
    );
}

#[test]
fn import_fractional_id_is_treated_as_missing() {
    let mut db = fresh();
    db.import_from_json("[{\"id\":1.5,\"description\":\"frac\"}]")
        .unwrap();
    let tasks = db.list_tasks().unwrap();
    assert_eq!(tasks, vec![(1, String::from("frac"), false)]);
}

#[test]
fn import_negative_id_is_kept() {
    let mut db = fresh();
    db.import_from_json("[{\"id\":-4,\"description\":\"below zero\",\"completed\":true}]")
        .unwrap();
    let tasks = db.list_tasks().unwrap();
    assert_eq!(tasks, vec![(-4, String::from("below zero"), true)]);
}

#[test]
fn import_non_object_element_gets_defaults() {
    let mut db = fresh();
    db.import_from_json("[5]").unwrap();
    let tasks = db.list_tasks().unwrap();
    assert_eq!(
        tasks,
        vec![(1, String::from("Task without description"), false)]
    );
}

#[test]
fn import_rejects_bare_object() {
    let mut db = fresh();
    db.add_task("untouched").unwrap();
    let before = db.list_tasks().unwrap();
    let r = db.import_from_json("{\"id\":1,\"description\":\"x\",\"completed\":false}");
    assert!(matches!(r, Err(TodoError::InvalidJsonFormat)));
    assert_eq!(before, db.list_tasks().unwrap());
}

#[test]
fn import_rejects_malformed_text() {
    let mut db = fresh();
    let r = db.import_from_json("not json at all");
    assert!(matches!(r, Err(TodoError::InvalidJsonFormat)));
    assert!(db.list_tasks().unwrap().is_empty());
}

#[test]
fn import_reports_exhausted_id_space() {
    let mut db = fresh();
    db.import_from_json("[{\"id\":9223372036854775807,\"description\":\"edge\"}]")
        .unwrap();
    let r = db.import_from_json("[{\"description\":\"one too many\"}]");
    assert!(matches!(r, Err(TodoError::DatabaseError(_))));
    assert_eq!(db.list_tasks().unwrap().len(), 1);
}

#[test]
fn dry_run_resolves_without_writing() {
    let mut db = fresh();
    db.add_task("already there").unwrap();
    let before = db.list_tasks().unwrap();
    let json = "[{\"id\":1,\"description\":\"would overwrite\",\"completed\":true},\
                 {\"description\":\"would be new\"}]";
    let preview = db.import_from_json_dry_run(json).unwrap();
    assert_eq!(
        preview,
        vec![
            (String::from("would overwrite"), true),
            (String::from("would be new"), false)
        ]
    );
    assert_eq!(before, db.list_tasks().unwrap());
}

#[test]
fn dry_run_rejects_malformed_text() {
    let db = fresh();
    let r = db.import_from_json_dry_run("{}");
    assert!(matches!(r, Err(TodoError::InvalidJsonFormat)));
}

#[test]
fn error_messages_name_their_source() {
    assert_eq!(
        TodoError::Io(String::from("boom")).message(),
        "Error de entrada/salida: boom"
    );
    assert_eq!(
        TodoError::InvalidJsonFormat.message(),
        "Formato JSON invalido. Asegurese de que el archivo tenga el formato adecuado."
    );
    assert_eq!(
        TodoError::NotFound(String::from("task 9")).message(),
        "No encontrado: task 9"
    );
}
