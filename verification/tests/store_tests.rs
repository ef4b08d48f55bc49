use ede_todo::store::Database;

fn fresh() -> Database {
    Database::open_in_memory().unwrap()
}

#[test]
fn test_add_task() {
    let mut db = fresh();
    assert!(db.add_task("Test task").is_ok());
}

#[test]
fn test_list_tasks() {
    let mut db = fresh();
    db.add_task("Task 1").unwrap();
    db.add_task("Task 2").unwrap();
    let tasks = db.list_tasks().unwrap();
    assert_eq!(tasks.len(), 2);
    assert_eq!(tasks[0].1, "Task 1");
    assert_eq!(tasks[1].1, "Task 2");
}

#[test]
fn test_complete_task() {
    let mut db = fresh();
    db.add_task("Incomplete Task").unwrap();
    let tasks = db.list_tasks().unwrap();
    let task_id = tasks[0].0;
    db.complete_task(task_id).unwrap();
    let updated_tasks = db.list_tasks().unwrap();
    assert!(updated_tasks.iter().any(|t| t.0 == task_id && t.2));
}

#[test]
fn test_remove_task() {
    let mut db = fresh();
    db.add_task("Task to Remove").unwrap();
    let tasks = db.list_tasks().unwrap();
    let task_id = tasks[0].0;
    db.remove_task(task_id).unwrap();
    let tasks_after = db.list_tasks().unwrap();
    assert!(tasks_after.is_empty());
}

#[test]
fn added_tasks_list_ascending_and_incomplete() {
    let mut db = fresh();
    db.add_task("first").unwrap();
    db.add_task("second").unwrap();
    db.add_task("third").unwrap();
    let tasks = db.list_tasks().unwrap();
    assert_eq!(tasks.len(), 3);
    for w in tasks.windows(2) {
        assert!(w[0].0 < w[1].0);
    }
    for t in &tasks {
        assert!(!t.2);
    }
}

#[test]
fn complete_leaves_description_unchanged() {
    let mut db = fresh();
    db.add_task("keep me").unwrap();
    let id = db.list_tasks().unwrap()[0].0;
    db.complete_task(id).unwrap();
    let tasks = db.list_tasks().unwrap();
    assert_eq!(tasks[0].1, "keep me");
    assert!(tasks[0].2);
}

#[test]
fn complete_missing_id_is_noop() {
    let mut db = fresh();
    db.add_task("only one").unwrap();
    let before = db.list_tasks().unwrap();
    db.complete_task(9999).unwrap();
    let after = db.list_tasks().unwrap();
    assert_eq!(before, after);
}

#[test]
fn remove_decreases_count_by_one() {
    let mut db = fresh();
    db.add_task("a").unwrap();
    db.add_task("b").unwrap();
    let before = db.list_tasks().unwrap();
    db.remove_task(before[0].0).unwrap();
    let after = db.list_tasks().unwrap();
    assert_eq!(after.len(), before.len() - 1);
}

#[test]
fn remove_missing_id_is_noop() {
    let mut db = fresh();
    db.add_task("a").unwrap();
    let before = db.list_tasks().unwrap();
    db.remove_task(12345).unwrap();
    let after = db.list_tasks().unwrap();
    assert_eq!(before, after);
}
