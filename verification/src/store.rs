use crate::error::TodoError;
use crate::export::{encode_tasks, row_views, task_views, tasks_json};
use crate::json::{
    effective_completed, effective_desc, parse_records, parsed_records, record_completed,
    record_description, record_id, JsonValue,
};
use crate::reconcile::{
    apply_records, assign_fits, effective_id, lemma_apply_records_app, lemma_apply_records_step,
    max_id_spec,
};
use vstd::prelude::*;

verus! {

/// The table of tasks behind a storage connection, as a map from task id to
/// the pair of description and completion flag.
pub uninterp spec fn tasks_of(c: rusqlite::Connection) -> Map<i64, (Seq<char>, bool)>;

#[verifier::external_type_specification]
#[verifier::external_body]
pub struct ExConnection(rusqlite::Connection);

/// A handle on the persistent table of tasks.
pub struct Database {
    conn: rusqlite::Connection,
}

/// The sole domain entity: a task with its id, description and completion
/// flag.
#[derive(Debug, Clone)]
pub struct Task {
    pub id: i64,
    pub description: String,
    pub completed: bool,
}

impl View for Task {
    type V = (int, Seq<char>, bool);

    open spec fn view(&self) -> (int, Seq<char>, bool) {
        (self.id as int, self.description@, self.completed)
    }
}

/// `post` extends `pre` with one fresh task `id`, larger than every stored id,
/// holding `desc` and not completed.
pub open spec fn added_with(
    pre: Map<i64, (Seq<char>, bool)>,
    post: Map<i64, (Seq<char>, bool)>,
    id: i64,
    desc: Seq<char>,
) -> bool {
    &&& 1 <= id
    &&& !pre.dom().contains(id)
    &&& forall|k: i64| pre.dom().contains(k) ==> k < id
    &&& post == pre.insert(id, (desc, false))
}

/// A whole import batch was reconciled into the store: every resolved id fit
/// the id type, and the contents went from `pre` to `post` by upserting each
/// record in input order.
pub open spec fn import_applied(
    pre: Map<i64, (Seq<char>, bool)>,
    post: Map<i64, (Seq<char>, bool)>,
    recs: Seq<JsonValue>,
) -> bool {
    &&& assign_fits(pre, recs)
    &&& post == apply_records(pre, recs)
}

/// An import stopped part way: the contents went from `pre` to `post` by
/// reconciling some leading part of the batch, and no more.
pub open spec fn import_stopped(
    pre: Map<i64, (Seq<char>, bool)>,
    post: Map<i64, (Seq<char>, bool)>,
    recs: Seq<JsonValue>,
) -> bool {
    exists|i: int|
        0 <= i <= recs.len() && post == apply_records(pre, #[trigger] recs.take(i))
}

/// `rows` is exactly the contents of `m`, ordered by strictly ascending id.
pub open spec fn listing_of(
    m: Map<i64, (Seq<char>, bool)>,
    rows: Seq<(i64, String, bool)>,
) -> bool {
    &&& forall|i: int|
        0 <= i < rows.len() ==> #[trigger] m.contains_pair(rows[i].0, (rows[i].1@, rows[i].2))
    &&& forall|i: int, j: int| 0 <= i < j < rows.len() ==> rows[i].0 < rows[j].0
    &&& forall|k: i64| #[trigger]
        m.dom().contains(k) ==> exists|i: int| 0 <= i < rows.len() && (#[trigger] rows[i]).0 == k
    &&& rows.len() == m.dom().len()
}

/// Relies on rusqlite::Connection::open and Connection::execute: opens the
/// file-backed store and creates the fixed tasks table if it is absent. The
/// file may already hold rows, so nothing is said of the contents beyond the
/// table being finite.
#[verifier::external_body]
fn open_database(path: &str) -> (r: Result<Database, String>)
    ensures
        r matches Ok(db) ==> tasks_of(db.conn).dom().finite(),
{
    let conn = match rusqlite::Connection::open(path) {
        Ok(c) => c,
        Err(e) => return Err(e.to_string()),
    };
    let create = "CREATE TABLE IF NOT EXISTS tasks (
            id INTEGER PRIMARY KEY AUTOINCREMENT,
            description TEXT NOT NULL,
            completed BOOLEAN NOT NULL DEFAULT 0
        )";
    match conn.execute(create, ()) {
        Ok(_) => Ok(Database { conn }),
        Err(e) => Err(e.to_string()),
    }
}

/// The contents of a store that holds no tasks at all.
pub open spec fn empty_tasks() -> Map<i64, (Seq<char>, bool)> {
    Map::empty()
}

/// Relies on rusqlite::Connection::open_in_memory and Connection::execute: a
/// fresh in-memory store with a newly created empty tasks table.
#[verifier::external_body]
fn open_memory_database() -> (r: Result<Database, String>)
    ensures
        r matches Ok(db) ==> tasks_of(db.conn) == empty_tasks(),
{
    let conn = match rusqlite::Connection::open_in_memory() {
        Ok(c) => c,
        Err(e) => return Err(e.to_string()),
    };
    let create = "CREATE TABLE tasks (
            id INTEGER PRIMARY KEY AUTOINCREMENT,
            description TEXT NOT NULL,
            completed BOOLEAN NOT NULL DEFAULT 0
        )";
    match conn.execute(create, ()) {
        Ok(_) => Ok(Database { conn }),
        Err(e) => Err(e.to_string()),
    }
}

/// Relies on rusqlite::Connection::execute running an INSERT with an
/// auto-assigned id and Connection::last_insert_rowid: SQLite's AUTOINCREMENT
/// assigns a positive id strictly larger than every id ever stored, and the
/// new row holds the given description, not completed. On failure nothing is
/// written.
#[verifier::external_body]
fn insert_task_row(db: &mut Database, description: &str) -> (r: Result<i64, String>)
    ensures
        r matches Ok(id) ==> added_with(
            tasks_of(old(db).conn),
            tasks_of(final(db).conn),
            id,
            description@,
        ),
        r is Err ==> tasks_of(final(db).conn) == tasks_of(old(db).conn),
{
    let sql = "INSERT INTO tasks (description, completed) VALUES (?1, 0)";
    match db.conn.execute(sql, (description,)) {
        Ok(_) => Ok(db.conn.last_insert_rowid()),
        Err(e) => Err(e.to_string()),
    }
}

/// Relies on rusqlite::Statement::query_map over a SELECT with ORDER BY id:
/// one row per stored task, in ascending id order, carrying the stored
/// description and completion flag. The query does not change the table.
#[verifier::external_body]
fn select_task_rows(db: &Database) -> (r: Result<Vec<(i64, String, bool)>, String>)
    ensures
        r matches Ok(rows) ==> listing_of(tasks_of(db.conn), rows@),
{
    let sql = "SELECT id, description, completed FROM tasks ORDER BY id ASC";
    let res = db.conn.prepare(sql).and_then(|mut stmt| {
        stmt.query_map((), |row| Ok((row.get(0)?, row.get(1)?, row.get(2)?)))?
            .collect::<rusqlite::Result<Vec<(i64, String, bool)>>>()
    });
    match res {
        Ok(rows) => Ok(rows),
        Err(e) => Err(e.to_string()),
    }
}

/// Relies on rusqlite::Connection::execute running an UPDATE of the completed
/// flag keyed by id: when the id is stored its flag becomes true and one row
/// is reported changed; otherwise the table is untouched and zero rows are
/// reported. On failure nothing is written.
#[verifier::external_body]
fn update_completed_row(db: &mut Database, id: i64) -> (r: Result<usize, String>)
    ensures
        r matches Ok(n) ==> {
            let pre = tasks_of(old(db).conn);
            if pre.dom().contains(id) {
                &&& tasks_of(final(db).conn) == pre.insert(id, (pre[id].0, true))
                &&& n == 1
            } else {
                &&& tasks_of(final(db).conn) == pre
                &&& n == 0
            }
        },
        r is Err ==> tasks_of(final(db).conn) == tasks_of(old(db).conn),
{
    let sql = "UPDATE tasks SET completed = 1 WHERE id = ?1";
    match db.conn.execute(sql, (id,)) {
        Ok(n) => Ok(n),
        Err(e) => Err(e.to_string()),
    }
}

/// Relies on rusqlite::Connection::execute running a DELETE keyed by id: when
/// the id is stored its row is removed and one row is reported changed;
/// otherwise the table is untouched and zero rows are reported. On failure
/// nothing is written.
#[verifier::external_body]
fn delete_task_row(db: &mut Database, id: i64) -> (r: Result<usize, String>)
    ensures
        r matches Ok(n) ==> {
            let pre = tasks_of(old(db).conn);
            if pre.dom().contains(id) {
                &&& tasks_of(final(db).conn) == pre.remove(id)
                &&& n == 1
            } else {
                &&& tasks_of(final(db).conn) == pre
                &&& n == 0
            }
        },
        r is Err ==> tasks_of(final(db).conn) == tasks_of(old(db).conn),
{
    let sql = "DELETE FROM tasks WHERE id = ?1";
    match db.conn.execute(sql, (id,)) {
        Ok(n) => Ok(n),
        Err(e) => Err(e.to_string()),
    }
}

/// Relies on rusqlite::Connection::execute running an INSERT with an explicit
/// id and an ON CONFLICT(id) DO UPDATE clause: afterwards the table maps the
/// id to the given description and flag, whether or not the id was stored
/// before. On failure nothing is written.
#[verifier::external_body]
fn upsert_task_row(db: &mut Database, id: i64, description: &str, completed: bool) -> (r: Result<
    (),
    String,
>)
    ensures
        r is Ok ==> tasks_of(final(db).conn) == tasks_of(old(db).conn).insert(
            id,
            (description@, completed),
        ),
        r is Err ==> tasks_of(final(db).conn) == tasks_of(old(db).conn),
{
    let sql = "INSERT INTO tasks (id, description, completed) VALUES (?1, ?2, ?3)
         ON CONFLICT(id) DO UPDATE SET description = excluded.description, completed = excluded.completed";
    match db.conn.execute(sql, (id, description, completed)) {
        Ok(_) => Ok(()),
        Err(e) => Err(e.to_string()),
    }
}

/// Relies on rusqlite::Connection::query_row over SELECT MAX(id): the result
/// is NULL exactly when the table is empty, and otherwise the largest stored
/// id. The query does not change the table.
#[verifier::external_body]
fn max_task_id(db: &Database) -> (r: Result<Option<i64>, String>)
    ensures
        r matches Ok(m) ==> {
            let tasks = tasks_of(db.conn);
            &&& m is None <==> tasks.dom().is_empty()
            &&& m matches Some(x) ==> tasks.dom().contains(x) && forall|k: i64|
                tasks.dom().contains(k) ==> k <= x
        },
{
    let res = db.conn.query_row("SELECT MAX(id) FROM tasks", (), |row| {
        row.get::<usize, Option<i64>>(0)
    });
    match res {
        Ok(m) => Ok(m),
        Err(e) => Err(e.to_string()),
    }
}

impl Database {
    /// The mathematical contents of the store: task id to description and
    /// completion flag.
    pub closed spec fn model(&self) -> Map<i64, (Seq<char>, bool)> {
        tasks_of(self.conn)
    }

    /// A store is well formed when it holds finitely many tasks.
    pub open spec fn wf(&self) -> bool {
        self.model().dom().finite()
    }

    /// Opens the file-backed store, creating the tasks table on first use.
    pub fn new() -> (r: Result<Database, TodoError>)
        ensures
            r matches Ok(db) ==> db.wf(),
            r matches Err(e) ==> e is Rusqlite,
    {
        match open_database("todo.db") {
            Ok(db) => Ok(db),
            Err(m) => Err(TodoError::Rusqlite(m)),
        }
    }

    /// Opens a fresh, empty in-memory store.
    pub fn open_in_memory() -> (r: Result<Database, TodoError>)
        ensures
            r matches Ok(db) ==> db.wf() && db.model() == empty_tasks(),
            r matches Err(e) ==> e is Rusqlite,
    {
        match open_memory_database() {
            Ok(db) => {
                proof {
                    assert(db.model().dom() =~= Set::<i64>::empty());
                }
                Ok(db)
            },
            Err(m) => Err(TodoError::Rusqlite(m)),
        }
    }

    /// Stores a new, not yet completed task under a fresh id larger than
    /// every id the store has held.
    pub fn add_task(&mut self, description: &str) -> (r: Result<(), TodoError>)
        requires
            old(self).wf(),
        ensures
            final(self).wf(),
            r is Ok ==> exists|id: i64|
                added_with(old(self).model(), final(self).model(), id, description@),
            r matches Err(e) ==> e is Rusqlite && final(self).model() == old(self).model(),
    {
        match insert_task_row(self, description) {
            Ok(id) => {
                proof {
                    assert(added_with(old(self).model(), self.model(), id, description@));
                }
                Ok(())
            },
            Err(m) => Err(TodoError::Rusqlite(m)),
        }
    }

    /// Lists every stored task as an id, description, completed triple, in
    /// ascending id order.
    pub fn list_tasks(&self) -> (r: Result<Vec<(i64, String, bool)>, TodoError>)
        ensures
            r matches Ok(rows) ==> listing_of(self.model(), rows@),
            r matches Err(e) ==> e is Rusqlite,
    {
        match select_task_rows(self) {
            Ok(rows) => Ok(rows),
            Err(m) => Err(TodoError::Rusqlite(m)),
        }
    }

    /// Marks the task with the given id completed, leaving its description
    /// unchanged; a missing id is a no-op.
    pub fn complete_task(&mut self, id: i64) -> (r: Result<(), TodoError>)
        requires
            old(self).wf(),
        ensures
            final(self).wf(),
            r is Ok ==> if old(self).model().dom().contains(id) {
                final(self).model() == old(self).model().insert(
                    id,
                    (old(self).model()[id].0, true),
                )
            } else {
                final(self).model() == old(self).model()
            },
            r matches Err(e) ==> e is Rusqlite && final(self).model() == old(self).model(),
    {
        match update_completed_row(self, id) {
            Ok(_) => Ok(()),
            Err(m) => Err(TodoError::Rusqlite(m)),
        }
    }

    /// Deletes the task with the given id, shrinking the store by exactly one
    /// task; a missing id is a no-op.
    pub fn remove_task(&mut self, id: i64) -> (r: Result<(), TodoError>)
        requires
            old(self).wf(),
        ensures
            final(self).wf(),
            r is Ok ==> if old(self).model().dom().contains(id) {
                &&& final(self).model() == old(self).model().remove(id)
                &&& final(self).model().dom().len() == old(self).model().dom().len() - 1
            } else {
                final(self).model() == old(self).model()
            },
            r matches Err(e) ==> e is Rusqlite && final(self).model() == old(self).model(),
    {
        match delete_task_row(self, id) {
            Ok(_) => {
                proof {
                    broadcast use vstd::set::group_set_axioms;

                    if old(self).model().dom().contains(id) {
                        assert(self.model().dom() =~= old(self).model().dom().remove(id));
                    }
                }
                Ok(())
            },
            Err(m) => Err(TodoError::Rusqlite(m)),
        }
    }

    /// The id the next id-less import record receives: the current maximum
    /// stored id plus one, or one for an empty store.
    fn get_next_id(&self) -> (r: Result<i64, TodoError>)
        ensures
            r matches Ok(n) ==> n as int == max_id_spec(self.model()) + 1,
            r matches Err(e) ==> (e is DatabaseError && max_id_spec(self.model()) + 1
                > i64::MAX) || e is Rusqlite,
    {
        match max_task_id(self) {
            Err(m) => Err(TodoError::Rusqlite(m)),
            Ok(None) => Ok(1),
            Ok(Some(x)) => {
                proof {
                    let m = self.model();
                    assert(m.dom().contains(x) && (forall|j: i64|
                        m.dom().contains(j) ==> j <= x));
                    assert(!m.dom().is_empty());
                    let k = choose|k: i64|
                        m.dom().contains(k) && (forall|j: i64| m.dom().contains(j) ==> j <= k);
                    assert(m.dom().contains(k) && (forall|j: i64|
                        m.dom().contains(j) ==> j <= k));
                    assert(k <= x && x <= k);
                    assert(max_id_spec(m) == x as int);
                }
                if x == i64::MAX {
                    Err(TodoError::DatabaseError(String::from_str("no unused task id is left")))
                } else {
                    Ok(x + 1)
                }
            },
        }
    }

    /// Reconciles a JSON batch into the store: each record is upserted under
    /// its own id, or under a freshly assigned one when it carries none, in
    /// input order. Returns the count of reconciled records.
    pub fn import_from_json(&mut self, json: &str) -> (r: Result<usize, TodoError>)
        requires
            old(self).wf(),
        ensures
            final(self).wf(),
            match r {
                Ok(n) => parsed_records(json@) matches Some(recs) && import_applied(
                    old(self).model(),
                    final(self).model(),
                    recs,
                ) && n == recs.len(),
                Err(e) => match e {
                    TodoError::InvalidJsonFormat => parsed_records(json@) is None
                        && final(self).model() == old(self).model(),
                    TodoError::DatabaseError(_) => parsed_records(json@) matches Some(recs)
                        && !assign_fits(old(self).model(), recs) && import_stopped(
                        old(self).model(),
                        final(self).model(),
                        recs,
                    ),
                    TodoError::Rusqlite(_) => parsed_records(json@) matches Some(recs)
                        && import_stopped(old(self).model(), final(self).model(), recs),
                    _ => false,
                },
            },
    {
        let recs = match parse_records(json) {
            Err(e) => {
                return Err(e);
            },
            Ok(v) => v,
        };
        let ghost m0 = old(self).model();
        let ghost rs = recs@;
        let n = recs.len();
        let mut i: usize = 0;
        while i < n
            invariant
                self.wf(),
                n == rs.len(),
                recs@ == rs,
                i <= n,
                parsed_records(json@) == Some(rs),
                old(self).model() == m0,
                assign_fits(m0, rs.take(i as int)),
                self.model() == apply_records(m0, rs.take(i as int)),
            decreases n - i,
        {
            let rec = &recs[i];
            let id: i64 = match record_id(rec) {
                Some(x) => x,
                None => match self.get_next_id() {
                    Ok(v) => v,
                    Err(e) => {
                        proof {
                            assert(rs.take(i as int) + rs.skip(i as int) =~= rs);
                            lemma_apply_records_app(m0, rs.take(i as int), rs.skip(i as int));
                            if e is DatabaseError {
                                let cur = apply_records(m0, rs.take(i as int));
                                assert(rs.skip(i as int)[0] == rs[i as int]);
                                assert(effective_id(cur, rs[i as int]) == max_id_spec(cur) + 1);
                                assert(!assign_fits(cur, rs.skip(i as int)));
                                assert(!assign_fits(m0, rs));
                            }
                            assert(0 <= i as int <= rs.len() && self.model() == apply_records(
                                m0,
                                rs.take(i as int),
                            ));
                            assert(import_stopped(m0, self.model(), rs));
                        }
                        return Err(e);
                    },
                },
            };
            let desc = record_description(rec);
            let comp = record_completed(rec);
            proof {
                lemma_apply_records_step(m0, rs, i as int);
                let cur = apply_records(m0, rs.take(i as int));
                assert(effective_id(cur, rs[i as int]) == id as int);
            }
            match upsert_task_row(self, id, desc.as_str(), comp) {
                Ok(_) => {},
                Err(m) => {
                    proof {
                        assert(0 <= i as int <= rs.len() && self.model() == apply_records(
                            m0,
                            rs.take(i as int),
                        ));
                        assert(import_stopped(m0, self.model(), rs));
                    }
                    return Err(TodoError::Rusqlite(m));
                },
            }
            i += 1;
        }
        proof {
            assert(rs.take(n as int) =~= rs);
        }
        Ok(n)
    }

    /// Resolves a JSON batch exactly as an import would, without touching the
    /// store: the result pairs each record's effective description with its
    /// effective completion flag, in input order.
    pub fn import_from_json_dry_run(&self, json: &str) -> (r: Result<
        Vec<(String, bool)>,
        TodoError,
    >)
        ensures
            match r {
                Ok(v) => parsed_records(json@) matches Some(recs) && v@.len() == recs.len()
                    && forall|i: int|
                    0 <= i < recs.len() ==> (#[trigger] v@[i]).0@ == effective_desc(recs[i])
                        && v@[i].1 == effective_completed(recs[i]),
                Err(e) => e is InvalidJsonFormat && parsed_records(json@) is None,
            },
    {
        let recs = match parse_records(json) {
            Err(e) => {
                return Err(e);
            },
            Ok(v) => v,
        };
        let ghost rs = recs@;
        let mut out: Vec<(String, bool)> = Vec::new();
        let n = recs.len();
        let mut i: usize = 0;
        while i < n
            invariant
                n == rs.len(),
                recs@ == rs,
                i <= n,
                out@.len() == i,
                forall|j: int|
                    0 <= j < i ==> (#[trigger] out@[j]).0@ == effective_desc(rs[j]) && out@[j].1
                        == effective_completed(rs[j]),
            decreases n - i,
        {
            let rec = &recs[i];
            out.push((record_description(rec), record_completed(rec)));
            i += 1;
        }
        Ok(out)
    }

    /// Renders the whole store as the canonical pretty-printed JSON array of
    /// task objects, in ascending id order.
    pub fn export_to_json(&self) -> (r: Result<String, TodoError>)
        ensures
            r matches Ok(s) ==> exists|rows: Seq<(i64, String, bool)>|
                #[trigger] listing_of(self.model(), rows) && s@ == tasks_json(row_views(rows)),
            r matches Err(e) ==> e is Rusqlite,
    {
        let rows = match select_task_rows(self) {
            Ok(v) => v,
            Err(m) => {
                return Err(TodoError::Rusqlite(m));
            },
        };
        let mut tasks: Vec<Task> = Vec::new();
        let n = rows.len();
        let mut i: usize = 0;
        while i < n
            invariant
                n == rows@.len(),
                i <= n,
                tasks@.len() == i,
                forall|j: int|
                    0 <= j < i ==> (#[trigger] tasks@[j])@ == (
                        rows@[j].0 as int,
                        rows@[j].1@,
                        rows@[j].2,
                    ),
            decreases n - i,
        {
            let row = &rows[i];
            tasks.push(Task { id: row.0, description: row.1.clone(), completed: row.2 });
            i += 1;
        }
        let s = encode_tasks(&tasks);
        proof {
            assert(task_views(tasks@) =~= row_views(rows@));
            assert(listing_of(self.model(), rows@));
        }
        Ok(s)
    }
}

} // verus!
