use vstd::prelude::*;

use crate::record::{RecordView, TimerRecord};

verus! {

#[verifier::external_type_specification]
#[verifier::external_body]
pub struct ExConnection(rusqlite::Connection);

#[verifier::external_type_specification]
#[verifier::external_body]
pub struct ExSqliteError(rusqlite::Error);

/// One stored row: the assigned id followed by the persisted fields
/// (category, description, detail, start time, end time, total seconds).
pub type RowModel = (int, Seq<char>, Seq<char>, Seq<char>, Seq<char>, Seq<char>, int);

/// The rows of the `timer` table of the database behind `conn`, in
/// ascending id order.
pub uninterp spec fn table_rows(conn: rusqlite::Connection) -> Seq<RowModel>;

pub open spec fn row_of(id: int, r: RecordView) -> RowModel {
    (id, r.category, r.description, r.detail, r.start_time, r.end_time, r.total_time_seconds)
}

pub open spec fn stored_view(p: (i64, TimerRecord)) -> RowModel {
    row_of(p.0 as int, p.1@)
}

pub open spec fn rows_ascending(rows: Seq<RowModel>) -> bool {
    forall|i: int, j: int| 0 <= i < j < rows.len() ==> rows[i].0 < rows[j].0
}

/// The up-to-`n` newest rows, newest first: the retrieval contract of the
/// store.
pub open spec fn recent_model(rows: Seq<RowModel>, n: int) -> Seq<RowModel> {
    let k = if 0 <= n <= rows.len() {
        n
    } else if n < 0 {
        0
    } else {
        rows.len() as int
    };
    Seq::new(k as nat, |i: int| rows[rows.len() - 1 - i])
}

/// A fault of the storage layer, surfaced to the caller; nothing is
/// retried.
#[derive(Debug)]
pub enum StorageError {
    /// The backing database reported an error; the text is its message.
    Backend(String),
    /// The id space is used up: the newest row already carries the
    /// largest representable id, so no further row can be appended
    /// without breaking monotonic identity assignment.
    Exhausted,
}

/// Relies on rusqlite's `Connection::execute` running `CREATE TABLE IF NOT
/// EXISTS timer ...`: SQLite leaves an existing table and its rows
/// untouched and otherwise creates an empty one, so the stored rows do not
/// change; `id INTEGER PRIMARY KEY` makes the ids unique integers, so the
/// rows have one place in the ascending-id order.
#[verifier::external_body]
fn exec_create_table(conn: &mut rusqlite::Connection) -> (r: Result<(), rusqlite::Error>)
    ensures
        r is Ok ==> table_rows(*final(conn)) == table_rows(*old(conn)),
        r is Ok ==> rows_ascending(table_rows(*final(conn))),
{
    let sql = "CREATE TABLE IF NOT EXISTS timer (
            id INTEGER PRIMARY KEY,
            category TEXT,
            description TEXT,
            detail TEXT,
            start_time TEXT,
            end_time TEXT,
            total_time_seconds INTEGER
        )";
    conn.execute(sql, ()).map(|_| ())
}

/// Relies on rusqlite's `Connection::query_row` running `SELECT MAX(id)`:
/// SQLite's MAX aggregate yields NULL on an empty table and the largest id
/// otherwise.
#[verifier::external_body]
fn exec_select_max_id(conn: &rusqlite::Connection) -> (r: Result<Option<i64>, rusqlite::Error>)
    ensures
        r matches Ok(m) ==> (m is None <==> table_rows(*conn).len() == 0),
        r matches Ok(m) ==> (m matches Some(x) ==> (exists|i: int|
            0 <= i < table_rows(*conn).len() && table_rows(*conn)[i].0 == x) && forall|i: int|
            0 <= i < table_rows(*conn).len() ==> table_rows(*conn)[i].0 <= x),
{
    conn.query_row("SELECT MAX(id) FROM timer", (), |row| row.get::<_, Option<i64>>(0))
}

/// Relies on rusqlite's `Connection::execute` running an `INSERT` and on
/// `Connection::last_insert_rowid`: SQLite documents that, as long as no
/// existing rowid is the largest representable integer, the inserted row
/// gets a rowid one more than the largest in use (1 on an empty table),
/// hence fresh and larger than every existing id; a failed statement
/// changes no rows.
#[verifier::external_body]
fn exec_insert(conn: &mut rusqlite::Connection, rec: &TimerRecord) -> (r: Result<
    i64,
    rusqlite::Error,
>)
    requires
        forall|i: int| #![trigger table_rows(*old(conn))[i]]
            0 <= i < table_rows(*old(conn)).len() ==> table_rows(*old(conn))[i].0 < i64::MAX,
    ensures
        r matches Ok(id) ==> table_rows(*final(conn)) == table_rows(*old(conn)).push(
            row_of(id as int, rec@),
        ) && forall|i: int|
            0 <= i < table_rows(*old(conn)).len() ==> table_rows(*old(conn))[i].0 < id,
        r is Err ==> table_rows(*final(conn)) == table_rows(*old(conn)),
{
    let sql = "INSERT INTO timer (category, description, detail, start_time, end_time, total_time_seconds)
            VALUES (?1, ?2, ?3, ?4, ?5, ?6)";
    let params = (
        &rec.category, &rec.description, &rec.detail,
        &rec.start_time, &rec.end_time, &rec.total_time_seconds,
    );
    conn.execute(sql, params)?;
    Ok(conn.last_insert_rowid())
}

/// Relies on rusqlite's `Connection::prepare`, `Statement::query_map` and
/// row `get` running `SELECT ... ORDER BY id DESC LIMIT ?`: SQLite returns
/// the rows in descending id order, at most the limit many (all of them
/// when the limit is negative, which the cast produces only for counts
/// beyond `i64`, when every row fits the limit anyway).
#[verifier::external_body]
fn exec_select_recent(conn: &rusqlite::Connection, n: usize) -> (r: Result<
    Vec<(i64, TimerRecord)>,
    rusqlite::Error,
>)
    ensures
        r matches Ok(v) ==> v@.map_values(|p: (i64, TimerRecord)| stored_view(p)) == recent_model(
            table_rows(*conn),
            n as int,
        ),
{
    let sql =
        "SELECT id, category, description, detail, start_time, end_time, total_time_seconds
            FROM timer ORDER BY id DESC LIMIT ?1";
    let mut stmt = conn.prepare(sql)?;
    let rows = stmt.query_map((n as i64,), |row| {
        let rec = TimerRecord {
            category: row.get(1)?, description: row.get(2)?, detail: row.get(3)?,
            start_time: row.get(4)?, end_time: row.get(5)?, total_time_seconds: row.get(6)?,
        };
        Ok((row.get(0)?, rec))
    })?;
    rows.collect()
}

/// Relies on rusqlite::Error's Display implementation for a readable
/// message.
#[verifier::external_body]
fn error_text(e: &rusqlite::Error) -> String {
    format!("{}", e)
}

/// The persistent record store: a handle on the database holding the
/// `timer` table, together with the largest id in use, which guards
/// identity assignment.
pub struct RecordStore {
    conn: rusqlite::Connection,
    max_id: Option<i64>,
}

impl RecordStore {
    /// The stored rows, in ascending id order.
    pub closed spec fn rows(&self) -> Seq<RowModel> {
        table_rows(self.conn)
    }

    /// The ids ascend (so the newest row is last), and `max_id` is `None`
    /// exactly on an empty store and otherwise the newest row's id.
    pub closed spec fn wf(&self) -> bool {
        &&& rows_ascending(self.rows())
        &&& match self.max_id {
            Option::None => self.rows().len() == 0,
            Option::Some(m) => self.rows().len() > 0 && self.rows().last().0 == m,
        }
    }

    /// Whether no further id can be assigned: the newest row already
    /// carries the largest representable id.
    pub open spec fn exhausted(rows: Seq<RowModel>) -> bool {
        rows.len() > 0 && rows.last().0 == i64::MAX
    }

    /// Open the store on `conn`: creates the `timer` table if it is
    /// missing (idempotent, safe on every startup) and leaves whatever
    /// records the database already held.  A `timer` table that already
    /// exists is assumed to have the declared schema; rows of a
    /// nonconforming table are outside the store's model, and reading
    /// them fails over to an error.
    pub fn new(conn: rusqlite::Connection) -> (r: Result<RecordStore, StorageError>)
        ensures
            r matches Ok(s) ==> s.wf() && s.rows() == table_rows(conn),
    {
        let mut c = conn;
        match exec_create_table(&mut c) {
            Err(e) => Err(StorageError::Backend(error_text(&e))),
            Ok(()) => match exec_select_max_id(&c) {
                Err(e) => Err(StorageError::Backend(error_text(&e))),
                Ok(m) => {
                    proof {
                        let rows = table_rows(c);
                        match m {
                            Option::Some(x) => {
                                let i = choose|i: int|
                                    0 <= i < rows.len() && rows[i].0 == x;
                                assert(rows.last().0 <= x);
                                if i < rows.len() - 1 {
                                    assert(rows[i].0 < rows.last().0);
                                }
                                assert(rows.last().0 == x);
                            },
                            Option::None => {},
                        }
                    }
                    Ok(RecordStore { conn: c, max_id: m })
                },
            },
        }
    }

    /// Append `rec` as a new record.  On success the returned id is
    /// strictly greater than every id previously in the store — identity
    /// is monotonically increasing and never reused — and the new row is
    /// the newest.  The id space being used up is reported as
    /// `Exhausted`, exactly when it is; on any fault the store's
    /// contents are unchanged.
    pub fn insert(&mut self, rec: &TimerRecord) -> (r: Result<i64, StorageError>)
        requires
            old(self).wf(),
        ensures
            final(self).wf(),
            r matches Ok(id) ==> final(self).rows() == old(self).rows().push(
                row_of(id as int, rec@),
            ) && forall|i: int|
                0 <= i < old(self).rows().len() ==> #[trigger] old(self).rows()[i].0 < id,
            r is Err ==> final(self).rows() == old(self).rows(),
            (r matches Err(StorageError::Exhausted)) <==> Self::exhausted(old(self).rows()),
    {
        if let Option::Some(m) = self.max_id {
            if m == i64::MAX {
                return Err(StorageError::Exhausted);
            }
        }
        proof {
            assert forall|i: int| 0 <= i < self.rows().len() implies self.rows()[i].0
                < i64::MAX by {
                if i < self.rows().len() - 1 {
                    assert(self.rows()[i].0 < self.rows().last().0);
                }
            }
        }
        let ghost prior = self.rows();
        match exec_insert(&mut self.conn, rec) {
            Err(e) => Err(StorageError::Backend(error_text(&e))),
            Ok(id) => {
                self.max_id = Some(id);
                proof {
                    assert(rows_ascending(self.rows())) by {
                        assert(forall|i: int, j: int|
                            0 <= i < j < self.rows().len() ==> self.rows()[i].0
                                < self.rows()[j].0);
                    };
                }
                Ok(id)
            },
        }
    }

    /// The up-to-`n` most recently inserted records, newest first, each
    /// with its id; fewer than `n` when fewer exist, and none for
    /// `n == 0`.
    pub fn query_recent(&self, n: usize) -> (r: Result<Vec<(i64, TimerRecord)>, StorageError>)
        ensures
            r matches Ok(v) ==> v@.map_values(|p: (i64, TimerRecord)| stored_view(p))
                == recent_model(self.rows(), n as int),
    {
        match exec_select_recent(&self.conn, n) {
            Err(e) => Err(StorageError::Backend(error_text(&e))),
            Ok(v) => Ok(v),
        }
    }
}

/// Law: a query for zero records yields the empty sequence, whatever is
/// stored.
pub proof fn lemma_recent_zero(rows: Seq<RowModel>)
    ensures
        recent_model(rows, 0) =~= Seq::<RowModel>::empty(),
{
}

/// Law: a query for at least as many records as are stored yields them
/// all, newest first.
pub proof fn lemma_recent_all(rows: Seq<RowModel>, n: int)
    requires
        n >= rows.len(),
    ensures
        recent_model(rows, n).len() == rows.len(),
        forall|i: int| 0 <= i < rows.len() ==> recent_model(rows, n)[i] == rows[rows.len() - 1
            - i],
{
}

/// Law: when the stored ids ascend, a query's result runs strictly
/// descending by identity — newest first.
pub proof fn lemma_recent_descending(rows: Seq<RowModel>, n: int, i: int, j: int)
    requires
        rows_ascending(rows),
        0 <= i < j < recent_model(rows, n).len(),
    ensures
        recent_model(rows, n)[i].0 > recent_model(rows, n)[j].0,
{
}

/// Law: round trip.  A record just inserted, carrying the id the store
/// assigned, is exactly what a query for the single most recent row
/// returns: category, description, detail, both timestamps and the total
/// come back unchanged.
pub proof fn lemma_insert_then_query_one(rows: Seq<RowModel>, id: int, r: RecordView)
    ensures
        recent_model(rows.push(row_of(id, r)), 1) =~= seq![row_of(id, r)],
{
    assert(recent_model(rows.push(row_of(id, r)), 1).len() == 1);
}

} // verus!
