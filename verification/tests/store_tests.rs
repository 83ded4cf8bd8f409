use timekeep::flow::stop_and_persist;
use timekeep::manual::{manual_entry, ManualError, TimeField};
use timekeep::record::TimerRecord;
use timekeep::session::TimerSession;
use timekeep::store::{RecordStore, StorageError};
use timekeep::time::Timestamp;

fn fresh_store() -> RecordStore {
    let conn = rusqlite::Connection::open_in_memory().unwrap();
    RecordStore::new(conn).unwrap()
}

fn sample(tag: &str) -> TimerRecord {
    TimerRecord {
        category: format!("cat-{}", tag),
        description: format!("desc-{}", tag),
        detail: format!("d1-{}\nd2-{}", tag, tag),
        start_time: format!("2024-06-01T10:00:00+00:00"),
        end_time: format!("2024-06-01T11:00:00+00:00"),
        total_time_seconds: 3600,
    }
}

#[test]
fn query_recent_zero_is_empty() {
    let mut store = fresh_store();
    assert_eq!(store.query_recent(0).unwrap().len(), 0);
    store.insert(&sample("a")).unwrap();
    assert_eq!(store.query_recent(0).unwrap().len(), 0);
}

#[test]
fn query_recent_beyond_count_returns_all_newest_first() {
    let mut store = fresh_store();
    let id_a = store.insert(&sample("a")).unwrap();
    let id_b = store.insert(&sample("b")).unwrap();
    assert!(id_b > id_a);
    let rows = store.query_recent(10).unwrap();
    assert_eq!(rows.len(), 2);
    assert_eq!(rows[0].0, id_b);
    assert_eq!(rows[0].1.category, "cat-b");
    assert_eq!(rows[1].0, id_a);
    assert_eq!(rows[1].1.category, "cat-a");
}

#[test]
fn query_recent_limits_to_n() {
    let mut store = fresh_store();
    store.insert(&sample("a")).unwrap();
    store.insert(&sample("b")).unwrap();
    let id_c = store.insert(&sample("c")).unwrap();
    let rows = store.query_recent(1).unwrap();
    assert_eq!(rows.len(), 1);
    assert_eq!(rows[0].0, id_c);
}

#[test]
fn insert_then_query_one_round_trips_every_field() {
    let mut store = fresh_store();
    let rec = sample("rt");
    let id = store.insert(&rec).unwrap();
    let rows = store.query_recent(1).unwrap();
    assert_eq!(rows.len(), 1);
    let (got_id, got) = &rows[0];
    assert_eq!(*got_id, id);
    assert_eq!(got.category, rec.category);
    assert_eq!(got.description, rec.description);
    assert_eq!(got.detail, rec.detail);
    assert_eq!(got.start_time, rec.start_time);
    assert_eq!(got.end_time, rec.end_time);
    assert_eq!(got.total_time_seconds, rec.total_time_seconds);
}

#[test]
fn ids_keep_increasing_across_many_inserts() {
    let mut store = fresh_store();
    let mut last = 0i64;
    for k in 0..5 {
        let id = store.insert(&sample(&format!("{}", k))).unwrap();
        assert!(id > last);
        last = id;
    }
    let rows = store.query_recent(5).unwrap();
    assert_eq!(rows.len(), 5);
    for w in rows.windows(2) {
        assert!(w[0].0 > w[1].0);
    }
}

#[test]
fn insert_fails_cleanly_when_id_space_is_exhausted() {
    let conn = rusqlite::Connection::open_in_memory().unwrap();
    conn.execute(
        "CREATE TABLE timer (id INTEGER PRIMARY KEY, category TEXT, description TEXT, \
         detail TEXT, start_time TEXT, end_time TEXT, total_time_seconds INTEGER)",
        (),
    )
    .unwrap();
    conn.execute(
        "INSERT INTO timer (id, category, description, detail, start_time, end_time, \
         total_time_seconds) VALUES (9223372036854775807, 'c', 'd', '', 's', 'e', 1)",
        (),
    )
    .unwrap();
    let mut store = RecordStore::new(conn).unwrap();
    let r = store.insert(&sample("x"));
    assert!(matches!(r, Err(StorageError::Exhausted)));
    // Nothing was appended.
    assert_eq!(store.query_recent(10).unwrap().len(), 1);
}

#[test]
fn initializing_on_a_read_only_database_reports_a_backend_error() {
    let flags = rusqlite::OpenFlags::SQLITE_OPEN_READ_ONLY;
    let Ok(conn) = rusqlite::Connection::open_in_memory_with_flags(flags) else {
        return;
    };
    let r = RecordStore::new(conn);
    assert!(matches!(r, Err(StorageError::Backend(_))));
}

#[test]
fn stop_and_persist_writes_the_finalized_record() {
    let mut store = fresh_store();
    let mut s = TimerSession::new();
    s.start(
        &Timestamp { seconds: 100, rfc3339: String::from("t100") },
        String::from("work"),
        String::from("notes"),
    )
    .unwrap();
    s.add_detail(String::from("one")).unwrap();
    s.add_detail(String::from("two")).unwrap();
    let id = stop_and_persist(
        &mut s,
        &mut store,
        &Timestamp { seconds: 160, rfc3339: String::from("t160") },
    )
    .unwrap();
    let rows = store.query_recent(1).unwrap();
    assert_eq!(rows[0].0, id);
    assert_eq!(rows[0].1.category, "work");
    assert_eq!(rows[0].1.detail, "one\ntwo");
    assert_eq!(rows[0].1.start_time, "t100");
    assert_eq!(rows[0].1.end_time, "t160");
    assert_eq!(rows[0].1.total_time_seconds, 60);
}

#[test]
fn manual_entry_two_hours_is_7200_seconds() {
    let mut store = fresh_store();
    let (id, rec) = manual_entry(
        &mut store,
        "meeting",
        "planning",
        "2024-06-01 14:30",
        "2024-06-01 16:30",
    )
    .unwrap();
    assert_eq!(rec.total_time_seconds, 7200);
    let rows = store.query_recent(1).unwrap();
    assert_eq!(rows[0].0, id);
    assert_eq!(rows[0].1.total_time_seconds, 7200);
    assert_eq!(rows[0].1.category, "meeting");
    assert_eq!(rows[0].1.description, "planning");
    assert_eq!(rows[0].1.detail, "");
}

#[test]
fn manual_entry_bad_start_inserts_nothing_and_recovers() {
    let mut store = fresh_store();
    let r = manual_entry(&mut store, "c", "d", "not-a-date", "2024-06-01 16:30");
    assert!(matches!(r, Err(ManualError::Parse(TimeField::Start))));
    assert_eq!(store.query_recent(10).unwrap().len(), 0);
    // The loop goes on: a later, well-formed entry still lands.
    manual_entry(&mut store, "c", "d", "2024-06-01 14:30", "2024-06-01 16:30").unwrap();
    assert_eq!(store.query_recent(10).unwrap().len(), 1);
}

#[test]
fn manual_entry_bad_end_names_the_end_field() {
    let mut store = fresh_store();
    let r = manual_entry(&mut store, "c", "d", "2024-06-01 14:30", "sometime later");
    assert!(matches!(r, Err(ManualError::Parse(TimeField::End))));
    assert_eq!(store.query_recent(10).unwrap().len(), 0);
}

#[test]
fn manual_entry_with_reversed_times_records_negative_total() {
    let mut store = fresh_store();
    manual_entry(&mut store, "c", "d", "2024-06-01 16:30", "2024-06-01 14:30").unwrap();
    let rows = store.query_recent(1).unwrap();
    assert_eq!(rows[0].1.total_time_seconds, -7200);
}

#[test]
fn manual_entry_trims_category_and_description() {
    let mut store = fresh_store();
    manual_entry(&mut store, "  cat  ", "\tdesc\n", "2024-06-01 14:30", "2024-06-01 14:31")
        .unwrap();
    let rows = store.query_recent(1).unwrap();
    assert_eq!(rows[0].1.category, "cat");
    assert_eq!(rows[0].1.description, "desc");
    assert_eq!(rows[0].1.total_time_seconds, 60);
}
