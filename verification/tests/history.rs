use handy::history::{
    check_updated, cleanup_old_entries, entry_title, finish_page, latest_completed_entry,
    latest_entry, legacy_version, page_query, toggle_saved, DictationUsage, HistoryEntry,
    HistoryUpdatePayload, PageQuery, PendingEntry, RecordingRetentionPeriod, RetentionRow,
};
use handy::usage::{
    daily_since, monthly_since, usage_buckets, usage_summary, DatedEvent, UsageEvent,
};
use rusqlite::Connection;

fn setup_conn() -> Connection {
    let conn = Connection::open_in_memory().expect("open in-memory db");
    conn.execute_batch(
        "CREATE TABLE transcription_history (
            id INTEGER PRIMARY KEY AUTOINCREMENT,
            file_name TEXT NOT NULL,
            timestamp INTEGER NOT NULL,
            saved BOOLEAN NOT NULL DEFAULT 0,
            title TEXT NOT NULL,
            transcription_text TEXT NOT NULL,
            post_processed_text TEXT,
            post_process_prompt TEXT,
            post_process_requested BOOLEAN NOT NULL DEFAULT 0
        );
        CREATE TABLE usage_events (
            id INTEGER PRIMARY KEY AUTOINCREMENT,
            timestamp INTEGER NOT NULL,
            duration_ms INTEGER,
            model_id TEXT,
            engine TEXT,
            cost_usd REAL
        );",
    )
    .expect("create tables");
    conn
}

fn insert_event(conn: &Connection, event: &UsageEvent, cost: Option<f64>) {
    conn.execute(
        "INSERT INTO usage_events (timestamp, duration_ms, model_id, engine, cost_usd)
         VALUES (?1, ?2, ?3, ?4, ?5)",
        (
            event.timestamp,
            event.duration_ms,
            &event.model_id,
            &event.engine,
            cost,
        ),
    )
    .expect("insert usage event");
}

fn insert_usage(conn: &Connection, timestamp: i64, duration_ms: Option<i64>, cost: Option<f64>) {
    let event = UsageEvent {
        timestamp,
        duration_ms,
        model_id: Some("gemini-3.5-transcribe-live".to_string()),
        engine: Some("cloud".to_string()),
    };
    insert_event(conn, &event, cost);
}

fn insert_pending(conn: &Connection, pending: &PendingEntry) -> i64 {
    conn.execute(
        "INSERT INTO transcription_history (
            file_name, timestamp, saved, title, transcription_text,
            post_processed_text, post_process_prompt, post_process_requested
         ) VALUES (?1, ?2, 0, ?3, ?4, ?5, ?6, ?7)",
        (
            &pending.file_name,
            pending.timestamp,
            &pending.title,
            &pending.transcription_text,
            &pending.post_processed_text,
            &pending.post_process_prompt,
            pending.post_process_requested,
        ),
    )
    .expect("insert history entry");
    conn.last_insert_rowid()
}

fn pending(timestamp: i64, text: &str, post_processed: Option<&str>) -> PendingEntry {
    PendingEntry {
        file_name: format!("handy-{timestamp}.wav"),
        timestamp,
        title: format!("Recording {timestamp}"),
        transcription_text: text.to_string(),
        post_processed_text: post_processed.map(str::to_string),
        post_process_prompt: None,
        post_process_requested: false,
        usage: DictationUsage::default(),
    }
}

fn insert_entry(conn: &Connection, timestamp: i64, text: &str, post_processed: Option<&str>) {
    insert_pending(conn, &pending(timestamp, text, post_processed));
}

fn entries(conn: &Connection) -> Vec<HistoryEntry> {
    let mut stmt = conn
        .prepare(
            "SELECT id, file_name, timestamp, saved, title, transcription_text,
                    post_processed_text, post_process_prompt, post_process_requested
             FROM transcription_history ORDER BY id",
        )
        .unwrap();
    stmt.query_map([], |row| {
        Ok(HistoryEntry {
            id: row.get(0)?,
            file_name: row.get(1)?,
            timestamp: row.get(2)?,
            saved: row.get(3)?,
            title: row.get(4)?,
            transcription_text: row.get(5)?,
            post_processed_text: row.get(6)?,
            post_process_prompt: row.get(7)?,
            post_process_requested: row.get(8)?,
        })
    })
    .unwrap()
    .map(|row| row.unwrap())
    .collect()
}

fn ledger(conn: &Connection) -> (Vec<UsageEvent>, Vec<Option<f64>>) {
    let mut stmt = conn
        .prepare(
            "SELECT timestamp, duration_ms, model_id, engine, cost_usd
             FROM usage_events ORDER BY id",
        )
        .unwrap();
    stmt.query_map([], |row| {
        Ok((
            UsageEvent {
                timestamp: row.get(0)?,
                duration_ms: row.get(1)?,
                model_id: row.get(2)?,
                engine: row.get(3)?,
            },
            row.get::<_, Option<f64>>(4)?,
        ))
    })
    .unwrap()
    .map(|row| row.unwrap())
    .unzip()
}

fn cost(costs: &[Option<f64>], members: &[usize]) -> f64 {
    members.iter().filter_map(|i| costs[*i]).sum()
}

#[test]
fn the_returned_id_addresses_the_history_row_not_the_ledger_row() {
    let conn = setup_conn();
    // Give the ledger a head start, so the two tables' rowids cannot coincide.
    for i in 0..5 {
        insert_usage(&conn, 1_788_000_000 + i, Some(1_000), None);
    }

    let mut dictation = pending(1_788_100_000, "привет", None);
    dictation.file_name = "handy-1.wav".to_string();
    dictation.title = "Recording".to_string();
    dictation.usage = DictationUsage {
        duration_ms: Some(4_200),
        model_id: Some("gemini-3.5-transcribe-live".to_string()),
        engine: Some("cloud".to_string()),
    };
    let rowid = insert_pending(&conn, &dictation);
    let (entry, row) = dictation.written(rowid);
    insert_event(&conn, &row, Some(0.00063));

    let text: String = conn
        .query_row(
            "SELECT transcription_text FROM transcription_history WHERE id = ?1",
            [entry.id],
            |r| r.get(0),
        )
        .expect("the id must address the history row");
    assert_eq!(text, "привет");
    assert!(!entry.saved);
    assert_eq!(entry.file_name, "handy-1.wav");

    // And the ledger got its own row for the same dictation.
    let (events, _) = ledger(&conn);
    assert_eq!(events.len(), 6);
    assert_eq!(events[5].duration_ms, Some(4_200));
    assert_eq!(events[5].timestamp, 1_788_100_000);
}

#[test]
fn pruning_history_does_not_change_the_usage_report() {
    let conn = setup_conn();
    for i in 0..10 {
        let ts = 1_788_000_000 + i * 60;
        insert_entry(&conn, ts, "text", None);
        insert_usage(&conn, ts, Some(30_000), Some(0.0045));
    }

    let (events, costs) = ledger(&conn);
    let before = usage_summary(&events);
    let cost_before = cost(&costs, &before.totals.members);
    assert_eq!(before.totals.dictations, 10);
    assert_eq!(before.totals.measured, 10);
    assert_eq!(before.totals.milliseconds, 300_000);

    // Pruning keeps the newest two.
    let rows: Vec<RetentionRow> = entries(&conn)
        .into_iter()
        .map(|e| RetentionRow {
            id: e.id,
            file_name: e.file_name,
            timestamp: e.timestamp,
            saved: e.saved,
        })
        .collect();
    let removed = cleanup_old_entries(RecordingRetentionPeriod::PreserveLimit, 2, 0, &rows);
    for i in removed {
        conn.execute(
            "DELETE FROM transcription_history WHERE id = ?1",
            [rows[i].id],
        )
        .expect("prune history");
    }
    let left = entries(&conn);
    assert_eq!(left.len(), 2);
    assert_eq!(left[0].timestamp, 1_788_000_000 + 8 * 60);

    let (events, costs) = ledger(&conn);
    let after = usage_summary(&events);
    assert_eq!(
        after.totals.dictations, before.totals.dictations,
        "usage must survive the history cache being trimmed"
    );
    assert_eq!(after.totals.milliseconds, before.totals.milliseconds);
    assert!((cost(&costs, &after.totals.members) - cost_before).abs() < 1e-9);
}

#[test]
fn usage_counts_untimed_events_without_inventing_duration() {
    let conn = setup_conn();
    insert_usage(&conn, 1_788_000_000, Some(12_000), Some(0.0018));
    insert_usage(&conn, 1_788_000_060, None, None);

    let (events, _) = ledger(&conn);
    let summary = usage_summary(&events);
    assert_eq!(summary.totals.dictations, 2);
    assert_eq!(
        summary.totals.measured, 1,
        "only one event carried a duration"
    );
    assert_eq!(summary.totals.milliseconds, 12_000);
}

#[test]
fn usage_buckets_group_by_period_and_survive_pruning() {
    let conn = setup_conn();
    insert_usage(&conn, 1_788_000_000, Some(60_000), Some(0.009));
    insert_usage(&conn, 1_788_000_000 + 86_400, Some(30_000), Some(0.0045));

    let mut stmt = conn
        .prepare("SELECT timestamp, duration_ms, date(timestamp, 'unixepoch') FROM usage_events")
        .unwrap();
    let events: Vec<DatedEvent> = stmt
        .query_map([], |row| {
            Ok(DatedEvent {
                timestamp: row.get(0)?,
                duration_ms: row.get(1)?,
                period: row.get(2)?,
            })
        })
        .unwrap()
        .map(|row| row.unwrap())
        .collect();
    let buckets = usage_buckets(&events, None);
    assert_eq!(buckets.len(), 2, "one bucket per day");
    assert_eq!(buckets[0].totals.dictations, 1);
    assert!(buckets[0].period < buckets[1].period, "oldest first");
}

#[test]
fn get_latest_entry_returns_none_when_empty() {
    let conn = setup_conn();
    assert!(latest_entry(&entries(&conn)).is_none());
}

#[test]
fn get_latest_entry_returns_newest_entry() {
    let conn = setup_conn();
    insert_entry(&conn, 100, "first", None);
    insert_entry(&conn, 200, "second", Some("processed"));

    let all = entries(&conn);
    let entry = &all[latest_entry(&all).expect("entry exists")];
    assert_eq!(entry.timestamp, 200);
    assert_eq!(entry.transcription_text, "second");
    assert_eq!(entry.post_processed_text.as_deref(), Some("processed"));
}

#[test]
fn get_latest_completed_entry_skips_empty_entries() {
    let conn = setup_conn();
    insert_entry(&conn, 100, "completed", None);
    insert_entry(&conn, 200, "", None);

    let all = entries(&conn);
    let entry = &all[latest_completed_entry(&all).expect("completed entry exists")];
    assert_eq!(entry.timestamp, 100);
    assert_eq!(entry.transcription_text, "completed");
}

#[test]
fn no_completed_entry_is_no_entry() {
    let conn = setup_conn();
    insert_entry(&conn, 200, "", None);
    assert!(latest_completed_entry(&entries(&conn)).is_none());
}

fn row(id: i64, timestamp: i64, saved: bool) -> RetentionRow {
    RetentionRow {
        id,
        file_name: format!("{id}.wav"),
        timestamp,
        saved,
    }
}

#[test]
fn entries_kept_by_hand_never_go() {
    let rows = [row(1, 10, true), row(2, 30, false), row(3, 20, false)];
    let count = RecordingRetentionPeriod::PreserveLimit;
    assert_eq!(cleanup_old_entries(count, 0, 0, &rows), vec![1, 2]);
    assert_eq!(cleanup_old_entries(count, 1, 0, &rows), vec![2]);
    assert_eq!(
        cleanup_old_entries(count, 2, 0, &rows),
        Vec::<usize>::new()
    );
    assert_eq!(
        cleanup_old_entries(RecordingRetentionPeriod::Never, 0, 0, &rows),
        Vec::<usize>::new()
    );
}

#[test]
fn periods_reach_back_as_far_as_they_say() {
    let now = 10_000_000;
    for (period, span) in [
        (RecordingRetentionPeriod::Days3, 3 * 86_400),
        (RecordingRetentionPeriod::Weeks2, 14 * 86_400),
        (RecordingRetentionPeriod::Months3, 90 * 86_400),
    ] {
        let rows = [
            row(1, now - span - 1, false),
            row(2, now - span, false),
            row(3, now - span - 1, true),
        ];
        assert_eq!(cleanup_old_entries(period, 0, now, &rows), vec![0]);
    }
}

fn table(n: i64) -> Vec<HistoryEntry> {
    (1..=n)
        .rev()
        .map(|id| pending(id, "text", None).written(id).0)
        .collect()
}

fn fetch(rows: &[HistoryEntry], query: PageQuery) -> Vec<HistoryEntry> {
    rows.iter()
        .filter(|e| query.below.is_none_or(|id| e.id < id))
        .take(query.fetch.map_or(usize::MAX, |n| n as usize))
        .cloned()
        .collect()
}

#[test]
fn pages_list_the_whole_history_once() {
    let rows = table(25);
    let mut cursor = None;
    let mut seen = Vec::new();
    loop {
        let page = finish_page(fetch(&rows, page_query(cursor, Some(10))), Some(10));
        seen.extend(page.entries.iter().map(|e| e.id));
        if !page.has_more {
            break;
        }
        assert_eq!(page.entries.len(), 10);
        cursor = page.entries.last().map(|e| e.id);
    }
    assert_eq!(seen, (1..=25).rev().collect::<Vec<i64>>());
}

#[test]
fn a_page_is_no_longer_than_the_longest() {
    assert_eq!(
        page_query(Some(7), Some(5_000)),
        PageQuery {
            below: Some(7),
            fetch: Some(101)
        }
    );
    assert_eq!(
        page_query(None, Some(0)),
        PageQuery {
            below: None,
            fetch: Some(1)
        }
    );
    let page = finish_page(table(101), Some(5_000));
    assert_eq!(page.entries.len(), 100);
    assert!(page.has_more);
}

#[test]
fn without_a_limit_everything_is_one_page() {
    assert_eq!(
        page_query(Some(7), None),
        PageQuery {
            below: None,
            fetch: None
        }
    );
    let page = finish_page(table(130), None);
    assert_eq!(page.entries.len(), 130);
    assert!(!page.has_more);
}

#[test]
fn an_update_without_an_entry_is_an_error() {
    assert_eq!(check_updated(7, 1), Ok(()));
    assert_eq!(
        check_updated(-42, 0),
        Err("History entry -42 not found".to_string())
    );
}

#[test]
fn a_toggle_turns_the_mark_over() {
    let (saved, told) = toggle_saved(3, false);
    assert!(saved);
    assert!(matches!(told, HistoryUpdatePayload::Toggled { id: 3 }));
    assert!(!toggle_saved(3, saved).0);
}

#[test]
fn a_title_falls_back_to_the_timestamp() {
    assert_eq!(
        entry_title(Some("May  1, 2026 - 9:05AM".to_string()), 5),
        "May  1, 2026 - 9:05AM"
    );
    assert_eq!(entry_title(None, -5), "Recording -5");
}

#[test]
fn an_old_database_keeps_its_version() {
    assert_eq!(legacy_version(true, 0, 4), Some(4));
    assert_eq!(legacy_version(true, 2, 4), None);
    assert_eq!(legacy_version(true, 0, 0), None);
    assert_eq!(legacy_version(false, 0, 4), None);
}

fn event(model: Option<&str>, engine: Option<&str>, duration_ms: Option<i64>) -> UsageEvent {
    UsageEvent {
        timestamp: 0,
        duration_ms,
        model_id: model.map(str::to_string),
        engine: engine.map(str::to_string),
    }
}

#[test]
fn the_split_is_by_model_and_engine_longest_first() {
    let events = [
        event(Some("a"), Some("local"), Some(100)),
        event(Some("b"), Some("cloud"), Some(500)),
        event(None, None, None),
        event(Some("a"), Some("local"), Some(200)),
        event(Some("a"), Some("cloud"), Some(50)),
    ];
    let summary = usage_summary(&events);
    let lines: Vec<(&str, &str, usize, i128, Vec<usize>)> = summary
        .per_model
        .iter()
        .map(|m| {
            (
                m.model_id.as_str(),
                m.engine.as_str(),
                m.totals.dictations,
                m.totals.milliseconds,
                m.totals.members.clone(),
            )
        })
        .collect();
    assert_eq!(
        lines,
        vec![
            ("b", "cloud", 1, 500, vec![1]),
            ("a", "local", 2, 300, vec![0, 3]),
            ("a", "cloud", 1, 50, vec![4]),
            ("unknown", "unknown", 1, 0, vec![2]),
        ]
    );
    let added = summary.per_model.iter().fold((0, 0, 0), |sums, m| {
        (
            sums.0 + m.totals.dictations,
            sums.1 + m.totals.milliseconds,
            sums.2 + m.totals.measured,
        )
    });
    assert_eq!(
        added,
        (
            summary.totals.dictations,
            summary.totals.milliseconds,
            summary.totals.measured
        )
    );
}

#[test]
fn an_empty_ledger_adds_up_to_nothing() {
    let summary = usage_summary(&[]);
    assert_eq!(summary.totals.dictations, 0);
    assert_eq!(summary.totals.milliseconds, 0);
    assert!(summary.per_model.is_empty());
    assert!(usage_buckets(&[], Some(0)).is_empty());
}

#[test]
fn buckets_only_count_recent_rows() {
    let dated = |timestamp: i64, period: &str, duration_ms: Option<i64>| DatedEvent {
        timestamp,
        duration_ms,
        period: period.to_string(),
    };
    let events = [
        dated(300, "2026-02", Some(5)),
        dated(100, "2026-01", Some(7)),
        dated(99, "2026-01", Some(9)),
        dated(200, "2026-01", None),
    ];
    let buckets = usage_buckets(&events, Some(100));
    assert_eq!(buckets.len(), 2);
    assert_eq!(buckets[0].period, "2026-01");
    assert_eq!(buckets[0].totals.members, vec![1, 3]);
    assert_eq!(buckets[0].totals.milliseconds, 7);
    assert_eq!(buckets[0].totals.measured, 1);
    assert_eq!(buckets[1].period, "2026-02");
    assert_eq!(buckets[1].totals.dictations, 1);
    // Three rows are recent, and the buckets share them out.
    let dictations: usize = buckets.iter().map(|b| b.totals.dictations).sum();
    let milliseconds: i128 = buckets.iter().map(|b| b.totals.milliseconds).sum();
    assert_eq!((dictations, milliseconds), (3, 12));
}

#[test]
fn windows_reach_back_by_days_and_loose_months() {
    assert_eq!(daily_since(1_000_000, 7), 1_000_000 - 604_800);
    assert_eq!(monthly_since(100_000_000, 12), 100_000_000 - 32_140_800);
}
