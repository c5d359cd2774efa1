//! The history of dictations: a trimmed cache of entries beside a ledger that only grows. What the
//! database is asked, and what is made of its answers.
use vstd::prelude::*;
use crate::order::{stable_order, Descending};
use crate::text::{concat, decimal_text};
use crate::usage::UsageEvent;

verus! {

/// The longest page that is handed out.
pub const MAX_PAGE: usize = 100;

/// Seconds in three days.
pub const THREE_DAYS: i64 = 259_200;

/// Seconds in two weeks.
pub const TWO_WEEKS: i64 = 1_209_600;

/// Seconds in three months of thirty days.
pub const THREE_MONTHS: i64 = 7_776_000;

/// How an entry's title writes the local time.
pub const TITLE_FORMAT: &'static str = "%B %e, %Y - %l:%M%p";

/// One dictation.
#[derive(Clone, Debug)]
pub struct HistoryEntry {
    pub id: i64,
    pub file_name: String,
    /// Seconds since the epoch.
    pub timestamp: i64,
    /// Whether it is kept by hand.
    pub saved: bool,
    pub title: String,
    pub transcription_text: String,
    pub post_processed_text: Option<String>,
    pub post_process_prompt: Option<String>,
    pub post_process_requested: bool,
}

/// A page of the history.
#[derive(Clone, Debug)]
pub struct PaginatedHistory {
    pub entries: Vec<HistoryEntry>,
    pub has_more: bool,
}

/// What listeners are told of a change.
#[derive(Clone, Debug)]
pub enum HistoryUpdatePayload {
    Added { entry: HistoryEntry },
    Updated { entry: HistoryEntry },
    Deleted { id: i64 },
    Toggled { id: i64 },
}

/// What one dictation consumed.
#[derive(Clone, Debug)]
pub struct DictationUsage {
    /// Length of the captured audio.
    pub duration_ms: Option<i64>,
    /// The model that produced the transcript.
    pub model_id: Option<String>,
    /// Whether that is a local or a cloud model.
    pub engine: Option<String>,
}

impl Default for DictationUsage {
    fn default() -> (r: Self)
        ensures
            r == (DictationUsage { duration_ms: None, model_id: None, engine: None }),
    {
        DictationUsage { duration_ms: None, model_id: None, engine: None }
    }
}

/// How long recordings are kept.
#[derive(Clone, Copy, Debug, PartialEq, Eq, Structural)]
pub enum RecordingRetentionPeriod {
    Never,
    PreserveLimit,
    Days3,
    Weeks2,
    Months3,
}

/// A dictation that is not in the database yet.
#[derive(Clone, Debug)]
pub struct PendingEntry {
    pub file_name: String,
    pub timestamp: i64,
    pub title: String,
    pub transcription_text: String,
    pub post_processed_text: Option<String>,
    pub post_process_prompt: Option<String>,
    pub post_process_requested: bool,
    pub usage: DictationUsage,
}

/// The entry that a dictation becomes under an id.
pub open spec fn entry_of(pending: PendingEntry, id: i64) -> HistoryEntry {
    HistoryEntry {
        id,
        file_name: pending.file_name,
        timestamp: pending.timestamp,
        saved: false,
        title: pending.title,
        transcription_text: pending.transcription_text,
        post_processed_text: pending.post_processed_text,
        post_process_prompt: pending.post_process_prompt,
        post_process_requested: pending.post_process_requested,
    }
}

/// The row that a dictation becomes in the ledger.
pub open spec fn ledger_row(pending: PendingEntry) -> UsageEvent {
    UsageEvent {
        timestamp: pending.timestamp,
        duration_ms: pending.usage.duration_ms,
        model_id: pending.usage.model_id,
        engine: pending.usage.engine,
    }
}

impl PendingEntry {
    /// What a dictation becomes once its entry is written: the entry, under the id that the
    /// database gave last, and the row to write to the ledger next. The database tells the id of
    /// its last row whatever the table, so the row is only handed out for an id.
    pub fn written(self, rowid: i64) -> (r: (HistoryEntry, UsageEvent))
        ensures
            r.0 == entry_of(self, rowid),
            r.1 == ledger_row(self),
    {
        let entry = HistoryEntry {
            id: rowid,
            file_name: self.file_name,
            timestamp: self.timestamp,
            saved: false,
            title: self.title,
            transcription_text: self.transcription_text,
            post_processed_text: self.post_processed_text,
            post_process_prompt: self.post_process_prompt,
            post_process_requested: self.post_process_requested,
        };
        let row = UsageEvent {
            timestamp: self.timestamp,
            duration_ms: self.usage.duration_ms,
            model_id: self.usage.model_id,
            engine: self.usage.engine,
        };
        (entry, row)
    }
}

/// An entry's title: the local time, or the timestamp where that cannot be told.
pub fn entry_title(local_time: Option<String>, timestamp: i64) -> (r: String)
    ensures
        match local_time {
            Some(title) => r == title,
            None => r@ == "Recording "@ + crate::text::decimal(timestamp as int),
        },
{
    match local_time {
        Some(title) => title,
        None => concat("Recording ", decimal_text(timestamp).as_str()),
    }
}

/// Whether an update found its entry, from how many rows it changed.
pub fn check_updated(id: i64, changed: usize) -> (r: Result<(), String>)
    ensures
        match r {
            Ok(_) => changed > 0,
            Err(why) => {
                &&& changed == 0
                &&& why@ == "History entry "@ + crate::text::decimal(id as int) + " not found"@
            },
        },
{
    if changed == 0 {
        let head = concat("History entry ", decimal_text(id).as_str());
        return Err(concat(head.as_str(), " not found"));
    }
    Ok(())
}

/// What becomes of the mark that keeps an entry by hand, and what listeners are told.
pub fn toggle_saved(id: i64, saved: bool) -> (r: (bool, HistoryUpdatePayload))
    ensures
        r.0 == !saved,
        r.1 == (HistoryUpdatePayload::Toggled { id }),
{
    (!saved, HistoryUpdatePayload::Toggled { id })
}

/// The version to record for a database whose migrations another library tracked: the last one
/// that it applied, where that library was in use and nothing is recorded yet.
pub fn legacy_version(has_old_table: bool, recorded: i32, applied: i32) -> (r: Option<i32>)
    ensures
        r == if has_old_table && recorded <= 0 && applied > 0 {
            Some(applied)
        } else {
            None::<i32>
        },
{
    if !has_old_table || recorded > 0 {
        return None;
    }
    if applied > 0 {
        Some(applied)
    } else {
        None
    }
}

/// What of an entry decides whether it is kept.
#[derive(Clone, Debug)]
pub struct RetentionRow {
    pub id: i64,
    pub file_name: String,
    pub timestamp: i64,
    pub saved: bool,
}

/// The positions of the entries that are not kept by hand.
pub open spec fn unsaved(rows: Seq<RetentionRow>) -> Seq<usize>
    decreases rows.len(),
{
    if rows.len() == 0 {
        Seq::empty()
    } else {
        let before = unsaved(rows.drop_last());
        if rows.last().saved {
            before
        } else {
            before.push((rows.len() - 1) as usize)
        }
    }
}

/// The ages of the entries that are not kept by hand, newest first in their order.
pub open spec fn unsaved_keys(rows: Seq<RetentionRow>) -> Seq<Descending> {
    unsaved(rows).map_values(|i: usize| Descending { value: rows[i as int].timestamp as i128 })
}

/// Whether `removed` are all entries not kept by hand but the newest `limit`, newest first. Of
/// entries with the same timestamp the one listed first counts as newer.
pub open spec fn all_but_newest(
    rows: Seq<RetentionRow>,
    limit: int,
    removed: Seq<usize>,
) -> bool {
    exists|order: Seq<usize>| #[trigger]
        crate::order::orders(unsaved_keys(rows), unsaved(rows).len() as int, order)
            && removed.len() == crate::debug_capture::surplus(unsaved(rows).len() as int, limit)
            && forall|k: int|
            0 <= k < removed.len() ==> (#[trigger] removed[k]) == unsaved(rows)[order[limit
                + k] as int]
}

/// The positions of the entries not kept by hand that are older than `cutoff`.
pub open spec fn expired(rows: Seq<RetentionRow>, cutoff: int) -> Seq<usize>
    decreases rows.len(),
{
    if rows.len() == 0 {
        Seq::empty()
    } else {
        let before = expired(rows.drop_last(), cutoff);
        if !rows.last().saved && rows.last().timestamp < cutoff {
            before.push((rows.len() - 1) as usize)
        } else {
            before
        }
    }
}

/// How far back a period reaches, in seconds; none for those that do not go by time.
pub open spec fn span(period: RecordingRetentionPeriod) -> Option<i64> {
    match period {
        RecordingRetentionPeriod::Never => None,
        RecordingRetentionPeriod::PreserveLimit => None,
        RecordingRetentionPeriod::Days3 => Some(THREE_DAYS),
        RecordingRetentionPeriod::Weeks2 => Some(TWO_WEEKS),
        RecordingRetentionPeriod::Months3 => Some(THREE_MONTHS),
    }
}

/// Whether `removed` are the positions of the entries that go.
pub open spec fn goes(
    period: RecordingRetentionPeriod,
    limit: int,
    now: int,
    rows: Seq<RetentionRow>,
    removed: Seq<usize>,
) -> bool {
    match period {
        RecordingRetentionPeriod::Never => removed.len() == 0,
        RecordingRetentionPeriod::PreserveLimit => all_but_newest(rows, limit, removed),
        _ => removed == expired(rows, now - span(period)->Some_0),
    }
}

/// The positions of the entries that go, with their recordings.
pub fn cleanup_old_entries(
    period: RecordingRetentionPeriod,
    limit: usize,
    now: i64,
    rows: &[RetentionRow],
) -> (r: Vec<usize>)
    requires
        span(period) matches Some(s) ==> now - s >= i64::MIN,
    ensures
        goes(period, limit as int, now as int, rows@, r@),
{
    match period {
        RecordingRetentionPeriod::Never => Vec::new(),
        RecordingRetentionPeriod::PreserveLimit => cleanup_by_count(limit, rows),
        RecordingRetentionPeriod::Days3 => cleanup_by_time(now - THREE_DAYS, rows),
        RecordingRetentionPeriod::Weeks2 => cleanup_by_time(now - TWO_WEEKS, rows),
        RecordingRetentionPeriod::Months3 => cleanup_by_time(now - THREE_MONTHS, rows),
    }
}

/// All entries not kept by hand but the newest `limit`.
pub fn cleanup_by_count(limit: usize, rows: &[RetentionRow]) -> (r: Vec<usize>)
    ensures
        all_but_newest(rows@, limit as int, r@),
{
    let mut positions: Vec<usize> = Vec::new();
    let mut keys: Vec<Descending> = Vec::new();
    let mut i: usize = 0;
    proof {
        assert(rows@.take(0) =~= Seq::empty());
    }
    while i < rows.len()
        invariant
            i <= rows@.len(),
            positions@ == unsaved(rows@.take(i as int)),
            keys@.len() == positions@.len(),
            forall|k: int|
                0 <= k < positions@.len() ==> {
                    &&& (#[trigger] positions@[k]) < i
                    &&& keys@[k] == (Descending {
                        value: rows@[positions@[k] as int].timestamp as i128,
                    })
                },
        decreases rows.len() - i,
    {
        proof {
            assert(rows@.take(i + 1).drop_last() =~= rows@.take(i as int));
            assert(rows@.take(i + 1).last() == rows@[i as int]);
        }
        if !rows[i].saved {
            positions.push(i);
            keys.push(Descending { value: rows[i].timestamp as i128 });
        }
        i += 1;
    }
    proof {
        assert(rows@.take(rows@.len() as int) =~= rows@);
        assert forall|k: int| 0 <= k < keys@.len() implies keys@[k] == unsaved_keys(rows@)[k] by {
            assert(positions@[k] < i);
        }
        assert(keys@ =~= unsaved_keys(rows@));
    }
    let order = stable_order(&keys);
    let mut removed: Vec<usize> = Vec::new();
    let mut at: usize = limit;
    while at < positions.len()
        invariant
            limit <= at,
            order@.len() == positions@.len(),
            positions@ == unsaved(rows@),
            forall|j: int| 0 <= j < order@.len() ==> (#[trigger] order@[j]) < positions@.len(),
            at <= positions@.len() || at == limit,
            removed@.len() == at - limit,
            forall|k: int|
                0 <= k < removed@.len() ==> (#[trigger] removed@[k]) == unsaved(rows@)[order@[limit
                    + k] as int],
        decreases positions.len() - at,
    {
        removed.push(positions[order[at]]);
        at += 1;
    }
    removed
}

/// The entries not kept by hand that are older than `cutoff`.
pub fn cleanup_by_time(cutoff: i64, rows: &[RetentionRow]) -> (r: Vec<usize>)
    ensures
        r@ == expired(rows@, cutoff as int),
{
    let mut out: Vec<usize> = Vec::new();
    let mut i: usize = 0;
    proof {
        assert(rows@.take(0) =~= Seq::empty());
    }
    while i < rows.len()
        invariant
            i <= rows@.len(),
            out@ == expired(rows@.take(i as int), cutoff as int),
        decreases rows.len() - i,
    {
        proof {
            assert(rows@.take(i + 1).drop_last() =~= rows@.take(i as int));
            assert(rows@.take(i + 1).last() == rows@[i as int]);
        }
        if !rows[i].saved && rows[i].timestamp < cutoff {
            out.push(i);
        }
        i += 1;
    }
    proof {
        assert(rows@.take(rows@.len() as int) =~= rows@);
    }
    out
}

/// What the database is asked for a page: the newest entries, only those below an id where one is
/// given, and no more than `fetch` where that is given.
#[derive(Clone, Copy, Debug, PartialEq, Eq, Structural)]
pub struct PageQuery {
    pub below: Option<i64>,
    pub fetch: Option<i64>,
}

/// A page's length: what is asked for, up to the longest.
pub open spec fn page_length(limit: usize) -> int {
    if limit < MAX_PAGE {
        limit as int
    } else {
        MAX_PAGE as int
    }
}

/// What the database is asked for a page.
pub open spec fn query_for(cursor: Option<i64>, limit: Option<usize>) -> PageQuery {
    match limit {
        Some(limit) => PageQuery { below: cursor, fetch: Some((page_length(limit) + 1) as i64) },
        None => PageQuery { below: None, fetch: None },
    }
}

/// What the database is asked for a page: one entry more than the page holds tells whether there
/// is more. Without a limit everything is asked for, whatever the cursor.
pub fn page_query(cursor: Option<i64>, limit: Option<usize>) -> (r: PageQuery)
    ensures
        r == query_for(cursor, limit),
{
    match limit {
        Some(limit) => {
            let length: usize = if limit < MAX_PAGE {
                limit
            } else {
                MAX_PAGE
            };
            PageQuery { below: cursor, fetch: Some(length as i64 + 1) }
        },
        None => PageQuery { below: None, fetch: None },
    }
}

/// Whether more was found than a page holds.
pub open spec fn overfull(found: int, limit: Option<usize>) -> bool {
    limit matches Some(limit) && found > page_length(limit)
}

/// The page made of what the database found.
pub fn finish_page(found: Vec<HistoryEntry>, limit: Option<usize>) -> (r: PaginatedHistory)
    ensures
        r.has_more == overfull(found@.len() as int, limit),
        r.entries@ == if r.has_more {
            found@.drop_last()
        } else {
            found@
        },
{
    let has_more = match limit {
        Some(limit) => {
            let length: usize = if limit < MAX_PAGE {
                limit
            } else {
                MAX_PAGE
            };
            found.len() > length
        },
        None => false,
    };
    let mut entries = found;
    if has_more {
        entries.pop();
    }
    PaginatedHistory { entries, has_more }
}

/// Whether `i` is the entry that counts as the latest of those in question: the newest, and the
/// first of them where several are as new.
pub open spec fn is_latest(
    entries: Seq<HistoryEntry>,
    eligible: spec_fn(HistoryEntry) -> bool,
    i: int,
) -> bool {
    &&& 0 <= i < entries.len()
    &&& eligible(entries[i])
    &&& forall|j: int|
        0 <= j < entries.len() && eligible(#[trigger] entries[j]) ==> entries[j].timestamp
            <= entries[i].timestamp
    &&& forall|j: int|
        0 <= j < i && eligible(#[trigger] entries[j]) ==> entries[j].timestamp
            < entries[i].timestamp
}

/// Whether an entry has a transcript.
pub open spec fn completed(entry: HistoryEntry) -> bool {
    entry.transcription_text@.len() > 0
}

/// The position of the latest entry.
pub fn latest_entry(entries: &[HistoryEntry]) -> (r: Option<usize>)
    ensures
        match r {
            Some(i) => is_latest(entries@, |e: HistoryEntry| true, i as int),
            None => entries@.len() == 0,
        },
        match r {
            Some(i) => {
                &&& i < entries@.len()
                &&& forall|j: int|
                    0 <= j < entries@.len() ==> (#[trigger] entries@[j]).timestamp
                        <= entries@[i as int].timestamp
                &&& forall|j: int|
                    0 <= j < i ==> (#[trigger] entries@[j]).timestamp
                        < entries@[i as int].timestamp
            },
            None => entries@.len() == 0,
        },
{
    if entries.len() == 0 {
        return None;
    }
    let mut best: usize = 0;
    let mut i: usize = 1;
    while i < entries.len()
        invariant
            best < i <= entries@.len(),
            forall|j: int|
                0 <= j < i ==> (#[trigger] entries@[j]).timestamp <= entries@[best as int].timestamp,
            forall|j: int|
                0 <= j < best ==> (#[trigger] entries@[j]).timestamp
                    < entries@[best as int].timestamp,
        decreases entries.len() - i,
    {
        if entries[i].timestamp > entries[best].timestamp {
            best = i;
        }
        i += 1;
    }
    Some(best)
}

/// The position of the latest entry with a transcript.
pub fn latest_completed_entry(entries: &[HistoryEntry]) -> (r: Option<usize>)
    ensures
        match r {
            Some(i) => is_latest(entries@, |e: HistoryEntry| completed(e), i as int),
            None => forall|j: int| 0 <= j < entries@.len() ==> !completed(#[trigger] entries@[j]),
        },
        match r {
            Some(i) => {
                &&& i < entries@.len()
                &&& entries@[i as int].transcription_text@.len() > 0
                &&& forall|j: int|
                    0 <= j < entries@.len() && (#[trigger] entries@[j]).transcription_text@.len() > 0
                        ==> entries@[j].timestamp <= entries@[i as int].timestamp
                &&& forall|j: int|
                    0 <= j < i && (#[trigger] entries@[j]).transcription_text@.len() > 0
                        ==> entries@[j].timestamp < entries@[i as int].timestamp
            },
            None => forall|j: int|
                0 <= j < entries@.len() ==> (#[trigger] entries@[j]).transcription_text@.len() == 0,
        },
{
    let mut best: Option<usize> = None;
    let mut i: usize = 0;
    while i < entries.len()
        invariant
            i <= entries@.len(),
            match best {
                Some(b) => {
                    &&& b < i
                    &&& completed(entries@[b as int])
                    &&& forall|j: int|
                        0 <= j < i && completed(#[trigger] entries@[j]) ==> entries@[j].timestamp
                            <= entries@[b as int].timestamp
                    &&& forall|j: int|
                        0 <= j < b && completed(#[trigger] entries@[j]) ==> entries@[j].timestamp
                            < entries@[b as int].timestamp
                },
                None => forall|j: int| 0 <= j < i ==> !completed(#[trigger] entries@[j]),
            },
        decreases entries.len() - i,
    {
        if entries[i].transcription_text.as_str().unicode_len() > 0 {
            match best {
                Some(b) => {
                    if entries[i].timestamp > entries[b].timestamp {
                        best = Some(i);
                    }
                },
                None => {
                    best = Some(i);
                },
            }
        }
        i += 1;
    }
    best
}

} // verus!
