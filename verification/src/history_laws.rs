//! What holds of the history and the ledger as a whole.
use vstd::prelude::*;
use crate::history::{
    HistoryEntry, PageQuery, PendingEntry, RecordingRetentionPeriod, RetentionRow,
};
use crate::usage::UsageEvent;

verus! {

/// The two tables of the database.
pub struct Tables {
    /// The entries, in the order in which they were written.
    pub history: Seq<HistoryEntry>,
    pub ledger: Seq<UsageEvent>,
    /// The last id that an entry was given. Ids are never given twice.
    pub history_ids: i64,
    /// The last id that a row of the ledger was given.
    pub ledger_ids: i64,
    /// The id of the row that was written last, to whichever table.
    pub last_rowid: i64,
}

impl Tables {
    /// Every entry has an id of its own, and no id is ahead of the last one given.
    pub open spec fn well_formed(self) -> bool {
        &&& 0 <= self.history_ids
        &&& 0 <= self.ledger_ids
        &&& forall|i: int|
            0 <= i < self.history.len() ==> 0 < (#[trigger] self.history[i]).id <= self.history_ids
        &&& forall|i: int, j: int|
            0 <= i < j < self.history.len() ==> (#[trigger] self.history[i]).id
                != (#[trigger] self.history[j]).id
    }

    /// Whether the tables hold an entry under an id.
    pub open spec fn holds(self, entry: HistoryEntry) -> bool {
        self.history.contains(entry)
    }

    /// After an entry is written.
    pub open spec fn with_entry(self, pending: PendingEntry) -> Tables {
        let id = (self.history_ids + 1) as i64;
        Tables {
            history: self.history.push(crate::history::entry_of(pending, id)),
            history_ids: id,
            last_rowid: id,
            ..self
        }
    }

    /// After a row of the ledger is written.
    pub open spec fn with_usage(self, event: UsageEvent) -> Tables {
        let id = (self.ledger_ids + 1) as i64;
        Tables { ledger: self.ledger.push(event), ledger_ids: id, last_rowid: id, ..self }
    }

    /// After an entry is deleted.
    pub open spec fn without(self, id: i64) -> Tables {
        Tables { history: self.history.filter(|e: HistoryEntry| e.id != id), ..self }
    }

    /// After entries are deleted, one after the other.
    pub open spec fn without_all(self, ids: Seq<i64>) -> Tables
        decreases ids.len(),
    {
        if ids.len() == 0 {
            self
        } else {
            self.without_all(ids.drop_last()).without(ids.last())
        }
    }

    /// After the mark of an entry is set.
    pub open spec fn with_saved(self, id: i64, saved: bool) -> Tables {
        Tables {
            history: self.history.map_values(
                |e: HistoryEntry|
                    if e.id == id {
                        HistoryEntry { saved, ..e }
                    } else {
                        e
                    },
            ),
            ..self
        }
    }

    /// After the transcript of an entry is replaced.
    pub open spec fn with_transcription(
        self,
        id: i64,
        text: String,
        processed: Option<String>,
        prompt: Option<String>,
    ) -> Tables {
        Tables {
            history: self.history.map_values(
                |e: HistoryEntry|
                    if e.id == id {
                        HistoryEntry {
                            transcription_text: text,
                            post_processed_text: processed,
                            post_process_prompt: prompt,
                            ..e
                        }
                    } else {
                        e
                    },
            ),
            ..self
        }
    }

    /// After a dictation is saved: the entry is written, the id of the last row is read, and the
    /// row of the ledger is written. The id is the second part.
    pub open spec fn saved(self, pending: PendingEntry) -> (Tables, i64) {
        let written = self.with_entry(pending);
        (written.with_usage(crate::history::ledger_row(pending)), written.last_rowid)
    }
}

/// The id that a save reports addresses the entry, whatever the ids of the ledger are, and the
/// ledger has a row more for the same dictation.
pub proof fn law_a_saved_id_addresses_its_entry(tables: Tables, pending: PendingEntry)
    requires
        tables.well_formed(),
        tables.history_ids < i64::MAX,
        tables.ledger_ids < i64::MAX,
    ensures
        tables.saved(pending).0.well_formed(),
        tables.saved(pending).0.holds(
            crate::history::entry_of(pending, tables.saved(pending).1),
        ),
        forall|e: HistoryEntry|
            tables.saved(pending).0.holds(e) && e.id == tables.saved(pending).1 ==> e
                == crate::history::entry_of(pending, tables.saved(pending).1),
        tables.saved(pending).0.ledger == tables.ledger.push(
            crate::history::ledger_row(pending),
        ),
{
    let (after, id) = tables.saved(pending);
    let entry = crate::history::entry_of(pending, id);
    assert(after.history[tables.history.len() as int] == entry);
    assert forall|e: HistoryEntry| after.holds(e) && e.id == id implies e == entry by {
        let i = choose|i: int| 0 <= i < after.history.len() && after.history[i] == e;
        if i < tables.history.len() {
            assert(after.history[i] == tables.history[i]);
        }
    }
}

/// The ledger outlives the history: deleting entries, however many, leaves it as it is, and with it
/// every report.
pub proof fn law_pruning_keeps_the_ledger(tables: Tables, ids: Seq<i64>)
    ensures
        tables.without_all(ids).ledger == tables.ledger,
    decreases ids.len(),
{
    if ids.len() > 0 {
        law_pruning_keeps_the_ledger(tables, ids.drop_last());
    }
}

/// Marking an entry and replacing its transcript leave the ledger as it is.
pub proof fn law_edits_keep_the_ledger(
    tables: Tables,
    id: i64,
    saved: bool,
    text: String,
    processed: Option<String>,
    prompt: Option<String>,
)
    ensures
        tables.with_saved(id, saved).ledger == tables.ledger,
        tables.with_transcription(id, text, processed, prompt).ledger == tables.ledger,
{
}

/// Deleting an entry takes that one and no other.
pub proof fn law_a_delete_takes_one_entry(tables: Tables, id: i64, entry: HistoryEntry)
    ensures
        tables.without(id).holds(entry) == (tables.holds(entry) && entry.id != id),
{
    let keep = |e: HistoryEntry| e.id != id;
    let after = tables.history.filter(keep);
    if after.contains(entry) {
        tables.history.lemma_filter_contains_rev(keep, entry);
        let i = choose|i: int| 0 <= i < after.len() && after[i] == entry;
        assert(keep(after[i]));
    }
    if tables.history.contains(entry) && entry.id != id {
        let i = choose|i: int| 0 <= i < tables.history.len() && tables.history[i] == entry;
        tables.history.lemma_filter_contains(keep, i);
    }
}

/// Toggling a mark twice gives back what was there.
pub proof fn law_toggling_twice_restores(tables: Tables, id: i64, saved: bool)
    requires
        forall|i: int|
            0 <= i < tables.history.len() && (#[trigger] tables.history[i]).id == id
                ==> tables.history[i].saved == saved,
    ensures
        tables.with_saved(id, !saved).with_saved(id, saved) == tables,
{
    let twice = tables.with_saved(id, !saved).with_saved(id, saved);
    assert(twice.history =~= tables.history);
}

proof fn lemma_unsaved(rows: Seq<RetentionRow>, k: int)
    requires
        rows.len() <= usize::MAX,
        0 <= k < crate::history::unsaved(rows).len(),
    ensures
        crate::history::unsaved(rows)[k] < rows.len(),
        !rows[crate::history::unsaved(rows)[k] as int].saved,
    decreases rows.len(),
{
    let rest = rows.drop_last();
    let before = crate::history::unsaved(rest);
    if k < before.len() {
        lemma_unsaved(rest, k);
        assert(crate::history::unsaved(rows)[k] == before[k]);
    }
}

proof fn lemma_expired(rows: Seq<RetentionRow>, cutoff: int, k: int)
    requires
        rows.len() <= usize::MAX,
        0 <= k < crate::history::expired(rows, cutoff).len(),
    ensures
        crate::history::expired(rows, cutoff)[k] < rows.len(),
        !rows[crate::history::expired(rows, cutoff)[k] as int].saved,
        rows[crate::history::expired(rows, cutoff)[k] as int].timestamp < cutoff,
    decreases rows.len(),
{
    let rest = rows.drop_last();
    let before = crate::history::expired(rest, cutoff);
    if k < before.len() {
        lemma_expired(rest, cutoff, k);
        assert(crate::history::expired(rows, cutoff)[k] == before[k]);
    }
}

/// An entry that is kept by hand never goes, whatever the period.
pub proof fn law_saved_entries_never_go(
    period: RecordingRetentionPeriod,
    limit: int,
    now: int,
    rows: Seq<RetentionRow>,
    removed: Seq<usize>,
    k: int,
)
    requires
        rows.len() <= usize::MAX,
        0 <= limit,
        crate::history::goes(period, limit, now, rows, removed),
        0 <= k < removed.len(),
    ensures
        removed[k] < rows.len(),
        !rows[removed[k] as int].saved,
{
    match period {
        RecordingRetentionPeriod::Never => {},
        RecordingRetentionPeriod::PreserveLimit => {
            let n = crate::history::unsaved(rows).len() as int;
            let order = choose|order: Seq<usize>| #[trigger]
                crate::order::orders(crate::history::unsaved_keys(rows), n, order)
                    && removed.len() == crate::debug_capture::surplus(n, limit) && forall|k: int|
                    0 <= k < removed.len() ==> (#[trigger] removed[k])
                        == crate::history::unsaved(rows)[order[limit + k] as int];
            assert(removed[k] == crate::history::unsaved(rows)[order[limit + k] as int]);
            lemma_unsaved(rows, order[limit + k] as int);
        },
        _ => {
            lemma_expired(rows, now - crate::history::span(period)->Some_0, k);
        },
    }
}

/// By count, exactly what is over the limit goes, and what goes is no newer than what stays.
pub proof fn law_the_newest_entries_stay(
    limit: int,
    rows: Seq<RetentionRow>,
    removed: Seq<usize>,
    gone: int,
    kept: int,
)
    requires
        rows.len() <= usize::MAX,
        0 <= limit,
        crate::history::all_but_newest(rows, limit, removed),
        0 <= gone < removed.len(),
        0 <= kept < crate::history::unsaved(rows).len(),
        !crate::order::lists(removed, crate::history::unsaved(rows)[kept] as int),
    ensures
        removed.len() == crate::history::unsaved(rows).len() - limit,
        rows[removed[gone] as int].timestamp <= rows[crate::history::unsaved(
            rows,
        )[kept] as int].timestamp,
{
    let open = crate::history::unsaved(rows);
    let keys = crate::history::unsaved_keys(rows);
    let n = open.len() as int;
    let order = choose|order: Seq<usize>| #[trigger]
        crate::order::orders(keys, n, order) && removed.len() == crate::debug_capture::surplus(
            n,
            limit,
        ) && forall|k: int|
            0 <= k < removed.len() ==> (#[trigger] removed[k]) == open[order[limit + k] as int];
    assert(removed[gone] == open[order[limit + gone] as int]);
    assert(crate::order::lists(order, kept));
    let at = choose|a: int| 0 <= a < order.len() && order[a] == kept;
    if at >= limit {
        assert(removed[at - limit] == open[kept]);
        assert(crate::order::lists(removed, open[kept] as int));
    }
    assert(crate::order::ranks_before(keys, order[at] as int, order[limit + gone] as int));
}

/// By time, exactly the entries that are too old and not kept by hand go.
pub proof fn law_only_old_entries_expire(rows: Seq<RetentionRow>, cutoff: int, i: int)
    requires
        rows.len() <= usize::MAX,
        0 <= i < rows.len(),
    ensures
        crate::order::lists(crate::history::expired(rows, cutoff), i) == (!rows[i].saved
            && rows[i].timestamp < cutoff),
    decreases rows.len(),
{
    let rest = rows.drop_last();
    let before = crate::history::expired(rest, cutoff);
    let after = crate::history::expired(rows, cutoff);
    if i < rest.len() {
        law_only_old_entries_expire(rest, cutoff, i);
        assert(rest[i] == rows[i]);
        if crate::order::lists(before, i) {
            let a = choose|a: int| 0 <= a < before.len() && before[a] == i;
            assert(after[a] == i);
        }
        if crate::order::lists(after, i) {
            let a = choose|a: int| 0 <= a < after.len() && after[a] == i;
            assert(before[a] == i);
        }
    } else {
        if !rows[i].saved && rows[i].timestamp < cutoff {
            assert(after[before.len() as int] == i);
        }
        if crate::order::lists(after, i) {
            let a = choose|a: int| 0 <= a < after.len() && after[a] == i;
            if a < before.len() {
                lemma_expired(rest, cutoff, a);
            }
        }
    }
}

/// Whether entries stand newest id first.
pub open spec fn newest_first(entries: Seq<HistoryEntry>) -> bool {
    forall|i: int, j: int|
        0 <= i < j < entries.len() ==> (#[trigger] entries[i]).id > (#[trigger] entries[j]).id
}

/// What the database finds for a query among entries that stand newest id first.
pub open spec fn found(entries: Seq<HistoryEntry>, query: PageQuery) -> Seq<HistoryEntry> {
    let below = match query.below {
        Some(id) => entries.filter(|e: HistoryEntry| e.id < id),
        None => entries,
    };
    match query.fetch {
        Some(n) if n < below.len() => below.take(n as int),
        _ => below,
    }
}

/// The entries of the page that a cursor and a limit lead to.
pub open spec fn page(entries: Seq<HistoryEntry>, cursor: Option<i64>, limit: usize) -> Seq<
    HistoryEntry,
> {
    let rows = found(entries, crate::history::query_for(cursor, Some(limit)));
    if crate::history::overfull(rows.len() as int, Some(limit)) {
        rows.drop_last()
    } else {
        rows
    }
}

/// Whether there is more after the page that a cursor and a limit lead to.
pub open spec fn more(entries: Seq<HistoryEntry>, cursor: Option<i64>, limit: usize) -> bool {
    crate::history::overfull(
        found(entries, crate::history::query_for(cursor, Some(limit))).len() as int,
        Some(limit),
    )
}

/// Among entries that stand newest id first, those below the id at `k` are those after it.
proof fn lemma_below_is_a_suffix(entries: Seq<HistoryEntry>, below: i64, from: int)
    requires
        0 <= from <= entries.len(),
        forall|i: int| 0 <= i < from ==> (#[trigger] entries[i]).id >= below,
        forall|i: int| from <= i < entries.len() ==> (#[trigger] entries[i]).id < below,
    ensures
        entries.filter(|e: HistoryEntry| e.id < below) == entries.skip(from),
    decreases entries.len(),
{
    reveal(Seq::filter);
    let keep = |e: HistoryEntry| e.id < below;
    if entries.len() == 0 {
        assert(entries.filter(keep) =~= entries.skip(from));
    } else {
        let rest = entries.drop_last();
        if from == entries.len() {
            lemma_below_is_a_suffix(rest, below, from - 1);
            assert(entries.skip(from) =~= rest.skip(from - 1));
        } else {
            lemma_below_is_a_suffix(rest, below, from);
            assert(entries.skip(from) =~= rest.skip(from).push(entries.last()));
        }
    }
}

/// The first page holds the newest entries, and there is more exactly where it does not hold all.
pub proof fn law_the_first_page_is_the_newest(entries: Seq<HistoryEntry>, limit: usize)
    ensures
        more(entries, None, limit) == (entries.len() > crate::history::page_length(limit)),
        page(entries, None, limit) == if more(entries, None, limit) {
            entries.take(crate::history::page_length(limit))
        } else {
            entries
        },
{
    let length = crate::history::page_length(limit);
    if entries.len() > length {
        let rows = found(entries, crate::history::query_for(None, Some(limit)));
        assert(rows =~= entries.take(length + 1));
        assert(rows.drop_last() =~= entries.take(length));
    }
}

/// The page after the entry at `last` goes on right behind it, with nothing left out and nothing
/// twice, and tells whether anything is left. Pages therefore list the whole history.
pub proof fn law_the_next_page_goes_on_behind(
    entries: Seq<HistoryEntry>,
    last: int,
    limit: usize,
)
    requires
        newest_first(entries),
        0 <= last < entries.len(),
    ensures
        more(entries, Some(entries[last].id), limit) == (entries.skip(last + 1).len()
            > crate::history::page_length(limit)),
        page(entries, Some(entries[last].id), limit) == if more(
            entries,
            Some(entries[last].id),
            limit,
        ) {
            entries.skip(last + 1).take(crate::history::page_length(limit))
        } else {
            entries.skip(last + 1)
        },
{
    let id = entries[last].id;
    let length = crate::history::page_length(limit);
    let rest = entries.skip(last + 1);
    lemma_below_is_a_suffix(entries, id, last + 1);
    let rows = found(entries, crate::history::query_for(Some(id), Some(limit)));
    if rest.len() > length {
        assert(rows =~= rest.take(length + 1));
        assert(rows.drop_last() =~= rest.take(length));
    }
}

/// The latest completed entry is the newest of those with a transcript, and the first of them where
/// several are as new. Nothing but transcripts and timestamps matters.
pub proof fn law_the_latest_completed_entry_goes_by_its_transcript(
    entries: Seq<HistoryEntry>,
    i: int,
)
    ensures
        crate::history::is_latest(
            entries,
            |e: HistoryEntry| crate::history::completed(e),
            i,
        ) <==> {
            &&& 0 <= i < entries.len()
            &&& entries[i].transcription_text@.len() > 0
            &&& forall|j: int|
                0 <= j < entries.len() && (#[trigger] entries[j]).transcription_text@.len() > 0
                    ==> entries[j].timestamp <= entries[i].timestamp
            &&& forall|j: int|
                0 <= j < i && (#[trigger] entries[j]).transcription_text@.len() > 0
                    ==> entries[j].timestamp < entries[i].timestamp
        },
        (forall|j: int|
            0 <= j < entries.len() ==> !crate::history::completed(#[trigger] entries[j])) <==> (
        forall|j: int|
            0 <= j < entries.len() ==> (#[trigger] entries[j]).transcription_text@.len() == 0),
{
    if forall|j: int|
        0 <= j < entries.len() ==> !crate::history::completed(#[trigger] entries[j]) {
        assert forall|j: int| 0 <= j < entries.len() implies (
        #[trigger] entries[j]).transcription_text@.len() == 0 by {
            assert(!crate::history::completed(entries[j]));
        }
    }
}

/// The latest entry is the newest of all, with a transcript or without one.
pub proof fn law_the_latest_entry_is_the_newest(entries: Seq<HistoryEntry>, i: int)
    ensures
        crate::history::is_latest(entries, |e: HistoryEntry| true, i) <==> {
            &&& 0 <= i < entries.len()
            &&& forall|j: int|
                0 <= j < entries.len() ==> (#[trigger] entries[j]).timestamp
                    <= entries[i].timestamp
            &&& forall|j: int|
                0 <= j < i ==> (#[trigger] entries[j]).timestamp < entries[i].timestamp
        },
{
}

/// What is written of a dictation is what was dictated: each field of the entry under its id, not
/// kept by hand, and each field of the ledger's row.
pub proof fn law_what_is_written_is_what_was_dictated(pending: PendingEntry, id: i64)
    ensures
        ({
            let entry = crate::history::entry_of(pending, id);
            &&& entry.id == id
            &&& entry.file_name == pending.file_name
            &&& entry.timestamp == pending.timestamp
            &&& !entry.saved
            &&& entry.title == pending.title
            &&& entry.transcription_text == pending.transcription_text
            &&& entry.post_processed_text == pending.post_processed_text
            &&& entry.post_process_prompt == pending.post_process_prompt
            &&& entry.post_process_requested == pending.post_process_requested
        }),
        ({
            let row = crate::history::ledger_row(pending);
            &&& row.timestamp == pending.timestamp
            &&& row.duration_ms == pending.usage.duration_ms
            &&& row.model_id == pending.usage.model_id
            &&& row.engine == pending.usage.engine
        }),
{
}

/// With a limit, a page asks for as many entries as it holds (no more than a hundred) and one more,
/// below the cursor where there is one. Without a limit everything is asked for and nothing is more
/// than asked for.
pub proof fn law_what_a_page_asks_for(cursor: Option<i64>, limit: usize, rows: int)
    ensures
        crate::history::query_for(cursor, Some(limit)).below == cursor,
        crate::history::query_for(cursor, Some(limit)).fetch matches Some(n) && n == 1 + if limit
            < 100 {
            limit as int
        } else {
            100
        },
        crate::history::overfull(rows, Some(limit)) == (rows > 100 || rows > limit),
        crate::history::query_for(cursor, None).below is None,
        crate::history::query_for(cursor, None).fetch is None,
        !crate::history::overfull(rows, None),
{
}

/// How long a period keeps an entry, in seconds.
pub open spec fn keeps_for(period: RecordingRetentionPeriod) -> int {
    match period {
        RecordingRetentionPeriod::Days3 => 3int * 24 * 60 * 60,
        RecordingRetentionPeriod::Weeks2 => 14int * 24 * 60 * 60,
        RecordingRetentionPeriod::Months3 => 90int * 24 * 60 * 60,
        _ => 0,
    }
}

/// By time, an entry goes exactly if it is older than three days, two weeks or three months and not
/// kept by hand, however many there are; under the period that keeps everything nothing goes.
pub proof fn law_what_goes_by_time(
    period: RecordingRetentionPeriod,
    limit: int,
    now: int,
    rows: Seq<RetentionRow>,
    removed: Seq<usize>,
    i: usize,
)
    requires
        rows.len() <= usize::MAX,
        i < rows.len(),
        period != RecordingRetentionPeriod::PreserveLimit,
        crate::history::goes(period, limit, now, rows, removed),
    ensures
        removed.contains(i) <==> period != RecordingRetentionPeriod::Never && !rows[i as int].saved
            && now - rows[i as int].timestamp > keeps_for(period),
{
    if period != RecordingRetentionPeriod::Never {
        let cutoff = now - crate::history::span(period)->Some_0;
        law_only_old_entries_expire(rows, cutoff, i as int);
        if removed.contains(i) {
            let k = choose|k: int| 0 <= k < removed.len() && removed[k] == i;
            assert(removed[k] == i as int);
        }
        if crate::order::lists(removed, i as int) {
            let k = choose|k: int| 0 <= k < removed.len() && removed[k] == i as int;
            assert(removed[k] == i);
        }
    }
}

proof fn lemma_unsaved_ascends(rows: Seq<RetentionRow>, a: int, b: int)
    requires
        rows.len() <= usize::MAX,
        0 <= a < b < crate::history::unsaved(rows).len(),
    ensures
        crate::history::unsaved(rows)[a] < crate::history::unsaved(rows)[b],
    decreases rows.len(),
{
    let rest = rows.drop_last();
    let before = crate::history::unsaved(rest);
    assert(crate::history::unsaved(rows)[a] == before[a]);
    lemma_unsaved(rest, a);
    if b < before.len() {
        lemma_unsaved_ascends(rest, a, b);
        assert(crate::history::unsaved(rows)[b] == before[b]);
    }
}

proof fn lemma_unsaved_misses_none(rows: Seq<RetentionRow>, i: int) -> (k: int)
    requires
        rows.len() <= usize::MAX,
        0 <= i < rows.len(),
        !rows[i].saved,
    ensures
        0 <= k < crate::history::unsaved(rows).len(),
        crate::history::unsaved(rows)[k] == i,
    decreases rows.len(),
{
    let rest = rows.drop_last();
    let before = crate::history::unsaved(rest);
    if i < rest.len() {
        let k = lemma_unsaved_misses_none(rest, i);
        assert(crate::history::unsaved(rows)[k] == before[k]);
        k
    } else {
        before.len() as int
    }
}

proof fn lemma_unsaved_counts(rows: Seq<RetentionRow>)
    ensures
        crate::history::unsaved(rows).len() == rows.filter(|row: RetentionRow| !row.saved).len(),
    decreases rows.len(),
{
    reveal(Seq::filter);
    if rows.len() > 0 {
        lemma_unsaved_counts(rows.drop_last());
    }
}

/// By count, as many entries go as there are over the limit among those not kept by hand, each of
/// them one of those and none twice; and what goes is older than what stays. Of two entries as new
/// as each other the one listed first stays.
pub proof fn law_what_goes_by_count(
    limit: int,
    now: int,
    rows: Seq<RetentionRow>,
    removed: Seq<usize>,
)
    requires
        rows.len() <= usize::MAX,
        0 <= limit,
        crate::history::goes(
            RecordingRetentionPeriod::PreserveLimit,
            limit,
            now,
            rows,
            removed,
        ),
    ensures
        ({
            let unsaved = rows.filter(|row: RetentionRow| !row.saved).len();
            removed.len() == if unsaved > limit {
                unsaved - limit
            } else {
                0
            }
        }),
        forall|k: int|
            0 <= k < removed.len() ==> (#[trigger] removed[k]) < rows.len()
                && !rows[removed[k] as int].saved,
        forall|k: int, l: int| 0 <= k < l < removed.len() ==> removed[k] != removed[l],
        forall|k: int, i: usize|
            0 <= k < removed.len() && i < rows.len() && !(#[trigger] rows[i as int]).saved
                && !removed.contains(i) ==> {
                ||| rows[(#[trigger] removed[k]) as int].timestamp < rows[i as int].timestamp
                ||| rows[removed[k] as int].timestamp == rows[i as int].timestamp && i < removed[k]
            },
{
    let open = crate::history::unsaved(rows);
    let keys = crate::history::unsaved_keys(rows);
    let n = open.len() as int;
    lemma_unsaved_counts(rows);
    let order = choose|order: Seq<usize>| #[trigger]
        crate::order::orders(keys, n, order) && removed.len() == crate::debug_capture::surplus(
            n,
            limit,
        ) && forall|k: int|
            0 <= k < removed.len() ==> (#[trigger] removed[k]) == open[order[limit + k] as int];
    assert forall|k: int| 0 <= k < removed.len() implies (#[trigger] removed[k]) < rows.len()
        && !rows[removed[k] as int].saved by {
        lemma_unsaved(rows, order[limit + k] as int);
    }
    assert forall|k: int, l: int| 0 <= k < l < removed.len() implies removed[k] != removed[l] by {
        let a = order[limit + k] as int;
        let b = order[limit + l] as int;
        assert(crate::order::ranks_before(keys, a, b));
        if a < b {
            lemma_unsaved_ascends(rows, a, b);
        } else if b < a {
            lemma_unsaved_ascends(rows, b, a);
        }
    }
    assert forall|k: int, i: usize|
        0 <= k < removed.len() && i < rows.len() && !(#[trigger] rows[i as int]).saved
            && !removed.contains(i) implies {
        ||| rows[(#[trigger] removed[k]) as int].timestamp < rows[i as int].timestamp
        ||| rows[removed[k] as int].timestamp == rows[i as int].timestamp && i < removed[k]
    } by {
        let kept = lemma_unsaved_misses_none(rows, i as int);
        let gone = order[limit + k] as int;
        assert(crate::order::lists(order, kept));
        let at = choose|a: int| 0 <= a < order.len() && order[a] == kept;
        if at >= limit {
            assert(removed[at - limit] == open[kept]);
            assert(removed.contains(i));
        }
        assert(crate::order::ranks_before(keys, order[at] as int, order[limit + k] as int));
        if kept < gone {
            lemma_unsaved_ascends(rows, kept, gone);
        }
    }
}

/// What goes by count goes newest first, and what goes by time in the order of the list.
pub proof fn law_in_which_order_entries_go(
    limit: int,
    cutoff: int,
    rows: Seq<RetentionRow>,
    removed: Seq<usize>,
    k: int,
    l: int,
)
    requires
        rows.len() <= usize::MAX,
        0 <= limit,
        0 <= k < l,
    ensures
        crate::history::all_but_newest(rows, limit, removed) && l < removed.len()
            ==> rows[removed[k] as int].timestamp >= rows[removed[l] as int].timestamp,
        l < crate::history::expired(rows, cutoff).len() ==> crate::history::expired(rows, cutoff)[k]
            < crate::history::expired(rows, cutoff)[l],
{
    if crate::history::all_but_newest(rows, limit, removed) && l < removed.len() {
        let open = crate::history::unsaved(rows);
        let keys = crate::history::unsaved_keys(rows);
        let n = open.len() as int;
        let order = choose|order: Seq<usize>| #[trigger]
            crate::order::orders(keys, n, order) && removed.len() == crate::debug_capture::surplus(
                n,
                limit,
            ) && forall|k: int|
                0 <= k < removed.len() ==> (#[trigger] removed[k]) == open[order[limit + k] as int];
        assert(crate::order::ranks_before(
            keys,
            order[limit + k] as int,
            order[limit + l] as int,
        ));
        assert(removed[k] == open[order[limit + k] as int]);
        assert(removed[l] == open[order[limit + l] as int]);
    }
    if l < crate::history::expired(rows, cutoff).len() {
        lemma_expired_ascends(rows, cutoff, k, l);
    }
}

proof fn lemma_expired_ascends(rows: Seq<RetentionRow>, cutoff: int, k: int, l: int)
    requires
        rows.len() <= usize::MAX,
        0 <= k < l < crate::history::expired(rows, cutoff).len(),
    ensures
        crate::history::expired(rows, cutoff)[k] < crate::history::expired(rows, cutoff)[l],
    decreases rows.len(),
{
    let rest = rows.drop_last();
    let before = crate::history::expired(rest, cutoff);
    assert(crate::history::expired(rows, cutoff)[k] == before[k]);
    lemma_expired(rest, cutoff, k);
    if l < before.len() {
        lemma_expired_ascends(rest, cutoff, k, l);
        assert(crate::history::expired(rows, cutoff)[l] == before[l]);
    }
}

} // verus!
