//! The usage report: what the ledger of dictations adds up to.
use vstd::prelude::*;
use crate::order::{stable_order, Descending, TextKey};
use crate::text::{chars_of, same_text};

verus! {

/// Seconds in a day.
pub const DAY: i64 = 86_400;

/// Days in a month, as far as the report's window goes.
pub const DAYS_PER_MONTH: i64 = 31;

/// How a row of the ledger is labelled with its day, in local time.
pub const DAILY_PERIOD: &'static str = "date(timestamp, 'unixepoch', 'localtime')";

/// How a row of the ledger is labelled with its month, in local time.
pub const MONTHLY_PERIOD: &'static str = "strftime('%Y-%m', timestamp, 'unixepoch', 'localtime')";

/// One row of the ledger.
#[derive(Clone, Debug)]
pub struct UsageEvent {
    /// Seconds since the epoch.
    pub timestamp: i64,
    /// Length of the audio; none for rows from before it was measured.
    pub duration_ms: Option<i64>,
    pub model_id: Option<String>,
    pub engine: Option<String>,
}

/// Some rows taken together. What they cost is added up by the caller from `members`.
#[derive(Clone, Debug)]
pub struct UsageTotals {
    /// How many dictations there are.
    pub dictations: usize,
    /// How long the measured ones are together.
    pub milliseconds: i128,
    /// How many of them were measured.
    pub measured: usize,
    /// The positions of the rows, in order.
    pub members: Vec<usize>,
}

/// One day or month.
#[derive(Clone, Debug)]
pub struct UsageBucket {
    pub period: String,
    pub totals: UsageTotals,
}

/// One model.
#[derive(Clone, Debug)]
pub struct UsageByModel {
    pub model_id: String,
    pub engine: String,
    pub totals: UsageTotals,
}

/// The whole ledger, and each model's part of it.
#[derive(Clone, Debug)]
pub struct UsageSummary {
    pub totals: UsageTotals,
    /// Longest use first.
    pub per_model: Vec<UsageByModel>,
}

/// How long the measured ones among these rows are together.
pub open spec fn milliseconds_of(durations: Seq<Option<i64>>, members: Seq<usize>) -> int
    decreases members.len(),
{
    if members.len() == 0 {
        0
    } else {
        milliseconds_of(durations, members.drop_last()) + match durations[members.last() as int] {
            Some(ms) => ms as int,
            None => 0,
        }
    }
}

/// How many of these rows were measured.
pub open spec fn measured_of(durations: Seq<Option<i64>>, members: Seq<usize>) -> int
    decreases members.len(),
{
    if members.len() == 0 {
        0
    } else {
        measured_of(durations, members.drop_last()) + if durations[members.last() as int] is Some {
            1int
        } else {
            0
        }
    }
}

/// Whether these totals are those of these rows.
pub open spec fn totals_of(
    totals: UsageTotals,
    durations: Seq<Option<i64>>,
    members: Seq<usize>,
) -> bool {
    &&& totals.members@ == members
    &&& totals.dictations == members.len()
    &&& totals.milliseconds == milliseconds_of(durations, members)
    &&& totals.measured == measured_of(durations, members)
}

/// Adds up some rows.
fn add_up(durations: &Vec<Option<i64>>, members: Vec<usize>) -> (r: UsageTotals)
    requires
        forall|k: int| 0 <= k < members@.len() ==> (#[trigger] members@[k]) < durations@.len(),
    ensures
        totals_of(r, durations@, members@),
{
    let n: usize = members.len();
    let mut milliseconds: i128 = 0;
    let mut measured: usize = 0;
    let mut k: usize = 0;
    while k < n
        invariant
            k <= n,
            n == members@.len(),
            forall|j: int| 0 <= j < members@.len() ==> (#[trigger] members@[j]) < durations@.len(),
            milliseconds == milliseconds_of(durations@, members@.take(k as int)),
            measured == measured_of(durations@, members@.take(k as int)),
            measured <= k,
            -(k as int) * 0x8000_0000_0000_0000 <= milliseconds <= k * 0x8000_0000_0000_0000,
        decreases n - k,
    {
        proof {
            assert(members@.take(k + 1).drop_last() =~= members@.take(k as int));
            assert(members@.take(k + 1).last() == members@[k as int]);
        }
        match durations[members[k]] {
            Some(ms) => {
                milliseconds = milliseconds + ms as i128;
                measured = measured + 1;
            },
            None => {},
        }
        k += 1;
    }
    proof {
        assert(members@.take(n as int) =~= members@);
    }
    UsageTotals { dictations: n, milliseconds, measured, members }
}

/// The positions below `n` that are in group `g`, in order.
pub open spec fn members_of(groups: Seq<usize>, n: int, g: int) -> Seq<usize>
    decreases n,
{
    if n <= 0 {
        Seq::empty()
    } else {
        let before = members_of(groups, n - 1, g);
        if groups[n - 1] == g {
            before.push((n - 1) as usize)
        } else {
            before
        }
    }
}

/// The positions of a group, in order.
fn members(groups: &Vec<usize>, g: usize) -> (r: Vec<usize>)
    ensures
        r@ == members_of(groups@, groups@.len() as int, g as int),
        forall|k: int| 0 <= k < r@.len() ==> (#[trigger] r@[k]) < groups@.len(),
{
    let mut out: Vec<usize> = Vec::new();
    let mut i: usize = 0;
    while i < groups.len()
        invariant
            i <= groups@.len(),
            out@ == members_of(groups@, i as int, g as int),
            forall|k: int| 0 <= k < out@.len() ==> (#[trigger] out@[k]) < i,
        decreases groups.len() - i,
    {
        if groups[i] == g {
            out.push(i);
        }
        i += 1;
    }
    out
}

/// A key by which rows are grouped.
pub open spec fn optional(text: Option<String>) -> Option<Seq<char>> {
    match text {
        Some(s) => Some(s@),
        None => None,
    }
}

/// Whether both are missing or both are the same text.
fn same_optional(a: &Option<String>, b: &Option<String>) -> (r: bool)
    ensures
        r == (optional(*a) == optional(*b)),
{
    match (a, b) {
        (Some(x), Some(y)) => same_text(x.as_str(), y.as_str()),
        (None, None) => true,
        _ => false,
    }
}

/// Whether `firsts` and `groups` are the grouping of rows by their keys: groups are numbered in the
/// order of their first rows, which `firsts` lists, and a row is in the group of its key.
pub open spec fn grouping<K>(keys: Seq<K>, n: int, firsts: Seq<usize>, groups: Seq<usize>) -> bool {
    &&& groups.len() == n
    &&& forall|g: int| 0 <= g < firsts.len() ==> (#[trigger] firsts[g]) < n
    &&& forall|g: int, h: int| 0 <= g < h < firsts.len() ==> firsts[g] < firsts[h]
    &&& forall|i: int| 0 <= i < n ==> (#[trigger] groups[i]) < firsts.len()
    &&& forall|i: int|
        0 <= i < n ==> firsts[(#[trigger] groups[i]) as int] <= i && keys[firsts[groups[i] as int] as int]
            == keys[i]
    &&& forall|g: int| 0 <= g < firsts.len() ==> groups[#[trigger] firsts[g] as int] == g
    &&& forall|g: int, h: int|
        0 <= g < h < firsts.len() ==> keys[#[trigger] firsts[g] as int]
            != keys[#[trigger] firsts[h] as int]
}

/// The model and the engine of a row, which may be missing.
pub open spec fn model_key(event: UsageEvent) -> (Option<Seq<char>>, Option<Seq<char>>) {
    (optional(event.model_id), optional(event.engine))
}

/// The keys of the rows.
pub open spec fn model_keys(events: Seq<UsageEvent>) -> Seq<
    (Option<Seq<char>>, Option<Seq<char>>),
> {
    events.map_values(|e: UsageEvent| model_key(e))
}

/// The durations of the rows.
pub open spec fn durations_of(events: Seq<UsageEvent>) -> Seq<Option<i64>> {
    events.map_values(|e: UsageEvent| e.duration_ms)
}

/// Groups the rows by model and engine.
fn group_by_model(events: &[UsageEvent]) -> (r: (Vec<usize>, Vec<usize>))
    ensures
        grouping(model_keys(events@), events@.len() as int, r.0@, r.1@),
{
    let mut firsts: Vec<usize> = Vec::new();
    let mut groups: Vec<usize> = Vec::new();
    let mut i: usize = 0;
    while i < events.len()
        invariant
            i <= events@.len(),
            grouping(model_keys(events@), i as int, firsts@, groups@),
            firsts@.len() <= i,
        decreases events.len() - i,
    {
        let mut g: usize = 0;
        while g < firsts.len() && !(same_optional(
            &events[firsts[g]].model_id,
            &events[i].model_id,
        ) && same_optional(&events[firsts[g]].engine, &events[i].engine))
            invariant
                i < events@.len(),
                g <= firsts@.len(),
                grouping(model_keys(events@), i as int, firsts@, groups@),
                forall|h: int|
                    0 <= h < g ==> model_keys(events@)[#[trigger] firsts@[h] as int] != model_keys(
                        events@,
                    )[i as int],
            ensures
                g <= firsts@.len(),
                forall|h: int|
                    0 <= h < g ==> model_keys(events@)[#[trigger] firsts@[h] as int] != model_keys(
                        events@,
                    )[i as int],
                g < firsts@.len() ==> model_keys(events@)[firsts@[g as int] as int] == model_keys(
                    events@,
                )[i as int],
            decreases firsts.len() - g,
        {
            g += 1;
        }
        if g == firsts.len() {
            firsts.push(i);
        }
        groups.push(g);
        i += 1;
    }
    (firsts, groups)
}

/// The same text, or what stands for a missing one.
pub open spec fn or_unknown(text: Option<Seq<char>>) -> Seq<char> {
    match text {
        Some(s) => s,
        None => "unknown"@,
    }
}

/// The same text, or what stands for a missing one.
fn known(text: &Option<String>) -> (r: String)
    ensures
        r@ == or_unknown(optional(*text)),
{
    match text {
        Some(s) => s.clone(),
        None => "unknown".to_owned(),
    }
}

/// How long each group is.
pub open spec fn group_lengths(
    durations: Seq<Option<i64>>,
    firsts: Seq<usize>,
    groups: Seq<usize>,
) -> Seq<Descending> {
    Seq::new(
        firsts.len(),
        |g: int|
            Descending {
                value: milliseconds_of(
                    durations,
                    members_of(groups, groups.len() as int, g),
                ) as i128,
            },
    )
}

/// Whether `per_model` has a line for each pair of a model and an engine, longest use first. Equal
/// uses stand in the order of their first rows.
pub open spec fn split_by_model(events: Seq<UsageEvent>, per_model: Seq<UsageByModel>) -> bool {
    exists|firsts: Seq<usize>, groups: Seq<usize>, order: Seq<usize>|
        #![trigger grouping(model_keys(events), events.len() as int, firsts, groups), crate::order::orders(group_lengths(durations_of(events), firsts, groups), firsts.len() as int, order)]
        {
            &&& grouping(model_keys(events), events.len() as int, firsts, groups)
            &&& crate::order::orders(
                group_lengths(durations_of(events), firsts, groups),
                firsts.len() as int,
                order,
            )
            &&& per_model.len() == firsts.len()
            &&& forall|k: int|
                0 <= k < per_model.len() ==> model_line(
                    events,
                    groups,
                    order[k] as int,
                    events[firsts[order[k] as int] as int],
                    #[trigger] per_model[k],
                )
        }
}

/// Whether a line is that of a group of rows, of which one is given.
pub open spec fn model_line(
    events: Seq<UsageEvent>,
    groups: Seq<usize>,
    g: int,
    first: UsageEvent,
    line: UsageByModel,
) -> bool {
    &&& line.model_id@ == or_unknown(optional(first.model_id))
    &&& line.engine@ == or_unknown(optional(first.engine))
    &&& totals_of(
        line.totals,
        durations_of(events),
        members_of(groups, events.len() as int, g),
    )
}

/// All positions below `n`.
pub open spec fn everything(n: int) -> Seq<usize> {
    Seq::new(n as nat, |i: int| i as usize)
}

/// The durations of the rows.
fn durations(events: &[UsageEvent]) -> (r: Vec<Option<i64>>)
    ensures
        r@ == durations_of(events@),
{
    let mut out: Vec<Option<i64>> = Vec::new();
    let mut i: usize = 0;
    while i < events.len()
        invariant
            i <= events@.len(),
            out@ == durations_of(events@).take(i as int),
        decreases events.len() - i,
    {
        out.push(events[i].duration_ms);
        proof {
            assert(durations_of(events@).take(i + 1) =~= durations_of(events@).take(i as int).push(
                events@[i as int].duration_ms,
            ));
        }
        i += 1;
    }
    proof {
        assert(durations_of(events@).take(events@.len() as int) =~= durations_of(events@));
    }
    out
}

/// The whole ledger: every row counts, and only measured ones add to the length.
pub fn usage_summary(events: &[UsageEvent]) -> (r: UsageSummary)
    ensures
        totals_of(r.totals, durations_of(events@), everything(events@.len() as int)),
        split_by_model(events@, r.per_model@),
{
    let lengths = durations(events);
    let mut all: Vec<usize> = Vec::new();
    let mut i: usize = 0;
    while i < events.len()
        invariant
            i <= events@.len(),
            all@ == everything(i as int),
        decreases events.len() - i,
    {
        all.push(i);
        proof {
            assert(everything(i + 1) =~= everything(i as int).push(i));
        }
        i += 1;
    }
    let totals = add_up(&lengths, all);
    let per_model = split(events, &lengths);
    UsageSummary { totals, per_model }
}

/// A line for each pair of a model and an engine.
fn split(events: &[UsageEvent], lengths: &Vec<Option<i64>>) -> (r: Vec<UsageByModel>)
    requires
        lengths@ == durations_of(events@),
    ensures
        split_by_model(events@, r@),
{
    let (firsts, groups) = group_by_model(events);
    let mut keys: Vec<Descending> = Vec::new();
    let mut g: usize = 0;
    while g < firsts.len()
        invariant
            g <= firsts@.len(),
            lengths@ == durations_of(events@),
            groups@.len() == events@.len(),
            keys@ == group_lengths(lengths@, firsts@, groups@).take(g as int),
        decreases firsts.len() - g,
    {
        let totals = add_up(lengths, members(&groups, g));
        keys.push(Descending { value: totals.milliseconds });
        proof {
            let all = group_lengths(lengths@, firsts@, groups@);
            assert(all.take(g + 1) =~= all.take(g as int).push(all[g as int]));
        }
        g += 1;
    }
    proof {
        let all = group_lengths(lengths@, firsts@, groups@);
        assert(all.take(firsts@.len() as int) =~= all);
    }
    let order = stable_order(&keys);
    let mut lines: Vec<UsageByModel> = Vec::new();
    let mut k: usize = 0;
    while k < order.len()
        invariant
            k <= order@.len(),
            order@.len() == firsts@.len(),
            lengths@ == durations_of(events@),
            grouping(model_keys(events@), events@.len() as int, firsts@, groups@),
            forall|j: int| 0 <= j < order@.len() ==> (#[trigger] order@[j]) < firsts@.len(),
            lines@.len() == k,
            forall|j: int|
                0 <= j < k ==> model_line(
                    events@,
                    groups@,
                    order@[j] as int,
                    events@[firsts@[order@[j] as int] as int],
                    #[trigger] lines@[j],
                ),
        decreases order.len() - k,
    {
        let g: usize = order[k];
        let first: usize = firsts[g];
        let totals = add_up(lengths, members(&groups, g));
        lines.push(
            UsageByModel {
                model_id: known(&events[first].model_id),
                engine: known(&events[first].engine),
                totals,
            },
        );
        k += 1;
    }
    lines
}

/// A row of the ledger with the name of its day or month.
#[derive(Clone, Debug)]
pub struct DatedEvent {
    pub timestamp: i64,
    pub duration_ms: Option<i64>,
    pub period: String,
}

/// The positions of the rows that are not older than `since`.
pub open spec fn recent(events: Seq<DatedEvent>, since: int) -> Seq<usize>
    decreases events.len(),
{
    if events.len() == 0 {
        Seq::empty()
    } else {
        let before = recent(events.drop_last(), since);
        if events.last().timestamp >= since {
            before.push((events.len() - 1) as usize)
        } else {
            before
        }
    }
}

/// The names of the days or months of some rows.
pub open spec fn periods_of(events: Seq<DatedEvent>, rows: Seq<usize>) -> Seq<Seq<char>> {
    rows.map_values(|i: usize| events[i as int].period@)
}

/// The durations of all rows.
pub open spec fn dated_durations(events: Seq<DatedEvent>) -> Seq<Option<i64>> {
    events.map_values(|e: DatedEvent| e.duration_ms)
}

/// The rows at these positions among some rows.
pub open spec fn rows_at(rows: Seq<usize>, members: Seq<usize>) -> Seq<usize> {
    members.map_values(|m: usize| rows[m as int])
}

/// Whether a bucket is that of a group of rows.
pub open spec fn bucket_of(
    events: Seq<DatedEvent>,
    rows: Seq<usize>,
    groups: Seq<usize>,
    g: int,
    period: Seq<char>,
    bucket: UsageBucket,
) -> bool {
    &&& bucket.period@ == period
    &&& totals_of(
        bucket.totals,
        dated_durations(events),
        rows_at(rows, members_of(groups, rows.len() as int, g)),
    )
}

/// The keys by which buckets stand in order.
pub open spec fn period_keys_match(
    events: Seq<DatedEvent>,
    rows: Seq<usize>,
    firsts: Seq<usize>,
    keys: Seq<TextKey>,
) -> bool {
    &&& keys.len() == firsts.len()
    &&& forall|g: int|
        0 <= g < keys.len() ==> (#[trigger] keys[g]).chars@ == events[rows[firsts[g] as int] as int].period@
}

/// Whether `buckets` has one for each day or month with a row not older than `since`, earliest
/// first.
pub open spec fn split_by_period(
    events: Seq<DatedEvent>,
    since: int,
    buckets: Seq<UsageBucket>,
) -> bool {
    let rows = recent(events, since);
    exists|firsts: Seq<usize>, groups: Seq<usize>, keys: Seq<TextKey>, order: Seq<usize>|
        #![trigger grouping(periods_of(events, rows), rows.len() as int, firsts, groups), crate::order::orders(keys, firsts.len() as int, order)]
        {
            &&& grouping(periods_of(events, rows), rows.len() as int, firsts, groups)
            &&& period_keys_match(events, rows, firsts, keys)
            &&& crate::order::orders(keys, firsts.len() as int, order)
            &&& buckets.len() == firsts.len()
            &&& forall|k: int|
                0 <= k < buckets.len() ==> bucket_of(
                    events,
                    rows,
                    groups,
                    order[k] as int,
                    events[rows[firsts[order[k] as int] as int] as int].period@,
                    #[trigger] buckets[k],
                )
        }
}

/// The positions of the rows that are not older than `since`.
fn recent_rows(events: &[DatedEvent], since: i64) -> (r: Vec<usize>)
    ensures
        r@ == recent(events@, since as int),
        forall|k: int| 0 <= k < r@.len() ==> (#[trigger] r@[k]) < events@.len(),
{
    let mut out: Vec<usize> = Vec::new();
    let mut i: usize = 0;
    proof {
        assert(events@.take(0) =~= Seq::empty());
    }
    while i < events.len()
        invariant
            i <= events@.len(),
            out@ == recent(events@.take(i as int), since as int),
            forall|k: int| 0 <= k < out@.len() ==> (#[trigger] out@[k]) < i,
        decreases events.len() - i,
    {
        proof {
            assert(events@.take(i + 1).drop_last() =~= events@.take(i as int));
            assert(events@.take(i + 1).last() == events@[i as int]);
        }
        if events[i].timestamp >= since {
            out.push(i);
        }
        i += 1;
    }
    proof {
        assert(events@.take(events@.len() as int) =~= events@);
    }
    out
}

/// Groups rows by their day or month.
fn group_by_period(events: &[DatedEvent], rows: &Vec<usize>) -> (r: (Vec<usize>, Vec<usize>))
    requires
        forall|k: int| 0 <= k < rows@.len() ==> (#[trigger] rows@[k]) < events@.len(),
    ensures
        grouping(periods_of(events@, rows@), rows@.len() as int, r.0@, r.1@),
{
    let mut firsts: Vec<usize> = Vec::new();
    let mut groups: Vec<usize> = Vec::new();
    let ghost keys = periods_of(events@, rows@);
    let mut i: usize = 0;
    while i < rows.len()
        invariant
            i <= rows@.len(),
            keys == periods_of(events@, rows@),
            forall|k: int| 0 <= k < rows@.len() ==> (#[trigger] rows@[k]) < events@.len(),
            grouping(keys, i as int, firsts@, groups@),
            firsts@.len() <= i,
        decreases rows.len() - i,
    {
        let mut g: usize = 0;
        while g < firsts.len() && !same_text(
            events[rows[firsts[g]]].period.as_str(),
            events[rows[i]].period.as_str(),
        )
            invariant
                i < rows@.len(),
                g <= firsts@.len(),
                keys == periods_of(events@, rows@),
                forall|k: int| 0 <= k < rows@.len() ==> (#[trigger] rows@[k]) < events@.len(),
                grouping(keys, i as int, firsts@, groups@),
                forall|h: int| 0 <= h < g ==> keys[#[trigger] firsts@[h] as int] != keys[i as int],
            ensures
                g <= firsts@.len(),
                forall|h: int| 0 <= h < g ==> keys[#[trigger] firsts@[h] as int] != keys[i as int],
                g < firsts@.len() ==> keys[firsts@[g as int] as int] == keys[i as int],
            decreases firsts.len() - g,
        {
            g += 1;
        }
        if g == firsts.len() {
            firsts.push(i);
        }
        groups.push(g);
        i += 1;
    }
    (firsts, groups)
}

/// The rows at these positions among some rows.
fn pick(rows: &Vec<usize>, positions: &Vec<usize>) -> (r: Vec<usize>)
    requires
        forall|k: int| 0 <= k < positions@.len() ==> (#[trigger] positions@[k]) < rows@.len(),
    ensures
        r@ == rows_at(rows@, positions@),
{
    let mut out: Vec<usize> = Vec::new();
    let mut k: usize = 0;
    while k < positions.len()
        invariant
            k <= positions@.len(),
            forall|j: int| 0 <= j < positions@.len() ==> (#[trigger] positions@[j]) < rows@.len(),
            out@ == rows_at(rows@, positions@).take(k as int),
        decreases positions.len() - k,
    {
        out.push(rows[positions[k]]);
        proof {
            let all = rows_at(rows@, positions@);
            assert(all.take(k + 1) =~= all.take(k as int).push(all[k as int]));
        }
        k += 1;
    }
    proof {
        let all = rows_at(rows@, positions@);
        assert(all.take(positions@.len() as int) =~= all);
    }
    out
}

/// Dictation per day or month, earliest first, from the rows that are not older than `since`; from
/// the epoch on where none is given. A period without a row is absent.
pub fn usage_buckets(events: &[DatedEvent], since: Option<i64>) -> (r: Vec<UsageBucket>)
    ensures
        split_by_period(
            events@,
            match since {
                Some(t) => t as int,
                None => 0,
            },
            r@,
        ),
{
    let since: i64 = match since {
        Some(t) => t,
        None => 0,
    };
    let rows = recent_rows(events, since);
    let (firsts, groups) = group_by_period(events, &rows);
    let mut lengths: Vec<Option<i64>> = Vec::new();
    let mut i: usize = 0;
    while i < events.len()
        invariant
            i <= events@.len(),
            lengths@ == dated_durations(events@).take(i as int),
        decreases events.len() - i,
    {
        lengths.push(events[i].duration_ms);
        proof {
            let all = dated_durations(events@);
            assert(all.take(i + 1) =~= all.take(i as int).push(all[i as int]));
        }
        i += 1;
    }
    proof {
        let all = dated_durations(events@);
        assert(all.take(events@.len() as int) =~= all);
    }
    let mut keys: Vec<TextKey> = Vec::new();
    let mut g: usize = 0;
    while g < firsts.len()
        invariant
            g <= firsts@.len(),
            grouping(periods_of(events@, rows@), rows@.len() as int, firsts@, groups@),
            forall|k: int| 0 <= k < rows@.len() ==> (#[trigger] rows@[k]) < events@.len(),
            keys@.len() == g,
            forall|h: int|
                0 <= h < g ==> (#[trigger] keys@[h]).chars@
                    == events@[rows@[firsts@[h] as int] as int].period@,
        decreases firsts.len() - g,
    {
        keys.push(TextKey { chars: chars_of(events[rows[firsts[g]]].period.as_str()) });
        g += 1;
    }
    let order = stable_order(&keys);
    let mut buckets: Vec<UsageBucket> = Vec::new();
    let mut k: usize = 0;
    while k < order.len()
        invariant
            k <= order@.len(),
            order@.len() == firsts@.len(),
            lengths@ == dated_durations(events@),
            grouping(periods_of(events@, rows@), rows@.len() as int, firsts@, groups@),
            forall|j: int| 0 <= j < rows@.len() ==> (#[trigger] rows@[j]) < events@.len(),
            forall|j: int| 0 <= j < order@.len() ==> (#[trigger] order@[j]) < firsts@.len(),
            buckets@.len() == k,
            forall|j: int|
                0 <= j < k ==> bucket_of(
                    events@,
                    rows@,
                    groups@,
                    order@[j] as int,
                    events@[rows@[firsts@[order@[j] as int] as int] as int].period@,
                    #[trigger] buckets@[j],
                ),
        decreases order.len() - k,
    {
        let g: usize = order[k];
        let positions = members(&groups, g);
        let own = pick(&rows, &positions);
        let totals = add_up(&lengths, own);
        buckets.push(UsageBucket { period: events[rows[firsts[g]]].period.clone(), totals });
        k += 1;
    }
    buckets
}

/// From when on a report over `days` days counts.
pub fn daily_since(now: i64, days: u32) -> (r: i64)
    requires
        now - days * DAY >= i64::MIN,
    ensures
        r == now - days * DAY,
        r == now - 86_400 * days,
{
    now - days as i64 * DAY
}

/// From when on a report over `months` months counts. The window is loose; the grouping is not.
pub fn monthly_since(now: i64, months: u32) -> (r: i64)
    requires
        now - months * DAYS_PER_MONTH * DAY >= i64::MIN,
    ensures
        r == now - months * DAYS_PER_MONTH * DAY,
        r == now - 2_678_400 * months,
{
    now - months as i64 * DAYS_PER_MONTH * DAY
}

/// An untimed row counts as a dictation and adds neither to the length nor to what was measured.
pub proof fn law_untimed_rows_add_no_length(
    durations: Seq<Option<i64>>,
    members: Seq<usize>,
    untimed: usize,
)
    requires
        untimed < durations.len(),
        durations[untimed as int] is None,
    ensures
        milliseconds_of(durations, members.push(untimed)) == milliseconds_of(durations, members),
        measured_of(durations, members.push(untimed)) == measured_of(durations, members),
        members.push(untimed).len() == members.len() + 1,
{
    assert(members.push(untimed).drop_last() =~= members);
}

/// The weights of some rows, added up.
pub open spec fn weighed(weights: Seq<int>, members: Seq<usize>) -> int
    decreases members.len(),
{
    if members.len() == 0 {
        0
    } else {
        weighed(weights, members.drop_last()) + weights[members.last() as int]
    }
}

/// Each row's length; nothing for one that was not measured.
pub open spec fn lengths_of(durations: Seq<Option<i64>>) -> Seq<int> {
    durations.map_values(
        |d: Option<i64>|
            match d {
                Some(ms) => ms as int,
                None => 0,
            },
    )
}

/// One for each row that was measured.
pub open spec fn timed_of(durations: Seq<Option<i64>>) -> Seq<int> {
    durations.map_values(
        |d: Option<i64>|
            if d is Some {
                1int
            } else {
                0
            },
    )
}

/// One for each row.
pub open spec fn ones(n: nat) -> Seq<int> {
    Seq::new(n, |i: int| 1int)
}

proof fn lemma_totals_are_weights(durations: Seq<Option<i64>>, members: Seq<usize>)
    requires
        forall|k: int| 0 <= k < members.len() ==> (#[trigger] members[k]) < durations.len(),
    ensures
        milliseconds_of(durations, members) == weighed(lengths_of(durations), members),
        measured_of(durations, members) == weighed(timed_of(durations), members),
        members.len() == weighed(ones(durations.len()), members),
    decreases members.len(),
{
    if members.len() > 0 {
        let rest = members.drop_last();
        assert forall|k: int| 0 <= k < rest.len() implies (#[trigger] rest[k])
            < durations.len() by {
            assert(rest[k] == members[k]);
        }
        lemma_totals_are_weights(durations, rest);
        assert(members[members.len() - 1] < durations.len());
    }
}

proof fn lemma_members_are_rows(groups: Seq<usize>, n: int, g: int, k: int)
    requires
        n <= usize::MAX,
        0 <= k < members_of(groups, n, g).len(),
    ensures
        members_of(groups, n, g)[k] < n,
    decreases n,
{
    let before = members_of(groups, n - 1, g);
    if k < before.len() {
        lemma_members_are_rows(groups, n - 1, g, k);
        assert(members_of(groups, n, g)[k] == before[k]);
    }
}

/// What each group weighs.
pub open spec fn group_weights(weights: Seq<int>, groups: Seq<usize>, n: int, count: nat) -> Seq<
    int,
> {
    Seq::new(count, |g: int| weighed(weights, members_of(groups, n, g)))
}

/// A list of numbers, added up.
pub open spec fn sum(numbers: Seq<int>) -> int
    decreases numbers.len(),
{
    if numbers.len() == 0 {
        0
    } else {
        sum(numbers.drop_last()) + numbers.last()
    }
}

/// One more row adds its weight to one group.
proof fn lemma_one_more_row(weights: Seq<int>, groups: Seq<usize>, n: int, count: nat)
    requires
        0 < n <= groups.len(),
        n <= usize::MAX,
    ensures
        sum(group_weights(weights, groups, n, count)) == sum(
            group_weights(weights, groups, n - 1, count),
        ) + if groups[n - 1] < count {
            weights[n - 1]
        } else {
            0
        },
    decreases count,
{
    if count > 0 {
        let fewer = (count - 1) as nat;
        lemma_one_more_row(weights, groups, n, fewer);
        let after = group_weights(weights, groups, n, count);
        let before = group_weights(weights, groups, n - 1, count);
        assert(after.drop_last() =~= group_weights(weights, groups, n, fewer));
        assert(before.drop_last() =~= group_weights(weights, groups, n - 1, fewer));
        if groups[n - 1] == count - 1 {
            let own = members_of(groups, n - 1, count - 1);
            assert(own.push((n - 1) as usize).drop_last() =~= own);
        }
    }
}

proof fn lemma_no_rows(weights: Seq<int>, groups: Seq<usize>, count: nat)
    ensures
        sum(group_weights(weights, groups, 0, count)) == 0,
    decreases count,
{
    if count > 0 {
        let all = group_weights(weights, groups, 0, count);
        lemma_no_rows(weights, groups, (count - 1) as nat);
        assert(all.drop_last() =~= group_weights(weights, groups, 0, (count - 1) as nat));
    }
}

/// Groups share out all rows.
proof fn lemma_groups_share_out(weights: Seq<int>, groups: Seq<usize>, n: int, count: nat)
    requires
        0 <= n <= groups.len(),
        n <= usize::MAX,
        forall|i: int| 0 <= i < n ==> (#[trigger] groups[i]) < count,
    ensures
        sum(group_weights(weights, groups, n, count)) == weighed(weights, everything(n)),
    decreases n,
{
    if n == 0 {
        lemma_no_rows(weights, groups, count);
        assert(everything(0) =~= Seq::empty());
    } else {
        lemma_groups_share_out(weights, groups, n - 1, count);
        lemma_one_more_row(weights, groups, n, count);
        assert(everything(n).drop_last() =~= everything(n - 1));
    }
}

/// The numbers at these positions.
pub open spec fn picked(numbers: Seq<int>, order: Seq<usize>) -> Seq<int> {
    order.map_values(|i: usize| numbers[i as int])
}

proof fn lemma_sum_without(numbers: Seq<int>, at: int)
    requires
        0 <= at < numbers.len(),
    ensures
        sum(numbers) == sum(numbers.remove(at)) + numbers[at],
    decreases numbers.len(),
{
    if at == numbers.len() - 1 {
        assert(numbers.remove(at) =~= numbers.drop_last());
    } else {
        lemma_sum_without(numbers.drop_last(), at);
        assert(numbers.remove(at).drop_last() =~= numbers.drop_last().remove(at));
    }
}

/// The order in which numbers are added does not matter.
proof fn lemma_sum_in_any_order(numbers: Seq<int>, order: Seq<usize>)
    requires
        order.len() == numbers.len(),
        forall|a: int| 0 <= a < order.len() ==> (#[trigger] order[a]) < numbers.len(),
        forall|a: int, b: int| 0 <= a < b < order.len() ==> order[a] != order[b],
        forall|i: int| 0 <= i < numbers.len() ==> #[trigger] crate::order::lists(order, i),
    ensures
        sum(picked(numbers, order)) == sum(numbers),
    decreases numbers.len(),
{
    if numbers.len() == 0 {
        assert(picked(numbers, order) =~= numbers);
    } else {
        let last = numbers.len() - 1;
        assert(crate::order::lists(order, last));
        let at = choose|a: int| 0 <= a < order.len() && order[a] == last;
        let rest = order.remove(at);
        let fewer = numbers.drop_last();
        assert forall|a: int| 0 <= a < rest.len() implies (#[trigger] rest[a]) < fewer.len() by {
            let b = if a < at { a } else { a + 1 };
            assert(rest[a] == order[b]);
            assert(order[b] < numbers.len());
            assert(order[b] != order[at]);
        }
        assert forall|a: int, b: int| 0 <= a < b < rest.len() implies rest[a] != rest[b] by {
            let x = if a < at { a } else { a + 1 };
            let y = if b < at { b } else { b + 1 };
            assert(order[x] != order[y]);
        }
        assert forall|i: int| 0 <= i < fewer.len() implies #[trigger] crate::order::lists(
            rest,
            i,
        ) by {
            assert(crate::order::lists(order, i));
            let a = choose|a: int| 0 <= a < order.len() && order[a] == i;
            let b = if a < at { a } else { a - 1 };
            assert(rest[b] == i);
        }
        lemma_sum_in_any_order(fewer, rest);
        lemma_sum_without(picked(numbers, order), at);
        assert(picked(numbers, order).remove(at) =~= picked(fewer, rest));
    }
}

/// An order of keys lists each position once, so it adds up like the positions themselves.
proof fn lemma_sum_in_order<K: crate::order::SortKey>(
    keys: Seq<K>,
    numbers: Seq<int>,
    order: Seq<usize>,
)
    requires
        numbers.len() <= keys.len(),
        crate::order::orders(keys, numbers.len() as int, order),
    ensures
        sum(picked(numbers, order)) == sum(numbers),
{
    assert forall|a: int, b: int| 0 <= a < b < order.len() implies order[a] != order[b] by {
        assert(crate::order::ranks_before(keys, order[a] as int, order[b] as int));
        if order[a] == order[b] {
            let key = keys[order[a] as int];
            if key.before(key) {
                K::asymmetric(key, key);
            }
        }
    }
    lemma_sum_in_any_order(numbers, order);
}

/// The lines' dictations, lengths and measured dictations, each added up.
pub open spec fn lines_total(lines: Seq<UsageTotals>) -> (int, int, int) {
    (
        sum(lines.map_values(|t: UsageTotals| t.dictations as int)),
        sum(lines.map_values(|t: UsageTotals| t.milliseconds as int)),
        sum(lines.map_values(|t: UsageTotals| t.measured as int)),
    )
}

/// The dictations, the length and the measured dictations of some rows.
pub open spec fn rows_total(durations: Seq<Option<i64>>, rows: Seq<usize>) -> (int, int, int) {
    (rows.len() as int, milliseconds_of(durations, rows), measured_of(durations, rows))
}

/// Lines that stand for all groups of the rows, in some order of them, add up to all rows.
proof fn lemma_lines_add_up<K: crate::order::SortKey>(
    keys: Seq<K>,
    durations: Seq<Option<i64>>,
    groups: Seq<usize>,
    order: Seq<usize>,
    lines: Seq<UsageTotals>,
)
    requires
        groups.len() == durations.len(),
        groups.len() <= usize::MAX,
        lines.len() <= keys.len(),
        forall|i: int| 0 <= i < groups.len() ==> (#[trigger] groups[i]) < lines.len(),
        crate::order::orders(keys, lines.len() as int, order),
        forall|k: int|
            0 <= k < lines.len() ==> ({
                let own = members_of(groups, groups.len() as int, order[k] as int);
                &&& (#[trigger] lines[k]).dictations == own.len()
                &&& lines[k].milliseconds == milliseconds_of(durations, own)
                &&& lines[k].measured == measured_of(durations, own)
            }),
    ensures
        lines_total(lines) == rows_total(durations, everything(groups.len() as int)),
{
    let n = groups.len() as int;
    let count = lines.len();
    let all = everything(n);
    lemma_totals_are_weights(durations, all);
    assert forall|w: Seq<int>| #[trigger]
        sum(picked(group_weights(w, groups, n, count), order)) == weighed(w, all) by {
        lemma_groups_share_out(w, groups, n, count);
        lemma_sum_in_order(keys, group_weights(w, groups, n, count), order);
    }
    assert forall|k: int| 0 <= k < count implies ({
        let own = members_of(groups, n, order[k] as int);
        &&& (#[trigger] lines[k]).dictations == weighed(ones(durations.len()), own)
        &&& lines[k].milliseconds == weighed(lengths_of(durations), own)
        &&& lines[k].measured == weighed(timed_of(durations), own)
    }) by {
        let own = members_of(groups, n, order[k] as int);
        assert forall|m: int| 0 <= m < own.len() implies (#[trigger] own[m])
            < durations.len() by {
            lemma_members_are_rows(groups, n, order[k] as int, m);
        }
        lemma_totals_are_weights(durations, own);
    }
    assert(lines.map_values(|t: UsageTotals| t.dictations as int) =~= picked(
        group_weights(ones(durations.len()), groups, n, count),
        order,
    ));
    assert(lines.map_values(|t: UsageTotals| t.milliseconds as int) =~= picked(
        group_weights(lengths_of(durations), groups, n, count),
        order,
    ));
    assert(lines.map_values(|t: UsageTotals| t.measured as int) =~= picked(
        group_weights(timed_of(durations), groups, n, count),
        order,
    ));
}

/// The lines of the split by model add up to the whole ledger: their dictations, their lengths and
/// what was measured.
pub proof fn law_model_lines_add_up_to_the_whole(
    events: Seq<UsageEvent>,
    per_model: Seq<UsageByModel>,
)
    requires
        events.len() <= usize::MAX,
        split_by_model(events, per_model),
    ensures
        lines_total(per_model.map_values(|line: UsageByModel| line.totals)) == rows_total(
            durations_of(events),
            everything(events.len() as int),
        ),
{
    let durations = durations_of(events);
    let (firsts, groups, order) = choose|
        firsts: Seq<usize>,
        groups: Seq<usize>,
        order: Seq<usize>,
    |
        #![trigger grouping(model_keys(events), events.len() as int, firsts, groups), crate::order::orders(group_lengths(durations_of(events), firsts, groups), firsts.len() as int, order)]
        {
            &&& grouping(model_keys(events), events.len() as int, firsts, groups)
            &&& crate::order::orders(
                group_lengths(durations_of(events), firsts, groups),
                firsts.len() as int,
                order,
            )
            &&& per_model.len() == firsts.len()
            &&& forall|k: int|
                0 <= k < per_model.len() ==> model_line(
                    events,
                    groups,
                    order[k] as int,
                    events[firsts[order[k] as int] as int],
                    #[trigger] per_model[k],
                )
        };
    let lines = per_model.map_values(|line: UsageByModel| line.totals);
    assert forall|k: int| 0 <= k < lines.len() implies ({
        let own = members_of(groups, groups.len() as int, order[k] as int);
        &&& (#[trigger] lines[k]).dictations == own.len()
        &&& lines[k].milliseconds == milliseconds_of(durations, own)
        &&& lines[k].measured == measured_of(durations, own)
    }) by {
        assert(lines[k] == per_model[k].totals);
    }
    lemma_lines_add_up(group_lengths(durations, firsts, groups), durations, groups, order, lines);
}

/// The durations of some rows, in their order.
pub open spec fn durations_at(durations: Seq<Option<i64>>, rows: Seq<usize>) -> Seq<Option<i64>> {
    rows.map_values(|i: usize| durations[i as int])
}

proof fn lemma_totals_of_picked_rows(
    durations: Seq<Option<i64>>,
    rows: Seq<usize>,
    members: Seq<usize>,
)
    requires
        forall|k: int| 0 <= k < members.len() ==> (#[trigger] members[k]) < rows.len(),
    ensures
        milliseconds_of(durations, rows_at(rows, members)) == milliseconds_of(
            durations_at(durations, rows),
            members,
        ),
        measured_of(durations, rows_at(rows, members)) == measured_of(
            durations_at(durations, rows),
            members,
        ),
    decreases members.len(),
{
    if members.len() > 0 {
        let rest = members.drop_last();
        assert forall|k: int| 0 <= k < rest.len() implies (#[trigger] rest[k]) < rows.len() by {
            assert(rest[k] == members[k]);
        }
        lemma_totals_of_picked_rows(durations, rows, rest);
        assert(rows_at(rows, members).drop_last() =~= rows_at(rows, rest));
        assert(members[members.len() - 1] < rows.len());
    }
}

proof fn lemma_recent_is_short(events: Seq<DatedEvent>, since: int)
    ensures
        recent(events, since).len() <= events.len(),
    decreases events.len(),
{
    if events.len() > 0 {
        lemma_recent_is_short(events.drop_last(), since);
    }
}

/// The buckets of a report add up to the rows that it covers: their dictations, their lengths and
/// what was measured.
pub proof fn law_buckets_add_up_to_their_rows(
    events: Seq<DatedEvent>,
    since: int,
    buckets: Seq<UsageBucket>,
)
    requires
        events.len() <= usize::MAX,
        split_by_period(events, since, buckets),
    ensures
        lines_total(buckets.map_values(|bucket: UsageBucket| bucket.totals)) == rows_total(
            dated_durations(events),
            recent(events, since),
        ),
{
    let rows = recent(events, since);
    let durations = dated_durations(events);
    let own_durations = durations_at(durations, rows);
    let n = rows.len() as int;
    lemma_recent_is_short(events, since);
    let (firsts, groups, keys, order) = choose|
        firsts: Seq<usize>,
        groups: Seq<usize>,
        keys: Seq<TextKey>,
        order: Seq<usize>,
    |
        #![trigger grouping(periods_of(events, rows), rows.len() as int, firsts, groups), crate::order::orders(keys, firsts.len() as int, order)]
        {
            &&& grouping(periods_of(events, rows), rows.len() as int, firsts, groups)
            &&& period_keys_match(events, rows, firsts, keys)
            &&& crate::order::orders(keys, firsts.len() as int, order)
            &&& buckets.len() == firsts.len()
            &&& forall|k: int|
                0 <= k < buckets.len() ==> bucket_of(
                    events,
                    rows,
                    groups,
                    order[k] as int,
                    events[rows[firsts[order[k] as int] as int] as int].period@,
                    #[trigger] buckets[k],
                )
        };
    let lines = buckets.map_values(|bucket: UsageBucket| bucket.totals);
    assert forall|k: int| 0 <= k < lines.len() implies ({
        let own = members_of(groups, groups.len() as int, order[k] as int);
        &&& (#[trigger] lines[k]).dictations == own.len()
        &&& lines[k].milliseconds == milliseconds_of(own_durations, own)
        &&& lines[k].measured == measured_of(own_durations, own)
    }) by {
        let own = members_of(groups, n, order[k] as int);
        assert(lines[k] == buckets[k].totals);
        assert forall|m: int| 0 <= m < own.len() implies (#[trigger] own[m]) < rows.len() by {
            lemma_members_are_rows(groups, n, order[k] as int, m);
        }
        lemma_totals_of_picked_rows(durations, rows, own);
    }
    lemma_lines_add_up(keys, own_durations, groups, order, lines);
    lemma_totals_of_picked_rows(durations, rows, everything(n));
    assert(rows_at(rows, everything(n)) =~= rows);
}

} // verus!
