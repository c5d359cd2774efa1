//! What a line of the usage report stands for.
use vstd::prelude::*;
use crate::order::TextKey;
use crate::usage::{DatedEvent, UsageBucket, UsageByModel, UsageEvent, UsageTotals};

verus! {

/// Every row counts as a dictation; one that was measured adds its length and counts as measured,
/// one that was not adds nothing.
pub proof fn law_how_rows_add_up(durations: Seq<Option<i64>>, rows: Seq<usize>, row: usize)
    ensures
        crate::usage::milliseconds_of(durations, Seq::<usize>::empty()) == 0,
        crate::usage::measured_of(durations, Seq::<usize>::empty()) == 0,
        durations[row as int] matches Some(ms) ==> {
            &&& crate::usage::milliseconds_of(durations, rows.push(row))
                == crate::usage::milliseconds_of(durations, rows) + ms
            &&& crate::usage::measured_of(durations, rows.push(row)) == crate::usage::measured_of(
                durations,
                rows,
            ) + 1
        },
        durations[row as int] is None ==> {
            &&& crate::usage::milliseconds_of(durations, rows.push(row))
                == crate::usage::milliseconds_of(durations, rows)
            &&& crate::usage::measured_of(durations, rows.push(row)) == crate::usage::measured_of(
                durations,
                rows,
            )
        },
{
    assert(rows.push(row).drop_last() =~= rows);
}

/// What totals say of their rows: how many there are, how long the measured ones are together, and
/// how many were measured.
pub proof fn law_what_totals_say(
    totals: UsageTotals,
    durations: Seq<Option<i64>>,
    rows: Seq<usize>,
)
    requires
        crate::usage::totals_of(totals, durations, rows),
    ensures
        totals.members@ == rows,
        totals.dictations == rows.len(),
        totals.milliseconds == crate::usage::milliseconds_of(durations, rows),
        totals.measured == crate::usage::measured_of(durations, rows),
{
}

/// The totals of the whole ledger are those of all its rows, from the first to the last.
pub proof fn law_the_whole_is_every_row(n: int, i: int)
    requires
        0 <= i < n <= usize::MAX,
    ensures
        crate::usage::everything(n).len() == n,
        crate::usage::everything(n)[i] == i,
{
}

/// The lengths that are added up are those of the rows.
pub proof fn law_lengths_are_the_rows_own(events: Seq<UsageEvent>, dated: Seq<DatedEvent>, i: int)
    ensures
        crate::usage::durations_of(events).len() == events.len(),
        crate::usage::dated_durations(dated).len() == dated.len(),
        0 <= i < events.len() ==> crate::usage::durations_of(events)[i] == events[i].duration_ms,
        0 <= i < dated.len() ==> crate::usage::dated_durations(dated)[i] == dated[i].duration_ms,
{
}

proof fn lemma_members(groups: Seq<usize>, n: int, g: int)
    requires
        0 <= n <= groups.len(),
        n <= usize::MAX,
    ensures
        forall|k: int|
            0 <= k < crate::usage::members_of(groups, n, g).len() ==> {
                let row = #[trigger] crate::usage::members_of(groups, n, g)[k];
                row < n && groups[row as int] == g
            },
        forall|i: usize|
            i < n && (#[trigger] groups[i as int]) == g ==> crate::usage::members_of(
                groups,
                n,
                g,
            ).contains(i),
        forall|k: int, l: int|
            0 <= k < l < crate::usage::members_of(groups, n, g).len() ==> (
            #[trigger] crate::usage::members_of(groups, n, g)[k]) < (
            #[trigger] crate::usage::members_of(groups, n, g)[l]),
    decreases n,
{
    let after = crate::usage::members_of(groups, n, g);
    if n > 0 {
        let before = crate::usage::members_of(groups, n - 1, g);
        lemma_members(groups, n - 1, g);
        assert forall|k: int| 0 <= k < after.len() implies {
            let row = #[trigger] after[k];
            row < n && groups[row as int] == g
        } by {
            if k < before.len() {
                assert(after[k] == before[k]);
            }
        }
        assert forall|i: usize| i < n && (#[trigger] groups[i as int]) == g implies after.contains(
            i,
        ) by {
            if i < n - 1 {
                assert(before.contains(i));
                let k = choose|k: int| 0 <= k < before.len() && before[k] == i;
                assert(after[k] == i);
            } else {
                assert(after[before.len() as int] == i);
            }
        }
        assert forall|k: int, l: int| 0 <= k < l < after.len() implies (#[trigger] after[k]) < (
        #[trigger] after[l]) by {
            assert(after[k] == before[k]);
            if l < before.len() {
                assert(after[l] == before[l]);
            }
        }
    }
}

/// The model of a row, or what stands for a missing one.
pub open spec fn named(text: Option<String>) -> Seq<char> {
    match text {
        Some(s) => s@,
        None => "unknown"@,
    }
}

/// Whether two optional texts are both missing or the same.
pub open spec fn alike(a: Option<String>, b: Option<String>) -> bool {
    match (a, b) {
        (Some(x), Some(y)) => x@ == y@,
        (None, None) => true,
        _ => false,
    }
}

/// Whether some line has this row.
pub open spec fn has_a_line(per_model: Seq<UsageByModel>, row: usize) -> bool {
    exists|k: int|
        0 <= k < per_model.len() && (#[trigger] per_model[k]).totals.members@.contains(row)
}

/// The split by model gives every row to one line. A line has the rows of one model and engine, in
/// order, under their names; no other line has such rows. The longest use stands first.
#[verifier::rlimit(60)]
#[verifier::spinoff_prover]
pub proof fn law_every_row_is_in_its_models_line(
    events: Seq<UsageEvent>,
    per_model: Seq<UsageByModel>,
)
    requires
        events.len() <= usize::MAX,
        crate::usage::split_by_model(events, per_model),
    ensures
        forall|i: usize| i < events.len() ==> #[trigger] has_a_line(per_model, i),
        forall|k: int|
            0 <= k < per_model.len() ==> (#[trigger] per_model[k]).totals.members@.len() > 0,
        forall|k: int, m: int|
            0 <= k < per_model.len() && 0 <= m < per_model[k].totals.members@.len() ==> {
                let row = #[trigger] per_model[k].totals.members@[m];
                &&& row < events.len()
                &&& per_model[k].model_id@ == named(events[row as int].model_id)
                &&& per_model[k].engine@ == named(events[row as int].engine)
            },
        forall|k: int, a: int, b: int|
            0 <= k < per_model.len() && 0 <= a < b < per_model[k].totals.members@.len() ==> {
                let x = #[trigger] per_model[k].totals.members@[a];
                let y = #[trigger] per_model[k].totals.members@[b];
                &&& x < y
                &&& alike(events[x as int].model_id, events[y as int].model_id)
                &&& alike(events[x as int].engine, events[y as int].engine)
            },
        forall|k: int, l: int, a: int, b: int|
            0 <= k < l < per_model.len() && 0 <= a < per_model[k].totals.members@.len() && 0 <= b
                < per_model[l].totals.members@.len() ==> {
                let x = #[trigger] per_model[k].totals.members@[a];
                let y = #[trigger] per_model[l].totals.members@[b];
                !(alike(events[x as int].model_id, events[y as int].model_id) && alike(
                    events[x as int].engine,
                    events[y as int].engine,
                ))
            },
        forall|k: int, l: int|
            0 <= k < l < per_model.len() ==> (#[trigger] per_model[k]).totals.milliseconds >= (
            #[trigger] per_model[l]).totals.milliseconds,
        forall|k: int|
            0 <= k < per_model.len() ==> crate::usage::totals_of(
                (#[trigger] per_model[k]).totals,
                crate::usage::durations_of(events),
                per_model[k].totals.members@,
            ),
{
    let keys = crate::usage::model_keys(events);
    let n = events.len() as int;
    let (firsts, groups, order) = choose|
        firsts: Seq<usize>,
        groups: Seq<usize>,
        order: Seq<usize>,
    |
        #![trigger crate::usage::grouping(crate::usage::model_keys(events), events.len() as int, firsts, groups), crate::order::orders(crate::usage::group_lengths(crate::usage::durations_of(events), firsts, groups), firsts.len() as int, order)]
        {
            &&& crate::usage::grouping(
                crate::usage::model_keys(events),
                events.len() as int,
                firsts,
                groups,
            )
            &&& crate::order::orders(
                crate::usage::group_lengths(crate::usage::durations_of(events), firsts, groups),
                firsts.len() as int,
                order,
            )
            &&& per_model.len() == firsts.len()
            &&& forall|k: int|
                0 <= k < per_model.len() ==> crate::usage::model_line(
                    events,
                    groups,
                    order[k] as int,
                    events[firsts[order[k] as int] as int],
                    #[trigger] per_model[k],
                )
        };
    let lengths = crate::usage::group_lengths(crate::usage::durations_of(events), firsts, groups);
    assert forall|k: int| 0 <= k < per_model.len() implies (
    #[trigger] per_model[k]).totals.members@ == crate::usage::members_of(
        groups,
        n,
        order[k] as int,
    ) by {}
    assert forall|k: int| 0 <= k < per_model.len() implies (
    #[trigger] per_model[k]).totals.members@.len() > 0 by {
        let g = order[k] as int;
        lemma_members(groups, n, g);
        let first = firsts[g];
        assert(groups[first as int] == g);
        assert(per_model[k].totals.members@.contains(first));
    }
    assert forall|i: usize| i < events.len() implies #[trigger] has_a_line(per_model, i) by {
        let g = groups[i as int] as int;
        assert(crate::order::lists(order, g));
        let k = choose|a: int| 0 <= a < order.len() && order[a] == g;
        lemma_members(groups, n, g);
        assert(per_model[k].totals.members@.contains(i));
    }
    assert forall|k: int, m: int|
        0 <= k < per_model.len() && 0 <= m < per_model[k].totals.members@.len() implies {
        let row = #[trigger] per_model[k].totals.members@[m];
        &&& row < events.len()
        &&& groups[row as int] == order[k]
        &&& keys[row as int] == keys[firsts[order[k] as int] as int]
        &&& per_model[k].model_id@ == named(events[row as int].model_id)
        &&& per_model[k].engine@ == named(events[row as int].engine)
    } by {
        lemma_members(groups, n, order[k] as int);
        let row = per_model[k].totals.members@[m] as int;
        assert(groups[row] == order[k]);
        assert(keys[firsts[groups[row] as int] as int] == keys[row]);
        assert(keys[row] == crate::usage::model_key(events[row]));
        let first = firsts[order[k] as int] as int;
        assert(keys[first] == crate::usage::model_key(events[first]));
    }
    assert forall|k: int, a: int, b: int|
        0 <= k < per_model.len() && 0 <= a < b < per_model[k].totals.members@.len() implies {
        let x = #[trigger] per_model[k].totals.members@[a];
        let y = #[trigger] per_model[k].totals.members@[b];
        &&& x < y
        &&& alike(events[x as int].model_id, events[y as int].model_id)
        &&& alike(events[x as int].engine, events[y as int].engine)
    } by {
        lemma_members(groups, n, order[k] as int);
        let x = per_model[k].totals.members@[a] as int;
        let y = per_model[k].totals.members@[b] as int;
        assert(keys[x] == crate::usage::model_key(events[x]));
        assert(keys[y] == crate::usage::model_key(events[y]));
    }
    assert forall|k: int, l: int| 0 <= k < l < order.len() implies order[k] != order[l] by {
        assert(crate::order::ranks_before(lengths, order[k] as int, order[l] as int));
    }
    assert forall|k: int, l: int, a: int, b: int|
        0 <= k < l < per_model.len() && 0 <= a < per_model[k].totals.members@.len() && 0 <= b
            < per_model[l].totals.members@.len() implies {
        let x = #[trigger] per_model[k].totals.members@[a];
        let y = #[trigger] per_model[l].totals.members@[b];
        !(alike(events[x as int].model_id, events[y as int].model_id) && alike(
            events[x as int].engine,
            events[y as int].engine,
        ))
    } by {
        let x = per_model[k].totals.members@[a] as int;
        let y = per_model[l].totals.members@[b] as int;
        let g = order[k] as int;
        let h = order[l] as int;
        assert(g != h);
        assert(keys[firsts[g] as int] != keys[firsts[h] as int]);
        assert(keys[x] == crate::usage::model_key(events[x]));
        assert(keys[y] == crate::usage::model_key(events[y]));
    }
    assert forall|k: int, l: int| 0 <= k < l < per_model.len() implies (
    #[trigger] per_model[k]).totals.milliseconds >= (
    #[trigger] per_model[l]).totals.milliseconds by {
        assert(crate::order::ranks_before(lengths, order[k] as int, order[l] as int));
        assert(lengths[order[k] as int].value == per_model[k].totals.milliseconds);
        assert(lengths[order[l] as int].value == per_model[l].totals.milliseconds);
    }
}

proof fn lemma_recent(events: Seq<DatedEvent>, since: int)
    requires
        events.len() <= usize::MAX,
    ensures
        forall|k: int|
            0 <= k < crate::usage::recent(events, since).len() ==> {
                let row = #[trigger] crate::usage::recent(events, since)[k];
                row < events.len() && events[row as int].timestamp >= since
            },
        forall|i: usize|
            i < events.len() && (#[trigger] events[i as int]).timestamp >= since
                ==> crate::usage::recent(events, since).contains(i),
        forall|k: int, l: int|
            0 <= k < l < crate::usage::recent(events, since).len() ==> (
            #[trigger] crate::usage::recent(events, since)[k]) < (#[trigger] crate::usage::recent(
                events,
                since,
            )[l]),
    decreases events.len(),
{
    let after = crate::usage::recent(events, since);
    if events.len() > 0 {
        let rest = events.drop_last();
        let before = crate::usage::recent(rest, since);
        lemma_recent(rest, since);
        assert forall|k: int| 0 <= k < after.len() implies {
            let row = #[trigger] after[k];
            row < events.len() && events[row as int].timestamp >= since
        } by {
            if k < before.len() {
                assert(after[k] == before[k]);
                assert(rest[before[k] as int] == events[before[k] as int]);
            }
        }
        assert forall|i: usize|
            i < events.len() && (#[trigger] events[i as int]).timestamp
                >= since implies after.contains(i) by {
            if i < rest.len() {
                assert(rest[i as int] == events[i as int]);
                assert(before.contains(i));
                let k = choose|k: int| 0 <= k < before.len() && before[k] == i;
                assert(after[k] == i);
            } else {
                assert(after[before.len() as int] == i);
            }
        }
        assert forall|k: int, l: int| 0 <= k < l < after.len() implies (#[trigger] after[k]) < (
        #[trigger] after[l]) by {
            assert(after[k] == before[k]);
            if l < before.len() {
                assert(after[l] == before[l]);
            }
        }
    }
}

proof fn lemma_texts_are_ordered(a: Seq<char>, b: Seq<char>)
    ensures
        a == b || crate::order::text_before(a, b) || crate::order::text_before(b, a),
    decreases a.len(),
{
    if a.len() == 0 || b.len() == 0 {
        if a.len() == b.len() {
            assert(a =~= b);
        }
    } else if a[0] == b[0] {
        lemma_texts_are_ordered(a.drop_first(), b.drop_first());
        if a.drop_first() == b.drop_first() {
            assert(a =~= seq![a[0]] + a.drop_first());
            assert(b =~= seq![b[0]] + b.drop_first());
        }
    }
}

/// The buckets of a report give every row from the window to the bucket of its day or month. A
/// bucket has the rows of one day or month, in order, none of them older than the window; and
/// buckets stand in the order of their names, each name once.
#[verifier::rlimit(60)]
#[verifier::spinoff_prover]
pub proof fn law_every_recent_row_is_in_its_bucket(
    events: Seq<DatedEvent>,
    since: int,
    buckets: Seq<UsageBucket>,
)
    requires
        events.len() <= usize::MAX,
        crate::usage::split_by_period(events, since, buckets),
    ensures
        forall|i: usize|
            i < events.len() && (#[trigger] events[i as int]).timestamp >= since ==> exists|k: int|
                0 <= k < buckets.len() && (#[trigger] buckets[k]).totals.members@.contains(i),
        forall|k: int, m: int|
            0 <= k < buckets.len() && 0 <= m < buckets[k].totals.members@.len() ==> {
                let row = #[trigger] buckets[k].totals.members@[m];
                &&& row < events.len()
                &&& events[row as int].timestamp >= since
                &&& events[row as int].period@ == buckets[k].period@
            },
        forall|k: int, a: int, b: int|
            0 <= k < buckets.len() && 0 <= a < b < buckets[k].totals.members@.len() ==> (
            #[trigger] buckets[k].totals.members@[a]) < (#[trigger] buckets[k].totals.members@[b]),
        forall|k: int|
            0 <= k < buckets.len() ==> (#[trigger] buckets[k]).totals.members@.len() > 0,
        forall|k: int, l: int|
            0 <= k < l < buckets.len() ==> crate::order::text_before(
                (#[trigger] buckets[k]).period@,
                (#[trigger] buckets[l]).period@,
            ),
        forall|k: int|
            0 <= k < buckets.len() ==> crate::usage::totals_of(
                (#[trigger] buckets[k]).totals,
                crate::usage::dated_durations(events),
                buckets[k].totals.members@,
            ),
{
    let rows = crate::usage::recent(events, since);
    let n = rows.len() as int;
    lemma_recent(events, since);
    let names = crate::usage::periods_of(events, rows);
    let (firsts, groups, keys, order) = choose|
        firsts: Seq<usize>,
        groups: Seq<usize>,
        keys: Seq<TextKey>,
        order: Seq<usize>,
    |
        #![trigger crate::usage::grouping(crate::usage::periods_of(events, rows), rows.len() as int, firsts, groups), crate::order::orders(keys, firsts.len() as int, order)]
        {
            &&& crate::usage::grouping(
                crate::usage::periods_of(events, rows),
                rows.len() as int,
                firsts,
                groups,
            )
            &&& crate::usage::period_keys_match(events, rows, firsts, keys)
            &&& crate::order::orders(keys, firsts.len() as int, order)
            &&& buckets.len() == firsts.len()
            &&& forall|k: int|
                0 <= k < buckets.len() ==> crate::usage::bucket_of(
                    events,
                    rows,
                    groups,
                    order[k] as int,
                    events[rows[firsts[order[k] as int] as int] as int].period@,
                    #[trigger] buckets[k],
                )
        };
    lemma_short(events, since);
    assert forall|k: int| 0 <= k < buckets.len() implies (#[trigger] buckets[k]).totals.members@
        == crate::usage::rows_at(
        rows,
        crate::usage::members_of(groups, n, order[k] as int),
    ) by {}
    assert forall|i: usize|
        i < events.len() && (#[trigger] events[i as int]).timestamp >= since implies exists|k: int|
        0 <= k < buckets.len() && (#[trigger] buckets[k]).totals.members@.contains(i) by {
        assert(rows.contains(i));
        let at = choose|a: int| 0 <= a < rows.len() && rows[a] == i;
        let g = groups[at] as int;
        assert(crate::order::lists(order, g));
        let k = choose|a: int| 0 <= a < order.len() && order[a] == g;
        lemma_members(groups, n, g);
        let own = crate::usage::members_of(groups, n, g);
        let place = at as usize;
        assert(groups[place as int] == g);
        assert(own.contains(place));
        let m = choose|m: int| 0 <= m < own.len() && own[m] == place;
        assert(buckets[k].totals.members@[m] == i);
        assert(buckets[k].totals.members@.contains(i));
    }
    assert forall|k: int, m: int|
        0 <= k < buckets.len() && 0 <= m < buckets[k].totals.members@.len() implies {
        let row = #[trigger] buckets[k].totals.members@[m];
        &&& row < events.len()
        &&& events[row as int].timestamp >= since
        &&& events[row as int].period@ == buckets[k].period@
    } by {
        lemma_members(groups, n, order[k] as int);
        let own = crate::usage::members_of(groups, n, order[k] as int);
        let at = own[m] as int;
        assert(buckets[k].totals.members@[m] == rows[at]);
        assert(groups[at] == order[k]);
        assert(names[firsts[groups[at] as int] as int] == names[at]);
    }
    assert forall|k: int, a: int, b: int|
        0 <= k < buckets.len() && 0 <= a < b < buckets[k].totals.members@.len() implies (
    #[trigger] buckets[k].totals.members@[a]) < (#[trigger] buckets[k].totals.members@[b]) by {
        lemma_members(groups, n, order[k] as int);
        let own = crate::usage::members_of(groups, n, order[k] as int);
        assert(own[a] < own[b]);
        assert(buckets[k].totals.members@[a] == rows[own[a] as int]);
        assert(buckets[k].totals.members@[b] == rows[own[b] as int]);
    }
    assert forall|k: int| 0 <= k < buckets.len() implies (
    #[trigger] buckets[k]).totals.members@.len() > 0 by {
        let g = order[k] as int;
        lemma_members(groups, n, g);
        let first = firsts[g];
        assert(groups[first as int] == g);
        assert(crate::usage::members_of(groups, n, g).contains(first));
    }
    assert forall|k: int, l: int| 0 <= k < l < buckets.len() implies crate::order::text_before(
        (#[trigger] buckets[k]).period@,
        (#[trigger] buckets[l]).period@,
    ) by {
        let g = order[k] as int;
        let h = order[l] as int;
        assert(crate::order::ranks_before(keys, g, h));
        let x = keys[g].chars@;
        let y = keys[h].chars@;
        assert(names[firsts[g] as int] == x);
        assert(names[firsts[h] as int] == y);
        lemma_texts_are_ordered(x, y);
        if !crate::order::text_before(x, y) {
            assert(g < h);
            assert(names[firsts[g] as int] != names[firsts[h] as int]);
        }
    }
}

proof fn lemma_short(events: Seq<DatedEvent>, since: int)
    ensures
        crate::usage::recent(events, since).len() <= events.len(),
    decreases events.len(),
{
    if events.len() > 0 {
        lemma_short(events.drop_last(), since);
    }
}

} // verus!
