//! Where the debug bundles of dictations stand, and which of them go.
use vstd::prelude::*;
use crate::order::stable_order;
use crate::text::{copy_texts, decimal_text, parse_i64};

verus! {

/// A directory: where it is anchored (a root, a drive, or nothing for a relative one), and the
/// names on the way to it.
#[derive(Debug)]
pub struct DirPath {
    pub anchor: String,
    pub parts: Vec<String>,
}

/// The names on the way to the directory that holds the debug bundles.
pub open spec fn debug_parts(parts: Seq<Seq<char>>) -> Seq<Seq<char>> {
    let parent = if parts.len() > 0 {
        parts.drop_last()
    } else {
        parts
    };
    parent.push("debug"@)
}

/// The directory that holds the debug bundles: beside the one with the recordings. A directory
/// without a parent holds them itself.
pub fn debug_root(recordings_dir: &DirPath) -> (r: DirPath)
    ensures
        r.anchor == recordings_dir.anchor,
        crate::text::texts(r.parts@) == debug_parts(crate::text::texts(recordings_dir.parts@)),
{
    let mut parts = copy_texts(recordings_dir.parts.as_slice());
    if parts.len() > 0 {
        parts.pop();
    }
    parts.push("debug".to_owned());
    proof {
        assert(crate::text::texts(parts@) =~= debug_parts(
            crate::text::texts(recordings_dir.parts@),
        ));
    }
    DirPath { anchor: recordings_dir.anchor.clone(), parts }
}

/// The name of the bundle of a dictation.
pub fn bundle_name(timestamp: i64) -> (r: String)
    ensures
        r@ == crate::text::decimal(timestamp as int),
{
    decimal_text(timestamp)
}

/// The text of a bundle's `meta.json`, or why the metadata cannot be written down.
pub fn bundle_metadata(meta: &serde_json::Value) -> (r: Result<String, String>)
    ensures
        match r {
            Ok(s) => crate::json::pretty_text(crate::json::value_tree(*meta)) == Ok::<
                Seq<char>,
                Seq<char>,
            >(s@),
            Err(e) => crate::json::pretty_text(crate::json::value_tree(*meta)) == Err::<
                Seq<char>,
                Seq<char>,
            >(e@),
        },
{
    crate::json::value_to_string_pretty(meta)
}

/// The positions of the names that are timestamps: those are the bundles.
pub open spec fn bundles(names: Seq<Seq<char>>) -> Seq<int>
    decreases names.len(),
{
    if names.len() == 0 {
        Seq::empty()
    } else {
        let before = bundles(names.drop_last());
        if crate::text::parsed_i64(names.last()) is Some {
            before.push(names.len() - 1)
        } else {
            before
        }
    }
}

/// The timestamps of the bundles.
pub open spec fn bundle_times(names: Seq<Seq<char>>) -> Seq<i64> {
    bundles(names).map_values(|i: int| crate::text::parsed_i64(names[i])->Some_0 as i64)
}

/// How many bundles go.
pub open spec fn surplus(bundles: int, limit: int) -> int {
    if bundles > limit {
        bundles - limit
    } else {
        0
    }
}

/// Whether `removed` are the positions of the bundles that go: the oldest, as many as there are
/// over the limit, oldest first. Of bundles with the same timestamp the one listed first is older.
pub open spec fn oldest_surplus(names: Seq<Seq<char>>, limit: int, removed: Seq<usize>) -> bool {
    exists|order: Seq<usize>| #[trigger]
        crate::order::orders(bundle_times(names), bundles(names).len() as int, order)
            && removed.len() == surplus(bundles(names).len() as int, limit) && forall|k: int|
            0 <= k < removed.len() ==> (#[trigger] removed[k]) == bundles(names)[order[k] as int]
}

/// The positions of the bundles that go so that only the newest `limit` stay, oldest first. A
/// directory whose name is no timestamp is no bundle and stays.
pub fn prune(names: &[String], limit: usize) -> (r: Vec<usize>)
    ensures
        oldest_surplus(crate::text::texts(names@), limit as int, r@),
{
    let ghost all = crate::text::texts(names@);
    let mut positions: Vec<usize> = Vec::new();
    let mut times: Vec<i64> = Vec::new();
    let mut i: usize = 0;
    proof {
        assert(all.take(0) =~= Seq::empty());
    }
    while i < names.len()
        invariant
            i <= names@.len(),
            all == crate::text::texts(names@),
            positions@.len() == bundles(all.take(i as int)).len(),
            times@.len() == positions@.len(),
            forall|k: int|
                0 <= k < positions@.len() ==> {
                    &&& (#[trigger] positions@[k]) == bundles(all.take(i as int))[k]
                    &&& positions@[k] < i
                    &&& crate::text::parsed_i64(all[positions@[k] as int]) == Some(
                        times@[k] as int,
                    )
                },
        decreases names.len() - i,
    {
        proof {
            assert(all.take(i + 1).drop_last() =~= all.take(i as int));
            assert(all.take(i + 1).last() == names@[i as int]@);
        }
        match parse_i64(names[i].as_str()) {
            Some(time) => {
                positions.push(i);
                times.push(time);
            },
            None => {},
        }
        i += 1;
    }
    proof {
        assert(all.take(all.len() as int) =~= all);
        assert forall|k: int| 0 <= k < times@.len() implies times@[k] == bundle_times(all)[k] by {
            assert(positions@[k] == bundles(all)[k]);
        }
        assert(times@ =~= bundle_times(all));
    }
    let order = stable_order(&times);
    let count: usize = if positions.len() > limit {
        positions.len() - limit
    } else {
        0
    };
    let mut removed: Vec<usize> = Vec::new();
    let mut k: usize = 0;
    while k < count
        invariant
            k <= count <= positions@.len(),
            order@.len() == positions@.len(),
            positions@.len() == bundles(all).len(),
            forall|j: int| 0 <= j < order@.len() ==> (#[trigger] order@[j]) < positions@.len(),
            forall|j: int|
                0 <= j < positions@.len() ==> (#[trigger] positions@[j]) == bundles(all)[j],
            removed@.len() == k,
            forall|j: int|
                0 <= j < k ==> (#[trigger] removed@[j]) == bundles(all)[order@[j] as int],
        decreases count - k,
    {
        removed.push(positions[order[k]]);
        k += 1;
    }
    removed
}

/// A bundle's position names a timestamp.
proof fn lemma_bundles(names: Seq<Seq<char>>, k: int)
    requires
        0 <= k < bundles(names).len(),
    ensures
        0 <= bundles(names)[k] < names.len(),
        crate::text::parsed_i64(names[bundles(names)[k]]) is Some,
    decreases names.len(),
{
    let rest = names.drop_last();
    let before = bundles(rest);
    if k < before.len() {
        lemma_bundles(rest, k);
        assert(bundles(names)[k] == before[k]);
        assert(rest[before[k]] == names[before[k]]);
    }
}

/// Only bundles are removed, and no more than are over the limit.
pub proof fn law_only_bundles_are_removed(
    names: Seq<Seq<char>>,
    limit: int,
    removed: Seq<usize>,
    k: int,
)
    requires
        oldest_surplus(names, limit, removed),
        0 <= limit,
        0 <= k < removed.len(),
    ensures
        removed[k] < names.len(),
        crate::text::parsed_i64(names[removed[k] as int]) is Some,
        removed.len() == bundles(names).len() - limit,
{
    let order = choose|order: Seq<usize>| #[trigger]
        crate::order::orders(bundle_times(names), bundles(names).len() as int, order)
            && removed.len() == surplus(bundles(names).len() as int, limit) && forall|k: int|
            0 <= k < removed.len() ==> (#[trigger] removed[k]) == bundles(names)[order[k] as int];
    assert(removed[k] == bundles(names)[order[k] as int]);
    lemma_bundles(names, order[k] as int);
}

/// Every bundle that stays is at least as new as every one that goes.
pub proof fn law_the_newest_bundles_stay(
    names: Seq<Seq<char>>,
    limit: int,
    removed: Seq<usize>,
    gone: int,
    kept: int,
)
    requires
        oldest_surplus(names, limit, removed),
        0 <= limit,
        0 <= gone < removed.len(),
        0 <= kept < bundles(names).len(),
        !crate::order::lists(removed, bundles(names)[kept]),
    ensures
        crate::text::parsed_i64(names[removed[gone] as int])->Some_0 as i64
            <= bundle_times(names)[kept],
{
    let times = bundle_times(names);
    let n = bundles(names).len() as int;
    let order = choose|order: Seq<usize>| #[trigger]
        crate::order::orders(times, n, order) && removed.len() == surplus(n, limit) && forall|
            k: int,
        |
            0 <= k < removed.len() ==> (#[trigger] removed[k]) == bundles(names)[order[k] as int];
    assert(removed[gone] == bundles(names)[order[gone] as int]);
    assert(crate::order::lists(order, kept));
    let at = choose|a: int| 0 <= a < order.len() && order[a] == kept;
    if at < removed.len() {
        lemma_bundles(names, kept);
        assert(removed[at] == bundles(names)[kept]);
        assert(crate::order::lists(removed, bundles(names)[kept]));
    }
    assert(crate::order::ranks_before(times, order[gone] as int, order[at] as int));
    lemma_bundles(names, order[gone] as int);
}

/// Every bundle is recognised by the name that it was given.
pub proof fn law_a_bundle_is_known_by_its_name(names: Seq<Seq<char>>, timestamp: i64)
    ensures
        bundles(names.push(crate::text::decimal(timestamp as int))) == bundles(names).push(
            names.len() as int,
        ),
{
    crate::text::law_decimal_reads_back(timestamp);
    assert(names.push(crate::text::decimal(timestamp as int)).drop_last() =~= names);
}

/// The bundles stand in a directory named for it, beside the recordings' own.
pub proof fn law_bundles_stand_beside_the_recordings(parts: Seq<Seq<char>>, name: Seq<char>)
    ensures
        debug_parts(parts.push(name)) == parts.push("debug"@),
        debug_parts(Seq::<Seq<char>>::empty()) == seq!["debug"@],
{
    assert(parts.push(name).drop_last() =~= parts);
    assert(debug_parts(Seq::<Seq<char>>::empty()) =~= seq!["debug"@]);
}

proof fn lemma_bundles_ascend(names: Seq<Seq<char>>, a: int, b: int)
    requires
        0 <= a < b < bundles(names).len(),
    ensures
        bundles(names)[a] < bundles(names)[b],
    decreases names.len(),
{
    let rest = names.drop_last();
    let before = bundles(rest);
    assert(bundles(names)[a] == before[a]);
    lemma_bundles(rest, a);
    if b < before.len() {
        lemma_bundles_ascend(rest, a, b);
        assert(bundles(names)[b] == before[b]);
    }
}

proof fn lemma_bundles_miss_none(names: Seq<Seq<char>>, i: int) -> (k: int)
    requires
        0 <= i < names.len(),
        crate::text::parsed_i64(names[i]) is Some,
    ensures
        0 <= k < bundles(names).len(),
        bundles(names)[k] == i,
    decreases names.len(),
{
    let rest = names.drop_last();
    let before = bundles(rest);
    if i < rest.len() {
        let k = lemma_bundles_miss_none(rest, i);
        assert(bundles(names)[k] == before[k]);
        k
    } else {
        before.len() as int
    }
}

proof fn lemma_bundles_count(names: Seq<Seq<char>>)
    ensures
        bundles(names).len() == names.filter(
            |name: Seq<char>| crate::text::parsed_i64(name) is Some,
        ).len(),
    decreases names.len(),
{
    reveal(Seq::filter);
    if names.len() > 0 {
        lemma_bundles_count(names.drop_last());
    }
}

/// As many bundles go as there are over the limit, each once, oldest first, and none that is newer
/// than one that stays. Of two as old as each other the one listed first goes. What is named
/// otherwise than by a number stays.
pub proof fn law_which_bundles_go(names: Seq<Seq<char>>, limit: int, removed: Seq<usize>)
    requires
        names.len() <= usize::MAX,
        0 <= limit,
        oldest_surplus(names, limit, removed),
    ensures
        ({
            let count = names.filter(
                |name: Seq<char>| crate::text::parsed_i64(name) is Some,
            ).len();
            removed.len() == if count > limit {
                count - limit
            } else {
                0
            }
        }),
        forall|k: int|
            0 <= k < removed.len() ==> (#[trigger] removed[k]) < names.len()
                && crate::text::parsed_i64(names[removed[k] as int]) is Some,
        forall|k: int, l: int|
            0 <= k < l < removed.len() ==> removed[k] != removed[l] && crate::text::parsed_i64(
                names[#[trigger] removed[k] as int],
            )->0 <= crate::text::parsed_i64(names[#[trigger] removed[l] as int])->0,
        forall|k: int, i: usize|
            0 <= k < removed.len() && i < names.len() && crate::text::parsed_i64(
                #[trigger] names[i as int],
            ) is Some && !removed.contains(i) ==> {
                let gone = crate::text::parsed_i64(names[(#[trigger] removed[k]) as int])->0;
                let kept = crate::text::parsed_i64(names[i as int])->0;
                gone < kept || (gone == kept && removed[k] < i)
            },
{
    let times = bundle_times(names);
    let n = bundles(names).len() as int;
    lemma_bundles_count(names);
    let order = choose|order: Seq<usize>| #[trigger]
        crate::order::orders(times, n, order) && removed.len() == surplus(n, limit) && forall|
            k: int,
        |
            0 <= k < removed.len() ==> (#[trigger] removed[k]) == bundles(names)[order[k] as int];
    assert forall|k: int| 0 <= k < n implies crate::text::parsed_i64(
        names[#[trigger] bundles(names)[k]],
    ) == Some(times[k] as int) by {
        lemma_bundles(names, k);
        crate::text::law_what_reads_as_a_number(names[bundles(names)[k]]);
    }
    assert forall|k: int| 0 <= k < removed.len() implies (#[trigger] removed[k]) < names.len()
        && crate::text::parsed_i64(names[removed[k] as int]) is Some by {
        lemma_bundles(names, order[k] as int);
    }
    assert forall|k: int, l: int| 0 <= k < l < removed.len() implies removed[k] != removed[l]
        && crate::text::parsed_i64(names[#[trigger] removed[k] as int])->0
        <= crate::text::parsed_i64(names[#[trigger] removed[l] as int])->0 by {
        let a = order[k] as int;
        let b = order[l] as int;
        assert(crate::order::ranks_before(times, a, b));
        lemma_bundles(names, a);
        lemma_bundles(names, b);
        assert(removed[k] == bundles(names)[a] && removed[l] == bundles(names)[b]);
        if a < b {
            lemma_bundles_ascend(names, a, b);
        } else if b < a {
            lemma_bundles_ascend(names, b, a);
        }
    }
    assert forall|k: int, i: usize|
        0 <= k < removed.len() && i < names.len() && crate::text::parsed_i64(
            #[trigger] names[i as int],
        ) is Some && !removed.contains(i) implies {
        let gone = crate::text::parsed_i64(names[(#[trigger] removed[k]) as int])->0;
        let kept = crate::text::parsed_i64(names[i as int])->0;
        gone < kept || (gone == kept && removed[k] < i)
    } by {
        let kept = lemma_bundles_miss_none(names, i as int);
        let gone = order[k] as int;
        lemma_bundles(names, gone);
        assert(removed[k] == bundles(names)[gone]);
        assert(crate::order::lists(order, kept));
        let at = choose|a: int| 0 <= a < order.len() && order[a] == kept;
        if at < removed.len() {
            assert(removed[at] == bundles(names)[kept]);
            assert(removed.contains(i));
        }
        assert(crate::order::ranks_before(times, order[k] as int, order[at] as int));
        if gone < kept {
            lemma_bundles_ascend(names, gone, kept);
        }
    }
}

} // verus!
