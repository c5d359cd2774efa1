//! Stable ordering of a list by a key.
use vstd::prelude::*;

verus! {

/// A key by which things are put in order.
pub trait SortKey: Sized {
    /// Whether `self` stands strictly before `other`.
    spec fn before(self, other: Self) -> bool;

    /// Whether `self` stands strictly before `other`.
    fn precedes(&self, other: &Self) -> (r: bool)
        ensures
            r == self.before(*other),
    ;

    /// No two things stand before each other.
    proof fn asymmetric(a: Self, b: Self)
        requires
            a.before(b),
        ensures
            !b.before(a),
    ;

    /// What stands before a thing stands before all that does not stand before that thing.
    proof fn weakly_transitive(a: Self, b: Self, c: Self)
        requires
            a.before(b),
            !c.before(b),
        ensures
            a.before(c),
    ;
}

/// Smallest number first.
impl SortKey for i64 {
    open spec fn before(self, other: Self) -> bool {
        self < other
    }

    fn precedes(&self, other: &Self) -> (r: bool) {
        *self < *other
    }

    proof fn asymmetric(a: Self, b: Self) {
    }

    proof fn weakly_transitive(a: Self, b: Self, c: Self) {
    }
}

/// Greatest number first.
#[derive(Clone, Copy, Debug)]
pub struct Descending {
    pub value: i128,
}

impl SortKey for Descending {
    open spec fn before(self, other: Self) -> bool {
        self.value > other.value
    }

    fn precedes(&self, other: &Self) -> (r: bool) {
        self.value > other.value
    }

    proof fn asymmetric(a: Self, b: Self) {
    }

    proof fn weakly_transitive(a: Self, b: Self, c: Self) {
    }
}

/// Whether one text stands before another, character by character.
pub open spec fn text_before(a: Seq<char>, b: Seq<char>) -> bool
    decreases a.len(),
{
    if b.len() == 0 {
        false
    } else if a.len() == 0 {
        true
    } else if a[0] != b[0] {
        (a[0] as int) < b[0] as int
    } else {
        text_before(a.drop_first(), b.drop_first())
    }
}

proof fn lemma_text_before_asymmetric(a: Seq<char>, b: Seq<char>)
    requires
        text_before(a, b),
    ensures
        !text_before(b, a),
    decreases a.len(),
{
    if a.len() > 0 && a[0] == b[0] {
        lemma_text_before_asymmetric(a.drop_first(), b.drop_first());
    }
}

proof fn lemma_text_before_transitive(a: Seq<char>, b: Seq<char>, c: Seq<char>)
    requires
        text_before(a, b),
        !text_before(c, b),
    ensures
        text_before(a, c),
    decreases a.len(),
{
    if a.len() > 0 && c.len() > 0 && a[0] == b[0] && b[0] == c[0] {
        lemma_text_before_transitive(a.drop_first(), b.drop_first(), c.drop_first());
    }
}

/// Texts in the order of their characters.
#[derive(Debug)]
pub struct TextKey {
    pub chars: Vec<char>,
}

impl SortKey for TextKey {
    open spec fn before(self, other: Self) -> bool {
        text_before(self.chars@, other.chars@)
    }

    fn precedes(&self, other: &Self) -> (r: bool) {
        let n: usize = self.chars.len();
        let m: usize = other.chars.len();
        let mut i: usize = 0;
        proof {
            assert(self.chars@.skip(0) =~= self.chars@);
            assert(other.chars@.skip(0) =~= other.chars@);
        }
        while i < n && i < m
            invariant
                n == self.chars@.len(),
                m == other.chars@.len(),
                i <= n,
                i <= m,
                text_before(self.chars@, other.chars@) == text_before(
                    self.chars@.skip(i as int),
                    other.chars@.skip(i as int),
                ),
            decreases n - i,
        {
            proof {
                let a = self.chars@.skip(i as int);
                let b = other.chars@.skip(i as int);
                assert(a.drop_first() =~= self.chars@.skip(i + 1));
                assert(b.drop_first() =~= other.chars@.skip(i + 1));
            }
            let x: char = self.chars[i];
            let y: char = other.chars[i];
            if x != y {
                return x < y;
            }
            i += 1;
        }
        i < m
    }

    proof fn asymmetric(a: Self, b: Self) {
        lemma_text_before_asymmetric(a.chars@, b.chars@);
    }

    proof fn weakly_transitive(a: Self, b: Self, c: Self) {
        lemma_text_before_transitive(a.chars@, b.chars@, c.chars@);
    }
}

/// Whether position `i` of the keys stands before position `j`: by the key, then by the position.
pub open spec fn ranks_before<K: SortKey>(keys: Seq<K>, i: int, j: int) -> bool {
    keys[i].before(keys[j]) || (!keys[j].before(keys[i]) && i < j)
}

/// Whether position `i` is in the list.
pub open spec fn lists(order: Seq<usize>, i: int) -> bool {
    exists|a: int| 0 <= a < order.len() && order[a] == i
}

/// Whether `order` lists the first `n` positions of the keys, each once, in their order.
pub open spec fn orders<K: SortKey>(keys: Seq<K>, n: int, order: Seq<usize>) -> bool {
    &&& order.len() == n
    &&& forall|a: int| 0 <= a < order.len() ==> (#[trigger] order[a]) < n
    &&& forall|a: int, b: int|
        0 <= a < b < order.len() ==> #[trigger] ranks_before(
            keys,
            order[a] as int,
            order[b] as int,
        )
    &&& forall|i: int| 0 <= i < n ==> #[trigger] lists(order, i)
}

/// The positions of the keys in the order of the keys; equal keys keep their order.
pub fn stable_order<K: SortKey>(keys: &Vec<K>) -> (r: Vec<usize>)
    ensures
        orders(keys@, keys@.len() as int, r@),
{
    let mut order: Vec<usize> = Vec::new();
    let mut n: usize = 0;
    while n < keys.len()
        invariant
            n <= keys.len(),
            orders(keys@, n as int, order@),
        decreases keys.len() - n,
    {
        insert_position(keys, &mut order, n);
        n += 1;
    }
    order
}

/// Puts position `n` in its place among the positions before it.
fn insert_position<K: SortKey>(keys: &Vec<K>, order: &mut Vec<usize>, n: usize)
    requires
        n < keys@.len(),
        orders(keys@, n as int, old(order)@),
    ensures
        orders(keys@, n + 1, final(order)@),
{
    let mut at: usize = order.len();
    while at > 0 && keys[n].precedes(&keys[order[at - 1]])
        invariant
            n < keys@.len(),
            at <= order@.len(),
            order@ == old(order)@,
            orders(keys@, n as int, order@),
            forall|a: int|
                at <= a < order@.len() ==> keys@[n as int].before(
                    keys@[#[trigger] order@[a] as int],
                ),
        ensures
            at <= order@.len(),
            at > 0 ==> !keys@[n as int].before(keys@[order@[at - 1] as int]),
            forall|a: int|
                at <= a < order@.len() ==> keys@[n as int].before(
                    keys@[#[trigger] order@[a] as int],
                ),
        decreases at,
    {
        at -= 1;
    }
    let ghost before = order@;
    order.insert(at, n);
    proof {
        let after = order@;
        assert(after =~= before.insert(at as int, n));
        assert forall|a: int, b: int| 0 <= a < b < after.len() implies #[trigger] ranks_before(
            keys@,
            after[a] as int,
            after[b] as int,
        ) by {
            let old_a = if a < at { a } else { a - 1 };
            let old_b = if b < at { b } else { b - 1 };
            if a != at && b != at {
                assert(after[a] == before[old_a]);
                assert(after[b] == before[old_b]);
                assert(ranks_before(keys@, before[old_a] as int, before[old_b] as int));
            } else if a == at {
                assert(after[b] == before[b - 1]);
                assert(keys@[n as int].before(keys@[before[b - 1] as int]));
            } else {
                assert(after[a] == before[a]);
                lemma_stays_ahead(keys@, before, n as int, at as int, a);
            }
        }
        assert forall|i: int| 0 <= i < n + 1 implies #[trigger] lists(after, i) by {
            if i == n {
                assert(after[at as int] == n);
            } else {
                assert(lists(before, i));
                let a = choose|a: int| 0 <= a < before.len() && before[a] == i;
                if a < at {
                    assert(after[a] == i);
                } else {
                    assert(after[a + 1] == i);
                }
            }
        }
        assert forall|a: int| 0 <= a < after.len() implies (#[trigger] after[a]) < n + 1 by {
            if a < at {
                assert(after[a] == before[a]);
            } else if a > at {
                assert(after[a] == before[a - 1]);
            }
        }
    }
}

/// Whatever stands left of the place of `n` ranks before it.
proof fn lemma_stays_ahead<K: SortKey>(keys: Seq<K>, order: Seq<usize>, n: int, at: int, a: int)
    requires
        orders(keys, n, order),
        0 <= a < at <= order.len(),
        !keys[n].before(keys[order[at - 1] as int]),
    ensures
        ranks_before(keys, order[a] as int, n),
{
    let last = keys[order[at - 1] as int];
    let here = keys[order[a] as int];
    if keys[n].before(here) {
        if a < at - 1 {
            assert(ranks_before(keys, order[a] as int, order[at - 1] as int));
            if here.before(last) {
                K::asymmetric(here, last);
            }
            K::weakly_transitive(keys[n], here, last);
        }
        assert(false);
    }
}

/// An order of the keys is the only one.
pub proof fn law_order_is_unique<K: SortKey>(keys: Seq<K>, n: int, x: Seq<usize>, y: Seq<usize>)
    requires
        0 <= n <= keys.len(),
        orders(keys, n, x),
        orders(keys, n, y),
    ensures
        x == y,
{
    assert forall|k: int| 0 <= k < n implies x[k] == y[k] by {
        lemma_same_at(keys, n, x, y, k);
    }
    assert(x =~= y);
}

proof fn lemma_ranking_is_strict<K: SortKey>(keys: Seq<K>, i: int, j: int)
    requires
        ranks_before(keys, i, j),
    ensures
        !ranks_before(keys, j, i),
{
    if keys[i].before(keys[j]) {
        K::asymmetric(keys[i], keys[j]);
    }
}

proof fn lemma_same_at<K: SortKey>(keys: Seq<K>, n: int, x: Seq<usize>, y: Seq<usize>, k: int)
    requires
        0 <= n <= keys.len(),
        orders(keys, n, x),
        orders(keys, n, y),
        0 <= k < n,
    ensures
        x[k] == y[k],
    decreases k,
{
    assert forall|m: int| 0 <= m < k implies x[m] == y[m] by {
        lemma_same_at(keys, n, x, y, m);
    }
    if x[k] != y[k] {
        assert(lists(y, x[k] as int));
        assert(lists(x, y[k] as int));
        let b = choose|b: int| 0 <= b < y.len() && y[b] == x[k] as int;
        let a = choose|a: int| 0 <= a < x.len() && x[a] == y[k] as int;
        if b < k {
            assert(x[b] == x[k]);
            assert(ranks_before(keys, x[b] as int, x[k] as int));
            lemma_ranking_is_strict(keys, x[b] as int, x[k] as int);
        } else if a < k {
            assert(y[a] == y[k]);
            assert(ranks_before(keys, y[a] as int, y[k] as int));
            lemma_ranking_is_strict(keys, y[a] as int, y[k] as int);
        } else {
            assert(ranks_before(keys, x[k] as int, x[a] as int));
            assert(ranks_before(keys, y[k] as int, y[b] as int));
            lemma_ranking_is_strict(keys, x[k] as int, y[k] as int);
        }
    }
}

/// Whether two texts agree up to `k`, and there the first is at its end or has the lower character.
pub open spec fn lower_at(a: Seq<char>, b: Seq<char>, k: int) -> bool {
    &&& 0 <= k <= a.len()
    &&& k < b.len()
    &&& forall|i: int| 0 <= i < k ==> (#[trigger] a[i]) == b[i]
    &&& k == a.len() || (a[k] as int) < b[k] as int
}

/// One text stands before another exactly if the first place where they differ says so.
pub proof fn law_the_first_difference_decides(a: Seq<char>, b: Seq<char>)
    ensures
        text_before(a, b) <==> exists|k: int| lower_at(a, b, k),
    decreases a.len(),
{
    if b.len() == 0 {
    } else if a.len() == 0 {
        assert(lower_at(a, b, 0));
    } else if a[0] != b[0] {
        if text_before(a, b) {
            assert(lower_at(a, b, 0));
        }
        if exists|k: int| lower_at(a, b, k) {
            let k = choose|k: int| lower_at(a, b, k);
            if k > 0 {
                assert(a[0] == b[0]);
            }
        }
    } else {
        let x = a.drop_first();
        let y = b.drop_first();
        law_the_first_difference_decides(x, y);
        if exists|k: int| lower_at(x, y, k) {
            let k = choose|k: int| lower_at(x, y, k);
            assert forall|i: int| 0 <= i < k + 1 implies (#[trigger] a[i]) == b[i] by {
                if i > 0 {
                    assert(x[i - 1] == y[i - 1]);
                }
            }
            assert(lower_at(a, b, k + 1));
        }
        if exists|k: int| lower_at(a, b, k) {
            let k = choose|k: int| lower_at(a, b, k);
            assert(k > 0);
            assert forall|i: int| 0 <= i < k - 1 implies (#[trigger] x[i]) == y[i] by {
                assert(a[i + 1] == b[i + 1]);
            }
            assert(lower_at(x, y, k - 1));
        }
    }
}

/// Numbers stand smallest first, or greatest first where that is asked for, and texts by their
/// characters.
pub proof fn law_how_keys_compare(
    a: i64,
    b: i64,
    high: Descending,
    low: Descending,
    x: TextKey,
    y: TextKey,
)
    ensures
        a.before(b) <==> a < b,
        high.before(low) <==> high.value > low.value,
        x.before(y) <==> exists|k: int| lower_at(x.chars@, y.chars@, k),
{
    law_the_first_difference_decides(x.chars@, y.chars@);
}

} // verus!
