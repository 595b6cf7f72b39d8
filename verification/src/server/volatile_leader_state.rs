use std::collections::HashMap;

use vstd::prelude::*;
use vstd::std_specs::iter::IteratorSpec;

use crate::domain::node_id::NodeId;

verus! {

broadcast use vstd::std_specs::hash::group_hash_axioms;

/// The members of `keys` that `m` maps to `v`.
pub open spec fn keys_with_value(keys: Set<u128>, m: Map<u128, usize>, v: usize) -> Set<u128> {
    keys.filter(|k: u128| m[k] == v)
}

/// The number of keys of `m` that map to `v`.
pub open spec fn count_with_value(m: Map<u128, usize>, v: usize) -> nat {
    keys_with_value(m.dom(), m, v).len()
}

/// The values that `m` gives the keys of `ks`, in the order of `ks`.
pub open spec fn values_along(ks: Seq<u128>, m: Map<u128, usize>) -> Seq<usize> {
    ks.map_values(|k: u128| m[k])
}

/// `s` is in ascending order.
pub open spec fn ascending(s: Seq<usize>) -> bool {
    forall|i: int, j: int| 0 <= i <= j < s.len() ==> s[i] <= s[j]
}

/// `s` holds the values of `m`, each as often as keys map to it, in ascending order.
pub open spec fn sorted_values_of(s: Seq<usize>, m: Map<u128, usize>) -> bool {
    &&& ascending(s)
    &&& s.len() == m.dom().len()
    &&& forall|v: usize| #[trigger] s.to_multiset().count(v) == count_with_value(m, v)
}

/// The value at the middle position (`len / 2`) of the ascending values of `m`.
pub open spec fn median_value(m: Map<u128, usize>) -> usize {
    (choose|s: Seq<usize>| sorted_values_of(s, m))[(m.dom().len() / 2) as int]
}

/// The highest log index that the next indices in `m` let a leader commit:
/// none when `m` is empty, else one less than the middle value, at least 0.
pub open spec fn committable_index_spec(m: Map<u128, usize>) -> Option<usize> {
    if m.dom().len() == 0 {
        None
    } else if median_value(m) >= 1 {
        Some((median_value(m) - 1) as usize)
    } else {
        Some(0usize)
    }
}

/// The values of a map, in ascending order, form exactly one sequence.
pub proof fn lemma_sorted_values_unique(s1: Seq<usize>, s2: Seq<usize>, m: Map<u128, usize>)
    requires
        sorted_values_of(s1, m),
        sorted_values_of(s2, m),
    ensures
        s1 == s2,
{
    let leq = |a: usize, b: usize| a <= b;
    assert(s1.to_multiset() =~= s2.to_multiset());
    assert(vstd::relations::total_ordering(leq));
    assert(vstd::relations::sorted_by(s1, leq));
    assert(vstd::relations::sorted_by(s2, leq));
    vstd::seq_lib::lemma_sorted_unique(s1, s2, leq);
}

/// The keys of `keys` whose value in `m` satisfies `p`.
pub open spec fn keys_where(keys: Set<u128>, m: Map<u128, usize>, p: spec_fn(usize) -> bool) -> Set<u128> {
    keys.filter(|k: u128| p(m[k]))
}

/// Holds of the values that are at least `v`.
pub open spec fn at_least(v: usize) -> spec_fn(usize) -> bool {
    |x: usize| x >= v
}

/// Holds of the values that are at most `v`.
pub open spec fn at_most(v: usize) -> spec_fn(usize) -> bool {
    |x: usize| x <= v
}

proof fn lemma_to_seq_enumerates(s: Set<u128>)
    requires
        s.finite(),
    ensures
        s.to_seq().no_duplicates(),
        s.to_seq().to_set() == s,
    decreases s.len(),
{
    s.lemma_to_seq_to_set_id();
    if s.len() != 0 {
        let x = s.choose();
        let rest = s.remove(x);
        lemma_to_seq_enumerates(rest);
        assert(s.to_seq() == Seq::<u128>::empty().push(x) + rest.to_seq());
        assert(!rest.to_seq().contains(x)) by {
            if rest.to_seq().contains(x) {
                assert(rest.to_seq().to_set().contains(x));
            }
        }
        let q = s.to_seq();
        assert forall|i: int, j: int| 0 <= i < q.len() && 0 <= j < q.len() && i != j implies q[i]
            != q[j] by {
            if i == 0 && j > 0 {
                assert(q[j] == rest.to_seq()[j - 1]);
            } else if j == 0 && i > 0 {
                assert(q[i] == rest.to_seq()[i - 1]);
            } else if i > 0 && j > 0 {
                assert(q[i] == rest.to_seq()[i - 1]);
                assert(q[j] == rest.to_seq()[j - 1]);
            }
        }
    }
}

proof fn lemma_filter_values_along(ks: Seq<u128>, m: Map<u128, usize>, p: spec_fn(usize) -> bool)
    requires
        ks.no_duplicates(),
    ensures
        values_along(ks, m).filter(p).len() == keys_where(ks.to_set(), m, p).len(),
    decreases ks.len(),
{
    broadcast use vstd::seq_lib::seq_to_set_is_finite;

    if ks.len() == 0 {
        assert(ks.to_set() =~= Set::<u128>::empty());
        assert(keys_where(ks.to_set(), m, p) =~= Set::<u128>::empty());
        assert(values_along(ks, m) =~= Seq::<usize>::empty());
        reveal(Seq::filter);
    } else {
        let ks0 = ks.drop_last();
        let k = ks.last();
        lemma_filter_values_along(ks0, m, p);
        assert(ks =~= ks0.push(k));
        assert(values_along(ks, m) =~= values_along(ks0, m).push(m[k]));
        values_along(ks0, m).lemma_filter_len_push(p, m[k]);
        assert(ks.to_set() =~= ks0.to_set().insert(k)) by {
            ks0.lemma_push_to_set_commute(k);
        }
        assert(!ks0.to_set().contains(k)) by {
            if ks0.to_set().contains(k) {
                let i = choose|i: int| 0 <= i < ks0.len() && ks0[i] == k;
                assert(ks[i] == ks[ks.len() - 1]);
            }
        }
        if p(m[k]) {
            assert(keys_where(ks.to_set(), m, p) =~= keys_where(ks0.to_set(), m, p).insert(k));
        } else {
            assert(keys_where(ks.to_set(), m, p) =~= keys_where(ks0.to_set(), m, p));
        }
    }
}

proof fn lemma_filter_len_of_permutation(a: Seq<usize>, b: Seq<usize>, p: spec_fn(usize) -> bool)
    requires
        a.to_multiset() == b.to_multiset(),
    ensures
        a.filter(p).len() == b.filter(p).len(),
    decreases a.len(),
{
    broadcast use vstd::seq_lib::group_to_multiset_ensures;
    broadcast use vstd::multiset::group_multiset_axioms;

    if a.len() == 0 {
        vstd::seq_lib::to_multiset_len(a);
        vstd::seq_lib::to_multiset_len(b);
        assert(b.len() == 0);
        assert(a =~= b);
    } else {
        let x = a.last();
        let a0 = a.drop_last();
        assert(a =~= a0.push(x));
        assert(a.to_multiset().count(x) > 0);
        assert(b.to_multiset().contains(x));
        let j = choose|j: int| 0 <= j < b.len() && b[j] == x;
        let b0 = b.remove(j);
        vstd::seq_lib::to_multiset_remove(b, j);
        vstd::seq_lib::to_multiset_build(a0, x);
        assert(a0.to_multiset() =~= b0.to_multiset());
        lemma_filter_len_of_permutation(a0, b0, p);
        a0.lemma_filter_len_push(p, x);
        let left = b.subrange(0, j);
        let right = b.subrange(j + 1, b.len() as int);
        assert(b0 =~= left + right);
        assert(b =~= left + (Seq::<usize>::empty().push(x) + right));
        Seq::filter_distributes_over_add(left, right, p);
        Seq::filter_distributes_over_add(left, Seq::<usize>::empty().push(x) + right, p);
        Seq::filter_distributes_over_add(Seq::<usize>::empty().push(x), right, p);
        Seq::<usize>::empty().lemma_filter_len_push(p, x);
        reveal(Seq::filter);
        assert(Seq::<usize>::empty().filter(p) =~= Seq::<usize>::empty());
    }
}

proof fn lemma_sorted_filter_counts(s: Seq<usize>, mid: int)
    requires
        ascending(s),
        0 <= mid < s.len(),
    ensures
        s.filter(at_least(s[mid])).len() >= s.len() - mid,
        s.filter(at_most(s[mid])).len() >= mid + 1,
{
    let lo = s.subrange(0, mid + 1);
    let hi = s.subrange(mid, s.len() as int);
    let before = s.subrange(0, mid);
    let after = s.subrange(mid + 1, s.len() as int);
    assert(s =~= before + hi);
    assert(s =~= lo + after);
    Seq::filter_distributes_over_add(before, hi, at_least(s[mid]));
    Seq::filter_distributes_over_add(lo, after, at_most(s[mid]));
    lemma_filter_keeps_all(hi, at_least(s[mid]));
    lemma_filter_keeps_all(lo, at_most(s[mid]));
}

proof fn lemma_filter_keeps_all(s: Seq<usize>, p: spec_fn(usize) -> bool)
    requires
        forall|i: int| 0 <= i < s.len() ==> #[trigger] p(s[i]),
    ensures
        s.filter(p).len() == s.len(),
    decreases s.len(),
{
    if s.len() > 0 {
        let s0 = s.drop_last();
        assert(s =~= s0.push(s.last()));
        assert forall|i: int| 0 <= i < s0.len() implies #[trigger] p(s0[i]) by {
            assert(p(s[i]));
        }
        lemma_filter_keeps_all(s0, p);
        s0.lemma_filter_len_push(p, s.last());
        assert(p(s[s.len() - 1]));
    } else {
        reveal(Seq::filter);
    }
}

/// The values of a finite map can be put in ascending order.
pub proof fn lemma_sorted_values_exist(m: Map<u128, usize>)
    requires
        m.dom().finite(),
    ensures
        exists|s: Seq<usize>| sorted_values_of(s, m),
{
    let ks = m.dom().to_seq();
    lemma_to_seq_enumerates(m.dom());
    let vals = values_along(ks, m);
    let leq = |a: usize, b: usize| a <= b;
    vals.lemma_sort_by_ensures(leq);
    let sorted = vals.sort_by(leq);
    assert forall|v: usize| #[trigger] sorted.to_multiset().count(v) == count_with_value(m, v) by {
        lemma_count_values(ks, m, v);
    }
    ks.unique_seq_to_set();
    vstd::seq_lib::to_multiset_len(vals);
    vstd::seq_lib::to_multiset_len(sorted);
    assert(ascending(sorted)) by {
        assert forall|i: int, j: int| 0 <= i <= j < sorted.len() implies sorted[i] <= sorted[j] by {
            if i < j {
                assert(leq(sorted[i], sorted[j]));
            }
        }
    }
    assert(sorted_values_of(sorted, m));
}

/// The middle value of a leader's next indices is covered by a majority: at
/// least half of the followers (rounded up) have a next index at least that
/// large, and more than half have one at most that large.
pub proof fn lemma_median_is_covered_by_a_majority(m: Map<u128, usize>)
    requires
        m.dom().finite(),
        m.dom().len() > 0,
    ensures
        keys_where(m.dom(), m, at_least(median_value(m))).len() >= m.dom().len() - m.dom().len() / 2,
        keys_where(m.dom(), m, at_most(median_value(m))).len() >= m.dom().len() / 2 + 1,
{
    lemma_sorted_values_exist(m);
    let s = choose|s: Seq<usize>| sorted_values_of(s, m);
    let n = m.dom().len();
    let ks = m.dom().to_seq();
    lemma_to_seq_enumerates(m.dom());
    let vals = values_along(ks, m);
    assert forall|v: usize| #[trigger] vals.to_multiset().count(v) == count_with_value(m, v) by {
        lemma_count_values(ks, m, v);
    }
    assert(vals.to_multiset() =~= s.to_multiset());
    let med = median_value(m);
    assert(med == s[(n / 2) as int]);
    lemma_sorted_filter_counts(s, (n / 2) as int);
    lemma_filter_len_of_permutation(s, vals, at_least(med));
    lemma_filter_len_of_permutation(s, vals, at_most(med));
    lemma_filter_values_along(ks, m, at_least(med));
    lemma_filter_values_along(ks, m, at_most(med));
}

proof fn lemma_filter_drops_all(s: Seq<usize>, p: spec_fn(usize) -> bool)
    requires
        forall|i: int| 0 <= i < s.len() ==> !#[trigger] p(s[i]),
    ensures
        s.filter(p).len() == 0,
    decreases s.len(),
{
    if s.len() > 0 {
        let s0 = s.drop_last();
        assert(s =~= s0.push(s.last()));
        assert forall|i: int| 0 <= i < s0.len() implies !#[trigger] p(s0[i]) by {
            assert(!p(s[i]));
        }
        lemma_filter_drops_all(s0, p);
        s0.lemma_filter_len_push(p, s.last());
        assert(!p(s[s.len() - 1]));
    } else {
        reveal(Seq::filter);
    }
}

/// When at least `len - len / 2` keys of `m` map to `v` or more, so does the
/// middle position of its ascending values.
proof fn lemma_median_reaches(m: Map<u128, usize>, v: usize)
    requires
        m.dom().finite(),
        m.dom().len() > 0,
        keys_where(m.dom(), m, at_least(v)).len() >= m.dom().len() - m.dom().len() / 2,
    ensures
        median_value(m) >= v,
{
    lemma_sorted_values_exist(m);
    let s = choose|s: Seq<usize>| sorted_values_of(s, m);
    let n = m.dom().len();
    let mid = (n / 2) as int;
    let ks = m.dom().to_seq();
    lemma_to_seq_enumerates(m.dom());
    let vals = values_along(ks, m);
    assert forall|x: usize| #[trigger] vals.to_multiset().count(x) == count_with_value(m, x) by {
        lemma_count_values(ks, m, x);
    }
    assert(vals.to_multiset() =~= s.to_multiset());
    lemma_filter_len_of_permutation(s, vals, at_least(v));
    lemma_filter_values_along(ks, m, at_least(v));
    if s[mid] < v {
        let lo = s.subrange(0, mid + 1);
        let after = s.subrange(mid + 1, s.len() as int);
        assert(s =~= lo + after);
        Seq::filter_distributes_over_add(lo, after, at_least(v));
        assert forall|i: int| 0 <= i < lo.len() implies !#[trigger] at_least(v)(lo[i]) by {
            assert(s[i] <= s[mid]);
        }
        lemma_filter_drops_all(lo, at_least(v));
        after.lemma_filter_len(at_least(v));
        assert(false);
    }
}

/// Raising the next index of one follower never lowers the committable index.
pub proof fn lemma_committable_index_is_monotonic(m: Map<u128, usize>, k: u128, j: usize)
    requires
        m.dom().finite(),
        m.contains_key(k),
        j >= m[k],
    ensures
        committable_index_spec(m) matches Some(before) && committable_index_spec(m.insert(k, j))
            matches Some(after) && before <= after,
{
    let m2 = m.insert(k, j);
    assert(m2.dom() =~= m.dom());
    let v = median_value(m);
    lemma_median_is_covered_by_a_majority(m);
    let low = keys_where(m.dom(), m, at_least(v));
    let high = keys_where(m2.dom(), m2, at_least(v));
    assert(low.subset_of(high));
    m2.dom().lemma_len_filter(|key: u128| at_least(v)(m2[key]));
    vstd::set_lib::lemma_len_subset(low, high);
    lemma_median_reaches(m2, v);
}

/// Raising the next index of one follower never lowers the committable index:
/// `after` is `before` with the next index of `id` raised to `j`, as
/// `set_next_index` leaves it.
pub proof fn lemma_raising_a_next_index_never_lowers_the_committable_index(
    before: &VolatileLeaderState,
    after: &VolatileLeaderState,
    id: NodeId,
    j: usize,
)
    requires
        before.next_indices_spec().contains_key(id.bits()),
        j >= before.next_indices_spec()[id.bits()],
        after.next_indices_spec() == before.next_indices_spec().insert(id.bits(), j),
    ensures
        committable_index_spec(before.next_indices_spec()) matches Some(low)
            && committable_index_spec(after.next_indices_spec()) matches Some(high) && low <= high,
{
    before.lemma_tracks_finitely_many();
    lemma_committable_index_is_monotonic(before.next_indices_spec(), id.bits(), j);
}

/// Holds of the values below `v`.
pub open spec fn below(v: usize) -> spec_fn(usize) -> bool {
    |x: usize| x < v
}

/// The keys whose value is below `w` and those whose value is at least `w`
/// together are all the keys, each counted once.
proof fn lemma_below_and_at_least_partition(m: Map<u128, usize>, w: usize)
    requires
        m.dom().finite(),
    ensures
        keys_where(m.dom(), m, below(w)).len() + keys_where(m.dom(), m, at_least(w)).len() == m.dom().len(),
        keys_where(m.dom(), m, below(w)).finite(),
        keys_where(m.dom(), m, at_least(w)).finite(),
        keys_where(m.dom(), m, at_most(w)).finite(),
{
    let lo = keys_where(m.dom(), m, below(w));
    let hi = keys_where(m.dom(), m, at_least(w));
    m.dom().lemma_len_filter(|k: u128| below(w)(m[k]));
    m.dom().lemma_len_filter(|k: u128| at_least(w)(m[k]));
    m.dom().lemma_len_filter(|k: u128| at_most(w)(m[k]));
    assert(lo.disjoint(hi));
    vstd::set_lib::lemma_set_disjoint_lens(lo, hi);
    assert(lo + hi =~= m.dom());
}

/// The committable index is fixed by the middle order statistic of the next
/// indices, for every number of followers: when at most half of the followers
/// (rounded down) have a next index below `v`, and more than half have one at
/// most `v`, the committable index is one less than `v` (0 when `v` is 0).
pub proof fn lemma_committable_index_is_set_by_the_middle_value(m: Map<u128, usize>, v: usize)
    requires
        m.dom().finite(),
        m.dom().len() > 0,
        keys_where(m.dom(), m, below(v)).len() <= m.dom().len() / 2,
        keys_where(m.dom(), m, at_most(v)).len() > m.dom().len() / 2,
    ensures
        committable_index_spec(m) == Some(if v >= 1 {
            (v - 1) as usize
        } else {
            0usize
        }),
{
    let med = median_value(m);
    lemma_median_is_covered_by_a_majority(m);
    lemma_below_and_at_least_partition(m, med);
    lemma_below_and_at_least_partition(m, v);
    if v < med {
        assert(keys_where(m.dom(), m, at_most(v)).subset_of(keys_where(m.dom(), m, below(med))));
        vstd::set_lib::lemma_len_subset(
            keys_where(m.dom(), m, at_most(v)),
            keys_where(m.dom(), m, below(med)),
        );
        assert(false);
    } else if v > med {
        assert(keys_where(m.dom(), m, at_most(med)).subset_of(keys_where(m.dom(), m, below(v))));
        vstd::set_lib::lemma_len_subset(
            keys_where(m.dom(), m, at_most(med)),
            keys_where(m.dom(), m, below(v)),
        );
        assert(false);
    }
}

/// When every follower has the same next index `k`, the committable index is
/// `k - 1` (0 when `k` is 0), however many followers there are.
pub proof fn lemma_committable_index_of_equal_next_indices(m: Map<u128, usize>, k: usize)
    requires
        m.dom().finite(),
        m.dom().len() > 0,
        forall|key: u128| #[trigger] m.contains_key(key) ==> m[key] == k,
    ensures
        committable_index_spec(m) == Some(if k >= 1 {
            (k - 1) as usize
        } else {
            0usize
        }),
{
    assert(keys_where(m.dom(), m, below(k)) =~= Set::<u128>::empty());
    assert(keys_where(m.dom(), m, at_most(k)) =~= m.dom());
    lemma_committable_index_is_set_by_the_middle_value(m, k);
}

proof fn lemma_count_values(ks: Seq<u128>, m: Map<u128, usize>, v: usize)
    requires
        ks.no_duplicates(),
    ensures
        values_along(ks, m).to_multiset().count(v) == keys_with_value(ks.to_set(), m, v).len(),
    decreases ks.len(),
{
    broadcast use vstd::seq_lib::group_to_multiset_ensures;
    broadcast use vstd::seq_lib::seq_to_set_is_finite;

    if ks.len() == 0 {
        assert(ks.to_set() =~= Set::<u128>::empty());
        assert(keys_with_value(ks.to_set(), m, v) =~= Set::<u128>::empty());
        assert(values_along(ks, m) =~= Seq::<usize>::empty());
    } else {
        let ks0 = ks.drop_last();
        let k = ks.last();
        lemma_count_values(ks0, m, v);
        assert(ks =~= ks0.push(k));
        assert(values_along(ks, m) =~= values_along(ks0, m).push(m[k]));
        assert(ks.to_set() =~= ks0.to_set().insert(k)) by {
            ks0.lemma_push_to_set_commute(k);
        }
        assert(!ks0.to_set().contains(k)) by {
            if ks0.to_set().contains(k) {
                let i = choose|i: int| 0 <= i < ks0.len() && ks0[i] == k;
                assert(ks[i] == ks[ks.len() - 1]);
            }
        }
        if m[k] == v {
            assert(keys_with_value(ks.to_set(), m, v) =~= keys_with_value(ks0.to_set(), m, v).insert(k));
        } else {
            assert(keys_with_value(ks.to_set(), m, v) =~= keys_with_value(ks0.to_set(), m, v));
        }
    }
}

/// The elements of `v` in ascending order.
fn sort_ascending(v: &Vec<usize>) -> (out: Vec<usize>)
    ensures
        ascending(out@),
        out@.len() == v@.len(),
        out@.to_multiset() == v@.to_multiset(),
{
    broadcast use vstd::seq_lib::group_to_multiset_ensures;

    let mut out: Vec<usize> = Vec::new();
    let mut i: usize = 0;
    while i < v.len()
        invariant
            i <= v@.len(),
            out@.len() == i,
            ascending(out@),
            out@.to_multiset() == v@.subrange(0, i as int).to_multiset(),
        decreases v@.len() - i,
    {
        let x = v[i];
        let mut pos: usize = 0;
        while pos < out.len() && out[pos] <= x
            invariant
                pos <= out@.len(),
                forall|j: int| 0 <= j < pos ==> out@[j] <= x,
            decreases out@.len() - pos,
        {
            pos = pos + 1;
        }
        let ghost before = out@;
        out.insert(pos, x);
        assert(ascending(out@)) by {
            assert forall|a: int, b: int| 0 <= a <= b < out@.len() implies out@[a] <= out@[b] by {
                if a < pos && b > pos {
                    assert(out@[b] == before[b - 1]);
                } else if a == pos && b > pos {
                    assert(pos < before.len());
                    assert(before[pos as int] > x);
                    assert(out@[b] == before[b - 1]);
                } else if a > pos {
                    assert(out@[a] == before[a - 1]);
                    assert(out@[b] == before[b - 1]);
                }
            }
        }
        proof {
            vstd::seq_lib::to_multiset_insert(before, pos as int, x);
            vstd::seq_lib::to_multiset_build(v@.subrange(0, i as int), x);
            assert(v@.subrange(0, i + 1) =~= v@.subrange(0, i as int).push(x));
            assert(out@.to_multiset() == before.to_multiset().insert(x));
        }
        i = i + 1;
    }
    assert(v@.subrange(0, v@.len() as int) =~= v@);
    out
}

/// The values of `m`, one per key, in the order in which its keys are visited.
fn collect_values(m: &HashMap<u128, usize>) -> (vals: Vec<usize>)
    ensures
        vals@.len() == m@.dom().len(),
        forall|v: usize| #[trigger] vals@.to_multiset().count(v) == count_with_value(m@, v),
{
    let mut vals: Vec<usize> = Vec::new();
    let ghost ks: Seq<u128> = vstd::std_specs::hash::spec_keys_iter(m).remaining().unref();
    for k in it: m.keys()
        invariant
            it.seq().unref() == ks,
            vals@.len() == it.index(),
            forall|i: int| 0 <= i < it.index() ==> vals@[i] == m@[*it.seq()[i]],
    {
        let v = *m.get(k).unwrap();
        vals.push(v);
    }
    assert(ks.to_set() == m@.dom());
    assert(ks.no_duplicates());
    assert(vals@ =~= values_along(ks, m@));
    assert forall|v: usize| #[trigger] vals@.to_multiset().count(v) == count_with_value(m@, v) by {
        lemma_count_values(ks, m@, v);
    }
    proof {
        ks.unique_seq_to_set();
    }
    vals
}

/// The 128-bit values of the given identifiers.
pub open spec fn id_bits(ids: Seq<NodeId>) -> Set<u128> {
    ids.map_values(|id: NodeId| id.bits()).to_set()
}

/// What a leader tracks of each follower: the index of the next log entry to
/// send it (`next_index`), and the highest index known to be replicated on it
/// (`match_index`). Both are keyed by the follower's identifier.
#[derive(Debug)]
pub struct VolatileLeaderState {
    next_indices: HashMap<u128, usize>,
    match_indices: HashMap<u128, usize>,
}

impl VolatileLeaderState {
    /// The next index of each follower, keyed by its identifier's bits.
    pub closed spec fn next_indices_spec(&self) -> Map<u128, usize> {
        self.next_indices@
    }

    /// The match index of each follower, keyed by its identifier's bits.
    pub closed spec fn match_indices_spec(&self) -> Map<u128, usize> {
        self.match_indices@
    }

    /// When a leader first comes to power, it initializes all nextIndex values to the index just after
    /// the last one in its log.
    pub fn new(ids: Vec<NodeId>, last_log_index: usize) -> (s: Self)
        requires
            ids@.len() > 0 ==> last_log_index < usize::MAX,
        ensures
            s.next_indices_spec().dom() == id_bits(ids@),
            s.match_indices_spec().dom() == id_bits(ids@),
            forall|k: u128| #[trigger] s.next_indices_spec().contains_key(k) ==> s.next_indices_spec()[k] == last_log_index + 1,
            forall|k: u128| #[trigger] s.match_indices_spec().contains_key(k) ==> s.match_indices_spec()[k] == 0,
    {
        let mut next_indices: HashMap<u128, usize> = HashMap::new();
        let mut match_indices: HashMap<u128, usize> = HashMap::new();
        let mut i: usize = 0;
        while i < ids.len()
            invariant
                i <= ids@.len(),
                ids@.len() > 0 ==> last_log_index < usize::MAX,
                next_indices@.dom() == id_bits(ids@.subrange(0, i as int)),
                match_indices@.dom() == id_bits(ids@.subrange(0, i as int)),
                forall|k: u128| #[trigger] next_indices@.contains_key(k) ==> next_indices@[k] == last_log_index + 1,
                forall|k: u128| #[trigger] match_indices@.contains_key(k) ==> match_indices@[k] == 0,
            decreases ids@.len() - i,
        {
            let id = ids[i].as_u128();
            next_indices.insert(id, last_log_index + 1);
            match_indices.insert(id, 0);
            proof {
                let pre = ids@.subrange(0, i as int);
                assert(ids@.subrange(0, i + 1) =~= pre.push(ids@[i as int]));
                assert(pre.push(ids@[i as int]).map_values(|id: NodeId| id.bits()) =~= pre.map_values(
                    |id: NodeId| id.bits(),
                ).push(id));
                pre.map_values(|id: NodeId| id.bits()).lemma_push_to_set_commute(id);
            }
            i = i + 1;
        }
        assert(ids@.subrange(0, ids@.len() as int) =~= ids@);
        Self { next_indices, match_indices }
    }

    /// A leader tracks finitely many followers.
    pub proof fn lemma_tracks_finitely_many(&self)
        ensures
            self.next_indices_spec().dom().finite(),
            self.match_indices_spec().dom().finite(),
    {
    }

    pub fn contains_next_index(&self, id: &NodeId) -> (r: bool)
        ensures
            r == self.next_indices_spec().contains_key(id.bits()),
    {
        self.next_indices.contains_key(&id.as_u128())
    }

    pub fn get_next_index(&self, id: &NodeId) -> (r: usize)
        requires
            self.next_indices_spec().contains_key(id.bits()),
        ensures
            r == self.next_indices_spec()[id.bits()],
    {
        *self.next_indices.get(&id.as_u128()).unwrap()
    }

    pub fn set_next_index(&mut self, id: NodeId, index: usize)
        ensures
            final(self).next_indices_spec() == old(self).next_indices_spec().insert(id.bits(), index),
            final(self).match_indices_spec() == old(self).match_indices_spec(),
    {
        self.next_indices.insert(id.as_u128(), index);
    }

    /// Lowers the next index of `id` by one, unless it is absent or already at most 1.
    pub fn decrement_next_index(&mut self, id: NodeId)
        ensures
            final(self).next_indices_spec() == (if old(self).next_indices_spec().contains_key(id.bits())
                && old(self).next_indices_spec()[id.bits()] > 1 {
                old(self).next_indices_spec().insert(
                    id.bits(),
                    (old(self).next_indices_spec()[id.bits()] - 1) as usize,
                )
            } else {
                old(self).next_indices_spec()
            }),
            final(self).match_indices_spec() == old(self).match_indices_spec(),
    {
        let key = id.as_u128();
        match self.next_indices.get(&key) {
            Some(index) => {
                let index = *index;
                if index > 1 {
                    self.next_indices.insert(key, index - 1);
                }
            },
            None => {},
        }
    }

    pub fn get_match_index(&self, id: &NodeId) -> (r: usize)
        requires
            self.match_indices_spec().contains_key(id.bits()),
        ensures
            r == self.match_indices_spec()[id.bits()],
    {
        *self.match_indices.get(&id.as_u128()).unwrap()
    }

    pub fn set_match_index(&mut self, id: NodeId, index: usize)
        ensures
            final(self).match_indices_spec() == old(self).match_indices_spec().insert(id.bits(), index),
            final(self).next_indices_spec() == old(self).next_indices_spec(),
    {
        self.match_indices.insert(id.as_u128(), index);
    }

    /// Lowers the match index of `id` by one, unless it is absent or already at most 1.
    pub fn decrement_match_index(&mut self, id: NodeId)
        ensures
            final(self).match_indices_spec() == (if old(self).match_indices_spec().contains_key(id.bits())
                && old(self).match_indices_spec()[id.bits()] > 1 {
                old(self).match_indices_spec().insert(
                    id.bits(),
                    (old(self).match_indices_spec()[id.bits()] - 1) as usize,
                )
            } else {
                old(self).match_indices_spec()
            }),
            final(self).next_indices_spec() == old(self).next_indices_spec(),
    {
        let key = id.as_u128();
        match self.match_indices.get(&key) {
            Some(index) => {
                let index = *index;
                if index > 1 {
                    self.match_indices.insert(key, index - 1);
                }
            },
            None => {},
        }
    }

    /// The highest committable index is the integer just before the middle `next_index` value
    /// (position `len / 2` once sorted) across all IDs: the value which can be accounted
    /// for across the majority of all others.
    pub fn highest_committable_index(&self) -> (r: Option<usize>)
        ensures
            r == committable_index_spec(self.next_indices_spec()),
    {
        let vals = collect_values(&self.next_indices);
        let sorted = sort_ascending(&vals);
        proof {
            let m = self.next_indices@;
            assert(sorted_values_of(sorted@, m));
            let s = choose|s: Seq<usize>| sorted_values_of(s, m);
            lemma_sorted_values_unique(s, sorted@, m);
        }
        if sorted.len() == 0 {
            None
        } else {
            let middle = sorted[sorted.len() / 2];
            if middle >= 1 {
                Some(middle - 1)
            } else {
                Some(0)
            }
        }
    }
}

impl Clone for VolatileLeaderState {
    fn clone(&self) -> (c: Self)
        ensures
            c.next_indices_spec() == self.next_indices_spec(),
            c.match_indices_spec() == self.match_indices_spec(),
    {
        Self { next_indices: self.next_indices.clone(), match_indices: self.match_indices.clone() }
    }
}

} // verus!
