//! Latency histograms and their integer summary.
//!
//! A benchmark records each measured duration (in micro- or nanoseconds)
//! in a `BTreeMap` from duration to the number of times it was seen. The
//! summary reads the map in increasing order of duration and reports the
//! number of samples, the smallest and largest duration, the weighted sum
//! of all durations (from which the mean follows) and the 90th and 99th
//! percentile durations.
use vstd::prelude::*;
use vstd::std_specs::iter::IteratorSpec;
use vstd::std_specs::cmp::OrdSpec;
use std::collections::BTreeMap;

verus! {

/// `s` lists the entries of `m` in strictly increasing order of key.
pub open spec fn lists_in_order(m: Map<u128, u32>, s: Seq<(u128, u32)>) -> bool {
    &&& forall|i: int, j: int| 0 <= i < j < s.len() ==> s[i].0 < s[j].0
    &&& forall|i: int| 0 <= i < s.len() ==> m.contains_key(#[trigger] s[i].0) && m[s[i].0] == s[i].1
    &&& forall|k: u128| #[trigger] m.contains_key(k) ==> exists|i: int| 0 <= i < s.len() && s[i].0 == k
}

/// The entries of `m` in increasing order of key.
pub open spec fn entries_of(m: Map<u128, u32>) -> Seq<(u128, u32)> {
    choose|s: Seq<(u128, u32)>| lists_in_order(m, s)
}

/// The number of samples that the entries `s` count.
pub open spec fn count_sum(s: Seq<(u128, u32)>) -> nat
    decreases s.len(),
{
    if s.len() == 0 {
        0
    } else {
        count_sum(s.drop_last()) + s.last().1 as nat
    }
}

/// The sum of all samples that the entries `s` count.
pub open spec fn weighted_sum(s: Seq<(u128, u32)>) -> nat
    decreases s.len(),
{
    if s.len() == 0 {
        0
    } else {
        weighted_sum(s.drop_last()) + (s.last().0 as nat) * (s.last().1 as nat)
    }
}

/// The smallest key of `s`, or 0 when there is none.
pub open spec fn minimum_of(s: Seq<(u128, u32)>) -> u128
    decreases s.len(),
{
    if s.len() == 0 {
        0
    } else {
        let m = minimum_of(s.drop_last());
        if s.len() == 1 || s.last().0 < m {
            s.last().0
        } else {
            m
        }
    }
}

/// The largest key of `s`, or 0 when there is none.
pub open spec fn maximum_of(s: Seq<(u128, u32)>) -> u128
    decreases s.len(),
{
    if s.len() == 0 {
        0
    } else {
        let m = maximum_of(s.drop_last());
        if s.last().0 > m {
            s.last().0
        } else {
            m
        }
    }
}

/// Scanning `s` in order with a running count, the key of the first entry
/// at which the count has reached `threshold`; `None` when no entry does.
pub open spec fn percentile_found(s: Seq<(u128, u32)>, threshold: nat) -> Option<u128>
    decreases s.len(),
{
    if s.len() == 0 {
        None
    } else {
        match percentile_found(s.drop_last(), threshold) {
            Some(k) => Some(k),
            None => if count_sum(s) >= threshold {
                Some(s.last().0)
            } else {
                None
            },
        }
    }
}

/// The percentile that `s` gives for `threshold`: the key of the first
/// entry at which the running count reaches `threshold` (0 included), or 0
/// when no entry does.
pub open spec fn percentile_of(s: Seq<(u128, u32)>, threshold: nat) -> u128 {
    match percentile_found(s, threshold) {
        Some(k) => k,
        None => 0,
    }
}

/// Whether the counters of the summary of `s` stay within their machine
/// types (the sample count, times 99, in a `u32`; the weighted sum in a
/// `u128`).
pub open spec fn summary_fits(s: Seq<(u128, u32)>) -> bool {
    count_sum(s) * 99 <= u32::MAX && weighted_sum(s) <= u128::MAX
}

/// The integer part of the summary of a latency histogram.
#[derive(Clone, Copy, Debug, PartialEq, Eq)]
pub struct HistogramSummary {
    /// Number of samples.
    pub elements: u32,
    /// Smallest duration (0 for an empty histogram).
    pub minimum: u128,
    /// Largest duration (0 for an empty histogram).
    pub maximum: u128,
    /// Sum of all samples.
    pub weighted_sum: u128,
    /// 90th percentile duration.
    pub ninety_pct: u128,
    /// 99th percentile duration.
    pub ninety_nine_pct: u128,
}

/// The summary that the entries `s` give.
pub open spec fn summary_of(s: Seq<(u128, u32)>) -> HistogramSummary {
    HistogramSummary {
        elements: count_sum(s) as u32,
        minimum: minimum_of(s),
        maximum: maximum_of(s),
        weighted_sum: weighted_sum(s) as u128,
        ninety_pct: percentile_of(s, count_sum(s) * 90 / 100),
        ninety_nine_pct: percentile_of(s, count_sum(s) * 99 / 100),
    }
}

proof fn lemma_lists_unique(m: Map<u128, u32>, s1: Seq<(u128, u32)>, s2: Seq<(u128, u32)>)
    requires
        lists_in_order(m, s1),
        lists_in_order(m, s2),
    ensures
        s1 == s2,
    decreases s1.len(),
{
    if s1.len() == 0 {
        if s2.len() > 0 {
            assert(m.contains_key(s2[0].0));
        }
        assert(s1 =~= s2);
    } else {
        assert(m.contains_key(s1[0].0));
        let j = choose|j: int| 0 <= j < s2.len() && s2[j].0 == s1[0].0;
        assert(m.contains_key(s2[0].0));
        let i = choose|i: int| 0 <= i < s1.len() && s1[i].0 == s2[0].0;
        assert(j == 0) by {
            if j > 0 {
                assert(s2[0].0 < s2[j].0);
                if i > 0 {
                    assert(s1[0].0 < s1[i].0);
                }
            }
        }
        let k0 = s1[0].0;
        let m1 = m.remove(k0);
        let t1 = s1.skip(1);
        let t2 = s2.skip(1);
        assert forall|k: u128| #[trigger] m1.contains_key(k) implies exists|i: int|
            0 <= i < t1.len() && t1[i].0 == k by {
            let i1 = choose|i: int| 0 <= i < s1.len() && s1[i].0 == k;
            assert(i1 > 0);
            assert(t1[i1 - 1].0 == k);
        }
        assert forall|k: u128| #[trigger] m1.contains_key(k) implies exists|i: int|
            0 <= i < t2.len() && t2[i].0 == k by {
            let i2 = choose|i: int| 0 <= i < s2.len() && s2[i].0 == k;
            assert(i2 > 0);
            assert(t2[i2 - 1].0 == k);
        }
        assert forall|i: int| 0 <= i < t1.len() implies m1.contains_key(#[trigger] t1[i].0)
            && m1[t1[i].0] == t1[i].1 by {
            assert(s1[0].0 < s1[i + 1].0);
        }
        assert forall|i: int| 0 <= i < t2.len() implies m1.contains_key(#[trigger] t2[i].0)
            && m1[t2[i].0] == t2[i].1 by {
            assert(s2[0].0 < s2[i + 1].0);
        }
        lemma_lists_unique(m1, t1, t2);
        assert(s1 =~= s2) by {
            assert(s1[0] == s2[0]);
            assert forall|i: int| 0 <= i < s1.len() implies s1[i] == s2[i] by {
                if i > 0 {
                    assert(s1[i] == t1[i - 1]);
                    assert(s2[i] == t2[i - 1]);
                }
            }
        }
    }
}

/// Any in-order listing of the entries of `m` is `entries_of(m)`.
pub proof fn lemma_entries_of(m: Map<u128, u32>, s: Seq<(u128, u32)>)
    requires
        lists_in_order(m, s),
    ensures
        entries_of(m) == s,
{
    let c = entries_of(m);
    assert(lists_in_order(m, c));
    lemma_lists_unique(m, c, s);
}

proof fn lemma_prefix_step(s: Seq<(u128, u32)>, n: int)
    requires
        0 <= n < s.len(),
    ensures
        s.take(n + 1).drop_last() == s.take(n),
        s.take(n + 1).last() == s[n],
{
    assert(s.take(n + 1).drop_last() =~= s.take(n));
}

proof fn lemma_sums_monotone(s: Seq<(u128, u32)>, n: int)
    requires
        0 <= n <= s.len(),
    ensures
        count_sum(s.take(n)) <= count_sum(s),
        weighted_sum(s.take(n)) <= weighted_sum(s),
    decreases s.len() - n,
{
    if n < s.len() {
        lemma_prefix_step(s, n);
        lemma_sums_monotone(s, n + 1);
    } else {
        assert(s.take(n) =~= s);
    }
}

/// The entries in the order in which `m.iter()` hands them out, which vstd
/// specifies as increasing in key, without repeats, and made of the
/// entries of `m`.
proof fn lemma_iter_lists(m: &BTreeMap<u128, u32>, s: Seq<(u128, u32)>)
    requires
        s == m.iter().remaining().unref(),
        vstd::std_specs::btree::increasing_seq(
            m.iter().remaining().map_values(|kv: (&u128, &u32)| *kv.0),
        ),
    ensures
        lists_in_order(m@, s),
{
    broadcast use vstd::laws_cmp::group_laws_cmp;
    let r = m.iter().remaining();
    assert forall|i: int| 0 <= i < s.len() implies m@.contains_key(#[trigger] s[i].0)
        && m@[s[i].0] == s[i].1 by {
        assert(m@.contains_key(*r[i].0));
    }
    assert forall|k: u128| #[trigger] m@.contains_key(k) implies exists|i: int|
        0 <= i < s.len() && s[i].0 == k by {
        assert(r.contains((&k, &m@[k])));
        let i = choose|i: int| 0 <= i < r.len() && r[i] == (&k, &m@[k]);
        assert(s[i].0 == k);
    }
    let keys = r.map_values(|kv: (&u128, &u32)| *kv.0);
    assert(vstd::laws_cmp::obeys_cmp::<u128>());
    assert forall|i: int, j: int| 0 <= i < j < s.len() implies s[i].0 < s[j].0 by {
        assert(keys[i].cmp_spec(&keys[j]) is Less);
        assert(keys[i] == s[i].0);
        assert(keys[j] == s[j].0);
    }
}

/// The keys of `s` increase strictly.
pub open spec fn keys_increasing(s: Seq<(u128, u32)>) -> bool {
    forall|i: int, j: int| 0 <= i < j < s.len() ==> s[i].0 < s[j].0
}

proof fn lemma_increasing_prefix(s: Seq<(u128, u32)>)
    requires
        keys_increasing(s),
        s.len() > 0,
    ensures
        keys_increasing(s.drop_last()),
        forall|i: int| 0 <= i < s.len() - 1 ==> #[trigger] s.drop_last()[i].0 < s.last().0,
{
}

/// A finite map has a listing of its entries in increasing order of key,
/// so `entries_of` is that listing.
pub proof fn lemma_entries_of_lists(m: Map<u128, u32>)
    requires
        m.dom().finite(),
    ensures
        lists_in_order(m, entries_of(m)),
    decreases m.dom().len(),
{
    if m.dom().len() == 0 {
        assert(m.dom() =~= Set::<u128>::empty()) by {
            if exists|k: u128| m.dom().contains(k) {
                let k = choose|k: u128| m.dom().contains(k);
                vstd::set_lib::lemma_set_empty_equivalency_len(m.dom());
            }
        }
        assert(lists_in_order(m, Seq::<(u128, u32)>::empty()));
    } else {
        let r = |a: u128, b: u128| a <= b;
        assert(vstd::relations::total_ordering(r));
        let k = m.dom().find_unique_maximal(r);
        m.dom().find_unique_maximal_ensures(r);
        let m1 = m.remove(k);
        assert(m1.dom() =~= m.dom().remove(k));
        lemma_entries_of_lists(m1);
        let s1 = entries_of(m1);
        let s = s1.push((k, m[k]));
        assert forall|j: int| 0 <= j < s1.len() implies #[trigger] s1[j].0 < k by {
            assert(m1.contains_key(s1[j].0));
            assert(r(s1[j].0, k) || r(k, s1[j].0));
        }
        assert forall|i: int, j: int| 0 <= i < j < s.len() implies s[i].0 < s[j].0 by {
            if j == s1.len() {
                assert(s1[i].0 < k);
            }
        }
        assert forall|kk: u128| #[trigger] m.contains_key(kk) implies exists|i: int|
            0 <= i < s.len() && s[i].0 == kk by {
            if kk == k {
                assert(s[s1.len() as int].0 == kk);
            } else {
                assert(m1.contains_key(kk));
                let i = choose|i: int| 0 <= i < s1.len() && s1[i].0 == kk;
                assert(s[i].0 == kk);
            }
        }
        assert forall|i: int| 0 <= i < s.len() implies m.contains_key(#[trigger] s[i].0) && m[s[i].0]
            == s[i].1 by {
            if i < s1.len() {
                assert(m1.contains_key(s1[i].0));
            }
        }
        assert(lists_in_order(m, s));
        lemma_entries_of(m, s);
    }
}

proof fn lemma_maximum_is_last(s: Seq<(u128, u32)>)
    requires
        keys_increasing(s),
        s.len() > 0,
    ensures
        maximum_of(s) == s.last().0,
    decreases s.len(),
{
    lemma_increasing_prefix(s);
    if s.len() > 1 {
        lemma_maximum_is_last(s.drop_last());
        assert(s.drop_last().last().0 < s.last().0);
    } else {
        assert(s.drop_last().len() == 0);
        assert(maximum_of(s.drop_last()) == 0);
    }
}

proof fn lemma_minimum_is_first(s: Seq<(u128, u32)>)
    requires
        keys_increasing(s),
        s.len() > 0,
    ensures
        minimum_of(s) == s[0].0,
    decreases s.len(),
{
    lemma_increasing_prefix(s);
    if s.len() > 1 {
        lemma_minimum_is_first(s.drop_last());
        assert(s.drop_last()[0] == s[0]);
        assert(s[0].0 < s.last().0);
    } else {
        assert(s.last() == s[0]);
    }
}

proof fn lemma_found_bounds(s: Seq<(u128, u32)>, t: nat)
    requires
        keys_increasing(s),
    ensures
        percentile_found(s, t) matches Some(k) ==> s.len() > 0 && s[0].0 <= k <= s.last().0,
    decreases s.len(),
{
    if s.len() > 0 {
        lemma_increasing_prefix(s);
        let s1 = s.drop_last();
        lemma_found_bounds(s1, t);
        if s1.len() > 0 {
            assert(s1[0] == s[0]);
            assert(s1.last().0 < s.last().0);
        } else {
            assert(s.last() == s[0]);
        }
    }
}

proof fn lemma_found_exists(s: Seq<(u128, u32)>, t: nat)
    requires
        s.len() > 0,
        t <= count_sum(s),
    ensures
        percentile_found(s, t) is Some,
{
}

proof fn lemma_found_monotone(s: Seq<(u128, u32)>, t1: nat, t2: nat)
    requires
        keys_increasing(s),
        t1 <= t2,
    ensures
        percentile_found(s, t2) matches Some(k2) ==> (percentile_found(s, t1) matches Some(k1) && k1 <= k2),
    decreases s.len(),
{
    if s.len() > 0 {
        lemma_increasing_prefix(s);
        let s1 = s.drop_last();
        lemma_found_monotone(s1, t1, t2);
        lemma_found_bounds(s1, t1);
    }
}

/// For a histogram with at least one entry, the summary orders its
/// statistics: the minimum is at most the 90th percentile, which is at most
/// the 99th percentile, which is at most the maximum.
pub proof fn lemma_summary_ordered(m: Map<u128, u32>)
    requires
        m.dom().finite(),
        m.dom().len() > 0,
    ensures
        summary_of(entries_of(m)).minimum <= summary_of(entries_of(m)).ninety_pct,
        summary_of(entries_of(m)).ninety_pct <= summary_of(entries_of(m)).ninety_nine_pct,
        summary_of(entries_of(m)).ninety_nine_pct <= summary_of(entries_of(m)).maximum,
{
    lemma_entries_of_lists(m);
    let s = entries_of(m);
    assert(s.len() > 0) by {
        let k = m.dom().choose();
        assert(m.contains_key(k));
    }
    let n = count_sum(s);
    let t90 = n * 90 / 100;
    let t99 = n * 99 / 100;
    assert(t90 <= t99 && t99 <= n) by (nonlinear_arith)
        requires
            t90 == n * 90 / 100,
            t99 == n * 99 / 100,
    ;
    lemma_found_exists(s, t90);
    lemma_found_exists(s, t99);
    lemma_found_monotone(s, t90, t99);
    lemma_found_bounds(s, t90);
    lemma_found_bounds(s, t99);
    lemma_minimum_is_first(s);
    lemma_maximum_is_last(s);
}

/// The histogram `m` after one more sample of `value` was recorded.
pub open spec fn recorded(m: Map<u128, u32>, value: u128) -> Map<u128, u32> {
    m.insert(
        value,
        if m.contains_key(value) {
            (m[value] + 1) as u32
        } else {
            1u32
        },
    )
}

/// The number of samples of `k` in `m` (0 where `k` is not a key).
pub open spec fn count_of(m: Map<u128, u32>, k: u128) -> nat {
    if m.contains_key(k) {
        m[k] as nat
    } else {
        0
    }
}

proof fn lemma_listing_drop_last(m: Map<u128, u32>, s: Seq<(u128, u32)>)
    requires
        lists_in_order(m, s),
        s.len() > 0,
    ensures
        lists_in_order(m.remove(s.last().0), s.drop_last()),
        forall|k: u128| #[trigger] m.remove(s.last().0).contains_key(k) ==> k < s.last().0,
{
    let km = s.last().0;
    let m0 = m.remove(km);
    let s0 = s.drop_last();
    assert forall|i: int| 0 <= i < s0.len() implies m0.contains_key(#[trigger] s0[i].0) && m0[s0[i].0]
        == s0[i].1 by {
        assert(s[i].0 < s[s.len() - 1].0);
    }
    assert forall|k: u128| #[trigger] m0.contains_key(k) implies exists|i: int|
        0 <= i < s0.len() && s0[i].0 == k by {
        assert(m.contains_key(k));
        let i = choose|i: int| 0 <= i < s.len() && s[i].0 == k;
        assert(i != s.len() - 1);
        assert(s0[i].0 == k);
    }
    assert forall|k: u128| #[trigger] m0.contains_key(k) implies k < km by {
        assert(m.contains_key(k));
        let i = choose|i: int| 0 <= i < s.len() && s[i].0 == k;
        assert(i != s.len() - 1);
        assert(s[i].0 < s[s.len() - 1].0);
    }
}

proof fn lemma_listing_push(m: Map<u128, u32>, s: Seq<(u128, u32)>, k: u128, v: u32)
    requires
        lists_in_order(m, s),
        forall|j: u128| #[trigger] m.contains_key(j) ==> j < k,
    ensures
        lists_in_order(m.insert(k, v), s.push((k, v))),
{
    let m1 = m.insert(k, v);
    let s1 = s.push((k, v));
    assert forall|i: int| 0 <= i < s.len() implies #[trigger] s[i].0 < k by {
        assert(m.contains_key(s[i].0));
    }
    assert forall|i: int, j: int| 0 <= i < j < s1.len() implies s1[i].0 < s1[j].0 by {
        if j == s.len() {
            assert(s[i].0 < k);
        }
    }
    assert forall|i: int| 0 <= i < s1.len() implies m1.contains_key(#[trigger] s1[i].0) && m1[s1[i].0]
        == s1[i].1 by {
        if i < s.len() {
            assert(s[i].0 < k);
            assert(m.contains_key(s[i].0));
        }
    }
    assert forall|j: u128| #[trigger] m1.contains_key(j) implies exists|i: int|
        0 <= i < s1.len() && s1[i].0 == j by {
        if j == k {
            assert(s1[s.len() as int].0 == j);
        } else {
            assert(m.contains_key(j));
            let i = choose|i: int| 0 <= i < s.len() && s[i].0 == j;
            assert(s1[i].0 == j);
        }
    }
}

/// Setting the count of `k` to `v` changes the sample count and the
/// weighted sum of a finite histogram by exactly the change at `k`.
pub proof fn lemma_insert_sums(m: Map<u128, u32>, k: u128, v: u32)
    requires
        m.dom().finite(),
    ensures
        count_sum(entries_of(m.insert(k, v))) + count_of(m, k) == count_sum(entries_of(m)) + v,
        weighted_sum(entries_of(m.insert(k, v))) + k * count_of(m, k) == weighted_sum(entries_of(m))
            + k * v,
    decreases m.dom().len(),
{
    lemma_entries_of_lists(m);
    let s = entries_of(m);
    let m1 = m.insert(k, v);
    if s.len() == 0 {
        assert(!m.contains_key(k)) by {
            if m.contains_key(k) {
                let i = choose|i: int| 0 <= i < s.len() && s[i].0 == k;
            }
        }
        lemma_listing_push(m, s, k, v);
        lemma_entries_of(m1, s.push((k, v)));
        assert(s.push((k, v)).drop_last() =~= s);
    } else {
        let km = s.last().0;
        let vm = s.last().1;
        let s0 = s.drop_last();
        let m0 = m.remove(km);
        lemma_listing_drop_last(m, s);
        lemma_entries_of(m0, s0);
        if k == km {
            assert(m1 =~= m0.insert(k, v));
            lemma_listing_push(m0, s0, k, v);
            lemma_entries_of(m1, s0.push((k, v)));
            assert(s0.push((k, v)).drop_last() =~= s0);
        } else if k > km {
            assert(!m.contains_key(k)) by {
                if m.contains_key(k) {
                    let i = choose|i: int| 0 <= i < s.len() && s[i].0 == k;
                    assert(s[i].0 <= km) by {
                        if i < s.len() - 1 {
                            assert(s[i].0 < s[s.len() - 1].0);
                        }
                    }
                }
            }
            assert forall|j: u128| #[trigger] m.contains_key(j) implies j < k by {
                if j != km {
                    assert(m0.contains_key(j));
                }
            }
            lemma_listing_push(m, s, k, v);
            lemma_entries_of(m1, s.push((k, v)));
            assert(s.push((k, v)).drop_last() =~= s);
        } else {
            assert(m0.dom() =~= m.dom().remove(km));
            lemma_insert_sums(m0, k, v);
            let m0k = m0.insert(k, v);
            lemma_entries_of_lists(m0k);
            let e0k = entries_of(m0k);
            assert(m0k.dom() =~= m0.dom().insert(k));
            assert forall|j: u128| #[trigger] m0k.contains_key(j) implies j < km by {
                if j != k {
                    assert(m0.contains_key(j));
                }
            }
            assert(m1 =~= m0k.insert(km, vm));
            lemma_listing_push(m0k, e0k, km, vm);
            lemma_entries_of(m1, e0k.push((km, vm)));
            assert(e0k.push((km, vm)).drop_last() =~= e0k);
            assert(count_of(m0, k) == count_of(m, k));
        }
    }
}

/// Recording a sample adds one to the sample count of a histogram and its
/// value to the weighted sum.
pub proof fn lemma_record_adds_one(m: Map<u128, u32>, value: u128)
    requires
        m.dom().finite(),
        m.contains_key(value) ==> m[value] < u32::MAX,
    ensures
        count_sum(entries_of(recorded(m, value))) == count_sum(entries_of(m)) + 1,
        weighted_sum(entries_of(recorded(m, value))) == weighted_sum(entries_of(m)) + value,
{
    let v: u32 = if m.contains_key(value) {
        (m[value] + 1) as u32
    } else {
        1u32
    };
    lemma_insert_sums(m, value, v);
    assert(value * v == value * count_of(m, value) + value) by (nonlinear_arith)
        requires
            v == count_of(m, value) + 1,
    ;
}

/// Records one more sample of `value` in the histogram, as
/// `*hist.entry(value).or_insert(0) += 1` does.
pub fn record_sample(hist: &mut BTreeMap<u128, u32>, value: u128)
    requires
        old(hist)@.contains_key(value) ==> old(hist)@[value] < u32::MAX,
    ensures
        final(hist)@ == recorded(old(hist)@, value),
{
    let count: u32 = match hist.get(&value) {
        Some(c) => *c,
        None => 0,
    };
    hist.insert(value, count + 1);
}

/// The integer summary of a histogram (the counting part of the
/// `stats_from_btree` report): number of samples, minimum, maximum,
/// weighted sum and the 90th and 99th percentiles.
pub fn histogram_summary(hist: &BTreeMap<u128, u32>) -> (r: HistogramSummary)
    requires
        summary_fits(entries_of(hist@)),
    ensures
        r == summary_of(entries_of(hist@)),
{
    let ghost s = hist.iter().remaining().unref();
    let first_pass = hist.iter();
    proof {
        lemma_iter_lists(hist, s);
        lemma_entries_of(hist@, s);
    }
    let mut x: u128 = 0;
    let mut elements: u32 = 0;
    let mut min: u128 = 0;
    let mut max: u128 = 0;
    let mut first: bool = true;
    for kv in it: first_pass
        invariant
            it.seq().unref() == s,
            summary_fits(s),
            elements == count_sum(s.take(it.index() as int)),
            x == weighted_sum(s.take(it.index() as int)),
            min == minimum_of(s.take(it.index() as int)),
            first == (it.index() == 0),
            max == maximum_of(s.take(it.index() as int)),
    {
        let (k, v) = kv;
        let value = *k;
        let freq = *v;
        proof {
            let n = it.index() as int;
            lemma_prefix_step(s, n);
            lemma_sums_monotone(s, n + 1);
        }
        elements = elements + freq;
        x = x + value * (freq as u128);
        if value > max {
            max = value;
        }
        if first || value < min {
            min = value;
        }
        first = false;
    }
    assert(s.take(s.len() as int) =~= s);
    let ninety: u32 = (elements * 90) / 100;
    let ninetynine: u32 = (elements * 99) / 100;
    let mut elements_so_far: u32 = 0;
    let mut ninety_pct: Option<u128> = None;
    let mut ninetynine_pct: Option<u128> = None;
    for kv in it: hist.iter()
        invariant
            it.seq().unref() == s,
            summary_fits(s),
            ninety == count_sum(s) * 90 / 100,
            ninetynine == count_sum(s) * 99 / 100,
            elements_so_far == count_sum(s.take(it.index() as int)),
            ninety_pct == percentile_found(s.take(it.index() as int), ninety as nat),
            ninetynine_pct == percentile_found(s.take(it.index() as int), ninetynine as nat),
    {
        let (k, v) = kv;
        let freq = *v;
        proof {
            let n = it.index() as int;
            lemma_prefix_step(s, n);
            lemma_sums_monotone(s, n + 1);
        }
        elements_so_far = elements_so_far + freq;
        if ninety_pct.is_none() && elements_so_far >= ninety {
            ninety_pct = Some(*k);
        }
        if ninetynine_pct.is_none() && elements_so_far >= ninetynine {
            ninetynine_pct = Some(*k);
        }
    }
    let ninety_pct: u128 = match ninety_pct {
        Some(k) => k,
        None => 0,
    };
    let ninetynine_pct: u128 = match ninetynine_pct {
        Some(k) => k,
        None => 0,
    };
    HistogramSummary {
        elements,
        minimum: min,
        maximum: max,
        weighted_sum: x,
        ninety_pct,
        ninety_nine_pct: ninetynine_pct,
    }
}

} // verus!
