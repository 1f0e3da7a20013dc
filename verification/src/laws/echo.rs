//! Statistics over echo probes.

use crate::benchmark::echo::{
    ascending, echo_result, is_stats, mean, p95_rank, rtts, sorted_rtts,
    stats_are_ordered, total, total_deviation, EchoResult, EchoStats,
};
use vstd::prelude::*;
use vstd::relations::sorted_by;

verus! {

/// Sum over some results of what `f` makes of each round-trip time.
pub open spec fn sum_over(results: Seq<EchoResult>, f: spec_fn(int) -> int) -> int
    decreases results.len(),
{
    if results.len() == 0 {
        0
    } else {
        sum_over(results.drop_last(), f) + f(results.last().rtt_us as int)
    }
}

/// How far a time is from `m`.
pub open spec fn away_from(m: int) -> spec_fn(int) -> int {
    |x: int|
        if x < m {
            m - x
        } else {
            x - m
        }
}

/// The time itself.
pub open spec fn itself() -> spec_fn(int) -> int {
    |x: int| x
}

/// One for a time of at most `m`.
pub open spec fn at_most(m: int) -> spec_fn(int) -> int {
    |x: int|
        if x <= m {
            1
        } else {
            0
        }
}

/// One for a time below `m`.
pub open spec fn below(m: int) -> spec_fn(int) -> int {
    |x: int|
        if x < m {
            1
        } else {
            0
        }
}

/// One for a time of at least `m`.
pub open spec fn at_least(m: int) -> spec_fn(int) -> int {
    |x: int|
        if x >= m {
            1
        } else {
            0
        }
}

/// The same sum over bare numbers.
spec fn sum_of(s: Seq<u64>, f: spec_fn(int) -> int) -> int
    decreases s.len(),
{
    if s.len() == 0 {
        0
    } else {
        sum_of(s.drop_last(), f) + f(s.last() as int)
    }
}

proof fn sums_agree(results: Seq<EchoResult>, f: spec_fn(int) -> int)
    ensures
        sum_over(results, f) == sum_of(rtts(results), f),
    decreases results.len(),
{
    if results.len() > 0 {
        sums_agree(results.drop_last(), f);
        assert(rtts(results).drop_last() =~= rtts(results.drop_last()));
    }
}

proof fn sum_without(s: Seq<u64>, f: spec_fn(int) -> int, i: int)
    requires
        0 <= i < s.len(),
    ensures
        sum_of(s, f) == sum_of(s.remove(i), f) + f(s[i] as int),
    decreases s.len(),
{
    if i == s.len() - 1 {
        assert(s.remove(i) =~= s.drop_last());
    } else {
        sum_without(s.drop_last(), f, i);
        assert(s.remove(i).drop_last() =~= s.drop_last().remove(i));
        assert(s.remove(i).last() == s.last());
    }
}

proof fn sum_of_the_same(a: Seq<u64>, b: Seq<u64>, f: spec_fn(int) -> int)
    requires
        a.to_multiset() == b.to_multiset(),
    ensures
        sum_of(a, f) == sum_of(b, f),
    decreases b.len(),
{
    broadcast use vstd::seq_lib::group_to_multiset_ensures;

    vstd::seq_lib::to_multiset_len(a);
    vstd::seq_lib::to_multiset_len(b);
    if b.len() > 0 {
        let x = b.last();
        assert(b.contains(x));
        assert(a.to_multiset().count(x) > 0);
        assert(a.contains(x));
        let i = choose|i: int| 0 <= i < a.len() && a[i] == x;
        sum_without(a, f, i);
        let c = a.remove(i);
        let d = b.drop_last();
        assert(d =~= b.remove(b.len() - 1));
        assert(c.to_multiset() =~= d.to_multiset());
        sum_of_the_same(c, d, f);
    }
}

proof fn totals_are_sums(s: Seq<u64>, m: int)
    ensures
        total(s) == sum_of(s, itself()),
        total_deviation(s, m) == sum_of(s, away_from(m)),
    decreases s.len(),
{
    if s.len() > 0 {
        totals_are_sums(s.drop_last(), m);
    }
}

/// The sorted times are in order, are those of the results, and sum to the same.
proof fn sorted_facts(results: Seq<EchoResult>)
    ensures
        sorted_rtts(results).len() == results.len(),
        forall|i: int, j: int|
            0 <= i <= j < results.len() ==> #[trigger] sorted_rtts(results)[i]
                <= #[trigger] sorted_rtts(results)[j],
        forall|i: int|
            0 <= i < results.len() ==> sorted_rtts(results).contains(
                (#[trigger] results[i]).rtt_us,
            ),
        forall|j: int|
            0 <= j < results.len() ==> rtts(results).contains(
                #[trigger] sorted_rtts(results)[j],
            ),
        forall|f: spec_fn(int) -> int| #[trigger]
            sum_over(results, f) == sum_of(sorted_rtts(results), f),
{
    broadcast use vstd::seq_lib::group_to_multiset_ensures;

    let s = sorted_rtts(results);
    let all = rtts(results);
    assert(vstd::relations::total_ordering(ascending()));
    all.lemma_sort_by_ensures(ascending());
    vstd::seq_lib::to_multiset_len(s);
    vstd::seq_lib::to_multiset_len(all);
    assert forall|i: int, j: int| 0 <= i <= j < results.len() implies #[trigger] s[i]
        <= #[trigger] s[j] by {
        if i < j {
            assert(ascending()(s[i], s[j]));
        }
    }
    assert forall|i: int| 0 <= i < results.len() implies s.contains(
        (#[trigger] results[i]).rtt_us,
    ) by {
        assert(all[i] == results[i].rtt_us);
        assert(all.contains(all[i]));
        assert(s.to_multiset().count(all[i]) > 0);
    }
    assert forall|j: int| 0 <= j < results.len() implies all.contains(#[trigger] s[j]) by {
        assert(s.contains(s[j]));
        assert(all.to_multiset().count(s[j]) > 0);
    }
    assert forall|f: spec_fn(int) -> int| #[trigger] sum_over(results, f) == sum_of(s, f) by {
        sums_agree(results, f);
        sum_of_the_same(s, all, f);
    }
}

proof fn divided(t: int, n: int, q: int)
    requires
        n > 0,
        q == t / n,
    ensures
        n * q <= t < n * (q + 1),
{
    assert(n * q <= t < n * (q + 1)) by (nonlinear_arith)
        requires
            n > 0,
            q == t / n,
    ;
}

/// The jitter is the mean distance from the mean, rounded down: as many times the
/// jitter as there are results is at most the sum of the distances, and one more
/// would be too much. So it is never more than the spread.
pub proof fn jitter_is_the_mean_deviation(
    results: Seq<EchoResult>,
    total_expected: usize,
    stats: EchoStats,
)
    requires
        results.len() >= 2,
        is_stats(results, total_expected, stats),
    ensures
        results.len() * stats.jitter_us <= sum_over(results, away_from(stats.mean_us as int))
            < results.len() * (stats.jitter_us + 1),
        stats.jitter_us <= stats.max_us - stats.min_us,
{
    let n = results.len() as int;
    let s = sorted_rtts(results);
    let m = stats.mean_us as int;
    sorted_facts(results);
    totals_are_sums(s, m);
    let dev = total_deviation(s, m);
    assert(sum_over(results, away_from(m)) == dev);
    divided(dev, n, stats.jitter_us as int);
    stats_are_ordered(results, total_expected, stats);
    let spread = stats.max_us - stats.min_us;
    assert forall|i: int| 0 <= i < n implies away_from(m)(#[trigger] s[i] as int) <= spread by {
        assert(s[0] <= s[i] <= s[n - 1]);
    }
    sum_at_most(s, away_from(m), spread);
    let j = stats.jitter_us as int;
    assert(j <= spread) by (nonlinear_arith)
        requires
            n * j <= dev,
            dev <= n * spread,
            n > 0,
    ;
}

proof fn sum_at_most(s: Seq<u64>, f: spec_fn(int) -> int, bound: int)
    requires
        forall|i: int| 0 <= i < s.len() ==> f(#[trigger] s[i] as int) <= bound,
    ensures
        sum_of(s, f) <= s.len() * bound,
    decreases s.len(),
{
    if s.len() > 0 {
        let h = s.drop_last();
        assert forall|i: int| 0 <= i < h.len() implies f(#[trigger] h[i] as int) <= bound by {
            assert(h[i] == s[i]);
        }
        sum_at_most(h, f, bound);
        let k = h.len() as int;
        assert(f(s[s.len() - 1] as int) <= bound);
        assert((k + 1) * bound == k * bound + bound) by (nonlinear_arith);
    }
}

proof fn sum_at_least(s: Seq<u64>, f: spec_fn(int) -> int, bound: int)
    requires
        forall|i: int| 0 <= i < s.len() ==> f(#[trigger] s[i] as int) >= bound,
    ensures
        sum_of(s, f) >= s.len() * bound,
    decreases s.len(),
{
    if s.len() > 0 {
        let h = s.drop_last();
        assert forall|i: int| 0 <= i < h.len() implies f(#[trigger] h[i] as int) >= bound by {
            assert(h[i] == s[i]);
        }
        sum_at_least(h, f, bound);
        let k = h.len() as int;
        assert(f(s[s.len() - 1] as int) >= bound);
        assert((k + 1) * bound == k * bound + bound) by (nonlinear_arith);
    }
}

proof fn sum_splits(s: Seq<u64>, f: spec_fn(int) -> int, k: int)
    requires
        0 <= k <= s.len(),
    ensures
        sum_of(s, f) == sum_of(s.take(k), f) + sum_of(s.skip(k), f),
    decreases s.len(),
{
    if k == s.len() {
        assert(s.take(k) =~= s);
        assert(s.skip(k) =~= seq![]);
    } else {
        sum_splits(s.drop_last(), f, k);
        assert(s.drop_last().take(k) =~= s.take(k));
        assert(s.drop_last().skip(k) =~= s.skip(k).drop_last());
        assert(s.skip(k).last() == s.last());
    }
}

/// The mean is the sum of the round-trip times divided by their number, rounded
/// down.
pub proof fn mean_is_the_share_of_the_sum(
    results: Seq<EchoResult>,
    total_expected: usize,
    stats: EchoStats,
)
    requires
        results.len() >= 1,
        is_stats(results, total_expected, stats),
    ensures
        results.len() * stats.mean_us <= sum_over(results, itself()) < results.len() * (
        stats.mean_us + 1),
{
    let s = sorted_rtts(results);
    sorted_facts(results);
    totals_are_sums(s, 0);
    assert(sum_over(results, itself()) == total(s));
    divided(total(s), results.len() as int, stats.mean_us as int);
}

/// The extremes are reached, and no result is beyond them.
pub proof fn extremes_are_reached(
    results: Seq<EchoResult>,
    total_expected: usize,
    stats: EchoStats,
)
    requires
        results.len() >= 1,
        is_stats(results, total_expected, stats),
    ensures
        forall|i: int|
            0 <= i < results.len() ==> stats.min_us <= (#[trigger] results[i]).rtt_us
                <= stats.max_us,
        exists|i: int| 0 <= i < results.len() && (#[trigger] results[i]).rtt_us == stats.min_us,
        exists|i: int| 0 <= i < results.len() && (#[trigger] results[i]).rtt_us == stats.max_us,
        exists|i: int| 0 <= i < results.len() && (#[trigger] results[i]).rtt_us == stats.p95_us,
{
    let s = sorted_rtts(results);
    let n = results.len() as int;
    let all = rtts(results);
    sorted_facts(results);
    assert forall|i: int| 0 <= i < n implies stats.min_us <= (#[trigger] results[i]).rtt_us
        <= stats.max_us by {
        let x = results[i].rtt_us;
        let j = choose|j: int| 0 <= j < s.len() && s[j] == x;
        assert(s[0] <= s[j] <= s[n - 1]);
    }
    let a = choose|i: int| 0 <= i < n && all[i] == s[0];
    assert(all.contains(s[0]));
    assert(results[a].rtt_us == stats.min_us);
    let b = choose|i: int| 0 <= i < n && all[i] == s[n - 1];
    assert(all.contains(s[n - 1]));
    assert(results[b].rtt_us == stats.max_us);
    let c = choose|i: int| 0 <= i < n && all[i] == s[p95_rank(n) - 1];
    assert(0 <= p95_rank(n) - 1 < n);
    assert(all.contains(s[p95_rank(n) - 1]));
    assert(results[c].rtt_us == stats.p95_us);
}

/// At least 95 of 100 results are within the 95th percentile, and fewer than that
/// are below it.
pub proof fn percentile_covers_its_share(
    results: Seq<EchoResult>,
    total_expected: usize,
    stats: EchoStats,
)
    requires
        results.len() >= 1,
        is_stats(results, total_expected, stats),
    ensures
        100 * sum_over(results, at_most(stats.p95_us as int)) >= 95 * results.len(),
        100 * sum_over(results, below(stats.p95_us as int)) < 95 * results.len(),
{
    let s = sorted_rtts(results);
    let n = results.len() as int;
    let r = p95_rank(n);
    let v = stats.p95_us as int;
    sorted_facts(results);
    assert(1 <= r <= n);
    assert(s[r - 1] == v);
    ordered_counts(s, r - 1);
}

/// How many of some ordered numbers are at most, below and at least the one at
/// `k`.
proof fn ordered_counts(s: Seq<u64>, k: int)
    requires
        0 <= k < s.len(),
        forall|i: int, j: int| 0 <= i <= j < s.len() ==> #[trigger] s[i] <= #[trigger] s[j],
    ensures
        sum_of(s, at_most(s[k] as int)) >= k + 1,
        sum_of(s, below(s[k] as int)) <= k,
        sum_of(s, at_least(s[k] as int)) >= s.len() - k,
{
    let v = s[k] as int;
    let (f, g, h) = (at_most(v), below(v), at_least(v));
    sum_splits(s, f, k + 1);
    assert forall|i: int| 0 <= i < k + 1 implies f(#[trigger] s.take(k + 1)[i] as int) >= 1 by {
        assert(s[i] <= s[k]);
    }
    sum_at_least(s.take(k + 1), f, 1);
    sum_at_least(s.skip(k + 1), f, 0);
    sum_splits(s, g, k);
    sum_at_most(s.take(k), g, 1);
    assert forall|i: int| 0 <= i < s.len() - k implies g(#[trigger] s.skip(k)[i] as int) <= 0 by {
        assert(s[k] <= s[k + i]);
    }
    sum_at_most(s.skip(k), g, 0);
    sum_splits(s, h, k);
    assert forall|i: int| 0 <= i < s.len() - k implies h(#[trigger] s.skip(k)[i] as int) >= 1 by {
        assert(s[k] <= s[k + i]);
    }
    sum_at_least(s.skip(k), h, 1);
    sum_at_least(s.take(k), h, 0);
}

/// At least half of the results are at most the median, and at least half are at
/// least it. Of results that come in order it is the one in the middle, or the
/// mean of the two in the middle, rounded down.
pub proof fn median_is_in_the_middle(
    results: Seq<EchoResult>,
    total_expected: usize,
    stats: EchoStats,
)
    requires
        results.len() >= 1,
        is_stats(results, total_expected, stats),
    ensures
        2 * sum_over(results, at_most(stats.median_us as int)) >= results.len(),
        2 * sum_over(results, at_least(stats.median_us as int)) >= results.len(),
        (forall|i: int, j: int|
            0 <= i <= j < results.len() ==> (#[trigger] results[i]).rtt_us
                <= (#[trigger] results[j]).rtt_us) ==> {
            let n = results.len() as int;
            let sum = results[(n - 1) / 2].rtt_us + results[n / 2].rtt_us;
            2 * stats.median_us <= sum < 2 * stats.median_us + 2
        },
{
    let s = sorted_rtts(results);
    let n = results.len() as int;
    let m = stats.median_us as int;
    sorted_facts(results);
    let lo = (n - 1) / 2;
    let hi = n / 2;
    assert(s[lo] <= s[hi]);
    assert(s[lo] <= m <= s[hi]);
    ordered_counts(s, lo);
    ordered_counts(s, hi);
    sum_grows(s, at_most(s[lo] as int), at_most(m));
    sum_grows(s, at_least(s[hi] as int), at_least(m));
    if forall|i: int, j: int|
        0 <= i <= j < results.len() ==> (#[trigger] results[i]).rtt_us
            <= (#[trigger] results[j]).rtt_us {
        let all = rtts(results);
        assert(vstd::relations::total_ordering(ascending()));
        all.lemma_sort_by_ensures(ascending());
        assert(sorted_by(all, ascending())) by {
            assert forall|i: int, j: int| 0 <= i < j < all.len() implies #[trigger] ascending()(
                all[i],
                all[j],
            ) by {
                assert(results[i].rtt_us <= results[j].rtt_us);
            }
        }
        vstd::seq_lib::lemma_sorted_unique(all, s, ascending());
        assert(all[lo] == results[lo].rtt_us);
        assert(all[hi] == results[hi].rtt_us);
    }
}

proof fn sum_grows(s: Seq<u64>, f: spec_fn(int) -> int, g: spec_fn(int) -> int)
    requires
        forall|x: int| #[trigger] f(x) <= g(x),
    ensures
        sum_of(s, f) <= sum_of(s, g),
    decreases s.len(),
{
    if s.len() > 0 {
        sum_grows(s.drop_last(), f, g);
        assert(f(s.last() as int) <= g(s.last() as int));
    }
}

/// The order in which the results came does not matter to any of the numbers.
pub proof fn order_of_results_is_irrelevant(
    a: Seq<EchoResult>,
    b: Seq<EchoResult>,
    total_expected: usize,
    x: EchoStats,
    y: EchoStats,
)
    requires
        rtts(a).to_multiset() == rtts(b).to_multiset(),
        is_stats(a, total_expected, x),
        is_stats(b, total_expected, y),
    ensures
        x.min_us == y.min_us && x.max_us == y.max_us && x.mean_us == y.mean_us,
        x.median_us == y.median_us && x.p95_us == y.p95_us && x.jitter_us == y.jitter_us,
        x.loss_count == y.loss_count,
{
    assert(vstd::relations::total_ordering(ascending()));
    rtts(a).lemma_sort_by_ensures(ascending());
    rtts(b).lemma_sort_by_ensures(ascending());
    vstd::seq_lib::to_multiset_len(rtts(a));
    vstd::seq_lib::to_multiset_len(rtts(b));
    vstd::seq_lib::lemma_sorted_unique(sorted_rtts(a), sorted_rtts(b), ascending());
}

/// Every probe is either answered or lost, answers beyond what was expected apart.
/// Without results there is nothing to measure, and one result is all there is.
pub proof fn probes_are_answered_or_lost(
    results: Seq<EchoResult>,
    total_expected: usize,
    stats: EchoStats,
)
    requires
        is_stats(results, total_expected, stats),
    ensures
        stats.results@ == results,
        results.len() <= total_expected ==> stats.loss_count + results.len() == total_expected,
        results.len() > total_expected ==> stats.loss_count == 0,
        results.len() == 0 ==> stats.max_us == 0 && stats.mean_us == 0 && stats.jitter_us == 0
            && stats.min_us == 0 && stats.median_us == 0 && stats.p95_us == 0,
        results.len() == 1 ==> stats.mean_us == results[0].rtt_us && stats.median_us
            == results[0].rtt_us && stats.p95_us == results[0].rtt_us && stats.min_us
            == results[0].rtt_us && stats.max_us == results[0].rtt_us && stats.jitter_us == 0,
{
    if results.len() == 1 {
        sorted_facts(results);
        let s = sorted_rtts(results);
        let all = rtts(results);
        assert(s.contains(results[0].rtt_us));
        assert(s[0] == results[0].rtt_us);
        assert(s.drop_last() =~= seq![]);
        assert(total(s.drop_last()) == 0);
        assert(total(s) == s[0]);
        assert(mean(s) == s[0]);
    }
}

/// An answer that seems to come before its request has a round-trip time of zero,
/// and every later answer has as much more as it is later.
pub proof fn round_trips_are_never_negative(body: Seq<u8>, now_us: u64, later_us: u64)
    requires
        body.len() >= 20,
        now_us <= later_us,
    ensures
        ({
            let sent = crate::wire::le_value(body.subrange(0, 8));
            let a = echo_result(body, now_us);
            let b = echo_result(body, later_us);
            &&& now_us <= sent ==> a.rtt_us == 0
            &&& now_us >= sent ==> b.rtt_us - a.rtt_us == later_us - now_us
            &&& a.seq == b.seq && a.payload_len == b.payload_len
            &&& body.len() <= usize::MAX ==> a.payload_len + 20 == body.len()
        }),
{
    crate::wire::le_encode_decode(body.subrange(0, 8));
}

} // verus!
