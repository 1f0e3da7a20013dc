//! Estimators: how much a sample weighs, what a trend is, what the spin bit
//! measures.

use crate::mmp::algorithms::{
    jitter_step, slope_den, slope_den_not_negative, slope_num, spread_step, sum_x, sum_xx, sum_xy,
    sum_y, thousandfold, trend, SpinModel, SrttModel, TrendModel,
};
use vstd::prelude::*;

verus! {

/// A delta moves the jitter, which is kept sixteenfold, by a sixteenth of its
/// distance from it, whichever sign the delta has.
pub proof fn jitter_moves_by_a_sixteenth(q4: int, delta: int)
    requires
        q4 >= 0,
    ensures
        ({
            let size = if delta < 0 {
                -delta
            } else {
                delta
            };
            15 * q4 + 16 * size <= 16 * jitter_step(q4, delta) < 15 * q4 + 16 * size + 16
        }),
        jitter_step(q4, delta) == jitter_step(q4, -delta),
{
}

/// The first sample is the estimate, with half of it as variance.
pub proof fn first_sample_is_taken_over(m: SrttModel, rtt: int)
    requires
        !m.initialized,
        rtt >= 0,
    ensures
        m.sampled(rtt).initialized,
        m.sampled(rtt).srtt == rtt,
        2 * m.sampled(rtt).rttvar <= rtt < 2 * m.sampled(rtt).rttvar + 2,
{
}

/// A later sample weighs an eighth in the smoothed time, and its distance from the
/// time before it a quarter in the variance, up to rounding.
pub proof fn later_samples_weigh_an_eighth(m: SrttModel, rtt: int)
    requires
        m.initialized,
    ensures
        ({
            let away = if m.srtt < rtt {
                rtt - m.srtt
            } else {
                m.srtt - rtt
            };
            let after = m.sampled(rtt);
            &&& after.initialized
            &&& 7 * m.srtt + rtt - 7 <= 8 * after.srtt <= 7 * m.srtt + rtt + 7
            &&& 3 * m.rttvar + away - 3 <= 4 * after.rttvar <= 3 * m.rttvar + away + 3
        }),
{
}

/// The timeout is the smoothed time plus four times the variance, with a second
/// added where four times the variance is less, and so is never below a second.
pub proof fn timeout_follows_time_and_variance(m: SrttModel)
    requires
        0 <= m.srtt,
        0 <= m.rttvar <= 0x1fff_ffff_ffff_ffff,
    ensures
        m.rto() >= 1_000_000,
        4 * m.rttvar >= 1_000_000 ==> m.rto() == m.srtt + 4 * m.rttvar,
        4 * m.rttvar < 1_000_000 ==> m.rto() == m.srtt + 1_000_000,
{
}

/// Samples on a line have its slope, a thousandfold, as trend: there have to be
/// two different sequence numbers among them, and the result has to fit.
pub proof fn trend_of_a_line_is_its_slope(s: Seq<(u32, i64)>, a: int, b: int, i: int, j: int)
    requires
        forall|k: int| 0 <= k < s.len() ==> (#[trigger] s[k]).1 == a + b * s[k].0,
        0 <= i < s.len(),
        0 <= j < s.len(),
        s[i].0 != s[j].0,
        i32::MIN <= 1000 * b <= i32::MAX,
    ensures
        trend(s) == 1000 * b,
{
    let d = slope_den(s);
    slope_den_not_negative(s);
    if d == 0 {
        no_spread_means_one_number(s);
        assert(s[i].0 == s[0].0);
        assert(s[j].0 == s[0].0);
    }
    line_sums(s, a, b);
    let n = s.len() as int;
    let sx = sum_x(s);
    let sxx = sum_xx(s);
    assert(slope_num(s) == b * d) by {
        assert(n * (a * sx + b * sxx) - sx * (a * n + b * sx) == b * (n * sxx - sx * sx))
            by (nonlinear_arith);
    }
    if b >= 0 {
        assert(b * d >= 0) by (nonlinear_arith)
            requires
                b >= 0,
                d >= 0,
        ;
        assert((b * d) * 1000 == (1000 * b) * d) by (nonlinear_arith);
        vstd::arithmetic::div_mod::lemma_div_by_multiple(1000 * b, d);
    } else {
        assert(b * d < 0) by (nonlinear_arith)
            requires
                b < 0,
                d > 0,
        ;
        assert((-(b * d)) * 1000 == (1000 * (-b)) * d) by (nonlinear_arith);
        vstd::arithmetic::div_mod::lemma_div_by_multiple(1000 * (-b), d);
    }
}

proof fn line_sums(s: Seq<(u32, i64)>, a: int, b: int)
    requires
        forall|k: int| 0 <= k < s.len() ==> (#[trigger] s[k]).1 == a + b * s[k].0,
    ensures
        sum_y(s) == a * s.len() + b * sum_x(s),
        sum_xy(s) == a * sum_x(s) + b * sum_xx(s),
    decreases s.len(),
{
    if s.len() > 0 {
        let h = s.drop_last();
        assert forall|k: int| 0 <= k < h.len() implies (#[trigger] h[k]).1 == a + b * h[k].0 by {
            assert(h[k] == s[k]);
        }
        line_sums(h, a, b);
        assert(s.last() == s[s.len() - 1]);
        let x = s.last().0 as int;
        let y = s.last().1 as int;
        let m = h.len() as int;
        let sx = sum_x(h);
        let sxx = sum_xx(h);
        assert(a * (m + 1) + b * (sx + x) == a * m + b * sx + (a + b * x)) by (nonlinear_arith);
        assert(x * (a + b * x) + (a * sx + b * sxx) == a * (sx + x) + b * (sxx + x * x))
            by (nonlinear_arith);
    } else {
        assert(a * 0 == 0 && b * 0 == 0);
    }
}

/// Without spread there is one sequence number only.
proof fn no_spread_means_one_number(s: Seq<(u32, i64)>)
    requires
        s.len() > 0,
        slope_den(s) == 0,
    ensures
        forall|k: int| 0 <= k < s.len() ==> (#[trigger] s[k]).0 == s[0].0,
        sum_x(s) == s.len() * s[0].0,
    decreases s.len(),
{
    let h = s.drop_last();
    let x = s.last().0 as int;
    if s.len() == 1 {
        assert(h.len() == 0);
        assert(sum_x(s) == x);
    } else {
        let n = h.len() as int;
        slope_den_not_negative(h);
        spread_step(s);
        let d = slope_den(h);
        let e = n * x - sum_x(h);
        assert(n * slope_den(s) == 0) by (nonlinear_arith)
            requires
                slope_den(s) == 0,
        ;
        assert(d == 0 && e == 0) by (nonlinear_arith)
            requires
                (n + 1) * d + e * e == 0,
                n > 0,
                d >= 0,
        ;
        no_spread_means_one_number(h);
        let c = h[0].0 as int;
        assert(x == c) by (nonlinear_arith)
            requires
                n * x == n * c,
                n > 0,
        ;
        assert forall|k: int| 0 <= k < s.len() implies (#[trigger] s[k]).0 == s[0].0 by {
            if k < n {
                assert(h[k] == s[k]);
            }
        }
        assert(h[0] == s[0]);
        assert((n + 1) * c == n * c + c) by (nonlinear_arith);
    }
}

/// The trend is the exact slope with its fraction dropped, whichever way it goes.
pub proof fn trend_drops_the_fraction(num: int, den: int)
    requires
        den > 0,
    ensures
        num >= 0 ==> den * thousandfold(num, den) <= 1000 * num < den * (thousandfold(num, den)
            + 1),
        thousandfold(-num, den) == -thousandfold(num, den),
{
    if num >= 0 {
        let q = num * 1000 / den;
        assert(den * q <= num * 1000 < den * (q + 1)) by (nonlinear_arith)
            requires
                den > 0,
                q == num * 1000 / den,
        ;
    }
    if num == 0 {
        let q = 0int / den;
        assert(q == 0) by (nonlinear_arith)
            requires
                den > 0,
                q == 0int / den,
        ;
    }
}

/// The initiator measures from one return of its bit to the next: the first is only
/// the start, and every bit that is not its own is passed over.
pub proof fn spin_measures_from_edge_to_edge(
    m: SpinModel,
    start_ns: u128,
    end_ns: u128,
    early_ns: u128,
    a: u64,
    b: u64,
    c: u64,
)
    requires
        m.is_initiator,
        m.last_edge_ns is None,
        start_ns <= end_ns,
    ensures
        ({
            let (first, none) = m.observed(m.bit, a, start_ns);
            let (same, nothing) = first.observed(m.bit, b, early_ns);
            let (second, rtt) = same.observed(!m.bit, c, end_ns);
            &&& none is None && nothing is None
            &&& rtt is Some && rtt->0 == end_ns - start_ns
            &&& first.bit == !m.bit && second.bit == m.bit
            &&& m.observed(!m.bit, a, start_ns) == (m, None::<u128>)
        }),
{
}

/// The responder sends back the bit of the newest frame and measures nothing.
pub proof fn responder_reflects_the_newest(m: SpinModel, bit: bool, counter: u64, now_ns: u128)
    requires
        !m.is_initiator,
    ensures
        m.observed(bit, counter, now_ns).1 is None,
        counter > m.highest_counter ==> m.observed(bit, counter, now_ns).0.bit == bit && m.observed(
            bit,
            counter,
            now_ns,
        ).0.highest_counter == counter,
        counter <= m.highest_counter ==> m.observed(bit, counter, now_ns).0 == m,
{
}

/// A new sample is always the last one held, and the first is held whatever the
/// capacity; at capacity the oldest goes and the others move up.
pub proof fn newest_sample_is_held(m: TrendModel, sample: (u32, i64), i: int)
    ensures
        m.pushed(sample).samples.len() >= 1,
        m.pushed(sample).samples.last() == sample,
        m.pushed(sample).capacity == m.capacity,
        m.samples.len() == 0 ==> m.pushed(sample).samples == seq![sample],
        m.samples.len() == m.capacity && 0 <= i < m.samples.len() - 1 ==> m.pushed(
            sample,
        ).samples.len() == m.capacity && m.pushed(sample).samples[i] == m.samples[i + 1],
        m.samples.len() != m.capacity && 0 <= i < m.samples.len() ==> m.pushed(
            sample,
        ).samples.len() == m.samples.len() + 1 && m.pushed(sample).samples[i] == m.samples[i],
{
}

} // verus!
