//! Estimators for jitter, round-trip time and delay trends, and the spin bit.

use crate::arith::floor_div;
use crate::recency::{elapsed_since, since};
use crate::wide::{base, limit, Wide};
use std::collections::VecDeque;
use vstd::prelude::*;

verus! {

/// Half of a number, rounded towards zero.
pub open spec fn half(x: int) -> int {
    if x >= 0 {
        x / 2
    } else {
        -((-x) / 2)
    }
}

/// Absolute value.
pub open spec fn magnitude(x: int) -> int {
    if x < 0 {
        -x
    } else {
        x
    }
}

/// Interarrival jitter estimator after RFC 3550, section 6.4.1: smoothed with
/// one sixteenth, in integers scaled by sixteen.
pub struct JitterEstimator {
    jitter_q4: i64,
}

/// Upper bound of the scaled estimate.
pub open spec fn jitter_bound() -> int {
    0x8_0000_0000
}

/// The scaled estimate after a transit time delta.
pub open spec fn jitter_step(q4: int, delta: int) -> int {
    q4 + magnitude(delta) - q4 / 16
}

impl JitterEstimator {
    /// The scaled estimate.
    pub closed spec fn scaled(self) -> int {
        self.jitter_q4 as int
    }

    /// The estimate is in range.
    pub open spec fn wf(self) -> bool {
        0 <= self.scaled() <= jitter_bound()
    }

    /// No jitter yet.
    pub fn new() -> (r: JitterEstimator)
        ensures
            r.wf(),
            r.scaled() == 0,
    {
        JitterEstimator { jitter_q4: 0 }
    }

    /// Takes the difference in transit time between two frames in, in
    /// microseconds.
    pub fn update(&mut self, transit_delta: i32)
        requires
            old(self).wf(),
        ensures
            final(self).wf(),
            final(self).scaled() == jitter_step(old(self).scaled(), transit_delta as int),
    {
        let delta: i64 = transit_delta as i64;
        let abs_d: i64 = if delta < 0 {
            -delta
        } else {
            delta
        };
        self.jitter_q4 = self.jitter_q4 + (abs_d - self.jitter_q4 / 16);
    }

    /// The estimate in microseconds.
    pub fn jitter_us(&self) -> (r: u32)
        requires
            self.wf(),
        ensures
            r == self.scaled() / 16,
    {
        (self.jitter_q4 / 16) as u32
    }
}

impl Default for JitterEstimator {
    /// No jitter yet.
    fn default() -> (r: JitterEstimator)
        ensures
            r.wf(),
            r.scaled() == 0,
    {
        JitterEstimator::new()
    }
}

/// The estimate never exceeds the largest delta taken in.
pub proof fn jitter_stays_below_largest_delta(q4: int, delta: int, largest: int)
    requires
        0 <= q4 <= 16 * largest,
        magnitude(delta) <= largest,
    ensures
        0 <= jitter_step(q4, delta) <= 16 * largest,
{
}

/// Constant deltas leave an estimate that has reached them where it is.
pub proof fn settled_jitter_stays(q4: int, delta: int)
    requires
        q4 >= 0,
        q4 / 16 == magnitude(delta),
    ensures
        jitter_step(q4, delta) == q4,
{
}

/// Constant deltas move an estimate below them up and one above them down.
pub proof fn jitter_moves_towards_delta(q4: int, delta: int)
    requires
        q4 >= 0,
    ensures
        q4 / 16 < magnitude(delta) ==> jitter_step(q4, delta) > q4,
        q4 / 16 > magnitude(delta) ==> jitter_step(q4, delta) < q4,
{
}

/// Smoothed round-trip time after RFC 6298, in microseconds.
pub struct SrttEstimator {
    srtt_us: i64,
    rttvar_us: i64,
    initialized: bool,
}

/// The estimator's state.
pub ghost struct SrttModel {
    pub srtt: int,
    pub rttvar: int,
    pub initialized: bool,
}

impl SrttModel {
    /// The state after a sample: the first one is taken over with half of it as
    /// variance; later ones enter with an eighth, and with a quarter of their
    /// deviation.
    pub open spec fn sampled(self, rtt: int) -> SrttModel {
        if self.initialized {
            SrttModel {
                srtt: self.srtt - self.srtt / 8 + rtt / 8,
                rttvar: self.rttvar - self.rttvar / 4 + magnitude(self.srtt - rtt) / 4,
                initialized: true,
            }
        } else {
            SrttModel { srtt: rtt, rttvar: half(rtt), initialized: true }
        }
    }

    /// The retransmission timeout: the smoothed time and four times the variance,
    /// but at least a second of either.
    pub open spec fn rto(self) -> int {
        at_least_a_second(self.srtt + at_least_a_second(wrapped(self.rttvar * 4)))
    }
}

impl View for SrttEstimator {
    type V = SrttModel;

    closed spec fn view(&self) -> SrttModel {
        SrttModel {
            srtt: self.srtt_us as int,
            rttvar: self.rttvar_us as int,
            initialized: self.initialized,
        }
    }
}

impl SrttEstimator {
    /// No sample yet.
    pub fn new() -> (r: SrttEstimator)
        ensures
            r@ == (SrttModel { srtt: 0, rttvar: 0, initialized: false }),
    {
        SrttEstimator { srtt_us: 0, rttvar_us: 0, initialized: false }
    }

    /// Takes a sample in, in microseconds. Its distance from the estimate must
    /// be representable.
    pub fn update(&mut self, rtt_us: i64)
        requires
            old(self)@.initialized ==> i64::MIN < old(self)@.srtt - rtt_us <= i64::MAX,
        ensures
            final(self)@ == old(self)@.sampled(rtt_us as int),
    {
        if !self.initialized {
            self.srtt_us = rtt_us;
            self.rttvar_us = if rtt_us >= 0 {
                rtt_us / 2
            } else {
                floor_div(rtt_us + 1, 2)
            };
            self.initialized = true;
        } else {
            let diff: i64 = self.srtt_us - rtt_us;
            let err: i64 = if diff < 0 {
                -diff
            } else {
                diff
            };
            self.rttvar_us = self.rttvar_us - floor_div(self.rttvar_us, 4) + err / 4;
            self.srtt_us = self.srtt_us - floor_div(self.srtt_us, 8) + floor_div(rtt_us, 8);
        }
    }

    /// The smoothed round-trip time in microseconds.
    pub fn srtt_us(&self) -> (r: i64)
        ensures
            r == self@.srtt,
    {
        self.srtt_us
    }

    /// The variance in microseconds.
    pub fn rttvar_us(&self) -> (r: i64)
        ensures
            r == self@.rttvar,
    {
        self.rttvar_us
    }

    /// Whether a sample has been taken in.
    pub fn initialized(&self) -> (r: bool)
        ensures
            r == self@.initialized,
    {
        self.initialized
    }

    /// The retransmission timeout in microseconds: the smoothed time and four
    /// times the variance, but at least a second of either. The sum must be
    /// representable.
    pub fn rto_us(&self) -> (r: i64)
        requires
            self@.srtt + at_least_a_second(wrapped(self@.rttvar * 4)) <= i64::MAX,
        ensures
            r == self@.rto(),
    {
        let spread: i64 = self.rttvar_us.wrapping_mul(4);
        assert(spread == wrapped(self.rttvar_us * 4));
        let margin: i64 = if spread < 1_000_000 {
            1_000_000
        } else {
            spread
        };
        let rto: i64 = self.srtt_us + margin;
        if rto < 1_000_000 {
            1_000_000
        } else {
            rto
        }
    }
}

/// A number as a 64-bit integer that drops its upper bits.
pub open spec fn wrapped(x: int) -> int {
    (x + 0x8000_0000_0000_0000) % 0x1_0000_0000_0000_0000 - 0x8000_0000_0000_0000
}

/// A duration in microseconds, raised to a second.
pub open spec fn at_least_a_second(us: int) -> int {
    if us < 1_000_000 {
        1_000_000
    } else {
        us
    }
}

impl Default for SrttEstimator {
    /// No sample yet.
    fn default() -> (r: SrttEstimator)
        ensures
            r@ == (SrttModel { srtt: 0, rttvar: 0, initialized: false }),
    {
        SrttEstimator::new()
    }
}

/// The smoothed time stays within the range of the samples.
pub proof fn srtt_stays_in_range(m: SrttModel, rtt: int, lo: int, hi: int)
    requires
        m.initialized ==> lo <= m.srtt <= hi,
        lo <= rtt <= hi,
    ensures
        lo <= m.sampled(rtt).srtt <= hi,
{
}

/// A sample equal to the estimate leaves it where it is and lets the variance
/// shrink.
pub proof fn steady_samples_settle(m: SrttModel, rtt: int)
    requires
        m.initialized,
        m.srtt == rtt,
        m.rttvar >= 0,
    ensures
        m.sampled(rtt).srtt == rtt,
        0 <= m.sampled(rtt).rttvar <= m.rttvar,
{
}

/// One-way delay trend over the last samples, by linear regression.
pub struct OwdTrendDetector {
    samples: VecDeque<(u32, i64)>,
    capacity: usize,
}

/// The detector's state: samples of sequence number and delay, oldest first.
pub ghost struct TrendModel {
    pub samples: Seq<(u32, i64)>,
    pub capacity: nat,
}

/// Sum of the sequence numbers.
pub open spec fn sum_x(s: Seq<(u32, i64)>) -> int
    decreases s.len(),
{
    if s.len() == 0 {
        0
    } else {
        sum_x(s.drop_last()) + s.last().0
    }
}

/// Sum of the delays.
pub open spec fn sum_y(s: Seq<(u32, i64)>) -> int
    decreases s.len(),
{
    if s.len() == 0 {
        0
    } else {
        sum_y(s.drop_last()) + s.last().1
    }
}

/// Sum of the products.
pub open spec fn sum_xy(s: Seq<(u32, i64)>) -> int
    decreases s.len(),
{
    if s.len() == 0 {
        0
    } else {
        sum_xy(s.drop_last()) + s.last().0 * s.last().1
    }
}

/// Sum of the squared sequence numbers.
pub open spec fn sum_xx(s: Seq<(u32, i64)>) -> int
    decreases s.len(),
{
    if s.len() == 0 {
        0
    } else {
        sum_xx(s.drop_last()) + s.last().0 * s.last().0
    }
}

/// Numerator of the least-squares slope.
pub open spec fn slope_num(s: Seq<(u32, i64)>) -> int {
    s.len() * sum_xy(s) - sum_x(s) * sum_y(s)
}

/// Denominator of the least-squares slope.
pub open spec fn slope_den(s: Seq<(u32, i64)>) -> int {
    s.len() * sum_xx(s) - sum_x(s) * sum_x(s)
}

/// A thousand times a fraction, rounded towards zero.
pub open spec fn thousandfold(num: int, den: int) -> int {
    if num >= 0 {
        num * 1000 / den
    } else {
        -((-num) * 1000 / den)
    }
}

/// A number brought into the range of a 32-bit integer.
pub open spec fn saturated(x: int) -> int {
    if x > i32::MAX {
        i32::MAX as int
    } else if x < i32::MIN {
        i32::MIN as int
    } else {
        x
    }
}

/// The trend of some samples: a thousand times the slope, or zero where two
/// different sequence numbers are missing.
pub open spec fn trend(s: Seq<(u32, i64)>) -> int {
    if s.len() < 2 || slope_den(s) == 0 {
        0
    } else {
        saturated(thousandfold(slope_num(s), slope_den(s)))
    }
}

impl View for OwdTrendDetector {
    type V = TrendModel;

    closed spec fn view(&self) -> TrendModel {
        TrendModel { samples: self.samples@, capacity: self.capacity as nat }
    }
}

/// Bounds on the products of a sample.
proof fn products_bounded(x: int, y: int)
    requires
        0 <= x <= 0xffff_ffff,
        0 <= y <= 0x8000_0000_0000_0000,
    ensures
        0 <= x * y <= 0x8000_0000_0000_0000_0000_0000,
        0 <= x * x <= 0xffff_ffff_0000_0000,
{
    assert(0 <= x * y <= 0x8000_0000_0000_0000_0000_0000) by (nonlinear_arith)
        requires
            0 <= x <= 0xffff_ffff,
            0 <= y <= 0x8000_0000_0000_0000,
    ;
    assert(0 <= x * x <= 0xffff_ffff_0000_0000) by (nonlinear_arith)
        requires
            0 <= x <= 0xffff_ffff,
    ;
}

/// How the spread of the sequence numbers grows with one sample more.
pub(crate) proof fn spread_step(s: Seq<(u32, i64)>)
    requires
        s.len() > 1,
    ensures
        ({
            let h = s.drop_last();
            let n = h.len() as int;
            let e = n * s.last().0 - sum_x(h);
            n * slope_den(s) == (n + 1) * slope_den(h) + e * e
        }),
{
    let h = s.drop_last();
    let x = s.last().0 as int;
    let n = h.len() as int;
    let sx = sum_x(h);
    let sxx = sum_xx(h);
    let p = x * x;
    let c = sx * x;
    let t = sx * sx;
    let a = n * sxx;
    let b = n * p;
    let u = n * x;
    assert((sx + x) * (sx + x) == t + 2 * c + p) by (nonlinear_arith)
        requires
            p == x * x,
            c == sx * x,
            t == sx * sx,
    ;
    assert((n + 1) * (sxx + p) == a + b + sxx + p) by (nonlinear_arith)
        requires
            a == n * sxx,
            b == n * p,
    ;
    assert(n * (a + b + sxx - t - 2 * c) == n * a + n * b + a - n * t - 2 * (n * c))
        by (nonlinear_arith)
        requires
            a == n * sxx,
    ;
    assert((u - sx) * (u - sx) == u * u - 2 * (u * sx) + t) by (nonlinear_arith)
        requires
            t == sx * sx,
    ;
    assert(u * u == n * b) by (nonlinear_arith)
        requires
            u == n * x,
            b == n * (x * x),
    ;
    assert(u * sx == n * c) by (nonlinear_arith)
        requires
            u == n * x,
            c == sx * x,
    ;
    assert((n + 1) * (a - t) == n * a - n * t + a - t) by (nonlinear_arith);
}

/// The spread of the sequence numbers is never negative.
pub(crate) proof fn slope_den_not_negative(s: Seq<(u32, i64)>)
    ensures
        slope_den(s) >= 0,
    decreases s.len(),
{
    if s.len() == 1 {
        let x = s.last().0 as int;
        let h = s.drop_last();
        assert(sum_x(h) == 0 && sum_xx(h) == 0);
        let (n, sx, sxx) = (s.len() as int, sum_x(s), sum_xx(s));
        assert(n * sxx - sx * sx == 0) by (nonlinear_arith)
            requires
                n == 1,
                sx == x,
                sxx == x * x,
        ;
    } else if s.len() > 1 {
        let h = s.drop_last();
        slope_den_not_negative(h);
        spread_step(s);
        let n = h.len() as int;
        let e = n * s.last().0 - sum_x(h);
        assert(e * e >= 0) by (nonlinear_arith);
        let d = slope_den(h);
        assert((n + 1) * d >= 0) by (nonlinear_arith)
            requires
                d >= 0,
                n >= 0,
        ;
        let q = slope_den(s);
        assert(q >= 0) by (nonlinear_arith)
            requires
                n * q >= 0,
                n > 0,
        ;
    }
}

/// The sums that a trend is made of, with the delays before and after zero apart.
struct TrendSums {
    x: u128,
    xx: u128,
    above: u128,
    below: u128,
    x_above: Wide,
    x_below: Wide,
}

impl TrendSums {
    /// Whether these are the sums over some samples, within the bounds that their
    /// number gives.
    spec fn over(self, s: Seq<(u32, i64)>) -> bool {
        let k = s.len() as int;
        &&& self.x == sum_x(s)
        &&& self.xx == sum_xx(s)
        &&& self.above - self.below == sum_y(s)
        &&& self.x_above@ - self.x_below@ == sum_xy(s)
        &&& self.x <= k * 0xffff_ffff
        &&& self.xx <= k * 0xffff_ffff_0000_0000
        &&& self.above <= k * 0x8000_0000_0000_0000
        &&& self.below <= k * 0x8000_0000_0000_0000
        &&& 0 <= self.x_above@ <= k * 0x8000_0000_0000_0000_0000_0000
        &&& 0 <= self.x_below@ <= k * 0x8000_0000_0000_0000_0000_0000
    }

    /// The sums over one sample more.
    fn with(&self, seq: u32, owd: i64, Ghost(s): Ghost<Seq<(u32, i64)>>) -> (r: TrendSums)
        requires
            self.over(s),
            s.len() < 0xffff_ffff_ffff_ffff,
        ensures
            r.over(s.push((seq, owd))),
    {
        let x: u128 = seq as u128;
        let size: u128 = if owd < 0 {
            (-(owd as i128)) as u128
        } else {
            owd as u128
        };
        proof {
            products_bounded(x as int, size as int);
            let t = s.push((seq, owd));
            assert(t.drop_last() =~= s);
            assert(t.last() == (seq, owd));
            let a = seq as int;
            let b = owd as int;
            assert(a * b == if b < 0 {
                -(a * (-b))
            } else {
                a * b
            }) by (nonlinear_arith);
        }
        let product: u128 = x * size;
        if owd < 0 {
            TrendSums {
                x: self.x + x,
                xx: self.xx + x * x,
                above: self.above,
                below: self.below + size,
                x_above: self.x_above,
                x_below: self.x_below.plus(&Wide::of(product)),
            }
        } else {
            TrendSums {
                x: self.x + x,
                xx: self.xx + x * x,
                above: self.above + size,
                below: self.below,
                x_above: self.x_above.plus(&Wide::of(product)),
                x_below: self.x_below,
            }
        }
    }
}

/// The whole part of a fraction, cut off below two to the 32nd.
fn bounded_quotient(num: &Wide, den: &Wide) -> (q: u64)
    requires
        den@ > 0,
        den@ * 0x1_0000_0000 < limit(),
    ensures
        q <= 0xffff_ffff,
        q < 0xffff_ffff ==> q == num@ / den@,
        q == 0xffff_ffff ==> num@ / den@ >= q,
{
    let mut low: u64 = 0;
    let mut high: u64 = 0x1_0000_0000;
    let ghost n = num@;
    let ghost d = den@;
    proof {
        num.in_range();
        assert(d * 0 == 0);
    }
    while high - low > 1
        invariant
            n == num@,
            d == den@,
            0 < d,
            d * 0x1_0000_0000 < limit(),
            low < high <= 0x1_0000_0000,
            d * low <= n,
            high < 0x1_0000_0000 ==> n < d * high,
        decreases high - low,
    {
        let mid: u64 = low + (high - low) / 2;
        assert(0 <= d * mid <= d * 0x1_0000_0000) by (nonlinear_arith)
            requires
                0 < d,
                0 <= mid <= 0x1_0000_0000,
        ;
        if den.times(mid).at_most(num) {
            low = mid;
        } else {
            high = mid;
        }
    }
    proof {
        let r = n - d * low;
        let q = n / d;
        vstd::arithmetic::div_mod::lemma_fundamental_div_mod(n, d);
        vstd::arithmetic::div_mod::lemma_mod_bound(n, d);
        assert(q >= low) by (nonlinear_arith)
            requires
                n == d * q + n % d,
                n % d < d,
                d * low <= n,
                d > 0,
        ;
        if high < 0x1_0000_0000 {
            assert(q <= low) by (nonlinear_arith)
                requires
                    n == d * q + n % d,
                    0 <= n % d,
                    n < d * (low + 1),
                    d > 0,
            ;
        }
    }
    low
}

/// A thousand times a fraction whose numerator is a difference, rounded towards
/// zero and brought into range.
fn scaled_slope(up: &Wide, down: &Wide, den: &Wide) -> (r: i32)
    requires
        0 <= up@ <= 2 * span(),
        0 <= down@ <= 2 * span(),
        den@ > 0,
        den@ * 0x1_0000_0000 < limit(),
    ensures
        r == saturated(thousandfold(up@ - down@, den@)),
{
    proof {
        range_facts();
    }
    let falls = !down.at_most(up);
    let size = if falls {
        down.minus(up)
    } else {
        up.minus(down)
    };
    let t: u64 = bounded_quotient(&size.times(1000), den);
    if falls {
        if t > 0x8000_0000 {
            i32::MIN
        } else {
            (-(t as i64)) as i32
        }
    } else if t > 0x7fff_ffff {
        i32::MAX
    } else {
        t as i32
    }
}

/// How the slope follows from sums of delays before and after zero, and that
/// nothing on the way leaves the range.
proof fn slope_parts(
    n: int,
    x: int,
    xx: int,
    above: int,
    below: int,
    x_above: int,
    x_below: int,
)
    requires
        0 <= n <= 0xffff_ffff_ffff_ffff,
        0 <= x <= n * 0xffff_ffff,
        0 <= xx <= n * 0xffff_ffff_0000_0000,
        0 <= above <= n * 0x8000_0000_0000_0000,
        0 <= below <= n * 0x8000_0000_0000_0000,
        0 <= x_above <= n * 0x8000_0000_0000_0000_0000_0000,
        0 <= x_below <= n * 0x8000_0000_0000_0000_0000_0000,
    ensures
        0 <= x_above * n <= span(),
        0 <= x_below * n <= span(),
        0 <= x * below <= span(),
        0 <= x * above <= span(),
        0 <= x * x,
        0 <= xx * n,
        xx * n * 0x1_0000_0000 < limit(),
        x * x < limit(),
        2000 * span() < limit(),
        n * (x_above - x_below) - x * (above - below) == (x_above * n + x * below) - (x_below * n + x
            * above),
        n * xx == xx * n,
{
    let w: int = 0xffff_ffff_ffff_ffff;
    let h: int = 0x8000_0000_0000_0000_0000_0000;
    assert(0 <= x_above * n <= w * h * w && 0 <= x_below * n <= w * h * w) by (nonlinear_arith)
        requires
            0 <= n <= w,
            h > 0,
            0 <= x_above <= w * h,
            0 <= x_below <= w * h,
    ;
    let u: int = 0x1_0000_0000_0000_0000_0000_0000;
    let v: int = 0x8000_0000_0000_0000_0000_0000_0000_0000;
    assert(0 <= x * below <= u * v && 0 <= x * above <= u * v && 0 <= x * x <= u * u)
        by (nonlinear_arith)
        requires
            0 <= x <= u,
            0 <= above <= v,
            0 <= below <= v,
    ;
    let z: int = w * 0xffff_ffff_0000_0000;
    assert(0 <= xx * n <= z * w) by (nonlinear_arith)
        requires
            0 <= n <= w,
            0 <= xx <= z,
    ;
    range_facts();
    assert(n * (x_above - x_below) - x * (above - below) == (x_above * n + x * below) - (x_below * n
        + x * above)) by (nonlinear_arith);
    assert(n * xx == xx * n) by (nonlinear_arith);
}

/// A bound on each product that the numerator of a slope is made of.
spec fn span() -> int {
    0x8000_0000_0000_0000_0000_0000 * base() * base()
}

/// Bounds on products of the largest factors.
proof fn range_facts()
    ensures
        0xffff_ffff_ffff_ffff * 0x8000_0000_0000_0000_0000_0000 * 0xffff_ffff_ffff_ffff <= span(),
        0x1_0000_0000_0000_0000_0000_0000 * 0x8000_0000_0000_0000_0000_0000_0000_0000 <= span(),
        0x1_0000_0000_0000_0000_0000_0000 * 0x1_0000_0000_0000_0000_0000_0000 < limit(),
        (0xffff_ffff_ffff_ffff * 0xffff_ffff_0000_0000) * 0xffff_ffff_ffff_ffff * 0x1_0000_0000
            < limit(),
        2000 * span() < limit(),
{
}

impl OwdTrendDetector {
    /// A detector over the last `capacity` samples.
    pub fn new(capacity: usize) -> (r: OwdTrendDetector)
        ensures
            r@ == TrendModel::fresh(capacity as nat),
    {
        OwdTrendDetector { samples: VecDeque::new(), capacity }
    }

    /// Forgets all samples: the detector is then like a new one of its capacity.
    pub fn clear(&mut self)
        ensures
            final(self)@ == TrendModel::fresh(old(self)@.capacity),
    {
        self.samples.clear();
    }

    /// Adds a sample: a sequence number and a relative delay in microseconds.
    /// At capacity the oldest sample goes.
    pub fn push(&mut self, seq: u32, owd_us: i64)
        ensures
            final(self)@ == old(self)@.pushed((seq, owd_us)),
    {
        if self.samples.len() == self.capacity {
            self.samples.pop_front();
            assert(old(self)@.samples.len() > 0 ==> self.samples@ =~= old(
                self,
            )@.samples.drop_first());
        }
        self.samples.push_back((seq, owd_us));
    }

    /// The trend in microseconds per second, at about a thousand frames a
    /// second: a thousand times the least-squares slope, rounded towards zero.
    pub fn trend_us_per_sec(&self) -> (r: i32)
        ensures
            r == trend(self@.samples),
    {
        let n: usize = self.samples.len();
        if n < 2 {
            return 0;
        }
        let ghost s = self.samples@;
        let mut sums = TrendSums {
            x: 0,
            xx: 0,
            above: 0,
            below: 0,
            x_above: Wide::of(0),
            x_below: Wide::of(0),
        };
        let mut k: usize = 0;
        assert(s.take(0) =~= seq![]);
        while k < n
            invariant
                k <= n,
                s == self.samples@,
                n == s.len(),
                sums.over(s.take(k as int)),
            decreases n - k,
        {
            let (seq, owd) = self.samples[k];
            assert(s.take(k + 1) =~= s.take(k as int).push(s[k as int]));
            sums = sums.with(seq, owd, Ghost(s.take(k as int)));
            k += 1;
        }
        assert(s.take(k as int) =~= s);
        proof {
            slope_den_not_negative(s);
            slope_parts(
                n as int,
                sums.x as int,
                sums.xx as int,
                sums.above as int,
                sums.below as int,
                sums.x_above@,
                sums.x_below@,
            );
        }
        let x = Wide::of(sums.x);
        let up = sums.x_above.times(n as u64).plus(&x.times_double(sums.below));
        let down = sums.x_below.times(n as u64).plus(&x.times_double(sums.above));
        let square = x.times_double(sums.x);
        let spread = Wide::of(sums.xx).times(n as u64);
        assert(spread@ - square@ == slope_den(s));
        let den = spread.minus(&square);
        assert(up@ - down@ == slope_num(s));
        if den.at_most(&Wide::of(0)) {
            return 0;
        }
        scaled_slope(&up, &down, &den)
    }

    /// Number of samples.
    pub fn len(&self) -> (r: usize)
        ensures
            r == self@.samples.len(),
    {
        self.samples.len()
    }

    /// Whether there is no sample.
    pub fn is_empty(&self) -> (r: bool)
        ensures
            r == (self@.samples.len() == 0),
    {
        self.samples.len() == 0
    }
}

impl TrendModel {
    /// A detector without samples.
    pub open spec fn fresh(capacity: nat) -> TrendModel {
        TrendModel { samples: Seq::empty(), capacity }
    }

    /// The detector after one more sample.
    pub open spec fn pushed(self, sample: (u32, i64)) -> TrendModel {
        TrendModel {
            samples: if self.samples.len() == self.capacity && self.samples.len() > 0 {
                self.samples.drop_first().push(sample)
            } else {
                self.samples.push(sample)
            },
            ..self
        }
    }

    /// The detector after some samples more.
    pub open spec fn pushed_all(self, samples: Seq<(u32, i64)>) -> TrendModel
        decreases samples.len(),
    {
        if samples.len() == 0 {
            self
        } else {
            self.pushed_all(samples.drop_last()).pushed(samples.last())
        }
    }
}

/// A detector holds the last samples up to its capacity, oldest first; so its
/// trend is that of a fresh detector that saw only those.
pub proof fn only_the_last_samples_count(capacity: nat, samples: Seq<(u32, i64)>)
    requires
        capacity >= 1,
    ensures
        ({
            let m = TrendModel::fresh(capacity).pushed_all(samples);
            let kept = if samples.len() <= capacity {
                samples
            } else {
                samples.skip(samples.len() - capacity)
            };
            &&& m.samples == kept
            &&& m == TrendModel::fresh(capacity).pushed_all(kept)
        }),
{
    last_samples_are_held(capacity, samples);
    if samples.len() > capacity {
        let kept = samples.skip(samples.len() - capacity);
        last_samples_are_held(capacity, kept);
    }
}

/// A detector holds the last samples up to its capacity.
proof fn last_samples_are_held(capacity: nat, samples: Seq<(u32, i64)>)
    requires
        capacity >= 1,
    ensures
        TrendModel::fresh(capacity).pushed_all(samples).capacity == capacity,
        TrendModel::fresh(capacity).pushed_all(samples).samples == if samples.len() <= capacity {
            samples
        } else {
            samples.skip(samples.len() - capacity)
        },
    decreases samples.len(),
{
    if samples.len() == 0 {
        assert(samples =~= Seq::empty());
    } else {
        let head = samples.drop_last();
        last_samples_are_held(capacity, head);
        let before = TrendModel::fresh(capacity).pushed_all(head).samples;
        let after = TrendModel::fresh(capacity).pushed_all(samples).samples;
        if head.len() < capacity {
            assert(after =~= samples);
        } else if head.len() == capacity {
            assert(after =~= samples.skip(1));
        } else {
            assert(after =~= samples.skip(samples.len() - capacity));
        }
    }
}

/// A constant delay has no trend.
pub proof fn constant_delay_has_no_trend(s: Seq<(u32, i64)>, owd: i64)
    requires
        forall|i: int| 0 <= i < s.len() ==> (#[trigger] s[i]).1 == owd,
    ensures
        trend(s) == 0,
{
    constant_sums(s, owd);
    let n = s.len() as int;
    let sx = sum_x(s);
    let c = owd as int;
    assert(n * (c * sx) - sx * (c * n) == 0) by (nonlinear_arith);
    slope_den_not_negative(s);
    if slope_den(s) > 0 {
        assert(0int / slope_den(s) == 0) by {
            vstd::arithmetic::div_mod::lemma_small_mod(0, slope_den(s) as nat);
            vstd::arithmetic::div_mod::lemma_fundamental_div_mod(0, slope_den(s));
            let d = slope_den(s);
            let q = 0int / d;
            assert(q == 0) by (nonlinear_arith)
                requires
                    d * q == 0,
                    d > 0,
            ;
        }
    }
}

/// The sums over samples with a constant delay.
proof fn constant_sums(s: Seq<(u32, i64)>, owd: i64)
    requires
        forall|i: int| 0 <= i < s.len() ==> (#[trigger] s[i]).1 == owd,
    ensures
        sum_y(s) == owd * s.len(),
        sum_xy(s) == owd * sum_x(s),
    decreases s.len(),
{
    if s.len() > 0 {
        let h = s.drop_last();
        assert forall|i: int| 0 <= i < h.len() implies (#[trigger] h[i]).1 == owd by {
            assert(h[i] == s[i]);
        }
        constant_sums(h, owd);
        assert(s.last() == s[s.len() - 1]);
        let c = owd as int;
        let x = s.last().0 as int;
        let m = h.len() as int;
        let sx = sum_x(h);
        assert(c * (m + 1) == c * m + c) by (nonlinear_arith);
        assert(c * (sx + x) == c * sx + x * c) by (nonlinear_arith);
    }
}

/// Spin bit state for passive round-trip measurement.
///
/// The initiator flips its bit whenever it comes back, and measures from flip to
/// flip. The responder reflects the bit, and takes it only from frames with a
/// higher counter than before.
pub struct SpinBitState {
    is_initiator: bool,
    current_value: bool,
    highest_counter_for_spin: u64,
    last_edge_ns: Option<u128>,
}

/// The state of one end.
pub ghost struct SpinModel {
    pub is_initiator: bool,
    pub bit: bool,
    pub highest_counter: u64,
    pub last_edge_ns: Option<u128>,
}

impl SpinModel {
    /// What a received bit leads to.
    pub open spec fn observed(self, bit: bool, counter: u64, now_ns: u128) -> (
        SpinModel,
        Option<u128>,
    ) {
        if self.is_initiator {
            if bit == self.bit {
                (
                    SpinModel { bit: !self.bit, last_edge_ns: Some(now_ns), ..self },
                    match self.last_edge_ns {
                        Some(at) => Some(since(now_ns, at) as u128),
                        None => None,
                    },
                )
            } else {
                (self, None)
            }
        } else if counter > self.highest_counter {
            (SpinModel { bit, highest_counter: counter, ..self }, None)
        } else {
            (self, None)
        }
    }
}

impl View for SpinBitState {
    type V = SpinModel;

    closed spec fn view(&self) -> SpinModel {
        SpinModel {
            is_initiator: self.is_initiator,
            bit: self.current_value,
            highest_counter: self.highest_counter_for_spin,
            last_edge_ns: self.last_edge_ns,
        }
    }
}

impl SpinBitState {
    /// An end that has not sent or received yet.
    pub fn new(is_initiator: bool) -> (r: SpinBitState)
        ensures
            r@ == (SpinModel { is_initiator, bit: false, highest_counter: 0, last_edge_ns: None }),
    {
        SpinBitState {
            is_initiator,
            current_value: false,
            highest_counter_for_spin: 0,
            last_edge_ns: None,
        }
    }

    /// Whether this end is the initiator.
    pub fn is_initiator(&self) -> (r: bool)
        ensures
            r == self@.is_initiator,
    {
        self.is_initiator
    }

    /// The bit for an outgoing frame.
    pub fn tx_bit(&self) -> (r: bool)
        ensures
            r == self@.bit,
    {
        self.current_value
    }

    /// Takes the bit of a received frame in. The initiator gets a round-trip
    /// time in nanoseconds from the second edge on.
    pub fn rx_observe(&mut self, received_bit: bool, counter: u64, now_ns: u128) -> (r: Option<u128>)
        ensures
            (final(self)@, r) == old(self)@.observed(received_bit, counter, now_ns),
    {
        if self.is_initiator {
            if received_bit == self.current_value {
                let rtt = match self.last_edge_ns {
                    Some(at) => Some(elapsed_since(now_ns, at)),
                    None => None,
                };
                self.last_edge_ns = Some(now_ns);
                self.current_value = !self.current_value;
                rtt
            } else {
                None
            }
        } else {
            if counter > self.highest_counter_for_spin {
                self.highest_counter_for_spin = counter;
                self.current_value = received_bit;
            }
            None
        }
    }
}

/// A frame that arrives late does not change what the responder reflects.
pub proof fn reordered_frames_are_ignored(m: SpinModel, bit: bool, counter: u64, now_ns: u128)
    requires
        !m.is_initiator,
        counter <= m.highest_counter,
    ensures
        m.observed(bit, counter, now_ns) == (m, None::<u128>),
{
}

/// After an edge the initiator waits for its new bit: the old one coming back
/// again is no edge.
pub proof fn edge_needs_the_new_bit(
    m: SpinModel,
    counter: u64,
    now_ns: u128,
    again: u64,
    then_ns: u128,
)
    requires
        m.is_initiator,
    ensures
        ({
            let after = m.observed(m.bit, counter, now_ns).0;
            after.observed(m.bit, again, then_ns) == (after, None::<u128>)
        }),
{
}

} // verus!
