//! Round-trip latency measurement.

use crate::benchmark::types::{
    now_micros, EchoRequest, EchoResponse, MSG_ECHO_REQUEST, MSG_ECHO_RESPONSE,
};
use crate::wire::{copy_range, le_bytes, le_value, put_bytes};
use vstd::prelude::*;
use vstd::relations::{sorted_by, total_ordering};

verus! {

/// Result of one echo probe.
#[derive(Clone, Copy, Debug)]
pub struct EchoResult {
    /// Round-trip time in microseconds.
    pub rtt_us: u64,
    /// Sequence number of the probe.
    pub seq: u32,
    /// Length of the payload that came back.
    pub payload_len: usize,
}

/// Statistics over some probes.
#[derive(Clone, Debug)]
pub struct EchoStats {
    /// The results.
    pub results: Vec<EchoResult>,
    /// Smallest round-trip time in microseconds.
    pub min_us: u64,
    /// Largest round-trip time in microseconds.
    pub max_us: u64,
    /// Mean round-trip time in microseconds.
    pub mean_us: u64,
    /// Median round-trip time in microseconds.
    pub median_us: u64,
    /// 95th percentile of the round-trip times in microseconds.
    pub p95_us: u64,
    /// Probes without an answer.
    pub loss_count: usize,
    /// Mean absolute deviation of the round-trip times in microseconds.
    pub jitter_us: u64,
}

/// A frame: the message type, then the body.
pub open spec fn framed(msg_type: u8, body: Seq<u8>) -> Seq<u8> {
    seq![msg_type] + body
}

/// Puts the message type in front of a body.
pub(crate) fn with_type(msg_type: u8, body: &Vec<u8>) -> (r: Vec<u8>)
    ensures
        r@ == framed(msg_type, body@),
{
    let mut frame: Vec<u8> = Vec::new();
    frame.push(msg_type);
    put_bytes(&mut frame, body.as_slice());
    assert(frame@ =~= framed(msg_type, body@));
    frame
}

/// The body of an echo request.
pub open spec fn request_wire(ts_us: u64, seq: u32, payload: Seq<u8>) -> Seq<u8> {
    le_bytes(ts_us as nat, 8) + le_bytes(seq as nat, 4) + payload
}

/// Builds the frame of an echo request sent at `ts_us`.
pub fn build_echo_request_frame_at(ts_us: u64, seq: u32, payload: &[u8]) -> (r: Vec<u8>)
    ensures
        r@ == framed(MSG_ECHO_REQUEST, request_wire(ts_us, seq, payload@)),
{
    let copied = copy_range(payload, 0, payload.len());
    assert(copied@ =~= payload@);
    let req = EchoRequest { ts_us, seq, payload: copied };
    with_type(MSG_ECHO_REQUEST, &req.encode())
}

/// Builds the frame of an echo request sent now.
pub fn build_echo_request_frame(seq: u32, payload: &[u8]) -> (r: Vec<u8>)
    ensures
        exists|ts_us: u64| r@ == framed(MSG_ECHO_REQUEST, #[trigger] request_wire(ts_us, seq, payload@)),
{
    let ts_us = now_micros();
    build_echo_request_frame_at(ts_us, seq, payload)
}

/// The body of the response to an echo request body received at `recv_ts`:
/// timestamp, time of receipt, then what followed the timestamp.
pub open spec fn response_wire(request_body: Seq<u8>, recv_ts: u64) -> Seq<u8> {
    request_body.take(8) + le_bytes(recv_ts as nat, 8) + request_body.skip(8)
}

/// Builds the response frame to an echo request body received at `recv_ts`.
pub fn build_echo_response_frame_at(request_body: &[u8], recv_ts: u64) -> (r: Option<Vec<u8>>)
    ensures
        match r {
            Some(frame) => request_body@.len() >= 12 && frame@ == framed(
                MSG_ECHO_RESPONSE,
                response_wire(request_body@, recv_ts),
            ),
            None => request_body@.len() < 12,
        },
{
    match EchoRequest::decode(request_body) {
        Some(req) => {
            let resp = EchoResponse::from_request(&req, recv_ts);
            let body = resp.encode();
            proof {
                crate::wire::le_encode_decode(request_body@.subrange(0, 8));
                crate::wire::le_encode_decode(request_body@.subrange(8, 12));
                assert(body@ =~= response_wire(request_body@, recv_ts));
            }
            Some(with_type(MSG_ECHO_RESPONSE, &body))
        },
        None => None,
    }
}

/// Builds the response frame to an echo request body received now; a malformed
/// body gets none.
pub fn build_echo_response_frame(request_body: &[u8]) -> (r: Option<Vec<u8>>)
    ensures
        match r {
            Some(frame) => request_body@.len() >= 12 && exists|recv_ts: u64|
                frame@ == framed(
                    MSG_ECHO_RESPONSE,
                    #[trigger] response_wire(request_body@, recv_ts),
                ),
            None => request_body@.len() < 12,
        },
{
    let recv_ts = now_micros();
    build_echo_response_frame_at(request_body, recv_ts)
}

/// What an echo response received at `now_us` tells.
pub open spec fn echo_result(response_body: Seq<u8>, now_us: u64) -> EchoResult {
    let sent = le_value(response_body.subrange(0, 8));
    EchoResult {
        rtt_us: if now_us >= sent {
            (now_us - sent) as u64
        } else {
            0
        },
        seq: le_value(response_body.subrange(16, 20)) as u32,
        payload_len: (response_body.len() - 20) as usize,
    }
}

/// Evaluates an echo response body received at `now_us`; a malformed one yields
/// nothing.
pub fn handle_echo_response_at(response_body: &[u8], now_us: u64) -> (r: Option<EchoResult>)
    ensures
        r == if response_body@.len() >= 20 {
            Some(echo_result(response_body@, now_us))
        } else {
            None
        },
{
    match EchoResponse::decode(response_body) {
        Some(resp) => Some(
            EchoResult {
                rtt_us: now_us.saturating_sub(resp.send_ts),
                seq: resp.seq,
                payload_len: resp.payload.len(),
            },
        ),
        None => None,
    }
}

/// Evaluates an echo response body received now; a malformed one yields nothing.
pub fn handle_echo_response(response_body: &[u8]) -> (r: Option<EchoResult>)
    ensures
        match r {
            Some(x) => response_body@.len() >= 20 && exists|now_us: u64|
                x == #[trigger] echo_result(response_body@, now_us),
            None => response_body@.len() < 20,
        },
{
    let now_us = now_micros();
    handle_echo_response_at(response_body, now_us)
}

/// A probe that the peer answers is measured from when it was sent to when the
/// answer came, whatever the peer's clock says.
pub proof fn echo_measures_the_round_trip(
    ts_us: u64,
    seq: u32,
    payload: Seq<u8>,
    recv_ts: u64,
    now_us: u64,
)
    requires
        ts_us <= now_us,
        payload.len() + 20 <= usize::MAX,
    ensures
        echo_result(response_wire(request_wire(ts_us, seq, payload), recv_ts), now_us) == (
        EchoResult {
            rtt_us: (now_us - ts_us) as u64,
            seq,
            payload_len: payload.len() as usize,
        }),
{
    let req = request_wire(ts_us, seq, payload);
    let resp = response_wire(req, recv_ts);
    crate::wire::bounds();
    crate::wire::le_decode_encode(ts_us as nat, 8);
    crate::wire::le_decode_encode(seq as nat, 4);
    crate::wire::le_bytes_len(recv_ts as nat, 8);
    assert(resp.subrange(0, 8) =~= le_bytes(ts_us as nat, 8));
    assert(resp.subrange(16, 20) =~= le_bytes(seq as nat, 4));
}

/// The round-trip times of some results.
pub open spec fn rtts(results: Seq<EchoResult>) -> Seq<u64> {
    results.map_values(|r: EchoResult| r.rtt_us)
}

/// Numeric order.
pub open spec fn ascending() -> spec_fn(u64, u64) -> bool {
    |a: u64, b: u64| a <= b
}

/// The round-trip times in ascending order.
pub open spec fn sorted_rtts(results: Seq<EchoResult>) -> Seq<u64> {
    rtts(results).sort_by(ascending())
}

/// Sum of some numbers.
pub open spec fn total(s: Seq<u64>) -> int
    decreases s.len(),
{
    if s.len() == 0 {
        0
    } else {
        total(s.drop_last()) + s.last()
    }
}

/// Distance of two numbers.
pub open spec fn distance(a: int, b: int) -> int {
    if a < b {
        b - a
    } else {
        a - b
    }
}

/// Sum of the distances to `mean`.
pub open spec fn total_deviation(s: Seq<u64>, mean: int) -> int
    decreases s.len(),
{
    if s.len() == 0 {
        0
    } else {
        total_deviation(s.drop_last(), mean) + distance(s.last() as int, mean)
    }
}

/// Mean of some numbers, rounded down.
pub open spec fn mean(s: Seq<u64>) -> int {
    total(s) / s.len() as int
}

/// The middle one of some sorted numbers, or the mean of the two in the middle.
pub open spec fn median(s: Seq<u64>) -> int {
    let n = s.len() as int;
    if n % 2 == 1 {
        s[n / 2] as int
    } else {
        (s[n / 2 - 1] + s[n / 2]) / 2
    }
}

/// Place of the 95th percentile among `n` sorted numbers, counted from one:
/// the smallest that leaves at least 95 of 100 at or before it.
pub open spec fn p95_rank(n: int) -> int {
    (n * 95 + 99) / 100
}

/// What the statistics over some results are.
pub open spec fn is_stats(results: Seq<EchoResult>, total_expected: usize, stats: EchoStats) -> bool {
    let s = sorted_rtts(results);
    let n = results.len() as int;
    &&& stats.results@ == results
    &&& stats.loss_count == if total_expected >= n {
        total_expected - n
    } else {
        0
    }
    &&& if n == 0 {
        stats.min_us == 0 && stats.max_us == 0 && stats.mean_us == 0 && stats.median_us == 0
            && stats.p95_us == 0 && stats.jitter_us == 0
    } else {
        &&& stats.min_us == s[0]
        &&& stats.max_us == s[n - 1]
        &&& stats.mean_us == mean(s)
        &&& stats.median_us == median(s)
        &&& stats.p95_us == s[p95_rank(n) - 1]
        &&& stats.jitter_us == if n > 1 {
            total_deviation(s, mean(s)) / n
        } else {
            0
        }
    }
}

/// Whether the sums that the statistics need fit their types.
pub open spec fn stats_fit(results: Seq<EchoResult>) -> bool {
    let s = sorted_rtts(results);
    &&& total(s) <= u64::MAX
    &&& results.len() > 1 ==> {
        &&& total_deviation(s, mean(s)) <= u64::MAX
        &&& forall|i: int| 0 <= i < results.len() ==> (#[trigger] results[i]).rtt_us <= i64::MAX
    }
}

/// Numeric order is total.
proof fn ascending_is_total()
    ensures
        total_ordering(ascending()),
{
}

/// The round-trip times in ascending order.
fn sort_rtts(results: &Vec<EchoResult>) -> (sorted: Vec<u64>)
    ensures
        sorted@ == sorted_rtts(results@),
        sorted@.len() == results@.len(),
        sorted_by(sorted@, ascending()),
        sorted@.to_multiset() == rtts(results@).to_multiset(),
{
    broadcast use vstd::seq_lib::group_to_multiset_ensures;

    let mut sorted: Vec<u64> = Vec::new();
    let mut i: usize = 0;
    assert(rtts(results@).take(0) =~= sorted@);
    while i < results.len()
        invariant
            i <= results.len(),
            sorted@.len() == i,
            sorted_by(sorted@, ascending()),
            sorted@.to_multiset() == rtts(results@).take(i as int).to_multiset(),
        decreases results.len() - i,
    {
        let x: u64 = results[i].rtt_us;
        let ghost before = sorted@;
        let mut k: usize = 0;
        while k < sorted.len() && sorted[k] <= x
            invariant
                k <= sorted.len(),
                sorted@ == before,
                forall|j: int| 0 <= j < k ==> sorted@[j] <= x,
            decreases sorted.len() - k,
        {
            k += 1;
        }
        sorted.insert(k, x);
        proof {
            let all = rtts(results@);
            assert(all.take(i + 1) =~= all.take(i as int).push(x));
            vstd::seq_lib::to_multiset_build(all.take(i as int), x);
            vstd::seq_lib::to_multiset_insert(before, k as int, x);
            assert forall|a: int, b: int| 0 <= a < b < sorted@.len() implies (#[trigger] ascending()(
                sorted@[a],
                sorted@[b],
            )) by {
                if b == k {
                } else if a == k {
                    if b > k {
                        assert(before[b - 1] == sorted@[b]);
                        if k < before.len() {
                            if (k as int) < b - 1 {
                                assert(ascending()(before[k as int], before[b - 1]));
                            }
                        }
                    }
                } else {
                    let a0 = if a < k {
                        a
                    } else {
                        a - 1
                    };
                    let b0 = if b < k {
                        b
                    } else {
                        b - 1
                    };
                    assert(ascending()(before[a0], before[b0]));
                }
            }
        }
        i += 1;
    }
    proof {
        let all = rtts(results@);
        assert(all.take(i as int) =~= all);
        ascending_is_total();
        all.lemma_sort_by_ensures(ascending());
        vstd::seq_lib::lemma_sorted_unique(sorted@, all.sort_by(ascending()), ascending());
    }
    sorted
}

/// A part of some numbers sums to no more than all of them.
proof fn total_grows(s: Seq<u64>, k: int)
    requires
        0 <= k <= s.len(),
    ensures
        0 <= total(s.take(k)) <= total(s),
    decreases s.len(),
{
    if k == s.len() {
        assert(s.take(k) =~= s);
        if s.len() > 0 {
            total_grows(s.drop_last(), 0);
        }
    } else {
        assert(s.drop_last().take(k) =~= s.take(k));
        total_grows(s.drop_last(), k);
    }
}

/// Two neighbours sum to no more than all.
proof fn neighbours_bounded(s: Seq<u64>, k: int)
    requires
        0 < k < s.len(),
    ensures
        s[k - 1] + s[k] <= total(s),
{
    let t = s.take(k + 1);
    total_grows(s, k + 1);
    assert(t.last() == s[k]);
    let u = t.drop_last();
    assert(u =~= s.take(k));
    assert(u.last() == s[k - 1]);
    assert(u.drop_last() =~= s.take(k - 1));
    total_grows(s, k - 1);
    assert(total(t) == total(u) + s[k]);
    assert(total(u) == total(s.take(k - 1)) + s[k - 1]);
}

/// A part of some numbers deviates no more than all of them.
proof fn deviation_grows(s: Seq<u64>, m: int, k: int)
    requires
        0 <= k <= s.len(),
    ensures
        0 <= total_deviation(s.take(k), m) <= total_deviation(s, m),
    decreases s.len(),
{
    if k == s.len() {
        assert(s.take(k) =~= s);
        if s.len() > 0 {
            deviation_grows(s.drop_last(), m, 0);
        }
    } else {
        assert(s.drop_last().take(k) =~= s.take(k));
        deviation_grows(s.drop_last(), m, k);
    }
}

/// Sum of some numbers.
fn sum_of(s: &Vec<u64>) -> (r: u64)
    requires
        total(s@) <= u64::MAX,
    ensures
        r == total(s@),
{
    let mut r: u64 = 0;
    let mut i: usize = 0;
    assert(s@.take(0) =~= seq![]);
    while i < s.len()
        invariant
            i <= s.len(),
            total(s@) <= u64::MAX,
            r == total(s@.take(i as int)),
        decreases s.len() - i,
    {
        proof {
            total_grows(s@, i + 1);
            assert(s@.take(i + 1).drop_last() =~= s@.take(i as int));
        }
        r = r + s[i];
        i += 1;
    }
    assert(s@.take(i as int) =~= s@);
    r
}

/// Sum of the distances of some numbers to `m`.
fn deviation_of(s: &Vec<u64>, m: u64) -> (r: u64)
    requires
        total_deviation(s@, m as int) <= u64::MAX,
    ensures
        r == total_deviation(s@, m as int),
{
    let mut r: u64 = 0;
    let mut i: usize = 0;
    assert(s@.take(0) =~= seq![]);
    while i < s.len()
        invariant
            i <= s.len(),
            total_deviation(s@, m as int) <= u64::MAX,
            r == total_deviation(s@.take(i as int), m as int),
        decreases s.len() - i,
    {
        proof {
            deviation_grows(s@, m as int, i + 1);
            assert(s@.take(i + 1).drop_last() =~= s@.take(i as int));
        }
        let x: u64 = s[i];
        let d: u64 = if x < m {
            m - x
        } else {
            x - m
        };
        r = r + d;
        i += 1;
    }
    assert(s@.take(i as int) =~= s@);
    r
}

/// Sum of some numbers, without limit.
fn wide_sum_of(s: &Vec<u64>) -> (r: u128)
    ensures
        r == total(s@),
{
    let mut r: u128 = 0;
    let mut i: usize = 0;
    assert(s@.take(0) =~= seq![]);
    while i < s.len()
        invariant
            i <= s.len(),
            r == total(s@.take(i as int)),
            r <= i * 0xffff_ffff_ffff_ffff,
        decreases s.len() - i,
    {
        proof {
            assert(s@.take(i + 1).drop_last() =~= s@.take(i as int));
            wide_room(i as int);
        }
        r = r + s[i] as u128;
        i += 1;
    }
    assert(s@.take(i as int) =~= s@);
    r
}

/// Sum of the distances of some numbers to `m`, without limit.
fn wide_deviation_of(s: &Vec<u64>, m: u64) -> (r: u128)
    ensures
        r == total_deviation(s@, m as int),
{
    let mut r: u128 = 0;
    let mut i: usize = 0;
    assert(s@.take(0) =~= seq![]);
    while i < s.len()
        invariant
            i <= s.len(),
            r == total_deviation(s@.take(i as int), m as int),
            r <= i * 0xffff_ffff_ffff_ffff,
        decreases s.len() - i,
    {
        proof {
            assert(s@.take(i + 1).drop_last() =~= s@.take(i as int));
            wide_room(i as int);
        }
        let x: u64 = s[i];
        let d: u64 = if x < m {
            m - x
        } else {
            x - m
        };
        r = r + d as u128;
        i += 1;
    }
    assert(s@.take(i as int) =~= s@);
    r
}

/// Fewer than 2^64 numbers below 2^64 sum to something below 2^128.
proof fn wide_room(i: int)
    requires
        0 <= i < 0xffff_ffff_ffff_ffff,
    ensures
        i * 0xffff_ffff_ffff_ffff + 0xffff_ffff_ffff_ffff == (i + 1) * 0xffff_ffff_ffff_ffff,
        (i + 1) * 0xffff_ffff_ffff_ffff <= u128::MAX,
{
    assert((i + 1) * 0xffff_ffff_ffff_ffff <= 0xffff_ffff_ffff_ffff * 0xffff_ffff_ffff_ffff)
        by (nonlinear_arith)
        requires
            0 <= i + 1 <= 0xffff_ffff_ffff_ffff,
    ;
}

/// Whether the sums that the statistics need fit their types.
pub fn echo_stats_fit(results: &Vec<EchoResult>) -> (r: bool)
    ensures
        r == stats_fit(results@),
{
    if results.len() == 0 {
        proof {
            ascending_is_total();
            rtts(results@).lemma_sort_by_ensures(ascending());
            vstd::seq_lib::to_multiset_len(sorted_rtts(results@));
            vstd::seq_lib::to_multiset_len(rtts(results@));
        }
        return true;
    }
    let s = sort_rtts(results);
    let n: usize = s.len();
    let sum: u128 = wide_sum_of(&s);
    if sum > 0xffff_ffff_ffff_ffff {
        return false;
    }
    if n == 1 {
        return true;
    }
    let mut i: usize = 0;
    while i < results.len()
        invariant
            i <= results.len(),
            results.len() > 1,
            forall|j: int| 0 <= j < i ==> (#[trigger] results@[j]).rtt_us <= i64::MAX,
        decreases results.len() - i,
    {
        if results[i].rtt_us > 0x7fff_ffff_ffff_ffff {
            return false;
        }
        i += 1;
    }
    proof {
        let t = total(s@);
        let d = n as int;
        assert(0 <= t / d <= t) by (nonlinear_arith)
            requires
                t >= 0,
                d >= 1,
        ;
    }
    let mean_us: u64 = (sum / (n as u128)) as u64;
    wide_deviation_of(&s, mean_us) <= 0xffff_ffff_ffff_ffff
}

/// Computes the statistics over some results, of which `total_expected` were
/// hoped for. The sums involved have to fit.
pub fn compute_echo_stats(results: Vec<EchoResult>, total_expected: usize) -> (stats: EchoStats)
    requires
        stats_fit(results@),
    ensures
        is_stats(results@, total_expected, stats),
{
    if results.len() == 0 {
        return EchoStats {
            results,
            min_us: 0,
            max_us: 0,
            mean_us: 0,
            median_us: 0,
            p95_us: 0,
            loss_count: total_expected,
            jitter_us: 0,
        };
    }
    let s = sort_rtts(&results);
    let n: usize = s.len();
    let mean_us: u64 = sum_of(&s) / (n as u64);
    proof {
        total_grows(s@, 0);
        let t = total(s@);
        let d = n as int;
        assert(0 <= t / d <= t) by (nonlinear_arith)
            requires
                t >= 0,
                d >= 1,
        ;
    }
    let median_us: u64 = if n % 2 == 1 {
        s[n / 2]
    } else {
        proof {
            neighbours_bounded(s@, n as int / 2);
        }
        (s[n / 2 - 1] + s[n / 2]) / 2
    };
    let rank: u128 = ((n as u128) * 95 + 99) / 100;
    let p95_us: u64 = s[rank as usize - 1];
    let loss_count: usize = total_expected.saturating_sub(results.len());
    let jitter_us: u64 = if n > 1 {
        deviation_of(&s, mean_us) / (n as u64)
    } else {
        0
    };
    EchoStats {
        min_us: s[0],
        max_us: s[n - 1],
        mean_us,
        median_us,
        p95_us,
        loss_count,
        jitter_us,
        results,
    }
}

/// Median and 95th percentile lie between the smallest and the largest
/// round-trip time, and so does the mean.
pub proof fn stats_are_ordered(results: Seq<EchoResult>, total_expected: usize, stats: EchoStats)
    requires
        results.len() > 0,
        is_stats(results, total_expected, stats),
    ensures
        stats.min_us <= stats.median_us <= stats.max_us,
        stats.min_us <= stats.p95_us <= stats.max_us,
        stats.median_us <= stats.p95_us || results.len() % 2 == 0,
        stats.min_us <= stats.mean_us <= stats.max_us,
{
    let s = sorted_rtts(results);
    let n = results.len() as int;
    ascending_is_total();
    rtts(results).lemma_sort_by_ensures(ascending());
    vstd::seq_lib::to_multiset_len(s);
    vstd::seq_lib::to_multiset_len(rtts(results));
    assert(s.len() == n);
    assert forall|i: int, j: int| 0 <= i <= j < n implies s[i] <= s[j] by {
        if i < j {
            assert(ascending()(s[i], s[j]));
        }
    }
    total_between(s, s[0] as int, s[n - 1] as int);
    let t = total(s);
    let lo = s[0] as int;
    let hi = s[n - 1] as int;
    assert(lo <= t / n <= hi) by (nonlinear_arith)
        requires
            lo * n <= t <= hi * n,
            n >= 1,
    ;
}

/// Numbers between two bounds sum to something between their multiples.
proof fn total_between(s: Seq<u64>, lo: int, hi: int)
    requires
        forall|i: int| 0 <= i < s.len() ==> lo <= #[trigger] s[i] <= hi,
    ensures
        lo * s.len() <= total(s) <= hi * s.len(),
    decreases s.len(),
{
    if s.len() > 0 {
        let h = s.drop_last();
        assert forall|i: int| 0 <= i < h.len() implies lo <= #[trigger] h[i] <= hi by {
            assert(h[i] == s[i]);
        }
        total_between(h, lo, hi);
        let m = h.len() as int;
        assert(lo * (m + 1) == lo * m + lo) by (nonlinear_arith);
        assert(hi * (m + 1) == hi * m + hi) by (nonlinear_arith);
    }
}

} // verus!
