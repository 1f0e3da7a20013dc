//! Measurements: what a test counts, what it reports, when it sends.

use crate::benchmark::echo::{echo_measures_the_round_trip, framed, request_wire, EchoResult};
use crate::benchmark::manager::{
    echo_payload, frame_count, frame_interval_us, queued_probes, stream_frames, BenchModel,
};
use crate::benchmark::throughput::{
    config_of, fill, fresh_test, lcg, lcg_after, lcg_seed, report_at, report_in, request_in, request_of, result_of,
    stream_frame, stream_matches, stream_seq, streamed, Direction, ThroughputTestConfig,
    ThroughputTestState,
};
use crate::benchmark::types::ThroughputReport;
use crate::control::commands::{prepares, PreparedThroughput, ThroughputRequestParams};
use crate::identity::NodeAddr;
use crate::peer_policy::{after_frames, never_goes_back, window_allows_at_most_max, PolicyModel};
use crate::wire::{bounds, le_bytes, le_bytes_len, le_decode_encode};
use vstd::prelude::*;

verus! {

/// A test runs for its seconds from its start, whenever that was, and before its
/// start it has not run at all.
pub proof fn tests_run_for_their_time(
    test_id: u32,
    duration_secs: u8,
    start_us: u64,
    now_us: u64,
)
    ensures
        start_us <= now_us ==> (fresh_test(test_id, duration_secs, start_us).expired_at(now_us)
            <==> now_us - start_us >= duration_secs * 1_000_000),
        now_us < start_us && duration_secs > 0 ==> !fresh_test(
            test_id,
            duration_secs,
            start_us,
        ).expired_at(now_us),
{
}

/// A stream frame counts for the test that it was made for: one frame, and as many
/// bytes as its data has. Every other test stays as it is.
pub proof fn stream_frames_are_counted(
    state: ThroughputTestState,
    test_id: u32,
    seq: u32,
    data_len: nat,
)
    requires
        state.frames_recv < u32::MAX,
        state.bytes_recv + data_len <= u64::MAX,
        state.gap_count == 0,
        seq < u32::MAX,
    ensures
        ({
            let frame = stream_frame(test_id, seq, data_len);
            let after = streamed(state, frame.skip(1));
            &&& frame[0] == 0xfc
            &&& frame.len() == data_len + 9
            &&& state.test_id != test_id ==> after == state
            &&& state.test_id == test_id ==> {
                &&& stream_matches(state, frame.skip(1))
                &&& after.frames_recv == state.frames_recv + 1
                &&& after.bytes_recv == state.bytes_recv + data_len
                &&& after.expected_seq == seq + 1
                &&& seq >= state.expected_seq ==> after.gap_count == seq - state.expected_seq
                &&& seq < state.expected_seq ==> after.gap_count == 0
                &&& after.frames_sent == state.frames_sent && after.start_us == state.start_us
                    && after.test_id == state.test_id && after.duration_secs
                    == state.duration_secs
            }
        }),
{
    let frame = stream_frame(test_id, seq, data_len);
    let body = frame.skip(1);
    bounds();
    le_decode_encode(test_id as nat, 4);
    le_decode_encode(seq as nat, 4);
    assert(body.subrange(0, 4) =~= le_bytes(test_id as nat, 4));
    assert(body.subrange(4, 8) =~= le_bytes(seq as nat, 4));
}

/// While frames come in rising order, every sequence number so far belongs to a
/// frame that was received or to one that was skipped.
pub proof fn frames_are_received_or_skipped(state: ThroughputTestState, body: Seq<u8>)
    requires
        stream_matches(state, body),
        state.frames_recv + state.gap_count == state.expected_seq,
        state.expected_seq <= stream_seq(body) < u32::MAX,
        state.bytes_recv + body.len() <= u64::MAX,
    ensures
        ({
            let after = streamed(state, body);
            &&& after.frames_recv + after.gap_count == after.expected_seq
            &&& after.expected_seq == stream_seq(body) + 1
        }),
{
}

/// The rate that is reported is the bits received divided by the time since the
/// start, rounded down; without time there is no rate. What was counted is
/// reported as it is.
pub proof fn reported_rate_is_bits_over_time(state: ThroughputTestState, now_us: u64)
    requires
        state.bytes_recv * 8_000_000 <= u64::MAX,
    ensures
        ({
            let report = report_at(state, now_us);
            let bits = state.bytes_recv * 8;
            &&& state.start_us <= now_us ==> report.duration_us == now_us - state.start_us
            &&& now_us <= state.start_us ==> report.duration_us == 0 && report.achieved_bps == 0
            &&& state.start_us < now_us ==> report.achieved_bps * (now_us - state.start_us) <= bits
                * 1_000_000 < (report.achieved_bps + 1) * (now_us - state.start_us)
            &&& report.test_id == state.test_id && report.frames_sent == state.frames_sent
            &&& report.frames_recv == state.frames_recv && report.bytes_recv == state.bytes_recv
        }),
{
    if state.start_us < now_us {
        let d = now_us - state.start_us;
        let t = state.bytes_recv * 8 * 1_000_000;
        let q = t / d;
        assert(q * d <= t < (q + 1) * d && 0 <= q <= t) by (nonlinear_arith)
            requires
                d > 0,
                t >= 0,
                q == t / d,
        ;
    }
}

/// What one node asks for is what the other sets up: upload is zero on the wire,
/// download one, and every number arrives as it was sent.
pub proof fn requested_test_is_set_up(config: ThroughputTestConfig)
    ensures
        config_of(request_in(request_of(config).wire())) == config,
        request_of(config).wire().len() == 12,
        config.direction == Direction::Upload ==> request_of(config).wire()[4] == 0,
        config.direction == Direction::Download ==> request_of(config).wire()[4] == 1,
        request_of(config).wire()[5] == config.duration_secs,
{
    let req = request_of(config);
    let w = req.wire();
    bounds();
    le_decode_encode(req.test_id as nat, 4);
    le_decode_encode(req.frame_size as nat, 2);
    le_decode_encode(req.rate_bps as nat, 4);
    assert(w.subrange(0, 4) =~= le_bytes(req.test_id as nat, 4));
    assert(w.subrange(6, 8) =~= le_bytes(req.frame_size as nat, 2));
    assert(w.subrange(8, 12) =~= le_bytes(req.rate_bps as nat, 4));
}

/// What one node reports is what the other reads.
pub proof fn report_is_read_back(report: ThroughputReport)
    ensures
        report.wire().len() == 36,
        report_in(report.wire()) == report,
        result_of(report).test_id == report.test_id,
        result_of(report).achieved_bps == report.achieved_bps,
        result_of(report).total_bytes == report.bytes_recv,
        result_of(report).duration_us == report.duration_us,
        result_of(report).frames_recv == report.frames_recv,
        result_of(report).frames_sent == report.frames_sent,
{
    let w = report.wire();
    bounds();
    le_decode_encode(report.test_id as nat, 4);
    le_decode_encode(report.frames_sent as nat, 4);
    le_decode_encode(report.frames_recv as nat, 4);
    le_decode_encode(report.bytes_recv as nat, 8);
    le_decode_encode(report.duration_us as nat, 8);
    le_decode_encode(report.achieved_bps as nat, 8);
    assert(w.subrange(0, 4) =~= le_bytes(report.test_id as nat, 4));
    assert(w.subrange(4, 8) =~= le_bytes(report.frames_sent as nat, 4));
    assert(w.subrange(8, 12) =~= le_bytes(report.frames_recv as nat, 4));
    assert(w.subrange(12, 20) =~= le_bytes(report.bytes_recv as nat, 8));
    assert(w.subrange(20, 28) =~= le_bytes(report.duration_us as nat, 8));
    assert(w.subrange(28, 36) =~= le_bytes(report.achieved_bps as nat, 8));
}

/// Fill data has the length asked for, and shorter data is the beginning of longer
/// data.
pub proof fn fill_data_is_reproducible(test_id: u32, seq: u32, n: nat, m: nat)
    requires
        n <= m,
    ensures
        fill(test_id, seq, m).len() == m,
        fill(test_id, seq, m).take(n as int) == fill(test_id, seq, n),
{
    assert(fill(test_id, seq, m).take(n as int) =~= fill(test_id, seq, n));
}

/// A byte of fill data is the uppermost of the generator's state, and the state
/// before the first step differs between the frames of a test and follows the
/// number of the test.
pub proof fn fill_data_is_the_upper_byte(test_id: u32, seq: u32, n: nat, i: int)
    requires
        0 <= i < n,
    ensures
        ({
            let state = lcg_after(lcg_seed(test_id, seq), (i + 1) as nat);
            let b = fill(test_id, seq, n)[i];
            &&& b * 0x100_0000 <= state < (b + 1) * 0x100_0000
            &&& state == lcg(lcg_after(lcg_seed(test_id, seq), i as nat))
            &&& lcg_after(lcg_seed(test_id, seq), 0) == lcg_seed(test_id, seq)
            &&& lcg_seed(test_id, seq) ^ seq == lcg_seed(test_id, 0)
            &&& lcg_seed(0, seq) == seq
            &&& lcg_seed(1, 0) == 2654435761
        }),
{
    let k = ((test_id as int * 2654435761) % 0x1_0000_0000) as u32;
    assert((k ^ seq) ^ seq == k ^ 0u32) by (bit_vector);
    assert(0u32 ^ seq == seq) by (bit_vector);
    assert(2654435761u32 ^ 0u32 == 2654435761u32) by (bit_vector);
    assert((0int * 2654435761) % 0x1_0000_0000 == 0);
    assert((1int * 2654435761) % 0x1_0000_0000 == 2654435761);
}

/// The generator behind the fill data goes the same way between neighbours, counted
/// modulo its range.
pub proof fn generator_steps_evenly(state: u32)
    requires
        state < u32::MAX,
    ensures
        lcg(0) == 1013904223,
        lcg((state + 1) as u32) == lcg(state) + 1664525 || lcg((state + 1) as u32) == lcg(state)
            + 1664525 - 0x1_0000_0000,
{
    let m = 0x1_0000_0000int;
    let a = state as int * 1664525 + 1013904223;
    let b = (state + 1) as u32 as int * 1664525 + 1013904223;
    assert(b == a + 1664525);
    let (q, r) = (a / m, a % m);
    assert(a == q * m + r && 0 <= r < m);
    let r2 = if r + 1664525 < m {
        r + 1664525
    } else {
        r + 1664525 - m
    };
    let q2 = if r + 1664525 < m {
        q
    } else {
        q + 1
    };
    assert(b == q2 * m + r2);
    vstd::arithmetic::div_mod::lemma_fundamental_div_mod_converse(b, m, q2, r2);
    assert(0int * 1664525 + 1013904223 == 1013904223);
    vstd::arithmetic::div_mod::lemma_small_mod(1013904223, 0x1_0000_0000);
}

/// The pause between stream frames is the time that a frame takes at the target
/// rate, rounded down, and a millisecond where there is none; a test has as many
/// frames as fit into its time.
pub proof fn frames_fill_the_time(frame_size: u16, rate_bps: u32, duration_secs: u8)
    ensures
        rate_bps > 0 ==> frame_interval_us(frame_size, rate_bps) * rate_bps <= frame_size * 8_000_000
            < (frame_interval_us(frame_size, rate_bps) + 1) * rate_bps,
        rate_bps == 0 ==> frame_interval_us(frame_size, rate_bps) == 1000,
        ({
            let pause = if frame_interval_us(frame_size, rate_bps) == 0 {
                1
            } else {
                frame_interval_us(frame_size, rate_bps)
            };
            let n = frame_count(frame_size, rate_bps, duration_secs);
            n * pause <= duration_secs * 1_000_000 < (n + 1) * pause
        }),
{
    let i = frame_interval_us(frame_size, rate_bps);
    if rate_bps > 0 {
        let t = frame_size * 8 * 1_000_000;
        let r = rate_bps as int;
        assert(i * r <= t < (i + 1) * r && i >= 0) by (nonlinear_arith)
            requires
                r > 0,
                t >= 0,
                i == t / r,
        ;
    }
    let p = if i < 1 {
        1
    } else {
        i
    };
    let all = duration_secs * 1_000_000;
    let n = frame_count(frame_size, rate_bps, duration_secs);
    assert(n * p <= all < (n + 1) * p) by (nonlinear_arith)
        requires
            p > 0,
            n == all / p,
    ;
}

/// An echo test queues as many probes as asked for, numbered from zero, all for the
/// peer and with a payload of the size asked for; earlier results of the peer are
/// forgotten, those of others are not.
pub proof fn echo_test_is_queued(
    m: BenchModel,
    peer: NodeAddr,
    count: u32,
    payload_size: usize,
    i: int,
    other: u128,
)
    requires
        0 <= i < count,
        other != peer.value,
    ensures
        ({
            let after = m.echo_started(peer, count, payload_size);
            let n = m.echo_sends.len() as int;
            &&& after.echo_sends.len() == n + count
            &&& after.echo_sends.take(n) == m.echo_sends
            &&& after.echo_sends[n + i].0 == peer && after.echo_sends[n + i].1 == i
            &&& after.echo_sends[n + i].2.len() == payload_size
            &&& forall|k: int|
                0 <= k < payload_size ==> #[trigger] after.echo_sends[n + i].2[k] == 0xab
            &&& after.echo_expected.contains_key(peer.value) && after.echo_expected[peer.value]
                == count
            &&& after.results_of(peer.value).len() == 0
            &&& after.results_of(other) == m.results_of(other)
            &&& after.last_echo_send_ns is None && after.echo_sent_at_ns is None
        }),
{
    let after = m.echo_started(peer, count, payload_size);
    let n = m.echo_sends.len() as int;
    assert(after.echo_sends.take(n) =~= m.echo_sends);
    let q = queued_probes(peer, count as nat, payload_size as nat);
    assert(after.echo_sends[n + i] == q[i]);
    assert(q[i].2 == echo_payload(payload_size as nat));
}

/// Probes go out one after the other: the next waits until the last one has been
/// answered or two seconds are over, and in any case a tenth of a second. The time
/// since decides, not the time itself.
pub proof fn probes_go_out_one_by_one(
    m: BenchModel,
    now_ns: u128,
    ts_us: u64,
    later_ns: u128,
    later_us: u64,
)
    requires
        m.echo_sends.len() >= 2,
        m.echo_sent_at_ns is None,
        m.last_echo_send_ns is None,
        now_ns <= later_ns,
    ensures
        ({
            let (sent, first) = m.echo_polled(now_ns, ts_us);
            let (waited, second) = sent.echo_polled(later_ns, later_us);
            let answered = BenchModel { echo_sent_at_ns: None, ..sent };
            let next = answered.echo_polled(later_ns, later_us).1;
            &&& first is Some && (first->0).0 == m.echo_sends[0].0
            &&& (first->0).1 == framed(
                0xff,
                request_wire(ts_us, m.echo_sends[0].1, m.echo_sends[0].2),
            )
            &&& sent.echo_sends == m.echo_sends.skip(1)
            &&& second is Some <==> later_ns - now_ns >= 2_000_000_000
            &&& second is Some ==> (second->0).0 == m.echo_sends[1].0 && (second->0).1 == framed(
                0xff,
                request_wire(later_us, m.echo_sends[1].1, m.echo_sends[1].2),
            )
            &&& second is None ==> waited.echo_sends == sent.echo_sends
            &&& next is Some <==> later_ns - now_ns >= 100_000_000
        }),
{
    assert(m.echo_sends.drop_first() =~= m.echo_sends.skip(1));
}

/// A probe goes to its peer, comes back and is measured: what the sender keeps in
/// the end is the time from sending to the answer, the number of the probe and the
/// size of its payload. Each end allowing the frame, the answer goes to the node
/// that asked.
pub proof fn probe_makes_the_round_trip(
    here: BenchModel,
    us: NodeAddr,
    there: BenchModel,
    them: NodeAddr,
    now_ns: u128,
    ts_us: u64,
    recv_us: u64,
    done_us: u64,
)
    requires
        here.echo_sends.len() > 0,
        here.echo_sends[0].0 == them,
        here.echo_sends[0].2.len() + 20 <= usize::MAX,
        here.echo_sent_at_ns is None,
        here.last_echo_send_ns is None,
        ts_us <= done_us,
    ensures
        ({
            let (sent, out) = here.echo_polled(now_ns, ts_us);
            let asked = there.received(us, 0xff, (out->0).1.skip(1), recv_us);
            let reply = asked.echo_response;
            let end = sent.received(them, 0xfe, (reply->0).1.skip(1), done_us);
            let before = here.results_of(them.value);
            &&& out is Some && (out->0).0 == them && (out->0).1[0] == 0xff
            &&& reply is Some && (reply->0).0 == us && (reply->0).1[0] == 0xfe
            &&& end.results_of(them.value) == before.push(
                EchoResult {
                    rtt_us: (done_us - ts_us) as u64,
                    seq: here.echo_sends[0].1,
                    payload_len: here.echo_sends[0].2.len() as usize,
                },
            )
            &&& end.echo_sent_at_ns is None
        }),
{
    let (_, seq, payload) = here.echo_sends[0];
    let req = request_wire(ts_us, seq, payload);
    le_bytes_len(ts_us as nat, 8);
    le_bytes_len(seq as nat, 4);
    le_bytes_len(recv_us as nat, 8);
    assert(framed(0xff, req).skip(1) =~= req);
    let resp = crate::benchmark::echo::response_wire(req, recv_us);
    assert(framed(0xfe, resp).skip(1) =~= resp);
    echo_measures_the_round_trip(ts_us, seq, payload, recv_us, done_us);
}

/// Frames that are too short, and types that are not ours, change nothing but that
/// an answer, however short, ends the waiting.
pub proof fn malformed_messages_change_nothing(
    m: BenchModel,
    from: NodeAddr,
    msg_type: u8,
    payload: Seq<u8>,
    now_us: u64,
)
    ensures
        msg_type < 0xfb ==> m.received(from, msg_type, payload, now_us) == m,
        payload.len() < 8 ==> m.received(from, msg_type, payload, now_us) == if msg_type == 0xfe {
            BenchModel { echo_sent_at_ns: None, ..m }
        } else {
            m
        },
        msg_type == 0xff && payload.len() < 12 ==> m.received(from, msg_type, payload, now_us) == m,
        msg_type == 0xfe && payload.len() < 20 ==> m.received(
            from,
            msg_type,
            payload,
            now_us,
        ).echo_results == m.echo_results,
        msg_type == 0xfd && payload.len() < 12 ==> m.received(from, msg_type, payload, now_us) == m,
        msg_type == 0xfb && payload.len() < 36 ==> m.received(from, msg_type, payload, now_us) == m,
{
}

/// A test is set up by its request, counts its stream frames while it runs, and the
/// first frame after its time ends it and has the report sent to where it came
/// from.
pub proof fn test_runs_from_request_to_report(
    m: BenchModel,
    from: NodeAddr,
    config: ThroughputTestConfig,
    start_us: u64,
    seq: u32,
    data_len: nat,
    now_us: u64,
)
    requires
        start_us <= now_us,
        seq < u32::MAX,
        data_len <= 0xffff,
    ensures
        ({
            let set_up = m.received(from, 0xfd, request_of(config).wire(), start_us);
            let body = stream_frame(config.test_id, seq, data_len).skip(1);
            let after = set_up.received(from, 0xfc, body, now_us);
            let id = config.test_id;
            let over = now_us - start_us >= config.duration_secs * 1_000_000;
            &&& set_up.throughput_config == Some((from, config))
            &&& set_up.active.contains_key(id) && set_up.active[id] == fresh_test(
                id,
                config.duration_secs,
                start_us,
            )
            &&& after.active.contains_key(id) <==> !over
            &&& !over ==> {
                &&& after.active[id].frames_recv == 1 && after.active[id].bytes_recv == data_len
                &&& after.throughput_report == m.throughput_report
            }
            &&& over ==> {
                &&& after.throughput_report is Some && (after.throughput_report->0).0 == from
                &&& (after.throughput_report->0).1[0] == 0xfb
                &&& report_in((after.throughput_report->0).1.skip(1)).test_id == id
                &&& report_in((after.throughput_report->0).1.skip(1)).frames_recv == 1
                &&& report_in((after.throughput_report->0).1.skip(1)).bytes_recv == data_len
                &&& report_in((after.throughput_report->0).1.skip(1)).duration_us == now_us
                    - start_us
            }
        }),
{
    requested_test_is_set_up(config);
    let fresh = fresh_test(config.test_id, config.duration_secs, start_us);
    stream_frames_are_counted(fresh, config.test_id, seq, data_len);
    let body = stream_frame(config.test_id, seq, data_len).skip(1);
    bounds();
    le_decode_encode(config.test_id as nat, 4);
    le_bytes_len(seq as nat, 4);
    assert(body.subrange(0, 4) =~= le_bytes(config.test_id as nat, 4));
    let report = report_at(streamed(fresh, body), now_us);
    report_is_read_back(report);
    assert(framed(0xfb, report.wire()).skip(1) =~= report.wire());
}

/// The result that the initiator keeps has the peer's numbers, and its own count of
/// the frames that it sent where it has one; that count is used once.
pub proof fn results_hold_our_own_count(
    m: BenchModel,
    from: NodeAddr,
    report: ThroughputReport,
    now_us: u64,
)
    ensures
        ({
            let after = m.received(from, 0xfb, report.wire(), now_us);
            let id = report.test_id;
            &&& after.last_result is Some && (after.last_result->0).0 == from
            &&& (after.last_result->0).1.test_id == id
            &&& (after.last_result->0).1.achieved_bps == report.achieved_bps
            &&& (after.last_result->0).1.total_bytes == report.bytes_recv
            &&& (after.last_result->0).1.frames_recv == report.frames_recv
            &&& m.initiator_frames_sent.contains_key(id) ==> (after.last_result->0).1.frames_sent
                == m.initiator_frames_sent[id]
            &&& !m.initiator_frames_sent.contains_key(id) ==> (after.last_result->0).1.frames_sent
                == report.frames_sent
            &&& !after.initiator_frames_sent.contains_key(id)
        }),
{
    report_is_read_back(report);
}

/// Starting the stream of a test queues its frames in order, replaces what was
/// queued before, and remembers how many there are.
pub proof fn stream_is_queued(
    m: BenchModel,
    peer: NodeAddr,
    test_id: u32,
    frame_size: u16,
    rate_bps: u32,
    duration_secs: u8,
    i: int,
)
    requires
        0 <= i < frame_count(frame_size, rate_bps, duration_secs),
    ensures
        ({
            let after = m.throughput_started(peer, test_id, frame_size, rate_bps, duration_secs);
            let n = frame_count(frame_size, rate_bps, duration_secs);
            &&& after.sends.len() == n
            &&& after.sends[i].0 == peer
            &&& after.sends[i].1 == stream_frame(test_id, i as u32, frame_size as nat)
            &&& after.initiator_frames_sent.contains_key(test_id)
            &&& after.initiator_frames_sent[test_id] == n
            &&& after.send_interval_ms >= 1
            &&& after.send_interval_ms * 1000 <= frame_interval_us(frame_size, rate_bps)
                || after.send_interval_ms == 1
            &&& frame_interval_us(frame_size, rate_bps) < (after.send_interval_ms + 1) * 1000
            &&& after.last_send_ns is None
            &&& m.active.contains_key(test_id) ==> after.active[test_id].frames_sent == n
        }),
{
    frames_fill_the_time(frame_size, rate_bps, duration_secs);
    let n = frame_count(frame_size, rate_bps, duration_secs);
    let p = frame_interval_us(frame_size, rate_bps);
    assert(n <= 255_000_000) by (nonlinear_arith)
        requires
            n * (if p == 0 {
                1
            } else {
                p
            }) <= 255_000_000,
            p >= 0,
            n >= 0,
    ;
    let size = frame_size as int * 8_000_000;
    let r = rate_bps as int;
    if r > 0 {
        assert(p <= size) by (nonlinear_arith)
            requires
                p * r <= size,
                r >= 1,
                p >= 0,
        ;
    }
    assert(stream_frames(peer, test_id, frame_size, n as nat)[i] == (
        peer,
        stream_frame(test_id, i as u32, frame_size as nat),
    ));
}

/// Stream frames leave in order and none is lost or sent twice. At most two leave at
/// a time, none before the pause since the last time is over, one when it is, and
/// two when twice the pause is over.
pub proof fn stream_frames_leave_in_order(m: BenchModel, at_ns: u128, now_ns: u128)
    requires
        m.sends.len() >= 2,
        m.send_interval_ms >= 1,
        at_ns <= now_ns,
    ensures
        ({
            let last = BenchModel { last_send_ns: Some(at_ns), ..m };
            let (after, batch) = last.throughput_polled(now_ns);
            let pause = m.send_interval_ms * 1_000_000;
            &&& batch + after.sends == m.sends
            &&& now_ns - at_ns < pause ==> batch.len() == 0 && after.last_send_ns == Some(at_ns)
            &&& pause <= now_ns - at_ns < 2 * pause ==> batch.len() == 1
            &&& now_ns - at_ns >= 2 * pause ==> batch.len() == 2
            &&& now_ns - at_ns >= pause ==> after.last_send_ns == Some(now_ns)
        }),
        ({
            let first = BenchModel { last_send_ns: None, ..m };
            let (after, batch) = first.throughput_polled(now_ns);
            m.send_interval_ms <= 0xffff_ffff ==> batch.len() == 2 && batch + after.sends
                == m.sends
        }),
{
    let last = BenchModel { last_send_ns: Some(at_ns), ..m };
    let n = last.frames_due(now_ns);
    let e = (now_ns - at_ns) / 1_000_000;
    let p = m.send_interval_ms as int;
    let q = e / p;
    assert(p * q <= e < p * (q + 1)) by (nonlinear_arith)
        requires
            p > 0,
            q == e / p,
    ;
    assert(e < 2 * p <==> q < 2) by (nonlinear_arith)
        requires
            p > 0,
            p * q <= e < p * (q + 1),
    ;
    assert(m.sends.take(n) + m.sends.skip(n) =~= m.sends);
    assert(m.sends.take(2) + m.sends.skip(2) =~= m.sends);
    let big = 0xffff_ffff_ffff_ffffint;
    let first = BenchModel { last_send_ns: None, ..m };
    let k = big / p;
    if p <= 0xffff_ffff {
        assert(k >= 2) by (nonlinear_arith)
            requires
                0 < p <= 0xffff_ffff,
                k == big / p,
                big == 0xffff_ffff_ffff_ffffint,
        ;
    }
    assert(Seq::<(NodeAddr, Seq<u8>)>::empty() + m.sends =~= m.sends);
}

/// Within any second at most a hundred frames of a peer are heard, and a frame is
/// refused only where a hundred were heard within the second before it.
pub proof fn a_hundred_frames_a_second(times: Seq<u128>, i: int, j: int, now_ns: u128)
    requires
        never_goes_back(times.push(now_ns)),
        0 <= i <= j < after_frames(times).1.len(),
    ensures
        after_frames(times).1[j] - after_frames(times).1[i] < 1_000_000_000 ==> j - i + 1 <= 100,
        !after_frames(times).0.framed(now_ns).1 ==> ({
            let allowed = after_frames(times).1;
            allowed.len() >= 100 && now_ns - allowed[allowed.len() - 100] < 1_000_000_000
        }),
{
    let all = times.push(now_ns);
    assert forall|a: int, b: int| 0 <= a <= b < times.len() implies times[a] <= times[b] by {
        assert(all[a] == times[a] && all[b] == times[b]);
    }
    let allowed = after_frames(times).1;
    if allowed[j] - allowed[i] < 1_000_000_000 {
        window_allows_at_most_max(times, i, j);
    }
    if !after_frames(times).0.framed(now_ns).1 {
        crate::peer_policy::room_in_window_admits(times, now_ns);
    }
}

/// A message that is refused changes nothing, and one that is heard has its effect.
pub proof fn refused_messages_have_no_effect(
    m: BenchModel,
    from: NodeAddr,
    msg_type: u8,
    payload: Seq<u8>,
    now_ns: u128,
    now_us: u64,
)
    ensures
        m.policy.recent.len() < 100 ==> m.handled(from, msg_type, payload, now_ns, now_us)
            == (BenchModel {
            policy: PolicyModel { recent: m.policy.recent.push(now_ns) },
            ..m
        }).received(from, msg_type, payload, now_us),
        m.policy.recent.len() == 100 && m.policy.recent[0] <= now_ns && now_ns - m.policy.recent[0]
            < 1_000_000_000 ==> m.handled(from, msg_type, payload, now_ns, now_us) == m,
{
}

/// What a prepared test sends is a request that asks for exactly this test: the next
/// number, the direction, and duration, frame size and rate as given. Only the
/// number and the new test change.
pub proof fn prepared_test_asks_for_what_was_wanted(
    before: BenchModel,
    request: ThroughputRequestParams,
    peer: NodeAddr,
    direction: Direction,
    after: BenchModel,
    p: PreparedThroughput,
    other: u32,
)
    requires
        prepares(before, request, peer, direction, after, p),
        before.next_test_id < u32::MAX,
        other != before.next_test_id,
    ensures
        p.peer == peer,
        p.test_id == before.next_test_id,
        after.next_test_id == before.next_test_id + 1,
        p.frame@[0] == 0xfd,
        config_of(request_in(p.frame@.skip(1))).test_id == before.next_test_id,
        config_of(request_in(p.frame@.skip(1))).direction == direction,
        config_of(request_in(p.frame@.skip(1))).duration_secs == request.duration,
        config_of(request_in(p.frame@.skip(1))).frame_size == request.frame_size,
        config_of(request_in(p.frame@.skip(1))).rate_bps == request.rate,
        after.active.contains_key(before.next_test_id),
        after.active[before.next_test_id].duration_secs == request.duration,
        after.active[before.next_test_id].frames_recv == 0,
        after.active.contains_key(other) <==> before.active.contains_key(other),
        after.echo_sends == before.echo_sends && after.sends == before.sends,
{
    let config = ThroughputTestConfig {
        test_id: before.next_test_id,
        direction,
        duration_secs: request.duration,
        frame_size: request.frame_size,
        rate_bps: request.rate,
    };
    requested_test_is_set_up(config);
    assert(framed(0xfd, request_of(config).wire()).skip(1) =~= request_of(config).wire());
}

/// A new test has counted nothing and expects the first frame; a new manager has no
/// test, no result and nothing to send, and its first test has number one.
pub proof fn measurements_start_from_nothing(test_id: u32, duration_secs: u8, start_us: u64)
    ensures
        ({
            let t = fresh_test(test_id, duration_secs, start_us);
            &&& t.test_id == test_id && t.duration_secs == duration_secs && t.start_us == start_us
            &&& t.frames_sent == 0 && t.frames_recv == 0 && t.bytes_recv == 0
            &&& t.expected_seq == 0 && t.gap_count == 0
        }),
        ({
            let m = BenchModel::initial();
            &&& m.next_test_id == 1 && m.send_interval_ms == 100
            &&& m.echo_sends.len() == 0 && m.sends.len() == 0
            &&& m.echo_response is None && m.throughput_config is None
            &&& m.throughput_report is None && m.last_result is None
            &&& m.last_echo_send_ns is None && m.echo_sent_at_ns is None && m.last_send_ns is None
            &&& m.policy.recent.len() == 0
            &&& !m.active.contains_key(test_id) && !m.initiator_frames_sent.contains_key(test_id)
        }),
{
}

} // verus!
