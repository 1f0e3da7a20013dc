//! Benchmark messages, statistics and test bookkeeping.

use fips::benchmark::echo::{
    build_echo_request_frame, build_echo_request_frame_at, build_echo_response_frame,
    build_echo_response_frame_at, compute_echo_stats, echo_stats_fit, handle_echo_response,
    handle_echo_response_at, EchoResult,
};
use fips::benchmark::manager::{total_frames, BenchmarkManager};
use fips::benchmark::throughput::{
    build_throughput_report_frame, build_throughput_report_frame_at,
    build_throughput_request_frame, build_throughput_stream_frame, generate_stream_data,
    handle_throughput_stream, parse_throughput_report, parse_throughput_request, Direction,
    ThroughputTestConfig, ThroughputTestState,
};
use fips::benchmark::types::{
    now_micros, timestamp, EchoRequest, EchoResponse, ThroughputReport, ThroughputRequest, ThroughputStream,
    DIRECTION_DOWNLOAD, DIRECTION_UPLOAD, ECHO_REQUEST_MIN_SIZE, MSG_ECHO_REQUEST,
    MSG_ECHO_RESPONSE, MSG_THROUGHPUT_REPORT, MSG_THROUGHPUT_REQUEST, MSG_THROUGHPUT_STREAM,
    THROUGHPUT_REPORT_SIZE, THROUGHPUT_REQUEST_SIZE,
};
use fips::identity::NodeAddr;

const MS: u128 = 1_000_000;

fn node(n: u8) -> NodeAddr {
    NodeAddr::from_bytes([n; 16])
}

fn result(rtt_us: u64, seq: u32) -> EchoResult {
    EchoResult { rtt_us, seq, payload_len: 0 }
}

#[test]
fn build_and_parse_echo_request() {
    let frame = build_echo_request_frame(1, &[0xAA, 0xBB]);
    assert_eq!(frame[0], MSG_ECHO_REQUEST);
    let body = &frame[1..];
    let decoded = EchoRequest::decode(body).unwrap();
    assert_eq!(decoded.seq, 1);
    assert_eq!(decoded.payload, vec![0xAA, 0xBB]);
}

#[test]
fn build_echo_response_from_request() {
    let req_frame = build_echo_request_frame(42, &[]);
    let req_body = &req_frame[1..];
    let resp_frame = build_echo_response_frame(req_body).unwrap();
    assert_eq!(resp_frame[0], MSG_ECHO_RESPONSE);
    let resp_body = &resp_frame[1..];
    let resp = EchoResponse::decode(resp_body).unwrap();
    assert_eq!(resp.seq, 42);
}

#[test]
fn compute_stats_basic() {
    let results = vec![
        EchoResult { rtt_us: 100, seq: 0, payload_len: 0 },
        EchoResult { rtt_us: 200, seq: 1, payload_len: 0 },
        EchoResult { rtt_us: 300, seq: 2, payload_len: 0 },
    ];
    let stats = compute_echo_stats(results, 5);
    assert_eq!(stats.min_us, 100);
    assert_eq!(stats.max_us, 300);
    assert_eq!(stats.mean_us, 200);
    assert_eq!(stats.median_us, 200);
    assert_eq!(stats.loss_count, 2);
    assert!(stats.jitter_us > 0);
}

#[test]
fn compute_stats_empty() {
    let stats = compute_echo_stats(vec![], 10);
    assert_eq!(stats.loss_count, 10);
    assert_eq!(stats.min_us, 0);
}

#[test]
fn build_and_parse_request() {
    let config = ThroughputTestConfig {
        test_id: 42,
        direction: Direction::Upload,
        duration_secs: 5,
        frame_size: 256,
        rate_bps: 40000,
    };
    let frame = build_throughput_request_frame(&config);
    assert_eq!(frame[0], MSG_THROUGHPUT_REQUEST);
    let parsed = parse_throughput_request(&frame[1..]).unwrap();
    assert_eq!(parsed.test_id, 42);
    assert_eq!(parsed.direction, Direction::Upload);
    assert_eq!(parsed.duration_secs, 5);
}

#[test]
fn stream_frame_roundtrip() {
    let frame = build_throughput_stream_frame(1, 10, 64);
    assert_eq!(frame[0], MSG_THROUGHPUT_STREAM);
    let (test_id, seq, data) = ThroughputStream::decode(&frame[1..]).unwrap();
    assert_eq!(test_id, 1);
    assert_eq!(seq, 10);
    assert_eq!(data.len(), 64);
}

#[test]
fn handle_stream_tracks_state() {
    let mut state = ThroughputTestState::new(1, 5);
    let body = {
        let frame = build_throughput_stream_frame(1, 0, 32);
        frame[1..].to_vec()
    };
    assert!(handle_throughput_stream(&mut state, &body));
    assert_eq!(state.frames_recv, 1);
    assert_eq!(state.bytes_recv, 32);
    assert_eq!(state.expected_seq, 1);
}

#[test]
fn handle_stream_detects_gaps() {
    let mut state = ThroughputTestState::new(1, 5);
    state.expected_seq = 0;

    let body = {
        let frame = build_throughput_stream_frame(1, 5, 16);
        frame[1..].to_vec()
    };
    assert!(handle_throughput_stream(&mut state, &body));
    assert_eq!(state.gap_count, 5);
}

#[test]
fn handle_stream_rejects_wrong_test() {
    let mut state = ThroughputTestState::new(1, 5);
    let body = {
        let frame = build_throughput_stream_frame(99, 0, 16);
        frame[1..].to_vec()
    };
    assert!(!handle_throughput_stream(&mut state, &body));
}

#[test]
fn generate_data_deterministic() {
    let a = generate_stream_data(1, 1, 32);
    let b = generate_stream_data(1, 1, 32);
    assert_eq!(a, b);
    let c = generate_stream_data(2, 1, 32);
    assert_ne!(a, c);
}

#[test]
fn report_roundtrip() {
    let state = ThroughputTestState {
        test_id: 7,
        duration_secs: 5,
        frames_sent: 100,
        frames_recv: 95,
        bytes_recv: 24320,
        start_us: now_micros() - 5_000_000,
        expected_seq: 100,
        gap_count: 5,
    };
    let frame = build_throughput_report_frame(&state);
    assert_eq!(frame[0], MSG_THROUGHPUT_REPORT);
    let result = parse_throughput_report(&frame[1..]).unwrap();
    assert_eq!(result.test_id, 7);
    assert_eq!(result.frames_sent, 100);
    assert_eq!(result.frames_recv, 95);
    let loss: f64 = 1.0 - result.frames_recv as f64 / result.frames_sent as f64;
    assert!((loss - 0.05).abs() < 0.001);
}

#[test]
fn echo_request_roundtrip() {
    let req = EchoRequest {
        ts_us: 1_700_000_000_000_000,
        seq: 42,
        payload: vec![0xDE, 0xAD, 0xBE, 0xEF],
    };
    let encoded = req.encode();
    let decoded = EchoRequest::decode(&encoded).unwrap();
    assert_eq!(decoded.ts_us, req.ts_us);
    assert_eq!(decoded.seq, req.seq);
    assert_eq!(decoded.payload, req.payload);
}

#[test]
fn echo_request_min_payload() {
    let req = EchoRequest { ts_us: 0, seq: 0, payload: vec![] };
    let encoded = req.encode();
    assert_eq!(encoded.len(), ECHO_REQUEST_MIN_SIZE);
    let decoded = EchoRequest::decode(&encoded).unwrap();
    assert!(decoded.payload.is_empty());
}

#[test]
fn echo_request_too_short() {
    assert!(EchoRequest::decode(&[0u8; 11]).is_none());
}

#[test]
fn echo_response_roundtrip() {
    let resp = EchoResponse { send_ts: 100, recv_ts: 200, seq: 7, payload: vec![1, 2, 3] };
    let encoded = resp.encode();
    let decoded = EchoResponse::decode(&encoded).unwrap();
    assert_eq!(decoded.send_ts, 100);
    assert_eq!(decoded.recv_ts, 200);
    assert_eq!(decoded.seq, 7);
    assert_eq!(decoded.payload, vec![1, 2, 3]);
}

#[test]
fn throughput_request_roundtrip() {
    let req = ThroughputRequest {
        test_id: 1234,
        direction: DIRECTION_UPLOAD,
        duration_secs: 5,
        frame_size: 256,
        rate_bps: 40000,
    };
    let encoded = req.encode();
    assert_eq!(encoded.len(), THROUGHPUT_REQUEST_SIZE);
    let decoded = ThroughputRequest::decode(&encoded).unwrap();
    assert_eq!(decoded.test_id, 1234);
    assert_eq!(decoded.direction, DIRECTION_UPLOAD);
    assert_eq!(decoded.duration_secs, 5);
    assert_eq!(decoded.frame_size, 256);
    assert_eq!(decoded.rate_bps, 40000);
}

#[test]
fn throughput_stream_roundtrip() {
    let stream = ThroughputStream { test_id: 99, seq: 1000, data: vec![0xAA; 64] };
    let encoded = stream.encode();
    let (test_id, seq, data) = ThroughputStream::decode(&encoded).unwrap();
    assert_eq!(test_id, 99);
    assert_eq!(seq, 1000);
    assert_eq!(data.len(), 64);
}

#[test]
fn throughput_report_roundtrip() {
    let report = ThroughputReport {
        test_id: 7,
        frames_sent: 100,
        frames_recv: 95,
        bytes_recv: 24320,
        duration_us: 5_000_000,
        achieved_bps: 2_000_000,
    };
    let encoded = report.encode();
    assert_eq!(encoded.len(), THROUGHPUT_REPORT_SIZE);
    let decoded = ThroughputReport::decode(&encoded).unwrap();
    assert_eq!(decoded.test_id, 7);
    assert_eq!(decoded.frames_sent, 100);
    assert_eq!(decoded.frames_recv, 95);
    assert_eq!(decoded.bytes_recv, 24320);
    assert_eq!(decoded.duration_us, 5_000_000);
    assert_eq!(decoded.achieved_bps, 2_000_000);
}

#[test]
fn throughput_report_encode_into() {
    let report = ThroughputReport {
        test_id: 1,
        frames_sent: 10,
        frames_recv: 8,
        bytes_recv: 2048,
        duration_us: 1000000,
        achieved_bps: 16384,
    };
    let mut buf = vec![0u8; THROUGHPUT_REPORT_SIZE];
    let len = report.encode_into(&mut buf).unwrap();
    assert_eq!(len, THROUGHPUT_REPORT_SIZE);
    let decoded = ThroughputReport::decode(&buf).unwrap();
    assert_eq!(decoded.test_id, 1);
}

#[test]
fn now_micros_is_reasonable() {
    let us = now_micros();
    // Should be after 2020 and before 2100
    assert!(us > 1577836800000000);
    assert!(us < 4102444800000000);
}

#[test]
fn timestamps_keep_the_low_bits() {
    assert_eq!(timestamp(Some(7)), 7);
    assert_eq!(timestamp(Some((1u128 << 64) + 7)), 7);
    assert_eq!(timestamp(None), 0);
}

#[test]
fn report_does_not_fit_into_a_short_buffer() {
    let report = ThroughputReport {
        test_id: 1,
        frames_sent: 10,
        frames_recv: 8,
        bytes_recv: 2048,
        duration_us: 1000000,
        achieved_bps: 16384,
    };
    let mut buf = vec![7u8; THROUGHPUT_REPORT_SIZE - 1];
    assert!(report.encode_into(&mut buf).is_none());
    assert!(ThroughputReport::decode(&buf).is_none());
    let mut short = [0u8; 22];
    let resp = EchoResponse { send_ts: 1, recv_ts: 2, seq: 3, payload: vec![1, 2, 3] };
    assert!(resp.encode_into(&mut short).is_none());
    let mut enough = [0u8; 23];
    assert_eq!(resp.encode_into(&mut enough), Some(23));
    assert_eq!(EchoResponse::decode(&enough).unwrap().payload, vec![1, 2, 3]);
}

#[test]
fn echo_request_is_little_endian() {
    let req = EchoRequest { ts_us: 0x0102030405060708, seq: 0x0A0B0C0D, payload: vec![0xEE] };
    assert_eq!(
        req.encode(),
        vec![8, 7, 6, 5, 4, 3, 2, 1, 0x0D, 0x0C, 0x0B, 0x0A, 0xEE],
    );
}

#[test]
fn echo_measures_from_request_to_answer() {
    let request = build_echo_request_frame_at(1_000, 9, &[1, 2, 3]);
    let answer = build_echo_response_frame_at(&request[1..], 1_400).unwrap();
    let seen = handle_echo_response_at(&answer[1..], 2_500).unwrap();
    assert_eq!(seen.rtt_us, 1_500);
    assert_eq!(seen.seq, 9);
    assert_eq!(seen.payload_len, 3);
    // A clock that went back shows no negative time.
    assert_eq!(handle_echo_response_at(&answer[1..], 10).unwrap().rtt_us, 0);
    assert!(handle_echo_response(&answer[1..12]).is_none());
    assert!(build_echo_response_frame(&request[1..8]).is_none());
}

#[test]
fn echo_stats_have_exact_values() {
    let rtts = [40u64, 10, 30, 20];
    let results: Vec<EchoResult> =
        rtts.iter().enumerate().map(|(i, r)| result(*r, i as u32)).collect();
    assert!(echo_stats_fit(&results));
    let stats = compute_echo_stats(results, 3);
    assert_eq!(stats.min_us, 10);
    assert_eq!(stats.max_us, 40);
    assert_eq!(stats.mean_us, 25);
    assert_eq!(stats.median_us, 25);
    assert_eq!(stats.p95_us, 40);
    assert_eq!(stats.loss_count, 0);
    let many: Vec<EchoResult> = (1..=100u32).map(|i| result(i as u64, i)).collect();
    let stats = compute_echo_stats(many, 100);
    assert_eq!(stats.p95_us, 95);
    assert_eq!(stats.mean_us, 50);
    let huge = vec![result(u64::MAX, 0), result(1, 1)];
    assert!(!echo_stats_fit(&huge));
}

#[test]
fn p95_agrees_with_the_fraction() {
    for n in 1..400usize {
        let results: Vec<EchoResult> =
            (0..n).map(|i| result((i as u64 + 1) * 10, i as u32)).collect();
        let stats = compute_echo_stats(results, n);
        let rank = (n as f64 * 0.95).ceil() as usize;
        let index = rank.saturating_sub(1).min(n - 1);
        assert_eq!(stats.p95_us, (index as u64 + 1) * 10, "n = {n}");
    }
}

#[test]
fn every_other_direction_is_download() {
    let req = ThroughputRequest {
        test_id: 3,
        direction: DIRECTION_DOWNLOAD,
        duration_secs: 1,
        frame_size: 2,
        rate_bps: 3,
    };
    let parsed = parse_throughput_request(&req.encode()).unwrap();
    assert_eq!(parsed.direction, Direction::Download);
    let odd = ThroughputRequest { direction: 9, ..req };
    assert_eq!(
        parse_throughput_request(&odd.encode()).unwrap().direction,
        Direction::Download
    );
    assert!(parse_throughput_request(&[0u8; 3]).is_none());
}

#[test]
fn report_shows_the_rate() {
    let mut state = ThroughputTestState::starting_at(4, 5, 1_000_000);
    state.bytes_recv = 1000;
    state.frames_recv = 4;
    state.frames_sent = 5;
    let frame = build_throughput_report_frame_at(&state, 3_000_000);
    let shown = parse_throughput_report(&frame[1..]).unwrap();
    assert_eq!(shown.duration_us, 2_000_000);
    assert_eq!(shown.achieved_bps, 4_000);
    assert_eq!(shown.total_bytes, 1000);
    assert!(parse_throughput_report(&frame[1..8]).is_none());
}

#[test]
fn test_expires_after_its_duration() {
    let state = ThroughputTestState::starting_at(4, 5, 1_000_000);
    assert!(!state.is_expired_at(5_999_999));
    assert!(state.is_expired_at(60_000_000));
    assert!(!ThroughputTestState::new(1, 5).is_expired());
}

#[test]
fn frames_in_order_have_no_gap() {
    let mut state = ThroughputTestState::new(8, 5);
    for seq in 0..4u32 {
        let frame = build_throughput_stream_frame(8, seq, 10);
        assert!(handle_throughput_stream(&mut state, &frame[1..]));
    }
    assert_eq!(state.gap_count, 0);
    assert_eq!(state.frames_recv, 4);
    assert_eq!(state.bytes_recv, 40);
}

#[test]
fn frame_totals_follow_rate_and_duration() {
    // 256 bytes at 40000 bits per second are 51200 us each.
    assert_eq!(total_frames(256, 40000, 5), 97);
    assert_eq!(total_frames(256, 0, 1), 1000);
    assert_eq!(total_frames(0, 40000, 1), 1_000_000);
}

#[test]
fn manager_answers_echo_requests() {
    let mut bm = BenchmarkManager::new();
    let request = build_echo_request_frame_at(77, 3, &[5]);
    assert!(bm.fits(MSG_ECHO_REQUEST, &request[1..]));
    bm.handle_link_message_at(&node(1), MSG_ECHO_REQUEST, &request[1..], 0, 99);
    let (to, frame) = bm.take_echo_response().unwrap();
    assert_eq!(to, node(1));
    let resp = EchoResponse::decode(&frame[1..]).unwrap();
    assert_eq!((resp.send_ts, resp.recv_ts, resp.seq), (77, 99, 3));
    assert!(bm.take_echo_response().is_none());
}

#[test]
fn manager_runs_an_echo_test() {
    let mut bm = BenchmarkManager::new();
    bm.start_echo_test(node(2), 2, 4);
    assert_eq!(bm.echo_expected_count(&node(2)), Some(2));
    assert!(bm.echo_sends_pending());
    let (to, first) = bm.poll_echo_sends_at(MS, 10).unwrap();
    assert_eq!(to, node(2));
    // The answer is waited for.
    assert!(bm.poll_echo_sends_at(2 * MS, 20).is_none());
    let answer = build_echo_response_frame_at(&first[1..], 15).unwrap();
    bm.handle_link_message_at(&node(2), MSG_ECHO_RESPONSE, &answer[1..], 3 * MS, 30);
    assert_eq!(bm.get_echo_stats(&node(2)).unwrap().len(), 1);
    assert_eq!(bm.get_echo_stats(&node(2)).unwrap()[0].rtt_us, 20);
    let (_, second) = bm.poll_echo_sends_at(400 * MS, 40).unwrap();
    assert!(!bm.echo_sends_pending() || bm.poll_echo_sends_at(401 * MS, 41).is_none());
    let answer = build_echo_response_frame_at(&second[1..], 45).unwrap();
    bm.handle_link_message_at(&node(2), MSG_ECHO_RESPONSE, &answer[1..], 402 * MS, 80);
    assert_eq!(bm.echo_results_ready(&node(2)), Some(true));
    assert!(bm.echo_stats_fit(&node(2)));
    let stats = bm.take_echo_stats(&node(2)).unwrap();
    assert_eq!(stats.min_us, 20);
    assert_eq!(stats.max_us, 40);
    assert_eq!(stats.loss_count, 0);
}

#[test]
fn manager_limits_messages_of_a_peer() {
    let mut bm = BenchmarkManager::new();
    let request = build_echo_request_frame_at(77, 3, &[5]);
    for _ in 0..100 {
        bm.handle_link_message_at(&node(1), MSG_ECHO_REQUEST, &request[1..], MS, 99);
        assert!(bm.take_echo_response().is_some());
    }
    bm.handle_link_message_at(&node(1), MSG_ECHO_REQUEST, &request[1..], 2 * MS, 99);
    assert!(bm.take_echo_response().is_none());
    bm.handle_link_message_at(&node(1), MSG_ECHO_REQUEST, &request[1..], 1_001 * MS, 99);
    assert!(bm.take_echo_response().is_some());
}

#[test]
fn manager_runs_a_throughput_test() {
    let mut bm = BenchmarkManager::new();
    assert!(bm.can_allocate());
    let (id, config, frame) = bm.prepare_throughput_test(Direction::Upload, 1, 100, 8000);
    assert_eq!(config.test_id, id);
    assert_eq!(frame[0], MSG_THROUGHPUT_REQUEST);
    bm.start_throughput_sends(node(3), id, 100, 8000, 1);
    assert_eq!(bm.active_test(id).unwrap().frames_sent, 10);
    let batch = bm.poll_throughput_sends_at(MS);
    assert!(!batch.is_empty() && batch.len() <= 2);
    assert!(bm.throughput_sends_pending());

    let mut other = BenchmarkManager::new();
    other.handle_link_message_at(&node(9), MSG_THROUGHPUT_REQUEST, &frame[1..], 0, 0);
    let (from, seen) = other.take_throughput_config().unwrap();
    assert_eq!(from, node(9));
    assert_eq!(seen, config);
    assert!(bm.remove_test(id).is_some());
    assert!(bm.active_test(id).is_none());
}

#[test]
fn manager_keeps_the_last_result() {
    let mut bm = BenchmarkManager::default();
    let report = ThroughputReport {
        test_id: 7,
        frames_sent: 100,
        frames_recv: 95,
        bytes_recv: 24320,
        duration_us: 5_000_000,
        achieved_bps: 38_912,
    };
    bm.handle_link_message_at(&node(4), MSG_THROUGHPUT_REPORT, &report.encode(), 0, 0);
    let (from, seen) = bm.take_throughput_result().unwrap();
    assert_eq!(from, node(4));
    assert_eq!(seen.achieved_bps, 38_912);
    assert!(bm.last_throughput_result().is_none());
}

#[test]
fn test_state_can_be_replaced() {
    let mut bm = BenchmarkManager::new();
    let id = bm.allocate_test_id();
    assert_eq!(bm.allocate_test_id(), id + 1);
    assert!(!bm.set_active_test(id, ThroughputTestState::starting_at(id, 1, 0)));
    let (id, _, _) = bm.prepare_throughput_test(Direction::Download, 1, 100, 8000);
    let mut state = bm.active_test(id).unwrap();
    state.frames_recv = 12;
    assert!(bm.set_active_test(id, state));
    assert_eq!(bm.active_test(id).unwrap().frames_recv, 12);
}

#[test]
fn prepared_probes_are_numbered() {
    let mut bm = BenchmarkManager::new();
    let frames = bm.prepare_echo_test(node(5), 3, 2);
    assert_eq!(frames.len(), 3);
    for (i, frame) in frames.iter().enumerate() {
        let req = EchoRequest::decode(&frame[1..]).unwrap();
        assert_eq!(req.seq as usize, i);
        assert_eq!(req.payload, vec![0xAB, 0xAB]);
    }
}

#[test]
fn expired_test_is_reported() {
    let mut bm = BenchmarkManager::new();
    let config = ThroughputTestConfig {
        test_id: 8,
        direction: Direction::Upload,
        duration_secs: 1,
        frame_size: 10,
        rate_bps: 800,
    };
    let request = build_throughput_request_frame(&config);
    bm.handle_link_message_at(&node(1), MSG_THROUGHPUT_REQUEST, &request[1..], 0, 1_000_000);
    let first = build_throughput_stream_frame(8, 0, 10);
    assert!(bm.fits(MSG_THROUGHPUT_STREAM, &first[1..]));
    bm.handle_link_message_at(&node(1), MSG_THROUGHPUT_STREAM, &first[1..], 1, 1_500_000);
    assert!(bm.take_throughput_report().is_none());
    let second = build_throughput_stream_frame(8, 2, 10);
    bm.handle_link_message_at(&node(1), MSG_THROUGHPUT_STREAM, &second[1..], 2, 2_000_000);
    let (to, frame) = bm.take_throughput_report().unwrap();
    assert_eq!(to, node(1));
    let report = ThroughputReport::decode(&frame[1..]).unwrap();
    assert_eq!((report.frames_recv, report.bytes_recv), (2, 20));
    assert_eq!(report.duration_us, 1_000_000);
    assert_eq!(report.achieved_bps, 160);
    assert!(bm.active_test(8).is_none());
}

#[test]
fn initiator_knows_what_it_sent() {
    let mut bm = BenchmarkManager::new();
    let (id, _, _) = bm.prepare_throughput_test(Direction::Upload, 1, 100, 8000);
    bm.start_throughput_sends(node(3), id, 100, 8000, 1);
    let report = ThroughputReport {
        test_id: id,
        frames_sent: 0,
        frames_recv: 9,
        bytes_recv: 900,
        duration_us: 1_000_000,
        achieved_bps: 7_200,
    };
    bm.handle_link_message_at(&node(3), MSG_THROUGHPUT_REPORT, &report.encode(), 0, 0);
    let (_, result) = bm.last_throughput_result().unwrap();
    assert_eq!((result.frames_sent, result.frames_recv), (10, 9));
}

#[test]
fn sends_are_polled_by_the_clock() {
    let mut bm = BenchmarkManager::new();
    assert!(bm.poll_echo_sends().is_none());
    assert!(bm.poll_throughput_sends().is_empty());
    bm.start_echo_test(node(2), 1, 0);
    let (to, frame) = bm.poll_echo_sends().unwrap();
    assert_eq!(to, node(2));
    assert_eq!(frame[0], MSG_ECHO_REQUEST);
    bm.start_throughput_sends(node(3), 5, 100, 8000, 1);
    let batch = bm.poll_throughput_sends();
    assert_eq!(batch[0].0, node(3));
    assert_eq!(batch[0].1[0], MSG_THROUGHPUT_STREAM);
}

#[test]
fn large_totals_matter_only_once_a_test_is_over() {
    let mut bm = BenchmarkManager::new();
    let (id, _, _) = bm.prepare_throughput_test(Direction::Download, 5, 100, 8000);
    let mut state = ThroughputTestState::starting_at(id, 5, 1_000_000);
    state.bytes_recv = u64::MAX / 4;
    assert!(bm.set_active_test(id, state));
    let frame = build_throughput_stream_frame(id, 0, 10);
    assert!(!bm.fits(MSG_THROUGHPUT_STREAM, &frame[1..]));
    assert!(bm.fits_at(MSG_THROUGHPUT_STREAM, &frame[1..], 2_000_000));
    assert!(!bm.fits_at(MSG_THROUGHPUT_STREAM, &frame[1..], 6_000_000));
    bm.handle_link_message_at(&node(1), MSG_THROUGHPUT_STREAM, &frame[1..], 0, 2_000_000);
    assert_eq!(bm.active_test(id).unwrap().bytes_recv, u64::MAX / 4 + 10);
}
