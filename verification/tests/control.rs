//! Control commands, captures and the run loop.

use fips::benchmark::echo::EchoResult;
use fips::benchmark::manager::BenchmarkManager;
use fips::benchmark::throughput::Direction;
use fips::benchmark::types::{ThroughputReport, MSG_THROUGHPUT_REPORT, MSG_THROUGHPUT_REQUEST};
use fips::control::commands::{
    apply_peer_policy, benchmark_echo, benchmark_echo_results, benchmark_throughput,
    benchmark_throughput_results, connect, disconnect, dispatch, echo_reply, parse_direction,
    prepare_throughput, queued_frames, set_peer_policy, start_echo, throughput_reply,
    throughput_requested, CommandName, EchoReply, ForwardingPolicy, ParamValue, Params,
    ThroughputReply,
};
use fips::dump::{
    link_type, message_name, report_frame, select_record, session_name, session_type, Decrypted,
    EncryptedFrame, ExportedFrame, KeyLogRecord, Msg1Frame, Msg2Frame, Report, SessionType,
};
use fips::identity::NodeAddr;
use fips::instr::writer::{
    cap_note, flush, note, writer_step, GaugeSample, StepSample, WriterAction, WriterEvent,
};
use fips::run_loop::{exit_code, RunLoop};
use fips::text::HexError;

fn params(fields: &[(&str, &str)]) -> Params {
    Params {
        fields: fields
            .iter()
            .map(|(k, v)| {
                let value = match v.parse::<u64>() {
                    Ok(n) => ParamValue::Number(n),
                    Err(_) => ParamValue::Text(v.to_string()),
                };
                (k.to_string(), value)
            })
            .collect(),
    }
}

fn node(n: u8) -> NodeAddr {
    NodeAddr::from_bytes([n; 16])
}

fn error<T>(r: Result<T, String>) -> String {
    match r {
        Err(m) => m,
        Ok(_) => panic!("expected an error"),
    }
}

#[test]
fn commands_are_dispatched() {
    assert_eq!(dispatch("connect"), Ok(CommandName::Connect));
    assert_eq!(dispatch("disconnect"), Ok(CommandName::Disconnect));
    assert_eq!(dispatch("set_peer_policy"), Ok(CommandName::SetPeerPolicy));
    assert_eq!(dispatch("benchmark_echo"), Ok(CommandName::BenchmarkEcho));
    assert_eq!(dispatch("benchmark_throughput"), Ok(CommandName::BenchmarkThroughput));
    assert_eq!(dispatch("show_benchmark_echo_results"), Ok(CommandName::ShowEchoResults));
    assert_eq!(
        dispatch("show_benchmark_throughput_results"),
        Ok(CommandName::ShowThroughputResults)
    );
    assert_eq!(dispatch("Connect"), Err("unknown command: Connect".to_string()));
}

#[test]
fn connect_needs_three_parameters() {
    assert_eq!(error(connect(None)), "missing params for connect");
    assert_eq!(error(connect(Some(&params(&[])))), "missing 'npub' parameter");
    assert_eq!(
        error(connect(Some(&params(&[("npub", "n")])))),
        "missing 'address' parameter"
    );
    assert_eq!(
        error(connect(Some(&params(&[("npub", "n"), ("address", "h:x")])))),
        "missing 'transport' parameter"
    );
    let all = params(&[("npub", "n"), ("address", "h:x"), ("transport", "udp")]);
    let c = connect(Some(&all)).unwrap();
    assert_eq!((c.npub.as_str(), c.address.as_str(), c.transport.as_str()), ("n", "h:x", "udp"));
    // A number is not a name.
    assert_eq!(
        error(connect(Some(&params(&[("npub", "5")])))),
        "missing 'npub' parameter"
    );
    assert_eq!(error(disconnect(None)), "missing params for disconnect");
    assert_eq!(disconnect(Some(&all)), Ok("n".to_string()));
}

#[test]
fn policies_are_set() {
    assert_eq!(error(set_peer_policy(None)), "missing params for set_peer_policy");
    assert_eq!(
        error(set_peer_policy(Some(&params(&[("npub", "n")])))),
        "missing 'policy' parameter (expected 'full' or 'local_only')"
    );
    assert_eq!(
        error(set_peer_policy(Some(&params(&[("npub", "n"), ("policy", "some")])))),
        "invalid policy 'some': expected 'full' or 'local_only'"
    );
    let full = set_peer_policy(Some(&params(&[("npub", "n"), ("policy", "full")]))).unwrap();
    assert_eq!(full.policy, ForwardingPolicy::Full);
    let local =
        set_peer_policy(Some(&params(&[("npub", "n"), ("policy", "local_only")]))).unwrap();
    assert_eq!(local.policy, ForwardingPolicy::LocalOnly);
    assert_eq!(
        error(apply_peer_policy(&local, Err("bad".to_string()))),
        "invalid npub: bad"
    );
    assert_eq!(
        error(apply_peer_policy(&local, Ok(None))),
        "peer n not found or not authenticated"
    );
    let change = apply_peer_policy(&local, Ok(Some(ForwardingPolicy::Full))).unwrap();
    assert_eq!(
        (change.old_policy.as_str(), change.new_policy.as_str()),
        ("full", "local_only")
    );
}

#[test]
fn benchmark_parameters_have_defaults() {
    let p = params(&[("npub", "n")]);
    let echo = benchmark_echo(Some(&p)).unwrap();
    assert_eq!((echo.count, echo.payload_size), (10, 0));
    let t = benchmark_throughput(Some(&p)).unwrap();
    assert_eq!((t.duration, t.frame_size, t.rate), (5, 256, 40000));
    assert_eq!(t.direction, "upload");
    // Numbers that are too large lose their upper bits.
    let p = params(&[("npub", "n"), ("count", "4294967299"), ("duration", "257")]);
    assert_eq!(benchmark_echo(Some(&p)).unwrap().count, 3);
    assert_eq!(benchmark_throughput(Some(&p)).unwrap().duration, 1);
    assert_eq!(error(benchmark_echo(None)), "missing params for benchmark_echo");
    assert_eq!(error(benchmark_throughput(None)), "missing params for benchmark_throughput");
    assert_eq!(
        error(benchmark_echo_results(None)),
        "missing params for show_benchmark_echo_results"
    );
    assert_eq!(
        error(benchmark_throughput_results(None)),
        "missing params for show_benchmark_throughput_results"
    );
    assert_eq!(parse_direction("upload"), Ok(Direction::Upload));
    assert_eq!(parse_direction("download"), Ok(Direction::Download));
    assert_eq!(queued_frames(Direction::Upload, 256, 40000, 5), 97);
    assert_eq!(queued_frames(Direction::Download, 256, 40000, 5), 0);
}

#[test]
fn echo_tests_are_started_and_shown() {
    let mut bm = BenchmarkManager::new();
    let p = params(&[("npub", "n"), ("count", "4")]);
    let request = benchmark_echo(Some(&p)).unwrap();
    assert_eq!(
        error(start_echo(&mut bm, &request, Err("x".to_string()))),
        "invalid peer npub: x"
    );
    assert_eq!(start_echo(&mut bm, &request, Ok(node(2))), Ok(4));
    assert_eq!(bm.echo_expected_count(&node(2)), Some(4));
    assert!(matches!(echo_reply(None, None), EchoReply::NoTest));
    assert!(matches!(echo_reply(None, Some(4)), EchoReply::Pending));
    let results = [EchoResult { rtt_us: 8, seq: 0, payload_len: 0 }];
    match echo_reply(Some(&results), Some(4)) {
        EchoReply::Results(stats) => {
            assert_eq!(stats.mean_us, 8);
            assert_eq!(stats.loss_count, 3);
        }
        _ => panic!("expected results"),
    }
}

#[test]
fn throughput_tests_are_started_and_shown() {
    let mut bm = BenchmarkManager::new();
    let p = params(&[("npub", "n")]);
    let request = benchmark_throughput(Some(&p)).unwrap();
    assert_eq!(
        error(prepare_throughput(&mut bm, &request, Err("x".to_string()))),
        "invalid peer npub: x"
    );
    let odd = benchmark_throughput(Some(&params(&[("npub", "n"), ("direction", "up")]))).unwrap();
    assert_eq!(
        error(prepare_throughput(&mut bm, &odd, Ok(node(2)))),
        "direction must be 'upload' or 'download'"
    );
    let prepared = prepare_throughput(&mut bm, &request, Ok(node(2))).unwrap();
    assert_eq!(prepared.frame[0], MSG_THROUGHPUT_REQUEST);
    assert_eq!(
        error(throughput_requested(&mut bm, &request, &prepared, Err("y".to_string()))),
        "failed to send throughput request: y"
    );
    assert!(!bm.throughput_sends_pending());
    assert_eq!(throughput_requested(&mut bm, &request, &prepared, Ok(())), Ok(97));
    assert!(bm.throughput_sends_pending());
    assert!(matches!(throughput_reply(&bm), ThroughputReply::Pending));
    let report = ThroughputReport {
        test_id: prepared.test_id,
        frames_sent: 97,
        frames_recv: 96,
        bytes_recv: 24576,
        duration_us: 5_000_000,
        achieved_bps: 39_321,
    };
    bm.handle_link_message_at(&node(2), MSG_THROUGHPUT_REPORT, &report.encode(), 0, 0);
    match throughput_reply(&bm) {
        ThroughputReply::Complete { peer, result } => {
            assert_eq!(peer, "02".repeat(16));
            assert_eq!(result.achieved_bps, 39_321);
        }
        _ => panic!("expected a result"),
    }
}

#[test]
fn the_last_written_msg2_is_used() {
    let record = |event: Option<&str>| KeyLogRecord { event: event.map(|e| e.to_string()) };
    assert_eq!(select_record(&vec![]), None);
    assert_eq!(select_record(&vec![record(None), record(Some("ik_msg1_read"))]), Some(0));
    assert_eq!(
        select_record(&vec![
            record(None),
            record(Some("ik_msg2_write")),
            record(Some("ik_msg2_write")),
            record(Some("other")),
        ]),
        Some(2)
    );
}

fn exported(number: Option<u64>, time: Option<&str>, hex: &str) -> ExportedFrame {
    ExportedFrame {
        frame_number: number,
        time_epoch: time.map(|t| t.to_string()),
        payload_hex: hex.to_string(),
    }
}

#[test]
fn payloads_are_decoded() {
    assert_eq!(exported(None, None, "00fFa1").payload(), Ok(vec![0, 255, 0xA1]));
    assert_eq!(exported(None, None, "abc").payload(), Err(HexError::OddLength));
    assert_eq!(
        exported(None, None, "a_cg").payload(),
        Err(HexError::InvalidCharacter { c: '_', index: 1 })
    );
    assert_eq!(
        exported(None, None, "aaé").payload(),
        Err(HexError::InvalidCharacter { c: 'Ã', index: 2 })
    );
    let bytes: Vec<u8> = (0..=255).collect();
    assert_eq!(exported(None, None, &hex::encode(&bytes)).payload(), Ok(bytes));
}

#[test]
fn frames_are_reported() {
    let f = exported(Some(12), Some("1.5"), "");
    let plain = |inner| {
        Some(EncryptedFrame {
            counter: 3,
            receiver_idx: 4,
            outcome: Decrypted::Plain {
                plaintext: vec![0xAB],
                inner,
                link_known: None,
                session_known: Some("Data".to_string()),
            },
        })
    };
    let line = |r: Report| match r {
        Report::Line(s) => s,
        _ => panic!("expected a line"),
    };
    assert_eq!(
        line(report_frame(&f, &plain(None), &None, &None, 0)),
        "frame=12 time=1.5 counter=3 receiver_idx=4 plaintext_hex=ab"
    );
    let mut payload = vec![0u8; 37];
    payload[0] = 0x10;
    assert_eq!(
        line(report_frame(&f, &plain(Some((9, payload.clone()))), &None, &None, 0x10)),
        "frame=12 time=1.5 counter=3 receiver_idx=4 timestamp=9 link_type=Unknown(0x10) \
         session_type=Data plaintext_hex=ab"
    );
    payload.truncate(36);
    assert_eq!(
        line(report_frame(&f, &plain(Some((9, payload))), &None, &None, 0x10)),
        "frame=12 time=1.5 counter=3 receiver_idx=4 timestamp=9 link_type=Unknown(0x10) \
         session_type=SessionDatagram(truncated) plaintext_hex=ab"
    );
    let failed = Some(EncryptedFrame {
        counter: 3,
        receiver_idx: 4,
        outcome: Decrypted::Failed("bad tag".to_string()),
    });
    match report_frame(&f, &failed, &None, &None, 0) {
        Report::Error(s) => assert_eq!(s, "frame=12 time=1.5 counter=3 decrypt_error=bad tag"),
        _ => panic!("expected an error"),
    }
    let bare = exported(None, None, "");
    let msg1 = Some(Msg1Frame { sender_idx: 7, message: vec![1, 2] });
    let msg2 = Some(Msg2Frame { sender_idx: 7, receiver_idx: 8, message: vec![3] });
    assert_eq!(
        line(report_frame(&bare, &None, &msg1, &msg2, 0)),
        "frame=0 time= type=NoiseIKMsg1 sender_idx=7 msg_hex=0102"
    );
    assert_eq!(
        line(report_frame(&bare, &None, &None, &msg2, 0)),
        "frame=0 time= type=NoiseIKMsg2 sender_idx=7 receiver_idx=8 msg_hex=03"
    );
    assert!(matches!(report_frame(&bare, &None, &None, &None, 0), Report::Nothing));
}

#[test]
fn message_types_are_named() {
    assert_eq!(link_type(&[]), 0xFF);
    assert_eq!(session_type(&[1, 2], 0x10), SessionType::Absent);
    assert_eq!(session_type(&[0x10; 36], 0x10), SessionType::Truncated);
    assert_eq!(session_type(&[0x10; 37], 0x10), SessionType::Known(0x10));
    assert_eq!(message_name(&None, 0x0A), "Unknown(0x0a)");
    assert_eq!(message_name(&Some("Ping".to_string()), 0x0A), "Ping");
    assert_eq!(session_name(SessionType::Absent, &None), "");
}

#[test]
fn intervals_are_rendered() {
    let steps = vec![
        StepSample {
            domain: "rx".to_string(),
            name: "decrypt".to_string(),
            emitted: true,
            count: 2,
            max_ns: 1_999,
            total_ns: 3_000,
        },
        StepSample {
            domain: "rx".to_string(),
            name: "absent".to_string(),
            emitted: false,
            count: 1,
            max_ns: 1,
            total_ns: 1,
        },
    ];
    let gauges = vec![
        GaugeSample {
            name: "lag".to_string(),
            is_duration: true,
            unit: "us".to_string(),
            count: 1,
            max: 5_000,
            total: 5_999,
        },
        GaugeSample {
            name: "depth".to_string(),
            is_duration: false,
            unit: "n".to_string(),
            count: 1,
            max: 5_000,
            total: 5_999,
        },
    ];
    assert_eq!(
        flush(17, &steps, "tick", &gauges),
        "17\tstep\trx\tdecrypt\t2\t1\t3\tus\n\
         17\tgauge\ttick\tlag\t1\t5\t5\tus\n\
         17\tgauge\ttick\tdepth\t1\t5000\t5999\tn\n"
    );
    assert_eq!(note("x"), "# x\n");
    assert_eq!(cap_note(10), "capture stopped: byte cap 10 reached");
}

#[test]
fn the_writer_stops_in_time() {
    let done = WriterEvent::Interval { written: true };
    assert_eq!(writer_step(WriterEvent::Stop, 0, 10), WriterAction::DrainAndEnd);
    assert_eq!(writer_step(done, 9, 10), WriterAction::Wait);
    assert_eq!(writer_step(done, 10, 10), WriterAction::EndAtCap);
    assert_eq!(
        writer_step(WriterEvent::Interval { written: false }, 0, 10),
        WriterAction::EndOnError
    );
}

#[test]
fn the_run_loop_runs_once() {
    let mut l = RunLoop::new();
    assert!(!l.is_active());
    assert!(!l.stop());
    assert!(l.run());
    assert!(!l.run());
    assert!(l.is_active());
    assert!(l.stop());
    assert!(!l.is_active());
    assert_eq!(exit_code(None), 1);
    assert_eq!(exit_code(Some(0)), 0);
}
