//! BLE transport.

use fips::identity::{Keypair, NodeAddr};
use fips::transport::ble::addr::{adapter_from_addr, BleAddr, BleAddrKind};
use fips::transport::ble::backoff::PeerBackoff;
use fips::transport::ble::bluest::{device_mac, find_device, BluestAcceptor, BluestRadio};
use fips::transport::ble::capabilities::PeerCapabilities;
use fips::transport::ble::dial::{
    channel_addr, Dial, DialAction, DialEvent, DialKind, DialPhase,
};
use fips::transport::ble::event_log::{
    days_to_ymd, event_line, is_enabled, iso8601, json_escape, log,
};
use fips::transport::ble::io::{
    advertised_psm, cached_mesh_device, decode_gatt_psm, find_uuid, frame_payload,
    is_mesh_device, is_transient_gatt_error, local_addr_kind, retries_startup,
    try_take_framed_payload, unframe_datagram, PsmError, StartupError, FIPS_SERVICE_UUID,
};
use fips::transport::ble::link::{
    admit_to_pool, after_dial, after_send, check_send, connection_state, fmp_packet_len, inbound_step, link_mtu,
    next_restart_delay, plan_connection, pool_counts, probe_pool_counts, receive_step,
    BleLifecycle, BleRoles, DialOutcome, DialStep, FmpAssembler, FmpError, InboundStep,
    PoolOutcome, RecvAction, RecvEvent, SendStep,
};
use fips::transport::ble::peering::{
    inbound_stays, local_node_addr, probe_stays, pubkey_announcement, pubkey_exchange, settle_accepted,
    settle_inbound, ExchangeOutcome, ProbeState, PubkeyExchangeResult, ScanAction,
};
use fips::transport::ble::rate_limit::{BleRateAdapter, RateDecision};
use fips::transport::{ConnectionState, TransportAddr, TransportError, TransportState};

const SEC: u128 = 1_000_000_000;

fn test_addr(n: u8) -> BleAddr {
    BleAddr {
        adapter: "hci0".to_string(),
        device: [0xAA, 0xBB, 0xCC, 0xDD, 0xEE, n],
        kind: BleAddrKind::Public,
    }
}

fn node(n: u8) -> NodeAddr {
    NodeAddr::from_bytes([n; 16])
}

fn recv_failure<T>(r: Result<T, TransportError>) -> String {
    match r {
        Err(TransportError::RecvFailed(m)) => m,
        _ => panic!("expected a receive error"),
    }
}

#[test]
fn test_parse_valid() {
    let addr = BleAddr::parse("hci0/AA:BB:CC:DD:EE:FF").unwrap();
    assert_eq!(addr.adapter, "hci0");
    assert_eq!(addr.device, [0xAA, 0xBB, 0xCC, 0xDD, 0xEE, 0xFF]);
}

#[test]
fn test_parse_lowercase() {
    let addr = BleAddr::parse("hci1/aa:bb:cc:dd:ee:ff").unwrap();
    assert_eq!(addr.adapter, "hci1");
    assert_eq!(addr.device, [0xAA, 0xBB, 0xCC, 0xDD, 0xEE, 0xFF]);
}

#[test]
fn test_roundtrip() {
    let original = "hci0/AA:BB:CC:DD:EE:FF";
    let addr = BleAddr::parse(original).unwrap();
    assert_eq!(addr.to_string_repr(), original);
}

#[test]
fn test_display() {
    let addr = BleAddr::parse("hci0/01:02:03:04:05:06").unwrap();
    assert_eq!(addr.to_string_repr(), "hci0/01:02:03:04:05:06");
}

#[test]
fn test_to_transport_addr() {
    let addr = BleAddr::parse("hci0/AA:BB:CC:DD:EE:FF").unwrap();
    let ta = addr.to_transport_addr();
    assert_eq!(ta.as_str(), Some("hci0/AA:BB:CC:DD:EE:FF"));
}

#[test]
fn test_parse_missing_slash() {
    assert!(BleAddr::parse("hci0-AA:BB:CC:DD:EE:FF").is_err());
}

#[test]
fn test_parse_empty_adapter() {
    assert!(BleAddr::parse("/AA:BB:CC:DD:EE:FF").is_err());
}

#[test]
fn test_parse_invalid_mac_short() {
    assert!(BleAddr::parse("hci0/AA:BB:CC").is_err());
}

#[test]
fn test_parse_invalid_mac_hex() {
    assert!(BleAddr::parse("hci0/GG:HH:II:JJ:KK:LL").is_err());
}

#[test]
fn test_adapter_from_addr() {
    let ta = TransportAddr::from_string("hci0/AA:BB:CC:DD:EE:FF");
    assert_eq!(adapter_from_addr(&ta), Some("hci0"));
}

#[test]
fn test_adapter_from_addr_no_slash() {
    let ta = TransportAddr::from_string("invalid");
    assert_eq!(adapter_from_addr(&ta), None);
}

#[test]
fn test_parse_defaults_to_public_kind() {
    let addr = BleAddr::parse("hci0/0C:00:00:00:00:FF").unwrap();
    assert_eq!(addr.kind, BleAddrKind::Public);
    assert_eq!(addr.to_socket_addr(133).addr_type, bluer::AddressType::LePublic);
}

#[test]
fn test_learned_random_kind_drives_socket_addr() {
    let addr = bluer::Address([0x0C, 0, 0, 0, 0, 0xFF]);
    let ble = BleAddr::from_bluer_with_kind(addr, BleAddrKind::Random, "hci0");
    let sa = ble.to_socket_addr(133);
    assert_eq!(sa.addr, addr);
    assert_eq!(sa.addr_type, bluer::AddressType::LeRandom);
    assert_eq!(sa.psm, 133);
}

#[test]
fn test_bluer_address_type_conversion() {
    assert_eq!(BleAddrKind::from(bluer::AddressType::LeRandom), BleAddrKind::Random);
    assert_eq!(BleAddrKind::from(bluer::AddressType::LePublic), BleAddrKind::Public);
}

#[test]
fn text_that_is_not_utf8_has_no_adapter() {
    let ta = TransportAddr { bytes: vec![0xFF, b'/', b'a'] };
    assert_eq!(ta.as_str(), None);
    assert_eq!(adapter_from_addr(&ta), None);
}

#[test]
fn backoff_increases_exponentially() {
    let mut bo = PeerBackoff::new(1, 300, 10, 3600);
    let addr = test_addr(1);

    bo.record_failure(&addr);
    assert!(!bo.is_in_backoff(&addr) || bo.failure_count(&addr) >= 1);

    bo.record_failure(&addr);
    assert!(bo.failure_count(&addr) == 2);
}

#[test]
fn auto_deny_after_max_failures() {
    let mut bo = PeerBackoff::new(1, 300, 3, 3600);
    let addr = test_addr(2);

    let denied = bo.record_failure(&addr);
    assert!(!denied);
    let denied = bo.record_failure(&addr);
    assert!(!denied);
    let denied = bo.record_failure(&addr);
    assert!(denied);
    assert!(bo.is_denied(&addr));
}

#[test]
fn clear_resets_everything() {
    let mut bo = PeerBackoff::new(1, 300, 2, 3600);
    let addr = test_addr(3);

    bo.record_failure(&addr);
    bo.record_failure(&addr);
    assert!(bo.is_denied(&addr));

    bo.clear(&addr);
    assert!(!bo.is_denied(&addr));
    assert!(!bo.is_in_backoff(&addr));
}

#[test]
fn deny_entry_removed_after_expiry() {
    let mut bo = PeerBackoff::with_defaults();
    let addr = test_addr(4);

    // A deny entry valid for one hour from now
    let now = 7 * SEC;
    for _ in 0..4 {
        assert!(!bo.record_failure_at(&addr, now));
    }
    assert!(bo.record_failure_at(&addr, now));
    assert!(bo.is_denied_at(&addr, now));
    assert!(bo.is_denied_at(&addr, now + 3_599 * SEC));

    // After it has expired
    assert!(!bo.is_denied_at(&addr, now + 3_600 * SEC));

    // Calling again should still return false (entry was removed, not just expired)
    assert!(!bo.is_denied_at(&addr, now));
}

#[test]
fn backoff_grows_and_is_bounded() {
    let mut bo = PeerBackoff::new(5, 300, 100, 3600);
    let addr = test_addr(5);
    bo.record_failure_at(&addr, 0);
    assert!(bo.is_in_backoff_at(&addr, 0));
    assert!(!bo.is_in_backoff_at(&addr, 20 * SEC));
    for _ in 0..20 {
        bo.record_failure_at(&addr, 0);
    }
    assert!(bo.is_in_backoff_at(&addr, 200 * SEC));
    assert!(!bo.is_in_backoff_at(&addr, 400 * SEC));
    assert!(!bo.is_in_backoff_at(&test_addr(6), 0));
    assert_eq!(PeerBackoff::with_defaults().failure_count(&addr), 0);
}

#[test]
fn none_has_no_capabilities() {
    let caps = PeerCapabilities::none();
    assert!(!caps.is_central_only());
    assert!(caps.can_accept_inbound());
    assert!(caps.can_initiate_outbound());
    assert!(!caps.prefers_outbound());
}

#[test]
fn none_is_legacy_unrestricted() {
    let caps = PeerCapabilities::from_byte(0);
    assert!(caps.can_accept_inbound());
    assert!(caps.can_initiate_outbound());
    assert!(!caps.is_central_only());
}

#[test]
fn central_only_flag_maps_correctly() {
    let caps = PeerCapabilities::from_byte(0x01);
    assert!(caps.is_central_only());
    assert!(!caps.can_accept_inbound());
    assert!(caps.can_initiate_outbound());
    assert!(caps.prefers_outbound());
}

#[test]
fn macos_default_has_full_capabilities() {
    let caps = PeerCapabilities::macos_default();
    assert!(!caps.is_central_only());
    assert!(caps.can_accept_inbound());
    assert!(caps.can_initiate_outbound());
    assert!(caps.prefers_outbound());
}

#[test]
fn linux_default_has_full_capabilities() {
    let caps = PeerCapabilities::linux_default();
    assert!(!caps.is_central_only());
    assert!(caps.can_accept_inbound());
    assert!(caps.can_initiate_outbound());
    assert!(!caps.prefers_outbound());
}

#[test]
fn peripheral_only_has_peripheral_capabilities() {
    let caps = PeerCapabilities::peripheral_only();
    assert!(!caps.is_central_only());
    assert!(caps.can_accept_inbound());
    assert!(!caps.can_initiate_outbound());
    assert!(!caps.prefers_outbound());
}

#[test]
fn roundtrip_byte() {
    let caps = PeerCapabilities::macos_default();
    let byte = caps.to_byte();
    let restored = PeerCapabilities::from_byte(byte);
    assert_eq!(caps.to_byte(), restored.to_byte());
}

#[test]
fn fips_service_uuid_matches() {
    assert_eq!(FIPS_SERVICE_UUID, 0x9c90_b790_2cc5_42c0_9f87_c9cc_4064_8f4c);
}

#[test]
fn test_rate_adapter_additive_increase() {
    let mut adapter = BleRateAdapter::new(20_000);
    assert_eq!(adapter.current_rate_bps(), 20_000);

    // SRTT < RTT_LOW → +AI_STEP_BPS (2000)
    let rate = adapter.update(150_000);
    assert_eq!(rate, 22_000);
}

#[test]
fn test_rate_adapter_multiplicative_decrease() {
    // SRTT > RTT_HIGH (300ms), < RTT_SEVERE (600ms) → rate × MD_FACTOR (0.6)
    let mut adapter = BleRateAdapter::new(30_000);
    let rate = adapter.update(350_000);
    assert_eq!(rate, 18_000); // 30k × 0.6
}

#[test]
fn test_rate_adapter_steady_zone() {
    // SRTT in [RTT_LOW, RTT_HIGH] → hold
    let mut adapter = BleRateAdapter::new(25_000);
    let rate = adapter.update(250_000);
    assert_eq!(rate, 25_000);
}

#[test]
fn test_rate_adapter_clamps_to_min() {
    // SRTT > RTT_SEVERE (600ms) → rate × MD_SEVERE (0.4), clamped to MIN_RATE_BPS
    // 15k × 0.4 = 6000 < MIN_RATE_BPS (10k)
    let mut adapter = BleRateAdapter::new(15_000);
    let rate = adapter.update(800_000);
    assert_eq!(rate, 10_000);
}

#[test]
fn test_rate_adapter_clamps_to_max() {
    let mut adapter = BleRateAdapter::new(50_000);
    assert_eq!(adapter.current_rate_bps(), 35_000); // constructor clamps to MAX_RATE_BPS

    // SRTT < RTT_LOW → +AI_STEP_BPS, but already at MAX → stays at MAX
    let rate = adapter.update(100_000);
    assert_eq!(rate, 35_000);
}

#[test]
fn rate_cuts_agree_with_floating_point() {
    for rate in 10_000..=35_000u64 {
        let mut mild = BleRateAdapter::new(rate);
        let expected = ((rate as f64 * 0.6) as u64).clamp(10_000, 35_000);
        assert_eq!(mild.update(350_000), expected, "rate {rate}");
        let mut severe = BleRateAdapter::new(rate);
        let expected = ((rate as f64 * 0.4) as u64).clamp(10_000, 35_000);
        assert_eq!(severe.update(700_000), expected, "rate {rate}");
    }
}

#[test]
fn rate_changes_once_per_interval() {
    let mut adapter = BleRateAdapter::new(20_000);
    let first = adapter.update(150_000);
    assert_eq!(first, 22_000);
    assert_eq!(adapter.update(150_000), 22_000);
    assert_eq!(RateDecision::for_srtt(150_000), RateDecision::Increase);
    assert_eq!(RateDecision::for_srtt(200_000), RateDecision::Hold);
    assert_eq!(RateDecision::for_srtt(300_000), RateDecision::Hold);
    assert_eq!(RateDecision::for_srtt(300_001), RateDecision::Decrease);
    assert_eq!(RateDecision::for_srtt(600_001), RateDecision::DecreaseSevere);
}

#[test]
fn test_transport_initial_state() {
    let lifecycle = BleLifecycle::new();
    assert_eq!(lifecycle.state, TransportState::Configured);
}

#[test]
fn test_transport_start_stop() {
    let roles =
        BleRoles { scan: true, advertise: true, auto_connect: false, accept_connections: true };
    let mut lifecycle = BleLifecycle::new();
    let plan = lifecycle.begin_start(&roles).unwrap();
    assert!(matches!(lifecycle.begin_start(&roles), Err(TransportError::AlreadyStarted)));
    lifecycle.finish_start(&plan, true);
    assert_eq!(lifecycle.state, TransportState::Up);

    lifecycle.stop();
    assert_eq!(lifecycle.state, TransportState::Down);
}

#[test]
fn failed_listener_keeps_the_transport_down() {
    let roles =
        BleRoles { scan: false, advertise: false, auto_connect: true, accept_connections: true };
    let mut lifecycle = BleLifecycle::new();
    let plan = lifecycle.begin_start(&roles).unwrap();
    assert!(plan.warnings.auto_connect_without_scan && plan.warnings.undiscoverable);
    assert!(!plan.warnings.idle);
    lifecycle.finish_start(&plan, false);
    assert_eq!(lifecycle.state, TransportState::Failed);
    assert!(lifecycle.state.can_start());
    assert!(!lifecycle.state.is_operational());
}

#[test]
fn test_connection_state_none() {
    assert_eq!(connection_state(false, false), ConnectionState::Unconnected);
    assert_eq!(connection_state(false, true), ConnectionState::Connecting);
    assert_eq!(connection_state(true, true), ConnectionState::Connected);
}

#[test]
fn test_tiebreaker_convention() {
    let key_a = Keypair::from_secret(&[1u8; 32]).unwrap();
    let key_b = Keypair::from_secret(&[2u8; 32]).unwrap();

    let addr_a = NodeAddr::from_pubkey(&key_a.x_only_public_key());
    let addr_b = NodeAddr::from_pubkey(&key_b.x_only_public_key());

    let (smaller, larger) =
        if addr_a < addr_b { (addr_a, addr_b) } else { (addr_b, addr_a) };

    assert!(smaller < larger, "test setup: smaller < larger");

    // The smaller address keeps what it dialled, the larger one what came in.
    let caps = PeerCapabilities::linux_default();
    assert!(probe_stays(&caps, &caps, &Some(smaller), &larger));
    assert!(inbound_stays(&caps, &caps, &Some(larger), &smaller));
    assert!(!probe_stays(&caps, &caps, &Some(larger), &smaller));
    assert!(!inbound_stays(&caps, &caps, &Some(smaller), &larger));
}

#[test]
fn preference_decides_before_the_address() {
    let mac = PeerCapabilities::macos_default();
    let linux = PeerCapabilities::linux_default();
    // The side that prefers to dial keeps its connection, whatever its address.
    assert!(probe_stays(&mac, &linux, &Some(node(9)), &node(1)));
    assert!(inbound_stays(&linux, &mac, &Some(node(1)), &node(9)));
    assert!(!probe_stays(&linux, &mac, &Some(node(1)), &node(9)));
    // A peer that cannot accept is left to dial itself.
    let central = PeerCapabilities::central_only();
    assert!(!probe_stays(&linux, &central, &Some(node(1)), &node(9)));
    assert!(inbound_stays(&linux, &central, &Some(node(1)), &node(9)));
    assert!(inbound_stays(&mac, &central, &Some(node(1)), &node(9)));
    // It breaks ties like any other node.
    assert!(probe_stays(&central, &mac, &Some(node(1)), &node(9)));
    assert!(!probe_stays(&central, &mac, &Some(node(9)), &node(1)));
    assert!(probe_stays(&central, &linux, &Some(node(9)), &node(1)));
}

#[test]
fn two_preferences_leave_it_to_the_address() {
    let mac = PeerCapabilities::macos_default();
    assert!(probe_stays(&mac, &mac, &Some(node(1)), &node(9)));
    assert!(!probe_stays(&mac, &mac, &Some(node(9)), &node(1)));
}

#[test]
fn exchanges_are_settled() {
    let linux = PeerCapabilities::linux_default();
    let announced = Some(PubkeyExchangeResult { peer_pubkey: [3; 32], peer_capabilities: linux });
    let peer = NodeAddr::from_pubkey(&[3; 32]);
    let below = Some(NodeAddr { value: peer.value - 1 });
    let above = Some(NodeAddr { value: peer.value + 1 });
    let mut backoff = PeerBackoff::new(5, 300, 2, 3600);
    let mut probes = ProbeState::new();
    let a = test_addr(1);
    assert!(!backoff.record_failure_at(&a, 0));
    assert_eq!(
        probes.settle_probe(&mut backoff, &a, &linux, &below, &announced, 0),
        ExchangeOutcome::Keep
    );
    assert_eq!(
        probes.settle_probe(&mut backoff, &a, &linux, &above, &announced, 0),
        ExchangeOutcome::Yield
    );
    assert_eq!(
        settle_inbound(&mut backoff, &a, &linux, &above, &announced, 0),
        ExchangeOutcome::Keep
    );
    assert_eq!(backoff.failure_count(&a), 1);
    assert_eq!(
        settle_inbound(&mut backoff, &a, &linux, &below, &announced, 0),
        ExchangeOutcome::Yield
    );
    assert_eq!(backoff.failure_count(&a), 0);
    assert_eq!(
        settle_inbound(&mut backoff, &a, &linux, &below, &None, 0),
        ExchangeOutcome::Failed { denied: false }
    );
    assert!(settle_accepted(&mut backoff, &a, PoolOutcome::Full).rejected);
    assert_eq!(backoff.failure_count(&a), 1);
    assert!(settle_accepted(&mut backoff, &a, PoolOutcome::Inserted).connected);
    assert_eq!(backoff.failure_count(&a), 0);
    assert!(!probes.probe_failed(&mut backoff, &a, 0));
    assert_eq!(
        probes.settle_probe(&mut backoff, &a, &linux, &below, &None, 0),
        ExchangeOutcome::Failed { denied: true }
    );
}

#[test]
fn keys_are_exchanged() {
    let key = Keypair::from_secret(&[5u8; 32]).unwrap().x_only_public_key();
    let msg = pubkey_announcement(&key, PeerCapabilities::macos_default());
    let seen = pubkey_exchange(&msg).unwrap();
    assert_eq!(seen.peer_pubkey, key);
    assert_eq!(
        seen.peer_capabilities.to_byte(),
        PeerCapabilities::macos_default().to_byte()
    );
    // The older, shorter form names no capabilities.
    let seen = pubkey_exchange(&msg[..33]).unwrap();
    assert_eq!(seen.peer_capabilities.to_byte(), 0);
    assert_eq!(
        recv_failure(pubkey_exchange(&msg[..32])),
        "pubkey exchange: expected at least 33 bytes, got 32"
    );
    let mut bad = msg;
    bad[0] = 0xAB;
    assert_eq!(recv_failure(pubkey_exchange(&bad)), "pubkey exchange: bad prefix 0xAB");
    let mut off_curve = msg;
    for b in off_curve[1..33].iter_mut() {
        *b = 0xFF;
    }
    assert_eq!(
        recv_failure(pubkey_exchange(&off_curve)),
        "pubkey exchange: invalid key: malformed public key"
    );
}

#[test]
fn probes_are_spaced_and_retried() {
    let mut probes = ProbeState::new();
    let mut backoff = PeerBackoff::new(5, 300, 2, 3600);
    let a = test_addr(1);
    let first = probes.scan_result(&mut backoff, &a, false, true, SEC, 10 * SEC);
    assert_eq!(first, ScanAction::Probe);
    let second = probes.scan_result(&mut backoff, &a, false, true, 2 * SEC, 10 * SEC);
    assert_eq!(second, ScanAction::CoolingDown);
    assert!(!probes.probe_failed(&mut backoff, &a, 3 * SEC));
    let third = probes.scan_result(&mut backoff, &a, false, true, 4 * SEC, 10 * SEC);
    assert_eq!(third, ScanAction::InBackoff);
    assert!(probes.retry_tick(&vec![]).unwrap().same(&a));
    assert!(probes.probe_failed(&mut backoff, &a, 20 * SEC));
    assert!(probes.retry_tick(&vec![]).is_none());
    let fourth = probes.scan_result(&mut backoff, &a, false, true, 60 * SEC, 10 * SEC);
    assert_eq!(fourth, ScanAction::Denied);
    let b = test_addr(2);
    let seen = probes.scan_result(&mut backoff, &b, true, true, 60 * SEC, 10 * SEC);
    assert_eq!(seen, ScanAction::Connected);
    let c = test_addr(3);
    let seen = probes.scan_result(&mut backoff, &c, false, false, 60 * SEC, 10 * SEC);
    assert_eq!(seen, ScanAction::Report);
    probes.probe_promoted(&mut backoff, &c);
    assert_eq!(backoff.failure_count(&c), 0);
}

#[test]
fn frames_survive_any_split() {
    let mut stream: Vec<u8> = Vec::new();
    stream.extend_from_slice(&frame_payload(&[1, 2, 3], 100).unwrap());
    stream.extend_from_slice(&frame_payload(&[9; 40], 100).unwrap());
    let mut got: Vec<Vec<u8>> = Vec::new();
    let mut recv: Vec<u8> = Vec::new();
    for byte in stream {
        recv.push(byte);
        let mut buf = [0u8; 64];
        if let Some(n) = try_take_framed_payload(&mut recv, &mut buf, 98).unwrap() {
            got.push(buf[..n].to_vec());
        }
    }
    assert_eq!(got, vec![vec![1, 2, 3], vec![9; 40]]);
    assert!(recv.is_empty());
}

#[test]
fn bad_frames_are_refused() {
    match frame_payload(&[0; 99], 100) {
        Err(TransportError::MtuExceeded { packet_size, mtu }) => {
            assert_eq!((packet_size, mtu), (101, 100));
        }
        _ => panic!("expected a size error"),
    }
    let mut buf = [0u8; 4];
    let mut recv = vec![0x01, 0x00, 7];
    assert_eq!(
        recv_failure(try_take_framed_payload(&mut recv, &mut buf, 98)),
        "BLE recv: invalid frame header 256 exceeds max payload 98"
    );
    assert_eq!(recv.len(), 3);
    let mut recv = vec![0, 0, 7];
    assert_eq!(
        recv_failure(try_take_framed_payload(&mut recv, &mut buf, 98)),
        "BLE recv: framed message too short (0 bytes)"
    );
    assert_eq!(recv, vec![7]);
    // A short buffer cuts the payload off.
    let mut recv = vec![0, 5, 1, 2, 3, 4, 5, 6];
    assert_eq!(try_take_framed_payload(&mut recv, &mut buf, 98).unwrap(), Some(4));
    assert_eq!(buf, [1, 2, 3, 4]);
    assert_eq!(recv, vec![6]);
}

#[test]
fn datagrams_hold_one_frame() {
    assert_eq!(unframe_datagram(&[0, 2, 8, 9, 10], 64).unwrap(), vec![8, 9]);
    assert_eq!(unframe_datagram(&[0, 9, 8, 9], 64).unwrap(), vec![8, 9]);
    assert_eq!(unframe_datagram(&[0, 3, 7, 8, 9], 2).unwrap(), vec![7, 8]);
    assert_eq!(recv_failure(unframe_datagram(&[0], 64)), "frame too short");
    assert_eq!(
        recv_failure(unframe_datagram(&[0, 0, 1], 64)),
        "BLE recv: framed message too short (0 bytes)"
    );
}

#[test]
fn gatt_psm_values() {
    assert_eq!(decode_gatt_psm(&[0x85, 0x00]).unwrap(), 0x0085);
    assert_eq!(
        decode_gatt_psm(&[1, 2, 3]).unwrap_err().message("X"),
        "discover_gatt_psm: expected 2-byte PSM value, got 3 bytes from X"
    );
    assert_eq!(
        decode_gatt_psm(&[0, 0]).unwrap_err().message("X"),
        "discover_gatt_psm: invalid PSM value 0 from X"
    );
    assert_eq!(
        PsmError::Services("boom".to_string()).message("X"),
        "discover_gatt_psm: failed to enumerate services for X: boom"
    );
    assert_eq!(
        PsmError::NoService.message("X"),
        "discover_gatt_psm: FIPS GATT PSM service not found on X"
    );
    assert_eq!(
        PsmError::Characteristics("e".to_string()).message("X"),
        "discover_gatt_psm: failed to enumerate characteristics for X: e"
    );
    assert_eq!(
        PsmError::NoCharacteristic.message("X"),
        "discover_gatt_psm: PSM characteristic not found on X"
    );
    assert_eq!(
        PsmError::Read("e".to_string()).message("X"),
        "discover_gatt_psm: failed to read PSM characteristic on X: e"
    );
    assert_eq!(advertised_psm(&[0x85, 0x01, 9]), Some(0x0185));
    assert_eq!(advertised_psm(&[0x85]), None);
}

#[test]
fn mesh_devices_are_found_in_the_cache() {
    let devices = vec![None, Some(vec![1, 2]), Some(vec![3, FIPS_SERVICE_UUID])];
    assert_eq!(cached_mesh_device(&devices), Some(2));
    assert!(!is_mesh_device(&devices[1]));
    assert_eq!(cached_mesh_device(&vec![None, None]), None);
    assert_eq!(find_uuid(&[None, Some(5), Some(6), Some(5)], 5), Some(1));
    assert_eq!(find_uuid(&[None, Some(6)], 5), None);
}

#[test]
fn startup_is_retried_while_the_controller_settles() {
    assert!(retries_startup(1, StartupError::NotReady));
    assert!(retries_startup(2, StartupError::InProgress));
    assert!(!retries_startup(3, StartupError::Failed));
    assert!(!retries_startup(1, StartupError::Other));
    assert_eq!(local_addr_kind(&[2, 0, 0, 0, 0, 0]), BleAddrKind::Public);
    assert_eq!(local_addr_kind(&[1, 0, 0, 0, 0, 0]), BleAddrKind::Random);
}

#[test]
fn dial_learns_the_psm() {
    let mut dial = Dial::start(None, 133);
    assert_eq!(dial.kind, DialKind::Random);
    assert!(is_transient_gatt_error("le-connection-abort-by-local"));
    assert!(!is_transient_gatt_error("refused"));
    assert_eq!(
        dial.step(DialEvent::GattFailed { transient: true }),
        Some(DialAction::RetryGatt)
    );
    assert_eq!(dial.step(DialEvent::GattConnected), Some(DialAction::ReadPsm));
    assert_eq!(
        dial.step(DialEvent::PsmRead(Some(192))),
        Some(DialAction::AskTrust { disconnect: false })
    );
    assert_eq!(dial.step(DialEvent::Trusted(Some(false))), Some(DialAction::MarkTrusted));
    assert_eq!(dial.step(DialEvent::Marked), Some(DialAction::AskAddrKind));
    assert_eq!(
        dial.step(DialEvent::AddrKindRead(Some(DialKind::Public))),
        Some(DialAction::Open { kind: DialKind::Public, psm: 192 })
    );
    assert_eq!(dial.step(DialEvent::ChannelOpened), Some(DialAction::Deliver));
    assert_eq!(dial.phase, DialPhase::Over);
    assert_eq!(dial.step(DialEvent::ChannelOpened), None);
}

#[test]
fn dial_falls_back_to_the_configured_psm() {
    let mut dial = Dial::start(Some(DialKind::Public), 133);
    assert_eq!(
        dial.step(DialEvent::GattFailed { transient: true }),
        Some(DialAction::RetryGatt)
    );
    assert_eq!(
        dial.step(DialEvent::GattFailed { transient: true }),
        Some(DialAction::AskTrust { disconnect: true })
    );
    assert_eq!(dial.step(DialEvent::Trusted(Some(true))), Some(DialAction::AskAddrKind));
    assert_eq!(
        dial.step(DialEvent::AddrKindRead(None)),
        Some(DialAction::Open { kind: DialKind::Public, psm: 133 })
    );
    assert_eq!(dial.step(DialEvent::ChannelFailed), Some(DialAction::Fail));
    let mut slow = Dial::start(Some(DialKind::Public), 133);
    assert_eq!(
        slow.step(DialEvent::GattTimedOut),
        Some(DialAction::AskTrust { disconnect: true })
    );
    assert_eq!(slow.step(DialEvent::Trusted(None)), Some(DialAction::AskAddrKind));
}

#[test]
fn sends_are_checked() {
    assert!(check_send(Some(100), 100).is_ok());
    assert!(matches!(
        check_send(Some(100), 101),
        Err(TransportError::MtuExceeded { packet_size: 101, mtu: 100 })
    ));
    match check_send(None, 1) {
        Err(TransportError::SendFailed(m)) => assert_eq!(m, "not connected"),
        _ => panic!("expected a send error"),
    }
    assert_eq!(link_mtu(Some(512), 2048), 512);
    assert_eq!(link_mtu(None, 1), 0);
}

#[test]
fn test_transport_default_mtu() {
    assert_eq!(link_mtu(None, 2048), 2046);
}

#[test]
fn connections_are_planned_once() {
    let addr = TransportAddr::from_string("hci0/AA:BB:CC:DD:EE:FF");
    assert!(plan_connection(true, false, &addr).unwrap().is_none());
    assert!(plan_connection(false, true, &addr).unwrap().is_none());
    assert!(plan_connection(false, false, &addr).unwrap().is_some());
    let odd = TransportAddr { bytes: vec![0xFF] };
    match plan_connection(false, false, &odd) {
        Err(TransportError::InvalidAddress(m)) => assert_eq!(m, "not valid UTF-8"),
        _ => panic!("expected an address error"),
    }
}

#[test]
fn dial_outcomes() {
    assert_eq!(after_dial(DialOutcome::Connected, true), DialStep::Exchange);
    assert_eq!(after_dial(DialOutcome::Connected, false), DialStep::Register);
    assert_eq!(
        after_dial(DialOutcome::TimedOut, true),
        DialStep::Abandon { timed_out: true }
    );
    let full = pool_counts(PoolOutcome::Full);
    assert!(full.rejected && !full.connected && !full.eviction);
    let evicted = pool_counts(PoolOutcome::Evicted);
    assert!(evicted.eviction && evicted.connected && !evicted.rejected);
    let probe = probe_pool_counts(PoolOutcome::Full);
    assert!(probe.rejected && probe.connected);
}

#[test]
fn inbound_streams_are_sorted() {
    assert_eq!(inbound_step(true, false, true, true), InboundStep::Denied);
    assert_eq!(inbound_step(false, true, true, true), InboundStep::Duplicate);
    assert_eq!(inbound_step(false, false, true, true), InboundStep::Exchange);
    assert_eq!(inbound_step(false, false, true, false), InboundStep::Announce);
    assert_eq!(inbound_step(false, false, false, true), InboundStep::Register);
}

#[test]
fn receive_loop_reacts() {
    assert!(matches!(receive_step(&RecvEvent::Data(7)), RecvAction::Deliver(7)));
    assert!(matches!(receive_step(&RecvEvent::Data(0)), RecvAction::Close { .. }));
    assert_eq!(next_restart_delay(2, true), 2);
    assert_eq!(next_restart_delay(60, false), 60);
}

#[test]
fn packets_are_cut_out_of_the_stream() {
    let mut packet = vec![0u8; 4 + 12 + 5 + 16];
    packet[2] = 5;
    let mut msg2 = vec![9u8; 69];
    msg2[0] = 2;
    let mut assembler = FmpAssembler::new();
    let mut stream = packet.clone();
    stream.extend_from_slice(&msg2);
    let (head, tail) = stream.split_at(20);
    assembler.push(head);
    assert!(assembler.next_packet().unwrap().is_none());
    assembler.push(tail);
    assert_eq!(assembler.next_packet().unwrap(), Some(packet));
    assert_eq!(assembler.next_packet().unwrap(), Some(msg2));
    assert_eq!(assembler.next_packet().unwrap(), None);
    assert_eq!(fmp_packet_len(&[1, 0, 0, 0]), Ok(114));
    assert_eq!(fmp_packet_len(&[0x10, 0, 0, 0]), Err(FmpError::UnknownVersion(1)));
    assert_eq!(fmp_packet_len(&[0x05, 0, 0, 0]), Err(FmpError::UnknownPhase(5)));
}

#[test]
fn mac_radio_is_central_only() {
    let radio = BluestRadio::new("default", 2048);
    for r in [radio.listen(0x0085).map(|_| ()), radio.start_advertising(), radio.stop_advertising()]
    {
        match r {
            Err(TransportError::NotSupported(msg)) => assert!(msg.contains("central-only")),
            _ => panic!("expected a refusal"),
        }
    }
    assert!(BluestAcceptor.accept().is_err());
    assert_eq!(radio.local_addr().adapter, "default");
    assert_eq!(radio.local_addr().device, [0; 6]);
    assert_eq!(device_mac(0x0102030405060708), [3, 4, 5, 6, 7, 8]);
}

#[test]
fn devices_are_found_by_their_identifier() {
    let ids = vec![
        "no identifier".to_string(),
        "00000000-0000-0000-0000-000000000001".to_string(),
        "0102030405060708090a0b0c0d0e0f10".to_string(),
        "01020304-0506-0708-090A-0B0C0D0E0F10".to_string(),
    ];
    let target = [1, 2, 3, 4, 5, 6, 7, 8, 9, 10, 11, 12, 13, 14, 15, 16];
    assert_eq!(find_device(&ids, &target), Some(2));
    assert_eq!(find_device(&ids[3..].to_vec(), &target), Some(0));
    assert_eq!(find_device(&ids[..2].to_vec(), &target), None);
}

#[test]
fn calendar_dates() {
    assert_eq!(days_to_ymd(0), (1970, 1, 1));
    assert_eq!(days_to_ymd(11_016), (2000, 2, 29));
    assert_eq!(days_to_ymd(-1), (1969, 12, 31));
    assert_eq!(days_to_ymd(19_782), (2024, 2, 29));
    assert_eq!(iso8601(1_700_000_000_123_456), "2023-11-14T22:13:20.123456Z");
}

#[test]
fn event_lines_are_json() {
    assert_eq!(json_escape("a\"b\\c\n\t\u{1}"), "a\\\"b\\\\c\\n\\t\\u0001");
    let line = event_line("T", "conn\"ect", "p", &[("k", "v"), ("n", "1")]);
    assert_eq!(
        line,
        "{\"ts\":\"T\",\"event\":\"conn\\\"ect\",\"peer\":\"p\",\"k\":\"v\",\"n\":\"1\"}\n"
    );
    let parsed: serde_json::Value = serde_json::from_str(&line).unwrap();
    assert_eq!(parsed["event"], "conn\"ect");
    let now: serde_json::Value = serde_json::from_str(&log("e", "p", &[])).unwrap();
    assert!(now["ts"].as_str().unwrap() > "2020-01-01T00:00:00.000Z");
    assert!(!is_enabled("", true));
    assert!(is_enabled("/tmp/x", true));
}

#[test]
fn sends_are_followed_up() {
    assert_eq!(after_send(false, true, None), SendStep::Dial);
    assert_eq!(after_send(true, false, None), SendStep::CountOversized);
    assert_eq!(after_send(true, true, None), SendStep::Transmit);
    assert_eq!(after_send(true, true, Some(true)), SendStep::CountSent);
    assert_eq!(after_send(true, true, Some(false)), SendStep::DropAndReport);
}

#[test]
fn configured_peers_have_priority() {
    assert_eq!(admit_to_pool(6, 7, false, false), PoolOutcome::Inserted);
    assert_eq!(admit_to_pool(7, 7, true, true), PoolOutcome::Evicted);
    assert_eq!(admit_to_pool(7, 7, true, false), PoolOutcome::Full);
    assert_eq!(admit_to_pool(7, 7, false, true), PoolOutcome::Full);
}

#[test]
fn ties_need_a_valid_key() {
    let key = Keypair::from_secret(&[5u8; 32]).unwrap().x_only_public_key();
    assert_eq!(local_node_addr(Some(key)), Some(NodeAddr::from_pubkey(&key)));
    assert_eq!(local_node_addr(Some([0xFF; 32])), None);
    assert_eq!(local_node_addr(None), None);
}

#[test]
fn escaped_text_is_read_back_by_a_json_parser() {
    for text in ["plain", "a\"b\\c/\n\r\t", "\u{0}\u{8}\u{c}\u{1f} ", "\u{e9}\u{1f600}"] {
        let quoted = format!("\"{}\"", json_escape(text));
        let parsed: String = serde_json::from_str(&quoted).unwrap();
        assert_eq!(parsed, text);
    }
}

#[test]
fn reported_types_are_dialled() {
    let types = [
        bluer::AddressType::BrEdr,
        bluer::AddressType::LePublic,
        bluer::AddressType::LeRandom,
    ];
    for ty in types {
        let kind = DialKind::reported(ty);
        let mut dial = Dial::start(None, 133);
        dial.step(DialEvent::GattTimedOut);
        dial.step(DialEvent::Trusted(None));
        match dial.step(DialEvent::AddrKindRead(Some(kind))) {
            Some(DialAction::Open { kind, psm }) => {
                let sa = channel_addr(&test_addr(1), kind, psm);
                assert_eq!((sa.addr_type, sa.psm), (ty, 133));
                assert_eq!(sa.addr, bluer::Address(test_addr(1).device));
            }
            _ => panic!("expected a channel to be opened"),
        }
    }
    assert_eq!(DialKind::known(BleAddrKind::Random), DialKind::Random);
}

#[test]
fn connected_devices_are_not_retried_under_another_type() {
    let mut probes = ProbeState::new();
    let mut backoff = PeerBackoff::with_defaults();
    let seen = test_addr(1);
    probes.scan_result(&mut backoff, &seen, false, true, SEC, 10 * SEC);
    let mut connected = test_addr(1);
    connected.kind = BleAddrKind::Random;
    assert!(!seen.same(&connected) && seen.same_device(&connected));
    assert!(probes.retry_tick(&vec![connected]).is_none());
}
