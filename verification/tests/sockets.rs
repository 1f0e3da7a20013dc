//! RFCOMM framing and addresses, and sequenced packet sockets.

use fips::identity::Keypair;
use fips::native::seqpacket::{
    classify_recv, decode_timeout, encode_timeout, nonblocking_flags, peer_hung_up, sndbuf_size,
    Received, TimeVal,
};
use fips::transport::rfcomm::framing::{encode_packet, frame_len, FramingError};
use fips::transport::rfcomm::stats::RfcommStats;
use fips::transport::rfcomm::{
    accept_step, connection_state, format_mac_addr, mac_from_sockaddr, make_sockaddr_rc,
    parse_mac_addr, pubkey_announcement, read_pubkey, AcceptStep, RfcommLifecycle,
};
use fips::transport::{ConnectionState, TransportAddr, TransportError, TransportState};

fn invalid_address<T>(r: Result<T, TransportError>) -> String {
    match r {
        Err(TransportError::InvalidAddress(m)) => m,
        _ => panic!("expected an address error"),
    }
}

#[test]
fn mac_addresses_are_reversed() {
    let mac = parse_mac_addr("AA:BB:CC:DD:EE:0f").unwrap();
    assert_eq!(mac, [0x0F, 0xEE, 0xDD, 0xCC, 0xBB, 0xAA]);
    assert_eq!(format_mac_addr(&mac), "AA:BB:CC:DD:EE:0F");
    assert!(invalid_address(parse_mac_addr("AA:BB")).contains("expected 6 octets, got 2"));
    let bad = invalid_address(parse_mac_addr("AA:BB:CC:DD:EE:GG"));
    assert_eq!(bad, "invalid MAC octet 'GG': invalid digit found in string");
    let bad = invalid_address(parse_mac_addr("AA:BB::DD:EE:GG"));
    assert_eq!(bad, "invalid MAC octet '': cannot parse integer from empty string");
    let bad = invalid_address(parse_mac_addr("100:BB:0:DD:EE:FF"));
    assert_eq!(bad, "invalid MAC octet '100': number too large to fit in target type");
}

#[test]
fn mac_octet_messages_are_those_of_the_parser() {
    for text in ["GG", "", "100", "+", "-1", "+f", "0ff", "é", "1 "] {
        let whole = format!("{text}:00:00:00:00:00");
        match u8::from_str_radix(text, 16) {
            Ok(v) => assert_eq!(parse_mac_addr(&whole).unwrap()[5], v),
            Err(e) => assert_eq!(
                invalid_address(parse_mac_addr(&whole)),
                format!("invalid MAC octet '{text}': {e}")
            ),
        }
    }
}

#[test]
fn socket_addresses_hold_the_mac() {
    let mac = [1, 2, 3, 4, 5, 6];
    let sa = make_sockaddr_rc(&mac, 7);
    assert_eq!(sa, [31, 0, 1, 2, 3, 4, 5, 6, 7, 0]);
    assert_eq!(mac_from_sockaddr(&sa), mac);
}

#[test]
fn rfcomm_keys_are_exchanged() {
    let key = Keypair::from_secret(&[5u8; 32]).unwrap().x_only_public_key();
    let msg = pubkey_announcement(&key);
    assert_eq!(msg.len(), 33);
    assert_eq!(read_pubkey(&msg).unwrap(), key);
    assert!(read_pubkey(&msg[..32]).is_err());
    let mut bad = msg.clone();
    bad[0] = 1;
    assert!(read_pubkey(&bad).is_err());
    let off_curve = [&[0u8][..], &[0xFFu8; 32][..]].concat();
    assert!(read_pubkey(&off_curve).is_err());
}

#[test]
fn rfcomm_runs_and_stops() {
    let mut l = RfcommLifecycle::new();
    assert!(matches!(l.stop(), Err(TransportError::NotStarted)));
    assert!(matches!(l.check_send(5, 100, true), Err(TransportError::NotStarted)));
    let plan = l.begin_start("server").unwrap();
    assert!(plan.listen && !plan.connect_peers);
    l.finish_start(&plan, true);
    assert_eq!(l.state, TransportState::Up);
    assert!(matches!(l.begin_start("client"), Err(TransportError::AlreadyStarted)));
    assert!(l.check_send(5, 100, true).is_ok());
    assert!(matches!(
        l.check_send(101, 100, true),
        Err(TransportError::MtuExceeded { packet_size: 101, mtu: 100 })
    ));
    match l.check_send(5, 100, false) {
        Err(TransportError::SendFailed(m)) => assert_eq!(m, "no connection to address"),
        _ => panic!("expected a send error"),
    }
    let addr = TransportAddr::from_string("AA:BB:CC:DD:EE:FF");
    assert_eq!(l.plan_connection(true, &addr).unwrap(), None);
    assert_eq!(
        l.plan_connection(false, &addr).unwrap(),
        Some([0xFF, 0xEE, 0xDD, 0xCC, 0xBB, 0xAA])
    );
    assert!(l.stop().is_ok());
    assert_eq!(l.state, TransportState::Down);
    assert_eq!(connection_state(true), ConnectionState::Connected);
    assert_eq!(accept_step(true, true), AcceptStep::Duplicate);
    assert_eq!(accept_step(false, false), AcceptStep::Unusable);
    assert_eq!(accept_step(false, true), AcceptStep::Register);
}

#[test]
fn rfcomm_frames() {
    let frame = encode_packet(&[9; 300]).unwrap();
    assert_eq!(frame.len(), 302);
    assert_eq!(frame_len(&[frame[0], frame[1]]).unwrap(), 300);
    match encode_packet(&[0; 2049]) {
        Err(FramingError::PayloadTooLarge { len, max }) => assert_eq!((len, max), (2049, 2048)),
        _ => panic!("expected a size error"),
    }
    assert!(matches!(
        frame_len(&[0xFF, 0xFF]),
        Err(FramingError::PayloadTooLarge { len: 65535, max: 2048 })
    ));
    let text = encode_packet(&[0; 2049]).unwrap_err().size_message().unwrap();
    assert_eq!(text, "payload too large: 2049 > max 2048");
    let io = FramingError::Io(std::io::Error::other("x"));
    assert!(io.size_message().is_none());
}

#[test]
fn rfcomm_counters() {
    let mut stats = RfcommStats::new();
    stats.record_connection_established();
    stats.record_connection_accepted();
    stats.record_connection_accepted();
    stats.record_connection_closed();
    stats.record_send(10);
    stats.record_send(5);
    stats.record_recv(7);
    stats.record_send_error();
    stats.record_recv_error();
    stats.record_framing_error();
    let s = stats.snapshot();
    assert_eq!(
        (s.connections_established, s.connections_accepted, s.connections_closed),
        (1, 2, 1)
    );
    assert_eq!((s.bytes_sent, s.bytes_recv), (15, 7));
    assert_eq!((s.send_errors, s.recv_errors, s.framing_errors), (1, 1, 1));
}

#[test]
fn empty_datagrams_are_data() {
    assert_eq!(classify_recv(0, false), Some(Received::Datagram(0)));
    assert_eq!(classify_recv(0, true), Some(Received::Eof));
    assert_eq!(classify_recv(5, true), Some(Received::Datagram(5)));
    assert_eq!(classify_recv(-1, true), None);
    assert!(peer_hung_up(1, 0x11, 0x10));
    assert!(!peer_hung_up(1, 0x01, 0x10));
    assert!(!peer_hung_up(0, 0x10, 0x10));
}

#[test]
fn socket_options() {
    assert_eq!(sndbuf_size(4096), Some(4096));
    assert_eq!(sndbuf_size(usize::MAX), None);
    assert_eq!(encode_timeout(None), Some(TimeVal { sec: 0, usec: 0 }));
    assert_eq!(encode_timeout(Some((0, 0))), None);
    assert_eq!(encode_timeout(Some((0, 999))), Some(TimeVal { sec: 0, usec: 0 }));
    assert_eq!(encode_timeout(Some((0, 1000))), Some(TimeVal { sec: 0, usec: 1 }));
    assert_eq!(encode_timeout(Some((1, 999))), Some(TimeVal { sec: 1, usec: 0 }));
    let t = encode_timeout(Some((2, 5_000_000))).unwrap();
    assert_eq!(t, TimeVal { sec: 2, usec: 5_000 });
    assert_eq!(decode_timeout(t), Some((2, 5_000)));
    assert_eq!(decode_timeout(TimeVal { sec: 0, usec: 0 }), None);
    assert_eq!(nonblocking_flags(0x2, 0x800, true), 0x802);
    assert_eq!(nonblocking_flags(0x802, 0x800, false), 0x2);
}
