//! TCP clamping and the TCP proxy.

use fips::upper::tcp_mss::{
    clamp_tcp_mss, clamp_tcp_window, recalculate_tcp_checksum, MAX_BLE_TCP_WINDOW, TCP_FLAG_SYN,
    TCP_OPT_MSS, TCP_OPT_MSS_LEN,
};
use fips::upper::tcp_proxy::{ProxyAction, ProxyEvent, ProxyState};

const TCP_WINDOW_OFFSET: usize = 14;

fn make_tcp_syn_packet(src: [u8; 16], dst: [u8; 16], mss: u16) -> Vec<u8> {
    let mut packet = vec![0u8; 40 + 40]; // IPv6 + TCP with options

    // IPv6 header
    packet[0] = 0x60; // Version 6
    packet[4..6].copy_from_slice(&40u16.to_be_bytes()); // Payload length
    packet[6] = 6; // Next header = TCP
    packet[7] = 64; // Hop limit
    packet[8..24].copy_from_slice(&src);
    packet[24..40].copy_from_slice(&dst);

    // TCP header
    let tcp_start = 40;
    packet[tcp_start..tcp_start + 2].copy_from_slice(&12345u16.to_be_bytes()); // Source port
    packet[tcp_start + 2..tcp_start + 4].copy_from_slice(&80u16.to_be_bytes()); // Dest port
    packet[tcp_start + 4..tcp_start + 8].copy_from_slice(&1000u32.to_be_bytes()); // Seq
    packet[tcp_start + 8..tcp_start + 12].copy_from_slice(&0u32.to_be_bytes()); // Ack
    packet[tcp_start + 12] = 0xa0; // Data offset = 10 (40 bytes header)
    packet[tcp_start + 13] = TCP_FLAG_SYN; // Flags = SYN
    packet[tcp_start + 14..tcp_start + 16].copy_from_slice(&8192u16.to_be_bytes()); // Window

    // TCP options: MSS
    packet[tcp_start + 20] = TCP_OPT_MSS; // Kind
    packet[tcp_start + 21] = TCP_OPT_MSS_LEN; // Length
    packet[tcp_start + 22..tcp_start + 24].copy_from_slice(&mss.to_be_bytes()); // MSS value

    // End of options
    packet[tcp_start + 24] = 0;

    // Calculate checksum
    recalculate_tcp_checksum(&mut packet);

    packet
}

/// The one's complement sum over the pseudo header and the segment.
fn checksum_holds(packet: &[u8]) -> bool {
    let mut sum: u64 = 0;
    for i in (8..40).step_by(2) {
        sum += u16::from_be_bytes([packet[i], packet[i + 1]]) as u64;
    }
    let len = u16::from_be_bytes([packet[4], packet[5]]) as usize;
    sum += len as u64 + 6;
    let segment = &packet[40..40 + len];
    let mut i = 0;
    while i < len {
        let low = if i + 1 < len { segment[i + 1] } else { 0 };
        sum += u16::from_be_bytes([segment[i], low]) as u64;
        i += 2;
    }
    while sum >> 16 != 0 {
        sum = (sum & 0xffff) + (sum >> 16);
    }
    sum == 0xffff
}

#[test]
fn test_clamp_tcp_mss_reduces_large_mss() {
    let src = [0xfd, 0, 0, 0, 0, 0, 0, 0, 0, 0, 0, 0, 0, 0, 0, 1];
    let dst = [0xfd, 0, 0, 0, 0, 0, 0, 0, 0, 0, 0, 0, 0, 0, 0, 2];
    let mut packet = make_tcp_syn_packet(src, dst, 1460);

    let modified = clamp_tcp_mss(&mut packet, 1200);

    assert!(modified);

    // Check MSS was clamped
    let tcp_start = 40;
    let mss = u16::from_be_bytes([packet[tcp_start + 22], packet[tcp_start + 23]]);
    assert_eq!(mss, 1200);
}

#[test]
fn test_clamp_tcp_mss_leaves_small_mss_unchanged() {
    let src = [0xfd, 0, 0, 0, 0, 0, 0, 0, 0, 0, 0, 0, 0, 0, 0, 1];
    let dst = [0xfd, 0, 0, 0, 0, 0, 0, 0, 0, 0, 0, 0, 0, 0, 0, 2];
    let mut packet = make_tcp_syn_packet(src, dst, 1000);

    let modified = clamp_tcp_mss(&mut packet, 1200);

    assert!(!modified);

    // Check MSS unchanged
    let tcp_start = 40;
    let mss = u16::from_be_bytes([packet[tcp_start + 22], packet[tcp_start + 23]]);
    assert_eq!(mss, 1000);
}

#[test]
fn test_clamp_tcp_mss_ignores_non_syn() {
    let src = [0xfd, 0, 0, 0, 0, 0, 0, 0, 0, 0, 0, 0, 0, 0, 0, 1];
    let dst = [0xfd, 0, 0, 0, 0, 0, 0, 0, 0, 0, 0, 0, 0, 0, 0, 2];
    let mut packet = make_tcp_syn_packet(src, dst, 1460);

    // Clear SYN flag
    packet[40 + 13] = 0x10; // ACK only

    let modified = clamp_tcp_mss(&mut packet, 1200);

    assert!(!modified);
}

#[test]
fn test_clamp_tcp_mss_ignores_non_tcp() {
    let mut packet = vec![0u8; 80];
    packet[0] = 0x60; // IPv6
    packet[6] = 17; // UDP, not TCP

    let modified = clamp_tcp_mss(&mut packet, 1200);

    assert!(!modified);
}

#[test]
fn test_clamp_tcp_window_large_window_clamped() {
    let src = [0xfd, 0, 0, 0, 0, 0, 0, 0, 0, 0, 0, 0, 0, 0, 0, 1];
    let dst = [0xfd, 0, 0, 0, 0, 0, 0, 0, 0, 0, 0, 0, 0, 0, 0, 2];
    let mut packet = make_tcp_syn_packet(src, dst, 1460);

    let window_offset = 40 + TCP_WINDOW_OFFSET;
    packet[window_offset..window_offset + 2].copy_from_slice(&65535u16.to_be_bytes());
    recalculate_tcp_checksum(&mut packet);

    let modified = clamp_tcp_window(&mut packet);

    assert!(modified);
    let clamped_window = u16::from_be_bytes([packet[window_offset], packet[window_offset + 1]]);
    assert_eq!(clamped_window, MAX_BLE_TCP_WINDOW);
}

#[test]
fn test_clamp_tcp_window_at_limit_unchanged() {
    let src = [0xfd, 0, 0, 0, 0, 0, 0, 0, 0, 0, 0, 0, 0, 0, 0, 1];
    let dst = [0xfd, 0, 0, 0, 0, 0, 0, 0, 0, 0, 0, 0, 0, 0, 0, 2];
    let mut packet = make_tcp_syn_packet(src, dst, 1460);

    let window_offset = 40 + TCP_WINDOW_OFFSET;
    packet[window_offset..window_offset + 2].copy_from_slice(&(MAX_BLE_TCP_WINDOW).to_be_bytes());
    recalculate_tcp_checksum(&mut packet);

    let modified = clamp_tcp_window(&mut packet);

    assert!(!modified);
    let window = u16::from_be_bytes([packet[window_offset], packet[window_offset + 1]]);
    assert_eq!(window, MAX_BLE_TCP_WINDOW);
}

#[test]
fn test_clamp_tcp_window_below_limit_unchanged() {
    let src = [0xfd, 0, 0, 0, 0, 0, 0, 0, 0, 0, 0, 0, 0, 0, 0, 1];
    let dst = [0xfd, 0, 0, 0, 0, 0, 0, 0, 0, 0, 0, 0, 0, 0, 0, 2];
    let mut packet = make_tcp_syn_packet(src, dst, 1460);

    let window_offset = 40 + TCP_WINDOW_OFFSET;
    packet[window_offset..window_offset + 2].copy_from_slice(&100u16.to_be_bytes());
    recalculate_tcp_checksum(&mut packet);

    let modified = clamp_tcp_window(&mut packet);

    assert!(!modified);
    let window = u16::from_be_bytes([packet[window_offset], packet[window_offset + 1]]);
    assert_eq!(window, 100);
}

#[test]
fn clamped_packets_still_check() {
    let mut packet = make_tcp_syn_packet([0x11; 16], [0x22; 16], 1460);
    assert!(checksum_holds(&packet));
    assert!(clamp_tcp_mss(&mut packet, 536));
    assert!(checksum_holds(&packet));
    packet[54] = 0xFF;
    packet[55] = 0xFF;
    recalculate_tcp_checksum(&mut packet);
    assert!(clamp_tcp_window(&mut packet));
    assert!(checksum_holds(&packet));
}

#[test]
fn proxy_serves_the_newest_client() {
    let mut proxy = ProxyState::new();
    assert!(!proxy.has_client());
    assert_eq!(proxy.step(ProxyEvent::Inbound), ProxyAction::Discard);
    assert_eq!(proxy.step(ProxyEvent::Accepted(1)), ProxyAction::Attach { replaced: None });
    assert_eq!(proxy.step(ProxyEvent::Inbound), ProxyAction::Write);
    assert_eq!(proxy.step(ProxyEvent::Read(9)), ProxyAction::Forward(9));
    assert_eq!(
        proxy.step(ProxyEvent::Accepted(2)),
        ProxyAction::Attach { replaced: Some(1) }
    );
    assert_eq!(proxy.step(ProxyEvent::AcceptFailed), ProxyAction::Wait);
    assert_eq!(proxy.step(ProxyEvent::Read(0)), ProxyAction::Detach { client: Some(2) });
    assert!(!proxy.has_client());
    assert_eq!(proxy.step(ProxyEvent::InboundClosed), ProxyAction::Stop);
    assert_eq!(proxy.step(ProxyEvent::OutboundClosed), ProxyAction::Stop);
}

#[test]
fn proxy_drops_a_client_that_fails() {
    for failure in [ProxyEvent::ReadFailed, ProxyEvent::WriteFailed] {
        let mut proxy = ProxyState::new();
        proxy.step(ProxyEvent::Accepted(4));
        assert_eq!(proxy.step(failure), ProxyAction::Detach { client: Some(4) });
        assert!(!proxy.has_client());
    }
}
