//! Rate limits, endpoints, identities and key log lines.

use fips::clock::Clock;
use fips::identity::{FipsAddress, IdentityError, Keypair, NodeAddr};
use fips::node::local_endpoint::LocalEndpoint;
use fips::node::routing_error_rate_limit::{LimitVerdict, RoutingErrorRateLimiter, MAX_ENTRIES};
use fips::noise::keylog::{log_link_keys, log_session_keys};
use fips::peer_policy::PeerPolicy;
use fips::upper::config::{
    DnsConfig, LeafProxyConfig, LeafServiceConfig, TcpProxyConfig, TunConfig,
};
use sha2::Digest;

const MS: u128 = 1_000_000;
const SEC: u128 = 1_000_000_000;

fn addr(val: u8) -> NodeAddr {
    let mut bytes = [0u8; 16];
    bytes[0] = val;
    NodeAddr::from_bytes(bytes)
}

/// A distinct destination address per index, standing for the fresh
/// destination a flooding sender puts on every datagram.
fn minted_addr(val: u32) -> NodeAddr {
    let mut bytes = [0u8; 16];
    bytes[..4].copy_from_slice(&val.to_le_bytes());
    bytes[15] = 0xff;
    NodeAddr::from_bytes(bytes)
}

fn some_keypair() -> Keypair {
    let mut secret = [7u8; 32];
    secret[31] = 9;
    Keypair::from_secret(&secret).unwrap()
}

#[test]
fn test_first_send_allowed() {
    let mut limiter = RoutingErrorRateLimiter::new();
    assert!(limiter.should_send(&addr(1)));
}

#[test]
fn test_rapid_sends_rate_limited() {
    let mut limiter = RoutingErrorRateLimiter::new();
    assert!(limiter.should_send(&addr(1)));
    assert!(!limiter.should_send(&addr(1)));
    assert!(!limiter.should_send(&addr(1)));
}

#[test]
fn test_different_destinations_independent() {
    let mut limiter = RoutingErrorRateLimiter::new();
    assert!(limiter.should_send(&addr(1)));
    assert!(limiter.should_send(&addr(2)));
    assert!(!limiter.should_send(&addr(1)));
    assert!(!limiter.should_send(&addr(2)));
}

#[test]
fn test_send_allowed_after_interval() {
    let mut limiter = RoutingErrorRateLimiter::new();
    let start = limiter.now_ns();
    assert_eq!(limiter.check(&addr(1), start), LimitVerdict::Admit);

    assert_eq!(limiter.check(&addr(1), start + 110 * MS), LimitVerdict::Admit);
}

#[test]
fn test_cleanup_removes_old_entries() {
    let mut limiter = RoutingErrorRateLimiter::new();
    assert!(limiter.should_send(&addr(1)));
    assert!(limiter.should_send(&addr(2)));
    assert_eq!(limiter.len(), 2);

    let future = limiter.now_ns() + 11 * SEC;
    limiter.cleanup(future);
    assert_eq!(limiter.len(), 0);
}

#[test]
fn test_cleanup_preserves_recent_entries() {
    let mut limiter = RoutingErrorRateLimiter::new();
    assert!(limiter.should_send(&addr(1)));
    assert_eq!(limiter.len(), 1);

    let now = limiter.now_ns();
    limiter.cleanup(now);
    assert_eq!(limiter.len(), 1);
}

#[test]
fn the_map_stays_bounded_when_a_sender_mints_distinct_destination_keys() {
    let mut limiter = RoutingErrorRateLimiter::new();
    let now = limiter.now_ns();

    for i in 0..100_000u32 {
        limiter.check(&minted_addr(i), now);
    }

    assert!(
        limiter.len() <= MAX_ENTRIES,
        "limiter held {} entries, above the {MAX_ENTRIES} ceiling",
        limiter.len()
    );
}

#[test]
fn an_admission_at_capacity_still_sends_rather_than_going_silent() {
    let mut limiter = RoutingErrorRateLimiter::new();
    let now = limiter.now_ns();

    for i in 0..MAX_ENTRIES as u32 {
        assert_eq!(limiter.check(&minted_addr(i), now), LimitVerdict::Admit);
    }

    // The map is full and nothing in it is old enough to evict, so the
    // next distinct destination cannot be recorded. It must still be sent.
    assert_eq!(
        limiter.check(&minted_addr(MAX_ENTRIES as u32), now),
        LimitVerdict::AdmitAtCapacity
    );
}

#[test]
fn the_map_scan_does_not_run_once_per_admitted_destination() {
    let mut limiter = RoutingErrorRateLimiter::new();
    let now = limiter.now_ns();
    let before = limiter.sweeps();

    for i in 0..1_000u32 {
        limiter.check(&minted_addr(i), now);
    }

    assert_eq!(
        limiter.sweeps() - before,
        0,
        "the full-map scan ran inside a single sweep interval"
    );
}

#[test]
fn the_map_scan_still_runs_once_a_sweep_interval_has_passed() {
    let mut limiter = RoutingErrorRateLimiter::new();
    let start = limiter.now_ns();
    limiter.check(&minted_addr(0), start);
    let before = limiter.sweeps();

    let later = start + 11 * SEC;
    limiter.check(&minted_addr(1), later);

    assert_eq!(limiter.sweeps() - before, 1);
    // The first destination aged out, so the sweep did its job.
    assert_eq!(limiter.len(), 1);
}

#[test]
fn test_with_interval_custom_rate() {
    let mut limiter = RoutingErrorRateLimiter::with_interval(500 * MS);
    let start = limiter.now_ns();
    assert_eq!(limiter.check(&addr(1), start), LimitVerdict::Admit);
    assert_eq!(limiter.check(&addr(1), start), LimitVerdict::Suppress);

    // Still rate-limited after 200ms (would pass with default 100ms)
    assert_eq!(limiter.check(&addr(1), start + 200 * MS), LimitVerdict::Suppress);

    // Allowed after 500ms total
    assert_eq!(limiter.check(&addr(1), start + 550 * MS), LimitVerdict::Admit);
}

#[test]
fn test_primary_endpoint_from_identity() {
    let keypair = some_keypair();
    let epoch = [0x01, 0x02, 0x03, 0x04, 0x05, 0x06, 0x07, 0x08];

    let endpoint = LocalEndpoint::primary(keypair, epoch);

    let node_addr = NodeAddr::from_pubkey(&keypair.x_only_public_key());
    assert!(endpoint.is_primary);
    assert_eq!(endpoint.node_addr, node_addr);
    assert_eq!(endpoint.fips_address, FipsAddress::from_node_addr(&node_addr));
    assert_eq!(endpoint.startup_epoch, u64::from_be_bytes(epoch));
}

#[test]
fn test_leaf_endpoint() {
    let keypair = some_keypair();

    let endpoint = LocalEndpoint::leaf(keypair, 42);

    assert!(!endpoint.is_primary);
    assert_eq!(endpoint.startup_epoch, 42);
    // Verify derived addresses are consistent
    let x_only = endpoint.keypair.x_only_public_key();
    assert_eq!(endpoint.node_addr, NodeAddr::from_pubkey(&x_only));
    assert_eq!(endpoint.fips_address, FipsAddress::from_node_addr(&endpoint.node_addr));
}

#[test]
fn test_primary_endpoint_known_seed() {
    let seed = "fips-esp32s3";
    let prefix = format!("esphome:fips_ble:{}", seed);
    let mut hasher = sha2::Sha256::new();
    hasher.update(prefix.as_bytes());
    let secret_bytes: [u8; 32] = hasher.finalize().into();

    let keypair = Keypair::from_secret(&secret_bytes).unwrap();

    let endpoint = LocalEndpoint::primary(keypair, [0u8; 8]);

    assert_eq!(endpoint.node_addr.text(), "91132891ed6ef5c0ff983fd4c1e9c970");
    assert_eq!(endpoint.fips_address.text(), "fd91:1328:91ed:6ef5:c0ff:983f:d4c1:e9c9");
}

#[test]
fn test_pubkey_accessor() {
    let keypair = some_keypair();
    let endpoint = LocalEndpoint::primary(keypair, [0u8; 8]);

    assert_eq!(endpoint.pubkey(), keypair.x_only_public_key());
    let secp = secp256k1::Secp256k1::new();
    let secret = secp256k1::SecretKey::from_slice(&keypair.secret_bytes()).unwrap();
    let (expected, _) = secret.x_only_public_key(&secp);
    assert_eq!(endpoint.pubkey(), expected.serialize());
}

#[test]
fn test_default_leaf_service_config() {
    let config = LeafServiceConfig::default();
    assert_eq!(config.port, 6053);
    assert_eq!(config.protocol, "tcp");
}

#[test]
fn test_leaf_proxy_config_derive_identity_esp32s3() {
    let config = LeafProxyConfig {
        identity_seed: "fips-esp32s3".to_string(),
        services: vec![LeafServiceConfig::default()],
    };

    let identity = config.derived_identity().unwrap();

    assert_eq!(identity.node_addr.text(), "91132891ed6ef5c0ff983fd4c1e9c970");
    assert_eq!(identity.fips_address.text(), "fd91:1328:91ed:6ef5:c0ff:983f:d4c1:e9c9");
    // A compressed key: a sign byte, then the x coordinate.
    assert!(identity.public_key[0] == 2 || identity.public_key[0] == 3);
    assert_eq!(identity.public_key[1..], identity.keypair.x_only_public_key()[..]);
}

#[test]
fn keylog_format_matches_spec() {
    let line = log_link_keys("aabbccdd", "11223344", &[1u8; 32], &[2u8; 32]);
    assert!(line.starts_with("FIPS_LINK aabbccdd 11223344"));
    assert!(line.contains(&hex::encode([1u8; 32])));
    assert!(line.contains(&hex::encode([2u8; 32])));
}

#[test]
fn session_keys_have_their_own_label() {
    let line = log_session_keys("a", "b", &[0xFFu8; 32], &[0x0Au8; 32]);
    let expected =
        format!("FIPS_SESSION a b {} {}\n", "ff".repeat(32), "0a".repeat(32));
    assert_eq!(line.trim_end(), expected.trim_end());
}

#[test]
fn a_secret_must_be_a_scalar() {
    assert_eq!(
        Keypair::from_secret(&[0u8; 32]).unwrap_err(),
        IdentityError::InvalidSecretKey
    );
    assert_eq!(
        Keypair::from_secret(&[0xFFu8; 32]).unwrap_err(),
        IdentityError::InvalidSecretKey
    );
    let mut one = [0u8; 32];
    one[31] = 1;
    let keypair = Keypair::from_secret(&one).unwrap();
    assert_eq!(
        hex::encode(keypair.x_only_public_key()),
        "79be667ef9dcbbac55a06295ce870b07029bfcdb2dce28d959f2815b16f81798"
    );
}

#[test]
fn node_addr_is_the_head_of_the_digest() {
    let key = [3u8; 32];
    let digest: [u8; 32] = sha2::Sha256::digest(key).into();
    assert_eq!(NodeAddr::from_pubkey(&key).as_bytes()[..], digest[..16]);
    assert!(addr(1) < addr(2));
}

#[test]
fn fips_address_has_the_private_prefix() {
    let mut bytes = [0x11u8; 16];
    bytes[15] = 0x22;
    let a = FipsAddress::from_node_addr(&NodeAddr::from_bytes(bytes));
    assert_eq!(a.as_bytes()[0], 0xfd);
    assert_eq!(a.as_bytes()[1..], bytes[..15]);
    assert_eq!(a.text(), "fd11:1111:1111:1111:1111:1111:1111:1111");
}

#[test]
fn frame_rate_is_bounded_per_window() {
    let mut policy = PeerPolicy::new();
    for _ in 0..100 {
        assert!(policy.check_frame_rate_at(5 * MS));
    }
    assert!(!policy.check_frame_rate_at(6 * MS));
    // A refusal does not lengthen the window.
    assert!(!policy.check_frame_rate_at(900 * MS));
    assert!(policy.check_frame_rate_at(1_006 * MS));
    // The window slides: frames spread over it leave it one by one.
    let mut policy = PeerPolicy::new();
    for i in 0..100u128 {
        assert!(policy.check_frame_rate_at(i * 10 * MS));
    }
    assert!(!policy.check_frame_rate_at(999 * MS));
    assert!(policy.check_frame_rate_at(1_000 * MS));
    assert!(!policy.check_frame_rate_at(1_009 * MS));
    assert!(policy.check_frame_rate_at(1_010 * MS));
    assert!(PeerPolicy::default().check_frame_rate());
}

#[test]
fn config_defaults() {
    let dns = DnsConfig::default();
    assert_eq!((dns.port(), dns.ttl()), (5354, 300));
    assert_eq!(dns.bind_addr(), "127.0.0.1");
    let tun = TunConfig::default();
    assert_eq!(tun.mtu(), 1280);
    assert_eq!(tun.name(), "fips0");
    let set = TunConfig { enabled: true, name: Some("t9".to_string()), mtu: Some(1400) };
    assert_eq!((set.name(), set.mtu()), ("t9", 1400));
    let proxy = TcpProxyConfig {
        enabled: true,
        listen_addr: Some("[::]:9".to_string()),
        target_npub: None,
    };
    assert_eq!(proxy.listen_addr(), "[::]:9");
}

#[test]
fn clocks_count_from_their_origin() {
    let now = std::time::Instant::now();
    let earlier = now.checked_sub(std::time::Duration::from_secs(10));
    if earlier.is_some() {
        assert!(Clock::counting_from(earlier, now).now_ns() >= 10 * SEC);
        assert!(Clock::start_back(10).now_ns() >= 10 * SEC);
    }
    assert!(Clock::counting_from(None, now).now_ns() < 10 * SEC);
    assert!(Clock::start().now_ns() < 10 * SEC);
    let clock = Clock::start();
    let first = clock.now_ns();
    assert!(clock.now_ns() >= first);
}
