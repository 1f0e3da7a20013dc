//! Configuration of the TUN interface, the DNS responder and the proxies.

use crate::identity::{
    is_secret_key, public_key_of, public_key_of_secret, sha256, sha256_digest, FipsAddress,
    IdentityError, Keypair, NodeAddr,
};
use vstd::prelude::*;
use vstd::string::{StrSliceExecFns, StringExecFns};
use vstd::utf8::encode_utf8;

verus! {

/// Default TUN MTU, the least that IPv6 takes.
pub const DEFAULT_TUN_MTU: u16 = 1280;

/// Default port of the DNS responder.
pub const DEFAULT_DNS_PORT: u16 = 5354;

/// Default time to live of DNS records, in seconds.
pub const DEFAULT_DNS_TTL: u32 = 300;

/// Default port of a leaf service.
pub const DEFAULT_LEAF_PORT: u16 = 6053;

/// The text of an option, or a default.
pub open spec fn text_or(value: Option<String>, default: Seq<char>) -> Seq<char> {
    match value {
        Some(s) => s@,
        None => default,
    }
}

/// DNS responder configuration.
#[derive(Clone, Debug)]
pub struct DnsConfig {
    /// Whether the responder runs.
    pub enabled: bool,
    /// Bind address.
    pub bind_addr: Option<String>,
    /// Port.
    pub port: Option<u16>,
    /// Time to live of records, in seconds.
    pub ttl: Option<u32>,
}

impl Default for DnsConfig {
    /// Enabled, with everything at its default.
    fn default() -> (r: DnsConfig)
        ensures
            r.enabled,
            r.bind_addr is None,
            r.port is None,
            r.ttl is None,
    {
        DnsConfig { enabled: true, bind_addr: None, port: None, ttl: None }
    }
}

impl DnsConfig {
    /// The bind address (default: 127.0.0.1).
    pub fn bind_addr(&self) -> (r: &str)
        ensures
            r@ == text_or(self.bind_addr, "127.0.0.1"@),
    {
        match &self.bind_addr {
            Some(s) => s.as_str(),
            None => "127.0.0.1",
        }
    }

    /// The port (default: 5354).
    pub fn port(&self) -> (r: u16)
        ensures
            r == match self.port {
                Some(p) => p,
                None => DEFAULT_DNS_PORT,
            },
    {
        match self.port {
            Some(p) => p,
            None => DEFAULT_DNS_PORT,
        }
    }

    /// The time to live in seconds (default: 300).
    pub fn ttl(&self) -> (r: u32)
        ensures
            r == match self.ttl {
                Some(t) => t,
                None => DEFAULT_DNS_TTL,
            },
    {
        match self.ttl {
            Some(t) => t,
            None => DEFAULT_DNS_TTL,
        }
    }
}

/// Configuration of the single-target TCP proxy.
#[derive(Clone, Debug)]
pub struct TcpProxyConfig {
    /// Whether the proxy runs.
    pub enabled: bool,
    /// Address to listen on.
    pub listen_addr: Option<String>,
    /// Peer to forward to.
    pub target_npub: Option<String>,
}

impl Default for TcpProxyConfig {
    /// Disabled, with everything at its default.
    fn default() -> (r: TcpProxyConfig)
        ensures
            !r.enabled,
            r.listen_addr is None,
            r.target_npub is None,
    {
        TcpProxyConfig { enabled: false, listen_addr: None, target_npub: None }
    }
}

impl TcpProxyConfig {
    /// The address to listen on (default: 127.0.0.1:6053).
    pub fn listen_addr(&self) -> (r: &str)
        ensures
            r@ == text_or(self.listen_addr, "127.0.0.1:6053"@),
    {
        match &self.listen_addr {
            Some(s) => s.as_str(),
            None => "127.0.0.1:6053",
        }
    }
}

/// TUN interface configuration.
#[derive(Clone, Debug)]
pub struct TunConfig {
    /// Whether the interface is created.
    pub enabled: bool,
    /// Device name.
    pub name: Option<String>,
    /// MTU.
    pub mtu: Option<u16>,
}

impl Default for TunConfig {
    /// Disabled, with everything at its default.
    fn default() -> (r: TunConfig)
        ensures
            !r.enabled,
            r.name is None,
            r.mtu is None,
    {
        TunConfig { enabled: false, name: None, mtu: None }
    }
}

impl TunConfig {
    /// The device name (default: fips0).
    pub fn name(&self) -> (r: &str)
        ensures
            r@ == text_or(self.name, "fips0"@),
    {
        match &self.name {
            Some(s) => s.as_str(),
            None => "fips0",
        }
    }

    /// The MTU (default: 1280).
    pub fn mtu(&self) -> (r: u16)
        ensures
            r == match self.mtu {
                Some(m) => m,
                None => DEFAULT_TUN_MTU,
            },
    {
        match self.mtu {
            Some(m) => m,
            None => DEFAULT_TUN_MTU,
        }
    }
}

/// A TCP service on a leaf.
#[derive(Clone, Debug)]
pub struct LeafServiceConfig {
    /// Port.
    pub port: u16,
    /// Protocol; only tcp is supported.
    pub protocol: String,
}

impl Default for LeafServiceConfig {
    /// The ESPHome service: tcp on port 6053.
    fn default() -> (r: LeafServiceConfig)
        ensures
            r.port == DEFAULT_LEAF_PORT,
            r.protocol@ == "tcp"@,
    {
        LeafServiceConfig { port: DEFAULT_LEAF_PORT, protocol: String::from_str("tcp") }
    }
}

/// Identity and services of a proxied leaf.
#[derive(Clone, Debug)]
pub struct LeafProxyConfig {
    /// Seed that the leaf's secret key is derived from.
    pub identity_seed: String,
    /// Services of the leaf.
    pub services: Vec<LeafServiceConfig>,
}

impl Default for LeafProxyConfig {
    /// An empty seed and the default service.
    fn default() -> (r: LeafProxyConfig)
        ensures
            r.identity_seed@ == Seq::<char>::empty(),
            r.services@.len() == 1,
            r.services@[0].port == DEFAULT_LEAF_PORT,
            r.services@[0].protocol@ == "tcp"@,
    {
        let mut services: Vec<LeafServiceConfig> = Vec::new();
        services.push(LeafServiceConfig::default());
        LeafProxyConfig { identity_seed: String::new(), services }
    }
}

/// A leaf's keys and addresses.
#[derive(Clone, Copy, Debug)]
pub struct LeafIdentity {
    /// Node address of the public key.
    pub node_addr: NodeAddr,
    /// Mesh address of the node address.
    pub fips_address: FipsAddress,
    /// Public key in compressed form.
    pub public_key: [u8; 33],
    /// Key pair.
    pub keypair: Keypair,
}

/// The secret key of a leaf: the digest of its seed behind a fixed prefix.
pub open spec fn leaf_secret(seed: Seq<char>) -> Seq<u8> {
    sha256(encode_utf8("esphome:fips_ble:"@ + seed))
}

/// Whether an identity is the one that a secret key stands for.
pub open spec fn is_identity_of(secret: Seq<u8>, id: LeafIdentity) -> bool {
    &&& id.keypair.wf()
    &&& id.keypair.secret() == secret
    &&& id.public_key@ == public_key_of(secret)
    &&& id.node_addr == NodeAddr::of_key(id.keypair.pubkey())
    &&& id.fips_address == FipsAddress::of(id.node_addr)
}

impl LeafIdentity {
    /// The identity that a secret key stands for.
    pub fn from_secret(secret: &[u8; 32]) -> (r: Result<LeafIdentity, IdentityError>)
        ensures
            match r {
                Ok(id) => is_secret_key(secret@) && is_identity_of(secret@, id),
                Err(e) => !is_secret_key(secret@) && e == IdentityError::InvalidSecretKey,
            },
    {
        match Keypair::from_secret(secret) {
            Ok(keypair) => {
                let node_addr = NodeAddr::from_pubkey(&keypair.x_only_public_key());
                let fips_address = FipsAddress::from_node_addr(&node_addr);
                match public_key_of_secret(secret.as_slice()) {
                    Some(public_key) => Ok(
                        LeafIdentity { node_addr, fips_address, public_key, keypair },
                    ),
                    None => Err(IdentityError::InvalidSecretKey),
                }
            },
            Err(e) => Err(e),
        }
    }
}

impl LeafProxyConfig {
    /// The identity that the seed stands for. A seed whose digest is no secret
    /// key has none.
    pub fn derived_identity(&self) -> (r: Result<LeafIdentity, IdentityError>)
        ensures
            ({
                let secret = leaf_secret(self.identity_seed@);
                match r {
                    Ok(id) => is_secret_key(secret) && is_identity_of(secret, id),
                    Err(e) => !is_secret_key(secret) && e == IdentityError::InvalidSecretKey,
                }
            }),
    {
        let text = String::from_str("esphome:fips_ble:").concat(self.identity_seed.as_str());
        let bytes = text.as_str().as_bytes_vec();
        let secret = sha256_digest(bytes.as_slice());
        LeafIdentity::from_secret(&secret)
    }
}

/// Equal seeds give equal identities: a leaf keeps its addresses.
pub proof fn derived_identity_is_stable(a: LeafIdentity, b: LeafIdentity, seed: Seq<char>)
    requires
        is_identity_of(leaf_secret(seed), a),
        is_identity_of(leaf_secret(seed), b),
    ensures
        a.node_addr == b.node_addr,
        a.fips_address == b.fips_address,
        a.public_key@ == b.public_key@,
        a.keypair.pubkey() == b.keypair.pubkey(),
{
}

} // verus!
