//! Identities that this node acts for: its own, and those of proxied leaves.

use crate::identity::{FipsAddress, Keypair, NodeAddr};
use crate::wire::{be_value, get_be};
use vstd::prelude::*;

verus! {

/// An identity held by this node.
#[derive(Clone, Copy, Debug)]
pub struct LocalEndpoint {
    /// Node address of the public key.
    pub node_addr: NodeAddr,
    /// Key pair.
    pub keypair: Keypair,
    /// Mesh address of the node address.
    pub fips_address: FipsAddress,
    /// Startup epoch, by which peers detect a restart.
    pub startup_epoch: u64,
    /// Whether this is the node's own identity.
    pub is_primary: bool,
}

impl LocalEndpoint {
    /// The addresses are those of the key.
    pub open spec fn wf(self) -> bool {
        &&& self.node_addr == NodeAddr::of_key(self.keypair.pubkey())
        &&& self.fips_address == FipsAddress::of(self.node_addr)
    }

    /// The node's own identity, with its startup epoch as eight bytes, most
    /// significant first.
    pub fn primary(keypair: Keypair, startup_epoch: [u8; 8]) -> (r: LocalEndpoint)
        ensures
            r.wf(),
            r.keypair == keypair,
            r.startup_epoch == be_value(startup_epoch@),
            r.is_primary,
    {
        let epoch = get_be(startup_epoch.as_slice(), 0, 8);
        assert(startup_epoch@.subrange(0, 8) =~= startup_epoch@);
        let node_addr = NodeAddr::from_pubkey(&keypair.x_only_public_key());
        let fips_address = FipsAddress::from_node_addr(&node_addr);
        LocalEndpoint { node_addr, keypair, fips_address, startup_epoch: epoch, is_primary: true }
    }

    /// The identity of a proxied leaf.
    pub fn leaf(keypair: Keypair, startup_epoch: u64) -> (r: LocalEndpoint)
        ensures
            r.wf(),
            r.keypair == keypair,
            r.startup_epoch == startup_epoch,
            !r.is_primary,
    {
        let node_addr = NodeAddr::from_pubkey(&keypair.x_only_public_key());
        let fips_address = FipsAddress::from_node_addr(&node_addr);
        LocalEndpoint { node_addr, keypair, fips_address, startup_epoch, is_primary: false }
    }

    /// The x-only public key.
    pub fn pubkey(&self) -> (r: [u8; 32])
        ensures
            r@ == self.keypair.pubkey(),
    {
        self.keypair.x_only_public_key()
    }
}

} // verus!
