//! Keys, node addresses and mesh addresses.

use crate::text::{byte_lower, hex_encode, hex_text, push_byte_lower};
use crate::wire::{be_bytes, be_decode_encode, be_encode_decode, be_value, bounds};
use secp256k1::{Secp256k1, SecretKey, XOnlyPublicKey};
use sha2::{Digest, Sha256};
use vstd::prelude::*;

verus! {

/// The SHA-256 digest of some bytes.
pub uninterp spec fn sha256(data: Seq<u8>) -> Seq<u8>;

/// `sha2::Sha256`: the digest is a function of the data, 32 bytes long.
#[verifier::external_body]
pub(crate) fn sha256_digest(data: &[u8]) -> (r: [u8; 32])
    ensures
        r@ == sha256(data@),
{
    Sha256::digest(data).into()
}

/// Whether 32 bytes are the x coordinate of a point on the curve.
pub uninterp spec fn is_xonly_key(bytes: Seq<u8>) -> bool;

/// `secp256k1::XOnlyPublicKey::from_slice`: whether the bytes are a key depends
/// on them alone, and other than 32 bytes are none.
#[verifier::external_body]
pub(crate) fn is_valid_xonly(bytes: &[u8]) -> (r: bool)
    ensures
        bytes@.len() == 32 ==> r == is_xonly_key(bytes@),
        bytes@.len() != 32 ==> !r,
{
    XOnlyPublicKey::from_slice(bytes).is_ok()
}

/// Order of the curve's group.
pub open spec fn curve_order() -> nat {
    0xffff_ffff_ffff_ffff_ffff_ffff_ffff_fffe * 0x1_0000_0000_0000_0000
        * 0x1_0000_0000_0000_0000 + 0xbaae_dce6_af48_a03b_bfd2_5e8c_d036_4141
}

/// Whether bytes are a secret key: 32 of them, and a number from one up to the
/// order of the group, most significant byte first.
pub open spec fn is_secret_key(bytes: Seq<u8>) -> bool {
    bytes.len() == 32 && 0 < be_value(bytes) < curve_order()
}

/// The x coordinate of a secret key's public point.
pub uninterp spec fn xonly_key_of(secret: Seq<u8>) -> Seq<u8>;

/// `secp256k1::SecretKey::from_slice` and the x-only public key of the result:
/// there is one for every valid secret key and for nothing else, it depends on
/// the secret alone, and it is itself a valid x-only key.
#[verifier::external_body]
pub(crate) fn xonly_of_secret(secret: &[u8]) -> (r: Option<[u8; 32]>)
    ensures
        match r {
            Some(key) => is_secret_key(secret@) && key@ == xonly_key_of(secret@) && is_xonly_key(
                key@,
            ),
            None => !is_secret_key(secret@),
        },
{
    let key = SecretKey::from_slice(secret).ok()?;
    let (xonly, _parity) = key.public_key(&Secp256k1::new()).x_only_public_key();
    Some(xonly.serialize())
}

/// The compressed public key of a secret key.
pub uninterp spec fn public_key_of(secret: Seq<u8>) -> Seq<u8>;

/// `secp256k1::SecretKey::from_slice` and the compressed public key of the
/// result: there is one for every valid secret key and for nothing else, it
/// depends on the secret alone, and behind its first byte it holds the x-only
/// key.
#[verifier::external_body]
pub(crate) fn public_key_of_secret(secret: &[u8]) -> (r: Option<[u8; 33]>)
    ensures
        match r {
            Some(key) => is_secret_key(secret@) && key@ == public_key_of(secret@) && key@.skip(1)
                == xonly_key_of(secret@),
            None => !is_secret_key(secret@),
        },
{
    let key = SecretKey::from_slice(secret).ok()?;
    Some(key.public_key(&Secp256k1::new()).serialize())
}

/// Why an identity could not be made.
#[derive(Clone, Copy, Debug, PartialEq, Eq, Structural)]
pub enum IdentityError {
    /// The bytes are not a secret key.
    InvalidSecretKey,
}

/// A node address: sixteen bytes, held as the number they spell most
/// significant byte first, so that the order of the numbers is the order of
/// the byte strings.
#[derive(Clone, Copy, Debug, PartialEq, Eq, PartialOrd, Ord, Hash, Structural)]
pub struct NodeAddr {
    /// The number.
    pub value: u128,
}

/// A mesh IPv6 address, held as the number its sixteen bytes spell most
/// significant byte first.
#[derive(Clone, Copy, Debug, PartialEq, Eq, PartialOrd, Ord, Hash, Structural)]
pub struct FipsAddress {
    /// The number.
    pub value: u128,
}

/// Reads up to sixteen bytes, most significant first.
pub(crate) fn number_of(bytes: &[u8], n: usize) -> (value: u128)
    requires
        n <= 16,
        n <= bytes@.len(),
    ensures
        value == be_value(bytes@.take(n as int)),
{
    let mut value: u128 = 0;
    let mut k: usize = 0;
    while k < n
        invariant
            k <= n <= 16,
            n <= bytes.len(),
            value == be_value(bytes@.take(k as int)),
        decreases n - k,
    {
        let ghost whole = bytes@.take(k + 1);
        proof {
            assert(whole.drop_last() =~= bytes@.take(k as int));
            be_encode_decode(whole);
            crate::wire::bound_grows(whole.len(), 16);
            bounds();
        }
        value = value * 256 + bytes[k] as u128;
        k += 1;
    }
    value
}

/// Writes a number as sixteen bytes, most significant first.
fn bytes_of(value: u128) -> (r: [u8; 16])
    ensures
        r@ == be_bytes(value as nat, 16),
{
    let mut r: [u8; 16] = [0u8; 16];
    let mut rest: u128 = value;
    let mut k: usize = 16;
    proof {
        bounds();
        be_decode_encode(value as nat, 16);
    }
    assert(be_bytes(value as nat, 16) =~= be_bytes(rest as nat, k as nat) + r@.skip(k as int));
    while k > 0
        invariant
            k <= 16,
            be_bytes(value as nat, 16) == be_bytes(rest as nat, k as nat) + r@.skip(k as int),
        decreases k,
    {
        let ghost before = r@.skip(k as int);
        let ghost head = be_bytes(rest as nat / 256, (k - 1) as nat);
        r[k - 1] = (rest % 256) as u8;
        proof {
            assert(be_bytes(rest as nat, k as nat) =~= head.push((rest % 256) as u8));
            assert(r@.skip(k - 1) =~= seq![(rest % 256) as u8] + before);
            assert(head.push((rest % 256) as u8) + before =~= head + r@.skip(k - 1));
        }
        rest = rest / 256;
        k -= 1;
    }
    assert(be_bytes(rest as nat, 0) + r@.skip(0) =~= r@);
    r
}

impl NodeAddr {
    /// The bytes of the address.
    pub open spec fn bytes(self) -> Seq<u8> {
        be_bytes(self.value as nat, 16)
    }

    /// The address of a public key: the first sixteen bytes of its digest.
    pub open spec fn of_key(pubkey: Seq<u8>) -> NodeAddr {
        NodeAddr { value: be_value(sha256(pubkey).take(16)) as u128 }
    }

    /// The address with these bytes.
    pub fn from_bytes(bytes: [u8; 16]) -> (r: NodeAddr)
        ensures
            r.bytes() == bytes@,
            r.value == be_value(bytes@),
    {
        let value = number_of(bytes.as_slice(), 16);
        proof {
            assert(bytes@.take(16) =~= bytes@);
            be_encode_decode(bytes@);
        }
        NodeAddr { value }
    }

    /// The bytes of the address.
    pub fn as_bytes(&self) -> (r: [u8; 16])
        ensures
            r@ == self.bytes(),
    {
        bytes_of(self.value)
    }

    /// The address of a public key.
    pub fn from_pubkey(pubkey: &[u8; 32]) -> (r: NodeAddr)
        ensures
            r == NodeAddr::of_key(pubkey@),
    {
        let digest = sha256_digest(pubkey.as_slice());
        NodeAddr { value: number_of(digest.as_slice(), 16) }
    }

    /// The address as 32 hexadecimal digits.
    pub fn text(&self) -> (r: String)
        ensures
            r@ == hex_text(self.bytes()),
    {
        hex_encode(self.as_bytes().as_slice())
    }
}

/// Comparing node addresses as numbers is comparing their byte strings: the
/// first byte that differs decides.
pub proof fn addr_order_is_byte_order(a: NodeAddr, b: NodeAddr, k: int)
    requires
        0 <= k < 16,
        a.bytes().take(k) == b.bytes().take(k),
        a.bytes()[k] < b.bytes()[k],
    ensures
        a.value < b.value,
{
    bounds();
    be_decode_encode(a.value as nat, 16);
    be_decode_encode(b.value as nat, 16);
    prefix_decides(a.bytes(), b.bytes(), k);
}

/// A smaller byte after a common prefix makes the smaller number.
proof fn prefix_decides(s: Seq<u8>, t: Seq<u8>, k: int)
    requires
        s.len() == t.len(),
        0 <= k < s.len(),
        s.take(k) == t.take(k),
        s[k] < t[k],
    ensures
        be_value(s) < be_value(t),
    decreases s.len(),
{
    if k == s.len() - 1 {
        assert(s.drop_last() =~= s.take(k));
        assert(t.drop_last() =~= t.take(k));
    } else {
        assert(s.drop_last().take(k) =~= s.take(k));
        assert(t.drop_last().take(k) =~= t.take(k));
        prefix_decides(s.drop_last(), t.drop_last(), k);
    }
}

impl FipsAddress {
    /// The mesh address of a node: the byte `fd`, then the first fifteen bytes
    /// of the node address.
    pub open spec fn of(addr: NodeAddr) -> FipsAddress {
        FipsAddress {
            value: (0xfd00_0000_0000_0000_0000_0000_0000_0000 + addr.value as int / 256) as u128,
        }
    }

    /// The bytes of the address.
    pub open spec fn bytes(self) -> Seq<u8> {
        be_bytes(self.value as nat, 16)
    }

    /// The address as eight groups of digits without leading zeros.
    pub open spec fn spec_text(self) -> Seq<char> {
        let b = self.bytes();
        group(b[0], b[1]) + seq![':'] + group(b[2], b[3]) + seq![':'] + group(b[4], b[5])
            + seq![':'] + group(b[6], b[7]) + seq![':'] + group(b[8], b[9]) + seq![':'] + group(
            b[10],
            b[11],
        ) + seq![':'] + group(b[12], b[13]) + seq![':'] + group(b[14], b[15])
    }

    /// The mesh address of a node.
    pub fn from_node_addr(addr: &NodeAddr) -> (r: FipsAddress)
        ensures
            r == FipsAddress::of(*addr),
    {
        FipsAddress { value: 0xfd00_0000_0000_0000_0000_0000_0000_0000 + addr.value / 256 }
    }

    /// The bytes of the address.
    pub fn as_bytes(&self) -> (r: [u8; 16])
        ensures
            r@ == self.bytes(),
    {
        bytes_of(self.value)
    }

    /// The address as eight groups of digits without leading zeros; no run of
    /// zero groups is shortened.
    pub fn text(&self) -> (r: String)
        ensures
            r@ == self.spec_text(),
    {
        let b = self.as_bytes();
        let mut out = String::new();
        push_group(&mut out, b[0], b[1]);
        out.push(':');
        push_group(&mut out, b[2], b[3]);
        out.push(':');
        push_group(&mut out, b[4], b[5]);
        out.push(':');
        push_group(&mut out, b[6], b[7]);
        out.push(':');
        push_group(&mut out, b[8], b[9]);
        out.push(':');
        push_group(&mut out, b[10], b[11]);
        out.push(':');
        push_group(&mut out, b[12], b[13]);
        out.push(':');
        push_group(&mut out, b[14], b[15]);
        assert(out@ =~= self.spec_text());
        out
    }
}

/// A row of digits without its leading zeros, except the last digit.
pub open spec fn trimmed(digits: Seq<char>) -> Seq<char>
    decreases digits.len(),
{
    if digits.len() > 1 && digits[0] == '0' {
        trimmed(digits.skip(1))
    } else {
        digits
    }
}

/// Two bytes as a group of an IPv6 address.
pub open spec fn group(hi: u8, lo: u8) -> Seq<char> {
    trimmed(byte_lower(hi) + byte_lower(lo))
}

/// Appends two bytes as a group of an IPv6 address.
fn push_group(out: &mut String, hi: u8, lo: u8)
    ensures
        final(out)@ == old(out)@ + group(hi, lo),
{
    let mut digits = String::new();
    push_byte_lower(&mut digits, hi);
    push_byte_lower(&mut digits, lo);
    let all = crate::text::chars_of(digits.as_str());
    assert(all@ =~= byte_lower(hi) + byte_lower(lo));
    let mut k: usize = 0;
    assert(all@.skip(0) =~= all@);
    while k < 3 && all[k] == '0'
        invariant
            k <= 3,
            all.len() == 4,
            trimmed(all@) == trimmed(all@.skip(k as int)),
        decreases 3 - k,
    {
        assert(all@.skip(k as int).skip(1) =~= all@.skip(k + 1));
        k += 1;
    }
    let ghost tail = all@.skip(k as int);
    assert(trimmed(tail) == tail);
    let ghost before = out@;
    let ghost from = k as int;
    while k < 4
        invariant
            0 <= from <= k <= 4,
            all.len() == 4,
            out@ == before + all@.subrange(from, k as int),
        decreases 4 - k,
    {
        out.push(all[k]);
        assert(out@ =~= before + all@.subrange(from, k + 1));
        k += 1;
    }
    assert(all@.subrange(from, 4) =~= tail);
}

/// A key pair: the secret and the x-only public key that belongs to it.
#[derive(Clone, Copy, Debug)]
pub struct Keypair {
    secret: [u8; 32],
    pubkey: [u8; 32],
}

impl Keypair {
    /// The secret key.
    pub closed spec fn secret(self) -> Seq<u8> {
        self.secret@
    }

    /// The x-only public key.
    pub closed spec fn pubkey(self) -> Seq<u8> {
        self.pubkey@
    }

    /// The two keys belong together.
    pub open spec fn wf(self) -> bool {
        &&& is_secret_key(self.secret())
        &&& self.pubkey() == xonly_key_of(self.secret())
        &&& is_xonly_key(self.pubkey())
    }

    /// The key pair of a secret.
    pub fn from_secret(secret: &[u8; 32]) -> (r: Result<Keypair, IdentityError>)
        ensures
            match r {
                Ok(kp) => is_secret_key(secret@) && kp.secret() == secret@ && kp.wf(),
                Err(e) => !is_secret_key(secret@) && e == IdentityError::InvalidSecretKey,
            },
    {
        match xonly_of_secret(secret.as_slice()) {
            Some(pubkey) => Ok(Keypair { secret: *secret, pubkey }),
            None => Err(IdentityError::InvalidSecretKey),
        }
    }

    /// The x-only public key.
    pub fn x_only_public_key(&self) -> (r: [u8; 32])
        ensures
            r@ == self.pubkey(),
    {
        self.pubkey
    }

    /// The secret key.
    pub fn secret_bytes(&self) -> (r: [u8; 32])
        ensures
            r@ == self.secret(),
    {
        self.secret
    }
}

} // verus!
