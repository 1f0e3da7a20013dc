//! Integers as byte strings.

use vstd::prelude::*;

verus! {

/// Number of values that `n` bytes can take.
pub open spec fn bound(n: nat) -> nat
    decreases n,
{
    if n == 0 {
        1
    } else {
        256 * bound((n - 1) as nat)
    }
}

/// The lowest `n` bytes of a number, least significant first.
pub open spec fn le_bytes(x: nat, n: nat) -> Seq<u8>
    decreases n,
{
    if n == 0 {
        seq![]
    } else {
        seq![(x % 256) as u8] + le_bytes(x / 256, (n - 1) as nat)
    }
}

/// The number that bytes spell, least significant first.
pub open spec fn le_value(s: Seq<u8>) -> nat
    decreases s.len(),
{
    if s.len() == 0 {
        0
    } else {
        s[0] as nat + 256 * le_value(s.skip(1))
    }
}

/// The lowest `n` bytes of a number, most significant first.
pub open spec fn be_bytes(x: nat, n: nat) -> Seq<u8>
    decreases n,
{
    if n == 0 {
        seq![]
    } else {
        be_bytes(x / 256, (n - 1) as nat).push((x % 256) as u8)
    }
}

/// The number that bytes spell, most significant first.
pub open spec fn be_value(s: Seq<u8>) -> nat
    decreases s.len(),
{
    if s.len() == 0 {
        0
    } else {
        be_value(s.drop_last()) * 256 + s.last() as nat
    }
}

/// The bounds of the usual integer widths.
pub proof fn bounds()
    ensures
        bound(1) == 0x100,
        bound(2) == 0x1_0000,
        bound(4) == 0x1_0000_0000,
        bound(8) == 0x1_0000_0000_0000_0000,
        bound(16) == 0x1_0000_0000_0000_0000_0000_0000_0000_0000,
{
    reveal_with_fuel(bound, 17);
}

/// Encoding yields `n` bytes.
pub proof fn le_bytes_len(x: nat, n: nat)
    ensures
        le_bytes(x, n).len() == n,
    decreases n,
{
    if n > 0 {
        le_bytes_len(x / 256, (n - 1) as nat);
    }
}

/// Decoding undoes encoding for a number that fits.
pub proof fn le_decode_encode(x: nat, n: nat)
    requires
        x < bound(n),
    ensures
        le_value(le_bytes(x, n)) == x,
        le_bytes(x, n).len() == n,
    decreases n,
{
    if n > 0 {
        le_decode_encode(x / 256, (n - 1) as nat);
        assert(le_bytes(x, n).skip(1) =~= le_bytes(x / 256, (n - 1) as nat));
    }
}

/// Encoding undoes decoding, and the number fits.
pub proof fn le_encode_decode(s: Seq<u8>)
    ensures
        le_bytes(le_value(s), s.len()) == s,
        le_value(s) < bound(s.len()),
    decreases s.len(),
{
    if s.len() > 0 {
        le_encode_decode(s.skip(1));
        assert(le_bytes(le_value(s), s.len()) =~= s);
    }
}

/// Decoding undoes encoding for a number that fits.
pub proof fn be_decode_encode(x: nat, n: nat)
    requires
        x < bound(n),
    ensures
        be_value(be_bytes(x, n)) == x,
        be_bytes(x, n).len() == n,
    decreases n,
{
    if n > 0 {
        be_decode_encode(x / 256, (n - 1) as nat);
        assert(be_bytes(x, n).drop_last() =~= be_bytes(x / 256, (n - 1) as nat));
    }
}

/// Encoding undoes decoding, and the number fits.
pub proof fn be_encode_decode(s: Seq<u8>)
    ensures
        be_bytes(be_value(s), s.len()) == s,
        be_value(s) < bound(s.len()),
    decreases s.len(),
{
    if s.len() > 0 {
        be_encode_decode(s.drop_last());
        assert(be_bytes(be_value(s), s.len()) =~= s);
    }
}

/// The two bytes of a number, most significant first.
pub proof fn be_bytes_of_two(x: u16)
    ensures
        be_bytes(x as nat, 2) == seq![(x / 256) as u8, (x % 256) as u8],
{
    reveal_with_fuel(be_bytes, 3);
    assert(be_bytes(x as nat, 2) =~= seq![(x / 256) as u8, (x % 256) as u8]);
}

/// Appends the lowest `n` bytes of a number, least significant first.
pub fn put_le(out: &mut Vec<u8>, x: u64, n: usize)
    ensures
        final(out)@ == old(out)@ + le_bytes(x as nat, n as nat),
{
    let mut rest: u64 = x;
    let mut k: usize = 0;
    assert(out@ + le_bytes(rest as nat, n as nat) =~= old(out)@ + le_bytes(x as nat, n as nat));
    while k < n
        invariant
            k <= n,
            out@ + le_bytes(rest as nat, (n - k) as nat) == old(out)@ + le_bytes(
                x as nat,
                n as nat,
            ),
        decreases n - k,
    {
        let ghost before = out@;
        out.push((rest % 256) as u8);
        assert(out@ + le_bytes(rest as nat / 256, (n - k - 1) as nat) =~= before + le_bytes(
            rest as nat,
            (n - k) as nat,
        ));
        rest = rest / 256;
        k += 1;
    }
    assert(out@ + le_bytes(rest as nat, 0) =~= out@);
}

/// Reads `n` bytes, least significant first.
pub fn get_le(s: &[u8], off: usize, n: usize) -> (x: u64)
    requires
        n <= 8,
        off + n <= s@.len(),
    ensures
        x == le_value(s@.subrange(off as int, off + n)),
        x < bound(n as nat),
{
    let mut x: u64 = 0;
    let mut k: usize = n;
    proof {
        bounds();
        le_encode_decode(s@.subrange(off as int, off + n));
    }
    while k > 0
        invariant
            k <= n <= 8,
            off + n <= s.len(),
            x == le_value(s@.subrange(off + k, off + n)),
        decreases k,
    {
        let ghost tail = s@.subrange(off + k, off + n);
        let ghost whole = s@.subrange(off + k - 1, off + n);
        proof {
            assert(whole.skip(1) =~= tail);
            le_encode_decode(whole);
            bound_grows(whole.len(), 8);
            bounds();
        }
        x = x * 256 + s[off + k - 1] as u64;
        k -= 1;
    }
    proof {
        le_encode_decode(s@.subrange(off as int, off + n));
    }
    x
}

/// More bytes take at least as many values.
pub proof fn bound_grows(n: nat, m: nat)
    requires
        n <= m,
    ensures
        1 <= bound(n) <= bound(m),
    decreases m,
{
    if n < m {
        bound_grows(n, (m - 1) as nat);
    } else if n > 0 {
        bound_grows((n - 1) as nat, (m - 1) as nat);
    }
}

/// Reads `n` bytes, most significant first.
pub fn get_be(s: &[u8], off: usize, n: usize) -> (x: u64)
    requires
        n <= 8,
        off + n <= s@.len(),
    ensures
        x == be_value(s@.subrange(off as int, off + n)),
        x < bound(n as nat),
{
    let mut x: u64 = 0;
    let mut k: usize = 0;
    while k < n
        invariant
            k <= n <= 8,
            off + n <= s.len(),
            x == be_value(s@.subrange(off as int, off + k)),
        decreases n - k,
    {
        let ghost whole = s@.subrange(off as int, off + k + 1);
        proof {
            assert(whole.drop_last() =~= s@.subrange(off as int, off + k));
            be_encode_decode(whole);
            bound_grows(whole.len(), 8);
            bounds();
        }
        x = x * 256 + s[off + k] as u64;
        k += 1;
    }
    proof {
        be_encode_decode(s@.subrange(off as int, off + n));
    }
    x
}

/// Appends bytes to bytes.
pub fn put_bytes(out: &mut Vec<u8>, bytes: &[u8])
    ensures
        final(out)@ == old(out)@ + bytes@,
{
    let mut k: usize = 0;
    while k < bytes.len()
        invariant
            k <= bytes@.len(),
            out@ == old(out)@ + bytes@.take(k as int),
        decreases bytes@.len() - k,
    {
        out.push(bytes[k]);
        assert(out@ =~= old(out)@ + bytes@.take(k + 1));
        k += 1;
    }
    assert(bytes@.take(k as int) =~= bytes@);
}

/// Copies the bytes from `from` up to `to`.
pub fn copy_range(bytes: &[u8], from: usize, to: usize) -> (out: Vec<u8>)
    requires
        from <= to <= bytes@.len(),
    ensures
        out@ == bytes@.subrange(from as int, to as int),
{
    let mut out: Vec<u8> = Vec::new();
    let mut k: usize = from;
    while k < to
        invariant
            from <= k <= to <= bytes@.len(),
            out@ == bytes@.subrange(from as int, k as int),
        decreases to - k,
    {
        out.push(bytes[k]);
        assert(out@ =~= bytes@.subrange(from as int, k + 1));
        k += 1;
    }
    out
}

} // verus!
