//! TCP segment size and receive window clamping for constrained transports.
//!
//! Packets are rewritten in place: the segment size that a SYN announces is
//! reduced to what the path takes, and on slow links window scaling is removed
//! and the receive window kept small.

use vstd::prelude::*;

verus! {

/// Length of a TCP header without options.
pub const TCP_HEADER_MIN_LEN: usize = 20;

/// Length of an IPv6 header, and so the start of the TCP header.
pub const TCP_START: usize = 40;

/// Option kind of the maximum segment size.
pub const TCP_OPT_MSS: u8 = 2;

/// Length of that option.
pub const TCP_OPT_MSS_LEN: u8 = 4;

/// Option kind of the window scale.
pub const TCP_OPT_WSCALE: u8 = 3;

/// Length of that option.
pub const TCP_OPT_WSCALE_LEN: u8 = 3;

/// Option kind that does nothing.
pub const TCP_OPT_NOP: u8 = 1;

/// The SYN flag.
pub const TCP_FLAG_SYN: u8 = 0x02;

/// Largest receive window on a constrained link.
pub const MAX_BLE_TCP_WINDOW: u16 = 8192;

/// Two bytes as a number, most significant first.
pub open spec fn word(p: Seq<u8>, i: int) -> int {
    p[i] as int * 256 + p[i + 1] as int
}

/// The bytes with a number written at `i`, most significant byte first.
pub open spec fn with_word(p: Seq<u8>, i: int, x: u16) -> Seq<u8> {
    p.update(i, (x / 256) as u8).update(i + 1, (x % 256) as u8)
}

/// Whether the packet is IPv6 carrying TCP, with room for both headers.
pub open spec fn is_tcp6(p: Seq<u8>) -> bool {
    p.len() >= 60 && p[0] / 16 == 6 && p[6] == 6
}

/// Length of the TCP header.
pub open spec fn header_len(p: Seq<u8>) -> int {
    (p[52] / 16) as int * 4
}

/// Whether the TCP header length makes sense.
pub open spec fn header_fits(p: Seq<u8>) -> bool {
    20 <= header_len(p) && 40 + header_len(p) <= p.len()
}

/// Whether the SYN flag is set.
pub open spec fn is_syn(p: Seq<u8>) -> bool {
    p[53] & TCP_FLAG_SYN != 0
}

/// Where the first option of this kind and length stands, walking the options
/// from `i` to `end`. A malformed option ends the walk.
pub open spec fn find_option(p: Seq<u8>, i: int, end: int, kind: u8, length: u8) -> Option<int>
    decreases end - i,
{
    if i >= end || p[i] == 0 {
        None
    } else if p[i] == TCP_OPT_NOP {
        find_option(p, i + 1, end, kind, length)
    } else if i + 1 >= end || p[i + 1] < 2 || i + p[i + 1] > end {
        None
    } else if p[i] == kind && p[i + 1] == length {
        Some(i)
    } else {
        find_option(p, i + p[i + 1], end, kind, length)
    }
}

/// The option of a TCP header.
pub open spec fn option_at(p: Seq<u8>, kind: u8, length: u8) -> Option<int> {
    find_option(p, 60, 40 + header_len(p), kind, length)
}

/// Sum of the words of some bytes; a last odd byte counts as the upper half.
pub open spec fn word_sum(s: Seq<u8>) -> nat
    decreases s.len(),
{
    if s.len() == 0 {
        0
    } else if s.len() == 1 {
        s[0] as nat * 256
    } else {
        (word(s, 0) + word_sum(s.skip(2))) as nat
    }
}

/// A sum with its carries added back until sixteen bits are left.
pub open spec fn fold(n: nat) -> nat
    decreases n,
{
    if n < 0x1_0000 {
        n
    } else {
        fold(n % 0x1_0000 + n / 0x1_0000)
    }
}

/// Length of the segment that the IPv6 header announces.
pub open spec fn payload_len(p: Seq<u8>) -> int {
    word(p, 4)
}

/// Sum over the pseudo header and the segment.
pub open spec fn segment_sum(p: Seq<u8>) -> nat {
    word_sum(p.subrange(8, 24)) + word_sum(p.subrange(24, 40)) + payload_len(p) as nat + 6
        + word_sum(p.subrange(40, 40 + payload_len(p)))
}

/// The packet with its checksum field cleared.
pub open spec fn cleared(p: Seq<u8>) -> Seq<u8> {
    p.update(56, 0).update(57, 0)
}

/// The checksum that the packet should carry.
pub open spec fn checksum(p: Seq<u8>) -> u16 {
    (0xffff - fold(segment_sum(cleared(p)))) as u16
}

/// The packet with its checksum computed.
pub open spec fn with_checksum(p: Seq<u8>) -> Seq<u8> {
    with_word(cleared(p), 56, checksum(p))
}

/// Whether the checksum of a packet holds.
pub open spec fn checksum_holds(p: Seq<u8>) -> bool {
    fold(segment_sum(p)) == 0xffff
}

/// Whether a clamp to `max_mss` changes the packet, and where.
pub open spec fn mss_to_clamp(p: Seq<u8>, max_mss: u16) -> Option<int> {
    if is_tcp6(p) && is_syn(p) && header_fits(p) {
        match option_at(p, TCP_OPT_MSS, TCP_OPT_MSS_LEN) {
            Some(i) => if word(p, i + 2) > max_mss {
                Some(i)
            } else {
                None
            },
            None => None,
        }
    } else {
        None
    }
}

/// The packet with its segment size clamped.
pub open spec fn mss_clamped(p: Seq<u8>, max_mss: u16) -> Seq<u8> {
    match mss_to_clamp(p, max_mss) {
        Some(i) => with_checksum(with_word(p, i + 2, max_mss)),
        None => p,
    }
}

/// Where the window scale option to strip stands.
pub open spec fn scale_to_strip(p: Seq<u8>) -> Option<int> {
    if is_syn(p) {
        option_at(p, TCP_OPT_WSCALE, TCP_OPT_WSCALE_LEN)
    } else {
        None
    }
}

/// The packet with its window scale option turned into padding.
pub open spec fn scale_stripped(p: Seq<u8>) -> Seq<u8> {
    match scale_to_strip(p) {
        Some(i) => p.update(i, TCP_OPT_NOP).update(i + 1, TCP_OPT_NOP).update(i + 2, TCP_OPT_NOP),
        None => p,
    }
}

/// Whether a window clamp changes the packet.
pub open spec fn window_needs_clamp(p: Seq<u8>) -> bool {
    is_tcp6(p) && header_fits(p) && (scale_to_strip(p) is Some || word(p, 54) > MAX_BLE_TCP_WINDOW)
}

/// The packet with window scaling removed and the window clamped.
pub open spec fn window_clamped(p: Seq<u8>) -> Seq<u8> {
    let stripped = scale_stripped(p);
    if !window_needs_clamp(p) {
        p
    } else if word(p, 54) > MAX_BLE_TCP_WINDOW {
        with_checksum(with_word(stripped, 54, MAX_BLE_TCP_WINDOW))
    } else {
        with_checksum(stripped)
    }
}

/// An option that was found lies within the bounds of the walk.
pub(crate) proof fn found_option_in_bounds(p: Seq<u8>, i: int, end: int, kind: u8, length: u8)
    requires
        0 <= i,
        end <= p.len(),
    ensures
        find_option(p, i, end, kind, length) matches Some(k) ==> i <= k && k + length <= end
            && length >= 2 && p[k] == kind && p[k + 1] == length,
    decreases end - i,
{
    if i >= end || p[i] == 0 {
    } else if p[i] == TCP_OPT_NOP {
        found_option_in_bounds(p, i + 1, end, kind, length);
    } else if i + 1 >= end || p[i + 1] < 2 || i + p[i + 1] > end {
    } else if p[i] == kind && p[i + 1] == length {
    } else {
        found_option_in_bounds(p, i + p[i + 1], end, kind, length);
    }
}

/// The walk to an option does not depend on what comes behind its length.
proof fn walk_depends_on_prefix(p: Seq<u8>, q: Seq<u8>, i: int, end: int, kind: u8, length: u8)
    requires
        0 <= i,
        end <= p.len(),
        p.len() == q.len(),
        find_option(p, i, end, kind, length) is Some,
        forall|j: int|
            i <= j < find_option(p, i, end, kind, length)->0 + 2 ==> #[trigger] q[j] == p[j],
    ensures
        find_option(q, i, end, kind, length) == find_option(p, i, end, kind, length),
    decreases end - i,
{
    found_option_in_bounds(p, i, end, kind, length);
    let k = find_option(p, i, end, kind, length)->0;
    assert(q[i] == p[i]);
    if p[i] == TCP_OPT_NOP {
        found_option_in_bounds(p, i + 1, end, kind, length);
        walk_depends_on_prefix(p, q, i + 1, end, kind, length);
    } else {
        assert(q[i + 1] == p[i + 1]);
        if !(p[i] == kind && p[i + 1] == length) {
            found_option_in_bounds(p, i + p[i + 1], end, kind, length);
            walk_depends_on_prefix(p, q, i + p[i + 1], end, kind, length);
        }
    }
}

/// A word sum is bounded by the number of words.
proof fn word_sum_bound(s: Seq<u8>)
    ensures
        word_sum(s) <= 0xffff * (s.len() / 2 + 1),
    decreases s.len(),
{
    if s.len() > 1 {
        word_sum_bound(s.skip(2));
        assert(s.skip(2).len() / 2 + 1 == s.len() / 2);
    }
}

/// A word sum splits at an even place.
proof fn word_sum_splits(s: Seq<u8>, k: int)
    requires
        0 <= k <= s.len(),
        k % 2 == 0,
    ensures
        word_sum(s) == word_sum(s.take(k)) + word_sum(s.skip(k)),
    decreases k,
{
    if k == 0 {
        assert(s.skip(0) =~= s);
        assert(s.take(0) =~= seq![]);
    } else {
        let t = s.skip(2);
        word_sum_splits(t, k - 2);
        assert(s.take(k).skip(2) =~= t.take(k - 2));
        assert(t.skip(k - 2) =~= s.skip(k));
        assert(word(s.take(k), 0) == word(s, 0));
    }
}

/// Folding keeps the value modulo one less than the base, and only zero folds
/// to zero.
pub(crate) proof fn fold_properties(n: nat)
    ensures
        fold(n) < 0x1_0000,
        fold(n) as int % 0xffff == n as int % 0xffff,
        fold(n) == 0 <==> n == 0,
    decreases n,
{
    if n >= 0x1_0000 {
        let m = n % 0x1_0000 + n / 0x1_0000;
        fold_properties(m);
        let q = n as int / 0x1_0000;
        let r = n as int % 0x1_0000;
        assert(n == q * 0xffff + (q + r));
        vstd::arithmetic::div_mod::lemma_mod_multiples_vanish(q, q + r, 0xffff);
        assert(n as int % 0xffff == (0xffff * q + (q + r)) % 0xffff);
    }
}

/// A computed checksum holds, provided the segment is long enough to carry it.
pub proof fn computed_checksum_holds(p: Seq<u8>)
    requires
        p.len() >= 60,
        18 <= payload_len(p),
        40 + payload_len(p) <= p.len(),
    ensures
        checksum_holds(with_checksum(p)),
{
    let z = cleared(p);
    let q = with_checksum(p);
    let n = payload_len(p);
    let c = checksum(p);
    let s0 = segment_sum(z);
    fold_properties(s0);
    assert(c as int == 0xffff - fold(s0));
    assert(q.subrange(8, 24) =~= z.subrange(8, 24));
    assert(q.subrange(24, 40) =~= z.subrange(24, 40));
    assert(payload_len(q) == n && payload_len(z) == n);
    let a = z.subrange(40, 40 + n);
    let b = q.subrange(40, 40 + n);
    word_sum_splits(a, 16);
    word_sum_splits(b, 16);
    assert(a.take(16) =~= b.take(16));
    assert(a.skip(16).skip(2) =~= b.skip(16).skip(2));
    assert(word(b.skip(16), 0) == c as int) by {
        assert(b.skip(16)[0] == (c / 256) as u8);
        assert(b.skip(16)[1] == (c % 256) as u8);
    }
    assert(word(a.skip(16), 0) == 0);
    assert(word_sum(b) == word_sum(a) + c as nat);
    let s1 = segment_sum(q);
    assert(s1 == s0 + c as nat);
    fold_properties(s1);
    let f = fold(s0) as int;
    assert(s1 > 0) by {
        assert(segment_sum(z) >= 6);
    }
    assert(s1 as int % 0xffff == 0) by {
        vstd::arithmetic::div_mod::lemma_sub_mod_noop(s0 as int, f, 0xffff);
        assert((s0 - f) % 0xffff == 0) by {
            vstd::arithmetic::div_mod::lemma_mod_equivalence(s0 as int, f, 0xffff);
        }
        vstd::arithmetic::div_mod::lemma_mod_multiples_vanish(1, s0 - f, 0xffff);
        assert(s1 as int == 0xffff * 1 + (s0 - f));
    }
}

/// Adds the words from `from` up to `to` to a sum.
fn add_words(p: &[u8], from: usize, to: usize, start: u32) -> (sum: u32)
    requires
        from <= to <= p@.len(),
        to - from <= 0xffff,
        start <= 0x4000_0000,
    ensures
        sum == start + word_sum(p@.subrange(from as int, to as int)),
        sum <= start + 0xffff * ((to - from) / 2 + 1),
{
    let ghost seg = p@.subrange(from as int, to as int);
    let mut sum: u32 = start;
    let mut k: usize = from;
    proof {
        word_sum_bound(seg);
        assert(seg.skip(0) =~= seg);
    }
    while to - k > 1
        invariant
            from <= k <= to <= p.len(),
            to - from <= 0xffff,
            seg == p@.subrange(from as int, to as int),
            start <= 0x4000_0000,
            word_sum(seg) <= 0xffff * (seg.len() / 2 + 1),
            sum + word_sum(seg.skip(k - from)) == start + word_sum(seg),
        decreases to - k,
    {
        let ghost rest = seg.skip(k - from);
        assert(rest.skip(2) =~= seg.skip(k + 2 - from));
        assert(rest[0] == p@[k as int] && rest[1] == p@[k + 1]);
        sum = sum + (p[k] as u32 * 256 + p[k + 1] as u32);
        k += 2;
    }
    if k < to {
        let ghost rest = seg.skip(k - from);
        assert(rest.len() == 1 && rest[0] == p@[k as int]);
        sum = sum + p[k] as u32 * 256;
    } else {
        assert(seg.skip(k - from) =~= seq![]);
    }
    sum
}

/// Adds the carries of a sum back.
fn fold_sum(sum: u32) -> (r: u16)
    ensures
        r == fold(sum as nat),
{
    let mut s: u32 = sum;
    while s >= 0x1_0000
        invariant
            fold(s as nat) == fold(sum as nat),
        decreases s,
    {
        s = s % 0x1_0000 + s / 0x1_0000;
    }
    s as u16
}

/// Computes the checksum of a packet anew.
pub fn recalculate_tcp_checksum(packet: &mut [u8])
    requires
        old(packet)@.len() >= 58,
        40 + payload_len(old(packet)@) <= old(packet)@.len(),
    ensures
        final(packet)@ == with_checksum(old(packet)@),
{
    packet[56] = 0;
    packet[57] = 0;
    assert(packet@ =~= cleared(old(packet)@));
    let n: usize = packet[4] as usize * 256 + packet[5] as usize;
    assert(n == payload_len(old(packet)@));
    let src: u32 = add_words(packet, 8, 24, 0);
    let both: u32 = add_words(packet, 24, 40, src);
    let pseudo: u32 = both + n as u32 + 6;
    let sum: u32 = add_words(packet, 40, 40 + n, pseudo);
    assert(sum == segment_sum(packet@));
    let folded: u16 = fold_sum(sum);
    let c: u16 = 0xffff - folded;
    packet[56] = (c / 256) as u8;
    packet[57] = (c % 256) as u8;
    assert(packet@ =~= with_checksum(old(packet)@));
}

/// Finds an option between `start` and `end`.
fn locate_option(p: &[u8], start: usize, end: usize, kind: u8, length: u8) -> (r: Option<usize>)
    requires
        end <= p@.len(),
        end <= 0x1_0000,
    ensures
        match r {
            Some(i) => find_option(p@, start as int, end as int, kind, length) == Some(i as int)
                && start <= i && i + length <= end && length >= 2,
            None => find_option(p@, start as int, end as int, kind, length) is None,
        },
{
    let mut i: usize = start;
    while i < end
        invariant
            start <= i,
            end <= p@.len(),
            end <= 0x1_0000,
            find_option(p@, i as int, end as int, kind, length) == find_option(
                p@,
                start as int,
                end as int,
                kind,
                length,
            ),
        decreases end - i,
    {
        if p[i] == 0 {
            return None;
        }
        if p[i] == TCP_OPT_NOP {
            i += 1;
            continue;
        }
        if i + 1 >= end {
            return None;
        }
        let len: usize = p[i + 1] as usize;
        if len < 2 || i + len > end {
            return None;
        }
        if p[i] == kind && p[i + 1] == length {
            return Some(i);
        }
        i += len;
    }
    None
}

/// Whether a packet is IPv6 carrying TCP, with room for both headers.
fn carries_tcp(p: &[u8]) -> (r: bool)
    ensures
        r == is_tcp6(p@),
{
    p.len() >= 60 && p[0] / 16 == 6 && p[6] == 6
}

/// Length of the TCP header, or zero where it makes no sense.
fn checked_header_len(p: &[u8]) -> (r: usize)
    requires
        p@.len() >= 60,
    ensures
        header_fits(p@) ==> r == header_len(p@),
        !header_fits(p@) ==> r == 0,
        r <= 60,
{
    let len: usize = (p[52] / 16) as usize * 4;
    if len < TCP_HEADER_MIN_LEN || TCP_START + len > p.len() {
        0
    } else {
        len
    }
}

/// Reduces the segment size that a SYN announces to `max_mss`, if it is larger.
/// Returns whether the packet changed. A packet that changes must hold the
/// segment that its IPv6 header announces.
pub fn clamp_tcp_mss(ipv6_packet: &mut [u8], max_mss: u16) -> (r: bool)
    requires
        mss_to_clamp(old(ipv6_packet)@, max_mss) is Some ==> 40 + payload_len(old(ipv6_packet)@)
            <= old(ipv6_packet)@.len(),
    ensures
        final(ipv6_packet)@ == mss_clamped(old(ipv6_packet)@, max_mss),
        r == (mss_to_clamp(old(ipv6_packet)@, max_mss) is Some),
{
    if !carries_tcp(ipv6_packet) {
        return false;
    }
    if ipv6_packet[53] & TCP_FLAG_SYN == 0 {
        return false;
    }
    let header_len: usize = checked_header_len(ipv6_packet);
    if header_len == 0 {
        return false;
    }
    let found = locate_option(
        ipv6_packet,
        60,
        TCP_START + header_len,
        TCP_OPT_MSS,
        TCP_OPT_MSS_LEN,
    );
    match found {
        Some(i) => {
            let current: u16 = ipv6_packet[i + 2] as u16 * 256 + ipv6_packet[i + 3] as u16;
            if current > max_mss {
                ipv6_packet[i + 2] = (max_mss / 256) as u8;
                ipv6_packet[i + 3] = (max_mss % 256) as u8;
                assert(ipv6_packet@ =~= with_word(old(ipv6_packet)@, i + 2, max_mss));
                recalculate_tcp_checksum(ipv6_packet);
                true
            } else {
                false
            }
        },
        None => false,
    }
}

/// Removes window scaling from a SYN, and keeps the receive window of every TCP
/// packet at or below [`MAX_BLE_TCP_WINDOW`]. Returns whether the packet
/// changed. A packet that changes must hold the segment that its IPv6 header
/// announces.
pub fn clamp_tcp_window(ipv6_packet: &mut [u8]) -> (r: bool)
    requires
        window_needs_clamp(old(ipv6_packet)@) ==> 40 + payload_len(old(ipv6_packet)@)
            <= old(ipv6_packet)@.len(),
    ensures
        final(ipv6_packet)@ == window_clamped(old(ipv6_packet)@),
        r == window_needs_clamp(old(ipv6_packet)@),
{
    if !carries_tcp(ipv6_packet) {
        return false;
    }
    let header_len: usize = checked_header_len(ipv6_packet);
    if header_len == 0 {
        return false;
    }
    let ghost p = ipv6_packet@;
    let mut modified = false;
    if ipv6_packet[53] & TCP_FLAG_SYN != 0 {
        let found = locate_option(
            ipv6_packet,
            60,
            TCP_START + header_len,
            TCP_OPT_WSCALE,
            TCP_OPT_WSCALE_LEN,
        );
        if let Some(i) = found {
            ipv6_packet[i] = TCP_OPT_NOP;
            ipv6_packet[i + 1] = TCP_OPT_NOP;
            ipv6_packet[i + 2] = TCP_OPT_NOP;
            modified = true;
        }
    }
    assert(ipv6_packet@ =~= scale_stripped(p));
    let window: u16 = ipv6_packet[54] as u16 * 256 + ipv6_packet[55] as u16;
    if window > MAX_BLE_TCP_WINDOW {
        ipv6_packet[54] = (MAX_BLE_TCP_WINDOW / 256) as u8;
        ipv6_packet[55] = (MAX_BLE_TCP_WINDOW % 256) as u8;
        assert(ipv6_packet@ =~= with_word(scale_stripped(p), 54, MAX_BLE_TCP_WINDOW));
        modified = true;
    }
    if modified {
        recalculate_tcp_checksum(ipv6_packet);
    }
    modified
}

/// A clamped SYN announces at most `max_mss`, and clamping it again changes
/// nothing.
pub proof fn clamped_mss_is_bounded(p: Seq<u8>, max_mss: u16)
    requires
        is_tcp6(p) && is_syn(p) && header_fits(p),
        option_at(p, TCP_OPT_MSS, TCP_OPT_MSS_LEN) is Some,
    ensures
        ({
            let q = mss_clamped(p, max_mss);
            &&& option_at(q, TCP_OPT_MSS, TCP_OPT_MSS_LEN) == option_at(
                p,
                TCP_OPT_MSS,
                TCP_OPT_MSS_LEN,
            )
            &&& word(q, option_at(q, TCP_OPT_MSS, TCP_OPT_MSS_LEN)->0 + 2) <= max_mss
            &&& mss_to_clamp(q, max_mss) is None
        }),
{
    let q = mss_clamped(p, max_mss);
    let i = option_at(p, TCP_OPT_MSS, TCP_OPT_MSS_LEN)->0;
    found_option_in_bounds(p, 60, 40 + header_len(p), TCP_OPT_MSS, TCP_OPT_MSS_LEN);
    if mss_to_clamp(p, max_mss) is Some {
        walk_depends_on_prefix(p, q, 60, 40 + header_len(p), TCP_OPT_MSS, TCP_OPT_MSS_LEN);
        assert(q[i + 2] == (max_mss / 256) as u8);
        assert(q[i + 3] == (max_mss % 256) as u8);
    }
}

/// Clamping the segment size changes the option's value and the checksum, and
/// no other byte.
pub proof fn mss_clamp_touches_little(p: Seq<u8>, max_mss: u16, j: int)
    requires
        0 <= j < p.len(),
        mss_to_clamp(p, max_mss) is Some,
        j != 56 && j != 57,
        j != mss_to_clamp(p, max_mss)->0 + 2 && j != mss_to_clamp(p, max_mss)->0 + 3,
    ensures
        mss_clamped(p, max_mss)[j] == p[j],
        mss_clamped(p, max_mss).len() == p.len(),
{
    found_option_in_bounds(p, 60, 40 + header_len(p), TCP_OPT_MSS, TCP_OPT_MSS_LEN);
}

/// Every TCP packet leaves with a window of at most [`MAX_BLE_TCP_WINDOW`].
pub proof fn clamped_window_is_bounded(p: Seq<u8>)
    requires
        is_tcp6(p),
        header_fits(p),
    ensures
        word(window_clamped(p), 54) <= MAX_BLE_TCP_WINDOW,
        window_clamped(p).len() == p.len(),
{
    if is_syn(p) {
        found_option_in_bounds(p, 60, 40 + header_len(p), TCP_OPT_WSCALE, TCP_OPT_WSCALE_LEN);
    }
}

/// A packet that a clamp changes carries a valid checksum afterwards.
pub proof fn clamped_packets_verify(p: Seq<u8>, max_mss: u16)
    requires
        18 <= payload_len(p),
        40 + payload_len(p) <= p.len(),
    ensures
        mss_to_clamp(p, max_mss) is Some ==> checksum_holds(mss_clamped(p, max_mss)),
        window_needs_clamp(p) ==> checksum_holds(window_clamped(p)),
{
    if mss_to_clamp(p, max_mss) is Some {
        let i = mss_to_clamp(p, max_mss)->0;
        found_option_in_bounds(p, 60, 40 + header_len(p), TCP_OPT_MSS, TCP_OPT_MSS_LEN);
        computed_checksum_holds(with_word(p, i + 2, max_mss));
    }
    if window_needs_clamp(p) {
        if is_syn(p) {
            found_option_in_bounds(p, 60, 40 + header_len(p), TCP_OPT_WSCALE, TCP_OPT_WSCALE_LEN);
        }
        let stripped = scale_stripped(p);
        if word(p, 54) > MAX_BLE_TCP_WINDOW {
            computed_checksum_holds(with_word(stripped, 54, MAX_BLE_TCP_WINDOW));
        } else {
            computed_checksum_holds(stripped);
        }
    }
}

} // verus!
