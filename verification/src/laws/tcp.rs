//! Clamping of TCP segment sizes and windows.

use crate::upper::tcp_mss::{
    find_option, fold, fold_properties, found_option_in_bounds, mss_clamped, mss_to_clamp,
    segment_sum, window_clamped, window_needs_clamp, word_sum,
};
use vstd::prelude::*;

verus! {

/// Whether `starts` are the places, one behind the other, at which the options
/// from `from` up to `end` begin. Padding takes one byte, and every other option as
/// many as its second byte says; none begins with zero, and none goes beyond the
/// end.
pub open spec fn is_walk(p: Seq<u8>, starts: Seq<int>, from: int, end: int) -> bool {
    &&& starts.len() > 0
    &&& starts[0] == from
    &&& forall|j: int|
        0 <= j < starts.len() ==> {
            let s = #[trigger] starts[j];
            &&& from <= s < end
            &&& p[s] != 0
            &&& p[s] == 1 || s + 1 < end && p[s + 1] >= 2 && s + p[s + 1] <= end
        }
    &&& forall|j: int|
        0 < j < starts.len() ==> #[trigger] starts[j] == starts[j - 1] + (if p[starts[j - 1]] == 1 {
            1
        } else {
            p[starts[j - 1] + 1] as int
        })
}

/// Whether an option of a kind and length begins at `k`.
pub open spec fn is_option(p: Seq<u8>, k: int, kind: u8, length: u8) -> bool {
    p[k] == kind && p[k + 1] == length
}

/// A walk that has left its first place is a walk from its second.
proof fn walk_goes_on(p: Seq<u8>, starts: Seq<int>, from: int, end: int)
    requires
        is_walk(p, starts, from, end),
        starts.len() > 1,
    ensures
        is_walk(p, starts.skip(1), starts[1], end),
        starts[1] == from + (if p[from] == 1 {
            1
        } else {
            p[from + 1] as int
        }),
        from < starts[1] < end,
{
    let rest = starts.skip(1);
    assert forall|j: int| 0 <= j < rest.len() implies ({
        let s = #[trigger] rest[j];
        &&& starts[1] <= s < end
        &&& p[s] != 0
        &&& p[s] == 1 || s + 1 < end && p[s + 1] >= 2 && s + p[s + 1] <= end
    }) by {
        assert(rest[j] == starts[j + 1]);
        walk_climbs(p, starts, from, end, 1, j + 1);
    }
    assert forall|j: int| 0 < j < rest.len() implies #[trigger] rest[j] == rest[j - 1] + (if p[rest[
    j - 1]] == 1 {
        1
    } else {
        p[rest[j - 1] + 1] as int
    }) by {
        assert(rest[j] == starts[j + 1]);
        assert(rest[j - 1] == starts[j]);
    }
    assert(starts[0] == from);
    assert(starts[1] == starts[1]);
}

/// The places of a walk climb.
proof fn walk_climbs(p: Seq<u8>, starts: Seq<int>, from: int, end: int, a: int, b: int)
    requires
        is_walk(p, starts, from, end),
        0 <= a <= b < starts.len(),
    ensures
        starts[a] <= starts[b],
        a < b ==> starts[a] < starts[b],
    decreases b - a,
{
    if a < b {
        walk_climbs(p, starts, from, end, a, b - 1);
        assert(starts[b] > starts[b - 1]);
    }
}

/// The first option of a kind and length on a walk is the one that is found.
pub proof fn first_option_is_found(
    p: Seq<u8>,
    starts: Seq<int>,
    from: int,
    end: int,
    kind: u8,
    length: u8,
)
    requires
        is_walk(p, starts, from, end),
        kind > 1,
        is_option(p, starts.last(), kind, length),
        forall|j: int|
            0 <= j < starts.len() - 1 ==> !is_option(p, #[trigger] starts[j], kind, length),
    ensures
        find_option(p, from, end, kind, length) == Some(starts.last()),
    decreases starts.len(),
{
    if starts.len() > 1 {
        walk_goes_on(p, starts, from, end);
        let rest = starts.skip(1);
        assert forall|j: int| 0 <= j < rest.len() - 1 implies !is_option(
            p,
            #[trigger] rest[j],
            kind,
            length,
        ) by {
            assert(rest[j] == starts[j + 1]);
        }
        assert(rest.last() == starts.last());
        first_option_is_found(p, rest, starts[1], end, kind, length);
        assert(!is_option(p, starts[0], kind, length));
        assert(from < end && p[from] != 0);
    } else {
        assert(starts[0] == starts.last());
    }
}

/// An option that is found stands on a walk, and none of its kind and length
/// stands before it.
pub proof fn found_option_is_walked_to(p: Seq<u8>, from: int, end: int, kind: u8, length: u8) -> (
    starts: Seq<int>)
    requires
        0 <= from,
        end <= p.len(),
        kind > 1,
        find_option(p, from, end, kind, length) is Some,
    ensures
        is_walk(p, starts, from, end),
        starts.last() == find_option(p, from, end, kind, length)->0,
        is_option(p, starts.last(), kind, length),
        forall|j: int|
            0 <= j < starts.len() - 1 ==> !is_option(p, #[trigger] starts[j], kind, length),
    decreases end - from,
{
    found_option_in_bounds(p, from, end, kind, length);
    if is_option(p, from, kind, length) {
        let starts = seq![from];
        starts
    } else {
        let next = from + if p[from] == 1 {
            1
        } else {
            p[from + 1] as int
        };
        let rest = found_option_is_walked_to(p, next, end, kind, length);
        let starts = seq![from] + rest;
        assert forall|j: int| 0 <= j < starts.len() implies ({
            let s = #[trigger] starts[j];
            &&& from <= s < end
            &&& p[s] != 0
            &&& p[s] == 1 || s + 1 < end && p[s + 1] >= 2 && s + p[s + 1] <= end
        }) by {
            if j > 0 {
                assert(starts[j] == rest[j - 1]);
            }
        }
        assert forall|j: int| 0 < j < starts.len() implies #[trigger] starts[j] == starts[j - 1] + (
        if p[starts[j - 1]] == 1 {
            1
        } else {
            p[starts[j - 1] + 1] as int
        }) by {
            assert(starts[j] == rest[j - 1]);
            if j > 1 {
                assert(starts[j - 1] == rest[j - 2]);
            }
        }
        assert forall|j: int| 0 <= j < starts.len() - 1 implies !is_option(
            p,
            #[trigger] starts[j],
            kind,
            length,
        ) by {
            if j > 0 {
                assert(starts[j] == rest[j - 1]);
            }
        }
        assert(starts.last() == rest.last());
        starts
    }
}

/// Whether a packet is IPv6 with TCP whose header fits.
pub open spec fn is_segment(p: Seq<u8>) -> bool {
    &&& p.len() >= 60
    &&& p[0] / 16 == 6
    &&& p[6] == 6
    &&& p[52] / 16 >= 5
    &&& 40 + p[52] / 16 * 4 <= p.len()
}

/// End of the options of a segment.
pub open spec fn options_end(p: Seq<u8>) -> int {
    40 + p[52] / 16 * 4
}

/// A window scale option on a SYN is replaced by three bytes of padding, where a
/// walk over the options finds it first. The packet counts as changed, the same
/// walk leads to the padding, every other option byte and all that follows stays,
/// and the window is at most 8192.
pub proof fn window_scaling_is_removed(p: Seq<u8>, starts: Seq<int>)
    requires
        is_segment(p),
        p[53] & 0x02u8 != 0,
        is_walk(p, starts, 60, options_end(p)),
        is_option(p, starts.last(), 3, 3),
        forall|j: int| 0 <= j < starts.len() - 1 ==> !is_option(p, #[trigger] starts[j], 3, 3),
    ensures
        ({
            let q = window_clamped(p);
            let k = starts.last();
            &&& window_needs_clamp(p)
            &&& q != p
            &&& q.len() == p.len()
            &&& 60 <= k && k + 3 <= options_end(p)
            &&& q[k] == 1 && q[k + 1] == 1 && q[k + 2] == 1
            &&& forall|i: int| 60 <= i < p.len() && !(k <= i < k + 3) ==> #[trigger] q[i] == p[i]
            &&& forall|i: int| 0 <= i < 54 ==> #[trigger] q[i] == p[i]
            &&& is_walk(q, starts, 60, options_end(p))
            &&& q[54] as int * 256 + q[55] as int == if p[54] as int * 256 + p[55] as int > 8192 {
                8192
            } else {
                p[54] as int * 256 + p[55] as int
            }
        }),
{
    let end = options_end(p);
    let k = starts.last();
    first_option_is_found(p, starts, 60, end, 3, 3);
    assert(starts[starts.len() - 1] == k);
    let q = window_clamped(p);
    assert(window_needs_clamp(p));
    assert(q[k] == 1 && p[k] == 3);
    assert forall|i: int| 60 <= i < p.len() && !(k <= i < k + 3) implies #[trigger] q[i]
        == p[i] by {}
    assert forall|i: int| 0 <= i < 54 implies #[trigger] q[i] == p[i] by {}
    assert forall|j: int| 0 <= j < starts.len() implies ({
        let s = #[trigger] starts[j];
        &&& 60 <= s < end
        &&& q[s] != 0
        &&& q[s] == 1 || s + 1 < end && q[s + 1] >= 2 && s + q[s + 1] <= end
        &&& j < starts.len() - 1 ==> q[s] == p[s] && (p[s] == 1 || q[s + 1] == p[s + 1])
    }) by {
        let s = starts[j];
        if j < starts.len() - 1 {
            walk_climbs(p, starts, 60, end, j, starts.len() - 1);
            walk_climbs(p, starts, 60, end, j + 1, starts.len() - 1);
            assert(starts[j + 1] == s + (if p[s] == 1 {
                1
            } else {
                p[s + 1] as int
            }));
        }
    }
    assert forall|j: int| 0 < j < starts.len() implies #[trigger] starts[j] == starts[j - 1] + (
    if q[starts[j - 1]] == 1 {
        1
    } else {
        q[starts[j - 1] + 1] as int
    }) by {
        let s = starts[j - 1];
        assert(q[s] == p[s] && (p[s] == 1 || q[s + 1] == p[s + 1]));
    }
}

/// Where there is no window scale option to remove, the window alone decides: one
/// above 8192 becomes 8192 and nothing but it and the checksum changes, and with a
/// smaller one the packet stays as it is. So does a packet that is not IPv6 with
/// TCP, or whose header does not fit.
pub proof fn large_windows_are_clamped(p: Seq<u8>)
    requires
        p.len() >= 60,
        p[53] & 0x02u8 == 0 || forall|starts: Seq<int>| #[trigger]
            is_walk(p, starts, 60, options_end(p)) ==> !is_option(p, starts.last(), 3, 3),
    ensures
        ({
            let q = window_clamped(p);
            let large = p[54] as int * 256 + p[55] as int > 8192;
            &&& !is_segment(p) || !large ==> q == p && !window_needs_clamp(p)
            &&& is_segment(p) && large ==> {
                &&& window_needs_clamp(p)
                &&& q.len() == p.len()
                &&& q[54] == 0x20 && q[55] == 0
                &&& forall|i: int| 0 <= i < p.len() && !(54 <= i < 58) ==> #[trigger] q[i] == p[i]
            }
        }),
{
    if is_segment(p) && p[53] & 0x02u8 != 0 {
        let end = options_end(p);
        if find_option(p, 60, end, 3, 3) is Some {
            let starts = found_option_is_walked_to(p, 60, end, 3, 3);
            assert(is_walk(p, starts, 60, end));
        }
    }
}

/// A packet that is not IPv6 with TCP, or whose TCP header does not fit, is not
/// touched.
pub proof fn foreign_packets_stay(p: Seq<u8>, max_mss: u16)
    requires
        !is_segment(p),
    ensures
        window_clamped(p) == p,
        !window_needs_clamp(p),
        mss_clamped(p, max_mss) == p,
        mss_to_clamp(p, max_mss) is None,
{
}

/// The segment size that a SYN announces, where a walk over the options finds it
/// first, becomes the limit if it is above it, and nothing but it and the checksum
/// changes. A smaller one stays, and the packet with it.
pub proof fn announced_segment_size_is_limited(p: Seq<u8>, starts: Seq<int>, max_mss: u16)
    requires
        is_segment(p),
        p[53] & 0x02u8 != 0,
        is_walk(p, starts, 60, options_end(p)),
        is_option(p, starts.last(), 2, 4),
        forall|j: int| 0 <= j < starts.len() - 1 ==> !is_option(p, #[trigger] starts[j], 2, 4),
    ensures
        ({
            let q = mss_clamped(p, max_mss);
            let k = starts.last();
            let announced = p[k + 2] as int * 256 + p[k + 3] as int;
            &&& mss_to_clamp(p, max_mss) is Some <==> announced > max_mss
            &&& announced <= max_mss ==> q == p
            &&& announced > max_mss ==> {
                &&& q.len() == p.len()
                &&& q[k + 2] as int * 256 + q[k + 3] as int == max_mss
                &&& forall|i: int|
                    0 <= i < p.len() && !(56 <= i < 58) && !(k + 2 <= i < k + 4)
                        ==> #[trigger] q[i] == p[i]
            }
        }),
{
    first_option_is_found(p, starts, 60, options_end(p), 2, 4);
    assert(starts[starts.len() - 1] == starts.last());
}

/// Without a SYN, or with no segment size on the walk, the packet stays.
pub proof fn other_packets_keep_their_segment_size(p: Seq<u8>, max_mss: u16)
    requires
        p.len() >= 60,
        p[53] & 0x02u8 == 0 || forall|starts: Seq<int>| #[trigger]
            is_walk(p, starts, 60, options_end(p)) ==> !is_option(p, starts.last(), 2, 4),
    ensures
        mss_clamped(p, max_mss) == p,
        mss_to_clamp(p, max_mss) is None,
{
    if is_segment(p) && p[53] & 0x02u8 != 0 {
        let end = options_end(p);
        if find_option(p, 60, end, 2, 4) is Some {
            let starts = found_option_is_walked_to(p, 60, end, 2, 4);
            assert(is_walk(p, starts, 60, end));
        }
    }
}

/// Weight of a byte in the sum of words.
pub open spec fn weight(i: int) -> int {
    if i % 2 == 0 {
        256
    } else {
        1
    }
}

/// A sum of words changes with one of its bytes by what that byte weighs.
pub proof fn word_sum_counts_every_byte(s: Seq<u8>, i: int, b: u8)
    requires
        0 <= i < s.len(),
    ensures
        word_sum(s.update(i, b)) - word_sum(s) == (b - s[i]) * weight(i),
    decreases s.len(),
{
    let t = s.update(i, b);
    if s.len() >= 2 {
        if i < 2 {
            assert(t.skip(2) =~= s.skip(2));
        } else {
            assert(t.skip(2) =~= s.skip(2).update(i - 2, b));
            word_sum_counts_every_byte(s.skip(2), i - 2, b);
            assert(t[0] == s[0] && t[1] == s[1]);
        }
    }
}

/// Bytes that are all zero sum to nothing.
pub proof fn zeros_sum_to_nothing(s: Seq<u8>)
    requires
        forall|i: int| 0 <= i < s.len() ==> s[i] == 0,
    ensures
        word_sum(s) == 0,
    decreases s.len(),
{
    if s.len() >= 2 {
        zeros_sum_to_nothing(s.skip(2));
    }
}

/// The checksum covers both addresses and the whole segment, each byte with its
/// weight, and besides them the length of the segment and the protocol number.
pub proof fn checksum_covers_the_segment(p: Seq<u8>, i: int, b: u8)
    requires
        p.len() >= 60,
        40 + (p[4] as int * 256 + p[5] as int) <= p.len(),
        8 <= i < 40 + (p[4] as int * 256 + p[5] as int),
    ensures
        segment_sum(p.update(i, b)) - segment_sum(p) == (b - p[i]) * weight(i),
        (forall|j: int| 8 <= j < p.len() ==> #[trigger] p[j] == 0) ==> segment_sum(p) == p[4] as int
            * 256 + p[5] as int + 6,
{
    let n = p[4] as int * 256 + p[5] as int;
    let q = p.update(i, b);
    let (a, c, d) = (p.subrange(8, 24), p.subrange(24, 40), p.subrange(40, 40 + n));
    let (a1, c1, d1) = (q.subrange(8, 24), q.subrange(24, 40), q.subrange(40, 40 + n));
    if i < 24 {
        word_sum_counts_every_byte(a, i - 8, b);
        assert(a1 =~= a.update(i - 8, b));
        assert(c1 =~= c);
        assert(d1 =~= d);
    } else if i < 40 {
        word_sum_counts_every_byte(c, i - 24, b);
        assert(a1 =~= a);
        assert(c1 =~= c.update(i - 24, b));
        assert(d1 =~= d);
    } else {
        word_sum_counts_every_byte(d, i - 40, b);
        assert(a1 =~= a);
        assert(c1 =~= c);
        assert(d1 =~= d.update(i - 40, b));
    }
    if forall|j: int| 8 <= j < p.len() ==> #[trigger] p[j] == 0 {
        zeros_sum_to_nothing(a);
        zeros_sum_to_nothing(c);
        zeros_sum_to_nothing(d);
    }
}

/// Adding carries back keeps a sum's remainder and leaves sixteen bits; only
/// nothing folds to nothing.
pub proof fn carries_are_added_back(n: nat)
    ensures
        0 <= fold(n) <= 0xffff,
        fold(n) as int % 0xffff == n as int % 0xffff,
        fold(n) == 0 <==> n == 0,
{
    fold_properties(n);
}

} // verus!
