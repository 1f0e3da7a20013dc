//! Numbers, bytes, dates and addresses as text, and integers as bytes.

use crate::identity::{group, trimmed, FipsAddress, NodeAddr};
use crate::noise::keylog::key_text;
use crate::text::{
    byte_lower, byte_upper, decimal, find, find_is_first, hex_digit, hex_lower, hex_text,
    hex_text_digits, octet, octet_scan, padded, split, split_at_first, split_without, OctetError,
};
use crate::transport::ble::addr::{mac_octets, mac_text, octet_of_byte, BleAddr, BleAddrKind};
use crate::transport::ble::event_log::{
    day_number, days_before_month, escape_char, escaped, escaped_text_reads_back, event_text,
    fields_text, is_date, is_leap, is_timestamp, later_dates_have_larger_numbers, leap_step,
    month_len, month_table, timestamp_text, unescaped,
};
use crate::transport::TransportError;
use crate::wire::{be_bytes, be_decode_encode, be_encode_decode, be_value, bound, le_bytes, le_value};
use vstd::prelude::*;

verus! {

/// The number that decimal digits spell.
pub open spec fn spelled(s: Seq<char>) -> int
    decreases s.len(),
{
    if s.len() == 0 {
        0
    } else {
        10 * spelled(s.drop_last()) + (s.last() as int - '0' as int)
    }
}

/// Whether a text is made of decimal digits.
pub open spec fn all_digits(s: Seq<char>) -> bool {
    forall|i: int| 0 <= i < s.len() ==> '0' as int <= #[trigger] s[i] as int <= '9' as int
}

/// The decimal text of a number spells it, in digits, without a zero in front.
pub proof fn decimal_spells_the_number(n: nat)
    ensures
        spelled(decimal(n)) == n,
        all_digits(decimal(n)),
        decimal(n).len() >= 1,
        n > 0 ==> decimal(n)[0] != '0',
        n == 0 ==> decimal(n) == seq!['0'],
    decreases n,
{
    let s = decimal(n);
    if n < 10 {
        assert(s.drop_last() =~= seq![]);
        assert(spelled(s.drop_last()) == 0);
        assert(s.last() as int == 48 + n);
    } else {
        decimal_spells_the_number(n / 10);
        assert(s.drop_last() =~= decimal(n / 10));
        assert(s.last() as int == 48 + n % 10);
        assert(s[0] == decimal(n / 10)[0]);
    }
}

/// Padding gives as many digits as asked for, and spells the number if it has no
/// more than that.
pub proof fn padded_spells_the_number(n: nat, width: nat)
    ensures
        padded(n, width).len() == width,
        all_digits(padded(n, width)),
        n < vstd::arithmetic::power::pow(10, width) ==> spelled(padded(n, width)) == n,
    decreases width,
{
    reveal(vstd::arithmetic::power::pow);
    if width > 0 {
        let w = (width - 1) as nat;
        let s = padded(n, width);
        padded_spells_the_number(n / 10, w);
        assert(s.drop_last() =~= padded(n / 10, w));
        assert(s.last() as int == 48 + n % 10);
        let p = vstd::arithmetic::power::pow(10, w);
        assert(vstd::arithmetic::power::pow(10, width) == 10 * p);
        assert(n < 10 * p ==> n / 10 < p);
    }
}

/// Hexadecimal digits count from zero to fifteen, in either case alike.
pub proof fn hexadecimal_digits_count(c: char)
    ensures
        '0' as int <= c as int <= '9' as int ==> hex_digit(c) == Some(c as int - '0' as int),
        'a' as int <= c as int <= 'f' as int ==> hex_digit(c) == Some(c as int - 'a' as int + 10),
        'A' as int <= c as int <= 'F' as int ==> hex_digit(c) == Some(c as int - 'A' as int + 10),
        hex_digit(c) is Some ==> 0 <= hex_digit(c)->0 < 16,
        hex_digit(c) is Some <==> '0' as int <= c as int <= '9' as int || 'a' as int <= c as int
            <= 'f' as int || 'A' as int <= c as int <= 'F' as int,
{
}

/// A byte is read back from its two digits, which are upper or lower case as asked
/// for.
pub proof fn bytes_are_read_back(b: u8)
    ensures
        byte_upper(b).len() == 2 && byte_lower(b).len() == 2,
        octet(byte_upper(b)) == Ok::<u8, OctetError>(b),
        octet(byte_lower(b)) == Ok::<u8, OctetError>(b),
        forall|i: int|
            0 <= i < 2 ==> '0' as int <= #[trigger] byte_upper(b)[i] as int <= '9' as int
                || 'A' as int <= byte_upper(b)[i] as int <= 'F' as int,
        forall|i: int|
            0 <= i < 2 ==> '0' as int <= #[trigger] byte_lower(b)[i] as int <= '9' as int
                || 'a' as int <= byte_lower(b)[i] as int <= 'f' as int,
{
    octet_of_byte(b);
    let s = byte_lower(b);
    reveal_with_fuel(octet_scan, 3);
    assert(s.drop_last() =~= seq![s[0]]);
    assert(s.drop_last().drop_last() =~= seq![]);
    assert(hex_digit(s[0]) == Some(b as int / 16));
    assert(hex_digit(s[1]) == Some(b as int % 16));
}

/// One or two hexadecimal digits are a byte, the first counting sixteenfold. A plus
/// in front changes nothing, no digit is nothing, and a third digit is too many
/// unless a zero leads.
pub proof fn octets_are_one_or_two_digits(a: char, b: char, c: char)
    requires
        hex_digit(a) is Some,
        hex_digit(b) is Some,
        hex_digit(c) is Some,
    ensures
        octet(seq![]) == Err::<u8, OctetError>(OctetError::Empty),
        octet(seq![a]) is Ok && octet(seq![a])->Ok_0 == hex_digit(a)->0,
        octet(seq![a, b]) is Ok && octet(seq![a, b])->Ok_0 == 16 * hex_digit(a)->0 + hex_digit(
            b,
        )->0,
        octet(seq!['+', a, b]) == octet(seq![a, b]),
        hex_digit(a)->0 == 0 ==> octet(seq![a, b, c]) == octet(seq![b, c]),
        hex_digit(a)->0 > 0 ==> octet(seq![a, b, c]) == Err::<u8, OctetError>(OctetError::TooLarge),
{
    reveal_with_fuel(octet_scan, 4);
    assert(seq![a].drop_last() =~= seq![]);
    assert(seq![a, b].drop_last() =~= seq![a]);
    assert(seq![b].drop_last() =~= seq![]);
    assert(seq![b, c].drop_last() =~= seq![b]);
    assert(seq![a, b, c].drop_last() =~= seq![a, b]);
    assert(seq!['+', a, b].skip(1) =~= seq![a, b]);
}

/// A character that is no digit is refused wherever it stands.
pub proof fn other_characters_are_refused(a: char, x: char)
    requires
        hex_digit(a) is Some,
        hex_digit(x) is None,
        x != '+',
    ensures
        octet(seq![x]) == Err::<u8, OctetError>(OctetError::InvalidDigit),
        octet(seq![a, x]) == Err::<u8, OctetError>(OctetError::InvalidDigit),
        octet(seq![x, a]) == Err::<u8, OctetError>(OctetError::InvalidDigit),
        octet(seq!['+']) == Err::<u8, OctetError>(OctetError::InvalidDigit),
{
    reveal_with_fuel(octet_scan, 3);
    assert(seq![x].drop_last() =~= seq![]);
    assert(seq![a].drop_last() =~= seq![]);
    assert(seq!['+'].drop_last() =~= seq![]);
    assert(seq![a, x].drop_last() =~= seq![a]);
    assert(seq![x, a].drop_last() =~= seq![x]);
}

/// Parts with a separator between them.
pub open spec fn joined(parts: Seq<Seq<char>>, c: char) -> Seq<char>
    decreases parts.len(),
{
    if parts.len() == 0 {
        seq![]
    } else if parts.len() == 1 {
        parts[0]
    } else {
        parts[0] + seq![c] + joined(parts.skip(1), c)
    }
}

/// Cutting a text at a separator and joining the parts gives the text back, and no
/// part holds the separator.
pub proof fn parts_join_to_the_text(s: Seq<char>, c: char)
    ensures
        joined(split(s, c), c) == s,
        split(s, c).len() >= 1,
        forall|i: int| 0 <= i < split(s, c).len() ==> !(#[trigger] split(s, c)[i]).contains(c),
    decreases s.len(),
{
    find_is_first(s, c);
    let k = find(s, c);
    let parts = split(s, c);
    if k < s.len() {
        let rest = s.skip(k + 1);
        let tail = split(rest, c);
        parts_join_to_the_text(rest, c);
        assert(parts =~= seq![s.take(k)] + tail);
        assert(parts.skip(1) =~= tail);
        assert(parts.len() > 1);
        assert(joined(parts, c) =~= s.take(k) + seq![c] + rest);
        assert(s.take(k) + seq![c] + rest =~= s);
        assert forall|i: int| 0 <= i < parts.len() implies !(#[trigger] parts[i]).contains(c) by {
            if i > 0 {
                assert(parts[i] == tail[i - 1]);
            }
        }
    }
}

/// Bytes spell the number whose digits to the base of 256 they are, from either
/// end.
pub proof fn bytes_spell_numbers(a: u8, b: u8, c: u8, d: u8)
    ensures
        le_value(seq![a, b]) == a + 256 * b,
        be_value(seq![a, b]) == 256 * a + b,
        le_value(seq![a, b, c, d]) == a + 256 * b + 65536 * c + 16777216 * d,
        be_value(seq![a, b, c, d]) == 16777216 * a + 65536 * b + 256 * c + d,
{
    reveal_with_fuel(le_value, 5);
    reveal_with_fuel(be_value, 5);
    assert(seq![a, b].skip(1) =~= seq![b]);
    assert(seq![b].skip(1) =~= seq![]);
    assert(seq![a, b].drop_last() =~= seq![a]);
    assert(seq![a].drop_last() =~= seq![]);
    assert(seq![a, b, c, d].skip(1) =~= seq![b, c, d]);
    assert(seq![b, c, d].skip(1) =~= seq![c, d]);
    assert(seq![c, d].skip(1) =~= seq![d]);
    assert(seq![d].skip(1) =~= seq![]);
    assert(seq![a, b, c, d].drop_last() =~= seq![a, b, c]);
    assert(seq![a, b, c].drop_last() =~= seq![a, b]);
}

/// One end is the other end read backwards.
pub proof fn byte_orders_are_mirrored(x: nat, n: nat, i: int)
    requires
        0 <= i < n,
    ensures
        le_bytes(x, n).len() == n && be_bytes(x, n).len() == n,
        le_bytes(x, n)[i] == be_bytes(x, n)[n - 1 - i],
    decreases n,
{
    let m = (n - 1) as nat;
    if m > 0 {
        byte_orders_are_mirrored(x / 256, m, if i > 0 {
            i - 1
        } else {
            0
        });
    } else {
        assert(le_bytes(x / 256, 0).len() == 0);
        assert(be_bytes(x / 256, 0).len() == 0);
    }
}

/// The mesh address of a node is the byte `fd` followed by the first fifteen bytes
/// of the node's address.
pub proof fn mesh_address_holds_the_node_address(addr: NodeAddr, i: int)
    requires
        0 <= i < 15,
    ensures
        FipsAddress::of(addr).bytes().len() == 16,
        FipsAddress::of(addr).bytes()[0] == 0xfd,
        FipsAddress::of(addr).bytes()[i + 1] == addr.bytes()[i],
{
    let v = addr.value as nat;
    let x = v / 256;
    reveal_with_fuel(bound, 17);
    assert(bound(15) == 0x1_00_0000_0000_0000_0000_0000_0000_0000);
    assert(x < bound(15));
    leading_byte(0xfd, x, 15);
    let y = (0xfd * bound(15) + x) as nat;
    assert(FipsAddress::of(addr).value as nat == y);
    be_decode_encode(x, 15);
    assert(addr.bytes().drop_last() =~= be_bytes(x, 15));
    assert(addr.bytes()[i] == be_bytes(x, 15)[i]);
    be_decode_encode(y, 16);
}

proof fn leading_byte(c: u8, x: nat, n: nat)
    requires
        x < bound(n),
    ensures
        be_bytes(c as nat * bound(n) + x, n + 1) == seq![c] + be_bytes(x, n),
    decreases n,
{
    if n == 0 {
        reveal_with_fuel(be_bytes, 2);
        assert(bound(0) == 1);
        assert(x == 0);
        assert(be_bytes(c as nat, 1) =~= seq![c] + be_bytes(0, 0));
    } else {
        let m = (n - 1) as nat;
        let y = c as nat * bound(n) + x;
        let k = c as nat * bound(m);
        assert(c as nat * (256 * bound(m)) == 256 * k) by (nonlinear_arith)
            requires
                k == c as nat * bound(m),
        ;
        assert(y == 256 * k + x);
        assert(y / 256 == k + x / 256);
        assert(y % 256 == x % 256);
        assert(x / 256 < bound(m));
        leading_byte(c, x / 256, m);
        assert(be_bytes(y, n + 1) =~= be_bytes(y / 256, n).push((y % 256) as u8));
        assert(be_bytes(y, n + 1) =~= seq![c] + be_bytes(x, n));
    }
}

/// The address of a key is the first sixteen bytes of the key's digest.
pub proof fn node_address_is_the_digest(pubkey: Seq<u8>)
    requires
        crate::identity::sha256(pubkey).len() == 32,
    ensures
        NodeAddr::of_key(pubkey).bytes() == crate::identity::sha256(pubkey).take(16),
{
    let d = crate::identity::sha256(pubkey).take(16);
    be_encode_decode(d);
    crate::wire::bounds();
}

/// The number that hexadecimal digits spell.
pub open spec fn hex_spelled(s: Seq<char>) -> int
    decreases s.len(),
{
    if s.len() == 0 {
        0
    } else {
        16 * hex_spelled(s.drop_last()) + hex_digit(s.last())->0
    }
}

/// A group of an address spells its two bytes, in at most four digits and without a
/// zero in front, unless it is zero itself.
pub proof fn groups_spell_their_bytes(hi: u8, lo: u8)
    ensures
        hex_spelled(group(hi, lo)) == 256 * hi + lo,
        1 <= group(hi, lo).len() <= 4,
        group(hi, lo).len() > 1 ==> group(hi, lo)[0] != '0',
{
    let s = byte_lower(hi) + byte_lower(lo);
    reveal_with_fuel(hex_spelled, 5);
    assert(s.len() == 4);
    assert(s.drop_last() =~= s.take(3));
    assert(s.take(3).drop_last() =~= s.take(2));
    assert(s.take(2).drop_last() =~= s.take(1));
    assert(s.take(1).drop_last() =~= seq![]);
    assert(hex_digit(s[0]) == Some(hi as int / 16));
    assert(hex_digit(s[1]) == Some(hi as int % 16));
    assert(hex_digit(s[2]) == Some(lo as int / 16));
    assert(hex_digit(s[3]) == Some(lo as int % 16));
    trimming_keeps_the_value(s);
}

proof fn trimming_keeps_the_value(s: Seq<char>)
    requires
        s.len() >= 1,
    ensures
        hex_spelled(trimmed(s)) == hex_spelled(s),
        1 <= trimmed(s).len() <= s.len(),
        trimmed(s).len() > 1 ==> trimmed(s)[0] != '0',
    decreases s.len(),
{
    if s.len() > 1 && s[0] == '0' {
        trimming_keeps_the_value(s.skip(1));
        leading_zero(s);
    }
}

proof fn leading_zero(s: Seq<char>)
    requires
        s.len() >= 1,
        s[0] == '0',
    ensures
        hex_spelled(s.skip(1)) == hex_spelled(s),
    decreases s.len(),
{
    if s.len() == 1 {
        assert(s.skip(1) =~= seq![]);
        assert(s.drop_last() =~= seq![]);
        assert(hex_spelled(s.drop_last()) == 0);
    } else {
        leading_zero(s.drop_last());
        assert(s.drop_last().skip(1) =~= s.skip(1).drop_last());
        assert(s.skip(1).last() == s.last());
    }
}

/// A device address has six bytes in two upper case digits each, and a colon
/// between any two.
pub proof fn device_addresses_have_seventeen_characters(device: Seq<u8>, i: int)
    requires
        device.len() == 6,
        0 <= i < 6,
    ensures
        mac_text(device).len() == 17,
        mac_text(device).subrange(3 * i, 3 * i + 2) == byte_upper(device[i]),
        i < 5 ==> mac_text(device)[3 * i + 2] == ':',
{
    let t = mac_text(device);
    assert(t.len() == 17);
    if i == 0 {
    } else if i == 1 {
    } else if i == 2 {
    } else if i == 3 {
    } else if i == 4 {
    }
    assert(t.subrange(3 * i, 3 * i + 2) =~= byte_upper(device[i]));
}

/// A key log line has five fields between single spaces: label, the two names, the
/// key for sending and the key for receiving, and ends with a line feed.
pub proof fn key_log_lines_have_five_fields(
    label: Seq<char>,
    local: Seq<char>,
    peer: Seq<char>,
    send_key: Seq<u8>,
    recv_key: Seq<u8>,
)
    requires
        !label.contains(' '),
        !local.contains(' '),
        !peer.contains(' '),
    ensures
        split(key_text(label, local, peer, send_key, recv_key), ' ') == seq![
            label,
            local,
            peer,
            hex_text(send_key),
            hex_text(recv_key).push('\n'),
        ],
{
    let s = hex_text(send_key);
    let r = hex_text(recv_key).push('\n');
    digits_hold_no_space(send_key);
    digits_hold_no_space(recv_key);
    assert(!r.contains(' ')) by {
        assert forall|i: int| 0 <= i < r.len() implies r[i] != ' ' by {
            if i < r.len() - 1 {
                assert(hex_text(recv_key).contains(hex_text(recv_key)[i]));
            }
        }
    }
    let t3 = s.push(' ') + r;
    let t2 = peer.push(' ') + t3;
    let t1 = local.push(' ') + t2;
    let t0 = label.push(' ') + t1;
    assert(key_text(label, local, peer, send_key, recv_key) =~= t0);
    split_without(r, ' ');
    split_at_first(s, ' ', r);
    split_at_first(peer, ' ', t3);
    split_at_first(local, ' ', t2);
    split_at_first(label, ' ', t1);
    assert(split(t0, ' ') =~= seq![label, local, peer, s, r]);
}

proof fn digits_hold_no_space(bytes: Seq<u8>)
    ensures
        !hex_text(bytes).contains(' '),
    decreases bytes.len(),
{
    if bytes.len() > 0 {
        digits_hold_no_space(bytes.drop_last());
        let a = hex_text(bytes.drop_last());
        let b = byte_lower(bytes.last());
        assert forall|i: int| 0 <= i < (a + b).len() implies (a + b)[i] != ' ' by {
            if i < a.len() {
                assert(a.contains(a[i]));
            }
        }
    }
}

/// Days follow one another: within a month, over the end of a month and over the
/// end of a year, the number goes up by one. The first day of 1970 has number zero.
pub proof fn days_follow_one_another(year: int, month: int, day: int)
    requires
        is_date(year, month, day),
    ensures
        day_number(year, month, day + 1) == day_number(year, month, day) + 1,
        month < 12 ==> day_number(year, month + 1, 1) == day_number(
            year,
            month,
            month_len(year, month),
        ) + 1,
        day_number(year + 1, 1, 1) == day_number(year, 12, 31) + 1,
        day_number(1970, 1, 1) == 0,
{
    month_table(year);
    month_table(year + 1);
    month_table(1970);
    leap_step(year);
    assert(days_before_month(year, month + 1) == days_before_month(year, month) + month_len(
        year,
        month,
    ));
}

/// Thirty days have April, June, September and November, all others have
/// thirty-one, but for February, which has twenty-eight, and twenty-nine in every
/// fourth year; of the years that end a century only every fourth counts.
pub proof fn months_have_their_lengths(year: int)
    ensures
        month_len(year, 1) == 31 && month_len(year, 3) == 31 && month_len(year, 5) == 31,
        month_len(year, 7) == 31 && month_len(year, 8) == 31 && month_len(year, 10) == 31,
        month_len(year, 12) == 31,
        month_len(year, 4) == 30 && month_len(year, 6) == 30,
        month_len(year, 9) == 30 && month_len(year, 11) == 30,
        month_len(year, 2) == 28 || month_len(year, 2) == 29,
        year % 4 != 0 ==> month_len(year, 2) == 28,
        year % 4 == 0 && year % 100 != 0 ==> month_len(year, 2) == 29,
        year % 100 == 0 && year % 400 != 0 ==> month_len(year, 2) == 28,
        year % 400 == 0 ==> month_len(year, 2) == 29,
        day_number(year + 1, 1, 1) - day_number(year, 1, 1) == if is_leap(year) {
            366int
        } else {
            365int
        },
{
    leap_step(year);
    month_table(year);
    month_table(year + 1);
    assert(year % 400 == 0 ==> year % 4 == 0) by {
        assert(year == 400 * (year / 400) + year % 400);
    }
    assert(year % 100 == 0 ==> year % 4 == 0) by {
        assert(year == 100 * (year / 100) + year % 100);
    }
}

/// A timestamp can be read back: up to the year 9999 it has twenty-seven
/// characters, and the numbers between its separators are the date, the time of
/// day and the microseconds of the moment.
pub proof fn timestamps_can_be_read_back(us: u64, text: Seq<char>)
    requires
        us < 253_402_300_800_000_000,
        is_timestamp(us, text),
    ensures
        text.len() == 27,
        text[4] == '-' && text[7] == '-' && text[10] == 'T' && text[13] == ':' && text[16] == ':'
            && text[19] == '.' && text[26] == 'Z',
        is_date(
            spelled(text.subrange(0, 4)),
            spelled(text.subrange(5, 7)),
            spelled(text.subrange(8, 10)),
        ),
        ({
            let days = day_number(
                spelled(text.subrange(0, 4)),
                spelled(text.subrange(5, 7)),
                spelled(text.subrange(8, 10)),
            );
            let hours = spelled(text.subrange(11, 13));
            let minutes = spelled(text.subrange(14, 16));
            let seconds = spelled(text.subrange(17, 19));
            let micros = spelled(text.subrange(20, 26));
            &&& hours < 24 && minutes < 60 && seconds < 60
            &&& us == (((days * 24 + hours) * 60 + minutes) * 60 + seconds) * 1_000_000 + micros
        }),
{
    let secs = us / 1_000_000;
    let tod = (secs % 86400) as nat;
    let micros = (us % 1_000_000) as nat;
    let (y, m, d) = choose|y: nat, m: nat, d: nat|
        is_date(y as int, m as int, d as int) && day_number(y as int, m as int, d as int) == secs
            / 86400 && text == #[trigger] timestamp_text(y, m, d, tod, micros);
    assert(text == timestamp_text(y, m, d, tod, micros));
    if y >= 10000 {
        month_table(9999);
        month_table(10000);
        assert(day_number(9999, 12, 31) == 2_932_896);
        later_dates_have_larger_numbers(9999, 12, 31, y as int, m as int, d as int);
    }
    assert(vstd::arithmetic::power::pow(10, 2) == 100 && vstd::arithmetic::power::pow(10, 4)
        == 10000 && vstd::arithmetic::power::pow(10, 6) == 1_000_000) by {
        reveal_with_fuel(vstd::arithmetic::power::pow, 7);
    }
    padded_spells_the_number(y, 4);
    padded_spells_the_number(m, 2);
    padded_spells_the_number(d, 2);
    padded_spells_the_number(tod / 3600, 2);
    padded_spells_the_number(tod % 3600 / 60, 2);
    padded_spells_the_number(tod % 60, 2);
    padded_spells_the_number(micros, 6);
    assert(text.subrange(0, 4) =~= padded(y, 4));
    assert(text.subrange(5, 7) =~= padded(m, 2));
    assert(text.subrange(8, 10) =~= padded(d, 2));
    assert(text.subrange(11, 13) =~= padded(tod / 3600, 2));
    assert(text.subrange(14, 16) =~= padded(tod % 3600 / 60, 2));
    assert(text.subrange(17, 19) =~= padded(tod % 60, 2));
    assert(text.subrange(20, 26) =~= padded(micros, 6));
    assert(m <= 12 && d <= 31);
    assert(tod == (tod / 3600) * 3600 + (tod % 3600 / 60) * 60 + tod % 60);
}

/// Hexadecimal text has two digits for each byte, the upper half first.
pub proof fn hex_text_reads_in_order(bytes: Seq<u8>, i: int)
    requires
        0 <= i < bytes.len(),
    ensures
        hex_text(bytes).len() == 2 * bytes.len(),
        hex_text(bytes).subrange(2 * i, 2 * i + 2) == byte_lower(bytes[i]),
{
    hex_text_digits(bytes);
    assert(hex_text(bytes)[2 * i] == hex_lower(bytes[i] as int / 16));
    assert(hex_text(bytes).subrange(2 * i, 2 * i + 2) =~= byte_lower(bytes[i]));
}

/// Inside a JSON string every character stands for itself but for quotes,
/// backslashes and what is below the space. A line feed, a carriage return and a tab
/// have their letters, and the rest are six characters long.
pub proof fn only_special_characters_are_escaped(c: char)
    ensures
        c as int >= 0x20 && c != '"' && c != '\\' ==> escape_char(c) == seq![c],
        c == '"' || c == '\\' ==> escape_char(c) == seq!['\\', c],
        c == '\n' ==> escape_char(c) == seq!['\\', 'n'],
        c == '\r' ==> escape_char(c) == seq!['\\', 'r'],
        c == '\t' ==> escape_char(c) == seq!['\\', 't'],
        (c as int) < 0x20 && c != '\n' && c != '\r' && c != '\t' ==> escape_char(c).len() == 6
            && escape_char(c).take(4) == seq!['\\', 'u', '0', '0'] && octet(
            escape_char(c).skip(4),
        ) == Ok::<u8, OctetError>(c as u8),
{
    if (c as int) < 0x20 && c != '\n' && c != '\r' && c != '\t' {
        let b = c as u8;
        bytes_are_read_back(b);
        assert(escape_char(c).skip(4) =~= byte_lower(b));
        assert(escape_char(c).take(4) =~= seq!['\\', 'u', '0', '0']);
    }
}

/// The fields of an event stand one behind the other: each adds a comma, its key and
/// its value in quotes, and the order is kept.
pub proof fn event_fields_are_kept_in_order(a: Seq<(&str, &str)>, b: Seq<(&str, &str)>)
    ensures
        fields_text(a + b) == fields_text(a) + fields_text(b),
        b.len() == 1 ==> fields_text(b).len() == escaped(b[0].0@).len() + escaped(b[0].1@).len() + 6
            && fields_text(b)[0] == ',' && fields_text(b)[1] == '"' && fields_text(b).last() == '"',
        b.len() == 1 ==> fields_text(b).subrange(2, 2 + escaped(b[0].0@).len() as int) == escaped(
            b[0].0@,
        ),
        b.len() == 1 ==> fields_text(b).subrange(
            5 + escaped(b[0].0@).len() as int,
            fields_text(b).len() - 1,
        ) == escaped(b[0].1@),
    decreases b.len(),
{
    if b.len() > 0 {
        let h = b.drop_last();
        event_fields_are_kept_in_order(a, h);
        assert((a + b).drop_last() =~= a + h);
        assert((a + b).last() == b.last());
        assert(fields_text(a + b) =~= fields_text(a) + fields_text(b));
        if b.len() == 1 {
            assert(fields_text(h) =~= seq![]);
            let k = escaped(b[0].0@);
            let v = escaped(b[0].1@);
            let t = fields_text(b);
            assert(t =~= seq![',', '"'] + k + seq!['"', ':', '"'] + v + seq!['"']);
            assert(t.subrange(2, 2 + k.len() as int) =~= k);
            assert(t.subrange(5 + k.len() as int, t.len() - 1) =~= v);
        }
    } else {
        assert(a + b =~= a);
        assert(fields_text(b) =~= seq![]);
        assert(fields_text(a) + fields_text(b) =~= fields_text(a));
    }
}

/// The line of an event begins with its timestamp, ends with a line feed, and holds
/// event and peer as they can be read back.
pub proof fn event_lines_hold_their_parts(
    ts: Seq<char>,
    event: Seq<char>,
    peer: Seq<char>,
    fields: Seq<(&str, &str)>,
)
    ensures
        ({
            let line = event_text(ts, event, peer, fields);
            let n = ts.len() as int;
            let e = escaped(event);
            let p = escaped(peer);
            let at = n + 18 + e.len();
            &&& line.subrange(7, 7 + n) == ts
            &&& line.subrange(n + 18, n + 18 + e.len()) == e
            &&& unescaped(e) == Some(event)
            &&& line.subrange(at + 10, at + 10 + p.len()) == p
            &&& unescaped(p) == Some(peer)
            &&& line.subrange(at + 11 + p.len(), line.len() - 2) == fields_text(fields)
            &&& line[0] == '{' && line[line.len() - 2] == '}' && line.last() == '\n'
        }),
{
    reveal_strlit("{\"ts\":\"");
    reveal_strlit("\",\"event\":\"");
    reveal_strlit("\",\"peer\":\"");
    let line = event_text(ts, event, peer, fields);
    let n = ts.len() as int;
    let e = escaped(event);
    let p = escaped(peer);
    let at = n + 18 + e.len();
    escaped_text_reads_back(event);
    escaped_text_reads_back(peer);
    assert(line.subrange(7, 7 + n) =~= ts);
    assert(line.subrange(n + 18, n + 18 + e.len()) =~= e);
    assert(line.subrange(at + 10, at + 10 + p.len()) =~= p);
    assert(line.subrange(at + 11 + p.len(), line.len() - 2) =~= fields_text(fields));
}

/// A mesh address is written as eight groups between colons, each spelling its two
/// bytes.
pub proof fn mesh_address_is_written_in_groups(addr: FipsAddress, i: int)
    requires
        0 <= i < 8,
    ensures
        split(addr.spec_text(), ':').len() == 8,
        hex_spelled(split(addr.spec_text(), ':')[i]) == 256 * addr.bytes()[2 * i] + addr.bytes()[2
            * i + 1],
{
    let b = addr.bytes();
    let g = |k: int| group(b[2 * k], b[2 * k + 1]);
    groups_hold_no_colon(b[0], b[1]);
    groups_hold_no_colon(b[2], b[3]);
    groups_hold_no_colon(b[4], b[5]);
    groups_hold_no_colon(b[6], b[7]);
    groups_hold_no_colon(b[8], b[9]);
    groups_hold_no_colon(b[10], b[11]);
    groups_hold_no_colon(b[12], b[13]);
    groups_hold_no_colon(b[14], b[15]);
    let s7 = g(7);
    let s6 = g(6).push(':') + s7;
    let s5 = g(5).push(':') + s6;
    let s4 = g(4).push(':') + s5;
    let s3 = g(3).push(':') + s4;
    let s2 = g(2).push(':') + s3;
    let s1 = g(1).push(':') + s2;
    let s0 = g(0).push(':') + s1;
    assert(addr.spec_text() =~= s0);
    split_without(s7, ':');
    split_at_first(g(6), ':', s7);
    split_at_first(g(5), ':', s6);
    split_at_first(g(4), ':', s5);
    split_at_first(g(3), ':', s4);
    split_at_first(g(2), ':', s3);
    split_at_first(g(1), ':', s2);
    split_at_first(g(0), ':', s1);
    assert(split(s0, ':') =~= seq![g(0), g(1), g(2), g(3), g(4), g(5), g(6), g(7)]);
    groups_spell_their_bytes(b[2 * i], b[2 * i + 1]);
    assert(split(s0, ':')[i] == g(i));
}

proof fn groups_hold_no_colon(hi: u8, lo: u8)
    ensures
        !group(hi, lo).contains(':'),
{
    let s = byte_lower(hi) + byte_lower(lo);
    assert forall|i: int| 0 <= i < s.len() implies s[i] != ':' by {}
    trimming_adds_nothing(s, ':');
}

proof fn trimming_adds_nothing(s: Seq<char>, c: char)
    requires
        forall|i: int| 0 <= i < s.len() ==> s[i] != c,
    ensures
        !trimmed(s).contains(c),
    decreases s.len(),
{
    if s.len() > 1 && s[0] == '0' {
        assert forall|i: int| 0 <= i < s.skip(1).len() implies s.skip(1)[i] != c by {
            assert(s.skip(1)[i] == s[i + 1]);
        }
        trimming_adds_nothing(s.skip(1), c);
    }
}

/// A text is a device address exactly if it has six parts and each of them is a
/// byte; the bytes come in the order in which they are written.
pub proof fn device_addresses_are_six_bytes(s: Seq<char>, i: int)
    requires
        0 <= i < 6,
    ensures
        ({
            let p = split(s, ':');
            &&& mac_octets(s) is Some <==> p.len() == 6 && octet(p[0]) is Ok && octet(p[1]) is Ok
                && octet(p[2]) is Ok && octet(p[3]) is Ok && octet(p[4]) is Ok && octet(p[5]) is Ok
            &&& mac_octets(s) is Some ==> mac_octets(s)->0.len() == 6 && octet(p[i]) == Ok::<
                u8,
                OctetError,
            >(mac_octets(s)->0[i])
        }),
{
    let p = split(s, ':');
    if p.len() == 6 && octet(p[0]) is Ok && octet(p[1]) is Ok && octet(p[2]) is Ok && octet(p[3])
        is Ok && octet(p[4]) is Ok && octet(p[5]) is Ok {
        assert forall|k: int| 0 <= k < 6 implies (#[trigger] octet(p[k])) is Ok by {
            assert(k == 0 || k == 1 || k == 2 || k == 3 || k == 4 || k == 5);
        }
    }
    if mac_octets(s) is Some {
        assert(octet(p[0]) is Ok && octet(p[1]) is Ok && octet(p[2]) is Ok && octet(p[3]) is Ok
            && octet(p[4]) is Ok && octet(p[5]) is Ok);
        assert(octet(p[i]) is Ok);
    }
}

/// A BLE address is an adapter, a slash and a device address: what is read has an
/// adapter without a slash that is not empty, and what cannot be read is an invalid
/// address.
pub proof fn ble_addresses_have_an_adapter(s: Seq<char>, r: Result<BleAddr, TransportError>)
    requires
        BleAddr::parses(s, r),
    ensures
        r is Ok ==> {
            let a = r->Ok_0.adapter@;
            &&& a.len() > 0 && !a.contains('/')
            &&& s.take(a.len() as int) == a && s[a.len() as int] == '/'
            &&& mac_octets(s.skip(a.len() as int + 1)) == Some(r->Ok_0.device@)
            &&& r->Ok_0.kind == BleAddrKind::Public
        },
        r is Err ==> r->Err_0 is InvalidAddress,
        !s.contains('/') ==> r is Err,
        s.len() > 0 && s[0] == '/' ==> r is Err,
{
    find_is_first(s, '/');
    let k = find(s, '/');
    if r is Ok {
        let a = s.take(k);
        if a.contains('/') {
            let i = choose|i: int| 0 <= i < a.len() && a[i] == '/';
            assert(s[i] == '/');
        }
    }
    if s.len() > 0 && s[0] == '/' {
        crate::text::first_is_find(s, '/', 0);
    }
}

} // verus!
