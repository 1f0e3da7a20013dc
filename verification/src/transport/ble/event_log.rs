//! BLE events as lines of JSON, with timestamps for correlation with captures.

use crate::arith::floor_div;
use crate::benchmark::types::now_micros;
use crate::text::{
    byte_lower, chars_of, decimal, hex_digit, padded, push_byte_lower, push_decimal, push_padded,
};
use vstd::prelude::*;
use vstd::string::StringExecFns;

verus! {

/// Whether a year has a leap day.
pub open spec fn is_leap(year: int) -> bool {
    year % 4 == 0 && (year % 100 != 0 || year % 400 == 0)
}

/// Length of a month.
pub open spec fn month_len(year: int, month: int) -> int {
    if month == 2 {
        if is_leap(year) {
            29
        } else {
            28
        }
    } else if month == 4 || month == 6 || month == 9 || month == 11 {
        30
    } else {
        31
    }
}

/// Days from the beginning of the calendar to the beginning of a year.
pub open spec fn days_before_year(year: int) -> int {
    let y = year - 1;
    365 * y + y / 4 - y / 100 + y / 400
}

/// Days from the beginning of a year to the beginning of a month.
pub open spec fn days_before_month(year: int, month: int) -> int
    decreases month,
{
    if month <= 1 {
        0
    } else {
        days_before_month(year, month - 1) + month_len(year, month - 1)
    }
}

/// Whether a date exists.
pub open spec fn is_date(year: int, month: int, day: int) -> bool {
    1 <= month <= 12 && 1 <= day <= month_len(year, month)
}

/// Days from 1970-01-01 to a date.
pub open spec fn day_number(year: int, month: int, day: int) -> int {
    days_before_year(year) + days_before_month(year, month) + day - 1 - 719162
}

/// Days before the months of a year.
pub(crate) proof fn month_table(year: int)
    ensures
        days_before_month(year, 1) == 0,
        days_before_month(year, 2) == 31,
        ({
            let leap: int = if is_leap(year) {
                1
            } else {
                0
            };
            &&& days_before_month(year, 3) == 59 + leap
            &&& days_before_month(year, 4) == 90 + leap
            &&& days_before_month(year, 5) == 120 + leap
            &&& days_before_month(year, 6) == 151 + leap
            &&& days_before_month(year, 7) == 181 + leap
            &&& days_before_month(year, 8) == 212 + leap
            &&& days_before_month(year, 9) == 243 + leap
            &&& days_before_month(year, 10) == 273 + leap
            &&& days_before_month(year, 11) == 304 + leap
            &&& days_before_month(year, 12) == 334 + leap
        }),
{
    reveal_with_fuel(days_before_month, 13);
}

/// Within four hundred years that begin in March, the formula for the year of a
/// day gives the year that the day lies in.
proof fn year_of_era(doe: int) -> (yoe: int)
    requires
        0 <= doe <= 146096,
    ensures
        yoe == (doe - doe / 1460 + doe / 36524 - doe / 146096) / 365,
        0 <= yoe <= 399,
        0 <= doe - (365 * yoe + yoe / 4 - yoe / 100) <= 365,
        doe - (365 * yoe + yoe / 4 - yoe / 100) == 365 ==> is_leap(yoe + 1),
{
    let yoe = (doe - doe / 1460 + doe / 36524 - doe / 146096) / 365;
    yoe
}

/// Days from the beginning of the calendar to the year after `year`, counted
/// with the leap days up to that year.
pub open spec fn days_through_year(year: int) -> int {
    365 * year + year / 4 - year / 100 + year / 400
}

/// A year adds 365 days, and one more where it has a leap day.
pub(crate) proof fn leap_step(year: int)
    ensures
        days_through_year(year) == days_before_year(year) + 365 + if is_leap(year) {
            1int
        } else {
            0int
        },
        days_before_year(year + 1) == days_through_year(year),
{
    let y = year - 1;
    assert(year / 4 == y / 4 + if year % 4 == 0 {
        1int
    } else {
        0int
    });
    assert(year / 100 == y / 100 + if year % 100 == 0 {
        1int
    } else {
        0int
    });
    assert(year / 400 == y / 400 + if year % 400 == 0 {
        1int
    } else {
        0int
    });
    assert(year % 100 == 0 ==> year % 4 == 0) by {
        assert(year % 100 == year - 100 * (year / 100));
    }
    assert(year % 400 == 0 ==> year % 100 == 0) by {
        assert(year % 400 == year - 400 * (year / 400));
    }
}

/// Four hundred years hold 146097 days.
proof fn era_step(era: int, yoe: int)
    requires
        0 <= yoe <= 399,
    ensures
        days_through_year(era * 400 + yoe) == era * 146097 + 365 * yoe + yoe / 4 - yoe / 100,
        is_leap(era * 400 + yoe + 1) == is_leap(yoe + 1),
{
    let y = era * 400 + yoe;
    vstd::arithmetic::div_mod::lemma_fundamental_div_mod_converse(y, 400, era, yoe);
    vstd::arithmetic::div_mod::lemma_fundamental_div_mod_converse(
        y,
        100,
        era * 4 + yoe / 100,
        yoe % 100,
    );
    vstd::arithmetic::div_mod::lemma_fundamental_div_mod_converse(
        y,
        4,
        era * 100 + yoe / 4,
        yoe % 4,
    );
    vstd::arithmetic::div_mod::lemma_mod_multiples_vanish(era * 100, yoe + 1, 4);
    vstd::arithmetic::div_mod::lemma_mod_multiples_vanish(era * 4, yoe + 1, 100);
    vstd::arithmetic::div_mod::lemma_mod_multiples_vanish(era, yoe + 1, 400);
}

/// First day of a month in a year that begins in March.
pub open spec fn march_start(mp: int) -> int {
    (mp * 306 + 5) / 10
}

/// A day of a year that begins in March lies in the month that the formula
/// gives.
proof fn month_of_day(doy: int)
    requires
        0 <= doy <= 365,
    ensures
        ({
            let mp = (doy * 10 + 5) / 306;
            let d = doy - march_start(mp);
            &&& 0 <= mp <= 11
            &&& 0 <= d
            &&& mp < 11 ==> d < march_start(mp + 1) - march_start(mp)
            &&& mp == 11 ==> d <= 28
            &&& mp == 11 && d == 28 ==> doy == 365
        }),
        march_start(0) == 0,
        march_start(1) == 31,
        march_start(2) == 61,
        march_start(3) == 92,
        march_start(4) == 122,
        march_start(5) == 153,
        march_start(6) == 184,
        march_start(7) == 214,
        march_start(8) == 245,
        march_start(9) == 275,
        march_start(10) == 306,
        march_start(11) == 337,
{
}

/// The date of a day in a year that begins in March.
proof fn date_of_day(year: int, doy: int)
    requires
        0 <= doy <= 365,
        doy == 365 ==> is_leap(year + 1),
    ensures
        ({
            let mp = (doy * 10 + 5) / 306;
            let d = doy - march_start(mp);
            let y = year + (mp + 2) / 12;
            let m = (mp + 2) % 12 + 1;
            &&& is_date(y, m, d + 1)
            &&& day_number(y, m, d + 1) == days_through_year(year) + doy - 719468
        }),
{
    month_of_day(doy);
    leap_step(year);
    let mp = (doy * 10 + 5) / 306;
    let d = doy - march_start(mp);
    let y = year + (mp + 2) / 12;
    month_table(y);
    if mp < 10 {
        assert(y == year);
        assert((mp + 2) % 12 + 1 == mp + 3);
        if mp == 0 {
        } else if mp == 1 {
        } else if mp == 2 {
        } else if mp == 3 {
        } else if mp == 4 {
        } else if mp == 5 {
        } else if mp == 6 {
        } else if mp == 7 {
        } else if mp == 8 {
        } else {
            assert(mp == 9);
        }
    } else {
        assert(y == year + 1);
        assert((mp + 2) % 12 + 1 == mp - 9);
        if mp == 10 {
        } else {
            assert(mp == 11);
        }
    }
}

/// Converts days since 1970-01-01 to year, month and day.
pub fn days_to_ymd(days: i64) -> (r: (i64, u8, u8))
    requires
        i64::MIN + 146096 - 719468 <= days <= i64::MAX - 719468,
    ensures
        is_date(r.0 as int, r.1 as int, r.2 as int),
        day_number(r.0 as int, r.1 as int, r.2 as int) == days,
{
    let shifted: i64 = days + 719468;
    let era: i64 = floor_div(shifted, 146097);
    proof {
        vstd::arithmetic::div_mod::lemma_fundamental_div_mod(shifted as int, 146097);
        vstd::arithmetic::div_mod::lemma_mod_bound(shifted as int, 146097);
    }
    let doe: i64 = shifted - era * 146097;
    let yoe: i64 = (doe - doe / 1460 + doe / 36524 - doe / 146096) / 365;
    proof {
        year_of_era(doe as int);
        era_step(era as int, yoe as int);
    }
    let doy: i64 = doe - (yoe * 365 + yoe / 4 - yoe / 100);
    proof {
        month_of_day(doy as int);
        date_of_day(era * 400 + yoe, doy as int);
    }
    let mp: i64 = (doy * 10 + 5) / 306;
    let d: i64 = doy - (mp * 306 + 5) / 10;
    let y: i64 = yoe + era * 400 + (mp + 2) / 12;
    let m: u8 = ((mp + 2) % 12) as u8 + 1;
    (y, m, (d + 1) as u8)
}

/// No two dates have the same day number, so the conversion has one answer:
/// later dates have larger numbers.
pub proof fn later_dates_have_larger_numbers(
    y1: int,
    m1: int,
    d1: int,
    y2: int,
    m2: int,
    d2: int,
)
    requires
        is_date(y1, m1, d1),
        is_date(y2, m2, d2),
        y1 < y2 || y1 == y2 && (m1 < m2 || m1 == m2 && d1 < d2),
    ensures
        day_number(y1, m1, d1) < day_number(y2, m2, d2),
{
    month_table(y1);
    month_table(y2);
    if y1 < y2 {
        leap_step(y1);
        years_grow(y1 + 1, y2);
    }
}

/// Later years begin later.
proof fn years_grow(a: int, b: int)
    requires
        a <= b,
    ensures
        days_before_year(a) <= days_before_year(b),
    decreases b - a,
{
    if a < b {
        leap_step(a);
        years_grow(a + 1, b);
    }
}

/// A date, a time of day and microseconds as text.
pub open spec fn timestamp_text(year: nat, month: nat, day: nat, tod: nat, micros: nat) -> Seq<char> {
    let y = if year < 10000 {
        padded(year, 4)
    } else {
        decimal(year)
    };
    y + seq!['-'] + padded(month, 2) + seq!['-'] + padded(day, 2) + seq!['T'] + padded(
        tod / 3600,
        2,
    ) + seq![':'] + padded(tod % 3600 / 60, 2) + seq![':'] + padded(tod % 60, 2) + seq!['.']
        + padded(micros, 6) + seq!['Z']
}

/// Whether a text is the ISO 8601 timestamp of a moment in UTC, given in
/// microseconds since 1970.
pub open spec fn is_timestamp(us: u64, text: Seq<char>) -> bool {
    let secs = us / 1_000_000;
    exists|y: nat, m: nat, d: nat|
        is_date(y as int, m as int, d as int) && day_number(y as int, m as int, d as int) == secs
            / 86400 && text == #[trigger] timestamp_text(
            y,
            m,
            d,
            (secs % 86400) as nat,
            (us % 1_000_000) as nat,
        )
}

/// Formats a moment, given in microseconds since 1970, as
/// `2026-05-10T14:23:45.123456Z`.
pub fn iso8601(us: u64) -> (r: String)
    ensures
        is_timestamp(us, r@),
{
    let secs: u64 = us / 1_000_000;
    let micros: u64 = us % 1_000_000;
    let days: u64 = secs / 86400;
    let tod: u64 = secs % 86400;
    let (year, month, day) = days_to_ymd(days as i64);
    proof {
        if year < 1970 {
            month_table(1970);
            assert(day_number(1970, 1, 1) == 0);
            later_dates_have_larger_numbers(
                year as int,
                month as int,
                day as int,
                1970,
                1,
                1,
            );
        }
    }
    let y: u64 = year as u64;
    let mut out = String::new();
    if y < 10000 {
        push_padded(&mut out, y, 4);
    } else {
        push_decimal(&mut out, y);
    }
    out.push('-');
    push_padded(&mut out, month as u64, 2);
    out.push('-');
    push_padded(&mut out, day as u64, 2);
    out.push('T');
    push_padded(&mut out, tod / 3600, 2);
    out.push(':');
    push_padded(&mut out, (tod % 3600) / 60, 2);
    out.push(':');
    push_padded(&mut out, tod % 60, 2);
    out.push('.');
    push_padded(&mut out, micros, 6);
    out.push('Z');
    assert(out@ =~= timestamp_text(y as nat, month as nat, day as nat, tod as nat, micros as nat));
    out
}

/// A character inside a JSON string.
pub open spec fn escape_char(c: char) -> Seq<char> {
    if c == '\\' {
        seq!['\\', '\\']
    } else if c == '"' {
        seq!['\\', '"']
    } else if c == '\n' {
        seq!['\\', 'n']
    } else if c == '\r' {
        seq!['\\', 'r']
    } else if c == '\t' {
        seq!['\\', 't']
    } else if (c as u32) < 0x20 {
        seq!['\\', 'u', '0', '0'] + byte_lower((c as u32) as u8)
    } else {
        seq![c]
    }
}

/// A text inside a JSON string.
pub open spec fn escaped(s: Seq<char>) -> Seq<char>
    decreases s.len(),
{
    if s.len() == 0 {
        seq![]
    } else {
        escaped(s.drop_last()) + escape_char(s.last())
    }
}

/// Appends a text as it stands inside a JSON string.
fn push_escaped(out: &mut String, s: &str)
    ensures
        final(out)@ == old(out)@ + escaped(s@),
{
    let chars = chars_of(s);
    let mut i: usize = 0;
    assert(chars@.take(0) =~= seq![]);
    assert(old(out)@ + escaped(chars@.take(0)) =~= old(out)@);
    while i < chars.len()
        invariant
            i <= chars.len(),
            out@ == old(out)@ + escaped(chars@.take(i as int)),
        decreases chars.len() - i,
    {
        let c = chars[i];
        let ghost before = out@;
        assert(chars@.take(i + 1).drop_last() =~= chars@.take(i as int));
        if c == '\\' {
            out.push('\\');
            out.push('\\');
        } else if c == '"' {
            out.push('\\');
            out.push('"');
        } else if c == '\n' {
            out.push('\\');
            out.push('n');
        } else if c == '\r' {
            out.push('\\');
            out.push('r');
        } else if c == '\t' {
            out.push('\\');
            out.push('t');
        } else if (c as u32) < 0x20 {
            out.push('\\');
            out.push('u');
            out.push('0');
            out.push('0');
            push_byte_lower(out, (c as u32) as u8);
        } else {
            out.push(c);
        }
        assert(out@ =~= before + escape_char(c));
        assert(out@ =~= old(out)@ + escaped(chars@.take(i + 1)));
        i += 1;
    }
    assert(chars@.take(i as int) =~= chars@);
}

/// Escapes a text for a JSON string.
pub fn json_escape(s: &str) -> (r: String)
    ensures
        r@ == escaped(s@),
{
    let mut out = String::new();
    push_escaped(&mut out, s);
    assert(out@ =~= escaped(s@));
    out
}

/// An escaped text holds no control character, and no quote of its own: every
/// quote follows a backslash.
pub proof fn escaped_text_is_clean(s: Seq<char>, i: int)
    requires
        0 <= i < escaped(s).len(),
    ensures
        escaped(s)[i] as u32 >= 0x20,
        escaped(s)[i] == '"' ==> i > 0 && escaped(s)[i - 1] == '\\',
    decreases s.len(),
{
    let head = escaped(s.drop_last());
    let tail = escape_char(s.last());
    if i < head.len() {
        escaped_text_is_clean(s.drop_last(), i);
    } else {
        assert(escaped(s)[i] == tail[i - head.len()]);
        if i - head.len() > 0 {
            assert(escaped(s)[i - 1] == tail[i - head.len() - 1]);
        }
    }
}

/// The character that four hexadecimal digits stand for, unless it is half of a
/// pair.
pub open spec fn unicode_escape(a: char, b: char, c: char, d: char) -> Option<char> {
    match (hex_digit(a), hex_digit(b), hex_digit(c), hex_digit(d)) {
        (Some(w), Some(x), Some(y), Some(z)) => {
            let v = ((w * 16 + x) * 16 + y) * 16 + z;
            if 0xd800 <= v < 0xe000 {
                None
            } else {
                Some(v as char)
            }
        },
        _ => None,
    }
}

/// The character that a backslash and the character behind it stand for.
pub open spec fn short_escape(c: char) -> Option<char> {
    if c == '\\' || c == '"' || c == '/' {
        Some(c)
    } else if c == 'n' {
        Some('\n')
    } else if c == 'r' {
        Some('\r')
    } else if c == 't' {
        Some('\t')
    } else if c == 'b' {
        Some('\u{8}')
    } else if c == 'f' {
        Some('\u{c}')
    } else {
        None
    }
}

/// A text before some more of it was read, if that could be.
pub open spec fn read_before(c: char, rest: Option<Seq<char>>) -> Option<Seq<char>> {
    match rest {
        Some(t) => Some(seq![c] + t),
        None => None,
    }
}

/// The text that the inside of a JSON string stands for.
pub open spec fn unescaped(s: Seq<char>) -> Option<Seq<char>>
    decreases s.len(),
{
    if s.len() == 0 {
        Some(seq![])
    } else if s[0] != '\\' {
        if s[0] == '"' || (s[0] as u32) < 0x20 {
            None
        } else {
            read_before(s[0], unescaped(s.skip(1)))
        }
    } else if s.len() >= 2 && short_escape(s[1]) is Some {
        read_before(short_escape(s[1])->0, unescaped(s.skip(2)))
    } else if s.len() >= 6 && s[1] == 'u' && unicode_escape(s[2], s[3], s[4], s[5]) is Some {
        read_before(unicode_escape(s[2], s[3], s[4], s[5])->0, unescaped(s.skip(6)))
    } else {
        None
    }
}

/// An escaped text begins with its first character escaped.
proof fn escaped_from_the_front(s: Seq<char>)
    requires
        s.len() > 0,
    ensures
        escaped(s) == escape_char(s[0]) + escaped(s.skip(1)),
    decreases s.len(),
{
    if s.len() == 1 {
        assert(s.drop_last() =~= seq![]);
        assert(s.skip(1) =~= seq![]);
        assert(escaped(s) =~= escape_char(s[0]) + escaped(s.skip(1)));
    } else {
        escaped_from_the_front(s.drop_last());
        assert(s.drop_last().skip(1) =~= s.skip(1).drop_last());
        assert(escaped(s) =~= escape_char(s[0]) + escaped(s.skip(1)));
    }
}

/// One escaped character reads back, whatever follows.
proof fn escaped_char_reads_back(c: char, rest: Seq<char>)
    ensures
        unescaped(escape_char(c) + rest) == read_before(c, unescaped(rest)),
{
    let e = escape_char(c);
    let s = e + rest;
    assert(s.skip(e.len() as int) =~= rest);
    assert(forall|i: int| 0 <= i < e.len() ==> s[i] == e[i]);
}

/// What was escaped reads back as it was.
pub proof fn escaped_text_reads_back(s: Seq<char>)
    ensures
        unescaped(escaped(s)) == Some(s),
    decreases s.len(),
{
    if s.len() == 0 {
        assert(s =~= seq![]);
    } else {
        escaped_from_the_front(s);
        escaped_text_reads_back(s.skip(1));
        escaped_char_reads_back(s[0], escaped(s.skip(1)));
        assert(seq![s[0]] + s.skip(1) =~= s);
    }
}

/// The fields of an event as they stand in its line.
pub open spec fn fields_text(fields: Seq<(&str, &str)>) -> Seq<char>
    decreases fields.len(),
{
    if fields.len() == 0 {
        seq![]
    } else {
        fields_text(fields.drop_last()) + seq![',', '"'] + escaped(fields.last().0@) + seq![
            '"',
            ':',
            '"',
        ] + escaped(fields.last().1@) + seq!['"']
    }
}

/// The line of an event.
pub open spec fn event_text(
    ts: Seq<char>,
    event: Seq<char>,
    peer: Seq<char>,
    fields: Seq<(&str, &str)>,
) -> Seq<char> {
    "{\"ts\":\""@ + ts + "\",\"event\":\""@ + escaped(event) + "\",\"peer\":\""@ + escaped(peer)
        + seq!['"'] + fields_text(fields) + seq!['}', '\n']
}

/// Builds the line of an event with the given timestamp.
pub fn event_line(ts: &str, event: &str, peer: &str, fields: &[(&str, &str)]) -> (r: String)
    ensures
        r@ == event_text(ts@, event@, peer@, fields@),
{
    let mut line = String::from_str("{\"ts\":\"");
    line.append(ts);
    line.append("\",\"event\":\"");
    push_escaped(&mut line, event);
    line.append("\",\"peer\":\"");
    push_escaped(&mut line, peer);
    line.push('"');
    let ghost head = line@;
    let mut i: usize = 0;
    assert(fields@.take(0) =~= seq![]);
    assert(head + fields_text(fields@.take(0)) =~= head);
    while i < fields.len()
        invariant
            i <= fields.len(),
            line@ == head + fields_text(fields@.take(i as int)),
        decreases fields.len() - i,
    {
        let ghost before = line@;
        let ghost part = fields@.take(i + 1);
        assert(part.drop_last() =~= fields@.take(i as int));
        assert(part.last() == fields@[i as int]);
        let (key, value) = fields[i];
        line.push(',');
        line.push('"');
        push_escaped(&mut line, key);
        line.push('"');
        line.push(':');
        line.push('"');
        push_escaped(&mut line, value);
        line.push('"');
        assert(line@ =~= head + fields_text(part));
        i += 1;
    }
    assert(fields@.take(i as int) =~= fields@);
    line.push('}');
    line.push('\n');
    assert(line@ =~= event_text(ts@, event@, peer@, fields@));
    line
}

/// Builds the line of an event that happens now, for appending to the log.
pub fn log(event: &str, peer: &str, fields: &[(&str, &str)]) -> (r: String)
    ensures
        exists|us: u64, ts: Seq<char>|
            #[trigger] is_timestamp(us, ts) && r@ == event_text(ts, event@, peer@, fields@),
{
    let us = now_micros();
    let ts = iso8601(us);
    assert(is_timestamp(us, ts@));
    event_line(ts.as_str(), event, peer, fields)
}

/// Whether events are logged: a path is configured and its file could be opened.
pub fn is_enabled(path: &str, file_open: bool) -> (r: bool)
    ensures
        r == (path@.len() > 0 && file_open),
{
    chars_of(path).len() > 0 && file_open
}

} // verus!
