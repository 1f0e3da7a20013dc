//! Reading and building text.

use vstd::prelude::*;
use vstd::std_specs::iter::IteratorSpec;
use vstd::string::StringExecFns;
use vstd::utf8::{encode_utf8, is_ascii_chars, is_ascii_chars_encode_utf8};

verus! {

/// `String::push`: the character goes to the end.
pub assume_specification[ String::push ](s: &mut String, c: char)
    ensures
        final(s)@ == old(s)@.push(c),
;

/// The characters of a text.
pub fn chars_of(s: &str) -> (v: Vec<char>)
    ensures
        v@ == s@,
{
    let mut v: Vec<char> = Vec::new();
    for c in it: s.chars()
        invariant
            it.seq() == s@,
            v@ == it.seq().take(it.index()),
    {
        v.push(c);
    }
    assert(v@ =~= s@);
    v
}

/// The text of some characters.
pub fn string_of(chars: &Vec<char>) -> (s: String)
    ensures
        s@ == chars@,
{
    let mut s = String::new();
    let mut i: usize = 0;
    while i < chars.len()
        invariant
            i <= chars.len(),
            s@ == chars@.take(i as int),
        decreases chars.len() - i,
    {
        s.push(chars[i]);
        assert(chars@.take(i + 1) =~= chars@.take(i as int).push(chars@[i as int]));
        i += 1;
    }
    assert(chars@.take(i as int) =~= chars@);
    s
}

/// Whether two texts are the same.
pub fn same_text(a: &str, b: &str) -> (r: bool)
    ensures
        r == (a@ == b@),
{
    String::from_str(a) == String::from_str(b)
}

/// The digit of a value below ten.
pub open spec fn digit(d: int) -> char {
    (48 + d) as char
}

/// A number in decimal.
pub open spec fn decimal(n: nat) -> Seq<char>
    decreases n,
{
    if n < 10 {
        seq![digit(n as int)]
    } else {
        decimal(n / 10).push(digit(n as int % 10))
    }
}

/// The last `width` decimal digits of a number, with leading zeros.
pub open spec fn padded(n: nat, width: nat) -> Seq<char>
    decreases width,
{
    if width == 0 {
        seq![]
    } else {
        padded(n / 10, (width - 1) as nat).push(digit(n as int % 10))
    }
}

/// Appends a number in decimal.
pub fn push_decimal(out: &mut String, n: u64)
    ensures
        final(out)@ == old(out)@ + decimal(n as nat),
    decreases n,
{
    if n >= 10 {
        push_decimal(out, n / 10);
    }
    let d: u8 = (n % 10) as u8;
    out.push((48 + d) as char);
    assert(out@ =~= old(out)@ + decimal(n as nat));
}

/// Appends the last `width` decimal digits of a number.
pub fn push_padded(out: &mut String, n: u64, width: usize)
    ensures
        final(out)@ == old(out)@ + padded(n as nat, width as nat),
    decreases width,
{
    if width > 0 {
        push_padded(out, n / 10, width - 1);
        let d: u8 = (n % 10) as u8;
        out.push((48 + d) as char);
    }
    assert(out@ =~= old(out)@ + padded(n as nat, width as nat));
}

/// The upper case hexadecimal digit of a value below sixteen.
pub open spec fn hex_upper(d: int) -> char {
    if d < 10 {
        (48 + d) as char
    } else {
        (55 + d) as char
    }
}

/// The lower case hexadecimal digit of a value below sixteen.
pub open spec fn hex_lower(d: int) -> char {
    if d < 10 {
        (48 + d) as char
    } else {
        (87 + d) as char
    }
}

/// A byte as two upper case hexadecimal digits.
pub open spec fn byte_upper(b: u8) -> Seq<char> {
    seq![hex_upper(b as int / 16), hex_upper(b as int % 16)]
}

/// A byte as two lower case hexadecimal digits.
pub open spec fn byte_lower(b: u8) -> Seq<char> {
    seq![hex_lower(b as int / 16), hex_lower(b as int % 16)]
}

/// Bytes as lower case hexadecimal digits, two for each.
pub open spec fn hex_text(bytes: Seq<u8>) -> Seq<char>
    decreases bytes.len(),
{
    if bytes.len() == 0 {
        seq![]
    } else {
        hex_text(bytes.drop_last()) + byte_lower(bytes.last())
    }
}

/// `hex::encode`: two lower case hexadecimal digits for each byte.
#[verifier::external_body]
pub(crate) fn hex_encode(data: &[u8]) -> (r: String)
    ensures
        r@ == hex_text(data@),
{
    hex::encode(data)
}

/// The value of a hexadecimal digit given as a byte.
pub open spec fn nibble(b: u8) -> Option<int> {
    if 48 <= b <= 57 {
        Some(b - 48)
    } else if 65 <= b <= 70 {
        Some(b - 55)
    } else if 97 <= b <= 102 {
        Some(b - 87)
    } else {
        None
    }
}

/// Whether `bytes` are what digits spell in pairs.
pub open spec fn spells(digits: Seq<u8>, bytes: Seq<u8>) -> bool {
    &&& digits.len() == 2 * bytes.len()
    &&& forall|i: int|
        0 <= i < bytes.len() ==> {
            &&& nibble(digits[2 * i]) is Some
            &&& nibble(digits[2 * i + 1]) is Some
            &&& #[trigger] bytes[i] == nibble(digits[2 * i])->0 * 16 + nibble(digits[2 * i + 1])->0
        }
}

/// Why a text is not hexadecimal.
#[derive(Clone, Copy, Debug, PartialEq, Eq, Structural)]
pub enum HexError {
    /// A character is not a digit.
    InvalidCharacter {
        /// The character.
        c: char,
        /// Where it stands.
        index: usize,
    },
    /// A digit lacks its pair.
    OddLength,
    /// The length is not the one wanted.
    InvalidLength,
}

/// What the bytes of a hexadecimal text decode to: the bytes that pairs of digits
/// of either case spell, or the first byte that is not a digit; an odd number of
/// bytes is refused before that.
pub open spec fn decodes_to(b: Seq<u8>, r: Result<Vec<u8>, HexError>) -> bool {
    match r {
        Ok(v) => spells(b, v@),
        Err(HexError::OddLength) => b.len() % 2 == 1,
        Err(HexError::InvalidCharacter { c, index }) => {
            &&& b.len() % 2 == 0
            &&& index < b.len() && nibble(b[index as int]) is None
            &&& c == b[index as int] as char
            &&& forall|j: int| 0 <= j < index ==> nibble(#[trigger] b[j]) is Some
        },
        Err(HexError::InvalidLength) => false,
    }
}

/// The digits of bytes are two for each, in order, and all of them ASCII.
pub proof fn hex_text_digits(bytes: Seq<u8>)
    ensures
        hex_text(bytes).len() == 2 * bytes.len(),
        forall|i: int|
            0 <= i < bytes.len() ==> {
                &&& hex_text(bytes)[2 * i] == hex_lower(#[trigger] bytes[i] as int / 16)
                &&& hex_text(bytes)[2 * i + 1] == hex_lower(bytes[i] as int % 16)
            },
        is_ascii_chars(hex_text(bytes)),
    decreases bytes.len(),
{
    if bytes.len() > 0 {
        let front = bytes.drop_last();
        hex_text_digits(front);
        let t = hex_text(bytes);
        assert forall|i: int| 0 <= i < bytes.len() implies {
            &&& t[2 * i] == hex_lower(#[trigger] bytes[i] as int / 16)
            &&& t[2 * i + 1] == hex_lower(bytes[i] as int % 16)
        } by {
            if i < front.len() {
                assert(front[i] == bytes[i]);
            }
        }
        assert forall|j: int| 0 <= j < t.len() implies (#[trigger] t[j] as nat) < 128 by {
            if j < 2 * front.len() {
                assert(t[j] == hex_text(front)[j]);
            }
        }
    }
}

/// Decoding the digits of bytes gives the bytes back.
pub proof fn hex_round_trip(bytes: Seq<u8>, r: Result<Vec<u8>, HexError>)
    requires
        decodes_to(encode_utf8(hex_text(bytes)), r),
    ensures
        r matches Ok(v) && v@ == bytes,
{
    let t = hex_text(bytes);
    let b = encode_utf8(t);
    hex_text_digits(bytes);
    is_ascii_chars_encode_utf8(t);
    assert forall|i: int| 0 <= i < bytes.len() implies {
        &&& nibble(b[2 * i]) == Some(#[trigger] bytes[i] as int / 16)
        &&& nibble(b[2 * i + 1]) == Some(bytes[i] as int % 16)
    } by {
        assert(b[2 * i] == t[2 * i] as u8);
        assert(b[2 * i + 1] == t[2 * i + 1] as u8);
    }
    assert forall|j: int| 0 <= j < b.len() implies nibble(#[trigger] b[j]) is Some by {
        let i = j / 2;
        assert(nibble(b[2 * i]) == Some(bytes[i] as int / 16));
        assert(j == 2 * i || j == 2 * i + 1);
    }
    if let Ok(v) = r {
        assert(v@ =~= bytes);
    }
}

/// `hex::decode`: decodes the bytes of a text as `decodes_to` says.
#[verifier::external_body]
pub(crate) fn hex_decode(s: &str) -> (r: Result<Vec<u8>, HexError>)
    ensures
        decodes_to(encode_utf8(s@), r),
{
    hex::decode(s).map_err(|e| match e {
        hex::FromHexError::InvalidHexCharacter { c, index } => HexError::InvalidCharacter { c, index },
        hex::FromHexError::OddLength => HexError::OddLength,
        hex::FromHexError::InvalidStringLength => HexError::InvalidLength,
    })
}

/// Appends a byte as two upper case hexadecimal digits.
pub fn push_byte_upper(out: &mut String, b: u8)
    ensures
        final(out)@ == old(out)@ + byte_upper(b),
{
    let hi: u8 = b / 16;
    let lo: u8 = b % 16;
    out.push(if hi < 10 { (48 + hi) as char } else { (55 + hi) as char });
    out.push(if lo < 10 { (48 + lo) as char } else { (55 + lo) as char });
    assert(out@ =~= old(out)@ + byte_upper(b));
}

/// Appends a byte as two lower case hexadecimal digits.
pub fn push_byte_lower(out: &mut String, b: u8)
    ensures
        final(out)@ == old(out)@ + byte_lower(b),
{
    let hi: u8 = b / 16;
    let lo: u8 = b % 16;
    out.push(if hi < 10 { (48 + hi) as char } else { (87 + hi) as char });
    out.push(if lo < 10 { (48 + lo) as char } else { (87 + lo) as char });
    assert(out@ =~= old(out)@ + byte_lower(b));
}

/// The value of a hexadecimal digit of either case.
pub open spec fn hex_digit(c: char) -> Option<int> {
    let n = c as int;
    if 48 <= n <= 57 {
        Some(n - 48)
    } else if 65 <= n <= 70 {
        Some(n - 55)
    } else if 97 <= n <= 102 {
        Some(n - 87)
    } else {
        None
    }
}

/// The value of a hexadecimal digit of either case.
pub fn parse_hex_digit(c: char) -> (r: Option<u8>)
    ensures
        match r {
            Some(d) => hex_digit(c) == Some(d as int) && d < 16,
            None => hex_digit(c) is None,
        },
{
    let n: u32 = c as u32;
    if 48 <= n && n <= 57 {
        Some((n - 48) as u8)
    } else if 65 <= n && n <= 70 {
        Some((n - 55) as u8)
    } else if 97 <= n && n <= 102 {
        Some((n - 87) as u8)
    } else {
        None
    }
}

/// Why a text is not a byte in hexadecimal.
#[derive(Clone, Copy, Debug, PartialEq, Eq, Structural)]
pub enum OctetError {
    /// There is no digit.
    Empty,
    /// A character is not a digit.
    InvalidDigit,
    /// The value does not fit.
    TooLarge,
}

impl OctetError {
    /// The reason in words.
    pub open spec fn spec_reason(self) -> Seq<char> {
        match self {
            OctetError::Empty => "cannot parse integer from empty string"@,
            OctetError::InvalidDigit => "invalid digit found in string"@,
            OctetError::TooLarge => "number too large to fit in target type"@,
        }
    }

    /// The reason in words.
    pub fn reason(&self) -> (r: &'static str)
        ensures
            r@ == self.spec_reason(),
    {
        match self {
            OctetError::Empty => "cannot parse integer from empty string",
            OctetError::InvalidDigit => "invalid digit found in string",
            OctetError::TooLarge => "number too large to fit in target type",
        }
    }
}

/// The value of a row of hexadecimal digits, or what stops a reader that goes
/// from left to right.
pub open spec fn octet_scan(digits: Seq<char>) -> Result<int, OctetError>
    decreases digits.len(),
{
    if digits.len() == 0 {
        Ok(0)
    } else {
        match octet_scan(digits.drop_last()) {
            Err(e) => Err(e),
            Ok(n) => match hex_digit(digits.last()) {
                None => Err(OctetError::InvalidDigit),
                Some(d) => if n * 16 + d > 255 {
                    Err(OctetError::TooLarge)
                } else {
                    Ok(n * 16 + d)
                },
            },
        }
    }
}

/// The byte that a text spells in hexadecimal: an optional plus sign, then at
/// least one digit, with a value that fits.
pub open spec fn octet(s: Seq<char>) -> Result<u8, OctetError> {
    let digits = if s.len() > 1 && s[0] == '+' {
        s.skip(1)
    } else {
        s
    };
    if s.len() == 0 {
        Err(OctetError::Empty)
    } else {
        match octet_scan(digits) {
            Ok(n) => Ok(n as u8),
            Err(e) => Err(e),
        }
    }
}

/// What stops a reader stops it whatever follows.
proof fn octet_scan_stops(digits: Seq<char>, k: int)
    requires
        0 <= k <= digits.len(),
        octet_scan(digits.take(k)) is Err,
    ensures
        octet_scan(digits) == octet_scan(digits.take(k)),
    decreases digits.len(),
{
    if k == digits.len() {
        assert(digits.take(k) =~= digits);
    } else {
        assert(digits.drop_last().take(k) =~= digits.take(k));
        octet_scan_stops(digits.drop_last(), k);
    }
}

/// Reads a byte in hexadecimal.
pub fn parse_octet(s: &Vec<char>) -> (r: Result<u8, OctetError>)
    ensures
        r == octet(s@),
{
    if s.len() == 0 {
        return Err(OctetError::Empty);
    }
    let start: usize = if s.len() > 1 && s[0] == '+' {
        1
    } else {
        0
    };
    let ghost digits = s@.skip(start as int);
    proof {
        assert(start == 0 ==> digits =~= s@);
        assert(digits.take(0) =~= seq![]);
    }
    let mut value: u32 = 0;
    let mut i: usize = start;
    while i < s.len()
        invariant
            start <= i <= s.len(),
            s.len() > 0,
            digits == s@.skip(start as int),
            octet_scan(digits.take(i - start)) == Ok::<int, OctetError>(value as int),
            value <= 255,
            digits == if s.len() > 1 && s@[0] == '+' {
                s@.skip(1)
            } else {
                s@
            },
        decreases s.len() - i,
    {
        proof {
            assert(digits.take(i + 1 - start).drop_last() =~= digits.take(i - start));
            assert(digits.take(i + 1 - start).last() == s@[i as int]);
            if octet_scan(digits.take(i + 1 - start)) is Err {
                octet_scan_stops(digits, i + 1 - start);
            }
        }
        match parse_hex_digit(s[i]) {
            Some(d) => {
                value = value * 16 + d as u32;
                if value > 255 {
                    return Err(OctetError::TooLarge);
                }
            },
            None => {
                return Err(OctetError::InvalidDigit);
            },
        }
        i += 1;
    }
    assert(digits.take(i - start) =~= digits);
    Ok(value as u8)
}

/// Where a character first stands, or the length where it does not.
pub open spec fn find(s: Seq<char>, c: char) -> int
    decreases s.len(),
{
    if s.len() == 0 || s[0] == c {
        0
    } else {
        1 + find(s.skip(1), c)
    }
}

/// `find` gives the first place, if there is one.
pub proof fn find_is_first(s: Seq<char>, c: char)
    ensures
        0 <= find(s, c) <= s.len(),
        find(s, c) < s.len() ==> s[find(s, c)] == c,
        forall|j: int| 0 <= j < find(s, c) ==> s[j] != c,
        s.contains(c) <==> find(s, c) < s.len(),
    decreases s.len(),
{
    if s.len() > 0 && s[0] != c {
        let rest = s.skip(1);
        find_is_first(rest, c);
        assert forall|j: int| 0 <= j < find(s, c) implies s[j] != c by {
            if j > 0 {
                assert(rest[j - 1] == s[j]);
            }
        }
    }
}

/// The first place of a character is where it stands with none before it.
pub proof fn first_is_find(s: Seq<char>, c: char, k: int)
    requires
        0 <= k <= s.len(),
        k < s.len() ==> s[k] == c,
        forall|j: int| 0 <= j < k ==> s[j] != c,
    ensures
        find(s, c) == k,
{
    find_is_first(s, c);
    if find(s, c) < k {
        assert(s[find(s, c)] != c);
    }
    if k < find(s, c) {
        assert(s[k] != c);
    }
}

/// Finds the first place of a character.
pub fn find_char(s: &Vec<char>, c: char) -> (k: usize)
    ensures
        k == find(s@, c),
        k <= s.len(),
{
    let mut k: usize = 0;
    while k < s.len()
        invariant
            k <= s.len(),
            forall|j: int| 0 <= j < k ==> s@[j] != c,
        decreases s.len() - k,
    {
        if s[k] == c {
            proof {
                first_is_find(s@, c, k as int);
            }
            return k;
        }
        k += 1;
    }
    proof {
        first_is_find(s@, c, k as int);
    }
    k
}

/// A text cut at every occurrence of a character.
pub open spec fn split(s: Seq<char>, c: char) -> Seq<Seq<char>>
    decreases s.len(),
    via split_shortens
{
    let k = find(s, c);
    if k >= s.len() {
        seq![s]
    } else {
        seq![s.take(k)] + split(s.skip(k + 1), c)
    }
}

#[via_fn]
proof fn split_shortens(s: Seq<char>, c: char) {
    find_is_first(s, c);
}

/// A text up to its first separator is its first part.
pub proof fn split_at_first(head: Seq<char>, c: char, rest: Seq<char>)
    requires
        !head.contains(c),
    ensures
        split(head.push(c) + rest, c) == seq![head] + split(rest, c),
{
    let s = head.push(c) + rest;
    assert forall|j: int| 0 <= j < head.len() implies s[j] != c by {
        assert(head.contains(head[j]));
    }
    first_is_find(s, c, head.len() as int);
    assert(s.take(head.len() as int) =~= head);
    assert(s.skip(head.len() as int + 1) =~= rest);
}

/// A text without the separator is one part.
pub proof fn split_without(s: Seq<char>, c: char)
    requires
        !s.contains(c),
    ensures
        split(s, c) == seq![s],
{
    find_is_first(s, c);
}

/// The views of some texts.
pub open spec fn texts(parts: Seq<Vec<char>>) -> Seq<Seq<char>> {
    parts.map_values(|p: Vec<char>| p@)
}

/// Cuts a text at every occurrence of a character.
pub fn split_text(s: &Vec<char>, c: char) -> (parts: Vec<Vec<char>>)
    ensures
        texts(parts@) == split(s@, c),
{
    let mut parts: Vec<Vec<char>> = Vec::new();
    let mut part: Vec<char> = Vec::new();
    let mut i: usize = 0;
    proof {
        assert(texts(parts@) + split(part@ + s@.skip(0), c) =~= split(s@, c)) by {
            assert(part@ + s@.skip(0) =~= s@);
        }
    }
    while i < s.len()
        invariant
            i <= s.len(),
            !part@.contains(c),
            texts(parts@) + split(part@ + s@.skip(i as int), c) == split(s@, c),
        decreases s.len() - i,
    {
        let ghost part0 = part@;
        let ghost parts0 = parts@;
        let ghost rest = s@.skip(i + 1);
        assert(s@.skip(i as int) =~= seq![s@[i as int]] + rest);
        if s[i] == c {
            proof {
                split_at_first(part0, c, rest);
                assert(part0.push(c) + rest =~= part0 + s@.skip(i as int));
            }
            parts.push(part);
            part = Vec::new();
            proof {
                assert(texts(parts@) =~= texts(parts0).push(part0));
                assert(part@ + rest =~= rest);
                assert(texts(parts@) + split(rest, c) =~= texts(parts0) + (seq![part0] + split(
                    rest,
                    c,
                )));
            }
        } else {
            part.push(s[i]);
            proof {
                assert(part@ + rest =~= part0 + s@.skip(i as int));
                assert(!part@.contains(c)) by {
                    if part@.contains(c) {
                        let j = choose|j: int| 0 <= j < part@.len() && part@[j] == c;
                        assert(part0[j] == c);
                    }
                }
            }
        }
        i += 1;
    }
    let ghost part0 = part@;
    let ghost parts0 = parts@;
    proof {
        assert(part@ + s@.skip(i as int) =~= part@);
        split_without(part@, c);
    }
    parts.push(part);
    proof {
        assert(texts(parts@) =~= texts(parts0) + seq![part0]);
    }
    parts
}

} // verus!
