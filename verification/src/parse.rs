//! Typed readings of text values: decimal integers, dates, times and
//! person names. These look at the syntax only: a date of the right shape
//! is read whether or not the calendar has it.

use crate::text::copy_range;
use vstd::prelude::*;

verus! {

/// Whether a byte is a decimal digit.
pub open spec fn is_digit(b: u8) -> bool {
    0x30 <= b <= 0x39
}

/// Whether all bytes of the window `from..to` are decimal digits.
pub open spec fn all_digits(s: Seq<u8>, from: int, to: int) -> bool {
    forall|i: int| from <= i < to ==> is_digit(#[trigger] s[i])
}

/// The number that the digits of the window `from..to` write.
pub open spec fn decimal_value(s: Seq<u8>, from: int, to: int) -> nat
    decreases to - from,
{
    if to <= from {
        0
    } else {
        (10 * decimal_value(s, from, to - 1) + (s[to - 1] - 0x30)) as nat
    }
}

/// The unsigned number that a text writes: `None` unless the text is one
/// or more decimal digits that write a number up to `max`.
pub open spec fn spec_parse_unsigned(s: Seq<u8>, max: u64) -> Option<u64> {
    if s.len() > 0 && all_digits(s, 0, s.len() as int) && decimal_value(s, 0, s.len() as int)
        <= max {
        Some(decimal_value(s, 0, s.len() as int) as u64)
    } else {
        None
    }
}

/// The integer that a text writes: an optional sign, then one or more
/// decimal digits; `None` for any other text and for a number outside the
/// range `min..=max`.
pub open spec fn spec_parse_integer(s: Seq<u8>, min: i64, max: i64) -> Option<i64> {
    let signed = s.len() > 0 && (s[0] == 0x2B || s[0] == 0x2D);
    let from: int = if signed {
        1
    } else {
        0
    };
    if s.len() > from && all_digits(s, from, s.len() as int) {
        let magnitude = decimal_value(s, from, s.len() as int) as int;
        let v = if signed && s[0] == 0x2D {
            -magnitude
        } else {
            magnitude
        };
        if min <= v <= max {
            Some(v as i64)
        } else {
            None
        }
    } else {
        None
    }
}

/// More digits never write a smaller number.
pub proof fn lemma_decimal_grows(s: Seq<u8>, from: int, mid: int, to: int)
    requires
        from <= mid <= to,
        all_digits(s, from, to),
    ensures
        decimal_value(s, from, mid) <= decimal_value(s, from, to),
    decreases to - mid,
{
    if mid < to {
        lemma_decimal_grows(s, from, mid, to - 1);
    }
}

/// A date as a text value writes it: a year, a month and a day.
#[derive(Clone, Copy, Debug, PartialEq, Eq, Structural)]
pub struct DicomDate {
    pub year: u16,
    pub month: u8,
    pub day: u8,
}

/// A time as a text value writes it. Of the parts after the hour only
/// those that are written count: `parts` says how many of hour, minute and
/// second are written, and `fraction_digits` how many digits of a fraction
/// of a second.
#[derive(Clone, Copy, Debug, PartialEq, Eq, Structural)]
pub struct DicomTime {
    pub hour: u8,
    pub minute: u8,
    pub second: u8,
    /// The digits of the fraction, as a number.
    pub fraction: u32,
    pub fraction_digits: u8,
    pub parts: u8,
}

/// The date that a text writes: eight digits, four of the year, two of the
/// month, two of the day.
pub open spec fn spec_parse_date(s: Seq<u8>) -> Option<DicomDate> {
    if s.len() == 8 && all_digits(s, 0, 8) {
        Some(
            DicomDate {
                year: decimal_value(s, 0, 4) as u16,
                month: decimal_value(s, 4, 6) as u8,
                day: decimal_value(s, 6, 8) as u8,
            },
        )
    } else {
        None
    }
}

/// The eight digits that write a date.
pub open spec fn spec_format_date(d: DicomDate) -> Seq<u8> {
    seq![
        (0x30 + (d.year / 1000) % 10) as u8,
        (0x30 + (d.year / 100) % 10) as u8,
        (0x30 + (d.year / 10) % 10) as u8,
        (0x30 + d.year % 10) as u8,
        (0x30 + (d.month / 10) % 10) as u8,
        (0x30 + d.month % 10) as u8,
        (0x30 + (d.day / 10) % 10) as u8,
        (0x30 + d.day % 10) as u8,
    ]
}

/// The time that a text writes: two digits of the hour; then, each only
/// after the one before, two of the minute, two of the second, and a point
/// with one to six digits of a fraction.
pub open spec fn spec_parse_time(s: Seq<u8>) -> Option<DicomTime> {
    let n = s.len() as int;
    if n == 2 && all_digits(s, 0, 2) {
        Some(
            DicomTime {
                hour: decimal_value(s, 0, 2) as u8,
                minute: 0,
                second: 0,
                fraction: 0,
                fraction_digits: 0,
                parts: 1,
            },
        )
    } else if n == 4 && all_digits(s, 0, 4) {
        Some(
            DicomTime {
                hour: decimal_value(s, 0, 2) as u8,
                minute: decimal_value(s, 2, 4) as u8,
                second: 0,
                fraction: 0,
                fraction_digits: 0,
                parts: 2,
            },
        )
    } else if n == 6 && all_digits(s, 0, 6) {
        Some(
            DicomTime {
                hour: decimal_value(s, 0, 2) as u8,
                minute: decimal_value(s, 2, 4) as u8,
                second: decimal_value(s, 4, 6) as u8,
                fraction: 0,
                fraction_digits: 0,
                parts: 3,
            },
        )
    } else if 8 <= n <= 13 && all_digits(s, 0, 6) && s[6] == 0x2E && all_digits(s, 7, n) {
        Some(
            DicomTime {
                hour: decimal_value(s, 0, 2) as u8,
                minute: decimal_value(s, 2, 4) as u8,
                second: decimal_value(s, 4, 6) as u8,
                fraction: decimal_value(s, 7, n) as u32,
                fraction_digits: (n - 7) as u8,
                parts: 3,
            },
        )
    } else {
        None
    }
}

/// The offset of a time zone from universal time, as a text value writes
/// it.
#[derive(Clone, Copy, Debug, PartialEq, Eq, Structural)]
pub struct ZoneOffset {
    pub negative: bool,
    pub hour: u8,
    pub minute: u8,
}

/// A date with a time as a text value writes it. Of the parts after the
/// year only those that are written count: `parts` says how many of year,
/// month, day, hour, minute and second are written.
#[derive(Clone, Copy, Debug, PartialEq, Eq, Structural)]
pub struct DicomDateTime {
    pub year: u16,
    pub month: u8,
    pub day: u8,
    pub hour: u8,
    pub minute: u8,
    pub second: u8,
    /// The digits of the fraction of a second, as a number.
    pub fraction: u32,
    pub fraction_digits: u8,
    pub parts: u8,
    pub zone: Option<ZoneOffset>,
}

/// Whether a text ends with the offset of a time zone: a sign and four
/// digits.
pub open spec fn has_zone(s: Seq<u8>) -> bool {
    let n = s.len() as int;
    n >= 5 && (s[n - 5] == 0x2B || s[n - 5] == 0x2D) && all_digits(s, n - 4, n)
}

/// Whether the first `m` bytes of a text have the shape of a date with a
/// time: four digits of the year; then, each only after the one before, two
/// digits each of month, day, hour, minute and second, and a point with one
/// to six digits of a fraction.
pub open spec fn is_datetime_body(s: Seq<u8>, m: int) -> bool {
    ||| (m == 4 || m == 6 || m == 8 || m == 10 || m == 12 || m == 14) && all_digits(s, 0, m)
    ||| 16 <= m <= 21 && all_digits(s, 0, 14) && s[14] == 0x2E && all_digits(s, 15, m)
}

/// The number that the two digits at `from` write where the body is long
/// enough to hold them, else zero.
pub open spec fn part_value(s: Seq<u8>, m: int, from: int) -> u8 {
    if m >= from + 2 {
        decimal_value(s, from, from + 2) as u8
    } else {
        0
    }
}

/// The date with a time that a text writes.
pub open spec fn spec_parse_datetime(s: Seq<u8>) -> Option<DicomDateTime> {
    let n = s.len() as int;
    let m = if has_zone(s) {
        n - 5
    } else {
        n
    };
    if !is_datetime_body(s, m) {
        None
    } else {
        Some(
            DicomDateTime {
                year: decimal_value(s, 0, 4) as u16,
                month: part_value(s, m, 4),
                day: part_value(s, m, 6),
                hour: part_value(s, m, 8),
                minute: part_value(s, m, 10),
                second: part_value(s, m, 12),
                fraction: if m >= 16 {
                    decimal_value(s, 15, m) as u32
                } else {
                    0
                },
                fraction_digits: if m >= 16 {
                    (m - 15) as u8
                } else {
                    0
                },
                parts: if m >= 14 {
                    6
                } else {
                    ((m - 2) / 2) as u8
                },
                zone: if has_zone(s) {
                    Some(
                        ZoneOffset {
                            negative: s[n - 5] == 0x2D,
                            hour: decimal_value(s, n - 4, n - 2) as u8,
                            minute: decimal_value(s, n - 2, n) as u8,
                        },
                    )
                } else {
                    None
                },
            },
        )
    }
}

/// The position of the first byte `sep` at or after `from`, or the length
/// of `s` where there is none.
pub open spec fn next_separator(s: Seq<u8>, sep: u8, from: int) -> int
    decreases s.len() - from,
{
    if from >= s.len() {
        s.len() as int
    } else if s[from] == sep {
        from
    } else {
        next_separator(s, sep, from + 1)
    }
}

/// The parts of `s` from `from` on, split at each byte `sep`.
pub open spec fn split_on(s: Seq<u8>, sep: u8, from: int) -> Seq<Seq<u8>>
    decreases s.len() - from,
{
    let d = next_separator(s, sep, from);
    if d < from || d >= s.len() {
        seq![s.subrange(from, s.len() as int)]
    } else {
        seq![s.subrange(from, d)] + split_on(s, sep, d + 1)
    }
}

/// The part numbered `i`, or nothing where there are fewer parts.
pub open spec fn part_or_empty(parts: Seq<Seq<u8>>, i: int) -> Seq<u8> {
    if 0 <= i < parts.len() {
        parts[i]
    } else {
        Seq::empty()
    }
}

/// The components of a person name.
#[derive(Clone, Debug, PartialEq, Eq)]
pub struct PersonName {
    pub family: Vec<u8>,
    pub given: Vec<u8>,
    pub middle: Vec<u8>,
    pub prefix: Vec<u8>,
    pub suffix: Vec<u8>,
}

/// The mathematical model of a person name.
pub ghost struct PersonNameModel {
    pub family: Seq<u8>,
    pub given: Seq<u8>,
    pub middle: Seq<u8>,
    pub prefix: Seq<u8>,
    pub suffix: Seq<u8>,
}

impl View for PersonName {
    type V = PersonNameModel;

    open spec fn view(&self) -> PersonNameModel {
        PersonNameModel {
            family: self.family@,
            given: self.given@,
            middle: self.middle@,
            prefix: self.prefix@,
            suffix: self.suffix@,
        }
    }
}

/// The person name that a text writes: of its first component group (the
/// text up to the first equals sign) the parts between carets, in the order
/// family name, given name, middle name, prefix, suffix; a part that is
/// not written is empty.
pub open spec fn spec_parse_person_name(s: Seq<u8>) -> PersonNameModel {
    let group = split_on(s, 0x3D, 0)[0];
    let parts = split_on(group, 0x5E, 0);
    PersonNameModel {
        family: part_or_empty(parts, 0),
        given: part_or_empty(parts, 1),
        middle: part_or_empty(parts, 2),
        prefix: part_or_empty(parts, 3),
        suffix: part_or_empty(parts, 4),
    }
}

fn digit_of(b: u8) -> (r: Option<u8>)
    ensures
        r is Some <==> is_digit(b),
        r matches Some(d) ==> d == b - 0x30,
{
    if 0x30 <= b && b <= 0x39 {
        Some(b - 0x30)
    } else {
        None
    }
}

/// Whether the window `from..to` holds digits only.
pub fn digits_only(s: &[u8], from: usize, to: usize) -> (r: bool)
    requires
        from <= to <= s@.len(),
    ensures
        r == all_digits(s@, from as int, to as int),
{
    let mut i = from;
    while i < to
        invariant
            from <= i <= to <= s@.len(),
            all_digits(s@, from as int, i as int),
        decreases to - i,
    {
        if digit_of(s[i]).is_none() {
            return false;
        }
        i += 1;
    }
    true
}

/// The number that the digits of the window `from..to` write, where it is
/// at most `max`.
fn parse_digits(s: &[u8], from: usize, to: usize, max: u64) -> (r: Option<u64>)
    requires
        from <= to <= s@.len(),
        all_digits(s@, from as int, to as int),
    ensures
        r is Some <==> decimal_value(s@, from as int, to as int) <= max,
        r matches Some(v) ==> v == decimal_value(s@, from as int, to as int),
{
    let mut acc: u64 = 0;
    let mut i = from;
    while i < to
        invariant
            from <= i <= to <= s@.len(),
            all_digits(s@, from as int, to as int),
            acc == decimal_value(s@, from as int, i as int),
            acc <= max,
        decreases to - i,
    {
        let d = (s[i] - 0x30) as u64;
        proof {
            lemma_decimal_grows(s@, from as int, i + 1, to as int);
        }
        let next = match acc.checked_mul(10) {
            Some(m) => match m.checked_add(d) {
                Some(n) => n,
                None => {
                    return None;
                },
            },
            None => {
                return None;
            },
        };
        if next > max {
            return None;
        }
        acc = next;
        i += 1;
    }
    Some(acc)
}

/// Reads an unsigned decimal number up to `max`.
pub fn parse_unsigned(s: &[u8], max: u64) -> (r: Option<u64>)
    ensures
        r == spec_parse_unsigned(s@, max),
{
    if s.len() == 0 || !digits_only(s, 0, s.len()) {
        return None;
    }
    parse_digits(s, 0, s.len(), max)
}

/// Reads a decimal integer with an optional sign, in the range
/// `min..=max`.
pub fn parse_integer(s: &[u8], min: i64, max: i64) -> (r: Option<i64>)
    ensures
        r == spec_parse_integer(s@, min, max),
{
    let n = s.len();
    let signed = n > 0 && (s[0] == 0x2B || s[0] == 0x2D);
    let from: usize = if signed {
        1
    } else {
        0
    };
    if n <= from || !digits_only(s, from, n) {
        return None;
    }
    let negative = signed && s[0] == 0x2D;
    match parse_digits(s, from, n, 0x8000_0000_0000_0000) {
        None => None,
        Some(m) => {
            if negative {
                if m == 0x8000_0000_0000_0000 {
                    if min == i64::MIN {
                        Some(i64::MIN)
                    } else {
                        None
                    }
                } else {
                    let v = -(m as i64);
                    if min <= v && v <= max {
                        Some(v)
                    } else {
                        None
                    }
                }
            } else {
                if m == 0x8000_0000_0000_0000 {
                    None
                } else {
                    let v = m as i64;
                    if min <= v && v <= max {
                        Some(v)
                    } else {
                        None
                    }
                }
            }
        },
    }
}

fn two_digits(s: &[u8], from: usize) -> (r: u8)
    requires
        from + 2 <= s@.len(),
        all_digits(s@, from as int, from + 2),
    ensures
        r == decimal_value(s@, from as int, from + 2),
        r <= 99,
{
    proof {
        reveal_with_fuel(decimal_value, 3);
    }
    let n = s.len();
    assert(from + 2 <= n);
    (s[from] - 0x30) * 10 + (s[from + 1] - 0x30)
}

/// Reads a date: eight digits.
pub fn parse_date(s: &[u8]) -> (r: Option<DicomDate>)
    ensures
        r == spec_parse_date(s@),
{
    if s.len() != 8 || !digits_only(s, 0, 8) {
        return None;
    }
    proof {
        reveal_with_fuel(decimal_value, 5);
    }
    let year = (s[0] - 0x30) as u16 * 1000 + (s[1] - 0x30) as u16 * 100 + (s[2] - 0x30) as u16
        * 10 + (s[3] - 0x30) as u16;
    let month = two_digits(s, 4);
    let day = two_digits(s, 6);
    Some(DicomDate { year, month, day })
}

/// Writes a date as eight digits.
pub fn format_date(d: DicomDate) -> (out: Vec<u8>)
    ensures
        out@ == spec_format_date(d),
{
    let mut out: Vec<u8> = Vec::new();
    out.push((0x30 + (d.year / 1000) % 10) as u8);
    out.push((0x30 + (d.year / 100) % 10) as u8);
    out.push((0x30 + (d.year / 10) % 10) as u8);
    out.push((0x30 + d.year % 10) as u8);
    out.push(0x30 + (d.month / 10) % 10);
    out.push(0x30 + d.month % 10);
    out.push(0x30 + (d.day / 10) % 10);
    out.push(0x30 + d.day % 10);
    out
}

proof fn lemma_four_digits(y: u16)
    by (bit_vector)
    requires
        y <= 9999,
    ensures
        (y / 1000) % 10 <= 9,
        (y / 100) % 10 <= 9,
        (y / 10) % 10 <= 9,
        y % 10 <= 9,
        1000 * ((y / 1000) % 10) + 100 * ((y / 100) % 10) + 10 * ((y / 10) % 10) + y % 10 == y,
{
}

proof fn lemma_two_digits(v: u8)
    by (bit_vector)
    requires
        v <= 99,
    ensures
        (v / 10) % 10 <= 9,
        v % 10 <= 9,
        10 * ((v / 10) % 10) + v % 10 == v,
{
}

/// The number that two digits write.
proof fn lemma_decimal_pair(s: Seq<u8>, from: int, a: int, b: int)
    requires
        0 <= a <= 9,
        0 <= b <= 9,
        s[from] == 0x30 + a,
        s[from + 1] == 0x30 + b,
    ensures
        decimal_value(s, from, from + 2) == 10 * a + b,
        is_digit(s[from]),
        is_digit(s[from + 1]),
{
    assert(decimal_value(s, from, from) == 0);
    assert(decimal_value(s, from, from + 1) == a);
}

/// A date with a year of at most four digits and a month and a day of at
/// most two is read back from the digits that write it.
pub proof fn lemma_date_round_trip(d: DicomDate)
    requires
        d.year <= 9999,
        d.month <= 99,
        d.day <= 99,
    ensures
        spec_parse_date(spec_format_date(d)) == Some(d),
{
    let s = spec_format_date(d);
    lemma_four_digits(d.year);
    lemma_two_digits(d.month);
    lemma_two_digits(d.day);
    let y3 = ((d.year / 1000) % 10) as int;
    let y2 = ((d.year / 100) % 10) as int;
    let y1 = ((d.year / 10) % 10) as int;
    lemma_decimal_pair(s, 0, y3, y2);
    assert(decimal_value(s, 0, 3) == 10 * (10 * y3 + y2) + y1);
    lemma_decimal_pair(s, 4, ((d.month / 10) % 10) as int, (d.month % 10) as int);
    lemma_decimal_pair(s, 6, ((d.day / 10) % 10) as int, (d.day % 10) as int);
}

/// The number by which a fraction of `digits` digits is multiplied to give
/// millionths.
pub open spec fn fraction_scale(digits: u8) -> u32 {
    if digits == 0 {
        1_000_000
    } else if digits == 1 {
        100_000
    } else if digits == 2 {
        10_000
    } else if digits == 3 {
        1_000
    } else if digits == 4 {
        100
    } else if digits == 5 {
        10
    } else {
        1
    }
}

/// The fraction of a second of a time in millionths of a second; `None`
/// where the time claims more than six digits of a fraction, or its
/// fraction is not below one second.
pub open spec fn spec_microseconds(t: DicomTime) -> Option<u32> {
    if t.fraction_digits <= 6 && t.fraction * fraction_scale(t.fraction_digits) < 1_000_000 {
        Some((t.fraction * fraction_scale(t.fraction_digits)) as u32)
    } else {
        None
    }
}

impl DicomTime {
    /// The fraction of a second in millionths of a second.
    pub fn microseconds(&self) -> (r: Option<u32>)
        ensures
            r == spec_microseconds(*self),
    {
        if self.fraction_digits > 6 {
            return None;
        }
        let scale: u32 = if self.fraction_digits == 0 {
            1_000_000
        } else if self.fraction_digits == 1 {
            100_000
        } else if self.fraction_digits == 2 {
            10_000
        } else if self.fraction_digits == 3 {
            1_000
        } else if self.fraction_digits == 4 {
            100
        } else if self.fraction_digits == 5 {
            10
        } else {
            1
        };
        let product = self.fraction as u64 * scale as u64;
        if product < 1_000_000 {
            Some(product as u32)
        } else {
            None
        }
    }
}

/// The digits of a fraction write less than one second: a time that is
/// read has its fraction in millionths.
pub proof fn lemma_parsed_time_has_microseconds(s: Seq<u8>)
    ensures
        spec_parse_time(s) matches Some(t) ==> spec_microseconds(t) is Some,
{
    let n = s.len() as int;
    if spec_parse_time(s) is Some {
        let t = spec_parse_time(s)->0;
        if n == 2 || n == 4 || n == 6 {
            assert(t.fraction == 0 && t.fraction_digits == 0);
            assert(t.fraction * fraction_scale(t.fraction_digits) == 0);
        } else {
            lemma_digits_below_scale(s, 7, n);
            assert(t.fraction == decimal_value(s, 7, n));
            assert(t.fraction_digits == n - 7);
        }
    }
}

/// The greatest number that `k` digits write, for up to six digits.
pub open spec fn greatest_of_digits(k: int) -> int {
    if k <= 0 {
        0
    } else if k == 1 {
        9
    } else if k == 2 {
        99
    } else if k == 3 {
        999
    } else if k == 4 {
        9_999
    } else if k == 5 {
        99_999
    } else {
        999_999
    }
}

/// Up to six digits write a number below ten to the number of digits.
proof fn lemma_digits_below_scale(s: Seq<u8>, from: int, to: int)
    requires
        from <= to <= from + 6,
        all_digits(s, from, to),
    ensures
        decimal_value(s, from, to) <= greatest_of_digits(to - from),
        decimal_value(s, from, to) * fraction_scale((to - from) as u8) < 1_000_000,
    decreases to - from,
{
    if to > from {
        lemma_digits_below_scale(s, from, to - 1);
        assert(is_digit(s[to - 1]));
    }
    let v = decimal_value(s, from, to) as int;
    let k = to - from;
    if k == 0 {
        assert(v * 1_000_000 < 1_000_000);
    } else if k == 1 {
        assert(v * 100_000 < 1_000_000);
    } else if k == 2 {
        assert(v * 10_000 < 1_000_000);
    } else if k == 3 {
        assert(v * 1_000 < 1_000_000);
    } else if k == 4 {
        assert(v * 100 < 1_000_000);
    } else if k == 5 {
        assert(v * 10 < 1_000_000);
    } else {
        assert(v * 1 < 1_000_000);
    }
}

/// Reads a time.
pub fn parse_time(s: &[u8]) -> (r: Option<DicomTime>)
    ensures
        r == spec_parse_time(s@),
{
    let n = s.len();
    if n == 2 {
        if !digits_only(s, 0, 2) {
            return None;
        }
        Some(
            DicomTime {
                hour: two_digits(s, 0),
                minute: 0,
                second: 0,
                fraction: 0,
                fraction_digits: 0,
                parts: 1,
            },
        )
    } else if n == 4 {
        if !digits_only(s, 0, 4) {
            return None;
        }
        Some(
            DicomTime {
                hour: two_digits(s, 0),
                minute: two_digits(s, 2),
                second: 0,
                fraction: 0,
                fraction_digits: 0,
                parts: 2,
            },
        )
    } else if n == 6 {
        if !digits_only(s, 0, 6) {
            return None;
        }
        Some(
            DicomTime {
                hour: two_digits(s, 0),
                minute: two_digits(s, 2),
                second: two_digits(s, 4),
                fraction: 0,
                fraction_digits: 0,
                parts: 3,
            },
        )
    } else if 8 <= n && n <= 13 {
        if !digits_only(s, 0, 6) || s[6] != 0x2E || !digits_only(s, 7, n) {
            return None;
        }
        proof {
            lemma_fraction_bound(s@, 7, n as int);
        }
        let fraction = match parse_digits(s, 7, n, 999_999) {
            Some(f) => f as u32,
            None => {
                return None;
            },
        };
        Some(
            DicomTime {
                hour: two_digits(s, 0),
                minute: two_digits(s, 2),
                second: two_digits(s, 4),
                fraction,
                fraction_digits: (n - 7) as u8,
                parts: 3,
            },
        )
    } else {
        None
    }
}

fn part_at(s: &[u8], m: usize, from: usize) -> (r: u8)
    requires
        m <= s@.len(),
        from + 2 <= 14,
        m >= from + 2 ==> all_digits(s@, from as int, from + 2),
    ensures
        r == part_value(s@, m as int, from as int),
{
    if m >= from + 2 {
        two_digits(s, from)
    } else {
        0
    }
}

fn four_digits(s: &[u8], from: usize) -> (r: u16)
    requires
        from + 4 <= s@.len(),
        all_digits(s@, from as int, from + 4),
    ensures
        r == decimal_value(s@, from as int, from + 4),
        r <= 9999,
{
    proof {
        reveal_with_fuel(decimal_value, 5);
    }
    let n = s.len();
    assert(from + 4 <= n);
    (s[from] - 0x30) as u16 * 1000 + (s[from + 1] - 0x30) as u16 * 100 + (s[from + 2] - 0x30) as u16
        * 10 + (s[from + 3] - 0x30) as u16
}

fn zone_of(s: &[u8]) -> (r: Option<ZoneOffset>)
    ensures
        r is Some <==> has_zone(s@),
        r matches Some(z) ==> z == (ZoneOffset {
            negative: s@[s@.len() - 5] == 0x2D,
            hour: decimal_value(s@, s@.len() - 4, s@.len() - 2) as u8,
            minute: decimal_value(s@, s@.len() - 2, s@.len() as int) as u8,
        }),
{
    let n = s.len();
    if n >= 5 && (s[n - 5] == 0x2B || s[n - 5] == 0x2D) && digits_only(s, n - 4, n) {
        Some(
            ZoneOffset {
                negative: s[n - 5] == 0x2D,
                hour: two_digits(s, n - 4),
                minute: two_digits(s, n - 2),
            },
        )
    } else {
        None
    }
}

fn body_is_datetime(s: &[u8], m: usize) -> (r: bool)
    requires
        m <= s@.len(),
    ensures
        r == is_datetime_body(s@, m as int),
{
    if m == 4 || m == 6 || m == 8 || m == 10 || m == 12 || m == 14 {
        digits_only(s, 0, m)
    } else if 16 <= m && m <= 21 {
        digits_only(s, 0, 14) && s[14] == 0x2E && digits_only(s, 15, m)
    } else {
        false
    }
}

fn fraction_of(s: &[u8], m: usize) -> (r: (u32, u8))
    requires
        m <= s@.len(),
        m >= 16 ==> m <= 21 && all_digits(s@, 15, m as int),
    ensures
        r.0 == if m >= 16 {
            decimal_value(s@, 15, m as int) as u32
        } else {
            0
        },
        r.1 == if m >= 16 {
            (m - 15) as u8
        } else {
            0
        },
{
    if m >= 16 {
        proof {
            lemma_fraction_bound(s@, 15, m as int);
        }
        match parse_digits(s, 15, m, 999_999) {
            Some(f) => (f as u32, (m - 15) as u8),
            None => (0, (m - 15) as u8),
        }
    } else {
        (0, 0)
    }
}

/// Reads a date with a time.
pub fn parse_datetime(s: &[u8]) -> (r: Option<DicomDateTime>)
    ensures
        r == spec_parse_datetime(s@),
{
    let n = s.len();
    let zone = zone_of(s);
    let m = if zone.is_some() {
        n - 5
    } else {
        n
    };
    if !body_is_datetime(s, m) {
        return None;
    }
    let year = four_digits(s, 0);
    let month = part_at(s, m, 4);
    let day = part_at(s, m, 6);
    let hour = part_at(s, m, 8);
    let minute = part_at(s, m, 10);
    let second = part_at(s, m, 12);
    let (fraction, fraction_digits) = fraction_of(s, m);
    let parts: u8 = if m >= 14 {
        6
    } else {
        ((m - 2) / 2) as u8
    };
    Some(
        DicomDateTime {
            year,
            month,
            day,
            hour,
            minute,
            second,
            fraction,
            fraction_digits,
            parts,
            zone,
        },
    )
}

/// Up to six digits write a number below a million.
proof fn lemma_fraction_bound(s: Seq<u8>, from: int, to: int)
    requires
        from <= to <= from + 6,
        all_digits(s, from, to),
    ensures
        decimal_value(s, from, to) <= 999_999,
{
    reveal_with_fuel(decimal_value, 8);
}

/// The position of the first byte `sep` at or after `from`.
pub fn find_separator(s: &[u8], sep: u8, from: usize) -> (d: usize)
    requires
        from <= s@.len(),
    ensures
        d == next_separator(s@, sep, from as int),
        from <= d <= s@.len(),
{
    let n = s.len();
    let mut d = from;
    while d < n && s[d] != sep
        invariant
            from <= d <= n,
            n == s@.len(),
            next_separator(s@, sep, from as int) == next_separator(s@, sep, d as int),
        decreases n - d,
    {
        d += 1;
    }
    d
}

/// Splits `s` at each byte `sep`.
pub fn split_at_byte(s: &[u8], sep: u8) -> (parts: Vec<Vec<u8>>)
    ensures
        crate::text::views(parts@) == split_on(s@, sep, 0),
        parts@.len() >= 1,
{
    let n = s.len();
    let mut parts: Vec<Vec<u8>> = Vec::new();
    let mut from: usize = 0;
    let mut done = false;
    while !done
        invariant
            from <= n,
            n == s@.len(),
            !done ==> split_on(s@, sep, 0) == crate::text::views(parts@) + split_on(
                s@,
                sep,
                from as int,
            ),
            done ==> split_on(s@, sep, 0) == crate::text::views(parts@),
            done ==> parts@.len() >= 1,
        decreases (n - from) + (if done { 0int } else { 1int }),
    {
        let d = find_separator(s, sep, from);
        if d >= n {
            parts.push(copy_range(s, from, n));
            done = true;
        } else {
            parts.push(copy_range(s, from, d));
            from = d + 1;
        }
    }
    parts
}

fn take_part(parts: &Vec<Vec<u8>>, i: usize) -> (out: Vec<u8>)
    ensures
        out@ == part_or_empty(crate::text::views(parts@), i as int),
{
    if i < parts.len() {
        let p = copy_range(parts[i].as_slice(), 0, parts[i].len());
        p
    } else {
        Vec::new()
    }
}

/// Reads a person name.
pub fn parse_person_name(s: &[u8]) -> (r: PersonName)
    ensures
        r@ == spec_parse_person_name(s@),
{
    let groups = split_at_byte(s, 0x3D);
    let parts = split_at_byte(groups[0].as_slice(), 0x5E);
    PersonName {
        family: take_part(&parts, 0),
        given: take_part(&parts, 1),
        middle: take_part(&parts, 2),
        prefix: take_part(&parts, 3),
        suffix: take_part(&parts, 4),
    }
}

} // verus!
