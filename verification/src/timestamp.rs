//! The validity-window timestamp carried by a reference value: a UTC
//! wall-clock instant, held as plain calendar fields and rendered on the
//! wire as `YYYY-MM-DDTHH:MM:SSZ`.

use vstd::prelude::*;
use vstd::arithmetic::div_mod::lemma_fundamental_div_mod;

verus! {

/// A UTC instant, second precision. The wire form is the fixed-width
/// pattern `YYYY-MM-DDTHH:MM:SSZ`; [`Timestamp::well_formed`] bounds each
/// field so that the rendering is unambiguous.
#[derive(Clone, Copy, Debug, PartialEq, Eq, Structural)]
pub struct Timestamp {
    pub year: u16,
    pub month: u8,
    pub day: u8,
    pub hour: u8,
    pub minute: u8,
    pub second: u8,
}

/// The number of days in `month` of `year`, by the Gregorian rules
/// (meaningful for `1 <= month <= 12`).
pub open spec fn spec_days_in_month(year: int, month: int) -> int {
    if month == 2 {
        if year % 4 == 0 && (year % 100 != 0 || year % 400 == 0) {
            29
        } else {
            28
        }
    } else if month == 4 || month == 6 || month == 9 || month == 11 {
        30
    } else {
        31
    }
}

/// The number of days in `month` of `year`.
pub fn days_in_month(year: u16, month: u8) -> (r: u8)
    requires
        1 <= month <= 12,
    ensures
        r as int == spec_days_in_month(year as int, month as int),
        1 <= r <= 31,
{
    if month == 2 {
        if year % 4 == 0 && (year % 100 != 0 || year % 400 == 0) {
            29
        } else {
            28
        }
    } else if month == 4 || month == 6 || month == 9 || month == 11 {
        30
    } else {
        31
    }
}

impl Timestamp {
    /// Field bounds that make the fixed-width rendering faithful: a real
    /// calendar date and a wall-clock time.
    pub open spec fn well_formed(&self) -> bool {
        &&& self.year <= 9999
        &&& 1 <= self.month <= 12
        &&& 1 <= self.day && self.day as int <= spec_days_in_month(
            self.year as int,
            self.month as int,
        )
        &&& self.hour <= 23
        &&& self.minute <= 59
        &&& self.second <= 59
    }

    /// The instant the validity window of the epoch starts:
    /// 1970-01-01T00:00:00Z.
    pub fn epoch() -> (r: Timestamp)
        ensures
            r == Timestamp::epoch_spec(),
    {
        Timestamp { year: 1970, month: 1, day: 1, hour: 0, minute: 0, second: 0 }
    }

    pub open spec fn epoch_spec() -> Timestamp {
        Timestamp { year: 1970, month: 1, day: 1, hour: 0, minute: 0, second: 0 }
    }

    /// Builds a timestamp from calendar fields; yields `None` when a
    /// field is outside the fixed-width pattern's range.
    pub fn new(year: u16, month: u8, day: u8, hour: u8, minute: u8, second: u8) -> (r: Option<
        Timestamp,
    >)
        ensures
            r matches Some(t) ==> t == (Timestamp { year, month, day, hour, minute, second })
                && t.well_formed(),
            r is None <==> !(Timestamp { year, month, day, hour, minute, second }).well_formed(),
    {
        let t = Timestamp { year, month, day, hour, minute, second };
        if year <= 9999 && 1 <= month && month <= 12 && 1 <= day && day <= days_in_month(
            year,
            month,
        ) && hour <= 23 && minute <= 59 && second <= 59 {
            Some(t)
        } else {
            None
        }
    }

    /// Builds a timestamp from fields as a wall clock reports them,
    /// falling back to the epoch when a field is out of range.
    pub fn from_clock_fields(year: i32, month: u32, day: u32, hour: u32, minute: u32, second: u32)
        -> (r: Timestamp)
        ensures
            r.well_formed(),
            (0 <= year <= 9999 && 1 <= month <= 12 && 1 <= day && day as int <= spec_days_in_month(
                year as int,
                month as int,
            ) && hour <= 23 && minute <= 59 && second <= 59) ==> r == (Timestamp {
                year: year as u16,
                month: month as u8,
                day: day as u8,
                hour: hour as u8,
                minute: minute as u8,
                second: second as u8,
            }),
    {
        if 0 <= year && year <= 9999 && 1 <= month && month <= 12 && 1 <= day && day
            <= days_in_month(year as u16, month as u8) as u32 && hour <= 23 && minute <= 59
            && second <= 59 {
            Timestamp {
                year: year as u16,
                month: month as u8,
                day: day as u8,
                hour: hour as u8,
                minute: minute as u8,
                second: second as u8,
            }
        } else {
            Timestamp::epoch()
        }
    }
}

/// The character for one decimal digit.
pub open spec fn digit_char(d: int) -> char {
    if d == 0 {
        '0'
    } else if d == 1 {
        '1'
    } else if d == 2 {
        '2'
    } else if d == 3 {
        '3'
    } else if d == 4 {
        '4'
    } else if d == 5 {
        '5'
    } else if d == 6 {
        '6'
    } else if d == 7 {
        '7'
    } else if d == 8 {
        '8'
    } else {
        '9'
    }
}

/// Whether a character is a decimal digit.
pub open spec fn is_digit(c: char) -> bool {
    '0' <= c && c <= '9'
}

/// The numeric value of a decimal digit character.
pub open spec fn digit_val(c: char) -> int {
    c as int - '0' as int
}

/// Two-digit zero-padded rendering of `n` (meaningful for `0 <= n <= 99`).
pub open spec fn two_digit_seq(n: int) -> Seq<char> {
    seq![digit_char(n / 10), digit_char(n % 10)]
}

/// Four-digit zero-padded rendering of `n` (meaningful for `0 <= n <= 9999`).
pub open spec fn four_digit_seq(n: int) -> Seq<char> {
    seq![
        digit_char(n / 1000),
        digit_char((n / 100) % 10),
        digit_char((n / 10) % 10),
        digit_char(n % 10),
    ]
}

/// The wire rendering of a timestamp: `YYYY-MM-DDTHH:MM:SSZ`.
pub open spec fn spec_format_timestamp(t: Timestamp) -> Seq<char> {
    four_digit_seq(t.year as int) + seq!['-'] + two_digit_seq(t.month as int) + seq!['-']
        + two_digit_seq(t.day as int) + seq!['T'] + two_digit_seq(t.hour as int) + seq![':']
        + two_digit_seq(t.minute as int) + seq![':'] + two_digit_seq(t.second as int) + seq!['Z']
}

/// What reading the wire rendering back yields: `Some` exactly on the
/// 20-character pattern with every field in range.
pub open spec fn spec_parse_timestamp(s: Seq<char>) -> Option<Timestamp> {
    if s.len() == 20 && s[4] == '-' && s[7] == '-' && s[10] == 'T' && s[13] == ':' && s[16] == ':'
        && s[19] == 'Z' && is_digit(s[0]) && is_digit(s[1]) && is_digit(s[2]) && is_digit(s[3])
        && is_digit(s[5]) && is_digit(s[6]) && is_digit(s[8]) && is_digit(s[9]) && is_digit(s[11])
        && is_digit(s[12]) && is_digit(s[14]) && is_digit(s[15]) && is_digit(s[17]) && is_digit(
        s[18],
    ) {
        let y: int = digit_val(s[0]) * 1000 + digit_val(s[1]) * 100 + digit_val(s[2]) * 10
            + digit_val(s[3]);
        let mo: int = digit_val(s[5]) * 10 + digit_val(s[6]);
        let d: int = digit_val(s[8]) * 10 + digit_val(s[9]);
        let h: int = digit_val(s[11]) * 10 + digit_val(s[12]);
        let mi: int = digit_val(s[14]) * 10 + digit_val(s[15]);
        let sec: int = digit_val(s[17]) * 10 + digit_val(s[18]);
        if 1 <= mo <= 12 && 1 <= d <= spec_days_in_month(y, mo) && h <= 23 && mi <= 59 && sec
            <= 59 {
            Some(
                Timestamp {
                    year: y as u16,
                    month: mo as u8,
                    day: d as u8,
                    hour: h as u8,
                    minute: mi as u8,
                    second: sec as u8,
                },
            )
        } else {
            None
        }
    } else {
        None
    }
}

/// The digit characters recover the digit they render.
proof fn lemma_digit_roundtrip(d: int)
    requires
        0 <= d <= 9,
    ensures
        is_digit(digit_char(d)),
        digit_val(digit_char(d)) == d,
{
}

/// Reading a two-digit rendering back recovers the number.
proof fn lemma_two_digit_roundtrip(n: int)
    requires
        0 <= n <= 99,
    ensures
        two_digit_seq(n).len() == 2,
        is_digit(two_digit_seq(n)[0]),
        is_digit(two_digit_seq(n)[1]),
        digit_val(two_digit_seq(n)[0]) * 10 + digit_val(two_digit_seq(n)[1]) == n,
{
    lemma_fundamental_div_mod(n, 10);
    lemma_digit_roundtrip(n / 10);
    lemma_digit_roundtrip(n % 10);
}

/// Reading a four-digit rendering back recovers the number.
proof fn lemma_four_digit_roundtrip(n: int)
    requires
        0 <= n <= 9999,
    ensures
        four_digit_seq(n).len() == 4,
        is_digit(four_digit_seq(n)[0]),
        is_digit(four_digit_seq(n)[1]),
        is_digit(four_digit_seq(n)[2]),
        is_digit(four_digit_seq(n)[3]),
        digit_val(four_digit_seq(n)[0]) * 1000 + digit_val(four_digit_seq(n)[1]) * 100 + digit_val(
            four_digit_seq(n)[2],
        ) * 10 + digit_val(four_digit_seq(n)[3]) == n,
{
    lemma_fundamental_div_mod(n, 10);
    lemma_fundamental_div_mod(n / 10, 10);
    lemma_fundamental_div_mod(n / 100, 10);
    lemma_fundamental_div_mod(n / 1000, 10);
    assert((n / 10) / 10 == n / 100) by {
        vstd::arithmetic::div_mod::lemma_div_denominator(n, 10, 10);
    }
    assert((n / 100) / 10 == n / 1000) by {
        vstd::arithmetic::div_mod::lemma_div_denominator(n, 100, 10);
    }
    lemma_digit_roundtrip(n / 1000);
    lemma_digit_roundtrip((n / 100) % 10);
    lemma_digit_roundtrip((n / 10) % 10);
    lemma_digit_roundtrip(n % 10);
}

/// Round trip: reading the rendering of a well-formed timestamp back
/// yields that timestamp.
pub proof fn lemma_timestamp_roundtrip(t: Timestamp)
    requires
        t.well_formed(),
    ensures
        spec_parse_timestamp(spec_format_timestamp(t)) == Some(t),
{
    let s = spec_format_timestamp(t);
    lemma_four_digit_roundtrip(t.year as int);
    lemma_two_digit_roundtrip(t.month as int);
    lemma_two_digit_roundtrip(t.day as int);
    lemma_two_digit_roundtrip(t.hour as int);
    lemma_two_digit_roundtrip(t.minute as int);
    lemma_two_digit_roundtrip(t.second as int);
    assert(s.len() == 20);
    assert(s[0] == four_digit_seq(t.year as int)[0]);
    assert(s[1] == four_digit_seq(t.year as int)[1]);
    assert(s[2] == four_digit_seq(t.year as int)[2]);
    assert(s[3] == four_digit_seq(t.year as int)[3]);
    assert(s[4] == '-');
    assert(s[5] == two_digit_seq(t.month as int)[0]);
    assert(s[6] == two_digit_seq(t.month as int)[1]);
    assert(s[7] == '-');
    assert(s[8] == two_digit_seq(t.day as int)[0]);
    assert(s[9] == two_digit_seq(t.day as int)[1]);
    assert(s[10] == 'T');
    assert(s[11] == two_digit_seq(t.hour as int)[0]);
    assert(s[12] == two_digit_seq(t.hour as int)[1]);
    assert(s[13] == ':');
    assert(s[14] == two_digit_seq(t.minute as int)[0]);
    assert(s[15] == two_digit_seq(t.minute as int)[1]);
    assert(s[16] == ':');
    assert(s[17] == two_digit_seq(t.second as int)[0]);
    assert(s[18] == two_digit_seq(t.second as int)[1]);
    assert(s[19] == 'Z');
}

/// The digit character for `d` (callers keep `d` below ten).
fn digit_to_char(d: u16) -> (c: char)
    requires
        d <= 9,
    ensures
        c == digit_char(d as int),
{
    match d {
        0 => '0',
        1 => '1',
        2 => '2',
        3 => '3',
        4 => '4',
        5 => '5',
        6 => '6',
        7 => '7',
        8 => '8',
        _ => '9',
    }
}

/// The numeric value of a digit character, `None` on any other character.
pub fn char_to_digit(c: char) -> (r: Option<u8>)
    ensures
        r matches Some(d) <==> is_digit(c),
        r matches Some(d) ==> d as int == digit_val(c) && d <= 9,
{
    match c {
        '0' => Some(0),
        '1' => Some(1),
        '2' => Some(2),
        '3' => Some(3),
        '4' => Some(4),
        '5' => Some(5),
        '6' => Some(6),
        '7' => Some(7),
        '8' => Some(8),
        '9' => Some(9),
        _ => None,
    }
}

fn push_two_digits(out: &mut Vec<char>, n: u8)
    requires
        n <= 99,
    ensures
        final(out)@ == old(out)@ + two_digit_seq(n as int),
{
    out.push(digit_to_char((n / 10) as u16));
    out.push(digit_to_char((n % 10) as u16));
}

/// Appends the wire rendering of `t` to `out`.
pub fn push_timestamp(out: &mut Vec<char>, t: &Timestamp)
    requires
        t.well_formed(),
    ensures
        final(out)@ == old(out)@ + spec_format_timestamp(*t),
{
    proof {
        lemma_fundamental_div_mod(t.year as int, 10);
        lemma_fundamental_div_mod(t.year as int / 10, 10);
        lemma_fundamental_div_mod(t.year as int / 100, 10);
        vstd::arithmetic::div_mod::lemma_div_denominator(t.year as int, 10, 10);
        vstd::arithmetic::div_mod::lemma_div_denominator(t.year as int, 100, 10);
    }
    out.push(digit_to_char(t.year / 1000));
    out.push(digit_to_char((t.year / 100) % 10));
    out.push(digit_to_char((t.year / 10) % 10));
    out.push(digit_to_char(t.year % 10));
    out.push('-');
    push_two_digits(out, t.month);
    out.push('-');
    push_two_digits(out, t.day);
    out.push('T');
    push_two_digits(out, t.hour);
    out.push(':');
    push_two_digits(out, t.minute);
    out.push(':');
    push_two_digits(out, t.second);
    out.push('Z');
    assert(out@ =~= old(out)@ + spec_format_timestamp(*t));
}

/// Reads a wire rendering; `Some` exactly on the fixed-width pattern
/// with every field in range.
pub fn parse_timestamp(s: &[char]) -> (r: Option<Timestamp>)
    ensures
        r == spec_parse_timestamp(s@),
{
    if s.len() != 20 {
        return None;
    }
    if !(s[4] == '-' && s[7] == '-' && s[10] == 'T' && s[13] == ':' && s[16] == ':' && s[19]
        == 'Z') {
        return None;
    }
    let d0 = char_to_digit(s[0]);
    let d1 = char_to_digit(s[1]);
    let d2 = char_to_digit(s[2]);
    let d3 = char_to_digit(s[3]);
    let mo0 = char_to_digit(s[5]);
    let mo1 = char_to_digit(s[6]);
    let da0 = char_to_digit(s[8]);
    let da1 = char_to_digit(s[9]);
    let h0 = char_to_digit(s[11]);
    let h1 = char_to_digit(s[12]);
    let mi0 = char_to_digit(s[14]);
    let mi1 = char_to_digit(s[15]);
    let se0 = char_to_digit(s[17]);
    let se1 = char_to_digit(s[18]);
    match (d0, d1, d2, d3, mo0, mo1, da0, da1, h0, h1, mi0, mi1, se0, se1) {
        (
            Some(d0),
            Some(d1),
            Some(d2),
            Some(d3),
            Some(mo0),
            Some(mo1),
            Some(da0),
            Some(da1),
            Some(h0),
            Some(h1),
            Some(mi0),
            Some(mi1),
            Some(se0),
            Some(se1),
        ) => {
            let y: u16 = d0 as u16 * 1000 + d1 as u16 * 100 + d2 as u16 * 10 + d3 as u16;
            let mo: u8 = mo0 * 10 + mo1;
            let d: u8 = da0 * 10 + da1;
            let h: u8 = h0 * 10 + h1;
            let mi: u8 = mi0 * 10 + mi1;
            let sec: u8 = se0 * 10 + se1;
            if 1 <= mo && mo <= 12 && 1 <= d && d <= days_in_month(y, mo) && h <= 23 && mi
                <= 59 && sec <= 59 {
                Some(Timestamp { year: y, month: mo, day: d, hour: h, minute: mi, second: sec })
            } else {
                None
            }
        },
        _ => None,
    }
}

} // verus!
