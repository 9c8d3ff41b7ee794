//! Wire timestamps in the fixed format `YYYY-MM-DDTHH:MM:SS+HH:MM` (the sign
//! may also be `-`). The server sends and accepts every date field in this
//! shape; the library keeps the parsed fields, including the offset, exactly
//! as they stood on the wire.

use vstd::prelude::*;
use vstd::string::StrSliceExecFns;
use vstd::string::StringExecFns;

verus! {

/// A wire timestamp, field by field. The offset is kept as its sign and its
/// two two-digit components so that formatting restores the exact input text.
#[derive(PartialEq, Eq, Structural, Clone, Copy, Debug)]
pub struct Timestamp {
    pub year: u32,
    pub month: u32,
    pub day: u32,
    pub hour: u32,
    pub minute: u32,
    pub second: u32,
    pub offset_negative: bool,
    pub offset_hours: u32,
    pub offset_minutes: u32,
}

/// Gregorian leap-year rule.
pub open spec fn leap_year(y: int) -> bool {
    y % 4 == 0 && (y % 100 != 0 || y % 400 == 0)
}

/// Number of days of month `m` of year `y`.
pub open spec fn days_in_month(y: int, m: int) -> int {
    if m == 2 {
        if leap_year(y) {
            29
        } else {
            28
        }
    } else if m == 4 || m == 6 || m == 9 || m == 11 {
        30
    } else {
        31
    }
}

impl Timestamp {
    /// Every field within the range the wire format can carry, and the date a
    /// real calendar day.
    pub open spec fn wf(self) -> bool {
        &&& self.year <= 9999
        &&& 1 <= self.month <= 12
        &&& 1 <= self.day <= days_in_month(self.year as int, self.month as int)
        &&& self.hour <= 23
        &&& self.minute <= 59
        &&& self.second <= 59
        &&& self.offset_hours <= 23
        &&& self.offset_minutes <= 59
    }

    /// Runtime check of [`Timestamp::wf`].
    pub fn is_wf(&self) -> (r: bool)
        ensures
            r == self.wf(),
    {
        let month_ok = 1 <= self.month && self.month <= 12;
        self.year <= 9999 && month_ok && (month_ok && valid_day(self.year, self.month, self.day))
            && self.hour <= 23 && self.minute <= 59 && self.second <= 59 && self.offset_hours <= 23
            && self.offset_minutes <= 59
    }
}

/// Whether `c` is a decimal digit.
pub open spec fn is_digit(c: char) -> bool {
    48 <= c as int <= 57
}

/// Value of the decimal digit `c`.
pub open spec fn digit_val(c: char) -> int {
    c as int - 48
}

/// The decimal digit character of value `d`.
pub open spec fn digit_char(d: int) -> char {
    (48 + d) as char
}

/// The two decimal digits of `v`, highest first.
pub open spec fn two_digit_chars(v: int) -> Seq<char> {
    seq![digit_char(v / 10), digit_char(v % 10)]
}

/// The four decimal digits of `v`, highest first.
pub open spec fn four_digit_chars(v: int) -> Seq<char> {
    seq![
        digit_char(v / 1000),
        digit_char((v / 100) % 10),
        digit_char((v / 10) % 10),
        digit_char(v % 10),
    ]
}

/// The text of `t` in the wire format.
pub open spec fn spec_format_timestamp(t: Timestamp) -> Seq<char> {
    four_digit_chars(t.year as int) + seq!['-'] + two_digit_chars(t.month as int) + seq!['-']
        + two_digit_chars(t.day as int) + seq!['T'] + two_digit_chars(t.hour as int) + seq![':']
        + two_digit_chars(t.minute as int) + seq![':'] + two_digit_chars(t.second as int) + seq![
        if t.offset_negative {
            '-'
        } else {
            '+'
        },
    ] + two_digit_chars(t.offset_hours as int) + seq![':'] + two_digit_chars(
        t.offset_minutes as int,
    )
}

/// Whether `s` has the punctuation and digit positions of the wire format.
pub open spec fn timestamp_shape_ok(s: Seq<char>) -> bool {
    &&& s.len() == 25
    &&& is_digit(s[0]) && is_digit(s[1]) && is_digit(s[2]) && is_digit(s[3])
    &&& s[4] == '-'
    &&& is_digit(s[5]) && is_digit(s[6])
    &&& s[7] == '-'
    &&& is_digit(s[8]) && is_digit(s[9])
    &&& s[10] == 'T'
    &&& is_digit(s[11]) && is_digit(s[12])
    &&& s[13] == ':'
    &&& is_digit(s[14]) && is_digit(s[15])
    &&& s[16] == ':'
    &&& is_digit(s[17]) && is_digit(s[18])
    &&& (s[19] == '+' || s[19] == '-')
    &&& is_digit(s[20]) && is_digit(s[21])
    &&& s[22] == ':'
    &&& is_digit(s[23]) && is_digit(s[24])
}

/// Value of the two digits of `s` at `i` and `i + 1`.
pub open spec fn two_digit_val(s: Seq<char>, i: int) -> int {
    10 * digit_val(s[i]) + digit_val(s[i + 1])
}

/// The timestamp whose fields stand in a well-shaped `s`.
pub open spec fn timestamp_fields_of(s: Seq<char>) -> Timestamp {
    Timestamp {
        year: (1000 * digit_val(s[0]) + 100 * digit_val(s[1]) + 10 * digit_val(s[2]) + digit_val(
            s[3],
        )) as u32,
        month: two_digit_val(s, 5) as u32,
        day: two_digit_val(s, 8) as u32,
        hour: two_digit_val(s, 11) as u32,
        minute: two_digit_val(s, 14) as u32,
        second: two_digit_val(s, 17) as u32,
        offset_negative: s[19] == '-',
        offset_hours: two_digit_val(s, 20) as u32,
        offset_minutes: two_digit_val(s, 23) as u32,
    }
}

/// The timestamp encoded by `s`: the fields of a well-shaped text, provided
/// they make a well-formed timestamp.
pub open spec fn spec_parse_timestamp(s: Seq<char>) -> Option<Timestamp> {
    if timestamp_shape_ok(s) && timestamp_fields_of(s).wf() {
        Some(timestamp_fields_of(s))
    } else {
        None
    }
}

/// The digit value of `c`, when `c` is a decimal digit.
fn digit_of(c: char) -> (r: Option<u32>)
    ensures
        r is Some <==> is_digit(c),
        r is Some ==> r.unwrap() == digit_val(c),
{
    let v = c as u32;
    if 48 <= v && v <= 57 {
        Some(v - 48)
    } else {
        None
    }
}

/// The value of the two digits of `s` at `i` and `i + 1`, when both are
/// digits.
fn two_digits_at(s: &str, i: usize) -> (r: Option<u32>)
    requires
        i + 1 < s@.len(),
        s@.len() <= usize::MAX,
    ensures
        r is Some <==> is_digit(s@[i as int]) && is_digit(s@[i + 1]),
        r is Some ==> r.unwrap() == two_digit_val(s@, i as int) && r.unwrap() <= 99,
{
    let hi = digit_of(s.get_char(i));
    let lo = digit_of(s.get_char(i + 1));
    match (hi, lo) {
        (Some(h), Some(l)) => Some(10 * h + l),
        _ => None,
    }
}

/// Whether `month`/`day` name a real calendar day of `year`.
fn valid_day(year: u32, month: u32, day: u32) -> (r: bool)
    requires
        1 <= month <= 12,
    ensures
        r == (1 <= day <= days_in_month(year as int, month as int)),
{
    let dim: u32 = if month == 2 {
        if year % 4 == 0 && (year % 100 != 0 || year % 400 == 0) {
            29
        } else {
            28
        }
    } else if month == 4 || month == 6 || month == 9 || month == 11 {
        30
    } else {
        31
    };
    1 <= day && day <= dim
}

/// Parses a wire timestamp; returns `None` on any text that is not exactly a
/// well-formed `YYYY-MM-DDTHH:MM:SS+HH:MM` (or `-HH:MM`) timestamp.
pub fn parse_timestamp(s: &str) -> (r: Option<Timestamp>)
    ensures
        r == spec_parse_timestamp(s@),
{
    if s.unicode_len() != 25 {
        return None;
    }
    if !(s.get_char(4) == '-' && s.get_char(7) == '-' && s.get_char(10) == 'T' && s.get_char(13)
        == ':' && s.get_char(16) == ':' && s.get_char(22) == ':') {
        return None;
    }
    let sign = s.get_char(19);
    if !(sign == '+' || sign == '-') {
        return None;
    }
    let y_hi = two_digits_at(s, 0);
    let y_lo = two_digits_at(s, 2);
    let month = two_digits_at(s, 5);
    let day = two_digits_at(s, 8);
    let hour = two_digits_at(s, 11);
    let minute = two_digits_at(s, 14);
    let second = two_digits_at(s, 17);
    let off_h = two_digits_at(s, 20);
    let off_m = two_digits_at(s, 23);
    match (y_hi, y_lo, month, day, hour, minute, second, off_h, off_m) {
        (
            Some(yh),
            Some(yl),
            Some(mo),
            Some(da),
            Some(ho),
            Some(mi),
            Some(se),
            Some(oh),
            Some(om),
        ) => {
            let t = Timestamp {
                year: 100 * yh + yl,
                month: mo,
                day: da,
                hour: ho,
                minute: mi,
                second: se,
                offset_negative: sign == '-',
                offset_hours: oh,
                offset_minutes: om,
            };
            if !(1 <= mo && mo <= 12) {
                return None;
            }
            if !valid_day(t.year, mo, da) {
                return None;
            }
            if !(ho <= 23 && mi <= 59 && se <= 59 && oh <= 23 && om <= 59) {
                return None;
            }
            assert(t == timestamp_fields_of(s@));
            Some(t)
        },
        _ => None,
    }
}

/// The decimal digit text of `d`.
fn digit_str(d: u32) -> (r: &'static str)
    requires
        d <= 9,
    ensures
        r@ == seq![digit_char(d as int)],
{
    proof {
        reveal_strlit("0");
        reveal_strlit("1");
        reveal_strlit("2");
        reveal_strlit("3");
        reveal_strlit("4");
        reveal_strlit("5");
        reveal_strlit("6");
        reveal_strlit("7");
        reveal_strlit("8");
        reveal_strlit("9");
    }
    let r = match d {
        0 => "0",
        1 => "1",
        2 => "2",
        3 => "3",
        4 => "4",
        5 => "5",
        6 => "6",
        7 => "7",
        8 => "8",
        _ => "9",
    };
    proof {
        assert(r@ =~= seq![digit_char(d as int)]);
    }
    r
}

/// Appends the two decimal digits of `v` to `out`.
fn push_two_digits(out: &mut String, v: u32)
    requires
        v <= 99,
    ensures
        final(out)@ == old(out)@ + two_digit_chars(v as int),
{
    out.append(digit_str(v / 10));
    out.append(digit_str(v % 10));
    proof {
        assert(out@ =~= old(out)@ + two_digit_chars(v as int));
    }
}

/// Formats `t` in the wire format.
pub fn format_timestamp(t: &Timestamp) -> (r: String)
    requires
        t.wf(),
    ensures
        r@ == spec_format_timestamp(*t),
{
    proof {
        reveal_strlit("-");
        reveal_strlit("T");
        reveal_strlit(":");
        reveal_strlit("+");
    }
    let mut out = String::new();
    push_two_digits(&mut out, t.year / 100);
    push_two_digits(&mut out, t.year % 100);
    proof {
        assert(out@ =~= four_digit_chars(t.year as int)) by {
            assert(t.year as int / 1000 == (t.year as int / 100) / 10);
            assert((t.year as int / 100) % 10 == (t.year as int / 100) % 10);
            assert((t.year as int / 10) % 10 == (t.year as int % 100) / 10) by (nonlinear_arith)
                requires
                    0 <= t.year as int <= 9999,
            ;
            assert(t.year as int % 10 == (t.year as int % 100) % 10) by (nonlinear_arith)
                requires
                    0 <= t.year as int,
            ;
        }
    }
    out.append("-");
    push_two_digits(&mut out, t.month);
    out.append("-");
    push_two_digits(&mut out, t.day);
    out.append("T");
    push_two_digits(&mut out, t.hour);
    out.append(":");
    push_two_digits(&mut out, t.minute);
    out.append(":");
    push_two_digits(&mut out, t.second);
    if t.offset_negative {
        out.append("-");
    } else {
        out.append("+");
    }
    push_two_digits(&mut out, t.offset_hours);
    out.append(":");
    push_two_digits(&mut out, t.offset_minutes);
    proof {
        assert(out@ =~= spec_format_timestamp(*t));
    }
    out
}

/// Digit helper: a digit character carries its value back.
proof fn lemma_digit_char_val(d: int)
    requires
        0 <= d <= 9,
    ensures
        is_digit(digit_char(d)),
        digit_val(digit_char(d)) == d,
{
    assert(digit_char(d) as int == 48 + d);
}

/// Formatting a well-formed timestamp and parsing the text back restores the
/// timestamp exactly.
pub proof fn lemma_timestamp_round_trip(t: Timestamp)
    requires
        t.wf(),
    ensures
        spec_parse_timestamp(spec_format_timestamp(t)) == Some(t),
{
    let s = spec_format_timestamp(t);
    assert forall|d: int| 0 <= d <= 9 implies is_digit(digit_char(d)) && digit_val(digit_char(d))
        == d by {
        lemma_digit_char_val(d);
    }
    assert(s.len() == 25);
    let y = t.year as int;
    assert(0 <= y / 1000 <= 9 && 0 <= (y / 100) % 10 <= 9 && 0 <= (y / 10) % 10 <= 9 && 0 <= y % 10
        <= 9);
    assert(s[0] == digit_char(y / 1000) && s[1] == digit_char((y / 100) % 10) && s[2] == digit_char(
        (y / 10) % 10,
    ) && s[3] == digit_char(y % 10));
    assert(timestamp_shape_ok(s));
    let f = timestamp_fields_of(s);
    assert(1000 * (y / 1000) + 100 * ((y / 100) % 10) + 10 * ((y / 10) % 10) + y % 10 == y)
        by (nonlinear_arith)
        requires
            0 <= y <= 9999,
    ;
    assert(f.year == t.year);
    lemma_two_digit_round(t.month as int);
    lemma_two_digit_round(t.day as int);
    lemma_two_digit_round(t.hour as int);
    lemma_two_digit_round(t.minute as int);
    lemma_two_digit_round(t.second as int);
    lemma_two_digit_round(t.offset_hours as int);
    lemma_two_digit_round(t.offset_minutes as int);
    assert(f.month == t.month && f.day == t.day && f.hour == t.hour && f.minute == t.minute
        && f.second == t.second && f.offset_hours == t.offset_hours && f.offset_minutes
        == t.offset_minutes);
    assert(s[19] == '-' <==> t.offset_negative) by {
        assert('+' as int == 43 && '-' as int == 45);
    }
    assert(f == t);
}

/// The two-digit text of a value below one hundred carries the value back.
proof fn lemma_two_digit_round(v: int)
    requires
        0 <= v <= 99,
    ensures
        10 * digit_val(digit_char(v / 10)) + digit_val(digit_char(v % 10)) == v,
{
    lemma_digit_char_val(v / 10);
    lemma_digit_char_val(v % 10);
}

/// Digit helper: a digit character is restored from its value.
proof fn lemma_digit_char_of_val(c: char)
    requires
        is_digit(c),
    ensures
        digit_char(digit_val(c)) == c,
{
}

/// Two digits are restored from their two-digit value.
proof fn lemma_two_digit_chars_of_val(s: Seq<char>, i: int)
    requires
        0 <= i && i + 1 < s.len(),
        is_digit(s[i]),
        is_digit(s[i + 1]),
    ensures
        two_digit_chars(two_digit_val(s, i)) == seq![s[i], s[i + 1]],
{
    let v = two_digit_val(s, i);
    assert(v / 10 == digit_val(s[i]) && v % 10 == digit_val(s[i + 1])) by (nonlinear_arith)
        requires
            v == 10 * digit_val(s[i]) + digit_val(s[i + 1]),
            0 <= digit_val(s[i]) <= 9,
            0 <= digit_val(s[i + 1]) <= 9,
    ;
    lemma_digit_char_of_val(s[i]);
    lemma_digit_char_of_val(s[i + 1]);
    assert(two_digit_chars(v) =~= seq![s[i], s[i + 1]]);
}

/// Parsing a text to a timestamp and formatting that timestamp restores the
/// exact text: nothing of the wire form is lost in the parsed fields.
pub proof fn lemma_timestamp_text_round_trip(s: Seq<char>, t: Timestamp)
    requires
        spec_parse_timestamp(s) == Some(t),
    ensures
        spec_format_timestamp(t) == s,
{
    assert(timestamp_shape_ok(s) && t == timestamp_fields_of(s));
    let y = 1000 * digit_val(s[0]) + 100 * digit_val(s[1]) + 10 * digit_val(s[2]) + digit_val(
        s[3],
    );
    assert(y / 1000 == digit_val(s[0]) && (y / 100) % 10 == digit_val(s[1]) && (y / 10) % 10
        == digit_val(s[2]) && y % 10 == digit_val(s[3])) by (nonlinear_arith)
        requires
            y == 1000 * digit_val(s[0]) + 100 * digit_val(s[1]) + 10 * digit_val(s[2]) + digit_val(
                s[3],
            ),
            0 <= digit_val(s[0]) <= 9,
            0 <= digit_val(s[1]) <= 9,
            0 <= digit_val(s[2]) <= 9,
            0 <= digit_val(s[3]) <= 9,
    ;
    lemma_digit_char_of_val(s[0]);
    lemma_digit_char_of_val(s[1]);
    lemma_digit_char_of_val(s[2]);
    lemma_digit_char_of_val(s[3]);
    assert(four_digit_chars(t.year as int) =~= seq![s[0], s[1], s[2], s[3]]);
    lemma_two_digit_chars_of_val(s, 5);
    lemma_two_digit_chars_of_val(s, 8);
    lemma_two_digit_chars_of_val(s, 11);
    lemma_two_digit_chars_of_val(s, 14);
    lemma_two_digit_chars_of_val(s, 17);
    lemma_two_digit_chars_of_val(s, 20);
    lemma_two_digit_chars_of_val(s, 23);
    assert(seq![
        if t.offset_negative {
            '-'
        } else {
            '+'
        },
    ] =~= seq![s[19]]) by {
        assert('+' as int == 43 && '-' as int == 45);
    }
    assert(spec_format_timestamp(t) =~= s);
}

} // verus!
