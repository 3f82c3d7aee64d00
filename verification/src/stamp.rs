//! Minute-precision calendar stamps and their text form `YYYY-MM-DD HH:MM`.

use vstd::prelude::*;

verus! {

/// Number of characters of a stamp's text.
pub const STAMP_TEXT_LEN: usize = 16;

/// Leap years of the proleptic Gregorian calendar.
pub open spec fn is_leap_year(year: int) -> bool {
    year % 4 == 0 && (year % 100 != 0 || year % 400 == 0)
}

/// Number of days of `month` (1 to 12) in `year`.
pub open spec fn days_in_month(year: int, month: int) -> int {
    if month == 2 {
        if is_leap_year(year) { 29 } else { 28 }
    } else if month == 4 || month == 6 || month == 9 || month == 11 {
        30
    } else {
        31
    }
}

/// Whether the five numbers name a minute of the calendar in the years 0 to 9999.
pub open spec fn is_calendar_minute(year: int, month: int, day: int, hour: int, minute: int) -> bool {
    &&& 0 <= year <= 9999
    &&& 1 <= month <= 12
    &&& 1 <= day <= days_in_month(year, month)
    &&& 0 <= hour <= 23
    &&& 0 <= minute <= 59
}

/// A calendar date and time of day without seconds and without a time zone.
#[derive(Clone, Copy, Debug, PartialEq, Eq, Structural)]
pub struct MinuteStamp {
    pub year: u16,
    pub month: u8,
    pub day: u8,
    pub hour: u8,
    pub minute: u8,
}

impl MinuteStamp {
    /// The stamp names a minute that exists in the calendar.
    pub open spec fn wf(self) -> bool {
        is_calendar_minute(
            self.year as int,
            self.month as int,
            self.day as int,
            self.hour as int,
            self.minute as int,
        )
    }

    /// The stamp read as one number in base 256, most significant field first.
    /// Two stamps compare as their ordinals do, and equal ordinals mean equal stamps.
    pub open spec fn ordinal(self) -> int {
        (((self.year as int * 256 + self.month as int) * 256 + self.day as int) * 256
            + self.hour as int) * 256 + self.minute as int
    }

    /// `self` is strictly earlier than `other`.
    pub open spec fn precedes(self, other: MinuteStamp) -> bool {
        self.ordinal() < other.ordinal()
    }

    /// The ordinal as a machine number.
    pub fn sort_key(&self) -> (k: u64)
        ensures
            k as int == self.ordinal(),
    {
        let y: u64 = self.year as u64;
        let m: u64 = self.month as u64;
        let d: u64 = self.day as u64;
        let h: u64 = self.hour as u64;
        let mi: u64 = self.minute as u64;
        (((y * 256 + m) * 256 + d) * 256 + h) * 256 + mi
    }

    /// Whether `self` is strictly earlier than `other`.
    pub fn is_before(&self, other: &MinuteStamp) -> (b: bool)
        ensures
            b == self.precedes(*other),
    {
        self.sort_key() < other.sort_key()
    }
}

/// The ten ASCII digits.
pub open spec fn is_digit(c: char) -> bool {
    '0' <= c <= '9'
}

/// The number that the digit `c` stands for.
pub open spec fn digit_value(c: char) -> int {
    c as int - '0' as int
}

/// The digit that stands for `d`, for `d` from 0 to 9.
pub open spec fn digit_char(d: int) -> char {
    (d + '0' as int) as char
}

/// The number written by the two digits of `s` at `at` and `at + 1`.
pub open spec fn two_digits(s: Seq<char>, at: int) -> int {
    digit_value(s[at]) * 10 + digit_value(s[at + 1])
}

/// The number written by the four digits of `s` from `at` to `at + 3`.
pub open spec fn four_digits(s: Seq<char>, at: int) -> int {
    two_digits(s, at) * 100 + two_digits(s, at + 2)
}

/// `s` has the shape `dddd-dd-dd dd:dd`, with an ASCII digit for every `d`.
pub open spec fn has_stamp_shape(s: Seq<char>) -> bool {
    &&& s.len() == 16
    &&& is_digit(s[0]) && is_digit(s[1]) && is_digit(s[2]) && is_digit(s[3])
    &&& s[4] == '-'
    &&& is_digit(s[5]) && is_digit(s[6])
    &&& s[7] == '-'
    &&& is_digit(s[8]) && is_digit(s[9])
    &&& s[10] == ' '
    &&& is_digit(s[11]) && is_digit(s[12])
    &&& s[13] == ':'
    &&& is_digit(s[14]) && is_digit(s[15])
}

/// The stamp that a text of the pattern `YYYY-MM-DD HH:MM` names: the text
/// must have the shape and its numbers must name a minute of the calendar.
pub open spec fn stamp_of_text(s: Seq<char>) -> Option<MinuteStamp> {
    if has_stamp_shape(s) && is_calendar_minute(
        four_digits(s, 0),
        two_digits(s, 5),
        two_digits(s, 8),
        two_digits(s, 11),
        two_digits(s, 14),
    ) {
        Some(
            MinuteStamp {
                year: four_digits(s, 0) as u16,
                month: two_digits(s, 5) as u8,
                day: two_digits(s, 8) as u8,
                hour: two_digits(s, 11) as u8,
                minute: two_digits(s, 14) as u8,
            },
        )
    } else {
        None
    }
}

/// The text `YYYY-MM-DD HH:MM` of a stamp, every number padded with zeros.
pub open spec fn stamp_text(t: MinuteStamp) -> Seq<char> {
    seq![
        digit_char(t.year as int / 1000),
        digit_char(t.year as int / 100 % 10),
        digit_char(t.year as int / 10 % 10),
        digit_char(t.year as int % 10),
        '-',
        digit_char(t.month as int / 10),
        digit_char(t.month as int % 10),
        '-',
        digit_char(t.day as int / 10),
        digit_char(t.day as int % 10),
        ' ',
        digit_char(t.hour as int / 10),
        digit_char(t.hour as int % 10),
        ':',
        digit_char(t.minute as int / 10),
        digit_char(t.minute as int % 10),
    ]
}

/// Whether `c` is one of the ten ASCII digits.
pub fn is_digit_char(c: char) -> (b: bool)
    ensures
        b == is_digit(c),
{
    '0' <= c && c <= '9'
}

/// Whether `text` has the shape `dddd-dd-dd dd:dd`.
pub fn text_has_stamp_shape(text: &str) -> (b: bool)
    ensures
        b == has_stamp_shape(text@),
{
    if text.unicode_len() != STAMP_TEXT_LEN {
        return false;
    }
    is_digit_char(text.get_char(0)) && is_digit_char(text.get_char(1)) && is_digit_char(
        text.get_char(2),
    ) && is_digit_char(text.get_char(3)) && text.get_char(4) == '-' && is_digit_char(
        text.get_char(5),
    ) && is_digit_char(text.get_char(6)) && text.get_char(7) == '-' && is_digit_char(
        text.get_char(8),
    ) && is_digit_char(text.get_char(9)) && text.get_char(10) == ' ' && is_digit_char(
        text.get_char(11),
    ) && is_digit_char(text.get_char(12)) && text.get_char(13) == ':' && is_digit_char(
        text.get_char(14),
    ) && is_digit_char(text.get_char(15))
}

/// Whether `year` is a leap year.
pub fn leap_year(year: u16) -> (b: bool)
    ensures
        b == is_leap_year(year as int),
{
    year % 4 == 0 && (year % 100 != 0 || year % 400 == 0)
}

/// The number of days of `month` in `year`.
pub fn month_length(year: u16, month: u8) -> (n: u8)
    ensures
        n as int == days_in_month(year as int, month as int),
{
    if month == 2 {
        if leap_year(year) { 29 } else { 28 }
    } else if month == 4 || month == 6 || month == 9 || month == 11 {
        30
    } else {
        31
    }
}

impl MinuteStamp {
    /// The stamp of the five numbers, if they name a minute of the calendar
    /// in the years 0 to 9999.
    pub fn new(year: i32, month: u32, day: u32, hour: u32, minute: u32) -> (r: Option<MinuteStamp>)
        ensures
            r is Some <==> is_calendar_minute(
                year as int,
                month as int,
                day as int,
                hour as int,
                minute as int,
            ),
            r matches Some(t) ==> t.wf() && t.year == year && t.month == month && t.day == day
                && t.hour == hour && t.minute == minute,
    {
        if year < 0 || year > 9999 || month < 1 || month > 12 || hour > 23 || minute > 59 {
            return None;
        }
        let y: u16 = year as u16;
        let m: u8 = month as u8;
        if day < 1 || day > month_length(y, m) as u32 {
            return None;
        }
        Some(MinuteStamp { year: y, month: m, day: day as u8, hour: hour as u8, minute: minute as u8 })
    }

    /// Whether the stamp names a minute that exists in the calendar.
    pub fn is_valid(&self) -> (b: bool)
        ensures
            b == self.wf(),
    {
        self.year <= 9999 && 1 <= self.month && self.month <= 12 && 1 <= self.day
            && self.day <= month_length(self.year, self.month) && self.hour <= 23
            && self.minute <= 59
    }
}

/// The order of stamps is the order of their fields, read from the year down
/// to the minute.
pub proof fn lemma_precedes_is_lexicographic(a: MinuteStamp, b: MinuteStamp)
    ensures
        a.precedes(b) <==> {
            ||| a.year < b.year
            ||| a.year == b.year && a.month < b.month
            ||| a.year == b.year && a.month == b.month && a.day < b.day
            ||| a.year == b.year && a.month == b.month && a.day == b.day && a.hour < b.hour
            ||| a.year == b.year && a.month == b.month && a.day == b.day && a.hour == b.hour
                && a.minute < b.minute
        },
        a.ordinal() == b.ordinal() <==> a == b,
{
}

/// A text that has not the shape of the pattern names no stamp, and neither
/// does one whose numbers name no minute of the calendar.
pub proof fn lemma_only_the_pattern_names_a_stamp(s: Seq<char>)
    ensures
        stamp_of_text(s) is Some <==> has_stamp_shape(s) && is_calendar_minute(
            four_digits(s, 0),
            two_digits(s, 5),
            two_digits(s, 8),
            two_digits(s, 11),
            two_digits(s, 14),
        ),
        stamp_of_text(s) matches Some(t) ==> t.wf() && s.len() == STAMP_TEXT_LEN,
{
}

/// A digit read and written again is the same character.
pub proof fn lemma_char_round_trip(c: char)
    requires
        is_digit(c),
    ensures
        0 <= digit_value(c) <= 9,
        digit_char(digit_value(c)) == c,
{
}

/// The two digits written for a number below 100 read as that number.
proof fn lemma_write_two(n: int)
    requires
        0 <= n <= 99,
    ensures
        is_digit(digit_char(n / 10)),
        is_digit(digit_char(n % 10)),
        digit_value(digit_char(n / 10)) * 10 + digit_value(digit_char(n % 10)) == n,
{
}

/// The four digits of a number below 10000 are digits, and the number is
/// their sum of thousands, hundreds, tens and units.
proof fn lemma_four_digits_of(n: int)
    requires
        0 <= n <= 9999,
    ensures
        0 <= n / 1000 <= 9,
        0 <= n / 100 % 10 <= 9,
        0 <= n / 10 % 10 <= 9,
        0 <= n % 10 <= 9,
        (n / 1000) * 1000 + (n / 100 % 10) * 100 + (n / 10 % 10) * 10 + n % 10 == n,
{
    let m: u16 = n as u16;
    assert(m <= 9999 ==> m / 1000 <= 9 && m / 100 % 10 <= 9 && m / 10 % 10 <= 9 && m % 10 <= 9 && (
    m / 1000) * 1000 + (m / 100 % 10) * 100 + (m / 10 % 10) * 10 + m % 10 == m) by (bit_vector);
}

/// The four digits written for a number below 10000 read as that number.
proof fn lemma_write_four(n: int)
    requires
        0 <= n <= 9999,
    ensures
        is_digit(digit_char(n / 1000)),
        is_digit(digit_char(n / 100 % 10)),
        is_digit(digit_char(n / 10 % 10)),
        is_digit(digit_char(n % 10)),
        (digit_value(digit_char(n / 1000)) * 10 + digit_value(digit_char(n / 100 % 10))) * 100 + (
        digit_value(digit_char(n / 10 % 10)) * 10 + digit_value(digit_char(n % 10))) == n,
{
    lemma_four_digits_of(n);
    let a = n / 1000;
    let b = n / 100 % 10;
    let c = n / 10 % 10;
    let d = n % 10;
    assert(digit_value(digit_char(a)) == a);
    assert(digit_value(digit_char(b)) == b);
    assert(digit_value(digit_char(c)) == c);
    assert(digit_value(digit_char(d)) == d);
}

/// Reading the text of a stamp gives the stamp back.
pub proof fn lemma_text_names_its_stamp(t: MinuteStamp)
    requires
        t.wf(),
    ensures
        has_stamp_shape(stamp_text(t)),
        stamp_of_text(stamp_text(t)) == Some(t),
{
    let s = stamp_text(t);
    assert(s.len() == 16);
    lemma_write_four(t.year as int);
    assert(four_digits(s, 0) == t.year as int);
    lemma_write_two(t.month as int);
    assert(two_digits(s, 5) == t.month as int);
    lemma_write_two(t.day as int);
    assert(two_digits(s, 8) == t.day as int);
    lemma_write_two(t.hour as int);
    assert(two_digits(s, 11) == t.hour as int);
    lemma_write_two(t.minute as int);
    assert(two_digits(s, 14) == t.minute as int);
    assert(has_stamp_shape(s));
}

/// The digits of a number below 100 are its quotient and remainder by ten.
proof fn lemma_split_two(a: int, b: int)
    requires
        0 <= a <= 9,
        0 <= b <= 9,
    ensures
        (a * 10 + b) / 10 == a,
        (a * 10 + b) % 10 == b,
{
}

/// The digits of a number below 10000, from the thousands down to the units.
proof fn lemma_split_four(a: int, b: int, c: int, d: int)
    requires
        0 <= a <= 9,
        0 <= b <= 9,
        0 <= c <= 9,
        0 <= d <= 9,
    ensures
        ((a * 10 + b) * 100 + (c * 10 + d)) / 1000 == a,
        ((a * 10 + b) * 100 + (c * 10 + d)) / 100 % 10 == b,
        ((a * 10 + b) * 100 + (c * 10 + d)) / 10 % 10 == c,
        ((a * 10 + b) * 100 + (c * 10 + d)) % 10 == d,
{
    let x: u16 = a as u16;
    let y: u16 = b as u16;
    let z: u16 = c as u16;
    let w: u16 = d as u16;
    assert(x <= 9 && y <= 9 && z <= 9 && w <= 9 ==> ((x * 10 + y) * 100 + (z * 10 + w)) / 1000 == x
        && ((x * 10 + y) * 100 + (z * 10 + w)) / 100 % 10 == y && ((x * 10 + y) * 100 + (z * 10
        + w)) / 10 % 10 == z && ((x * 10 + y) * 100 + (z * 10 + w)) % 10 == w) by (bit_vector);
    assert((x * 10 + y) * 100 + (z * 10 + w) == (a * 10 + b) * 100 + (c * 10 + d));
}

/// Writing the stamp that a text names gives the text back: a text of the
/// pattern is the only text of its stamp.
pub proof fn lemma_stamp_writes_its_text(s: Seq<char>)
    requires
        stamp_of_text(s) is Some,
    ensures
        stamp_text(stamp_of_text(s)->Some_0) == s,
{
    let t = stamp_of_text(s)->Some_0;
    let w = stamp_text(t);
    lemma_char_round_trip(s[0]);
    lemma_char_round_trip(s[1]);
    lemma_char_round_trip(s[2]);
    lemma_char_round_trip(s[3]);
    lemma_split_four(digit_value(s[0]), digit_value(s[1]), digit_value(s[2]), digit_value(s[3]));
    assert(w[0] == s[0] && w[1] == s[1] && w[2] == s[2] && w[3] == s[3]);
    lemma_char_round_trip(s[5]);
    lemma_char_round_trip(s[6]);
    lemma_split_two(digit_value(s[5]), digit_value(s[6]));
    assert(w[5] == s[5] && w[6] == s[6]);
    lemma_char_round_trip(s[8]);
    lemma_char_round_trip(s[9]);
    lemma_split_two(digit_value(s[8]), digit_value(s[9]));
    assert(w[8] == s[8] && w[9] == s[9]);
    lemma_char_round_trip(s[11]);
    lemma_char_round_trip(s[12]);
    lemma_split_two(digit_value(s[11]), digit_value(s[12]));
    assert(w[11] == s[11] && w[12] == s[12]);
    lemma_char_round_trip(s[14]);
    lemma_char_round_trip(s[15]);
    lemma_split_two(digit_value(s[14]), digit_value(s[15]));
    assert(w[14] == s[14] && w[15] == s[15]);
    assert(w =~= s);
}

} // verus!
