//! Local date and time, as a client sets and reads it.

use chrono::{Datelike, Timelike};
use vstd::prelude::*;

use crate::text;
use crate::text::{push_decimal, push_padded};

verus! {

broadcast use vstd::string::group_string_axioms;

/// A date and time with its offset from UTC.
#[derive(Clone, Copy, Debug, PartialEq, Eq, Structural)]
pub struct LocalDateTime {
    /// Calendar year.
    pub year: i32,
    /// Day of the year, from 0.
    pub ordinal0: u32,
    /// Month, from 1.
    pub month: u32,
    /// Day of the month, from 1.
    pub day: u32,
    /// Hour of the day.
    pub hour: u32,
    /// Minute of the hour.
    pub minute: u32,
    /// Second of the minute.
    pub second: u32,
    /// Nanosecond of the second; a second and more within a leap second.
    pub nanosecond: u32,
    /// Seconds east of UTC.
    pub offset_seconds: i32,
    /// Seconds since 1970 (UTC).
    pub unix_seconds: i64,
}

impl LocalDateTime {
    /// Every field lies in the range that the calendar gives it.
    pub open spec fn in_range(self) -> bool {
        &&& -262_143 <= self.year <= 262_142
        &&& self.ordinal0 <= 365
        &&& 1 <= self.month <= 12
        &&& 1 <= self.day <= 31
        &&& self.hour <= 23
        &&& self.minute <= 59
        &&& self.second <= 59
        &&& self.nanosecond < 2_000_000_000
        &&& -86_400 < self.offset_seconds < 86_400
        &&& -10_000_000_000_000 <= self.unix_seconds <= 10_000_000_000_000
    }

    /// Seconds since 1970 (UTC), where a leap second counts as the second after it.
    pub open spec fn utc_value(self) -> int {
        self.unix_seconds + self.nanosecond as int / 1_000_000_000
    }

    /// Seconds since 1970 (UTC), where a leap second counts as the second after it.
    pub fn utc(&self) -> (seconds: i64)
        requires
            self.in_range(),
        ensures
            seconds == self.utc_value(),
    {
        self.unix_seconds + self.nanosecond as i64 / 1_000_000_000
    }

    /// The year: four digits, or a sign and at least four where it takes more or is negative.
    pub open spec fn year_value(self) -> Seq<char> {
        let year = self.year as int;
        if year < 0 {
            seq!['-'] + four_digits(-year)
        } else if year > 9999 {
            seq!['+'] + text::decimal(year as nat)
        } else {
            four_digits(year)
        }
    }

    /// Appends the year.
    pub fn push_year(&self, s: &mut String)
        requires
            self.in_range(),
        ensures
            final(s)@ == old(s)@ + self.year_value(),
    {
        let mut year: i64 = self.year as i64;
        if year < 0 {
            s.push('-');
            year = -year;
        } else if year > 9999 {
            s.push('+');
        }
        if year > 9999 {
            push_decimal(s, year as u64);
        } else {
            push_padded(s, year / 100);
            push_padded(s, year % 100);
        }
        assert(s@ =~= old(s)@ + self.year_value());
    }

    /// The epoch in tenths of a year: the day counts as a 365th of its year, rounded to the
    /// nearest tenth.
    pub open spec fn epoch_value(self) -> int {
        (20 * (365 * self.year + self.ordinal0) + 365) / 730
    }

    /// The epoch in tenths of a year.
    pub fn epoch(&self) -> (tenths: i32)
        requires
            self.in_range(),
        ensures
            tenths == self.epoch_value(),
    {
        let days: i64 = 20 * (365 * self.year as i64 + self.ordinal0 as i64) + 365;
        match days.checked_div_euclid(730) {
            Some(tenths) => tenths as i32,
            None => 0,
        }
    }

    /// The time as `HH:MM:SS`.
    pub open spec fn time_value(self) -> Seq<char> {
        text::padded(self.hour as int) + seq![':'] + text::padded(self.minute as int) + seq![':'] + text::padded(
            self.second + self.nanosecond as int / 1_000_000_000,
        )
    }

    /// The time as `HH:MM:SS`.
    pub fn time_text(&self) -> (text: String)
        requires
            self.in_range(),
        ensures
            text@ == self.time_value(),
    {
        let mut text = String::new();
        push_padded(&mut text, self.hour as i64);
        text.push(':');
        push_padded(&mut text, self.minute as i64);
        text.push(':');
        push_padded(&mut text, self.second as i64 + self.nanosecond as i64 / 1_000_000_000);
        assert(text@ =~= self.time_value());
        text
    }

    /// The date as `MM/DD/YY`.
    pub open spec fn date_value(self) -> Seq<char> {
        text::padded(self.month as int) + seq!['/'] + text::padded(self.day as int) + seq!['/'] + text::padded(
            self.year as int % 100,
        )
    }

    /// The date as `MM/DD/YY`.
    pub fn date_text(&self) -> (text: String)
        requires
            self.in_range(),
        ensures
            text@ == self.date_value(),
    {
        let mut text = String::new();
        push_padded(&mut text, self.month as i64);
        text.push('/');
        push_padded(&mut text, self.day as i64);
        text.push('/');
        let mut year_of_century: i64 = self.year as i64 % 100;
        if year_of_century < 0 {
            year_of_century = year_of_century + 100;
        }
        assert(year_of_century == self.year as int % 100);
        push_padded(&mut text, year_of_century);
        assert(text@ =~= self.date_value());
        text
    }

    /// The distance from UTC in whole minutes, rounded to the nearest.
    pub open spec fn offset_minutes_value(self) -> int {
        (vstd::math::abs(self.offset_seconds as int) + 30) as int / 60
    }

    /// The offset from UTC as a sign, whole hours and a coarse fraction of an hour: `.2`, `.5`
    /// and `.8` for the quarters, `.0` for anything else.
    pub open spec fn zone_value(self) -> Seq<char> {
        let minutes = self.offset_minutes_value();
        seq![if self.offset_seconds < 0 { '-' } else { '+' }] + text::padded(minutes / 60) + seq![
            '.',
            quarter_digit(minutes % 60),
        ]
    }

    /// The offset from UTC as a sign, whole hours and a coarse fraction of an hour.
    pub fn zone_text(&self) -> (text: String)
        requires
            self.in_range(),
        ensures
            text@ == self.zone_value(),
    {
        let mut text = String::new();
        let seconds: i64 = self.offset_seconds as i64;
        let magnitude: i64 = if seconds < 0 { -seconds } else { seconds };
        text.push(if seconds < 0 { '-' } else { '+' });
        let minutes: i64 = (magnitude + 30) / 60;
        push_padded(&mut text, minutes / 60);
        text.push('.');
        let past: i64 = minutes % 60;
        text.push(
            if past == 15 {
                '2'
            } else if past == 30 {
                '5'
            } else if past == 45 {
                '8'
            } else {
                '0'
            },
        );
        assert(text@ =~= self.zone_value());
        text
    }
}

/// A number with zeros in front, up to four digits.
pub open spec fn four_digits(n: int) -> Seq<char> {
    if n > 9999 {
        text::decimal(n as nat)
    } else {
        text::padded(n / 100) + text::padded(n % 100)
    }
}

/// The digit that stands for the minutes past the hour of an offset.
pub open spec fn quarter_digit(minutes: int) -> char {
    if minutes == 15 {
        '2'
    } else if minutes == 30 {
        '5'
    } else if minutes == 45 {
        '8'
    } else {
        '0'
    }
}

/// The layout in which an offset, a time and a date are joined: `sHHMMHH:MM:SSMM/DD/YY`.
pub open spec fn stamp_format() -> Seq<char> {
    "%z%H:%M:%S%D"@
}

/// The number in the two characters from `at` on.
pub open spec fn pair(s: Seq<char>, at: int) -> int {
    text::digits_value(s.subrange(at, at + 2))
}

/// Whether a year is a leap year, within 1970..=2069.
pub open spec fn is_leap_year(year: int) -> bool {
    year % 4 == 0
}

/// The days of a year that precede a month.
pub open spec fn days_before_month(year: int, month: int) -> int {
    let leap: int = if is_leap_year(year) && month > 2 { 1 } else { 0 };
    leap + (if month <= 1 { 0int } else if month == 2 { 31 } else if month == 3 { 59 }
        else if month == 4 { 90 } else if month == 5 { 120 } else if month == 6 { 151 }
        else if month == 7 { 181 } else if month == 8 { 212 } else if month == 9 { 243 }
        else if month == 10 { 273 } else if month == 11 { 304 } else if month == 12 { 334 }
        else { 365 })
}

/// The full year that two digits stand for: 1970 to 2069.
pub open spec fn full_year(two_digits: int) -> int {
    two_digits + (if two_digits < 70 { 2000int } else { 1900 })
}

/// Whether a text is an offset, a time and a date in `stamp_format`, every field with all its
/// digits and in its range, and no leap second.
pub open spec fn is_stamp(s: Seq<char>) -> bool {
    &&& s.len() == 21
    &&& s[0] == '+' || s[0] == '-'
    &&& text::all_digits(s.subrange(1, 7))
    &&& s[7] == ':'
    &&& text::all_digits(s.subrange(8, 10))
    &&& s[10] == ':'
    &&& text::all_digits(s.subrange(11, 15))
    &&& s[15] == '/'
    &&& text::all_digits(s.subrange(16, 18))
    &&& s[18] == '/'
    &&& text::all_digits(s.subrange(19, 21))
    &&& pair(s, 1) <= 23
    &&& pair(s, 3) <= 59
    &&& pair(s, 5) <= 23
    &&& pair(s, 8) <= 59
    &&& pair(s, 11) <= 59
    &&& 1 <= pair(s, 13) <= 12
    &&& 1 <= pair(s, 16)
    &&& days_before_month(full_year(pair(s, 19)), pair(s, 13)) + pair(s, 16)
        <= days_before_month(full_year(pair(s, 19)), pair(s, 13) + 1)
}

/// The date and time that a stamp stands for.
pub open spec fn stamp_value(s: Seq<char>) -> LocalDateTime {
    let year = full_year(pair(s, 19));
    let ordinal0 = days_before_month(year, pair(s, 13)) + pair(s, 16) - 1;
    let distance = pair(s, 1) * 3600 + pair(s, 3) * 60;
    let offset = if s[0] == '-' { -distance } else { distance };
    let days = 365 * (year - 1970) + (year - 1969) / 4 + ordinal0;
    LocalDateTime {
        year: year as i32,
        ordinal0: ordinal0 as u32,
        month: pair(s, 13) as u32,
        day: pair(s, 16) as u32,
        hour: pair(s, 5) as u32,
        minute: pair(s, 8) as u32,
        second: pair(s, 11) as u32,
        nanosecond: 0,
        offset_seconds: offset as i32,
        unix_seconds: (days * 86_400 + pair(s, 5) * 3600 + pair(s, 8) * 60 + pair(s, 11)
            - offset) as i64,
    }
}

/// What chrono's `DateTime::parse_from_str` makes of a text in a format: the fields of the date
/// and time, or `None` where it refuses the text.
pub uninterp spec fn parsed_date_time(text: Seq<char>, format: Seq<char>) -> Option<LocalDateTime>;

/// Calls chrono's `DateTime::parse_from_str` and reads the fields of its result.
///
/// Claimed of chrono: the result is a function of the two texts; a date and time it returns has
/// every field in the calendar's range; and a stamp in `stamp_format` is accepted and stands for
/// what it spells out, two digits of a year below 70 being of the 2000s and the others of the
/// 1900s. What chrono makes of other texts is left unsaid beyond the name of the result.
#[verifier::external_body]
pub(crate) fn parse_date_time(text: &str, format: &str) -> (parsed: Option<LocalDateTime>)
    ensures
        parsed == parsed_date_time(text@, format@),
        parsed matches Some(date_time) ==> date_time.in_range(),
        format@ == stamp_format() && is_stamp(text@) ==> parsed == Some(stamp_value(text@)),
{
    let parsed = chrono::DateTime::parse_from_str(text, format).ok()?;
    Some(LocalDateTime {
        year: parsed.year(),
        ordinal0: parsed.ordinal0(),
        month: parsed.month(),
        day: parsed.day(),
        hour: parsed.hour(),
        minute: parsed.minute(),
        second: parsed.second(),
        nanosecond: parsed.nanosecond(),
        offset_seconds: parsed.offset().local_minus_utc(),
        unix_seconds: parsed.timestamp(),
    })
}

/// The epoch is the year with its part that is past, to the nearest tenth, a day being a 365th of
/// the year: off by a twentieth of a year at most.
pub proof fn law_epoch_is_the_year(now: LocalDateTime, tenths: i32, seconds: i64)
    requires
        now.in_range(),
        call_ensures(LocalDateTime::epoch, (&now,), tenths),
        call_ensures(LocalDateTime::utc, (&now,), seconds),
    ensures
        -365 < 730 * tenths - 20 * (365 * now.year + now.ordinal0) <= 365,
        10 * now.year <= tenths <= 10 * now.year + 10,
        now.nanosecond < 1_000_000_000 ==> seconds == now.unix_seconds,
        now.nanosecond >= 1_000_000_000 ==> seconds == now.unix_seconds + 1,
{
}

/// Two stamps of the same day differ in their time since 1970 by the difference of their clocks,
/// and those of the same clock a quarter of an hour apart in zone by that quarter: the further east
/// a zone, the earlier.
pub proof fn law_stamps_differ_by_their_clocks(a: Seq<char>, b: Seq<char>)
    requires
        is_stamp(a),
        is_stamp(b),
        a.subrange(13, 21) == b.subrange(13, 21),
    ensures
        ({
            let clock_a = 3600 * pair(a, 5) + 60 * pair(a, 8) + pair(a, 11);
            let clock_b = 3600 * pair(b, 5) + 60 * pair(b, 8) + pair(b, 11);
            let zone_a = 3600 * pair(a, 1) + 60 * pair(a, 3);
            let zone_b = 3600 * pair(b, 1) + 60 * pair(b, 3);
            let east_a = if a[0] == '-' {
                -zone_a
            } else {
                zone_a
            };
            let east_b = if b[0] == '-' {
                -zone_b
            } else {
                zone_b
            };
            stamp_value(a).unix_seconds - stamp_value(b).unix_seconds == (clock_a - east_a) - (
            clock_b - east_b)
        }),
{
    assert(a.subrange(13, 15) =~= a.subrange(13, 21).subrange(0, 2));
    assert(b.subrange(13, 15) =~= b.subrange(13, 21).subrange(0, 2));
    assert(a.subrange(16, 18) =~= a.subrange(13, 21).subrange(3, 5));
    assert(b.subrange(16, 18) =~= b.subrange(13, 21).subrange(3, 5));
    assert(a.subrange(19, 21) =~= a.subrange(13, 21).subrange(6, 8));
    assert(b.subrange(19, 21) =~= b.subrange(13, 21).subrange(6, 8));
    assert forall|s: Seq<char>, at: int|
        is_stamp(s) && (at == 1 || at == 3 || at == 5 || at == 8 || at == 11 || at == 16 || at
            == 19) implies 0 <= #[trigger] pair(s, at) <= 99 by {
        let two = s.subrange(at, at + 2);
        assert forall|i: int| 0 <= i < two.len() implies text::is_digit(#[trigger] two[i]) by {
            assert(two[i] == s[at + i]);
            if at < 7 {
                assert(two[i] == s.subrange(1, 7)[at + i - 1]);
            } else if at == 8 {
                assert(two[i] == s.subrange(8, 10)[i]);
            } else if at == 11 {
                assert(two[i] == s.subrange(11, 15)[i]);
            } else if at == 16 {
                assert(two[i] == s.subrange(16, 18)[i]);
            } else {
                assert(two[i] == s.subrange(19, 21)[i]);
            }
        }
        text::lemma_two_digits(two);
    }
}

/// A time reads as hours, minutes and seconds and a date as month, day and the last two digits of
/// the year, each with two places; an offset as a sign, hours, and a digit for the quarter of an
/// hour. A year of four digits is written with four.
pub proof fn law_clock_is_read_out(
    now: LocalDateTime,
    time: String,
    date: String,
    zone: String,
    s: &mut String,
    h: int,
    q: int,
)
    requires
        now.in_range(),
        now.nanosecond < 1_000_000_000,
        call_ensures(LocalDateTime::time_text, (&now,), time),
        call_ensures(LocalDateTime::date_text, (&now,), date),
        call_ensures(LocalDateTime::zone_text, (&now,), zone),
        call_ensures(LocalDateTime::push_year, (&now, s), ()),
        0 <= h && 0 <= q < 4,
        now.offset_seconds == 3600 * h + 900 * q || now.offset_seconds == -(3600 * h + 900 * q),
    ensures
        time@ == text::padded(now.hour as int) + seq![':'] + text::padded(now.minute as int) + seq![
            ':',
        ] + text::padded(now.second as int),
        0 <= now.year ==> date@ == text::padded(now.month as int) + seq!['/'] + text::padded(
            now.day as int,
        ) + seq!['/'] + text::padded(now.year as int % 100),
        zone@ == seq![if now.offset_seconds < 0 { '-' } else { '+' }] + text::padded(h) + seq![
            '.',
            if q == 0 {
                '0'
            } else if q == 1 {
                '2'
            } else if q == 2 {
                '5'
            } else {
                '8'
            },
        ],
        0 <= now.year <= 9999 ==> final(s)@ == old(s)@ + (text::padded(now.year as int / 100)
            + text::padded(now.year as int % 100)),
{
    assert(now.offset_minutes_value() == 60 * h + 15 * q);
    assert((60 * h + 15 * q) / 60 == h);
    assert((60 * h + 15 * q) % 60 == 15 * q);
}

} // verus!
