//! Points in time, and the two date formats that feeds write them in.
use vstd::prelude::*;
use crate::util::text::chars_of;

verus! {

/// A point in time: seconds since 1970-01-01T00:00:00Z, leap seconds not
/// counted.
#[derive(Debug, Clone, Copy, PartialEq, Eq)]
pub struct DateTime {
    seconds: i64,
}

impl View for DateTime {
    type V = int;

    closed spec fn view(&self) -> int {
        self.seconds as int
    }
}

/// The point in time, if there is one.
pub open spec fn optional_seconds(time: Option<DateTime>) -> Option<int> {
    match time {
        Some(time) => Some(time@),
        None => None,
    }
}

/// Whether `year` is a leap year of the Gregorian calendar.
pub open spec fn is_leap(year: int) -> bool {
    year % 4 == 0 && (year % 100 != 0 || year % 400 == 0)
}

/// The number of days of a month of `year`.
pub open spec fn days_in_month(year: int, month: int) -> int {
    if month == 2 {
        if is_leap(year) {
            29
        } else {
            28
        }
    } else if month == 4 || month == 6 || month == 9 || month == 11 {
        30
    } else {
        31
    }
}

/// The number of leap years among the years 1 to `year - 1`.
pub open spec fn leap_years_before(year: int) -> int {
    (year - 1) / 4 - (year - 1) / 100 + (year - 1) / 400
}

/// The days from 1970-01-01 to the first day of `year`.
pub open spec fn days_before_year(year: int) -> int {
    365 * (year - 1970) + leap_years_before(year) - leap_years_before(1970)
}

/// The days from the first day of `year` to the first day of its `month`.
pub open spec fn days_before_month(year: int, month: int) -> int
    decreases month,
{
    if month <= 1 {
        0
    } else {
        days_before_month(year, month - 1) + days_in_month(year, month - 1)
    }
}

/// Whether the six numbers name a second of the calendar, in the years 1 to
/// 9999.
pub open spec fn valid_civil(
    year: int,
    month: int,
    day: int,
    hour: int,
    minute: int,
    second: int,
) -> bool {
    &&& 1 <= year <= 9999
    &&& 1 <= month <= 12
    &&& 1 <= day <= days_in_month(year, month)
    &&& 0 <= hour < 24
    &&& 0 <= minute < 60
    &&& 0 <= second < 60
}

/// The seconds from 1970-01-01T00:00:00Z to the second that the six numbers
/// name in UTC.
pub open spec fn civil_seconds(
    year: int,
    month: int,
    day: int,
    hour: int,
    minute: int,
    second: int,
) -> int {
    (days_before_year(year) + days_before_month(year, month) + day - 1) * 86400 + hour * 3600
        + minute * 60 + second
}

fn leap(year: u32) -> (res: bool)
    ensures
        res == is_leap(year as int),
{
    year % 4 == 0 && (year % 100 != 0 || year % 400 == 0)
}

fn month_length(year: u32, month: u32) -> (days: u32)
    ensures
        days == days_in_month(year as int, month as int),
        28 <= days <= 31,
{
    if month == 2 {
        if leap(year) {
            29
        } else {
            28
        }
    } else if month == 4 || month == 6 || month == 9 || month == 11 {
        30
    } else {
        31
    }
}

fn month_start(year: u32, month: u32) -> (days: u32)
    requires
        1 <= month <= 12,
    ensures
        days == days_before_month(year as int, month as int),
        days <= 31 * (month - 1),
{
    let mut days: u32 = 0;
    let mut m: u32 = 1;
    while m < month
        invariant
            1 <= m <= month <= 12,
            days == days_before_month(year as int, m as int),
            days <= 31 * (m - 1),
        decreases month - m,
    {
        days = days + month_length(year, m);
        m = m + 1;
    }
    days
}

impl DateTime {
    /// The point in time `seconds` after the start of 1970 in UTC.
    pub fn from_seconds(seconds: i64) -> (time: DateTime)
        ensures
            time@ == seconds,
    {
        DateTime { seconds }
    }

    /// The seconds from the start of 1970 in UTC to this point.
    pub fn seconds(&self) -> (seconds: i64)
        ensures
            seconds == self@,
    {
        self.seconds
    }

    /// The second that the six numbers name in UTC, where they name one.
    pub fn from_civil(year: u32, month: u32, day: u32, hour: u32, minute: u32, second: u32) -> (time:
        Option<DateTime>)
        ensures
            optional_seconds(time) == if valid_civil(
                year as int,
                month as int,
                day as int,
                hour as int,
                minute as int,
                second as int,
            ) {
                Some(
                    civil_seconds(
                        year as int,
                        month as int,
                        day as int,
                        hour as int,
                        minute as int,
                        second as int,
                    ),
                )
            } else {
                None
            },
            time matches Some(t) ==> -100_000_000_000 <= t@ <= 400_000_000_000,
    {
        if year < 1 || year > 9999 || month < 1 || month > 12 || day < 1 || hour >= 24 || minute
            >= 60 || second >= 60 {
            return None;
        }
        if day > month_length(year, month) {
            return None;
        }
        let before: i64 = (year - 1) as i64;
        let leaps: i64 = before / 4 - before / 100 + before / 400;
        let days: i64 = 365 * (year as i64 - 1970) + leaps - 477 + month_start(year, month) as i64
            + day as i64 - 1;
        assert(leap_years_before(1970) == 477);
        let seconds: i64 = days * 86400 + hour as i64 * 3600 + minute as i64 * 60 + second as i64;
        Some(DateTime { seconds })
    }
}

/// The value of a decimal digit.
pub open spec fn digit_value(c: char) -> Option<int> {
    if '0' <= c && c <= '9' {
        Some(c as int - '0' as int)
    } else {
        None
    }
}

/// The number that the `count` characters from `from` on write in decimal
/// digits.
pub open spec fn number(s: Seq<char>, from: int, count: nat) -> Option<int>
    decreases count,
{
    if count == 0 {
        Some(0)
    } else if from < 0 || from + count > s.len() {
        None
    } else {
        match (number(s, from, (count - 1) as nat), digit_value(s[from + count - 1])) {
            (Some(n), Some(d)) => Some(n * 10 + d),
            _ => None,
        }
    }
}

/// How many decimal digits stand at `at` in a row.
pub open spec fn digit_run(s: Seq<char>, at: int) -> nat
    decreases s.len() - at,
{
    if 0 <= at < s.len() && digit_value(s[at]) is Some {
        1 + digit_run(s, at + 1)
    } else {
        0
    }
}

/// Whether `c` is a letter of the English alphabet.
pub open spec fn is_letter(c: char) -> bool {
    ('a' <= c && c <= 'z') || ('A' <= c && c <= 'Z')
}

/// How many letters stand at `at` in a row.
pub open spec fn letter_run(s: Seq<char>, at: int) -> nat
    decreases s.len() - at,
{
    if 0 <= at < s.len() && is_letter(s[at]) {
        1 + letter_run(s, at + 1)
    } else {
        0
    }
}

/// The first position from `at` on that holds no space.
pub open spec fn spaces_end(s: Seq<char>, at: int) -> int
    decreases s.len() - at,
{
    if 0 <= at < s.len() && s[at] == ' ' {
        spaces_end(s, at + 1)
    } else {
        at
    }
}

/// A time of day at `at`, written `HH:MM` or `HH:MM:SS`: its second of the
/// day, and the position behind it.
pub open spec fn clock_at(s: Seq<char>, at: int) -> Option<(int, int)> {
    match (number(s, at, 2), number(s, at + 3, 2)) {
        (Some(hour), Some(minute)) => if s[at + 2] == ':' && hour < 24 && minute < 60 {
            if at + 5 < s.len() && s[at + 5] == ':' {
                match number(s, at + 6, 2) {
                    Some(second) => if second < 60 {
                        Some((hour * 3600 + minute * 60 + second, at + 8))
                    } else {
                        None
                    },
                    None => None,
                }
            } else {
                Some((hour * 3600 + minute * 60, at + 5))
            }
        } else {
            None
        },
        _ => None,
    }
}

/// The position behind a fraction of a second at `at`, if one is written
/// there.
pub open spec fn fraction_end(s: Seq<char>, at: int) -> int {
    if 0 <= at < s.len() && s[at] == '.' {
        at + 1 + digit_run(s, at + 1)
    } else {
        at
    }
}

/// A zone written as an offset, `+HH:MM` or `+HHMM`, that fills the text from
/// `at` to its end: the seconds that it is ahead of UTC.
pub open spec fn numeric_zone(s: Seq<char>, at: int) -> Option<int> {
    if !(0 <= at < s.len()) || (s[at] != '+' && s[at] != '-') {
        None
    } else {
        let minute_at = if at + 3 < s.len() && s[at + 3] == ':' {
            at + 4
        } else {
            at + 3
        };
        match (number(s, at + 1, 2), number(s, minute_at, 2)) {
            (Some(hour), Some(minute)) => if minute_at + 2 == s.len() && hour < 24 && minute
                < 60 {
                if s[at] == '-' {
                    Some(-(hour * 3600 + minute * 60))
                } else {
                    Some(hour * 3600 + minute * 60)
                }
            } else {
                None
            },
            _ => None,
        }
    }
}

/// A zone written by name that fills the text from `at` to its end: the hours
/// that it is ahead of UTC.
pub open spec fn named_zone(s: Seq<char>, at: int) -> Option<int> {
    if at < 0 {
        None
    } else if at + 1 == s.len() {
        if s[at] == 'Z' || s[at] == 'z' {
            Some(0)
        } else {
            None
        }
    } else if at + 2 == s.len() {
        if s[at] == 'U' && s[at + 1] == 'T' {
            Some(0)
        } else {
            None
        }
    } else if at + 3 == s.len() {
        let a = s[at];
        let b = s[at + 1];
        let c = s[at + 2];
        if (a == 'G' && b == 'M' && c == 'T') || (a == 'U' && b == 'T' && c == 'C') {
            Some(0)
        } else if c != 'T' || (b != 'S' && b != 'D') {
            None
        } else {
            let summer: int = if b == 'D' {
                1
            } else {
                0
            };
            if a == 'E' {
                Some(summer - 5)
            } else if a == 'C' {
                Some(summer - 6)
            } else if a == 'M' {
                Some(summer - 7)
            } else if a == 'P' {
                Some(summer - 8)
            } else {
                None
            }
        }
    } else {
        None
    }
}

/// The zone that fills the text from `at` to its end, in seconds ahead of
/// UTC. No zone at all reads as UTC.
pub open spec fn zone_at(s: Seq<char>, at: int) -> Option<int> {
    if at == s.len() {
        Some(0)
    } else {
        match named_zone(s, at) {
            Some(hours) => Some(hours * 3600),
            None => numeric_zone(s, at),
        }
    }
}

/// The point in time at second `clock` of the given day, on a clock that is
/// `offset` seconds ahead of UTC.
pub open spec fn stamp(year: int, month: int, day: int, clock: int, offset: int) -> Option<int> {
    if valid_civil(year, month, day, 0, 0, 0) {
        Some(civil_seconds(year, month, day, 0, 0, 0) + clock - offset)
    } else {
        None
    }
}

/// The point in time that `s` writes as `YYYY-MM-DD`, alone or followed by
/// `T`, a time of day, an optional fraction of a second and an optional zone.
pub open spec fn rfc3339(s: Seq<char>) -> Option<int> {
    match (number(s, 0, 4), number(s, 5, 2), number(s, 8, 2)) {
        (Some(year), Some(month), Some(day)) => if s[4] != '-' || s[7] != '-' {
            None
        } else if s.len() == 10 {
            stamp(year, month, day, 0, 0)
        } else if s[10] != 'T' && s[10] != 't' && s[10] != ' ' {
            None
        } else {
            match clock_at(s, 11) {
                Some((clock, next)) => match zone_at(s, fraction_end(s, next)) {
                    Some(offset) => stamp(year, month, day, clock, offset),
                    None => None,
                },
                None => None,
            }
        },
        _ => None,
    }
}

/// The position behind the name of a weekday and its comma at `at`, if they
/// are written there.
pub open spec fn weekday_end(s: Seq<char>, at: int) -> int {
    let n = letter_run(s, at);
    if n > 0 && at + n < s.len() && s[at + n] == ',' {
        at + n + 1
    } else {
        at
    }
}

/// The month whose English name is abbreviated at `at`.
pub open spec fn month_at(s: Seq<char>, at: int) -> Option<int> {
    if at < 0 || at + 3 > s.len() {
        None
    } else {
        let a = s[at];
        let b = s[at + 1];
        let c = s[at + 2];
        if a == 'J' && b == 'a' && c == 'n' {
            Some(1)
        } else if a == 'F' && b == 'e' && c == 'b' {
            Some(2)
        } else if a == 'M' && b == 'a' && c == 'r' {
            Some(3)
        } else if a == 'A' && b == 'p' && c == 'r' {
            Some(4)
        } else if a == 'M' && b == 'a' && c == 'y' {
            Some(5)
        } else if a == 'J' && b == 'u' && c == 'n' {
            Some(6)
        } else if a == 'J' && b == 'u' && c == 'l' {
            Some(7)
        } else if a == 'A' && b == 'u' && c == 'g' {
            Some(8)
        } else if a == 'S' && b == 'e' && c == 'p' {
            Some(9)
        } else if a == 'O' && b == 'c' && c == 't' {
            Some(10)
        } else if a == 'N' && b == 'o' && c == 'v' {
            Some(11)
        } else if a == 'D' && b == 'e' && c == 'c' {
            Some(12)
        } else {
            None
        }
    }
}

/// A year at `at`, in four digits or in two, and the position behind it. Two
/// digits below 50 belong to this century, the others to the last.
pub open spec fn year_at(s: Seq<char>, at: int) -> Option<(int, int)> {
    let n = digit_run(s, at);
    if n == 4 {
        match number(s, at, 4) {
            Some(year) => Some((year, at + 4)),
            None => None,
        }
    } else if n == 2 {
        match number(s, at, 2) {
            Some(year) => Some(
                (
                    if year < 50 {
                        2000 + year
                    } else {
                        1900 + year
                    },
                    at + 2,
                ),
            ),
            None => None,
        }
    } else {
        None
    }
}

/// The point in time that `s` writes as in `Sat, 07 Sep 2002 00:00:01 GMT`:
/// an optional weekday, the day, the month by name, the year, a time of day
/// and an optional zone, with spaces between them.
pub open spec fn rfc2822(s: Seq<char>) -> Option<int> {
    let day_at = spaces_end(s, weekday_end(s, spaces_end(s, 0)));
    let n = digit_run(s, day_at);
    if n != 1 && n != 2 {
        None
    } else {
        let month_from = spaces_end(s, day_at + n);
        match (number(s, day_at, n), month_at(s, month_from)) {
            (Some(day), Some(month)) => match year_at(s, spaces_end(s, month_from + 3)) {
                Some((year, year_end)) => match clock_at(s, spaces_end(s, year_end)) {
                    Some((clock, clock_end)) => match zone_at(s, spaces_end(s, clock_end)) {
                        Some(offset) => stamp(year, month, day, clock, offset),
                        None => None,
                    },
                    None => None,
                },
                None => None,
            },
            _ => None,
        }
    }
}

/// A number that is written in full is written in each of its parts.
pub proof fn lemma_number_prefix(s: Seq<char>, from: int, shorter: nat, count: nat)
    requires
        shorter <= count,
        number(s, from, shorter) is None,
    ensures
        number(s, from, count) is None,
    decreases count,
{
    if shorter < count {
        lemma_number_prefix(s, from, shorter, (count - 1) as nat);
    }
}

/// The value of `c` as a decimal digit.
pub fn digit(c: char) -> (res: Option<u32>)
    ensures
        match res {
            Some(d) => digit_value(c) == Some(d as int) && d <= 9,
            None => digit_value(c) is None,
        },
{
    if '0' <= c && c <= '9' {
        Some(c as u32 - '0' as u32)
    } else {
        None
    }
}

fn letter(c: char) -> (res: bool)
    ensures
        res == is_letter(c),
{
    ('a' <= c && c <= 'z') || ('A' <= c && c <= 'Z')
}

fn read_number(s: &Vec<char>, from: usize, count: usize) -> (res: Option<u32>)
    requires
        count <= 4,
    ensures
        match res {
            Some(n) => number(s@, from as int, count as nat) == Some(n as int) && n <= 9999,
            None => number(s@, from as int, count as nat) is None,
        },
{
    if count == 0 {
        return Some(0);
    }
    if from > s.len() || count > s.len() - from {
        return None;
    }
    let mut n: u32 = 0;
    let mut i: usize = 0;
    while i < count
        invariant
            i <= count <= 4,
            from + count <= s.len(),
            number(s@, from as int, i as nat) == Some(n as int),
            i == 0 ==> n == 0,
            i == 1 ==> n <= 9,
            i == 2 ==> n <= 99,
            i == 3 ==> n <= 999,
            i == 4 ==> n <= 9999,
        decreases count - i,
    {
        match digit(s[from + i]) {
            Some(d) => {
                n = n * 10 + d;
            },
            None => {
                proof {
                    lemma_number_prefix(s@, from as int, (i + 1) as nat, count as nat);
                }
                return None;
            },
        }
        i = i + 1;
    }
    Some(n)
}

fn count_digits(s: &Vec<char>, at: usize) -> (n: usize)
    requires
        at <= s.len(),
    ensures
        n == digit_run(s@, at as int),
        at + n <= s.len(),
{
    let mut i: usize = at;
    while i < s.len() && digit(s[i]).is_some()
        invariant
            at <= i <= s.len(),
            digit_run(s@, at as int) == (i - at) + digit_run(s@, i as int),
        decreases s.len() - i,
    {
        i = i + 1;
    }
    i - at
}

fn count_letters(s: &Vec<char>, at: usize) -> (n: usize)
    requires
        at <= s.len(),
    ensures
        n == letter_run(s@, at as int),
        at + n <= s.len(),
{
    let mut i: usize = at;
    while i < s.len() && letter(s[i])
        invariant
            at <= i <= s.len(),
            letter_run(s@, at as int) == (i - at) + letter_run(s@, i as int),
        decreases s.len() - i,
    {
        i = i + 1;
    }
    i - at
}

fn skip_spaces(s: &Vec<char>, at: usize) -> (end: usize)
    requires
        at <= s.len(),
    ensures
        end == spaces_end(s@, at as int),
        at <= end <= s.len(),
{
    let mut i: usize = at;
    while i < s.len() && s[i] == ' '
        invariant
            at <= i <= s.len(),
            spaces_end(s@, at as int) == spaces_end(s@, i as int),
        decreases s.len() - i,
    {
        i = i + 1;
    }
    i
}

fn read_clock(s: &Vec<char>, at: usize) -> (res: Option<(u32, usize)>)
    requires
        at <= s.len(),
    ensures
        match res {
            Some((clock, end)) => clock_at(s@, at as int) == Some((clock as int, end as int))
                && clock < 86400 && at <= end <= s.len(),
            None => clock_at(s@, at as int) is None,
        },
{
    if s.len() - at < 5 {
        return None;
    }
    let hour = match read_number(s, at, 2) {
        Some(hour) => hour,
        None => {
            return None;
        },
    };
    let minute = match read_number(s, at + 3, 2) {
        Some(minute) => minute,
        None => {
            return None;
        },
    };
    if s[at + 2] != ':' || hour >= 24 || minute >= 60 {
        return None;
    }
    if s.len() - at > 5 && s[at + 5] == ':' {
        match read_number(s, at + 6, 2) {
            Some(second) => {
                if second < 60 {
                    Some((hour * 3600 + minute * 60 + second, at + 8))
                } else {
                    None
                }
            },
            None => None,
        }
    } else {
        Some((hour * 3600 + minute * 60, at + 5))
    }
}

fn skip_fraction(s: &Vec<char>, at: usize) -> (end: usize)
    requires
        at <= s.len(),
    ensures
        end == fraction_end(s@, at as int),
        at <= end <= s.len(),
{
    if at < s.len() && s[at] == '.' {
        at + 1 + count_digits(s, at + 1)
    } else {
        at
    }
}

fn read_numeric_zone(s: &Vec<char>, at: usize) -> (res: Option<i32>)
    requires
        at <= s.len(),
    ensures
        match res {
            Some(offset) => numeric_zone(s@, at as int) == Some(offset as int) && -86400 < offset
                < 86400,
            None => numeric_zone(s@, at as int) is None,
        },
{
    if s.len() - at < 5 {
        return None;
    }
    if s[at] != '+' && s[at] != '-' {
        return None;
    }
    let minute_at: usize = if s[at + 3] == ':' {
        at + 4
    } else {
        at + 3
    };
    let hour = match read_number(s, at + 1, 2) {
        Some(hour) => hour,
        None => {
            return None;
        },
    };
    let minute = match read_number(s, minute_at, 2) {
        Some(minute) => minute,
        None => {
            return None;
        },
    };
    if s.len() - minute_at != 2 || hour >= 24 || minute >= 60 {
        return None;
    }
    let ahead: i32 = (hour * 3600 + minute * 60) as i32;
    if s[at] == '-' {
        Some(-ahead)
    } else {
        Some(ahead)
    }
}

fn read_named_zone(s: &Vec<char>, at: usize) -> (res: Option<i32>)
    requires
        at <= s.len(),
    ensures
        match res {
            Some(hours) => named_zone(s@, at as int) == Some(hours as int) && -8 <= hours <= 0,
            None => named_zone(s@, at as int) is None,
        },
{
    let n = s.len() - at;
    if n == 1 {
        if s[at] == 'Z' || s[at] == 'z' {
            Some(0)
        } else {
            None
        }
    } else if n == 2 {
        if s[at] == 'U' && s[at + 1] == 'T' {
            Some(0)
        } else {
            None
        }
    } else if n == 3 {
        let a = s[at];
        let b = s[at + 1];
        let c = s[at + 2];
        if (a == 'G' && b == 'M' && c == 'T') || (a == 'U' && b == 'T' && c == 'C') {
            Some(0)
        } else if c != 'T' || (b != 'S' && b != 'D') {
            None
        } else {
            let summer: i32 = if b == 'D' {
                1
            } else {
                0
            };
            if a == 'E' {
                Some(summer - 5)
            } else if a == 'C' {
                Some(summer - 6)
            } else if a == 'M' {
                Some(summer - 7)
            } else if a == 'P' {
                Some(summer - 8)
            } else {
                None
            }
        }
    } else {
        None
    }
}

fn read_zone(s: &Vec<char>, at: usize) -> (res: Option<i32>)
    requires
        at <= s.len(),
    ensures
        match res {
            Some(offset) => zone_at(s@, at as int) == Some(offset as int) && -86400 < offset
                < 86400,
            None => zone_at(s@, at as int) is None,
        },
{
    if at == s.len() {
        return Some(0);
    }
    match read_named_zone(s, at) {
        Some(hours) => Some(hours * 3600),
        None => read_numeric_zone(s, at),
    }
}

fn make_stamp(year: u32, month: u32, day: u32, clock: u32, offset: i32) -> (res: Option<DateTime>)
    requires
        clock < 86400,
        -86400 < offset < 86400,
    ensures
        optional_seconds(res) == stamp(
            year as int,
            month as int,
            day as int,
            clock as int,
            offset as int,
        ),
{
    match DateTime::from_civil(year, month, day, 0, 0, 0) {
        Some(midnight) => Some(
            DateTime { seconds: midnight.seconds + clock as i64 - offset as i64 },
        ),
        None => None,
    }
}

fn read_month(s: &Vec<char>, at: usize) -> (res: Option<u32>)
    requires
        at <= s.len(),
    ensures
        match res {
            Some(month) => month_at(s@, at as int) == Some(month as int) && 1 <= month <= 12,
            None => month_at(s@, at as int) is None,
        },
{
    if s.len() - at < 3 {
        return None;
    }
    let a = s[at];
    let b = s[at + 1];
    let c = s[at + 2];
    if a == 'J' && b == 'a' && c == 'n' {
        Some(1)
    } else if a == 'F' && b == 'e' && c == 'b' {
        Some(2)
    } else if a == 'M' && b == 'a' && c == 'r' {
        Some(3)
    } else if a == 'A' && b == 'p' && c == 'r' {
        Some(4)
    } else if a == 'M' && b == 'a' && c == 'y' {
        Some(5)
    } else if a == 'J' && b == 'u' && c == 'n' {
        Some(6)
    } else if a == 'J' && b == 'u' && c == 'l' {
        Some(7)
    } else if a == 'A' && b == 'u' && c == 'g' {
        Some(8)
    } else if a == 'S' && b == 'e' && c == 'p' {
        Some(9)
    } else if a == 'O' && b == 'c' && c == 't' {
        Some(10)
    } else if a == 'N' && b == 'o' && c == 'v' {
        Some(11)
    } else if a == 'D' && b == 'e' && c == 'c' {
        Some(12)
    } else {
        None
    }
}

fn read_year(s: &Vec<char>, at: usize) -> (res: Option<(u32, usize)>)
    requires
        at <= s.len(),
    ensures
        match res {
            Some((year, end)) => year_at(s@, at as int) == Some((year as int, end as int)) && at
                <= end <= s.len(),
            None => year_at(s@, at as int) is None,
        },
{
    let n = count_digits(s, at);
    if n == 4 {
        match read_number(s, at, 4) {
            Some(year) => Some((year, at + 4)),
            None => None,
        }
    } else if n == 2 {
        match read_number(s, at, 2) {
            Some(year) => {
                if year < 50 {
                    Some((2000 + year, at + 2))
                } else {
                    Some((1900 + year, at + 2))
                }
            },
            None => None,
        }
    } else {
        None
    }
}

fn skip_weekday(s: &Vec<char>, at: usize) -> (end: usize)
    requires
        at <= s.len(),
    ensures
        end == weekday_end(s@, at as int),
        at <= end <= s.len(),
{
    let n = count_letters(s, at);
    if n > 0 && at + n < s.len() && s[at + n] == ',' {
        at + n + 1
    } else {
        at
    }
}

/// Reads a date of the form `2005-07-31T12:29:29Z`.
pub fn parse_rfc3339(text: &str) -> (res: Option<DateTime>)
    ensures
        optional_seconds(res) == rfc3339(text@),
{
    let chars = chars_of(text);
    let s = &chars;
    if s.len() < 10 {
        return None;
    }
    let (year, month, day) = match (read_number(s, 0, 4), read_number(s, 5, 2), read_number(s, 8, 2)) {
        (Some(year), Some(month), Some(day)) => (year, month, day),
        _ => {
            return None;
        },
    };
    if s[4] != '-' || s[7] != '-' {
        return None;
    }
    if s.len() == 10 {
        return make_stamp(year, month, day, 0, 0);
    }
    if s[10] != 'T' && s[10] != 't' && s[10] != ' ' {
        return None;
    }
    match read_clock(s, 11) {
        Some((clock, next)) => match read_zone(s, skip_fraction(s, next)) {
            Some(offset) => make_stamp(year, month, day, clock, offset),
            None => None,
        },
        None => None,
    }
}

/// Reads a date of the form `Sat, 07 Sep 2002 00:00:01 GMT`.
pub fn parse_rfc2822(text: &str) -> (res: Option<DateTime>)
    ensures
        optional_seconds(res) == rfc2822(text@),
{
    let chars = chars_of(text);
    let s = &chars;
    let day_at = skip_spaces(s, skip_weekday(s, skip_spaces(s, 0)));
    let n = count_digits(s, day_at);
    if n != 1 && n != 2 {
        return None;
    }
    let month_from = skip_spaces(s, day_at + n);
    let (day, month) = match (read_number(s, day_at, n), read_month(s, month_from)) {
        (Some(day), Some(month)) => (day, month),
        _ => {
            return None;
        },
    };
    match read_year(s, skip_spaces(s, month_from + 3)) {
        Some((year, year_end)) => match read_clock(s, skip_spaces(s, year_end)) {
            Some((clock, clock_end)) => match read_zone(s, skip_spaces(s, clock_end)) {
                Some(offset) => make_stamp(year, month, day, clock, offset),
                None => None,
            },
            None => None,
        },
        None => None,
    }
}

/// The date that `s` writes in the form of `2005-07-31T12:29:29Z` or, failing
/// that, in the form of `Sat, 07 Sep 2002 00:00:01 GMT`.
pub open spec fn iso_date(s: Seq<char>) -> Option<int> {
    match rfc3339(s) {
        Some(time) => Some(time),
        None => rfc2822(s),
    }
}

/// The date that `s` writes in the form of `Sat, 07 Sep 2002 00:00:01 GMT` or,
/// failing that, in the form of `2005-07-31T12:29:29Z`.
pub open spec fn mail_date(s: Seq<char>) -> Option<int> {
    match rfc2822(s) {
        Some(time) => Some(time),
        None => rfc3339(s),
    }
}

/// Reads a date as Atom and RSS 1.0 write it, or else as RSS 2.0 does.
pub fn parse_iso_date(text: &str) -> (res: Option<DateTime>)
    ensures
        optional_seconds(res) == iso_date(text@),
{
    match parse_rfc3339(text) {
        Some(time) => Some(time),
        None => parse_rfc2822(text),
    }
}

/// Reads a date as RSS 2.0 writes it, or else as Atom does.
pub fn parse_mail_date(text: &str) -> (res: Option<DateTime>)
    ensures
        optional_seconds(res) == mail_date(text@),
{
    match parse_rfc2822(text) {
        Some(time) => Some(time),
        None => parse_rfc3339(text),
    }
}

} // verus!
