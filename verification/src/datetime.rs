use vstd::prelude::*;
use vstd::string::StrSliceExecFns;

verus! {

/// A UTC calendar timestamp with second precision: the library's model of
/// the `YYYY-MM-DD HH:MM:SS` strings that token rows store in `expires_at`.
#[derive(Clone, Copy, PartialEq, Eq, Structural, Debug)]
pub struct DateTime {
    pub year: u32,
    pub month: u32,
    pub day: u32,
    pub hour: u32,
    pub minute: u32,
    pub second: u32,
}

pub open spec fn is_leap_year(y: int) -> bool {
    y % 4 == 0 && (y % 100 != 0 || y % 400 == 0)
}

pub open spec fn days_in_month(y: int, m: int) -> int {
    if m == 2 {
        if is_leap_year(y) {
            29
        } else {
            28
        }
    } else if m == 4 || m == 6 || m == 9 || m == 11 {
        30
    } else {
        31
    }
}

pub open spec fn days_in_year(y: int) -> int {
    if is_leap_year(y) {
        366
    } else {
        365
    }
}

/// Days of the proleptic Gregorian calendar strictly before year `y`,
/// counted from year 0.
pub open spec fn days_before_year(y: int) -> int
    decreases y,
{
    if y <= 0 {
        0
    } else {
        days_before_year(y - 1) + days_in_year(y - 1)
    }
}

/// Days of year `y` strictly before month `m`.
pub open spec fn days_before_month(y: int, m: int) -> int
    decreases m,
{
    if m <= 1 {
        0
    } else {
        days_before_month(y, m - 1) + days_in_month(y, m - 1)
    }
}

pub open spec fn valid_datetime(dt: DateTime) -> bool {
    &&& dt.year <= 9999
    &&& 1 <= dt.month <= 12
    &&& 1 <= dt.day <= days_in_month(dt.year as int, dt.month as int)
    &&& dt.hour <= 23
    &&& dt.minute <= 59
    &&& dt.second <= 59
}

/// Seconds from 0000-01-01 00:00:00 to `dt` in the proleptic Gregorian
/// calendar. Total on valid datetimes, and ordered as they are.
pub open spec fn epoch_seconds(dt: DateTime) -> int {
    (days_before_year(dt.year as int) + days_before_month(dt.year as int, dt.month as int) + (dt.day
        - 1)) * 86400 + dt.hour * 3600 + dt.minute * 60 + dt.second
}

/// One past the latest second the model can express: every valid datetime
/// lies strictly below this, and 9999-12-31 23:59:59 is exactly one below.
pub open spec fn epoch_limit() -> int {
    days_before_year(10000) * 86400
}

pub proof fn lemma_days_before_year_bounds(y: int)
    requires
        0 <= y,
    ensures
        365 * y <= days_before_year(y) <= 366 * y,
    decreases y,
{
    if y > 0 {
        lemma_days_before_year_bounds(y - 1);
    }
}

pub proof fn lemma_days_before_month_bounds(y: int, m: int)
    requires
        1 <= m <= 13,
    ensures
        28 * (m - 1) <= days_before_month(y, m) <= 31 * (m - 1),
    decreases m,
{
    if m > 1 {
        lemma_days_before_month_bounds(y, m - 1);
    }
}

/// The months of a year sum to its length.
pub proof fn lemma_days_before_month_full_year(y: int)
    ensures
        days_before_month(y, 13) == days_in_year(y),
{
    reveal_with_fuel(days_before_month, 14);
}

/// The elapsed days of a valid datetime stay below the day count of the
/// whole representable range.
pub proof fn lemma_datetime_days_bound(dt: DateTime)
    requires
        valid_datetime(dt),
    ensures
        0 <= days_before_year(dt.year as int) + days_before_month(dt.year as int, dt.month as int)
            + (dt.day - 1) < days_before_year(10000),
{
    let y = dt.year as int;
    let m = dt.month as int;
    lemma_days_before_year_bounds(y);
    lemma_days_before_month_bounds(y, m);
    assert(days_before_month(y, m + 1) == days_before_month(y, m) + days_in_month(y, m));
    lemma_days_before_month_mono(y, m + 1, 13);
    lemma_days_before_month_full_year(y);
    assert(days_before_year(y + 1) == days_before_year(y) + days_in_year(y));
    lemma_days_before_year_mono(y + 1, 10000);
}

pub proof fn lemma_epoch_seconds_bounds(dt: DateTime)
    requires
        valid_datetime(dt),
    ensures
        0 <= epoch_seconds(dt) < epoch_limit() < 0x4_0000_0000_0000,
{
    lemma_datetime_days_bound(dt);
    lemma_days_before_year_bounds(10000);
}

pub proof fn lemma_days_before_year_mono(y1: int, y2: int)
    requires
        0 <= y1 <= y2,
    ensures
        days_before_year(y1) + 365 * (y2 - y1) <= days_before_year(y2),
    decreases y2,
{
    if y1 < y2 {
        lemma_days_before_year_mono(y1, y2 - 1);
    }
}

pub proof fn lemma_days_before_month_mono(y: int, m1: int, m2: int)
    requires
        1 <= m1 <= m2,
    ensures
        days_before_month(y, m1) + 28 * (m2 - m1) <= days_before_month(y, m2),
    decreases m2,
{
    if m1 < m2 {
        lemma_days_before_month_mono(y, m1, m2 - 1);
    }
}

pub fn leap_year(y: u32) -> (r: bool)
    ensures
        r == is_leap_year(y as int),
{
    y % 4 == 0 && (y % 100 != 0 || y % 400 == 0)
}

pub fn month_days(y: u32, m: u32) -> (r: u32)
    ensures
        r == days_in_month(y as int, m as int),
{
    if m == 2 {
        if leap_year(y) {
            29
        } else {
            28
        }
    } else if m == 4 || m == 6 || m == 9 || m == 11 {
        30
    } else {
        31
    }
}

pub fn year_days(y: u32) -> (r: u32)
    ensures
        r == days_in_year(y as int),
{
    if leap_year(y) {
        366
    } else {
        365
    }
}

pub open spec fn is_digit(c: char) -> bool {
    48 <= c as int <= 57
}

pub open spec fn digit_val(c: char) -> int {
    c as int - 48
}

pub open spec fn two_digits(s: Seq<char>, i: int) -> int {
    10 * digit_val(s[i]) + digit_val(s[i + 1])
}

pub open spec fn four_digits(s: Seq<char>, i: int) -> int {
    1000 * digit_val(s[i]) + 100 * digit_val(s[i + 1]) + 10 * digit_val(s[i + 2]) + digit_val(
        s[i + 3],
    )
}

/// The exact shape `YYYY-MM-DD HH:MM:SS`: 19 characters, digits and
/// separators in fixed positions.
pub open spec fn well_formed_datetime(s: Seq<char>) -> bool {
    &&& s.len() == 19
    &&& is_digit(s[0]) && is_digit(s[1]) && is_digit(s[2]) && is_digit(s[3])
    &&& s[4] == '-'
    &&& is_digit(s[5]) && is_digit(s[6])
    &&& s[7] == '-'
    &&& is_digit(s[8]) && is_digit(s[9])
    &&& s[10] == ' '
    &&& is_digit(s[11]) && is_digit(s[12])
    &&& s[13] == ':'
    &&& is_digit(s[14]) && is_digit(s[15])
    &&& s[16] == ':'
    &&& is_digit(s[17]) && is_digit(s[18])
}

pub open spec fn datetime_of_seq(s: Seq<char>) -> DateTime {
    DateTime {
        year: four_digits(s, 0) as u32,
        month: two_digits(s, 5) as u32,
        day: two_digits(s, 8) as u32,
        hour: two_digits(s, 11) as u32,
        minute: two_digits(s, 14) as u32,
        second: two_digits(s, 17) as u32,
    }
}

/// What parsing an `expires_at` string yields: the represented instant for
/// a well-formed, calendar-valid string, and nothing otherwise.
pub open spec fn parse_datetime_seq(s: Seq<char>) -> Option<DateTime> {
    if well_formed_datetime(s) && valid_datetime(datetime_of_seq(s)) {
        Some(datetime_of_seq(s))
    } else {
        None
    }
}

fn read_digit(s: &str, i: usize) -> (r: Option<u32>)
    requires
        i < s@.len(),
    ensures
        match r {
            Some(v) => is_digit(s@[i as int]) && v == digit_val(s@[i as int]),
            None => !is_digit(s@[i as int]),
        },
{
    let c = s.get_char(i);
    let v = c as u32;
    if 48 <= v && v <= 57 {
        Some(v - 48)
    } else {
        None
    }
}

fn read_two(s: &str, i: usize) -> (r: Option<u32>)
    requires
        i + 1 < s@.len(),
        s@.len() <= usize::MAX,
    ensures
        match r {
            Some(v) => is_digit(s@[i as int]) && is_digit(s@[i + 1]) && v == two_digits(
                s@,
                i as int,
            ),
            None => !(is_digit(s@[i as int]) && is_digit(s@[i + 1])),
        },
{
    let d0 = read_digit(s, i);
    let d1 = read_digit(s, i + 1);
    match (d0, d1) {
        (Some(a), Some(b)) => Some(10 * a + b),
        _ => None,
    }
}

fn read_four(s: &str, i: usize) -> (r: Option<u32>)
    requires
        i + 3 < s@.len(),
        s@.len() <= usize::MAX,
    ensures
        match r {
            Some(v) => is_digit(s@[i as int]) && is_digit(s@[i + 1]) && is_digit(s@[i + 2])
                && is_digit(s@[i + 3]) && v == four_digits(s@, i as int),
            None => !(is_digit(s@[i as int]) && is_digit(s@[i + 1]) && is_digit(s@[i + 2])
                && is_digit(s@[i + 3])),
        },
{
    let hi = read_two(s, i);
    let lo = read_two(s, i + 2);
    match (hi, lo) {
        (Some(a), Some(b)) => Some(100 * a + b),
        _ => None,
    }
}

/// Parse an `expires_at` string of the exact shape `YYYY-MM-DD HH:MM:SS`,
/// rejecting calendar-invalid dates such as a 30th of February.
pub fn parse_datetime(s: &str) -> (r: Option<DateTime>)
    ensures
        r == parse_datetime_seq(s@),
{
    if s.unicode_len() != 19 {
        return None;
    }
    let year = match read_four(s, 0) {
        Some(v) => v,
        None => {
            return None;
        },
    };
    let month = match read_two(s, 5) {
        Some(v) => v,
        None => {
            return None;
        },
    };
    let day = match read_two(s, 8) {
        Some(v) => v,
        None => {
            return None;
        },
    };
    let hour = match read_two(s, 11) {
        Some(v) => v,
        None => {
            return None;
        },
    };
    let minute = match read_two(s, 14) {
        Some(v) => v,
        None => {
            return None;
        },
    };
    let second = match read_two(s, 17) {
        Some(v) => v,
        None => {
            return None;
        },
    };
    if s.get_char(4) != '-' || s.get_char(7) != '-' || s.get_char(10) != ' ' || s.get_char(13)
        != ':' || s.get_char(16) != ':' {
        return None;
    }
    let dt = DateTime { year, month, day, hour, minute, second };
    if month < 1 || month > 12 {
        return None;
    }
    if day < 1 || day > month_days(year, month) {
        return None;
    }
    if hour > 23 || minute > 59 || second > 59 {
        return None;
    }
    Some(dt)
}

/// Seconds since 0000-01-01 00:00:00 for a valid datetime.
pub fn datetime_epoch(dt: &DateTime) -> (r: u64)
    requires
        valid_datetime(*dt),
    ensures
        r == epoch_seconds(*dt),
{
    let mut days: u64 = 0;
    let mut y: u32 = 0;
    while y < dt.year
        invariant
            valid_datetime(*dt),
            y <= dt.year,
            days == days_before_year(y as int),
            days <= 366 * (y as int),
        decreases dt.year - y,
    {
        days = days + year_days(y) as u64;
        y = y + 1;
    }
    let mut m: u32 = 1;
    while m < dt.month
        invariant
            valid_datetime(*dt),
            1 <= m <= dt.month,
            days == days_before_year(dt.year as int) + days_before_month(
                dt.year as int,
                m as int,
            ),
            days <= 366 * 9999 + 31 * (m as int - 1),
        decreases dt.month - m,
    {
        days = days + month_days(dt.year, m) as u64;
        m = m + 1;
    }
    let day_total: u64 = days + (dt.day - 1) as u64;
    day_total * 86400 + (dt.hour as u64) * 3600 + (dt.minute as u64) * 60 + (dt.second as u64)
}

/// The day-count limit as a runtime value.
pub fn epoch_limit_secs() -> (r: u64)
    ensures
        r == epoch_limit(),
{
    let mut days: u64 = 0;
    let mut y: u32 = 0;
    while y < 10000
        invariant
            y <= 10000,
            days == days_before_year(y as int),
            days <= 366 * (y as int),
        decreases 10000 - y,
    {
        days = days + year_days(y) as u64;
        y = y + 1;
    }
    days * 86400
}

/// Inverse of `datetime_epoch` on the representable range.
pub fn datetime_from_epoch(secs: u64) -> (r: DateTime)
    requires
        secs < epoch_limit(),
    ensures
        valid_datetime(r),
        epoch_seconds(r) == secs,
{
    proof {
        vstd::arithmetic::div_mod::lemma_fundamental_div_mod(secs as int, 86400);
        vstd::arithmetic::div_mod::lemma_mod_bound(secs as int, 86400);
        lemma_days_before_year_bounds(10000);
    }
    let days: u64 = secs / 86400;
    let rem: u64 = secs % 86400;
    let mut y: u32 = 0;
    let mut d: u64 = days;
    loop
        invariant
            y <= 9999,
            days_before_year(y as int) + d == days,
            days < days_before_year(10000),
        ensures
            y <= 9999,
            days_before_year(y as int) + d == days,
            d < days_in_year(y as int),
        decreases d,
    {
        let diy = year_days(y);
        if d < diy as u64 {
            break ;
        }
        proof {
            assert(days_before_year(y as int + 1) == days_before_year(y as int) + days_in_year(
                y as int,
            ));
            lemma_days_before_year_mono(y as int + 1, 10000);
        }
        d = d - diy as u64;
        y = y + 1;
    }
    let ghost d_year = d as int;
    let mut m: u32 = 1;
    loop
        invariant
            1 <= m <= 12,
            y <= 9999,
            days_before_month(y as int, m as int) + d == d_year,
            d_year < days_in_year(y as int),
        ensures
            1 <= m <= 12,
            days_before_month(y as int, m as int) + d == d_year,
            d < days_in_month(y as int, m as int),
        decreases d,
    {
        let dim = month_days(y, m);
        if d < dim as u64 {
            break ;
        }
        proof {
            assert(days_before_month(y as int, m as int + 1) == days_before_month(
                y as int,
                m as int,
            ) + days_in_month(y as int, m as int));
            lemma_days_before_month_mono(y as int, m as int + 1, 13);
            lemma_days_before_month_full_year(y as int);
        }
        d = d - dim as u64;
        m = m + 1;
    }
    let day: u32 = (d as u32) + 1;
    let rem2: u64 = rem % 3600;
    let hour: u32 = (rem / 3600) as u32;
    let minute: u32 = (rem2 / 60) as u32;
    let second: u32 = (rem2 % 60) as u32;
    proof {
        vstd::arithmetic::div_mod::lemma_fundamental_div_mod(rem as int, 3600);
        vstd::arithmetic::div_mod::lemma_mod_bound(rem as int, 3600);
        vstd::arithmetic::div_mod::lemma_fundamental_div_mod(rem2 as int, 60);
        vstd::arithmetic::div_mod::lemma_mod_bound(rem2 as int, 60);
        vstd::arithmetic::div_mod::lemma_div_is_ordered(rem as int, 86399, 3600);
        vstd::arithmetic::div_mod::lemma_div_is_ordered(rem2 as int, 3599, 60);
    }
    DateTime { year: y, month: m, day, hour, minute, second }
}

spec fn digit_char(d: int) -> char {
    (48 + d) as char
}

fn digit_str(d: u32) -> (r: &'static str)
    requires
        d <= 9,
    ensures
        r@.len() == 1,
        is_digit(r@[0]),
        digit_val(r@[0]) == d,
{
    proof {
        reveal_strlit("0");
        reveal_strlit("1");
        reveal_strlit("2");
        reveal_strlit("3");
        reveal_strlit("4");
        reveal_strlit("5");
        reveal_strlit("6");
        reveal_strlit("7");
        reveal_strlit("8");
        reveal_strlit("9");
    }
    match d {
        0 => "0",
        1 => "1",
        2 => "2",
        3 => "3",
        4 => "4",
        5 => "5",
        6 => "6",
        7 => "7",
        8 => "8",
        _ => "9",
    }
}

fn push_two(out: &mut String, v: u32)
    requires
        v <= 99,
    ensures
        final(out)@.len() == old(out)@.len() + 2,
        forall|i: int| 0 <= i < old(out)@.len() ==> final(out)@[i] == old(out)@[i],
        is_digit(final(out)@[old(out)@.len() as int]),
        is_digit(final(out)@[old(out)@.len() as int + 1]),
        two_digits(final(out)@, old(out)@.len() as int) == v,
{
    proof {
        vstd::arithmetic::div_mod::lemma_fundamental_div_mod(v as int, 10);
        vstd::arithmetic::div_mod::lemma_mod_bound(v as int, 10);
    }
    let d0 = v / 10;
    let d1 = v % 10;
    out.append(digit_str(d0));
    out.append(digit_str(d1));
}

fn push_four(out: &mut String, v: u32)
    requires
        v <= 9999,
    ensures
        final(out)@.len() == old(out)@.len() + 4,
        forall|i: int| 0 <= i < old(out)@.len() ==> final(out)@[i] == old(out)@[i],
        is_digit(final(out)@[old(out)@.len() as int]),
        is_digit(final(out)@[old(out)@.len() as int + 1]),
        is_digit(final(out)@[old(out)@.len() as int + 2]),
        is_digit(final(out)@[old(out)@.len() as int + 3]),
        four_digits(final(out)@, old(out)@.len() as int) == v,
{
    proof {
        vstd::arithmetic::div_mod::lemma_fundamental_div_mod(v as int, 100);
        vstd::arithmetic::div_mod::lemma_mod_bound(v as int, 100);
    }
    let hi = v / 100;
    let lo = v % 100;
    push_two(out, hi);
    push_two(out, lo);
}

fn push_one(out: &mut String, s: &str)
    requires
        s@.len() == 1,
    ensures
        final(out)@.len() == old(out)@.len() + 1,
        forall|i: int| 0 <= i < old(out)@.len() ==> final(out)@[i] == old(out)@[i],
        final(out)@[old(out)@.len() as int] == s@[0],
{
    out.append(s);
}

/// Render a valid datetime in the `YYYY-MM-DD HH:MM:SS` shape; parsing the
/// result gives the datetime back.
pub fn format_datetime(dt: &DateTime) -> (r: String)
    requires
        valid_datetime(*dt),
    ensures
        well_formed_datetime(r@),
        parse_datetime_seq(r@) == Some(*dt),
{
    proof {
        reveal_strlit("-");
        reveal_strlit(" ");
        reveal_strlit(":");
    }
    let mut out = String::new();
    push_four(&mut out, dt.year);
    push_one(&mut out, "-");
    push_two(&mut out, dt.month);
    push_one(&mut out, "-");
    push_two(&mut out, dt.day);
    push_one(&mut out, " ");
    push_two(&mut out, dt.hour);
    push_one(&mut out, ":");
    push_two(&mut out, dt.minute);
    push_one(&mut out, ":");
    push_two(&mut out, dt.second);
    out
}

/// The instant a stored `expires_at` string denotes, if it parses.
pub open spec fn expiry_epoch(s: Seq<char>) -> Option<int> {
    match parse_datetime_seq(s) {
        Some(dt) => Some(epoch_seconds(dt)),
        None => None,
    }
}

/// A refresh is required exactly when the stored expiry is unparseable or
/// does not lie strictly beyond `now + skew`.
pub open spec fn refresh_required(expires_at: Seq<char>, now: int, skew: int) -> bool {
    match expiry_epoch(expires_at) {
        Some(e) => e <= now + skew,
        None => true,
    }
}

/// Decide whether a stored expiry forces a refresh at instant `now` with
/// the given skew, treating an unparseable string as already expired.
pub fn check_refresh_required(expires_at: &str, now: u64, skew: u64) -> (r: bool)
    ensures
        r == refresh_required(expires_at@, now as int, skew as int),
{
    match parse_datetime(expires_at) {
        None => true,
        Some(dt) => {
            let e = datetime_epoch(&dt);
            match now.checked_add(skew) {
                Some(threshold) => e <= threshold,
                None => {
                    proof {
                        lemma_epoch_seconds_bounds(dt);
                    }
                    true
                },
            }
        },
    }
}

} // verus!
