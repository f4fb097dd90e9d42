//! Dates and timestamps.
use crate::text::{decimal, decimal_text};
use vstd::prelude::*;

verus! {

pub open spec fn is_leap(y: int) -> bool {
    y % 4 == 0 && (y % 100 != 0 || y % 400 == 0)
}

pub open spec fn year_len(y: int) -> int {
    if is_leap(y) {
        366
    } else {
        365
    }
}

pub open spec fn month_len(y: int, m: int) -> int {
    if m == 2 {
        if is_leap(y) {
            29
        } else {
            28
        }
    } else if m == 4 || m == 6 || m == 9 || m == 11 {
        30
    } else {
        31
    }
}

/// How many leap years there are from the year one to the year before a given
/// one.
pub open spec fn leaps_before(y: int) -> int {
    (y - 1) / 4 - (y - 1) / 100 + (y - 1) / 400
}

/// How many days the first of January of a year comes after that of 1970.
pub open spec fn days_to_year(y: int) -> int {
    365 * (y - 1970) + leaps_before(y) - leaps_before(1970)
}

/// How many days a month begins after its year.
pub open spec fn days_to_month(y: int, m: int) -> int
    decreases m,
{
    if m <= 1 {
        0
    } else {
        days_to_month(y, m - 1) + month_len(y, m - 1)
    }
}

/// A day of the Gregorian calendar: a year, a month and a day of the month.
pub open spec fn is_date(t: (int, int, int)) -> bool {
    1 <= t.1 <= 12 && 1 <= t.2 <= month_len(t.0, t.1)
}

/// How many days a date comes after the first of January 1970.
pub open spec fn day_number(t: (int, int, int)) -> int {
    days_to_year(t.0) + days_to_month(t.0, t.1) + t.2 - 1
}

/// The date that comes a number of days after the first of January 1970.
pub open spec fn civil(days: int) -> (int, int, int) {
    choose|t: (int, int, int)| is_date(t) && #[trigger] day_number(t) == days
}

proof fn lemma_step_4(y: int)
    ensures
        y / 4 - (y - 1) / 4 == if y % 4 == 0 {
            1int
        } else {
            0
        },
{
}

proof fn lemma_step_100(y: int)
    ensures
        y / 100 - (y - 1) / 100 == if y % 100 == 0 {
            1int
        } else {
            0
        },
{
}

proof fn lemma_step_400(y: int)
    ensures
        y / 400 - (y - 1) / 400 == if y % 400 == 0 {
            1int
        } else {
            0
        },
{
}

proof fn lemma_divides(y: int)
    ensures
        y % 400 == 0 ==> y % 100 == 0,
        y % 100 == 0 ==> y % 4 == 0,
{
}

proof fn lemma_next_year(y: int)
    ensures
        days_to_year(y + 1) == days_to_year(y) + year_len(y),
{
    let a = y / 4 - (y - 1) / 4;
    let b = y / 100 - (y - 1) / 100;
    let c = y / 400 - (y - 1) / 400;
    assert(a == if y % 4 == 0 {
        1int
    } else {
        0
    }) by {
        lemma_step_4(y);
    }
    assert(b == if y % 100 == 0 {
        1int
    } else {
        0
    }) by {
        lemma_step_100(y);
    }
    assert(c == if y % 400 == 0 {
        1int
    } else {
        0
    }) by {
        lemma_step_400(y);
    }
    lemma_divides(y);
    assert(days_to_year(y + 1) - days_to_year(y) == 365 + a - b + c);
}

proof fn lemma_era(era: int)
    ensures
        days_to_year(2000 + 400 * era) == 10957 + 146097 * era,
{
    assert((1999 + 400 * era) / 4 == 499 + 100 * era);
    assert((1999 + 400 * era) / 100 == 19 + 4 * era);
    assert((1999 + 400 * era) / 400 == 4 + era);
}

proof fn lemma_leap_repeats(y: int, k: int)
    ensures
        is_leap(y + 400 * k) == is_leap(y),
{
    assert((y + 400 * k) % 4 == y % 4);
    assert((y + 400 * k) % 100 == y % 100);
    assert((y + 400 * k) % 400 == y % 400);
}

proof fn lemma_years_ascend(a: int, b: int)
    requires
        a <= b,
    ensures
        days_to_year(a) <= days_to_year(b),
        a < b ==> days_to_year(a + 1) <= days_to_year(b),
    decreases b - a,
{
    if a < b {
        lemma_next_year(b - 1);
        lemma_next_year(a);
        lemma_years_ascend(a, b - 1);
    }
}

proof fn lemma_months(y: int)
    ensures
        days_to_month(y, 13) == year_len(y),
        forall|m: int| 1 <= m <= 12 ==> #[trigger] days_to_month(y, m) + month_len(y, m)
            == days_to_month(y, m + 1),
{
    reveal_with_fuel(days_to_month, 14);
}

proof fn lemma_months_ascend(y: int, a: int, b: int)
    requires
        1 <= a <= b <= 13,
    ensures
        days_to_month(y, a) <= days_to_month(y, b),
        a < b ==> days_to_month(y, a) + month_len(y, a) <= days_to_month(y, b),
    decreases b - a,
{
    if a < b {
        lemma_months_ascend(y, a, b - 1);
    }
}

/// No two dates come equally many days after the first of January 1970.
pub proof fn law_a_day_has_one_date(a: (int, int, int), b: (int, int, int))
    requires
        is_date(a),
        is_date(b),
        day_number(a) == day_number(b),
    ensures
        a == b,
{
    lemma_months(a.0);
    lemma_months(b.0);
    lemma_months_ascend(a.0, a.1, 13);
    lemma_months_ascend(b.0, b.1, 13);
    lemma_months_ascend(a.0, 1, a.1);
    lemma_months_ascend(b.0, 1, b.1);
    lemma_next_year(a.0);
    lemma_next_year(b.0);
    if a.0 < b.0 {
        lemma_years_ascend(a.0, b.0);
    } else if b.0 < a.0 {
        lemma_years_ascend(b.0, a.0);
    } else if a.1 < b.1 {
        lemma_months_ascend(a.0, a.1, b.1);
    } else if b.1 < a.1 {
        lemma_months_ascend(a.0, b.1, a.1);
    }
}

fn leap(y: i128) -> (r: bool)
    requires
        y >= 0,
    ensures
        r == is_leap(y as int),
{
    y % 4 == 0 && (y % 100 != 0 || y % 400 == 0)
}

fn year_days(y: i128) -> (n: i128)
    requires
        y >= 0,
    ensures
        n == year_len(y as int),
{
    if leap(y) {
        366
    } else {
        365
    }
}

fn month_days(is_leap_year: bool, m: u32) -> (n: u32)
    ensures
        forall|y: int| is_leap(y) == is_leap_year ==> n == #[trigger] month_len(y, m as int),
        28 <= n <= 31,
{
    if m == 2 {
        if is_leap_year {
            29
        } else {
            28
        }
    } else if m == 4 || m == 6 || m == 9 || m == 11 {
        30
    } else {
        31
    }
}

/// The year in which a day lies, and how many days of it come before.
fn find_year(days_since_epoch: i64) -> (out: (i64, u32))
    requires
        days_since_epoch <= i64::MAX - 719468,
    ensures
        0 <= out.1 < year_len(out.0 as int),
        days_to_year(out.0 as int) + out.1 == days_since_epoch,
{
    // Counted from a year far back that is a multiple of four hundred, so that
    // nothing is negative.
    let n: i128 = days_since_epoch as i128 - 10957 + 10226790000000000000;
    let era: i128 = n / 146097;
    let mut rest: i128 = n % 146097;
    let mut past: i128 = 400 * era;
    let ghost base = 2000 - 28000000000000000int;
    proof {
        lemma_era(era as int - 70000000000000);
        assert(base + past == 2000 + 400 * (era as int - 70000000000000));
        assert(n == 146097 * era + rest);
    }
    assert(days_to_year(base + past as int) + rest == days_since_epoch);
    while rest >= year_days(past)
        invariant
            0 <= rest <= 146097,
            base == 2000 - 28000000000000000int,
            0 <= past <= 60000000000000000 - rest,
            days_to_year(base + past as int) + rest == days_since_epoch,
        decreases rest,
    {
        proof {
            lemma_next_year(base + past as int);
            lemma_leap_repeats(past as int, 5 - 70000000000000);
            assert(past as int + 400 * (5 - 70000000000000) == base + past as int);
        }
        rest = rest - year_days(past);
        past = past + 1;
    }
    proof {
        lemma_leap_repeats(past as int, 5 - 70000000000000);
        assert(past as int + 400 * (5 - 70000000000000) == base + past as int);
    }
    ((past - 28000000000000000 + 2000) as i64, rest as u32)
}

/// The month in which a day of a year lies, and which day of it that is.
fn find_month(y: i64, rest: u32) -> (out: (u32, u32))
    requires
        0 <= rest < year_len(y as int),
        y >= -30000000000000000,
    ensures
        1 <= out.0 <= 12,
        1 <= out.1 <= month_len(y as int, out.0 as int),
        days_to_month(y as int, out.0 as int) + out.1 - 1 == rest,
{
    let ghost year = y as int;
    let is_leap_year: bool = leap(y as i128 + 30000000000000000);
    proof {
        lemma_leap_repeats(year, 75000000000000);
        assert(year + 400 * 75000000000000 == year + 30000000000000000);
        lemma_months(year);
    }
    let mut month: u32 = 1;
    let mut left: u32 = rest;
    assert(days_to_month(year, 1) == 0);
    while month < 12 && left >= month_days(is_leap_year, month)
        invariant
            1 <= month <= 12,
            is_leap(year) == is_leap_year,
            left <= 366,
            days_to_month(year, 13) == year_len(year),
            rest < year_len(year),
            forall|m: int| 1 <= m <= 12 ==> #[trigger] days_to_month(year, m) + month_len(year, m)
                == days_to_month(year, m + 1),
            days_to_month(year, month as int) + left == rest,
        decreases 12 - month,
    {
        assert(days_to_month(year, month as int) + month_len(year, month as int) == days_to_month(
            year,
            month as int + 1,
        ));
        left = left - month_days(is_leap_year, month);
        month = month + 1;
    }
    proof {
        if month == 12 {
            assert(days_to_month(year, 12) + month_len(year, 12) == days_to_month(year, 13));
        }
    }
    (month, left + 1)
}

/// The date that comes a number of days after the first of January 1970.
pub fn civil_from_days(days_since_epoch: i64) -> (out: (i64, u32, u32))
    requires
        days_since_epoch <= i64::MAX - 719468,
    ensures
        is_date((out.0 as int, out.1 as int, out.2 as int)),
        day_number((out.0 as int, out.1 as int, out.2 as int)) == days_since_epoch,
        (out.0 as int, out.1 as int, out.2 as int) == civil(days_since_epoch as int),
{
    let (year, rest) = find_year(days_since_epoch);
    proof {
        lemma_year_bound(year as int, rest as int);
    }
    let (month, day) = find_month(year, rest);
    proof {
        let t = (year as int, month as int, day as int);
        assert(is_date(t));
        assert(day_number(t) == days_since_epoch);
        law_a_day_has_one_date(t, civil(days_since_epoch as int));
    }
    (year, month, day)
}

proof fn lemma_year_bound(y: int, rest: int)
    requires
        days_to_year(y) + rest >= i64::MIN,
        0 <= rest <= 366,
    ensures
        y >= -30000000000000000,
{
    if y < -30000000000000000 {
        lemma_years_ascend_far(y);
    }
}

proof fn lemma_years_ascend_far(y: int)
    requires
        y < -30000000000000000,
    ensures
        days_to_year(y) < i64::MIN - 366,
{
    let q = y - 1;
    assert(q / 4 <= q / 4 && q / 400 <= 0);
    assert(q / 100 >= q / 4) by {
        lemma_quarter(q);
    }
    assert(leaps_before(y) <= 0);
}

proof fn lemma_quarter(q: int)
    requires
        q < 0,
    ensures
        q / 100 >= q / 4,
{
}

/// A number in at least `width` digits, filled up with noughts.
pub open spec fn padded(n: nat, width: nat) -> Seq<char> {
    let digits = decimal(n);
    if digits.len() >= width {
        digits
    } else {
        Seq::new((width - digits.len()) as nat, |i: int| '0') + digits
    }
}

fn pad(n: u64, width: usize) -> (out: String)
    ensures
        out@ == padded(n as nat, width as nat),
{
    let digits: String = decimal_text(n);
    let len: usize = crate::text::chars_of(digits.as_str()).len();
    let mut out: String = String::new();
    let mut i: usize = len;
    while i < width
        invariant
            len <= i,
            i <= width || i == len,
            out@ =~= Seq::new((i - len) as nat, |i: int| '0'),
        decreases width - i,
    {
        out.push('0');
        i += 1;
    }
    out.append(digits.as_str());
    assert(out@ =~= padded(n as nat, width as nat));
    out
}

/// A moment: seconds and milliseconds after the first of January 1970, as a
/// text.
pub open spec fn timestamp(secs: nat, millis: nat) -> Seq<char> {
    let (year, month, day) = civil((secs / 86400) as int);
    let sod = secs % 86400;
    padded(year as nat, 4) + "-"@ + padded(month as nat, 2) + "-"@ + padded(day as nat, 2) + "T"@
        + padded(sod / 3600, 2) + ":"@ + padded((sod / 60) % 60, 2) + ":"@ + padded(sod % 60, 2)
        + "."@ + padded(millis, 3) + "Z"@
}

proof fn lemma_year_positive(t: (int, int, int))
    requires
        is_date(t),
        day_number(t) >= 0,
    ensures
        t.0 >= 1970,
{
    if t.0 < 1970 {
        lemma_months(t.0);
        lemma_months_ascend(t.0, t.1, 13);
        lemma_next_year(t.0);
        lemma_years_ascend(t.0, 1970);
    }
}

/// A moment as a text.
pub fn rfc3339(secs: u64, millis: u32) -> (out: String)
    requires
        secs <= i64::MAX,
    ensures
        out@ == timestamp(secs as nat, millis as nat),
{
    let days: u64 = secs / 86400;
    let sod: u64 = secs % 86400;
    let (year, month, day) = civil_from_days(days as i64);
    proof {
        lemma_year_positive((year as int, month as int, day as int));
    }
    let mut out: String = pad(year as u64, 4);
    out.append("-");
    out.append(pad(month as u64, 2).as_str());
    out.append("-");
    out.append(pad(day as u64, 2).as_str());
    out.append("T");
    out.append(pad(sod / 3600, 2).as_str());
    out.append(":");
    out.append(pad((sod / 60) % 60, 2).as_str());
    out.append(":");
    out.append(pad(sod % 60, 2).as_str());
    out.append(".");
    out.append(pad(millis as u64, 3).as_str());
    out.append("Z");
    out
}

proof fn lemma_padded_width(n: nat, width: nat)
    requires
        1 <= width <= 4,
        width == 2 ==> n < 100,
        width == 3 ==> n < 1000,
        width == 4 ==> n < 10000,
        width == 1 ==> n < 10,
    ensures
        padded(n, width).len() == width,
{
    reveal_with_fuel(decimal, 5);
}

/// Every timestamp up to the year 9999 has the same shape: twenty-four
/// characters, with the separators in their places.
pub proof fn law_timestamps_have_one_shape(secs: nat, millis: nat)
    requires
        secs < 253402300800,
        millis < 1000,
    ensures
        ({
            let ts = timestamp(secs, millis);
            &&& ts.len() == 24
            &&& ts[4] == '-' && ts[7] == '-' && ts[10] == 'T'
            &&& ts[13] == ':' && ts[16] == ':' && ts[19] == '.' && ts[23] == 'Z'
        }),
{
    let days = (secs / 86400) as int;
    let t = civil(days);
    lemma_some_date(days);
    lemma_year_positive(t);
    if t.0 >= 10000 {
        lemma_years_ascend(10000, t.0);
        lemma_months_ascend(t.0, 1, t.1);
        assert(days_to_year(10000) == 2932897);
    }
    let sod = secs % 86400;
    lemma_padded_width(t.0 as nat, 4);
    lemma_padded_width(t.1 as nat, 2);
    lemma_padded_width(t.2 as nat, 2);
    lemma_padded_width(sod / 3600, 2);
    lemma_padded_width((sod / 60) % 60, 2);
    lemma_padded_width(sod % 60, 2);
    lemma_padded_width(millis, 3);
    reveal_strlit("-");
    reveal_strlit("T");
    reveal_strlit(":");
    reveal_strlit(".");
    reveal_strlit("Z");
}

/// Every day from the first of January 1970 on has a date.
proof fn lemma_some_date(days: int)
    requires
        days >= 0,
    ensures
        is_date(civil(days)),
        day_number(civil(days)) == days,
    decreases days,
{
    if days == 0 {
        assert(day_number((1970, 1, 1)) == 0);
        assert(is_date((1970, 1, 1)));
    } else {
        lemma_some_date(days - 1);
        let (y, m, d) = civil(days - 1);
        lemma_months(y);
        assert(days_to_month(y, m) + month_len(y, m) == days_to_month(y, m + 1));
        if d < month_len(y, m) {
            assert(is_date((y, m, d + 1)));
            assert(day_number((y, m, d + 1)) == days);
        } else if m < 12 {
            assert(is_date((y, m + 1, 1)));
            assert(day_number((y, m + 1, 1)) == days);
        } else {
            lemma_next_year(y);
            assert(is_date((y + 1, 1, 1)));
            assert(day_number((y + 1, 1, 1)) == days);
        }
    }
}

/// The calendar: the first day is that of 1970, a day is followed by the next of
/// its month, the last of a month by the first of the next, and the last of a
/// year by the first of the next year.
pub proof fn law_days_follow_each_other(t: (int, int, int))
    requires
        is_date(t),
    ensures
        is_date((1970, 1, 1)) && day_number((1970, 1, 1)) == 0,
        ({
            let next = if is_date((t.0, t.1, t.2 + 1)) {
                (t.0, t.1, t.2 + 1)
            } else if t.1 < 12 {
                (t.0, t.1 + 1, 1int)
            } else {
                (t.0 + 1, 1int, 1int)
            };
            is_date(next) && day_number(next) == day_number(t) + 1
        }),
{
    lemma_months(t.0);
    assert(days_to_month(t.0, t.1) + month_len(t.0, t.1) == days_to_month(t.0, t.1 + 1));
    lemma_next_year(t.0);
    assert(days_to_month(t.0 + 1, 1) == 0);
    assert(day_number((1970, 1, 1)) == 0);
}

/// The lengths of the months, and the years in which February has a day more:
/// those that 4 divides, but not 100, and those that 400 divides.
pub proof fn law_months_of_a_year(y: int)
    ensures
        month_len(y, 2) == if (y % 4 == 0 && y % 100 != 0) || y % 400 == 0 {
            29int
        } else {
            28
        },
        month_len(y, 4) == 30 && month_len(y, 6) == 30 && month_len(y, 9) == 30 && month_len(y, 11)
            == 30,
        month_len(y, 1) == 31 && month_len(y, 3) == 31 && month_len(y, 5) == 31 && month_len(y, 7)
            == 31 && month_len(y, 8) == 31 && month_len(y, 10) == 31 && month_len(y, 12) == 31,
{
    lemma_divides(y);
}

/// A number that is filled up with noughts is still that number, in as many
/// digits as asked for or more.
pub proof fn law_padded_numbers(n: nat, width: nat)
    ensures
        padded(n, width).len() >= width,
        padded(n, width).len() == width || padded(n, width) == decimal(n),
        crate::text::all_digits(padded(n, width)),
        crate::text::digits_value(padded(n, width)) == n,
{
    let digits = decimal(n);
    crate::text::lemma_decimal(n);
    if digits.len() < width {
        let k = (width - digits.len()) as nat;
        lemma_noughts(k, digits);
        let all = padded(n, width);
        assert forall|i: int| 0 <= i < all.len() implies crate::text::is_digit(
            #[trigger] all[i],
        ) by {
            if i >= k {
                assert(all[i] == digits[i - k]);
            }
        }
    }
}

proof fn lemma_noughts(k: nat, digits: Seq<char>)
    ensures
        crate::text::digits_value(Seq::new(k, |i: int| '0') + digits) == crate::text::digits_value(
            digits,
        ),
    decreases k + digits.len(),
{
    let all = Seq::new(k, |i: int| '0') + digits;
    if digits.len() > 0 {
        lemma_noughts(k, digits.drop_last());
        assert(all.drop_last() =~= Seq::new(k, |i: int| '0') + digits.drop_last());
    } else if k > 0 {
        lemma_noughts((k - 1) as nat, digits);
        assert(all.drop_last() =~= Seq::new((k - 1) as nat, |i: int| '0') + digits);
    } else {
        assert(all =~= digits);
    }
}

/// A moment as a text tells its date and its time of day: the date is the one
/// whose day it falls on, and the hours, minutes and seconds are those since
/// midnight.
pub proof fn law_what_a_timestamp_tells(secs: nat, millis: nat)
    ensures
        exists|t: (int, int, int), h: nat, m: nat, s: nat|
            {
                &&& is_date(t)
                &&& h < 24 && m < 60 && s < 60
                &&& day_number(t) * 86400 + h * 3600 + m * 60 + s == secs
                &&& timestamp(secs, millis) == #[trigger] moment(t, h, m, s, millis)
            },
{
    let days = (secs / 86400) as int;
    lemma_some_date(days);
    let sod = secs % 86400;
    let t = civil(days);
    let h = sod / 3600;
    let m = (sod / 60) % 60;
    let s = sod % 60;
    assert(h * 3600 + m * 60 + s == sod);
    assert(timestamp(secs, millis) == moment(t, h, m, s, millis));
}

/// A date and a time of day as a text.
pub open spec fn moment(t: (int, int, int), h: nat, m: nat, s: nat, millis: nat) -> Seq<char> {
    padded(t.0 as nat, 4) + "-"@ + padded(t.1 as nat, 2) + "-"@ + padded(t.2 as nat, 2) + "T"@
        + padded(h, 2) + ":"@ + padded(m, 2) + ":"@ + padded(s, 2) + "."@ + padded(millis, 3)
        + "Z"@
}

} // verus!
