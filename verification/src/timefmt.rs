//! Day-numbers, civil dates and the timestamps of the audit log.

use vstd::prelude::*;
use crate::text::push_char;

verus! {

/// Seconds in a day.
pub const SECONDS_PER_DAY: u64 = 86_400;

/// The day-number of the first day of the smallest year that fits the
/// result of `civil_from_days`.
pub const MIN_CIVIL_DAY: i64 = -784_353_015_833;

/// The day-number of the last day of the largest year that fits the
/// result of `civil_from_days`.
pub const MAX_CIVIL_DAY: i64 = 784_351_576_776;

/// The day-number of the instant `unix_seconds`: whole days since
/// 1970-01-01 in UTC.
pub open spec fn day_number_of(unix_seconds: u64) -> u64 {
    unix_seconds / SECONDS_PER_DAY
}

/// The day-number of the instant `unix_seconds`.
pub fn day_number_at(unix_seconds: u64) -> (day: u64)
    ensures
        day == day_number_of(unix_seconds),
{
    unix_seconds / SECONDS_PER_DAY
}

/// Day-numbers never run backwards as time goes on.
pub proof fn lemma_day_number_monotonic(earlier: u64, later: u64)
    requires
        earlier <= later,
    ensures
        day_number_of(earlier) <= day_number_of(later),
{
}

/// The time that has passed since 1970-01-01 00:00:00 UTC: whole seconds,
/// and the nanoseconds of the second that has begun.
///
/// Trusted: `SystemTime::now` reads the system clock, and
/// `duration_since(UNIX_EPOCH)` measures it from the epoch; a clock set
/// before the epoch counts as the epoch itself. `Duration::subsec_nanos` is
/// less than a second. Nothing else is claimed of the value: it differs
/// from call to call.
#[verifier::external_body]
pub(crate) fn time_since_epoch() -> (now: (u64, u32))
    ensures
        now.1 < 1_000_000_000,
{
    let elapsed = std::time::SystemTime::now().duration_since(
        std::time::UNIX_EPOCH,
    ).unwrap_or_default();
    (elapsed.as_secs(), elapsed.subsec_nanos())
}

/// Today's day-number by the system clock.
pub fn utc_day_number() -> (day: u64)
    ensures
        day <= u64::MAX / SECONDS_PER_DAY,
        exists|unix_seconds: u64| day == day_number_of(unix_seconds),
{
    let (seconds, _) = time_since_epoch();
    day_number_at(seconds)
}

/// Whether `year` has a 29th of February.
pub open spec fn is_leap_year(year: int) -> bool {
    year % 4 == 0 && (year % 100 != 0 || year % 400 == 0)
}

/// The number of days of month `month` of `year`.
pub open spec fn days_in_month(year: int, month: int) -> int {
    if month == 2 {
        if is_leap_year(year) {
            29
        } else {
            28
        }
    } else if month == 4 || month == 6 || month == 9 || month == 11 {
        30
    } else {
        31
    }
}

/// Whether `(year, month, day)` is a date of the proleptic Gregorian
/// calendar.
pub open spec fn is_civil_date(year: int, month: int, day: int) -> bool {
    1 <= month <= 12 && 1 <= day <= days_in_month(year, month)
}

/// The number of leap years among the years `1..year`, counted backwards
/// for `year < 1`.
pub open spec fn leap_years_before(year: int) -> int {
    (year - 1) / 4 - (year - 1) / 100 + (year - 1) / 400
}

/// The day-number of the first of January of `year`.
pub open spec fn days_before_year(year: int) -> int {
    365 * (year - 1970) + leap_years_before(year) - leap_years_before(1970)
}

/// The number of days of `year` that lie before its month `month`.
pub open spec fn days_before_month(year: int, month: int) -> int {
    let leap: int = if month > 2 && is_leap_year(year) {
        1
    } else {
        0
    };
    let before: int = if month <= 1 {
        0
    } else if month == 2 {
        31
    } else if month == 3 {
        59
    } else if month == 4 {
        90
    } else if month == 5 {
        120
    } else if month == 6 {
        151
    } else if month == 7 {
        181
    } else if month == 8 {
        212
    } else if month == 9 {
        243
    } else if month == 10 {
        273
    } else if month == 11 {
        304
    } else {
        334
    };
    before + leap
}

/// The day-number of a civil date: the days from 1970-01-01 to it.
pub open spec fn day_number_of_date(year: int, month: int, day: int) -> int {
    days_before_year(year) + days_before_month(year, month) + (day - 1)
}

/// The days of a 400-year cycle that lie before its year `k`, for years
/// that begin in March.
spec fn days_before_cycle_year(k: int) -> int {
    365 * k + k / 4 - k / 100 + k / 400
}

/// The year of its 400-year cycle in which day `doe` of the cycle falls.
spec fn year_of_cycle(doe: int) -> int {
    (doe - doe / 1460 + doe / 36_524 - doe / 146_096) / 365
}

proof fn lemma_year_of_cycle(doe: int)
    requires
        0 <= doe <= 146_096,
    ensures
        0 <= year_of_cycle(doe) <= 399,
        days_before_cycle_year(year_of_cycle(doe)) <= doe < days_before_cycle_year(
            year_of_cycle(doe) + 1,
        ),
{
}

/// The days of a year that begins in March that lie before its month
/// `mp`, where month 0 is March and month 11 is February.
spec fn days_before_march_month(mp: int) -> int {
    (153 * mp + 2) / 5
}

proof fn lemma_month_of_year(doy: int)
    requires
        0 <= doy <= 365,
    ensures
        ({
            let mp = (5 * doy + 2) / 153;
            &&& 0 <= mp <= 11
            &&& days_before_march_month(mp) <= doy
            &&& mp < 11 ==> doy < days_before_march_month(mp + 1)
        }),
{
}

/// The civil date of a day-number.
///
/// For every day whose year fits the result, before the epoch as well as
/// after it, the result is the one date of the proleptic Gregorian
/// calendar that lies `days_since_unix_epoch` days after 1970-01-01. The
/// year before year 1 is year 0, and the one before that is year -1.
pub fn civil_from_days(days_since_unix_epoch: i64) -> (date: (i32, u32, u32))
    requires
        MIN_CIVIL_DAY <= days_since_unix_epoch <= MAX_CIVIL_DAY,
    ensures
        is_civil_date(date.0 as int, date.1 as int, date.2 as int),
        day_number_of_date(date.0 as int, date.1 as int, date.2 as int) == days_since_unix_epoch,
        (date.0 as int, date.1 as int, date.2 as int) == civil_date_of(
            days_since_unix_epoch as int,
        ),
{
    // Days are counted from 0000-03-01, in cycles of 400 years that begin in March.
    let z = days_since_unix_epoch + 719_468;
    let era = if z >= 0 {
        z / 146_097
    } else {
        -((146_096 - z) / 146_097)
    };
    proof {
        lemma_cycle_of_day(z as int);
    }
    let doe = z - era * 146_097;
    let yoe = (doe - doe / 1460 + doe / 36_524 - doe / 146_096) / 365;
    proof {
        lemma_year_of_cycle(doe as int);
        assert(yoe == year_of_cycle(doe as int));
    }
    let y = yoe + era * 400;
    let doy = doe - (365 * yoe + yoe / 4 - yoe / 100);
    proof {
        assert(yoe / 400 == 0);
        assert(doy == doe - days_before_cycle_year(yoe as int));
        lemma_cycle_year_length(yoe as int);
        lemma_month_of_year(doy as int);
    }
    let mp = (5 * doy + 2) / 153;
    let d = doy - (153 * mp + 2) / 5 + 1;
    let m = if mp < 10 {
        mp + 3
    } else {
        mp - 9
    };
    let year = if m <= 2 {
        y + 1
    } else {
        y
    };
    proof {
        lemma_date_of_cycle_day(era as int, yoe as int, doy as int);
        lemma_civil_date_of(days_since_unix_epoch as int, year as int, m as int, d as int);
        if year > i32::MAX {
            lemma_date_within_year(year as int, m as int, d as int);
            lemma_days_before_year_monotonic(i32::MAX + 1, year as int);
            assert(days_before_year(i32::MAX + 1) == MAX_CIVIL_DAY + 1);
        }
        if year < i32::MIN {
            lemma_date_within_year(year as int, m as int, d as int);
            lemma_days_before_year_monotonic(year as int + 1, i32::MIN as int);
            assert(days_before_year(i32::MIN as int) == MIN_CIVIL_DAY);
        }
    }
    (year as i32, m as u32, d as u32)
}

/// The cycle in which a day falls, and its place in that cycle.
proof fn lemma_cycle_of_day(z: int)
    requires
        -784_352_296_365 <= z <= 784_352_296_244,
    ensures
        -5_368_710 <= z / 146_097 <= 5_368_709,
        0 <= z - (z / 146_097) * 146_097 <= 146_096,
        z < 0 ==> z / 146_097 == -((146_096 - z) / 146_097),
{
}

/// A year of the cycle has 365 or 366 days.
proof fn lemma_cycle_year_length(yoe: int)
    requires
        0 <= yoe <= 399,
    ensures
        365 <= days_before_cycle_year(yoe + 1) - days_before_cycle_year(yoe) <= 366,
{
    lemma_quotient_step(yoe + 1);
    lemma_multiples(yoe + 1);
}

/// One for a leap year, nought for any other.
spec fn leap_day(year: int) -> int {
    if is_leap_year(year) {
        1
    } else {
        0
    }
}

/// From one number to the next the quotient by `4`, `100` or `400` rises
/// by one exactly at a multiple.
proof fn lemma_quotient_step(n: int)
    ensures
        n / 4 == (n - 1) / 4 + if n % 4 == 0 { 1int } else { 0int },
        n / 100 == (n - 1) / 100 + if n % 100 == 0 { 1int } else { 0int },
        n / 400 == (n - 1) / 400 + if n % 400 == 0 { 1int } else { 0int },
{
}

/// A multiple of 400 is one of 100, and a multiple of 100 is one of 4.
proof fn lemma_multiples(n: int)
    ensures
        n % 400 == 0 ==> n % 100 == 0,
        n % 100 == 0 ==> n % 4 == 0,
{
}

/// A year adds its leap day to the count of the leap years before it.
proof fn lemma_leap_years_step(year: int)
    ensures
        leap_years_before(year + 1) == leap_years_before(year) + leap_day(year),
        days_before_year(year + 1) == days_before_year(year) + 365 + leap_day(year),
{
    lemma_quotient_step(year);
    lemma_multiples(year);
}

/// Adding whole cycles to a year shifts its quotients by 4, 100 and 400
/// and leaves the remainders.
proof fn lemma_cycle_quotients(era: int, k: int)
    ensures
        (k + era * 400) / 4 == 100 * era + k / 4,
        (k + era * 400) / 100 == 4 * era + k / 100,
        (k + era * 400) / 400 == era + k / 400,
        (k + era * 400) % 4 == k % 4,
        (k + era * 400) % 100 == k % 100,
        (k + era * 400) % 400 == k % 400,
{
}

/// Leap years repeat with the 400-year cycle.
proof fn lemma_cycle_leap(era: int, k: int)
    ensures
        leap_day(k + era * 400) == leap_day(k),
        leap_years_before(k + era * 400) == leap_years_before(k) + 97 * era,
{
    lemma_cycle_quotients(era, k);
    lemma_cycle_quotients(era, k - 1);
}

/// Within a cycle, the days before a year that begins in March are those
/// before the first of March of the civil year of the same number.
proof fn lemma_cycle_year_start(yoe: int)
    requires
        0 <= yoe <= 400,
    ensures
        days_before_cycle_year(yoe) == 365 * yoe + leap_years_before(yoe + 1),
{
}

/// The day-number of the first of March of year `yoe` of cycle `era`.
proof fn lemma_first_of_march(era: int, yoe: int)
    requires
        0 <= yoe <= 399,
    ensures
        ({
            let y = yoe + era * 400;
            &&& days_before_year(y) + 59 + leap_day(y) == era * 146_097 + days_before_cycle_year(
                yoe,
            ) - 719_468
            &&& leap_day(y + 1) == days_before_cycle_year(yoe + 1) - days_before_cycle_year(yoe)
                - 365
        }),
{
    let y = yoe + era * 400;
    lemma_cycle_leap(era, yoe);
    lemma_cycle_leap(era, yoe + 1);
    lemma_leap_years_step(y);
    lemma_leap_years_step(yoe);
    lemma_leap_years_step(yoe + 1);
    lemma_cycle_year_start(yoe);
    lemma_cycle_year_start(yoe + 1);
    assert(leap_years_before(1970) == 477);
}

/// Day `doy` of year `yoe` of cycle `era`, all counted from March, is the
/// civil date that the month and day formulas give.
proof fn lemma_date_of_cycle_day(era: int, yoe: int, doy: int)
    requires
        0 <= yoe <= 399,
        0 <= doy < days_before_cycle_year(yoe + 1) - days_before_cycle_year(yoe),
    ensures
        ({
            let mp = (5 * doy + 2) / 153;
            let d = doy - days_before_march_month(mp) + 1;
            let m = if mp < 10 {
                mp + 3
            } else {
                mp - 9
            };
            let y = yoe + era * 400;
            let year = if m <= 2 {
                y + 1
            } else {
                y
            };
            &&& is_civil_date(year, m, d)
            &&& day_number_of_date(year, m, d) == era * 146_097 + days_before_cycle_year(yoe)
                + doy - 719_468
        }),
{
    let y = yoe + era * 400;
    lemma_first_of_march(era, yoe);
    lemma_leap_years_step(y);
    lemma_month_of_year(doy);
    let mp = (5 * doy + 2) / 153;
    let d = doy - days_before_march_month(mp) + 1;
    let first_of_march = days_before_year(y) + 59 + leap_day(y);
    if mp == 0 {
        assert(day_number_of_date(y, 3, d) == first_of_march + doy);
    } else if mp == 1 {
        assert(day_number_of_date(y, 4, d) == first_of_march + doy);
    } else if mp == 2 {
        assert(day_number_of_date(y, 5, d) == first_of_march + doy);
    } else if mp == 3 {
        assert(day_number_of_date(y, 6, d) == first_of_march + doy);
    } else if mp == 4 {
        assert(day_number_of_date(y, 7, d) == first_of_march + doy);
    } else if mp == 5 {
        assert(day_number_of_date(y, 8, d) == first_of_march + doy);
    } else if mp == 6 {
        assert(day_number_of_date(y, 9, d) == first_of_march + doy);
    } else if mp == 7 {
        assert(day_number_of_date(y, 10, d) == first_of_march + doy);
    } else if mp == 8 {
        assert(day_number_of_date(y, 11, d) == first_of_march + doy);
    } else if mp == 9 {
        assert(day_number_of_date(y, 12, d) == first_of_march + doy);
    } else if mp == 10 {
        assert(day_number_of_date(y + 1, 1, d) == first_of_march + doy);
    } else {
        assert(mp == 11);
        assert(day_number_of_date(y + 1, 2, d) == first_of_march + doy);
        assert(d <= 28 + leap_day(y + 1));
    }
}

/// The character of a decimal digit.
pub open spec fn digit_char(digit: int) -> char {
    if digit == 0 {
        '0'
    } else if digit == 1 {
        '1'
    } else if digit == 2 {
        '2'
    } else if digit == 3 {
        '3'
    } else if digit == 4 {
        '4'
    } else if digit == 5 {
        '5'
    } else if digit == 6 {
        '6'
    } else if digit == 7 {
        '7'
    } else if digit == 8 {
        '8'
    } else {
        '9'
    }
}

/// `n` in decimal, without leading zeros.
pub open spec fn decimal(n: nat) -> Seq<char>
    decreases n,
{
    if n < 10 {
        seq![digit_char(n as int)]
    } else {
        decimal(n / 10).push(digit_char((n % 10) as int))
    }
}

/// `n` in decimal, with zeros in front of it up to `width` characters.
pub open spec fn zero_padded(n: nat, width: nat) -> Seq<char> {
    let digits = decimal(n);
    if digits.len() >= width {
        digits
    } else {
        Seq::new((width - digits.len()) as nat, |i: int| '0') + digits
    }
}

/// The character of the decimal digit `digit`.
fn digit_character(digit: u64) -> (c: char)
    requires
        digit < 10,
    ensures
        c == digit_char(digit as int),
{
    if digit == 0 {
        '0'
    } else if digit == 1 {
        '1'
    } else if digit == 2 {
        '2'
    } else if digit == 3 {
        '3'
    } else if digit == 4 {
        '4'
    } else if digit == 5 {
        '5'
    } else if digit == 6 {
        '6'
    } else if digit == 7 {
        '7'
    } else if digit == 8 {
        '8'
    } else {
        '9'
    }
}

/// Appends `n` in decimal to `out`, with zeros in front of it up to
/// `width` characters.
pub fn push_zero_padded(out: &mut String, n: u64, width: usize)
    ensures
        final(out)@ == old(out)@ + zero_padded(n as nat, width as nat),
{
    // The digits of `n`, last digit first.
    let mut reversed: Vec<char> = Vec::new();
    let mut rest = n;
    while rest >= 10
        invariant
            decimal(n as nat) == decimal(rest as nat) + reversed@.reverse(),
        decreases rest,
    {
        let c = digit_character(rest % 10);
        proof {
            let before = reversed@;
            let after = before.push(c);
            assert(after.reverse() == seq![c] + before.reverse());
            assert(decimal(rest as nat) == decimal((rest / 10) as nat).push(c));
            assert(decimal((rest / 10) as nat).push(c) + before.reverse() == decimal(
                (rest / 10) as nat,
            ) + after.reverse());
        }
        reversed.push(c);
        rest = rest / 10;
    }
    let c = digit_character(rest);
    proof {
        let before = reversed@;
        let after = before.push(c);
        assert(after.reverse() == seq![c] + before.reverse());
        assert(decimal(rest as nat) == seq![c]);
    }
    reversed.push(c);
    let ghost digits = decimal(n as nat);
    assert(digits == reversed@.reverse());
    let ghost start = out@;
    let mut pad: usize = reversed.len();
    while pad < width
        invariant
            reversed@.len() <= pad,
            pad <= width || pad == reversed@.len(),
            out@ == start + Seq::new((pad - reversed@.len()) as nat, |i: int| '0'),
        decreases width - pad,
    {
        push_char(out, '0');
        pad += 1;
    }
    let ghost padding = out@;
    assert(padding + digits == start + zero_padded(n as nat, width as nat));
    let mut i: usize = reversed.len();
    while i > 0
        invariant
            i <= reversed@.len(),
            digits == reversed@.reverse(),
            out@ == padding + digits.subrange(0, reversed@.len() - i),
        decreases i,
    {
        i -= 1;
        push_char(out, reversed[i]);
    }
    assert(digits.subrange(0, digits.len() as int) == digits);
}

/// The first of January comes later in a later year.
proof fn lemma_days_before_year_monotonic(earlier: int, later: int)
    requires
        earlier <= later,
    ensures
        days_before_year(earlier) <= days_before_year(later),
    decreases later - earlier,
{
    if earlier < later {
        lemma_days_before_year_monotonic(earlier, later - 1);
        lemma_leap_years_step(later - 1);
    }
}

/// Every civil date lies within its year.
proof fn lemma_date_within_year(year: int, month: int, day: int)
    requires
        is_civil_date(year, month, day),
    ensures
        days_before_year(year) <= day_number_of_date(year, month, day) < days_before_year(
            year + 1,
        ),
{
    lemma_leap_years_step(year);
}

/// A later civil date has a larger day-number.
pub proof fn lemma_day_number_increases(
    year1: int,
    month1: int,
    day1: int,
    year2: int,
    month2: int,
    day2: int,
)
    requires
        is_civil_date(year1, month1, day1),
        is_civil_date(year2, month2, day2),
        year1 < year2 || (year1 == year2 && (month1 < month2 || (month1 == month2 && day1
            < day2))),
    ensures
        day_number_of_date(year1, month1, day1) < day_number_of_date(year2, month2, day2),
{
    if year1 < year2 {
        lemma_date_within_year(year1, month1, day1);
        lemma_date_within_year(year2, month2, day2);
        lemma_days_before_year_monotonic(year1 + 1, year2);
    }
}

/// No two civil dates share a day-number.
pub proof fn lemma_day_number_injective(
    year1: int,
    month1: int,
    day1: int,
    year2: int,
    month2: int,
    day2: int,
)
    requires
        is_civil_date(year1, month1, day1),
        is_civil_date(year2, month2, day2),
        day_number_of_date(year1, month1, day1) == day_number_of_date(year2, month2, day2),
    ensures
        year1 == year2,
        month1 == month2,
        day1 == day2,
{
    if year1 < year2 || (year1 == year2 && (month1 < month2 || (month1 == month2 && day1
        < day2))) {
        lemma_day_number_increases(year1, month1, day1, year2, month2, day2);
    } else if year2 < year1 || (year1 == year2 && (month2 < month1 || (month1 == month2 && day2
        < day1))) {
        lemma_day_number_increases(year2, month2, day2, year1, month1, day1);
    }
}

/// The civil date with day-number `days`.
pub open spec fn civil_date_of(days: int) -> (int, int, int) {
    choose|date: (int, int, int)|
        is_civil_date(date.0, date.1, date.2) && day_number_of_date(date.0, date.1, date.2)
            == days
}

/// The civil date with a given day-number is the only one with it.
pub proof fn lemma_civil_date_of(days: int, year: int, month: int, day: int)
    requires
        is_civil_date(year, month, day),
        day_number_of_date(year, month, day) == days,
    ensures
        civil_date_of(days) == (year, month, day),
{
    let found = civil_date_of(days);
    let given = (year, month, day);
    assert(is_civil_date(given.0, given.1, given.2) && day_number_of_date(
        given.0,
        given.1,
        given.2,
    ) == days);
    lemma_day_number_injective(found.0, found.1, found.2, year, month, day);
}

/// The offset that a timestamp is written with: the one reported for
/// local time if it is a whole number of minutes, else none.
pub open spec fn effective_offset(reported: Option<i32>) -> int {
    match reported {
        Some(seconds) => if seconds % 60 == 0 {
            seconds as int
        } else {
            0
        },
        None => 0,
    }
}

/// The size of `offset`, without its sign.
pub open spec fn magnitude(offset: int) -> nat {
    if offset >= 0 {
        offset as nat
    } else {
        (-offset) as nat
    }
}

/// The timestamp of the instant `unix_ms` milliseconds after the epoch, on
/// a clock that runs `offset` seconds ahead of UTC:
/// `YYYY-MM-DDTHH:MM:SS.mmm+HH:MM`, with the date and time of day of that
/// clock and the sign of the offset.
pub open spec fn timestamp_text(unix_ms: u64, offset: int) -> Seq<char> {
    let local = unix_ms / 1000 + offset;
    let date = civil_date_of(local / 86_400);
    let second_of_day = local % 86_400;
    let ahead = magnitude(offset);
    zero_padded(date.0 as nat, 4) + seq!['-'] + zero_padded(date.1 as nat, 2) + seq!['-']
        + zero_padded(date.2 as nat, 2) + seq!['T'] + zero_padded(
        (second_of_day / 3600) as nat,
        2,
    ) + seq![':'] + zero_padded(((second_of_day % 3600) / 60) as nat, 2) + seq![':']
        + zero_padded((second_of_day % 60) as nat, 2) + seq!['.'] + zero_padded(
        (unix_ms % 1000) as nat,
        3,
    ) + seq![
        if offset >= 0 {
            '+'
        } else {
            '-'
        },
    ] + zero_padded(ahead / 3600, 2) + seq![':'] + zero_padded((ahead % 3600) / 60, 2)
}

/// The offset to write a timestamp with, given the one reported for local
/// time.
pub fn offset_for_timestamp(reported: Option<i32>) -> (offset: i64)
    ensures
        offset == effective_offset(reported),
{
    match reported {
        Some(seconds) => if seconds % 60 == 0 {
            seconds as i64
        } else {
            0
        },
        None => 0,
    }
}

/// Appends the single character `c` to `out`.
fn append_char(out: &mut String, c: char)
    ensures
        final(out)@ == old(out)@ + seq![c],
{
    push_char(out, c);
    assert(old(out)@.push(c) == old(out)@ + seq![c]);
}

/// The day in which second `local` falls, and its place in that day.
fn split_seconds(local: i64) -> (parts: (i64, u64))
    requires
        i32::MIN <= local <= u64::MAX / 1000 + i32::MAX,
    ensures
        parts.0 == (local as int) / 86_400,
        parts.1 == (local as int) % 86_400,
        -24_856 <= parts.0 <= 213_504_007_189,
{
    if local >= 0 {
        (local / 86_400, (local % 86_400) as u64)
    } else {
        let back = -local;
        let whole = (back + 86_399) / 86_400;
        (-whole, (whole * 86_400 - back) as u64)
    }
}

/// The timestamp of the instant `unix_ms` in local time.
///
/// `reported_offset` is the offset of local time from UTC at that instant,
/// in seconds, as the platform reports it, or `None` where it reports
/// nothing. An offset that is not a whole number of minutes is not used:
/// the timestamp is then in UTC.
pub fn format_unix_ms_rfc3339_local(unix_ms: u64, reported_offset: Option<i32>) -> (text: String)
    ensures
        text@ == timestamp_text(unix_ms, effective_offset(reported_offset)),
{
    let secs = (unix_ms / 1000) as i64;
    let millis = unix_ms % 1000;
    let offset = offset_for_timestamp(reported_offset);
    let (days, second_of_day) = split_seconds(secs + offset);
    let (year, month, day) = civil_from_days(days);
    proof {
        if year < 1901 {
            lemma_date_within_year(year as int, month as int, day as int);
            lemma_days_before_year_monotonic(year as int + 1, 1901);
            assert(days_before_year(1901) == -25_202);
        }
    }
    let ahead: u64 = if offset >= 0 {
        offset as u64
    } else {
        (-offset) as u64
    };
    let sign = if offset >= 0 {
        '+'
    } else {
        '-'
    };
    let mut text = String::new();
    assert(text@ + zero_padded(year as nat, 4) == zero_padded(year as nat, 4));
    push_zero_padded(&mut text, year as u64, 4);
    append_char(&mut text, '-');
    push_zero_padded(&mut text, month as u64, 2);
    append_char(&mut text, '-');
    push_zero_padded(&mut text, day as u64, 2);
    append_char(&mut text, 'T');
    push_zero_padded(&mut text, second_of_day / 3600, 2);
    append_char(&mut text, ':');
    push_zero_padded(&mut text, (second_of_day % 3600) / 60, 2);
    append_char(&mut text, ':');
    push_zero_padded(&mut text, second_of_day % 60, 2);
    append_char(&mut text, '.');
    push_zero_padded(&mut text, millis, 3);
    append_char(&mut text, sign);
    push_zero_padded(&mut text, ahead / 3600, 2);
    append_char(&mut text, ':');
    push_zero_padded(&mut text, (ahead % 3600) / 60, 2);
    text
}

/// Where the offset of local time from UTC is looked up.
pub trait LocalTime {
    /// The offset of local time from UTC at the instant `unix_seconds`, in
    /// seconds east of UTC, or `None` where it cannot be told.
    fn local_offset_seconds(&self, unix_seconds: i64) -> Option<i32>;
}

/// A place where nothing is known of local time: every timestamp is in
/// UTC.
#[derive(Debug, Clone, Copy, PartialEq, Eq, Default)]
pub struct NoLocalTime;

impl LocalTime for NoLocalTime {
    fn local_offset_seconds(&self, unix_seconds: i64) -> (offset: Option<i32>)
        ensures
            offset is None,
    {
        None
    }
}

/// The timestamp of this instant by the system clock, in the local time
/// that `zone` tells.
///
/// The clock is read in milliseconds since the epoch, as far as they fit 64
/// bits, and the offset is looked up for the second that the clock shows.
pub fn now_timestamp_rfc3339<Z: LocalTime>(zone: &Z) -> (text: String)
    ensures
        exists|unix_ms: u64, reported: Option<i32>|
            text@ == timestamp_text(unix_ms, effective_offset(reported)),
{
    let (seconds, nanos) = time_since_epoch();
    let millis = (nanos / 1_000_000) as u64;
    let unix_ms = seconds.wrapping_mul(1000).wrapping_add(millis);
    let reported = zone.local_offset_seconds((unix_ms / 1000) as i64);
    format_unix_ms_rfc3339_local(unix_ms, reported)
}

} // verus!
