//! The system clock and the civil calendar.
use vstd::prelude::*;
use vstd::arithmetic::div_mod::{lemma_fundamental_div_mod_converse, lemma_mod_multiples_vanish};
use vstd::string::*;
use crate::text::{
    decimal, decimal_is_worth_the_number, digit_char, digits_value, first_difference_decides,
    padded_decimal, padding_keeps_the_value, same_start_keeps_order, text_lt, zero_pad,
};

verus! {

/// `std::time::SystemTime::elapsed` of the Unix epoch: the seconds since then,
/// or nothing where the clock stands before it.
#[verifier::external_body]
pub(crate) fn unix_seconds() -> (secs: Option<u64>) {
    std::time::UNIX_EPOCH.elapsed().ok().map(|d| d.as_secs())
}

/// A leap year of the Gregorian calendar.
pub open spec fn is_leap(y: int) -> bool {
    y % 4 == 0 && (y % 100 != 0 || y % 400 == 0)
}

/// Days of a month.
pub open spec fn month_len(y: int, m: int) -> int {
    if m == 2 {
        if is_leap(y) {
            29
        } else {
            28
        }
    } else if m == 4 || m == 6 || m == 9 || m == 11 {
        30
    } else {
        31
    }
}

/// A date of the calendar.
pub open spec fn is_date(y: int, m: int, d: int) -> bool {
    1 <= m <= 12 && 1 <= d <= month_len(y, m)
}

/// Days from the start of 1970 to the start of `y`.
pub open spec fn days_to_year(y: int) -> int
    decreases y - 1970,
{
    if y <= 1970 {
        0
    } else {
        days_to_year(y - 1) + (if is_leap(y - 1) {
            366int
        } else {
            365int
        })
    }
}

/// Days from the start of `y` to the start of its month `m`.
pub open spec fn days_to_month(y: int, m: int) -> int
    decreases m,
{
    if m <= 1 {
        0
    } else {
        days_to_month(y, m - 1) + month_len(y, m - 1)
    }
}

/// Days from the Unix epoch to a date.
pub open spec fn day_number(y: int, m: int, d: int) -> int {
    days_to_year(y) + days_to_month(y, m) + d - 1
}

/// Days from the first of March of the year zero to that of `y`.
spec fn march_days(y: int) -> int {
    365 * y + y / 4 - y / 100 + y / 400
}

proof fn march_step(y: int)
    requires
        y >= 0,
    ensures
        march_days(y + 1) - march_days(y) == (if is_leap(y + 1) {
            366int
        } else {
            365int
        }),
{
}

proof fn year_start(y: int)
    requires
        y >= 1970,
    ensures
        days_to_year(y) + 59 + (if is_leap(y) {
            1int
        } else {
            0int
        }) == march_days(y) - 719468,
    decreases y,
{
    if y > 1970 {
        year_start(y - 1);
        march_step(y - 1);
    }
}

proof fn month_starts(y: int)
    ensures
        ({
            let l: int = if is_leap(y) {
                1
            } else {
                0
            };
            &&& days_to_month(y, 1) == 0
            &&& days_to_month(y, 2) == 31
            &&& days_to_month(y, 3) == 59 + l
            &&& days_to_month(y, 4) == 90 + l
            &&& days_to_month(y, 5) == 120 + l
            &&& days_to_month(y, 6) == 151 + l
            &&& days_to_month(y, 7) == 181 + l
            &&& days_to_month(y, 8) == 212 + l
            &&& days_to_month(y, 9) == 243 + l
            &&& days_to_month(y, 10) == 273 + l
            &&& days_to_month(y, 11) == 304 + l
            &&& days_to_month(y, 12) == 334 + l
        }),
{
    reveal_with_fuel(days_to_month, 13);
}

/// The year of a 400-year cycle that a day of the cycle falls into.
proof fn cycle_year(doe: int, yoe: int)
    requires
        0 <= doe < 146097,
        yoe == (doe - doe / 1460 + doe / 36524 - doe / 146096) / 365,
    ensures
        0 <= yoe < 400,
        0 <= doe - (365 * yoe + yoe / 4 - yoe / 100),
        doe < 365 * (yoe + 1) + (yoe + 1) / 4 - (yoe + 1) / 100 + (yoe + 1) / 400,
{
    let c = doe / 36524;
    let r = doe - 36524 * c;
    assert(0 <= c <= 4);
    if c == 0 {
        assert(doe / 146096 == 0);
    } else if c == 1 {
        assert(doe / 146096 == 0);
    } else if c == 2 {
        assert(doe / 146096 == 0);
    } else if c == 3 {
        assert(doe / 146096 == 0);
    } else {
        assert(doe == 146096);
    }
}

/// The month, counted from March, that a day of a year from March on falls
/// into.
proof fn march_month(doy: int, mp: int)
    requires
        0 <= doy <= 365,
        mp == (5 * doy + 2) / 153,
    ensures
        0 <= mp <= 11,
        0 <= doy - (153 * mp + 2) / 5 <= 30,
        mp == 1 || mp == 3 || mp == 6 || mp == 8 ==> doy - (153 * mp + 2) / 5 <= 29,
        mp == 11 ==> doy - (153 * mp + 2) / 5 <= 28,
        mp == 11 && doy < 365 ==> doy - (153 * mp + 2) / 5 <= 27,
        (153 * mp + 2) / 5 == march_offset(mp),
{
    assert(0 <= mp <= 11);
    if mp == 0 {
        assert((153 * mp + 2) / 5 == 0);
    } else if mp == 1 {
        assert((153 * mp + 2) / 5 == 31);
    } else if mp == 2 {
        assert((153 * mp + 2) / 5 == 61);
    } else if mp == 3 {
        assert((153 * mp + 2) / 5 == 92);
    } else if mp == 4 {
        assert((153 * mp + 2) / 5 == 122);
    } else if mp == 5 {
        assert((153 * mp + 2) / 5 == 153);
    } else if mp == 6 {
        assert((153 * mp + 2) / 5 == 184);
    } else if mp == 7 {
        assert((153 * mp + 2) / 5 == 214);
    } else if mp == 8 {
        assert((153 * mp + 2) / 5 == 245);
    } else if mp == 9 {
        assert((153 * mp + 2) / 5 == 275);
    } else if mp == 10 {
        assert((153 * mp + 2) / 5 == 306);
    } else if mp == 11 {
        assert((153 * mp + 2) / 5 == 337);
    }
}

/// Days from the first of March to that of the month `mp` months later.
spec fn march_offset(mp: int) -> int {
    if mp == 0 {
        0
    } else if mp == 1 {
        31
    } else if mp == 2 {
        61
    } else if mp == 3 {
        92
    } else if mp == 4 {
        122
    } else if mp == 5 {
        153
    } else if mp == 6 {
        184
    } else if mp == 7 {
        214
    } else if mp == 8 {
        245
    } else if mp == 9 {
        275
    } else if mp == 10 {
        306
    } else {
        337
    }
}

proof fn march_year(era: int, yoe: int)
    requires
        0 <= era,
        0 <= yoe < 400,
    ensures
        march_days(400 * era + yoe) == 146097 * era + 365 * yoe + yoe / 4 - yoe / 100,
        is_leap(400 * era + yoe + 1) <==> is_leap(yoe + 1),
{
    let y = 400 * era + yoe;
    lemma_fundamental_div_mod_converse(y, 4, 100 * era + yoe / 4, yoe % 4);
    lemma_fundamental_div_mod_converse(y, 100, 4 * era + yoe / 100, yoe % 100);
    lemma_fundamental_div_mod_converse(y, 400, era, yoe);
    lemma_mod_multiples_vanish(100 * era, yoe + 1, 4);
    lemma_mod_multiples_vanish(4 * era, yoe + 1, 100);
    lemma_mod_multiples_vanish(era, yoe + 1, 400);
}

/// A day of a year from March on is the date in the civil year.
proof fn civil_date(my: int, doy: int, mp: int, y: int, m: int, d: int)
    requires
        my >= 1969,
        march_days(my) + doy >= 719468,
        0 <= doy < (if is_leap(my + 1) {
            366int
        } else {
            365int
        }),
        mp == (5 * doy + 2) / 153,
        d == doy - (153 * mp + 2) / 5 + 1,
        m == (if mp < 10 {
            mp + 3
        } else {
            mp - 9
        }),
        y == my + (if m <= 2 {
            1int
        } else {
            0int
        }),
    ensures
        y >= 1970,
        is_date(y, m, d),
        day_number(y, m, d) == march_days(my) + doy - 719468,
{
    march_month(doy, mp);
    month_starts(y);
    march_step(my);
    if my == 1969 {
        assert(march_days(1969) == 719162);
        assert(doy >= 306);
        assert(mp >= 10);
    }
    year_start(y);
    assert(m == 3 ==> mp == 0);
    assert(m == 4 ==> mp == 1);
    assert(m == 5 ==> mp == 2);
    assert(m == 6 ==> mp == 3);
    assert(m == 7 ==> mp == 4);
    assert(m == 8 ==> mp == 5);
    assert(m == 9 ==> mp == 6);
    assert(m == 10 ==> mp == 7);
    assert(m == 11 ==> mp == 8);
    assert(m == 12 ==> mp == 9);
    assert(m == 1 ==> mp == 10);
    assert(m == 2 ==> mp == 11);
    if m <= 2 {
        assert(days_to_year(y) == march_days(my) - 719468 + 306);
    }
}

/// The date is `n` days after the Unix epoch.
pub open spec fn date_on(n: int, y: int, m: int, d: int) -> bool {
    y >= 1970 && is_date(y, m, d) && day_number(y, m, d) == n
}

/// A number of days, or zero where it is too large for a signed number.
pub open spec fn day_counted(days: u64) -> int {
    if days > 0x7FFF_FFFF_FFFF_FFFF {
        0
    } else {
        days as int
    }
}

/// A year, or zero where it is too large for the type of a year.
pub open spec fn year_shown(y: int) -> int {
    if y <= i32::MAX {
        y
    } else {
        0
    }
}

proof fn cycle_day(doe: int, yoe: int, doy: int)
    requires
        0 <= doe < 146097,
        yoe == (doe - doe / 1460 + doe / 36524 - doe / 146096) / 365,
        doy == doe - (365 * yoe + yoe / 4 - yoe / 100),
    ensures
        0 <= yoe < 400,
        0 <= doy < (if is_leap(yoe + 1) {
            366int
        } else {
            365int
        }),
{
    cycle_year(doe, yoe);
    march_step(yoe);
    assert(yoe / 400 == 0);
}

proof fn day_is_date(n: int, era: int, doe: int, yoe: int, doy: int, mp: int, y: int, m: int, d: int)
    requires
        0 <= n,
        era == (n + 719468) / 146097,
        doe == (n + 719468) % 146097,
        yoe == (doe - doe / 1460 + doe / 36524 - doe / 146096) / 365,
        doy == doe - (365 * yoe + yoe / 4 - yoe / 100),
        mp == (5 * doy + 2) / 153,
        d == doy - (153 * mp + 2) / 5 + 1,
        m == (if mp < 10 {
            mp + 3
        } else {
            mp - 9
        }),
        y == 400 * era + yoe + (if m <= 2 {
            1int
        } else {
            0int
        }),
    ensures
        date_on(n, y, m, d),
{
    cycle_day(doe, yoe, doy);
    march_year(era, yoe);
    let my = 400 * era + yoe;
    assert(n + 719468 == march_days(my) + doy);
    assert(my >= 1969) by {
        if my < 1969 {
            march_days_grow(my + 1, 1969);
            march_step(my);
            assert(march_days(1969) == 719162);
        }
    }
    civil_date(my, doy, mp, y, m, d);
}

proof fn march_days_grow(a: int, b: int)
    requires
        0 <= a <= b,
    ensures
        march_days(a) <= march_days(b),
    decreases b - a,
{
    if a < b {
        march_step(a);
        march_days_grow(a + 1, b);
    }
}

/// The date of a day, counted from the Unix epoch. Years beyond the range of
/// the result are zero, and so are the days beyond that of a signed number.
pub fn days_to_ymd(days_since_epoch: u64) -> (r: (i32, u32, u32))
    requires
        days_since_epoch <= 0x7FFF_FFFF_FFFF_FFFF - 719_468 || days_since_epoch
            > 0x7FFF_FFFF_FFFF_FFFF,
    ensures
        exists|y: int| #[trigger]
            date_on(day_counted(days_since_epoch), y, r.1 as int, r.2 as int) && r.0 == year_shown(
                y,
            ),
{
    let n: u64 = if days_since_epoch > 0x7FFF_FFFF_FFFF_FFFF {
        0
    } else {
        days_since_epoch
    };
    let z: u64 = n + 719_468;
    let era: u64 = z / 146_097;
    let doe: u64 = z % 146_097;
    let yoe: u64 = (doe - doe / 1460 + doe / 36_524 - doe / 146_096) / 365;
    proof {
        cycle_year(doe as int, yoe as int);
        cycle_day(doe as int, yoe as int, doe - (365 * yoe + yoe / 4 - yoe / 100));
    }
    let doy: u64 = doe - (365 * yoe + yoe / 4 - yoe / 100);
    let mp: u64 = (5 * doy + 2) / 153;
    proof {
        march_month(doy as int, mp as int);
    }
    let d: u64 = doy - (153 * mp + 2) / 5 + 1;
    let m: u64 = if mp < 10 {
        mp + 3
    } else {
        mp - 9
    };
    let y: u64 = 400 * era + yoe + (if m <= 2 {
        1
    } else {
        0
    });
    proof {
        day_is_date(
            n as int,
            era as int,
            doe as int,
            yoe as int,
            doy as int,
            mp as int,
            y as int,
            m as int,
            d as int,
        );
    }
    let year: i32 = if y <= 0x7FFF_FFFF {
        y as i32
    } else {
        0
    };
    let date: (i32, u32, u32) = (year, m as u32, d as u32);
    assert(date_on(day_counted(days_since_epoch), y as int, date.1 as int, date.2 as int));
    assert(date.0 == year_shown(y as int));
    date
}

proof fn months_grow(y: int, a: int, b: int)
    requires
        1 <= a < b <= 13,
    ensures
        days_to_month(y, a) + month_len(y, a) <= days_to_month(y, b),
    decreases b,
{
    if a + 1 < b {
        months_grow(y, a, b - 1);
    }
}

proof fn years_grow(a: int, b: int)
    requires
        1970 <= a < b,
    ensures
        days_to_year(a + 1) <= days_to_year(b),
    decreases b,
{
    if a + 1 < b {
        years_grow(a, b - 1);
    }
}

proof fn earlier_date_is_earlier(y1: int, m1: int, d1: int, y2: int, m2: int, d2: int)
    requires
        1970 <= y1,
        is_date(y1, m1, d1),
        is_date(y2, m2, d2),
        y1 < y2 || (y1 == y2 && m1 < m2) || (y1 == y2 && m1 == m2 && d1 < d2),
    ensures
        day_number(y1, m1, d1) < day_number(y2, m2, d2),
{
    if y1 < y2 {
        months_grow(y1, m1, 13);
        month_starts(y1);
        assert(days_to_month(y1, 13) == days_to_month(y1, 12) + 31);
        years_grow(y1, y2);
        months_nonnegative(y2, m2);
    } else if m1 < m2 {
        months_grow(y1, m1, m2);
    }
}

proof fn months_nonnegative(y: int, m: int)
    ensures
        days_to_month(y, m) >= 0,
    decreases m,
{
    if m > 1 {
        months_nonnegative(y, m - 1);
    }
}

/// A day has one date.
pub proof fn date_is_unique(n: int, y1: int, m1: int, d1: int, y2: int, m2: int, d2: int)
    requires
        date_on(n, y1, m1, d1),
        date_on(n, y2, m2, d2),
    ensures
        y1 == y2 && m1 == m2 && d1 == d2,
{
    if y1 < y2 || (y1 == y2 && m1 < m2) || (y1 == y2 && m1 == m2 && d1 < d2) {
        earlier_date_is_earlier(y1, m1, d1, y2, m2, d2);
    }
    if y2 < y1 || (y2 == y1 && m2 < m1) || (y2 == y1 && m2 == m1 && d2 < d1) {
        earlier_date_is_earlier(y2, m2, d2, y1, m1, d1);
    }
}

/// A date and a time of day in the form `YYYY-MM-DDThh:mm:ssZ`.
pub open spec fn iso_form(y: int, m: int, d: int, secs: int) -> Seq<char> {
    zero_pad(decimal(y as nat), 4) + "-"@ + zero_pad(decimal(m as nat), 2) + "-"@ + zero_pad(
        decimal(d as nat),
        2,
    ) + "T"@ + zero_pad(decimal((secs / 3600) as nat), 2) + ":"@ + zero_pad(
        decimal((secs % 3600 / 60) as nat),
        2,
    ) + ":"@ + zero_pad(decimal((secs % 60) as nat), 2) + "Z"@
}

/// `t` is the time `unix` seconds after the Unix epoch in ISO 8601, in UTC.
pub open spec fn is_iso_time(unix: u64, t: Seq<char>) -> bool {
    exists|y: int, m: int, d: int| #[trigger]
        date_on(unix as int / 86400, y, m, d) && t == iso_form(
            year_shown(y),
            m,
            d,
            unix as int % 86400,
        )
}

/// The last second of the year 9999.
pub const LAST_FOUR_DIGIT_SECOND: u64 = 253_402_300_799;

proof fn two_digits(n: nat)
    requires
        n < 100,
    ensures
        zero_pad(decimal(n), 2) == seq![
            digit_char(n as int / 10),
            digit_char(n as int % 10),
        ],
{
    reveal_with_fuel(decimal, 3);
    assert(zero_pad(decimal(n), 2) =~= seq![
        digit_char(n as int / 10),
        digit_char(n as int % 10),
    ]);
}

proof fn four_digits(n: nat)
    requires
        1000 <= n < 10000,
    ensures
        zero_pad(decimal(n), 4) == seq![
            digit_char(n as int / 1000),
            digit_char(n as int / 100 % 10),
            digit_char(n as int / 10 % 10),
            digit_char(n as int % 10),
        ],
{
    reveal_with_fuel(decimal, 5);
    assert(n / 10 / 10 == n / 100);
    assert(n / 10 / 10 / 10 == n / 1000);
    assert(zero_pad(decimal(n), 4) =~= seq![
        digit_char(n as int / 1000),
        digit_char(n as int / 100 % 10),
        digit_char(n as int / 10 % 10),
        digit_char(n as int % 10),
    ]);
}

/// Two digits of a smaller number, or the same digits before a smaller text,
/// come first.
proof fn two_digits_order(m: nat, n: nat, a: Seq<char>, b: Seq<char>)
    requires
        m < 100,
        n < 100,
        m < n || (m == n && text_lt(a, b)),
    ensures
        text_lt(zero_pad(decimal(m), 2) + a, zero_pad(decimal(n), 2) + b),
{
    two_digits(m);
    two_digits(n);
    let x = zero_pad(decimal(m), 2) + a;
    let y = zero_pad(decimal(n), 2) + b;
    if m == n {
        same_start_keeps_order(zero_pad(decimal(m), 2), a, b);
    } else if m / 10 < n / 10 {
        first_difference_decides(x, y, 0);
    } else {
        first_difference_decides(x, y, 1);
    }
}

/// The first digit in which two numbers of four digits differ is the smaller one
/// of the smaller number.
proof fn four_digits_differ(m: int, n: int)
    requires
        1000 <= m < n < 10000,
    ensures
        ({
            ||| m / 1000 < n / 1000
            ||| m / 1000 == n / 1000 && m / 100 % 10 < n / 100 % 10
            ||| m / 1000 == n / 1000 && m / 100 % 10 == n / 100 % 10 && m / 10 % 10 < n / 10 % 10
            ||| m / 10 == n / 10 && m % 10 < n % 10
        }),
        m / 10 == n / 10 ==> m / 1000 == n / 1000 && m / 100 % 10 == n / 100 % 10 && m / 10 % 10
            == n / 10 % 10,
{
    assert(m / 10 / 10 == m / 100 && n / 10 / 10 == n / 100);
    assert(m / 100 / 10 == m / 1000 && n / 100 / 10 == n / 1000);
}

proof fn four_digits_order(m: nat, n: nat, a: Seq<char>, b: Seq<char>)
    requires
        1000 <= m < 10000,
        1000 <= n < 10000,
        m < n || (m == n && text_lt(a, b)),
    ensures
        text_lt(zero_pad(decimal(m), 4) + a, zero_pad(decimal(n), 4) + b),
{
    let p = zero_pad(decimal(m), 4);
    let q = zero_pad(decimal(n), 4);
    if m == n {
        same_start_keeps_order(p, a, b);
    } else {
        four_digits(m);
        four_digits(n);
        four_digits_differ(m as int, n as int);
        let k: int = if m as int / 1000 < n as int / 1000 {
            0
        } else if m as int / 100 % 10 < n as int / 100 % 10 {
            1
        } else if m as int / 10 % 10 < n as int / 10 % 10 {
            2
        } else {
            3
        };
        smaller_digit_decides(p, q, a, b, k);
    }
}

proof fn smaller_digit_decides(
    p: Seq<char>,
    q: Seq<char>,
    a: Seq<char>,
    b: Seq<char>,
    k: int,
)
    requires
        0 <= k < p.len(),
        p.len() == q.len(),
        forall|i: int| 0 <= i < k ==> #[trigger] p[i] == q[i],
        p[k] < q[k],
    ensures
        text_lt(p + a, q + b),
{
    assert forall|i: int| 0 <= i < k implies #[trigger] (p + a)[i] == (q + b)[i] by {
        assert(p[i] == q[i]);
    }
    first_difference_decides(p + a, q + b, k);
}

/// The time of day in a date and time, with the mark before it.
spec fn time_part(secs: int) -> Seq<char> {
    "T"@ + (zero_pad(decimal((secs / 3600) as nat), 2) + (":"@ + (zero_pad(
        decimal((secs % 3600 / 60) as nat),
        2,
    ) + (":"@ + (zero_pad(decimal((secs % 60) as nat), 2) + "Z"@)))))
}

/// The day and what follows it.
spec fn day_part(d: int, secs: int) -> Seq<char> {
    "-"@ + (zero_pad(decimal(d as nat), 2) + time_part(secs))
}

/// The month and what follows it.
spec fn month_part(m: int, d: int, secs: int) -> Seq<char> {
    "-"@ + (zero_pad(decimal(m as nat), 2) + day_part(d, secs))
}

proof fn regroup(a: Seq<char>, b: Seq<char>, c: Seq<char>)
    ensures
        a + b + c == a + (b + c),
{
    assert(a + b + c =~= a + (b + c));
}

proof fn iso_form_parts(y: int, m: int, d: int, secs: int)
    ensures
        iso_form(y, m, d, secs) == zero_pad(decimal(y as nat), 4) + month_part(m, d, secs),
{
    let year = zero_pad(decimal(y as nat), 4);
    let month = zero_pad(decimal(m as nat), 2);
    let day = zero_pad(decimal(d as nat), 2);
    let hour = zero_pad(decimal((secs / 3600) as nat), 2);
    let minute = zero_pad(decimal((secs % 3600 / 60) as nat), 2);
    let second = zero_pad(decimal((secs % 60) as nat), 2);
    let p3 = year + "-"@ + month;
    let p5 = p3 + "-"@ + day;
    let p7 = p5 + "T"@ + hour;
    let p9 = p7 + ":"@ + minute;
    regroup(p9 + ":"@, second, "Z"@);
    regroup(p9, ":"@, second + "Z"@);
    let r9 = ":"@ + (second + "Z"@);
    regroup(p7 + ":"@, minute, r9);
    regroup(p7, ":"@, minute + r9);
    let r7 = ":"@ + (minute + r9);
    regroup(p5 + "T"@, hour, r7);
    regroup(p5, "T"@, hour + r7);
    regroup(p3 + "-"@, day, time_part(secs));
    regroup(p3, "-"@, day + time_part(secs));
    regroup(year + "-"@, month, day_part(d, secs));
    regroup(year, "-"@, month + day_part(d, secs));
}

proof fn time_part_order(s1: int, s2: int)
    requires
        0 <= s1 < s2 < 86400,
    ensures
        text_lt(time_part(s1), time_part(s2)),
{
    let (h1, m1, c1) = (s1 / 3600, s1 % 3600 / 60, s1 % 60);
    let (h2, m2, c2) = (s2 / 3600, s2 % 3600 / 60, s2 % 60);
    let sec1 = zero_pad(decimal(c1 as nat), 2) + "Z"@;
    let sec2 = zero_pad(decimal(c2 as nat), 2) + "Z"@;
    let min1 = zero_pad(decimal(m1 as nat), 2) + (":"@ + sec1);
    let min2 = zero_pad(decimal(m2 as nat), 2) + (":"@ + sec2);
    assert(s1 == h1 * 3600 + m1 * 60 + c1);
    assert(s2 == h2 * 3600 + m2 * 60 + c2);
    if h1 == h2 {
        if m1 == m2 {
            two_digits_order(c1 as nat, c2 as nat, "Z"@, "Z"@);
            same_start_keeps_order(":"@, sec1, sec2);
        }
        two_digits_order(m1 as nat, m2 as nat, ":"@ + sec1, ":"@ + sec2);
        same_start_keeps_order(":"@, min1, min2);
    }
    two_digits_order(h1 as nat, h2 as nat, ":"@ + min1, ":"@ + min2);
    same_start_keeps_order(
        "T"@,
        zero_pad(decimal(h1 as nat), 2) + (":"@ + min1),
        zero_pad(decimal(h2 as nat), 2) + (":"@ + min2),
    );
}

proof fn four_digit_year(n: int, y: int, m: int, d: int)
    requires
        date_on(n, y, m, d),
        n <= 2_932_896,
    ensures
        y <= 9999,
{
    if y > 9999 {
        year_start(10000);
        years_grow(9999, y);
        months_nonnegative(y, m);
    }
}

/// Of two times up to the year 9999 the earlier has the smaller text.
pub proof fn earlier_time_has_smaller_text(t1: u64, s1: Seq<char>, t2: u64, s2: Seq<char>)
    requires
        t1 < t2 <= LAST_FOUR_DIGIT_SECOND,
        is_iso_time(t1, s1),
        is_iso_time(t2, s2),
    ensures
        text_lt(s1, s2),
{
    let (n1, n2) = (t1 as int / 86400, t2 as int / 86400);
    let (r1, r2) = (t1 as int % 86400, t2 as int % 86400);
    let (y1, m1, d1) = choose|y: int, m: int, d: int| #[trigger]
        date_on(n1, y, m, d) && s1 == iso_form(year_shown(y), m, d, r1);
    let (y2, m2, d2) = choose|y: int, m: int, d: int| #[trigger]
        date_on(n2, y, m, d) && s2 == iso_form(year_shown(y), m, d, r2);
    four_digit_year(n1, y1, m1, d1);
    four_digit_year(n2, y2, m2, d2);
    iso_form_parts(y1, m1, d1, r1);
    iso_form_parts(y2, m2, d2, r2);
    if n1 == n2 {
        date_is_unique(n1, y1, m1, d1, y2, m2, d2);
        time_part_order(r1, r2);
    } else if y2 < y1 || (y2 == y1 && m2 < m1) || (y2 == y1 && m2 == m1 && d2 < d1) {
        earlier_date_is_earlier(y2, m2, d2, y1, m1, d1);
    }
    if y1 == y2 {
        if m1 == m2 {
            two_digits_order(d1 as nat, d2 as nat, time_part(r1), time_part(r2));
            same_start_keeps_order(
                "-"@,
                zero_pad(decimal(d1 as nat), 2) + time_part(r1),
                zero_pad(decimal(d2 as nat), 2) + time_part(r2),
            );
        }
        two_digits_order(m1 as nat, m2 as nat, day_part(d1, r1), day_part(d2, r2));
        same_start_keeps_order(
            "-"@,
            zero_pad(decimal(m1 as nat), 2) + day_part(d1, r1),
            zero_pad(decimal(m2 as nat), 2) + day_part(d2, r2),
        );
    }
    four_digits_order(
        y1 as nat,
        y2 as nat,
        month_part(m1, d1, r1),
        month_part(m2, d2, r2),
    );
}

/// A time up to the year 9999 is told in twenty characters.
pub proof fn time_is_told_in_twenty(t: u64, s: Seq<char>)
    requires
        t <= LAST_FOUR_DIGIT_SECOND,
        is_iso_time(t, s),
    ensures
        s.len() == 20,
{
    let (y, m, d) = choose|y: int, m: int, d: int| #[trigger]
        date_on(t as int / 86400, y, m, d) && s == iso_form(
            year_shown(y),
            m,
            d,
            t as int % 86400,
        );
    let r = t as int % 86400;
    four_digit_year(t as int / 86400, y, m, d);
    four_digits(y as nat);
    two_digits(m as nat);
    two_digits(d as nat);
    two_digits((r / 3600) as nat);
    two_digits((r % 3600 / 60) as nat);
    two_digits((r % 60) as nat);
    reveal_strlit("-");
    reveal_strlit("T");
    reveal_strlit(":");
    reveal_strlit("Z");
}

/// The time `unix` seconds after the Unix epoch in ISO 8601, in UTC.
pub fn iso_time(unix: u64) -> (out: String)
    ensures
        is_iso_time(unix, out@),
{
    let days: u64 = unix / 86_400;
    let rem: u64 = unix % 86_400;
    let (y, m, d) = days_to_ymd(days);
    let ghost year = choose|year: int| #[trigger]
        date_on(day_counted(days), year, m as int, d as int) && y == year_shown(year);
    let mut out: String = padded_decimal(y as u64, 4);
    out.append("-");
    out.append(padded_decimal(m as u64, 2).as_str());
    out.append("-");
    out.append(padded_decimal(d as u64, 2).as_str());
    out.append("T");
    out.append(padded_decimal(rem / 3600, 2).as_str());
    out.append(":");
    out.append(padded_decimal(rem % 3600 / 60, 2).as_str());
    out.append(":");
    out.append(padded_decimal(rem % 60, 2).as_str());
    out.append("Z");
    assert(date_on(unix as int / 86400, year, m as int, d as int));
    out
}

/// `t` is what a reading of the clock is told as: the time in ISO 8601 where
/// there is one, nothing where the clock stands before the Unix epoch.
pub open spec fn tells_reading(reading: Option<u64>, t: Option<Seq<char>>) -> bool {
    match (reading, t) {
        (Some(unix), Some(s)) => is_iso_time(unix, s),
        (None, None) => true,
        _ => false,
    }
}

/// A reading of the clock in ISO 8601, in UTC; nothing where the clock stands
/// before the Unix epoch.
pub fn iso_reading(reading: Option<u64>) -> (r: Option<String>)
    ensures
        tells_reading(reading, r.deep_view()),
{
    match reading {
        Some(unix) => Some(iso_time(unix)),
        None => None,
    }
}

/// The current time in ISO 8601, in UTC; nothing where the clock stands before
/// the Unix epoch.
pub fn now_iso() -> (r: Option<String>)
    ensures
        exists|reading: Option<u64>| #[trigger] tells_reading(reading, r.deep_view()),
{
    let reading: Option<u64> = unix_seconds();
    let r: Option<String> = iso_reading(reading);
    assert(tells_reading(reading, r.deep_view()));
    r
}

/// A reading of the clock in seconds since the Unix epoch, zero where the clock
/// stands before it.
pub open spec fn or_zero(reading: Option<u64>) -> u64 {
    match reading {
        Some(s) => s,
        None => 0,
    }
}

/// A reading of the clock in seconds since the Unix epoch, zero where the clock
/// stands before it.
pub fn seconds_or_zero(reading: Option<u64>) -> (secs: u64)
    ensures
        secs == or_zero(reading),
{
    match reading {
        Some(s) => s,
        None => 0,
    }
}

/// The seconds since the Unix epoch, zero where the clock stands before it.
/// Nothing is said of the time.
pub fn now_unix() -> (secs: u64) {
    seconds_or_zero(unix_seconds())
}

/// A year has 366 days where it is divisible by four, and not by a hundred
/// unless by four hundred, and 365 otherwise. Four hundred years have 146097
/// days, whichever they are.
pub proof fn years_have_their_days(y: int)
    requires
        y >= 1970,
    ensures
        days_to_year(1970) == 0,
        y % 4 != 0 ==> days_to_year(y + 1) == days_to_year(y) + 365,
        y % 4 == 0 && y % 100 != 0 ==> days_to_year(y + 1) == days_to_year(y) + 366,
        y % 100 == 0 && y % 400 != 0 ==> days_to_year(y + 1) == days_to_year(y) + 365,
        y % 400 == 0 ==> days_to_year(y + 1) == days_to_year(y) + 366,
        days_to_year(y + 400) == days_to_year(y) + 146097,
{
    year_start(y);
    year_start(y + 400);
    assert((y + 400) / 4 == y / 4 + 100);
    assert((y + 400) / 100 == y / 100 + 4);
    assert((y + 400) / 400 == y / 400 + 1);
}

/// The calendar goes on day by day: the day after a date has the next number,
/// be it in the same month, the first of the next, or the first of the next
/// year. It starts with the first of January 1970 as day zero.
pub proof fn days_are_counted_one_by_one(y: int, m: int, d: int)
    requires
        y >= 1970,
        is_date(y, m, d),
    ensures
        day_number(1970, 1, 1) == 0,
        is_date(y, m, d + 1) ==> day_number(y, m, d + 1) == day_number(y, m, d) + 1,
        !is_date(y, m, d + 1) && m < 12 ==> is_date(y, m + 1, 1) && day_number(y, m + 1, 1)
            == day_number(y, m, d) + 1,
        !is_date(y, m, d + 1) && m == 12 ==> is_date(y + 1, 1, 1) && day_number(y + 1, 1, 1)
            == day_number(y, m, d) + 1,
{
    month_starts(y);
    month_starts(y + 1);
    month_starts(1970);
}

/// A month has 31 days, but four of them 30, and the second 28 or, where the
/// year has 366 days, 29.
pub proof fn months_have_their_days(y: int, m: int)
    requires
        y >= 1970,
        1 <= m <= 12,
    ensures
        is_date(y, m, 31) <==> m != 2 && m != 4 && m != 6 && m != 9 && m != 11,
        is_date(y, m, 30) <==> m != 2,
        is_date(y, m, 29) <==> m != 2 || days_to_year(y + 1) - days_to_year(y) == 366,
        is_date(y, m, 28),
        is_date(y, m, 1),
        !is_date(y, m, 0),
        !is_date(y, m, 32),
{
}

/// The time can be read off its text up to the year 9999: year, month and day
/// are those of the day it falls on, and hours, minutes and seconds add up to
/// the seconds of that day.
pub proof fn text_tells_the_time(t: u64, s: Seq<char>)
    requires
        t <= LAST_FOUR_DIGIT_SECOND,
        is_iso_time(t, s),
    ensures
        s.len() == 20,
        date_on(
            t as int / 86400,
            digits_value(s.subrange(0, 4)) as int,
            digits_value(s.subrange(5, 7)) as int,
            digits_value(s.subrange(8, 10)) as int,
        ),
        digits_value(s.subrange(11, 13)) * 3600 + digits_value(s.subrange(14, 16)) * 60
            + digits_value(s.subrange(17, 19)) == t % 86400,
        digits_value(s.subrange(14, 16)) < 60,
        digits_value(s.subrange(17, 19)) < 60,
        s[4] == '-' && s[7] == '-' && s[10] == 'T' && s[13] == ':' && s[16] == ':' && s[19] == 'Z',
{
    let (y, m, d) = choose|y: int, m: int, d: int| #[trigger]
        date_on(t as int / 86400, y, m, d) && s == iso_form(
            year_shown(y),
            m,
            d,
            t as int % 86400,
        );
    let r = t as int % 86400;
    four_digit_year(t as int / 86400, y, m, d);
    figures_are_worth(y as nat, 4);
    figures_are_worth(m as nat, 2);
    figures_are_worth(d as nat, 2);
    figures_are_worth((r / 3600) as nat, 2);
    figures_are_worth((r % 3600 / 60) as nat, 2);
    figures_are_worth((r % 60) as nat, 2);
    time_adds_up(r);
    form_is_cut(
        zero_pad(decimal(y as nat), 4),
        zero_pad(decimal(m as nat), 2),
        zero_pad(decimal(d as nat), 2),
        zero_pad(decimal((r / 3600) as nat), 2),
        zero_pad(decimal((r % 3600 / 60) as nat), 2),
        zero_pad(decimal((r % 60) as nat), 2),
        s,
    );
}

proof fn form_is_cut(
    year: Seq<char>,
    month: Seq<char>,
    day: Seq<char>,
    hour: Seq<char>,
    minute: Seq<char>,
    second: Seq<char>,
    s: Seq<char>,
)
    requires
        year.len() == 4,
        month.len() == 2,
        day.len() == 2,
        hour.len() == 2,
        minute.len() == 2,
        second.len() == 2,
        s == year + "-"@ + month + "-"@ + day + "T"@ + hour + ":"@ + minute + ":"@ + second
            + "Z"@,
    ensures
        s.len() == 20,
        s.subrange(0, 4) == year,
        s.subrange(5, 7) == month,
        s.subrange(8, 10) == day,
        s.subrange(11, 13) == hour,
        s.subrange(14, 16) == minute,
        s.subrange(17, 19) == second,
        s[4] == '-' && s[7] == '-' && s[10] == 'T' && s[13] == ':' && s[16] == ':' && s[19] == 'Z',
{
    reveal_strlit("-");
    reveal_strlit("T");
    reveal_strlit(":");
    reveal_strlit("Z");
    assert(s.subrange(0, 4) =~= year);
    assert(s.subrange(5, 7) =~= month);
    assert(s.subrange(8, 10) =~= day);
    assert(s.subrange(11, 13) =~= hour);
    assert(s.subrange(14, 16) =~= minute);
    assert(s.subrange(17, 19) =~= second);
}

proof fn figures_are_worth(n: nat, width: nat)
    requires
        width == 2 && n < 100 || width == 4 && 1000 <= n < 10000,
    ensures
        zero_pad(decimal(n), width).len() == width,
        digits_value(zero_pad(decimal(n), width)) == n,
{
    if width == 2 {
        two_digits(n);
    } else {
        four_digits(n);
    }
    padding_keeps_the_value(decimal(n), width);
    decimal_is_worth_the_number(n);
}

proof fn time_adds_up(secs: int)
    requires
        0 <= secs < 86400,
    ensures
        0 <= secs / 3600 < 24,
        0 <= secs % 3600 / 60 < 60,
        0 <= secs % 60 < 60,
        secs / 3600 * 3600 + secs % 3600 / 60 * 60 + secs % 60 == secs,
{
}

} // verus!
