//! Calendar arithmetic for the timestamped names of saved screenshots.
//!
//! Dates are proleptic Gregorian; a timestamp counts seconds from
//! 1970-01-01 00:00:00, before it when negative.
use vstd::prelude::*;

verus! {

/// Whether `y` is a leap year of the Gregorian calendar.
pub open spec fn is_leap_year(y: int) -> bool {
    y % 4 == 0 && (y % 100 != 0 || y % 400 == 0)
}

/// Number of days of month `m` (1 = January) in year `y`.
pub open spec fn days_in_month(y: int, m: int) -> int {
    if m == 2 {
        if is_leap_year(y) {
            29
        } else {
            28
        }
    } else if m == 4 || m == 6 || m == 9 || m == 11 {
        30
    } else {
        31
    }
}

/// Number of days in the months of year `y` before month `m`.
pub open spec fn days_before_month(y: int, m: int) -> int {
    let common: int = if m == 1 {
        0
    } else if m == 2 {
        31
    } else if m == 3 {
        59
    } else if m == 4 {
        90
    } else if m == 5 {
        120
    } else if m == 6 {
        151
    } else if m == 7 {
        181
    } else if m == 8 {
        212
    } else if m == 9 {
        243
    } else if m == 10 {
        273
    } else if m == 11 {
        304
    } else {
        334
    };
    if m > 2 && is_leap_year(y) {
        common + 1
    } else {
        common
    }
}

/// `a / b` rounded up, for `b > 0`.
pub open spec fn ceil_div(a: int, b: int) -> int {
    (a + b - 1) / b
}

/// Number of leap years `k` with `0 <= k < y`; for negative `y`, minus the
/// number of leap years `k` with `y <= k < 0`.
pub open spec fn leap_years_before(y: int) -> int {
    ceil_div(y, 4) - ceil_div(y, 100) + ceil_div(y, 400)
}

/// Days from 1970-01-01 to the date `y`-`m`-`d`.
pub open spec fn days_from_civil(y: int, m: int, d: int) -> int {
    365 * y + leap_years_before(y) + days_before_month(y, m) + d - 1 - 719528
}

/// Whether the fields name a real date and time of day.
pub open spec fn is_valid_datetime(t: (int, int, int, int, int, int)) -> bool {
    &&& 1 <= t.1 <= 12
    &&& 1 <= t.2 <= days_in_month(t.0, t.1)
    &&& 0 <= t.3 < 24
    &&& 0 <= t.4 < 60
    &&& 0 <= t.5 < 60
}

/// Seconds from 1970-01-01 00:00:00 to (year, month, day, hour, minute,
/// second).
pub open spec fn datetime_to_secs(t: (int, int, int, int, int, int)) -> int {
    days_from_civil(t.0, t.1, t.2) * 86400 + t.3 * 3600 + t.4 * 60 + t.5
}

/// The date and time `secs` seconds after 1970-01-01 00:00:00 (unique, by
/// [`lemma_datetime_unique`]).
pub open spec fn datetime_of_secs(secs: int) -> (int, int, int, int, int, int) {
    choose|t: (int, int, int, int, int, int)|
        is_valid_datetime(t) && #[trigger] datetime_to_secs(t) == secs
}

/// Adding one year to the count adds one exactly when that year is a leap
/// year.
pub proof fn lemma_leap_years_step(y: int)
    ensures
        leap_years_before(y + 1) == leap_years_before(y) + if is_leap_year(y) {
            1int
        } else {
            0
        },
{
    assert(ceil_div(y + 1, 4) - ceil_div(y, 4) == if y % 4 == 0 {
        1int
    } else {
        0
    });
    assert(ceil_div(y + 1, 100) - ceil_div(y, 100) == if y % 100 == 0 {
        1int
    } else {
        0
    });
    assert(ceil_div(y + 1, 400) - ceil_div(y, 400) == if y % 400 == 0 {
        1int
    } else {
        0
    });
    assert(y % 400 == 0 ==> y % 100 == 0);
    assert(y % 100 == 0 ==> y % 4 == 0);
}

/// The count of leap years up to and including `y`, for `y >= 0` counted
/// from year 0, in closed form.
proof fn lemma_leap_years_through(y: int)
    ensures
        leap_years_before(y + 1) == y / 4 - y / 100 + y / 400 + 1,
{
    assert(ceil_div(y + 1, 4) == y / 4 + 1);
    assert(ceil_div(y + 1, 100) == y / 100 + 1);
    assert(ceil_div(y + 1, 400) == y / 400 + 1);
}

/// The count starts at the epoch: day 0 is 1970-01-01.
pub proof fn lemma_epoch()
    ensures
        days_from_civil(1970, 1, 1) == 0,
        is_valid_datetime((1970, 1, 1, 0, 0, 0)),
        datetime_to_secs((1970, 1, 1, 0, 0, 0)) == 0,
{
}

/// The first day of the next year follows the last day of this year.
proof fn lemma_year_length(y: int)
    ensures
        days_from_civil(y + 1, 1, 1) == days_from_civil(y, 12, 31) + 1,
{
    lemma_leap_years_step(y);
}

/// Years start later the later they are.
proof fn lemma_year_start_monotone(a: int, b: int)
    requires
        a <= b,
    ensures
        days_from_civil(a, 1, 1) <= days_from_civil(b, 1, 1),
{
}

/// The day of a date falls within its year.
proof fn lemma_day_within_year(y: int, m: int, d: int)
    requires
        1 <= m <= 12,
        1 <= d <= days_in_month(y, m),
    ensures
        days_from_civil(y, 1, 1) <= days_from_civil(y, m, d) <= days_from_civil(y, 12, 31),
{
}

/// Distinct dates of one year are distinct days.
proof fn lemma_day_of_year_unique(y: int, m1: int, d1: int, m2: int, d2: int)
    requires
        1 <= m1 <= 12,
        1 <= d1 <= days_in_month(y, m1),
        1 <= m2 <= 12,
        1 <= d2 <= days_in_month(y, m2),
        days_before_month(y, m1) + d1 == days_before_month(y, m2) + d2,
    ensures
        m1 == m2 && d1 == d2,
{
}

/// Distinct valid dates are distinct days.
pub proof fn lemma_civil_unique(y1: int, m1: int, d1: int, y2: int, m2: int, d2: int)
    requires
        1 <= m1 <= 12,
        1 <= d1 <= days_in_month(y1, m1),
        1 <= m2 <= 12,
        1 <= d2 <= days_in_month(y2, m2),
        days_from_civil(y1, m1, d1) == days_from_civil(y2, m2, d2),
    ensures
        y1 == y2 && m1 == m2 && d1 == d2,
{
    lemma_day_within_year(y1, m1, d1);
    lemma_day_within_year(y2, m2, d2);
    if y1 < y2 {
        lemma_year_length(y1);
        lemma_year_start_monotone(y1 + 1, y2);
    } else if y2 < y1 {
        lemma_year_length(y2);
        lemma_year_start_monotone(y2 + 1, y1);
    } else {
        lemma_day_of_year_unique(y1, m1, d1, m2, d2);
    }
}

/// A number of seconds names at most one valid date and time.
pub proof fn lemma_datetime_unique(
    t1: (int, int, int, int, int, int),
    t2: (int, int, int, int, int, int),
)
    requires
        is_valid_datetime(t1),
        is_valid_datetime(t2),
        datetime_to_secs(t1) == datetime_to_secs(t2),
    ensures
        t1 == t2,
{
    let tod1 = t1.3 * 3600 + t1.4 * 60 + t1.5;
    let tod2 = t2.3 * 3600 + t2.4 * 60 + t2.5;
    let day1 = days_from_civil(t1.0, t1.1, t1.2);
    let day2 = days_from_civil(t2.0, t2.1, t2.2);
    assert(day1 == day2) by (nonlinear_arith)
        requires
            day1 * 86400 + tod1 == day2 * 86400 + tod2,
            0 <= tod1 < 86400,
            0 <= tod2 < 86400,
    ;
    lemma_civil_unique(t1.0, t1.1, t1.2, t2.0, t2.1, t2.2);
}

/// Start of the March-based year `yoe` of a 400-year era, in days from the
/// start of the era (March 1 of a year divisible by 400).
spec fn march_year_start(yoe: int) -> int {
    365 * yoe + yoe / 4 - yoe / 100
}

proof fn lemma_year_of_era(doe: int)
    requires
        0 <= doe < 146097,
    ensures
        ({
            let yoe = (doe - doe / 1460 + doe / 36524 - doe / 146096) / 365;
            &&& 0 <= yoe < 400
            &&& march_year_start(yoe) <= doe
            &&& doe < march_year_start(yoe + 1) + (if yoe == 399 {
                1int
            } else {
                0
            })
        }),
{
}

/// The day of the era falls in the March-based year `yoe`; its length is one
/// more than 365 when the February it contains is a leap February.
proof fn lemma_march_year_length(era: int, yoe: int, doy: int)
    requires
        0 <= yoe < 400,
        0 <= doy,
        march_year_start(yoe) + doy < march_year_start(yoe + 1) + (if yoe == 399 {
            1int
        } else {
            0
        }),
    ensures
        doy < 365 + if is_leap_year(400 * era + yoe + 1) {
            1int
        } else {
            0
        },
{
    let n = 400 * era + yoe + 1;
    assert(n % 4 == (yoe + 1) % 4);
    assert(n % 100 == (yoe + 1) % 100);
    assert(n % 400 == (yoe + 1) % 400);
    assert((yoe + 1) / 4 - yoe / 4 == if (yoe + 1) % 4 == 0 {
        1int
    } else {
        0
    });
    assert((yoe + 1) / 100 - yoe / 100 == if (yoe + 1) % 100 == 0 {
        1int
    } else {
        0
    });
}

/// Counting days from March 1 of year 0: an era plus the start of a
/// March-based year of the era.
proof fn lemma_era_days(era: int, yoe: int)
    requires
        0 <= yoe < 400,
    ensures
        146097 * era + march_year_start(yoe) == 365 * (400 * era + yoe) + (400 * era + yoe) / 4 - (
        400 * era + yoe) / 100 + (400 * era + yoe) / 400,
{
}

/// The civil date of a day of a March-based year (`doy` days after March 1
/// of year `yp`): the month and day the conversion computes are valid and
/// name that day.
proof fn lemma_march_day(yp: int, doy: int)
    requires
        0 <= doy < 365 + if is_leap_year(yp + 1) {
            1int
        } else {
            0
        },
    ensures
        ({
            let mp = (5 * doy + 2) / 153;
            let d = doy - (153 * mp + 2) / 5 + 1;
            let m = if mp < 10 {
                mp + 3
            } else {
                mp - 9
            };
            let y = if m <= 2 {
                yp + 1
            } else {
                yp
            };
            &&& 0 <= mp < 12
            &&& 1 <= m <= 12
            &&& 1 <= d <= days_in_month(y, m)
            &&& days_from_civil(y, m, d) == 365 * yp + yp / 4 - yp / 100 + yp / 400 + doy - 719468
        }),
{
    let mp = (5 * doy + 2) / 153;
    assert(0 <= mp < 12);
    assert((153 * mp + 2) / 5 <= doy);
    assert(doy < (153 * (mp + 1) + 2) / 5);
    lemma_leap_years_step(yp);
    lemma_leap_years_through(yp);
    let d = doy - (153 * mp + 2) / 5 + 1;
    if mp < 10 {
        lemma_month_from_march(yp, mp, d);
    } else {
        lemma_month_from_march(yp + 1, mp, d);
    }
}

/// Month `mp` counted from March: its start in days from March 1, and its
/// length in civil year `y` (the year it falls in).
proof fn lemma_month_from_march(y: int, mp: int, d: int)
    requires
        0 <= mp < 12,
        1 <= d,
        (153 * mp + 2) / 5 + d - 1 < (153 * (mp + 1) + 2) / 5 + if mp == 11 && is_leap_year(y) {
            1int
        } else {
            0
        },
        mp == 11 ==> (153 * mp + 2) / 5 + d - 1 < 365 + if is_leap_year(y) {
            1int
        } else {
            0
        },
    ensures
        ({
            let m = if mp < 10 {
                mp + 3
            } else {
                mp - 9
            };
            &&& 1 <= m <= 12
            &&& d <= days_in_month(y, m)
            &&& days_before_month(y, m) + (if m <= 2 {
                306int
            } else {
                -59 - if is_leap_year(y) {
                    1int
                } else {
                    0
                }
            }) == (153 * mp + 2) / 5
        }),
{
    if mp == 0 {
    } else if mp == 1 {
    } else if mp == 2 {
    } else if mp == 3 {
    } else if mp == 4 {
    } else if mp == 5 {
    } else if mp == 6 {
    } else if mp == 7 {
    } else if mp == 8 {
    } else if mp == 9 {
    } else if mp == 10 {
    } else {
    }
}

/// Converting a day count: the date computed from the era decomposition is
/// valid and names that day.
proof fn lemma_civil_from_days(days: int)
    ensures
        ({
            let z = days + 719468;
            let era = z / 146097;
            let doe = z - era * 146097;
            let yoe = (doe - doe / 1460 + doe / 36524 - doe / 146096) / 365;
            let yp = yoe + era * 400;
            let doy = doe - march_year_start(yoe);
            let mp = (5 * doy + 2) / 153;
            let d = doy - (153 * mp + 2) / 5 + 1;
            let m = if mp < 10 {
                mp + 3
            } else {
                mp - 9
            };
            let y = if m <= 2 {
                yp + 1
            } else {
                yp
            };
            &&& 0 <= doe < 146097
            &&& 0 <= yoe < 400
            &&& 0 <= doy < 366
            &&& 0 <= mp < 12
            &&& 1 <= m <= 12
            &&& 1 <= d <= days_in_month(y, m)
            &&& days_from_civil(y, m, d) == days
        }),
{
    let z = days + 719468;
    let era = z / 146097;
    let doe = z - era * 146097;
    assert(0 <= doe < 146097);
    lemma_year_of_era(doe);
    let yoe = (doe - doe / 1460 + doe / 36524 - doe / 146096) / 365;
    let yp = yoe + era * 400;
    let doy = doe - march_year_start(yoe);
    lemma_march_year_length(era, yoe, doy);
    lemma_era_days(era, yoe);
    lemma_march_day(yp, doy);
}

/// `a` divided by the number of seconds in a day, rounding down, and the
/// remainder, which is in `0..86400`.
fn div_rem_day(a: i64) -> (r: (i64, i64))
    ensures
        r.0 == a as int / 86400,
        r.1 == a as int % 86400,
{
    let q = a / 86400;
    let m = a % 86400;
    if m < 0 {
        (q - 1, m + 86400)
    } else {
        (q, m)
    }
}

/// The fields of [`datetime_of_secs`] as this module returns them: the
/// year cut to 32 bits, the others as they are.
pub open spec fn datetime_fields(t: (int, int, int, int, int, int)) -> (u32, u32, u32, u32, u32, u32) {
    (t.0 as u32, t.1 as u32, t.2 as u32, t.3 as u32, t.4 as u32, t.5 as u32)
}

/// Converts a timestamp (seconds since 1970-01-01 00:00:00) to
/// (year, month, day, hour, minute, second).
#[verifier::rlimit(50)]
pub fn secs_to_datetime(secs: i64) -> (r: (u32, u32, u32, u32, u32, u32))
    ensures
        is_valid_datetime(datetime_of_secs(secs as int)),
        datetime_to_secs(datetime_of_secs(secs as int)) == secs,
        r == datetime_fields(datetime_of_secs(secs as int)),
{
    let (days, sec_of_day) = div_rem_day(secs);
    let h = (sec_of_day / 3600) as u32;
    let mi = ((sec_of_day % 3600) / 60) as u32;
    let s = (sec_of_day % 60) as u32;
    assert(h * 3600 + mi * 60 + s == sec_of_day);

    let z = days + 719468;
    let era = if z >= 0 {
        z
    } else {
        z - 146096
    } / 146097;
    assert(era == z as int / 146097);
    proof {
        lemma_civil_from_days(days as int);
    }
    let doe = (z - era * 146097) as u32;
    let yoe = (doe - doe / 1460 + doe / 36524 - doe / 146096) / 365;
    let y = yoe as i64 + era * 400;
    let doy = doe - (365 * yoe + yoe / 4 - yoe / 100);
    assert(doy == doe - march_year_start(yoe as int));
    let mp = (5 * doy + 2) / 153;
    let d = doy - (153 * mp + 2) / 5 + 1;
    let mo = if mp < 10 {
        mp + 3
    } else {
        mp - 9
    };
    let y = if mo <= 2 {
        y + 1
    } else {
        y
    };
    let ghost t = (y as int, mo as int, d as int, h as int, mi as int, s as int);
    proof {
        assert(is_valid_datetime(t));
        assert(days_from_civil(t.0, t.1, t.2) == days);
        assert(datetime_to_secs(t) == secs) by (nonlinear_arith)
            requires
                datetime_to_secs(t) == days_from_civil(t.0, t.1, t.2) * 86400 + sec_of_day,
                days_from_civil(t.0, t.1, t.2) == days,
                days * 86400 + sec_of_day == secs,
        ;
        let c = datetime_of_secs(secs as int);
        lemma_datetime_unique(c, t);
    }
    (y as u32, mo, d, h, mi, s)
}

/// The character of the decimal digit `d`.
pub open spec fn digit_char(d: int) -> char {
    (48 + d) as char
}

/// The decimal digits of `n`, most significant first, without leading zeros.
pub open spec fn decimal(n: nat) -> Seq<char>
    decreases n,
{
    if n < 10 {
        seq![digit_char(n as int)]
    } else {
        decimal(n / 10).push(digit_char((n % 10) as int))
    }
}

/// The decimal digits of `n` with zeros in front up to `width` characters.
pub open spec fn zero_padded(n: nat, width: nat) -> Seq<char> {
    if decimal(n).len() < width {
        Seq::new((width - decimal(n).len()) as nat, |i: int| '0') + decimal(n)
    } else {
        decimal(n)
    }
}

/// The name of a picture saved at local time `t`:
/// `PREFIX_YYYY-MM-DD_hh_mm_ss.png`.
pub open spec fn capture_file_name_spec(prefix: Seq<char>, t: (u32, u32, u32, u32, u32, u32)) -> Seq<
    char,
> {
    prefix + seq!['_'] + zero_padded(t.0 as nat, 4) + seq!['-'] + zero_padded(t.1 as nat, 2) + seq![
        '-',
    ] + zero_padded(t.2 as nat, 2) + seq!['_'] + zero_padded(t.3 as nat, 2) + seq!['_']
        + zero_padded(t.4 as nat, 2) + seq!['_'] + zero_padded(t.5 as nat, 2) + seq![
        '.',
        'p',
        'n',
        'g',
    ]
}

fn digit_str(d: u32) -> (r: &'static str)
    requires
        d < 10,
    ensures
        r@ == seq![digit_char(d as int)],
{
    proof {
        reveal_strlit("0");
        reveal_strlit("1");
        reveal_strlit("2");
        reveal_strlit("3");
        reveal_strlit("4");
        reveal_strlit("5");
        reveal_strlit("6");
        reveal_strlit("7");
        reveal_strlit("8");
        reveal_strlit("9");
    }
    let r = if d == 0 {
        "0"
    } else if d == 1 {
        "1"
    } else if d == 2 {
        "2"
    } else if d == 3 {
        "3"
    } else if d == 4 {
        "4"
    } else if d == 5 {
        "5"
    } else if d == 6 {
        "6"
    } else if d == 7 {
        "7"
    } else if d == 8 {
        "8"
    } else {
        "9"
    };
    assert(r@ =~= seq![digit_char(d as int)]);
    r
}

/// Ten to the power `k`.
spec fn pow10(k: nat) -> nat
    decreases k,
{
    if k == 0 {
        1
    } else {
        10 * pow10((k - 1) as nat)
    }
}

proof fn lemma_decimal_len_bound(n: nat, k: nat)
    requires
        1 <= k,
        n < pow10(k),
    ensures
        decimal(n).len() <= k,
    decreases k,
{
    if n >= 10 {
        assert(k >= 2) by {
            if k == 1 {
                assert(pow10(1) == 10) by {
                    reveal_with_fuel(pow10, 2);
                }
            }
        }
        assert(n / 10 < pow10((k - 1) as nat));
        lemma_decimal_len_bound(n / 10, (k - 1) as nat);
    }
}

fn decimal_len(n: u32) -> (len: usize)
    ensures
        len == decimal(n as nat).len(),
        len <= 10,
    decreases n,
{
    proof {
        assert(pow10(10) == 10000000000) by {
            reveal_with_fuel(pow10, 11);
        }
        lemma_decimal_len_bound(n as nat, 10);
    }
    if n < 10 {
        1
    } else {
        decimal_len(n / 10) + 1
    }
}

fn push_decimal(out: &mut String, n: u32)
    ensures
        final(out)@ == old(out)@ + decimal(n as nat),
    decreases n,
{
    if n >= 10 {
        push_decimal(out, n / 10);
    }
    out.append(digit_str(n % 10));
    assert(final(out)@ =~= old(out)@ + decimal(n as nat));
}

fn push_zero_padded(out: &mut String, n: u32, width: usize)
    ensures
        final(out)@ == old(out)@ + zero_padded(n as nat, width as nat),
{
    let len = decimal_len(n);
    let mut k = len;
    while k < width
        invariant
            len <= k,
            len == decimal(n as nat).len(),
            len < width ==> k <= width,
            len >= width ==> k == len,
            out@ == old(out)@ + Seq::new((k - len) as nat, |i: int| '0'),
        decreases width - k,
    {
        out.append("0");
        proof {
            reveal_strlit("0");
        }
        k = k + 1;
        assert(out@ =~= old(out)@ + Seq::new((k - len) as nat, |i: int| '0'));
    }
    let ghost zeros = Seq::new((k - len) as nat, |i: int| '0');
    push_decimal(out, n);
    if len < width {
        assert(k == width);
    } else {
        assert(zeros =~= Seq::<char>::empty());
    }
    assert(final(out)@ =~= old(out)@ + zero_padded(n as nat, width as nat));
}

/// The decimal digits of `n`.
pub fn decimal_string(n: u32) -> (s: String)
    ensures
        s@ == decimal(n as nat),
{
    let mut s = String::new();
    push_decimal(&mut s, n);
    assert(s@ =~= decimal(n as nat));
    s
}

/// The name of a picture saved at `local_secs` (seconds since 1970-01-01
/// 00:00:00 local time): `PREFIX_YYYY-MM-DD_hh_mm_ss.png`.
pub fn capture_file_name(prefix: &str, local_secs: i64) -> (name: String)
    ensures
        name@ == capture_file_name_spec(prefix@, datetime_fields(datetime_of_secs(local_secs as int))),
{
    let (y, mo, d, h, mi, s) = secs_to_datetime(local_secs);
    let mut name = String::from_str(prefix);
    proof {
        reveal_strlit("_");
        reveal_strlit("-");
        reveal_strlit(".png");
    }
    name.append("_");
    push_zero_padded(&mut name, y, 4);
    name.append("-");
    push_zero_padded(&mut name, mo, 2);
    name.append("-");
    push_zero_padded(&mut name, d, 2);
    name.append("_");
    push_zero_padded(&mut name, h, 2);
    name.append("_");
    push_zero_padded(&mut name, mi, 2);
    name.append("_");
    push_zero_padded(&mut name, s, 2);
    name.append(".png");
    assert(name@ =~= capture_file_name_spec(prefix@, (y, mo, d, h, mi, s)));
    name
}

} // verus!
