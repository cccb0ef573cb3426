//! ISO 8601 UTC timestamps from seconds since the Unix epoch.
use vstd::prelude::*;
use crate::text::{chars_to_string, decimal, decimal_padded, push_decimal_padded, lemma_decimal_len};

verus! {

/// Gregorian leap years: divisible by 4, except centuries not divisible by 400.
pub open spec fn is_leap(y: nat) -> bool {
    y % 4 == 0 && (y % 100 != 0 || y % 400 == 0)
}

/// Days in year `y`.
pub open spec fn year_days(y: nat) -> nat {
    if is_leap(y) {
        366
    } else {
        365
    }
}

/// Days in month `m` (1 to 12) of year `y`.
pub open spec fn month_days(y: nat, m: nat) -> nat {
    if m == 2 {
        if is_leap(y) {
            29
        } else {
            28
        }
    } else if m == 4 || m == 6 || m == 9 || m == 11 {
        30
    } else {
        31
    }
}

/// The date `z` days after the first day of month `m` of year `y`, counting
/// through the later months of that year.
pub open spec fn date_in_year(z: nat, y: nat, m: nat) -> (nat, nat, nat)
    decreases 12 - m,
{
    if m >= 12 || z < month_days(y, m) {
        (y, m, z + 1)
    } else {
        date_in_year((z - month_days(y, m)) as nat, y, m + 1)
    }
}

/// The date `z` days after January 1 of year `y`.
pub open spec fn date_after(z: nat, y: nat) -> (nat, nat, nat)
    decreases z,
{
    if z < year_days(y) {
        date_in_year(z, y, 1)
    } else {
        date_after((z - year_days(y)) as nat, y + 1)
    }
}

/// The Gregorian date (year, month, day) `days` days after 1970-01-01.
pub open spec fn civil_date(days: nat) -> (nat, nat, nat) {
    date_after(days, 1970)
}

/// Days in the `n` years from year `y` on.
pub open spec fn span(y: nat, n: nat) -> nat
    decreases n,
{
    if n == 0 {
        0
    } else {
        year_days(y) + span(y + 1, (n - 1) as nat)
    }
}

/// Leap years among years 1 to `x`.
pub open spec fn leaps_through(x: nat) -> int {
    (x / 4) as int - (x / 100) as int + (x / 400) as int
}

proof fn lemma_leap_step(x: nat)
    requires
        x >= 1,
    ensures
        leaps_through(x) - leaps_through((x - 1) as nat) == if is_leap(x) { 1int } else { 0int },
{
    let w = (x - 1) as nat;
    assert(x / 4 - w / 4 == if x % 4 == 0 { 1int } else { 0int }) by (nonlinear_arith)
        requires
            w + 1 == x,
    ;
    assert(x / 100 - w / 100 == if x % 100 == 0 { 1int } else { 0int }) by (nonlinear_arith)
        requires
            w + 1 == x,
    ;
    assert(x / 400 - w / 400 == if x % 400 == 0 { 1int } else { 0int }) by (nonlinear_arith)
        requires
            w + 1 == x,
    ;
    assert(x % 100 == 0 ==> x % 4 == 0) by (nonlinear_arith);
    assert(x % 400 == 0 ==> x % 100 == 0) by (nonlinear_arith);
}

proof fn lemma_span_count(y: nat, n: nat)
    requires
        y >= 1,
    ensures
        span(y, n) == 365 * n + leaps_through((y + n - 1) as nat) - leaps_through((y - 1) as nat),
    decreases n,
{
    if n > 0 {
        lemma_span_count(y + 1, (n - 1) as nat);
        lemma_leap_step(y);
    }
}

proof fn lemma_span_eras(y: nat, k: nat)
    requires
        y >= 1,
    ensures
        span(y, 400 * k) == 146097 * k,
{
    lemma_span_count(y, 400 * k);
    let x = (y - 1) as nat;
    assert((x + 400 * k) / 4 == x / 4 + 100 * k) by (nonlinear_arith);
    assert((x + 400 * k) / 100 == x / 100 + 4 * k) by (nonlinear_arith);
    assert((x + 400 * k) / 400 == x / 400 + k) by (nonlinear_arith);
    assert((y + 400 * k - 1) as nat == x + 400 * k);
}

proof fn lemma_skip_years(z: nat, y: nat, n: nat)
    ensures
        date_after(z + span(y, n), y) == date_after(z, y + n),
    decreases n,
{
    if n > 0 {
        lemma_skip_years(z, y + 1, (n - 1) as nat);
        assert(z + span(y, n) >= year_days(y));
        assert((z + span(y, n) - year_days(y)) as nat == z + span(y + 1, (n - 1) as nat));
    }
}

/// `YYYY-MM-DDTHH:MM:SSZ` for a number of seconds since the Unix epoch.
pub open spec fn iso8601_utc(secs: nat) -> Seq<char> {
    let (y, m, d) = civil_date(secs / 86400);
    let t = secs % 86400;
    decimal_padded(y, 4) + seq!['-'] + decimal_padded(m, 2) + seq!['-'] + decimal_padded(d, 2)
        + seq!['T'] + decimal_padded(t / 3600, 2) + seq![':'] + decimal_padded((t % 3600) / 60, 2)
        + seq![':'] + decimal_padded(t % 60, 2) + seq!['Z']
}

fn is_leap_exec(y: u64) -> (r: bool)
    ensures
        r == is_leap(y as nat),
{
    y % 4 == 0 && (y % 100 != 0 || y % 400 == 0)
}

fn year_days_exec(y: u64) -> (r: u64)
    ensures
        r == year_days(y as nat),
{
    if is_leap_exec(y) {
        366
    } else {
        365
    }
}

fn month_days_exec(y: u64, m: u64) -> (r: u64)
    ensures
        r == month_days(y as nat, m as nat),
{
    if m == 2 {
        if is_leap_exec(y) {
            29
        } else {
            28
        }
    } else if m == 4 || m == 6 || m == 9 || m == 11 {
        30
    } else {
        31
    }
}

/// The Gregorian date `days` days after 1970-01-01: whole 400-year eras of
/// 146097 days are skipped, then the remaining years and months counted.
fn civil_date_exec(days: u64) -> (r: (u64, u64, u64))
    ensures
        (r.0 as nat, r.1 as nat, r.2 as nat) == civil_date(days as nat),
{
    let era = days / 146_097;
    let mut rem = days % 146_097;
    assert(era <= 130_000_000_000_000) by (nonlinear_arith)
        requires
            era == days / 146_097,
    ;
    let y0 = 1970 + 400 * era;
    proof {
        lemma_span_eras(1970, era as nat);
        assert(days == rem + 146097 * era) by (nonlinear_arith)
            requires
                era == days / 146_097,
                rem == days % 146_097,
        ;
        lemma_skip_years(rem as nat, 1970, 400 * era as nat);
    }
    let mut y = y0;
    while rem >= year_days_exec(y)
        invariant
            y0 == 1970 + 400 * era,
            era <= 130_000_000_000_000,
            y0 <= y,
            rem + 365 * (y - y0) <= 146096,
            date_after(rem as nat, y as nat) == civil_date(days as nat),
        decreases rem,
    {
        rem = rem - year_days_exec(y);
        y = y + 1;
    }
    proof {
        lemma_date_in_year_start(rem as nat, y as nat);
    }
    let mut m: u64 = 1;
    while m < 12 && rem >= month_days_exec(y, m)
        invariant
            1 <= m <= 12,
            rem <= 146096,
            date_in_year(rem as nat, y as nat, m as nat) == civil_date(days as nat),
        decreases 12 - m,
    {
        rem = rem - month_days_exec(y, m);
        m = m + 1;
    }
    (y, m, rem + 1)
}

proof fn lemma_date_in_year_start(z: nat, y: nat)
    requires
        z < year_days(y),
    ensures
        date_after(z, y) == date_in_year(z, y, 1),
{
}

/// ISO 8601 UTC timestamp (`YYYY-MM-DDTHH:MM:SSZ`) of `secs` seconds since the epoch.
pub fn format_utc_timestamp(secs: u64) -> (r: String)
    ensures
        r@ == iso8601_utc(secs as nat),
{
    let days = secs / 86400;
    let time_secs = secs % 86400;
    let hours = time_secs / 3600;
    let minutes = (time_secs % 3600) / 60;
    let seconds = time_secs % 60;
    let (y, m, d) = civil_date_exec(days);
    let mut out: Vec<char> = Vec::new();
    push_decimal_padded(&mut out, y, 4);
    out.push('-');
    push_decimal_padded(&mut out, m, 2);
    out.push('-');
    push_decimal_padded(&mut out, d, 2);
    out.push('T');
    push_decimal_padded(&mut out, hours, 2);
    out.push(':');
    push_decimal_padded(&mut out, minutes, 2);
    out.push(':');
    push_decimal_padded(&mut out, seconds, 2);
    out.push('Z');
    proof {
        assert(out@ =~= iso8601_utc(secs as nat));
    }
    chars_to_string(out.as_slice())
}

/// A decimal below `10^width` pads to exactly `width` digits.
pub proof fn lemma_decimal_padded_len(n: nat, width: nat)
    requires
        width >= 1,
        n < pow10(width),
    ensures
        decimal_padded(n, width).len() == width,
    decreases width,
{
    lemma_decimal_short(n, width);
}

/// `10^k`.
pub open spec fn pow10(k: nat) -> nat
    decreases k,
{
    if k == 0 {
        1
    } else {
        10 * pow10((k - 1) as nat)
    }
}

proof fn lemma_decimal_short(n: nat, width: nat)
    requires
        width >= 1,
        n < pow10(width),
    ensures
        decimal(n).len() <= width,
    decreases width,
{
    lemma_decimal_len(n);
    if n >= 10 {
        assert(width >= 2) by {
            if width == 1 {
                assert(pow10(1) == 10 * pow10(0));
            }
        }
        assert(n / 10 < pow10((width - 1) as nat)) by (nonlinear_arith)
            requires
                n < pow10(width),
                pow10(width) == 10 * pow10((width - 1) as nat),
        ;
        lemma_decimal_short(n / 10, (width - 1) as nat);
    }
}

/// Days in months `m` to 12 of year `y`.
pub open spec fn days_from_month(y: nat, m: nat) -> nat
    decreases 13 - m,
{
    if m > 12 {
        0
    } else {
        month_days(y, m) + days_from_month(y, m + 1)
    }
}

proof fn lemma_date_in_year_bounds(z: nat, y: nat, m: nat)
    requires
        1 <= m <= 12,
        z < days_from_month(y, m),
    ensures
        m <= date_in_year(z, y, m).1 <= 12,
        1 <= date_in_year(z, y, m).2 <= 31,
        date_in_year(z, y, m).0 == y,
    decreases 12 - m,
{
    if m < 12 && z >= month_days(y, m) {
        lemma_date_in_year_bounds((z - month_days(y, m)) as nat, y, m + 1);
    } else if m == 12 {
        assert(days_from_month(y, 13) == 0);
    }
}

proof fn lemma_date_after_bounds(z: nat, y: nat)
    ensures
        1 <= date_after(z, y).1 <= 12,
        1 <= date_after(z, y).2 <= 31,
    decreases z,
{
    if z < year_days(y) {
        assert(days_from_month(y, 1) == year_days(y)) by {
            reveal_with_fuel(days_from_month, 13);
        }
        lemma_date_in_year_bounds(z, y, 1);
    } else {
        lemma_date_after_bounds((z - year_days(y)) as nat, y + 1);
    }
}

/// Shape of a timestamp whose year has at most four digits: 20 characters,
/// with `-`, `-`, `T`, `:`, `:` and `Z` at their fixed positions.
pub proof fn lemma_iso8601_shape(secs: nat)
    requires
        civil_date(secs / 86400).0 < 10000,
    ensures
        iso8601_utc(secs).len() == 20,
        iso8601_utc(secs)[4] == '-',
        iso8601_utc(secs)[7] == '-',
        iso8601_utc(secs)[10] == 'T',
        iso8601_utc(secs)[13] == ':',
        iso8601_utc(secs)[16] == ':',
        iso8601_utc(secs)[19] == 'Z',
{
    let (y, m, d) = civil_date(secs / 86400);
    lemma_date_after_bounds(secs / 86400, 1970);
    let t = secs % 86400;
    assert(pow10(2) == 100) by {
        assert(pow10(1) == 10 * pow10(0));
        assert(pow10(2) == 10 * pow10(1));
    }
    assert(pow10(4) == 10000) by {
        assert(pow10(1) == 10 * pow10(0));
        assert(pow10(2) == 10 * pow10(1));
        assert(pow10(3) == 10 * pow10(2));
        assert(pow10(4) == 10 * pow10(3));
    }
    lemma_decimal_padded_len(y, 4);
    lemma_decimal_padded_len(m, 2);
    lemma_decimal_padded_len(d, 2);
    lemma_decimal_padded_len(t / 3600, 2);
    lemma_decimal_padded_len((t % 3600) / 60, 2);
    lemma_decimal_padded_len(t % 60, 2);
}

} // verus!
