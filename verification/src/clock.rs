use vstd::prelude::*;

use crate::utils::{dec_digits, digit_char, u64_to_chars};

verus! {

/// Seconds per day.
pub const DAY_SECS: i64 = 86400;

/// The calendar date (year, month, day) of a day number counted from the
/// Unix epoch; fixed by the proleptic Gregorian calendar, so a function
/// of the day alone.
pub uninterp spec fn ymd_of_day(day: int) -> (int, int, int);

/// Relies on chrono's `DateTime::from_timestamp` and `Datelike`: the
/// calendar date of a timestamp, which depends only on its day number;
/// months run 1 to 12 and days 1 to 31.
#[verifier::external_body]
pub fn civil_ymd(ts: i64) -> (r: (i64, u32, u32))
    requires
        0 <= ts < 253402300800,
    ensures
        (r.0 as int, r.1 as int, r.2 as int) == ymd_of_day(ts as int / 86400),
        0 <= r.0 <= 9999,
        1 <= r.1 <= 12,
        1 <= r.2 <= 31,
{
    let dt = chrono::DateTime::<chrono::Utc>::from_timestamp(ts, 0).unwrap();
    let d = chrono::Datelike::year(&dt);
    let m = chrono::Datelike::month(&dt);
    let day = chrono::Datelike::day(&dt);
    (d as i64, m, day)
}

/// Relies on chrono's `Utc::now`: the current wall-clock time as seconds
/// since the Unix epoch. Nothing can be promised of the clock's reading.
#[verifier::external_body]
pub fn now_timestamp() -> i64 {
    chrono::Utc::now().timestamp()
}

/// Relies on chrono's `TimeZone::offset_from_utc_datetime` for `Local`
/// and `FixedOffset::local_minus_utc`: the machine time zone's offset
/// from UTC, in seconds, at the given instant. chrono keeps every offset
/// strictly between minus and plus one day.
#[verifier::external_body]
pub fn local_offset_seconds(ts: i64) -> (r: i64)
    ensures
        -86400 < r < 86400,
{
    let dt = match chrono::DateTime::<chrono::Utc>::from_timestamp(ts, 0) {
        Some(dt) => dt,
        None => return 0,
    };
    let off = chrono::TimeZone::offset_from_utc_datetime(&chrono::Local, &dt.naive_utc());
    off.local_minus_utc() as i64
}

/// Euclidean division by a positive divisor, for possibly negative
/// timestamps.
pub fn div_floor_i64(a: i64, b: i64) -> (r: i64)
    requires
        b > 0,
        a > i64::MIN + b,
    ensures
        r == (a as int) / (b as int),
{
    if a >= 0 {
        a / b
    } else {
        let na = -a;
        let q = (na + b - 1) / b;
        proof {
            assert(-((na + b - 1) as int / b as int) == a as int / b as int)
                by (nonlinear_arith)
                requires
                    a < 0,
                    b > 0,
                    na == -(a as int),
            ;
        }
        -q
    }
}

/// The local calendar day (days since the Unix epoch) of an instant,
/// given the time zone offset that applies to it.
pub open spec fn local_day_of(ts: int, offset: int) -> int {
    (ts + offset) / 86400
}

/// The second of the local day an instant falls in.
pub open spec fn local_second_of(ts: int, offset: int) -> int {
    (ts + offset) % 86400
}

/// The local calendar day of `ts` under the machine's time zone.
pub fn local_day(ts: i64) -> (r: i64)
    requires
        i64::MIN + 2 * 86400 < ts < i64::MAX - 2 * 86400,
    ensures
        exists|off: int|
            -86400 < off < 86400 && r == #[trigger] local_day_of(ts as int, off),
{
    let off = local_offset_seconds(ts);
    let r = div_floor_i64(ts + off, DAY_SECS);
    proof {
        assert(r == local_day_of(ts as int, off as int));
    }
    r
}

/// Two decimal digits, zero-padded.
pub open spec fn two_digits(n: int) -> Seq<char> {
    seq![digit_char(n / 10), digit_char(n % 10)]
}

fn push_two_digits(v: &mut Vec<char>, n: u64)
    requires
        n < 100,
    ensures
        final(v)@ == old(v)@ + two_digits(n as int),
{
    let mut w = u64_to_chars(n / 10);
    v.append(&mut w);
    let mut w2 = u64_to_chars(n % 10);
    v.append(&mut w2);
    proof {
        assert(v@ =~= old(v)@ + two_digits(n as int));
    }
}

/// `HH:MM` within the local day.
pub open spec fn hm_chars(second_of_day: int) -> Seq<char> {
    two_digits(second_of_day / 3600) + seq![':'] + two_digits((second_of_day % 3600) / 60)
}

/// Formats the time of day `HH:MM` for the given second of the day.
pub fn format_hm(second_of_day: i64) -> (r: Vec<char>)
    requires
        0 <= second_of_day < 86400,
    ensures
        r@ == hm_chars(second_of_day as int),
{
    let h = (second_of_day / 3600) as u64;
    let m = ((second_of_day % 3600) / 60) as u64;
    let mut v: Vec<char> = Vec::new();
    push_two_digits(&mut v, h);
    v.push(':');
    push_two_digits(&mut v, m);
    proof {
        assert(v@ =~= hm_chars(second_of_day as int));
    }
    v
}

/// Four decimal digits, zero-padded.
pub open spec fn four_digits(n: int) -> Seq<char> {
    two_digits(n / 100) + two_digits(n % 100)
}

/// `YYYY-MM-DD` for a calendar date.
pub open spec fn date_chars(y: int, m: int, d: int) -> Seq<char> {
    four_digits(y) + seq!['-'] + two_digits(m) + seq!['-'] + two_digits(d)
}

/// Formats a calendar date as `YYYY-MM-DD`.
pub fn format_date(y: i64, m: u32, d: u32) -> (r: Vec<char>)
    requires
        0 <= y <= 9999,
        m <= 99,
        d <= 99,
    ensures
        r@ == date_chars(y as int, m as int, d as int),
{
    let mut v: Vec<char> = Vec::new();
    push_two_digits(&mut v, (y / 100) as u64);
    push_two_digits(&mut v, (y % 100) as u64);
    v.push('-');
    push_two_digits(&mut v, m as u64);
    v.push('-');
    push_two_digits(&mut v, d as u64);
    proof {
        assert(v@ =~= date_chars(y as int, m as int, d as int));
    }
    v
}

} // verus!
