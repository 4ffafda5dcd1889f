//! Millisecond timestamps since the Unix epoch: interval alignment (with
//! calendar-based month handling), canonical text form, and parsing.

use crate::interval::{
    dec_repr, spec_dec, Interval, DAY_MS, HOUR_MS, MIN_MS, MONTH_MS, SEC_MS, WEEK_MS,
    WEEK_OFFSET_MS,
};
use crate::math::{
    ceil_multiple, ceil_multiple_offset, floor_multiple, floor_multiple_offset,
    lemma_multiple_is_fixed_point, spec_ceil_multiple, spec_ceil_multiple_offset,
    spec_floor_multiple, spec_floor_multiple_offset,
};
use crate::types::ParseError;
use vstd::prelude::*;
use vstd::string::*;

verus! {

/// Last millisecond of year 9999; the range in which calendar lookups are
/// guaranteed to stay within chrono's supported dates.
pub const MAX_CALENDAR_MS: u64 = 253_402_300_799_999;

/// The UTC calendar date `(year, month, day)` that chrono assigns to a
/// millisecond timestamp.
pub uninterp spec fn civil_of_ms(ms: u64) -> (int, int, int);

/// The millisecond timestamp that chrono assigns to the first instant of a
/// calendar month.
pub uninterp spec fn ms_of_month_start(y: int, m: int) -> int;

/// What chrono's `DateTime<Utc>` parser (relaxed RFC 3339) makes of a
/// string: seconds since the epoch and the subsecond milliseconds.
pub uninterp spec fn rfc3339_secs_of(s: Seq<char>) -> Option<(int, int)>;

/// What chrono's naive datetime parser makes of a string.
pub uninterp spec fn naive_datetime_secs_of(s: Seq<char>) -> Option<(int, int)>;

/// What chrono's naive date parser makes of a string: a calendar date.
pub uninterp spec fn naive_date_civil_of(s: Seq<char>) -> Option<(int, int, int)>;

/// Relies on chrono's `DateTime::from_timestamp_millis` and the `Datelike`
/// accessors: the UTC calendar date of a millisecond timestamp. The clauses
/// relating the date to month starts say that the timestamp lies within its
/// own calendar month.
#[verifier::external_body]
fn civil_from_ms(ms: u64) -> (r: (i32, u32, u32))
    requires
        ms <= MAX_CALENDAR_MS,
    ensures
        (r.0 as int, r.1 as int, r.2 as int) == civil_of_ms(ms),
        1970 <= r.0 <= 9999,
        1 <= r.1 <= 12,
        1 <= r.2 <= 31,
        ms_of_month_start(r.0 as int, r.1 as int) <= ms,
        r.1 < 12 ==> ms < ms_of_month_start(r.0 as int, r.1 as int + 1),
        r.1 == 12 ==> ms < ms_of_month_start(r.0 as int + 1, 1),
{
    let dt = chrono::DateTime::from_timestamp_millis(ms as i64).unwrap();
    (
        chrono::Datelike::year(&dt),
        chrono::Datelike::month(&dt),
        chrono::Datelike::day(&dt),
    )
}

/// Relies on chrono's `NaiveDate::from_ymd_opt` and `timestamp_millis`: the
/// millisecond timestamp of the first instant of a calendar month. The
/// round-trip clause says that this instant's calendar date is the first of
/// that same month.
#[verifier::external_body]
fn month_start_ms(y: i32, m: u32) -> (r: u64)
    requires
        1970 <= y <= 10000,
        1 <= m <= 12,
    ensures
        r == ms_of_month_start(y as int, m as int),
        civil_of_ms(r) == (y as int, m as int, 1int),
        r <= 254_000_000_000_000,
        y <= 9999 ==> r <= MAX_CALENDAR_MS,
{
    let date = chrono::NaiveDate::from_ymd_opt(y, m, 1).unwrap();
    let dt = date.and_hms_opt(0, 0, 0).unwrap();
    dt.and_utc().timestamp_millis() as u64
}

/// Relies on chrono's `DateTime<Utc>` string parsing (relaxed RFC 3339: a
/// space may also separate date and time); the result depends on the string
/// alone. The bounds are chrono's supported range;
/// the subsecond milliseconds reach up to 1999, as chrono represents a
/// parsed leap second as an overflow of the preceding second.
#[verifier::external_body]
fn parse_rfc3339(s: &str) -> (r: Option<(i64, u32)>)
    ensures
        match r {
            Some(p) => rfc3339_secs_of(s@) == Some((p.0 as int, p.1 as int))
                && -10_000_000_000_000 <= p.0 <= 10_000_000_000_000 && p.1 < 2000,
            None => rfc3339_secs_of(s@) is None,
        },
{
    match s.parse::<chrono::DateTime<chrono::Utc>>() {
        Ok(x) => Some((x.timestamp(), x.timestamp_subsec_millis())),
        Err(_) => None,
    }
}

/// Relies on chrono's `NaiveDateTime` parsing, read as UTC; the result
/// depends on the string alone. The bounds are chrono's supported range;
/// the subsecond milliseconds reach up to 1999, as chrono represents a
/// parsed leap second as an overflow of the preceding second.
#[verifier::external_body]
fn parse_naive_datetime(s: &str) -> (r: Option<(i64, u32)>)
    ensures
        match r {
            Some(p) => naive_datetime_secs_of(s@) == Some((p.0 as int, p.1 as int))
                && -10_000_000_000_000 <= p.0 <= 10_000_000_000_000 && p.1 < 2000,
            None => naive_datetime_secs_of(s@) is None,
        },
{
    match s.parse::<chrono::NaiveDateTime>() {
        Ok(x) => {
            let utc = x.and_utc();
            Some((utc.timestamp(), utc.timestamp_subsec_millis()))
        },
        Err(_) => None,
    }
}

/// Relies on chrono's `NaiveDate` parsing; the result depends on the string
/// alone and is a valid calendar date.
#[verifier::external_body]
fn parse_naive_date(s: &str) -> (r: Option<(i32, u32, u32)>)
    ensures
        match r {
            Some(p) => naive_date_civil_of(s@) == Some(
                (p.0 as int, p.1 as int, p.2 as int),
            ) && -300_000 <= p.0 <= 300_000 && 1 <= p.1 <= 12 && 1 <= p.2 <= 31,
            None => naive_date_civil_of(s@) is None,
        },
{
    match s.parse::<chrono::NaiveDate>() {
        Ok(x) => Some(
            (chrono::Datelike::year(&x), chrono::Datelike::month(&x), chrono::Datelike::day(&x)),
        ),
        Err(_) => None,
    }
}

/// Interval widths that timestamps can be aligned to: anything below a week,
/// exactly a week, or exactly a month.
pub open spec fn spec_supported_alignment(i: int) -> bool {
    (0 < i < WEEK_MS as int) || i == WEEK_MS as int || i == MONTH_MS as int
}

/// The floor of timestamp `t` to interval `i`: modular below a week, Monday
/// anchored for weeks, the month's first instant for months.
pub open spec fn spec_floor_ts(t: int, i: int) -> int {
    if i == MONTH_MS as int {
        let c = civil_of_ms(t as u64);
        ms_of_month_start(c.0, c.1)
    } else if i == WEEK_MS as int {
        spec_floor_multiple_offset(t, i, WEEK_OFFSET_MS as int)
    } else {
        spec_floor_multiple(t, i)
    }
}

/// The ceiling of timestamp `t` to interval `i`: modular below a week,
/// Monday anchored for weeks; for months, `t` itself when it is already the
/// first instant of its calendar month, the next month's first instant
/// otherwise.
pub open spec fn spec_ceil_ts(t: int, i: int) -> int {
    if i == MONTH_MS as int {
        let c = civil_of_ms(t as u64);
        if t == ms_of_month_start(c.0, c.1) {
            t
        } else if c.1 < 12 {
            ms_of_month_start(c.0, c.1 + 1)
        } else {
            ms_of_month_start(c.0 + 1, 1)
        }
    } else if i == WEEK_MS as int {
        spec_ceil_multiple_offset(t, i, WEEK_OFFSET_MS as int)
    } else {
        spec_ceil_multiple(t, i)
    }
}

/// A millisecond timestamp since the Unix epoch.
#[derive(Clone, Copy, Debug, Hash, PartialEq, Eq, Structural)]
pub struct Timestamp(pub u64);

impl Timestamp {
    /// Align down to `interval`. The result is at most the input and is a
    /// fixed point of the alignment.
    pub fn floor(&self, interval: Interval) -> (r: Self)
        requires
            spec_supported_alignment(interval.0 as int),
            interval.0 == MONTH_MS ==> self.0 <= MAX_CALENDAR_MS,
        ensures
            r.0 == spec_floor_ts(self.0 as int, interval.0 as int),
            r.0 <= self.0,
            spec_floor_ts(r.0 as int, interval.0 as int) == r.0,
    {
        if interval.0 < WEEK_MS {
            let r = floor_multiple(self.0, interval.0);
            proof {
                lemma_multiple_is_fixed_point(r as int, interval.0 as int);
            }
            Timestamp(r)
        } else if interval.0 == WEEK_MS {
            let r = floor_multiple_offset(self.0, interval.0, WEEK_OFFSET_MS);
            proof {
                if r >= WEEK_OFFSET_MS {
                    lemma_multiple_is_fixed_point((r - WEEK_OFFSET_MS) as int, interval.0 as int);
                }
            }
            Timestamp(r)
        } else {
            let (y, m, _d) = civil_from_ms(self.0);
            let r = month_start_ms(y, m);
            Timestamp(r)
        }
    }

    /// Align up to `interval`. The result is at least the input and is a
    /// fixed point of the alignment: a month-aligned timestamp is its own
    /// month ceiling.
    pub fn ceil(&self, interval: Interval) -> (r: Self)
        requires
            spec_supported_alignment(interval.0 as int),
            self.0 + interval.0 - 1 <= u64::MAX,
            interval.0 == MONTH_MS ==> self.0 <= MAX_CALENDAR_MS,
        ensures
            r.0 == spec_ceil_ts(self.0 as int, interval.0 as int),
            self.0 <= r.0,
            spec_ceil_ts(r.0 as int, interval.0 as int) == r.0,
    {
        if interval.0 < WEEK_MS {
            let r = ceil_multiple(self.0, interval.0);
            proof {
                lemma_multiple_is_fixed_point(r as int, interval.0 as int);
            }
            Timestamp(r)
        } else if interval.0 == WEEK_MS {
            let r = ceil_multiple_offset(self.0, interval.0, WEEK_OFFSET_MS);
            proof {
                if r > WEEK_OFFSET_MS {
                    lemma_multiple_is_fixed_point((r - WEEK_OFFSET_MS) as int, interval.0 as int);
                }
            }
            Timestamp(r)
        } else {
            let (y, m, _d) = civil_from_ms(self.0);
            let start = month_start_ms(y, m);
            if start == self.0 {
                Timestamp(self.0)
            } else {
                let r = if m == 12 {
                    month_start_ms(y + 1, 1)
                } else {
                    month_start_ms(y, m + 1)
                };
                Timestamp(r)
            }
        }
    }
}

/// Alignment below a month is idempotent and brackets the input: these
/// hold of the pure modular forms without any calendar lookup.
pub proof fn lemma_alignment_idempotent(t: int, i: int)
    requires
        0 < i <= WEEK_MS as int,
        t >= 0,
    ensures
        spec_floor_ts(t, i) <= t,
        spec_floor_ts(spec_floor_ts(t, i), i) == spec_floor_ts(t, i),
        t <= spec_ceil_ts(t, i),
        spec_ceil_ts(spec_ceil_ts(t, i), i) == spec_ceil_ts(t, i),
{
    broadcast use vstd::arithmetic::mul::lemma_mul_is_commutative;

    vstd::arithmetic::div_mod::lemma_fundamental_div_mod(t, i);
    vstd::arithmetic::div_mod::lemma_mod_bound(t, i);
    if i == WEEK_MS as int {
        let off = WEEK_OFFSET_MS as int;
        if t >= off {
            vstd::arithmetic::div_mod::lemma_fundamental_div_mod(t - off, i);
            vstd::arithmetic::div_mod::lemma_mod_bound(t - off, i);
            vstd::arithmetic::div_mod::lemma_mod_multiples_basic((t - off) / i, i);
            lemma_multiple_is_fixed_point(spec_floor_multiple(t - off, i), i);
            vstd::arithmetic::div_mod::lemma_fundamental_div_mod(t - off + i - 1, i);
            vstd::arithmetic::div_mod::lemma_mod_bound(t - off + i - 1, i);
            vstd::arithmetic::div_mod::lemma_mod_multiples_basic((t - off + i - 1) / i, i);
            lemma_multiple_is_fixed_point(spec_ceil_multiple(t - off, i), i);
        } else {
            vstd::arithmetic::div_mod::lemma_fundamental_div_mod(0int, i);
        }
    } else {
        vstd::arithmetic::div_mod::lemma_mod_multiples_basic(t / i, i);
        lemma_multiple_is_fixed_point(spec_floor_multiple(t, i), i);
        vstd::arithmetic::div_mod::lemma_fundamental_div_mod(t + i - 1, i);
        vstd::arithmetic::div_mod::lemma_mod_bound(t + i - 1, i);
        vstd::arithmetic::div_mod::lemma_mod_multiples_basic((t + i - 1) / i, i);
        lemma_multiple_is_fixed_point(spec_ceil_multiple(t, i), i);
    }
}

// --- Canonical text form ---

/// Two-digit zero-padded decimal.
pub open spec fn spec_pad2(n: int) -> Seq<char> {
    if n < 10 {
        seq!['0'] + spec_dec(n)
    } else {
        spec_dec(n)
    }
}

/// "YYYY-MM-DDTHH:MM:SSZ": the calendar date chrono assigns to `ms` and the
/// modular time of day within it.
pub open spec fn spec_timestamp_repr(ms: u64) -> Seq<char> {
    let c = civil_of_ms(ms);
    let rem = ms as int % (DAY_MS as int);
    let h = rem / (HOUR_MS as int);
    let mi = (rem % (HOUR_MS as int)) / (MIN_MS as int);
    let sec = (rem % (MIN_MS as int)) / (SEC_MS as int);
    spec_dec(c.0) + seq!['-'] + spec_pad2(c.1) + seq!['-'] + spec_pad2(c.2) + seq!['T']
        + spec_pad2(h) + seq![':'] + spec_pad2(mi) + seq![':'] + spec_pad2(sec) + seq!['Z']
}

fn append_pad2(out: &mut String, n: u64)
    ensures
        final(out)@ == old(out)@ + spec_pad2(n as int),
{
    let ghost prev = out@;
    if n < 10 {
        proof {
            reveal_strlit("0");
        }
        out.append("0");
        proof {
            assert("0"@ =~= seq!['0']);
        }
    }
    let d = dec_repr(n);
    out.append(d.as_str());
    proof {
        assert(out@ =~= prev + spec_pad2(n as int));
    }
}

/// Format `ms` as "YYYY-MM-DDTHH:MM:SSZ".
pub fn timestamp_repr(ms: u64) -> (r: String)
    requires
        ms <= MAX_CALENDAR_MS,
    ensures
        r@ == spec_timestamp_repr(ms),
{
    let (y, mo, d) = civil_from_ms(ms);
    let rem = ms % DAY_MS;
    let h = rem / HOUR_MS;
    let mi = (rem % HOUR_MS) / MIN_MS;
    let sec = (rem % MIN_MS) / SEC_MS;
    let mut out = dec_repr(y as u64);
    proof {
        reveal_strlit("-");
        reveal_strlit("T");
        reveal_strlit(":");
        reveal_strlit("Z");
        assert("-"@ =~= seq!['-']);
        assert("T"@ =~= seq!['T']);
        assert(":"@ =~= seq![':']);
        assert("Z"@ =~= seq!['Z']);
    }
    out.append("-");
    append_pad2(&mut out, mo as u64);
    out.append("-");
    append_pad2(&mut out, d as u64);
    out.append("T");
    append_pad2(&mut out, h);
    out.append(":");
    append_pad2(&mut out, mi);
    out.append(":");
    append_pad2(&mut out, sec);
    out.append("Z");
    proof {
        assert(out@ =~= spec_timestamp_repr(ms));
    }
    out
}

// --- Parsing ---

/// The timestamp a string denotes: RFC 3339 first, then a naive datetime
/// read as UTC, then a bare date at midnight. Instants before the epoch are
/// rejected, and so are bare dates outside the years 1970 to 9999 (the
/// range the calendar lookups are stated for).
pub open spec fn spec_parse_timestamp(s: Seq<char>) -> Option<int> {
    match rfc3339_secs_of(s) {
        Some(p) => if p.0 >= 0 {
            Some(p.0 * 1000 + p.1)
        } else {
            None
        },
        None => match naive_datetime_secs_of(s) {
            Some(p) => if p.0 >= 0 {
                Some(p.0 * 1000 + p.1)
            } else {
                None
            },
            None => match naive_date_civil_of(s) {
                Some(c) => if 1970 <= c.0 <= 9999 {
                    Some(ms_of_month_start(c.0, c.1) + (c.2 - 1) * (DAY_MS as int))
                } else {
                    None
                },
                None => None,
            },
        },
    }
}

/// Parse a timestamp from RFC 3339, a naive datetime, or a bare date.
pub fn str_to_timestamp(s: &str) -> (r: Result<u64, ParseError>)
    ensures
        match spec_parse_timestamp(s@) {
            Some(v) => r == Ok::<u64, ParseError>(v as u64),
            None => r == Err::<u64, ParseError>(ParseError),
        },
{
    if let Some(p) = parse_rfc3339(s) {
        let (secs, millis) = p;
        if secs >= 0 {
            return Ok(secs as u64 * 1000 + millis as u64);
        }
        return Err(ParseError);
    }
    if let Some(p) = parse_naive_datetime(s) {
        let (secs, millis) = p;
        if secs >= 0 {
            return Ok(secs as u64 * 1000 + millis as u64);
        }
        return Err(ParseError);
    }
    match parse_naive_date(s) {
        Some(c) => {
            let (y, m, d) = c;
            if 1970 <= y && y <= 9999 {
                let base = month_start_ms(y, m);
                Ok(base + (d as u64 - 1) * DAY_MS)
            } else {
                Err(ParseError)
            }
        },
        None => Err(ParseError),
    }
}

impl Timestamp {
    /// Canonical text form "YYYY-MM-DDTHH:MM:SSZ".
    pub fn repr(&self) -> (r: String)
        requires
            self.0 <= MAX_CALENDAR_MS,
        ensures
            r@ == spec_timestamp_repr(self.0),
    {
        timestamp_repr(self.0)
    }

    /// Parse from RFC 3339, a naive datetime, or a bare date.
    pub fn parse(s: &str) -> (r: Result<Timestamp, ParseError>)
        ensures
            match spec_parse_timestamp(s@) {
                Some(v) => r == Ok::<Timestamp, ParseError>(Timestamp(v as u64)),
                None => r == Err::<Timestamp, ParseError>(ParseError),
            },
    {
        match str_to_timestamp(s) {
            Ok(v) => Ok(Timestamp(v)),
            Err(e) => Err(e),
        }
    }
}

impl core::str::FromStr for Timestamp {
    type Err = ParseError;

    fn from_str(s: &str) -> Result<Timestamp, ParseError> {
        Timestamp::parse(s)
    }
}

} // verus!
