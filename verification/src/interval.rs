//! Millisecond intervals with canonical unit constants, shorthand
//! representation ("1d2h3m") and alignment helpers.

use crate::math::{ceil_multiple, spec_ceil_multiple};
use crate::types::ParseError;
use vstd::prelude::*;
use vstd::string::*;

verus! {

pub const SEC_MS: u64 = 1000;

pub const MIN_MS: u64 = 60_000;

pub const HOUR_MS: u64 = 3_600_000;

pub const DAY_MS: u64 = 86_400_000;

pub const WEEK_MS: u64 = 604_800_000;

pub const MONTH_MS: u64 = 2_629_746_000;

pub const YEAR_MS: u64 = 31_556_952_000;

/// Milliseconds between the epoch and the first Monday after it; anchors
/// week alignment to Mondays.
pub const WEEK_OFFSET_MS: u64 = 345_600_000;

/// A span of time in milliseconds.
#[derive(Clone, Copy, Debug, Hash, PartialEq, Eq, Structural)]
pub struct Interval(pub u64);

impl Interval {
    /// Round up to the next multiple of `interval`.
    pub fn ceil(&self, interval: Interval) -> (r: Self)
        requires
            interval.0 > 0,
            self.0 + interval.0 - 1 <= u64::MAX,
        ensures
            r.0 == spec_ceil_multiple(self.0 as int, interval.0 as int),
    {
        Interval(ceil_multiple(self.0, interval.0))
    }
}

impl Default for Interval {
    fn default() -> (r: Self)
        ensures
            r.0 == 0,
    {
        Interval(0)
    }
}

// --- Decimal digit strings ---

/// The character for one decimal digit.
pub open spec fn digit_char(d: int) -> char {
    if d == 0 {
        '0'
    } else if d == 1 {
        '1'
    } else if d == 2 {
        '2'
    } else if d == 3 {
        '3'
    } else if d == 4 {
        '4'
    } else if d == 5 {
        '5'
    } else if d == 6 {
        '6'
    } else if d == 7 {
        '7'
    } else if d == 8 {
        '8'
    } else {
        '9'
    }
}

/// The decimal representation of a non-negative integer, most significant
/// digit first, without leading zeros (except for zero itself).
pub open spec fn spec_dec(n: int) -> Seq<char>
    decreases n,
{
    if n < 10 {
        seq![digit_char(n)]
    } else {
        spec_dec(n / 10).push(digit_char(n % 10))
    }
}

fn digit_str(d: u64) -> (r: &'static str)
    requires
        d < 10,
    ensures
        r@ == seq![digit_char(d as int)],
{
    proof {
        reveal_strlit("0");
        reveal_strlit("1");
        reveal_strlit("2");
        reveal_strlit("3");
        reveal_strlit("4");
        reveal_strlit("5");
        reveal_strlit("6");
        reveal_strlit("7");
        reveal_strlit("8");
        reveal_strlit("9");
    }
    let r: &'static str = if d == 0 {
        "0"
    } else if d == 1 {
        "1"
    } else if d == 2 {
        "2"
    } else if d == 3 {
        "3"
    } else if d == 4 {
        "4"
    } else if d == 5 {
        "5"
    } else if d == 6 {
        "6"
    } else if d == 7 {
        "7"
    } else if d == 8 {
        "8"
    } else {
        "9"
    };
    proof {
        assert(r@ =~= seq![digit_char(d as int)]);
    }
    r
}

/// Decimal representation of `n`.
pub fn dec_repr(n: u64) -> (r: String)
    ensures
        r@ == spec_dec(n as int),
    decreases n,
{
    if n < 10 {
        String::from_str(digit_str(n))
    } else {
        let mut s = dec_repr(n / 10);
        s.append(digit_str(n % 10));
        proof {
            assert(spec_dec((n / 10) as int).push(digit_char((n % 10) as int)) =~= spec_dec(
                (n / 10) as int,
            ) + seq![digit_char((n % 10) as int)]);
        }
        s
    }
}

// --- Interval shorthand representation ---

/// How many interval units there are ("y", "M", "w", "d", "h", "m", "s", "ms").
pub open spec fn unit_count() -> int {
    8
}

/// The factor of the unit at `idx`, largest first.
pub open spec fn unit_factor(idx: int) -> int {
    if idx == 0 {
        YEAR_MS as int
    } else if idx == 1 {
        MONTH_MS as int
    } else if idx == 2 {
        WEEK_MS as int
    } else if idx == 3 {
        DAY_MS as int
    } else if idx == 4 {
        HOUR_MS as int
    } else if idx == 5 {
        MIN_MS as int
    } else if idx == 6 {
        SEC_MS as int
    } else {
        1
    }
}

/// The letters of the unit at `idx`.
pub open spec fn unit_chars(idx: int) -> Seq<char> {
    if idx == 0 {
        seq!['y']
    } else if idx == 1 {
        seq!['M']
    } else if idx == 2 {
        seq!['w']
    } else if idx == 3 {
        seq!['d']
    } else if idx == 4 {
        seq!['h']
    } else if idx == 5 {
        seq!['m']
    } else if idx == 6 {
        seq!['s']
    } else {
        seq!['m', 's']
    }
}

fn exec_unit_factor(idx: usize) -> (f: u64)
    requires
        idx < 8,
    ensures
        f == unit_factor(idx as int),
        f > 0,
{
    if idx == 0 {
        YEAR_MS
    } else if idx == 1 {
        MONTH_MS
    } else if idx == 2 {
        WEEK_MS
    } else if idx == 3 {
        DAY_MS
    } else if idx == 4 {
        HOUR_MS
    } else if idx == 5 {
        MIN_MS
    } else if idx == 6 {
        SEC_MS
    } else {
        1
    }
}

fn append_unit(s: &mut String, idx: usize)
    requires
        idx < 8,
    ensures
        final(s)@ == old(s)@ + unit_chars(idx as int),
{
    proof {
        reveal_strlit("y");
        reveal_strlit("M");
        reveal_strlit("w");
        reveal_strlit("d");
        reveal_strlit("h");
        reveal_strlit("m");
        reveal_strlit("s");
        reveal_strlit("ms");
    }
    let unit: &'static str = if idx == 0 {
        "y"
    } else if idx == 1 {
        "M"
    } else if idx == 2 {
        "w"
    } else if idx == 3 {
        "d"
    } else if idx == 4 {
        "h"
    } else if idx == 5 {
        "m"
    } else if idx == 6 {
        "s"
    } else {
        "ms"
    };
    proof {
        assert(unit@ =~= unit_chars(idx as int));
    }
    s.append(unit);
}

/// One formatted group: the decimal count followed by the unit letters, or
/// nothing when the count is zero.
pub open spec fn spec_group_repr(q: int, idx: int) -> Seq<char> {
    if q > 0 {
        spec_dec(q) + unit_chars(idx)
    } else {
        Seq::<char>::empty()
    }
}

/// Representation of `rem` using the units from `idx` on: greedy division by
/// each unit factor, stopping once the remainder hits zero.
pub open spec fn spec_repr_from(rem: int, idx: int) -> Seq<char>
    decreases unit_count() - idx,
{
    if idx < 0 || idx >= unit_count() {
        Seq::<char>::empty()
    } else {
        let f = unit_factor(idx);
        let q = rem / f;
        let r2 = rem % f;
        spec_group_repr(q, idx) + if r2 == 0 {
            Seq::<char>::empty()
        } else {
            spec_repr_from(r2, idx + 1)
        }
    }
}

/// Shorthand representation of an interval of `v` milliseconds.
pub open spec fn spec_interval_repr(v: int) -> Seq<char> {
    if v == 0 {
        seq!['0', 'm', 's']
    } else {
        spec_repr_from(v, 0)
    }
}

/// Format `v` milliseconds as interval shorthand, e.g. "1d2h".
pub fn interval_repr(v: u64) -> (r: String)
    ensures
        r@ == spec_interval_repr(v as int),
{
    if v == 0 {
        proof {
            reveal_strlit("0ms");
            assert("0ms"@ =~= seq!['0', 'm', 's']);
        }
        return String::from_str("0ms");
    }
    let mut result = String::new();
    let mut remainder = v;
    let mut i: usize = 0;
    loop
        invariant_except_break
            1 <= remainder,
            i <= 7,
            result@ + spec_repr_from(remainder as int, i as int) == spec_interval_repr(v as int),
        ensures
            result@ == spec_interval_repr(v as int),
        decreases 8 - i,
    {
        let ghost prev_result = result@;
        let ghost prev_rem = remainder as int;
        let f = exec_unit_factor(i);
        let q = remainder / f;
        let r2 = remainder % f;
        proof {
            vstd::arithmetic::div_mod::lemma_mod_bound(prev_rem, f as int);
        }
        if q > 0 {
            let group = dec_repr(q);
            result.append(group.as_str());
            append_unit(&mut result, i);
        }
        proof {
            assert(result@ =~= prev_result + spec_group_repr(q as int, i as int));
            assert(spec_repr_from(prev_rem, i as int) == spec_group_repr(q as int, i as int)
                + if r2 == 0 {
                Seq::<char>::empty()
            } else {
                spec_repr_from(r2 as int, i as int + 1)
            });
            if r2 == 0 {
                assert(result@ =~= prev_result + spec_repr_from(prev_rem, i as int));
            } else {
                assert(result@ + spec_repr_from(r2 as int, i as int + 1) =~= prev_result
                    + spec_repr_from(prev_rem, i as int));
            }
        }
        remainder = r2;
        if remainder == 0 {
            break;
        }
        i = i + 1;
    }
    result
}

impl Interval {
    /// Shorthand representation, e.g. "1d2h".
    pub fn repr(&self) -> (r: String)
        ensures
            r@ == spec_interval_repr(self.0 as int),
    {
        interval_repr(self.0)
    }
}

// --- Interval shorthand parsing ---

pub open spec fn is_digit_char(c: char) -> bool {
    48 <= c as int <= 57
}

pub open spec fn is_alpha_char(c: char) -> bool {
    (65 <= c as int <= 90) || (97 <= c as int <= 122)
}

/// Numeric value of a digit character.
pub open spec fn char_val(c: char) -> int {
    c as int - 48
}

/// Index of the first non-digit character at or after `i`.
pub open spec fn digit_run_end(s: Seq<char>, i: int) -> int
    decreases s.len() - i,
    when 0 <= i <= s.len()
{
    if i >= s.len() || !is_digit_char(s[i]) {
        i
    } else {
        digit_run_end(s, i + 1)
    }
}

/// Index of the first non-letter character at or after `i`.
pub open spec fn alpha_run_end(s: Seq<char>, i: int) -> int
    decreases s.len() - i,
    when 0 <= i <= s.len()
{
    if i >= s.len() || !is_alpha_char(s[i]) {
        i
    } else {
        alpha_run_end(s, i + 1)
    }
}

/// Index of the first letter at or after `i`, or the length if none.
pub open spec fn first_alpha_index(s: Seq<char>, i: int) -> int
    decreases s.len() - i,
    when 0 <= i <= s.len()
{
    if i >= s.len() || is_alpha_char(s[i]) {
        i
    } else {
        first_alpha_index(s, i + 1)
    }
}

pub proof fn lemma_digit_run_end_bounds(s: Seq<char>, i: int)
    requires
        0 <= i <= s.len(),
    ensures
        i <= digit_run_end(s, i) <= s.len(),
    decreases s.len() - i,
{
    if i < s.len() && is_digit_char(s[i]) {
        lemma_digit_run_end_bounds(s, i + 1);
    }
}

pub proof fn lemma_alpha_run_end_bounds(s: Seq<char>, i: int)
    requires
        0 <= i <= s.len(),
    ensures
        i <= alpha_run_end(s, i) <= s.len(),
    decreases s.len() - i,
{
    if i < s.len() && is_alpha_char(s[i]) {
        lemma_alpha_run_end_bounds(s, i + 1);
    }
}

/// All characters of a digit run are digits.
pub proof fn lemma_digit_run_chars(s: Seq<char>, i: int)
    requires
        0 <= i <= s.len(),
    ensures
        forall|t: int| i <= t < digit_run_end(s, i) ==> is_digit_char(s[t]),
    decreases s.len() - i,
{
    if i < s.len() && is_digit_char(s[i]) {
        lemma_digit_run_chars(s, i + 1);
        lemma_digit_run_end_bounds(s, i + 1);
    }
}

/// The milliseconds of one unit shorthand, e.g. "d" or "ms".
pub open spec fn spec_unit_value(u: Seq<char>) -> Option<int> {
    if u.len() == 1 {
        if u[0] == 'y' {
            Some(YEAR_MS as int)
        } else if u[0] == 'M' {
            Some(MONTH_MS as int)
        } else if u[0] == 'w' {
            Some(WEEK_MS as int)
        } else if u[0] == 'd' {
            Some(DAY_MS as int)
        } else if u[0] == 'h' {
            Some(HOUR_MS as int)
        } else if u[0] == 'm' {
            Some(MIN_MS as int)
        } else if u[0] == 's' {
            Some(SEC_MS as int)
        } else {
            None
        }
    } else if u.len() == 2 && u[0] == 'm' && u[1] == 's' {
        Some(1)
    } else {
        None
    }
}

/// Value of the decimal digits `s[i..j)`, most significant first.
pub open spec fn spec_num(s: Seq<char>, i: int, j: int) -> int
    decreases j - i,
{
    if i >= j {
        0
    } else {
        spec_num(s, i, j - 1) * 10 + char_val(s[j - 1])
    }
}

pub proof fn lemma_spec_num_nonneg(s: Seq<char>, i: int, j: int)
    requires
        0 <= i,
        j <= s.len(),
        forall|t: int| i <= t < j ==> is_digit_char(s[t]),
    ensures
        spec_num(s, i, j) >= 0,
    decreases j - i,
{
    if i < j {
        lemma_spec_num_nonneg(s, i, j - 1);
    }
}

/// A prefix of a digit run is worth no more than the whole run.
pub proof fn lemma_spec_num_mono(s: Seq<char>, i: int, j: int, j2: int)
    requires
        0 <= i <= j <= j2 <= s.len(),
        forall|t: int| i <= t < j2 ==> is_digit_char(s[t]),
    ensures
        spec_num(s, i, j) <= spec_num(s, i, j2),
    decreases j2 - j,
{
    if j < j2 {
        lemma_spec_num_mono(s, i, j, j2 - 1);
        lemma_spec_num_nonneg(s, i, j2 - 1);
    }
}

/// Sum of all `<digits><letters>` groups in `s` from `i` on: each group is
/// its number times its unit value; anything else is skipped; an unknown
/// unit makes the whole parse fail.
pub open spec fn spec_parse_interval_from(s: Seq<char>, i: int) -> Option<int>
    decreases s.len() - i,
    when 0 <= i <= s.len()
    via spec_parse_interval_from_decreases
{
    if i >= s.len() {
        Some(0)
    } else if !is_digit_char(s[i]) {
        spec_parse_interval_from(s, i + 1)
    } else {
        let j = digit_run_end(s, i);
        if j < s.len() && is_alpha_char(s[j]) {
            let k = alpha_run_end(s, j);
            match spec_unit_value(s.subrange(j, k)) {
                Some(f) => match spec_parse_interval_from(s, k) {
                    Some(rest) => Some(spec_num(s, i, j) * f + rest),
                    None => None,
                },
                None => None,
            }
        } else {
            spec_parse_interval_from(s, j)
        }
    }
}

#[via_fn]
proof fn spec_parse_interval_from_decreases(s: Seq<char>, i: int) {
    if 0 <= i < s.len() && is_digit_char(s[i]) {
        lemma_digit_run_end_bounds(s, i + 1);
        let j = digit_run_end(s, i);
        if j < s.len() && is_alpha_char(s[j]) {
            lemma_alpha_run_end_bounds(s, j + 1);
        }
    }
}

/// The value of the whole shorthand string.
pub open spec fn spec_parse_interval(s: Seq<char>) -> Option<int> {
    spec_parse_interval_from(s, 0)
}

/// A successful parse is never negative.
pub proof fn lemma_spec_parse_nonneg(s: Seq<char>, i: int)
    requires
        0 <= i <= s.len(),
    ensures
        spec_parse_interval_from(s, i) matches Some(t) ==> t >= 0,
    decreases s.len() - i,
{
    if i >= s.len() {
    } else if !is_digit_char(s[i]) {
        lemma_spec_parse_nonneg(s, i + 1);
    } else {
        let j = digit_run_end(s, i);
        lemma_digit_run_end_bounds(s, i + 1);
        lemma_digit_run_chars(s, i);
        if j < s.len() && is_alpha_char(s[j]) {
            let k = alpha_run_end(s, j);
            lemma_alpha_run_end_bounds(s, j + 1);
            lemma_spec_parse_nonneg(s, k);
            lemma_spec_num_nonneg(s, i, j);
            match spec_unit_value(s.subrange(j, k)) {
                Some(f) => vstd::arithmetic::mul::lemma_mul_nonnegative(spec_num(s, i, j), f),
                None => (),
            }
        } else {
            lemma_spec_parse_nonneg(s, j);
        }
    }
}

fn exec_is_digit(c: char) -> (r: bool)
    ensures
        r == is_digit_char(c),
{
    let u = c as u32;
    48 <= u && u <= 57
}

fn exec_is_alpha(c: char) -> (r: bool)
    ensures
        r == is_alpha_char(c),
{
    let u = c as u32;
    (65 <= u && u <= 90) || (97 <= u && u <= 122)
}

fn exec_digit_run_end(s: &str, start: usize, len: usize) -> (r: usize)
    requires
        len == s@.len(),
        start <= len,
    ensures
        r == digit_run_end(s@, start as int),
        start <= r <= len,
{
    let mut i = start;
    loop
        invariant_except_break
            start <= i <= len,
            len == s@.len(),
            digit_run_end(s@, start as int) == digit_run_end(s@, i as int),
        ensures
            i == digit_run_end(s@, start as int) && start <= i <= len,
        decreases len - i,
    {
        if i >= len {
            break;
        }
        let c = s.get_char(i);
        if !exec_is_digit(c) {
            break;
        }
        i = i + 1;
    }
    i
}

fn exec_alpha_run_end(s: &str, start: usize, len: usize) -> (r: usize)
    requires
        len == s@.len(),
        start <= len,
    ensures
        r == alpha_run_end(s@, start as int),
        start <= r <= len,
{
    let mut i = start;
    loop
        invariant_except_break
            start <= i <= len,
            len == s@.len(),
            alpha_run_end(s@, start as int) == alpha_run_end(s@, i as int),
        ensures
            i == alpha_run_end(s@, start as int) && start <= i <= len,
        decreases len - i,
    {
        if i >= len {
            break;
        }
        let c = s.get_char(i);
        if !exec_is_alpha(c) {
            break;
        }
        i = i + 1;
    }
    i
}

fn exec_first_alpha(s: &str, start: usize, len: usize) -> (r: usize)
    requires
        len == s@.len(),
        start <= len,
    ensures
        r == first_alpha_index(s@, start as int),
        start <= r <= len,
{
    let mut i = start;
    loop
        invariant_except_break
            start <= i <= len,
            len == s@.len(),
            first_alpha_index(s@, start as int) == first_alpha_index(s@, i as int),
        ensures
            i == first_alpha_index(s@, start as int) && start <= i <= len,
        decreases len - i,
    {
        if i >= len {
            break;
        }
        let c = s.get_char(i);
        if exec_is_alpha(c) {
            break;
        }
        i = i + 1;
    }
    i
}

/// Parse the digits `s[start..end)` as a number; `None` when the value
/// does not fit in a `u64`.
fn exec_parse_num(s: &str, start: usize, end: usize) -> (r: Option<u64>)
    requires
        start <= end <= s@.len(),
        forall|t: int| start <= t < end ==> is_digit_char(s@[t]),
    ensures
        match r {
            Some(n) => n == spec_num(s@, start as int, end as int),
            None => spec_num(s@, start as int, end as int) > u64::MAX,
        },
{
    let mut acc: u64 = 0;
    let mut j = start;
    loop
        invariant_except_break
            start <= j <= end <= s@.len(),
            forall|t: int| start <= t < end ==> is_digit_char(s@[t]),
            acc == spec_num(s@, start as int, j as int),
        ensures
            acc == spec_num(s@, start as int, end as int),
        decreases end - j,
    {
        if j >= end {
            break;
        }
        let c = s.get_char(j);
        let d = (c as u32) as u64 - 48;
        if acc > (u64::MAX - d) / 10 {
            proof {
                vstd::arithmetic::div_mod::lemma_fundamental_div_mod(
                    (u64::MAX - d) as int,
                    10int,
                );
                vstd::arithmetic::div_mod::lemma_mod_bound((u64::MAX - d) as int, 10int);
                assert(acc * 10 + d > u64::MAX);
                lemma_spec_num_mono(s@, start as int, j as int + 1, end as int);
            }
            return None;
        }
        proof {
            vstd::arithmetic::div_mod::lemma_fundamental_div_mod((u64::MAX - d) as int, 10int);
            vstd::arithmetic::div_mod::lemma_mod_bound((u64::MAX - d) as int, 10int);
            assert(acc * 10 <= u64::MAX - d);
        }
        acc = acc * 10 + d;
        j = j + 1;
    }
    Some(acc)
}

/// The unit value of `s[j..k)`, as `spec_unit_value` gives it.
fn exec_unit_value(s: &str, j: usize, k: usize) -> (r: Option<u64>)
    requires
        j <= k <= s@.len(),
    ensures
        match r {
            Some(f) => spec_unit_value(s@.subrange(j as int, k as int)) == Some(f as int) && f
                >= 1,
            None => spec_unit_value(s@.subrange(j as int, k as int)) is None,
        },
{
    let ghost u = s@.subrange(j as int, k as int);
    if k - j == 1 {
        let c = s.get_char(j);
        proof {
            assert(u[0] == s@[j as int]);
        }
        if c == 'y' {
            Some(YEAR_MS)
        } else if c == 'M' {
            Some(MONTH_MS)
        } else if c == 'w' {
            Some(WEEK_MS)
        } else if c == 'd' {
            Some(DAY_MS)
        } else if c == 'h' {
            Some(HOUR_MS)
        } else if c == 'm' {
            Some(MIN_MS)
        } else if c == 's' {
            Some(SEC_MS)
        } else {
            None
        }
    } else if k - j == 2 {
        let c0 = s.get_char(j);
        let c1 = s.get_char(j + 1);
        proof {
            assert(u[0] == s@[j as int]);
            assert(u[1] == s@[j as int + 1]);
        }
        if c0 == 'm' && c1 == 's' {
            Some(1)
        } else {
            None
        }
    } else {
        None
    }
}

/// Parse interval shorthand such as "1d2h3m" into milliseconds. Digit
/// groups immediately followed by letters contribute number times unit;
/// everything else is skipped. Fails on an unknown unit or a value beyond
/// `u64::MAX`.
pub fn str_to_interval(s: &str) -> (r: Result<u64, ParseError>)
    ensures
        match spec_parse_interval(s@) {
            Some(total) => if total <= u64::MAX {
                r == Ok::<u64, ParseError>(total as u64)
            } else {
                r == Err::<u64, ParseError>(ParseError)
            },
            None => r == Err::<u64, ParseError>(ParseError),
        },
{
    let len = s.unicode_len();
    let mut acc: u64 = 0;
    let mut i: usize = 0;
    loop
        invariant_except_break
            i <= len,
            len == s@.len(),
            match spec_parse_interval_from(s@, i as int) {
                Some(rest) => spec_parse_interval(s@) == Some(acc + rest),
                None => spec_parse_interval(s@) is None,
            },
        ensures
            match spec_parse_interval(s@) {
                Some(total) => if total <= u64::MAX {
                    acc == total
                } else {
                    false
                },
                None => false,
            },
        decreases len - i,
    {
        proof {
            lemma_spec_parse_nonneg(s@, i as int);
        }
        if i >= len {
            break;
        }
        let c = s.get_char(i);
        if !exec_is_digit(c) {
            i = i + 1;
            continue;
        }
        let j = exec_digit_run_end(s, i, len);
        proof {
            lemma_digit_run_chars(s@, i as int);
            lemma_digit_run_end_bounds(s@, i as int + 1);
        }
        if j >= len || !exec_is_alpha(s.get_char(j)) {
            i = j;
            continue;
        }
        let k = exec_alpha_run_end(s, j, len);
        let ghost rest_opt = spec_parse_interval_from(s@, k as int);
        proof {
            lemma_spec_parse_nonneg(s@, k as int);
            lemma_spec_num_nonneg(s@, i as int, j as int);
        }
        let f = match exec_unit_value(s, j, k) {
            Some(f) => f,
            None => {
                return Err(ParseError);
            },
        };
        let n = match exec_parse_num(s, i, j) {
            Some(n) => n,
            None => {
                // The group's number alone exceeds `u64::MAX`, so the total does.
                proof {
                    if rest_opt matches Some(rest) {
                        vstd::arithmetic::mul::lemma_mul_inequality(
                            1,
                            f as int,
                            spec_num(s@, i as int, j as int),
                        );
                        vstd::arithmetic::mul::lemma_mul_is_commutative(
                            f as int,
                            spec_num(s@, i as int, j as int),
                        );
                    }
                }
                return Err(ParseError);
            },
        };
        // group value: n * f, checked
        if f > 0 && n > u64::MAX / f {
            proof {
                vstd::arithmetic::div_mod::lemma_fundamental_div_mod(u64::MAX as int, f as int);
                vstd::arithmetic::div_mod::lemma_mod_bound(u64::MAX as int, f as int);
                vstd::arithmetic::mul::lemma_mul_inequality(
                    u64::MAX as int / f as int + 1,
                    n as int,
                    f as int,
                );
                vstd::arithmetic::mul::lemma_mul_is_distributive_add_other_way(
                    f as int,
                    u64::MAX as int / f as int,
                    1,
                );
                vstd::arithmetic::mul::lemma_mul_is_commutative(
                    u64::MAX as int / f as int,
                    f as int,
                );
            }
            return Err(ParseError);
        }
        proof {
            vstd::arithmetic::div_mod::lemma_fundamental_div_mod(u64::MAX as int, f as int);
            vstd::arithmetic::div_mod::lemma_mod_bound(u64::MAX as int, f as int);
            vstd::arithmetic::mul::lemma_mul_inequality(
                n as int,
                u64::MAX as int / f as int,
                f as int,
            );
            vstd::arithmetic::mul::lemma_mul_is_commutative(
                u64::MAX as int / f as int,
                f as int,
            );
        }
        let g = n * f;
        if acc > u64::MAX - g {
            return Err(ParseError);
        }
        acc = acc + g;
        i = k;
    }
    Ok(acc)
}

impl Interval {
    /// Parse interval shorthand such as "1d2h3m".
    pub fn parse(s: &str) -> (r: Result<Interval, ParseError>)
        ensures
            match spec_parse_interval(s@) {
                Some(total) => if total <= u64::MAX {
                    r == Ok::<Interval, ParseError>(Interval(total as u64))
                } else {
                    r == Err::<Interval, ParseError>(ParseError)
                },
                None => r == Err::<Interval, ParseError>(ParseError),
            },
    {
        match str_to_interval(s) {
            Ok(v) => Ok(Interval(v)),
            Err(e) => Err(e),
        }
    }
}

impl core::str::FromStr for Interval {
    type Err = ParseError;

    fn from_str(s: &str) -> Result<Interval, ParseError> {
        Interval::parse(s)
    }
}

/// Appending a character does not change the value of digits before it.
proof fn lemma_spec_num_append(s: Seq<char>, c: char, i: int, j: int)
    requires
        0 <= i,
        j <= s.len(),
    ensures
        spec_num(s.push(c), i, j) == spec_num(s, i, j),
    decreases j - i,
{
    if i < j {
        lemma_spec_num_append(s, c, i, j - 1);
    }
}

/// The decimal representation of a number consists of digits and parses
/// back to that number: the numeric half of the representation/parse round
/// trip (the unit suffix rides along unchanged).
pub proof fn lemma_dec_round_trip(n: int)
    requires
        n >= 0,
    ensures
        spec_dec(n).len() >= 1,
        forall|k: int| 0 <= k < spec_dec(n).len() ==> is_digit_char(#[trigger] spec_dec(n)[k]),
        spec_num(spec_dec(n), 0, spec_dec(n).len() as int) == n,
    decreases n,
{
    if n < 10 {
        assert(spec_num(spec_dec(n), 0, 1) == spec_num(spec_dec(n), 0, 0) * 10 + char_val(
            spec_dec(n)[0],
        ));
    } else {
        lemma_dec_round_trip(n / 10);
        let prefix = spec_dec(n / 10);
        let len = prefix.len() as int;
        lemma_spec_num_append(prefix, digit_char(n % 10), 0, len);
        vstd::arithmetic::div_mod::lemma_fundamental_div_mod(n, 10);
        assert(spec_num(spec_dec(n), 0, len + 1) == spec_num(spec_dec(n), 0, len) * 10
            + char_val(spec_dec(n)[len]));
    }
}

/// A digit run ends exactly where the digits stop.
proof fn lemma_digit_run_end_at(s: Seq<char>, i: int, j: int)
    requires
        0 <= i <= j <= s.len(),
        forall|t: int| i <= t < j ==> is_digit_char(s[t]),
        j == s.len() || !is_digit_char(s[j]),
    ensures
        digit_run_end(s, i) == j,
    decreases j - i,
{
    if i < j {
        lemma_digit_run_end_at(s, i + 1, j);
    }
}

/// A letter run ends exactly where the letters stop.
proof fn lemma_alpha_run_end_at(s: Seq<char>, i: int, j: int)
    requires
        0 <= i <= j <= s.len(),
        forall|t: int| i <= t < j ==> is_alpha_char(s[t]),
        j == s.len() || !is_alpha_char(s[j]),
    ensures
        alpha_run_end(s, i) == j,
    decreases j - i,
{
    if i < j {
        lemma_alpha_run_end_at(s, i + 1, j);
    }
}

/// The value of a digit range depends only on the characters in it.
proof fn lemma_spec_num_agree(s: Seq<char>, t: Seq<char>, i: int, j: int)
    requires
        0 <= i,
        j <= s.len(),
        j <= t.len(),
        forall|u: int| i <= u < j ==> s[u] == #[trigger] t[u],
    ensures
        spec_num(s, i, j) == spec_num(t, i, j),
    decreases j - i,
{
    if i < j {
        lemma_spec_num_agree(s, t, i, j - 1);
    }
}

/// A digit range is worth the same read in place or as its own sequence.
proof fn lemma_spec_num_subrange(s: Seq<char>, i: int, j: int)
    requires
        0 <= i <= j <= s.len(),
    ensures
        spec_num(s, i, j) == spec_num(s.subrange(i, j), 0, j - i),
    decreases j - i,
{
    if i < j {
        lemma_spec_num_subrange(s, i, j - 1);
        assert forall|u: int| 0 <= u < j - 1 - i implies s.subrange(i, j)[u] == #[trigger] s
            .subrange(i, j - 1)[u] by {}
        lemma_spec_num_agree(s.subrange(i, j), s.subrange(i, j - 1), 0, j - 1 - i);
    }
}

/// Each unit's letters are letters, and they name that unit's factor.
proof fn lemma_unit_chars(idx: int)
    requires
        0 <= idx < 8,
    ensures
        1 <= unit_chars(idx).len() <= 2,
        forall|t: int| 0 <= t < unit_chars(idx).len() ==> is_alpha_char(
            #[trigger] unit_chars(idx)[t],
        ),
        spec_unit_value(unit_chars(idx)) == Some(unit_factor(idx)),
{
}

/// The representation of a positive remainder starts with a digit.
proof fn lemma_repr_from_starts_with_digit(rem: int, idx: int)
    requires
        1 <= rem,
        0 <= idx < 8,
    ensures
        spec_repr_from(rem, idx).len() >= 1,
        is_digit_char(spec_repr_from(rem, idx)[0]),
    decreases 8 - idx,
{
    let f = unit_factor(idx);
    let q = rem / f;
    let r2 = rem % f;
    vstd::arithmetic::div_mod::lemma_fundamental_div_mod(rem, f);
    vstd::arithmetic::div_mod::lemma_mod_bound(rem, f);
    if q > 0 {
        lemma_dec_round_trip(q);
    } else {
        vstd::arithmetic::mul::lemma_mul_basics(f);
        lemma_repr_from_starts_with_digit(rem, idx + 1);
        assert(Seq::<char>::empty() + spec_repr_from(rem, idx + 1) =~= spec_repr_from(
            rem,
            idx + 1,
        ));
    }
}

/// Parsing from `o` of a string whose tail is the representation of `rem`
/// using the units from `idx` on yields `rem`.
proof fn lemma_parse_repr_from(s: Seq<char>, o: int, rem: int, idx: int)
    requires
        0 <= o <= s.len(),
        1 <= rem,
        0 <= idx < 8,
        s.subrange(o, s.len() as int) == spec_repr_from(rem, idx),
    ensures
        spec_parse_interval_from(s, o) == Some(rem),
    decreases 8 - idx,
{
    let f = unit_factor(idx);
    let q = rem / f;
    let r2 = rem % f;
    vstd::arithmetic::div_mod::lemma_fundamental_div_mod(rem, f);
    vstd::arithmetic::div_mod::lemma_mod_bound(rem, f);
    vstd::arithmetic::mul::lemma_mul_is_commutative(q, f);
    if q == 0 {
        // The remainder is below this unit: its group is empty and the tail
        // is the next unit's representation.
        vstd::arithmetic::mul::lemma_mul_basics(f);
        assert(Seq::<char>::empty() + spec_repr_from(rem, idx + 1) =~= spec_repr_from(
            rem,
            idx + 1,
        ));
        assert(s.subrange(o, s.len() as int) == spec_repr_from(rem, idx + 1));
        lemma_parse_repr_from(s, o, rem, idx + 1);
    } else {
        lemma_dec_round_trip(q);
        lemma_unit_chars(idx);
        let d = spec_dec(q);
        let u = unit_chars(idx);
        let ghost rest: Seq<char> = if r2 == 0 {
            Seq::<char>::empty()
        } else {
            spec_repr_from(r2, idx + 1)
        };
        assert(s.subrange(o, s.len() as int) == (d + u) + rest);
        let j = o + d.len() as int;
        let k = j + u.len() as int;
        assert forall|t: int| o <= t < j implies is_digit_char(s[t]) && s[t] == d[t - o] by {
            assert(s[t] == s.subrange(o, s.len() as int)[t - o]);
            assert(((d + u) + rest)[t - o] == d[t - o]);
        }
        assert(s[j] == ((d + u) + rest)[j - o]);
        assert(s[j] == u[0]);
        lemma_digit_run_end_at(s, o, j);
        assert forall|t: int| j <= t < k implies is_alpha_char(s[t]) && s[t] == u[t - j] by {
            assert(s[t] == s.subrange(o, s.len() as int)[t - o]);
            assert(((d + u) + rest)[t - o] == u[t - j]);
        }
        assert forall|t: int| k <= t < s.len() implies s[t] == rest[t - k] by {
            assert(s[t] == s.subrange(o, s.len() as int)[t - o]);
            assert(((d + u) + rest)[t - o] == rest[t - k]);
        }
        if r2 != 0 {
            lemma_repr_from_starts_with_digit(r2, idx + 1);
            assert(s[k] == rest[0]);
        }
        lemma_alpha_run_end_at(s, j, k);
        assert(s.subrange(j, k) =~= u);
        lemma_spec_num_subrange(s, o, j);
        assert(s.subrange(o, j) =~= d);
        assert(spec_num(s, o, j) == q);
        if r2 == 0 {
            assert(k == s.len());
            assert(spec_parse_interval_from(s, k) == Some(0int));
        } else {
            assert(s.subrange(k, s.len() as int) =~= spec_repr_from(r2, idx + 1));
            lemma_parse_repr_from(s, k, r2, idx + 1);
        }
        assert(spec_parse_interval_from(s, o) == Some(q * f + r2));
    }
}

/// Round trip of the interval shorthand: formatting a value and parsing the
/// result yields the value back, for every value.
pub proof fn lemma_interval_repr_round_trip(v: int)
    requires
        0 <= v,
    ensures
        spec_parse_interval(spec_interval_repr(v)) == Some(v),
{
    if v == 0 {
        let s: Seq<char> = seq!['0', 'm', 's'];
        assert(is_digit_char(s[0]) && !is_digit_char(s[1]));
        lemma_digit_run_end_at(s, 0, 1);
        assert(is_alpha_char(s[1]) && is_alpha_char(s[2]));
        lemma_alpha_run_end_at(s, 1, 3);
        assert(s.subrange(1, 3) =~= seq!['m', 's']);
        assert(spec_unit_value(s.subrange(1, 3)) == Some(1int));
        assert(spec_num(s, 0, 0) == 0);
        assert(spec_num(s, 0, 1) == 0);
        assert(spec_parse_interval_from(s, 3) == Some(0int));
        assert(spec_parse_interval_from(s, 0) == Some(0int));
    } else {
        let s = spec_interval_repr(v);
        assert(s.subrange(0, s.len() as int) =~= s);
        lemma_parse_repr_from(s, 0, v, 0);
    }
}

/// Parse one shorthand group: decimal digits up to the first letter, then a
/// unit name running to the end, e.g. "12d". Fails when there is no letter,
/// no digit, a stray character among the digits, an unknown unit, or a value
/// beyond `u64::MAX`.
pub open spec fn spec_calc_group(g: Seq<char>) -> Option<int> {
    let i = first_alpha_index(g, 0);
    if i == g.len() || i == 0 {
        None
    } else if exists|t: int| 0 <= t < i && !is_digit_char(g[t]) {
        None
    } else {
        match spec_unit_value(g.subrange(i, g.len() as int)) {
            Some(f) => Some(spec_num(g, 0, i) * f),
            None => None,
        }
    }
}

pub fn calc_interval_group(group: &str) -> (r: Result<u64, ParseError>)
    ensures
        match spec_calc_group(group@) {
            Some(v) => if v <= u64::MAX {
                r == Ok::<u64, ParseError>(v as u64)
            } else {
                r == Err::<u64, ParseError>(ParseError)
            },
            None => r == Err::<u64, ParseError>(ParseError),
        },
{
    let len = group.unicode_len();
    let i = exec_first_alpha(group, 0, len);
    if i == len || i == 0 {
        return Err(ParseError);
    }
    // check the prefix is all digits
    let mut t: usize = 0;
    loop
        invariant_except_break
            t <= i <= len,
            len == group@.len(),
            forall|u: int| 0 <= u < t ==> is_digit_char(group@[u]),
        ensures
            t <= i <= len && len == group@.len(),
            forall|u: int| 0 <= u < t ==> is_digit_char(group@[u]),
            t == i || !is_digit_char(group@[t as int]),
        decreases i - t,
    {
        if t >= i {
            break;
        }
        if !exec_is_digit(group.get_char(t)) {
            break;
        }
        t = t + 1;
    }
    if t < i {
        proof {
            assert(0 <= t < i && !is_digit_char(group@[t as int]));
        }
        return Err(ParseError);
    }
    let f = match exec_unit_value(group, i, len) {
        Some(f) => f,
        None => {
            return Err(ParseError);
        },
    };
    proof {
        lemma_spec_num_nonneg(group@, 0, i as int);
    }
    let n = match exec_parse_num(group, 0, i) {
        Some(n) => n,
        None => {
            proof {
                vstd::arithmetic::mul::lemma_mul_inequality(
                    1,
                    f as int,
                    spec_num(group@, 0, i as int),
                );
                vstd::arithmetic::mul::lemma_mul_is_commutative(
                    f as int,
                    spec_num(group@, 0, i as int),
                );
            }
            return Err(ParseError);
        },
    };
    if f > 0 && n > u64::MAX / f {
        proof {
            vstd::arithmetic::div_mod::lemma_fundamental_div_mod(u64::MAX as int, f as int);
            vstd::arithmetic::div_mod::lemma_mod_bound(u64::MAX as int, f as int);
            vstd::arithmetic::mul::lemma_mul_inequality(
                u64::MAX as int / f as int + 1,
                n as int,
                f as int,
            );
            vstd::arithmetic::mul::lemma_mul_is_distributive_add_other_way(
                f as int,
                u64::MAX as int / f as int,
                1,
            );
            vstd::arithmetic::mul::lemma_mul_is_commutative(u64::MAX as int / f as int, f as int);
        }
        return Err(ParseError);
    }
    proof {
        vstd::arithmetic::div_mod::lemma_fundamental_div_mod(u64::MAX as int, f as int);
        vstd::arithmetic::div_mod::lemma_mod_bound(u64::MAX as int, f as int);
        vstd::arithmetic::mul::lemma_mul_inequality(
            n as int,
            u64::MAX as int / f as int,
            f as int,
        );
        vstd::arithmetic::mul::lemma_mul_is_commutative(u64::MAX as int / f as int, f as int);
    }
    Ok(n * f)
}

} // verus!
