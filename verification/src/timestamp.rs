//! A canonical UTC timestamp held as plain calendar fields, with a verified
//! parser for the timezone-qualified strings the registry emits.
//!
//! Push times arrive as strings such as `2021-12-02T04:35:12.923959Z` or
//! `2021-12-02T09:34:39.358084913Z`: date and time of day, an optional
//! fraction of a second of any precision, and either `Z` or a `+HH:MM` /
//! `-HH:MM` offset. Parsing normalizes the offset away, so two timestamps
//! compare as instants by comparing their fields lexicographically.

use vstd::prelude::*;

verus! {

/// An instant in UTC, split into calendar fields.
///
/// Ordering two valid timestamps lexicographically by
/// (year, month, day, hour, minute, second, nanosecond) orders them by
/// instant, because every field is already normalized to UTC.
#[derive(Clone, Copy, Debug, PartialEq, Eq, Structural)]
pub struct Timestamp {
    pub year: u32,
    pub month: u8,
    pub day: u8,
    pub hour: u8,
    pub minute: u8,
    pub second: u8,
    /// Sub-second remainder in nanoseconds.
    pub nanos: u32,
}

/// A push-time string that does not fit the grammar, carries an impossible
/// calendar date, or leaves the supported year range once its offset is
/// applied.
#[derive(Clone, Copy, Debug, PartialEq, Eq, Structural)]
pub struct TimeParseError;

pub open spec fn is_leap_year(year: int) -> bool {
    year % 4 == 0 && (year % 100 != 0 || year % 400 == 0)
}

pub open spec fn spec_days_in_month(year: int, month: int) -> int {
    if month == 2 {
        if is_leap_year(year) {
            29
        } else {
            28
        }
    } else if month == 4 || month == 6 || month == 9 || month == 11 {
        30
    } else {
        31
    }
}

/// The number of days of a month, 1 being January.
pub fn days_in_month(year: u32, month: u8) -> (n: u8)
    requires
        1 <= month <= 12,
    ensures
        n == spec_days_in_month(year as int, month as int),
        28 <= n <= 31,
{
    if month == 2 {
        if year % 4 == 0 && (year % 100 != 0 || year % 400 == 0) {
            29
        } else {
            28
        }
    } else if month == 4 || month == 6 || month == 9 || month == 11 {
        30
    } else {
        31
    }
}

pub open spec fn is_digit(c: char) -> bool {
    '0' <= c && c <= '9'
}

pub open spec fn digit_val(c: char) -> int {
    c as u32 - '0' as u32
}

/// Value of the two digits at `i` and `i + 1`.
pub open spec fn two_val(s: Seq<char>, i: int) -> int {
    10 * digit_val(s[i]) + digit_val(s[i + 1])
}

/// Value of the four digits starting at `i`.
pub open spec fn four_val(s: Seq<char>, i: int) -> int {
    1000 * digit_val(s[i]) + 100 * digit_val(s[i + 1]) + 10 * digit_val(s[i + 2]) + digit_val(
        s[i + 3],
    )
}

/// The accepted separator between the date and the time of day.
pub open spec fn is_date_time_sep(c: char) -> bool {
    c == 'T' || c == 't' || c == ' '
}

/// The fixed `YYYY-MM-DD?HH:MM:SS` prefix of every accepted string.
pub open spec fn date_time_shape(s: Seq<char>) -> bool {
    &&& s.len() >= 19
    &&& is_digit(s[0]) && is_digit(s[1]) && is_digit(s[2]) && is_digit(s[3])
    &&& s[4] == '-'
    &&& is_digit(s[5]) && is_digit(s[6])
    &&& s[7] == '-'
    &&& is_digit(s[8]) && is_digit(s[9])
    &&& is_date_time_sep(s[10])
    &&& is_digit(s[11]) && is_digit(s[12])
    &&& s[13] == ':'
    &&& is_digit(s[14]) && is_digit(s[15])
    &&& s[16] == ':'
    &&& is_digit(s[17]) && is_digit(s[18])
}

/// First index at or after `i` that does not hold a digit.
pub open spec fn digit_run_end(s: Seq<char>, i: int) -> int
    recommends
        0 <= i <= s.len(),
    decreases s.len() - i when 0 <= i <= s.len()
{
    if i < s.len() && is_digit(s[i]) {
        digit_run_end(s, i + 1)
    } else {
        i
    }
}

pub proof fn lemma_digit_run_end(s: Seq<char>, i: int)
    requires
        0 <= i <= s.len(),
    ensures
        i <= digit_run_end(s, i) <= s.len(),
        forall|k: int| i <= k < digit_run_end(s, i) ==> is_digit(s[k]),
        digit_run_end(s, i) < s.len() ==> !is_digit(s[digit_run_end(s, i)]),
    decreases s.len() - i,
{
    if i < s.len() && is_digit(s[i]) {
        lemma_digit_run_end(s, i + 1);
    }
}

/// Whether the string has a fractional-second part (a `.` right after the
/// seconds).
pub open spec fn has_fraction(s: Seq<char>) -> bool {
    s.len() > 19 && s[19] == '.'
}

/// A fraction, when present, must hold at least one digit.
pub open spec fn fraction_ok(s: Seq<char>) -> bool {
    has_fraction(s) ==> digit_run_end(s, 20) > 20
}

/// The index where the offset part (`Z` or `+HH:MM` / `-HH:MM`) begins.
pub open spec fn offset_start(s: Seq<char>) -> int {
    if has_fraction(s) {
        digit_run_end(s, 20)
    } else {
        19
    }
}

/// The offset grammar, anchored at `offset_start` and reaching the end of
/// the string.
pub open spec fn offset_shape(s: Seq<char>) -> bool {
    let o = offset_start(s);
    if o >= s.len() {
        false
    } else if s[o] == 'Z' || s[o] == 'z' {
        o + 1 == s.len()
    } else if s[o] == '+' || s[o] == '-' {
        &&& o + 6 == s.len()
        &&& is_digit(s[o + 1]) && is_digit(s[o + 2])
        &&& s[o + 3] == ':'
        &&& is_digit(s[o + 4]) && is_digit(s[o + 5])
        &&& two_val(s, o + 1) <= 23
        &&& two_val(s, o + 4) <= 59
    } else {
        false
    }
}

/// The whole grammar: fixed prefix, optional fraction, mandatory offset.
pub open spec fn stamp_shape(s: Seq<char>) -> bool {
    date_time_shape(s) && fraction_ok(s) && offset_shape(s)
}

/// Minutes east of UTC named by the offset part.
pub open spec fn offset_minutes(s: Seq<char>) -> int {
    let o = offset_start(s);
    if s[o] == 'Z' || s[o] == 'z' {
        0
    } else if s[o] == '+' {
        two_val(s, o + 1) * 60 + two_val(s, o + 4)
    } else {
        -(two_val(s, o + 1) * 60 + two_val(s, o + 4))
    }
}

pub open spec fn pow10(k: nat) -> int
    decreases k,
{
    if k == 0 {
        1
    } else {
        10 * pow10((k - 1) as nat)
    }
}

/// Value of a digit string, most significant digit first.
pub open spec fn digits_val(t: Seq<char>) -> int
    decreases t.len(),
{
    if t.len() == 0 {
        0
    } else {
        digits_val(t.drop_last()) * 10 + digit_val(t.last())
    }
}

pub proof fn lemma_digits_val_bound(t: Seq<char>)
    requires
        forall|k: int| 0 <= k < t.len() ==> is_digit(t[k]),
    ensures
        0 <= digits_val(t) < pow10(t.len()),
    decreases t.len(),
{
    if t.len() > 0 {
        lemma_digits_val_bound(t.drop_last());
    }
}

/// Nanoseconds named by the fraction: the first nine fraction digits,
/// right-padded with zeros; further digits only refine precision the
/// timestamp cannot hold and are ignored.
pub open spec fn frac_nanos(s: Seq<char>) -> int {
    if has_fraction(s) {
        let fe = digit_run_end(s, 20);
        let used = if fe - 20 <= 9 {
            fe - 20
        } else {
            9
        };
        digits_val(s.subrange(20, 20 + used)) * pow10((9 - used) as nat)
    } else {
        0
    }
}

/// The day before (year, month, day), or `None` below the supported range.
pub open spec fn spec_prev_day(y: int, m: int, d: int) -> Option<(int, int, int)> {
    if d > 1 {
        Some((y, m, d - 1))
    } else if m > 1 {
        Some((y, m - 1, spec_days_in_month(y, m - 1)))
    } else if y > 0 {
        Some((y - 1, 12, 31))
    } else {
        None
    }
}

/// The day after (year, month, day), or `None` above the supported range.
pub open spec fn spec_next_day(y: int, m: int, d: int) -> Option<(int, int, int)> {
    if d < spec_days_in_month(y, m) {
        Some((y, m, d + 1))
    } else if m < 12 {
        Some((y, m + 1, 1))
    } else if y < 9999 {
        Some((y + 1, 1, 1))
    } else {
        None
    }
}

/// Shift a civil date and time of day west by `off` minutes (an offset of
/// `off` minutes east of UTC), yielding the UTC calendar fields. Whole
/// minutes never touch the seconds or the fraction.
pub open spec fn spec_apply_offset(y: int, m: int, d: int, h: int, mi: int, off: int) -> Option<
    (int, int, int, int, int),
> {
    let total = h * 60 + mi - off;
    if total < 0 {
        match spec_prev_day(y, m, d) {
            Some((y2, m2, d2)) => Some((y2, m2, d2, (total + 1440) / 60, (total + 1440) % 60)),
            None => None,
        }
    } else if total >= 1440 {
        match spec_next_day(y, m, d) {
            Some((y2, m2, d2)) => Some((y2, m2, d2, (total - 1440) / 60, (total - 1440) % 60)),
            None => None,
        }
    } else {
        Some((y, m, d, total / 60, total % 60))
    }
}

/// The calendar ranges the raw fields must lie in before the offset is
/// applied.
pub open spec fn raw_fields_ok(y: int, m: int, d: int, h: int, mi: int, se: int) -> bool {
    &&& 1 <= m <= 12
    &&& 1 <= d <= spec_days_in_month(y, m)
    &&& h <= 23
    &&& mi <= 59
    &&& se <= 59
}

/// What parsing a push-time string yields: `None` exactly when the string
/// is not a timestamp this library accepts.
pub open spec fn spec_parse_timestamp(s: Seq<char>) -> Option<Timestamp> {
    if !stamp_shape(s) {
        None
    } else {
        let y = four_val(s, 0);
        let m = two_val(s, 5);
        let d = two_val(s, 8);
        let h = two_val(s, 11);
        let mi = two_val(s, 14);
        let se = two_val(s, 17);
        if !raw_fields_ok(y, m, d, h, mi, se) {
            None
        } else {
            match spec_apply_offset(y, m, d, h, mi, offset_minutes(s)) {
                Some((y2, m2, d2, h2, mi2)) => Some(
                    Timestamp {
                        year: y2 as u32,
                        month: m2 as u8,
                        day: d2 as u8,
                        hour: h2 as u8,
                        minute: mi2 as u8,
                        second: se as u8,
                        nanos: frac_nanos(s) as u32,
                    },
                ),
                None => None,
            }
        }
    }
}

pub proof fn lemma_pow10_9()
    ensures
        pow10(9) == 1000000000,
{
    assert(pow10(0) == 1);
    assert(pow10(1) == 10);
    assert(pow10(2) == 100);
    assert(pow10(3) == 1000);
    assert(pow10(4) == 10000);
    assert(pow10(5) == 100000);
    assert(pow10(6) == 1000000);
    assert(pow10(7) == 10000000);
    assert(pow10(8) == 100000000);
    assert(pow10(9) == 1000000000);
}

pub proof fn lemma_pow10_pos(k: nat)
    ensures
        pow10(k) >= 1,
    decreases k,
{
    if k > 0 {
        lemma_pow10_pos((k - 1) as nat);
    }
}

pub proof fn lemma_pow10_add(a: nat, b: nat)
    ensures
        pow10(a + b) == pow10(a) * pow10(b),
    decreases a,
{
    if a > 0 {
        lemma_pow10_add((a - 1) as nat, b);
        assert(pow10(a + b) == 10 * pow10((a + b - 1) as nat));
        assert(pow10(a) * pow10(b) == (10 * pow10((a - 1) as nat)) * pow10(b))
            by (nonlinear_arith)
            requires
                pow10(a) == 10 * pow10((a - 1) as nat),
        ;
        assert((10 * pow10((a - 1) as nat)) * pow10(b) == 10 * (pow10((a - 1) as nat) * pow10(b)))
            by (nonlinear_arith);
    }
}

proof fn lemma_digit_run_end_is(s: Seq<char>, i: int, j: int)
    requires
        0 <= i <= j <= s.len(),
        forall|k: int| i <= k < j ==> is_digit(s[k]),
        j == s.len() || !is_digit(s[j]),
    ensures
        digit_run_end(s, i) == j,
    decreases j - i,
{
    if i < j {
        lemma_digit_run_end_is(s, i + 1, j);
    }
}

/// The numeric value of a digit character.
fn digit_value(c: char) -> (r: u8)
    requires
        is_digit(c),
    ensures
        r == digit_val(c),
        r < 10,
{
    (c as u32 - '0' as u32) as u8
}

/// Reads two digit characters starting at `i`; `None` when either is no
/// digit.
fn read_two(s: &str, i: usize) -> (r: Option<u8>)
    requires
        i + 2 <= s@.len(),
        s@.len() <= usize::MAX,
    ensures
        r is Some <==> is_digit(s@[i as int]) && is_digit(s@[i as int + 1]),
        r is Some ==> r->0 == two_val(s@, i as int),
{
    let c0 = s.get_char(i);
    let c1 = s.get_char(i + 1);
    if '0' <= c0 && c0 <= '9' && '0' <= c1 && c1 <= '9' {
        Some(10 * digit_value(c0) + digit_value(c1))
    } else {
        None
    }
}

/// Reads four digit characters starting at `i`; `None` when any is no
/// digit.
fn read_four(s: &str, i: usize) -> (r: Option<u16>)
    requires
        i + 4 <= s@.len(),
        s@.len() <= usize::MAX,
    ensures
        r is Some <==> is_digit(s@[i as int]) && is_digit(s@[i as int + 1]) && is_digit(
            s@[i as int + 2],
        ) && is_digit(s@[i as int + 3]),
        r is Some ==> r->0 == four_val(s@, i as int) && r->0 <= 9999,
{
    let c0 = s.get_char(i);
    let c1 = s.get_char(i + 1);
    let c2 = s.get_char(i + 2);
    let c3 = s.get_char(i + 3);
    if '0' <= c0 && c0 <= '9' && '0' <= c1 && c1 <= '9' && '0' <= c2 && c2 <= '9' && '0' <= c3
        && c3 <= '9' {
        Some(
            1000 * (digit_value(c0) as u16) + 100 * (digit_value(c1) as u16) + 10 * (digit_value(
                c2,
            ) as u16) + digit_value(c3) as u16,
        )
    } else {
        None
    }
}

/// Ten to the `k`, as a machine integer.
fn pow10_u32(k: usize) -> (r: u32)
    requires
        k <= 9,
    ensures
        r == pow10(k as nat),
{
    proof {
        assert(pow10(0) == 1);
        assert(pow10(1) == 10);
        assert(pow10(2) == 100);
        assert(pow10(3) == 1000);
        assert(pow10(4) == 10000);
        assert(pow10(5) == 100000);
        assert(pow10(6) == 1000000);
        assert(pow10(7) == 10000000);
        assert(pow10(8) == 100000000);
        assert(pow10(9) == 1000000000);
    }
    if k == 0 {
        1
    } else if k == 1 {
        10
    } else if k == 2 {
        100
    } else if k == 3 {
        1000
    } else if k == 4 {
        10000
    } else if k == 5 {
        100000
    } else if k == 6 {
        1000000
    } else if k == 7 {
        10000000
    } else if k == 8 {
        100000000
    } else {
        1000000000
    }
}

/// The day before, over machine integers.
fn prev_day(y: u32, m: u8, d: u8) -> (r: Option<(u32, u8, u8)>)
    requires
        y <= 9999,
        1 <= m <= 12,
        1 <= d <= spec_days_in_month(y as int, m as int),
    ensures
        match r {
            Some(t) => spec_prev_day(y as int, m as int, d as int) == Some(
                (t.0 as int, t.1 as int, t.2 as int),
            ) && t.0 <= 9999 && 1 <= t.1 <= 12 && 1 <= t.2
                <= spec_days_in_month(t.0 as int, t.1 as int),
            None => spec_prev_day(y as int, m as int, d as int) is None,
        },
{
    if d > 1 {
        Some((y, m, d - 1))
    } else if m > 1 {
        Some((y, m - 1, days_in_month(y, m - 1)))
    } else if y > 0 {
        Some((y - 1, 12, 31))
    } else {
        None
    }
}

/// The day after, over machine integers.
fn next_day(y: u32, m: u8, d: u8) -> (r: Option<(u32, u8, u8)>)
    requires
        y <= 9999,
        1 <= m <= 12,
        1 <= d <= spec_days_in_month(y as int, m as int),
    ensures
        match r {
            Some(t) => spec_next_day(y as int, m as int, d as int) == Some(
                (t.0 as int, t.1 as int, t.2 as int),
            ) && t.0 <= 9999 && 1 <= t.1 <= 12 && 1 <= t.2
                <= spec_days_in_month(t.0 as int, t.1 as int),
            None => spec_next_day(y as int, m as int, d as int) is None,
        },
{
    if d < days_in_month(y, m) {
        Some((y, m, d + 1))
    } else if m < 12 {
        Some((y, m + 1, 1))
    } else if y < 9999 {
        Some((y + 1, 1, 1))
    } else {
        None
    }
}

/// Shift civil fields west by `off` minutes, over machine integers.
fn apply_offset(y: u32, m: u8, d: u8, h: u8, mi: u8, off: i32) -> (r: Option<
    (u32, u8, u8, u8, u8),
>)
    requires
        y <= 9999,
        1 <= m <= 12,
        1 <= d <= spec_days_in_month(y as int, m as int),
        h <= 23,
        mi <= 59,
        -1439 <= off <= 1439,
    ensures
        match r {
            Some(t) => spec_apply_offset(y as int, m as int, d as int, h as int, mi as int, off as int)
                == Some((t.0 as int, t.1 as int, t.2 as int, t.3 as int, t.4 as int)) && t.0
                <= 9999 && 1 <= t.1 <= 12 && 1 <= t.2 <= spec_days_in_month(t.0 as int, t.1 as int)
                && t.3 <= 23 && t.4 <= 59,
            None => spec_apply_offset(y as int, m as int, d as int, h as int, mi as int, off as int)
                is None,
        },
{
    let total: i32 = h as i32 * 60 + mi as i32 - off;
    if total < 0 {
        match prev_day(y, m, d) {
            Some((y2, m2, d2)) => {
                let t2: u32 = (total + 1440) as u32;
                Some((y2, m2, d2, (t2 / 60) as u8, (t2 % 60) as u8))
            },
            None => None,
        }
    } else if total >= 1440 {
        match next_day(y, m, d) {
            Some((y2, m2, d2)) => {
                let t2: u32 = (total - 1440) as u32;
                Some((y2, m2, d2, (t2 / 60) as u8, (t2 % 60) as u8))
            },
            None => None,
        }
    } else {
        let t2: u32 = total as u32;
        Some((y, m, d, (t2 / 60) as u8, (t2 % 60) as u8))
    }
}

/// Parses a registry push-time string into a UTC timestamp.
///
/// Succeeds exactly on the strings of the accepted grammar that name a real
/// calendar date and stay within years 0 to 9999 once their offset is
/// applied; the fractional second may carry any number of digits.
pub fn parse_time(s: &str) -> (r: Result<Timestamp, TimeParseError>)
    ensures
        match r {
            Ok(t) => spec_parse_timestamp(s@) == Some(t) && t.valid(),
            Err(_) => spec_parse_timestamp(s@) is None,
        },
{
    let n = s.unicode_len();
    if n < 20 {
        return Err(TimeParseError);
    }
    let y = match read_four(s, 0) {
        Some(v) => v,
        None => { return Err(TimeParseError) },
    };
    if s.get_char(4) != '-' {
        return Err(TimeParseError);
    }
    let m = match read_two(s, 5) {
        Some(v) => v,
        None => { return Err(TimeParseError) },
    };
    if s.get_char(7) != '-' {
        return Err(TimeParseError);
    }
    let d = match read_two(s, 8) {
        Some(v) => v,
        None => { return Err(TimeParseError) },
    };
    let sep = s.get_char(10);
    if !(sep == 'T' || sep == 't' || sep == ' ') {
        return Err(TimeParseError);
    }
    let h = match read_two(s, 11) {
        Some(v) => v,
        None => { return Err(TimeParseError) },
    };
    if s.get_char(13) != ':' {
        return Err(TimeParseError);
    }
    let mi = match read_two(s, 14) {
        Some(v) => v,
        None => { return Err(TimeParseError) },
    };
    if s.get_char(16) != ':' {
        return Err(TimeParseError);
    }
    let se = match read_two(s, 17) {
        Some(v) => v,
        None => { return Err(TimeParseError) },
    };
    assert(date_time_shape(s@));
    let mut nanos: u32 = 0;
    let mut o: usize = 19;
    if s.get_char(19) == '.' {
        let mut j: usize = 20;
        let mut acc: u32 = 0;
        let mut count: usize = 0;
        while j < n
            invariant_except_break
                20 <= j <= n,
                n == s@.len(),
                count == if j - 20 <= 9 {
                    j - 20
                } else {
                    9
                },
                forall|k: int| 20 <= k < j ==> is_digit(s@[k]),
                acc == digits_val(s@.subrange(20, 20 + count as int)),
            ensures
                20 <= j <= n,
                n == s@.len(),
                count == if j - 20 <= 9 {
                    j - 20
                } else {
                    9
                },
                forall|k: int| 20 <= k < j ==> is_digit(s@[k]),
                acc == digits_val(s@.subrange(20, 20 + count as int)),
                j == n || !is_digit(s@[j as int]),
            decreases n - j,
        {
            let c = s.get_char(j);
            if c < '0' || c > '9' {
                break ;
            }
            if count < 9 {
                proof {
                    lemma_digits_val_bound(s@.subrange(20, 20 + count as int));
                    assert(pow10(0) == 1);
                    assert(pow10(1) == 10);
                    assert(pow10(2) == 100);
                    assert(pow10(3) == 1000);
                    assert(pow10(4) == 10000);
                    assert(pow10(5) == 100000);
                    assert(pow10(6) == 1000000);
                    assert(pow10(7) == 10000000);
                    assert(pow10(8) == 100000000);
                }
                acc = acc * 10 + digit_value(c) as u32;
                count = count + 1;
                proof {
                    let t = s@.subrange(20, 20 + count as int);
                    assert(t.drop_last() =~= s@.subrange(20, 20 + count as int - 1));
                    assert(t.last() == s@[20 + count as int - 1]);
                }
            }
            j = j + 1;
        }
        if j == 20 {
            return Err(TimeParseError);
        }
        proof {
            lemma_digit_run_end_is(s@, 20, j as int);
        }
        let scale = pow10_u32(9 - count);
        proof {
            lemma_digits_val_bound(s@.subrange(20, 20 + count as int));
            lemma_pow10_add(count as nat, (9 - count) as nat);
            lemma_pow10_pos((9 - count) as nat);
            lemma_pow10_9();
            assert(acc * scale < 1000000000) by (nonlinear_arith)
                requires
                    0 <= acc,
                    acc < pow10(count as nat),
                    1 <= scale,
                    scale == pow10((9 - count) as nat),
                    pow10(count as nat) * pow10((9 - count) as nat) == 1000000000,
            ;
        }
        nanos = acc * scale;
        o = j;
        assert(nanos == frac_nanos(s@));
    } else {
        assert(!has_fraction(s@));
        assert(nanos == frac_nanos(s@));
    }
    assert(o as int == offset_start(s@));
    if o >= n {
        return Err(TimeParseError);
    }
    let c0 = s.get_char(o);
    let mut offmin: i32 = 0;
    if c0 == 'Z' || c0 == 'z' {
        if n - o != 1 {
            return Err(TimeParseError);
        }
    } else if c0 == '+' || c0 == '-' {
        if n - o != 6 {
            return Err(TimeParseError);
        }
        let oh = match read_two(s, o + 1) {
            Some(v) => v,
            None => { return Err(TimeParseError) },
        };
        if s.get_char(o + 3) != ':' {
            return Err(TimeParseError);
        }
        let om = match read_two(s, o + 4) {
            Some(v) => v,
            None => { return Err(TimeParseError) },
        };
        if oh > 23 || om > 59 {
            return Err(TimeParseError);
        }
        offmin = (oh as i32) * 60 + (om as i32);
        if c0 == '-' {
            offmin = -offmin;
        }
    } else {
        return Err(TimeParseError);
    }
    assert(stamp_shape(s@));
    assert(offmin as int == offset_minutes(s@));
    if m < 1 || m > 12 {
        return Err(TimeParseError);
    }
    if d < 1 || d > days_in_month(y as u32, m) {
        return Err(TimeParseError);
    }
    if h > 23 || mi > 59 || se > 59 {
        return Err(TimeParseError);
    }
    match apply_offset(y as u32, m, d, h, mi, offmin) {
        Some(f) => Ok(
            Timestamp {
                year: f.0,
                month: f.1,
                day: f.2,
                hour: f.3,
                minute: f.4,
                second: se,
                nanos,
            },
        ),
        None => Err(TimeParseError),
    }
}

/// The timestamp `days` whole days earlier, at the same time of day;
/// `None` when that falls below the supported year range.
pub open spec fn spec_minus_days(t: Timestamp, days: nat) -> Option<Timestamp>
    decreases days,
{
    if days == 0 {
        Some(t)
    } else {
        match spec_prev_day(t.year as int, t.month as int, t.day as int) {
            Some((y, m, d)) => spec_minus_days(
                Timestamp { year: y as u32, month: m as u8, day: d as u8, ..t },
                (days - 1) as nat,
            ),
            None => None,
        }
    }
}

/// The same push-time string with its fractional-second part removed.
pub open spec fn without_fraction(s: Seq<char>) -> Seq<char> {
    s.subrange(0, 19) + s.subrange(offset_start(s), s.len() as int)
}

/// Parsing is precision-tolerant: the fractional second of an accepted
/// push-time string only ever feeds the nanosecond field. Dropping the
/// fraction still parses, and yields the same timestamp with zero
/// nanoseconds — so any rendering at second precision cannot see how many
/// fraction digits the registry sent.
pub proof fn lemma_parse_precision_tolerant(s: Seq<char>)
    requires
        spec_parse_timestamp(s) is Some,
    ensures
        ({
            let t = spec_parse_timestamp(s)->0;
            spec_parse_timestamp(without_fraction(s)) == Some(
                Timestamp { nanos: 0, ..t },
            )
        }),
{
    let o = offset_start(s);
    let w = without_fraction(s);
    if has_fraction(s) {
        lemma_digit_run_end(s, 20);
    }
    assert(19 <= o < s.len());
    assert(w.len() == 19 + (s.len() - o));
    assert(forall|k: int| 0 <= k < 19 ==> w[k] == s[k]);
    assert(forall|k: int| 19 <= k < w.len() ==> w[k] == s[o + (k - 19)]);
    assert(date_time_shape(w));
    assert(w[19] == s[o]);
    assert(!has_fraction(w));
    assert(offset_start(w) == 19);
    assert(offset_shape(w));
    assert(offset_minutes(w) == offset_minutes(s));
    assert(frac_nanos(w) == 0);
    assert(four_val(w, 0) == four_val(s, 0));
    assert(two_val(w, 5) == two_val(s, 5));
    assert(two_val(w, 8) == two_val(s, 8));
    assert(two_val(w, 11) == two_val(s, 11));
    assert(two_val(w, 14) == two_val(s, 14));
    assert(two_val(w, 17) == two_val(s, 17));
}

/// The second-precision rendering of a parsed push-time string never
/// depends on the fraction digits the string carried.
pub proof fn lemma_format_precision_tolerant(s: Seq<char>)
    requires
        spec_parse_timestamp(s) is Some,
    ensures
        spec_parse_timestamp(without_fraction(s)) is Some,
        spec_format_seconds(spec_parse_timestamp(without_fraction(s))->0) == spec_format_seconds(
            spec_parse_timestamp(s)->0,
        ),
{
    lemma_parse_precision_tolerant(s);
}

/// Parsing is idempotent at second precision: rendering a valid
/// timestamp and parsing the rendering back (with a UTC marker appended,
/// since a rendering names no offset) yields the same timestamp with its
/// sub-second part dropped. Rendering, parsing and rendering again can
/// therefore never drift.
#[verifier::rlimit(100)]
pub proof fn lemma_parse_format_round_trip(t: Timestamp)
    requires
        t.valid(),
    ensures
        spec_parse_timestamp(spec_format_seconds(t).push('Z')) == Some(
            Timestamp { nanos: 0, ..t },
        ),
{
    let s = spec_format_seconds(t).push('Z');
    assert(s.len() == 20);
    let y = t.year as int;
    let mo = t.month as int;
    let d = t.day as int;
    let h = t.hour as int;
    let mi = t.minute as int;
    let se = t.second as int;
    assert(s[0] == digit_char(y / 1000 % 10));
    assert(s[1] == digit_char(y / 100 % 10));
    assert(s[2] == digit_char(y / 10 % 10));
    assert(s[3] == digit_char(y % 10));
    assert(s[4] == '-');
    assert(s[5] == digit_char(mo / 10 % 10));
    assert(s[6] == digit_char(mo % 10));
    assert(s[7] == '-');
    assert(s[8] == digit_char(d / 10 % 10));
    assert(s[9] == digit_char(d % 10));
    assert(s[10] == ' ');
    assert(s[11] == digit_char(h / 10 % 10));
    assert(s[12] == digit_char(h % 10));
    assert(s[13] == ':');
    assert(s[14] == digit_char(mi / 10 % 10));
    assert(s[15] == digit_char(mi % 10));
    assert(s[16] == ':');
    assert(s[17] == digit_char(se / 10 % 10));
    assert(s[18] == digit_char(se % 10));
    assert(s[19] == 'Z');
    assert(forall|k: int| 0 <= k < 10 ==> is_digit(#[trigger] digit_char(k)) && digit_val(
        digit_char(k),
    ) == k);
    assert(date_time_shape(s));
    assert(!has_fraction(s));
    assert(offset_start(s) == 19);
    assert(offset_shape(s));
    assert(stamp_shape(s));
    assert(offset_minutes(s) == 0);
    assert(frac_nanos(s) == 0);
    assert(four_val(s, 0) == 1000 * (y / 1000 % 10) + 100 * (y / 100 % 10) + 10 * (y / 10 % 10) + y
        % 10);
    assert(1000 * (y / 1000 % 10) + 100 * (y / 100 % 10) + 10 * (y / 10 % 10) + y % 10 == y);
    assert(two_val(s, 5) == mo);
    assert(two_val(s, 8) == d);
    assert(two_val(s, 11) == h);
    assert(two_val(s, 14) == mi);
    assert(two_val(s, 17) == se);
    assert(raw_fields_ok(y, mo, d, h, mi, se));
    assert(h * 60 + mi < 1440);
    assert((h * 60 + mi) / 60 == h && (h * 60 + mi) % 60 == mi);
    assert(spec_apply_offset(y, mo, d, h, mi, 0) == Some((y, mo, d, h, mi)));
}

/// The character for a decimal digit.
pub open spec fn digit_char(d: int) -> char {
    if d == 0 {
        '0'
    } else if d == 1 {
        '1'
    } else if d == 2 {
        '2'
    } else if d == 3 {
        '3'
    } else if d == 4 {
        '4'
    } else if d == 5 {
        '5'
    } else if d == 6 {
        '6'
    } else if d == 7 {
        '7'
    } else if d == 8 {
        '8'
    } else {
        '9'
    }
}

/// `v` as two zero-padded digits.
pub open spec fn two_digit_chars(v: int) -> Seq<char> {
    seq![digit_char(v / 10 % 10), digit_char(v % 10)]
}

/// `v` as four zero-padded digits.
pub open spec fn four_digit_chars(v: int) -> Seq<char> {
    seq![
        digit_char(v / 1000 % 10),
        digit_char(v / 100 % 10),
        digit_char(v / 10 % 10),
        digit_char(v % 10),
    ]
}

/// The fixed human-readable rendering `YYYY-MM-DD HH:MM:SS`. It reads no
/// field finer than the second, so any two timestamps that differ only in
/// their nanoseconds render alike.
pub open spec fn spec_format_seconds(t: Timestamp) -> Seq<char> {
    four_digit_chars(t.year as int) + seq!['-'] + two_digit_chars(t.month as int) + seq!['-']
        + two_digit_chars(t.day as int) + seq![' '] + two_digit_chars(t.hour as int) + seq![':']
        + two_digit_chars(t.minute as int) + seq![':'] + two_digit_chars(t.second as int)
}

/// Appends one decimal digit character.
pub(crate) fn push_digit(out: &mut String, d: u8)
    requires
        d < 10,
    ensures
        final(out)@ == old(out)@ + seq![digit_char(d as int)],
{
    if d == 0 {
        out.append("0");
        proof {
            reveal_strlit("0");
            assert("0"@ =~= seq![digit_char(0)]);
        }
    } else if d == 1 {
        out.append("1");
        proof {
            reveal_strlit("1");
            assert("1"@ =~= seq![digit_char(1)]);
        }
    } else if d == 2 {
        out.append("2");
        proof {
            reveal_strlit("2");
            assert("2"@ =~= seq![digit_char(2)]);
        }
    } else if d == 3 {
        out.append("3");
        proof {
            reveal_strlit("3");
            assert("3"@ =~= seq![digit_char(3)]);
        }
    } else if d == 4 {
        out.append("4");
        proof {
            reveal_strlit("4");
            assert("4"@ =~= seq![digit_char(4)]);
        }
    } else if d == 5 {
        out.append("5");
        proof {
            reveal_strlit("5");
            assert("5"@ =~= seq![digit_char(5)]);
        }
    } else if d == 6 {
        out.append("6");
        proof {
            reveal_strlit("6");
            assert("6"@ =~= seq![digit_char(6)]);
        }
    } else if d == 7 {
        out.append("7");
        proof {
            reveal_strlit("7");
            assert("7"@ =~= seq![digit_char(7)]);
        }
    } else if d == 8 {
        out.append("8");
        proof {
            reveal_strlit("8");
            assert("8"@ =~= seq![digit_char(8)]);
        }
    } else {
        out.append("9");
        proof {
            reveal_strlit("9");
            assert("9"@ =~= seq![digit_char(9)]);
        }
    }
}

/// Appends `v` as two zero-padded digits.
fn push_two_digits(out: &mut String, v: u8)
    requires
        v < 100,
    ensures
        final(out)@ == old(out)@ + two_digit_chars(v as int),
{
    push_digit(out, v / 10 % 10);
    push_digit(out, v % 10);
    assert(out@ =~= old(out)@ + two_digit_chars(v as int));
}

impl Timestamp {
    /// A timestamp is valid when every field lies in its calendar range.
    pub open spec fn valid(self) -> bool {
        &&& self.year <= 9999
        &&& 1 <= self.month <= 12
        &&& 1 <= self.day <= spec_days_in_month(self.year as int, self.month as int)
        &&& self.hour < 24
        &&& self.minute < 60
        &&& self.second < 60
        &&& self.nanos < 1_000_000_000
    }

    /// Instant order: lexicographic over the calendar fields.
    pub open spec fn spec_le(self, other: Timestamp) -> bool {
        if self.year != other.year {
            self.year < other.year
        } else if self.month != other.month {
            self.month < other.month
        } else if self.day != other.day {
            self.day < other.day
        } else if self.hour != other.hour {
            self.hour < other.hour
        } else if self.minute != other.minute {
            self.minute < other.minute
        } else if self.second != other.second {
            self.second < other.second
        } else {
            self.nanos <= other.nanos
        }
    }

    /// Whether every field lies in its calendar range. Parsed timestamps
    /// always are; hand-built ones can be checked here before formatting.
    pub fn is_valid(&self) -> (r: bool)
        ensures
            r == self.valid(),
    {
        self.year <= 9999 && 1 <= self.month && self.month <= 12 && 1 <= self.day && self.day
            <= days_in_month(self.year, self.month) && self.hour < 24 && self.minute < 60
            && self.second < 60 && self.nanos < 1_000_000_000
    }

    /// Renders the timestamp as `YYYY-MM-DD HH:MM:SS`, dropping any
    /// sub-second part.
    pub fn format_second_precision(&self) -> (r: String)
        requires
            self.valid(),
        ensures
            r@ == spec_format_seconds(*self),
    {
        let mut out = String::new();
        push_digit(&mut out, (self.year / 1000 % 10) as u8);
        push_digit(&mut out, (self.year / 100 % 10) as u8);
        push_digit(&mut out, (self.year / 10 % 10) as u8);
        push_digit(&mut out, (self.year % 10) as u8);
        out.append("-");
        push_two_digits(&mut out, self.month);
        out.append("-");
        push_two_digits(&mut out, self.day);
        out.append(" ");
        push_two_digits(&mut out, self.hour);
        out.append(":");
        push_two_digits(&mut out, self.minute);
        out.append(":");
        push_two_digits(&mut out, self.second);
        proof {
            reveal_strlit("-");
            reveal_strlit(" ");
            reveal_strlit(":");
            assert("-"@ =~= seq!['-']);
            assert(" "@ =~= seq![' ']);
            assert(":"@ =~= seq![':']);
            assert(out@ =~= spec_format_seconds(*self));
        }
        out
    }

    /// The retention cutoff: this instant moved `days` whole days into
    /// the past, keeping the time of day. `None` when that falls below
    /// the supported year range.
    pub fn minus_days(&self, days: u32) -> (r: Option<Timestamp>)
        requires
            self.valid(),
        ensures
            r == spec_minus_days(*self, days as nat),
            r is Some ==> r->0.valid(),
    {
        let mut cur = *self;
        let mut k: u32 = 0;
        while k < days
            invariant
                cur.valid(),
                k <= days,
                spec_minus_days(*self, days as nat) == spec_minus_days(cur, (days - k) as nat),
            decreases days - k,
        {
            match prev_day(cur.year, cur.month, cur.day) {
                Some((y, m, d)) => {
                    cur = Timestamp { year: y, month: m, day: d, ..cur };
                },
                None => {
                    return None;
                },
            }
            k = k + 1;
        }
        Some(cur)
    }

    /// Whether `self` is at or before `other`.
    pub fn le(&self, other: &Timestamp) -> (r: bool)
        ensures
            r == self.spec_le(*other),
    {
        if self.year != other.year {
            self.year < other.year
        } else if self.month != other.month {
            self.month < other.month
        } else if self.day != other.day {
            self.day < other.day
        } else if self.hour != other.hour {
            self.hour < other.hour
        } else if self.minute != other.minute {
            self.minute < other.minute
        } else if self.second != other.second {
            self.second < other.second
        } else {
            self.nanos <= other.nanos
        }
    }
}

} // verus!
