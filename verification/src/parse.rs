//! The ISO 8601 reader: splitting an input into its date and time
//! segments, matching each against the recognized grammars, and building
//! validated local or zoned date-time values from the extracted fields.
//!
//! The date segment knows two mutually exclusive grammars, tried in this
//! order: the calendar form `YYYY[-]MM[-]DD` (each dash independently
//! optional) and the week form `YYYY-Wnn-d`.  The time segment follows
//! `HH[:][MM[:][SS[.fraction]]]` with an optional zone suffix, either the
//! literal `Z` or a signed two-digit hour with an optional two-digit
//! minute.  Absent fields default to zero; a fraction of 1 to 9 digits is
//! read as a plain integer count of milliseconds, with no digit-count
//! normalization.

use crate::cal::units::{lemma_month_number_from_one, spec_month_from_one, spec_month_number, Month};
use crate::local::{
    spec_date_valid, spec_from_weekday, spec_time_valid, LocalDate, LocalDateTime, LocalTime,
};
use crate::zoned::TimeZone;
use vstd::prelude::*;

verus! {

/// Whether `c` is an ASCII decimal digit.
pub open spec fn is_digit_char(c: char) -> bool {
    48 <= c as int <= 57
}

/// The numeric value of a digit character.
pub open spec fn digit_value(c: char) -> int {
    c as int - 48
}

/// Whether every character of `s` with index in `[from, to)` is a digit.
pub open spec fn all_digits(s: Seq<char>, from: int, to: int) -> bool {
    forall|k: int| from <= k < to ==> is_digit_char(s[k])
}

/// The number that the characters of `s` in `[from, to)` spell in decimal.
pub open spec fn num_value(s: Seq<char>, from: int, to: int) -> int
    decreases to - from,
{
    if to <= from {
        0
    } else {
        num_value(s, from, to - 1) * 10 + digit_value(s[to - 1])
    }
}

/// Ten raised to a small power; the widths of the numeric fields are all
/// at most nine digits.
pub open spec fn tenpow(e: int) -> int
    decreases e,
{
    if e <= 0 {
        1
    } else {
        10 * tenpow(e - 1)
    }
}

/// A string of digits spells a nonnegative number below ten to its length.
proof fn lemma_num_value_bound(s: Seq<char>, from: int, to: int)
    requires
        from <= to <= s.len(),
        all_digits(s, from, to),
    ensures
        0 <= num_value(s, from, to) < tenpow(to - from),
    decreases to - from,
{
    if from < to {
        lemma_num_value_bound(s, from, to - 1);
    }
}

/// The index of the first `T` of `s`, or its length when it has none.
pub open spec fn spec_first_t(s: Seq<char>) -> int
    decreases s.len(),
{
    if s.len() == 0 {
        0
    } else if s[0] == 'T' {
        0
    } else {
        1 + spec_first_t(s.subrange(1, s.len() as int))
    }
}

proof fn lemma_first_t_at(s: Seq<char>, i: int)
    requires
        0 <= i <= s.len(),
        forall|k: int| 0 <= k < i ==> s[k] != 'T',
        i == s.len() || s[i] == 'T',
    ensures
        spec_first_t(s) == i,
    decreases i,
{
    if s.len() > 0 && i > 0 {
        lemma_first_t_at(s.subrange(1, s.len() as int), i - 1);
    }
}

/// The two halves of an ISO 8601 string: what stands before the first
/// `T`, and what stands after it -- everything and nothing when there is
/// no `T` at all.
pub open spec fn spec_split(s: Seq<char>) -> (Seq<char>, Seq<char>) {
    let i = spec_first_t(s);
    if i == s.len() {
        (s, Seq::<char>::empty())
    } else {
        (s.subrange(0, i), s.subrange(i + 1, s.len() as int))
    }
}

/// Splits an input into its date segment and its time segment, for
/// further reading by `parse_iso_8601_date` and `parse_iso_8601_time`.
/// Every input splits: a string with no `T` is all date segment.
pub fn split_iso_8601(string: &str) -> (r: Option<(&str, &str)>)
    ensures
        r matches Some(p) && p.0@ == spec_split(string@).0 && p.1@ == spec_split(string@).1,
{
    let n: usize = string.unicode_len();
    let mut i: usize = 0;
    while i < n && string.get_char(i) != 'T'
        invariant
            n == string@.len(),
            0 <= i <= n,
            forall|k: int| 0 <= k < i ==> string@[k] != 'T',
        decreases n - i,
    {
        i = i + 1;
    }
    proof {
        lemma_first_t_at(string@, i as int);
    }
    if i == n {
        let date_part = string.substring_char(0, n);
        let time_part = string.substring_char(n, n);
        proof {
            assert(date_part@ =~= string@);
            assert(time_part@ =~= Seq::<char>::empty());
        }
        Some((date_part, time_part))
    } else {
        Some((string.substring_char(0, i), string.substring_char(i + 1, n)))
    }
}

/// Whether a digit character stands at index `i` of `s`.
fn digit_at(s: &str, i: usize) -> (r: bool)
    ensures
        r == (i < s@.len() && is_digit_char(s@[i as int])),
{
    let n: usize = s.unicode_len();
    if i < n {
        let c: u32 = s.get_char(i) as u32;
        48 <= c && c <= 57
    } else {
        false
    }
}

/// Whether two digit characters stand at index `i` of `s`.
pub open spec fn two_digits_at(s: Seq<char>, i: int) -> bool {
    i + 2 <= s.len() && is_digit_char(s[i]) && is_digit_char(s[i + 1])
}

/// The value of the two digit characters at index `i`.
pub open spec fn val2(s: Seq<char>, i: int) -> int {
    10 * digit_value(s[i]) + digit_value(s[i + 1])
}

/// Reads the two-digit number at index `i`, when two digits stand there.
fn two_digits(s: &str, i: usize) -> (r: Option<i8>)
    ensures
        two_digits_at(s@, i as int) ==> r == Some(val2(s@, i as int) as i8) && 0 <= val2(
            s@,
            i as int,
        ) <= 99,
        !two_digits_at(s@, i as int) ==> r is None,
{
    let n: usize = s.unicode_len();
    if i < n && i + 1 < n {
        let c0: u32 = s.get_char(i) as u32;
        let c1: u32 = s.get_char(i + 1) as u32;
        if 48 <= c0 && c0 <= 57 && 48 <= c1 && c1 <= 57 {
            Some((10 * (c0 - 48) + (c1 - 48)) as i8)
        } else {
            None
        }
    } else {
        None
    }
}

/// The cursor moved past one optional colon at index `i`.
pub open spec fn after_colon(s: Seq<char>, i: int) -> int {
    if i < s.len() && s[i] == ':' {
        i + 1
    } else {
        i
    }
}

/// Moves the cursor past one optional colon.
fn skip_colon(s: &str, i: usize) -> (r: usize)
    requires
        i <= s@.len(),
    ensures
        r as int == after_colon(s@, i as int),
        i <= r <= s@.len(),
{
    let n: usize = s.unicode_len();
    if i < n && s.get_char(i) == ':' {
        i + 1
    } else {
        i
    }
}

/// The length of the run of digit characters starting at index `i`.
pub open spec fn digit_run(s: Seq<char>, i: int) -> int
    decreases s.len() - i,
{
    if 0 <= i < s.len() && is_digit_char(s[i]) {
        1 + digit_run(s, i + 1)
    } else {
        0
    }
}

/// A digit run is made of digits.
proof fn lemma_digit_run_digits(s: Seq<char>, i: int)
    requires
        0 <= i <= s.len(),
    ensures
        0 <= digit_run(s, i),
        i + digit_run(s, i) <= s.len(),
        all_digits(s, i, i + digit_run(s, i)),
    decreases s.len() - i,
{
    if i < s.len() && is_digit_char(s[i]) {
        lemma_digit_run_digits(s, i + 1);
    }
}

/// Measures the run of digit characters starting at index `i`.
fn digit_run_len(s: &str, i: usize) -> (r: usize)
    requires
        i <= s@.len(),
    ensures
        r as int == digit_run(s@, i as int),
        i + r <= s@.len(),
{
    let n: usize = s.unicode_len();
    let mut j: usize = i;
    while digit_at(s, j)
        invariant
            n == s@.len(),
            i <= j <= s@.len(),
            digit_run(s@, i as int) == j - i + digit_run(s@, j as int),
        decreases s@.len() - j,
    {
        j = j + 1;
    }
    j - i
}

/// Reads the number that the `count` digit characters at index `i` spell.
fn parse_digits(s: &str, i: usize, count: usize) -> (r: u32)
    requires
        i + count <= s@.len(),
        count <= 9,
        all_digits(s@, i as int, i as int + count as int),
    ensures
        r as int == num_value(s@, i as int, i as int + count as int),
        (r as int) < tenpow(count as int),
{
    proof {
        reveal_with_fuel(tenpow, 11);
    }
    let n: usize = s.unicode_len();
    let mut acc: u32 = 0;
    let mut k: usize = 0;
    while k < count
        invariant
            n == s@.len(),
            k <= count,
            count <= 9,
            i + count <= s@.len(),
            all_digits(s@, i as int, i as int + count as int),
            acc as int == num_value(s@, i as int, i as int + k as int),
            (acc as int) < tenpow(k as int),
        decreases count - k,
    {
        proof {
            reveal_with_fuel(tenpow, 11);
            assert(is_digit_char(s@[i as int + k as int]));
        }
        let d: u32 = s.get_char(i + k) as u32 - 48;
        acc = 10 * acc + d;
        k = k + 1;
    }
    acc
}

/// The transient result of the shared time extractor: every optional
/// field already defaulted to zero, and the literal `Z` marker kept apart
/// from the numeric offset so that "UTC via `Z`" and "UTC via `+00:00`"
/// stay distinguishable.
#[derive(PartialEq, Eq, Debug, Copy, Clone, Structural)]
pub struct TimeTuple {
    pub hour: i8,
    pub minute: i8,
    pub second: i8,
    pub millisecond: i32,
    pub zone_hour: i8,
    pub zone_minute: i8,
    pub zone_utc: bool,
}

impl TimeTuple {
    /// The fields as unbounded integers, in the order the grammar reads
    /// them.
    pub open spec fn spec_fields(self) -> (int, int, int, int, int, int, bool) {
        (
            self.hour as int,
            self.minute as int,
            self.second as int,
            self.millisecond as int,
            self.zone_hour as int,
            self.zone_minute as int,
            self.zone_utc,
        )
    }
}

/// The zone suffix beginning at index `p`, paired with time fields
/// already read: nothing (an offset of zero), the literal `Z`, or a
/// signed two-digit hour with an optional two-digit minute.  Anything
/// else, or trailing text, fails the whole grammar.
pub open spec fn spec_zone_tuple(s: Seq<char>, p: int, h: int, m: int, sec: int, ms: int) -> Option<
    (int, int, int, int, int, int, bool),
> {
    if p == s.len() {
        Some((h, m, sec, ms, 0, 0, false))
    } else if s[p] == 'Z' && p + 1 == s.len() {
        Some((h, m, sec, ms, 0, 0, true))
    } else if s[p] == '+' || s[p] == '-' {
        if two_digits_at(s, p + 1) {
            let zh = if s[p] == '-' {
                -val2(s, p + 1)
            } else {
                val2(s, p + 1)
            };
            let q = after_colon(s, p + 3);
            if q == s.len() {
                Some((h, m, sec, ms, zh, 0, false))
            } else if two_digits_at(s, q) && q + 2 == s.len() {
                Some((h, m, sec, ms, zh, val2(s, q), false))
            } else {
                None
            }
        } else {
            None
        }
    } else {
        None
    }
}

/// The time tuple that the shared extractor reads from a whole segment:
/// a two-digit hour, then optional colon-separated minute and second, an
/// optional dot-led fraction of one to nine digits read as a plain
/// integer, and an optional zone suffix.  Absent fields are zero.
pub open spec fn spec_time_tuple(s: Seq<char>) -> Option<(int, int, int, int, int, int, bool)> {
    if !two_digits_at(s, 0) {
        None
    } else {
        let h = val2(s, 0);
        let i = after_colon(s, 2);
        if two_digits_at(s, i) {
            let m = val2(s, i);
            let j = after_colon(s, i + 2);
            if two_digits_at(s, j) {
                let sec = val2(s, j);
                let k = j + 2;
                if k < s.len() && s[k] == '.' {
                    let run = digit_run(s, k + 1);
                    if 1 <= run <= 9 {
                        spec_zone_tuple(s, k + 1 + run, h, m, sec, num_value(s, k + 1, k + 1 + run))
                    } else {
                        None
                    }
                } else {
                    spec_zone_tuple(s, k, h, m, sec, 0)
                }
            } else {
                spec_zone_tuple(s, j, h, m, 0, 0)
            }
        } else {
            spec_zone_tuple(s, i, h, 0, 0, 0)
        }
    }
}

/// Reads the zone suffix at index `p` and finishes the tuple.
fn parse_zone(s: &str, p: usize, hour: i8, minute: i8, second: i8, millisecond: i32) -> (r: Option<
    TimeTuple,
>)
    requires
        p <= s@.len(),
    ensures
        (match spec_zone_tuple(
            s@,
            p as int,
            hour as int,
            minute as int,
            second as int,
            millisecond as int,
        ) {
            Some(t) => r matches Some(u) && u.spec_fields() == t,
            None => r is None,
        }),
{
    let n: usize = s.unicode_len();
    if p == n {
        return Some(
            TimeTuple {
                hour,
                minute,
                second,
                millisecond,
                zone_hour: 0,
                zone_minute: 0,
                zone_utc: false,
            },
        );
    }
    let c: char = s.get_char(p);
    if c == 'Z' && p + 1 == n {
        return Some(
            TimeTuple {
                hour,
                minute,
                second,
                millisecond,
                zone_hour: 0,
                zone_minute: 0,
                zone_utc: true,
            },
        );
    }
    if c == '+' || c == '-' {
        match two_digits(s, p + 1) {
            Some(v) => {
                let zone_hour: i8 = if c == '-' {
                    -v
                } else {
                    v
                };
                let q: usize = skip_colon(s, p + 3);
                if q == n {
                    Some(
                        TimeTuple {
                            hour,
                            minute,
                            second,
                            millisecond,
                            zone_hour,
                            zone_minute: 0,
                            zone_utc: false,
                        },
                    )
                } else {
                    match two_digits(s, q) {
                        Some(zone_minute) => if q + 2 == n {
                            Some(
                                TimeTuple {
                                    hour,
                                    minute,
                                    second,
                                    millisecond,
                                    zone_hour,
                                    zone_minute,
                                    zone_utc: false,
                                },
                            )
                        } else {
                            None
                        },
                        None => None,
                    }
                }
            },
            None => None,
        }
    } else {
        None
    }
}

/// The shared extractor: reads a whole time segment into a tuple, or
/// nothing when the segment fails the grammar.
fn parse_iso_8601_tuple(string: &str) -> (r: Option<TimeTuple>)
    ensures
        (match spec_time_tuple(string@) {
            Some(t) => r matches Some(u) && u.spec_fields() == t,
            None => r is None,
        }),
{
    let h: i8 = match two_digits(string, 0) {
        Some(v) => v,
        None => {
            return None;
        },
    };
    let i: usize = skip_colon(string, 2);
    match two_digits(string, i) {
        Some(m) => {
            let j: usize = skip_colon(string, i + 2);
            match two_digits(string, j) {
                Some(sec) => {
                    let k: usize = j + 2;
                    let n: usize = string.unicode_len();
                    if k < n && string.get_char(k) == '.' {
                        let run: usize = digit_run_len(string, k + 1);
                        if 1 <= run && run <= 9 {
                            proof {
                                lemma_digit_run_digits(string@, k as int + 1);
                            }
                            let ms: u32 = parse_digits(string, k + 1, run);
                            proof {
                                reveal_with_fuel(tenpow, 11);
                            }
                            parse_zone(string, k + 1 + run, h, m, sec, ms as i32)
                        } else {
                            None
                        }
                    } else {
                        parse_zone(string, k, h, m, sec, 0)
                    }
                },
                None => parse_zone(string, j, h, m, 0, 0),
            }
        },
        None => parse_zone(string, i, h, 0, 0, 0),
    }
}

/// The three numeric fields of the calendar form `YYYY[-]MM[-]DD`, each
/// dash independently optional, or nothing when the segment does not fit
/// that shape.
pub open spec fn spec_date_fields(s: Seq<char>) -> Option<(int, int, int)> {
    let n = s.len() as int;
    if n == 8 && all_digits(s, 0, 8) {
        Some((num_value(s, 0, 4), num_value(s, 4, 6), num_value(s, 6, 8)))
    } else if n == 9 && s[4] == '-' && all_digits(s, 0, 4) && all_digits(s, 5, 9) {
        Some((num_value(s, 0, 4), num_value(s, 5, 7), num_value(s, 7, 9)))
    } else if n == 9 && s[6] == '-' && all_digits(s, 0, 6) && all_digits(s, 7, 9) {
        Some((num_value(s, 0, 4), num_value(s, 4, 6), num_value(s, 7, 9)))
    } else if n == 10 && s[4] == '-' && s[7] == '-' && all_digits(s, 0, 4) && all_digits(s, 5, 7)
        && all_digits(s, 8, 10) {
        Some((num_value(s, 0, 4), num_value(s, 5, 7), num_value(s, 8, 10)))
    } else {
        None
    }
}

/// The three numeric fields of the week form `YYYY-Wnn-d`, or nothing
/// when the segment does not fit that shape.
pub open spec fn spec_week_fields(s: Seq<char>) -> Option<(int, int, int)> {
    if s.len() == 10 && all_digits(s, 0, 4) && s[4] == '-' && s[5] == 'W' && all_digits(s, 6, 8)
        && s[8] == '-' && is_digit_char(s[9]) {
        Some((num_value(s, 0, 4), num_value(s, 6, 8), digit_value(s[9])))
    } else {
        None
    }
}

/// What `parse_iso_8601_date` returns: the calendar form is tried first,
/// then the week form.  A month number outside 1 through 12, a day out of
/// range for its month and year, or a week or weekday out of range all
/// yield nothing, never a wrapped or clamped value.
pub open spec fn spec_parse_date(s: Seq<char>) -> Option<LocalDate> {
    match spec_date_fields(s) {
        Some((y, mn, d)) => match spec_month_from_one(mn) {
            Some(month) => if spec_date_valid(y, month, d) {
                Some(LocalDate { year: y as i64, month, day: d as i8 })
            } else {
                None
            },
            None => None,
        },
        None => match spec_week_fields(s) {
            Some((y, w, wd)) => spec_from_weekday(y, w, wd),
            None => None,
        },
    }
}

/// The parser only ever returns dates that exist in the calendar: an
/// impossible day, month, week or weekday is rejected, never clamped.
pub proof fn lemma_parse_date_valid(s: Seq<char>)
    ensures
        spec_parse_date(s) matches Some(d) ==> d.spec_valid(),
{
    reveal_with_fuel(tenpow, 5);
    match spec_date_fields(s) {
        Some((y, mn, d0)) => {
            lemma_num_value_bound(s, 0, 4);
        },
        None => {
            match spec_week_fields(s) {
                Some((y, w, wd)) => {
                    crate::local::lemma_from_weekday_valid(y, w, wd);
                },
                None => {},
            }
        },
    }
}

/// Builds a calendar date from the three numeric fields of the calendar
/// form.
fn calendar_date(y: u32, mn: u32, d: u32) -> (r: Option<LocalDate>)
    requires
        y <= 9999,
        mn <= 99,
        d <= 99,
    ensures
        r == (match spec_month_from_one(mn as int) {
            Some(month) => if spec_date_valid(y as int, month, d as int) {
                Some(LocalDate { year: y as i64, month, day: d as i8 })
            } else {
                None::<LocalDate>
            },
            None => None::<LocalDate>,
        }),
{
    match Month::from_one(mn as i8) {
        Some(month) => LocalDate::new(y as i64, month, d as i8),
        None => None,
    }
}

/// Whether every character of `s` with index in `[from, to)` is a digit.
fn digits_between(s: &str, from: usize, to: usize) -> (r: bool)
    requires
        from <= to <= s@.len(),
    ensures
        r == all_digits(s@, from as int, to as int),
{
    let mut k: usize = from;
    while k < to
        invariant
            from <= k <= to <= s@.len(),
            forall|q: int| from <= q < k ==> is_digit_char(s@[q]),
        decreases to - k,
    {
        if !digit_at(s, k) {
            return false;
        }
        k = k + 1;
    }
    true
}

/// Parses an ISO 8601 date segment into a validated date: the calendar
/// form `YYYY[-]MM[-]DD` first, else the week form `YYYY-Wnn-d`, else
/// nothing.
pub fn parse_iso_8601_date(string: &str) -> (r: Option<LocalDate>)
    ensures
        r == spec_parse_date(string@),
{
    proof {
        reveal_with_fuel(tenpow, 11);
    }
    let n: usize = string.unicode_len();
    if n == 8 && digits_between(string, 0, 8) {
        let y: u32 = parse_digits(string, 0, 4);
        let mn: u32 = parse_digits(string, 4, 2);
        let d: u32 = parse_digits(string, 6, 2);
        calendar_date(y, mn, d)
    } else if n == 9 && string.get_char(4) == '-' && digits_between(string, 0, 4)
        && digits_between(string, 5, 9) {
        let y: u32 = parse_digits(string, 0, 4);
        let mn: u32 = parse_digits(string, 5, 2);
        let d: u32 = parse_digits(string, 7, 2);
        calendar_date(y, mn, d)
    } else if n == 9 && string.get_char(6) == '-' && digits_between(string, 0, 6)
        && digits_between(string, 7, 9) {
        let y: u32 = parse_digits(string, 0, 4);
        let mn: u32 = parse_digits(string, 4, 2);
        let d: u32 = parse_digits(string, 7, 2);
        calendar_date(y, mn, d)
    } else if n == 10 && string.get_char(4) == '-' && string.get_char(7) == '-' && digits_between(
        string,
        0,
        4,
    ) && digits_between(string, 5, 7) && digits_between(string, 8, 10) {
        let y: u32 = parse_digits(string, 0, 4);
        let mn: u32 = parse_digits(string, 5, 2);
        let d: u32 = parse_digits(string, 8, 2);
        calendar_date(y, mn, d)
    } else if n == 10 && digits_between(string, 0, 4) && string.get_char(4) == '-'
        && string.get_char(5) == 'W' && digits_between(string, 6, 8) && string.get_char(8) == '-'
        && digit_at(string, 9) {
        let y: u32 = parse_digits(string, 0, 4);
        let w: u32 = parse_digits(string, 6, 2);
        let wd: u32 = parse_digits(string, 9, 1);
        LocalDate::from_weekday(y as i64, w as i8, wd as i8)
    } else {
        None
    }
}

/// What a read time tuple becomes: a validated time of day, or nothing
/// when a field is out of canonical range.
pub open spec fn spec_time_of_tuple(t: (int, int, int, int, int, int, bool)) -> Option<LocalTime> {
    if spec_time_valid(t.0, t.1, t.2, t.3) {
        Some(
            LocalTime {
                hour: t.0 as i8,
                minute: t.1 as i8,
                second: t.2 as i8,
                millisecond: t.3 as i16,
            },
        )
    } else {
        None
    }
}

/// What `parse_iso_8601_time` returns: an empty segment means "no time
/// given" and yields midnight; anything else must fit the time grammar
/// and canonical field ranges.  The zone fields of the segment are read
/// but ignored.
pub open spec fn spec_parse_time(s: Seq<char>) -> Option<LocalTime> {
    if s.len() == 0 {
        Some(LocalTime { hour: 0, minute: 0, second: 0, millisecond: 0 })
    } else {
        match spec_time_tuple(s) {
            Some(t) => spec_time_of_tuple(t),
            None => None,
        }
    }
}

/// Parses an ISO 8601 time segment into a validated time of day; the
/// empty segment yields midnight.
pub fn parse_iso_8601_time(string: &str) -> (r: Option<LocalTime>)
    ensures
        r == spec_parse_time(string@),
{
    if string.unicode_len() == 0 {
        return LocalTime::hms(0, 0, 0);
    }
    match parse_iso_8601_tuple(string) {
        Some(t) => if 0 <= t.millisecond && t.millisecond <= 999 {
            LocalTime::hms_ms(t.hour, t.minute, t.second, t.millisecond as i16)
        } else {
            None
        },
        None => None,
    }
}

/// What `parse_iso_8601` returns: both halves of the input must parse,
/// and an absent time half means midnight.
pub open spec fn spec_parse_datetime(s: Seq<char>) -> Option<LocalDateTime> {
    let halves = spec_split(s);
    match spec_parse_date(halves.0) {
        Some(date) => match spec_parse_time(halves.1) {
            Some(time) => Some(LocalDateTime { date, time }),
            None => None,
        },
        None => None,
    }
}

/// Parses a full ISO 8601 string into a local date-time value.
pub fn parse_iso_8601(string: &str) -> (r: Option<LocalDateTime>)
    ensures
        r == spec_parse_datetime(string@),
{
    let halves = match split_iso_8601(string) {
        Some(p) => p,
        None => {
            return None;
        },
    };
    match parse_iso_8601_date(halves.0) {
        Some(date) => match parse_iso_8601_time(halves.1) {
            Some(time) => Some(LocalDateTime::from_date_time(date, time)),
            None => None,
        },
        None => None,
    }
}

/// What `parse_iso_8601_zoned` returns.  The date half must parse.  A
/// time half that fits the grammar brings its own time of day and zone:
/// the literal `Z` marker names UTC, else the read offset (zero when
/// absent) names a fixed zone.  A time half that does not fit the
/// grammar -- the empty one among them -- falls back to midnight, UTC.
pub open spec fn spec_parse_zoned(s: Seq<char>) -> Option<(LocalDateTime, TimeZone)> {
    let halves = spec_split(s);
    match spec_parse_date(halves.0) {
        Some(date) => match spec_time_tuple(halves.1) {
            Some(t) => match spec_time_of_tuple(t) {
                Some(time) => Some(
                    (
                        LocalDateTime { date, time },
                        if t.6 {
                            TimeZone::UTC
                        } else {
                            TimeZone::FixedOffset { hours: t.4 as i8, minutes: t.5 as i8 }
                        },
                    ),
                ),
                None => None,
            },
            None => Some(
                (
                    LocalDateTime {
                        date,
                        time: LocalTime { hour: 0, minute: 0, second: 0, millisecond: 0 },
                    },
                    TimeZone::UTC,
                ),
            ),
        },
        None => None,
    }
}

/// The digit character spelling a value between 0 and 9.
pub open spec fn digit_char(k: int) -> char {
    if k == 0 {
        '0'
    } else if k == 1 {
        '1'
    } else if k == 2 {
        '2'
    } else if k == 3 {
        '3'
    } else if k == 4 {
        '4'
    } else if k == 5 {
        '5'
    } else if k == 6 {
        '6'
    } else if k == 7 {
        '7'
    } else if k == 8 {
        '8'
    } else {
        '9'
    }
}

/// The two-digit rendering of a value between 0 and 99.
pub open spec fn spec_format2(v: int) -> Seq<char> {
    seq![digit_char(v / 10 % 10), digit_char(v % 10)]
}

/// The four-digit rendering of a value between 0 and 9999.
pub open spec fn spec_format4(v: int) -> Seq<char> {
    seq![
        digit_char(v / 1000 % 10),
        digit_char(v / 100 % 10),
        digit_char(v / 10 % 10),
        digit_char(v % 10),
    ]
}

/// The `YYYY-MM-DD` rendering of a date whose year has four digits.
pub open spec fn spec_format_date(d: LocalDate) -> Seq<char> {
    spec_format4(d.year as int) + seq!['-'] + spec_format2(spec_month_number(d.month)) + seq!['-']
        + spec_format2(d.day as int)
}

proof fn lemma_digit_char(k: int)
    requires
        0 <= k <= 9,
    ensures
        is_digit_char(digit_char(k)),
        digit_value(digit_char(k)) == k,
{
}

proof fn lemma_decompose2(v: int)
    requires
        0 <= v <= 99,
    ensures
        10 * (v / 10 % 10) + v % 10 == v,
{
    vstd::arithmetic::div_mod::lemma_small_mod(v as nat, 100);
    vstd::arithmetic::div_mod::lemma_breakdown(v, 10, 10);
}

proof fn lemma_decompose4(v: int)
    requires
        0 <= v <= 9999,
    ensures
        1000 * (v / 1000 % 10) + 100 * (v / 100 % 10) + 10 * (v / 10 % 10) + v % 10 == v,
{
    vstd::arithmetic::div_mod::lemma_small_mod(v as nat, 10000);
    vstd::arithmetic::div_mod::lemma_breakdown(v, 1000, 10);
    vstd::arithmetic::div_mod::lemma_breakdown(v, 100, 10);
    vstd::arithmetic::div_mod::lemma_breakdown(v, 10, 10);
}

/// Round trip: every valid calendar date with a four-digit year parses
/// back from its `YYYY-MM-DD` rendering to itself.
pub proof fn lemma_parse_format_round_trip(d: LocalDate)
    requires
        0 <= d.year <= 9999,
        d.spec_valid(),
    ensures
        spec_parse_date(spec_format_date(d)) == Some(d),
{
    let y = d.year as int;
    let mn = spec_month_number(d.month);
    let dd = d.day as int;
    lemma_month_number_from_one(d.month);
    let s = spec_format_date(d);
    assert(s =~= seq![
        digit_char(y / 1000 % 10),
        digit_char(y / 100 % 10),
        digit_char(y / 10 % 10),
        digit_char(y % 10),
        '-',
        digit_char(mn / 10 % 10),
        digit_char(mn % 10),
        '-',
        digit_char(dd / 10 % 10),
        digit_char(dd % 10),
    ]);
    assert forall|k: int| 0 <= k <= 9 implies is_digit_char(digit_char(k)) && digit_value(
        digit_char(k),
    ) == k by {
        lemma_digit_char(k);
    }
    assert(all_digits(s, 0, 4));
    assert(all_digits(s, 5, 7));
    assert(all_digits(s, 8, 10));
    reveal_with_fuel(num_value, 6);
    lemma_decompose4(y);
    lemma_decompose2(mn);
    lemma_decompose2(dd);
    assert(num_value(s, 0, 4) == y);
    assert(num_value(s, 5, 7) == mn);
    assert(num_value(s, 8, 10) == dd);
    assert(spec_date_fields(s) == Some((y, mn, dd)));
    assert(spec_parse_date(s) == Some(LocalDate { year: y as i64, month: d.month, day: dd as i8 }));
}

/// Parses a full ISO 8601 string into a local date-time value paired
/// with its time zone.
pub fn parse_iso_8601_zoned(string: &str) -> (r: Option<(LocalDateTime, TimeZone)>)
    ensures
        r == spec_parse_zoned(string@),
{
    let halves = match split_iso_8601(string) {
        Some(p) => p,
        None => {
            return None;
        },
    };
    match parse_iso_8601_date(halves.0) {
        Some(date) => match parse_iso_8601_tuple(halves.1) {
            Some(t) => if 0 <= t.millisecond && t.millisecond <= 999 {
                match LocalTime::hms_ms(t.hour, t.minute, t.second, t.millisecond as i16) {
                    Some(time) => {
                        let tz: TimeZone = if t.zone_utc {
                            TimeZone::UTC
                        } else {
                            TimeZone::of_hours_and_minutes(t.zone_hour, t.zone_minute)
                        };
                        Some((LocalDateTime::from_date_time(date, time), tz))
                    },
                    None => None,
                }
            } else {
                None
            },
            None => {
                match LocalTime::hms(0, 0, 0) {
                    Some(time) => Some((LocalDateTime::from_date_time(date, time), TimeZone::UTC)),
                    None => None,
                }
            },
        },
        None => None,
    }
}

} // verus!
