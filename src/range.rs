use vstd::prelude::*;

use crate::time::{local_midnight, local_now, CalDate, LocalNow, Timestamp};

verus! {

/// One end of a range as written: the beginning of time, the current
/// instant, or local midnight of a calendar day.
#[derive(Clone, Copy, Debug, PartialEq, Eq, Structural)]
pub enum Bound {
    Beginning,
    Now,
    Day(CalDate),
}

/// A parsed range expression, before its bounds are turned into instants.
#[derive(Clone, Copy, Debug, PartialEq, Eq, Structural)]
pub struct RangeSpec {
    pub from: Bound,
    pub to: Bound,
}

/// An inclusive interval `[from, to]` of instants. `from <= to` is not required.
#[derive(Clone, Copy, Debug, PartialEq, Eq, Structural)]
pub struct DateRange(pub Timestamp, pub Timestamp);

impl DateRange {
    pub open spec fn wf(self) -> bool {
        self.0.wf() && self.1.wf()
    }
}

/// Why a range expression gave no range.
#[derive(Clone, Debug)]
pub enum RangeError {
    /// `..` with nothing on either side, or more than one `..`.
    InvalidDateRange,
    /// A date token that is neither `today`, `YYYY-MM-DD` nor `MM-DD`; it holds the token.
    InvalidDate(String),
    /// A calendar day that has no local midnight (no such day, or a time-zone gap).
    NoSuchDay(CalDate),
    /// The local clock could not be read as an instant in range.
    ClockUnavailable,
}

/// The mathematical content of a `RangeError`.
pub enum RangeFault {
    InvalidDateRange,
    InvalidDate(Seq<char>),
    NoSuchDay(CalDate),
    ClockUnavailable,
}

impl View for RangeError {
    type V = RangeFault;

    open spec fn view(&self) -> RangeFault {
        match self {
            RangeError::InvalidDateRange => RangeFault::InvalidDateRange,
            RangeError::InvalidDate(s) => RangeFault::InvalidDate(s@),
            RangeError::NoSuchDay(d) => RangeFault::NoSuchDay(*d),
            RangeError::ClockUnavailable => RangeFault::ClockUnavailable,
        }
    }
}

/// The instant that stands for the beginning of time: the Unix epoch, in UTC.
pub open spec fn epoch_start() -> Timestamp {
    Timestamp { secs: 0, offset: 0 }
}

pub open spec fn is_digit(c: char) -> bool {
    '0' <= c && c <= '9'
}

pub open spec fn digit_val(c: char) -> int {
    c as int - '0' as int
}

/// The two-digit decimal number at positions `i` and `i + 1`.
pub open spec fn num2(s: Seq<char>, i: int) -> int {
    digit_val(s[i]) * 10 + digit_val(s[i + 1])
}

/// `YYYY-MM-DD`.
pub open spec fn is_full_date(t: Seq<char>) -> bool {
    &&& t.len() == 10
    &&& is_digit(t[0]) && is_digit(t[1]) && is_digit(t[2]) && is_digit(t[3])
    &&& t[4] == '-'
    &&& is_digit(t[5]) && is_digit(t[6])
    &&& t[7] == '-'
    &&& is_digit(t[8]) && is_digit(t[9])
}

/// `MM-DD`.
pub open spec fn is_month_day(t: Seq<char>) -> bool {
    &&& t.len() == 5
    &&& is_digit(t[0]) && is_digit(t[1])
    &&& t[2] == '-'
    &&& is_digit(t[3]) && is_digit(t[4])
}

pub open spec fn is_today(t: Seq<char>) -> bool {
    t == seq!['t', 'o', 'd', 'a', 'y']
}

/// The calendar day a date token names: `today`, `YYYY-MM-DD`, or `MM-DD`
/// in the current year.
pub open spec fn spec_date_token(t: Seq<char>, today: CalDate) -> Option<CalDate> {
    if is_today(t) {
        Some(today)
    } else if is_full_date(t) {
        Some(
            CalDate {
                year: (num2(t, 0) * 100 + num2(t, 2)) as i32,
                month: num2(t, 5) as u32,
                day: num2(t, 8) as u32,
            },
        )
    } else if is_month_day(t) {
        Some(CalDate { year: today.year, month: num2(t, 0) as u32, day: num2(t, 3) as u32 })
    } else {
        None
    }
}

/// A `..` separator starts at `i`.
pub open spec fn sep_at(s: Seq<char>, i: int) -> bool {
    0 <= i && i + 1 < s.len() && s[i] == '.' && s[i + 1] == '.'
}

/// The first separator at or after `k`.
pub open spec fn first_sep_from(s: Seq<char>, k: int) -> Option<int>
    decreases s.len() - k,
{
    if k < 0 || k + 1 >= s.len() {
        None
    } else if sep_at(s, k) {
        Some(k)
    } else {
        first_sep_from(s, k + 1)
    }
}

pub open spec fn token_bound(t: Seq<char>, today: CalDate) -> Result<Bound, RangeFault> {
    match spec_date_token(t, today) {
        Some(d) => Ok(Bound::Day(d)),
        None => Err(RangeFault::InvalidDate(t)),
    }
}

/// What a range expression means, on the day `today`:
/// `D` and `..D` run from the beginning of time to `D`, `D..` from `D` to now,
/// `D1..D2` from `D1` to `D2` as given.
pub open spec fn spec_parse_range(s: Seq<char>, today: CalDate) -> Result<RangeSpec, RangeFault> {
    match first_sep_from(s, 0) {
        None => match token_bound(s, today) {
            Ok(b) => Ok(RangeSpec { from: Bound::Beginning, to: b }),
            Err(f) => Err(f),
        },
        Some(i) => {
            let left = s.subrange(0, i);
            let right = s.subrange(i + 2, s.len() as int);
            if first_sep_from(s, i + 2) is Some {
                Err(RangeFault::InvalidDateRange)
            } else if left.len() == 0 && right.len() == 0 {
                Err(RangeFault::InvalidDateRange)
            } else if left.len() == 0 {
                match token_bound(right, today) {
                    Ok(b) => Ok(RangeSpec { from: Bound::Beginning, to: b }),
                    Err(f) => Err(f),
                }
            } else if right.len() == 0 {
                match token_bound(left, today) {
                    Ok(b) => Ok(RangeSpec { from: b, to: Bound::Now }),
                    Err(f) => Err(f),
                }
            } else {
                match (token_bound(left, today), token_bound(right, today)) {
                    (Ok(a), Ok(b)) => Ok(RangeSpec { from: a, to: b }),
                    (Err(f), _) => Err(f),
                    (Ok(_), Err(f)) => Err(f),
                }
            }
        },
    }
}

/// The instant a bound stands for, given the current instant and, for a day,
/// its local midnight where it has one.
pub open spec fn bound_instant(b: Bound, now: Timestamp, midnight: Option<Timestamp>) -> Option<
    Timestamp,
> {
    match b {
        Bound::Beginning => Some(epoch_start()),
        Bound::Now => Some(now),
        Bound::Day(_) => midnight,
    }
}

/// The range a parsed expression resolves to; the first bound without an
/// instant gives the error.
pub open spec fn spec_resolve(
    r: RangeSpec,
    now: Timestamp,
    from_midnight: Option<Timestamp>,
    to_midnight: Option<Timestamp>,
) -> Result<DateRange, RangeFault> {
    match (bound_instant(r.from, now, from_midnight), bound_instant(r.to, now, to_midnight)) {
        (Some(a), Some(b)) => Ok(DateRange(a, b)),
        (None, _) => Err(RangeFault::NoSuchDay(r.from->Day_0)),
        (Some(_), None) => Err(RangeFault::NoSuchDay(r.to->Day_0)),
    }
}

/// An executable result agrees with a mathematical one.
pub open spec fn agrees<T>(r: Result<T, RangeError>, s: Result<T, RangeFault>) -> bool {
    match (r, s) {
        (Ok(a), Ok(b)) => a == b,
        (Err(e), Err(f)) => e@ == f,
        _ => false,
    }
}

} // verus!

verus! {

/// The characters of `s`, one by one.
pub(crate) fn chars_of(s: &str) -> (r: Vec<char>)
    ensures
        r@ == s@,
{
    let n = s.unicode_len();
    let mut r: Vec<char> = Vec::new();
    let mut i: usize = 0;
    while i < n
        invariant
            n == s@.len(),
            i <= n,
            r@ == s@.subrange(0, i as int),
        decreases n - i,
    {
        r.push(s.get_char(i));
        i = i + 1;
        assert(r@ =~= s@.subrange(0, i as int));
    }
    assert(r@ =~= s@);
    r
}

/// The first `..` at or after `k`.
fn find_sep(s: &Vec<char>, k: usize) -> (r: Option<usize>)
    ensures
        r matches Some(i) ==> first_sep_from(s@, k as int) == Some(i as int) && sep_at(
            s@,
            i as int,
        ) && k <= i,
        r is None ==> first_sep_from(s@, k as int) is None,
{
    let mut i: usize = k;
    while i < s.len()
        invariant
            k <= i,
            first_sep_from(s@, k as int) == first_sep_from(s@, i as int),
        decreases s.len() - i,
    {
        if i + 1 < s.len() && s[i] == '.' && s[i + 1] == '.' {
            return Some(i);
        }
        i = i + 1;
    }
    None
}

fn is_digit_char(c: char) -> (r: bool)
    ensures
        r == is_digit(c),
{
    '0' <= c && c <= '9'
}

/// The two-digit number at `i`, `i + 1`.
fn read_num2(s: &Vec<char>, i: usize) -> (r: u32)
    requires
        i + 1 < s@.len(),
        is_digit(s@[i as int]),
        is_digit(s@[i + 1]),
    ensures
        r == num2(s@, i as int),
        r < 100,
{
    let n = s.len();
    assert(i + 1 < n);
    let c0 = s[i];
    let c1 = s[i + 1];
    assert(c0 as u32 >= 48 && c0 as u32 <= 57);
    assert(c1 as u32 >= 48 && c1 as u32 <= 57);
    let a = (c0 as u32) - 48;
    let b = (c1 as u32) - 48;
    a * 10 + b
}

/// The calendar day that the token `s[lo..hi]` names.
fn read_date_token(s: &Vec<char>, lo: usize, hi: usize, today: CalDate) -> (r: Option<CalDate>)
    requires
        lo <= hi <= s@.len(),
    ensures
        r == spec_date_token(s@.subrange(lo as int, hi as int), today),
{
    let ghost t = s@.subrange(lo as int, hi as int);
    let n = hi - lo;
    if n == 5 && s[lo] == 't' && s[lo + 1] == 'o' && s[lo + 2] == 'd' && s[lo + 3] == 'a' && s[lo
        + 4] == 'y' {
        assert(t =~= seq!['t', 'o', 'd', 'a', 'y']);
        return Some(today);
    }
    assert(!is_today(t)) by {
        if is_today(t) {
            assert(t.len() == 5);
            assert(t[0] == s@[lo as int] && t[1] == s@[lo + 1] && t[2] == s@[lo + 2]);
            assert(t[3] == s@[lo + 3] && t[4] == s@[lo + 4]);
            assert(t[0] == 't' && t[1] == 'o' && t[2] == 'd' && t[3] == 'a' && t[4] == 'y');
        }
    }
    if n == 10 && is_digit_char(s[lo]) && is_digit_char(s[lo + 1]) && is_digit_char(s[lo + 2])
        && is_digit_char(s[lo + 3]) && s[lo + 4] == '-' && is_digit_char(s[lo + 5])
        && is_digit_char(s[lo + 6]) && s[lo + 7] == '-' && is_digit_char(s[lo + 8])
        && is_digit_char(s[lo + 9]) {
        let hi_year = read_num2(s, lo);
        let lo_year = read_num2(s, lo + 2);
        let month = read_num2(s, lo + 5);
        let day = read_num2(s, lo + 8);
        assert(num2(t, 0) == hi_year && num2(t, 2) == lo_year);
        assert(num2(t, 5) == month && num2(t, 8) == day);
        let year = (hi_year * 100 + lo_year) as i32;
        return Some(CalDate { year, month, day });
    }
    if n == 5 && is_digit_char(s[lo]) && is_digit_char(s[lo + 1]) && s[lo + 2] == '-'
        && is_digit_char(s[lo + 3]) && is_digit_char(s[lo + 4]) {
        let month = read_num2(s, lo);
        let day = read_num2(s, lo + 3);
        assert(num2(t, 0) == month && num2(t, 3) == day);
        return Some(CalDate { year: today.year, month, day });
    }
    None
}

/// The bound that the token `input[lo..hi]` names, or the error that quotes it.
fn read_token_bound(input: &str, s: &Vec<char>, lo: usize, hi: usize, today: CalDate) -> (r: Result<
    Bound,
    RangeError,
>)
    requires
        s@ == input@,
        lo <= hi <= s@.len(),
    ensures
        agrees(r, token_bound(s@.subrange(lo as int, hi as int), today)),
{
    match read_date_token(s, lo, hi, today) {
        Some(d) => Ok(Bound::Day(d)),
        None => {
            let token = input.substring_char(lo, hi).to_owned();
            Err(RangeError::InvalidDate(token))
        },
    }
}

/// Parses `<date>`, `<date>..`, `..<date>` or `<date>..<date>`, where a date is
/// `today`, `YYYY-MM-DD` or `MM-DD` (a missing year is `today`'s).
pub fn parse_range_spec(input: &str, today: CalDate) -> (r: Result<RangeSpec, RangeError>)
    ensures
        agrees(r, spec_parse_range(input@, today)),
{
    let s = chars_of(input);
    let n = s.len();
    match find_sep(&s, 0) {
        None => {
            assert(s@.subrange(0, n as int) =~= s@);
            match read_token_bound(input, &s, 0, n, today) {
                Ok(b) => Ok(RangeSpec { from: Bound::Beginning, to: b }),
                Err(e) => Err(e),
            }
        },
        Some(i) => {
            if find_sep(&s, i + 2).is_some() {
                return Err(RangeError::InvalidDateRange);
            }
            if i == 0 && i + 2 == n {
                return Err(RangeError::InvalidDateRange);
            }
            if i == 0 {
                match read_token_bound(input, &s, i + 2, n, today) {
                    Ok(b) => Ok(RangeSpec { from: Bound::Beginning, to: b }),
                    Err(e) => Err(e),
                }
            } else if i + 2 == n {
                match read_token_bound(input, &s, 0, i, today) {
                    Ok(b) => Ok(RangeSpec { from: b, to: Bound::Now }),
                    Err(e) => Err(e),
                }
            } else {
                let a = read_token_bound(input, &s, 0, i, today);
                match a {
                    Err(e) => Err(e),
                    Ok(a) => match read_token_bound(input, &s, i + 2, n, today) {
                        Ok(b) => Ok(RangeSpec { from: a, to: b }),
                        Err(e) => Err(e),
                    },
                }
            }
        },
    }
}

fn resolve_bound(b: Bound, now: Timestamp, midnight: Option<Timestamp>) -> (r: Option<Timestamp>)
    ensures
        r == bound_instant(b, now, midnight),
{
    match b {
        Bound::Beginning => Some(Timestamp { secs: 0, offset: 0 }),
        Bound::Now => Some(now),
        Bound::Day(_) => midnight,
    }
}

/// Turns a parsed range into instants, given the current instant and the
/// local midnights of its day bounds.
pub fn resolve_range(
    r: &RangeSpec,
    now: Timestamp,
    from_midnight: Option<Timestamp>,
    to_midnight: Option<Timestamp>,
) -> (out: Result<DateRange, RangeError>)
    ensures
        agrees(out, spec_resolve(*r, now, from_midnight, to_midnight)),
{
    match (resolve_bound(r.from, now, from_midnight), resolve_bound(r.to, now, to_midnight)) {
        (Some(a), Some(b)) => Ok(DateRange(a, b)),
        (None, _) => match r.from {
            Bound::Day(d) => Err(RangeError::NoSuchDay(d)),
            _ => Err(RangeError::ClockUnavailable),
        },
        (Some(_), None) => match r.to {
            Bound::Day(d) => Err(RangeError::NoSuchDay(d)),
            _ => Err(RangeError::ClockUnavailable),
        },
    }
}

/// Local midnight of a day bound; `None` for the other bounds.
fn bound_midnight(b: Bound) -> (r: Option<Timestamp>)
    ensures
        r matches Some(t) ==> t.wf(),
{
    match b {
        Bound::Day(d) => local_midnight(&d),
        _ => None,
    }
}

/// A range instant agrees with the bound it came from: the epoch for the
/// beginning, the clock's instant for now, some instant in range for a day.
pub open spec fn fits_bound(t: Timestamp, b: Bound, now: Timestamp) -> bool {
    match b {
        Bound::Beginning => t == epoch_start(),
        Bound::Now => t == now,
        Bound::Day(_) => t.wf(),
    }
}

/// What parsing `input` against the clock reading `now` may give: syntax
/// errors are exactly those of `spec_parse_range`; each bound is the epoch,
/// the clock's instant, or (for a day) an instant in range; a day without a
/// local midnight gives `NoSuchDay`.
pub open spec fn range_outcome(input: Seq<char>, now: LocalNow, r: Result<DateRange, RangeError>) -> bool {
    match spec_parse_range(input, now.date) {
        Err(f) => r matches Err(e) && e@ == f,
        Ok(sp) => match r {
            Ok(dr) => fits_bound(dr.0, sp.from, now.stamp) && fits_bound(dr.1, sp.to, now.stamp),
            Err(e) => (sp.from is Day && e@ == RangeFault::NoSuchDay(sp.from->Day_0)) || (
            sp.to is Day && e@ == RangeFault::NoSuchDay(sp.to->Day_0)),
        },
    }
}

/// Parses a range expression against a reading of the local clock; a day
/// bound resolves to its local midnight.
pub fn parse_date_range_at(input: &str, now: &LocalNow) -> (r: Result<DateRange, RangeError>)
    requires
        now.stamp.wf(),
    ensures
        range_outcome(input@, *now, r),
{
    let sp = match parse_range_spec(input, now.date) {
        Ok(sp) => sp,
        Err(e) => return Err(e),
    };
    let from_midnight = bound_midnight(sp.from);
    let to_midnight = bound_midnight(sp.to);
    resolve_range(&sp, now.stamp, from_midnight, to_midnight)
}

/// Parses a range expression against the local clock read now. Apart from
/// an unreadable clock, the result is what `parse_date_range_at` gives for
/// some reading of the clock.
pub fn parse_date_range(date_range: &str) -> (r: Result<DateRange, RangeError>)
    ensures
        r matches Ok(dr) ==> dr.wf(),
        r matches Err(RangeError::ClockUnavailable) || exists|now: LocalNow|
            #![trigger range_outcome(date_range@, now, r)]
            now.stamp.wf() && range_outcome(date_range@, now, r),
{
    match local_now() {
        Some(now) => parse_date_range_at(date_range, &now),
        None => Err(RangeError::ClockUnavailable),
    }
}

/// Local midnight of the day a single date token names.
pub fn get_date_from_arg(date_arg: &str, today: CalDate) -> (r: Result<Timestamp, RangeError>)
    ensures
        spec_date_token(date_arg@, today) is None ==> (r matches Err(e) && e@
            == RangeFault::InvalidDate(date_arg@)),
        spec_date_token(date_arg@, today) matches Some(d) ==> match r {
            Ok(t) => t.wf(),
            Err(e) => e@ == RangeFault::NoSuchDay(d),
        },
{
    let s = chars_of(date_arg);
    let n = s.len();
    assert(s@.subrange(0, n as int) =~= s@);
    match read_date_token(&s, 0, n, today) {
        Some(d) => match local_midnight(&d) {
            Some(t) => Ok(t),
            None => Err(RangeError::NoSuchDay(d)),
        },
        None => Err(RangeError::InvalidDate(date_arg.to_owned())),
    }
}

} // verus!

verus! {

proof fn lemma_no_sep_in_dotless(s: Seq<char>, k: int)
    requires
        forall|i: int| k <= i < s.len() ==> s[i] != '.',
    ensures
        first_sep_from(s, k) is None,
    decreases s.len() - k,
{
    if k >= 0 && k + 1 < s.len() {
        lemma_no_sep_in_dotless(s, k + 1);
    }
}

proof fn lemma_first_sep_at(s: Seq<char>, k: int, m: int)
    requires
        0 <= k <= m,
        forall|i: int| k <= i < m ==> s[i] != '.',
        sep_at(s, m),
    ensures
        first_sep_from(s, k) == Some(m),
    decreases m - k,
{
    if k < m {
        lemma_first_sep_at(s, k + 1, m);
    }
}

proof fn lemma_token_dotless(t: Seq<char>, today: CalDate)
    requires
        spec_date_token(t, today) is Some,
    ensures
        t.len() > 0,
        forall|i: int| 0 <= i < t.len() ==> t[i] != '.',
{
    assert forall|i: int| 0 <= i < t.len() implies t[i] != '.' by {
        if is_today(t) {
            assert(i == 0 || i == 1 || i == 2 || i == 3 || i == 4);
        } else if is_full_date(t) {
            assert(i == 0 || i == 1 || i == 2 || i == 3 || i == 4 || i == 5 || i == 6 || i == 7
                || i == 8 || i == 9);
        } else {
            assert(i == 0 || i == 1 || i == 2 || i == 3 || i == 4);
        }
    }
    if is_today(t) {
        assert(t.len() == 5);
    }
}

/// A single date `D` (and likewise `..D`) covers everything from the beginning
/// of time up to local midnight of `D`.
pub proof fn lemma_single_date_range(d: Seq<char>, today: CalDate, now: Timestamp, midnight: Timestamp)
    requires
        spec_date_token(d, today) is Some,
    ensures
        spec_parse_range(d, today) == Ok::<RangeSpec, RangeFault>(
            RangeSpec { from: Bound::Beginning, to: Bound::Day(spec_date_token(d, today)->Some_0) },
        ),
        spec_parse_range(seq!['.', '.'] + d, today) == spec_parse_range(d, today),
        spec_resolve(
            RangeSpec { from: Bound::Beginning, to: Bound::Day(spec_date_token(d, today)->Some_0) },
            now,
            None,
            Some(midnight),
        ) == Ok::<DateRange, RangeFault>(DateRange(epoch_start(), midnight)),
{
    lemma_token_dotless(d, today);
    lemma_no_sep_in_dotless(d, 0);
    let s = seq!['.', '.'] + d;
    assert(sep_at(s, 0));
    assert(first_sep_from(s, 0) == Some(0int));
    assert forall|i: int| 2 <= i < s.len() implies s[i] != '.' by {
        assert(s[i] == d[i - 2]);
    }
    lemma_no_sep_in_dotless(s, 2);
    assert(s.subrange(0, 0).len() == 0);
    assert(s.subrange(2, s.len() as int) =~= d);
}

/// `D..` covers everything from local midnight of `D` up to the current instant.
pub proof fn lemma_open_ended_range(d: Seq<char>, today: CalDate, now: Timestamp, midnight: Timestamp)
    requires
        spec_date_token(d, today) is Some,
    ensures
        spec_parse_range(d + seq!['.', '.'], today) == Ok::<RangeSpec, RangeFault>(
            RangeSpec { from: Bound::Day(spec_date_token(d, today)->Some_0), to: Bound::Now },
        ),
        spec_resolve(
            RangeSpec { from: Bound::Day(spec_date_token(d, today)->Some_0), to: Bound::Now },
            now,
            Some(midnight),
            None,
        ) == Ok::<DateRange, RangeFault>(DateRange(midnight, now)),
{
    lemma_token_dotless(d, today);
    let s = d + seq!['.', '.'];
    let m = d.len() as int;
    assert forall|i: int| 0 <= i < m implies s[i] != '.' by {
        assert(s[i] == d[i]);
    }
    assert(sep_at(s, m));
    lemma_first_sep_at(s, 0, m);
    assert(first_sep_from(s, m + 2) is None);
    assert(s.subrange(0, m) =~= d);
    assert(s.subrange(m + 2, s.len() as int).len() == 0);
}

/// `..` alone names no bound and is always rejected.
pub proof fn lemma_bare_separator_rejected(today: CalDate)
    ensures
        spec_parse_range(seq!['.', '.'], today) == Err::<RangeSpec, RangeFault>(
            RangeFault::InvalidDateRange,
        ),
{
    let s = seq!['.', '.'];
    assert(sep_at(s, 0));
    assert(first_sep_from(s, 0) == Some(0int));
    assert(first_sep_from(s, 2) is None);
    assert(s.subrange(0, 0).len() == 0);
    assert(s.subrange(2, 2).len() == 0);
}

} // verus!
