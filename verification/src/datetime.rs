//! Date-range and step helpers for time-period strings.
//!
//! A time-period bound is either relative — a minus sign, a decimal amount
//! and a unit letter, as in `-30S` — or an absolute date-time text. A
//! relative pair is anchored at the current local wall-clock time, truncated
//! to the unit; an absolute pair is parsed as written. Moments are carried
//! as seconds since the Unix epoch, so that the arithmetic on them is plain
//! integer arithmetic.

use vstd::prelude::*;

verus! {

pub const MINUS: &'static str = "-";

pub const SEC: &'static str = "S";

pub const MIN: &'static str = "M";

pub const HOUR: &'static str = "H";

pub const DAY: &'static str = "d";

pub const F_SEC: &'static str = "%S";

pub const F_MIN: &'static str = "%M";

pub const F_HOUR: &'static str = "%H";

pub const F_DAY: &'static str = "%d";

// ------------------------------------------------------------------
// Substring search.
// ------------------------------------------------------------------

/// Whether `pat` occurs contiguously in `s`.
pub open spec fn contains_seq(s: Seq<char>, pat: Seq<char>) -> bool {
    exists|i: int|
        0 <= i <= s.len() - pat.len() && #[trigger] s.subrange(i, i + pat.len()) == pat
}

/// Whether `pat` stands in `s` at position `i`.
fn match_at(s: &str, pat: &str, i: usize) -> (r: bool)
    requires
        i + pat@.len() <= s@.len(),
        s@.len() <= usize::MAX,
    ensures
        r == (s@.subrange(i as int, i + pat@.len()) == pat@),
{
    let m = pat.unicode_len();
    let mut j: usize = 0;
    while j < m
        invariant
            m == pat@.len(),
            i + m <= s@.len(),
            j <= m,
            i + m <= usize::MAX,
            forall|jj: int| 0 <= jj < j ==> s@[i + jj] == pat@[jj],
        decreases m - j,
    {
        if s.get_char(i + j) != pat.get_char(j) {
            proof {
                assert(s@.subrange(i as int, i + m)[j as int] != pat@[j as int]);
            }
            return false;
        }
        j = j + 1;
    }
    proof {
        assert(s@.subrange(i as int, i + m) =~= pat@);
    }
    true
}

/// Whether `pat` occurs in `s`, decided by scanning every position.
fn contains_sub(s: &str, pat: &str) -> (r: bool)
    ensures
        r == contains_seq(s@, pat@),
{
    let n = s.unicode_len();
    let m = pat.unicode_len();
    if m > n {
        return false;
    }
    if m == 0 {
        proof {
            assert(s@.subrange(0, 0 + pat@.len() as int) =~= pat@);
            assert(contains_seq(s@, pat@));
        }
        return true;
    }
    let positions = n - m + 1;
    let mut i: usize = 0;
    while i < positions
        invariant
            n == s@.len(),
            m == pat@.len(),
            0 < m <= n,
            positions == n - m + 1,
            i <= positions,
            forall|ii: int| 0 <= ii < i ==> #[trigger] s@.subrange(ii, ii + m) != pat@,
        decreases positions - i,
    {
        if match_at(s, pat, i) {
            proof {
                assert(s@.subrange(i as int, i as int + pat@.len() as int) == pat@);
                assert(contains_seq(s@, pat@));
            }
            return true;
        }
        i = i + 1;
    }
    false
}

// ------------------------------------------------------------------
// The step of a path template.
// ------------------------------------------------------------------

/// The step, in seconds, that a path template asks for: one second, minute,
/// hour or day, by the finest time format code it contains; a template with
/// none of them falls back to one second.
pub open spec fn step_seconds(s: Seq<char>) -> int {
    if contains_seq(s, F_SEC@) {
        1
    } else if contains_seq(s, F_MIN@) {
        60
    } else if contains_seq(s, F_HOUR@) {
        3600
    } else if contains_seq(s, F_DAY@) {
        86400
    } else {
        1
    }
}

/// The step, in seconds, that a path template asks for.
pub fn calc_dt_step(path_template: &str) -> (r: i64)
    ensures
        r == step_seconds(path_template@),
{
    if contains_sub(path_template, F_SEC) {
        1
    } else if contains_sub(path_template, F_MIN) {
        60
    } else if contains_sub(path_template, F_HOUR) {
        3600
    } else if contains_sub(path_template, F_DAY) {
        86400
    } else {
        1
    }
}

// ------------------------------------------------------------------
// Classifying a time-period bound and reading its amount.
// ------------------------------------------------------------------

/// How a time-period bound names its moment: relatively, by an amount of
/// seconds, minutes, hours or days back from now, or absolutely, as a
/// date-time text.
#[derive(PartialEq, Eq, Structural, Clone, Copy, Debug)]
pub enum RangeKind {
    BySeconds,
    ByMinutes,
    ByHours,
    ByDays,
    Absolute,
}

/// The unit letter of a relative kind.
pub open spec fn unit_char(k: RangeKind) -> char {
    match k {
        RangeKind::BySeconds => 'S',
        RangeKind::ByMinutes => 'M',
        RangeKind::ByHours => 'H',
        RangeKind::ByDays => 'd',
        RangeKind::Absolute => ' ',
    }
}

/// The length of a relative kind's unit, in seconds.
pub open spec fn unit_secs(k: RangeKind) -> int {
    match k {
        RangeKind::BySeconds => 1,
        RangeKind::ByMinutes => 60,
        RangeKind::ByHours => 3600,
        RangeKind::ByDays => 86400,
        RangeKind::Absolute => 1,
    }
}

/// The kind of a bound: relative when it starts with a minus sign and ends
/// with a unit letter, absolute otherwise.
pub open spec fn kind_of(s: Seq<char>) -> RangeKind {
    if s.len() > 0 && s[0] == '-' && s[s.len() - 1] == 'S' {
        RangeKind::BySeconds
    } else if s.len() > 0 && s[0] == '-' && s[s.len() - 1] == 'M' {
        RangeKind::ByMinutes
    } else if s.len() > 0 && s[0] == '-' && s[s.len() - 1] == 'H' {
        RangeKind::ByHours
    } else if s.len() > 0 && s[0] == '-' && s[s.len() - 1] == 'd' {
        RangeKind::ByDays
    } else {
        RangeKind::Absolute
    }
}

/// The kind of a bound, decided by its first and last characters.
fn classify(tp: &str) -> (r: RangeKind)
    ensures
        r == kind_of(tp@),
{
    let n = tp.unicode_len();
    if n == 0 {
        return RangeKind::Absolute;
    }
    if tp.get_char(0) != '-' {
        return RangeKind::Absolute;
    }
    let last = tp.get_char(n - 1);
    if last == 'S' {
        RangeKind::BySeconds
    } else if last == 'M' {
        RangeKind::ByMinutes
    } else if last == 'H' {
        RangeKind::ByHours
    } else if last == 'd' {
        RangeKind::ByDays
    } else {
        RangeKind::Absolute
    }
}

/// `s` with every minus sign and every unit letter removed, in order.
pub open spec fn stripped(s: Seq<char>, unit: char) -> Seq<char>
    decreases s.len(),
{
    if s.len() == 0 {
        Seq::empty()
    } else {
        let p = stripped(s.drop_last(), unit);
        if s.last() == '-' || s.last() == unit {
            p
        } else {
            p.push(s.last())
        }
    }
}

/// Whether `c` is a decimal digit.
pub open spec fn is_digit(c: char) -> bool {
    '0' <= c <= '9'
}

/// Whether every character of `s` is a decimal digit.
pub open spec fn all_digits(s: Seq<char>) -> bool {
    forall|i: int| 0 <= i < s.len() ==> is_digit(s[i])
}

/// The value of a sequence of decimal digits.
pub open spec fn digits_int(s: Seq<char>) -> int
    decreases s.len(),
{
    if s.len() == 0 {
        0
    } else {
        digits_int(s.drop_last()) * 10 + (s.last() as int - '0' as int)
    }
}

/// The amount that a relative bound carries: the value of what is left after
/// stripping minus signs and unit letters, provided that is a nonempty
/// string of digits whose value fits an i64.
pub open spec fn amount_of(s: Seq<char>, unit: char) -> Option<int> {
    let d = stripped(s, unit);
    if d.len() > 0 && all_digits(d) && digits_int(d) <= i64::MAX {
        Option::Some(digits_int(d))
    } else {
        Option::None
    }
}

/// A digit string's value is never negative.
proof fn lemma_digits_nonneg(s: Seq<char>)
    requires
        all_digits(s),
    ensures
        digits_int(s) >= 0,
    decreases s.len(),
{
    if s.len() > 0 {
        assert(all_digits(s.drop_last()));
        lemma_digits_nonneg(s.drop_last());
    }
}

/// A digit string's value only grows as digits are appended.
proof fn lemma_digits_monotone(s: Seq<char>, i: int)
    requires
        all_digits(s),
        0 <= i <= s.len(),
    ensures
        digits_int(s) >= digits_int(s.take(i)),
    decreases s.len(),
{
    if i == s.len() {
        assert(s.take(i) =~= s);
    } else {
        assert(all_digits(s.drop_last()));
        lemma_digits_nonneg(s.drop_last());
        lemma_digits_monotone(s.drop_last(), i);
        assert(s.drop_last().take(i) =~= s.take(i));
    }
}

/// The amount of a relative bound: `None` when what is left after stripping
/// is not a nonempty digit string with a value an i64 can hold.
fn parse_amount(s: &str, unit: char) -> (r: Option<i64>)
    ensures
        match r {
            Option::Some(v) => amount_of(s@, unit) == Option::Some(v as int) && v >= 0,
            Option::None => amount_of(s@, unit) is None,
        },
{
    let n = s.unicode_len();
    let mut kept: Vec<char> = Vec::new();
    let mut i: usize = 0;
    proof {
        assert(s@.take(0) =~= Seq::<char>::empty());
        assert(kept@ =~= stripped(s@.take(0), unit));
    }
    while i < n
        invariant
            n == s@.len(),
            i <= n,
            kept@ == stripped(s@.take(i as int), unit),
        decreases n - i,
    {
        let c = s.get_char(i);
        proof {
            assert(s@.take(i + 1).drop_last() =~= s@.take(i as int));
            assert(s@.take(i + 1).last() == s@[i as int]);
        }
        if c != '-' && c != unit {
            kept.push(c);
        }
        i = i + 1;
    }
    proof {
        assert(s@.take(n as int) =~= s@);
    }
    let m = kept.len();
    if m == 0 {
        return Option::None;
    }
    let ghost d = stripped(s@, unit);
    let mut acc: i64 = 0;
    let mut j: usize = 0;
    proof {
        assert(d.take(0) =~= Seq::<char>::empty());
    }
    while j < m
        invariant
            m == kept@.len(),
            kept@ == d,
            d == stripped(s@, unit),
            0 < m,
            j <= m,
            all_digits(d.take(j as int)),
            acc == digits_int(d.take(j as int)),
            acc >= 0,
        decreases m - j,
    {
        let c = kept[j];
        proof {
            assert(d.take(j + 1).drop_last() =~= d.take(j as int));
            assert(d.take(j + 1).last() == d[j as int]);
        }
        if !(c >= '0' && c <= '9') {
            proof {
                assert(!is_digit(d[j as int]));
                assert(!all_digits(d));
            }
            return Option::None;
        }
        let digit: i64 = (c as u32 - '0' as u32) as i64;
        let next = match acc.checked_mul(10) {
            Option::Some(p) => p.checked_add(digit),
            Option::None => Option::None,
        };
        match next {
            Option::Some(v) => {
                acc = v;
            },
            Option::None => {
                proof {
                    assert(digits_int(d.take(j + 1)) > i64::MAX);
                    if all_digits(d) {
                        lemma_digits_monotone(d, j + 1);
                        assert(digits_int(d) > i64::MAX);
                    }
                }
                return Option::None;
            },
        }
        j = j + 1;
    }
    proof {
        assert(d.take(m as int) =~= d);
    }
    Option::Some(acc)
}

// ------------------------------------------------------------------
// The local clock and the time zone, behind trusted wrappers.
// ------------------------------------------------------------------

/// A local wall-clock time, split into its parts.
#[derive(PartialEq, Eq, Structural, Clone, Copy, Debug)]
pub struct LocalParts {
    pub year: i32,
    pub month: u32,
    pub day: u32,
    pub hour: u32,
    pub minute: u32,
    pub second: u32,
}

/// Relies on chrono's Local::now and the Datelike/Timelike accessors: the
/// month counts from 1 to 12, the day from 1 to 31, the hour is below 24,
/// minute and second below 60. The value depends on the clock and on the
/// machine's time zone, so nothing more is promised.
#[verifier::external_body]
fn local_now_parts() -> (r: LocalParts)
    ensures
        1 <= r.month <= 12,
        1 <= r.day <= 31,
        r.hour < 24,
        r.minute < 60,
        r.second < 60,
{
    let now = chrono::Local::now();
    LocalParts {
        year: chrono::Datelike::year(&now),
        month: chrono::Datelike::month(&now),
        day: chrono::Datelike::day(&now),
        hour: chrono::Timelike::hour(&now),
        minute: chrono::Timelike::minute(&now),
        second: chrono::Timelike::second(&now),
    }
}

/// Relies on chrono's TimeZone::with_ymd_and_hms for the machine's local
/// zone and on DateTime::timestamp: the moment, in epoch seconds, at which
/// the local wall clock shows the given parts; `None` when the parts name
/// no valid date, or no single local moment (around a daylight-saving
/// jump). The result depends on the machine's time zone, so nothing more is
/// promised.
#[verifier::external_body]
fn local_parts_to_epoch(p: &LocalParts) -> (r: Option<i64>) {
    match chrono::TimeZone::with_ymd_and_hms(
        &chrono::Local,
        p.year,
        p.month,
        p.day,
        p.hour,
        p.minute,
        p.second,
    ) {
        chrono::LocalResult::Single(dt) => Some(dt.timestamp()),
        _ => None,
    }
}

/// The moment, in epoch seconds, that a date-time text denotes, or `None`
/// when the text parses as no date-time; chrono decides, and because the
/// text carries its own offset the result is a function of the text alone.
pub uninterp spec fn parsed_moment(s: Seq<char>) -> Option<int>;

/// Relies on chrono's FromStr for DateTime<Local> (a relaxed RFC 3339 with
/// an explicit offset, so the instant does not depend on the machine) and
/// on DateTime::timestamp.
#[verifier::external_body]
fn parse_moment_text(s: &str) -> (r: Option<i64>)
    ensures
        match r {
            Option::Some(m) => parsed_moment(s@) == Option::Some(m as int),
            Option::None => parsed_moment(s@) is None,
        },
{
    match s.parse::<chrono::DateTime<chrono::Local>>() {
        Ok(dt) => Some(dt.timestamp()),
        Err(_) => None,
    }
}

// ------------------------------------------------------------------
// The date range of a time-period pair.
// ------------------------------------------------------------------

/// Why a time-period pair yields no range.
#[derive(PartialEq, Eq, Debug)]
pub enum RangeError {
    /// A relative bound held no usable amount: what is left after stripping
    /// the minus signs and unit letters is not a plain decimal number an
    /// i64 can hold.
    BadAmount { text: String },
    /// An absolute bound did not parse as a date-time.
    BadDateTime { text: String },
    /// The local wall clock named no single moment (a daylight-saving jump
    /// or an invalid date).
    LocalClock,
    /// A shifted moment left the representable range.
    OutOfRange,
}

/// The given parts with everything finer than the kind's unit set to zero.
fn truncate_parts(p: &LocalParts, kind: RangeKind) -> (r: LocalParts)
    requires
        !(kind is Absolute),
    ensures
        kind is BySeconds ==> r == *p,
        kind is ByMinutes ==> r == (LocalParts {
            year: p.year,
            month: p.month,
            day: p.day,
            hour: p.hour,
            minute: p.minute,
            second: 0,
        }),
        kind is ByHours ==> r == (LocalParts {
            year: p.year,
            month: p.month,
            day: p.day,
            hour: p.hour,
            minute: 0,
            second: 0,
        }),
        kind is ByDays ==> r == (LocalParts {
            year: p.year,
            month: p.month,
            day: p.day,
            hour: 0,
            minute: 0,
            second: 0,
        }),
{
    if kind == RangeKind::BySeconds {
        *p
    } else if kind == RangeKind::ByMinutes {
        LocalParts { second: 0, ..*p }
    } else if kind == RangeKind::ByHours {
        LocalParts { minute: 0, second: 0, ..*p }
    } else {
        LocalParts { hour: 0, minute: 0, second: 0, ..*p }
    }
}

/// The base moment shifted back by `n` units: `None` exactly when the
/// product or the difference leaves i64.
fn shift_back(base: i64, n: i64, unit: i64) -> (r: Option<i64>)
    requires
        n >= 0,
        unit >= 1,
    ensures
        match r {
            Option::Some(v) => v == base - n * unit,
            Option::None => n * unit > i64::MAX || base - n * unit < i64::MIN,
        },
{
    match n.checked_mul(unit) {
        Option::Some(p) => base.checked_sub(p),
        Option::None => Option::None,
    }
}

/// The date range that a time-period pair denotes.
///
/// A pair whose first bound is relative (`-30S`, `-5M`, `-2H`, `-1d`) is
/// anchored at the current local wall-clock time truncated to the unit, and
/// each bound is that base minus its own amount of units — so the two
/// bounds always differ by exactly the difference of the amounts. Any other
/// first bound makes the pair absolute: both bounds are parsed as date-time
/// texts. Moments are epoch seconds.
pub fn calc_dt_duration(tp_start: &str, tp_end: &str) -> (r: Result<(i64, i64), RangeError>)
    ensures
        kind_of(tp_start@) is Absolute ==> match r {
            Result::Ok(pair) => parsed_moment(tp_start@) == Option::Some(pair.0 as int)
                && parsed_moment(tp_end@) == Option::Some(pair.1 as int),
            Result::Err(e) => e is BadDateTime && (parsed_moment(tp_start@) is None
                || parsed_moment(tp_end@) is None),
        },
        !(kind_of(tp_start@) is Absolute) ==> match r {
            Result::Ok(pair) => {
                &&& amount_of(tp_start@, unit_char(kind_of(tp_start@))) is Some
                &&& amount_of(tp_end@, unit_char(kind_of(tp_start@))) is Some
                &&& pair.0 as int - pair.1 as int == (amount_of(
                    tp_end@,
                    unit_char(kind_of(tp_start@)),
                )->0 - amount_of(tp_start@, unit_char(kind_of(tp_start@)))->0) * unit_secs(
                    kind_of(tp_start@),
                )
            },
            Result::Err(e) => e is BadAmount <==> (amount_of(
                tp_start@,
                unit_char(kind_of(tp_start@)),
            ) is None || amount_of(tp_end@, unit_char(kind_of(tp_start@))) is None),
        },
{
    let kind = classify(tp_start);
    if kind == RangeKind::Absolute {
        match parse_moment_text(tp_start) {
            Option::Some(a) => match parse_moment_text(tp_end) {
                Option::Some(b) => Result::Ok((a, b)),
                Option::None => Result::Err(RangeError::BadDateTime { text: tp_end.to_owned() }),
            },
            Option::None => Result::Err(RangeError::BadDateTime { text: tp_start.to_owned() }),
        }
    } else {
        let unit_ch: char = if kind == RangeKind::BySeconds {
            'S'
        } else if kind == RangeKind::ByMinutes {
            'M'
        } else if kind == RangeKind::ByHours {
            'H'
        } else {
            'd'
        };
        let unit: i64 = if kind == RangeKind::BySeconds {
            1
        } else if kind == RangeKind::ByMinutes {
            60
        } else if kind == RangeKind::ByHours {
            3600
        } else {
            86400
        };
        proof {
            assert(unit_ch == unit_char(kind_of(tp_start@)));
            assert(unit == unit_secs(kind_of(tp_start@)));
        }
        let n_start = match parse_amount(tp_start, unit_ch) {
            Option::Some(v) => v,
            Option::None => {
                return Result::Err(RangeError::BadAmount { text: tp_start.to_owned() });
            },
        };
        let n_end = match parse_amount(tp_end, unit_ch) {
            Option::Some(v) => v,
            Option::None => {
                return Result::Err(RangeError::BadAmount { text: tp_end.to_owned() });
            },
        };
        let now = local_now_parts();
        let base_parts = truncate_parts(&now, kind);
        let base = match local_parts_to_epoch(&base_parts) {
            Option::Some(b) => b,
            Option::None => {
                return Result::Err(RangeError::LocalClock);
            },
        };
        let start = match shift_back(base, n_start, unit) {
            Option::Some(v) => v,
            Option::None => {
                return Result::Err(RangeError::OutOfRange);
            },
        };
        let end = match shift_back(base, n_end, unit) {
            Option::Some(v) => v,
            Option::None => {
                return Result::Err(RangeError::OutOfRange);
            },
        };
        proof {
            assert((base - n_start as int * unit) - (base - n_end as int * unit) == (n_end as int
                - n_start as int) * unit) by (nonlinear_arith);
        }
        Result::Ok((start, end))
    }
}

} // verus!
