//! Recurrence rules for recurring monetary events, and their expansion into
//! explicit, ordered calendar-date sequences.
//!
//! A [`Repetition`] occurs monthly on a chosen day of month (clipped to the
//! end of shorter months), weekly on a chosen weekday, daily, or exactly
//! once. [`Repetition::dates`] materializes every occurrence within the
//! rule's window; its contract, [`dates_spec`], pins the result down
//! completely, and the lemmas at the end of this module state the laws the
//! expansion obeys.

use vstd::arithmetic::div_mod::{
    lemma_fundamental_div_mod, lemma_fundamental_div_mod_converse, lemma_mod_pos_bound,
};
use vstd::prelude::*;

use crate::date::{days_in_month, spec_days_in_month, Date, Weekday, MAX_YEAR, MIN_YEAR};
use crate::date::{lemma_day_index_injective, lemma_day_index_nonneg, lemma_day_index_order};
use crate::errors::MoolahSharedError;

verus! {

/// A day-of-month selector, always within 1..=31.
#[derive(Debug, Clone, Copy, PartialEq, Eq, Hash, PartialOrd, Ord, Structural)]
pub struct MonthDay(u8);

impl MonthDay {
    /// The selected day, as a number.
    pub closed spec fn spec_value(self) -> int {
        self.0 as int
    }

    /// The selector is within range; [`MonthDay::new`] is the only way to
    /// build one, so this always holds.
    pub closed spec fn wf(self) -> bool {
        1 <= self.0 <= 31
    }

    /// Validates `rep` as a day of month: values outside 1..=31 are rejected
    /// with a `RepetitionError` naming the offending side.
    pub fn new(rep: i16) -> (r: Result<MonthDay, MoolahSharedError>)
        ensures
            (1 <= rep <= 31) <==> r is Ok,
            r matches Ok(d) ==> d.wf() && d.spec_value() == rep,
            rep > 31 ==> (r matches Err(MoolahSharedError::RepetitionError(m)) && m@
                == "month day greater than 31"@),
            rep < 1 ==> (r matches Err(MoolahSharedError::RepetitionError(m)) && m@
                == "month day less than 1"@),
    {
        if rep > 31 {
            Err(MoolahSharedError::RepetitionError("month day greater than 31"))
        } else if rep < 1 {
            Err(MoolahSharedError::RepetitionError("month day less than 1"))
        } else {
            Ok(MonthDay(rep as u8))
        }
    }

    /// The selected day, back as the integer it was validated from.
    pub fn as_i16(self) -> (r: i16)
        ensures
            r == self.spec_value(),
    {
        self.0 as i16
    }

    /// The selected day as an unsigned day-of-month number.
    pub fn as_u32(self) -> (r: u32)
        ensures
            r == self.spec_value(),
    {
        self.0 as u32
    }

    /// Well-formedness is exactly the 1..=31 range of the value.
    pub proof fn lemma_wf_range(self)
        ensures
            self.wf() <==> 1 <= self.spec_value() <= 31,
    {
    }

    /// A selector is nothing but its value: equal values mean equal
    /// selectors.
    pub proof fn lemma_value_injective(self, other: MonthDay)
        requires
            self.spec_value() == other.spec_value(),
        ensures
            self == other,
    {
    }

    /// The selector with its English ordinal suffix: `1st`, `2nd`, `3rd`,
    /// `4th`, ..., with `11th` through `13th` as the exceptions to the
    /// last-digit rule.
    pub fn display(&self) -> (r: String)
        requires
            self.wf(),
        ensures
            r@ == spec_ordinal_text(self.spec_value()),
    {
        let tens: u8 = self.0 / 10;
        let ones: u8 = self.0 % 10;
        let suffix: &'static str = if tens == 1 {
            "th"
        } else if ones == 1 {
            "st"
        } else if ones == 2 {
            "nd"
        } else if ones == 3 {
            "rd"
        } else {
            "th"
        };
        let num: String = if tens == 0 {
            String::from_str(digit_str(ones))
        } else {
            String::from_str(digit_str(tens)).concat(digit_str(ones))
        };
        let out = num.concat(suffix);
        proof {
            assert(out@ =~= spec_ordinal_text(self.spec_value()));
        }
        out
    }
}

/// The decimal digit `n` as a character, for `n` in 0..=9.
pub open spec fn spec_digit_char(n: int) -> char {
    if n == 0 {
        '0'
    } else if n == 1 {
        '1'
    } else if n == 2 {
        '2'
    } else if n == 3 {
        '3'
    } else if n == 4 {
        '4'
    } else if n == 5 {
        '5'
    } else if n == 6 {
        '6'
    } else if n == 7 {
        '7'
    } else if n == 8 {
        '8'
    } else {
        '9'
    }
}

/// `n` written in decimal, for `n` in 1..=99.
pub open spec fn spec_number_text(n: int) -> Seq<char> {
    if n < 10 {
        seq![spec_digit_char(n)]
    } else {
        seq![spec_digit_char(n / 10), spec_digit_char(n % 10)]
    }
}

/// The English ordinal suffix for `n`: `st`, `nd`, `rd` after last digits
/// 1, 2, 3, except for the teens, and `th` everywhere else.
pub open spec fn spec_ordinal_suffix(n: int) -> Seq<char> {
    if n / 10 == 1 {
        "th"@
    } else if n % 10 == 1 {
        "st"@
    } else if n % 10 == 2 {
        "nd"@
    } else if n % 10 == 3 {
        "rd"@
    } else {
        "th"@
    }
}

/// `n` written as an English ordinal.
pub open spec fn spec_ordinal_text(n: int) -> Seq<char> {
    spec_number_text(n) + spec_ordinal_suffix(n)
}

/// The decimal digit `d` as a string slice.
fn digit_str(d: u8) -> (r: &'static str)
    requires
        d <= 9,
    ensures
        r@ == seq![spec_digit_char(d as int)],
{
    proof {
        reveal_strlit("0");
        reveal_strlit("1");
        reveal_strlit("2");
        reveal_strlit("3");
        reveal_strlit("4");
        reveal_strlit("5");
        reveal_strlit("6");
        reveal_strlit("7");
        reveal_strlit("8");
        reveal_strlit("9");
    }
    let r: &'static str = if d == 0 {
        "0"
    } else if d == 1 {
        "1"
    } else if d == 2 {
        "2"
    } else if d == 3 {
        "3"
    } else if d == 4 {
        "4"
    } else if d == 5 {
        "5"
    } else if d == 6 {
        "6"
    } else if d == 7 {
        "7"
    } else if d == 8 {
        "8"
    } else {
        "9"
    };
    proof {
        assert(r@ =~= seq![spec_digit_char(d as int)]);
    }
    r
}

/// A recurrence rule: when a recurring event occurs, and within which window.
///
/// Every variant's dates are plain calendar dates; a rule is well formed
/// ([`Repetition::wf`]) when its dates are valid and its day selector is in
/// range, which construction through [`MonthDay::new`] and
/// [`crate::date::Date::from_ymd`] guarantees.
#[derive(Debug, Clone, Copy, PartialEq, Eq, Hash, Structural)]
pub enum Repetition {
    Monthly { from: Date, to: Date, repeat_on_day: MonthDay },
    Weekly { from: Date, to: Date, repeat_on_weekday: Weekday },
    Daily { from: Date, to: Date },
    Once { on: Date },
}

/// The repetition tag kept by delta records, with the day selector a plain
/// number: day of month for monthly rules, weekday number (Monday = 1
/// through Sunday = 7) for weekly ones.
#[derive(Debug, Clone, Copy, PartialEq, Eq, Structural)]
pub enum DateRepetition {
    Monthly(i16),
    Weekly(i16),
    Daily,
    Once,
}

/// `day` clamped to the length of month `m` of year `y`.
pub open spec fn spec_clip_day(y: int, m: int, day: int) -> int {
    if day <= spec_days_in_month(y, m) {
        day
    } else {
        spec_days_in_month(y, m)
    }
}

/// Months counted from the start of the calendar: January of year `y` has
/// index `12 * y`, so consecutive months have consecutive indexes across
/// year boundaries.
pub open spec fn month_index(y: int, m: int) -> int {
    12 * y + m - 1
}

/// The date that a monthly rule with selector `day` produces in the month
/// with index `t`: the selected day, clipped to the month's last day.
pub open spec fn clipped_at(t: int, day: int) -> Date {
    let y = t / 12;
    let m = t % 12 + 1;
    Date { year: y as i32, month: m as u8, day: spec_clip_day(y, m, day) as u8 }
}

/// The index of the first month whose clipped occurrence is not before
/// `from`: `from`'s own month if the clipped day has not yet passed,
/// otherwise the next month.
pub open spec fn first_monthly_index(from: Date, day: int) -> int {
    if spec_clip_day(from.year as int, from.month as int, day) >= from.day {
        month_index(from.year as int, from.month as int)
    } else {
        month_index(from.year as int, from.month as int) + 1
    }
}

/// The day index of the first occurrence of weekday `w` on or after `from`.
pub open spec fn first_weekly_index(from: Date, w: Weekday) -> int {
    from.day_index() + ((w.index_from_monday() - from.weekday_index()) % 7)
}

/// What the expansion of a monthly rule looks like: element `i` is the
/// clipped occurrence of the `i`-th month starting at
/// [`first_monthly_index`], every element lies within the window, and the
/// month after the last element would fall past `to`.
pub open spec fn monthly_spec(from: Date, to: Date, day: int, s: Seq<Date>) -> bool {
    let t0 = first_monthly_index(from, day);
    &&& forall|i: int| 0 <= i < s.len() ==> #[trigger] s[i] == clipped_at(t0 + i, day)
    &&& forall|i: int| 0 <= i < s.len() ==> (#[trigger] s[i]).valid() && s[i].spec_le(to)
    &&& forall|i: int|
        0 <= i < s.len() ==> month_index((#[trigger] s[i]).year as int, s[i].month as int) == t0 + i
            && s[i].day == spec_clip_day(s[i].year as int, s[i].month as int, day)
    &&& !clipped_at(t0 + s.len(), day).spec_le(to)
}

/// What the expansion of a weekly rule looks like: day indexes start at
/// [`first_weekly_index`] and step by 7, every element lies within the
/// window, and one more step would fall past `to`.
pub open spec fn weekly_spec(from: Date, to: Date, w: Weekday, s: Seq<Date>) -> bool {
    let f = first_weekly_index(from, w);
    &&& forall|i: int|
        0 <= i < s.len() ==> (#[trigger] s[i]).valid() && s[i].day_index() == f + 7 * i
            && s[i].spec_le(to)
    &&& f + 7 * s.len() > to.day_index()
}

/// What the expansion of a daily rule looks like: exactly the contiguous
/// inclusive range of dates from `from` through `to`.
pub open spec fn daily_spec(from: Date, to: Date, s: Seq<Date>) -> bool {
    &&& forall|i: int|
        0 <= i < s.len() ==> (#[trigger] s[i]).valid() && s[i].day_index() == from.day_index() + i
    &&& s.len() == if from.spec_le(to) {
        to.day_index() - from.day_index() + 1
    } else {
        0
    }
}

/// The full functional specification of [`Repetition::dates`].
pub open spec fn dates_spec(r: Repetition, s: Seq<Date>) -> bool {
    match r {
        Repetition::Monthly { from, to, repeat_on_day } => monthly_spec(
            from,
            to,
            repeat_on_day.spec_value(),
            s,
        ),
        Repetition::Weekly { from, to, repeat_on_weekday } => weekly_spec(
            from,
            to,
            repeat_on_weekday,
            s,
        ),
        Repetition::Daily { from, to } => daily_spec(from, to, s),
        Repetition::Once { on } => s.len() == 1 && s[0] == on,
    }
}

/// Decomposing a month index recovers its year and month.
proof fn lemma_month_index_parts(y: int, m: int)
    requires
        1 <= m <= 12,
    ensures
        month_index(y, m) / 12 == y,
        month_index(y, m) % 12 == m - 1,
{
    lemma_fundamental_div_mod_converse(12 * y + m - 1, 12, y, m - 1);
}

/// The day `repeat_on_day` selects in the month of `year`/`month`, clipped
/// to the month's last day when the month is shorter.
pub fn date_ymd_clipped(year: i32, month: u32, day: MonthDay) -> (r: Date)
    requires
        MIN_YEAR <= year,
        1 <= month <= 12,
        day.wf(),
    ensures
        r == clipped_at(month_index(year as int, month as int), day.spec_value()),
        r.ymd_ok(),
        r.year == year && r.month == month,
        r.day == spec_clip_day(year as int, month as int, day.spec_value()),
    {
        proof {
            lemma_month_index_parts(year as int, month as int);
        }
        let dim = days_in_month(year, month);
        let d = day.as_u32();
        let clipped = if d <= dim {
            d
        } else {
            dim
        };
        Date { year, month: month as u8, day: clipped as u8 }
    }

impl Repetition {
    /// The rule's dates are real calendar dates and its selector is in range.
    pub open spec fn wf(self) -> bool {
        match self {
            Repetition::Monthly { from, to, repeat_on_day } => from.valid() && to.valid()
                && repeat_on_day.wf(),
            Repetition::Weekly { from, to, repeat_on_weekday } => from.valid() && to.valid(),
            Repetition::Daily { from, to } => from.valid() && to.valid(),
            Repetition::Once { on } => on.valid(),
        }
    }

    /// The plain summary tag kept by delta records: the kind, with the day
    /// selector reduced to its number (day of month, or weekday counted
    /// from Monday = 1).
    pub fn summary(&self) -> (r: DateRepetition)
        ensures
            match *self {
                Repetition::Monthly { repeat_on_day, .. } => r matches DateRepetition::Monthly(d)
                    && d == repeat_on_day.spec_value(),
                Repetition::Weekly { repeat_on_weekday, .. } => r matches DateRepetition::Weekly(d)
                    && d == repeat_on_weekday.index_from_monday() + 1,
                Repetition::Daily { .. } => r == DateRepetition::Daily,
                Repetition::Once { .. } => r == DateRepetition::Once,
            },
    {
        match self {
            Repetition::Monthly { repeat_on_day, .. } => DateRepetition::Monthly(
                repeat_on_day.as_i16(),
            ),
            Repetition::Weekly { repeat_on_weekday, .. } => DateRepetition::Weekly(
                repeat_on_weekday.number_from_monday() as i16,
            ),
            Repetition::Daily { .. } => DateRepetition::Daily,
            Repetition::Once { .. } => DateRepetition::Once,
        }
    }

    /// Every occurrence of the rule, in ascending calendar order.
    ///
    /// Total over well-formed rules: a window with `to` before the first
    /// occurrence yields the empty sequence rather than an error.
    pub fn dates(&self) -> (r: Vec<Date>)
        requires
            self.wf(),
        ensures
            dates_spec(*self, r@),
    {
        match self {
            Repetition::Monthly { from, to, repeat_on_day } => monthly_dates(
                from,
                to,
                *repeat_on_day,
            ),
            Repetition::Weekly { from, to, repeat_on_weekday } => weekly_dates(
                from,
                to,
                *repeat_on_weekday,
            ),
            Repetition::Daily { from, to } => daily_dates(from, to),
            Repetition::Once { on } => {
                let mut out: Vec<Date> = Vec::new();
                out.push(*on);
                out
            },
        }
    }
}

/// Expands a monthly rule: the clipped occurrence of each month, starting
/// with `from`'s month (or the next, when `from` already lies past the
/// clipped day), for as long as the occurrences stay within the window.
fn monthly_dates(from: &Date, to: &Date, day: MonthDay) -> (r: Vec<Date>)
    requires
        from.valid(),
        to.valid(),
        day.wf(),
    ensures
        monthly_spec(*from, *to, day.spec_value(), r@),
{
    let ghost t0 = first_monthly_index(*from, day.spec_value());
    let mut y: i32 = from.year;
    let mut m: u8 = from.month;
    let c0 = date_ymd_clipped(y, m as u32, day);
    if c0.lt(from) {
        if m == 12 {
            y = y + 1;
            m = 1;
        } else {
            m = m + 1;
        }
    }
    let mut out: Vec<Date> = Vec::new();
    let mut cur = date_ymd_clipped(y, m as u32, day);
    while cur.le(to)
        invariant
            from.valid(),
            to.valid(),
            day.wf(),
            1 <= m <= 12,
            MIN_YEAR <= y <= MAX_YEAR + 1,
            month_index(y as int, m as int) == t0 + out.len(),
            cur == clipped_at(t0 + out.len(), day.spec_value()),
            cur.ymd_ok() && cur.year == y && cur.month == m,
            cur.day == spec_clip_day(y as int, m as int, day.spec_value()),
            forall|i: int|
                0 <= i < out.len() ==> #[trigger] out[i] == clipped_at(t0 + i, day.spec_value()),
            forall|i: int| 0 <= i < out.len() ==> (#[trigger] out[i]).valid() && out[i].spec_le(*to),
            forall|i: int|
                0 <= i < out.len() ==> month_index((#[trigger] out[i]).year as int,
                out[i].month as int) == t0 + i && out[i].day == spec_clip_day(
                    out[i].year as int,
                    out[i].month as int,
                    day.spec_value(),
                ),
        decreases 12 * to.year + to.month + 1 - 12 * y - m,
    {
        out.push(cur);
        if m == 12 {
            y = y + 1;
            m = 1;
        } else {
            m = m + 1;
        }
        cur = date_ymd_clipped(y, m as u32, day);
    }
    out
}

/// Expands a daily rule: every calendar day from `from` through `to`.
fn daily_dates(from: &Date, to: &Date) -> (r: Vec<Date>)
    requires
        from.valid(),
        to.valid(),
    ensures
        daily_spec(*from, *to, r@),
{
    let mut out: Vec<Date> = Vec::new();
    let mut cur = *from;
    while cur.le(to)
        invariant
            from.valid(),
            to.valid(),
            cur.ymd_ok(),
            cur.year <= MAX_YEAR + 1,
            cur.day_index() == from.day_index() + out.len(),
            out.len() > 0 ==> from.day_index() + out.len() - 1 <= to.day_index(),
            forall|i: int|
                0 <= i < out.len() ==> (#[trigger] out[i]).valid() && out[i].day_index()
                    == from.day_index() + i,
        decreases to.day_index() + 1 - cur.day_index(),
    {
        proof {
            lemma_day_index_order(cur, *to);
        }
        out.push(cur);
        cur = cur.next_day();
    }
    proof {
        lemma_day_index_order(cur, *to);
        lemma_day_index_order(*from, *to);
    }
    out
}

/// Expands a weekly rule: the first occurrence of the target weekday on or
/// after `from`, then every 7th day while the window lasts.
fn weekly_dates(from: &Date, to: &Date, w: Weekday) -> (r: Vec<Date>)
    requires
        from.valid(),
        to.valid(),
    ensures
        weekly_spec(*from, *to, w, r@),
{
    let ghost f = first_weekly_index(*from, w);
    let wd_from = from.day_number() % 7;
    let target = w.number_from_monday() - 1;
    let offset = if target >= wd_from {
        target - wd_from
    } else {
        target + 7 - wd_from
    };
    proof {
        lemma_weekday_offset(*from, w, offset as int);
    }
    let mut out: Vec<Date> = Vec::new();
    let mut cur = from.add_days(offset);
    while cur.le(to)
        invariant
            from.valid(),
            to.valid(),
            cur.ymd_ok(),
            cur.year <= MAX_YEAR + 1,
            cur.day_index() == f + 7 * out.len(),
            forall|i: int|
                0 <= i < out.len() ==> (#[trigger] out[i]).valid() && out[i].day_index() == f + 7
                    * i && out[i].spec_le(*to),
        decreases to.day_index() + 7 - cur.day_index(),
    {
        proof {
            lemma_day_index_order(cur, *to);
        }
        out.push(cur);
        cur = cur.add_days(7);
    }
    proof {
        lemma_day_index_order(cur, *to);
    }
    out
}

/// The weekday offset computed with branch-on-sign arithmetic equals the
/// modulo-7 offset in [`first_weekly_index`].
proof fn lemma_weekday_offset(from: Date, w: Weekday, offset: int)
    requires
        from.ymd_ok(),
        0 <= offset < 7,
        offset == w.index_from_monday() - from.weekday_index() || offset == w.index_from_monday()
            - from.weekday_index() + 7,
    ensures
        offset == (w.index_from_monday() - from.weekday_index()) % 7,
{
    let d = w.index_from_monday() - from.weekday_index();
    if offset == d {
        lemma_fundamental_div_mod_converse(d, 7, 0, d);
    } else {
        lemma_fundamental_div_mod_converse(d, 7, -1, d + 7);
    }
}

/// The modulo-7 phase arithmetic behind weekly rules: the offset added to
/// reach the target weekday is in 0..7, and every 7th day from there keeps
/// the weekday `t`.
proof fn lemma_weekly_phase(idx: int, t: int, i: int)
    requires
        idx >= 0,
        0 <= t < 7,
        i >= 0,
    ensures
        0 <= (t - idx % 7) % 7 < 7,
        (idx + ((t - idx % 7) % 7) + 7 * i) % 7 == t,
{
    lemma_mod_pos_bound(idx, 7);
    let r = idx % 7;
    let q = (t - r) % 7;
    if t >= r {
        lemma_fundamental_div_mod_converse(t - r, 7, 0, t - r);
    } else {
        lemma_fundamental_div_mod_converse(t - r, 7, -1, t - r + 7);
    }
    lemma_fundamental_div_mod(idx, 7);
    let k = idx / 7;
    if t >= r {
        assert(idx + q + 7 * i == 7 * (k + i) + t);
        lemma_fundamental_div_mod_converse(idx + q + 7 * i, 7, k + i, t);
    } else {
        assert(idx + q + 7 * i == 7 * (k + i + 1) + t);
        lemma_fundamental_div_mod_converse(idx + q + 7 * i, 7, k + i + 1, t);
    }
}

/// Expansion is a function of the rule alone: any two sequences meeting
/// [`dates_spec`] for the same well-formed rule are identical, so expanding
/// a rule twice always yields the same dates.
pub proof fn lemma_dates_deterministic(r: Repetition, s1: Seq<Date>, s2: Seq<Date>)
    requires
        r.wf(),
        dates_spec(r, s1),
        dates_spec(r, s2),
    ensures
        s1 == s2,
{
    match r {
        Repetition::Monthly { from, to, repeat_on_day } => {
            let d = repeat_on_day.spec_value();
            let t0 = first_monthly_index(from, d);
            assert(s1.len() == s2.len()) by {
                if s1.len() < s2.len() {
                    assert(s2[s1.len() as int] == clipped_at(t0 + s1.len(), d));
                    assert(s2[s1.len() as int].spec_le(to));
                }
                if s2.len() < s1.len() {
                    assert(s1[s2.len() as int] == clipped_at(t0 + s2.len(), d));
                    assert(s1[s2.len() as int].spec_le(to));
                }
            }
            assert forall|i: int| 0 <= i < s1.len() implies s1[i] == s2[i] by {
                assert(s1[i] == clipped_at(t0 + i, d));
                assert(s2[i] == clipped_at(t0 + i, d));
            }
            assert(s1 =~= s2);
        },
        Repetition::Weekly { from, to, repeat_on_weekday } => {
            let f = first_weekly_index(from, repeat_on_weekday);
            assert(s1.len() == s2.len()) by {
                if s1.len() < s2.len() {
                    let i = s1.len() as int;
                    assert(s2[i].valid() && s2[i].day_index() == f + 7 * i && s2[i].spec_le(to));
                    lemma_day_index_order(s2[i], to);
                }
                if s2.len() < s1.len() {
                    let i = s2.len() as int;
                    assert(s1[i].valid() && s1[i].day_index() == f + 7 * i && s1[i].spec_le(to));
                    lemma_day_index_order(s1[i], to);
                }
            }
            assert forall|i: int| 0 <= i < s1.len() implies s1[i] == s2[i] by {
                assert(s1[i].valid() && s1[i].day_index() == f + 7 * i);
                assert(s2[i].valid() && s2[i].day_index() == f + 7 * i);
                lemma_day_index_injective(s1[i], s2[i]);
            }
            assert(s1 =~= s2);
        },
        Repetition::Daily { from, to } => {
            assert forall|i: int| 0 <= i < s1.len() implies s1[i] == s2[i] by {
                assert(s1[i].valid() && s1[i].day_index() == from.day_index() + i);
                assert(s2[i].valid() && s2[i].day_index() == from.day_index() + i);
                lemma_day_index_injective(s1[i], s2[i]);
            }
            assert(s1 =~= s2);
        },
        Repetition::Once { on } => {
            assert(s1[0] == on && s2[0] == on);
            assert(s1 =~= s2);
        },
    }
}

/// The expansion is strictly ascending: no duplicates, and every date comes
/// strictly before the next, for all four rule kinds.
pub proof fn lemma_dates_ascending(r: Repetition, s: Seq<Date>)
    requires
        r.wf(),
        dates_spec(r, s),
    ensures
        forall|i: int, j: int| 0 <= i < j < s.len() ==> s[i].spec_lt(s[j]),
{
    match r {
        Repetition::Monthly { from, to, repeat_on_day } => {
            let d = repeat_on_day.spec_value();
            let t0 = first_monthly_index(from, d);
            assert forall|i: int, j: int| 0 <= i < j < s.len() implies s[i].spec_lt(s[j]) by {
                assert(s[i].valid() && month_index(s[i].year as int, s[i].month as int) == t0 + i);
                assert(s[j].valid() && month_index(s[j].year as int, s[j].month as int) == t0 + j);
                assert(s[i].year < s[j].year || (s[i].year == s[j].year && s[i].month
                    < s[j].month));
            }
        },
        Repetition::Weekly { from, to, repeat_on_weekday } => {
            let f = first_weekly_index(from, repeat_on_weekday);
            assert forall|i: int, j: int| 0 <= i < j < s.len() implies s[i].spec_lt(s[j]) by {
                assert(s[i].valid() && s[i].day_index() == f + 7 * i);
                assert(s[j].valid() && s[j].day_index() == f + 7 * j);
                lemma_day_index_order(s[i], s[j]);
            }
        },
        Repetition::Daily { from, to } => {
            assert forall|i: int, j: int| 0 <= i < j < s.len() implies s[i].spec_lt(s[j]) by {
                assert(s[i].valid() && s[i].day_index() == from.day_index() + i);
                assert(s[j].valid() && s[j].day_index() == from.day_index() + j);
                lemma_day_index_order(s[i], s[j]);
            }
        },
        Repetition::Once { on } => {},
    }
}

/// Every date of a monthly expansion carries the selected day of month,
/// clipped to the month's last day when the month is shorter.
pub proof fn lemma_monthly_clipped_days(from: Date, to: Date, day: MonthDay, s: Seq<Date>)
    requires
        from.valid(),
        to.valid(),
        day.wf(),
        monthly_spec(from, to, day.spec_value(), s),
    ensures
        forall|i: int|
            0 <= i < s.len() ==> (#[trigger] s[i]).day == if day.spec_value()
                <= spec_days_in_month(s[i].year as int, s[i].month as int) {
                day.spec_value()
            } else {
                spec_days_in_month(s[i].year as int, s[i].month as int)
            },
{
}

/// Every date of a weekly expansion falls on the selected weekday.
pub proof fn lemma_weekly_on_weekday(from: Date, to: Date, w: Weekday, s: Seq<Date>)
    requires
        from.valid(),
        to.valid(),
        weekly_spec(from, to, w, s),
    ensures
        forall|i: int|
            0 <= i < s.len() ==> (#[trigger] s[i]).weekday_index() == w.index_from_monday(),
{
    assert forall|i: int|
        0 <= i < s.len() implies (#[trigger] s[i]).weekday_index()
        == w.index_from_monday() by {
        lemma_day_index_nonneg(from);
        lemma_weekly_phase(from.day_index(), w.index_from_monday(), i);
        assert(s[i].day_index() == first_weekly_index(from, w) + 7 * i);
    }
}

/// `d` lies within the window of rule `r`: on or after the start, and on or
/// before the end (for a one-time rule, `d` is its single date).
pub open spec fn within_window(r: Repetition, d: Date) -> bool {
    match r {
        Repetition::Monthly { from, to, .. } => from.spec_le(d) && d.spec_le(to),
        Repetition::Weekly { from, to, .. } => from.spec_le(d) && d.spec_le(to),
        Repetition::Daily { from, to } => from.spec_le(d) && d.spec_le(to),
        Repetition::Once { on } => d == on,
    }
}

/// Every emitted date lies within the rule's window: an occurrence earlier
/// than the start is never emitted, and nothing past the end is.
pub proof fn lemma_dates_within_window(r: Repetition, s: Seq<Date>)
    requires
        r.wf(),
        dates_spec(r, s),
    ensures
        forall|i: int| 0 <= i < s.len() ==> within_window(r, #[trigger] s[i]),
{
    match r {
        Repetition::Monthly { from, to, repeat_on_day } => {
            let dv = repeat_on_day.spec_value();
            let t0 = first_monthly_index(from, dv);
            assert forall|i: int| 0 <= i < s.len() implies within_window(r, #[trigger] s[i]) by {
                assert(s[i].valid() && s[i].spec_le(to));
                assert(month_index(s[i].year as int, s[i].month as int) == t0 + i);
                assert(s[i].day == spec_clip_day(s[i].year as int, s[i].month as int, dv));
                if t0 + i == month_index(from.year as int, from.month as int) {
                    assert(s[i].year == from.year && s[i].month == from.month);
                    assert(spec_clip_day(from.year as int, from.month as int, dv) >= from.day);
                } else {
                    assert(s[i].year > from.year || (s[i].year == from.year && s[i].month
                        > from.month));
                }
            }
        },
        Repetition::Weekly { from, to, repeat_on_weekday } => {
            let f = first_weekly_index(from, repeat_on_weekday);
            assert forall|i: int| 0 <= i < s.len() implies within_window(r, #[trigger] s[i]) by {
                lemma_day_index_nonneg(from);
                lemma_weekly_phase(from.day_index(), repeat_on_weekday.index_from_monday(), 0);
                assert(s[i].valid() && s[i].day_index() == f + 7 * i && s[i].spec_le(to));
                lemma_day_index_order(from, s[i]);
            }
        },
        Repetition::Daily { from, to } => {
            assert forall|i: int| 0 <= i < s.len() implies within_window(r, #[trigger] s[i]) by {
                assert(s[i].valid() && s[i].day_index() == from.day_index() + i);
                lemma_day_index_order(from, s[i]);
                lemma_day_index_order(s[i], to);
            }
        },
        Repetition::Once { on } => {},
    }
}

/// A window that ends before it starts produces no dates at all, for every
/// bounded rule kind: degenerate bounds are tolerated, not an error.
pub proof fn lemma_degenerate_window_empty(r: Repetition, s: Seq<Date>)
    requires
        r.wf(),
        dates_spec(r, s),
        match r {
            Repetition::Monthly { from, to, .. } => to.spec_lt(from),
            Repetition::Weekly { from, to, .. } => to.spec_lt(from),
            Repetition::Daily { from, to } => to.spec_lt(from),
            Repetition::Once { .. } => false,
        },
    ensures
        s.len() == 0,
{
    match r {
        Repetition::Monthly { from, to, repeat_on_day } => {
            let d = repeat_on_day.spec_value();
            let t0 = first_monthly_index(from, d);
            if s.len() > 0 {
                assert(s[0].valid() && s[0].spec_le(to));
                assert(month_index(s[0].year as int, s[0].month as int) == t0 && s[0].day
                    == spec_clip_day(s[0].year as int, s[0].month as int, d));
                assert(s[0].spec_lt(from));
                if t0 == month_index(from.year as int, from.month as int) {
                    assert(s[0].year == from.year && s[0].month == from.month);
                } else {
                    assert(s[0].year > from.year || (s[0].year == from.year && s[0].month
                        > from.month));
                }
            }
        },
        Repetition::Weekly { from, to, repeat_on_weekday } => {
            if s.len() > 0 {
                lemma_day_index_nonneg(from);
                lemma_weekly_phase(from.day_index(), repeat_on_weekday.index_from_monday(), 0);
                lemma_day_index_order(to, from);
                assert(s[0].valid() && s[0].day_index() == first_weekly_index(
                    from,
                    repeat_on_weekday,
                ) && s[0].spec_le(to));
                lemma_day_index_order(s[0], to);
            }
        },
        Repetition::Daily { from, to } => {
            lemma_day_index_order(to, from);
        },
        Repetition::Once { on } => {},
    }
}

} // verus!

