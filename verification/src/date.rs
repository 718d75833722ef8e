//! A minimal proleptic-Gregorian calendar: dates as plain year/month/day
//! values, with a verified day-count model.
//!
//! The model assigns every date a *day index* (`day_index`): the number of
//! days since January 1st of year 1. All ordering, distance and weekday
//! reasoning in the crate reduces to this index. Year 1 starts on a Monday,
//! so a date's weekday is its day index modulo 7.

use vstd::prelude::*;
use vstd::string::StringExecFns;

use crate::errors::MoolahSharedError;
use crate::text::{ascii_lower_seq, ascii_lowercase};

verus! {

/// Smallest year the model covers.
pub const MIN_YEAR: i32 = 1;

/// Largest year the model covers.
pub const MAX_YEAR: i32 = 9999;

/// A calendar date: year, month (1-12) and day of month (1-31).
///
/// The fields are public plain values; [`Date::valid`] says when they name a
/// real calendar date within the supported year range.
#[derive(Debug, Clone, Copy, PartialEq, Eq, Hash, Structural)]
pub struct Date {
    pub year: i32,
    pub month: u8,
    pub day: u8,
}

/// A day of the week, numbered from Monday (1) through Sunday (7).
#[derive(Debug, Clone, Copy, PartialEq, Eq, Hash, Structural)]
pub enum Weekday {
    Mon,
    Tue,
    Wed,
    Thu,
    Fri,
    Sat,
    Sun,
}

/// Whether `y` is a leap year under the Gregorian rules.
pub open spec fn is_leap_year(y: int) -> bool {
    (y % 4 == 0 && y % 100 != 0) || y % 400 == 0
}

/// Number of days in month `m` of year `y` (for 1 <= m <= 12).
pub open spec fn spec_days_in_month(y: int, m: int) -> int {
    if m == 2 {
        if is_leap_year(y) {
            29
        } else {
            28
        }
    } else if m == 4 || m == 6 || m == 9 || m == 11 {
        30
    } else {
        31
    }
}

/// Number of days in year `y`.
pub open spec fn spec_days_in_year(y: int) -> int {
    if is_leap_year(y) {
        366
    } else {
        365
    }
}

/// Days from the start of year 1 up to the start of year `y`.
pub open spec fn days_before_year(y: int) -> int
    decreases y,
{
    if y <= 1 {
        0
    } else {
        days_before_year(y - 1) + spec_days_in_year(y - 1)
    }
}

/// Days from the start of year `y` up to the start of month `m` of that year.
pub open spec fn days_before_month(y: int, m: int) -> int
    decreases m,
{
    if m <= 1 {
        0
    } else {
        days_before_month(y, m - 1) + spec_days_in_month(y, m - 1)
    }
}

impl Date {
    /// The fields name a month and a day that exist in that month, in some
    /// year no earlier than year 1. The year may exceed [`MAX_YEAR`]: this is
    /// the shape invariant kept by date arithmetic while it steps just past
    /// the end of a window.
    pub open spec fn ymd_ok(self) -> bool {
        &&& 1 <= self.year
        &&& 1 <= self.month <= 12
        &&& 1 <= self.day <= spec_days_in_month(self.year as int, self.month as int)
    }

    /// A real calendar date within the supported year range.
    pub open spec fn valid(self) -> bool {
        self.ymd_ok() && self.year <= MAX_YEAR
    }

    /// Days since January 1st of year 1 (which has index 0).
    pub open spec fn day_index(self) -> int {
        days_before_year(self.year as int) + days_before_month(
            self.year as int,
            self.month as int,
        ) + self.day - 1
    }

    /// The day of the week this date falls on, as an index with Monday = 0
    /// through Sunday = 6. January 1st of year 1 is a Monday.
    pub open spec fn weekday_index(self) -> int {
        self.day_index() % 7
    }

    /// Calendar order: years, then months, then days.
    pub open spec fn spec_le(self, other: Date) -> bool {
        if self.year != other.year {
            self.year < other.year
        } else if self.month != other.month {
            self.month < other.month
        } else {
            self.day <= other.day
        }
    }

    /// Strict calendar order.
    pub open spec fn spec_lt(self, other: Date) -> bool {
        self.spec_le(other) && self != other
    }

    /// The date immediately after this one.
    pub open spec fn spec_next(self) -> Date {
        if self.day < spec_days_in_month(self.year as int, self.month as int) {
            Date { year: self.year, month: self.month, day: (self.day + 1) as u8 }
        } else if self.month < 12 {
            Date { year: self.year, month: (self.month + 1) as u8, day: 1 }
        } else {
            Date { year: (self.year + 1) as i32, month: 1, day: 1 }
        }
    }

    /// Builds a date after checking that `year`/`month`/`day` name a real
    /// calendar date in the supported range; `None` otherwise.
    pub fn from_ymd(year: i32, month: u32, day: u32) -> (r: Option<Date>)
        ensures
            match r {
                Some(d) => {
                    &&& d.valid()
                    &&& d.year == year
                    &&& d.month == month
                    &&& d.day == day
                },
                None => !(MIN_YEAR <= year <= MAX_YEAR && 1 <= month <= 12 && 1 <= day
                    <= spec_days_in_month(year as int, month as int)),
            },
    {
        if MIN_YEAR <= year && year <= MAX_YEAR && 1 <= month && month <= 12 {
            let dim = days_in_month(year, month);
            if 1 <= day && day <= dim {
                Some(Date { year, month: month as u8, day: day as u8 })
            } else {
                None
            }
        } else {
            None
        }
    }

    /// `self <= other` in calendar order.
    pub fn le(&self, other: &Date) -> (r: bool)
        ensures
            r == self.spec_le(*other),
    {
        if self.year != other.year {
            self.year < other.year
        } else if self.month != other.month {
            self.month < other.month
        } else {
            self.day <= other.day
        }
    }

    /// `self < other` in calendar order.
    pub fn lt(&self, other: &Date) -> (r: bool)
        ensures
            r == self.spec_lt(*other),
    {
        if self.year != other.year {
            self.year < other.year
        } else if self.month != other.month {
            self.month < other.month
        } else {
            self.day < other.day
        }
    }

    /// The date immediately after this one.
    pub fn next_day(&self) -> (r: Date)
        requires
            self.ymd_ok(),
            self.year <= MAX_YEAR + 1,
        ensures
            r == self.spec_next(),
            r.ymd_ok(),
            r.day_index() == self.day_index() + 1,
    {
        proof {
            lemma_day_index_next(*self);
        }
        let dim = days_in_month(self.year, self.month as u32);
        if (self.day as u32) < dim {
            Date { year: self.year, month: self.month, day: self.day + 1 }
        } else if self.month < 12 {
            Date { year: self.year, month: self.month + 1, day: 1 }
        } else {
            Date { year: self.year + 1, month: 1, day: 1 }
        }
    }

    /// The date `n` days after this one (used for small weekday offsets and
    /// week steps).
    pub fn add_days(&self, n: u32) -> (r: Date)
        requires
            self.ymd_ok(),
            self.year <= MAX_YEAR,
            n <= 7,
        ensures
            r.ymd_ok(),
            r.day_index() == self.day_index() + n,
            r.year <= MAX_YEAR + 1,
    {
        let mut cur = *self;
        let mut i: u32 = 0;
        while i < n
            invariant
                i <= n,
                n <= 7,
                cur.ymd_ok(),
                cur.day_index() == self.day_index() + i,
                self.ymd_ok(),
                self.year <= MAX_YEAR,
                cur.year <= MAX_YEAR + 1,
            decreases n - i,
        {
            cur = cur.next_day();
            i = i + 1;
            proof {
                lemma_day_index_year_bound(cur, *self);
            }
        }
        cur
    }

    /// This date's day index, the distance in days from January 1st of year 1.
    pub fn day_number(&self) -> (n: u32)
        requires
            self.valid(),
        ensures
            n == self.day_index(),
    {
        let mut acc: u32 = 0;
        let mut y: i32 = MIN_YEAR;
        while y < self.year
            invariant
                MIN_YEAR <= y <= self.year,
                self.valid(),
                acc == days_before_year(y as int),
                acc <= 366 * (y - 1),
            decreases self.year - y,
        {
            let diy: u32 = if leap_year(y) {
                366
            } else {
                365
            };
            acc = acc + diy;
            y = y + 1;
        }
        let mut m: u8 = 1;
        while m < self.month
            invariant
                1 <= m <= self.month,
                self.valid(),
                acc == days_before_year(self.year as int) + days_before_month(
                    self.year as int,
                    m as int,
                ),
                acc <= 366 * (self.year - 1) + 31 * (m - 1),
            decreases self.month - m,
        {
            acc = acc + days_in_month(self.year, m as u32);
            m = m + 1;
        }
        acc + (self.day - 1) as u32
    }

    /// The day of the week this date falls on.
    pub fn weekday(&self) -> (w: Weekday)
        requires
            self.valid(),
        ensures
            w.index_from_monday() == self.weekday_index(),
    {
        let n = self.day_number();
        Weekday::from_index(n % 7)
    }
}

impl Weekday {
    /// Days from Monday: Monday = 0 through Sunday = 6.
    pub open spec fn index_from_monday(self) -> int {
        match self {
            Weekday::Mon => 0,
            Weekday::Tue => 1,
            Weekday::Wed => 2,
            Weekday::Thu => 3,
            Weekday::Fri => 4,
            Weekday::Sat => 5,
            Weekday::Sun => 6,
        }
    }

    /// ISO-style weekday number: Monday = 1 through Sunday = 7.
    pub fn number_from_monday(self) -> (n: u32)
        ensures
            n == self.index_from_monday() + 1,
    {
        match self {
            Weekday::Mon => 1,
            Weekday::Tue => 2,
            Weekday::Wed => 3,
            Weekday::Thu => 4,
            Weekday::Fri => 5,
            Weekday::Sat => 6,
            Weekday::Sun => 7,
        }
    }

    /// The weekday's short English name, the form weekly rules are stored
    /// and displayed with.
    pub open spec fn spec_name(self) -> Seq<char> {
        match self {
            Weekday::Mon => "Mon"@,
            Weekday::Tue => "Tue"@,
            Weekday::Wed => "Wed"@,
            Weekday::Thu => "Thu"@,
            Weekday::Fri => "Fri"@,
            Weekday::Sat => "Sat"@,
            Weekday::Sun => "Sun"@,
        }
    }

    /// The weekday's three-letter token, lowercase.
    pub open spec fn spec_short_token(self) -> Seq<char> {
        match self {
            Weekday::Mon => "mon"@,
            Weekday::Tue => "tue"@,
            Weekday::Wed => "wed"@,
            Weekday::Thu => "thu"@,
            Weekday::Fri => "fri"@,
            Weekday::Sat => "sat"@,
            Weekday::Sun => "sun"@,
        }
    }

    /// The weekday's full English name, lowercase.
    pub open spec fn spec_long_token(self) -> Seq<char> {
        match self {
            Weekday::Mon => "monday"@,
            Weekday::Tue => "tuesday"@,
            Weekday::Wed => "wednesday"@,
            Weekday::Thu => "thursday"@,
            Weekday::Fri => "friday"@,
            Weekday::Sat => "saturday"@,
            Weekday::Sun => "sunday"@,
        }
    }

    /// Whether `s` names this weekday: its short or full English name,
    /// compared without regard to ASCII case.
    pub open spec fn token_matches(self, s: Seq<char>) -> bool {
        ascii_lower_seq(s) == self.spec_short_token() || ascii_lower_seq(s)
            == self.spec_long_token()
    }

    /// The weekday's short English name.
    pub fn name(self) -> (r: &'static str)
        ensures
            r@ == self.spec_name(),
    {
        match self {
            Weekday::Mon => "Mon",
            Weekday::Tue => "Tue",
            Weekday::Wed => "Wed",
            Weekday::Thu => "Thu",
            Weekday::Fri => "Fri",
            Weekday::Sat => "Sat",
            Weekday::Sun => "Sun",
        }
    }

    /// Reads a weekday from its short or full English name, ignoring ASCII
    /// case; any other token is rejected.
    pub fn parse(s: &str) -> (r: Result<Weekday, MoolahSharedError>)
        ensures
            r matches Ok(w) ==> w.token_matches(s@),
            r is Err ==> forall|w: Weekday| !w.token_matches(s@),
            r matches Err(e) ==> (e matches MoolahSharedError::RepetitionError(m) && m@
                == "could not convert to weekday"@),
    {
        let lowered = ascii_lowercase(s);
        if str_eq(&lowered, "mon") || str_eq(&lowered, "monday") {
            Ok(Weekday::Mon)
        } else if str_eq(&lowered, "tue") || str_eq(&lowered, "tuesday") {
            Ok(Weekday::Tue)
        } else if str_eq(&lowered, "wed") || str_eq(&lowered, "wednesday") {
            Ok(Weekday::Wed)
        } else if str_eq(&lowered, "thu") || str_eq(&lowered, "thursday") {
            Ok(Weekday::Thu)
        } else if str_eq(&lowered, "fri") || str_eq(&lowered, "friday") {
            Ok(Weekday::Fri)
        } else if str_eq(&lowered, "sat") || str_eq(&lowered, "saturday") {
            Ok(Weekday::Sat)
        } else if str_eq(&lowered, "sun") || str_eq(&lowered, "sunday") {
            Ok(Weekday::Sun)
        } else {
            Err(MoolahSharedError::RepetitionError("could not convert to weekday"))
        }
    }

    /// A weekday's own short name is a token for it, and for no other
    /// weekday: storing a weekday under [`Weekday::name`] and parsing it
    /// back is lossless.
    pub proof fn lemma_name_token(self, other: Weekday)
        ensures
            self.token_matches(self.spec_name()),
            other.token_matches(self.spec_name()) ==> other == self,
    {
        reveal_strlit("Mon");
        reveal_strlit("Tue");
        reveal_strlit("Wed");
        reveal_strlit("Thu");
        reveal_strlit("Fri");
        reveal_strlit("Sat");
        reveal_strlit("Sun");
        reveal_strlit("mon");
        reveal_strlit("tue");
        reveal_strlit("wed");
        reveal_strlit("thu");
        reveal_strlit("fri");
        reveal_strlit("sat");
        reveal_strlit("sun");
        reveal_strlit("monday");
        reveal_strlit("tuesday");
        reveal_strlit("wednesday");
        reveal_strlit("thursday");
        reveal_strlit("friday");
        reveal_strlit("saturday");
        reveal_strlit("sunday");
        match self {
            Weekday::Mon => assert(ascii_lower_seq("Mon"@) =~= "mon"@),
            Weekday::Tue => assert(ascii_lower_seq("Tue"@) =~= "tue"@),
            Weekday::Wed => assert(ascii_lower_seq("Wed"@) =~= "wed"@),
            Weekday::Thu => assert(ascii_lower_seq("Thu"@) =~= "thu"@),
            Weekday::Fri => assert(ascii_lower_seq("Fri"@) =~= "fri"@),
            Weekday::Sat => assert(ascii_lower_seq("Sat"@) =~= "sat"@),
            Weekday::Sun => assert(ascii_lower_seq("Sun"@) =~= "sun"@),
        }
        if other.token_matches(self.spec_name()) && other != self {
            match other {
                Weekday::Mon => assert(other.spec_short_token() == "mon"@
                    && other.spec_long_token() == "monday"@),
                Weekday::Tue => assert(other.spec_short_token() == "tue"@
                    && other.spec_long_token() == "tuesday"@),
                Weekday::Wed => assert(other.spec_short_token() == "wed"@
                    && other.spec_long_token() == "wednesday"@),
                Weekday::Thu => assert(other.spec_short_token() == "thu"@
                    && other.spec_long_token() == "thursday"@),
                Weekday::Fri => assert(other.spec_short_token() == "fri"@
                    && other.spec_long_token() == "friday"@),
                Weekday::Sat => assert(other.spec_short_token() == "sat"@
                    && other.spec_long_token() == "saturday"@),
                Weekday::Sun => assert(other.spec_short_token() == "sun"@
                    && other.spec_long_token() == "sunday"@),
            }
            if ascii_lower_seq(self.spec_name()) == other.spec_short_token() {
                assert(self.spec_short_token()[0] == other.spec_short_token()[0]);
                assert(self.spec_short_token()[1] == other.spec_short_token()[1]);
                assert(self.spec_short_token()[2] == other.spec_short_token()[2]);
            } else {
                assert(self.spec_short_token().len() == other.spec_long_token().len());
            }
            assert(false);
        }
    }

    /// The weekday `i` days after Monday, for `i` in 0..7.
    pub fn from_index(i: u32) -> (w: Weekday)
        requires
            i < 7,
        ensures
            w.index_from_monday() == i,
    {
        if i == 0 {
            Weekday::Mon
        } else if i == 1 {
            Weekday::Tue
        } else if i == 2 {
            Weekday::Wed
        } else if i == 3 {
            Weekday::Thu
        } else if i == 4 {
            Weekday::Fri
        } else if i == 5 {
            Weekday::Sat
        } else {
            Weekday::Sun
        }
    }
}

/// String equality against a literal, through `String` comparison.
fn str_eq(a: &String, b: &str) -> (r: bool)
    ensures
        r == (a@ == b@),
{
    let bs = String::from_str(b);
    *a == bs
}

/// Whether `year` is a leap year.
pub fn leap_year(year: i32) -> (r: bool)
    requires
        year >= 1,
    ensures
        r == is_leap_year(year as int),
{
    (year % 4 == 0 && year % 100 != 0) || year % 400 == 0
}

/// Number of days in month `month` of year `year`, honouring leap years.
pub fn days_in_month(year: i32, month: u32) -> (r: u32)
    requires
        year >= 1,
        1 <= month <= 12,
    ensures
        r == spec_days_in_month(year as int, month as int),
{
    if month == 2 {
        if leap_year(year) {
            29
        } else {
            28
        }
    } else if month == 4 || month == 6 || month == 9 || month == 11 {
        30
    } else {
        31
    }
}

/// `days_before_month` summed over a whole year is the year's length.
proof fn lemma_days_before_month_full_year(y: int)
    ensures
        days_before_month(y, 13) == spec_days_in_year(y),
{
    reveal_with_fuel(days_before_month, 14);
}

/// Stepping one day forward raises the day index by exactly one.
proof fn lemma_day_index_next(d: Date)
    requires
        d.ymd_ok(),
        d.year <= MAX_YEAR + 1,
    ensures
        d.spec_next().ymd_ok(),
        d.spec_next().day_index() == d.day_index() + 1,
{
    let y = d.year as int;
    let m = d.month as int;
    if d.day < spec_days_in_month(y, m) {
    } else if d.month < 12 {
        assert(days_before_month(y, m + 1) == days_before_month(y, m) + spec_days_in_month(y, m));
    } else {
        lemma_days_before_month_full_year(y);
        assert(days_before_month(y, 13) == days_before_month(y, 12) + spec_days_in_month(y, 12));
        assert(days_before_year(y + 1) == days_before_year(y) + spec_days_in_year(y));
    }
}

/// `days_before_year` grows between 365 and 366 days per year.
proof fn lemma_days_before_year_monotone(y1: int, y2: int)
    requires
        1 <= y1 <= y2,
    ensures
        days_before_year(y1) + 365 * (y2 - y1) <= days_before_year(y2) <= days_before_year(y1)
            + 366 * (y2 - y1),
    decreases y2 - y1,
{
    if y1 < y2 {
        lemma_days_before_year_monotone(y1, y2 - 1);
    }
}

/// `days_before_month` grows by whole months, each at least 28 days.
proof fn lemma_days_before_month_monotone(y: int, m1: int, m2: int)
    requires
        1 <= m1 <= m2,
    ensures
        days_before_month(y, m1) <= days_before_month(y, m2),
        m1 < m2 ==> days_before_month(y, m1) + spec_days_in_month(y, m1) <= days_before_month(
            y,
            m2,
        ),
    decreases m2 - m1,
{
    if m1 < m2 {
        lemma_days_before_month_monotone(y, m1 + 1, m2);
    }
}

/// A date's day index lies within its own year's span of indexes.
proof fn lemma_day_index_in_year(d: Date)
    requires
        d.ymd_ok(),
    ensures
        days_before_year(d.year as int) <= d.day_index(),
        d.day_index() < days_before_year(d.year as int + 1),
{
    let y = d.year as int;
    let m = d.month as int;
    lemma_days_before_month_monotone(y, 1, m);
    lemma_days_before_month_monotone(y, m, 13);
    lemma_days_before_month_full_year(y);
}

/// Within the year-bound shape invariant, a date whose index is no larger
/// than that of a date from a valid year is itself from a valid year.
proof fn lemma_day_index_year_bound(d: Date, bound: Date)
    requires
        d.ymd_ok(),
        bound.ymd_ok(),
        bound.year <= MAX_YEAR,
        d.day_index() <= bound.day_index() + 7,
    ensures
        d.year <= MAX_YEAR + 1,
{
    if d.year > MAX_YEAR + 1 {
        lemma_day_index_in_year(d);
        lemma_day_index_in_year(bound);
        lemma_days_before_year_monotone(bound.year as int + 1, d.year as int);
    }
}

/// Calendar order and day-index order agree.
pub proof fn lemma_day_index_order(a: Date, b: Date)
    requires
        a.ymd_ok(),
        b.ymd_ok(),
    ensures
        a.spec_lt(b) <==> a.day_index() < b.day_index(),
        a.spec_le(b) <==> a.day_index() <= b.day_index(),
        a == b <==> a.day_index() == b.day_index(),
{
    lemma_day_index_lt(a, b);
    lemma_day_index_lt(b, a);
}

/// One direction of the order agreement, applied twice above.
proof fn lemma_day_index_lt(a: Date, b: Date)
    requires
        a.ymd_ok(),
        b.ymd_ok(),
    ensures
        a.spec_lt(b) ==> a.day_index() < b.day_index(),
{
    if a.spec_lt(b) {
        let ya = a.year as int;
        let yb = b.year as int;
        if a.year < b.year {
            lemma_day_index_in_year(a);
            lemma_day_index_in_year(b);
            lemma_days_before_year_monotone(ya + 1, yb);
        } else if a.month < b.month {
            lemma_days_before_month_monotone(ya, a.month as int, b.month as int);
        }
    }
}

/// Day indexes are never negative: year 1, January 1st has index 0.
pub proof fn lemma_day_index_nonneg(d: Date)
    requires
        d.ymd_ok(),
    ensures
        d.day_index() >= 0,
{
    lemma_days_before_year_monotone(1, d.year as int);
    lemma_days_before_month_monotone(d.year as int, 1, d.month as int);
}

/// Two well-formed dates with the same day index are the same date.
pub proof fn lemma_day_index_injective(a: Date, b: Date)
    requires
        a.ymd_ok(),
        b.ymd_ok(),
        a.day_index() == b.day_index(),
    ensures
        a == b,
{
    lemma_day_index_order(a, b);
}

} // verus!
