use crate::text::padded_decimal;
use crate::text::push_padded;
use crate::text::string_of;
use chrono::Datelike;
use chrono::NaiveDate;
use chrono::TimeDelta;
use vstd::prelude::*;

verus! {

/// First year that a [`Date`] can hold.
pub const MIN_YEAR: i32 = 0;

/// Last year that a [`Date`] can hold.
pub const MAX_YEAR: i32 = 9999;

/// Day number of the first day of `MIN_YEAR`.
pub const MIN_DAY: i32 = -365;

/// Day number of the last day of `MAX_YEAR`.
pub const MAX_DAY: i32 = 3652059;

/// Leap years of the proleptic Gregorian calendar.
pub open spec fn is_leap_year(year: int) -> bool {
    year % 4 == 0 && (year % 100 != 0 || year % 400 == 0)
}

/// Number of days of a month; 30 for a month number outside 1 to 12.
pub open spec fn month_length(year: int, month: int) -> int {
    if month == 1 || month == 3 || month == 5 || month == 7 || month == 8 || month == 10 || month
        == 12 {
        31
    } else if month == 2 {
        if is_leap_year(year) {
            29
        } else {
            28
        }
    } else {
        30
    }
}

/// Number of days from 0001-01-01 up to, and without, the first day of `year`.
pub open spec fn days_before_year(year: int) -> int {
    365 * (year - 1) + (year - 1) / 4 - (year - 1) / 100 + (year - 1) / 400
}

/// Number of days of `year` that lie before the first day of `month`.
pub open spec fn days_before_month(year: int, month: int) -> int {
    let leap: int = if is_leap_year(year) {
        1
    } else {
        0
    };
    if month <= 1 {
        0
    } else if month == 2 {
        31
    } else if month == 3 {
        59 + leap
    } else if month == 4 {
        90 + leap
    } else if month == 5 {
        120 + leap
    } else if month == 6 {
        151 + leap
    } else if month == 7 {
        181 + leap
    } else if month == 8 {
        212 + leap
    } else if month == 9 {
        243 + leap
    } else if month == 10 {
        273 + leap
    } else if month == 11 {
        304 + leap
    } else {
        334 + leap
    }
}

/// A year, a month and a day as mathematical integers: the model of a [`Date`].
pub struct Ymd {
    pub year: int,
    pub month: int,
    pub day: int,
}

impl Ymd {
    /// The month is 1 to 12 and the day exists in that month.
    pub open spec fn is_civil(self) -> bool {
        1 <= self.month <= 12 && 1 <= self.day <= month_length(self.year, self.month)
    }

    /// A civil date whose year a [`Date`] can hold.
    pub open spec fn is_valid(self) -> bool {
        self.is_civil() && MIN_YEAR <= self.year <= MAX_YEAR
    }

    /// Days since 0000-12-31: 0001-01-01 is day 1.
    pub open spec fn day_number(self) -> int {
        days_before_year(self.year) + days_before_month(self.year, self.month) + self.day
    }

    /// Day of the week, 0 for Monday to 6 for Sunday.
    pub open spec fn weekday_index(self) -> int {
        (self.day_number() + 6) % 7
    }

    /// Months since January of year 0.
    pub open spec fn month_index(self) -> int {
        self.year * 12 + self.month - 1
    }

    /// Earlier in the calendar: by year, then month, then day.
    pub open spec fn precedes(self, other: Ymd) -> bool {
        self.year < other.year || (self.year == other.year && (self.month < other.month || (
        self.month == other.month && self.day < other.day)))
    }
}

/// One more year adds 365 days, or 366 after a leap year.
pub proof fn lemma_year_step(year: int)
    ensures
        days_before_year(year + 1) == days_before_year(year) + 365 + if is_leap_year(year) {
            1int
        } else {
            0int
        },
{
}

/// Later years start later, by at least 365 days a year.
pub proof fn lemma_years_grow(a: int, b: int)
    requires
        a <= b,
    ensures
        days_before_year(a) + 365 * (b - a) <= days_before_year(b),
    decreases b - a,
{
    if a < b {
        lemma_years_grow(a, b - 1);
        lemma_year_step(b - 1);
    }
}

/// The day of a civil date counts from 1 to the length of its year.
pub proof fn lemma_day_of_year_bounds(d: Ymd)
    requires
        d.is_civil(),
    ensures
        1 <= days_before_month(d.year, d.month) + d.day <= 365 + if is_leap_year(d.year) {
            1int
        } else {
            0int
        },
{
}

/// The day number grows with the calendar order.
pub proof fn lemma_day_number_monotone(a: Ymd, b: Ymd)
    requires
        a.is_civil(),
        b.is_civil(),
        a.precedes(b),
    ensures
        a.day_number() < b.day_number(),
{
    lemma_day_of_year_bounds(a);
    lemma_day_of_year_bounds(b);
    if a.year < b.year {
        lemma_year_step(a.year);
        lemma_years_grow(a.year + 1, b.year);
    }
}

/// Two civil dates with the same day number are the same date.
pub proof fn lemma_day_number_injective(a: Ymd, b: Ymd)
    requires
        a.is_civil(),
        b.is_civil(),
        a.day_number() == b.day_number(),
    ensures
        a == b,
{
    if a.precedes(b) {
        lemma_day_number_monotone(a, b);
    } else if b.precedes(a) {
        lemma_day_number_monotone(b, a);
    }
}

/// The order of day numbers is the calendar order.
pub proof fn lemma_order_by_day_number(a: Ymd, b: Ymd)
    requires
        a.is_civil(),
        b.is_civil(),
    ensures
        a.precedes(b) <==> a.day_number() < b.day_number(),
{
    if a.precedes(b) {
        lemma_day_number_monotone(a, b);
    } else if b.precedes(a) {
        lemma_day_number_monotone(b, a);
    }
}

/// The valid date with the day number `n`.
pub open spec fn day_with_number(n: int) -> Ymd {
    choose|d: Ymd| d.is_valid() && d.day_number() == n
}

/// A valid date is the valid date with its day number.
pub proof fn lemma_day_with_number(d: Ymd)
    requires
        d.is_valid(),
    ensures
        day_with_number(d.day_number()) == d,
{
    lemma_day_number_injective(d, day_with_number(d.day_number()));
}

/// A civil date lies in the years of a [`Date`] exactly when its day number
/// lies between `MIN_DAY` and `MAX_DAY`.
pub proof fn lemma_range_by_day_number(d: Ymd)
    requires
        d.is_civil(),
    ensures
        d.is_valid() <==> MIN_DAY <= d.day_number() <= MAX_DAY,
{
    lemma_day_of_year_bounds(d);
    if d.year < 0 {
        lemma_year_step(d.year);
        lemma_years_grow(d.year + 1, 0);
    } else if d.year > 9999 {
        lemma_years_grow(10000, d.year);
    } else {
        lemma_years_grow(0, d.year);
        lemma_year_step(d.year);
        lemma_years_grow(d.year + 1, 10000);
    }
}

/// A date written as `YYYY-MM-DD`.
pub open spec fn iso_text(d: Ymd) -> Seq<char> {
    padded_decimal(d.year as nat, 4) + seq!['-'] + padded_decimal(d.month as nat, 2) + seq!['-']
        + padded_decimal(d.day as nat, 2)
}

/// The English short name of a day of the week, 0 for Monday to 6 for Sunday.
pub open spec fn weekday_name(index: int) -> Seq<char> {
    if index == 0 {
        seq!['M', 'o', 'n']
    } else if index == 1 {
        seq!['T', 'u', 'e']
    } else if index == 2 {
        seq!['W', 'e', 'd']
    } else if index == 3 {
        seq!['T', 'h', 'u']
    } else if index == 4 {
        seq!['F', 'r', 'i']
    } else if index == 5 {
        seq!['S', 'a', 't']
    } else {
        seq!['S', 'u', 'n']
    }
}

/// A civil date of the proleptic Gregorian calendar, from year 0 to year 9999.
#[derive(Clone, Copy, Debug, PartialEq, Eq, Structural)]
pub struct Date {
    pub(crate) year: i32,
    pub(crate) month: u32,
    pub(crate) day: u32,
}

impl View for Date {
    type V = Ymd;

    closed spec fn view(&self) -> Ymd {
        Ymd { year: self.year as int, month: self.month as int, day: self.day as int }
    }
}

/// Whether `year` is a leap year.
pub fn leap_year(year: i32) -> (r: bool)
    ensures
        r == is_leap_year(year as int),
{
    // A multiple of 400 that makes every `i32` year positive.
    let shifted: i64 = year as i64 + 2147484000;
    assert(shifted == year + 400 * 5368710);
    shifted % 4 == 0 && (shifted % 100 != 0 || shifted % 400 == 0)
}

/// Number of days of a month; 30 for a month number outside 1 to 12.
pub fn days_in_month(year: i32, month: u32) -> (n: u32)
    ensures
        n == month_length(year as int, month as int),
{
    match month {
        1 | 3 | 5 | 7 | 8 | 10 | 12 => 31,
        4 | 6 | 9 | 11 => 30,
        2 => {
            if leap_year(year) {
                29
            } else {
                28
            }
        },
        _ => 30,
    }
}

/// `chrono::NaiveDate::checked_add_signed` with `chrono::TimeDelta::try_days`:
/// the civil date that lies `days` days after the given one. The date that
/// comes back is a civil date whose day number is the sum, and one comes back
/// whenever that sum is the day number of a date from year 0 to year 9999.
#[verifier::external_body]
fn civil_after(year: i32, month: u32, day: u32, days: i64) -> (r: Option<(i32, u32, u32)>)
    requires
        (Ymd { year: year as int, month: month as int, day: day as int }).is_valid(),
    ensures
        r matches Some(t) ==> {
            let moved = Ymd { year: t.0 as int, month: t.1 as int, day: t.2 as int };
            let start = Ymd { year: year as int, month: month as int, day: day as int };
            moved.is_civil() && moved.day_number() == start.day_number() + days
        },
        MIN_DAY <= (Ymd { year: year as int, month: month as int, day: day as int }).day_number()
            + days <= MAX_DAY ==> r is Some,
{
    let start = NaiveDate::from_ymd_opt(year, month, day)?;
    let moved = start.checked_add_signed(TimeDelta::try_days(days)?)?;
    Some((moved.year(), moved.month(), moved.day()))
}

impl Date {
    /// Every `Date` is a valid date.
    #[verifier::type_invariant]
    pub open spec fn inv(self) -> bool {
        self@.is_valid()
    }

    /// The year, from 0 to 9999.
    pub fn year(&self) -> (y: i32)
        ensures
            y == self@.year,
            self@.is_valid(),
    {
        proof {
            use_type_invariant(self);
        }
        self.year
    }

    /// The month, from 1 to 12.
    pub fn month(&self) -> (m: u32)
        ensures
            m == self@.month,
            self@.is_valid(),
    {
        proof {
            use_type_invariant(self);
        }
        self.month
    }

    /// The day of the month, from 1 on.
    pub fn day(&self) -> (d: u32)
        ensures
            d == self@.day,
            self@.is_valid(),
    {
        proof {
            use_type_invariant(self);
        }
        self.day
    }

    /// The date with this year, month and day, if there is one from year 0 to
    /// year 9999.
    pub fn from_ymd_opt(year: i32, month: u32, day: u32) -> (r: Option<Date>)
        ensures
            r is Some <==> (Ymd { year: year as int, month: month as int, day: day as int })
                .is_valid(),
            r matches Some(d) ==> d@ == (Ymd {
                year: year as int,
                month: month as int,
                day: day as int,
            }),
    {
        if year < MIN_YEAR || year > MAX_YEAR || month < 1 || month > 12 || day < 1 {
            return None;
        }
        if day > days_in_month(year, month) {
            return None;
        }
        Some(Date { year, month, day })
    }

    /// Days since 0000-12-31.
    pub fn day_number(&self) -> (n: i32)
        ensures
            n == self@.day_number(),
            MIN_DAY <= n <= MAX_DAY,
            self@.is_valid(),
    {
        proof {
            use_type_invariant(self);
            lemma_range_by_day_number(self@);
        }
        let y: i32 = self.year - 1;
        // Floor division of `y`, which is -1 in year 0.
        let quarter: i32 = (y + 4) / 4 - 1;
        let century: i32 = (y + 100) / 100 - 1;
        let era: i32 = (y + 400) / 400 - 1;
        let leap: i32 = if leap_year(self.year) {
            1
        } else {
            0
        };
        let before: i32 = match self.month {
            1 => 0,
            2 => 31,
            3 => 59 + leap,
            4 => 90 + leap,
            5 => 120 + leap,
            6 => 151 + leap,
            7 => 181 + leap,
            8 => 212 + leap,
            9 => 243 + leap,
            10 => 273 + leap,
            11 => 304 + leap,
            _ => 334 + leap,
        };
        365 * y + quarter - century + era + before + self.day as i32
    }

    /// Day of the week, 0 for Monday to 6 for Sunday.
    pub fn weekday_index(&self) -> (w: u32)
        ensures
            w == self@.weekday_index(),
            w < 7,
    {
        let n: i32 = self.day_number();
        ((n + 377) % 7) as u32
    }

    /// Number of days from `other` to `self`; negative when `self` is earlier.
    pub fn days_since(&self, other: &Date) -> (n: i64)
        ensures
            n == self@.day_number() - other@.day_number(),
    {
        let a: i32 = self.day_number();
        let b: i32 = other.day_number();
        a as i64 - b as i64
    }

    /// The date `days` days later (earlier for a negative number), if it lies
    /// from year 0 to year 9999.
    pub fn add_days(&self, days: i64) -> (r: Option<Date>)
        ensures
            r is Some <==> MIN_DAY <= self@.day_number() + days <= MAX_DAY,
            r matches Some(d) ==> d@.day_number() == self@.day_number() + days && d@.is_valid(),
    {
        proof {
            use_type_invariant(self);
        }
        match civil_after(self.year, self.month, self.day, days) {
            Some((year, month, day)) => {
                proof {
                    lemma_range_by_day_number(
                        Ymd { year: year as int, month: month as int, day: day as int },
                    );
                }
                if MIN_YEAR <= year && year <= MAX_YEAR {
                    Some(Date { year, month, day })
                } else {
                    None
                }
            },
            None => None,
        }
    }

    /// The date with the given day number, if it lies from year 0 to year 9999.
    pub fn from_day_number(n: i32) -> (r: Option<Date>)
        ensures
            r is Some <==> MIN_DAY <= n <= MAX_DAY,
            r matches Some(d) ==> d@.day_number() == n && d@.is_valid(),
    {
        let first = Date { year: 1, month: 1, day: 1 };
        first.add_days(n as i64 - 1)
    }

    /// Appends the date as `YYYY-MM-DD`.
    pub fn push_iso(&self, out: &mut Vec<char>)
        ensures
            final(out)@ == old(out)@ + iso_text(self@),
    {
        proof {
            use_type_invariant(self);
        }
        push_padded(out, self.year as u32, 4);
        out.push('-');
        push_padded(out, self.month, 2);
        out.push('-');
        push_padded(out, self.day, 2);
        assert(out@ =~= old(out)@ + iso_text(self@));
    }

    /// The date as `YYYY-MM-DD`.
    pub fn to_iso_string(&self) -> (s: String)
        ensures
            s@ == iso_text(self@),
    {
        let mut out: Vec<char> = Vec::new();
        self.push_iso(&mut out);
        assert(out@ =~= iso_text(self@));
        string_of(&out)
    }

    /// Appends the English short name of the date's day of the week.
    pub fn push_weekday_name(&self, out: &mut Vec<char>)
        ensures
            final(out)@ == old(out)@ + weekday_name(self@.weekday_index()),
    {
        let w: u32 = self.weekday_index();
        let name: [char; 3] = if w == 0 {
            ['M', 'o', 'n']
        } else if w == 1 {
            ['T', 'u', 'e']
        } else if w == 2 {
            ['W', 'e', 'd']
        } else if w == 3 {
            ['T', 'h', 'u']
        } else if w == 4 {
            ['F', 'r', 'i']
        } else if w == 5 {
            ['S', 'a', 't']
        } else {
            ['S', 'u', 'n']
        };
        out.push(name[0]);
        out.push(name[1]);
        out.push(name[2]);
        assert(out@ =~= old(out)@ + weekday_name(self@.weekday_index()));
    }

    /// Whether `self` lies before `other` in the calendar.
    pub fn is_before(&self, other: &Date) -> (r: bool)
        ensures
            r == (self@.day_number() < other@.day_number()),
            r == self@.precedes(other@),
    {
        proof {
            use_type_invariant(self);
            use_type_invariant(other);
            lemma_order_by_day_number(self@, other@);
        }
        self.day_number() < other.day_number()
    }

    /// Whether `self` and `other` are the same date.
    pub fn same_day(&self, other: &Date) -> (r: bool)
        ensures
            r == (self@ == other@),
            r == (self@.day_number() == other@.day_number()),
    {
        proof {
            use_type_invariant(self);
            use_type_invariant(other);
            if self@.day_number() == other@.day_number() {
                lemma_day_number_injective(self@, other@);
            }
        }
        self.year == other.year && self.month == other.month && self.day == other.day
    }
}

} // verus!
