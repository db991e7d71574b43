use crate::date::Date;
use crate::date::MAX_DAY;
use crate::date::MIN_DAY;
use crate::date::Ymd;
use crate::date::days_in_month;
use crate::date::lemma_range_by_day_number;
use crate::date::month_length;
use crate::holidays::CalendarModel;
use crate::holidays::HolidayCalendar;
use crate::holidays::builtin_calendar;
use crate::text::chars_of;
use crate::text::digits_value;
use crate::text::parse_digits_in;
use crate::text::trimmed;
use vstd::arithmetic::div_mod::lemma_fundamental_div_mod;
use vstd::arithmetic::div_mod::lemma_fundamental_div_mod_converse;
use vstd::prelude::*;

verus! {

/// How a repeater moves on: `+`, `++` or `.+`.
#[derive(Debug, Clone, Copy, PartialEq, Eq, Structural)]
pub enum RepeaterType {
    Cumulative,
    CatchUp,
    Restart,
}

/// The unit of a repeater's interval.
#[derive(Debug, Clone, Copy, PartialEq, Eq, Structural)]
pub enum RepeaterUnit {
    Day,
    Week,
    Month,
    Year,
    Hour,
    Workday,
}

/// A recurrence rule: every `value` units.
#[derive(Debug, Clone, Copy, PartialEq, Eq, Structural)]
pub struct Repeater {
    pub repeater_type: RepeaterType,
    pub value: u32,
    pub unit: RepeaterUnit,
}

impl Repeater {
    /// The interval is at least 1.
    pub open spec fn is_valid(self) -> bool {
        self.value >= 1
    }

    /// Days of one interval, for the units that count days.
    pub open spec fn step_days(self) -> int {
        match self.unit {
            RepeaterUnit::Day => self.value as int,
            RepeaterUnit::Week => 7 * self.value,
            RepeaterUnit::Hour => 1,
            _ => 0,
        }
    }

    /// Months of one interval, for the units that count months.
    pub open spec fn step_months(self) -> int {
        match self.unit {
            RepeaterUnit::Month => self.value as int,
            RepeaterUnit::Year => 12 * self.value,
            _ => 0,
        }
    }
}

/// The marker at the start of a repeater token, with its length.
pub open spec fn repeater_marker(s: Seq<char>) -> Option<(RepeaterType, int)> {
    if s.len() >= 2 && s[0] == '.' && s[1] == '+' {
        Some((RepeaterType::Restart, 2))
    } else if s.len() >= 2 && s[0] == '+' && s[1] == '+' {
        Some((RepeaterType::CatchUp, 2))
    } else if s.len() >= 1 && s[0] == '+' {
        Some((RepeaterType::Cumulative, 1))
    } else {
        None
    }
}

/// The unit that a single letter names.
pub open spec fn unit_of(c: char) -> Option<RepeaterUnit> {
    if c == 'd' {
        Some(RepeaterUnit::Day)
    } else if c == 'w' {
        Some(RepeaterUnit::Week)
    } else if c == 'm' {
        Some(RepeaterUnit::Month)
    } else if c == 'y' {
        Some(RepeaterUnit::Year)
    } else if c == 'h' {
        Some(RepeaterUnit::Hour)
    } else {
        None
    }
}

/// The rule with the given interval, if the interval is a number of at least 1.
pub open spec fn repeater_with(kind: RepeaterType, value: Option<u32>, unit: RepeaterUnit)
    -> Option<Repeater> {
    match value {
        Some(v) => if v >= 1 {
            Some(Repeater { repeater_type: kind, value: v, unit })
        } else {
            None
        },
        None => None,
    }
}

/// What follows the marker: an interval, written in digits alone, and a
/// unit, `wd` before the one-letter units.
pub open spec fn repeater_body(kind: RepeaterType, rest: Seq<char>) -> Option<Repeater> {
    let n = rest.len() as int;
    if n == 0 {
        None
    } else if n >= 2 && rest[n - 2] == 'w' && rest[n - 1] == 'd' {
        repeater_with(kind, digits_value(rest.subrange(0, n - 2)), RepeaterUnit::Workday)
    } else {
        match unit_of(rest[n - 1]) {
            Some(unit) => repeater_with(kind, digits_value(rest.subrange(0, n - 1)), unit),
            None => None,
        }
    }
}

/// The rule that a token such as `+1d`, `++2w`, `.+1m` or `+1wd` writes, white
/// space around it aside.
pub open spec fn repeater_of(token: Seq<char>) -> Option<Repeater> {
    let s = trimmed(token);
    match repeater_marker(s) {
        Some((kind, n)) => repeater_body(kind, s.skip(n)),
        None => None,
    }
}

/// The marker at `start`, with its length.
fn read_marker(v: &Vec<char>, start: usize, end: usize) -> (r: Option<(RepeaterType, usize)>)
    requires
        start <= end <= v.len(),
    ensures
        match r {
            Some((kind, n)) => repeater_marker(v@.subrange(start as int, end as int)) == Some(
                (kind, n as int),
            ) && start + n <= end,
            None => repeater_marker(v@.subrange(start as int, end as int)) is None,
        },
{
    let ghost s = v@.subrange(start as int, end as int);
    if end - start >= 2 {
        assert(s[0] == v@[start as int] && s[1] == v@[start + 1]);
    } else if end - start >= 1 {
        assert(s[0] == v@[start as int]);
    }
    if end - start >= 2 && v[start] == '.' && v[start + 1] == '+' {
        Some((RepeaterType::Restart, 2))
    } else if end - start >= 2 && v[start] == '+' && v[start + 1] == '+' {
        Some((RepeaterType::CatchUp, 2))
    } else if end - start >= 1 && v[start] == '+' {
        Some((RepeaterType::Cumulative, 1))
    } else {
        None
    }
}

/// The unit that `c` names.
fn read_unit(c: char) -> (r: Option<RepeaterUnit>)
    ensures
        r == unit_of(c),
{
    if c == 'd' {
        Some(RepeaterUnit::Day)
    } else if c == 'w' {
        Some(RepeaterUnit::Week)
    } else if c == 'm' {
        Some(RepeaterUnit::Month)
    } else if c == 'y' {
        Some(RepeaterUnit::Year)
    } else if c == 'h' {
        Some(RepeaterUnit::Hour)
    } else {
        None
    }
}

/// The rule with the interval that the characters from `start` up to `end` write.
fn read_interval(v: &Vec<char>, start: usize, end: usize, kind: RepeaterType, unit: RepeaterUnit)
    -> (r: Option<Repeater>)
    requires
        start <= end <= v.len(),
    ensures
        r == repeater_with(kind, digits_value(v@.subrange(start as int, end as int)), unit),
{
    match parse_digits_in(v, start, end) {
        Some(value) => {
            if value >= 1 {
                Some(Repeater { repeater_type: kind, value, unit })
            } else {
                None
            }
        },
        None => None,
    }
}

/// The interval and unit from `start` up to `end`.
fn read_body(v: &Vec<char>, start: usize, end: usize, kind: RepeaterType) -> (r: Option<Repeater>)
    requires
        start <= end <= v.len(),
    ensures
        r == repeater_body(kind, v@.subrange(start as int, end as int)),
{
    let ghost rest = v@.subrange(start as int, end as int);
    if start == end {
        return None;
    }
    let n: usize = end - start;
    assert(rest[n - 1] == v@[end - 1]);
    if n >= 2 {
        assert(rest[n - 2] == v@[end - 2]);
    }
    if n >= 2 && v[end - 2] == 'w' && v[end - 1] == 'd' {
        assert(rest.subrange(0, n - 2) =~= v@.subrange(start as int, end - 2));
        read_interval(v, start, end - 2, kind, RepeaterUnit::Workday)
    } else {
        assert(rest.subrange(0, n - 1) =~= v@.subrange(start as int, end - 1));
        match read_unit(v[end - 1]) {
            Some(unit) => read_interval(v, start, end - 1, kind, unit),
            None => None,
        }
    }
}

/// The rule that the characters of `v` from `start` up to `end` write.
pub(crate) fn parse_repeater_in(v: &Vec<char>, start: usize, end: usize) -> (r: Option<Repeater>)
    requires
        start <= end <= v.len(),
    ensures
        r == repeater_of(v@.subrange(start as int, end as int)),
        r matches Some(rep) ==> rep.is_valid(),
{
    let ghost token = v@.subrange(start as int, end as int);
    let a: usize = skip_spaces_in_range(v, start, end);
    let b: usize = trim_end_in_range(v, start, a, end);
    let ghost s = trimmed(token);
    assert(s =~= v@.subrange(a as int, b as int));
    match read_marker(v, a, b) {
        Some((kind, n)) => {
            assert(s.skip(n as int) =~= v@.subrange(a + n, b as int));
            read_body(v, a + n, b, kind)
        },
        None => None,
    }
}

/// The first position from `start` on, below `end`, that holds no white space.
fn skip_spaces_in_range(v: &Vec<char>, start: usize, end: usize) -> (r: usize)
    requires
        start <= end <= v.len(),
    ensures
        start <= r <= end,
        r - start == crate::text::skip_spaces(v@.subrange(start as int, end as int), 0),
{
    let ghost token = v@.subrange(start as int, end as int);
    let mut i: usize = start;
    while i < end && crate::text::char_is_space(v[i])
        invariant
            start <= i <= end <= v.len(),
            token == v@.subrange(start as int, end as int),
            crate::text::skip_spaces(token, 0) == crate::text::skip_spaces(token, i - start),
        decreases end - i,
    {
        assert(token[i - start] == v@[i as int]);
        i += 1;
    }
    proof {
        if i < end {
            assert(token[i - start] == v@[i as int]);
        }
    }
    i
}

/// The end of the range without the white space before it, not below `from`.
fn trim_end_in_range(v: &Vec<char>, start: usize, from: usize, end: usize) -> (r: usize)
    requires
        start <= from <= end <= v.len(),
    ensures
        from <= r <= end,
        r - start == crate::text::trim_end(
            v@.subrange(start as int, end as int),
            from - start,
            end - start,
        ),
{
    let ghost token = v@.subrange(start as int, end as int);
    let mut i: usize = end;
    while from < i && crate::text::char_is_space(v[i - 1])
        invariant
            start <= from <= i <= end <= v.len(),
            token == v@.subrange(start as int, end as int),
            crate::text::trim_end(token, from - start, end - start) == crate::text::trim_end(
                token,
                from - start,
                i - start,
            ),
        decreases i,
    {
        assert(token[i - 1 - start] == v@[i - 1]);
        i -= 1;
    }
    proof {
        if from < i {
            assert(token[i - 1 - start] == v@[i - 1]);
        }
    }
    i
}

/// Reads a repeater token such as `+1d`, `++2w`, `.+1m` or `+1wd`. `None` for
/// anything else: no marker, no interval, an interval that is no number of at
/// least 1 or does not fit, an unknown unit.
pub fn parse_repeater(s: &str) -> (r: Option<Repeater>)
    ensures
        r == repeater_of(s@),
        r matches Some(rep) ==> rep.is_valid(),
{
    let v = chars_of(s);
    assert(v@.subrange(0, v@.len() as int) =~= s@);
    parse_repeater_in(&v, 0, v.len())
}

/// The date `months` months after `date`, on the same day of the month, or on
/// the last day of the month where the month is shorter.
pub open spec fn add_months_spec(date: Ymd, months: int) -> Ymd {
    let index = date.month_index() + months;
    let year = index / 12;
    let month = index % 12 + 1;
    let length = month_length(year, month);
    Ymd {
        year,
        month,
        day: if date.day < length {
            date.day
        } else {
            length
        },
    }
}

/// The date `months` months after `date` (before it for a negative number),
/// if it lies from year 0 to year 9999.
pub fn add_months(date: Date, months: i64) -> (r: Option<Date>)
    ensures
        r is Some <==> add_months_spec(date@, months as int).is_valid(),
        r matches Some(d) ==> d@ == add_months_spec(date@, months as int),
{
    let year: i64 = date.year() as i64;
    let month: i64 = date.month() as i64;
    if months > 200000 || months < -200000 {
        return None;
    }
    let index: i64 = year * 12 + (month - 1) + months;
    if index < 0 || index > 119999 {
        return None;
    }
    let new_year: i32 = (index / 12) as i32;
    let new_month: u32 = (index % 12 + 1) as u32;
    let length: u32 = days_in_month(new_year, new_month);
    let day: u32 = if date.day() < length {
        date.day()
    } else {
        length
    };
    Date::from_ymd_opt(new_year, new_month, day)
}

/// `n` if it is the day number of a date from year 0 to year 9999.
pub open spec fn in_range(n: int) -> Option<int> {
    if MIN_DAY <= n <= MAX_DAY {
        Some(n)
    } else {
        None
    }
}

/// `a / b` rounded up, for a positive `b`.
pub open spec fn ceil_div(a: int, b: int) -> int {
    (a + b - 1) / b
}

/// Number of days from `day` up to `target`, 0 if `target` is not later.
pub open spec fn days_left(day: int, target: int) -> nat {
    if target > day {
        (target - day) as nat
    } else {
        0
    }
}

/// How many times one goes to the next workday from `day` until `target` is
/// reached or passed.
pub open spec fn workday_steps_to_reach(cal: CalendarModel, day: int, target: int) -> Option<nat>
    decreases days_left(day, target),
{
    let next = cal.next_workday(day);
    if day >= target {
        Some(0)
    } else if next is Some && next->0 > day {
        match workday_steps_to_reach(cal, next->0, target) {
            Some(steps) => Some(steps + 1),
            None => None,
        }
    } else {
        None
    }
}

/// The first of `base`, `base` plus `months`, `base` plus twice `months`, ...
/// that is not before `from`, for a positive `months`.
pub open spec fn month_step_on_or_after(base: Ymd, months: int, from: Ymd) -> Ymd {
    let gap = from.month_index() - base.month_index();
    let k = if gap <= 0 {
        0
    } else {
        ceil_div(gap, months)
    };
    let first = add_months_spec(base, k * months);
    if first.day_number() >= from.day_number() {
        first
    } else {
        add_months_spec(base, (k + 1) * months)
    }
}

/// The first day not before `from` and after `base` that falls on the weekday
/// of `base`, as a day number.
pub open spec fn same_weekday_on_or_after(base: int, from: int) -> int {
    let start = if from > base {
        from
    } else {
        base + 1
    };
    start + (base - start) % 7
}

/// The next occurrence of a rule that counts months, `months` months to the
/// interval, by its day number.
pub open spec fn month_step_spec(base: Ymd, kind: RepeaterType, months: int, from: Ymd) -> Option<
    int,
> {
    match kind {
        RepeaterType::Cumulative => in_range(
            month_step_on_or_after(base, months, from).day_number(),
        ),
        _ => in_range(add_months_spec(from, months).day_number()),
    }
}

/// The next occurrence of a rule that counts days, `step` days to the
/// interval, by day numbers.
pub open spec fn day_step_spec(b: int, kind: RepeaterType, weekly: bool, step: int, f: int)
    -> Option<int> {
    match kind {
        RepeaterType::Cumulative => in_range(
            if f <= b {
                b
            } else {
                b + ceil_div(f - b, step) * step
            },
        ),
        RepeaterType::CatchUp => if weekly {
            in_range(same_weekday_on_or_after(b, f))
        } else {
            in_range(f + step)
        },
        RepeaterType::Restart => in_range(f + step),
    }
}

/// The day number of the next occurrence of a rule anchored at `base`, seen
/// from `from`; `None` where there is none from year 0 to year 9999, where the
/// interval is 0, or where the calendar gives no next workday.
///
/// - `+` goes from `base` in steps of the interval until `from` is reached or
///   passed. Months and years are calendar months, the day of the month kept
///   or cut to the month's end. Workdays are counted one by one from `base`
///   until `from` is reached or passed, and the result is the end of the
///   interval after the one that this count lies in.
/// - `++` goes one interval on from `from`; by weeks, to the first day after
///   `base` and not before `from` on the weekday of `base`.
/// - `.+` goes one interval on from `from`.
pub open spec fn next_occurrence_spec(cal: CalendarModel, base: Ymd, rep: Repeater, from: Ymd)
    -> Option<int> {
    let b = base.day_number();
    let f = from.day_number();
    let v = rep.value as int;
    if rep.value == 0 {
        None
    } else {
        match rep.unit {
            RepeaterUnit::Workday => match rep.repeater_type {
                RepeaterType::Cumulative => match workday_steps_to_reach(cal, b, f) {
                    Some(steps) => cal.workday_steps(b, ((steps / v as nat + 1) * v) as nat),
                    None => None,
                },
                _ => cal.workday_steps(f, v as nat),
            },
            RepeaterUnit::Month | RepeaterUnit::Year => month_step_spec(
                base,
                rep.repeater_type,
                rep.step_months(),
                from,
            ),
            _ => day_step_spec(b, rep.repeater_type, rep.unit == RepeaterUnit::Week, rep.step_days(), f),
        }
    }
}

/// The date `count` workdays after `date`.
fn after_workdays(cal: &HolidayCalendar, date: Date, count: u32) -> (r: Option<Date>)
    ensures
        match r {
            Some(found) => cal@.workday_steps(date@.day_number(), count as nat) == Some(
                found@.day_number(),
            ) && found@.is_valid(),
            None => cal@.workday_steps(date@.day_number(), count as nat) is None,
        },
{
    let ghost start = date@.day_number();
    let mut current = date;
    let mut done: u32 = 0;
    proof {
        use_type_invariant(&date);
    }
    while done < count
        invariant
            done <= count,
            current@.is_valid(),
            start == date@.day_number(),
            cal@.workday_steps(start, done as nat) == Some(current@.day_number()),
        decreases count - done,
    {
        proof {
            cal@.lemma_workday_steps_extend(start, done as nat);
        }
        match cal.next_workday(current) {
            Some(next) => {
                current = next;
            },
            None => {
                proof {
                    cal@.lemma_workday_steps_fail(start, (done + 1) as nat, count as nat);
                }
                return None;
            },
        }
        done += 1;
    }
    Some(current)
}

/// The date with the day number `n`, if `n` is in range.
fn date_in_range(n: i64) -> (r: Option<Date>)
    ensures
        match r {
            Some(found) => in_range(n as int) == Some(found@.day_number()) && found@.is_valid(),
            None => in_range(n as int) is None,
        },
{
    if n < MIN_DAY as i64 || n > MAX_DAY as i64 {
        None
    } else {
        Date::from_day_number(n as i32)
    }
}

/// The date that `add_months` gives, by its day number.
fn months_later(date: Date, months: i64) -> (r: Option<Date>)
    ensures
        match r {
            Some(found) => in_range(add_months_spec(date@, months as int).day_number()) == Some(
                found@.day_number(),
            ) && found@.is_valid() && found@ == add_months_spec(date@, months as int),
            None => in_range(add_months_spec(date@, months as int).day_number()) is None,
        },
{
    proof {
        use_type_invariant(&date);
        lemma_add_months_civil(date@, months as int);
        lemma_range_by_day_number(add_months_spec(date@, months as int));
    }
    add_months(date, months)
}

/// A civil date moved by months is a civil date.
pub proof fn lemma_add_months_civil(date: Ymd, months: int)
    requires
        date.is_civil(),
    ensures
        add_months_spec(date, months).is_civil(),
        add_months_spec(date, months).month_index() == date.month_index() + months,
        add_months_spec(date, months).day <= date.day,
{
}

/// The next occurrence of a rule that counts workdays.
fn next_workday_occurrence(
    cal: &HolidayCalendar,
    base_date: Date,
    kind: RepeaterType,
    value: u32,
    from_date: Date,
) -> (r: Option<Date>)
    requires
        value >= 1,
    ensures
        match r {
            Some(found) => next_occurrence_spec(
                cal@,
                base_date@,
                Repeater { repeater_type: kind, value, unit: RepeaterUnit::Workday },
                from_date@,
            ) == Some(found@.day_number()) && found@.is_valid(),
            None => next_occurrence_spec(
                cal@,
                base_date@,
                Repeater { repeater_type: kind, value, unit: RepeaterUnit::Workday },
                from_date@,
            ) is None,
        },
{
    match kind {
        RepeaterType::Cumulative => {
            let ghost b = base_date@.day_number();
            let ghost f = from_date@.day_number();
            let mut current = base_date;
            let mut count: u32 = 0;
            let ghost mut total: nat = 0;
            proof {
                use_type_invariant(&base_date);
                assert(cal@.workday_steps(b, 0) == Some(b));
                vstd::arithmetic::div_mod::lemma_small_mod(0, value as nat);
            }
            while current.is_before(&from_date)
                invariant
                    kind == RepeaterType::Cumulative,
                    value >= 1,
                    count < value,
                    count == total % (value as nat),
                    current@.is_valid(),
                    b == base_date@.day_number(),
                    f == from_date@.day_number(),
                    cal@.workday_steps(b, total) == Some(current@.day_number()),
                    workday_steps_to_reach(cal@, b, f) == match workday_steps_to_reach(
                        cal@,
                        current@.day_number(),
                        f,
                    ) {
                        Some(steps) => Some(steps + total),
                        None => None,
                    },
                decreases days_left(current@.day_number(), f),
            {
                proof {
                    cal@.lemma_next_workday(current@.day_number());
                    cal@.lemma_workday_steps_extend(b, total);
                    lemma_count_step(total as int, value as int);
                }
                match cal.next_workday(current) {
                    Some(next) => {
                        current = next;
                    },
                    None => {
                        return None;
                    },
                }
                proof {
                    total = total + 1;
                }
                count = if count + 1 >= value {
                    0
                } else {
                    count + 1
                };
            }
            proof {
                lemma_round_up(total as int, value as int);
                lemma_workday_steps_join(cal@, b, total, (value - count) as nat);
            }
            after_workdays(cal, current, value - count)
        },
        _ => after_workdays(cal, from_date, value),
    }
}

/// The next occurrence of a rule that counts months or years, `months`
/// months to the interval.
fn next_month_occurrence(base_date: Date, kind: RepeaterType, months: i64, from_date: Date) -> (r:
    Option<Date>)
    requires
        1 <= months <= 12 * u32::MAX,
    ensures
        match r {
            Some(found) => found@.is_valid() && Some(found@.day_number()) == month_step_spec(
                base_date@,
                kind,
                months as int,
                from_date@,
            ),
            None => month_step_spec(base_date@, kind, months as int, from_date@) is None,
        },
{
    proof {
        use_type_invariant(&base_date);
        use_type_invariant(&from_date);
    }
    match kind {
        RepeaterType::Cumulative => {
            let base_index: i64 = base_date.year() as i64 * 12 + base_date.month() as i64 - 1;
            let from_index: i64 = from_date.year() as i64 * 12 + from_date.month() as i64 - 1;
            let gap: i64 = from_index - base_index;
            let k: i64 = if gap <= 0 {
                0
            } else {
                (gap + months - 1) / months
            };
            proof {
                if gap > 0 {
                    lemma_ceil_div_bounds(gap as int, months as int);
                }
                if gap <= 0 {
                    assert(k * months == 0) by (nonlinear_arith)
                        requires
                            k == 0,
                    ;
                }
            }
            let first = months_later(base_date, k * months);
            let reached = match first {
                Some(found) => !found.is_before(&from_date),
                None => {
                    proof {
                        lemma_far_month_is_late(base_date@, (k * months) as int, from_date@);
                    }
                    true
                },
            };
            if reached {
                first
            } else {
                assert((k + 1) * months == k * months + months) by (nonlinear_arith);
                months_later(base_date, (k + 1) * months)
            }
        },
        _ => months_later(from_date, months),
    }
}

/// Number of days from `start` to the first day on the weekday of `base`.
fn days_to_weekday(start: i64, base: i64) -> (r: i64)
    requires
        MIN_DAY <= base < start <= MAX_DAY + 1,
    ensures
        r == (base - start) % 7,
        0 <= r < 7,
{
    proof {
        vstd::arithmetic::div_mod::lemma_mod_multiples_vanish(600000, base - start, 7);
    }
    // `base - start` is negative: shift it by a multiple of 7.
    (base - start + 7 * 600000) % 7
}

/// The next occurrence of a rule that counts days, `step` days to the
/// interval.
fn next_day_occurrence(base_date: Date, kind: RepeaterType, weekly: bool, step: i64, from_date: Date)
    -> (r: Option<Date>)
    requires
        1 <= step <= 7 * u32::MAX,
    ensures
        match r {
            Some(found) => found@.is_valid() && Some(found@.day_number()) == day_step_spec(
                base_date@.day_number(),
                kind,
                weekly,
                step as int,
                from_date@.day_number(),
            ),
            None => day_step_spec(
                base_date@.day_number(),
                kind,
                weekly,
                step as int,
                from_date@.day_number(),
            ) is None,
        },
{
    let b: i64 = base_date.day_number() as i64;
    let f: i64 = from_date.day_number() as i64;
    match kind {
        RepeaterType::Cumulative => {
            if f <= b {
                date_in_range(b)
            } else {
                let q: i64 = (f - b + step - 1) / step;
                proof {
                    lemma_ceil_div_bounds((f - b) as int, step as int);
                }
                date_in_range(b + q * step)
            }
        },
        RepeaterType::CatchUp => {
            if weekly {
                let start: i64 = if f > b {
                    f
                } else {
                    b + 1
                };
                date_in_range(start + days_to_weekday(start, b))
            } else {
                date_in_range(f + step)
            }
        },
        RepeaterType::Restart => date_in_range(f + step),
    }
}

/// Computes the next occurrence of a rule anchored at `base_date`, seen from
/// `from_date`, with the calendar `cal` for workdays.
pub fn next_occurrence_in(
    cal: &HolidayCalendar,
    base_date: Date,
    repeater: &Repeater,
    from_date: Date,
) -> (r: Option<Date>)
    ensures
        match r {
            Some(found) => next_occurrence_spec(cal@, base_date@, *repeater, from_date@) == Some(
                found@.day_number(),
            ) && found@.is_valid(),
            None => next_occurrence_spec(cal@, base_date@, *repeater, from_date@) is None,
        },
{
    let value: u32 = repeater.value;
    if value == 0 {
        return None;
    }
    match repeater.unit {
        RepeaterUnit::Workday => next_workday_occurrence(
            cal,
            base_date,
            repeater.repeater_type,
            value,
            from_date,
        ),
        RepeaterUnit::Month => next_month_occurrence(
            base_date,
            repeater.repeater_type,
            value as i64,
            from_date,
        ),
        RepeaterUnit::Year => next_month_occurrence(
            base_date,
            repeater.repeater_type,
            12 * (value as i64),
            from_date,
        ),
        RepeaterUnit::Day => next_day_occurrence(
            base_date,
            repeater.repeater_type,
            false,
            value as i64,
            from_date,
        ),
        RepeaterUnit::Week => next_day_occurrence(
            base_date,
            repeater.repeater_type,
            true,
            7 * (value as i64),
            from_date,
        ),
        RepeaterUnit::Hour => next_day_occurrence(
            base_date,
            repeater.repeater_type,
            false,
            1,
            from_date,
        ),
    }
}

/// Counting one more step moves the count within the interval by one, back to
/// 0 at the interval's end.
proof fn lemma_count_step(total: int, value: int)
    requires
        total >= 0,
        value >= 1,
    ensures
        (total + 1) % value == if total % value + 1 >= value {
            0
        } else {
            total % value + 1
        },
{
    lemma_fundamental_div_mod(total, value);
    let q = total / value;
    let r = total % value;
    if r + 1 >= value {
        assert(total + 1 == (q + 1) * value + 0) by (nonlinear_arith)
            requires
                total == value * q + r,
                r + 1 == value,
        ;
        lemma_fundamental_div_mod_converse(total + 1, value, q + 1, 0);
    } else {
        assert(total + 1 == q * value + (r + 1)) by (nonlinear_arith)
            requires
                total == value * q + r,
        ;
        lemma_fundamental_div_mod_converse(total + 1, value, q, r + 1);
    }
}

/// The end of the interval after the one that `total` lies in.
proof fn lemma_round_up(total: int, value: int)
    requires
        total >= 0,
        value >= 1,
    ensures
        (total / value + 1) * value == total + value - total % value,
        total / value >= 0,
{
    lemma_fundamental_div_mod(total, value);
    let q = total / value;
    let r = total % value;
    assert((q + 1) * value == total + value - r) by (nonlinear_arith)
        requires
            total == value * q + r,
    ;
    assert(q >= 0) by (nonlinear_arith)
        requires
            total == value * q + r,
            0 <= r < value,
            total >= 0,
            value >= 1,
    ;
}

/// `ceil_div(a, b) * b` is the first multiple of `b` that is at least `a`.
pub proof fn lemma_ceil_div_bounds(a: int, b: int)
    requires
        a >= 1,
        b >= 1,
    ensures
        a <= ceil_div(a, b) * b < a + b,
        ceil_div(a, b) >= 1,
{
    let x = a + b - 1;
    lemma_fundamental_div_mod(x, b);
    let q = x / b;
    let r = x % b;
    assert(q * b == x - r) by (nonlinear_arith)
        requires
            x == b * q + r,
    ;
    assert(q >= 1) by (nonlinear_arith)
        requires
            x == b * q + r,
            0 <= r < b,
            x >= b,
            b >= 1,
    ;
}

/// Steps from `day`, then more steps from where they led, are the steps from
/// `day` taken together.
proof fn lemma_workday_steps_join(cal: CalendarModel, day: int, first: nat, more: nat)
    ensures
        cal.workday_steps(day, first + more) == match cal.workday_steps(day, first) {
            Some(reached) => cal.workday_steps(reached, more),
            None => None,
        },
    decreases more,
{
    if more == 0 {
        match cal.workday_steps(day, first) {
            Some(reached) => {
                assert(cal.workday_steps(reached, 0) == Some(reached));
            },
            None => {},
        }
    } else {
        lemma_workday_steps_join(cal, day, first, (more - 1) as nat);
        cal.lemma_workday_steps_extend(day, (first + more - 1) as nat);
        match cal.workday_steps(day, first) {
            Some(reached) => {
                cal.lemma_workday_steps_extend(reached, (more - 1) as nat);
            },
            None => {},
        }
    }
}

/// A date moved past year 9999 lies after every valid date.
proof fn lemma_far_month_is_late(base: Ymd, months: int, from: Ymd)
    requires
        base.is_valid(),
        from.is_valid(),
        months >= 0,
        !add_months_spec(base, months).is_valid(),
    ensures
        add_months_spec(base, months).day_number() >= from.day_number(),
{
    let moved = add_months_spec(base, months);
    lemma_add_months_civil(base, months);
    lemma_range_by_day_number(moved);
    lemma_range_by_day_number(from);
    assert(moved.year >= 0);
}

/// Computes the next occurrence of a rule anchored at `base_date`, seen from
/// `from_date`, with the built-in calendar for workdays.
pub fn next_occurrence(base_date: Date, repeater: &Repeater, from_date: Date) -> (r: Option<Date>)
    ensures
        match r {
            Some(found) => next_occurrence_spec(
                builtin_calendar(),
                base_date@,
                *repeater,
                from_date@,
            ) == Some(found@.day_number()) && found@.is_valid(),
            None => next_occurrence_spec(builtin_calendar(), base_date@, *repeater, from_date@)
                is None,
        },
{
    let cal = HolidayCalendar::load_or_weekends();
    next_occurrence_in(&cal, base_date, repeater, from_date)
}

} // verus!
