use crate::date::Date;
use crate::date::MAX_DAY;
use crate::date::Ymd;
use std::collections::HashSet;
use vstd::prelude::*;

verus! {

broadcast use vstd::std_specs::hash::group_hash_axioms;

/// How many days after a date `next_workday` looks at before it gives up.
pub const SCAN_LIMIT: i32 = 1000;

/// The model of a [`HolidayCalendar`]: the day numbers of the declared
/// holidays and of the declared exceptional workdays.
pub struct CalendarModel {
    pub holidays: Set<int>,
    pub workdays: Set<int>,
}

impl CalendarModel {
    /// A declared workday, or a day from Monday to Friday that is no declared
    /// holiday.
    pub open spec fn is_workday(self, day: int) -> bool {
        self.workdays.contains(day) || (!self.holidays.contains(day) && (day + 6) % 7 < 5)
    }

    /// The first workday among the `limit` days that start at `day`.
    pub open spec fn first_workday_from(self, day: int, limit: nat) -> Option<int>
        decreases limit,
    {
        if limit == 0 {
            None
        } else if self.is_workday(day) {
            Some(day)
        } else {
            self.first_workday_from(day + 1, (limit - 1) as nat)
        }
    }

    /// The nearest workday after `day`, among the `SCAN_LIMIT` days that follow
    /// it and not after the last day of year 9999.
    pub open spec fn next_workday(self, day: int) -> Option<int> {
        match self.first_workday_from(day + 1, SCAN_LIMIT as nat) {
            Some(found) => if found <= MAX_DAY {
                Some(found)
            } else {
                None
            },
            None => None,
        }
    }

    /// The day reached from `day` by going `count` times to the next workday.
    pub open spec fn workday_steps(self, day: int, count: nat) -> Option<int>
        decreases count,
    {
        if count == 0 {
            Some(day)
        } else {
            match self.next_workday(day) {
                Some(next) => self.workday_steps(next, (count - 1) as nat),
                None => None,
            }
        }
    }

    /// What `first_workday_from` finds is the first workday of its range.
    pub proof fn lemma_first_workday(self, day: int, limit: nat)
        ensures
            match self.first_workday_from(day, limit) {
                Some(found) => day <= found < day + limit && self.is_workday(found) && forall|
                    other: int,
                |
                    day <= other < found ==> !self.is_workday(other),
                None => forall|other: int| day <= other < day + limit ==> !self.is_workday(other),
            },
        decreases limit,
    {
        if limit > 0 && !self.is_workday(day) {
            self.lemma_first_workday(day + 1, (limit - 1) as nat);
        }
    }

    /// The next workday is a later day, and no day between is a workday.
    pub proof fn lemma_next_workday(self, day: int)
        ensures
            self.next_workday(day) matches Some(found) ==> day < found <= MAX_DAY && found <= day
                + SCAN_LIMIT && self.is_workday(found) && forall|other: int|
                day < other < found ==> !self.is_workday(other),
    {
        self.lemma_first_workday(day + 1, SCAN_LIMIT as nat);
    }

    /// One more step goes to the next workday of where the steps before led.
    pub proof fn lemma_workday_steps_extend(self, day: int, count: nat)
        ensures
            self.workday_steps(day, count + 1) == match self.workday_steps(day, count) {
                Some(reached) => self.next_workday(reached),
                None => None,
            },
        decreases count,
    {
        match self.next_workday(day) {
            Some(next) => {
                if count > 0 {
                    self.lemma_workday_steps_extend(next, (count - 1) as nat);
                } else {
                    assert(self.workday_steps(next, 0) == Some(next));
                }
            },
            None => {},
        }
    }

    /// Once the steps fail, more steps fail too.
    pub proof fn lemma_workday_steps_fail(self, day: int, count: nat, more: nat)
        requires
            self.workday_steps(day, count) is None,
            count <= more,
        ensures
            self.workday_steps(day, more) is None,
        decreases more - count,
    {
        if count < more {
            self.lemma_workday_steps_extend(day, count);
            self.lemma_workday_steps_fail(day, count + 1, more);
        }
    }

    /// Number of workdays after `from` and up to `to`, `to` included.
    pub open spec fn workdays_between(self, from: int, to: int) -> nat
        decreases to - from,
    {
        if to <= from {
            0
        } else {
            self.workdays_between(from, to - 1) + if self.is_workday(to) {
                1nat
            } else {
                0nat
            }
        }
    }
}

/// The entry as a date.
pub open spec fn entry_date(entry: (i32, u32, u32)) -> Ymd {
    Ymd { year: entry.0 as int, month: entry.1 as int, day: entry.2 as int }
}

/// The day numbers of the entries of `table` that are valid dates.
pub open spec fn table_days(table: Seq<(i32, u32, u32)>) -> Set<int> {
    Set::new(
        |day: int|
            exists|i: int|
                0 <= i < table.len() && entry_date(#[trigger] table[i]).is_valid() && entry_date(
                    table[i],
                ).day_number() == day,
    )
}

/// The holidays that `HolidayCalendar::load` declares: public holidays of
/// Russia with the days off that were moved to them.
pub open spec fn builtin_holidays() -> Seq<(i32, u32, u32)> {
    seq![
        (2024i32, 1u32, 1u32),
        (2024, 1, 2),
        (2024, 1, 3),
        (2024, 1, 4),
        (2024, 1, 5),
        (2024, 1, 6),
        (2024, 1, 7),
        (2024, 1, 8),
        (2024, 2, 23),
        (2024, 3, 8),
        (2024, 4, 29),
        (2024, 4, 30),
        (2024, 5, 1),
        (2024, 5, 9),
        (2024, 5, 10),
        (2024, 6, 12),
        (2024, 11, 4),
        (2024, 12, 30),
        (2024, 12, 31),
        (2025, 1, 1),
        (2025, 1, 2),
        (2025, 1, 3),
        (2025, 1, 4),
        (2025, 1, 5),
        (2025, 1, 6),
        (2025, 1, 7),
        (2025, 1, 8),
        (2025, 2, 23),
        (2025, 3, 8),
        (2025, 5, 1),
        (2025, 5, 2),
        (2025, 5, 8),
        (2025, 5, 9),
        (2025, 6, 12),
        (2025, 6, 13),
        (2025, 11, 3),
        (2025, 11, 4),
        (2025, 12, 31),
        (2026, 1, 1),
        (2026, 1, 2),
        (2026, 1, 3),
        (2026, 1, 4),
        (2026, 1, 5),
        (2026, 1, 6),
        (2026, 1, 7),
        (2026, 1, 8),
        (2026, 1, 9),
        (2026, 2, 23),
        (2026, 3, 9),
        (2026, 5, 1),
        (2026, 5, 11),
        (2026, 6, 12),
        (2026, 11, 4),
        (2026, 12, 31),
    ]
}

/// The exceptional workdays that `HolidayCalendar::load` declares: Saturdays
/// that were made workdays.
pub open spec fn builtin_workdays() -> Seq<(i32, u32, u32)> {
    seq![(2024i32, 4u32, 27u32), (2024, 11, 2), (2024, 12, 28), (2025, 11, 1)]
}

/// The calendar that `HolidayCalendar::load` gives.
pub open spec fn builtin_calendar() -> CalendarModel {
    CalendarModel {
        holidays: table_days(builtin_holidays()),
        workdays: table_days(builtin_workdays()),
    }
}

fn holiday_table() -> (table: Vec<(i32, u32, u32)>)
    ensures
        table@ == builtin_holidays(),
{
    let table: Vec<(i32, u32, u32)> = vec![
        (2024i32, 1u32, 1u32),
        (2024, 1, 2),
        (2024, 1, 3),
        (2024, 1, 4),
        (2024, 1, 5),
        (2024, 1, 6),
        (2024, 1, 7),
        (2024, 1, 8),
        (2024, 2, 23),
        (2024, 3, 8),
        (2024, 4, 29),
        (2024, 4, 30),
        (2024, 5, 1),
        (2024, 5, 9),
        (2024, 5, 10),
        (2024, 6, 12),
        (2024, 11, 4),
        (2024, 12, 30),
        (2024, 12, 31),
        (2025, 1, 1),
        (2025, 1, 2),
        (2025, 1, 3),
        (2025, 1, 4),
        (2025, 1, 5),
        (2025, 1, 6),
        (2025, 1, 7),
        (2025, 1, 8),
        (2025, 2, 23),
        (2025, 3, 8),
        (2025, 5, 1),
        (2025, 5, 2),
        (2025, 5, 8),
        (2025, 5, 9),
        (2025, 6, 12),
        (2025, 6, 13),
        (2025, 11, 3),
        (2025, 11, 4),
        (2025, 12, 31),
        (2026, 1, 1),
        (2026, 1, 2),
        (2026, 1, 3),
        (2026, 1, 4),
        (2026, 1, 5),
        (2026, 1, 6),
        (2026, 1, 7),
        (2026, 1, 8),
        (2026, 1, 9),
        (2026, 2, 23),
        (2026, 3, 9),
        (2026, 5, 1),
        (2026, 5, 11),
        (2026, 6, 12),
        (2026, 11, 4),
        (2026, 12, 31),
    ];
    assert(table@ =~= builtin_holidays());
    table
}

fn workday_table() -> (table: Vec<(i32, u32, u32)>)
    ensures
        table@ == builtin_workdays(),
{
    let table: Vec<(i32, u32, u32)> = vec![
        (2024i32, 4u32, 27u32),
        (2024, 11, 2),
        (2024, 12, 28),
        (2025, 11, 1),
    ];
    assert(table@ =~= builtin_workdays());
    table
}

/// The day numbers of the valid dates of `table`, as a set.
fn day_set(table: &Vec<(i32, u32, u32)>) -> (days: HashSet<i32>)
    ensures
        days@.finite(),
        days@.map(|d: i32| d as int) == table_days(table@),
        forall|day: i32| days@.contains(day) <==> table_days(table@).contains(day as int),
{
    let mut days: HashSet<i32> = HashSet::new();
    let mut i: usize = 0;
    while i < table.len()
        invariant
            i <= table.len(),
            days@.finite(),
            forall|day: i32|
                days@.contains(day) <==> table_days(table@.subrange(0, i as int)).contains(
                    day as int,
                ),
        decreases table.len() - i,
    {
        let entry = table[i];
        let ghost before = table@.subrange(0, i as int);
        let ghost after = table@.subrange(0, i + 1);
        assert(after =~= before.push(entry));
        assert forall|j: int| 0 <= j < before.len() implies before[j] == after[j] by {}
        match Date::from_ymd_opt(entry.0, entry.1, entry.2) {
            Some(date) => {
                let n: i32 = date.day_number();
                days.insert(n);
                assert forall|day: i32| days@.contains(day) <==> table_days(after).contains(
                    day as int,
                ) by {
                    if table_days(after).contains(day as int) {
                        let j = choose|j: int|
                            0 <= j < after.len() && entry_date(#[trigger] after[j]).is_valid()
                                && entry_date(after[j]).day_number() == day as int;
                        if j < i {
                            assert(entry_date(before[j]).is_valid());
                        }
                    }
                    if table_days(before).contains(day as int) {
                        let j = choose|j: int|
                            0 <= j < before.len() && entry_date(#[trigger] before[j]).is_valid()
                                && entry_date(before[j]).day_number() == day as int;
                        assert(entry_date(after[j]).is_valid());
                    }
                    if day == n {
                        assert(entry_date(after[i as int]).is_valid());
                    }
                }
            },
            None => {
                assert forall|day: i32| days@.contains(day) <==> table_days(after).contains(
                    day as int,
                ) by {
                    if table_days(after).contains(day as int) {
                        let j = choose|j: int|
                            0 <= j < after.len() && entry_date(#[trigger] after[j]).is_valid()
                                && entry_date(after[j]).day_number() == day as int;
                        assert(j < i);
                        assert(entry_date(before[j]).is_valid());
                    }
                    if table_days(before).contains(day as int) {
                        let j = choose|j: int|
                            0 <= j < before.len() && entry_date(#[trigger] before[j]).is_valid()
                                && entry_date(before[j]).day_number() == day as int;
                        assert(entry_date(after[j]).is_valid());
                    }
                }
            },
        }
        i += 1;
    }
    assert(table@.subrange(0, i as int) =~= table@);
    proof {
        lemma_day_set_model(days@, table@);
    }
    days
}

proof fn lemma_day_set_model(days: Set<i32>, table: Seq<(i32, u32, u32)>)
    requires
        forall|day: i32| days.contains(day) <==> table_days(table).contains(day as int),
    ensures
        days.map(|d: i32| d as int) == table_days(table),
{
    let image = days.map(|d: i32| d as int);
    assert forall|day: int| image.contains(day) <==> table_days(table).contains(day) by {
        if image.contains(day) {
            let d = choose|d: i32| days.contains(d) && d as int == day;
            assert(table_days(table).contains(d as int));
        }
        if table_days(table).contains(day) {
            let j = choose|j: int|
                0 <= j < table.len() && entry_date(#[trigger] table[j]).is_valid() && entry_date(
                    table[j],
                ).day_number() == day;
            crate::date::lemma_range_by_day_number(entry_date(table[j]));
            let d = day as i32;
            assert(days.contains(d));
        }
    }
    assert(image =~= table_days(table));
}

/// Why a calendar could not be loaded. The built-in tables always load.
#[derive(Debug, PartialEq, Eq, Structural)]
pub enum CalendarError {
    Unavailable,
}

/// Regional holidays and exceptional workdays.
#[derive(Debug)]
pub struct HolidayCalendar {
    holidays: HashSet<i32>,
    workdays: HashSet<i32>,
}

impl View for HolidayCalendar {
    type V = CalendarModel;

    closed spec fn view(&self) -> CalendarModel {
        CalendarModel {
            holidays: self.holidays@.map(|d: i32| d as int),
            workdays: self.workdays@.map(|d: i32| d as int),
        }
    }
}

impl HolidayCalendar {
    #[verifier::type_invariant]
    closed spec fn inv(self) -> bool {
        self.holidays@.finite() && self.workdays@.finite()
    }

    /// The calendar that declares the valid dates of `holidays` holidays and
    /// those of `workdays` workdays, each entry a year, a month and a day.
    pub fn from_tables(holidays: &Vec<(i32, u32, u32)>, workdays: &Vec<(i32, u32, u32)>) -> (cal:
        HolidayCalendar)
        ensures
            cal@.holidays == table_days(holidays@),
            cal@.workdays == table_days(workdays@),
    {
        HolidayCalendar { holidays: day_set(holidays), workdays: day_set(workdays) }
    }

    /// The calendar of the built-in tables.
    pub fn load() -> (r: Result<HolidayCalendar, CalendarError>)
        ensures
            r matches Ok(cal) && cal@ == builtin_calendar(),
    {
        let holidays = holiday_table();
        let workdays = workday_table();
        Ok(HolidayCalendar::from_tables(&holidays, &workdays))
    }

    /// The calendar without declared days: Saturdays and Sundays are off, every
    /// other day is a workday.
    pub fn weekends_only() -> (cal: HolidayCalendar)
        ensures
            cal@.holidays == Set::<int>::empty(),
            cal@.workdays == Set::<int>::empty(),
    {
        let none: Vec<(i32, u32, u32)> = Vec::new();
        let cal = HolidayCalendar::from_tables(&none, &none);
        assert(table_days(none@) =~= Set::<int>::empty());
        cal
    }

    /// The calendar of the built-in tables. Should they ever fail to load, the
    /// calendar falls back to `weekends_only`: ordinary weekends, no holidays.
    pub fn load_or_weekends() -> (cal: HolidayCalendar)
        ensures
            cal@ == builtin_calendar(),
    {
        match HolidayCalendar::load() {
            Ok(cal) => cal,
            Err(_) => HolidayCalendar::weekends_only(),
        }
    }

    /// Number of declared holidays.
    pub fn holiday_count(&self) -> (n: usize)
        ensures
            n == self@.holidays.len(),
    {
        proof {
            use_type_invariant(self);
            lemma_image_len(self.holidays@);
        }
        self.holidays.len()
    }

    /// Whether the day with this day number is a workday.
    pub fn is_workday_number(&self, day: i32) -> (r: bool)
        ensures
            r == self@.is_workday(day as int),
    {
        proof {
            lemma_image_contains(self.holidays@, day);
            lemma_image_contains(self.workdays@, day);
        }
        if self.workdays.contains(&day) {
            return true;
        }
        if self.holidays.contains(&day) {
            return false;
        }
        // The remainder of a day number that may be negative.
        let shifted: i64 = day as i64 + 6 + 7 * 306783379;
        shifted % 7 < 5
    }

    /// Whether `date` is a workday: a declared workday, or a day from Monday
    /// to Friday that is no declared holiday.
    pub fn is_workday(&self, date: Date) -> (r: bool)
        ensures
            r == self@.is_workday(date@.day_number()),
    {
        self.is_workday_number(date.day_number())
    }

    /// The nearest workday after `date`. `None` if none of the `SCAN_LIMIT`
    /// days after `date` is a workday, or if the nearest lies after year 9999.
    pub fn next_workday(&self, date: Date) -> (r: Option<Date>)
        ensures
            match r {
                Some(found) => self@.next_workday(date@.day_number()) == Some(
                    found@.day_number(),
                ) && found@.is_valid(),
                None => self@.next_workday(date@.day_number()) is None,
            },
    {
        let start: i32 = date.day_number();
        let mut step: i32 = 1;
        while step <= SCAN_LIMIT
            invariant
                1 <= step <= SCAN_LIMIT + 1,
                start == date@.day_number(),
                crate::date::MIN_DAY <= start <= MAX_DAY,
                self@.first_workday_from(start + 1, SCAN_LIMIT as nat)
                    == self@.first_workday_from(start + step, (SCAN_LIMIT + 1 - step) as nat),
            decreases SCAN_LIMIT + 1 - step,
        {
            let day: i32 = start + step;
            if self.is_workday_number(day) {
                return Date::from_day_number(day);
            }
            if day >= MAX_DAY {
                proof {
                    self@.lemma_first_workday(start + step + 1, (SCAN_LIMIT - step) as nat);
                }
                return None;
            }
            step += 1;
        }
        None
    }
}

proof fn lemma_image_contains(days: Set<i32>, day: i32)
    ensures
        days.map(|d: i32| d as int).contains(day as int) <==> days.contains(day),
{
    let image = days.map(|d: i32| d as int);
    if image.contains(day as int) {
        let d = choose|d: i32| days.contains(d) && d as int == day as int;
        assert(d == day);
    }
}

proof fn lemma_image_len(days: Set<i32>)
    requires
        days.finite(),
    ensures
        days.map(|d: i32| d as int).len() == days.len(),
{
    let f = |d: i32| d as int;
    assert(vstd::relations::injective_on(f, days));
    vstd::set_lib::lemma_map_size(days, days.map(f), f);
}

} // verus!
