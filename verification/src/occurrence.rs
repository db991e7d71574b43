use crate::date::Date;
use crate::date::MIN_DAY;
use crate::date::Ymd;
use crate::date::lemma_day_number_injective;
use crate::holidays::CalendarModel;
use crate::holidays::HolidayCalendar;
use crate::repeater::Repeater;
use crate::repeater::RepeaterUnit;
use vstd::prelude::*;

verus! {

/// Whether a rule anchored at `base` falls on `check`.
///
/// Never before `base`, and never with an interval of 0. By days and weeks:
/// the days since `base` are a multiple of the interval. By hours: on `base`
/// only. By months and years: the same day of the month (and month of the
/// year), a multiple of the interval later. By workdays: `check` is a
/// workday, and either is `base` or the number of workdays after `base` up to
/// `check` is a multiple of the interval.
pub open spec fn is_occurrence_day_spec(cal: CalendarModel, base: Ymd, rep: Repeater, check: Ymd)
    -> bool {
    let days = check.day_number() - base.day_number();
    let v = rep.value as int;
    if days < 0 || rep.value == 0 {
        false
    } else {
        match rep.unit {
            RepeaterUnit::Day => days % v == 0,
            RepeaterUnit::Week => days % (7 * v) == 0,
            RepeaterUnit::Hour => days == 0,
            RepeaterUnit::Year => check.day == base.day && check.month == base.month && check.year
                >= base.year && (check.year - base.year) % v == 0,
            RepeaterUnit::Month => check.day == base.day && check.month_index()
                >= base.month_index() && (check.month_index() - base.month_index()) % v == 0,
            RepeaterUnit::Workday => cal.is_workday(check.day_number()) && (days == 0
                || cal.workdays_between(base.day_number(), check.day_number()) % (v as nat) == 0),
        }
    }
}

/// No valid date after day `low` and up to day `high` is an occurrence day.
pub open spec fn no_occurrence_between(
    cal: CalendarModel,
    base: Ymd,
    rep: Repeater,
    low: int,
    high: int,
) -> bool {
    forall|c: Ymd|
        c.is_valid() && low < c.day_number() <= high ==> !#[trigger] is_occurrence_day_spec(
            cal,
            base,
            rep,
            c,
        )
}

/// `found` is the latest occurrence day up to day `upto`, if there is one.
pub open spec fn is_last_occurrence(
    cal: CalendarModel,
    base: Ymd,
    rep: Repeater,
    upto: int,
    found: Option<Ymd>,
) -> bool {
    match found {
        Some(d) => d.is_valid() && d.day_number() <= upto && is_occurrence_day_spec(
            cal,
            base,
            rep,
            d,
        ) && no_occurrence_between(cal, base, rep, d.day_number(), upto),
        None => no_occurrence_between(cal, base, rep, MIN_DAY - 1, upto),
    }
}

/// Number of workdays after `from` and up to `to`.
fn count_workdays(cal: &HolidayCalendar, from: i32, to: i32) -> (n: u32)
    requires
        MIN_DAY <= from,
        to <= crate::date::MAX_DAY,
    ensures
        n == cal@.workdays_between(from as int, to as int),
        n <= if to > from {
            to - from
        } else {
            0
        },
{
    let mut n: u32 = 0;
    if to <= from {
        return 0;
    }
    let mut day: i32 = from;
    while day < to
        invariant
            from <= day <= to <= crate::date::MAX_DAY,
            MIN_DAY <= from,
            n == cal@.workdays_between(from as int, day as int),
            n <= day - from,
        decreases to - day,
    {
        day += 1;
        if cal.is_workday_number(day) {
            n += 1;
        }
    }
    n
}

/// Whether a rule anchored at `base_date` falls on `check_date`, with the
/// calendar `cal` for workdays.
pub fn is_occurrence_day(
    cal: &HolidayCalendar,
    base_date: Date,
    repeater: &Repeater,
    check_date: Date,
) -> (r: bool)
    ensures
        r == is_occurrence_day_spec(cal@, base_date@, *repeater, check_date@),
{
    let days: i64 = check_date.days_since(&base_date);
    if days < 0 || repeater.value == 0 {
        return false;
    }
    let v: i64 = repeater.value as i64;
    match repeater.unit {
        RepeaterUnit::Day => days % v == 0,
        RepeaterUnit::Week => days % (7 * v) == 0,
        RepeaterUnit::Hour => days == 0,
        RepeaterUnit::Year => {
            if check_date.day() != base_date.day() || check_date.month() != base_date.month() {
                return false;
            }
            let years: i64 = check_date.year() as i64 - base_date.year() as i64;
            years >= 0 && years % v == 0
        },
        RepeaterUnit::Month => {
            if check_date.day() != base_date.day() {
                return false;
            }
            let months: i64 = (check_date.year() as i64 - base_date.year() as i64) * 12 + (
            check_date.month() as i64 - base_date.month() as i64);
            months >= 0 && months % v == 0
        },
        RepeaterUnit::Workday => {
            let check: i32 = check_date.day_number();
            if !cal.is_workday_number(check) {
                return false;
            }
            if days == 0 {
                return true;
            }
            let count: u32 = count_workdays(cal, base_date.day_number(), check);
            count % repeater.value == 0
        },
    }
}

/// The latest occurrence day of a rule that counts workdays, up to `upto`.
fn last_workday_occurrence(cal: &HolidayCalendar, base_date: Date, repeater: &Repeater, upto: Date)
    -> (r: Option<Date>)
    requires
        repeater.unit == RepeaterUnit::Workday,
        repeater.value >= 1,
        base_date@.day_number() <= upto@.day_number(),
    ensures
        is_last_occurrence(
            cal@,
            base_date@,
            *repeater,
            upto@.day_number(),
            match r {
                Some(d) => Some(d@),
                None => None,
            },
        ),
{
    let base: i32 = base_date.day_number();
    let top: i32 = upto.day_number();
    let mut count: u32 = count_workdays(cal, base, top);
    let mut day: i32 = top;
    while day >= base
        invariant
            base - 1 <= day <= top,
            base == base_date@.day_number(),
            top == upto@.day_number(),
            MIN_DAY <= base,
            top <= crate::date::MAX_DAY,
            repeater.unit == RepeaterUnit::Workday,
            repeater.value >= 1,
            day >= base ==> count == cal@.workdays_between(base as int, day as int),
            no_occurrence_between(cal@, base_date@, *repeater, day as int, top as int),
        decreases day - base + 1,
    {
        let workday: bool = cal.is_workday_number(day);
        if workday && (day == base || count % repeater.value == 0) {
            return Date::from_day_number(day);
        }
        assert(no_occurrence_between(cal@, base_date@, *repeater, day - 1, top as int));
        if workday {
            count -= 1;
        }
        day -= 1;
    }
    assert(no_occurrence_between(cal@, base_date@, *repeater, MIN_DAY - 1, top as int));
    None
}

/// The latest occurrence day up to `upto` of a rule that does not count
/// workdays.
fn last_plain_occurrence(cal: &HolidayCalendar, base_date: Date, repeater: &Repeater, upto: Date)
    -> (r: Option<Date>)
    requires
        repeater.unit != RepeaterUnit::Workday,
        repeater.value >= 1,
        base_date@.day_number() <= upto@.day_number(),
    ensures
        is_last_occurrence(
            cal@,
            base_date@,
            *repeater,
            upto@.day_number(),
            match r {
                Some(d) => Some(d@),
                None => None,
            },
        ),
{
    let mut current = upto;
    proof {
        use_type_invariant(&base_date);
        use_type_invariant(&upto);
    }
    loop
        invariant
            repeater.value >= 1,
            base_date@.is_valid(),
            current@.is_valid(),
            base_date@.day_number() <= current@.day_number() <= upto@.day_number(),
            no_occurrence_between(
                cal@,
                base_date@,
                *repeater,
                current@.day_number(),
                upto@.day_number(),
            ),
        decreases current@.day_number() - base_date@.day_number(),
    {
        if is_occurrence_day(cal, base_date, repeater, current) {
            return Some(current);
        }
        assert forall|c: Ymd|
            c.is_valid() && current@.day_number() - 1 < c.day_number()
                <= upto@.day_number() implies !#[trigger] is_occurrence_day_spec(
            cal@,
            base_date@,
            *repeater,
            c,
        ) by {
            if c.day_number() == current@.day_number() {
                lemma_day_number_injective(c, current@);
            }
        }
        if current.same_day(&base_date) {
            return None;
        }
        match current.add_days(-1) {
            Some(previous) => {
                current = previous;
            },
            None => {
                return None;
            },
        }
    }
}

/// The latest occurrence day up to `upto`.
pub fn last_occurrence_upto(cal: &HolidayCalendar, base_date: Date, repeater: &Repeater, upto: Date)
    -> (r: Option<Date>)
    ensures
        is_last_occurrence(
            cal@,
            base_date@,
            *repeater,
            upto@.day_number(),
            match r {
                Some(d) => Some(d@),
                None => None,
            },
        ),
{
    if repeater.value == 0 || upto.is_before(&base_date) {
        None
    } else if repeater.unit == RepeaterUnit::Workday {
        last_workday_occurrence(cal, base_date, repeater, upto)
    } else {
        last_plain_occurrence(cal, base_date, repeater, upto)
    }
}

/// The latest occurrence day before `before_date`, if there is one.
pub fn find_last_occurrence_before(
    cal: &HolidayCalendar,
    base_date: Date,
    repeater: &Repeater,
    before_date: Date,
) -> (r: Option<Date>)
    ensures
        is_last_occurrence(
            cal@,
            base_date@,
            *repeater,
            before_date@.day_number() - 1,
            match r {
                Some(d) => Some(d@),
                None => None,
            },
        ),
{
    match before_date.add_days(-1) {
        Some(upto) => last_occurrence_upto(cal, base_date, repeater, upto),
        None => {
            proof {
                use_type_invariant(&before_date);
                assert forall|c: Ymd| c.is_valid() implies c.day_number() >= MIN_DAY by {
                    crate::date::lemma_range_by_day_number(c);
                }
            }
            None
        },
    }
}

/// `found` is the anchor `base` where `target` is not after it; else the
/// latest day up to `target` that is the anchor or an occurrence day.
pub open spec fn is_closest_on_or_before(
    cal: CalendarModel,
    base: Ymd,
    rep: Repeater,
    target: Ymd,
    found: Ymd,
) -> bool {
    if target.day_number() <= base.day_number() {
        found == base
    } else {
        &&& found.is_valid()
        &&& base.day_number() <= found.day_number() <= target.day_number()
        &&& found == base || is_occurrence_day_spec(cal, base, rep, found)
        &&& no_occurrence_between(cal, base, rep, found.day_number(), target.day_number())
    }
}

/// The closest occurrence at or before `target`: see [`is_closest_on_or_before`].
pub open spec fn closest_on_or_before_spec(
    cal: CalendarModel,
    base: Ymd,
    rep: Repeater,
    target: Ymd,
) -> Ymd {
    choose|found: Ymd| is_closest_on_or_before(cal, base, rep, target, found)
}

/// There is one closest occurrence at or before `target` at most.
pub proof fn lemma_closest_on_or_before_unique(
    cal: CalendarModel,
    base: Ymd,
    rep: Repeater,
    target: Ymd,
    first: Ymd,
    second: Ymd,
)
    requires
        base.is_valid(),
        is_closest_on_or_before(cal, base, rep, target, first),
        is_closest_on_or_before(cal, base, rep, target, second),
    ensures
        first == second,
{
    if target.day_number() > base.day_number() {
        if first.day_number() < second.day_number() {
            assert(is_occurrence_day_spec(cal, base, rep, second));
        } else if second.day_number() < first.day_number() {
            assert(is_occurrence_day_spec(cal, base, rep, first));
        } else {
            lemma_day_number_injective(first, second);
        }
    }
}

/// The closest occurrence at or before `target`: the anchor where `target` is
/// not after it, else the latest day up to `target` that is the anchor or an
/// occurrence day.
pub fn closest_on_or_before(
    cal: &HolidayCalendar,
    base_date: Date,
    repeater: &Repeater,
    target: Date,
) -> (r: Date)
    ensures
        r@ == closest_on_or_before_spec(cal@, base_date@, *repeater, target@),
        is_closest_on_or_before(cal@, base_date@, *repeater, target@, r@),
{
    proof {
        use_type_invariant(&base_date);
        use_type_invariant(&target);
    }
    let found = if !base_date.is_before(&target) {
        base_date
    } else {
        match last_occurrence_upto(cal, base_date, repeater, target) {
            Some(d) => d,
            None => base_date,
        }
    };
    proof {
        lemma_closest_on_or_before_unique(
            cal@,
            base_date@,
            *repeater,
            target@,
            found@,
            closest_on_or_before_spec(cal@, base_date@, *repeater, target@),
        );
    }
    found
}

/// `found` is the anchor `base` where `target` is not after it; else the
/// earliest occurrence day from `target` on, if there is one up to year 9999.
pub open spec fn is_closest_on_or_after(
    cal: CalendarModel,
    base: Ymd,
    rep: Repeater,
    target: Ymd,
    found: Option<Ymd>,
) -> bool {
    if target.day_number() <= base.day_number() {
        found == Some(base)
    } else {
        match found {
            Some(d) => d.is_valid() && target.day_number() <= d.day_number()
                && is_occurrence_day_spec(cal, base, rep, d) && no_occurrence_between(
                cal,
                base,
                rep,
                target.day_number() - 1,
                d.day_number() - 1,
            ),
            None => no_occurrence_between(
                cal,
                base,
                rep,
                target.day_number() - 1,
                crate::date::MAX_DAY as int,
            ),
        }
    }
}

/// The closest occurrence at or after `target`: see [`is_closest_on_or_after`].
pub open spec fn closest_on_or_after_spec(
    cal: CalendarModel,
    base: Ymd,
    rep: Repeater,
    target: Ymd,
) -> Option<Ymd> {
    choose|found: Option<Ymd>| is_closest_on_or_after(cal, base, rep, target, found)
}

/// A day after the anchor is its own closest occurrence at or after it
/// exactly when it is an occurrence day; a day up to the anchor, when it is
/// the anchor.
pub proof fn lemma_closest_on_or_after_is_target(
    cal: CalendarModel,
    base: Ymd,
    rep: Repeater,
    target: Ymd,
)
    requires
        base.is_valid(),
        target.is_valid(),
    ensures
        closest_on_or_after_spec(cal, base, rep, target) == Some(target) <==> if target.day_number()
            <= base.day_number() {
            target == base
        } else {
            is_occurrence_day_spec(cal, base, rep, target)
        },
{
    let chosen = closest_on_or_after_spec(cal, base, rep, target);
    if target.day_number() <= base.day_number() {
        assert(is_closest_on_or_after(cal, base, rep, target, Some(base)));
    } else if is_occurrence_day_spec(cal, base, rep, target) {
        assert(is_closest_on_or_after(cal, base, rep, target, Some(target)));
        match chosen {
            Some(d) => {
                if d.day_number() > target.day_number() {
                    assert(false);
                }
                lemma_day_number_injective(d, target);
            },
            None => {
                crate::date::lemma_range_by_day_number(target);
                assert(false);
            },
        }
    } else {
        if chosen == Some(target) {
            // What was chosen may be anything if nothing is closest: rule that out.
            if exists|found: Option<Ymd>| is_closest_on_or_after(cal, base, rep, target, found) {
                assert(false);
            } else {
                lemma_closest_on_or_after_exists(cal, base, rep, target);
                assert(false);
            }
        }
    }
}

/// There always is a closest occurrence at or after `target`, or none at all.
pub proof fn lemma_closest_on_or_after_exists(
    cal: CalendarModel,
    base: Ymd,
    rep: Repeater,
    target: Ymd,
)
    requires
        base.is_valid(),
        target.is_valid(),
    ensures
        exists|found: Option<Ymd>| is_closest_on_or_after(cal, base, rep, target, found),
{
    if target.day_number() <= base.day_number() {
        assert(is_closest_on_or_after(cal, base, rep, target, Some(base)));
    } else {
        crate::date::lemma_range_by_day_number(target);
        let from = target.day_number();
        let count = (crate::date::MAX_DAY - target.day_number() + 1) as nat;
        lemma_first_occurrence_from(cal, base, rep, from, count);
        let found = choose|found: Option<Ymd>|
            #[trigger] first_occurrence_in(cal, base, rep, from, count, found);
        assert(is_closest_on_or_after(cal, base, rep, target, found));
    }
}

/// `found` is the earliest occurrence day among the `count` days from day
/// `from` on, if there is one.
pub open spec fn first_occurrence_in(
    cal: CalendarModel,
    base: Ymd,
    rep: Repeater,
    from: int,
    count: nat,
    found: Option<Ymd>,
) -> bool {
    match found {
        Some(d) => d.is_valid() && from <= d.day_number() < from + count
            && is_occurrence_day_spec(cal, base, rep, d) && no_occurrence_between(
            cal,
            base,
            rep,
            from - 1,
            d.day_number() - 1,
        ),
        None => no_occurrence_between(cal, base, rep, from - 1, from + count - 1),
    }
}

/// Among any run of days, there is an earliest occurrence day or none.
pub proof fn lemma_first_occurrence_from(
    cal: CalendarModel,
    base: Ymd,
    rep: Repeater,
    from: int,
    count: nat,
)
    ensures
        exists|found: Option<Ymd>| #[trigger] first_occurrence_in(cal, base, rep, from, count, found),
    decreases count,
{
    if count == 0 {
        assert(first_occurrence_in(cal, base, rep, from, count, None));
    } else {
        let fewer = (count - 1) as nat;
        lemma_first_occurrence_from(cal, base, rep, from, fewer);
        let earlier = choose|found: Option<Ymd>|
            #[trigger] first_occurrence_in(cal, base, rep, from, fewer, found);
        match earlier {
            Some(d) => {
                assert(first_occurrence_in(cal, base, rep, from, count, earlier));
            },
            None => {
                let last = from + count - 1;
                if exists|c: Ymd|
                    c.is_valid() && c.day_number() == last && is_occurrence_day_spec(
                        cal,
                        base,
                        rep,
                        c,
                    ) {
                    let c = choose|c: Ymd|
                        c.is_valid() && c.day_number() == last && is_occurrence_day_spec(
                            cal,
                            base,
                            rep,
                            c,
                        );
                    assert(first_occurrence_in(cal, base, rep, from, count, Some(c)));
                } else {
                    assert(first_occurrence_in(cal, base, rep, from, count, None));
                }
            },
        }
    }
}

/// `found` is the latest occurrence day among the `count` days after day
/// `from`, if there is one.
pub open spec fn last_occurrence_in(
    cal: CalendarModel,
    base: Ymd,
    rep: Repeater,
    from: int,
    count: nat,
    found: Option<Ymd>,
) -> bool {
    match found {
        Some(d) => d.is_valid() && from < d.day_number() <= from + count
            && is_occurrence_day_spec(cal, base, rep, d) && no_occurrence_between(
            cal,
            base,
            rep,
            d.day_number(),
            from + count,
        ),
        None => no_occurrence_between(cal, base, rep, from, from + count),
    }
}

/// Among any run of days, there is a latest occurrence day or none.
pub proof fn lemma_last_occurrence_exists(
    cal: CalendarModel,
    base: Ymd,
    rep: Repeater,
    from: int,
    count: nat,
)
    ensures
        exists|found: Option<Ymd>| #[trigger] last_occurrence_in(cal, base, rep, from, count, found),
    decreases count,
{
    if count == 0 {
        assert(last_occurrence_in(cal, base, rep, from, count, None));
    } else {
        let last = from + count;
        if exists|c: Ymd|
            c.is_valid() && c.day_number() == last && is_occurrence_day_spec(cal, base, rep, c) {
            let c = choose|c: Ymd|
                c.is_valid() && c.day_number() == last && is_occurrence_day_spec(cal, base, rep, c);
            assert(last_occurrence_in(cal, base, rep, from, count, Some(c)));
        } else {
            let fewer = (count - 1) as nat;
            lemma_last_occurrence_exists(cal, base, rep, from, fewer);
            let earlier = choose|found: Option<Ymd>| #[trigger]
                last_occurrence_in(cal, base, rep, from, fewer, found);
            assert(last_occurrence_in(cal, base, rep, from, count, earlier));
        }
    }
}

} // verus!
