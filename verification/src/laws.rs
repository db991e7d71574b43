use crate::agenda::AgendaModel;
use crate::agenda::Bucket;
use crate::agenda::agenda_of;
use crate::agenda::agendas_from;
use crate::agenda::is_done;
use crate::agenda::key_position;
use crate::agenda::offset_key;
use crate::agenda::offset_position;
use crate::agenda::place;
use crate::agenda::place_plain;
use crate::agenda::place_repeating;
use crate::agenda::repeat_of;
use crate::agenda::task_placement;
use crate::agenda::unit_letters;
use crate::agenda::warning_days;
use crate::date::Ymd;
use crate::date::lemma_order_by_day_number;
use crate::date::month_length;
use crate::directive::marker_text;
use crate::dispatch::month_of;
use crate::holidays::CalendarModel;
use crate::occurrence::closest_on_or_before_spec;
use crate::occurrence::is_closest_on_or_before;
use crate::repeater::Repeater;
use crate::repeater::RepeaterUnit;
use crate::repeater::add_months_spec;
use crate::repeater::lemma_add_months_civil;
use crate::repeater::lemma_ceil_div_bounds;
use crate::repeater::month_step_on_or_after;
use crate::repeater::repeater_body;
use crate::repeater::repeater_marker;
use crate::repeater::repeater_of;
use crate::repeater::unit_of;
use crate::text::all_digits;
use crate::text::digits_value;
use crate::text::is_digit;
use crate::text::trimmed;
use crate::timestamp::TimestampKind;
use crate::timestamp::TimestampView;
use crate::timestamp::timestamp_of;
use crate::types::DayAgendaView;
use crate::types::TaskView;
use crate::types::TaskWithOffsetView;
use vstd::prelude::*;

verus! {

/// The task is placed in the list `bucket` of the agenda of `day`.
pub open spec fn placed_in(
    cal: CalendarModel,
    task: TaskView,
    day: Ymd,
    current: Ymd,
    bucket: Bucket,
) -> bool {
    task_placement(cal, task, day, current) matches Some(p) && p.bucket == bucket
}

/// A task without a repeater that is not done is overdue on a day exactly
/// when that day is the current day and the date of the task lies before it.
pub proof fn law_overdue_without_repeater(
    cal: CalendarModel,
    task: TaskView,
    p: TimestampView,
    day: Ymd,
    current: Ymd,
)
    requires
        task.timestamp matches Some(text) && timestamp_of(text) == Some(p),
        p.repeater is None,
        !is_done(task),
        p.date.is_valid(),
        day.is_valid(),
        current.is_valid(),
    ensures
        placed_in(cal, task, day, current, Bucket::Overdue) <==> day == current && p.date.precedes(
            day,
        ),
{
    lemma_order_by_day_number(p.date, day);
}

/// On the current day, a deadline without a repeater that is not done is
/// upcoming exactly when it lies ahead by no more than its warning period,
/// which is 14 days where the directive gives none.
pub proof fn law_upcoming_without_repeater(
    cal: CalendarModel,
    task: TaskView,
    p: TimestampView,
    current: Ymd,
)
    requires
        task.timestamp matches Some(text) && timestamp_of(text) == Some(p),
        p.repeater is None,
        p.kind == TimestampKind::Deadline,
        !is_done(task),
    ensures
        placed_in(cal, task, current, current, Bucket::Upcoming) <==> 0 < p.date.day_number()
            - current.day_number() <= warning_days(p),
        p.deadline_warning_days is None ==> warning_days(p) == 14,
{
}

/// On the current day, a deadline with a repeater that is not done is
/// upcoming exactly when its closest occurrence lies ahead by no more than
/// its warning period.
pub proof fn law_upcoming_with_repeater(
    cal: CalendarModel,
    task: TaskView,
    p: TimestampView,
    rep: Repeater,
    current: Ymd,
)
    requires
        task.timestamp matches Some(text) && timestamp_of(text) == Some(p),
        p.repeater == Some(rep),
        rep.is_valid(),
        p.kind == TimestampKind::Deadline,
        !is_done(task),
        p.date.is_valid(),
        current.is_valid(),
    ensures
        repeat_of(cal, p, rep, current, current) matches Some(occurrence) && (placed_in(
            cal,
            task,
            current,
            current,
            Bucket::Upcoming,
        ) <==> 0 < occurrence.day_number() - current.day_number() <= warning_days(p)),
{
    let deadline = closest_on_or_before_spec(cal, p.date, rep, current);
    lemma_closest_exists(cal, p.date, rep, current);
    if deadline.day_number() == current.day_number() {
        if current.day_number() <= p.date.day_number() {
            assert(deadline == p.date);
        }
        crate::date::lemma_day_number_injective(deadline, current);
    }
}

/// There is a closest occurrence at or before every day.
pub proof fn lemma_closest_exists(cal: CalendarModel, base: Ymd, rep: Repeater, target: Ymd)
    requires
        base.is_valid(),
        target.is_valid(),
    ensures
        is_closest_on_or_before(
            cal,
            base,
            rep,
            target,
            closest_on_or_before_spec(cal, base, rep, target),
        ),
{
    if target.day_number() <= base.day_number() {
        assert(is_closest_on_or_before(cal, base, rep, target, base));
    } else {
        crate::occurrence::lemma_last_occurrence_exists(
            cal,
            base,
            rep,
            base.day_number(),
            (target.day_number() - base.day_number()) as nat,
        );
        let found = choose|found: Option<Ymd>| #[trigger]
            crate::occurrence::last_occurrence_in(
                cal,
                base,
                rep,
                base.day_number(),
                (target.day_number() - base.day_number()) as nat,
                found,
            );
        match found {
            Some(d) => {
                assert(is_closest_on_or_before(cal, base, rep, target, d));
            },
            None => {
                assert(is_closest_on_or_before(cal, base, rep, target, base));
            },
        }
    }
}

/// A task that is done is never overdue and never upcoming, whatever the day.
pub proof fn law_done_only_scheduled(cal: CalendarModel, task: TaskView, day: Ymd, current: Ymd)
    requires
        is_done(task),
    ensures
        !placed_in(cal, task, day, current, Bucket::Overdue),
        !placed_in(cal, task, day, current, Bucket::Upcoming),
{
}

/// A month runs for as many days as the calendar gives it: 28, 29, 30 or 31.
pub proof fn law_month_days(anchor: Ymd)
    requires
        anchor.is_valid(),
    ensures
        month_of(anchor).1 - month_of(anchor).0 + 1 == month_length(anchor.year, anchor.month),
        28 <= month_length(anchor.year, anchor.month) <= 31,
{
}

/// There are as many agendas as days.
pub proof fn law_one_agenda_a_day(
    cal: CalendarModel,
    tasks: Seq<TaskView>,
    start: int,
    count: nat,
    current: Ymd,
)
    ensures
        agendas_from(cal, tasks, start, count, current).len() == count,
    decreases count,
{
    if count > 0 {
        law_one_agenda_a_day(cal, tasks, start, (count - 1) as nat, current);
    }
}

/// A date moved by months keeps its day of the month, or takes the last day
/// of the month where the month is shorter, and lands in the month that many
/// months on.
pub proof fn law_add_months_keeps_day(date: Ymd, months: int)
    requires
        date.is_civil(),
    ensures
        ({
            let moved = add_months_spec(date, months);
            let length = month_length(moved.year, moved.month);
            &&& moved.is_civil()
            &&& moved.month_index() == date.month_index() + months
            &&& moved.day == if date.day <= length {
                date.day
            } else {
                length
            }
        }),
{
    lemma_add_months_civil(date, months);
}

/// The text `s` is the token of `rule` with the interval written as
/// `digits`: the marker of the rule, then a run of digits that write its
/// interval, a number of at least 1, then the letters of its unit.
pub open spec fn is_rule_text(s: Seq<char>, rule: Repeater, digits: Seq<char>) -> bool {
    &&& s == marker_text(rule.repeater_type) + digits + unit_letters(rule.unit)
    &&& digits_value(digits) == Some(rule.value)
    &&& rule.value >= 1
}

/// A token that is, white space around it aside, a marker, a run of digits
/// that write a number of at least 1, and a unit is read as the rule with
/// that marker, that number and that unit.
pub proof fn law_rule_text_is_read(token: Seq<char>, rule: Repeater, digits: Seq<char>)
    requires
        is_rule_text(trimmed(token), rule, digits),
    ensures
        repeater_of(token) == Some(rule),
{
    let s = trimmed(token);
    let marker = marker_text(rule.repeater_type);
    let unit = unit_letters(rule.unit);
    let n = s.len() as int;
    let k = marker.len() as int;
    assert(all_digits(digits) && digits.len() > 0);
    assert(is_digit(digits[0]));
    assert(is_digit(digits[digits.len() - 1]));
    assert(s[0] == marker[0]);
    assert(s[k] == digits[0]);
    if k == 2 {
        assert(s[1] == marker[1]);
    }
    assert(repeater_marker(s) == Some((rule.repeater_type, k)));
    let rest = s.skip(k);
    assert(rest =~= digits + unit);
    let m = rest.len() as int;
    if rule.unit == RepeaterUnit::Workday {
        assert(rest[m - 2] == 'w' && rest[m - 1] == 'd');
        assert(rest.subrange(0, m - 2) =~= digits);
    } else {
        assert(rest[m - 2] == digits[digits.len() - 1]);
        assert(rest[m - 1] == unit[0]);
        assert(rest.subrange(0, m - 1) =~= digits);
        assert(unit_of(rest[m - 1]) == Some(rule.unit));
    }
    assert(repeater_body(rule.repeater_type, rest) == Some(rule));
}

/// A token is read as a rule only where it is, white space around it aside,
/// the marker of that rule, a run of digits that write its interval, a number
/// of at least 1, and the letters of its unit: no sign, no blank and nothing
/// else stands in it.
pub proof fn law_rule_read_has_text(token: Seq<char>)
    requires
        repeater_of(token) is Some,
    ensures
        exists|digits: Seq<char>| #[trigger]
            is_rule_text(trimmed(token), repeater_of(token)->0, digits),
{
    let s = trimmed(token);
    let rule = repeater_of(token)->0;
    let (kind, k) = repeater_marker(s)->0;
    let rest = s.skip(k);
    let m = rest.len() as int;
    assert(s.subrange(0, k) =~= marker_text(kind));
    let stop = if m >= 2 && rest[m - 2] == 'w' && rest[m - 1] == 'd' {
        m - 2
    } else {
        m - 1
    };
    let digits = rest.subrange(0, stop);
    assert(rest.subrange(stop, m) =~= unit_letters(rule.unit));
    assert(s =~= s.subrange(0, k) + digits + rest.subrange(stop, m));
    assert(is_rule_text(s, rule, digits));
}

/// The next occurrence of a rule that steps by months from its anchor is not
/// before the day it is seen from, lies a whole number of intervals after the
/// anchor, and keeps the day of the month of the anchor or is cut to the
/// month's end.
pub proof fn law_month_step(base: Ymd, months: int, from: Ymd)
    requires
        base.is_civil(),
        from.is_civil(),
        months >= 1,
    ensures
        ({
            let next = month_step_on_or_after(base, months, from);
            let length = month_length(next.year, next.month);
            &&& next.is_civil()
            &&& next.day_number() >= from.day_number()
            &&& exists|k: int|
                k >= 0 && next.month_index() == base.month_index() + #[trigger] (k * months)
            &&& next.day == if base.day <= length {
                base.day
            } else {
                length
            }
        }),
{
    let gap = from.month_index() - base.month_index();
    let k = if gap <= 0 {
        0
    } else {
        crate::repeater::ceil_div(gap, months)
    };
    if gap > 0 {
        lemma_ceil_div_bounds(gap, months);
    } else {
        assert(k * months == 0) by (nonlinear_arith)
            requires
                k == 0,
        ;
    }
    let first = add_months_spec(base, k * months);
    lemma_add_months_civil(base, k * months);
    assert((k + 1) * months == k * months + months) by (nonlinear_arith);
    let second = add_months_spec(base, (k + 1) * months);
    lemma_add_months_civil(base, (k + 1) * months);
    let next = month_step_on_or_after(base, months, from);
    if first.day_number() >= from.day_number() {
        assert(next == first);
        assert(next.month_index() == base.month_index() + k * months);
    } else {
        assert(next == second);
        assert(next.month_index() == base.month_index() + (k + 1) * months);
        // The later step lies in a later month than `from`.
        assert(second.month_index() > from.month_index()) by {
            if first.month_index() > from.month_index() {
                assert(from.precedes(first));
                lemma_order_by_day_number(from, first);
            }
        }
        assert(from.precedes(second));
        lemma_order_by_day_number(from, second);
    }
}

/// The next occurrence of a rule that steps by days from its anchor `b`, seen
/// from day `f`, is the first day not before `f` that lies a whole number of
/// steps after the anchor.
pub proof fn law_day_step(b: int, step: int, f: int)
    requires
        step >= 1,
    ensures
        ({
            let next = if f <= b {
                b
            } else {
                b + crate::repeater::ceil_div(f - b, step) * step
            };
            &&& next >= f
            &&& next >= b
            &&& (next - b) % step == 0
            &&& forall|d: int| b <= d && f <= d < next ==> #[trigger] ((d - b) % step) != 0
        }),
{
    if f > b {
        let q = crate::repeater::ceil_div(f - b, step);
        lemma_ceil_div_bounds(f - b, step);
        let next = b + q * step;
        vstd::arithmetic::div_mod::lemma_fundamental_div_mod_converse(q * step, step, q, 0);
        assert forall|d: int| b <= d && f <= d < next implies #[trigger] ((d - b) % step)
            != 0 by {
            if (d - b) % step == 0 {
                vstd::arithmetic::div_mod::lemma_fundamental_div_mod(d - b, step);
                let k = (d - b) / step;
                assert(d - b == step * k);
                assert(k < q) by (nonlinear_arith)
                    requires
                        step * k < q * step,
                        step >= 1,
                ;
                assert(step * k <= q * step - step) by (nonlinear_arith)
                    requires
                        k <= q - 1,
                        step >= 1,
                ;
            }
        }
    } else {
        vstd::arithmetic::div_mod::lemma_small_mod(0, step as nat);
    }
}

/// How many of `tasks` are placed in the list `bucket` of the agenda of `day`.
pub open spec fn placed_count(
    cal: CalendarModel,
    tasks: Seq<TaskView>,
    day: Ymd,
    current: Ymd,
    bucket: Bucket,
) -> nat
    decreases tasks.len(),
{
    if tasks.len() == 0 {
        0
    } else {
        placed_count(cal, tasks.drop_last(), day, current, bucket) + if placed_in(
            cal,
            tasks.last(),
            day,
            current,
            bucket,
        ) {
            1nat
        } else {
            0nat
        }
    }
}

/// Sorted from the smallest distance on.
pub open spec fn sorted_by_offset(entries: Seq<TaskWithOffsetView>) -> bool {
    forall|i: int, j: int|
        0 <= i <= j < entries.len() ==> offset_key(#[trigger] entries[i]) <= offset_key(
            #[trigger] entries[j],
        )
}

/// Sorted from the smallest key on.
pub open spec fn sorted_keys(keys: Seq<i64>) -> bool {
    forall|i: int, j: int| 0 <= i <= j < keys.len() ==> #[trigger] keys[i] <= #[trigger] keys[j]
}

/// In a sorted list the place for a new entry lies behind the entries that
/// are not larger and before the larger ones.
pub proof fn lemma_offset_position(entries: Seq<TaskWithOffsetView>, key: i64)
    requires
        sorted_by_offset(entries),
    ensures
        0 <= offset_position(entries, key) <= entries.len(),
        forall|i: int|
            0 <= i < offset_position(entries, key) ==> offset_key(#[trigger] entries[i]) <= key,
        forall|i: int|
            offset_position(entries, key) <= i < entries.len() ==> offset_key(
                #[trigger] entries[i],
            ) > key,
    decreases entries.len(),
{
    if entries.len() > 0 && offset_key(entries.last()) > key {
        let shorter = entries.drop_last();
        assert forall|i: int, j: int| 0 <= i <= j < shorter.len() implies offset_key(
            #[trigger] shorter[i],
        ) <= offset_key(#[trigger] shorter[j]) by {
            assert(shorter[i] == entries[i] && shorter[j] == entries[j]);
        }
        lemma_offset_position(shorter, key);
        assert forall|i: int| 0 <= i < offset_position(entries, key) implies offset_key(
            #[trigger] entries[i],
        ) <= key by {
            assert(entries[i] == shorter[i]);
        }
        assert forall|i: int| offset_position(entries, key) <= i < entries.len() implies offset_key(
            #[trigger] entries[i],
        ) > key by {
            if i < shorter.len() {
                assert(entries[i] == shorter[i]);
            }
        }
    } else if entries.len() > 0 {
        assert forall|i: int| 0 <= i < entries.len() implies offset_key(#[trigger] entries[i])
            <= key by {
            assert(offset_key(entries[i]) <= offset_key(entries[entries.len() - 1]));
        }
    }
}

/// In a sorted list of keys the place for a new key lies behind the keys that
/// are not larger and before the larger ones.
pub proof fn lemma_key_position(keys: Seq<i64>, key: i64)
    requires
        sorted_keys(keys),
    ensures
        0 <= key_position(keys, key) <= keys.len(),
        forall|i: int| 0 <= i < key_position(keys, key) ==> #[trigger] keys[i] <= key,
        forall|i: int| key_position(keys, key) <= i < keys.len() ==> #[trigger] keys[i] > key,
    decreases keys.len(),
{
    if keys.len() > 0 && keys.last() > key {
        let shorter = keys.drop_last();
        assert forall|i: int, j: int| 0 <= i <= j < shorter.len() implies #[trigger] shorter[i]
            <= #[trigger] shorter[j] by {
            assert(shorter[i] == keys[i] && shorter[j] == keys[j]);
        }
        lemma_key_position(shorter, key);
        assert forall|i: int| 0 <= i < key_position(keys, key) implies #[trigger] keys[i]
            <= key by {
            assert(keys[i] == shorter[i]);
        }
        assert forall|i: int| key_position(keys, key) <= i < keys.len() implies #[trigger] keys[i]
            > key by {
            if i < shorter.len() {
                assert(keys[i] == shorter[i]);
            }
        }
    } else if keys.len() > 0 {
        assert forall|i: int| 0 <= i < keys.len() implies #[trigger] keys[i] <= key by {
            assert(keys[i] <= keys[keys.len() - 1]);
        }
    }
}

/// What holds of an agenda while it is built: every list is sorted, the timed
/// list by the keys kept beside it.
pub open spec fn well_sorted(state: AgendaModel) -> bool {
    &&& sorted_by_offset(state.agenda.overdue)
    &&& sorted_by_offset(state.agenda.upcoming)
    &&& sorted_keys(state.timed_keys)
    &&& state.timed_keys.len() == state.agenda.scheduled_timed.len()
}

/// The distance that an overdue or upcoming task is sorted by is the one
/// shown with it.
proof fn lemma_placement_key(cal: CalendarModel, task: TaskView, day: Ymd, current: Ymd)
    ensures
        task_placement(cal, task, day, current) matches Some(p) ==> (p.bucket == Bucket::Overdue
            || p.bucket == Bucket::Upcoming ==> offset_key(p.entry) == p.key),
{
    match task.timestamp {
        Some(text) => match timestamp_of(text) {
            Some(parsed) => match parsed.repeater {
                Some(rep) => {
                    assert(place_repeating(cal, task, parsed, rep, day, current) matches Some(p)
                        ==> (p.bucket == Bucket::Overdue || p.bucket == Bucket::Upcoming
                        ==> offset_key(p.entry) == p.key));
                },
                None => {
                    assert(place_plain(task, parsed, day, day == current) matches Some(p) ==> (
                    p.bucket == Bucket::Overdue || p.bucket == Bucket::Upcoming ==> offset_key(
                        p.entry,
                    ) == p.key));
                },
            },
            None => {},
        },
        None => {},
    }
}

/// The lists of an agenda are sorted: the overdue list from the longest
/// overdue on, the upcoming list from the nearest on, the timed list by the
/// time of day.
pub proof fn law_agenda_sorted(cal: CalendarModel, tasks: Seq<TaskView>, day: Ymd, current: Ymd)
    ensures
        well_sorted(agenda_of(cal, tasks, day, current)),
    decreases tasks.len(),
{
    if tasks.len() > 0 {
        law_agenda_sorted(cal, tasks.drop_last(), day, current);
        let before = agenda_of(cal, tasks.drop_last(), day, current);
        lemma_placement_key(cal, tasks.last(), day, current);
        match task_placement(cal, tasks.last(), day, current) {
            Some(p) => {
                lemma_place_sorted(before, p);
            },
            None => {},
        }
    }
}

/// The place for a new entry lies within the list.
proof fn lemma_offset_position_bounds(entries: Seq<TaskWithOffsetView>, key: i64)
    ensures
        0 <= offset_position(entries, key) <= entries.len(),
    decreases entries.len(),
{
    if entries.len() > 0 && offset_key(entries.last()) > key {
        lemma_offset_position_bounds(entries.drop_last(), key);
    }
}

/// The place for a new key lies within the list.
proof fn lemma_key_position_bounds(keys: Seq<i64>, key: i64)
    ensures
        0 <= key_position(keys, key) <= keys.len(),
    decreases keys.len(),
{
    if keys.len() > 0 && keys.last() > key {
        lemma_key_position_bounds(keys.drop_last(), key);
    }
}

/// The length of the list `bucket` of an agenda.
pub open spec fn list_len(agenda: DayAgendaView, bucket: Bucket) -> nat {
    match bucket {
        Bucket::Overdue => agenda.overdue.len(),
        Bucket::ScheduledTimed => agenda.scheduled_timed.len(),
        Bucket::ScheduledUntimed => agenda.scheduled_no_time.len(),
        Bucket::Upcoming => agenda.upcoming.len(),
    }
}

/// Placing a task makes its list one longer and leaves the other lists as
/// long as they were.
proof fn lemma_place_len(state: AgendaModel, p: crate::agenda::PlacementView, bucket: Bucket)
    requires
        state.timed_keys.len() == state.agenda.scheduled_timed.len(),
    ensures
        list_len(place(state, Some(p)).agenda, bucket) == list_len(state.agenda, bucket) + if p.bucket
            == bucket {
            1nat
        } else {
            0nat
        },
{
    let after = place(state, Some(p)).agenda;
    match p.bucket {
        Bucket::Overdue => {
            lemma_offset_position_bounds(state.agenda.overdue, p.key);
            assert(after.overdue.len() == state.agenda.overdue.len() + 1);
            assert(after.upcoming == state.agenda.upcoming);
            assert(after.scheduled_timed == state.agenda.scheduled_timed);
            assert(after.scheduled_no_time == state.agenda.scheduled_no_time);
        },
        Bucket::Upcoming => {
            lemma_offset_position_bounds(state.agenda.upcoming, p.key);
            assert(after.upcoming.len() == state.agenda.upcoming.len() + 1);
            assert(after.overdue == state.agenda.overdue);
            assert(after.scheduled_timed == state.agenda.scheduled_timed);
            assert(after.scheduled_no_time == state.agenda.scheduled_no_time);
        },
        Bucket::ScheduledUntimed => {
            assert(after.scheduled_no_time.len() == state.agenda.scheduled_no_time.len() + 1);
            assert(after.overdue == state.agenda.overdue);
            assert(after.upcoming == state.agenda.upcoming);
            assert(after.scheduled_timed == state.agenda.scheduled_timed);
        },
        Bucket::ScheduledTimed => {
            lemma_key_position_bounds(state.timed_keys, p.key);
            assert(after.scheduled_timed.len() == state.agenda.scheduled_timed.len() + 1);
            assert(after.overdue == state.agenda.overdue);
            assert(after.upcoming == state.agenda.upcoming);
            assert(after.scheduled_no_time == state.agenda.scheduled_no_time);
        },
    }
}

/// Each list of an agenda holds as many entries as tasks were placed in it:
/// every task is in one list at most, once.
pub proof fn law_agenda_counts(
    cal: CalendarModel,
    tasks: Seq<TaskView>,
    day: Ymd,
    current: Ymd,
    bucket: Bucket,
)
    ensures
        list_len(agenda_of(cal, tasks, day, current).agenda, bucket) == placed_count(
            cal,
            tasks,
            day,
            current,
            bucket,
        ),
    decreases tasks.len(),
{
    if tasks.len() > 0 {
        law_agenda_counts(cal, tasks.drop_last(), day, current, bucket);
        law_agenda_sorted(cal, tasks.drop_last(), day, current);
        let before = agenda_of(cal, tasks.drop_last(), day, current);
        match task_placement(cal, tasks.last(), day, current) {
            Some(p) => {
                lemma_place_len(before, p, bucket);
            },
            None => {},
        }
    }
}

/// Placing one more task keeps the lists sorted.
proof fn lemma_place_sorted(state: AgendaModel, p: crate::agenda::PlacementView)
    requires
        well_sorted(state),
        p.bucket == Bucket::Overdue || p.bucket == Bucket::Upcoming ==> offset_key(p.entry)
            == p.key,
    ensures
        well_sorted(place(state, Some(p))),
{
    let after = place(state, Some(p));
    match p.bucket {
        Bucket::Overdue => {
            lemma_offset_position(state.agenda.overdue, p.key);
            lemma_insert_sorted(state.agenda.overdue, p.entry);
        },
        Bucket::Upcoming => {
            lemma_offset_position(state.agenda.upcoming, p.key);
            lemma_insert_sorted(state.agenda.upcoming, p.entry);
        },
        Bucket::ScheduledUntimed => {},
        Bucket::ScheduledTimed => {
            lemma_key_position(state.timed_keys, p.key);
            let at = key_position(state.timed_keys, p.key);
            let keys = state.timed_keys.insert(at, p.key);
            assert forall|i: int, j: int| 0 <= i <= j < keys.len() implies #[trigger] keys[i]
                <= #[trigger] keys[j] by {
                let a = if i < at {
                    i
                } else {
                    i - 1
                };
                let b = if j < at {
                    j
                } else {
                    j - 1
                };
                if i != at && j != at {
                    assert(keys[i] == state.timed_keys[a] && keys[j] == state.timed_keys[b]);
                } else if i != at {
                    assert(keys[i] == state.timed_keys[a]);
                } else if j != at {
                    assert(keys[j] == state.timed_keys[b]);
                }
            }
        },
    }
}

/// Putting an entry at its place keeps a list sorted.
proof fn lemma_insert_sorted(entries: Seq<TaskWithOffsetView>, entry: TaskWithOffsetView)
    requires
        sorted_by_offset(entries),
    ensures
        sorted_by_offset(entries.insert(offset_position(entries, offset_key(entry)), entry)),
{
    let key = offset_key(entry);
    lemma_offset_position(entries, key);
    let at = offset_position(entries, key);
    let longer = entries.insert(at, entry);
    assert forall|i: int, j: int| 0 <= i <= j < longer.len() implies offset_key(
        #[trigger] longer[i],
    ) <= offset_key(#[trigger] longer[j]) by {
        let a = if i < at {
            i
        } else {
            i - 1
        };
        let b = if j < at {
            j
        } else {
            j - 1
        };
        if i != at && j != at {
            assert(longer[i] == entries[a] && longer[j] == entries[b]);
        } else if i != at {
            assert(longer[i] == entries[a]);
        } else if j != at {
            assert(longer[j] == entries[b]);
        }
    }
}

/// Sorted from the most urgent priority on.
pub open spec fn sorted_by_rank(tasks: Seq<TaskView>) -> bool {
    forall|i: int, j: int|
        0 <= i <= j < tasks.len() ==> crate::dispatch::priority_key(#[trigger] tasks[i])
            <= crate::dispatch::priority_key(#[trigger] tasks[j])
}

/// How many of `tasks` are marked `TODO`.
pub open spec fn todo_count(tasks: Seq<TaskView>) -> nat
    decreases tasks.len(),
{
    if tasks.len() == 0 {
        0
    } else {
        todo_count(tasks.drop_last()) + if tasks.last().task_type == Some(
            crate::types::TaskType::Todo,
        ) {
            1nat
        } else {
            0nat
        }
    }
}

/// In a sorted list the place for a new task lies behind the tasks that are
/// not less urgent and before the less urgent ones.
proof fn lemma_rank_position(sorted: Seq<TaskView>, key: int)
    requires
        sorted_by_rank(sorted),
    ensures
        0 <= crate::dispatch::rank_position(sorted, key) <= sorted.len(),
        forall|i: int|
            0 <= i < crate::dispatch::rank_position(sorted, key) ==> crate::dispatch::priority_key(
                #[trigger] sorted[i],
            ) <= key,
        forall|i: int|
            crate::dispatch::rank_position(sorted, key) <= i < sorted.len()
                ==> crate::dispatch::priority_key(#[trigger] sorted[i]) > key,
    decreases sorted.len(),
{
    if sorted.len() > 0 && crate::dispatch::priority_key(sorted.last()) > key {
        let shorter = sorted.drop_last();
        assert forall|i: int, j: int| 0 <= i <= j < shorter.len() implies
            crate::dispatch::priority_key(#[trigger] shorter[i]) <= crate::dispatch::priority_key(
            #[trigger] shorter[j],
        ) by {
            assert(shorter[i] == sorted[i] && shorter[j] == sorted[j]);
        }
        lemma_rank_position(shorter, key);
        let at = crate::dispatch::rank_position(sorted, key);
        assert forall|i: int| 0 <= i < at implies crate::dispatch::priority_key(
            #[trigger] sorted[i],
        ) <= key by {
            assert(sorted[i] == shorter[i]);
        }
        assert forall|i: int| at <= i < sorted.len() implies crate::dispatch::priority_key(
            #[trigger] sorted[i],
        ) > key by {
            if i < shorter.len() {
                assert(sorted[i] == shorter[i]);
            }
        }
    } else if sorted.len() > 0 {
        assert forall|i: int| 0 <= i < sorted.len() implies crate::dispatch::priority_key(
            #[trigger] sorted[i],
        ) <= key by {
            assert(crate::dispatch::priority_key(sorted[i]) <= crate::dispatch::priority_key(
                sorted[sorted.len() - 1],
            ));
        }
    }
}

/// The list of open tasks holds the tasks marked `TODO`, each once and no
/// other, sorted from the most urgent priority on.
pub proof fn law_tasks_sorted(tasks: Seq<TaskView>)
    ensures
        sorted_by_rank(crate::dispatch::todo_by_priority(tasks)),
        crate::dispatch::todo_by_priority(tasks).len() == todo_count(tasks),
        forall|i: int|
            0 <= i < crate::dispatch::todo_by_priority(tasks).len() ==> (
            #[trigger] crate::dispatch::todo_by_priority(tasks)[i]).task_type == Some(
                crate::types::TaskType::Todo,
            ),
        crate::dispatch::todo_by_priority(tasks).to_multiset() == tasks.filter(
            |t: TaskView| t.task_type == Some(crate::types::TaskType::Todo),
        ).to_multiset(),
    decreases tasks.len(),
{
    let todo = |t: TaskView| t.task_type == Some(crate::types::TaskType::Todo);
    if tasks.len() > 0 {
        let shorter = tasks.drop_last();
        let task = tasks.last();
        law_tasks_sorted(shorter);
        let sorted = crate::dispatch::todo_by_priority(shorter);
        assert(tasks =~= shorter.push(task));
        shorter.lemma_filter_push(task, todo);
        if task.task_type == Some(crate::types::TaskType::Todo) {
            let key = crate::dispatch::priority_key(task);
            lemma_rank_position(sorted, key);
            let at = crate::dispatch::rank_position(sorted, key);
            let longer = sorted.insert(at, task);
            assert forall|i: int, j: int| 0 <= i <= j < longer.len() implies
                crate::dispatch::priority_key(#[trigger] longer[i])
                <= crate::dispatch::priority_key(#[trigger] longer[j]) by {
                let a = if i < at {
                    i
                } else {
                    i - 1
                };
                let b = if j < at {
                    j
                } else {
                    j - 1
                };
                if i != at && j != at {
                    assert(longer[i] == sorted[a] && longer[j] == sorted[b]);
                } else if i != at {
                    assert(longer[i] == sorted[a]);
                } else if j != at {
                    assert(longer[j] == sorted[b]);
                }
            }
            assert forall|i: int| 0 <= i < longer.len() implies (#[trigger] longer[i]).task_type
                == Some(crate::types::TaskType::Todo) by {
                if i < at {
                    assert(longer[i] == sorted[i]);
                } else if i > at {
                    assert(longer[i] == sorted[i - 1]);
                }
            }
            vstd::seq_lib::to_multiset_insert(sorted, at, task);
            let kept = shorter.filter(todo);
            assert(tasks.filter(todo) == kept.push(task));
            kept.to_multiset_ensures();
        }
    } else {
        assert(tasks.filter(todo) =~= Seq::<TaskView>::empty());
    }
}

} // verus!
