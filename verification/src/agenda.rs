use crate::date::Date;
use crate::date::MAX_DAY;
use crate::date::MIN_DAY;
use crate::date::Ymd;
use crate::date::day_with_number;
use crate::date::days_in_month;
use crate::date::iso_text;
use crate::date::lemma_day_with_number;
use crate::date::month_length;
use crate::date::weekday_name;
use crate::holidays::CalendarModel;
use crate::holidays::HolidayCalendar;
use crate::holidays::builtin_calendar;
use crate::occurrence::closest_on_or_after_spec;
use crate::occurrence::closest_on_or_before;
use crate::occurrence::closest_on_or_before_spec;
use crate::occurrence::is_occurrence_day;
use crate::occurrence::lemma_closest_on_or_after_is_target;
use crate::repeater::Repeater;
use crate::repeater::RepeaterUnit;
use crate::text::decimal_text;
use crate::text::push_decimal;
use crate::text::push_str_chars;
use crate::text::string_of;
use crate::timestamp::ParsedTimestamp;
use crate::timestamp::TimestampKind;
use crate::timestamp::TimestampView;
use crate::timestamp::parse_org_timestamp;
use crate::timestamp::timestamp_of;
use crate::types::DayAgenda;
use crate::types::DayAgendaView;
use crate::types::Task;
use crate::types::TaskType;
use crate::types::TaskView;
use crate::types::TaskWithOffset;
use crate::types::TaskWithOffsetView;
use crate::types::copy_task;
use crate::types::empty_agenda;
use vstd::prelude::*;

verus! {

/// Days before a deadline from which it is shown as upcoming, where the
/// directive gives no warning period of its own.
pub const DEADLINE_WARNING_DAYS: u32 = 14;

/// The list of a day's agenda that a task goes to.
#[derive(Debug, Clone, Copy, PartialEq, Eq, Structural)]
pub enum Bucket {
    Overdue,
    ScheduledTimed,
    ScheduledUntimed,
    Upcoming,
}

/// Where a task goes in the agenda of a day, and what is shown of it there.
#[derive(Debug)]
pub struct Placement {
    pub bucket: Bucket,
    pub entry: TaskWithOffset,
    /// What the list is sorted by: minutes since midnight for a timed task,
    /// else the day offset, 0 where there is none.
    pub key: i64,
}

/// The model of a [`Placement`].
pub struct PlacementView {
    pub bucket: Bucket,
    pub entry: TaskWithOffsetView,
    pub key: i64,
}

impl View for Placement {
    type V = PlacementView;

    open spec fn view(&self) -> PlacementView {
        PlacementView { bucket: self.bucket, entry: self.entry@, key: self.key }
    }
}

/// The model of an optional placement.
pub open spec fn placement_view(p: Option<Placement>) -> Option<PlacementView> {
    match p {
        Some(placement) => Some(placement@),
        None => None,
    }
}

/// The warning period of a timestamp, in days.
pub open spec fn warning_days(p: TimestampView) -> int {
    match p.deadline_warning_days {
        Some(days) => days as int,
        None => DEADLINE_WARNING_DAYS as int,
    }
}

/// Whether the task is marked `DONE`.
pub open spec fn is_done(task: TaskView) -> bool {
    task.task_type == Some(TaskType::Done)
}

/// The task without its time of day.
pub open spec fn without_time(task: TaskView) -> TaskView {
    TaskView { timestamp_time: None, timestamp_end_time: None, ..task }
}

/// The scheduled list for a timestamp: the timed one if it has a time.
pub open spec fn scheduled_bucket(p: TimestampView) -> Bucket {
    if p.time is Some {
        Bucket::ScheduledTimed
    } else {
        Bucket::ScheduledUntimed
    }
}

/// Minutes since midnight of the time of a timestamp, 0 without a time.
pub open spec fn time_key(p: TimestampView) -> i64 {
    match p.time {
        Some(t) => t.minutes() as i64,
        None => 0,
    }
}

/// A task on the day that it is due.
pub open spec fn scheduled_placement(task: TaskView, p: TimestampView) -> PlacementView {
    PlacementView {
        bucket: scheduled_bucket(p),
        entry: TaskWithOffsetView { task, days_offset: None },
        key: time_key(p),
    }
}

/// A task away from the day that it is due: `days` days, before or after.
pub open spec fn distant_placement(bucket: Bucket, task: TaskView, days: int) -> PlacementView {
    PlacementView {
        bucket,
        entry: TaskWithOffsetView { task, days_offset: Some(days as i64) },
        key: days as i64,
    }
}

/// Where a task without a repeater goes in the agenda of `day`:
///
/// - on its own date, to the scheduled list, timed or untimed;
/// - after its date, on the current day and unless it is done, to the overdue
///   list, without its time;
/// - before its date, on the current day and unless it is done, a deadline
///   within its warning period goes to the upcoming list, without its time;
/// - else nowhere.
pub open spec fn place_plain(task: TaskView, p: TimestampView, day: Ymd, is_today: bool) -> Option<
    PlacementView,
> {
    let days = p.date.day_number() - day.day_number();
    if days == 0 {
        Some(scheduled_placement(task, p))
    } else if days < 0 && is_today && !is_done(task) {
        Some(distant_placement(Bucket::Overdue, without_time(task), days))
    } else if days > 0 && is_today && !is_done(task) && p.kind == TimestampKind::Deadline && days
        <= warning_days(p) {
        Some(distant_placement(Bucket::Upcoming, without_time(task), days))
    } else {
        None
    }
}

/// The letter of a repeater's unit, `wd` for workdays.
pub open spec fn unit_letters(unit: RepeaterUnit) -> Seq<char> {
    match unit {
        RepeaterUnit::Day => seq!['d'],
        RepeaterUnit::Week => seq!['w'],
        RepeaterUnit::Month => seq!['m'],
        RepeaterUnit::Year => seq!['y'],
        RepeaterUnit::Hour => seq!['h'],
        RepeaterUnit::Workday => seq!['w', 'd'],
    }
}

/// The directive shown for one occurrence: the keyword, then in brackets the
/// date of the occurrence with its weekday, the time if one is kept, and the
/// interval and unit after `+`.
pub open spec fn occurrence_text(
    keyword: Seq<char>,
    date: Ymd,
    time: Option<Seq<char>>,
    rep: Repeater,
) -> Seq<char> {
    keyword + seq![':', ' ', '<'] + iso_text(date) + seq![' '] + weekday_name(
        date.weekday_index(),
    ) + match time {
        Some(t) => seq![' '] + t,
        None => Seq::empty(),
    } + seq![' ', '+'] + decimal_text(rep.value as nat) + unit_letters(rep.unit) + seq!['>']
}

/// The task as shown for the occurrence on `date`: its date and, where it has
/// a keyword, its directive are those of the occurrence; its time of day is
/// kept or dropped.
pub open spec fn on_occurrence(task: TaskView, rep: Repeater, date: Ymd, keep_time: bool)
    -> TaskView {
    let time = if keep_time {
        task.timestamp_time
    } else {
        None
    };
    TaskView {
        timestamp_date: Some(iso_text(date)),
        timestamp: match task.timestamp_type {
            Some(keyword) => Some(occurrence_text(keyword, date, time, rep)),
            None => task.timestamp,
        },
        timestamp_time: time,
        timestamp_end_time: if keep_time {
            task.timestamp_end_time
        } else {
            None
        },
        ..task
    }
}

/// The closest occurrence at or before the current day: the anchor where the
/// current day is not after it.
pub open spec fn deadline_of(cal: CalendarModel, p: TimestampView, rep: Repeater, current: Ymd)
    -> Ymd {
    closest_on_or_before_spec(cal, p.date, rep, current)
}

/// The closest occurrence at or after `day`: that at or before the current
/// day where `day` is not after the current day.
pub open spec fn repeat_of(
    cal: CalendarModel,
    p: TimestampView,
    rep: Repeater,
    day: Ymd,
    current: Ymd,
) -> Option<Ymd> {
    if day.day_number() <= current.day_number() {
        Some(deadline_of(cal, p, rep, current))
    } else {
        closest_on_or_after_spec(cal, p.date, rep, day)
    }
}

/// Where a task with a repeater goes in the agenda of `day`, `deadline` being
/// the closest occurrence at or before the current day and `repeat` the
/// closest at or after `day`:
///
/// - on `deadline` and on `repeat`, to the scheduled list, shown with the
///   date of that day;
/// - on the current day, after `deadline` and unless it is done, to the
///   overdue list, shown with the date of `deadline` and without its time;
///   by workdays only if the current day is a workday;
/// - on the current day, before `repeat` and unless it is done, a deadline
///   within its warning period goes to the upcoming list, without its time;
/// - else nowhere, and nowhere with an interval of 0.
pub open spec fn place_repeating(
    cal: CalendarModel,
    task: TaskView,
    p: TimestampView,
    rep: Repeater,
    day: Ymd,
    current: Ymd,
) -> Option<PlacementView> {
    let deadline = deadline_of(cal, p, rep, current);
    let repeat = repeat_of(cal, p, rep, day, current);
    let is_today = day == current;
    let late = deadline.day_number() - current.day_number();
    if !rep.is_valid() {
        None
    } else if day == deadline || repeat == Some(day) {
        Some(scheduled_placement(on_occurrence(task, rep, day, true), p))
    } else if is_today && late < 0 && !is_done(task) && (rep.unit == RepeaterUnit::Workday
        ==> cal.is_workday(current.day_number())) {
        Some(distant_placement(Bucket::Overdue, on_occurrence(task, rep, deadline, false), late))
    } else if is_today && late > 0 && !is_done(task) && p.kind == TimestampKind::Deadline && late
        <= warning_days(p) {
        Some(distant_placement(Bucket::Upcoming, without_time(task), late))
    } else {
        None
    }
}

/// Whether the task is marked `DONE`.
fn task_is_done(task: &Task) -> (r: bool)
    ensures
        r == is_done(task@),
{
    match task.task_type {
        Some(TaskType::Done) => true,
        _ => false,
    }
}

/// The warning period of a timestamp, in days.
fn warning_period(parsed: &ParsedTimestamp) -> (r: i64)
    ensures
        r == warning_days(parsed@),
{
    match parsed.deadline_warning_days {
        Some(days) => days as i64,
        None => DEADLINE_WARNING_DAYS as i64,
    }
}

/// Minutes since midnight of the time of a timestamp, 0 without a time.
fn time_minutes(parsed: &ParsedTimestamp) -> (r: i64)
    ensures
        r == time_key(parsed@),
{
    match parsed.time {
        Some(t) => t.hour as i64 * 60 + t.minute as i64,
        None => 0,
    }
}

/// The list for a task on its day.
fn bucket_on_day(parsed: &ParsedTimestamp) -> (r: Bucket)
    ensures
        r == scheduled_bucket(parsed@),
{
    if parsed.time.is_some() {
        Bucket::ScheduledTimed
    } else {
        Bucket::ScheduledUntimed
    }
}

/// A copy of the task without its time of day, with its distance in days.
pub fn create_task_without_time(task: &Task, days_offset: Option<i64>) -> (r: TaskWithOffset)
    ensures
        r@ == (TaskWithOffsetView { task: without_time(task@), days_offset }),
{
    let mut task_copy = copy_task(task);
    task_copy.timestamp_time = None;
    task_copy.timestamp_end_time = None;
    TaskWithOffset { task: task_copy, days_offset }
}

/// Decides where a task without a repeater goes in the agenda of `day_date`.
pub fn handle_non_repeating_task(
    task: &Task,
    parsed: &ParsedTimestamp,
    day_date: Date,
    is_today: bool,
) -> (r: Option<Placement>)
    ensures
        placement_view(r) == place_plain(task@, parsed@, day_date@, is_today),
{
    let days_diff: i64 = parsed.date.days_since(&day_date);
    let is_done: bool = task_is_done(task);
    if days_diff == 0 {
        Some(
            Placement {
                bucket: bucket_on_day(parsed),
                entry: TaskWithOffset { task: copy_task(task), days_offset: None },
                key: time_minutes(parsed),
            },
        )
    } else if days_diff < 0 && is_today && !is_done {
        Some(
            Placement {
                bucket: Bucket::Overdue,
                entry: create_task_without_time(task, Some(days_diff)),
                key: days_diff,
            },
        )
    } else if days_diff > 0 && is_today && !is_done && parsed.kind == TimestampKind::Deadline
        && days_diff <= warning_period(parsed) {
        Some(
            Placement {
                bucket: Bucket::Upcoming,
                entry: create_task_without_time(task, Some(days_diff)),
                key: days_diff,
            },
        )
    } else {
        None
    }
}

/// Appends the letter of a repeater's unit.
fn push_unit(out: &mut Vec<char>, unit: RepeaterUnit)
    ensures
        final(out)@ == old(out)@ + unit_letters(unit),
{
    match unit {
        RepeaterUnit::Day => out.push('d'),
        RepeaterUnit::Week => out.push('w'),
        RepeaterUnit::Month => out.push('m'),
        RepeaterUnit::Year => out.push('y'),
        RepeaterUnit::Hour => out.push('h'),
        RepeaterUnit::Workday => {
            out.push('w');
            out.push('d');
        },
    }
    assert(out@ =~= old(out)@ + unit_letters(unit));
}

/// The directive shown for one occurrence.
fn occurrence_string(keyword: &String, date: Date, time: &Option<String>, repeater: &Repeater) -> (r:
    String)
    ensures
        r@ == occurrence_text(keyword@, date@, time.deep_view(), *repeater),
{
    let mut out: Vec<char> = Vec::new();
    push_str_chars(&mut out, keyword.as_str());
    out.push(':');
    out.push(' ');
    out.push('<');
    date.push_iso(&mut out);
    out.push(' ');
    date.push_weekday_name(&mut out);
    let ghost head = out@;
    assert(head =~= keyword@ + seq![':', ' ', '<'] + iso_text(date@) + seq![' '] + weekday_name(
        date@.weekday_index(),
    ));
    match time {
        Some(t) => {
            out.push(' ');
            push_str_chars(&mut out, t.as_str());
            assert(out@ =~= head + (seq![' '] + t@));
        },
        None => {
            assert(out@ =~= head + Seq::<char>::empty());
        },
    }
    let ghost timed = out@;
    out.push(' ');
    out.push('+');
    push_decimal(&mut out, repeater.value as u64);
    push_unit(&mut out, repeater.unit);
    out.push('>');
    assert(out@ =~= timed + seq![' ', '+'] + decimal_text(repeater.value as nat) + unit_letters(
        repeater.unit,
    ) + seq!['>']);
    string_of(&out)
}

/// A copy of the task as shown for the occurrence on `date`.
fn task_on_occurrence(task: &Task, repeater: &Repeater, date: Date, keep_time: bool) -> (r: Task)
    ensures
        r@ == on_occurrence(task@, *repeater, date@, keep_time),
{
    let mut task_copy = copy_task(task);
    if !keep_time {
        task_copy.timestamp_time = None;
        task_copy.timestamp_end_time = None;
    }
    task_copy.timestamp_date = Some(date.to_iso_string());
    match &task.timestamp_type {
        Some(keyword) => {
            task_copy.timestamp = Some(
                occurrence_string(keyword, date, &task_copy.timestamp_time, repeater),
            );
        },
        None => {},
    }
    task_copy
}

/// Decides where a task with a repeater goes in the agenda of `day_date`,
/// with the calendar `cal` for workdays.
pub fn handle_repeating_task(
    cal: &HolidayCalendar,
    task: &Task,
    parsed: &ParsedTimestamp,
    repeater: &Repeater,
    day_date: Date,
    current_date: Date,
) -> (r: Option<Placement>)
    ensures
        placement_view(r) == place_repeating(
            cal@,
            task@,
            parsed@,
            *repeater,
            day_date@,
            current_date@,
        ),
{
    if repeater.value == 0 {
        return None;
    }
    let base_date = parsed.date;
    proof {
        use_type_invariant(&base_date);
        use_type_invariant(&day_date);
        use_type_invariant(&current_date);
    }
    let is_today: bool = day_date.same_day(&current_date);
    let deadline: Date = closest_on_or_before(cal, base_date, repeater, current_date);
    let on_day: bool = if !current_date.is_before(&day_date) {
        day_date.same_day(&deadline)
    } else if !base_date.is_before(&day_date) {
        day_date.same_day(&base_date)
    } else {
        is_occurrence_day(cal, base_date, repeater, day_date)
    };
    proof {
        lemma_closest_on_or_after_is_target(cal@, base_date@, *repeater, day_date@);
        let repeat = repeat_of(cal@, parsed@, *repeater, day_date@, current_date@);
        assert(on_day == (day_date@ == deadline@ || repeat == Some(day_date@)));
    }
    let late: i64 = deadline.days_since(&current_date);
    if on_day {
        Some(
            Placement {
                bucket: bucket_on_day(parsed),
                entry: TaskWithOffset {
                    task: task_on_occurrence(task, repeater, day_date, true),
                    days_offset: None,
                },
                key: time_minutes(parsed),
            },
        )
    } else if is_today && late < 0 && !task_is_done(task) && (repeater.unit
        != RepeaterUnit::Workday || cal.is_workday(current_date)) {
        Some(
            Placement {
                bucket: Bucket::Overdue,
                entry: TaskWithOffset {
                    task: task_on_occurrence(task, repeater, deadline, false),
                    days_offset: Some(late),
                },
                key: late,
            },
        )
    } else if is_today && late > 0 && !task_is_done(task) && parsed.kind == TimestampKind::Deadline
        && late <= warning_period(parsed) {
        Some(
            Placement {
                bucket: Bucket::Upcoming,
                entry: create_task_without_time(task, Some(late)),
                key: late,
            },
        )
    } else {
        None
    }
}

/// The distance in days to sort an entry by, 0 where it has none.
pub open spec fn offset_key(entry: TaskWithOffsetView) -> i64 {
    match entry.days_offset {
        Some(days) => days,
        None => 0,
    }
}

/// The place in a list sorted by distance for an entry with the distance
/// `key`: after the last entry whose distance is not larger.
pub open spec fn offset_position(entries: Seq<TaskWithOffsetView>, key: i64) -> int
    decreases entries.len(),
{
    if entries.len() == 0 {
        0
    } else if offset_key(entries.last()) <= key {
        entries.len() as int
    } else {
        offset_position(entries.drop_last(), key)
    }
}

/// The place in a sorted list of keys for `key`: after the last key that is
/// not larger.
pub open spec fn key_position(keys: Seq<i64>, key: i64) -> int
    decreases keys.len(),
{
    if keys.len() == 0 {
        0
    } else if keys.last() <= key {
        keys.len() as int
    } else {
        key_position(keys.drop_last(), key)
    }
}

/// The agenda of a day while it is built: the lists, and for each timed entry
/// the minutes since midnight that it is sorted by.
pub struct AgendaModel {
    pub agenda: DayAgendaView,
    pub timed_keys: Seq<i64>,
}

/// The agenda with one more task placed: in the overdue and upcoming lists
/// by its distance, in the timed list by its time, each time behind the
/// entries that are not later; in the untimed list at the end.
pub open spec fn place(state: AgendaModel, placement: Option<PlacementView>) -> AgendaModel {
    match placement {
        None => state,
        Some(p) => match p.bucket {
            Bucket::Overdue => AgendaModel {
                agenda: DayAgendaView {
                    overdue: state.agenda.overdue.insert(
                        offset_position(state.agenda.overdue, p.key),
                        p.entry,
                    ),
                    ..state.agenda
                },
                ..state
            },
            Bucket::Upcoming => AgendaModel {
                agenda: DayAgendaView {
                    upcoming: state.agenda.upcoming.insert(
                        offset_position(state.agenda.upcoming, p.key),
                        p.entry,
                    ),
                    ..state.agenda
                },
                ..state
            },
            Bucket::ScheduledUntimed => AgendaModel {
                agenda: DayAgendaView {
                    scheduled_no_time: state.agenda.scheduled_no_time.push(p.entry),
                    ..state.agenda
                },
                ..state
            },
            Bucket::ScheduledTimed => AgendaModel {
                agenda: DayAgendaView {
                    scheduled_timed: state.agenda.scheduled_timed.insert(
                        key_position(state.timed_keys, p.key),
                        p.entry,
                    ),
                    ..state.agenda
                },
                timed_keys: state.timed_keys.insert(key_position(state.timed_keys, p.key), p.key),
            },
        },
    }
}

/// Where a task goes in the agenda of `day`: nowhere without a directive that
/// holds a timestamp; else by its timestamp, with or without a repeater.
pub open spec fn task_placement(cal: CalendarModel, task: TaskView, day: Ymd, current: Ymd)
    -> Option<PlacementView> {
    match task.timestamp {
        Some(text) => match timestamp_of(text) {
            Some(p) => match p.repeater {
                Some(rep) => place_repeating(cal, task, p, rep, day, current),
                None => place_plain(task, p, day, day == current),
            },
            None => None,
        },
        None => None,
    }
}

/// The agenda of `day` with `tasks` placed one after the other.
pub open spec fn agenda_of(cal: CalendarModel, tasks: Seq<TaskView>, day: Ymd, current: Ymd)
    -> AgendaModel
    decreases tasks.len(),
{
    if tasks.len() == 0 {
        AgendaModel { agenda: empty_agenda(day), timed_keys: Seq::empty() }
    } else {
        place(
            agenda_of(cal, tasks.drop_last(), day, current),
            task_placement(cal, tasks.last(), day, current),
        )
    }
}

/// The distance in days that an entry is sorted by.
fn entry_offset(entry: &TaskWithOffset) -> (r: i64)
    ensures
        r == offset_key(entry@),
{
    match entry.days_offset {
        Some(days) => days,
        None => 0,
    }
}

/// Puts `entry` into a list sorted by distance.
fn insert_by_offset(list: &mut Vec<TaskWithOffset>, entry: TaskWithOffset, key: i64)
    ensures
        final(list).deep_view() == old(list).deep_view().insert(
            offset_position(old(list).deep_view(), key),
            entry@,
        ),
{
    let ghost before = list.deep_view();
    let mut i: usize = list.len();
    assert(before.subrange(0, i as int) =~= before);
    while i > 0 && entry_offset(&list[i - 1]) > key
        invariant
            i <= list.len(),
            before == list.deep_view(),
            offset_position(before, key) == offset_position(before.subrange(0, i as int), key),
        decreases i,
    {
        assert(before.subrange(0, i as int).drop_last() =~= before.subrange(0, i - 1));
        i -= 1;
    }
    proof {
        if i > 0 {
            assert(before.subrange(0, i as int).last() == list@[i - 1]@);
        }
    }
    list.insert(i, entry);
    assert(list.deep_view() =~= before.insert(i as int, entry@));
}

/// Puts `entry` into the list sorted by the keys of `keys`.
fn insert_by_key(list: &mut Vec<TaskWithOffset>, keys: &mut Vec<i64>, entry: TaskWithOffset, key: i64)
    requires
        old(list).len() == old(keys).len(),
    ensures
        final(list).deep_view() == old(list).deep_view().insert(
            key_position(old(keys)@, key),
            entry@,
        ),
        final(keys)@ == old(keys)@.insert(key_position(old(keys)@, key), key),
        final(list).len() == final(keys).len(),
{
    let ghost before = list.deep_view();
    let ghost keys_before = keys@;
    let mut i: usize = keys.len();
    assert(keys_before.subrange(0, i as int) =~= keys_before);
    while i > 0 && keys[i - 1] > key
        invariant
            i <= keys.len(),
            keys@ == keys_before,
            key_position(keys_before, key) == key_position(keys_before.subrange(0, i as int), key),
        decreases i,
    {
        assert(keys_before.subrange(0, i as int).drop_last() =~= keys_before.subrange(0, i - 1));
        i -= 1;
    }
    list.insert(i, entry);
    keys.insert(i, key);
    assert(list.deep_view() =~= before.insert(i as int, entry@));
}

/// Where `task` goes in the agenda of `day_date`.
fn place_task(cal: &HolidayCalendar, task: &Task, day_date: Date, current_date: Date) -> (r: Option<
    Placement,
>)
    ensures
        placement_view(r) == task_placement(cal@, task@, day_date@, current_date@),
{
    match &task.timestamp {
        Some(text) => match parse_org_timestamp(text.as_str(), None) {
            Some(parsed) => match parsed.repeater {
                Some(repeater) => handle_repeating_task(
                    cal,
                    task,
                    &parsed,
                    &repeater,
                    day_date,
                    current_date,
                ),
                None => {
                    let is_today: bool = day_date.same_day(&current_date);
                    handle_non_repeating_task(task, &parsed, day_date, is_today)
                },
            },
            None => None,
        },
        None => None,
    }
}

/// Builds the agenda of `day_date` as seen on `current_date`, with the
/// calendar `cal` for workdays.
pub fn build_day_agenda_in(
    cal: &HolidayCalendar,
    tasks: &[Task],
    day_date: Date,
    current_date: Date,
) -> (r: DayAgenda)
    ensures
        r@ == agenda_of(cal@, tasks.deep_view(), day_date@, current_date@).agenda,
{
    let mut agenda = DayAgenda::new(day_date);
    let mut timed_keys: Vec<i64> = Vec::new();
    let ghost all = tasks.deep_view();
    let mut i: usize = 0;
    assert(all.subrange(0, 0) =~= Seq::empty());
    assert(agenda.scheduled_timed.len() == agenda.scheduled_timed.deep_view().len());
    while i < tasks.len()
        invariant
            i <= tasks.len(),
            all == tasks.deep_view(),
            agenda.scheduled_timed.len() == timed_keys.len(),
            agenda_of(cal@, all.subrange(0, i as int), day_date@, current_date@) == (AgendaModel {
                agenda: agenda@,
                timed_keys: timed_keys@,
            }),
        decreases tasks.len() - i,
    {
        let ghost before = all.subrange(0, i as int);
        let ghost after = all.subrange(0, i + 1);
        assert(after.drop_last() =~= before);
        assert(after.last() == tasks@[i as int]@);
        match place_task(cal, &tasks[i], day_date, current_date) {
            Some(placement) => match placement.bucket {
                Bucket::Overdue => {
                    insert_by_offset(&mut agenda.overdue, placement.entry, placement.key);
                },
                Bucket::Upcoming => {
                    insert_by_offset(&mut agenda.upcoming, placement.entry, placement.key);
                },
                Bucket::ScheduledUntimed => {
                    let ghost list = agenda.scheduled_no_time.deep_view();
                    let ghost entry = placement.entry@;
                    agenda.scheduled_no_time.push(placement.entry);
                    assert(agenda.scheduled_no_time.deep_view() =~= list.push(entry));
                },
                Bucket::ScheduledTimed => {
                    insert_by_key(
                        &mut agenda.scheduled_timed,
                        &mut timed_keys,
                        placement.entry,
                        placement.key,
                    );
                },
            },
            None => {},
        }
        i += 1;
    }
    assert(all.subrange(0, i as int) =~= all);
    agenda
}

/// Builds the agenda of `day_date` as seen on `current_date`: every task with
/// a timestamp goes to one list of the day or to none. The overdue list is
/// sorted from the longest overdue on, the timed list by time of day, the
/// upcoming list from the nearest on; tasks that are equal in that keep the
/// order in which they were given, as the untimed list does.
pub fn build_day_agenda(tasks: &[Task], day_date: Date, current_date: Date) -> (r: DayAgenda)
    ensures
        r@ == agenda_of(builtin_calendar(), tasks.deep_view(), day_date@, current_date@).agenda,
{
    let cal = HolidayCalendar::load_or_weekends();
    build_day_agenda_in(&cal, tasks, day_date, current_date)
}

/// The agendas of `count` days in a row from the day number `start` on.
pub open spec fn agendas_from(
    cal: CalendarModel,
    tasks: Seq<TaskView>,
    start: int,
    count: nat,
    current: Ymd,
) -> Seq<DayAgendaView>
    decreases count,
{
    if count == 0 {
        Seq::empty()
    } else {
        agendas_from(cal, tasks, start, (count - 1) as nat, current).push(
            agenda_of(cal, tasks, day_with_number(start + count - 1), current).agenda,
        )
    }
}

/// Number of days from `start` to `end`, both counted; 0 if `end` is earlier.
pub open spec fn span_days(start: Ymd, end: Ymd) -> nat {
    if end.day_number() >= start.day_number() {
        (end.day_number() - start.day_number() + 1) as nat
    } else {
        0
    }
}

/// Builds the agenda of every day from `start_date` to `end_date`, both
/// included, in the order of the days; none if `end_date` is the earlier.
pub fn build_week_agenda(tasks: &[Task], start_date: Date, end_date: Date, current_date: Date) -> (r:
    Vec<DayAgenda>)
    ensures
        r.deep_view() == agendas_from(
            builtin_calendar(),
            tasks.deep_view(),
            start_date@.day_number(),
            span_days(start_date@, end_date@),
            current_date@,
        ),
{
    let mut result: Vec<DayAgenda> = Vec::new();
    assert(result.deep_view() =~= Seq::empty());
    let cal = HolidayCalendar::load_or_weekends();
    if end_date.is_before(&start_date) {
        return result;
    }
    let mut current = start_date;
    proof {
        use_type_invariant(&start_date);
        use_type_invariant(&end_date);
    }
    loop
        invariant
            cal@ == builtin_calendar(),
            current@.is_valid(),
            end_date@.is_valid(),
            start_date@.day_number() <= current@.day_number() <= end_date@.day_number(),
            result.deep_view() == agendas_from(
                cal@,
                tasks.deep_view(),
                start_date@.day_number(),
                (current@.day_number() - start_date@.day_number()) as nat,
                current_date@,
            ),
        decreases end_date@.day_number() - current@.day_number(),
    {
        let ghost before = result.deep_view();
        let agenda = build_day_agenda_in(&cal, tasks, current, current_date);
        let ghost added = agenda@;
        result.push(agenda);
        proof {
            assert(result.deep_view() =~= before.push(added));
            lemma_day_with_number(current@);
        }
        if current.same_day(&end_date) {
            return result;
        }
        proof {
            crate::date::lemma_range_by_day_number(end_date@);
        }
        match current.add_days(1) {
            Some(next) => {
                current = next;
            },
            None => {
                return result;
            },
        }
    }
}

/// The Monday and the Sunday of the week of `date`; `None` if one of them
/// lies before year 0 or after year 9999.
pub fn get_week_for_date(date: Date) -> (r: Option<(Date, Date)>)
    ensures
        match r {
            Some((monday, sunday)) => monday@.day_number() == date@.day_number()
                - date@.weekday_index() && sunday@.day_number() == monday@.day_number() + 6,
            None => date@.day_number() - date@.weekday_index() < MIN_DAY || date@.day_number()
                - date@.weekday_index() + 6 > MAX_DAY,
        },
{
    let days_from_monday: u32 = date.weekday_index();
    let monday = match date.add_days(-(days_from_monday as i64)) {
        Some(d) => d,
        None => {
            return None;
        },
    };
    match monday.add_days(6) {
        Some(sunday) => Some((monday, sunday)),
        None => None,
    }
}

/// The first and the last day of the month of `date`.
pub fn get_month_for_date(date: Date) -> (r: (Date, Date))
    ensures
        r.0@ == (Ymd { year: date@.year, month: date@.month, day: 1 }),
        r.1@ == (Ymd {
            year: date@.year,
            month: date@.month,
            day: month_length(date@.year, date@.month),
        }),
        span_days(r.0@, r.1@) == month_length(date@.year, date@.month),
{
    let year: i32 = date.year();
    let month: u32 = date.month();
    let last: u32 = days_in_month(year, month);
    let first_day = Date::from_ymd_opt(year, month, 1);
    let last_day = Date::from_ymd_opt(year, month, last);
    (first_day.unwrap(), last_day.unwrap())
}

} // verus!
