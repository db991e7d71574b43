use crate::agenda::agendas_from;
use crate::agenda::build_week_agenda;
use crate::agenda::get_month_for_date;
use crate::agenda::get_week_for_date;
use crate::date::Date;
use crate::date::MAX_DAY;
use crate::date::MIN_DAY;
use crate::date::Ymd;
use crate::date::iso_text;
use crate::date::month_length;
use crate::error::AppError;
use crate::error::AppErrorView;
use crate::holidays::builtin_calendar;
use crate::text::push_str_chars;
use crate::text::str_equal;
use crate::text::string_of;
use crate::timestamp::valid_date;
use crate::types::DayAgenda;
use crate::types::DayAgendaView;
use crate::types::Task;
use crate::types::TaskType;
use crate::types::TaskView;
use crate::types::copy_task;
use crate::types::priority_rank;
use chrono::Datelike;
use chrono::NaiveDate;
use vstd::prelude::*;

verus! {

/// What an agenda holds: the agendas of some days, or a list of tasks.
#[derive(Debug)]
pub enum AgendaOutput {
    Days(Vec<DayAgenda>),
    Tasks(Vec<Task>),
}

/// The model of an [`AgendaOutput`].
pub enum AgendaOutputView {
    Days(Seq<DayAgendaView>),
    Tasks(Seq<TaskView>),
}

impl View for AgendaOutput {
    type V = AgendaOutputView;

    open spec fn view(&self) -> AgendaOutputView {
        match self {
            AgendaOutput::Days(days) => AgendaOutputView::Days(days.deep_view()),
            AgendaOutput::Tasks(tasks) => AgendaOutputView::Tasks(tasks.deep_view()),
        }
    }
}

/// The year, month and day that `chrono::NaiveDate::parse_from_str` reads
/// from a text with the format `%Y-%m-%d`, or the words in which `chrono`
/// says why it reads no date.
pub uninterp spec fn chrono_ymd(text: Seq<char>) -> Result<(int, int, int), Seq<char>>;

/// Whether `chrono_tz::Tz::from_str` knows a time zone of this name.
pub uninterp spec fn known_zone(name: Seq<char>) -> bool;

/// The year, month and day that `chrono` gives for the named time zone at a
/// number of seconds after the first moment of 1970 in universal time, if
/// the zone is known and `chrono` can hold the moment.
pub uninterp spec fn zone_day(name: Seq<char>, seconds: int) -> Option<(int, int, int)>;

/// The moments that a day is asked of lie at most this many seconds from the
/// first moment of 1970: some 31,000 years.
pub const SECONDS_LIMIT: i64 = 1000000000000;

/// `chrono::NaiveDate::parse_from_str` with the format `%Y-%m-%d`: the year,
/// month and day of the date that the text writes, or the words of the
/// `chrono::ParseError` that came instead. What comes back is named
/// `chrono_ymd`; nothing more is claimed of it.
#[verifier::external_body]
fn chrono_parse_ymd(text: &str) -> (r: Result<(i32, u32, u32), String>)
    ensures
        match r {
            Ok(t) => chrono_ymd(text@) == Ok::<(int, int, int), Seq<char>>(
                (t.0 as int, t.1 as int, t.2 as int),
            ),
            Err(reason) => chrono_ymd(text@) == Err::<(int, int, int), Seq<char>>(reason@),
        },
{
    match NaiveDate::parse_from_str(text, "%Y-%m-%d") {
        Ok(date) => Ok((date.year(), date.month(), date.day())),
        Err(e) => Err(e.to_string()),
    }
}

/// `chrono_tz::Tz::from_str`: whether the name is that of a time zone in the
/// table of the crate. What comes back is named `known_zone`.
#[verifier::external_body]
fn zone_is_known(name: &str) -> (r: bool)
    ensures
        r == known_zone(name@),
{
    name.parse::<chrono_tz::Tz>().is_ok()
}

/// The seconds that have passed since the first moment of 1970, by
/// `std::time::SystemTime::elapsed`. They change with the clock, so nothing is
/// claimed of them; `None` comes back where the clock stands before 1970.
#[verifier::external_body]
fn clock_seconds() -> (r: Option<u64>) {
    match std::time::UNIX_EPOCH.elapsed() {
        Ok(since) => Some(since.as_secs()),
        Err(_) => None,
    }
}

/// `chrono::DateTime::from_timestamp`, `chrono::DateTime::with_timezone` and
/// `chrono::DateTime::date_naive`: the year, month and day that the named
/// time zone has at `seconds` seconds after the first moment of 1970 in
/// universal time. What comes back is named `zone_day`; nothing more is
/// claimed of it. The bound keeps the moment far inside the years that
/// `chrono` can hold.
#[verifier::external_body]
fn civil_day_at(name: &str, seconds: i64) -> (r: Option<(i32, u32, u32)>)
    requires
        -SECONDS_LIMIT <= seconds <= SECONDS_LIMIT,
    ensures
        match r {
            Some(t) => zone_day(name@, seconds as int) == Some(
                (t.0 as int, t.1 as int, t.2 as int),
            ),
            None => zone_day(name@, seconds as int) is None,
        },
{
    let zone: chrono_tz::Tz = name.parse().ok()?;
    let day = chrono::DateTime::from_timestamp(seconds, 0)?.with_timezone(&zone).date_naive();
    Some((day.year(), day.month(), day.day()))
}

/// Why a date that `chrono` reads is no date here: it lies before year 0 or
/// after year 9999.
pub open spec fn out_of_calendar_text() -> Seq<char> {
    "input is out of range"@
}

/// The date that a text writes as `chrono` reads `%Y-%m-%d`, or the reason
/// why there is none: the words of `chrono` where it reads no date, and
/// `out_of_calendar_text` for a date before year 0 or after year 9999.
pub open spec fn date_or_reason(text: Seq<char>) -> Result<Ymd, Seq<char>> {
    match chrono_ymd(text) {
        Ok(t) => match valid_date(Ymd { year: t.0, month: t.1, day: t.2 }) {
            Some(date) => Ok(date),
            None => Err(out_of_calendar_text()),
        },
        Err(reason) => Err(reason),
    }
}

/// The date that a text writes as `chrono` reads `%Y-%m-%d`, if it is a date
/// from year 0 to year 9999.
pub open spec fn date_of_text(text: Seq<char>) -> Option<Ymd> {
    match date_or_reason(text) {
        Ok(date) => Some(date),
        Err(_) => None,
    }
}

/// Reads a date written as `YYYY-MM-DD`, or says why the text writes none.
pub fn parse_date_or_reason(text: &str) -> (r: Result<Date, String>)
    ensures
        match r {
            Ok(date) => date_or_reason(text@) == Ok::<Ymd, Seq<char>>(date@),
            Err(reason) => date_or_reason(text@) == Err::<Ymd, Seq<char>>(reason@),
        },
{
    match chrono_parse_ymd(text) {
        Ok((year, month, day)) => match Date::from_ymd_opt(year, month, day) {
            Some(date) => Ok(date),
            None => Err("input is out of range".to_owned()),
        },
        Err(reason) => Err(reason),
    }
}

/// Reads a date written as `YYYY-MM-DD`.
pub fn parse_date(text: &str) -> (r: Option<Date>)
    ensures
        match r {
            Some(date) => date_of_text(text@) == Some(date@),
            None => date_of_text(text@) is None,
        },
{
    match parse_date_or_reason(text) {
        Ok(date) => Some(date),
        Err(_) => None,
    }
}

/// The day that the named time zone has at `seconds` seconds after the first
/// moment of 1970 in universal time: a date from year 0 to year 9999 of a
/// moment within `SECONDS_LIMIT` in a zone that is known.
pub open spec fn day_at(name: Seq<char>, seconds: int) -> Option<Ymd> {
    if -SECONDS_LIMIT <= seconds <= SECONDS_LIMIT {
        match zone_day(name, seconds) {
            Some(t) => valid_date(Ymd { year: t.0, month: t.1, day: t.2 }),
            None => None,
        }
    } else {
        None
    }
}

/// The day that the named time zone has at `seconds` seconds after the first
/// moment of 1970 in universal time.
pub fn day_in_zone(name: &str, seconds: i64) -> (r: Option<Date>)
    ensures
        match r {
            Some(date) => day_at(name@, seconds as int) == Some(date@),
            None => day_at(name@, seconds as int) is None,
        },
{
    if seconds < -SECONDS_LIMIT || seconds > SECONDS_LIMIT {
        return None;
    }
    match civil_day_at(name, seconds) {
        Some((year, month, day)) => Date::from_ymd_opt(year, month, day),
        None => None,
    }
}

/// The model of a date that may be missing.
pub open spec fn date_view(r: Option<Date>) -> Option<Ymd> {
    match r {
        Some(date) => Some(date@),
        None => None,
    }
}

/// Today in the named time zone when the clock shows `clock` seconds since
/// the first moment of 1970 (`None`: the clock cannot be read): the day that
/// the zone has at that moment. There is none where the zone is unknown, the
/// clock cannot be read or shows more than `SECONDS_LIMIT`, or the day lies
/// after year 9999.
pub open spec fn today_of(name: Seq<char>, clock: Option<u64>) -> Option<Ymd> {
    if !known_zone(name) {
        None
    } else {
        match clock {
            Some(seconds) => day_at(name, seconds as int),
            None => None,
        }
    }
}

/// This week in the named time zone when the clock shows `clock`, as the day
/// numbers of its Monday and its Sunday: the week of today, if there is a
/// today and its week lies within the calendar.
pub open spec fn this_week_of(name: Seq<char>, clock: Option<u64>) -> Option<(int, int)> {
    match today_of(name, clock) {
        Some(today) => match week_of(today) {
            Ok(week) => Some(week),
            Err(_) => None,
        },
        None => None,
    }
}

/// This month in the named time zone when the clock shows `clock`, as the
/// day numbers of its first and its last day: the month of today, if there is
/// a today.
pub open spec fn this_month_of(name: Seq<char>, clock: Option<u64>) -> Option<(int, int)> {
    match today_of(name, clock) {
        Some(today) => Some(month_of(today)),
        None => None,
    }
}

/// The day numbers of a pair of dates that may be missing.
pub open spec fn span_view(r: Option<(Date, Date)>) -> Option<(int, int)> {
    match r {
        Some((first, last)) => Some((first@.day_number(), last@.day_number())),
        None => None,
    }
}

/// Today in the named time zone when the clock shows `clock` seconds since
/// the first moment of 1970, `None` for a clock that cannot be read.
pub fn today_at(name: &str, clock: Option<u64>) -> (r: Option<Date>)
    ensures
        date_view(r) == today_of(name@, clock),
{
    if !zone_is_known(name) {
        return None;
    }
    match clock {
        Some(seconds) => if seconds <= SECONDS_LIMIT as u64 {
            let moment: i64 = seconds as i64;
            day_in_zone(name, moment)
        } else {
            None
        },
        None => None,
    }
}

/// The Monday and the Sunday of this week in the named time zone when the
/// clock shows `clock`.
pub fn week_at(tz: &str, clock: Option<u64>) -> (r: Option<(Date, Date)>)
    ensures
        span_view(r) == this_week_of(tz@, clock),
{
    match today_at(tz, clock) {
        Some(today) => {
            let week = get_week_for_date(today);
            proof {
                if let Some((monday, sunday)) = week {
                    use_type_invariant(&monday);
                    use_type_invariant(&sunday);
                    crate::date::lemma_range_by_day_number(monday@);
                    crate::date::lemma_range_by_day_number(sunday@);
                }
            }
            week
        },
        None => None,
    }
}

/// The first and the last day of this month in the named time zone when the
/// clock shows `clock`.
pub fn month_at(tz: &str, clock: Option<u64>) -> (r: Option<(Date, Date)>)
    ensures
        span_view(r) == this_month_of(tz@, clock),
{
    match today_at(tz, clock) {
        Some(today) => Some(get_month_for_date(today)),
        None => None,
    }
}

/// Today in the named time zone: the day that the zone has at the moment
/// that the clock shows. Whatever the clock shows, the result is that of
/// `today_at` for it: `None` where the zone is unknown, the clock cannot be
/// read, or the day lies after year 9999.
pub fn today_in_zone(name: &str) -> (r: Option<Date>)
    ensures
        exists|clock: Option<u64>| date_view(r) == #[trigger] today_of(name@, clock),
{
    today_at(name, clock_seconds())
}

/// The Monday and the Sunday of this week in the named time zone: whatever
/// the clock shows, the result is that of `week_at` for it.
pub fn get_current_week(tz: &str) -> (r: Option<(Date, Date)>)
    ensures
        exists|clock: Option<u64>| span_view(r) == #[trigger] this_week_of(tz@, clock),
{
    week_at(tz, clock_seconds())
}

/// The first and the last day of this month in the named time zone: whatever
/// the clock shows, the result is that of `month_at` for it.
pub fn get_current_month(tz: &str) -> (r: Option<(Date, Date)>)
    ensures
        exists|clock: Option<u64>| span_view(r) == #[trigger] this_month_of(tz@, clock),
{
    month_at(tz, clock_seconds())
}

/// The text of the error for a date that cannot be read: what the date is
/// for, what was given, and why it is no date.
pub open spec fn date_error_text(label: Seq<char>, text: Seq<char>, reason: Seq<char>) -> Seq<
    char,
> {
    label + " '"@ + text + "': "@ + reason
}

/// The text of the error for a range that ends before it starts.
pub open spec fn range_error_text(from: Seq<char>, to: Seq<char>) -> Seq<char> {
    "Start date "@ + from + " is after end date "@ + to
}

/// The text of the error for a week that leaves the calendar.
pub open spec fn week_error_text(date: Ymd) -> Seq<char> {
    "The week of "@ + iso_text(date) + " is out of range"@
}

/// The text of the error for an unknown agenda mode.
pub open spec fn mode_error_text(mode: Seq<char>) -> Seq<char> {
    "Invalid agenda mode '"@ + mode + "'"@
}

/// The date that `text` writes, or the error for `label`.
pub open spec fn resolve_date(label: Seq<char>, text: Seq<char>) -> Result<Ymd, AppErrorView> {
    match date_or_reason(text) {
        Ok(date) => Ok(date),
        Err(reason) => Err(AppErrorView::InvalidDate(date_error_text(label, text, reason))),
    }
}

/// The date of a `day` agenda: the one given, else today.
pub open spec fn day_of(date: Option<&str>, today: Ymd) -> Result<Ymd, AppErrorView> {
    match date {
        Some(text) => resolve_date("date"@, text@),
        None => Ok(today),
    }
}

/// The week of `anchor`, Monday to Sunday, if it lies within the calendar.
pub open spec fn week_of(anchor: Ymd) -> Result<(int, int), AppErrorView> {
    let monday = anchor.day_number() - anchor.weekday_index();
    if MIN_DAY <= monday && monday + 6 <= MAX_DAY {
        Ok((monday, monday + 6))
    } else {
        Err(AppErrorView::DateRange(week_error_text(anchor)))
    }
}

/// The month of `anchor`, first day to last day.
pub open spec fn month_of(anchor: Ymd) -> (int, int) {
    (
        (Ymd { year: anchor.year, month: anchor.month, day: 1 }).day_number(),
        (Ymd {
            year: anchor.year,
            month: anchor.month,
            day: month_length(anchor.year, anchor.month),
        }).day_number(),
    )
}

/// The days of a `week` or `month` agenda, as the day numbers of the first
/// and the last: from `from` to `to` where both are given, else the week or
/// month of the date given, else that of today.
pub open spec fn range_of(
    weekly: bool,
    date: Option<&str>,
    from: Option<&str>,
    to: Option<&str>,
    today: Ymd,
) -> Result<(int, int), AppErrorView> {
    if from is Some && to is Some {
        match (resolve_date("from"@, from->0@), resolve_date("to"@, to->0@)) {
            (Err(e), _) => Err(e),
            (Ok(_), Err(e)) => Err(e),
            (Ok(start), Ok(end)) => if start.day_number() > end.day_number() {
                Err(AppErrorView::DateRange(range_error_text(from->0@, to->0@)))
            } else {
                Ok((start.day_number(), end.day_number()))
            },
        }
    } else {
        match day_of(date, today) {
            Ok(anchor) => if weekly {
                week_of(anchor)
            } else {
                Ok(month_of(anchor))
            },
            Err(e) => Err(e),
        }
    }
}

/// The rank that a task is sorted by: that of its priority, 999 without one.
pub open spec fn priority_key(task: TaskView) -> int {
    match task.priority {
        Some(p) => priority_rank(p),
        None => 999,
    }
}

/// The place in a list sorted by priority for a task with the rank `key`:
/// after the last task whose rank is not larger.
pub open spec fn rank_position(sorted: Seq<TaskView>, key: int) -> int
    decreases sorted.len(),
{
    if sorted.len() == 0 {
        0
    } else if priority_key(sorted.last()) <= key {
        sorted.len() as int
    } else {
        rank_position(sorted.drop_last(), key)
    }
}

/// The tasks marked `TODO`, sorted by priority; tasks of one rank in the
/// order in which they were given.
pub open spec fn todo_by_priority(tasks: Seq<TaskView>) -> Seq<TaskView>
    decreases tasks.len(),
{
    if tasks.len() == 0 {
        Seq::empty()
    } else {
        let sorted = todo_by_priority(tasks.drop_last());
        let task = tasks.last();
        if task.task_type == Some(TaskType::Todo) {
            sorted.insert(rank_position(sorted, priority_key(task)), task)
        } else {
            sorted
        }
    }
}

/// The rank that `task` is sorted by.
fn rank_of(task: &Task) -> (r: u32)
    ensures
        r == priority_key(task@),
{
    match &task.priority {
        Some(p) => p.order(),
        None => 999,
    }
}

/// The tasks marked `TODO`, sorted by priority.
pub fn sort_todo_tasks(tasks: &Vec<Task>) -> (r: Vec<Task>)
    ensures
        r.deep_view() == todo_by_priority(tasks.deep_view()),
{
    let mut sorted: Vec<Task> = Vec::new();
    let ghost all = tasks.deep_view();
    let mut i: usize = 0;
    assert(all.subrange(0, 0) =~= Seq::empty());
    assert(sorted.deep_view() =~= Seq::empty());
    while i < tasks.len()
        invariant
            i <= tasks.len(),
            all == tasks.deep_view(),
            sorted.deep_view() == todo_by_priority(all.subrange(0, i as int)),
        decreases tasks.len() - i,
    {
        let ghost before = all.subrange(0, i as int);
        let ghost after = all.subrange(0, i + 1);
        assert(after.drop_last() =~= before);
        assert(after.last() == tasks@[i as int]@);
        let task = &tasks[i];
        let todo: bool = match task.task_type {
            Some(TaskType::Todo) => true,
            _ => false,
        };
        if todo {
            let key: u32 = rank_of(task);
            let ghost list = sorted.deep_view();
            let mut at: usize = sorted.len();
            assert(list.subrange(0, at as int) =~= list);
            while at > 0 && rank_of(&sorted[at - 1]) > key
                invariant
                    at <= sorted.len(),
                    list == sorted.deep_view(),
                    rank_position(list, key as int) == rank_position(
                        list.subrange(0, at as int),
                        key as int,
                    ),
                decreases at,
            {
                assert(list.subrange(0, at as int).drop_last() =~= list.subrange(0, at - 1));
                at -= 1;
            }
            proof {
                if at > 0 {
                    assert(list.subrange(0, at as int).last() == sorted@[at - 1]@);
                }
            }
            let copy = copy_task(task);
            sorted.insert(at, copy);
            assert(sorted.deep_view() =~= list.insert(at as int, copy@));
        }
        i += 1;
    }
    assert(all.subrange(0, i as int) =~= all);
    sorted
}

/// An error for a date that cannot be read.
fn date_error(label: &str, text: &str, reason: &str) -> (r: AppError)
    ensures
        r@ == AppErrorView::InvalidDate(date_error_text(label@, text@, reason@)),
{
    let mut out: Vec<char> = Vec::new();
    push_str_chars(&mut out, label);
    push_str_chars(&mut out, " '");
    push_str_chars(&mut out, text);
    push_str_chars(&mut out, "': ");
    push_str_chars(&mut out, reason);
    assert(out@ =~= date_error_text(label@, text@, reason@));
    AppError::InvalidDate(string_of(&out))
}

/// The date that `text` writes, or the error for `label`.
fn read_date(label: &str, text: &str) -> (r: Result<Date, AppError>)
    ensures
        match r {
            Ok(date) => resolve_date(label@, text@) == Ok::<Ymd, AppErrorView>(date@),
            Err(e) => resolve_date(label@, text@) == Err::<Ymd, AppErrorView>(e@),
        },
{
    match parse_date_or_reason(text) {
        Ok(date) => Ok(date),
        Err(reason) => Err(date_error(label, text, reason.as_str())),
    }
}

/// The date of a `day` agenda.
fn read_day(date: Option<&str>, today: Date) -> (r: Result<Date, AppError>)
    ensures
        match r {
            Ok(day) => day_of(date, today@) == Ok::<Ymd, AppErrorView>(day@),
            Err(e) => day_of(date, today@) == Err::<Ymd, AppErrorView>(e@),
        },
{
    match date {
        Some(text) => read_date("date", text),
        None => Ok(today),
    }
}

/// The days of a `week` or `month` agenda.
fn read_range(weekly: bool, date: Option<&str>, from: Option<&str>, to: Option<&str>, today: Date)
    -> (r: Result<(Date, Date), AppError>)
    ensures
        match r {
            Ok((start, end)) => range_of(weekly, date, from, to, today@) == Ok::<
                (int, int),
                AppErrorView,
            >((start@.day_number(), end@.day_number())),
            Err(e) => range_of(weekly, date, from, to, today@) == Err::<(int, int), AppErrorView>(
                e@,
            ),
        },
{
    match (from, to) {
        (Some(from_text), Some(to_text)) => {
            let start = match read_date("from", from_text) {
                Ok(d) => d,
                Err(e) => {
                    return Err(e);
                },
            };
            let end = match read_date("to", to_text) {
                Ok(d) => d,
                Err(e) => {
                    return Err(e);
                },
            };
            if end.is_before(&start) {
                let mut out: Vec<char> = Vec::new();
                push_str_chars(&mut out, "Start date ");
                push_str_chars(&mut out, from_text);
                push_str_chars(&mut out, " is after end date ");
                push_str_chars(&mut out, to_text);
                assert(out@ =~= range_error_text(from_text@, to_text@));
                return Err(AppError::DateRange(string_of(&out)));
            }
            Ok((start, end))
        },
        _ => {
            let anchor = match read_day(date, today) {
                Ok(d) => d,
                Err(e) => {
                    return Err(e);
                },
            };
            if weekly {
                match get_week_for_date(anchor) {
                    Some(week) => {
                        proof {
                            use_type_invariant(&week.0);
                            use_type_invariant(&week.1);
                            crate::date::lemma_range_by_day_number(week.0@);
                            crate::date::lemma_range_by_day_number(week.1@);
                        }
                        Ok(week)
                    },
                    None => {
                        let mut out: Vec<char> = Vec::new();
                        push_str_chars(&mut out, "The week of ");
                        anchor.push_iso(&mut out);
                        push_str_chars(&mut out, " is out of range");
                        assert(out@ =~= week_error_text(anchor@));
                        Err(AppError::DateRange(string_of(&out)))
                    },
                }
            } else {
                Ok(get_month_for_date(anchor))
            }
        },
    }
}

/// What `agenda_for` gives for the days from `range.0` to `range.1`.
pub open spec fn is_days_output(
    tasks: Seq<TaskView>,
    range: (int, int),
    today: Ymd,
    output: AgendaOutputView,
) -> bool {
    output == AgendaOutputView::Days(
        agendas_from(builtin_calendar(), tasks, range.0, (range.1 - range.0 + 1) as nat, today),
    )
}

/// What `agenda_for` gives: see there.
pub open spec fn is_agenda_for(
    tasks: Seq<TaskView>,
    mode: Seq<char>,
    date: Option<&str>,
    from: Option<&str>,
    to: Option<&str>,
    today: Ymd,
    result: Result<AgendaOutputView, AppErrorView>,
) -> bool {
    if mode == "day"@ {
        match day_of(date, today) {
            Ok(day) => result matches Ok(output) && is_days_output(
                tasks,
                (day.day_number(), day.day_number()),
                today,
                output,
            ),
            Err(e) => result == Err::<AgendaOutputView, AppErrorView>(e),
        }
    } else if mode == "week"@ || mode == "month"@ {
        match range_of(mode == "week"@, date, from, to, today) {
            Ok(range) => result matches Ok(output) && is_days_output(tasks, range, today, output),
            Err(e) => result == Err::<AgendaOutputView, AppErrorView>(e),
        }
    } else if mode == "tasks"@ {
        result == Ok::<AgendaOutputView, AppErrorView>(
            AgendaOutputView::Tasks(todo_by_priority(tasks)),
        )
    } else {
        result == Err::<AgendaOutputView, AppErrorView>(
            AppErrorView::InvalidDate(mode_error_text(mode)),
        )
    }
}

/// The model of a result.
pub open spec fn result_view(r: Result<AgendaOutput, AppError>) -> Result<
    AgendaOutputView,
    AppErrorView,
> {
    match r {
        Ok(output) => Ok(output@),
        Err(e) => Err(e@),
    }
}

/// Builds the agenda of the given mode as seen on `today`:
///
/// - `day`: the agenda of the date given, else of today;
/// - `week`: the agendas of the days from `from` to `to` where both are
///   given, else of the week, Monday to Sunday, of the date given, else of
///   this week;
/// - `month`: the same with the month, first day to last day, for the week;
/// - `tasks`: the tasks marked `TODO`, sorted by priority, whatever their
///   dates.
///
/// A date that cannot be read, a range that ends before it starts, a week
/// that leaves the calendar and an unknown mode are errors.
pub fn agenda_for(
    tasks: Vec<Task>,
    mode: &str,
    date: Option<&str>,
    from: Option<&str>,
    to: Option<&str>,
    today: Date,
) -> (r: Result<AgendaOutput, AppError>)
    ensures
        is_agenda_for(tasks.deep_view(), mode@, date, from, to, today@, result_view(r)),
{
    if str_equal(mode, "day") {
        match read_day(date, today) {
            Ok(day) => {
                let days = build_week_agenda(tasks.as_slice(), day, day, today);
                Ok(AgendaOutput::Days(days))
            },
            Err(e) => Err(e),
        }
    } else if str_equal(mode, "week") || str_equal(mode, "month") {
        match read_range(str_equal(mode, "week"), date, from, to, today) {
            Ok((start, end)) => {
                let days = build_week_agenda(tasks.as_slice(), start, end, today);
                Ok(AgendaOutput::Days(days))
            },
            Err(e) => Err(e),
        }
    } else if str_equal(mode, "tasks") {
        Ok(AgendaOutput::Tasks(sort_todo_tasks(&tasks)))
    } else {
        let mut out: Vec<char> = Vec::new();
        push_str_chars(&mut out, "Invalid agenda mode '");
        push_str_chars(&mut out, mode);
        push_str_chars(&mut out, "'");
        assert(out@ =~= mode_error_text(mode@));
        Err(AppError::InvalidDate(string_of(&out)))
    }
}

/// What `result` has to be for the agenda of the given mode where today is
/// taken from the clock: the agenda as seen on `today`, or the error of the
/// time zone `tz` where the clock gave no day.
pub open spec fn is_agenda_on(
    tasks: Seq<TaskView>,
    mode: Seq<char>,
    date: Option<&str>,
    from: Option<&str>,
    to: Option<&str>,
    tz: Seq<char>,
    today: Option<Ymd>,
    result: Result<AgendaOutputView, AppErrorView>,
) -> bool {
    match today {
        Some(day) => is_agenda_for(tasks, mode, date, from, to, day, result),
        None => result == Err::<AgendaOutputView, AppErrorView>(AppErrorView::InvalidTimezone(tz)),
    }
}

/// Builds the agenda of the given mode. Today is the date of
/// `current_date_override` where one is given, else the day that the clock
/// shows in the time zone `tz`. An unknown time zone and a current date that
/// cannot be read are errors, as is a clock that gives no day; the rest is
/// as `agenda_for` has it.
pub fn filter_agenda(
    tasks: Vec<Task>,
    mode: &str,
    date: Option<&str>,
    from: Option<&str>,
    to: Option<&str>,
    tz: &str,
    current_date_override: Option<&str>,
) -> (r: Result<AgendaOutput, AppError>)
    ensures
        !known_zone(tz@) ==> result_view(r) == Err::<AgendaOutputView, AppErrorView>(
            AppErrorView::InvalidTimezone(tz@),
        ),
        known_zone(tz@) ==> match current_date_override {
            Some(text) => match resolve_date("current-date"@, text@) {
                Ok(today) => is_agenda_for(
                    tasks.deep_view(),
                    mode@,
                    date,
                    from,
                    to,
                    today,
                    result_view(r),
                ),
                Err(e) => result_view(r) == Err::<AgendaOutputView, AppErrorView>(e),
            },
            None => exists|clock: Option<u64>|
                is_agenda_on(
                    tasks.deep_view(),
                    mode@,
                    date,
                    from,
                    to,
                    tz@,
                    #[trigger] today_of(tz@, clock),
                    result_view(r),
                ),
        },
{
    if !zone_is_known(tz) {
        return Err(AppError::InvalidTimezone(tz.to_owned()));
    }
    let today = match current_date_override {
        Some(text) => match read_date("current-date", text) {
            Ok(d) => d,
            Err(e) => {
                return Err(e);
            },
        },
        None => match today_in_zone(tz) {
            Some(d) => d,
            None => {
                return Err(AppError::InvalidTimezone(tz.to_owned()));
            },
        },
    };
    proof {
        use_type_invariant(&today);
    }
    agenda_for(tasks, mode, date, from, to, today)
}

} // verus!
