use crate::agenda::unit_letters;
use crate::date::Date;
use crate::date::Ymd;
use crate::date::iso_text;
use crate::date::weekday_name;
use crate::repeater::Repeater;
use crate::repeater::RepeaterType;
use crate::repeater::RepeaterUnit;
use crate::text::decimal_text;
use crate::text::padded_decimal;
use crate::text::push_decimal;
use crate::text::push_padded;
use crate::text::string_of;
use crate::timestamp::ClockTime;
use crate::timestamp::ParsedTimestamp;
use crate::timestamp::TimestampKind;
use crate::timestamp::TimestampView;
use crate::timestamp::closed_word;
use crate::timestamp::deadline_word;
use crate::timestamp::scheduled_word;
use vstd::prelude::*;

verus! {

/// The keyword of a kind with the blank after it; nothing for `Plain`.
pub open spec fn kind_text(kind: TimestampKind) -> Seq<char> {
    match kind {
        TimestampKind::Scheduled => scheduled_word() + seq![' '],
        TimestampKind::Deadline => deadline_word() + seq![' '],
        TimestampKind::Closed => closed_word() + seq![' '],
        TimestampKind::Plain => Seq::empty(),
    }
}

/// A time of day as `HH:MM`.
pub open spec fn clock_text(time: ClockTime) -> Seq<char> {
    padded_decimal(time.hour as nat, 2) + seq![':'] + padded_decimal(time.minute as nat, 2)
}

/// The marker of a repeater: `+`, `++` or `.+`.
pub open spec fn marker_text(kind: RepeaterType) -> Seq<char> {
    match kind {
        RepeaterType::Cumulative => seq!['+'],
        RepeaterType::CatchUp => seq!['+', '+'],
        RepeaterType::Restart => seq!['.', '+'],
    }
}

/// A repeater as a token: marker, interval, unit.
pub open spec fn repeater_text(rep: Repeater) -> Seq<char> {
    marker_text(rep.repeater_type) + decimal_text(rep.value as nat) + unit_letters(rep.unit)
}

/// The time of a bracket with the blank before it, and its end time after
/// `-`; nothing without a time.
pub open spec fn time_text(time: Option<ClockTime>, end_time: Option<ClockTime>) -> Seq<char> {
    match time {
        Some(t) => seq![' '] + clock_text(t) + match end_time {
            Some(e) => seq!['-'] + clock_text(e),
            None => Seq::empty(),
        },
        None => Seq::empty(),
    }
}

/// The repeater of a bracket with the blank before it; nothing without one.
pub open spec fn repeater_part_text(rep: Option<Repeater>) -> Seq<char> {
    match rep {
        Some(r) => seq![' '] + repeater_text(r),
        None => Seq::empty(),
    }
}

/// The warning of a bracket, as ` -Nd`; nothing without one.
pub open spec fn warning_text(days: Option<u32>) -> Seq<char> {
    match days {
        Some(n) => seq![' ', '-'] + decimal_text(n as nat) + seq!['d'],
        None => Seq::empty(),
    }
}

/// A date with its weekday, as a bracket starts: `<YYYY-MM-DD Www`.
pub open spec fn dated_text(date: Ymd) -> Seq<char> {
    seq!['<'] + iso_text(date) + seq![' '] + weekday_name(date.weekday_index())
}

/// The second bracket of a range with the `--` before it; nothing without an
/// end date.
pub open spec fn range_text(end_date: Option<Ymd>) -> Seq<char> {
    match end_date {
        Some(d) => seq!['-', '-'] + dated_text(d) + seq!['>'],
        None => Seq::empty(),
    }
}

/// What follows the date and weekday of the first bracket.
pub open spec fn bracket_rest_text(p: TimestampView) -> Seq<char> {
    time_text(p.time, p.end_time) + repeater_part_text(p.repeater) + warning_text(
        p.deadline_warning_days,
    ) + seq!['>']
}

/// A timestamp as a directive: the keyword of its kind, then in a bracket the
/// date with its weekday, the time and end time, the repeater and the
/// warning, as far as it has them; for a range, `--` and the end date with
/// its weekday in a second bracket.
#[verifier::opaque]
pub open spec fn timestamp_text(p: TimestampView) -> Seq<char> {
    kind_text(p.kind) + dated_text(p.date) + bracket_rest_text(p) + range_text(p.end_date)
}

/// Appends a time of day as `HH:MM`.
fn push_clock(out: &mut Vec<char>, time: ClockTime)
    ensures
        final(out)@ == old(out)@ + clock_text(time),
{
    push_padded(out, time.hour as u32, 2);
    out.push(':');
    push_padded(out, time.minute as u32, 2);
    assert(out@ =~= old(out)@ + clock_text(time));
}

/// Appends a date with its weekday, as a bracket starts.
fn push_dated(out: &mut Vec<char>, date: Date)
    ensures
        final(out)@ == old(out)@ + dated_text(date@),
{
    out.push('<');
    date.push_iso(out);
    out.push(' ');
    date.push_weekday_name(out);
    assert(out@ =~= old(out)@ + dated_text(date@));
}

/// Appends a repeater as a token.
fn push_repeater(out: &mut Vec<char>, rep: Repeater)
    ensures
        final(out)@ == old(out)@ + repeater_text(rep),
{
    match rep.repeater_type {
        RepeaterType::Cumulative => {
            out.push('+');
        },
        RepeaterType::CatchUp => {
            out.push('+');
            out.push('+');
        },
        RepeaterType::Restart => {
            out.push('.');
            out.push('+');
        },
    }
    let ghost marked = out@;
    assert(marked =~= old(out)@ + marker_text(rep.repeater_type));
    push_decimal(out, rep.value as u64);
    match rep.unit {
        RepeaterUnit::Day => out.push('d'),
        RepeaterUnit::Week => out.push('w'),
        RepeaterUnit::Month => out.push('m'),
        RepeaterUnit::Year => out.push('y'),
        RepeaterUnit::Hour => out.push('h'),
        RepeaterUnit::Workday => {
            out.push('w');
            out.push('d');
        },
    }
    assert(out@ =~= marked + decimal_text(rep.value as nat) + unit_letters(rep.unit));
    assert(out@ =~= old(out)@ + repeater_text(rep));
}

/// Appends the time of a bracket and its end time.
fn push_time(out: &mut Vec<char>, time: Option<ClockTime>, end_time: Option<ClockTime>)
    ensures
        final(out)@ == old(out)@ + time_text(time, end_time),
{
    match time {
        Some(t) => {
            out.push(' ');
            push_clock(out, t);
            let ghost timed = out@;
            assert(timed =~= old(out)@ + (seq![' '] + clock_text(t)));
            match end_time {
                Some(e) => {
                    out.push('-');
                    push_clock(out, e);
                    assert(out@ =~= old(out)@ + (seq![' '] + clock_text(t) + (seq!['-']
                        + clock_text(e))));
                },
                None => {
                    assert(out@ =~= old(out)@ + (seq![' '] + clock_text(t) + Seq::<char>::empty()));
                },
            }
        },
        None => {
            assert(out@ =~= old(out)@ + Seq::<char>::empty());
        },
    }
}

/// Appends the repeater of a bracket.
fn push_repeater_part(out: &mut Vec<char>, rep: Option<Repeater>)
    ensures
        final(out)@ == old(out)@ + repeater_part_text(rep),
{
    match rep {
        Some(r) => {
            out.push(' ');
            push_repeater(out, r);
            assert(out@ =~= old(out)@ + (seq![' '] + repeater_text(r)));
        },
        None => {
            assert(out@ =~= old(out)@ + Seq::<char>::empty());
        },
    }
}

/// Appends the warning of a bracket.
fn push_warning(out: &mut Vec<char>, days: Option<u32>)
    ensures
        final(out)@ == old(out)@ + warning_text(days),
{
    match days {
        Some(n) => {
            out.push(' ');
            out.push('-');
            push_decimal(out, n as u64);
            out.push('d');
            assert(out@ =~= old(out)@ + (seq![' ', '-'] + decimal_text(n as nat) + seq!['d']));
        },
        None => {
            assert(out@ =~= old(out)@ + Seq::<char>::empty());
        },
    }
}

/// Appends what follows the date and weekday of the first bracket.
fn push_bracket_rest(out: &mut Vec<char>, p: &ParsedTimestamp)
    ensures
        final(out)@ == old(out)@ + bracket_rest_text(p@),
{
    push_time(out, p.time, p.end_time);
    push_repeater_part(out, p.repeater);
    push_warning(out, p.deadline_warning_days);
    out.push('>');
    assert(out@ =~= old(out)@ + bracket_rest_text(p@));
}

/// Writes a timestamp as a directive, such as
/// `DEADLINE: <2024-12-01 Sun 10:00-11:00 +1w -3d>`.
pub fn format_timestamp(p: &ParsedTimestamp) -> (r: String)
    ensures
        r@ == timestamp_text(p@),
{
    let mut out: Vec<char> = Vec::new();
    match p.kind {
        TimestampKind::Scheduled => {
            crate::text::push_str_chars(&mut out, "SCHEDULED: ");
            proof {
                reveal_strlit("SCHEDULED: ");
            }
            assert(out@ =~= kind_text(p.kind));
        },
        TimestampKind::Deadline => {
            crate::text::push_str_chars(&mut out, "DEADLINE: ");
            proof {
                reveal_strlit("DEADLINE: ");
            }
            assert(out@ =~= kind_text(p.kind));
        },
        TimestampKind::Closed => {
            crate::text::push_str_chars(&mut out, "CLOSED: ");
            proof {
                reveal_strlit("CLOSED: ");
            }
            assert(out@ =~= kind_text(p.kind));
        },
        TimestampKind::Plain => {
            assert(out@ =~= kind_text(p.kind));
        },
    }
    push_dated(&mut out, p.date);
    push_bracket_rest(&mut out, p);
    let ghost first = out@;
    match p.end_date {
        Some(d) => {
            out.push('-');
            out.push('-');
            push_dated(&mut out, d);
            out.push('>');
            assert(out@ =~= first + range_text(p@.end_date));
        },
        None => {
            assert(out@ =~= first + range_text(p@.end_date));
        },
    }
    assert(out@ =~= timestamp_text(p@)) by {
        reveal(timestamp_text);
    }
    string_of(&out)
}

} // verus!
