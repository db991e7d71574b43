use crate::date::iso_text;
use crate::directive::clock_text;
use crate::text::copy_range;
use crate::text::push_padded;
use crate::text::skip_spaces;
use crate::text::skip_spaces_in;
use crate::text::string_of;
use crate::text::trim_end;
use crate::text::trim_end_in;
use crate::timestamp::ClockTime;
use crate::timestamp::TimestampKind;
use crate::timestamp::TimestampView;
use crate::timestamp::directive_end;
use crate::timestamp::directive_end_at;
use crate::timestamp::holds_word;
use crate::timestamp::holds_word_before;
use crate::timestamp::is_at;
use crate::timestamp::keyword_start;
use crate::timestamp::keyword_start_in;
use crate::timestamp::normalize_weekdays;
use crate::timestamp::normalize_weekdays_spec;
use crate::timestamp::parse_timestamp_chars;
use crate::timestamp::timestamp_of;
use crate::timestamp::word_at;
use vstd::prelude::*;

verus! {

/// The keyword `CREATED:`.
pub open spec fn created_word() -> Seq<char> {
    seq!['C', 'R', 'E', 'A', 'T', 'E', 'D', ':']
}

/// The first position from `i` on that holds `>`, or the length of `s`.
pub open spec fn closing_from(s: Seq<char>, i: int) -> int
    decreases s.len() - i,
{
    if 0 <= i < s.len() && s[i] != '>' {
        closing_from(s, i + 1)
    } else {
        i
    }
}

/// The created stamp at `i`: `CREATED:`, white space or none, and a bracket
/// `<...>` that holds something. The position after the stamp.
pub open spec fn created_end_at(s: Seq<char>, i: int) -> Option<int> {
    let open = skip_spaces(s, i + 8);
    let close = closing_from(s, open + 1);
    if word_at(s, i, created_word()) && is_at(s, open, '<') && open + 1 < close < s.len() {
        Some(close + 1)
    } else {
        None
    }
}

/// The first created stamp of `s` from `i` on: where it starts and ends.
pub open spec fn first_created_from(s: Seq<char>, i: int) -> Option<(int, int)>
    decreases s.len() - i,
{
    if i < 0 || i >= s.len() {
        None
    } else {
        match created_end_at(s, i) {
            Some(end) => Some((i, end)),
            None => first_created_from(s, i + 1),
        }
    }
}

/// The text of a span of `s`.
pub open spec fn span_of(s: Seq<char>, span: Option<(int, int)>) -> Option<Seq<char>> {
    match span {
        Some(range) => Some(s.subrange(range.0, range.1)),
        None => None,
    }
}

/// The first created stamp of `s`, such as `CREATED: <2024-12-01 Sun>`.
pub open spec fn created_text(s: Seq<char>) -> Option<Seq<char>> {
    span_of(s, first_created_from(s, 0))
}

/// The keyword right before position `i`, white space aside, is `CREATED:`.
pub open spec fn created_before(s: Seq<char>, i: int) -> bool {
    word_at(s, trim_end(s, 0, i) - 8, created_word())
}

/// The directive whose bracket starts at `i`, unless a created stamp starts
/// there: from its keyword, or without one from the bracket, to its end.
pub open spec fn directive_span_at(s: Seq<char>, i: int, ranged: bool) -> Option<(int, int)> {
    if created_before(s, i) {
        None
    } else {
        match directive_end_at(s, i, ranged) {
            Some(end) => Some((keyword_start(s, i), end)),
            None => None,
        }
    }
}

/// The first directive of `s` whose bracket starts at `i` or later.
pub open spec fn first_directive_from(s: Seq<char>, i: int, ranged: bool) -> Option<(int, int)>
    decreases s.len() - i,
{
    if i < 0 || i >= s.len() {
        None
    } else {
        match directive_span_at(s, i, ranged) {
            Some(span) => Some(span),
            None => first_directive_from(s, i + 1, ranged),
        }
    }
}

/// The first directive of `s` with a timestamp, such as
/// `SCHEDULED: <2024-12-10 Tue 10:00>`: the first range, or without a range
/// the first single bracket; a created stamp is none.
pub open spec fn directive_text(s: Seq<char>) -> Option<Seq<char>> {
    match first_directive_from(s, 0, true) {
        Some(span) => span_of(s, Some(span)),
        None => span_of(s, first_directive_from(s, 0, false)),
    }
}

/// The created stamp at `i`, as the position after it.
fn read_created_end(v: &Vec<char>, i: usize) -> (r: Option<usize>)
    requires
        i < v.len(),
    ensures
        match r {
            Some(end) => created_end_at(v@, i as int) == Some(end as int) && i < end <= v.len(),
            None => created_end_at(v@, i as int) is None,
        },
{
    let word: Vec<char> = vec!['C', 'R', 'E', 'A', 'T', 'E', 'D', ':'];
    assert(word@ =~= created_word());
    if !holds_word(v, i, &word) {
        return None;
    }
    let open: usize = skip_spaces_in(v, i + 8);
    if !(open < v.len() && v[open] == '<') {
        return None;
    }
    let mut close: usize = open + 1;
    while close < v.len() && v[close] != '>'
        invariant
            open + 1 <= close <= v.len(),
            closing_from(v@, open + 1) == closing_from(v@, close as int),
        decreases v.len() - close,
    {
        close += 1;
    }
    if open + 1 < close && close < v.len() {
        Some(close + 1)
    } else {
        None
    }
}

/// The text of a span of `v`.
fn span_string(v: &Vec<char>, span: Option<(usize, usize)>) -> (r: Option<String>)
    requires
        span matches Some(range) ==> range.0 <= range.1 <= v.len(),
    ensures
        r.deep_view() == span_of(
            v@,
            match span {
                Some(range) => Some((range.0 as int, range.1 as int)),
                None => None,
            },
        ),
{
    match span {
        Some(range) => {
            let part: Vec<char> = copy_range(v, range.0, range.1);
            Some(string_of(&part))
        },
        None => None,
    }
}

/// The first created stamp of the characters of `v`.
pub fn created_in(v: &Vec<char>) -> (r: Option<String>)
    ensures
        r.deep_view() == created_text(v@),
{
    let mut i: usize = 0;
    while i < v.len()
        invariant
            i <= v.len(),
            first_created_from(v@, 0) == first_created_from(v@, i as int),
        decreases v.len() - i,
    {
        match read_created_end(v, i) {
            Some(end) => {
                return span_string(v, Some((i, end)));
            },
            None => {},
        }
        i += 1;
    }
    None
}

/// Whether the keyword right before `i` is `CREATED:`.
fn is_created_before(v: &Vec<char>, i: usize) -> (r: bool)
    requires
        i <= v.len(),
    ensures
        r == created_before(v@, i as int),
{
    let word: Vec<char> = vec!['C', 'R', 'E', 'A', 'T', 'E', 'D', ':'];
    assert(word@ =~= created_word());
    let end: usize = trim_end_in(v, 0, i);
    holds_word_before(v, end, &word)
}

/// The first directive of `v`, as a range or as a single bracket.
fn find_directive(v: &Vec<char>, ranged: bool) -> (r: Option<(usize, usize)>)
    ensures
        match r {
            Some(span) => first_directive_from(v@, 0, ranged) == Some(
                (span.0 as int, span.1 as int),
            ) && span.0 <= span.1 <= v.len(),
            None => first_directive_from(v@, 0, ranged) is None,
        },
{
    let mut i: usize = 0;
    while i < v.len()
        invariant
            i <= v.len(),
            first_directive_from(v@, 0, ranged) == first_directive_from(v@, i as int, ranged),
        decreases v.len() - i,
    {
        if !is_created_before(v, i) {
            match directive_end(v, i, ranged) {
                Some(end) => {
                    return Some((keyword_start_in(v, i), end));
                },
                None => {},
            }
        }
        i += 1;
    }
    None
}

/// The first directive with a timestamp of the characters of `v`.
pub fn directive_in(v: &Vec<char>) -> (r: Option<String>)
    ensures
        r.deep_view() == directive_text(v@),
{
    match find_directive(v, true) {
        Some(span) => span_string(v, Some(span)),
        None => {
            let single = find_directive(v, false);
            span_string(v, single)
        },
    }
}

/// Finds the created stamp of a text, such as `CREATED: <2024-12-01 Sun>`,
/// after the localized weekday names of `mappings` were replaced.
pub fn extract_created(text: &str, mappings: &[(&str, &str)]) -> (r: Option<String>)
    ensures
        r.deep_view() == created_text(normalize_weekdays_spec(text@, mappings@)),
{
    let v: Vec<char> = normalize_weekdays(text, mappings);
    created_in(&v)
}

/// Finds the directive with a timestamp of a text, such as
/// `DEADLINE: <2024-12-10 Tue +1w>`, after the localized weekday names of
/// `mappings` were replaced.
pub fn extract_timestamp(text: &str, mappings: &[(&str, &str)]) -> (r: Option<String>)
    ensures
        r.deep_view() == directive_text(normalize_weekdays_spec(text@, mappings@)),
{
    let v: Vec<char> = normalize_weekdays(text, mappings);
    directive_in(&v)
}

/// The keyword of a kind, without the colon; none for `Plain`.
pub open spec fn kind_name(kind: TimestampKind) -> Option<Seq<char>> {
    match kind {
        TimestampKind::Scheduled => Some("SCHEDULED"@),
        TimestampKind::Deadline => Some("DEADLINE"@),
        TimestampKind::Closed => Some("CLOSED"@),
        TimestampKind::Plain => None,
    }
}

/// A time of day as text, if there is one.
pub open spec fn time_field(time: Option<ClockTime>) -> Option<Seq<char>> {
    match time {
        Some(t) => Some(clock_text(t)),
        None => None,
    }
}

/// What a task shows of the timestamp of its directive.
pub struct TimestampFields {
    pub kind: Option<Seq<char>>,
    pub date: Option<Seq<char>>,
    pub time: Option<Seq<char>>,
    pub end_time: Option<Seq<char>>,
}

/// What a task shows of a timestamp: the keyword of its kind, its date as
/// `YYYY-MM-DD`, its time and its end time as `HH:MM`; nothing without a
/// timestamp.
pub open spec fn fields_of(parsed: Option<TimestampView>) -> TimestampFields {
    match parsed {
        Some(p) => TimestampFields {
            kind: kind_name(p.kind),
            date: Some(iso_text(p.date)),
            time: time_field(p.time),
            end_time: time_field(p.end_time),
        },
        None => TimestampFields { kind: None, date: None, time: None, end_time: None },
    }
}

/// A time of day as text.
fn time_string(time: Option<ClockTime>) -> (r: Option<String>)
    ensures
        r.deep_view() == time_field(time),
{
    match time {
        Some(t) => {
            let mut out: Vec<char> = Vec::new();
            push_padded(&mut out, t.hour as u32, 2);
            out.push(':');
            push_padded(&mut out, t.minute as u32, 2);
            assert(out@ =~= clock_text(t));
            Some(string_of(&out))
        },
        None => None,
    }
}

/// The keyword of a kind.
fn kind_string(kind: TimestampKind) -> (r: Option<String>)
    ensures
        r.deep_view() == kind_name(kind),
{
    match kind {
        TimestampKind::Scheduled => Some("SCHEDULED".to_owned()),
        TimestampKind::Deadline => Some("DEADLINE".to_owned()),
        TimestampKind::Closed => Some("CLOSED".to_owned()),
        TimestampKind::Plain => None,
    }
}

/// Reads the directive `ts` and gives what a task shows of its timestamp:
/// kind, date, time and end time.
pub fn parse_timestamp_fields(ts: &str, mappings: &[(&str, &str)]) -> (r: (
    Option<String>,
    Option<String>,
    Option<String>,
    Option<String>,
))
    ensures
        (TimestampFields {
            kind: r.0.deep_view(),
            date: r.1.deep_view(),
            time: r.2.deep_view(),
            end_time: r.3.deep_view(),
        }) == fields_of(timestamp_of(normalize_weekdays_spec(ts@, mappings@))),
{
    let v: Vec<char> = normalize_weekdays(ts, mappings);
    match parse_timestamp_chars(&v) {
        Some(p) => (
            kind_string(p.kind),
            Some(p.date.to_iso_string()),
            time_string(p.time),
            time_string(p.end_time),
        ),
        None => (None, None, None, None),
    }
}

} // verus!
