use crate::date::Date;
use crate::date::Ymd;
use crate::date::weekday_name;
use crate::repeater::Repeater;
use crate::repeater::parse_repeater_in;
use crate::repeater::repeater_of;
use crate::text::char_is_digit;
use crate::text::chars_of;
use crate::text::digit_value;
use crate::text::digits_value;
use crate::text::is_digit;
use crate::text::parse_digits_in;
use crate::text::skip_spaces;
use crate::text::skip_spaces_in;
use crate::text::trim_end;
use crate::text::trim_end_in;
use vstd::prelude::*;

verus! {

/// What a directive says of its date.
#[derive(Debug, Clone, Copy, PartialEq, Eq, Structural)]
pub enum TimestampKind {
    Scheduled,
    Deadline,
    Closed,
    Plain,
}

/// A time of day as a directive writes it: one or two digits for the hour,
/// two for the minute, neither held to a range.
#[derive(Debug, Clone, Copy, PartialEq, Eq, Structural)]
pub struct ClockTime {
    pub hour: u8,
    pub minute: u8,
}

impl ClockTime {
    /// Minutes since the start of the day.
    pub open spec fn minutes(self) -> int {
        self.hour * 60 + self.minute
    }
}

/// A directive in structured form.
#[derive(Debug, Clone, Copy)]
pub struct ParsedTimestamp {
    pub kind: TimestampKind,
    pub date: Date,
    pub time: Option<ClockTime>,
    pub end_time: Option<ClockTime>,
    pub end_date: Option<Date>,
    pub repeater: Option<Repeater>,
    pub deadline_warning_days: Option<u32>,
}

/// The model of a [`ParsedTimestamp`].
pub struct TimestampView {
    pub kind: TimestampKind,
    pub date: Ymd,
    pub time: Option<ClockTime>,
    pub end_time: Option<ClockTime>,
    pub end_date: Option<Ymd>,
    pub repeater: Option<Repeater>,
    pub deadline_warning_days: Option<u32>,
}

impl View for ParsedTimestamp {
    type V = TimestampView;

    open spec fn view(&self) -> TimestampView {
        TimestampView {
            kind: self.kind,
            date: self.date@,
            time: self.time,
            end_time: self.end_time,
            end_date: match self.end_date {
                Some(d) => Some(d@),
                None => None,
            },
            repeater: self.repeater,
            deadline_warning_days: self.deadline_warning_days,
        }
    }
}

/// `s` holds `c` at position `i`.
pub open spec fn is_at(s: Seq<char>, i: int, c: char) -> bool {
    0 <= i < s.len() && s[i] == c
}

/// `s` holds a decimal digit at position `i`.
pub open spec fn digit_at(s: Seq<char>, i: int) -> bool {
    0 <= i < s.len() && is_digit(s[i])
}

/// `s` holds `word` from position `i` on.
pub open spec fn word_at(s: Seq<char>, i: int, word: Seq<char>) -> bool {
    0 <= i && i + word.len() <= s.len() && s.subrange(i, i + word.len()) == word
}

/// The number that the two digits at `i` write.
pub open spec fn two_digits(s: Seq<char>, i: int) -> int {
    digit_value(s[i]) * 10 + digit_value(s[i + 1])
}

/// The date that `s` writes at `i` as four digits, `-`, two digits, `-`, two
/// digits; the numbers as written, valid date or not.
pub open spec fn date_at(s: Seq<char>, i: int) -> Option<Ymd> {
    if digit_at(s, i) && digit_at(s, i + 1) && digit_at(s, i + 2) && digit_at(s, i + 3) && is_at(
        s,
        i + 4,
        '-',
    ) && digit_at(s, i + 5) && digit_at(s, i + 6) && is_at(s, i + 7, '-') && digit_at(s, i + 8)
        && digit_at(s, i + 9) {
        Some(
            Ymd {
                year: two_digits(s, i) * 100 + two_digits(s, i + 2),
                month: two_digits(s, i + 5),
                day: two_digits(s, i + 8),
            },
        )
    } else {
        None
    }
}

/// The English full name of a day of the week, 0 for Monday to 6 for Sunday.
pub open spec fn weekday_long_name(index: int) -> Seq<char> {
    if index == 0 {
        seq!['M', 'o', 'n', 'd', 'a', 'y']
    } else if index == 1 {
        seq!['T', 'u', 'e', 's', 'd', 'a', 'y']
    } else if index == 2 {
        seq!['W', 'e', 'd', 'n', 'e', 's', 'd', 'a', 'y']
    } else if index == 3 {
        seq!['T', 'h', 'u', 'r', 's', 'd', 'a', 'y']
    } else if index == 4 {
        seq!['F', 'r', 'i', 'd', 'a', 'y']
    } else if index == 5 {
        seq!['S', 'a', 't', 'u', 'r', 'd', 'a', 'y']
    } else {
        seq!['S', 'u', 'n', 'd', 'a', 'y']
    }
}

/// The length of the weekday name that `s` holds at `i`, among the names from
/// `index` on: a full name first, else a short one; 0 for none.
pub open spec fn weekday_name_len(s: Seq<char>, i: int, index: int) -> int
    decreases 7 - index,
{
    if index < 0 || index >= 7 {
        0
    } else if word_at(s, i, weekday_long_name(index)) {
        weekday_long_name(index).len() as int
    } else if word_at(s, i, weekday_name(index)) {
        3
    } else {
        weekday_name_len(s, i, index + 1)
    }
}

/// The position after the optional weekday at `i`: a blank and an English
/// weekday name, short or full.
pub open spec fn weekday_end(s: Seq<char>, i: int) -> int {
    if is_at(s, i, ' ') && weekday_name_len(s, i + 1, 0) > 0 {
        i + 1 + weekday_name_len(s, i + 1, 0)
    } else {
        i
    }
}

/// The time that `s` writes at `i` as one or two digits, `:`, two digits,
/// with the position after it.
pub open spec fn clock_at(s: Seq<char>, i: int) -> Option<(ClockTime, int)> {
    if digit_at(s, i) && digit_at(s, i + 1) && is_at(s, i + 2, ':') && digit_at(s, i + 3)
        && digit_at(s, i + 4) {
        Some(
            (
                ClockTime { hour: two_digits(s, i) as u8, minute: two_digits(s, i + 3) as u8 },
                i + 5,
            ),
        )
    } else if digit_at(s, i) && is_at(s, i + 1, ':') && digit_at(s, i + 2) && digit_at(s, i + 3) {
        Some(
            (
                ClockTime { hour: digit_value(s[i]) as u8, minute: two_digits(s, i + 2) as u8 },
                i + 4,
            ),
        )
    } else {
        None
    }
}

/// The optional time of day of a bracket, with its optional end.
pub struct TimePart {
    pub time: Option<ClockTime>,
    pub end_time: Option<ClockTime>,
    pub end: int,
}

/// The optional time at `i`: a blank and a time, then perhaps `-` and a
/// second time.
pub open spec fn time_part_at(s: Seq<char>, i: int) -> TimePart {
    if is_at(s, i, ' ') {
        match clock_at(s, i + 1) {
            Some((time, after)) => {
                if is_at(s, after, '-') {
                    match clock_at(s, after + 1) {
                        Some((end_time, end)) => TimePart {
                            time: Some(time),
                            end_time: Some(end_time),
                            end,
                        },
                        None => TimePart { time: Some(time), end_time: None, end: after },
                    }
                } else {
                    TimePart { time: Some(time), end_time: None, end: after }
                }
            },
            None => TimePart { time: None, end_time: None, end: i },
        }
    } else {
        TimePart { time: None, end_time: None, end: i }
    }
}

/// The first position from `i` on that holds neither `.` nor `+`.
pub open spec fn marks_end(s: Seq<char>, i: int) -> int
    decreases s.len() - i,
{
    if 0 <= i < s.len() && (s[i] == '.' || s[i] == '+') {
        marks_end(s, i + 1)
    } else {
        i
    }
}

/// The first position from `i` on that holds no digit.
pub open spec fn digits_end(s: Seq<char>, i: int) -> int
    decreases s.len() - i,
{
    if 0 <= i < s.len() && is_digit(s[i]) {
        digits_end(s, i + 1)
    } else {
        i
    }
}

/// The position after the unit at `i`: `wd`, or one of `d`, `w`, `m`, `y`,
/// `h`; `i` itself where there is none.
pub open spec fn unit_end(s: Seq<char>, i: int) -> int {
    if is_at(s, i, 'w') && is_at(s, i + 1, 'd') {
        i + 2
    } else if is_at(s, i, 'd') || is_at(s, i, 'w') || is_at(s, i, 'm') || is_at(s, i, 'y')
        || is_at(s, i, 'h') {
        i + 1
    } else {
        i
    }
}

/// The optional repeater token of a bracket: where it starts and ends.
pub struct TokenPart {
    pub found: bool,
    pub start: int,
    pub end: int,
}

/// The optional repeater at `i`: white space or none, then marks (`.` and
/// `+`), digits, and a unit. Without one the part ends at `i`.
pub open spec fn repeater_part_at(s: Seq<char>, i: int) -> TokenPart {
    let start = skip_spaces(s, i);
    let marks = marks_end(s, start);
    let digits = digits_end(s, marks);
    let end = unit_end(s, digits);
    if start < marks && marks < digits && digits < end {
        TokenPart { found: true, start, end }
    } else {
        TokenPart { found: false, start: i, end: i }
    }
}

/// The optional warning of a bracket: white space, `-`, digits and `d`. The
/// part spans the digits; without a warning it ends at `i`.
pub open spec fn warning_part_at(s: Seq<char>, i: int) -> TokenPart {
    let dash = skip_spaces(s, i);
    let digits = digits_end(s, dash + 1);
    if i < dash && is_at(s, dash, '-') && dash + 1 < digits && is_at(s, digits, 'd') {
        TokenPart { found: true, start: dash + 1, end: digits }
    } else {
        TokenPart { found: false, start: i, end: i }
    }
}

/// What a bracket holds, as written.
pub struct BracketView {
    pub date: Ymd,
    pub time: Option<ClockTime>,
    pub end_time: Option<ClockTime>,
    pub repeater: Option<Repeater>,
    pub deadline_warning_days: Option<u32>,
    /// The position after the closing `>`.
    pub end: int,
}

/// The bracket that starts at `i`: `<`, a date, then optionally a weekday, a
/// time with an optional end time, a repeater and a warning, then `>`. A
/// repeater token that is no valid rule, and a warning that does not fit,
/// count as absent.
pub open spec fn bracket_at(s: Seq<char>, i: int) -> Option<BracketView> {
    let time = time_part_at(s, weekday_end(s, i + 11));
    let repeater = repeater_part_at(s, time.end);
    let warning = warning_part_at(s, repeater.end);
    let close = if warning.found {
        warning.end + 1
    } else {
        warning.end
    };
    if is_at(s, i, '<') && date_at(s, i + 1) is Some && is_at(s, close, '>') {
        Some(
            BracketView {
                date: date_at(s, i + 1)->0,
                time: time.time,
                end_time: time.end_time,
                repeater: if repeater.found {
                    repeater_of(s.subrange(repeater.start, repeater.end))
                } else {
                    None
                },
                deadline_warning_days: if warning.found {
                    digits_value(s.subrange(warning.start, warning.end))
                } else {
                    None
                },
                end: close + 1,
            },
        )
    } else {
        None
    }
}

/// The second bracket of a range at `i`: `<`, a date, then optionally a
/// weekday and a time with an optional end time, then `>`. The date as
/// written, with the position after the `>`.
pub open spec fn closing_bracket_at(s: Seq<char>, i: int) -> Option<(Ymd, int)> {
    let time = time_part_at(s, weekday_end(s, i + 11));
    if is_at(s, i, '<') && date_at(s, i + 1) is Some && is_at(s, time.end, '>') {
        Some((date_at(s, i + 1)->0, time.end + 1))
    } else {
        None
    }
}

/// What a directive holds from its first bracket on, as written.
pub struct DirectiveView {
    /// Where the first bracket starts.
    pub start: int,
    pub first: BracketView,
    /// The date of the second bracket of a range.
    pub end_date: Option<Ymd>,
}

/// The range that starts at `i`: a bracket, `--`, and a second bracket.
pub open spec fn range_at(s: Seq<char>, i: int) -> Option<DirectiveView> {
    match bracket_at(s, i) {
        Some(first) => {
            if is_at(s, first.end, '-') && is_at(s, first.end + 1, '-') {
                match closing_bracket_at(s, first.end + 2) {
                    Some((end_date, _)) => Some(
                        DirectiveView { start: i, first, end_date: Some(end_date) },
                    ),
                    None => None,
                }
            } else {
                None
            }
        },
        None => None,
    }
}

/// The single bracket that starts at `i`.
pub open spec fn single_at(s: Seq<char>, i: int) -> Option<DirectiveView> {
    match bracket_at(s, i) {
        Some(first) => Some(DirectiveView { start: i, first, end_date: None }),
        None => None,
    }
}

/// The first range of `s` that starts at `i` or later.
pub open spec fn first_range_from(s: Seq<char>, i: int) -> Option<DirectiveView>
    decreases s.len() - i,
{
    if i < 0 || i >= s.len() {
        None
    } else if range_at(s, i) is Some {
        range_at(s, i)
    } else {
        first_range_from(s, i + 1)
    }
}

/// The first single bracket of `s` that starts at `i` or later.
pub open spec fn first_single_from(s: Seq<char>, i: int) -> Option<DirectiveView>
    decreases s.len() - i,
{
    if i < 0 || i >= s.len() {
        None
    } else if single_at(s, i) is Some {
        single_at(s, i)
    } else {
        first_single_from(s, i + 1)
    }
}

/// The keyword `SCHEDULED:`.
pub open spec fn scheduled_word() -> Seq<char> {
    seq!['S', 'C', 'H', 'E', 'D', 'U', 'L', 'E', 'D', ':']
}

/// The keyword `DEADLINE:`.
pub open spec fn deadline_word() -> Seq<char> {
    seq!['D', 'E', 'A', 'D', 'L', 'I', 'N', 'E', ':']
}

/// The keyword `CLOSED:`.
pub open spec fn closed_word() -> Seq<char> {
    seq!['C', 'L', 'O', 'S', 'E', 'D', ':']
}

/// The kind that the keyword before position `i` gives, white space between
/// the keyword and `i` aside; `Plain` without a keyword.
pub open spec fn kind_before(s: Seq<char>, i: int) -> TimestampKind {
    let end = trim_end(s, 0, i);
    if word_at(s, end - 10, scheduled_word()) {
        TimestampKind::Scheduled
    } else if word_at(s, end - 9, deadline_word()) {
        TimestampKind::Deadline
    } else if word_at(s, end - 7, closed_word()) {
        TimestampKind::Closed
    } else {
        TimestampKind::Plain
    }
}

/// A date as written, if it is a date from year 0 to year 9999.
pub open spec fn valid_date(d: Ymd) -> Option<Ymd> {
    if d.is_valid() {
        Some(d)
    } else {
        None
    }
}

/// The timestamp of a directive found in `s`; `None` where its first date is
/// no valid date. The second date of a range counts as absent if it is none.
pub open spec fn timestamp_from(s: Seq<char>, found: DirectiveView) -> Option<TimestampView> {
    if found.first.date.is_valid() {
        Some(
            TimestampView {
                kind: kind_before(s, found.start),
                date: found.first.date,
                time: found.first.time,
                end_time: found.first.end_time,
                end_date: match found.end_date {
                    Some(d) => valid_date(d),
                    None => None,
                },
                repeater: found.first.repeater,
                deadline_warning_days: found.first.deadline_warning_days,
            },
        )
    } else {
        None
    }
}

/// The timestamp that `s` holds: that of its first range, or without a range
/// that of its first single bracket.
pub open spec fn timestamp_of(s: Seq<char>) -> Option<TimestampView> {
    match first_range_from(s, 0) {
        Some(found) => timestamp_from(s, found),
        None => match first_single_from(s, 0) {
            Some(found) => timestamp_from(s, found),
            None => None,
        },
    }
}

/// `text` with every `from` replaced by `to`, from left to right; with an
/// empty `from`, `to` is put before every character and at the end.
pub open spec fn replace_all(text: Seq<char>, from: Seq<char>, to: Seq<char>) -> Seq<char>
    decreases text.len(),
{
    if text.len() == 0 {
        if from.len() == 0 {
            to
        } else {
            text
        }
    } else if from.len() == 0 {
        to + seq![text[0]] + replace_all(text.skip(1), from, to)
    } else if word_at(text, 0, from) {
        to + replace_all(text.skip(from.len() as int), from, to)
    } else {
        seq![text[0]] + replace_all(text.skip(1), from, to)
    }
}

/// `text` with the replacements of `mappings` made one after the other.
pub open spec fn normalize_weekdays_spec(text: Seq<char>, mappings: Seq<(&str, &str)>) -> Seq<char>
    decreases mappings.len(),
{
    if mappings.len() == 0 {
        text
    } else {
        replace_all(
            normalize_weekdays_spec(text, mappings.drop_last()),
            mappings.last().0@,
            mappings.last().1@,
        )
    }
}

/// Whether `v` holds `c` at `base + offset`.
fn has_char(v: &Vec<char>, base: usize, offset: usize, c: char) -> (r: bool)
    requires
        base <= v.len(),
    ensures
        r == is_at(v@, base + offset, c),
{
    offset < v.len() - base && v[base + offset] == c
}

/// Whether `v` holds a digit at `base + offset`.
fn has_digit(v: &Vec<char>, base: usize, offset: usize) -> (r: bool)
    requires
        base <= v.len(),
    ensures
        r == digit_at(v@, base + offset),
{
    offset < v.len() - base && char_is_digit(v[base + offset])
}

/// Whether `v` holds `word` from `i` on.
fn has_word(v: &Vec<char>, i: usize, word: &Vec<char>) -> (r: bool)
    requires
        i <= v.len(),
    ensures
        r == word_at(v@, i as int, word@),
{
    if word.len() > v.len() - i {
        return false;
    }
    let mut k: usize = 0;
    while k < word.len()
        invariant
            k <= word.len(),
            i + word.len() <= v.len(),
            v@.subrange(i as int, i + k) == word@.subrange(0, k as int),
        decreases word.len() - k,
    {
        if v[i + k] != word[k] {
            assert(v@.subrange(i as int, i + word.len())[k as int] != word@[k as int]);
            return false;
        }
        k += 1;
        assert(v@.subrange(i as int, i + k) =~= v@.subrange(i as int, i + k - 1).push(
            v@[i + k - 1],
        ));
        assert(word@.subrange(0, k as int) =~= word@.subrange(0, k - 1).push(word@[k - 1]));
    }
    assert(word@.subrange(0, k as int) =~= word@);
    true
}

/// The number that the digit at `i` writes.
fn digit_number(v: &Vec<char>, i: usize) -> (n: u8)
    requires
        digit_at(v@, i as int),
    ensures
        n == digit_value(v@[i as int]),
        n <= 9,
{
    (v[i] as u32 - 48) as u8
}

/// The number that the two digits at `i` write.
fn two_digit_number(v: &Vec<char>, i: usize) -> (n: u8)
    requires
        digit_at(v@, i as int),
        digit_at(v@, i + 1),
    ensures
        n == two_digits(v@, i as int),
        n <= 99,
{
    assert(i + 1 < v.len());
    digit_number(v, i) * 10 + digit_number(v, i + 1)
}

/// The date written at `i`, as its three numbers.
fn read_date(v: &Vec<char>, i: usize) -> (r: Option<(i32, u32, u32)>)
    requires
        i <= v.len(),
    ensures
        match r {
            Some(t) => date_at(v@, i as int) == Some(
                Ymd { year: t.0 as int, month: t.1 as int, day: t.2 as int },
            ) && i + 10 <= v.len(),
            None => date_at(v@, i as int) is None,
        },
{
    if has_digit(v, i, 0) && has_digit(v, i, 1) && has_digit(v, i, 2) && has_digit(v, i, 3)
        && has_char(v, i, 4, '-') && has_digit(v, i, 5) && has_digit(v, i, 6) && has_char(
        v,
        i,
        7,
        '-',
    ) && has_digit(v, i, 8) && has_digit(v, i, 9) {
        let year: i32 = two_digit_number(v, i) as i32 * 100 + two_digit_number(v, i + 2) as i32;
        let month: u32 = two_digit_number(v, i + 5) as u32;
        let day: u32 = two_digit_number(v, i + 8) as u32;
        Some((year, month, day))
    } else {
        None
    }
}

/// The English full name of a day of the week.
fn long_name(index: u8) -> (name: Vec<char>)
    ensures
        name@ == weekday_long_name(index as int),
{
    let name: Vec<char> = if index == 0 {
        vec!['M', 'o', 'n', 'd', 'a', 'y']
    } else if index == 1 {
        vec!['T', 'u', 'e', 's', 'd', 'a', 'y']
    } else if index == 2 {
        vec!['W', 'e', 'd', 'n', 'e', 's', 'd', 'a', 'y']
    } else if index == 3 {
        vec!['T', 'h', 'u', 'r', 's', 'd', 'a', 'y']
    } else if index == 4 {
        vec!['F', 'r', 'i', 'd', 'a', 'y']
    } else if index == 5 {
        vec!['S', 'a', 't', 'u', 'r', 'd', 'a', 'y']
    } else {
        vec!['S', 'u', 'n', 'd', 'a', 'y']
    };
    assert(name@ =~= weekday_long_name(index as int));
    name
}

/// The English short name of a day of the week.
fn short_name(index: u8) -> (name: Vec<char>)
    ensures
        name@ == weekday_name(index as int),
{
    let name: Vec<char> = if index == 0 {
        vec!['M', 'o', 'n']
    } else if index == 1 {
        vec!['T', 'u', 'e']
    } else if index == 2 {
        vec!['W', 'e', 'd']
    } else if index == 3 {
        vec!['T', 'h', 'u']
    } else if index == 4 {
        vec!['F', 'r', 'i']
    } else if index == 5 {
        vec!['S', 'a', 't']
    } else {
        vec!['S', 'u', 'n']
    };
    assert(name@ =~= weekday_name(index as int));
    name
}

/// The length of the weekday name at `i`, 0 for none.
fn read_weekday_name_len(v: &Vec<char>, i: usize) -> (n: usize)
    requires
        i <= v.len(),
    ensures
        n == weekday_name_len(v@, i as int, 0),
        i + n <= v.len(),
        n <= 9,
{
    let mut index: u8 = 0;
    while index < 7
        invariant
            index <= 7,
            i <= v.len(),
            weekday_name_len(v@, i as int, 0) == weekday_name_len(v@, i as int, index as int),
        decreases 7 - index,
    {
        let long = long_name(index);
        if has_word(v, i, &long) {
            return long.len();
        }
        let short = short_name(index);
        if has_word(v, i, &short) {
            return 3;
        }
        index += 1;
    }
    0
}

/// The position after the optional weekday at `i`.
fn read_weekday_end(v: &Vec<char>, i: usize) -> (r: usize)
    requires
        i <= v.len(),
    ensures
        r == weekday_end(v@, i as int),
        i <= r <= v.len(),
{
    if has_char(v, i, 0, ' ') {
        let n: usize = read_weekday_name_len(v, i + 1);
        if n > 0 {
            return i + 1 + n;
        }
    }
    i
}

/// The time written at `i`, with the position after it.
fn read_clock(v: &Vec<char>, i: usize) -> (r: Option<(ClockTime, usize)>)
    requires
        i <= v.len(),
    ensures
        match r {
            Some((time, end)) => clock_at(v@, i as int) == Some((time, end as int)) && i < end
                <= v.len(),
            None => clock_at(v@, i as int) is None,
        },
{
    if has_digit(v, i, 0) && has_digit(v, i, 1) && has_char(v, i, 2, ':') && has_digit(v, i, 3)
        && has_digit(v, i, 4) {
        Some(
            (
                ClockTime {
                    hour: two_digit_number(v, i),
                    minute: two_digit_number(v, i + 3),
                },
                i + 5,
            ),
        )
    } else if has_digit(v, i, 0) && has_char(v, i, 1, ':') && has_digit(v, i, 2) && has_digit(
        v,
        i,
        3,
    ) {
        Some(
            (ClockTime { hour: digit_number(v, i), minute: two_digit_number(v, i + 2) }, i + 4),
        )
    } else {
        None
    }
}

/// The optional time at `i`, its optional end time, and the position after
/// them.
fn read_time_part(v: &Vec<char>, i: usize) -> (r: (Option<ClockTime>, Option<ClockTime>, usize))
    requires
        i <= v.len(),
    ensures
        time_part_at(v@, i as int) == (TimePart { time: r.0, end_time: r.1, end: r.2 as int }),
        i <= r.2 <= v.len(),
{
    if has_char(v, i, 0, ' ') {
        match read_clock(v, i + 1) {
            Some((time, after)) => {
                if has_char(v, after, 0, '-') {
                    match read_clock(v, after + 1) {
                        Some((end_time, end)) => (Some(time), Some(end_time), end),
                        None => (Some(time), None, after),
                    }
                } else {
                    (Some(time), None, after)
                }
            },
            None => (None, None, i),
        }
    } else {
        (None, None, i)
    }
}

/// The first position from `i` on that holds neither `.` nor `+`.
fn scan_marks(v: &Vec<char>, i: usize) -> (r: usize)
    requires
        i <= v.len(),
    ensures
        r == marks_end(v@, i as int),
        i <= r <= v.len(),
{
    let mut k: usize = i;
    while k < v.len() && (v[k] == '.' || v[k] == '+')
        invariant
            i <= k <= v.len(),
            marks_end(v@, i as int) == marks_end(v@, k as int),
        decreases v.len() - k,
    {
        k += 1;
    }
    k
}

/// The first position from `i` on that holds no digit.
pub(crate) fn scan_digits(v: &Vec<char>, i: usize) -> (r: usize)
    requires
        i <= v.len(),
    ensures
        r == digits_end(v@, i as int),
        i <= r <= v.len(),
{
    let mut k: usize = i;
    while k < v.len() && char_is_digit(v[k])
        invariant
            i <= k <= v.len(),
            digits_end(v@, i as int) == digits_end(v@, k as int),
        decreases v.len() - k,
    {
        k += 1;
    }
    k
}

/// The position after the unit at `i`, `i` itself where there is none.
fn read_unit_end(v: &Vec<char>, i: usize) -> (r: usize)
    requires
        i <= v.len(),
    ensures
        r == unit_end(v@, i as int),
        i <= r <= v.len(),
{
    if has_char(v, i, 0, 'w') && has_char(v, i, 1, 'd') {
        i + 2
    } else if has_char(v, i, 0, 'd') || has_char(v, i, 0, 'w') || has_char(v, i, 0, 'm')
        || has_char(v, i, 0, 'y') || has_char(v, i, 0, 'h') {
        i + 1
    } else {
        i
    }
}

/// The optional repeater token at `i`: whether there is one, where it starts
/// and where it ends.
fn read_repeater_part(v: &Vec<char>, i: usize) -> (r: (bool, usize, usize))
    requires
        i <= v.len(),
    ensures
        repeater_part_at(v@, i as int) == (TokenPart {
            found: r.0,
            start: r.1 as int,
            end: r.2 as int,
        }),
        i <= r.1 <= r.2 <= v.len(),
{
    let start: usize = skip_spaces_in(v, i);
    let marks: usize = scan_marks(v, start);
    let digits: usize = scan_digits(v, marks);
    let end: usize = read_unit_end(v, digits);
    if start < marks && marks < digits && digits < end {
        (true, start, end)
    } else {
        (false, i, i)
    }
}

/// The optional warning at `i`: whether there is one, and where its digits
/// start and end.
fn read_warning_part(v: &Vec<char>, i: usize) -> (r: (bool, usize, usize))
    requires
        i <= v.len(),
    ensures
        warning_part_at(v@, i as int) == (TokenPart {
            found: r.0,
            start: r.1 as int,
            end: r.2 as int,
        }),
        i <= r.1 <= r.2 <= v.len(),
        r.0 ==> r.2 < v.len(),
{
    let dash: usize = skip_spaces_in(v, i);
    if !(i < dash && has_char(v, dash, 0, '-')) {
        return (false, i, i);
    }
    let digits: usize = scan_digits(v, dash + 1);
    if dash + 1 < digits && has_char(v, digits, 0, 'd') {
        (true, dash + 1, digits)
    } else {
        (false, i, i)
    }
}

/// What a bracket holds, as read.
struct Bracket {
    date: (i32, u32, u32),
    time: Option<ClockTime>,
    end_time: Option<ClockTime>,
    repeater: Option<Repeater>,
    deadline_warning_days: Option<u32>,
    end: usize,
}

impl Bracket {
    spec fn model(self) -> BracketView {
        BracketView {
            date: Ymd {
                year: self.date.0 as int,
                month: self.date.1 as int,
                day: self.date.2 as int,
            },
            time: self.time,
            end_time: self.end_time,
            repeater: self.repeater,
            deadline_warning_days: self.deadline_warning_days,
            end: self.end as int,
        }
    }
}

/// The bracket that starts at `i`.
fn read_bracket(v: &Vec<char>, i: usize) -> (r: Option<Bracket>)
    requires
        i < v.len(),
    ensures
        match r {
            Some(b) => bracket_at(v@, i as int) == Some(b.model()) && i < b.end <= v.len(),
            None => bracket_at(v@, i as int) is None,
        },
{
    if v[i] != '<' {
        return None;
    }
    let date = match read_date(v, i + 1) {
        Some(date) => date,
        None => {
            return None;
        },
    };
    let after_weekday: usize = read_weekday_end(v, i + 11);
    let (time, end_time, after_time) = read_time_part(v, after_weekday);
    let (has_repeater, token_start, token_end) = read_repeater_part(v, after_time);
    let (has_warning, digits_start, digits_stop) = read_warning_part(v, token_end);
    let close: usize = if has_warning {
        digits_stop + 1
    } else {
        digits_stop
    };
    if !has_char(v, close, 0, '>') {
        return None;
    }
    let repeater = if has_repeater {
        parse_repeater_in(v, token_start, token_end)
    } else {
        None
    };
    let deadline_warning_days = if has_warning {
        parse_digits_in(v, digits_start, digits_stop)
    } else {
        None
    };
    Some(Bracket { date, time, end_time, repeater, deadline_warning_days, end: close + 1 })
}

/// The date of the second bracket of a range that starts at `i`, and the
/// position after the bracket.
fn read_closing_bracket(v: &Vec<char>, i: usize) -> (r: Option<((i32, u32, u32), usize)>)
    requires
        i <= v.len(),
    ensures
        match r {
            Some((t, end)) => closing_bracket_at(v@, i as int) == Some(
                (Ymd { year: t.0 as int, month: t.1 as int, day: t.2 as int }, end as int),
            ) && i < end <= v.len(),
            None => closing_bracket_at(v@, i as int) is None,
        },
{
    if !has_char(v, i, 0, '<') {
        return None;
    }
    let date = match read_date(v, i + 1) {
        Some(date) => date,
        None => {
            return None;
        },
    };
    let after_weekday: usize = read_weekday_end(v, i + 11);
    let (_, _, after_time) = read_time_part(v, after_weekday);
    if has_char(v, after_time, 0, '>') {
        Some((date, after_time + 1))
    } else {
        None
    }
}

/// A directive as read: its start, its first bracket, and the date of the
/// second bracket of a range.
struct Directive {
    start: usize,
    first: Bracket,
    end_date: Option<(i32, u32, u32)>,
}

impl Directive {
    spec fn model(self) -> DirectiveView {
        DirectiveView {
            start: self.start as int,
            first: self.first.model(),
            end_date: match self.end_date {
                Some(t) => Some(Ymd { year: t.0 as int, month: t.1 as int, day: t.2 as int }),
                None => None,
            },
        }
    }
}

/// The range that starts at `i`.
fn read_range(v: &Vec<char>, i: usize) -> (r: Option<Directive>)
    requires
        i < v.len(),
    ensures
        match r {
            Some(d) => range_at(v@, i as int) == Some(d.model()) && d.start < v.len(),
            None => range_at(v@, i as int) is None,
        },
{
    match read_bracket(v, i) {
        Some(first) => {
            if has_char(v, first.end, 0, '-') && has_char(v, first.end, 1, '-') {
                match read_closing_bracket(v, first.end + 2) {
                    Some((end_date, _)) => Some(
                        Directive { start: i, first, end_date: Some(end_date) },
                    ),
                    None => None,
                }
            } else {
                None
            }
        },
        None => None,
    }
}

/// The first range of `v`.
fn find_range(v: &Vec<char>) -> (r: Option<Directive>)
    ensures
        match r {
            Some(d) => first_range_from(v@, 0) == Some(d.model()) && d.start < v.len(),
            None => first_range_from(v@, 0) is None,
        },
{
    let mut i: usize = 0;
    while i < v.len()
        invariant
            i <= v.len(),
            first_range_from(v@, 0) == first_range_from(v@, i as int),
        decreases v.len() - i,
    {
        match read_range(v, i) {
            Some(found) => {
                return Some(found);
            },
            None => {},
        }
        i += 1;
    }
    None
}

/// The first single bracket of `v`.
fn find_single(v: &Vec<char>) -> (r: Option<Directive>)
    ensures
        match r {
            Some(d) => first_single_from(v@, 0) == Some(d.model()) && d.start < v.len(),
            None => first_single_from(v@, 0) is None,
        },
{
    let mut i: usize = 0;
    while i < v.len()
        invariant
            i <= v.len(),
            first_single_from(v@, 0) == first_single_from(v@, i as int),
        decreases v.len() - i,
    {
        match read_bracket(v, i) {
            Some(first) => {
                return Some(Directive { start: i, first, end_date: None });
            },
            None => {},
        }
        i += 1;
    }
    None
}

/// Whether `v` holds `word` right before `end`.
fn ends_with_word(v: &Vec<char>, end: usize, word: &Vec<char>) -> (r: bool)
    requires
        end <= v.len(),
    ensures
        r == word_at(v@, end - word.len(), word@),
{
    if word.len() > end {
        return false;
    }
    has_word(v, end - word.len(), word)
}

/// The kind that the keyword before `i` gives.
fn read_kind(v: &Vec<char>, i: usize) -> (r: TimestampKind)
    requires
        i <= v.len(),
    ensures
        r == kind_before(v@, i as int),
{
    let end: usize = trim_end_in(v, 0, i);
    let scheduled: Vec<char> = vec!['S', 'C', 'H', 'E', 'D', 'U', 'L', 'E', 'D', ':'];
    let deadline: Vec<char> = vec!['D', 'E', 'A', 'D', 'L', 'I', 'N', 'E', ':'];
    let closed: Vec<char> = vec!['C', 'L', 'O', 'S', 'E', 'D', ':'];
    assert(scheduled@ =~= scheduled_word());
    assert(deadline@ =~= deadline_word());
    assert(closed@ =~= closed_word());
    if ends_with_word(v, end, &scheduled) {
        TimestampKind::Scheduled
    } else if ends_with_word(v, end, &deadline) {
        TimestampKind::Deadline
    } else if ends_with_word(v, end, &closed) {
        TimestampKind::Closed
    } else {
        TimestampKind::Plain
    }
}

/// The timestamp of a directive found in `v`.
fn timestamp_of_directive(v: &Vec<char>, found: Directive) -> (r: Option<ParsedTimestamp>)
    requires
        found.start <= v.len(),
    ensures
        match r {
            Some(p) => timestamp_from(v@, found.model()) == Some(p@),
            None => timestamp_from(v@, found.model()) is None,
        },
{
    let date = match Date::from_ymd_opt(found.first.date.0, found.first.date.1, found.first.date.2) {
        Some(date) => date,
        None => {
            return None;
        },
    };
    let end_date = match found.end_date {
        Some(t) => Date::from_ymd_opt(t.0, t.1, t.2),
        None => None,
    };
    Some(
        ParsedTimestamp {
            kind: read_kind(v, found.start),
            date,
            time: found.first.time,
            end_time: found.first.end_time,
            end_date,
            repeater: found.first.repeater,
            deadline_warning_days: found.first.deadline_warning_days,
        },
    )
}

/// The timestamp that the characters of `v` hold.
pub fn parse_timestamp_chars(v: &Vec<char>) -> (r: Option<ParsedTimestamp>)
    ensures
        match r {
            Some(p) => timestamp_of(v@) == Some(p@),
            None => timestamp_of(v@) is None,
        },
{
    match find_range(v) {
        Some(found) => timestamp_of_directive(v, found),
        None => match find_single(v) {
            Some(found) => timestamp_of_directive(v, found),
            None => None,
        },
    }
}

/// `text` with every `from` replaced by `to`.
fn replace_chars(text: &Vec<char>, from: &Vec<char>, to: &Vec<char>) -> (r: Vec<char>)
    ensures
        r@ == replace_all(text@, from@, to@),
{
    let mut out: Vec<char> = Vec::new();
    let mut i: usize = 0;
    assert(text@.skip(0) =~= text@);
    assert(out@ + replace_all(text@, from@, to@) =~= replace_all(text@, from@, to@));
    while i < text.len()
        invariant
            i <= text.len(),
            out@ + replace_all(text@.skip(i as int), from@, to@) == replace_all(
                text@,
                from@,
                to@,
            ),
        decreases text.len() - i,
    {
        let ghost rest = text@.skip(i as int);
        let ghost before = out@;
        assert(rest[0] == text@[i as int]);
        if from.len() == 0 {
            crate::text::push_chars(&mut out, to);
            out.push(text[i]);
            assert(rest.skip(1) =~= text@.skip(i + 1));
            assert(out@ + replace_all(text@.skip(i + 1), from@, to@) =~= before + replace_all(
                rest,
                from@,
                to@,
            ));
            i += 1;
        } else {
            assert(word_at(rest, 0, from@) == word_at(text@, i as int, from@)) by {
                if i + from.len() <= text.len() {
                    assert(rest.subrange(0, from.len() as int) =~= text@.subrange(
                        i as int,
                        i + from.len(),
                    ));
                }
            }
            if has_word(text, i, from) {
                crate::text::push_chars(&mut out, to);
                assert(rest.skip(from.len() as int) =~= text@.skip(i + from.len()));
                assert(out@ + replace_all(text@.skip(i + from.len()), from@, to@) =~= before
                    + replace_all(rest, from@, to@));
                i += from.len();
            } else {
                out.push(text[i]);
                assert(rest.skip(1) =~= text@.skip(i + 1));
                assert(out@ + replace_all(text@.skip(i + 1), from@, to@) =~= before
                    + replace_all(rest, from@, to@));
                i += 1;
            }
        }
    }
    assert(text@.skip(i as int).len() == 0);
    if from.len() == 0 {
        crate::text::push_chars(&mut out, to);
    }
    assert(out@ =~= replace_all(text@, from@, to@));
    out
}

/// `text` with every localized weekday name of `mappings` replaced by its
/// English name, one mapping after the other.
pub fn normalize_weekdays(text: &str, mappings: &[(&str, &str)]) -> (r: Vec<char>)
    ensures
        r@ == normalize_weekdays_spec(text@, mappings@),
{
    let mut current: Vec<char> = chars_of(text);
    let mut i: usize = 0;
    while i < mappings.len()
        invariant
            i <= mappings.len(),
            current@ == normalize_weekdays_spec(text@, mappings@.subrange(0, i as int)),
        decreases mappings.len() - i,
    {
        let (localized, english) = mappings[i];
        let from = chars_of(localized);
        let to = chars_of(english);
        assert(mappings@.subrange(0, i + 1).drop_last() =~= mappings@.subrange(0, i as int));
        current = replace_chars(&current, &from, &to);
        i += 1;
    }
    assert(mappings@.subrange(0, i as int) =~= mappings@);
    current
}

/// The text that is read for a timestamp: `ts` itself, or `ts` with the
/// weekday names of the mappings replaced.
pub open spec fn normalized_text(ts: Seq<char>, mappings: Option<&[(&str, &str)]>) -> Seq<char> {
    match mappings {
        Some(m) => normalize_weekdays_spec(ts, m@),
        None => ts,
    }
}

/// Reads the timestamp of a directive such as
/// `SCHEDULED: <2024-12-01 Sun 10:00-11:00 +1w>` or
/// `<2024-12-01>--<2024-12-03>`, after the localized weekday names of
/// `mappings` were replaced by English ones. `None` where the text holds no
/// bracket of the grammar, or the date of the bracket found is no date.
pub fn parse_org_timestamp(ts: &str, mappings: Option<&[(&str, &str)]>) -> (r: Option<
    ParsedTimestamp,
>)
    ensures
        match r {
            Some(p) => timestamp_of(normalized_text(ts@, mappings)) == Some(p@),
            None => timestamp_of(normalized_text(ts@, mappings)) is None,
        },
{
    let text: Vec<char> = match mappings {
        Some(m) => normalize_weekdays(ts, m),
        None => chars_of(ts),
    };
    parse_timestamp_chars(&text)
}

/// The position after the directive that starts with a bracket at `i`: after
/// the second bracket of a range where a range is asked for, else after the
/// bracket.
pub open spec fn directive_end_at(s: Seq<char>, i: int, ranged: bool) -> Option<int> {
    match bracket_at(s, i) {
        Some(first) => if !ranged {
            Some(first.end)
        } else if is_at(s, first.end, '-') && is_at(s, first.end + 1, '-') {
            match closing_bracket_at(s, first.end + 2) {
                Some((_, end)) => Some(end),
                None => None,
            }
        } else {
            None
        },
        None => None,
    }
}

/// The position after the directive that starts with a bracket at `i`.
pub(crate) fn directive_end(v: &Vec<char>, i: usize, ranged: bool) -> (r: Option<usize>)
    requires
        i < v.len(),
    ensures
        match r {
            Some(end) => directive_end_at(v@, i as int, ranged) == Some(end as int) && i < end
                <= v.len(),
            None => directive_end_at(v@, i as int, ranged) is None,
        },
{
    match read_bracket(v, i) {
        Some(first) => {
            if !ranged {
                Some(first.end)
            } else if has_char(v, first.end, 0, '-') && has_char(v, first.end, 1, '-') {
                match read_closing_bracket(v, first.end + 2) {
                    Some((_, end)) => Some(end),
                    None => None,
                }
            } else {
                None
            }
        },
        None => None,
    }
}

/// Where the keyword before position `i` starts; `i` itself without a
/// keyword.
pub open spec fn keyword_start(s: Seq<char>, i: int) -> int {
    let end = trim_end(s, 0, i);
    match kind_before(s, i) {
        TimestampKind::Scheduled => end - 10,
        TimestampKind::Deadline => end - 9,
        TimestampKind::Closed => end - 7,
        TimestampKind::Plain => i,
    }
}

/// Where the keyword before position `i` starts.
pub(crate) fn keyword_start_in(v: &Vec<char>, i: usize) -> (r: usize)
    requires
        i <= v.len(),
    ensures
        r == keyword_start(v@, i as int),
        r <= i,
{
    let end: usize = trim_end_in(v, 0, i);
    match read_kind(v, i) {
        TimestampKind::Scheduled => end - 10,
        TimestampKind::Deadline => end - 9,
        TimestampKind::Closed => end - 7,
        TimestampKind::Plain => i,
    }
}

/// Whether `v` holds `word` right before `end`.
pub(crate) fn holds_word_before(v: &Vec<char>, end: usize, word: &Vec<char>) -> (r: bool)
    requires
        end <= v.len(),
    ensures
        r == word_at(v@, end - word.len(), word@),
{
    ends_with_word(v, end, word)
}

/// Whether `v` holds `word` from `i` on.
pub(crate) fn holds_word(v: &Vec<char>, i: usize, word: &Vec<char>) -> (r: bool)
    requires
        i <= v.len(),
    ensures
        r == word_at(v@, i as int, word@),
{
    has_word(v, i, word)
}

} // verus!
