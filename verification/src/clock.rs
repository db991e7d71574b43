use crate::text::chars_of;
use crate::text::copy_range;
use crate::text::decimal_text;
use crate::text::padded_decimal;
use crate::text::parse_u32_in;
use crate::text::push_decimal;
use crate::text::push_padded;
use crate::text::skip_spaces;
use crate::text::skip_spaces_in;
use crate::text::string_of;
use crate::text::u32_of;
use crate::timestamp::digits_end;
use crate::timestamp::holds_word;
use crate::timestamp::is_at;
use crate::timestamp::scan_digits;
use crate::timestamp::word_at;
use crate::types::ClockEntry;
use crate::types::ClockEntryView;
use vstd::prelude::*;

verus! {

/// The first position from `i` on that holds `]` or `>`, or the length of `s`.
pub open spec fn stamp_end(s: Seq<char>, i: int) -> int
    decreases s.len() - i,
{
    if 0 <= i < s.len() && s[i] != ']' && s[i] != '>' {
        stamp_end(s, i + 1)
    } else {
        i
    }
}

/// The stamp in brackets at `i`: `[` or `<`, at least one character that is
/// neither `]` nor `>`, then `]` or `>`. Where the text between the brackets
/// starts and ends.
pub open spec fn stamp_at(s: Seq<char>, i: int) -> Option<(int, int)> {
    let end = stamp_end(s, i + 1);
    if (is_at(s, i, '[') || is_at(s, i, '<')) && i + 1 < end < s.len() {
        Some((i + 1, end))
    } else {
        None
    }
}

/// The duration at `i`: `=>` with white space or none before and after it,
/// then digits, `:` and digits. Where the digits start and end.
pub open spec fn duration_at(s: Seq<char>, i: int) -> Option<(int, int)> {
    let arrow = skip_spaces(s, i);
    let start = skip_spaces(s, arrow + 2);
    let colon = digits_end(s, start);
    let end = digits_end(s, colon + 1);
    if is_at(s, arrow, '=') && is_at(s, arrow + 1, '>') && start < colon && is_at(s, colon, ':')
        && colon + 1 < end {
        Some((start, end))
    } else {
        None
    }
}

/// The keyword `CLOCK:`.
pub open spec fn clock_word() -> Seq<char> {
    seq!['C', 'L', 'O', 'C', 'K', ':']
}

/// Where the parts of a clock line lie.
pub struct ClockSpan {
    pub start: (int, int),
    pub end: Option<(int, int)>,
    pub duration: Option<(int, int)>,
    /// The position after the line's last part.
    pub stop: int,
}

/// The clock line at `i`: `CLOCK:`, white space or none, a stamp in brackets,
/// then optionally `--` and a second stamp, then optionally a duration.
pub open spec fn clock_span_at(s: Seq<char>, i: int) -> Option<ClockSpan> {
    if word_at(s, i, clock_word()) {
        match stamp_at(s, skip_spaces(s, i + 6)) {
            Some(start) => {
                let after_start = start.1 + 1;
                let end = if is_at(s, after_start, '-') && is_at(s, after_start + 1, '-') {
                    stamp_at(s, after_start + 2)
                } else {
                    None
                };
                let after_end = match end {
                    Some(span) => span.1 + 1,
                    None => after_start,
                };
                let duration = duration_at(s, after_end);
                Some(
                    ClockSpan {
                        start,
                        end,
                        duration,
                        stop: match duration {
                            Some(span) => span.1,
                            None => after_end,
                        },
                    },
                )
            },
            None => None,
        }
    } else {
        None
    }
}

/// The text of an optional part.
pub open spec fn span_text(s: Seq<char>, span: Option<(int, int)>) -> Option<Seq<char>> {
    match span {
        Some(range) => Some(s.subrange(range.0, range.1)),
        None => None,
    }
}

/// The entry that a clock line writes.
pub open spec fn clock_entry_of(s: Seq<char>, span: ClockSpan) -> ClockEntryView {
    ClockEntryView {
        start: s.subrange(span.start.0, span.start.1),
        end: span_text(s, span.end),
        duration: span_text(s, span.duration),
    }
}

/// The entries of the clock lines of `s` from `i` on, none of them
/// overlapping another.
pub open spec fn clocks_from(s: Seq<char>, i: int) -> Seq<ClockEntryView>
    decreases s.len() - i,
{
    if i < 0 || i >= s.len() {
        Seq::empty()
    } else {
        match clock_span_at(s, i) {
            Some(span) => if i < span.stop <= s.len() {
                seq![clock_entry_of(s, span)] + clocks_from(s, span.stop)
            } else {
                Seq::empty()
            },
            None => clocks_from(s, i + 1),
        }
    }
}

/// Whether `v` holds `c` at `i`.
fn holds(v: &Vec<char>, i: usize, c: char) -> (r: bool)
    ensures
        r == is_at(v@, i as int, c),
{
    i < v.len() && v[i] == c
}

/// The stamp in brackets at `i`.
fn read_stamp(v: &Vec<char>, i: usize) -> (r: Option<(usize, usize)>)
    requires
        i <= v.len(),
    ensures
        match r {
            Some(span) => stamp_at(v@, i as int) == Some((span.0 as int, span.1 as int)) && i
                < span.0 < span.1 < v.len(),
            None => stamp_at(v@, i as int) is None,
        },
{
    if !(holds(v, i, '[') || holds(v, i, '<')) {
        return None;
    }
    let mut end: usize = i + 1;
    while end < v.len() && v[end] != ']' && v[end] != '>'
        invariant
            i + 1 <= end <= v.len(),
            stamp_end(v@, i + 1) == stamp_end(v@, end as int),
        decreases v.len() - end,
    {
        end += 1;
    }
    if i + 1 < end && end < v.len() {
        Some((i + 1, end))
    } else {
        None
    }
}

/// The duration at `i`.
fn read_duration(v: &Vec<char>, i: usize) -> (r: Option<(usize, usize)>)
    requires
        i <= v.len(),
    ensures
        match r {
            Some(span) => duration_at(v@, i as int) == Some((span.0 as int, span.1 as int)) && i
                < span.0 < span.1 <= v.len(),
            None => duration_at(v@, i as int) is None,
        },
{
    let arrow: usize = skip_spaces_in(v, i);
    if !(holds(v, arrow, '=') && arrow + 1 < v.len() && v[arrow + 1] == '>') {
        return None;
    }
    let start: usize = skip_spaces_in(v, arrow + 2);
    let colon: usize = scan_digits(v, start);
    if !(start < colon && holds(v, colon, ':')) {
        return None;
    }
    let end: usize = scan_digits(v, colon + 1);
    if colon + 1 < end {
        Some((start, end))
    } else {
        None
    }
}

/// Where the parts of a clock line lie, as read.
struct Span {
    start: (usize, usize),
    end: Option<(usize, usize)>,
    duration: Option<(usize, usize)>,
    stop: usize,
}

spec fn range_model(span: Option<(usize, usize)>) -> Option<(int, int)> {
    match span {
        Some(range) => Some((range.0 as int, range.1 as int)),
        None => None,
    }
}

impl Span {
    spec fn model(self) -> ClockSpan {
        ClockSpan {
            start: (self.start.0 as int, self.start.1 as int),
            end: range_model(self.end),
            duration: range_model(self.duration),
            stop: self.stop as int,
        }
    }

    spec fn fits(self, len: int) -> bool {
        &&& self.start.0 <= self.start.1 <= len
        &&& self.end matches Some(range) ==> range.0 <= range.1 <= len
        &&& self.duration matches Some(range) ==> range.0 <= range.1 <= len
        &&& self.stop <= len
    }
}

/// The clock line at `i`.
fn read_clock_span(v: &Vec<char>, i: usize) -> (r: Option<Span>)
    requires
        i < v.len(),
    ensures
        match r {
            Some(span) => clock_span_at(v@, i as int) == Some(span.model()) && span.fits(
                v.len() as int,
            ) && i < span.stop,
            None => clock_span_at(v@, i as int) is None,
        },
{
    let word: Vec<char> = vec!['C', 'L', 'O', 'C', 'K', ':'];
    assert(word@ =~= clock_word());
    if !holds_word(v, i, &word) {
        return None;
    }
    let open: usize = skip_spaces_in(v, i + 6);
    let start = match read_stamp(v, open) {
        Some(span) => span,
        None => {
            return None;
        },
    };
    let after_start: usize = start.1 + 1;
    let end = if holds(v, after_start, '-') && holds(v, after_start + 1, '-') {
        read_stamp(v, after_start + 2)
    } else {
        None
    };
    let after_end: usize = match end {
        Some(span) => span.1 + 1,
        None => after_start,
    };
    let duration = read_duration(v, after_end);
    let stop: usize = match duration {
        Some(span) => span.1,
        None => after_end,
    };
    Some(Span { start, end, duration, stop })
}

/// The text of an optional part.
fn optional_text(v: &Vec<char>, span: Option<(usize, usize)>) -> (r: Option<String>)
    requires
        span matches Some(range) ==> range.0 <= range.1 <= v.len(),
    ensures
        r.deep_view() == span_text(v@, range_model(span)),
{
    match span {
        Some(range) => {
            let part: Vec<char> = copy_range(v, range.0, range.1);
            Some(string_of(&part))
        },
        None => None,
    }
}

/// Finds the clock lines of `text`, such as
/// `CLOCK: [2023-02-19 Sun 21:30]--[2023-02-19 Sun 23:35] =>  2:05`, and gives
/// for each its start, its end if it has one, and its duration if it has
/// one. Square and angle brackets both count.
pub fn extract_clocks(text: &str) -> (r: Vec<ClockEntry>)
    ensures
        r.deep_view() == clocks_from(text@, 0),
{
    let v: Vec<char> = chars_of(text);
    let mut entries: Vec<ClockEntry> = Vec::new();
    let mut i: usize = 0;
    assert(entries.deep_view() + clocks_from(v@, 0) =~= clocks_from(v@, 0));
    while i < v.len()
        invariant
            i <= v.len(),
            entries.deep_view() + clocks_from(v@, i as int) == clocks_from(v@, 0),
        decreases v.len() - i,
    {
        match read_clock_span(&v, i) {
            Some(span) => {
                let ghost before = entries.deep_view();
                let start_chars: Vec<char> = copy_range(&v, span.start.0, span.start.1);
                let entry = ClockEntry {
                    start: string_of(&start_chars),
                    end: optional_text(&v, span.end),
                    duration: optional_text(&v, span.duration),
                };
                assert(entry@ == clock_entry_of(v@, span.model()));
                entries.push(entry);
                assert(entries.deep_view() =~= before.push(clock_entry_of(v@, span.model())));
                assert(entries.deep_view() + clocks_from(v@, span.stop as int) =~= before
                    + clocks_from(v@, i as int));
                i = span.stop;
            },
            None => {
                i += 1;
            },
        }
    }
    assert(entries.deep_view() + clocks_from(v@, i as int) =~= entries.deep_view());
    entries
}

/// The position of the first `:` of `s` from `i` on, or the length of `s`.
pub open spec fn colon_from(s: Seq<char>, i: int) -> int
    decreases s.len() - i,
{
    if 0 <= i < s.len() && s[i] != ':' {
        colon_from(s, i + 1)
    } else {
        i
    }
}

/// The minutes that a duration such as `2:05` writes: hours, one `:`, and
/// minutes, each a number as `u32_of` reads it; `None` if the total does not
/// fit.
pub open spec fn duration_minutes(s: Seq<char>) -> Option<u32> {
    let colon = colon_from(s, 0);
    if colon < s.len() && colon_from(s, colon + 1) == s.len() {
        match (u32_of(s.subrange(0, colon)), u32_of(s.subrange(colon + 1, s.len() as int))) {
            (Some(hours), Some(minutes)) => if hours * 60 + minutes <= u32::MAX {
                Some((hours * 60 + minutes) as u32)
            } else {
                None
            },
            _ => None,
        }
    } else {
        None
    }
}

/// The position of the first `:` of `v` from `i` on, or the length of `v`.
fn find_colon(v: &Vec<char>, i: usize) -> (r: usize)
    requires
        i <= v.len(),
    ensures
        r == colon_from(v@, i as int),
        i <= r <= v.len(),
{
    let mut k: usize = i;
    while k < v.len() && v[k] != ':'
        invariant
            i <= k <= v.len(),
            colon_from(v@, i as int) == colon_from(v@, k as int),
        decreases v.len() - k,
    {
        k += 1;
    }
    k
}

/// Reads a duration such as `2:05` as minutes.
pub fn parse_duration(s: &str) -> (r: Option<u32>)
    ensures
        r == duration_minutes(s@),
{
    let v: Vec<char> = chars_of(s);
    let colon: usize = find_colon(&v, 0);
    if colon >= v.len() {
        return None;
    }
    if find_colon(&v, colon + 1) != v.len() {
        return None;
    }
    let hours: u32 = match parse_u32_in(&v, 0, colon) {
        Some(n) => n,
        None => {
            return None;
        },
    };
    let minutes: u32 = match parse_u32_in(&v, colon + 1, v.len()) {
        Some(n) => n,
        None => {
            return None;
        },
    };
    let total: u64 = hours as u64 * 60 + minutes as u64;
    if total <= u32::MAX as u64 {
        Some(total as u32)
    } else {
        None
    }
}

/// The minutes of an entry: those that its duration writes, 0 without a
/// duration or with one that cannot be read.
pub open spec fn entry_minutes(entry: ClockEntryView) -> int {
    match entry.duration {
        Some(text) => match duration_minutes(text) {
            Some(minutes) => minutes as int,
            None => 0,
        },
        None => 0,
    }
}

/// The sum of the minutes of all entries.
pub open spec fn sum_minutes(clocks: Seq<ClockEntryView>) -> int
    decreases clocks.len(),
{
    if clocks.len() == 0 {
        0
    } else {
        sum_minutes(clocks.drop_last()) + entry_minutes(clocks.last())
    }
}

/// The sum is never negative.
pub proof fn lemma_sum_minutes_nonnegative(clocks: Seq<ClockEntryView>)
    ensures
        sum_minutes(clocks) >= 0,
    decreases clocks.len(),
{
    if clocks.len() > 0 {
        lemma_sum_minutes_nonnegative(clocks.drop_last());
    }
}

/// The minutes of all entries together, `u32::MAX` where the sum is larger;
/// `None` where the sum is 0.
pub open spec fn total_minutes(clocks: Seq<ClockEntryView>) -> Option<u32> {
    if sum_minutes(clocks) <= 0 {
        None
    } else if sum_minutes(clocks) <= u32::MAX {
        Some(sum_minutes(clocks) as u32)
    } else {
        Some(u32::MAX)
    }
}

/// Adds up the minutes of the durations of the entries; an entry without a
/// duration, or with one that cannot be read, counts for nothing.
pub fn calculate_total_minutes(clocks: &[ClockEntry]) -> (r: Option<u32>)
    ensures
        r == total_minutes(clocks.deep_view()),
{
    let ghost all = clocks.deep_view();
    let mut total: u64 = 0;
    let mut i: usize = 0;
    while i < clocks.len()
        invariant
            i <= clocks.len(),
            all == clocks.deep_view(),
            total <= u32::MAX,
            total == if sum_minutes(all.subrange(0, i as int)) <= u32::MAX {
                sum_minutes(all.subrange(0, i as int))
            } else {
                u32::MAX as int
            },
        decreases clocks.len() - i,
    {
        let ghost before = all.subrange(0, i as int);
        let ghost after = all.subrange(0, i + 1);
        assert(after.drop_last() =~= before);
        assert(after.last() == clocks@[i as int]@);
        proof {
            lemma_sum_minutes_nonnegative(before);
        }
        let minutes: u32 = match &clocks[i].duration {
            Some(text) => match parse_duration(text.as_str()) {
                Some(n) => n,
                None => 0,
            },
            None => 0,
        };
        assert(minutes == entry_minutes(clocks@[i as int]@));
        total = total + minutes as u64;
        if total > u32::MAX as u64 {
            total = u32::MAX as u64;
        }
        i += 1;
    }
    assert(all.subrange(0, i as int) =~= all);
    proof {
        lemma_sum_minutes_nonnegative(all);
    }
    if total > 0 {
        Some(total as u32)
    } else {
        None
    }
}

/// A number of minutes as hours and minutes, `H:MM`.
pub open spec fn duration_text(minutes: u32) -> Seq<char> {
    decimal_text((minutes / 60) as nat) + seq![':'] + padded_decimal((minutes % 60) as nat, 2)
}

/// Writes a number of minutes as hours and minutes: 215 as `3:35`.
pub fn format_duration(minutes: u32) -> (r: String)
    ensures
        r@ == duration_text(minutes),
{
    let mut out: Vec<char> = Vec::new();
    push_decimal(&mut out, (minutes / 60) as u64);
    out.push(':');
    push_padded(&mut out, minutes % 60, 2);
    assert(out@ =~= duration_text(minutes));
    string_of(&out)
}

} // verus!
