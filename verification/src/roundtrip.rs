use crate::agenda::unit_letters;
use crate::date::Ymd;
use crate::date::iso_text;
use crate::date::weekday_name;
use crate::directive::bracket_rest_text;
use crate::directive::clock_text;
use crate::directive::dated_text;
use crate::directive::kind_text;
use crate::directive::marker_text;
use crate::directive::range_text;
use crate::directive::repeater_part_text;
use crate::directive::repeater_text;
use crate::directive::time_text;
use crate::directive::timestamp_text;
use crate::directive::warning_text;
use crate::repeater::Repeater;
use crate::repeater::RepeaterUnit;
use crate::repeater::repeater_body;
use crate::repeater::repeater_marker;
use crate::repeater::repeater_of;
use crate::repeater::unit_of;
use crate::text::all_digits;
use crate::text::decimal_text;
use crate::text::decimal_value;
use crate::text::digit_char;
use crate::text::digit_value;
use crate::text::digits_value;
use crate::text::is_digit;
use crate::text::is_space;
use crate::text::padded_decimal;
use crate::text::skip_spaces;
use crate::text::trim_end;
use crate::text::trimmed;
use crate::timestamp::BracketView;
use crate::timestamp::ClockTime;
use crate::timestamp::DirectiveView;
use crate::timestamp::TimePart;
use crate::timestamp::TimestampKind;
use crate::timestamp::TimestampView;
use crate::timestamp::TokenPart;
use crate::timestamp::bracket_at;
use crate::timestamp::clock_at;
use crate::timestamp::closing_bracket_at;
use crate::timestamp::date_at;
use crate::timestamp::digit_at;
use crate::timestamp::digits_end;
use crate::timestamp::first_range_from;
use crate::timestamp::first_single_from;
use crate::timestamp::is_at;
use crate::timestamp::kind_before;
use crate::timestamp::marks_end;
use crate::timestamp::range_at;
use crate::timestamp::repeater_part_at;
use crate::timestamp::single_at;
use crate::timestamp::time_part_at;
use crate::timestamp::timestamp_from;
use crate::timestamp::timestamp_of;
use crate::timestamp::two_digits;
use crate::timestamp::unit_end;
use crate::timestamp::warning_part_at;
use crate::timestamp::weekday_end;
use crate::timestamp::weekday_long_name;
use crate::timestamp::weekday_name_len;
use crate::timestamp::word_at;
use vstd::prelude::*;

verus! {

/// A timestamp that a directive can write and give back: valid dates, a time
/// of day of two digits each, no end time without a time, an interval of at
/// least 1.
pub open spec fn is_writable(p: TimestampView) -> bool {
    &&& p.date.is_valid()
    &&& p.time matches Some(t) ==> t.hour <= 99 && t.minute <= 99
    &&& p.end_time matches Some(t) ==> t.hour <= 99 && t.minute <= 99 && p.time is Some
    &&& p.end_date matches Some(d) ==> d.is_valid()
    &&& p.repeater matches Some(r) ==> r.is_valid()
}

/// The character for a digit is that digit, and nothing else.
pub proof fn lemma_digit_char(k: int)
    requires
        0 <= k <= 9,
    ensures
        is_digit(digit_char(k)),
        digit_value(digit_char(k)) == k,
        !is_space(digit_char(k)),
        digit_char(k) != '<',
        digit_char(k) != '+',
        digit_char(k) != '.',
{
}

/// Two padded digits are the tens and the ones.
pub proof fn lemma_padded_two(n: nat)
    requires
        n < 100,
    ensures
        padded_decimal(n, 2) == seq![digit_char((n / 10) as int), digit_char((n % 10) as int)],
{
    reveal_with_fuel(padded_decimal, 3);
    assert(padded_decimal(n, 2) =~= seq![
        digit_char((n / 10) as int),
        digit_char((n % 10) as int),
    ]);
}

/// Four padded digits are the thousands, the hundreds, the tens and the ones.
pub proof fn lemma_padded_four(n: nat)
    requires
        n < 10000,
    ensures
        padded_decimal(n, 4) == seq![
            digit_char((n / 1000) as int),
            digit_char((n / 100 % 10) as int),
            digit_char((n / 10 % 10) as int),
            digit_char((n % 10) as int),
        ],
{
    reveal_with_fuel(padded_decimal, 5);
    assert(padded_decimal(n, 4) =~= seq![
        digit_char((n / 1000) as int),
        digit_char((n / 100 % 10) as int),
        digit_char((n / 10 % 10) as int),
        digit_char((n % 10) as int),
    ]);
}

/// The decimal digits of a number are digits, at least one, and write the
/// number.
pub proof fn lemma_decimal_text(n: nat)
    ensures
        decimal_text(n).len() >= 1,
        all_digits(decimal_text(n)),
        decimal_value(decimal_text(n)) == n,
    decreases n,
{
    if n < 10 {
        lemma_digit_char(n as int);
        let s = decimal_text(n);
        assert(s.drop_last() =~= Seq::<char>::empty());
        assert(decimal_value(s.drop_last()) == 0);
    } else {
        lemma_decimal_text(n / 10);
        lemma_digit_char((n % 10) as int);
        let shorter = decimal_text(n / 10);
        let s = decimal_text(n);
        assert(s.drop_last() =~= shorter);
        assert forall|i: int| 0 <= i < s.len() implies is_digit(#[trigger] s[i]) by {
            if i < shorter.len() {
                assert(s[i] == shorter[i]);
            }
        }
    }
}

/// A number read back from its decimal digits is the number.
pub proof fn lemma_digits_value_decimal(n: u32)
    ensures
        digits_value(decimal_text(n as nat)) == Some(n),
{
    lemma_decimal_text(n as nat);
}

/// The digits of a text that holds `digits` at `i` end where `digits` ends,
/// if no digit follows.
pub proof fn lemma_digits_end(s: Seq<char>, i: int, digits: Seq<char>)
    requires
        word_at(s, i, digits),
        all_digits(digits),
        i + digits.len() == s.len() || !is_digit(s[i + digits.len()]),
    ensures
        digits_end(s, i) == i + digits.len(),
    decreases digits.len(),
{
    if digits.len() > 0 {
        assert(s[i] == s.subrange(i, i + digits.len())[0]);
        assert(is_digit(digits[0]));
        let rest = digits.skip(1);
        assert(s.subrange(i + 1, i + 1 + rest.len()) =~= rest);
        assert forall|k: int| 0 <= k < rest.len() implies is_digit(#[trigger] rest[k]) by {
            assert(rest[k] == digits[k + 1]);
        }
        lemma_digits_end(s, i + 1, rest);
    }
}

/// What a text holds at a place where it holds a word.
pub proof fn lemma_word_chars(s: Seq<char>, i: int, word: Seq<char>)
    requires
        word_at(s, i, word),
    ensures
        forall|k: int| 0 <= k < word.len() ==> s[i + k] == #[trigger] word[k],
{
    assert forall|k: int| 0 <= k < word.len() implies s[i + k] == #[trigger] word[k] by {
        assert(s.subrange(i, i + word.len())[k] == s[i + k]);
    }
}

/// A text does not hold a word where one of its characters differs.
pub proof fn lemma_word_differs(s: Seq<char>, i: int, word: Seq<char>, k: int)
    requires
        0 <= k < word.len(),
        i + k >= s.len() || i < 0 || s[i + k] != word[k],
    ensures
        !word_at(s, i, word),
{
    if word_at(s, i, word) {
        lemma_word_chars(s, i, word);
    }
}

/// A word within a part of a text is a word of the text.
pub proof fn lemma_word_within(s: Seq<char>, i: int, outer: Seq<char>, k: int, word: Seq<char>)
    requires
        word_at(s, i, outer),
        word_at(outer, k, word),
    ensures
        word_at(s, i + k, word),
{
    lemma_word_chars(s, i, outer);
    let a = s.subrange(i + k, i + k + word.len());
    let b = outer.subrange(k, k + word.len());
    assert forall|j: int| 0 <= j < word.len() implies #[trigger] a[j] == b[j] by {
        assert(s[i + (k + j)] == outer[k + j]);
    }
    assert(a =~= b);
}

/// A text that holds a valid date as `YYYY-MM-DD` gives that date.
pub proof fn lemma_date_at(s: Seq<char>, i: int, d: Ymd)
    requires
        d.is_valid(),
        word_at(s, i, iso_text(d)),
    ensures
        date_at(s, i) == Some(d),
        iso_text(d).len() == 10,
{
    let t = iso_text(d);
    lemma_padded_four(d.year as nat);
    lemma_padded_two(d.month as nat);
    lemma_padded_two(d.day as nat);
    assert(t.len() == 10);
    lemma_word_chars(s, i, t);
    let y = d.year;
    lemma_digit_char(y / 1000);
    lemma_digit_char(y / 100 % 10);
    lemma_digit_char(y / 10 % 10);
    lemma_digit_char(y % 10);
    lemma_digit_char(d.month / 10);
    lemma_digit_char(d.month % 10);
    lemma_digit_char(d.day / 10);
    lemma_digit_char(d.day % 10);
    assert(s[i + 0] == t[0] && s[i + 1] == t[1] && s[i + 2] == t[2] && s[i + 3] == t[3]);
    assert(s[i + 4] == t[4] && s[i + 5] == t[5] && s[i + 6] == t[6] && s[i + 7] == t[7]);
    assert(s[i + 8] == t[8] && s[i + 9] == t[9]);
    assert(t[0] == digit_char(y / 1000) && t[1] == digit_char(y / 100 % 10));
    assert(t[2] == digit_char(y / 10 % 10) && t[3] == digit_char(y % 10));
    assert(t[4] == '-' && t[7] == '-');
    assert(t[5] == digit_char(d.month / 10) && t[6] == digit_char(d.month % 10));
    assert(t[8] == digit_char(d.day / 10) && t[9] == digit_char(d.day % 10));
    assert(two_digits(s, i) * 100 + two_digits(s, i + 2) == y);
    assert(two_digits(s, i + 5) == d.month);
    assert(two_digits(s, i + 8) == d.day);
}

/// Where a text holds the short name of one weekday, followed by a blank or
/// `>`, it holds no full name and no other short name.
proof fn lemma_other_names(s: Seq<char>, j: int, w: int, k: int)
    requires
        0 <= w < 7,
        0 <= k < 7,
        word_at(s, j, weekday_name(w)),
        is_at(s, j + 3, ' ') || is_at(s, j + 3, '>'),
    ensures
        !word_at(s, j, weekday_long_name(k)),
        k != w ==> !word_at(s, j, weekday_name(k)),
{
    lemma_word_chars(s, j, weekday_name(w));
    let held = weekday_name(w);
    assert(s[j + 0] == held[0] && s[j + 1] == held[1] && s[j + 2] == held[2]);
    let long = weekday_long_name(k);
    let short = weekday_name(k);
    if k == w {
        lemma_word_differs(s, j, long, 3);
    } else if short[0] != held[0] {
        assert(long[0] == short[0]);
        lemma_word_differs(s, j, long, 0);
        lemma_word_differs(s, j, short, 0);
    } else {
        assert(long[1] == short[1]);
        assert(short[1] != held[1]);
        lemma_word_differs(s, j, long, 1);
        lemma_word_differs(s, j, short, 1);
    }
}

/// Where a text holds the short name of a weekday, followed by a blank or
/// `>`, the name found there has three letters.
proof fn lemma_name_len(s: Seq<char>, j: int, w: int, k: int)
    requires
        0 <= k <= w < 7,
        word_at(s, j, weekday_name(w)),
        is_at(s, j + 3, ' ') || is_at(s, j + 3, '>'),
    ensures
        weekday_name_len(s, j, k) == 3,
    decreases w - k,
{
    lemma_other_names(s, j, w, k);
    if k < w {
        lemma_name_len(s, j, w, k + 1);
    }
}

/// A blank and the short name of a weekday, followed by a blank or `>`, are
/// read as the weekday.
pub proof fn lemma_weekday_end(s: Seq<char>, i: int, w: int)
    requires
        0 <= w < 7,
        is_at(s, i, ' '),
        word_at(s, i + 1, weekday_name(w)),
        is_at(s, i + 4, ' ') || is_at(s, i + 4, '>'),
    ensures
        weekday_end(s, i) == i + 4,
{
    lemma_name_len(s, i + 1, w, 0);
}

/// A text that holds a time as `HH:MM` gives that time.
pub proof fn lemma_clock_at(s: Seq<char>, i: int, t: ClockTime)
    requires
        t.hour <= 99,
        t.minute <= 99,
        word_at(s, i, clock_text(t)),
    ensures
        clock_at(s, i) == Some((t, i + 5)),
        clock_text(t).len() == 5,
{
    let text = clock_text(t);
    lemma_padded_two(t.hour as nat);
    lemma_padded_two(t.minute as nat);
    assert(text.len() == 5);
    lemma_word_chars(s, i, text);
    lemma_digit_char(t.hour as int / 10);
    lemma_digit_char(t.hour as int % 10);
    lemma_digit_char(t.minute as int / 10);
    lemma_digit_char(t.minute as int % 10);
    assert(s[i + 0] == text[0] && s[i + 1] == text[1] && s[i + 2] == text[2] && s[i + 3]
        == text[3] && s[i + 4] == text[4]);
    assert(text[0] == digit_char(t.hour as int / 10) && text[1] == digit_char(t.hour as int % 10));
    assert(text[2] == ':');
    assert(text[3] == digit_char(t.minute as int / 10) && text[4] == digit_char(
        t.minute as int % 10,
    ));
    assert(two_digits(s, i) == t.hour);
    assert(two_digits(s, i + 3) == t.minute);
}

/// The time of a bracket is read back as written, if what follows it is
/// neither a blank with a digit after it nor, after a time without an end,
/// a `-`.
pub proof fn lemma_time_part(s: Seq<char>, i: int, time: Option<ClockTime>, end_time: Option<ClockTime>)
    requires
        time matches Some(t) ==> t.hour <= 99 && t.minute <= 99,
        end_time matches Some(t) ==> t.hour <= 99 && t.minute <= 99 && time is Some,
        word_at(s, i, time_text(time, end_time)),
        time is None ==> !(is_at(s, i, ' ') && digit_at(s, i + 1)),
        time is Some && end_time is None ==> !is_at(s, i + 6, '-'),
    ensures
        time_part_at(s, i) == (TimePart {
            time,
            end_time,
            end: i + time_text(time, end_time).len(),
        }),
{
    match time {
        Some(t) => {
            let text = time_text(time, end_time);
            lemma_padded_two(t.hour as nat);
            lemma_padded_two(t.minute as nat);
            assert(clock_text(t).len() == 5);
            lemma_word_chars(s, i, text);
            assert(text[0] == ' ');
            assert(s[i + 0] == text[0]);
            assert(word_at(text, 1, clock_text(t))) by {
                assert(text.subrange(1, 6) =~= clock_text(t));
            }
            lemma_word_within(s, i, text, 1, clock_text(t));
            lemma_clock_at(s, i + 1, t);
            match end_time {
                Some(e) => {
                    lemma_padded_two(e.hour as nat);
                    lemma_padded_two(e.minute as nat);
                    assert(clock_text(e).len() == 5);
                    assert(text.len() == 12);
                    assert(text[6] == '-');
                    assert(s[i + 6] == text[6]);
                    assert(word_at(text, 7, clock_text(e))) by {
                        assert(text.subrange(7, 12) =~= clock_text(e));
                    }
                    lemma_word_within(s, i, text, 7, clock_text(e));
                    lemma_clock_at(s, i + 7, e);
                },
                None => {
                    assert(text.len() == 6);
                },
            }
        },
        None => {
            assert(time_text(time, end_time).len() == 0);
        },
    }
}

/// The token of a valid repeater is read back as that repeater.
pub proof fn lemma_repeater_text(r: Repeater)
    requires
        r.is_valid(),
    ensures
        repeater_of(repeater_text(r)) == Some(r),
{
    let t = repeater_text(r);
    let marker = marker_text(r.repeater_type);
    let digits = decimal_text(r.value as nat);
    let unit = unit_letters(r.unit);
    lemma_decimal_text(r.value as nat);
    lemma_digits_value_decimal(r.value);
    assert(is_digit(digits[0]));
    assert(is_digit(digits[digits.len() - 1]));
    let n = t.len() as int;
    assert(t[0] == marker[0]);
    assert(t[marker.len() as int] == digits[0]);
    assert(t[n - 1] == unit[unit.len() - 1]);
    assert(!is_space(t[0]));
    assert(!is_space(t[n - 1]));
    assert(skip_spaces(t, 0) == 0);
    assert(trim_end(t, 0, n) == n);
    assert(trimmed(t) =~= t);
    if marker.len() == 2 {
        assert(t[1] == marker[1]);
    }
    let rest = t.skip(marker.len() as int);
    assert(rest =~= digits + unit);
    assert(repeater_marker(t) == Some((r.repeater_type, marker.len() as int)));
    let m = rest.len() as int;
    assert(m >= 2);
    if r.unit == RepeaterUnit::Workday {
        assert(rest[m - 2] == 'w' && rest[m - 1] == 'd');
        assert(rest.subrange(0, m - 2) =~= digits);
    } else {
        assert(rest[m - 2] == digits[digits.len() - 1]);
        assert(rest[m - 1] == unit[0]);
        assert(rest.subrange(0, m - 1) =~= digits);
        assert(unit_of(rest[m - 1]) == Some(r.unit));
    }
    assert(repeater_body(r.repeater_type, rest) == Some(r));
}

/// A blank and the token of a repeater, followed by a blank or `>`, are read
/// as the repeater part.
pub proof fn lemma_repeater_part(s: Seq<char>, i: int, r: Repeater)
    requires
        is_at(s, i, ' '),
        word_at(s, i + 1, repeater_text(r)),
        is_at(s, i + 1 + repeater_text(r).len(), ' ') || is_at(
            s,
            i + 1 + repeater_text(r).len(),
            '>',
        ),
    ensures
        repeater_part_at(s, i) == (TokenPart {
            found: true,
            start: i + 1,
            end: i + 1 + repeater_text(r).len(),
        }),
{
    let t = repeater_text(r);
    let marker = marker_text(r.repeater_type);
    let digits = decimal_text(r.value as nat);
    let unit = unit_letters(r.unit);
    lemma_decimal_text(r.value as nat);
    lemma_word_chars(s, i + 1, t);
    let ml = marker.len() as int;
    let dl = digits.len() as int;
    let start = i + 1;
    let marks = start + ml;
    let after_digits = marks + dl;
    let end = start + t.len();
    assert(t[0] == marker[0]);
    assert(s[start + 0] == t[0]);
    assert(!is_space(s[start]));
    assert(skip_spaces(s, start) == start);
    assert(skip_spaces(s, i) == start);
    assert(is_digit(digits[0]));
    assert(t[ml] == digits[0]);
    assert(s[start + ml] == t[ml]);
    if ml == 2 {
        assert(t[1] == marker[1]);
        assert(s[start + 1] == t[1]);
        assert(marks_end(s, start + 2) == start + 2);
        assert(marks_end(s, start + 1) == start + 2);
    } else {
        assert(marks_end(s, start + 1) == start + 1);
    }
    assert(marks_end(s, start) == marks);
    assert(word_at(t, ml, digits)) by {
        assert(t.subrange(ml, ml + dl) =~= digits);
    }
    lemma_word_within(s, start, t, ml, digits);
    assert(t[ml + dl] == unit[0]);
    assert(s[start + (ml + dl)] == t[ml + dl]);
    assert(!is_digit(unit[0]));
    lemma_digits_end(s, marks, digits);
    assert(digits_end(s, marks) == after_digits);
    if unit.len() == 2 {
        assert(t[ml + dl + 1] == unit[1]);
        assert(s[start + (ml + dl + 1)] == t[ml + dl + 1]);
        assert(unit_end(s, after_digits) == after_digits + 2);
    } else {
        assert(unit_end(s, after_digits) == after_digits + 1);
    }
    assert(unit_end(s, after_digits) == end);
}

/// Where a bracket goes on with `>` or with a blank and `-`, it has no
/// repeater part.
pub proof fn lemma_no_repeater_part(s: Seq<char>, i: int)
    requires
        is_at(s, i, '>') || (is_at(s, i, ' ') && is_at(s, i + 1, '-')),
    ensures
        repeater_part_at(s, i) == (TokenPart { found: false, start: i, end: i }),
{
    if is_at(s, i, '>') {
        assert(skip_spaces(s, i) == i);
        assert(marks_end(s, i) == i);
    } else {
        assert(skip_spaces(s, i + 1) == i + 1);
        assert(skip_spaces(s, i) == i + 1);
        assert(marks_end(s, i + 1) == i + 1);
    }
}

/// A blank, `-`, the digits of a number and `d` are read as the warning part.
pub proof fn lemma_warning_part(s: Seq<char>, i: int, n: u32)
    requires
        is_at(s, i, ' '),
        is_at(s, i + 1, '-'),
        word_at(s, i + 2, decimal_text(n as nat)),
        is_at(s, i + 2 + decimal_text(n as nat).len(), 'd'),
    ensures
        warning_part_at(s, i) == (TokenPart {
            found: true,
            start: i + 2,
            end: i + 2 + decimal_text(n as nat).len(),
        }),
{
    lemma_decimal_text(n as nat);
    assert(skip_spaces(s, i + 1) == i + 1);
    assert(skip_spaces(s, i) == i + 1);
    lemma_digits_end(s, i + 2, decimal_text(n as nat));
}

/// Where a bracket goes on with `>`, it has no warning part.
pub proof fn lemma_no_warning_part(s: Seq<char>, i: int)
    requires
        is_at(s, i, '>'),
    ensures
        warning_part_at(s, i) == (TokenPart { found: false, start: i, end: i }),
{
    assert(skip_spaces(s, i) == i);
}

/// What follows the repeater part of a bracket: the warning and `>`.
pub open spec fn warning_tail(days: Option<u32>) -> Seq<char> {
    warning_text(days) + seq!['>']
}

/// What follows the time part of a bracket: the repeater, the warning and `>`.
pub open spec fn repeater_tail(rep: Option<Repeater>, days: Option<u32>) -> Seq<char> {
    repeater_part_text(rep) + warning_tail(days)
}

/// A warning tail starts with `>`, or with a blank and `-`.
proof fn lemma_warning_tail_start(days: Option<u32>)
    ensures
        ({
            let t = warning_tail(days);
            t.len() >= 1 && (t[0] == '>' || (t.len() >= 2 && t[0] == ' ' && t[1] == '-'))
        }),
{
    let t = warning_tail(days);
    match days {
        Some(n) => {
            let w = warning_text(days);
            assert(w[0] == ' ' && w[1] == '-');
            assert(t[0] == w[0] && t[1] == w[1]);
        },
        None => {
            assert(t =~= seq!['>']);
        },
    }
}

/// A repeater tail starts with `>`, or with a blank and then a mark or `-`.
proof fn lemma_repeater_tail_start(rep: Option<Repeater>, days: Option<u32>)
    ensures
        ({
            let t = repeater_tail(rep, days);
            t.len() >= 1 && (t[0] == '>' || (t.len() >= 2 && t[0] == ' ' && (t[1] == '-' || t[1]
                == '+' || t[1] == '.')))
        }),
{
    let t = repeater_tail(rep, days);
    lemma_warning_tail_start(days);
    match rep {
        Some(r) => {
            let part = repeater_part_text(rep);
            let token = repeater_text(r);
            let marker = marker_text(r.repeater_type);
            assert(token[0] == marker[0]);
            assert(part[0] == ' ' && part[1] == token[0]);
            assert(t[0] == part[0] && t[1] == part[1]);
        },
        None => {
            assert(t =~= warning_tail(days));
        },
    }
}

/// What a bracket holds after its date and weekday, read from a text.
pub struct RestView {
    pub time: TimePart,
    pub repeater: TokenPart,
    pub warning: TokenPart,
}

/// The parts of a bracket after its date and weekday, from position `i` on.
pub open spec fn rest_at(s: Seq<char>, i: int) -> RestView {
    let time = time_part_at(s, i);
    let repeater = repeater_part_at(s, time.end);
    let warning = warning_part_at(s, repeater.end);
    RestView { time, repeater, warning }
}

/// The warning and the `>` of a bracket are read back as written.
proof fn lemma_warning_tail(s: Seq<char>, i: int, days: Option<u32>)
    requires
        word_at(s, i, warning_tail(days)),
    ensures
        ({
            let warning = warning_part_at(s, i);
            let close = if warning.found {
                warning.end + 1
            } else {
                warning.end
            };
            &&& warning.found == (days is Some)
            &&& warning.found ==> digits_value(s.subrange(warning.start, warning.end)) == days
            &&& is_at(s, close, '>')
            &&& close + 1 == i + warning_tail(days).len()
        }),
{
    let t = warning_tail(days);
    lemma_word_chars(s, i, t);
    match days {
        Some(n) => {
            let digits = decimal_text(n as nat);
            let dl = digits.len() as int;
            lemma_decimal_text(n as nat);
            lemma_digits_value_decimal(n);
            assert(t.len() == dl + 4);
            assert(t[0] == ' ' && t[1] == '-' && t[dl + 2] == 'd' && t[dl + 3] == '>');
            assert(s[i + 0] == t[0] && s[i + 1] == t[1] && s[i + (dl + 2)] == t[dl + 2] && s[i + (
            dl + 3)] == t[dl + 3]);
            assert(word_at(t, 2, digits)) by {
                assert(t.subrange(2, 2 + dl) =~= digits);
            }
            lemma_word_within(s, i, t, 2, digits);
            lemma_warning_part(s, i, n);
            assert(s.subrange(i + 2, i + 2 + dl) == digits);
        },
        None => {
            assert(t =~= seq!['>']);
            assert(s[i + 0] == t[0]);
            lemma_no_warning_part(s, i);
        },
    }
}

/// The repeater, the warning and the `>` of a bracket are read back as
/// written.
proof fn lemma_repeater_tail(s: Seq<char>, i: int, rep: Option<Repeater>, days: Option<u32>)
    requires
        rep matches Some(r) ==> r.is_valid(),
        word_at(s, i, repeater_tail(rep, days)),
    ensures
        ({
            let repeater = repeater_part_at(s, i);
            let warning = warning_part_at(s, repeater.end);
            let close = if warning.found {
                warning.end + 1
            } else {
                warning.end
            };
            &&& repeater.found == (rep is Some)
            &&& repeater.found ==> repeater_of(s.subrange(repeater.start, repeater.end)) == rep
            &&& warning.found == (days is Some)
            &&& warning.found ==> digits_value(s.subrange(warning.start, warning.end)) == days
            &&& is_at(s, close, '>')
            &&& close + 1 == i + repeater_tail(rep, days).len()
        }),
{
    let t = repeater_tail(rep, days);
    let tail = warning_tail(days);
    lemma_word_chars(s, i, t);
    lemma_warning_tail_start(days);
    match rep {
        Some(r) => {
            let token = repeater_text(r);
            let tl = token.len() as int;
            assert(t.len() == tl + 1 + tail.len());
            assert(t[0] == ' ');
            assert(s[i + 0] == t[0]);
            assert(word_at(t, 1, token)) by {
                assert(t.subrange(1, 1 + tl) =~= token);
            }
            lemma_word_within(s, i, t, 1, token);
            assert(word_at(t, 1 + tl, tail)) by {
                assert(t.subrange(1 + tl, 1 + tl + tail.len()) =~= tail);
            }
            lemma_word_within(s, i, t, 1 + tl, tail);
            assert(t[1 + tl] == tail[0]);
            assert(s[i + (1 + tl)] == t[1 + tl]);
            lemma_repeater_part(s, i, r);
            lemma_repeater_text(r);
            assert(s.subrange(i + 1, i + 1 + tl) == token);
            lemma_warning_tail(s, i + 1 + tl, days);
        },
        None => {
            assert(t =~= tail);
            assert(s[i + 0] == t[0]);
            if tail[0] != '>' {
                assert(s[i + 1] == t[1]);
            }
            lemma_no_repeater_part(s, i);
            lemma_warning_tail(s, i, days);
        },
    }
}

/// What follows the date and weekday of a bracket is read back as written.
proof fn lemma_bracket_rest(s: Seq<char>, i: int, p: TimestampView)
    requires
        is_writable(p),
        word_at(s, i, bracket_rest_text(p)),
    ensures
        ({
            let rest = rest_at(s, i);
            let close = if rest.warning.found {
                rest.warning.end + 1
            } else {
                rest.warning.end
            };
            &&& rest.time.time == p.time
            &&& rest.time.end_time == p.end_time
            &&& rest.repeater.found == (p.repeater is Some)
            &&& rest.repeater.found ==> repeater_of(
                s.subrange(rest.repeater.start, rest.repeater.end),
            ) == p.repeater
            &&& rest.warning.found == (p.deadline_warning_days is Some)
            &&& rest.warning.found ==> digits_value(s.subrange(rest.warning.start, rest.warning.end))
                == p.deadline_warning_days
            &&& is_at(s, close, '>')
            &&& close + 1 == i + bracket_rest_text(p).len()
        }),
        is_at(s, i, ' ') || is_at(s, i, '>'),
{
    let t = bracket_rest_text(p);
    let time = time_text(p.time, p.end_time);
    let tail = repeater_tail(p.repeater, p.deadline_warning_days);
    let tl = time.len() as int;
    assert(t =~= time + tail);
    lemma_word_chars(s, i, t);
    lemma_repeater_tail_start(p.repeater, p.deadline_warning_days);
    assert(word_at(t, 0, time)) by {
        assert(t.subrange(0, tl) =~= time);
    }
    lemma_word_within(s, i, t, 0, time);
    assert(word_at(t, tl, tail)) by {
        assert(t.subrange(tl, tl + tail.len()) =~= tail);
    }
    lemma_word_within(s, i, t, tl, tail);
    assert(t[tl] == tail[0]);
    assert(s[i + tl] == t[tl]);
    if tail[0] != '>' {
        assert(t[tl + 1] == tail[1]);
        assert(s[i + (tl + 1)] == t[tl + 1]);
    }
    match p.time {
        Some(clock) => {
            lemma_padded_two(clock.hour as nat);
            lemma_padded_two(clock.minute as nat);
            assert(clock_text(clock).len() == 5);
            assert(time[0] == ' ');
            assert(t[0] == time[0]);
            assert(s[i + 0] == t[0]);
            match p.end_time {
                Some(end) => {},
                None => {
                    assert(tl == 6);
                },
            }
        },
        None => {
            assert(tl == 0);
        },
    }
    lemma_time_part(s, i, p.time, p.end_time);
    lemma_repeater_tail(s, i + tl, p.repeater, p.deadline_warning_days);
}

/// A `<`, a valid date and its weekday, followed by a blank or `>`, are read
/// back as written.
proof fn lemma_dated(s: Seq<char>, i: int, d: Ymd)
    requires
        d.is_valid(),
        word_at(s, i, dated_text(d)),
        is_at(s, i + 15, ' ') || is_at(s, i + 15, '>'),
    ensures
        is_at(s, i, '<'),
        date_at(s, i + 1) == Some(d),
        weekday_end(s, i + 11) == i + 15,
        dated_text(d).len() == 15,
{
    let t = dated_text(d);
    let iso = iso_text(d);
    let w = d.weekday_index();
    let name = weekday_name(w);
    lemma_padded_four(d.year as nat);
    lemma_padded_two(d.month as nat);
    lemma_padded_two(d.day as nat);
    assert(iso.len() == 10);
    assert(name.len() == 3);
    assert(t.len() == 15);
    lemma_word_chars(s, i, t);
    assert(t[0] == '<' && t[11] == ' ');
    assert(s[i + 0] == t[0] && s[i + 11] == t[11]);
    assert(word_at(t, 1, iso)) by {
        assert(t.subrange(1, 11) =~= iso);
    }
    lemma_word_within(s, i, t, 1, iso);
    assert(word_at(t, 12, name)) by {
        assert(t.subrange(12, 15) =~= name);
    }
    lemma_word_within(s, i, t, 12, name);
    lemma_date_at(s, i + 1, d);
    lemma_weekday_end(s, i + 11, w);
}

/// The first bracket of a written timestamp is read back as written.
proof fn lemma_bracket(s: Seq<char>, i: int, p: TimestampView)
    requires
        is_writable(p),
        word_at(s, i, dated_text(p.date) + bracket_rest_text(p)),
    ensures
        bracket_at(s, i) == Some(
            BracketView {
                date: p.date,
                time: p.time,
                end_time: p.end_time,
                repeater: p.repeater,
                deadline_warning_days: p.deadline_warning_days,
                end: i + 15 + bracket_rest_text(p).len(),
            },
        ),
{
    let dated = dated_text(p.date);
    let rest = bracket_rest_text(p);
    let t = dated + rest;
    lemma_padded_four(p.date.year as nat);
    lemma_padded_two(p.date.month as nat);
    lemma_padded_two(p.date.day as nat);
    assert(dated.len() == 15);
    assert(word_at(t, 0, dated)) by {
        assert(t.subrange(0, 15) =~= dated);
    }
    lemma_word_within(s, i, t, 0, dated);
    assert(word_at(t, 15, rest)) by {
        assert(t.subrange(15, 15 + rest.len() as int) =~= rest);
    }
    lemma_word_within(s, i, t, 15, rest);
    lemma_bracket_rest(s, i + 15, p);
    lemma_dated(s, i, p.date);
}

/// The second bracket of a written range is read back as written.
proof fn lemma_closing_bracket(s: Seq<char>, i: int, d: Ymd)
    requires
        d.is_valid(),
        word_at(s, i, dated_text(d) + seq!['>']),
    ensures
        closing_bracket_at(s, i) == Some((d, i + 16)),
{
    let dated = dated_text(d);
    let t = dated + seq!['>'];
    lemma_padded_four(d.year as nat);
    lemma_padded_two(d.month as nat);
    lemma_padded_two(d.day as nat);
    assert(dated.len() == 15);
    lemma_word_chars(s, i, t);
    assert(t[15] == '>');
    assert(s[i + 15] == t[15]);
    assert(word_at(t, 0, dated)) by {
        assert(t.subrange(0, 15) =~= dated);
    }
    lemma_word_within(s, i, t, 0, dated);
    lemma_dated(s, i, d);
}

/// No character of the text is `<`.
pub open spec fn has_no_open(t: Seq<char>) -> bool {
    forall|k: int| 0 <= k < t.len() ==> #[trigger] t[k] != '<'
}

/// Texts without `<` joined are a text without `<`.
proof fn lemma_join_no_open(a: Seq<char>, b: Seq<char>)
    requires
        has_no_open(a),
        has_no_open(b),
    ensures
        has_no_open(a + b),
{
    let t = a + b;
    assert forall|k: int| 0 <= k < t.len() implies #[trigger] t[k] != '<' by {
        if k < a.len() {
            assert(t[k] == a[k]);
        } else {
            assert(t[k] == b[k - a.len()]);
        }
    }
}

/// Padded digits hold no `<`.
proof fn lemma_padded_no_open(n: nat, width: nat)
    ensures
        has_no_open(padded_decimal(n, width)),
    decreases width,
{
    if width > 0 {
        lemma_padded_no_open(n / 10, (width - 1) as nat);
        lemma_digit_char((n % 10) as int);
        let shorter = padded_decimal(n / 10, (width - 1) as nat);
        let t = padded_decimal(n, width);
        assert forall|k: int| 0 <= k < t.len() implies #[trigger] t[k] != '<' by {
            if k < shorter.len() {
                assert(t[k] == shorter[k]);
            }
        }
    }
}

/// The text of a time holds no `<`.
proof fn lemma_clock_no_open(t: ClockTime)
    ensures
        has_no_open(clock_text(t)),
{
    lemma_padded_no_open(t.hour as nat, 2);
    lemma_padded_no_open(t.minute as nat, 2);
    lemma_join_no_open(padded_decimal(t.hour as nat, 2), seq![':']);
    lemma_join_no_open(
        padded_decimal(t.hour as nat, 2) + seq![':'],
        padded_decimal(t.minute as nat, 2),
    );
}

/// What follows the date and weekday of a bracket holds no `<`.
proof fn lemma_rest_no_open(p: TimestampView)
    ensures
        has_no_open(bracket_rest_text(p)),
{
    let time = time_text(p.time, p.end_time);
    let rep = repeater_part_text(p.repeater);
    let warn = warning_text(p.deadline_warning_days);
    match p.time {
        Some(t) => {
            lemma_clock_no_open(t);
            lemma_join_no_open(seq![' '], clock_text(t));
            match p.end_time {
                Some(e) => {
                    lemma_clock_no_open(e);
                    lemma_join_no_open(seq!['-'], clock_text(e));
                    lemma_join_no_open(seq![' '] + clock_text(t), seq!['-'] + clock_text(e));
                },
                None => {
                    lemma_join_no_open(seq![' '] + clock_text(t), Seq::<char>::empty());
                },
            }
        },
        None => {},
    }
    assert(has_no_open(time));
    match p.repeater {
        Some(r) => {
            lemma_decimal_text(r.value as nat);
            let digits = decimal_text(r.value as nat);
            assert forall|k: int| 0 <= k < digits.len() implies #[trigger] digits[k] != '<' by {
                assert(is_digit(digits[k]));
            }
            lemma_join_no_open(marker_text(r.repeater_type), digits);
            lemma_join_no_open(marker_text(r.repeater_type) + digits, unit_letters(r.unit));
            lemma_join_no_open(seq![' '], repeater_text(r));
        },
        None => {},
    }
    assert(has_no_open(rep));
    match p.deadline_warning_days {
        Some(n) => {
            lemma_decimal_text(n as nat);
            let digits = decimal_text(n as nat);
            assert forall|k: int| 0 <= k < digits.len() implies #[trigger] digits[k] != '<' by {
                assert(is_digit(digits[k]));
            }
            lemma_join_no_open(seq![' ', '-'], digits);
            lemma_join_no_open(seq![' ', '-'] + digits, seq!['d']);
        },
        None => {},
    }
    assert(has_no_open(warn));
    lemma_join_no_open(time, rep);
    lemma_join_no_open(time + rep, warn);
    lemma_join_no_open(time + rep + warn, seq!['>']);
}

/// A date with its weekday, as written, holds `<` at its start only.
proof fn lemma_dated_one_open(d: Ymd)
    ensures
        has_no_open(dated_text(d).skip(1)),
{
    lemma_padded_no_open(d.year as nat, 4);
    lemma_padded_no_open(d.month as nat, 2);
    lemma_padded_no_open(d.day as nat, 2);
    let y = padded_decimal(d.year as nat, 4);
    let m = padded_decimal(d.month as nat, 2);
    let dd = padded_decimal(d.day as nat, 2);
    lemma_join_no_open(y, seq!['-']);
    lemma_join_no_open(y + seq!['-'], m);
    lemma_join_no_open(y + seq!['-'] + m, seq!['-']);
    lemma_join_no_open(y + seq!['-'] + m + seq!['-'], dd);
    let name = weekday_name(d.weekday_index());
    assert(has_no_open(name));
    lemma_join_no_open(iso_text(d), seq![' ']);
    lemma_join_no_open(iso_text(d) + seq![' '], name);
    assert(dated_text(d).skip(1) =~= iso_text(d) + seq![' '] + name);
}

/// No bracket starts where there is no `<`: the search goes on.
proof fn lemma_search_skips(s: Seq<char>, from: int, to: int)
    requires
        0 <= from <= to <= s.len(),
        forall|k: int| from <= k < to ==> s[k] != '<',
    ensures
        first_range_from(s, from) == first_range_from(s, to),
        first_single_from(s, from) == first_single_from(s, to),
    decreases to - from,
{
    if from < to {
        assert(bracket_at(s, from) is None);
        lemma_search_skips(s, from + 1, to);
    }
}

/// The keyword of a kind holds no `<`, and is read back as that kind.
proof fn lemma_kind(s: Seq<char>, kind: TimestampKind)
    requires
        word_at(s, 0, kind_text(kind)),
    ensures
        kind_before(s, kind_text(kind).len() as int) == kind,
        forall|k: int| 0 <= k < kind_text(kind).len() ==> s[k] != '<',
{
    let t = kind_text(kind);
    let n = t.len() as int;
    lemma_word_chars(s, 0, t);
    assert forall|k: int| 0 <= k < n implies s[k] != '<' by {
        assert(s[0int + k] == t[k]);
    }
    match kind {
        TimestampKind::Plain => {
            assert(n == 0);
            assert(trim_end(s, 0, 0) == 0);
        },
        TimestampKind::Scheduled => {
            let word = crate::timestamp::scheduled_word();
            assert(n == 11);
            assert(t[10] == ' ' && t[9] == ':');
            assert(s[0int + 10] == t[10] && s[0int + 9] == t[9]);
            assert(trim_end(s, 0, 10) == 10);
            assert(trim_end(s, 0, 11) == 10);
            assert(word_at(t, 0, word)) by {
                assert(t.subrange(0, 10) =~= word);
            }
            lemma_word_within(s, 0, t, 0, word);
        },
        TimestampKind::Deadline => {
            let word = crate::timestamp::deadline_word();
            assert(n == 10);
            assert(t[9] == ' ' && t[8] == ':');
            assert(s[0int + 9] == t[9] && s[0int + 8] == t[8]);
            assert(trim_end(s, 0, 9) == 9);
            assert(trim_end(s, 0, 10) == 9);
            assert(word_at(t, 0, word)) by {
                assert(t.subrange(0, 9) =~= word);
            }
            lemma_word_within(s, 0, t, 0, word);
        },
        TimestampKind::Closed => {
            let word = crate::timestamp::closed_word();
            assert(n == 8);
            assert(t[7] == ' ' && t[6] == ':');
            assert(s[0int + 7] == t[7] && s[0int + 6] == t[6]);
            assert(trim_end(s, 0, 7) == 7);
            assert(trim_end(s, 0, 8) == 7);
            assert(word_at(t, 0, word)) by {
                assert(t.subrange(0, 7) =~= word);
            }
            lemma_word_within(s, 0, t, 0, word);
        },
    }
}

/// What is found in a written timestamp: its first bracket after the
/// keyword, with the end date of a range.
pub open spec fn written_directive(p: TimestampView) -> DirectiveView {
    let start = kind_text(p.kind).len() as int;
    DirectiveView {
        start,
        first: BracketView {
            date: p.date,
            time: p.time,
            end_time: p.end_time,
            repeater: p.repeater,
            deadline_warning_days: p.deadline_warning_days,
            end: start + 15 + bracket_rest_text(p).len(),
        },
        end_date: p.end_date,
    }
}

/// Four texts joined hold each of them in its place.
proof fn lemma_four_parts(a: Seq<char>, b: Seq<char>, c: Seq<char>, d: Seq<char>)
    ensures
        ({
            let s = a + b + c + d;
            &&& s.len() == a.len() + b.len() + c.len() + d.len()
            &&& word_at(s, 0, a)
            &&& word_at(s, a.len() as int, b + c)
            &&& word_at(s, (a.len() + b.len() + c.len()) as int, d)
        }),
{
    let s = a + b + c + d;
    let al = a.len() as int;
    let bl = b.len() as int;
    let cl = c.len() as int;
    let dl = d.len() as int;
    assert(s.subrange(0, al) =~= a);
    assert(s.subrange(al, al + (bl + cl)) =~= b + c);
    assert(s.subrange(al + bl + cl, al + bl + cl + dl) =~= d);
}

/// A written timestamp holds its keyword, its first bracket and its second
/// bracket each in its place.
proof fn lemma_written_words(p: TimestampView)
    ensures
        ({
            let s = timestamp_text(p);
            let kind = kind_text(p.kind);
            let body = dated_text(p.date) + bracket_rest_text(p);
            let range = range_text(p.end_date);
            &&& s.len() == kind.len() + body.len() + range.len()
            &&& word_at(s, 0, kind)
            &&& word_at(s, kind.len() as int, body)
            &&& word_at(s, (kind.len() + body.len()) as int, range)
        }),
{
    reveal(timestamp_text);
    lemma_four_parts(
        kind_text(p.kind),
        dated_text(p.date),
        bracket_rest_text(p),
        range_text(p.end_date),
    );
}

/// The first bracket of a written timestamp is found where the keyword ends.
proof fn lemma_written_first(p: TimestampView)
    requires
        is_writable(p),
    ensures
        bracket_at(timestamp_text(p), kind_text(p.kind).len() as int) == Some(
            written_directive(p).first,
        ),
        dated_text(p.date).len() == 15,
{
    lemma_written_words(p);
    lemma_bracket(timestamp_text(p), kind_text(p.kind).len() as int, p);
    lemma_padded_four(p.date.year as nat);
    lemma_padded_two(p.date.month as nat);
    lemma_padded_two(p.date.day as nat);
}

/// The search for brackets in a written timestamp finds nothing in the
/// keyword, and the keyword is read back as the kind.
proof fn lemma_written_kind(p: TimestampView)
    ensures
        ({
            let s = timestamp_text(p);
            let pre = kind_text(p.kind).len() as int;
            &&& first_range_from(s, 0) == first_range_from(s, pre)
            &&& first_single_from(s, 0) == first_single_from(s, pre)
            &&& kind_before(s, pre) == p.kind
        }),
{
    lemma_written_words(p);
    let s = timestamp_text(p);
    lemma_kind(s, p.kind);
    lemma_search_skips(s, 0, kind_text(p.kind).len() as int);
}

/// In a written range the range is found.
proof fn lemma_written_range(p: TimestampView, d: Ymd)
    requires
        is_writable(p),
        p.end_date == Some(d),
    ensures
        range_at(timestamp_text(p), kind_text(p.kind).len() as int) == Some(written_directive(p)),
{
    let s = timestamp_text(p);
    let body = dated_text(p.date) + bracket_rest_text(p);
    let range = range_text(p.end_date);
    let pre = kind_text(p.kind).len() as int;
    let end = pre + body.len();
    lemma_written_words(p);
    lemma_written_first(p);
    let closing = dated_text(d) + seq!['>'];
    assert(range =~= seq!['-', '-'] + closing);
    assert(range[0] == '-' && range[1] == '-');
    lemma_word_chars(s, end, range);
    assert(s[end + 0] == range[0] && s[end + 1] == range[1]);
    assert(word_at(range, 2, closing)) by {
        assert(range.subrange(2, 2 + closing.len() as int) =~= closing);
    }
    lemma_word_within(s, end, range, 2, closing);
    lemma_closing_bracket(s, end + 2, d);
}

/// In a written timestamp without an end date no range is found, and the
/// single bracket is.
proof fn lemma_written_single(p: TimestampView)
    requires
        is_writable(p),
        p.end_date is None,
    ensures
        first_range_from(timestamp_text(p), kind_text(p.kind).len() as int) is None,
        single_at(timestamp_text(p), kind_text(p.kind).len() as int) == Some(
            written_directive(p),
        ),
{
    let s = timestamp_text(p);
    let dated = dated_text(p.date);
    let rest = bracket_rest_text(p);
    let body = dated + rest;
    let pre = kind_text(p.kind).len() as int;
    lemma_written_words(p);
    lemma_written_first(p);
    assert(range_text(p.end_date).len() == 0);
    assert(s.len() == pre + body.len());
    assert(range_at(s, pre) is None);
    lemma_dated_one_open(p.date);
    lemma_rest_no_open(p);
    lemma_join_no_open(dated.skip(1), rest);
    assert(body.skip(1) =~= dated.skip(1) + rest);
    lemma_word_chars(s, pre, body);
    assert forall|k: int| pre + 1 <= k < s.len() implies s[k] != '<' by {
        assert(s[pre + (k - pre)] == body[k - pre]);
        assert(body[k - pre] == body.skip(1)[k - pre - 1]);
    }
    lemma_search_skips(s, pre + 1, s.len() as int);
    assert(first_range_from(s, s.len() as int) is None);
    assert(first_range_from(s, pre) == first_range_from(s, pre + 1));
}

/// Reading a written timestamp gives the timestamp back: its kind, its date,
/// its time and end time, its end date, its repeater and its warning.
pub proof fn law_read_what_was_written(p: TimestampView)
    requires
        is_writable(p),
    ensures
        timestamp_of(timestamp_text(p)) == Some(p),
{
    let s = timestamp_text(p);
    let pre = kind_text(p.kind).len() as int;
    lemma_written_words(p);
    lemma_written_first(p);
    lemma_written_kind(p);
    assert(0 <= pre < s.len());
    match p.end_date {
        Some(d) => {
            lemma_written_range(p, d);
            assert(first_range_from(s, pre) == range_at(s, pre));
        },
        None => {
            lemma_written_single(p);
            assert(first_single_from(s, pre) == single_at(s, pre));
        },
    }
    assert(timestamp_from(s, written_directive(p)) == Some(p));
}

/// What is read from a bracket can be written: the time of day has two
/// digits each, there is no end time without a time, and the interval of a
/// repeater is at least 1.
pub open spec fn bracket_is_writable(b: BracketView) -> bool {
    &&& b.time matches Some(t) ==> t.hour <= 99 && t.minute <= 99
    &&& b.end_time matches Some(t) ==> t.hour <= 99 && t.minute <= 99 && b.time is Some
    &&& b.repeater matches Some(r) ==> r.is_valid()
}

/// A time that is read has two digits each at most.
proof fn lemma_clock_read(s: Seq<char>, i: int)
    ensures
        clock_at(s, i) matches Some(found) ==> found.0.hour <= 99 && found.0.minute <= 99,
{
}

/// A bracket that is read can be written.
proof fn lemma_bracket_read(s: Seq<char>, i: int)
    ensures
        bracket_at(s, i) matches Some(b) ==> bracket_is_writable(b),
{
    let start = weekday_end(s, i + 11);
    lemma_clock_read(s, start + 1);
    match clock_at(s, start + 1) {
        Some((time, after)) => {
            lemma_clock_read(s, after + 1);
        },
        None => {},
    }
}

/// The first range that is found can be written.
proof fn lemma_range_read(s: Seq<char>, i: int)
    ensures
        first_range_from(s, i) matches Some(found) ==> bracket_is_writable(found.first),
    decreases s.len() - i,
{
    if 0 <= i < s.len() {
        lemma_bracket_read(s, i);
        if range_at(s, i) is None {
            lemma_range_read(s, i + 1);
        }
    }
}

/// The first single bracket that is found can be written.
proof fn lemma_single_read(s: Seq<char>, i: int)
    ensures
        first_single_from(s, i) matches Some(found) ==> bracket_is_writable(found.first)
            && found.end_date is None,
    decreases s.len() - i,
{
    if 0 <= i < s.len() {
        lemma_bracket_read(s, i);
        if single_at(s, i) is None {
            lemma_single_read(s, i + 1);
        }
    }
}

/// A timestamp that was read from a text can be written.
pub proof fn law_read_is_writable(s: Seq<char>)
    ensures
        timestamp_of(s) matches Some(p) ==> is_writable(p),
{
    lemma_range_read(s, 0);
    lemma_single_read(s, 0);
}

/// Reading is idempotent: a timestamp that was read from a text, written as a
/// directive and read again is the same timestamp.
pub proof fn law_read_write_read(s: Seq<char>)
    ensures
        timestamp_of(s) matches Some(p) ==> timestamp_of(timestamp_text(p)) == Some(p),
{
    law_read_is_writable(s);
    match timestamp_of(s) {
        Some(p) => {
            law_read_what_was_written(p);
        },
        None => {},
    }
}

} // verus!
