use crate::text::chars_of;
use crate::text::copy_range;
use crate::text::skip_spaces_in;
use crate::text::trim_end_in;
use crate::text::trimmed;
use vstd::prelude::*;

verus! {

/// The options of the command line.
#[derive(Debug, Clone)]
pub struct Cli {
    /// Directory to search for documents.
    pub dir: String,
    /// Pattern that a file name has to match.
    pub glob: String,
    /// Output format: `json`, `md` or `html`.
    pub format: String,
    /// File to write to; standard output if absent.
    pub output: Option<String>,
    /// Locales for weekday names, separated by commas.
    pub locale: String,
    /// Agenda mode: `day`, `week`, `month` or `tasks`.
    pub agenda: String,
    /// The day of a `day` agenda, as `YYYY-MM-DD`.
    pub date: Option<String>,
    /// First day of a range, as `YYYY-MM-DD`.
    pub from: Option<String>,
    /// Last day of a range, as `YYYY-MM-DD`.
    pub to: Option<String>,
    /// Time zone in which today is taken.
    pub tz: String,
    /// The day to take as today, as `YYYY-MM-DD`; that of the clock if
    /// absent.
    pub current_date: Option<String>,
}

/// The position of the first `,` of `s` from `i` on, or the length of `s`.
pub open spec fn comma_from(s: Seq<char>, i: int) -> int
    decreases s.len() - i,
{
    if 0 <= i < s.len() && s[i] != ',' {
        comma_from(s, i + 1)
    } else {
        i
    }
}

/// The texts between the commas of `s`, from position `i` on.
pub open spec fn fields_from(s: Seq<char>, i: int) -> Seq<Seq<char>>
    decreases s.len() - i,
{
    let comma = comma_from(s, i);
    if 0 <= i <= comma < s.len() {
        seq![s.subrange(i, comma)] + fields_from(s, comma + 1)
    } else if 0 <= i <= s.len() {
        seq![s.subrange(i, s.len() as int)]
    } else {
        Seq::empty()
    }
}

/// The Russian weekday names, full and short, each with its English name.
pub open spec fn russian_weekdays() -> Seq<(Seq<char>, Seq<char>)> {
    seq![
        ("Понедельник"@, "Monday"@),
        ("Вторник"@, "Tuesday"@),
        ("Среда"@, "Wednesday"@),
        ("Четверг"@, "Thursday"@),
        ("Пятница"@, "Friday"@),
        ("Суббота"@, "Saturday"@),
        ("Воскресенье"@, "Sunday"@),
        ("Пн"@, "Mon"@),
        ("Вт"@, "Tue"@),
        ("Ср"@, "Wed"@),
        ("Чт"@, "Thu"@),
        ("Пт"@, "Fri"@),
        ("Сб"@, "Sat"@),
        ("Вс"@, "Sun"@),
    ]
}

/// The code of the Russian locale.
pub open spec fn russian_code() -> Seq<char> {
    seq!['r', 'u']
}

/// The mappings of the locales named in `fields`, in their order: those of
/// Russian for `ru`, none for any other.
pub open spec fn mappings_of(fields: Seq<Seq<char>>) -> Seq<(Seq<char>, Seq<char>)>
    decreases fields.len(),
{
    if fields.len() == 0 {
        Seq::empty()
    } else {
        mappings_of(fields.drop_last()) + if trimmed(fields.last()) == russian_code() {
            russian_weekdays()
        } else {
            Seq::empty()
        }
    }
}

/// The texts of a list of pairs.
pub open spec fn pairs_text(pairs: Seq<(&'static str, &'static str)>) -> Seq<(Seq<char>, Seq<char>)> {
    Seq::new(pairs.len(), |i: int| (pairs[i].0@, pairs[i].1@))
}

/// Appends the Russian weekday names with their English names.
fn push_russian(mappings: &mut Vec<(&'static str, &'static str)>)
    ensures
        pairs_text(final(mappings)@) == pairs_text(old(mappings)@) + russian_weekdays(),
{
    mappings.push(("Понедельник", "Monday"));
    mappings.push(("Вторник", "Tuesday"));
    mappings.push(("Среда", "Wednesday"));
    mappings.push(("Четверг", "Thursday"));
    mappings.push(("Пятница", "Friday"));
    mappings.push(("Суббота", "Saturday"));
    mappings.push(("Воскресенье", "Sunday"));
    mappings.push(("Пн", "Mon"));
    mappings.push(("Вт", "Tue"));
    mappings.push(("Ср", "Wed"));
    mappings.push(("Чт", "Thu"));
    mappings.push(("Пт", "Fri"));
    mappings.push(("Сб", "Sat"));
    mappings.push(("Вс", "Sun"));
    assert(pairs_text(mappings@) =~= pairs_text(old(mappings)@) + russian_weekdays());
}

/// Whether the text from `start` up to `end` is `ru`, white space around it
/// aside.
fn is_russian(v: &Vec<char>, start: usize, end: usize) -> (r: bool)
    requires
        start <= end <= v.len(),
    ensures
        r == (trimmed(v@.subrange(start as int, end as int)) == russian_code()),
{
    let ghost field = v@.subrange(start as int, end as int);
    let field_chars: Vec<char> = copy_range(v, start, end);
    let a: usize = skip_spaces_in(&field_chars, 0);
    let b: usize = trim_end_in(&field_chars, a, field_chars.len());
    let ghost t = trimmed(field);
    assert(t == field_chars@.subrange(a as int, b as int));
    if b - a == 2 && field_chars[a] == 'r' && field_chars[a + 1] == 'u' {
        assert(t =~= russian_code());
        true
    } else {
        proof {
            if t.len() == 2 {
                assert(t[0] == field_chars@[a as int] && t[1] == field_chars@[a + 1]);
                assert(russian_code()[0] == 'r' && russian_code()[1] == 'u');
            }
        }
        false
    }
}

/// The weekday names to replace for the locales of `locale`, a list of locale
/// codes separated by commas: each localized name with its English name.
/// Only `ru` brings names.
pub fn get_weekday_mappings(locale: &str) -> (r: Vec<(&'static str, &'static str)>)
    ensures
        pairs_text(r@) == mappings_of(fields_from(locale@, 0)),
{
    let v: Vec<char> = chars_of(locale);
    let mut mappings: Vec<(&'static str, &'static str)> = Vec::new();
    let mut start: usize = 0;
    let ghost mut done: Seq<Seq<char>> = Seq::empty();
    assert(pairs_text(mappings@) =~= mappings_of(done));
    loop
        invariant
            start <= v.len(),
            v@ == locale@,
            pairs_text(mappings@) == mappings_of(done),
            fields_from(v@, 0) == done + fields_from(v@, start as int),
        decreases v.len() - start,
    {
        let mut comma: usize = start;
        while comma < v.len() && v[comma] != ','
            invariant
                start <= comma <= v.len(),
                comma_from(v@, start as int) == comma_from(v@, comma as int),
            decreases v.len() - comma,
        {
            comma += 1;
        }
        let ghost field = v@.subrange(start as int, comma as int);
        let ghost before = pairs_text(mappings@);
        if is_russian(&v, start, comma) {
            push_russian(&mut mappings);
        }
        proof {
            let longer = done.push(field);
            assert(longer.drop_last() =~= done);
            assert(pairs_text(mappings@) =~= mappings_of(longer));
            if comma < v.len() {
                assert(done + fields_from(v@, start as int) =~= longer + fields_from(
                    v@,
                    comma + 1,
                ));
            } else {
                assert(done + fields_from(v@, start as int) =~= longer);
            }
            done = longer;
        }
        if comma >= v.len() {
            return mappings;
        }
        start = comma + 1;
    }
}

} // verus!
