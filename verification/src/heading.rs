use crate::text::chars_of;
use crate::text::copy_range;
use crate::text::skip_spaces;
use crate::text::skip_spaces_in;
use crate::text::string_of;
use crate::timestamp::is_at;
use crate::timestamp::word_at;
use crate::types::Priority;
use crate::types::TaskType;
use crate::types::priority_of;
use vstd::prelude::*;

verus! {

/// No character of `s` from `from` on is a line feed.
pub open spec fn one_line(s: Seq<char>, from: int) -> bool {
    forall|k: int| from <= k < s.len() ==> #[trigger] s[k] != '\n'
}

/// Where the title of a heading starts, after white space that starts at
/// `first` and ends before `rest`: at `rest`, if a title without a line feed
/// is left there; at the last white space, if nothing is left, more than one
/// white space was there and the last is no line feed.
pub open spec fn title_start(s: Seq<char>, first: int, rest: int) -> Option<int> {
    if rest < s.len() {
        if one_line(s, rest) {
            Some(rest)
        } else {
            None
        }
    } else if first + 1 < rest && s[rest - 1] != '\n' {
        Some(rest - 1)
    } else {
        None
    }
}

/// The state that a heading starts with: `TODO` or `DONE`.
pub open spec fn state_word_at(s: Seq<char>) -> Option<TaskType> {
    if word_at(s, 0, seq!['T', 'O', 'D', 'O']) {
        Some(TaskType::Todo)
    } else if word_at(s, 0, seq!['D', 'O', 'N', 'E']) {
        Some(TaskType::Done)
    } else {
        None
    }
}

/// The priority written at `i` as `[#X]`, `X` an upper-case letter.
pub open spec fn priority_at(s: Seq<char>, i: int) -> Option<Priority> {
    if is_at(s, i, '[') && is_at(s, i + 1, '#') && i + 2 < s.len() && 'A' <= s[i + 2] && s[i + 2]
        <= 'Z' && is_at(s, i + 3, ']') {
        priority_of(s[i + 2])
    } else {
        None
    }
}

/// What a heading says of a task: its state, its priority, and where its
/// title starts.
pub struct HeadingParts {
    pub task_type: TaskType,
    pub priority: Option<Priority>,
    pub title: int,
}

/// The parts of a task heading: `TODO` or `DONE`, white space, then
/// optionally a priority as `[#X]` and white space, then a title of one line.
/// `None` for a heading of another form.
pub open spec fn heading_parts(s: Seq<char>) -> Option<HeadingParts> {
    let after_word = skip_spaces(s, 4);
    let after_priority = skip_spaces(s, after_word + 4);
    match state_word_at(s) {
        Some(task_type) => {
            if after_word <= 4 {
                None
            } else if priority_at(s, after_word) is Some && after_priority > after_word + 4
                && title_start(s, after_word + 4, after_priority) is Some {
                Some(
                    HeadingParts {
                        task_type,
                        priority: priority_at(s, after_word),
                        title: title_start(s, after_word + 4, after_priority)->0,
                    },
                )
            } else {
                match title_start(s, 4, after_word) {
                    Some(title) => Some(HeadingParts { task_type, priority: None, title }),
                    None => None,
                }
            }
        },
        None => None,
    }
}

/// The state, the priority and the title of a heading; for a heading that is
/// no task heading, the whole text as the title.
pub open spec fn heading_of(s: Seq<char>) -> (Option<TaskType>, Option<Priority>, Seq<char>) {
    match heading_parts(s) {
        Some(parts) => (
            Some(parts.task_type),
            parts.priority,
            s.subrange(parts.title, s.len() as int),
        ),
        None => (None, None, s),
    }
}

/// Whether no character from `from` on is a line feed.
fn is_one_line(v: &Vec<char>, from: usize) -> (r: bool)
    requires
        from <= v.len(),
    ensures
        r == one_line(v@, from as int),
{
    let mut k: usize = from;
    while k < v.len()
        invariant
            from <= k <= v.len(),
            forall|j: int| from <= j < k ==> #[trigger] v@[j] != '\n',
        decreases v.len() - k,
    {
        if v[k] == '\n' {
            return false;
        }
        k += 1;
    }
    true
}

/// Where the title of a heading starts.
fn read_title_start(v: &Vec<char>, first: usize, rest: usize) -> (r: Option<usize>)
    requires
        first <= rest <= v.len(),
    ensures
        match r {
            Some(title) => title_start(v@, first as int, rest as int) == Some(title as int)
                && title < v.len(),
            None => title_start(v@, first as int, rest as int) is None,
        },
{
    if rest < v.len() {
        if is_one_line(v, rest) {
            Some(rest)
        } else {
            None
        }
    } else if rest - first > 1 && v[rest - 1] != '\n' {
        Some(rest - 1)
    } else {
        None
    }
}

/// The state that a heading starts with.
fn read_state_word(v: &Vec<char>) -> (r: Option<TaskType>)
    ensures
        r == state_word_at(v@),
{
    let todo: Vec<char> = vec!['T', 'O', 'D', 'O'];
    let done: Vec<char> = vec!['D', 'O', 'N', 'E'];
    assert(todo@ =~= seq!['T', 'O', 'D', 'O']);
    assert(done@ =~= seq!['D', 'O', 'N', 'E']);
    if crate::timestamp::holds_word(v, 0, &todo) {
        Some(TaskType::Todo)
    } else if crate::timestamp::holds_word(v, 0, &done) {
        Some(TaskType::Done)
    } else {
        None
    }
}

/// The priority written at `i`.
fn read_priority(v: &Vec<char>, i: usize) -> (r: Option<Priority>)
    requires
        i <= v.len(),
    ensures
        r == priority_at(v@, i as int),
{
    if v.len() - i >= 4 && v[i] == '[' && v[i + 1] == '#' && 'A' <= v[i + 2] && v[i + 2] <= 'Z'
        && v[i + 3] == ']' {
        Priority::from_char(v[i + 2])
    } else {
        None
    }
}

/// The parts of a task heading, as read: state, priority, start of the title.
fn read_heading_parts(v: &Vec<char>) -> (r: Option<(TaskType, Option<Priority>, usize)>)
    ensures
        match r {
            Some(parts) => heading_parts(v@) == Some(
                HeadingParts { task_type: parts.0, priority: parts.1, title: parts.2 as int },
            ) && parts.2 < v.len(),
            None => heading_parts(v@) is None,
        },
{
    let task_type = match read_state_word(v) {
        Some(t) => t,
        None => {
            return None;
        },
    };
    assert(v.len() >= 4);
    let after_word: usize = skip_spaces_in(v, 4);
    if after_word <= 4 {
        return None;
    }
    let priority = read_priority(v, after_word);
    if priority.is_some() {
        let after_priority: usize = skip_spaces_in(v, after_word + 4);
        if after_priority > after_word + 4 {
            match read_title_start(v, after_word + 4, after_priority) {
                Some(title) => {
                    return Some((task_type, priority, title));
                },
                None => {},
            }
        }
    }
    match read_title_start(v, 4, after_word) {
        Some(title) => Some((task_type, None, title)),
        None => None,
    }
}

/// Takes a heading apart: a task heading such as `TODO [#A] Important task`
/// gives its state, its priority if it has one, and its title; any other
/// heading gives its text as the title.
pub fn parse_heading(text: &str) -> (r: (Option<TaskType>, Option<Priority>, String))
    ensures
        (r.0, r.1, r.2@) == heading_of(text@),
{
    let v: Vec<char> = chars_of(text);
    match read_heading_parts(&v) {
        Some((task_type, priority, title)) => {
            let part: Vec<char> = copy_range(&v, title, v.len());
            (Some(task_type), priority, string_of(&part))
        },
        None => (None, None, string_of(&v)),
    }
}

} // verus!
