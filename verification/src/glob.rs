use crate::error::AppError;
use crate::text::chars_of;
use crate::text::copy_range;
use crate::text::vec_equal;
use vstd::prelude::*;

verus! {

/// `std::path::Path::file_name`: the last part of a path, if the path has one
/// and it is valid text. Where the parts of a path end depends on the
/// system, so nothing is claimed of what comes back.
#[verifier::external_body]
fn file_name_of(path: &str) -> (r: Option<String>) {
    match std::path::Path::new(path).file_name() {
        Some(name) => match name.to_str() {
            Some(text) => Some(text.to_owned()),
            None => None,
        },
        None => None,
    }
}

/// The position of the last `.` of `s` before `end`, or -1.
pub open spec fn last_dot(s: Seq<char>, end: int) -> int
    decreases end,
{
    if end <= 0 || end > s.len() {
        -1
    } else if s[end - 1] == '.' {
        end - 1
    } else {
        last_dot(s, end - 1)
    }
}

/// The extension of a file name: what follows its last `.`; none without a
/// `.`, and none for a name whose only `.` is its first character.
pub open spec fn extension_of(name: Seq<char>) -> Option<Seq<char>> {
    let dot = last_dot(name, name.len() as int);
    if dot <= 0 {
        None
    } else {
        Some(name.subrange(dot + 1, name.len() as int))
    }
}

/// What a pattern asks of a file name.
pub enum GlobAnswer {
    /// Whether the name matches.
    Matches(bool),
    /// The pattern `*.` names no extension.
    EmptyExtension,
}

/// Whether a file with the name `name`, or without a name, matches `pattern`:
/// `*.ext` matches the names with the extension `ext`, any other pattern the
/// name equal to it.
pub open spec fn glob_answer(name: Option<Seq<char>>, pattern: Seq<char>) -> GlobAnswer {
    if pattern.len() >= 2 && pattern[0] == '*' && pattern[1] == '.' {
        if pattern.len() == 2 {
            GlobAnswer::EmptyExtension
        } else {
            GlobAnswer::Matches(
                match name {
                    Some(text) => extension_of(text) == Some(pattern.skip(2)),
                    None => false,
                },
            )
        }
    } else {
        GlobAnswer::Matches(name == Some(pattern))
    }
}

/// The model of the result of a match.
pub open spec fn answer_of(r: Result<bool, AppError>) -> Option<GlobAnswer> {
    match r {
        Ok(matches) => Some(GlobAnswer::Matches(matches)),
        Err(AppError::InvalidGlob(text)) => if text@ == "extension cannot be empty"@ {
            Some(GlobAnswer::EmptyExtension)
        } else {
            None
        },
        Err(_) => None,
    }
}

/// The position of the last `.` of `v`, if it has one.
fn find_last_dot(v: &Vec<char>) -> (r: Option<usize>)
    ensures
        match r {
            Some(dot) => last_dot(v@, v@.len() as int) == dot && dot < v.len(),
            None => last_dot(v@, v@.len() as int) == -1,
        },
{
    let mut end: usize = v.len();
    while end > 0
        invariant
            end <= v.len(),
            last_dot(v@, v@.len() as int) == last_dot(v@, end as int),
        decreases end,
    {
        if v[end - 1] == '.' {
            return Some(end - 1);
        }
        end -= 1;
    }
    None
}

/// Whether a file with the name `name` matches `pattern`.
pub fn name_matches_glob(name: Option<&str>, pattern: &str) -> (r: Result<bool, AppError>)
    ensures
        answer_of(r) == Some(
            glob_answer(
                match name {
                    Some(text) => Some(text@),
                    None => None,
                },
                pattern@,
            ),
        ),
{
    let p: Vec<char> = chars_of(pattern);
    if p.len() >= 2 && p[0] == '*' && p[1] == '.' {
        if p.len() == 2 {
            return Err(AppError::InvalidGlob("extension cannot be empty".to_owned()));
        }
        let wanted: Vec<char> = copy_range(&p, 2, p.len());
        assert(wanted@ =~= pattern@.skip(2));
        match name {
            Some(text) => {
                let n: Vec<char> = chars_of(text);
                match find_last_dot(&n) {
                    Some(dot) => {
                        if dot == 0 {
                            Ok(false)
                        } else {
                            let extension: Vec<char> = copy_range(&n, dot + 1, n.len());
                            Ok(vec_equal(&extension, &wanted))
                        }
                    },
                    None => Ok(false),
                }
            },
            None => Ok(false),
        }
    } else {
        match name {
            Some(text) => {
                let n: Vec<char> = chars_of(text);
                Ok(vec_equal(&n, &p))
            },
            None => Ok(false),
        }
    }
}

/// Whether the file at `path` matches `pattern`, by its name: `*.ext` matches
/// the files with the extension `ext`, any other pattern the file whose name
/// is equal to it. The pattern `*.` is an error.
pub fn matches_glob(path: &str, pattern: &str) -> (r: Result<bool, AppError>)
    ensures
        exists|name: Option<Seq<char>>| answer_of(r) == Some(#[trigger] glob_answer(name, pattern@)),
        glob_answer(None, pattern@) is EmptyExtension <==> r is Err,
{
    let name: Option<String> = file_name_of(path);
    match &name {
        Some(text) => {
            let r = name_matches_glob(Some(text.as_str()), pattern);
            assert(answer_of(r) == Some(glob_answer(Some(text@), pattern@)));
            r
        },
        None => {
            let r = name_matches_glob(None, pattern);
            assert(answer_of(r) == Some(glob_answer(None, pattern@)));
            r
        },
    }
}

} // verus!
