use crate::text::push_str_chars;
use crate::text::string_of;
use vstd::prelude::*;

verus! {

/// What can be wrong with what the user gave.
#[derive(Debug, Clone, PartialEq, Eq)]
pub enum AppError {
    /// The name of a time zone that is not known.
    InvalidTimezone(String),
    /// What was given for a date or for the agenda mode, and cannot be read.
    InvalidDate(String),
    /// A range of days that ends before it starts, or leaves the calendar.
    DateRange(String),
    /// A file pattern that cannot be used.
    InvalidGlob(String),
}

/// The model of an [`AppError`].
pub enum AppErrorView {
    InvalidTimezone(Seq<char>),
    InvalidDate(Seq<char>),
    DateRange(Seq<char>),
    InvalidGlob(Seq<char>),
}

impl View for AppError {
    type V = AppErrorView;

    open spec fn view(&self) -> AppErrorView {
        match self {
            AppError::InvalidTimezone(text) => AppErrorView::InvalidTimezone(text@),
            AppError::InvalidDate(text) => AppErrorView::InvalidDate(text@),
            AppError::DateRange(text) => AppErrorView::DateRange(text@),
            AppError::InvalidGlob(text) => AppErrorView::InvalidGlob(text@),
        }
    }
}

/// What is said of an error: a few words on its kind, then its text.
pub open spec fn error_message(error: AppErrorView) -> Seq<char> {
    match error {
        AppErrorView::InvalidTimezone(text) => "Invalid timezone: "@ + text,
        AppErrorView::InvalidDate(text) => "Invalid date: "@ + text,
        AppErrorView::DateRange(text) => "Invalid date range: "@ + text,
        AppErrorView::InvalidGlob(text) => "Invalid glob pattern: "@ + text,
    }
}

impl AppError {
    /// The error in words.
    pub fn message(&self) -> (r: String)
        ensures
            r@ == error_message(self@),
    {
        let mut out: Vec<char> = Vec::new();
        match self {
            AppError::InvalidTimezone(text) => {
                push_str_chars(&mut out, "Invalid timezone: ");
                push_str_chars(&mut out, text.as_str());
            },
            AppError::InvalidDate(text) => {
                push_str_chars(&mut out, "Invalid date: ");
                push_str_chars(&mut out, text.as_str());
            },
            AppError::DateRange(text) => {
                push_str_chars(&mut out, "Invalid date range: ");
                push_str_chars(&mut out, text.as_str());
            },
            AppError::InvalidGlob(text) => {
                push_str_chars(&mut out, "Invalid glob pattern: ");
                push_str_chars(&mut out, text.as_str());
            },
        }
        assert(out@ =~= error_message(self@));
        string_of(&out)
    }
}

} // verus!
