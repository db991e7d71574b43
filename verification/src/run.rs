use crate::dispatch::AgendaOutput;
use crate::dispatch::AgendaOutputView;
use crate::render::html_of_days;
use crate::render::html_of_tasks;
use crate::render::markdown_of_days;
use crate::render::markdown_of_tasks;
use crate::render::render_days_html;
use crate::render::render_days_markdown;
use crate::render::render_html;
use crate::render::render_markdown;
use crate::text::str_equal;
use crate::types::ProcessingStats;
use crate::types::MAX_FILE_SIZE;
use vstd::prelude::*;

verus! {

/// What became of one file that a run looked at.
#[derive(Debug, Clone, Copy, PartialEq, Eq)]
pub enum FileOutcome {
    /// Nothing in the file looks like a task: it is passed over in silence.
    Skipped,
    /// The file is larger than `MAX_FILE_SIZE`.
    TooLarge,
    /// The size or the content of the file could not be read.
    Unreadable,
    /// The search for task markers failed.
    SearchFailed,
    /// The tasks of the file were taken.
    Processed,
}

/// What the size of a file decides: a file whose size cannot be had is
/// unreadable, one larger than `MAX_FILE_SIZE` is too large, and any other is
/// looked into (`None`).
pub open spec fn measured(size: Option<u64>) -> Option<FileOutcome> {
    match size {
        Some(bytes) => if bytes > MAX_FILE_SIZE {
            Some(FileOutcome::TooLarge)
        } else {
            None
        },
        None => Some(FileOutcome::Unreadable),
    }
}

/// What the search for task markers decides: a search that failed ends the
/// file, one that found nothing skips it, and one that found a marker has the
/// file read (`None`).
pub open spec fn searched(found: Option<bool>) -> Option<FileOutcome> {
    match found {
        Some(true) => None,
        Some(false) => Some(FileOutcome::Skipped),
        None => Some(FileOutcome::SearchFailed),
    }
}

/// Decides on a file by its size in bytes, `None` where the size could not be
/// had. `None` comes back for a file to look into.
pub fn after_measure(size: Option<u64>) -> (r: Option<FileOutcome>)
    ensures
        r == measured(size),
{
    match size {
        Some(bytes) => if bytes > MAX_FILE_SIZE {
            Some(FileOutcome::TooLarge)
        } else {
            None
        },
        None => Some(FileOutcome::Unreadable),
    }
}

/// Decides on a file by what the search for task markers found, `None` where
/// the search failed. `None` comes back for a file to read.
pub fn after_search(found: Option<bool>) -> (r: Option<FileOutcome>)
    ensures
        r == searched(found),
{
    match found {
        Some(true) => None,
        Some(false) => Some(FileOutcome::Skipped),
        None => Some(FileOutcome::SearchFailed),
    }
}

/// Decides on a file by whether its content could be read.
pub fn after_read(read: bool) -> (r: FileOutcome)
    ensures
        r == if read {
            FileOutcome::Processed
        } else {
            FileOutcome::Unreadable
        },
{
    if read {
        FileOutcome::Processed
    } else {
        FileOutcome::Unreadable
    }
}

/// A count after one more: it stays at the largest number that it can hold.
pub open spec fn one_more(count: usize) -> usize {
    if count < usize::MAX {
        (count + 1) as usize
    } else {
        count
    }
}

/// The counts of a run after one more file with the given outcome.
pub open spec fn recorded(stats: ProcessingStats, outcome: FileOutcome) -> ProcessingStats {
    match outcome {
        FileOutcome::Skipped => stats,
        FileOutcome::TooLarge => ProcessingStats {
            files_skipped_size: one_more(stats.files_skipped_size),
            ..stats
        },
        FileOutcome::Unreadable => ProcessingStats {
            files_failed_read: one_more(stats.files_failed_read),
            ..stats
        },
        FileOutcome::SearchFailed => ProcessingStats {
            files_failed_search: one_more(stats.files_failed_search),
            ..stats
        },
        FileOutcome::Processed => ProcessingStats {
            files_processed: one_more(stats.files_processed),
            ..stats
        },
    }
}

/// Counts one more file with the given outcome.
pub fn record(stats: &mut ProcessingStats, outcome: FileOutcome)
    ensures
        *final(stats) == recorded(*old(stats), outcome),
{
    match outcome {
        FileOutcome::Skipped => {},
        FileOutcome::TooLarge => {
            stats.files_skipped_size = stats.files_skipped_size.saturating_add(1);
        },
        FileOutcome::Unreadable => {
            stats.files_failed_read = stats.files_failed_read.saturating_add(1);
        },
        FileOutcome::SearchFailed => {
            stats.files_failed_search = stats.files_failed_search.saturating_add(1);
        },
        FileOutcome::Processed => {
            stats.files_processed = stats.files_processed.saturating_add(1);
        },
    }
}

/// An agenda as text in the named format: Markdown for `md`, HTML for
/// `html`; any other format has no text of this library's making.
pub open spec fn output_text(format: Seq<char>, output: AgendaOutputView) -> Option<Seq<char>> {
    if format == "md"@ {
        Some(
            match output {
                AgendaOutputView::Days(days) => markdown_of_days(days),
                AgendaOutputView::Tasks(tasks) => markdown_of_tasks(tasks),
            },
        )
    } else if format == "html"@ {
        Some(
            match output {
                AgendaOutputView::Days(days) => html_of_days(days),
                AgendaOutputView::Tasks(tasks) => html_of_tasks(tasks),
            },
        )
    } else {
        None
    }
}

/// Renders an agenda in the named format, `md` or `html`; `None` for any
/// other format.
pub fn render_output(format: &str, output: &AgendaOutput) -> (r: Option<String>)
    ensures
        match r {
            Some(text) => output_text(format@, output@) == Some(text@),
            None => output_text(format@, output@) is None,
        },
{
    if str_equal(format, "md") {
        Some(
            match output {
                AgendaOutput::Days(days) => render_days_markdown(days.as_slice()),
                AgendaOutput::Tasks(tasks) => render_markdown(tasks.as_slice()),
            },
        )
    } else if str_equal(format, "html") {
        Some(
            match output {
                AgendaOutput::Days(days) => render_days_html(days.as_slice()),
                AgendaOutput::Tasks(tasks) => render_html(tasks.as_slice()),
            },
        )
    } else {
        None
    }
}

} // verus!
