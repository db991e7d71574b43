use crate::text::decimal_text;
use crate::text::push_chars;
use crate::text::push_decimal;
use crate::text::push_str_chars;
use crate::text::string_of;
use crate::types::ClockEntry;
use crate::types::ClockEntryView;
use crate::types::DayAgenda;
use crate::types::DayAgendaView;
use crate::types::Priority;
use crate::types::Task;
use crate::types::TaskType;
use crate::types::TaskView;
use crate::types::TaskWithOffset;
use crate::types::TaskWithOffsetView;
use vstd::prelude::*;

verus! {

/// What stands for a character in HTML: an entity for `&`, `<`, `>`, `"` and
/// `'`, the character itself for any other.
pub open spec fn escaped_char(c: char) -> Seq<char> {
    if c == '&' {
        "&amp;"@
    } else if c == '<' {
        "&lt;"@
    } else if c == '>' {
        "&gt;"@
    } else if c == '"' {
        "&quot;"@
    } else if c == '\'' {
        "&#39;"@
    } else {
        seq![c]
    }
}

/// A text with every character escaped for HTML.
pub open spec fn escaped(s: Seq<char>) -> Seq<char>
    decreases s.len(),
{
    if s.len() == 0 {
        Seq::empty()
    } else {
        escaped(s.drop_last()) + escaped_char(s.last())
    }
}

/// Appends `s` escaped for HTML.
pub fn push_escaped(out: &mut Vec<char>, s: &str)
    ensures
        final(out)@ == old(out)@ + escaped(s@),
{
    let v: Vec<char> = crate::text::chars_of(s);
    let ghost start = out@;
    let mut i: usize = 0;
    assert(v@.subrange(0, 0) =~= Seq::<char>::empty());
    assert(out@ =~= start + escaped(v@.subrange(0, 0)));
    while i < v.len()
        invariant
            i <= v.len(),
            out@ == start + escaped(v@.subrange(0, i as int)),
        decreases v.len() - i,
    {
        let c: char = v[i];
        let ghost before = out@;
        let ghost head = v@.subrange(0, i as int);
        let ghost longer = v@.subrange(0, i + 1);
        assert(longer.drop_last() =~= head);
        assert(longer.last() == c);
        if c == '&' {
            push_str_chars(out, "&amp;");
        } else if c == '<' {
            push_str_chars(out, "&lt;");
        } else if c == '>' {
            push_str_chars(out, "&gt;");
        } else if c == '"' {
            push_str_chars(out, "&quot;");
        } else if c == '\'' {
            push_str_chars(out, "&#39;");
        } else {
            out.push(c);
            assert(out@ =~= before + seq![c]);
        }
        assert(out@ =~= start + (escaped(head) + escaped_char(c)));
        i += 1;
    }
    assert(v@.subrange(0, i as int) =~= v@);
}

/// Escapes the characters that HTML reads as markup: `&`, `<`, `>`, `"`, `'`.
pub fn html_escape(s: &str) -> (r: String)
    ensures
        r@ == escaped(s@),
{
    let mut out: Vec<char> = Vec::new();
    push_escaped(&mut out, s);
    assert(out@ =~= escaped(s@));
    string_of(&out)
}

/// The name of a completion state.
pub open spec fn type_label(t: TaskType) -> Seq<char> {
    match t {
        TaskType::Todo => "Todo"@,
        TaskType::Done => "Done"@,
    }
}

/// The name of a priority.
pub open spec fn priority_label(p: Priority) -> Seq<char> {
    match p {
        Priority::A => "A"@,
        Priority::B => "B"@,
        Priority::C => "C"@,
        Priority::Other(c) => "Other('"@ + seq![c] + "')"@,
    }
}

/// The value itself for Markdown, escaped for HTML.
pub open spec fn shown(html: bool, value: Seq<char>) -> Seq<char> {
    if html {
        escaped(value)
    } else {
        value
    }
}

/// Appends `before`, `value` as it is shown, and `after`.
fn push_part(out: &mut Vec<char>, html: bool, before: &str, value: &str, after: &str)
    ensures
        final(out)@ == old(out)@ + (before@ + shown(html, value@) + after@),
{
    push_str_chars(out, before);
    if html {
        push_escaped(out, value);
    } else {
        push_str_chars(out, value);
    }
    push_str_chars(out, after);
    assert(out@ =~= old(out)@ + (before@ + shown(html, value@) + after@));
}

/// The line on the completion state of a task, if it has one.
pub open spec fn type_line(html: bool, t: Option<TaskType>) -> Seq<char> {
    match t {
        Some(state) => if html {
            "<p><strong>Type:</strong> "@ + type_label(state) + "</p>\n"@
        } else {
            "**Type:** "@ + type_label(state) + "\n"@
        },
        None => Seq::empty(),
    }
}

/// The line on the priority of a task, if it has one.
pub open spec fn priority_line(html: bool, p: Option<Priority>) -> Seq<char> {
    match p {
        Some(priority) => if html {
            "<p><strong>Priority:</strong> "@ + priority_label(priority) + "</p>\n"@
        } else {
            "**Priority:** "@ + priority_label(priority) + "\n"@
        },
        None => Seq::empty(),
    }
}

/// Appends the line on the completion state.
fn push_type_line(out: &mut Vec<char>, html: bool, t: Option<TaskType>)
    ensures
        final(out)@ == old(out)@ + type_line(html, t),
{
    match t {
        Some(state) => {
            let ghost start = out@;
            push_str_chars(
                out,
                if html {
                    "<p><strong>Type:</strong> "
                } else {
                    "**Type:** "
                },
            );
            match state {
                TaskType::Todo => push_str_chars(out, "Todo"),
                TaskType::Done => push_str_chars(out, "Done"),
            }
            push_str_chars(
                out,
                if html {
                    "</p>\n"
                } else {
                    "\n"
                },
            );
            assert(out@ =~= start + type_line(html, t));
        },
        None => {
            assert(out@ =~= old(out)@ + Seq::<char>::empty());
        },
    }
}

/// Appends the name of a priority.
fn push_priority_label(out: &mut Vec<char>, p: Priority)
    ensures
        final(out)@ == old(out)@ + priority_label(p),
{
    match p {
        Priority::A => push_str_chars(out, "A"),
        Priority::B => push_str_chars(out, "B"),
        Priority::C => push_str_chars(out, "C"),
        Priority::Other(c) => {
            push_str_chars(out, "Other('");
            out.push(c);
            push_str_chars(out, "')");
            assert(out@ =~= old(out)@ + priority_label(p));
        },
    }
}

/// Appends the line on the priority.
fn push_priority_line(out: &mut Vec<char>, html: bool, p: Option<Priority>)
    ensures
        final(out)@ == old(out)@ + priority_line(html, p),
{
    match p {
        Some(priority) => {
            let ghost start = out@;
            push_str_chars(
                out,
                if html {
                    "<p><strong>Priority:</strong> "
                } else {
                    "**Priority:** "
                },
            );
            push_priority_label(out, priority);
            push_str_chars(
                out,
                if html {
                    "</p>\n"
                } else {
                    "\n"
                },
            );
            assert(out@ =~= start + priority_line(html, p));
        },
        None => {
            assert(out@ =~= old(out)@ + Seq::<char>::empty());
        },
    }
}

/// The line on the file of a task: its name and the line of the heading.
pub open spec fn file_line(html: bool, task: TaskView) -> Seq<char> {
    if html {
        "<p><strong>File:</strong> "@ + escaped(task.file) + ":"@ + decimal_text(task.line as nat)
            + "</p>\n"@
    } else {
        "**File:** "@ + task.file + ":"@ + decimal_text(task.line as nat) + "\n"@
    }
}

/// Appends the line on the file.
fn push_file_line(out: &mut Vec<char>, html: bool, task: &Task)
    ensures
        final(out)@ == old(out)@ + file_line(html, task@),
{
    let ghost start = out@;
    if html {
        push_part(out, true, "<p><strong>File:</strong> ", task.file.as_str(), ":");
    } else {
        push_part(out, false, "**File:** ", task.file.as_str(), ":");
    }
    push_decimal(out, task.line as u64);
    push_str_chars(
        out,
        if html {
            "</p>\n"
        } else {
            "\n"
        },
    );
    assert(out@ =~= start + file_line(html, task@));
}

/// What is shown of the content of a task: in Markdown the content between
/// empty lines, or one empty line without content; in HTML a paragraph, or
/// nothing without content.
pub open spec fn content_part(html: bool, content: Seq<char>) -> Seq<char> {
    if html {
        if content.len() > 0 {
            "<p>"@ + escaped(content) + "</p>\n"@
        } else {
            Seq::empty()
        }
    } else {
        if content.len() > 0 {
            "\n"@ + content + "\n\n"@
        } else {
            "\n"@
        }
    }
}

/// Appends the content of a task.
fn push_content(out: &mut Vec<char>, html: bool, content: &String)
    ensures
        final(out)@ == old(out)@ + content_part(html, content@),
{
    let empty: bool = content.as_str().unicode_len() == 0;
    if html {
        if !empty {
            push_part(out, true, "<p>", content.as_str(), "</p>\n");
        } else {
            assert(out@ =~= old(out)@ + Seq::<char>::empty());
        }
    } else {
        if !empty {
            push_part(out, false, "\n", content.as_str(), "\n\n");
        } else {
            push_str_chars(out, "\n");
        }
    }
}

/// The line of one clock entry: its start, then its end and its duration as
/// far as it has them, or a note that it is still running.
#[verifier::opaque]
pub open spec fn clock_line(html: bool, clock: ClockEntryView) -> Seq<char> {
    let open = if html {
        "<li>"@
    } else {
        "- "@
    };
    let close = if html {
        "</li>\n"@
    } else {
        "\n"@
    };
    open + shown(html, clock.start) + match clock.end {
        Some(end) => " → "@ + shown(html, end) + match clock.duration {
            Some(duration) => " ("@ + shown(html, duration) + ")"@,
            None => Seq::empty(),
        },
        None => " (active)"@,
    } + close
}

/// Appends the line of one clock entry.
fn push_clock_line(out: &mut Vec<char>, html: bool, clock: &ClockEntry)
    ensures
        final(out)@ == old(out)@ + clock_line(html, clock@),
{
    reveal(clock_line);
    let ghost start = out@;
    let open: &str = if html {
        "<li>"
    } else {
        "- "
    };
    let close: &str = if html {
        "</li>\n"
    } else {
        "\n"
    };
    push_part(out, html, open, clock.start.as_str(), "");
    let ghost opened = out@;
    proof {
        reveal_strlit("");
        assert(opened =~= start + (open@ + shown(html, clock.start@)));
    }
    match &clock.end {
        Some(end) => {
            push_part(out, html, " → ", end.as_str(), "");
            let ghost ended = out@;
            assert(ended =~= opened + (" → "@ + shown(html, end@)));
            match &clock.duration {
                Some(duration) => {
                    push_part(out, html, " (", duration.as_str(), ")");
                    push_str_chars(out, close);
                    assert(out@ =~= start + clock_line(html, clock@));
                },
                None => {
                    push_str_chars(out, close);
                    assert(out@ =~= start + clock_line(html, clock@));
                },
            }
        },
        None => {
            push_str_chars(out, " (active)");
            push_str_chars(out, close);
            assert(out@ =~= start + clock_line(html, clock@));
        },
    }
}

/// The lines of the clock entries, one after the other.
pub open spec fn clock_lines(html: bool, clocks: Seq<ClockEntryView>) -> Seq<char>
    decreases clocks.len(),
{
    if clocks.len() == 0 {
        Seq::empty()
    } else {
        clock_lines(html, clocks.drop_last()) + clock_line(html, clocks.last())
    }
}

/// What is shown of the clock entries of a task, if it has a list of them: a
/// title, and the line of each entry.
pub open spec fn clocks_part(html: bool, clocks: Option<Seq<ClockEntryView>>) -> Seq<char> {
    match clocks {
        Some(list) => if html {
            "<p><strong>Clock:</strong></p>\n<ul>\n"@ + clock_lines(true, list) + "</ul>\n"@
        } else {
            "\n**Clock:**\n"@ + clock_lines(false, list)
        },
        None => Seq::empty(),
    }
}

/// Appends what is shown of the clock entries of a task.
fn push_clocks(out: &mut Vec<char>, html: bool, clocks: &Option<Vec<ClockEntry>>)
    ensures
        final(out)@ == old(out)@ + clocks_part(html, clocks.deep_view()),
{
    match clocks {
        Some(list) => {
            let ghost start = out@;
            let ghost all = list.deep_view();
            push_str_chars(
                out,
                if html {
                    "<p><strong>Clock:</strong></p>\n<ul>\n"
                } else {
                    "\n**Clock:**\n"
                },
            );
            let ghost titled = out@;
            let mut i: usize = 0;
            assert(all.subrange(0, 0) =~= Seq::<ClockEntryView>::empty());
            assert(out@ =~= titled + clock_lines(html, all.subrange(0, 0)));
            while i < list.len()
                invariant
                    i <= list.len(),
                    all == list.deep_view(),
                    out@ == titled + clock_lines(html, all.subrange(0, i as int)),
                decreases list.len() - i,
            {
                let ghost head = all.subrange(0, i as int);
                let ghost longer = all.subrange(0, i + 1);
                assert(longer.drop_last() =~= head);
                assert(longer.last() == list@[i as int]@);
                push_clock_line(out, html, &list[i]);
                assert(out@ =~= titled + (clock_lines(html, head) + clock_line(
                    html,
                    list@[i as int]@,
                )));
                i += 1;
            }
            assert(all.subrange(0, i as int) =~= all);
            if html {
                push_str_chars(out, "</ul>\n");
            }
            assert(out@ =~= start + clocks_part(html, clocks.deep_view()));
        },
        None => {
            assert(out@ =~= old(out)@ + Seq::<char>::empty());
        },
    }
}

/// A title of the given level: a Markdown heading line, or an HTML heading
/// with the text escaped; `extra` follows the text as it is.
pub open spec fn title_line(html: bool, level: nat, text: Seq<char>, extra: Seq<char>) -> Seq<char> {
    if html {
        "<h"@ + decimal_text(level) + ">"@ + escaped(text) + extra + "</h"@ + decimal_text(level)
            + ">\n"@
    } else {
        hashes(level) + " "@ + text + extra + "\n"@
    }
}

/// `level` times `#`.
pub open spec fn hashes(level: nat) -> Seq<char>
    decreases level,
{
    if level == 0 {
        Seq::empty()
    } else {
        hashes((level - 1) as nat).push('#')
    }
}

/// Appends a title of the given level.
fn push_title_line(out: &mut Vec<char>, html: bool, level: u8, text: &str, extra: &Vec<char>)
    ensures
        final(out)@ == old(out)@ + title_line(html, level as nat, text@, extra@),
{
    let ghost start = out@;
    if html {
        push_str_chars(out, "<h");
        push_decimal(out, level as u64);
        push_str_chars(out, ">");
        push_escaped(out, text);
        push_chars(out, extra);
        push_str_chars(out, "</h");
        push_decimal(out, level as u64);
        push_str_chars(out, ">\n");
        assert(out@ =~= start + title_line(html, level as nat, text@, extra@));
    } else {
        let mut i: u8 = 0;
        assert(out@ =~= start + hashes(0));
        while i < level
            invariant
                i <= level,
                out@ == start + hashes(i as nat),
            decreases level - i,
        {
            out.push('#');
            i += 1;
            assert(out@ =~= start + hashes(i as nat));
        }
        push_str_chars(out, " ");
        push_str_chars(out, text);
        push_chars(out, extra);
        push_str_chars(out, "\n");
        assert(out@ =~= start + title_line(html, level as nat, text@, extra@));
    }
}

/// A line with a label and a value, if there is a value: bold label and value
/// in Markdown, a paragraph with the value escaped in HTML.
pub open spec fn labelled_line(html: bool, label: Seq<char>, value: Option<Seq<char>>) -> Seq<char> {
    match value {
        Some(v) => if html {
            "<p><strong>"@ + label + ":</strong> "@ + escaped(v) + "</p>\n"@
        } else {
            "**"@ + label + ":** "@ + v + "\n"@
        },
        None => Seq::empty(),
    }
}

/// Appends a line with a label and a value.
fn push_labelled_line(out: &mut Vec<char>, html: bool, label: &str, value: &Option<String>)
    ensures
        final(out)@ == old(out)@ + labelled_line(html, label@, value.deep_view()),
{
    let ghost start = out@;
    match value {
        Some(v) => {
            if html {
                push_str_chars(out, "<p><strong>");
                push_str_chars(out, label);
                push_str_chars(out, ":</strong> ");
                push_escaped(out, v.as_str());
                push_str_chars(out, "</p>\n");
                assert(out@ =~= start + labelled_line(html, label@, value.deep_view()));
            } else {
                push_str_chars(out, "**");
                push_str_chars(out, label);
                push_str_chars(out, ":** ");
                push_str_chars(out, v.as_str());
                push_str_chars(out, "\n");
                assert(out@ =~= start + labelled_line(html, label@, value.deep_view()));
            }
        },
        None => {
            assert(out@ =~= start + Seq::<char>::empty());
        },
    }
}

/// The lines on where a task is from and how it stands: its file, then its
/// state and its priority as far as it has them.
pub open spec fn status_lines(html: bool, task: TaskView) -> Seq<char> {
    file_line(html, task) + type_line(html, task.task_type) + priority_line(html, task.priority)
}

/// Appends the lines on the file, the state and the priority of a task.
fn push_status_lines(out: &mut Vec<char>, html: bool, task: &Task)
    ensures
        final(out)@ == old(out)@ + status_lines(html, task@),
{
    let ghost start = out@;
    push_file_line(out, html, task);
    push_type_line(out, html, task.task_type);
    push_priority_line(out, html, task.priority);
    assert(out@ =~= start + (file_line(html, task@) + type_line(html, task@.task_type)
        + priority_line(html, task@.priority)));
}

/// The lines on the stamps of a task, as far as it has them: when it was
/// created, its directive, and its total clock time.
pub open spec fn stamp_lines(html: bool, task: TaskView) -> Seq<char> {
    labelled_line(html, "Created"@, task.created) + labelled_line(html, "Time"@, task.timestamp)
        + labelled_line(html, "Total Time"@, task.total_clock_time)
}

/// Appends the lines on the stamps of a task.
fn push_stamp_lines(out: &mut Vec<char>, html: bool, task: &Task)
    ensures
        final(out)@ == old(out)@ + stamp_lines(html, task@),
{
    let ghost start = out@;
    push_labelled_line(out, html, "Created", &task.created);
    push_labelled_line(out, html, "Time", &task.timestamp);
    push_labelled_line(out, html, "Total Time", &task.total_clock_time);
    assert(out@ =~= start + (labelled_line(html, "Created"@, task@.created) + labelled_line(
        html,
        "Time"@,
        task@.timestamp,
    ) + labelled_line(html, "Total Time"@, task@.total_clock_time)));
}

/// What is shown of a task in a list of tasks: its heading as a title, its
/// file, then its state, priority, created stamp, directive and total clock
/// time as far as it has them, its clock entries and its content.
#[verifier::opaque]
pub open spec fn task_block(html: bool, task: TaskView) -> Seq<char> {
    title_line(html, 2, task.heading, Seq::empty()) + status_lines(html, task) + stamp_lines(
        html,
        task,
    ) + clocks_part(html, task.clocks) + content_part(html, task.content)
}

/// Appends what is shown of a task in a list of tasks.
fn push_task_block(out: &mut Vec<char>, html: bool, task: &Task)
    ensures
        final(out)@ == old(out)@ + task_block(html, task@),
{
    reveal(task_block);
    let ghost start = out@;
    let none: Vec<char> = Vec::new();
    push_title_line(out, html, 2, task.heading.as_str(), &none);
    let ghost a = out@;
    push_status_lines(out, html, task);
    let ghost b = out@;
    push_stamp_lines(out, html, task);
    let ghost c = out@;
    push_clocks(out, html, &task.clocks);
    let ghost d = out@;
    push_content(out, html, &task.content);
    proof {
        let t = title_line(html, 2, task@.heading, Seq::empty());
        let u = status_lines(html, task@);
        let v = stamp_lines(html, task@);
        let w = clocks_part(html, task@.clocks);
        let x = content_part(html, task@.content);
        assert(none@ =~= Seq::<char>::empty());
        assert(a == start + t);
        assert(b == a + u);
        assert(c == b + v);
        assert(d == c + w);
        assert(out@ == d + x);
        lemma_five_joined(start, t, u, v, w, x);
    }
}

/// Texts appended one after the other are appended together.
proof fn lemma_five_joined(
    start: Seq<char>,
    t: Seq<char>,
    u: Seq<char>,
    v: Seq<char>,
    w: Seq<char>,
    x: Seq<char>,
)
    ensures
        start + t + u + v + w + x == start + (t + u + v + w + x),
{
    assert(start + t + u + v + w + x =~= start + (t + u + v + w + x));
}

/// The blocks of the tasks, one after the other.
pub open spec fn task_blocks(html: bool, tasks: Seq<TaskView>) -> Seq<char>
    decreases tasks.len(),
{
    if tasks.len() == 0 {
        Seq::empty()
    } else {
        task_blocks(html, tasks.drop_last()) + task_block(html, tasks.last())
    }
}

/// Appends the blocks of the tasks.
fn push_task_blocks(out: &mut Vec<char>, html: bool, tasks: &[Task])
    ensures
        final(out)@ == old(out)@ + task_blocks(html, tasks.deep_view()),
{
    let ghost start = out@;
    let ghost all = tasks.deep_view();
    let mut i: usize = 0;
    assert(all.subrange(0, 0) =~= Seq::<TaskView>::empty());
    assert(out@ =~= start + task_blocks(html, all.subrange(0, 0)));
    while i < tasks.len()
        invariant
            i <= tasks.len(),
            all == tasks.deep_view(),
            out@ == start + task_blocks(html, all.subrange(0, i as int)),
        decreases tasks.len() - i,
    {
        let ghost head = all.subrange(0, i as int);
        let ghost longer = all.subrange(0, i + 1);
        assert(longer.drop_last() =~= head);
        assert(longer.last() == tasks@[i as int]@);
        push_task_block(out, html, &tasks[i]);
        assert(out@ =~= start + (task_blocks(html, head) + task_block(html, tasks@[i as int]@)));
        i += 1;
    }
    assert(all.subrange(0, i as int) =~= all);
}

/// A list of tasks as Markdown: the title `# Tasks`, then the block of each
/// task.
pub open spec fn markdown_of_tasks(tasks: Seq<TaskView>) -> Seq<char> {
    "# Tasks\n\n"@ + task_blocks(false, tasks)
}

/// A list of tasks as HTML: a page with the title `Tasks` and the block of
/// each task, every text escaped.
pub open spec fn html_of_tasks(tasks: Seq<TaskView>) -> Seq<char> {
    "<html><body><h1>Tasks</h1>\n"@ + task_blocks(true, tasks) + "</body></html>"@
}

/// Renders tasks as Markdown.
pub fn render_markdown(tasks: &[Task]) -> (r: String)
    ensures
        r@ == markdown_of_tasks(tasks.deep_view()),
{
    let mut out: Vec<char> = Vec::new();
    push_str_chars(&mut out, "# Tasks\n\n");
    push_task_blocks(&mut out, false, tasks);
    assert(out@ =~= markdown_of_tasks(tasks.deep_view()));
    string_of(&out)
}

/// Renders tasks as HTML.
pub fn render_html(tasks: &[Task]) -> (r: String)
    ensures
        r@ == html_of_tasks(tasks.deep_view()),
{
    let mut out: Vec<char> = Vec::new();
    push_str_chars(&mut out, "<html><body><h1>Tasks</h1>\n");
    push_task_blocks(&mut out, true, tasks);
    push_str_chars(&mut out, "</body></html>");
    assert(out@ =~= html_of_tasks(tasks.deep_view()));
    string_of(&out)
}

/// The distance of an entry in words: `in N days` for a positive distance,
/// `N days ago` else; nothing without a distance.
pub open spec fn offset_label(days_offset: Option<i64>) -> Seq<char> {
    match days_offset {
        Some(days) => if days > 0 {
            " (in "@ + decimal_text(days as nat) + " days)"@
        } else {
            " ("@ + decimal_text((-days) as nat) + " days ago)"@
        },
        None => Seq::empty(),
    }
}

/// Appends the distance of an entry in words.
fn push_offset_label(out: &mut Vec<char>, days_offset: Option<i64>)
    ensures
        final(out)@ == old(out)@ + offset_label(days_offset),
{
    match days_offset {
        Some(days) => {
            if days > 0 {
                push_str_chars(out, " (in ");
                push_decimal(out, days as u64);
                push_str_chars(out, " days)");
                assert(out@ =~= old(out)@ + offset_label(days_offset));
            } else {
                let size: u64 = if days == i64::MIN {
                    9223372036854775808
                } else {
                    (-days) as u64
                };
                push_str_chars(out, " (");
                push_decimal(out, size);
                push_str_chars(out, " days ago)");
                assert(out@ =~= old(out)@ + offset_label(days_offset));
            }
        },
        None => {
            assert(out@ =~= old(out)@ + Seq::<char>::empty());
        },
    }
}

/// What is shown of an entry of an agenda: the heading of its task with its
/// distance as a title, its file, then its state, priority and directive as
/// far as it has them, and its content.
#[verifier::opaque]
pub open spec fn entry_block(html: bool, entry: TaskWithOffsetView) -> Seq<char> {
    title_line(html, 4, entry.task.heading, offset_label(entry.days_offset)) + status_lines(
        html,
        entry.task,
    ) + labelled_line(html, "Time"@, entry.task.timestamp) + content_part(html, entry.task.content)
}

/// Appends what is shown of an entry of an agenda, as Markdown.
pub fn render_task_with_offset_md(out: &mut Vec<char>, task_with_offset: &TaskWithOffset)
    ensures
        final(out)@ == old(out)@ + entry_block(false, task_with_offset@),
{
    push_entry_block(out, false, task_with_offset);
}

/// Appends what is shown of an entry of an agenda, as HTML.
pub fn render_task_with_offset_html(out: &mut Vec<char>, task_with_offset: &TaskWithOffset)
    ensures
        final(out)@ == old(out)@ + entry_block(true, task_with_offset@),
{
    push_entry_block(out, true, task_with_offset);
}

/// Appends what is shown of an entry of an agenda.
fn push_entry_block(out: &mut Vec<char>, html: bool, entry: &TaskWithOffset)
    ensures
        final(out)@ == old(out)@ + entry_block(html, entry@),
{
    reveal(entry_block);
    let ghost start = out@;
    let task = &entry.task;
    let mut label: Vec<char> = Vec::new();
    push_offset_label(&mut label, entry.days_offset);
    assert(label@ =~= offset_label(entry.days_offset));
    push_title_line(out, html, 4, task.heading.as_str(), &label);
    let ghost a = out@;
    push_status_lines(out, html, task);
    let ghost b = out@;
    push_labelled_line(out, html, "Time", &task.timestamp);
    let ghost c = out@;
    push_content(out, html, &task.content);
    proof {
        let t = title_line(html, 4, task@.heading, offset_label(entry.days_offset));
        let u = status_lines(html, task@);
        let v = labelled_line(html, "Time"@, task@.timestamp);
        let x = content_part(html, task@.content);
        assert(a == start + t);
        assert(b == a + u);
        assert(c == b + v);
        assert(out@ == c + x);
        lemma_five_joined(start, t, u, v, x, Seq::empty());
        assert(t + u + v + x + Seq::<char>::empty() =~= t + u + v + x);
        assert(start + t + u + v + x + Seq::<char>::empty() =~= start + t + u + v + x);
    }
}

/// The blocks of the entries, one after the other.
pub open spec fn entry_blocks(html: bool, entries: Seq<TaskWithOffsetView>) -> Seq<char>
    decreases entries.len(),
{
    if entries.len() == 0 {
        Seq::empty()
    } else {
        entry_blocks(html, entries.drop_last()) + entry_block(html, entries.last())
    }
}

/// Appends the blocks of the entries.
fn push_entry_blocks(out: &mut Vec<char>, html: bool, entries: &Vec<TaskWithOffset>)
    ensures
        final(out)@ == old(out)@ + entry_blocks(html, entries.deep_view()),
{
    let ghost start = out@;
    let ghost all = entries.deep_view();
    let mut i: usize = 0;
    assert(all.subrange(0, 0) =~= Seq::<TaskWithOffsetView>::empty());
    assert(out@ =~= start + entry_blocks(html, all.subrange(0, 0)));
    while i < entries.len()
        invariant
            i <= entries.len(),
            all == entries.deep_view(),
            out@ == start + entry_blocks(html, all.subrange(0, i as int)),
        decreases entries.len() - i,
    {
        let ghost head = all.subrange(0, i as int);
        let ghost longer = all.subrange(0, i + 1);
        assert(longer.drop_last() =~= head);
        assert(longer.last() == entries@[i as int]@);
        push_entry_block(out, html, &entries[i]);
        assert(out@ =~= start + (entry_blocks(html, head) + entry_block(
            html,
            entries@[i as int]@,
        )));
        i += 1;
    }
    assert(all.subrange(0, i as int) =~= all);
}

/// A list of an agenda under a title, or under none where `with_title` is
/// not set; nothing for an empty list. In Markdown an empty line follows the
/// title and the list.
pub open spec fn titled_list(
    html: bool,
    name: Seq<char>,
    with_title: bool,
    entries: Seq<TaskWithOffsetView>,
) -> Seq<char> {
    if entries.len() == 0 {
        Seq::empty()
    } else {
        list_title(html, name, with_title) + entry_blocks(html, entries) + if html {
            Seq::empty()
        } else {
            "\n"@
        }
    }
}

/// The title of a list of an agenda; nothing where `with_title` is not set.
pub open spec fn list_title(html: bool, name: Seq<char>, with_title: bool) -> Seq<char> {
    if !with_title {
        Seq::empty()
    } else if html {
        "<h3>"@ + name + "</h3>\n"@
    } else {
        "### "@ + name + "\n\n"@
    }
}

/// Appends the title of a list of an agenda.
fn push_list_title(out: &mut Vec<char>, html: bool, name: &str, with_title: bool)
    ensures
        final(out)@ == old(out)@ + list_title(html, name@, with_title),
{
    if !with_title {
        assert(out@ =~= old(out)@ + Seq::<char>::empty());
    } else if html {
        push_str_chars(out, "<h3>");
        push_str_chars(out, name);
        push_str_chars(out, "</h3>\n");
        assert(out@ =~= old(out)@ + ("<h3>"@ + name@ + "</h3>\n"@));
    } else {
        push_str_chars(out, "### ");
        push_str_chars(out, name);
        push_str_chars(out, "\n\n");
        assert(out@ =~= old(out)@ + ("### "@ + name@ + "\n\n"@));
    }
}

/// Appends a list of an agenda under its title.
fn push_titled_list(
    out: &mut Vec<char>,
    html: bool,
    name: &str,
    with_title: bool,
    entries: &Vec<TaskWithOffset>,
)
    ensures
        final(out)@ == old(out)@ + titled_list(html, name@, with_title, entries.deep_view()),
{
    let ghost start = out@;
    assert(entries.deep_view().len() == entries.len());
    if entries.len() == 0 {
        assert(out@ =~= start + Seq::<char>::empty());
    } else {
        push_list_title(out, html, name, with_title);
        push_entry_blocks(out, html, entries);
        if !html {
            push_str_chars(out, "\n");
            assert(out@ =~= start + (list_title(html, name@, with_title) + entry_blocks(
                html,
                entries.deep_view(),
            ) + "\n"@));
        } else {
            assert(out@ =~= start + (list_title(html, name@, with_title) + entry_blocks(
                html,
                entries.deep_view(),
            ) + Seq::<char>::empty()));
        }
    }
}

/// The title of the agenda of a day: its date. In Markdown an empty line
/// follows.
pub open spec fn day_title(html: bool, date: Seq<char>) -> Seq<char> {
    if html {
        "<h2>"@ + escaped(date) + "</h2>\n"@
    } else {
        "## "@ + date + "\n\n"@
    }
}

/// What is shown of the agenda of a day: its date as a title, then the
/// overdue list, the scheduled lists under one title, timed before untimed,
/// and the upcoming list; empty lists are left out.
#[verifier::opaque]
pub open spec fn day_block(html: bool, day: DayAgendaView) -> Seq<char> {
    day_title(html, day.date) + titled_list(html, "Overdue"@, true, day.overdue) + titled_list(
        html,
        "Scheduled"@,
        true,
        day.scheduled_timed,
    ) + titled_list(html, "Scheduled"@, day.scheduled_timed.len() == 0, day.scheduled_no_time)
        + titled_list(html, "Upcoming"@, true, day.upcoming)
}

/// Appends what is shown of the agenda of a day.
fn push_day_block(out: &mut Vec<char>, html: bool, day: &DayAgenda)
    ensures
        final(out)@ == old(out)@ + day_block(html, day@),
{
    reveal(day_block);
    let ghost start = out@;
    if html {
        push_part(out, true, "<h2>", day.date.as_str(), "</h2>\n");
    } else {
        push_part(out, false, "## ", day.date.as_str(), "\n\n");
    }
    let ghost a = out@;
    push_titled_list(out, html, "Overdue", true, &day.overdue);
    let ghost b = out@;
    push_titled_list(out, html, "Scheduled", true, &day.scheduled_timed);
    let ghost c = out@;
    assert(day.scheduled_timed.deep_view().len() == day.scheduled_timed.len());
    push_titled_list(
        out,
        html,
        "Scheduled",
        day.scheduled_timed.len() == 0,
        &day.scheduled_no_time,
    );
    let ghost d = out@;
    push_titled_list(out, html, "Upcoming", true, &day.upcoming);
    proof {
        let t = day_title(html, day@.date);
        let u = titled_list(html, "Overdue"@, true, day@.overdue);
        let v = titled_list(html, "Scheduled"@, true, day@.scheduled_timed);
        let w = titled_list(
            html,
            "Scheduled"@,
            day@.scheduled_timed.len() == 0,
            day@.scheduled_no_time,
        );
        let x = titled_list(html, "Upcoming"@, true, day@.upcoming);
        assert(a == start + t);
        assert(b == a + u);
        assert(c == b + v);
        assert(d == c + w);
        assert(out@ == d + x);
        lemma_five_joined(start, t, u, v, w, x);
    }
}

/// The blocks of the days, one after the other.
pub open spec fn day_blocks(html: bool, days: Seq<DayAgendaView>) -> Seq<char>
    decreases days.len(),
{
    if days.len() == 0 {
        Seq::empty()
    } else {
        day_blocks(html, days.drop_last()) + day_block(html, days.last())
    }
}

/// Appends the blocks of the days.
fn push_day_blocks(out: &mut Vec<char>, html: bool, days: &[DayAgenda])
    ensures
        final(out)@ == old(out)@ + day_blocks(html, days.deep_view()),
{
    let ghost start = out@;
    let ghost all = days.deep_view();
    let mut i: usize = 0;
    assert(all.subrange(0, 0) =~= Seq::<DayAgendaView>::empty());
    assert(out@ =~= start + day_blocks(html, all.subrange(0, 0)));
    while i < days.len()
        invariant
            i <= days.len(),
            all == days.deep_view(),
            out@ == start + day_blocks(html, all.subrange(0, i as int)),
        decreases days.len() - i,
    {
        let ghost head = all.subrange(0, i as int);
        let ghost longer = all.subrange(0, i + 1);
        assert(longer.drop_last() =~= head);
        assert(longer.last() == days@[i as int]@);
        push_day_block(out, html, &days[i]);
        assert(out@ =~= start + (day_blocks(html, head) + day_block(html, days@[i as int]@)));
        i += 1;
    }
    assert(all.subrange(0, i as int) =~= all);
}

/// The agendas of some days as Markdown: the title `# Agenda`, then the block
/// of each day.
pub open spec fn markdown_of_days(days: Seq<DayAgendaView>) -> Seq<char> {
    "# Agenda\n\n"@ + day_blocks(false, days)
}

/// The agendas of some days as HTML: a page with the title `Agenda` and the
/// block of each day, every text escaped.
pub open spec fn html_of_days(days: Seq<DayAgendaView>) -> Seq<char> {
    "<html><body><h1>Agenda</h1>\n"@ + day_blocks(true, days) + "</body></html>"@
}

/// Renders day agendas as Markdown.
pub fn render_days_markdown(days: &[DayAgenda]) -> (r: String)
    ensures
        r@ == markdown_of_days(days.deep_view()),
{
    let mut out: Vec<char> = Vec::new();
    push_str_chars(&mut out, "# Agenda\n\n");
    push_day_blocks(&mut out, false, days);
    assert(out@ =~= markdown_of_days(days.deep_view()));
    string_of(&out)
}

/// Renders day agendas as HTML.
pub fn render_days_html(days: &[DayAgenda]) -> (r: String)
    ensures
        r@ == html_of_days(days.deep_view()),
{
    let mut out: Vec<char> = Vec::new();
    push_str_chars(&mut out, "<html><body><h1>Agenda</h1>\n");
    push_day_blocks(&mut out, true, days);
    push_str_chars(&mut out, "</body></html>");
    assert(out@ =~= html_of_days(days.deep_view()));
    string_of(&out)
}

} // verus!
