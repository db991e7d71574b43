use crate::clock::calculate_total_minutes;
use crate::clock::clocks_from;
use crate::clock::duration_text;
use crate::clock::extract_clocks;
use crate::clock::format_duration;
use crate::clock::total_minutes;
use crate::extract::created_text;
use crate::extract::directive_text;
use crate::extract::extract_created;
use crate::extract::extract_timestamp;
use crate::extract::fields_of;
use crate::extract::parse_timestamp_fields;
use crate::heading::heading_of;
use crate::heading::parse_heading;
use crate::text::chars_of;
use crate::text::copy_range;
use crate::text::push_str_chars;
use crate::text::skip_spaces_in;
use crate::text::string_of;
use crate::text::trim_end_in;
use crate::text::trimmed;
use crate::timestamp::normalize_weekdays_spec;
use crate::timestamp::timestamp_of;
use crate::types::ClockEntry;
use crate::types::ClockEntryView;
use crate::types::MAX_TASKS;
use crate::types::Priority;
use crate::types::Task;
use crate::types::TaskType;
use crate::types::TaskView;
use vstd::prelude::*;

verus! {

/// A piece of a heading or of a paragraph.
#[derive(Debug, Clone)]
pub enum Inline {
    /// Plain text.
    Text(String),
    /// An inline code span, by its text.
    Code(String),
    /// Anything else.
    Other,
}

/// The model of an [`Inline`].
pub enum InlineView {
    Text(Seq<char>),
    Code(Seq<char>),
    Other,
}

impl View for Inline {
    type V = InlineView;

    open spec fn view(&self) -> InlineView {
        match self {
            Inline::Text(text) => InlineView::Text(text@),
            Inline::Code(text) => InlineView::Code(text@),
            Inline::Other => InlineView::Other,
        }
    }
}

impl DeepView for Inline {
    type V = InlineView;

    open spec fn deep_view(&self) -> InlineView {
        self@
    }
}

/// A block of a document, as far as tasks are taken from it.
#[derive(Debug, Clone)]
pub enum Block {
    /// A heading, with the line that it stands on.
    Heading { children: Vec<Inline>, line: u32 },
    Paragraph { children: Vec<Inline> },
    /// A code block, by its text.
    CodeBlock { literal: String },
    /// Anything else.
    Other,
}

/// The model of a [`Block`].
pub enum BlockView {
    Heading { children: Seq<InlineView>, line: u32 },
    Paragraph { children: Seq<InlineView> },
    CodeBlock { literal: Seq<char> },
    Other,
}

impl View for Block {
    type V = BlockView;

    open spec fn view(&self) -> BlockView {
        match self {
            Block::Heading { children, line } => BlockView::Heading {
                children: children.deep_view(),
                line: *line,
            },
            Block::Paragraph { children } => BlockView::Paragraph {
                children: children.deep_view(),
            },
            Block::CodeBlock { literal } => BlockView::CodeBlock { literal: literal@ },
            Block::Other => BlockView::Other,
        }
    }
}

impl DeepView for Block {
    type V = BlockView;

    open spec fn deep_view(&self) -> BlockView {
        self@
    }
}

/// What is known of the task of a heading while the blocks under the heading
/// are read.
#[derive(Debug)]
pub struct HeadingInfo {
    pub heading: String,
    pub task_type: Option<TaskType>,
    pub priority: Option<Priority>,
    pub line: u32,
    pub content: String,
    pub created: Option<String>,
    pub timestamp: Option<String>,
    pub clocks: Vec<ClockEntry>,
}

/// The model of a [`HeadingInfo`].
pub struct HeadingInfoView {
    pub heading: Seq<char>,
    pub task_type: Option<TaskType>,
    pub priority: Option<Priority>,
    pub line: u32,
    pub content: Seq<char>,
    pub created: Option<Seq<char>>,
    pub timestamp: Option<Seq<char>>,
    pub clocks: Seq<ClockEntryView>,
}

impl View for HeadingInfo {
    type V = HeadingInfoView;

    open spec fn view(&self) -> HeadingInfoView {
        HeadingInfoView {
            heading: self.heading@,
            task_type: self.task_type,
            priority: self.priority,
            line: self.line,
            content: self.content@,
            created: self.created.deep_view(),
            timestamp: self.timestamp.deep_view(),
            clocks: self.clocks.deep_view(),
        }
    }
}

impl DeepView for HeadingInfo {
    type V = HeadingInfoView;

    open spec fn deep_view(&self) -> HeadingInfoView {
        self@
    }
}

/// The plain texts among `children`, joined.
pub open spec fn plain_text(children: Seq<InlineView>) -> Seq<char>
    decreases children.len(),
{
    if children.len() == 0 {
        Seq::empty()
    } else {
        plain_text(children.drop_last()) + match children.last() {
            InlineView::Text(text) => text,
            _ => Seq::empty(),
        }
    }
}

/// The clock entries of the code spans among `children`, in their order.
pub open spec fn span_clocks(children: Seq<InlineView>) -> Seq<ClockEntryView>
    decreases children.len(),
{
    if children.len() == 0 {
        Seq::empty()
    } else {
        span_clocks(children.drop_last()) + match children.last() {
            InlineView::Code(code) => clocks_from(code, 0),
            _ => Seq::empty(),
        }
    }
}

/// The created stamp of the first code span among `children` that has one.
pub open spec fn span_created(children: Seq<InlineView>, mappings: Seq<(&str, &str)>) -> Option<
    Seq<char>,
>
    decreases children.len(),
{
    if children.len() == 0 {
        None
    } else {
        match span_created(children.drop_last(), mappings) {
            Some(found) => Some(found),
            None => match children.last() {
                InlineView::Code(code) => created_text(normalize_weekdays_spec(code, mappings)),
                _ => None,
            },
        }
    }
}

/// The directive of the first code span among `children` that has one.
pub open spec fn span_directive(children: Seq<InlineView>, mappings: Seq<(&str, &str)>) -> Option<
    Seq<char>,
>
    decreases children.len(),
{
    if children.len() == 0 {
        None
    } else {
        match span_directive(children.drop_last(), mappings) {
            Some(found) => Some(found),
            None => match children.last() {
                InlineView::Code(code) => directive_text(normalize_weekdays_spec(code, mappings)),
                _ => None,
            },
        }
    }
}

/// The plain texts of a heading, joined.
pub fn extract_text(children: &Vec<Inline>) -> (r: String)
    ensures
        r@ == plain_text(children.deep_view()),
{
    let mut out: Vec<char> = Vec::new();
    let ghost all = children.deep_view();
    let mut i: usize = 0;
    assert(all.subrange(0, 0) =~= Seq::<InlineView>::empty());
    while i < children.len()
        invariant
            i <= children.len(),
            all == children.deep_view(),
            out@ == plain_text(all.subrange(0, i as int)),
        decreases children.len() - i,
    {
        let ghost head = all.subrange(0, i as int);
        let ghost longer = all.subrange(0, i + 1);
        assert(longer.drop_last() =~= head);
        assert(longer.last() == children@[i as int]@);
        match &children[i] {
            Inline::Text(text) => {
                push_str_chars(&mut out, text.as_str());
            },
            _ => {
                assert(out@ =~= out@ + Seq::<char>::empty());
            },
        }
        i += 1;
    }
    assert(all.subrange(0, i as int) =~= all);
    string_of(&out)
}

/// The plain texts of a paragraph, joined, without the white space around
/// them.
pub fn extract_paragraph_text(children: &Vec<Inline>) -> (r: String)
    ensures
        r@ == trimmed(plain_text(children.deep_view())),
{
    let text: String = extract_text(children);
    let v: Vec<char> = chars_of(text.as_str());
    let start: usize = skip_spaces_in(&v, 0);
    let end: usize = trim_end_in(&v, start, v.len());
    let part: Vec<char> = copy_range(&v, start, end);
    string_of(&part)
}

/// The created stamp and the directive of a paragraph: each from the first
/// code span that has one.
pub fn extract_timestamps_from_node(children: &Vec<Inline>, mappings: &[(&str, &str)]) -> (r: (
    Option<String>,
    Option<String>,
))
    ensures
        r.0.deep_view() == span_created(children.deep_view(), mappings@),
        r.1.deep_view() == span_directive(children.deep_view(), mappings@),
{
    let mut created: Option<String> = None;
    let mut timestamp: Option<String> = None;
    let ghost all = children.deep_view();
    let mut i: usize = 0;
    assert(all.subrange(0, 0) =~= Seq::<InlineView>::empty());
    while i < children.len()
        invariant
            i <= children.len(),
            all == children.deep_view(),
            created.deep_view() == span_created(all.subrange(0, i as int), mappings@),
            timestamp.deep_view() == span_directive(all.subrange(0, i as int), mappings@),
        decreases children.len() - i,
    {
        let ghost head = all.subrange(0, i as int);
        let ghost longer = all.subrange(0, i + 1);
        assert(longer.drop_last() =~= head);
        assert(longer.last() == children@[i as int]@);
        match &children[i] {
            Inline::Code(code) => {
                if created.is_none() {
                    created = extract_created(code.as_str(), mappings);
                }
                if timestamp.is_none() {
                    timestamp = extract_timestamp(code.as_str(), mappings);
                }
            },
            _ => {},
        }
        i += 1;
    }
    assert(all.subrange(0, i as int) =~= all);
    (created, timestamp)
}

/// The clock entries of the code spans of a paragraph.
fn paragraph_clocks(children: &Vec<Inline>) -> (r: Vec<ClockEntry>)
    ensures
        r.deep_view() == span_clocks(children.deep_view()),
{
    let mut clocks: Vec<ClockEntry> = Vec::new();
    let ghost all = children.deep_view();
    let mut i: usize = 0;
    assert(all.subrange(0, 0) =~= Seq::<InlineView>::empty());
    assert(clocks.deep_view() =~= Seq::<ClockEntryView>::empty());
    while i < children.len()
        invariant
            i <= children.len(),
            all == children.deep_view(),
            clocks.deep_view() == span_clocks(all.subrange(0, i as int)),
        decreases children.len() - i,
    {
        let ghost head = all.subrange(0, i as int);
        let ghost longer = all.subrange(0, i + 1);
        assert(longer.drop_last() =~= head);
        assert(longer.last() == children@[i as int]@);
        match &children[i] {
            Inline::Code(code) => {
                let found: Vec<ClockEntry> = extract_clocks(code.as_str());
                append_clocks(&mut clocks, found);
            },
            _ => {
                assert(clocks.deep_view() =~= clocks.deep_view() + Seq::<ClockEntryView>::empty());
            },
        }
        i += 1;
    }
    assert(all.subrange(0, i as int) =~= all);
    clocks
}

/// Appends the entries of `more` to `clocks`.
fn append_clocks(clocks: &mut Vec<ClockEntry>, more: Vec<ClockEntry>)
    ensures
        final(clocks).deep_view() == old(clocks).deep_view() + more.deep_view(),
{
    let ghost start = clocks.deep_view();
    let mut more = more;
    let ghost added = more.deep_view();
    clocks.append(&mut more);
    assert(clocks.deep_view() =~= start + added);
}

/// `s` without the backticks at its start and at its end.
pub open spec fn without_ticks(s: Seq<char>) -> Seq<char> {
    let start = ticks_end(s, 0);
    s.subrange(start, ticks_start(s, start, s.len() as int))
}

/// The first position from `i` on that holds no backtick, or the length of
/// `s`.
pub open spec fn ticks_end(s: Seq<char>, i: int) -> int
    decreases s.len() - i,
{
    if 0 <= i < s.len() && s[i] == '`' {
        ticks_end(s, i + 1)
    } else {
        i
    }
}

/// The end of `s` without the backticks before `end`, not below `start`.
pub open spec fn ticks_start(s: Seq<char>, start: int, end: int) -> int
    decreases end - start,
{
    if start < end <= s.len() && s[end - 1] == '`' {
        ticks_start(s, start, end - 1)
    } else {
        end
    }
}

/// The text of a code block as it is read: without the white space around
/// it, then without the backticks around what is left.
pub open spec fn code_text(literal: Seq<char>) -> Seq<char> {
    without_ticks(trimmed(literal))
}

/// The text of a code block as it is read.
fn read_code_text(literal: &str) -> (r: Vec<char>)
    ensures
        r@ == code_text(literal@),
{
    let v: Vec<char> = chars_of(literal);
    let a: usize = skip_spaces_in(&v, 0);
    let b: usize = trim_end_in(&v, a, v.len());
    let t: Vec<char> = copy_range(&v, a, b);
    let mut start: usize = 0;
    while start < t.len() && t[start] == '`'
        invariant
            start <= t.len(),
            ticks_end(t@, 0) == ticks_end(t@, start as int),
        decreases t.len() - start,
    {
        start += 1;
    }
    let mut end: usize = t.len();
    while start < end && t[end - 1] == '`'
        invariant
            start <= end <= t.len(),
            ticks_start(t@, start as int, t@.len() as int) == ticks_start(
                t@,
                start as int,
                end as int,
            ),
        decreases end,
    {
        end -= 1;
    }
    copy_range(&t, start, end)
}

/// The newer of two optional texts: `new` if there is one, else `old`.
pub open spec fn newer(old: Option<Seq<char>>, new: Option<Seq<char>>) -> Option<Seq<char>> {
    match new {
        Some(text) => Some(text),
        None => old,
    }
}

/// What is known of a task after a paragraph under its heading: the created
/// stamp and the directive of the paragraph replace earlier ones, its clock
/// entries are added, and its text is the content if there was none.
pub open spec fn after_paragraph(
    info: HeadingInfoView,
    children: Seq<InlineView>,
    mappings: Seq<(&str, &str)>,
) -> HeadingInfoView {
    let content = trimmed(plain_text(children));
    HeadingInfoView {
        created: newer(info.created, span_created(children, mappings)),
        timestamp: newer(info.timestamp, span_directive(children, mappings)),
        content: if content.len() > 0 && info.content.len() == 0 {
            content
        } else {
            info.content
        },
        clocks: info.clocks + span_clocks(children),
        ..info
    }
}

/// What is known of a task after a code block under its heading: the created
/// stamp and the directive of the block replace earlier ones, and its clock
/// entries are added.
pub open spec fn after_code_block(
    info: HeadingInfoView,
    literal: Seq<char>,
    mappings: Seq<(&str, &str)>,
) -> HeadingInfoView {
    let text = code_text(literal);
    HeadingInfoView {
        created: newer(info.created, created_text(normalize_weekdays_spec(text, mappings))),
        timestamp: newer(info.timestamp, directive_text(normalize_weekdays_spec(text, mappings))),
        clocks: info.clocks + clocks_from(text, 0),
        ..info
    }
}

/// What is known of a task right after its heading.
pub open spec fn new_heading(children: Seq<InlineView>, line: u32) -> HeadingInfoView {
    let parts = heading_of(plain_text(children));
    HeadingInfoView {
        heading: parts.2,
        task_type: parts.0,
        priority: parts.1,
        line,
        content: Seq::empty(),
        created: None,
        timestamp: None,
        clocks: Seq::empty(),
    }
}

/// The task of a heading, if the heading has a state, a created stamp or a
/// directive: with what its directive says, its clock entries if it has any,
/// and their total time.
pub open spec fn finished_task(path: Seq<char>, info: HeadingInfoView) -> Option<TaskView> {
    if info.task_type is None && info.created is None && info.timestamp is None {
        None
    } else {
        let fields = match info.timestamp {
            Some(text) => fields_of(timestamp_of(text)),
            None => fields_of(None),
        };
        Some(
            TaskView {
                file: path,
                line: info.line,
                heading: info.heading,
                content: info.content,
                task_type: info.task_type,
                priority: info.priority,
                created: info.created,
                timestamp: info.timestamp,
                timestamp_type: fields.kind,
                timestamp_date: fields.date,
                timestamp_time: fields.time,
                timestamp_end_time: fields.end_time,
                clocks: if info.clocks.len() > 0 {
                    Some(info.clocks)
                } else {
                    None
                },
                total_clock_time: if info.clocks.len() > 0 {
                    match total_minutes(info.clocks) {
                        Some(minutes) => Some(duration_text(minutes)),
                        None => None,
                    }
                } else {
                    None
                },
            },
        )
    }
}

/// Makes the task of a heading, if the heading has a state, a created stamp
/// or a directive.
pub fn finalize_task(path: &str, info: HeadingInfo) -> (r: Option<Task>)
    ensures
        r.deep_view() == finished_task(path@, info@),
{
    if info.task_type.is_none() && info.created.is_none() && info.timestamp.is_none() {
        return None;
    }
    let ghost model = info@;
    let none: Vec<(&str, &str)> = Vec::new();
    let (ts_type, ts_date, ts_time, ts_end_time) = match &info.timestamp {
        Some(ts) => {
            proof {
                assert(none@ =~= Seq::<(&str, &str)>::empty());
            }
            parse_timestamp_fields(ts.as_str(), none.as_slice())
        },
        None => (None, None, None, None),
    };
    assert(info.clocks.deep_view().len() == info.clocks.len());
    let total_time: Option<String> = if info.clocks.len() > 0 {
        match calculate_total_minutes(info.clocks.as_slice()) {
            Some(minutes) => Some(format_duration(minutes)),
            None => None,
        }
    } else {
        None
    };
    let has_clocks: bool = info.clocks.len() > 0;
    let clocks: Option<Vec<ClockEntry>> = if has_clocks {
        Some(info.clocks)
    } else {
        None
    };
    Some(
        Task {
            file: path.to_owned(),
            line: info.line,
            heading: info.heading,
            content: info.content,
            task_type: info.task_type,
            priority: info.priority,
            created: info.created,
            timestamp: info.timestamp,
            timestamp_type: ts_type,
            timestamp_date: ts_date,
            timestamp_time: ts_time,
            timestamp_end_time: ts_end_time,
            clocks,
            total_clock_time: total_time,
        },
    )
}

/// Where the reading of a document stands: the tasks made so far, and the
/// heading that is being read.
pub struct Progress {
    pub tasks: Seq<TaskView>,
    pub current: Option<HeadingInfoView>,
}

/// The tasks made so far with that of the heading being read, if it gives one.
pub open spec fn flushed(path: Seq<char>, progress: Progress) -> Seq<TaskView> {
    match progress.current {
        Some(info) => match finished_task(path, info) {
            Some(task) => progress.tasks.push(task),
            None => progress.tasks,
        },
        None => progress.tasks,
    }
}

/// Where the reading stands after one more block: a heading closes the
/// heading before it and starts a new one; a paragraph and a code block add
/// to the heading being read, if there is one; any other block changes
/// nothing.
pub open spec fn after_block(
    path: Seq<char>,
    progress: Progress,
    block: BlockView,
    mappings: Seq<(&str, &str)>,
) -> Progress {
    match block {
        BlockView::Heading { children, line } => Progress {
            tasks: flushed(path, progress),
            current: Some(new_heading(children, line)),
        },
        BlockView::Paragraph { children } => match progress.current {
            Some(info) => Progress {
                current: Some(after_paragraph(info, children, mappings)),
                ..progress
            },
            None => progress,
        },
        BlockView::CodeBlock { literal } => match progress.current {
            Some(info) => Progress {
                current: Some(after_code_block(info, literal, mappings)),
                ..progress
            },
            None => progress,
        },
        BlockView::Other => progress,
    }
}

/// A copy of the newer of two optional texts.
fn take_newer(old: Option<String>, new: Option<String>) -> (r: Option<String>)
    ensures
        r.deep_view() == newer(old.deep_view(), new.deep_view()),
{
    match new {
        Some(text) => Some(text),
        None => old,
    }
}

/// Adds what a paragraph says to the heading being read.
fn add_paragraph(info: HeadingInfo, children: &Vec<Inline>, mappings: &[(&str, &str)]) -> (r:
    HeadingInfo)
    ensures
        r@ == after_paragraph(info@, children.deep_view(), mappings@),
{
    let (created, timestamp) = extract_timestamps_from_node(children, mappings);
    let content: String = extract_paragraph_text(children);
    let found: Vec<ClockEntry> = paragraph_clocks(children);
    let mut clocks = info.clocks;
    append_clocks(&mut clocks, found);
    let keep: bool = content.as_str().unicode_len() > 0 && info.content.as_str().unicode_len()
        == 0;
    HeadingInfo {
        heading: info.heading,
        task_type: info.task_type,
        priority: info.priority,
        line: info.line,
        content: if keep {
            content
        } else {
            info.content
        },
        created: take_newer(info.created, created),
        timestamp: take_newer(info.timestamp, timestamp),
        clocks,
    }
}

/// Adds what a code block says to the heading being read.
fn add_code_block(info: HeadingInfo, literal: &str, mappings: &[(&str, &str)]) -> (r: HeadingInfo)
    ensures
        r@ == after_code_block(info@, literal@, mappings@),
{
    let text_chars: Vec<char> = read_code_text(literal);
    let text: String = string_of(&text_chars);
    let created = extract_created(text.as_str(), mappings);
    let timestamp = extract_timestamp(text.as_str(), mappings);
    let found: Vec<ClockEntry> = extract_clocks(text.as_str());
    let mut clocks = info.clocks;
    append_clocks(&mut clocks, found);
    HeadingInfo {
        heading: info.heading,
        task_type: info.task_type,
        priority: info.priority,
        line: info.line,
        content: info.content,
        created: take_newer(info.created, created),
        timestamp: take_newer(info.timestamp, timestamp),
        clocks,
    }
}

/// The model of where the reading stands.
pub open spec fn progress_of(tasks: Vec<Task>, current: Option<HeadingInfo>) -> Progress {
    Progress { tasks: tasks.deep_view(), current: current.deep_view() }
}

/// Closes the heading being read: its task, if it gives one, joins the tasks.
fn flush_heading(path: &str, tasks: &mut Vec<Task>, current: Option<HeadingInfo>)
    ensures
        final(tasks).deep_view() == flushed(path@, progress_of(*old(tasks), current)),
{
    let ghost before = tasks.deep_view();
    match current {
        Some(info) => match finalize_task(path, info) {
            Some(task) => {
                let ghost added = task@;
                tasks.push(task);
                assert(tasks.deep_view() =~= before.push(added));
            },
            None => {},
        },
        None => {},
    }
}

/// Reads one block of a document: a heading closes the heading before it and
/// starts a new one; a paragraph and a code block add to the heading being
/// read.
pub fn process_node(
    block: &Block,
    path: &str,
    tasks: &mut Vec<Task>,
    current_heading: &mut Option<HeadingInfo>,
    mappings: &[(&str, &str)],
)
    ensures
        progress_of(*final(tasks), *final(current_heading)) == after_block(
            path@,
            progress_of(*old(tasks), *old(current_heading)),
            block@,
            mappings@,
        ),
{
    let mut taken: Option<HeadingInfo> = None;
    std::mem::swap(current_heading, &mut taken);
    match block {
        Block::Heading { children, line } => {
            flush_heading(path, tasks, taken);
            let text: String = extract_text(children);
            let (task_type, priority, heading) = parse_heading(text.as_str());
            let info = HeadingInfo {
                heading,
                task_type,
                priority,
                line: *line,
                content: String::new(),
                created: None,
                timestamp: None,
                clocks: Vec::new(),
            };
            assert(info.clocks.deep_view() =~= Seq::<ClockEntryView>::empty());
            *current_heading = Some(info);
        },
        Block::Paragraph { children } => {
            match taken {
                Some(info) => {
                    *current_heading = Some(add_paragraph(info, children, mappings));
                },
                None => {},
            }
        },
        Block::CodeBlock { literal } => {
            match taken {
                Some(info) => {
                    *current_heading = Some(add_code_block(info, literal.as_str(), mappings));
                },
                None => {},
            }
        },
        Block::Other => {
            *current_heading = taken;
        },
    }
}

/// Where the reading stands after the first `count` blocks. Once the tasks
/// are `MAX_TASKS` or more, no further block is read.
pub open spec fn after_blocks(
    path: Seq<char>,
    blocks: Seq<BlockView>,
    count: nat,
    mappings: Seq<(&str, &str)>,
) -> Progress
    decreases count,
{
    if count == 0 || count > blocks.len() {
        Progress { tasks: Seq::empty(), current: None }
    } else {
        let before = after_blocks(path, blocks, (count - 1) as nat, mappings);
        if before.tasks.len() >= MAX_TASKS {
            before
        } else {
            after_block(path, before, blocks[count - 1], mappings)
        }
    }
}

/// The tasks of a document: those of its headings, in their order.
pub open spec fn tasks_of(path: Seq<char>, blocks: Seq<BlockView>, mappings: Seq<(&str, &str)>)
    -> Seq<TaskView> {
    flushed(path, after_blocks(path, blocks, blocks.len(), mappings))
}

/// Takes the tasks from the blocks of a document. Every heading with a state,
/// a created stamp or a directive gives a task; the paragraphs and code
/// blocks under the heading give its content, its stamps and its clock
/// entries. Reading stops once `MAX_TASKS` tasks were made.
pub fn extract_tasks(path: &str, blocks: &Vec<Block>, mappings: &[(&str, &str)]) -> (r: Vec<Task>)
    ensures
        r.deep_view() == tasks_of(path@, blocks.deep_view(), mappings@),
{
    let mut tasks: Vec<Task> = Vec::new();
    let mut current_heading: Option<HeadingInfo> = None;
    let ghost all = blocks.deep_view();
    let mut i: usize = 0;
    assert(tasks.deep_view() =~= Seq::<TaskView>::empty());
    while i < blocks.len() && tasks.len() < MAX_TASKS
        invariant
            i <= blocks.len(),
            all == blocks.deep_view(),
            all.len() == blocks.len(),
            tasks.deep_view().len() == tasks.len(),
            progress_of(tasks, current_heading) == after_blocks(path@, all, i as nat, mappings@),
            forall|k: nat|
                i <= k <= all.len() && tasks.len() >= MAX_TASKS ==> #[trigger] after_blocks(
                    path@,
                    all,
                    k,
                    mappings@,
                ) == after_blocks(path@, all, i as nat, mappings@),
        decreases blocks.len() - i,
    {
        process_node(&blocks[i], path, &mut tasks, &mut current_heading, mappings);
        i += 1;
        proof {
            assert(tasks.deep_view().len() == tasks.len());
            if tasks.len() >= MAX_TASKS {
                lemma_reading_stops(path@, all, i as nat, mappings@);
            }
        }
    }
    assert(tasks.deep_view().len() == tasks.len());
    assert(progress_of(tasks, current_heading) == after_blocks(
        path@,
        all,
        all.len(),
        mappings@,
    ));
    let mut taken: Option<HeadingInfo> = None;
    std::mem::swap(&mut current_heading, &mut taken);
    flush_heading(path, &mut tasks, taken);
    tasks
}

/// Once the tasks are `MAX_TASKS` or more, further blocks change nothing.
proof fn lemma_reading_stops(
    path: Seq<char>,
    blocks: Seq<BlockView>,
    count: nat,
    mappings: Seq<(&str, &str)>,
)
    requires
        count <= blocks.len(),
        after_blocks(path, blocks, count, mappings).tasks.len() >= MAX_TASKS,
    ensures
        forall|k: nat|
            count <= k <= blocks.len() ==> #[trigger] after_blocks(path, blocks, k, mappings)
                == after_blocks(path, blocks, count, mappings),
{
    assert forall|k: nat| count <= k <= blocks.len() implies #[trigger] after_blocks(
        path,
        blocks,
        k,
        mappings,
    ) == after_blocks(path, blocks, count, mappings) by {
        lemma_reading_stopped(path, blocks, count, k, mappings);
    }
}

/// Once the tasks are `MAX_TASKS` or more, the block with the number `later`
/// changes nothing.
proof fn lemma_reading_stopped(
    path: Seq<char>,
    blocks: Seq<BlockView>,
    count: nat,
    later: nat,
    mappings: Seq<(&str, &str)>,
)
    requires
        count <= later <= blocks.len(),
        after_blocks(path, blocks, count, mappings).tasks.len() >= MAX_TASKS,
    ensures
        after_blocks(path, blocks, later, mappings) == after_blocks(path, blocks, count, mappings),
    decreases later - count,
{
    if count < later {
        lemma_reading_stopped(path, blocks, count, (later - 1) as nat, mappings);
    }
}

} // verus!
