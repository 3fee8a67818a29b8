//! Rows for the conversation and the lists beside it.
use crate::labels::{activity_title, elapsed_duration_label, elapsed_label, row_title};
use crate::markdown::{
    lines_height, screen, wrapped_line_count, wrapped_lines, MarkdownBlock, MarkdownBlockView,
};
use crate::markdown_blocks::{blocks_of_item, markdown_blocks};
use crate::model::{ConversationItem, ConversationItemView, ItemKind};
use crate::text::{blank, cat, is_blank, same_text};
use vstd::prelude::*;
use vstd::string::*;

verus! {

/// A row of the conversation. Heights and offsets are in pixels.
#[derive(Debug, PartialEq, Eq)]
pub struct MessageRow {
    pub id: String,
    pub kind: String,
    pub title: String,
    pub body: String,
    pub markdown_blocks: Vec<MarkdownBlock>,
    pub status: String,
    pub user: bool,
    pub activity: bool,
    pub collapsed: bool,
    pub response_summary: bool,
    pub response_id: String,
    pub duration_label: String,
    pub row_height: u64,
    pub scroll_offset: u64,
}

/// What a [`MessageRow`] holds.
pub struct MessageRowView {
    pub id: Seq<char>,
    pub kind: Seq<char>,
    pub title: Seq<char>,
    pub body: Seq<char>,
    pub markdown_blocks: Seq<MarkdownBlockView>,
    pub status: Seq<char>,
    pub user: bool,
    pub activity: bool,
    pub collapsed: bool,
    pub response_summary: bool,
    pub response_id: Seq<char>,
    pub duration_label: Seq<char>,
    pub row_height: u64,
    pub scroll_offset: u64,
}

impl DeepView for MessageRow {
    type V = MessageRowView;

    open spec fn deep_view(&self) -> MessageRowView {
        MessageRowView {
            id: self.id.deep_view(),
            kind: self.kind.deep_view(),
            title: self.title.deep_view(),
            body: self.body.deep_view(),
            markdown_blocks: self.markdown_blocks.deep_view(),
            status: self.status.deep_view(),
            user: self.user.deep_view(),
            activity: self.activity.deep_view(),
            collapsed: self.collapsed.deep_view(),
            response_summary: self.response_summary.deep_view(),
            response_id: self.response_id.deep_view(),
            duration_label: self.duration_label.deep_view(),
            row_height: self.row_height.deep_view(),
            scroll_offset: self.scroll_offset.deep_view(),
        }
    }
}

impl Clone for MessageRow {
    fn clone(&self) -> (r: Self)
        ensures
            r.deep_view() == self.deep_view(),
    {
        let r = MessageRow {
            id: self.id.clone(),
            kind: self.kind.clone(),
            title: self.title.clone(),
            body: self.body.clone(),
            markdown_blocks: self.markdown_blocks.clone(),
            status: self.status.clone(),
            user: self.user,
            activity: self.activity,
            collapsed: self.collapsed,
            response_summary: self.response_summary,
            response_id: self.response_id.clone(),
            duration_label: self.duration_label.clone(),
            row_height: self.row_height,
            scroll_offset: self.scroll_offset,
        };
        assert(r.markdown_blocks.deep_view() =~= self.markdown_blocks.deep_view());
        r
    }
}

/// A thread in the sidebar.
#[derive(Debug, PartialEq, Eq)]
pub struct ThreadRow {
    pub id: String,
    pub project_id: String,
    pub title: String,
    pub subtitle: String,
    pub age_label: String,
    pub active: bool,
    pub busy: bool,
    pub completed_unread: bool,
    pub project_index: u64,
}

/// What a [`ThreadRow`] holds.
pub struct ThreadRowView {
    pub id: Seq<char>,
    pub project_id: Seq<char>,
    pub title: Seq<char>,
    pub subtitle: Seq<char>,
    pub age_label: Seq<char>,
    pub active: bool,
    pub busy: bool,
    pub completed_unread: bool,
    pub project_index: u64,
}

impl DeepView for ThreadRow {
    type V = ThreadRowView;

    open spec fn deep_view(&self) -> ThreadRowView {
        ThreadRowView {
            id: self.id.deep_view(),
            project_id: self.project_id.deep_view(),
            title: self.title.deep_view(),
            subtitle: self.subtitle.deep_view(),
            age_label: self.age_label.deep_view(),
            active: self.active.deep_view(),
            busy: self.busy.deep_view(),
            completed_unread: self.completed_unread.deep_view(),
            project_index: self.project_index.deep_view(),
        }
    }
}

impl Clone for ThreadRow {
    fn clone(&self) -> (r: Self)
        ensures
            r.deep_view() == self.deep_view(),
    {
        let r = ThreadRow {
            id: self.id.clone(),
            project_id: self.project_id.clone(),
            title: self.title.clone(),
            subtitle: self.subtitle.clone(),
            age_label: self.age_label.clone(),
            active: self.active,
            busy: self.busy,
            completed_unread: self.completed_unread,
            project_index: self.project_index,
        };
        r
    }
}

/// A project in the sidebar.
#[derive(Debug, PartialEq, Eq)]
pub struct ProjectRow {
    pub id: String,
    pub name: String,
    pub path: String,
    pub active: bool,
    pub collapsed: bool,
    pub thread_count: u64,
}

/// What a [`ProjectRow`] holds.
pub struct ProjectRowView {
    pub id: Seq<char>,
    pub name: Seq<char>,
    pub path: Seq<char>,
    pub active: bool,
    pub collapsed: bool,
    pub thread_count: u64,
}

impl DeepView for ProjectRow {
    type V = ProjectRowView;

    open spec fn deep_view(&self) -> ProjectRowView {
        ProjectRowView {
            id: self.id.deep_view(),
            name: self.name.deep_view(),
            path: self.path.deep_view(),
            active: self.active.deep_view(),
            collapsed: self.collapsed.deep_view(),
            thread_count: self.thread_count.deep_view(),
        }
    }
}

impl Clone for ProjectRow {
    fn clone(&self) -> (r: Self)
        ensures
            r.deep_view() == self.deep_view(),
    {
        let r = ProjectRow {
            id: self.id.clone(),
            name: self.name.clone(),
            path: self.path.clone(),
            active: self.active,
            collapsed: self.collapsed,
            thread_count: self.thread_count,
        };
        r
    }
}

/// A question with its first options.
#[derive(Debug, PartialEq, Eq)]
pub struct QuestionRow {
    pub index: i32,
    pub header: String,
    pub question: String,
    pub answer: String,
    pub secret: bool,
    pub option_count: i32,
    pub option_a: String,
    pub option_b: String,
    pub option_c: String,
}

/// What a [`QuestionRow`] holds.
pub struct QuestionRowView {
    pub index: i32,
    pub header: Seq<char>,
    pub question: Seq<char>,
    pub answer: Seq<char>,
    pub secret: bool,
    pub option_count: i32,
    pub option_a: Seq<char>,
    pub option_b: Seq<char>,
    pub option_c: Seq<char>,
}

impl DeepView for QuestionRow {
    type V = QuestionRowView;

    open spec fn deep_view(&self) -> QuestionRowView {
        QuestionRowView {
            index: self.index.deep_view(),
            header: self.header.deep_view(),
            question: self.question.deep_view(),
            answer: self.answer.deep_view(),
            secret: self.secret.deep_view(),
            option_count: self.option_count.deep_view(),
            option_a: self.option_a.deep_view(),
            option_b: self.option_b.deep_view(),
            option_c: self.option_c.deep_view(),
        }
    }
}

impl Clone for QuestionRow {
    fn clone(&self) -> (r: Self)
        ensures
            r.deep_view() == self.deep_view(),
    {
        let r = QuestionRow {
            index: self.index,
            header: self.header.clone(),
            question: self.question.clone(),
            answer: self.answer.clone(),
            secret: self.secret,
            option_count: self.option_count,
            option_a: self.option_a.clone(),
            option_b: self.option_b.clone(),
            option_c: self.option_c.clone(),
        };
        r
    }
}


/// The kinds of entry that are shown as activity.
pub open spec fn is_activity(kind: ItemKind) -> bool {
    kind == ItemKind::Command || kind == ItemKind::FileChange || kind == ItemKind::Tool || kind
        == ItemKind::Plan || kind == ItemKind::System
}

fn kind_is_activity(kind: ItemKind) -> (r: bool)
    ensures
        r == is_activity(kind),
{
    matches!(
        kind,
        ItemKind::Command | ItemKind::FileChange | ItemKind::Tool | ItemKind::Plan | ItemKind::System
    )
}

/// The sum of the heights of blocks.
pub open spec fn blocks_height(blocks: Seq<MarkdownBlockView>) -> nat
    decreases blocks.len(),
{
    if blocks.len() == 0 {
        0
    } else {
        blocks_height(blocks.drop_last()) + blocks.last().block_height as nat
    }
}

pub open spec fn at_least(n: u64, least: u64) -> u64 {
    if n < least {
        least
    } else {
        n
    }
}

/// The height of a row: activity has a fixed one, a prompt is as high as its
/// lines, and what the model wrote as high as its blocks, with seven pixels
/// between two and room for the copy action of a final answer.
pub open spec fn height_of(item: ConversationItemView, blocks: Seq<MarkdownBlockView>) -> u64 {
    if is_activity(item.kind) {
        if item.collapsed {
            38
        } else {
            42
        }
    } else if item.kind == ItemKind::User {
        at_least(screen(wrapped_lines(item.body, 92) * 17 + 26), 48)
    } else {
        let gaps = if blocks.len() == 0 {
            0
        } else {
            (blocks.len() - 1) as nat
        };
        let copy = if item.kind == ItemKind::Assistant && item.duration_ms is Some {
            35nat
        } else {
            0
        };
        at_least(screen(blocks_height(blocks) + gaps * 7 + copy + 10), 38)
    }
}

fn sum_heights(blocks: &Vec<MarkdownBlock>) -> (r: u64)
    ensures
        r == screen(blocks_height(blocks.deep_view())),
{
    let ghost views = blocks.deep_view();
    let mut total: u64 = 0;
    let mut i: usize = 0;
    while i < blocks.len()
        invariant
            i <= blocks@.len(),
            views == blocks.deep_view(),
            total == screen(blocks_height(views.take(i as int))),
        decreases blocks@.len() - i,
    {
        assert(views.take(i as int + 1).drop_last() =~= views.take(i as int));
        assert(views.take(i as int + 1).last() == blocks@[i as int].deep_view());
        total = total.saturating_add(blocks[i].block_height);
        i += 1;
    }
    assert(views.take(i as int) =~= views);
    total
}

pub fn message_height(item: &ConversationItem, blocks: &Vec<MarkdownBlock>) -> (r: u64)
    ensures
        r == height_of(item.deep_view(), blocks.deep_view()),
{
    if kind_is_activity(item.kind) {
        return if item.collapsed {
            38
        } else {
            42
        };
    }
    let height: u64;
    let least: u64;
    if item.kind == ItemKind::User {
        height = lines_height(wrapped_line_count(item.body.as_str(), 92), 17, 26);
        least = 48;
    } else {
        let gaps: usize = if blocks.len() == 0 {
            0
        } else {
            blocks.len() - 1
        };
        let copy: u128 = if item.kind == ItemKind::Assistant && item.duration_ms.is_some() {
            35
        } else {
            0
        };
        let total: u128 = sum_heights(blocks) as u128 + gaps as u128 * 7 + copy + 10;
        height = if total > 18446744073709551615 {
            18446744073709551615
        } else {
            total as u64
        };
        least = 38;
    }
    if height < least {
        least
    } else {
        height
    }
}

/// A finished reasoning entry without text is not shown.
pub open spec fn is_visible(item: ConversationItemView) -> bool {
    !(item.kind == ItemKind::Reasoning && blank(item.body) && item.status != "running"@)
}

fn message_is_visible(item: &ConversationItem) -> (r: bool)
    ensures
        r == is_visible(item.deep_view()),
{
    !(item.kind == ItemKind::Reasoning && is_blank(item.body.as_str()) && !same_text(
        item.status.as_str(),
        "running",
    ))
}

pub open spec fn duration_of(item: ConversationItemView) -> Seq<char> {
    match item.duration_ms {
        Some(ms) => elapsed_label(ms as nat),
        None => Seq::empty(),
    }
}

fn duration_label(item: &ConversationItem) -> (r: String)
    ensures
        r@ == duration_of(item.deep_view()),
{
    match item.duration_ms {
        Some(ms) => elapsed_duration_label(ms),
        None => String::new(),
    }
}

/// The row of an entry, not placed yet.
pub open spec fn row_of(item: ConversationItemView) -> MessageRowView {
    MessageRowView {
        id: item.id,
        kind: item.kind.name(),
        title: row_title(item),
        body: item.body,
        markdown_blocks: blocks_of_item(item),
        status: item.status,
        user: item.kind == ItemKind::User,
        activity: is_activity(item.kind),
        collapsed: item.collapsed,
        response_summary: false,
        response_id: Seq::empty(),
        duration_label: duration_of(item),
        row_height: height_of(item, blocks_of_item(item)),
        scroll_offset: 0,
    }
}

fn message_row(item: &ConversationItem) -> (r: MessageRow)
    ensures
        r.deep_view() == row_of(item.deep_view()),
{
    let blocks = markdown_blocks(item);
    let row_height: u64 = message_height(item, &blocks);
    MessageRow {
        id: item.id.clone(),
        kind: item.kind.wire_name().to_owned(),
        title: activity_title(item),
        body: item.body.clone(),
        markdown_blocks: blocks,
        status: item.status.clone(),
        user: item.kind == ItemKind::User,
        activity: kind_is_activity(item.kind),
        collapsed: item.collapsed,
        response_summary: false,
        response_id: String::new(),
        duration_label: duration_label(item),
        row_height,
        scroll_offset: 0,
    }
}

/// The row that stands for the details of a response.
pub open spec fn summary_row_of(answer: ConversationItemView) -> MessageRowView {
    MessageRowView {
        id: "response-details-"@ + answer.id,
        kind: "response-summary"@,
        title: "Worked for "@ + duration_of(answer),
        body: Seq::empty(),
        markdown_blocks: Seq::empty(),
        status: "completed"@,
        user: false,
        activity: false,
        collapsed: answer.response_details_collapsed,
        response_summary: true,
        response_id: answer.id,
        duration_label: duration_of(answer),
        row_height: 48,
        scroll_offset: 0,
    }
}

fn response_summary_row(answer: &ConversationItem) -> (r: MessageRow)
    ensures
        r.deep_view() == summary_row_of(answer.deep_view()),
{
    let label = duration_label(answer);
    let r = MessageRow {
        id: cat("response-details-", answer.id.as_str()),
        kind: "response-summary".to_owned(),
        title: cat("Worked for ", label.as_str()),
        body: String::new(),
        markdown_blocks: Vec::new(),
        status: "completed".to_owned(),
        user: false,
        activity: false,
        collapsed: answer.response_details_collapsed,
        response_summary: true,
        response_id: answer.id.clone(),
        duration_label: label,
        row_height: 48,
        scroll_offset: 0,
    };
    assert(r.markdown_blocks.deep_view() =~= Seq::empty());
    r
}

/// Where the response to a prompt ends: at the next prompt.
pub open spec fn response_end(items: Seq<ConversationItemView>, i: int) -> int
    decreases items.len() - i,
{
    if i < 0 || i >= items.len() || items[i].kind == ItemKind::User {
        i
    } else {
        response_end(items, i + 1)
    }
}

/// The final answer of a response: its last assistant entry with a duration.
pub open spec fn answer_between(items: Seq<ConversationItemView>, from: int, to: int) -> Option<int>
    decreases to - from,
{
    if to <= from || to > items.len() {
        None
    } else if items[to - 1].kind == ItemKind::Assistant && items[to - 1].duration_ms is Some {
        Some(to - 1)
    } else {
        answer_between(items, from, to - 1)
    }
}

/// The rows of the entries that are shown, but for one.
pub open spec fn visible_rows(
    items: Seq<ConversationItemView>,
    from: int,
    to: int,
    skip: Option<int>,
) -> Seq<MessageRowView>
    decreases to - from,
{
    if to <= from {
        Seq::empty()
    } else {
        let before = visible_rows(items, from, to - 1, skip);
        if skip != Some(to - 1) && is_visible(items[to - 1]) {
            before.push(row_of(items[to - 1]))
        } else {
            before
        }
    }
}

/// The rows of a response. One with a final answer and anything else to show
/// has its details behind a summary row.
pub open spec fn response_rows(items: Seq<ConversationItemView>, from: int, to: int) -> Seq<MessageRowView> {
    match answer_between(items, from, to) {
        Some(answer) => {
            let details = visible_rows(items, from, to, Some(answer));
            if details.len() > 0 {
                (if items[answer].response_details_collapsed {
                    seq![summary_row_of(items[answer])]
                } else {
                    seq![summary_row_of(items[answer])] + details
                }).push(row_of(items[answer]))
            } else {
                visible_rows(items, from, to, None)
            }
        },
        None => visible_rows(items, from, to, None),
    }
}

/// The rows of the entries from `i` on.
pub open spec fn rows_from(items: Seq<ConversationItemView>, i: int) -> Seq<MessageRowView>
    decreases items.len() - i,
{
    if i < 0 || i >= items.len() {
        Seq::empty()
    } else if items[i].kind == ItemKind::User {
        let end = response_end(items, i + 1);
        seq![row_of(items[i])] + response_rows(items, i + 1, end) + (if i < end <= items.len() {
            rows_from(items, end)
        } else {
            Seq::empty()
        })
    } else if is_visible(items[i]) {
        seq![row_of(items[i])] + rows_from(items, i + 1)
    } else {
        rows_from(items, i + 1)
    }
}

/// The height of a row for scrolling: open activity is as high as its text.
pub open spec fn scroll_height(row: MessageRowView) -> u64 {
    if row.activity && !row.collapsed && row.body.len() > 0 {
        screen(
            wrapped_lines(
                row.body,
                if row.kind == "command"@ {
                    105
                } else {
                    112
                },
            ) * 15 + 44,
        )
    } else {
        row.row_height
    }
}

fn message_scroll_height(row: &MessageRow) -> (r: u64)
    ensures
        r == scroll_height(row.deep_view()),
{
    if row.activity && !row.collapsed && !row.body.as_str().is_empty() {
        let per_line: usize = if same_text(row.kind.as_str(), "command") {
            105
        } else {
            112
        };
        lines_height(wrapped_line_count(row.body.as_str(), per_line), 15, 44)
    } else {
        row.row_height
    }
}

/// The sum of the heights for scrolling.
pub open spec fn scroll_sum(rows: Seq<MessageRowView>) -> nat
    decreases rows.len(),
{
    if rows.len() == 0 {
        0
    } else {
        scroll_sum(rows.drop_last()) + scroll_height(rows.last()) as nat
    }
}

pub fn message_content_height(rows: &Vec<MessageRow>) -> (r: u64)
    ensures
        r == screen(scroll_sum(rows.deep_view())),
{
    let ghost views = rows.deep_view();
    let mut total: u64 = 0;
    let mut i: usize = 0;
    while i < rows.len()
        invariant
            i <= rows@.len(),
            views == rows.deep_view(),
            total == screen(scroll_sum(views.take(i as int))),
        decreases rows@.len() - i,
    {
        assert(views.take(i as int + 1).drop_last() =~= views.take(i as int));
        assert(views.take(i as int + 1).last() == rows@[i as int].deep_view());
        total = total.saturating_add(message_scroll_height(&rows[i]));
        i += 1;
    }
    assert(views.take(i as int) =~= views);
    total
}

/// The rows, each below those before it.
pub open spec fn placed(rows: Seq<MessageRowView>) -> Seq<MessageRowView> {
    Seq::new(
        rows.len(),
        |i: int| MessageRowView { scroll_offset: screen(scroll_sum(rows.take(i))), ..rows[i] },
    )
}

/// The rows of a conversation.
pub open spec fn rows_of(items: Seq<ConversationItemView>) -> Seq<MessageRowView> {
    placed(rows_from(items, 0))
}

fn find_response_end(items: &Vec<ConversationItem>, from: usize) -> (r: usize)
    requires
        from <= items@.len(),
    ensures
        r == response_end(items.deep_view(), from as int),
        from <= r <= items@.len(),
{
    let ghost views = items.deep_view();
    let mut i: usize = from;
    while i < items.len()
        invariant
            from <= i <= items@.len(),
            views == items.deep_view(),
            response_end(views, from as int) == response_end(views, i as int),
        decreases items@.len() - i,
    {
        assert(views[i as int] == items@[i as int].deep_view());
        if items[i].kind == ItemKind::User {
            return i;
        }
        i += 1;
    }
    i
}

fn find_answer(items: &Vec<ConversationItem>, from: usize, to: usize) -> (r: Option<usize>)
    requires
        from <= to <= items@.len(),
    ensures
        match r {
            Some(i) => from <= i < to && answer_between(items.deep_view(), from as int, to as int)
                == Some(i as int),
            None => answer_between(items.deep_view(), from as int, to as int) is None,
        },
{
    let ghost views = items.deep_view();
    let mut i: usize = to;
    while i > from
        invariant
            from <= i <= to <= items@.len(),
            views == items.deep_view(),
            answer_between(views, from as int, to as int) == answer_between(
                views,
                from as int,
                i as int,
            ),
        decreases i,
    {
        assert(views[i - 1] == items@[i - 1].deep_view());
        if items[i - 1].kind == ItemKind::Assistant && items[i - 1].duration_ms.is_some() {
            return Some(i - 1);
        }
        i -= 1;
    }
    None
}

fn make_visible_rows(items: &Vec<ConversationItem>, from: usize, to: usize, skip: Option<usize>) -> (r:
    Vec<MessageRow>)
    requires
        from <= to <= items@.len(),
    ensures
        r.deep_view() == visible_rows(
            items.deep_view(),
            from as int,
            to as int,
            match skip {
                Some(k) => Some(k as int),
                None => None,
            },
        ),
{
    let ghost views = items.deep_view();
    let ghost passed = match skip {
        Some(k) => Some(k as int),
        None => None,
    };
    let mut out: Vec<MessageRow> = Vec::new();
    let mut i: usize = from;
    assert(out.deep_view() =~= Seq::empty());
    while i < to
        invariant
            from <= i <= to <= items@.len(),
            views == items.deep_view(),
            passed == (match skip {
                Some(k) => Some(k as int),
                None => None,
            }),
            out.deep_view() == visible_rows(views, from as int, i as int, passed),
        decreases to - i,
    {
        assert(views[i as int] == items@[i as int].deep_view());
        let skipped = match skip {
            Some(k) => k == i,
            None => false,
        };
        if !skipped && message_is_visible(&items[i]) {
            let ghost before = out.deep_view();
            let row = message_row(&items[i]);
            let ghost view = row.deep_view();
            out.push(row);
            assert(out.deep_view() =~= before.push(view));
        }
        i += 1;
    }
    out
}

fn make_response_rows(items: &Vec<ConversationItem>, from: usize, to: usize) -> (r: Vec<MessageRow>)
    requires
        from <= to <= items@.len(),
    ensures
        r.deep_view() == response_rows(items.deep_view(), from as int, to as int),
{
    let ghost views = items.deep_view();
    match find_answer(items, from, to) {
        Some(answer) => {
            assert(views[answer as int] == items@[answer as int].deep_view());
            let mut details = make_visible_rows(items, from, to, Some(answer));
            if details.len() > 0 {
                let ghost inner = details.deep_view();
                let mut rows: Vec<MessageRow> = vec![response_summary_row(&items[answer])];
                assert(rows.deep_view() =~= seq![summary_row_of(views[answer as int])]);
                if !items[answer].response_details_collapsed {
                    let ghost first = rows.deep_view();
                    rows.append(&mut details);
                    assert(rows.deep_view() =~= first + inner);
                }
                let ghost before = rows.deep_view();
                let last = message_row(&items[answer]);
                let ghost view = last.deep_view();
                rows.push(last);
                assert(rows.deep_view() =~= before.push(view));
                rows
            } else {
                assert(details.deep_view().len() == 0);
                make_visible_rows(items, from, to, None)
            }
        },
        None => make_visible_rows(items, from, to, None),
    }
}

fn place(rows: &mut Vec<MessageRow>)
    ensures
        final(rows).deep_view() == placed(old(rows).deep_view()),
{
    let ghost before = rows.deep_view();
    let mut offset: u64 = 0;
    let mut i: usize = 0;
    while i < rows.len()
        invariant
            i <= rows@.len(),
            rows@.len() == before.len(),
            offset == screen(scroll_sum(before.take(i as int))),
            forall|j: int| 0 <= j < i ==> (#[trigger] rows@[j]).deep_view() == placed(before)[j],
            forall|j: int| i <= j < before.len() ==> (#[trigger] rows@[j]).deep_view() == before[j],
        decreases rows@.len() - i,
    {
        assert(before.take(i as int + 1).drop_last() =~= before.take(i as int));
        assert(rows@[i as int].deep_view() == before[i as int]);
        let height: u64 = message_scroll_height(&rows[i]);
        rows[i].scroll_offset = offset;
        offset = offset.saturating_add(height);
        i += 1;
    }
    assert(rows.deep_view() =~= placed(before));
}

pub fn message_rows(items: &Vec<ConversationItem>) -> (r: Vec<MessageRow>)
    ensures
        r.deep_view() == rows_of(items.deep_view()),
{
    let ghost views = items.deep_view();
    let n: usize = items.len();
    let mut rows: Vec<MessageRow> = Vec::new();
    let mut index: usize = 0;
    let ghost whole = rows_from(views, 0);
    assert(rows.deep_view() + whole =~= whole);
    while index < n
        invariant
            index <= n,
            n == items@.len(),
            views == items.deep_view(),
            whole == rows.deep_view() + rows_from(views, index as int),
        decreases n - index,
    {
        let ghost before = rows.deep_view();
        assert(views[index as int] == items@[index as int].deep_view());
        if items[index].kind != ItemKind::User {
            if message_is_visible(&items[index]) {
                let row = message_row(&items[index]);
                let ghost view = row.deep_view();
                rows.push(row);
                assert(rows.deep_view() =~= before.push(view));
                assert(before + (seq![view] + rows_from(views, index + 1)) =~= rows.deep_view()
                    + rows_from(views, index + 1));
            }
            index += 1;
        } else {
            let row = message_row(&items[index]);
            let ghost view = row.deep_view();
            rows.push(row);
            assert(rows.deep_view() =~= before.push(view));
            let end: usize = find_response_end(items, index + 1);
            let mut more = make_response_rows(items, index + 1, end);
            let ghost added = more.deep_view();
            rows.append(&mut more);
            assert(rows.deep_view() =~= before.push(view) + added);
            assert(before + (seq![view] + added + rows_from(views, end as int))
                =~= rows.deep_view() + rows_from(views, end as int));
            index = end;
        }
    }
    assert(rows.deep_view() =~= whole);
    place(&mut rows);
    rows
}

} // verus!
