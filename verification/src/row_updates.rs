//! Updating the rows on screen without touching those that stay.
use crate::state::{Question, QuestionView};
use crate::text::same_text;
use crate::view_models::{
    MessageRow, MessageRowView, ProjectRow, QuestionRow, QuestionRowView, ThreadRow,
};
use vstd::prelude::*;
use vstd::string::*;

verus! {

/// Whether two rows look the same. What a row says decides its blocks.
pub open spec fn rows_look_alike(a: MessageRowView, b: MessageRowView) -> bool {
    MessageRowView { markdown_blocks: b.markdown_blocks, ..a } == b
}

pub fn message_rows_match(current: &MessageRow, next: &MessageRow) -> (r: bool)
    ensures
        r == rows_look_alike(current.deep_view(), next.deep_view()),
{
    same_text(current.id.as_str(), next.id.as_str()) && same_text(
        current.kind.as_str(),
        next.kind.as_str(),
    ) && same_text(current.title.as_str(), next.title.as_str()) && same_text(
        current.body.as_str(),
        next.body.as_str(),
    ) && same_text(current.status.as_str(), next.status.as_str()) && current.user == next.user
        && current.activity == next.activity && current.collapsed == next.collapsed
        && current.response_summary == next.response_summary && same_text(
        current.response_id.as_str(),
        next.response_id.as_str(),
    ) && same_text(current.duration_label.as_str(), next.duration_label.as_str())
        && current.row_height == next.row_height && current.scroll_offset == next.scroll_offset
}

/// Whether the rows that both lists have are of the same entries.
pub open spec fn same_entries(current: Seq<MessageRowView>, next: Seq<MessageRowView>) -> bool {
    forall|i: int|
        0 <= i < current.len() && i < next.len() ==> (#[trigger] current[i]).id == next[i].id
}

/// Whether a row was folded, unfolded or became or ceased to be a summary.
pub open spec fn disclosure_differs(a: MessageRowView, b: MessageRowView) -> bool {
    a.collapsed != b.collapsed || a.response_summary != b.response_summary || a.response_id
        != b.response_id
}

pub open spec fn disclosure_changed(current: Seq<MessageRowView>, next: Seq<MessageRowView>) -> bool {
    exists|i: int|
        0 <= i < current.len() && i < next.len() && disclosure_differs(#[trigger] current[i], next[i])
}

/// The next rows, but those that look as before are kept.
pub open spec fn rows_merged(current: Seq<MessageRowView>, next: Seq<MessageRowView>) -> Seq<MessageRowView> {
    Seq::new(
        next.len(),
        |i: int|
            if i < current.len() && rows_look_alike(current[i], next[i]) {
                current[i]
            } else {
                next[i]
            },
    )
}

/// The rows after an update: all new when entries or disclosure changed, else
/// only where they differ.
pub open spec fn rows_updated(current: Seq<MessageRowView>, next: Seq<MessageRowView>) -> Seq<MessageRowView> {
    if !same_entries(current, next) || disclosure_changed(current, next) {
        next
    } else {
        rows_merged(current, next)
    }
}

/// Whether an update has anything to do.
pub open spec fn update_needed(current: Seq<MessageRowView>, next: Seq<MessageRowView>) -> bool {
    !same_entries(current, next) || disclosure_changed(current, next) || current.len() != next.len()
        || exists|i: int|
        0 <= i < current.len() && i < next.len() && !rows_look_alike(#[trigger] current[i], next[i])
}

/// After an update every row looks as it should, and updating again with the
/// same rows has nothing to do.
pub proof fn lemma_update_shows_next_rows(current: Seq<MessageRowView>, next: Seq<MessageRowView>)
    ensures
        rows_updated(current, next).len() == next.len(),
        forall|i: int|
            0 <= i < next.len() ==> rows_look_alike(#[trigger] rows_updated(current, next)[i], next[i]),
        !update_needed(rows_updated(current, next), next),
        !update_needed(current, next) ==> rows_updated(current, next) == current,
        rows_updated(rows_updated(current, next), next) == rows_updated(current, next),
{
    let shown = rows_updated(current, next);
    assert forall|i: int| 0 <= i < next.len() implies rows_look_alike(#[trigger] shown[i], next[i]) by {
    }
    assert(same_entries(shown, next));
    assert(!disclosure_changed(shown, next)) by {
        assert forall|i: int| 0 <= i < shown.len() && i < next.len() implies !disclosure_differs(
            #[trigger] shown[i],
            next[i],
        ) by {
            assert(rows_look_alike(shown[i], next[i]));
        }
    }
    assert(rows_merged(shown, next) =~= shown);
    if !update_needed(current, next) {
        assert(rows_merged(current, next) =~= current);
    }
}

fn have_same_entries(current: &Vec<MessageRow>, next: &Vec<MessageRow>) -> (r: bool)
    ensures
        r == same_entries(current.deep_view(), next.deep_view()),
{
    let ghost a = current.deep_view();
    let ghost b = next.deep_view();
    let mut i: usize = 0;
    while i < current.len() && i < next.len()
        invariant
            i <= current@.len(),
            i <= next@.len(),
            a == current.deep_view(),
            b == next.deep_view(),
            forall|j: int| 0 <= j < i ==> (#[trigger] a[j]).id == b[j].id,
        decreases current@.len() - i,
    {
        assert(a[i as int] == current@[i as int].deep_view());
        assert(b[i as int] == next@[i as int].deep_view());
        if !same_text(current[i].id.as_str(), next[i].id.as_str()) {
            return false;
        }
        i += 1;
    }
    true
}

fn has_disclosure_change(current: &Vec<MessageRow>, next: &Vec<MessageRow>) -> (r: bool)
    ensures
        r == disclosure_changed(current.deep_view(), next.deep_view()),
{
    let ghost a = current.deep_view();
    let ghost b = next.deep_view();
    let mut i: usize = 0;
    while i < current.len() && i < next.len()
        invariant
            i <= current@.len(),
            i <= next@.len(),
            a == current.deep_view(),
            b == next.deep_view(),
            forall|j: int| 0 <= j < i ==> !disclosure_differs(#[trigger] a[j], b[j]),
        decreases current@.len() - i,
    {
        assert(a[i as int] == current@[i as int].deep_view());
        assert(b[i as int] == next@[i as int].deep_view());
        if current[i].collapsed != next[i].collapsed || current[i].response_summary
            != next[i].response_summary || !same_text(
            current[i].response_id.as_str(),
            next[i].response_id.as_str(),
        ) {
            assert(disclosure_differs(a[i as int], b[i as int]));
            return true;
        }
        i += 1;
    }
    false
}

/// Brings the rows on screen up to date; whether anything changed.
pub fn update_message_rows(current: &mut Vec<MessageRow>, next: Vec<MessageRow>) -> (r: bool)
    ensures
        final(current).deep_view() == rows_updated(old(current).deep_view(), next.deep_view()),
        r == update_needed(old(current).deep_view(), next.deep_view()),
{
    let ghost a = current.deep_view();
    let ghost b = next.deep_view();
    if !have_same_entries(current, &next) || has_disclosure_change(current, &next) {
        *current = next;
        return true;
    }
    let had: usize = current.len();
    let mut changed = had != next.len();
    let mut i: usize = 0;
    while i < current.len() && i < next.len()
        invariant
            i <= current@.len(),
            i <= next@.len(),
            had == a.len(),
            current@.len() == a.len(),
            b == next.deep_view(),
            same_entries(a, b),
            !disclosure_changed(a, b),
            forall|j: int| 0 <= j < i ==> (#[trigger] current@[j]).deep_view() == rows_merged(a, b)[j],
            forall|j: int| i <= j < a.len() ==> (#[trigger] current@[j]).deep_view() == a[j],
            changed == (a.len() != b.len() || exists|j: int|
                0 <= j < i && !rows_look_alike(#[trigger] a[j], b[j])),
        decreases current@.len() - i,
    {
        assert(b[i as int] == next@[i as int].deep_view());
        assert(current@[i as int].deep_view() == a[i as int]);
        if !message_rows_match(&current[i], &next[i]) {
            let row = next[i].clone();
            current.set(i, row);
            changed = true;
            assert(!rows_look_alike(a[i as int], b[i as int]));
        }
        i += 1;
    }
    while current.len() > next.len()
        invariant
            i <= current@.len() <= a.len(),
            i == a.len() || i == next@.len(),
            i <= next@.len(),
            b == next.deep_view(),
            forall|j: int| 0 <= j < i ==> (#[trigger] current@[j]).deep_view() == rows_merged(a, b)[j],
        decreases current@.len(),
    {
        let _gone = current.pop();
    }
    while i < next.len()
        invariant
            i <= next@.len(),
            i == current@.len(),
            b == next.deep_view(),
            i >= a.len() || i == next@.len(),
            forall|j: int| 0 <= j < i ==> (#[trigger] current@[j]).deep_view() == rows_merged(a, b)[j],
        decreases next@.len() - i,
    {
        assert(b[i as int] == next@[i as int].deep_view());
        let row = next[i].clone();
        current.push(row);
        i += 1;
    }
    assert(current.deep_view() =~= rows_merged(a, b));
    changed
}

/// Whether the projects on screen are the next ones.
pub fn project_rows_match(current: &Vec<ProjectRow>, next: &Vec<ProjectRow>) -> (r: bool)
    ensures
        r == (current.deep_view() == next.deep_view()),
{
    let ghost a = current.deep_view();
    let ghost b = next.deep_view();
    if current.len() != next.len() {
        assert(a.len() != b.len());
        return false;
    }
    let mut i: usize = 0;
    while i < next.len()
        invariant
            i <= next@.len(),
            current@.len() == next@.len(),
            a == current.deep_view(),
            b == next.deep_view(),
            forall|j: int| 0 <= j < i ==> a[j] == b[j],
        decreases next@.len() - i,
    {
        let x = &current[i];
        let y = &next[i];
        assert(a[i as int] == x.deep_view());
        assert(b[i as int] == y.deep_view());
        if !(same_text(x.id.as_str(), y.id.as_str()) && same_text(x.name.as_str(), y.name.as_str())
            && same_text(x.path.as_str(), y.path.as_str()) && x.active == y.active && x.collapsed
            == y.collapsed && x.thread_count == y.thread_count) {
            assert(a[i as int] != b[i as int]);
            return false;
        }
        i += 1;
    }
    assert(a =~= b);
    true
}

/// Whether the threads on screen are the next ones.
pub fn thread_rows_match(current: &Vec<ThreadRow>, next: &Vec<ThreadRow>) -> (r: bool)
    ensures
        r == (current.deep_view() == next.deep_view()),
{
    let ghost a = current.deep_view();
    let ghost b = next.deep_view();
    if current.len() != next.len() {
        assert(a.len() != b.len());
        return false;
    }
    let mut i: usize = 0;
    while i < next.len()
        invariant
            i <= next@.len(),
            current@.len() == next@.len(),
            a == current.deep_view(),
            b == next.deep_view(),
            forall|j: int| 0 <= j < i ==> a[j] == b[j],
        decreases next@.len() - i,
    {
        let x = &current[i];
        let y = &next[i];
        assert(a[i as int] == x.deep_view());
        assert(b[i as int] == y.deep_view());
        if !(same_text(x.id.as_str(), y.id.as_str()) && same_text(
            x.project_id.as_str(),
            y.project_id.as_str(),
        ) && same_text(x.title.as_str(), y.title.as_str()) && same_text(
            x.subtitle.as_str(),
            y.subtitle.as_str(),
        ) && same_text(x.age_label.as_str(), y.age_label.as_str()) && x.active == y.active && x.busy
            == y.busy && x.completed_unread == y.completed_unread && x.project_index
            == y.project_index) {
            assert(a[i as int] != b[i as int]);
            return false;
        }
        i += 1;
    }
    assert(a =~= b);
    true
}

/// The label of an option, if there are that many.
pub open spec fn option_label(options: Seq<(Seq<char>, Seq<char>)>, i: int) -> Seq<char> {
    if i < options.len() {
        options[i].0
    } else {
        Seq::empty()
    }
}

/// A question as a row with at most three options.
pub open spec fn question_row_of(index: nat, question: QuestionView) -> QuestionRowView {
    QuestionRowView {
        index: if index > i32::MAX {
            i32::MAX
        } else {
            index as i32
        },
        header: question.header,
        question: question.question,
        answer: question.answer,
        secret: question.secret,
        option_count: if question.options.len() > 3 {
            3
        } else {
            question.options.len() as i32
        },
        option_a: option_label(question.options, 0),
        option_b: option_label(question.options, 1),
        option_c: option_label(question.options, 2),
    }
}

fn label_of_option(question: &Question, i: usize) -> (r: String)
    ensures
        r@ == option_label(question.deep_view().options, i as int),
{
    if i < question.options.len() {
        assert(question.deep_view().options[i as int].0 == question.options@[i as int].0@);
        question.options[i].0.clone()
    } else {
        String::new()
    }
}

pub fn question_row(index: usize, question: &Question) -> (r: QuestionRow)
    ensures
        r.deep_view() == question_row_of(index as nat, question.deep_view()),
{
    let count: usize = question.options.len();
    QuestionRow {
        index: if index > 2147483647 {
            2147483647
        } else {
            index as i32
        },
        header: question.header.clone(),
        question: question.question.clone(),
        answer: question.answer.clone(),
        secret: question.secret,
        option_count: if count > 3 {
            3
        } else {
            count as i32
        },
        option_a: label_of_option(question, 0),
        option_b: label_of_option(question, 1),
        option_c: label_of_option(question, 2),
    }
}

} // verus!
