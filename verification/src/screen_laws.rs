//! What the window shows of what there is.
use crate::controller::ControllerView;
use crate::formatting::model_named;
use crate::labels::{age_label, elapsed_label, padded2, row_title};
use crate::model::{ApprovalChoice, ConversationItemView, ItemKind, SandboxChoice};
use crate::state::{project_at, AppStateView};
use crate::sync::{
    agent_of, dialogs_of, frame_of, shown_questions, staged_count, unstaged_count, usage_of,
    workspace_with,
};
use crate::table::lemma_first_where;
use crate::text::decimal;
use crate::view_models::{
    answer_between, is_visible, placed, response_end, response_rows, row_of, rows_from, rows_of,
    scroll_height, scroll_sum, summary_row_of, visible_rows, MessageRowView,
};
use crate::workspace_view::ParsedChangeRowView;
use vstd::prelude::*;
use vstd::string::*;

verus! {

/// The frame of the window tells how things stand: whether the backend is
/// there, who is signed in, which project is worked in, and whether the thread
/// on screen is at work.
pub proof fn lemma_frame_tells_how_things_stand(c: ControllerView, inspector: bool, i: int)
    ensures
        ({
            let f = frame_of(c, inspector);
            &&& f.connected == c.state.connected
            &&& f.connection_text == c.state.connection_text
            &&& f.startup_finished == !c.startup_in_progress
            &&& f.account_label == c.state.account.label
            &&& f.plan_label == c.state.account.plan
            &&& f.has_project == (c.state.active_project is Some)
            &&& c.state.active_project is Some && project_at(
                c.state.projects,
                c.state.active_project->0,
            ) == Some(i) ==> f.workspace_name == c.state.projects[i].name
            &&& f.busy == (c.state.active_local_thread matches Some(id) && crate::table::has_key(
                c.state.running_turns,
                id,
            ))
            &&& f.codex_update_version == crate::model::text_or_empty(c.state.codex_update_version)
            &&& f.codex_update_in_progress == c.state.codex_update_in_progress
            &&& inspector ==> f.inspector_visible
        }),
{
    reveal(frame_of);
}

/// The choices that are shown as chosen are those that are in force: the model,
/// the effort, the sandbox and the approval policy.
pub proof fn lemma_shown_choices_are_in_force(s: AppStateView)
    ensures
        ({
            let a = agent_of(s);
            let sandbox = match s.agent().sandbox {
                Some(x) => x,
                None => s.prefs.sandbox,
            };
            &&& a.model_names.len() == s.models.len()
            &&& forall|i: int|
                0 <= i < s.models.len() ==> (#[trigger] a.model_names[i])
                    == s.models[i].display_name
            &&& a.sandbox_names.len() == 3
            &&& a.sandbox_names[a.selected_sandbox_index as int] == match sandbox {
                SandboxChoice::ReadOnly => "Read only"@,
                SandboxChoice::WorkspaceWrite => "Workspace"@,
                SandboxChoice::FullAccess => "Full access"@,
            }
            &&& a.sandbox_names[a.default_sandbox_index as int] == match s.prefs.sandbox {
                SandboxChoice::ReadOnly => "Read only"@,
                SandboxChoice::WorkspaceWrite => "Workspace"@,
                SandboxChoice::FullAccess => "Full access"@,
            }
            &&& a.approval_names.len() == 3
            &&& a.approval_names[a.selected_approval_index as int] == match s.prefs.approval {
                ApprovalChoice::OnRequest => "Ask when needed"@,
                ApprovalChoice::Untrusted => "Ask for risky"@,
                ApprovalChoice::Never => "Never ask"@,
            }
        }),
{
    reveal(agent_of);
}

/// The model that is shown as chosen is the one that the thread on screen has.
pub proof fn lemma_shown_model_is_chosen(s: AppStateView, k: int)
    requires
        0 <= k < s.models.len() <= usize::MAX,
        s.models[k].id == s.agent().model,
        forall|j: int| 0 <= j < k ==> (#[trigger] s.models[j]).id != s.agent().model,
    ensures
        ({
            let a = agent_of(s);
            &&& a.selected_model_index == k
            &&& a.model_names[a.selected_model_index as int] == s.models[k].display_name
            &&& s.models[k].efforts.len() > 0 ==> a.effort_names == s.models[k].efforts
            &&& s.models[k].efforts.len() == 0 ==> a.effort_names == seq![s.agent().effort]
        }),
{
    reveal(agent_of);
    let p = model_named(s.agent().model);
    assert forall|j: int| 0 <= j < k implies !p(#[trigger] s.models[j]) by {
        assert(s.models[j].id != s.agent().model);
    }
    crate::table::lemma_first_where_is(s.models, p, k);
}

/// What asks for the user's attention is shown as it was asked: the approval
/// with its title and detail, the questions, and the last message.
pub proof fn lemma_requests_are_on_screen(s: AppStateView)
    ensures
        ({
            let d = dialogs_of(s);
            &&& s.approval matches Some(a) ==> d.approval_title == a.title && d.approval_detail
                == a.detail
            &&& s.approval is None ==> d.approval_title.len() == 0 && d.approval_detail.len() == 0
            &&& s.user_question matches Some(q) ==> d.questions.len() == q.questions.len()
            &&& s.user_question is None ==> d.questions.len() == 0
            &&& s.toast matches Some(t) ==> d.toast_text == t.message && d.toast_error == Some(
                t.is_error,
            )
            &&& s.toast is None ==> d.toast_text.len() == 0 && d.toast_error is None
        }),
{
    reveal(dialogs_of);
}

/// The activity that is shown is the log, the last line first.
pub proof fn lemma_activity_is_the_log(
    s: AppStateView,
    changes: Seq<ParsedChangeRowView>,
    i: int,
)
    requires
        0 <= i < s.activity_log.len(),
        i < 100,
    ensures
        ({
            let shown = workspace_with(s, changes).activity;
            &&& shown.len() <= 100
            &&& s.activity_log.len() <= 100 ==> shown.len() == s.activity_log.len()
            &&& shown[i] == s.activity_log[s.activity_log.len() - 1 - i]
        }),
        workspace_with(s, changes).changes == changes,
{
    reveal(workspace_with);
}

/// Every changed file is counted where it changed: one that is staged among the
/// staged ones, one that is not among those that are not, and one that is both
/// among both.
pub proof fn lemma_changes_are_counted(changes: Seq<ParsedChangeRowView>, more: ParsedChangeRowView)
    ensures
        staged_count(changes.push(more)) == staged_count(changes) + (if more.staged {
            1int
        } else {
            0
        }),
        unstaged_count(changes.push(more)) == unstaged_count(changes) + (if more.unstaged {
            1int
        } else {
            0
        }),
        staged_count(Seq::empty()) == 0 && unstaged_count(Seq::empty()) == 0,
{
    assert(changes.push(more).drop_last() =~= changes);
}

/// What the row of an entry shows of it.
pub open spec fn row_shows(row: MessageRowView, item: ConversationItemView) -> bool {
    &&& row.id == item.id
    &&& row.body == item.body
    &&& row.status == item.status
    &&& row.collapsed == item.collapsed
    &&& row.user == (item.kind == ItemKind::User)
    &&& row.activity == (item.kind == ItemKind::Command || item.kind == ItemKind::FileChange
        || item.kind == ItemKind::Tool || item.kind == ItemKind::Plan || item.kind
        == ItemKind::System)
}

/// An entry is among rows.
pub open spec fn among(rows: Seq<MessageRowView>, item: ConversationItemView) -> bool {
    exists|k: int| 0 <= k < rows.len() && row_shows(#[trigger] rows[k], item)
}

proof fn lemma_among_more(a: Seq<MessageRowView>, b: Seq<MessageRowView>, item: ConversationItemView)
    ensures
        among(a, item) || among(b, item) ==> among(a + b, item),
{
    if among(a, item) {
        let k = choose|k: int| 0 <= k < a.len() && row_shows(#[trigger] a[k], item);
        assert((a + b)[k] == a[k]);
    } else if among(b, item) {
        let k = choose|k: int| 0 <= k < b.len() && row_shows(#[trigger] b[k], item);
        assert((a + b)[a.len() + k] == b[k]);
    }
}

proof fn lemma_visible_row(
    items: Seq<ConversationItemView>,
    from: int,
    to: int,
    skip: Option<int>,
    i: int,
)
    requires
        from <= i < to,
        skip != Some(i),
        is_visible(items[i]),
    ensures
        among(visible_rows(items, from, to, skip), items[i]),
    decreases to - from,
{
    let rows = visible_rows(items, from, to, skip);
    let before = visible_rows(items, from, to - 1, skip);
    if i == to - 1 {
        assert(row_shows(rows[before.len() as int], items[i]));
    } else {
        lemma_visible_row(items, from, to - 1, skip, i);
        let k = choose|k: int| 0 <= k < before.len() && row_shows(#[trigger] before[k], items[i]);
        assert(rows[k] == before[k]);
    }
}

proof fn lemma_answer(items: Seq<ConversationItemView>, from: int, to: int)
    ensures
        answer_between(items, from, to) matches Some(a) ==> from <= a < to && a < items.len()
            && items[a].kind == ItemKind::Assistant,
    decreases to - from,
{
    if from < to && to <= items.len() {
        lemma_answer(items, from, to - 1);
    }
}

proof fn lemma_response_row(items: Seq<ConversationItemView>, from: int, to: int, i: int)
    requires
        0 <= from <= i < to <= items.len(),
        is_visible(items[i]),
        answer_between(items, from, to) matches Some(a) ==> i == a
            || !items[a].response_details_collapsed,
    ensures
        among(response_rows(items, from, to), items[i]),
{
    lemma_answer(items, from, to);
    let rows = response_rows(items, from, to);
    match answer_between(items, from, to) {
        Some(a) => {
            let details = visible_rows(items, from, to, Some(a));
            if details.len() > 0 {
                if i == a {
                    assert(row_shows(rows[rows.len() - 1], items[i]));
                } else {
                    lemma_visible_row(items, from, to, Some(a), i);
                    let front = seq![summary_row_of(items[a])];
                    lemma_among_more(front, details, items[i]);
                    lemma_among_more(front + details, seq![row_of(items[a])], items[i]);
                    assert(rows =~= front + details + seq![row_of(items[a])]);
                }
            } else {
                lemma_visible_row(items, from, to, None, i);
            }
        },
        None => {
            lemma_visible_row(items, from, to, None, i);
        },
    }
}

proof fn lemma_response_end(items: Seq<ConversationItemView>, i: int)
    requires
        0 <= i <= items.len(),
    ensures
        i <= response_end(items, i) <= items.len(),
        forall|j: int| i <= j < response_end(items, i) ==> (#[trigger] items[j]).kind != ItemKind::User,
    decreases items.len() - i,
{
    if i < items.len() && items[i].kind != ItemKind::User {
        lemma_response_end(items, i + 1);
    }
}

proof fn lemma_entry_has_row(items: Seq<ConversationItemView>, from: int, i: int)
    requires
        0 <= from <= i < items.len(),
        is_visible(items[i]),
        items[i].kind == ItemKind::User || forall|j: int|
            0 <= j < items.len() ==> !(#[trigger] items[j]).response_details_collapsed,
    ensures
        among(rows_from(items, from), items[i]),
    decreases items.len() - from,
{
    let first = seq![row_of(items[from])];
    if items[from].kind == ItemKind::User {
        lemma_response_end(items, from + 1);
        let end = response_end(items, from + 1);
        let middle = response_rows(items, from + 1, end);
        let rest = rows_from(items, end);
        if i == from {
            assert(row_shows(first[0], items[i]));
        } else if i < end {
            assert(items[i].kind != ItemKind::User);
            lemma_answer(items, from + 1, end);
            lemma_response_row(items, from + 1, end, i);
        } else {
            lemma_entry_has_row(items, end, i);
        }
        if end < items.len() || i < end {
            lemma_among_more(first, middle, items[i]);
            lemma_among_more(first + middle, rest, items[i]);
        }
    } else if i == from {
        assert(row_shows(first[0], items[i]));
        lemma_among_more(first, rows_from(items, from + 1), items[i]);
    } else {
        lemma_entry_has_row(items, from + 1, i);
        lemma_among_more(first, rows_from(items, from + 1), items[i]);
    }
}

/// Everything that was said and done is on screen: each prompt of the user, and
/// unless the details of a response are folded away, every other entry but
/// reasoning that came to nothing. Each row says what its entry says.
pub proof fn lemma_conversation_is_on_screen(items: Seq<ConversationItemView>, i: int)
    requires
        0 <= i < items.len(),
        items[i].kind == ItemKind::User || forall|j: int|
            0 <= j < items.len() ==> !(#[trigger] items[j]).response_details_collapsed,
        items[i].kind != ItemKind::Reasoning || items[i].status == "running"@ || !crate::text::blank(
            items[i].body,
        ),
    ensures
        among(rows_of(items), items[i]),
{
    lemma_entry_has_row(items, 0, i);
    let rows = rows_from(items, 0);
    let k = choose|k: int| 0 <= k < rows.len() && row_shows(#[trigger] rows[k], items[i]);
    assert(row_shows(placed(rows)[k], items[i]));
}

/// Rows follow each other without a gap: each begins where the one before it
/// ends.
pub proof fn lemma_rows_follow_each_other(rows: Seq<MessageRowView>, i: int)
    requires
        0 <= i,
        i + 1 < rows.len(),
        scroll_sum(rows.take(i + 1)) <= u64::MAX,
    ensures
        placed(rows)[0].scroll_offset == 0,
        placed(rows)[i + 1].scroll_offset == placed(rows)[i].scroll_offset + scroll_height(rows[i]),
{
    assert(rows.take(i + 1).drop_last() =~= rows.take(i));
    assert(rows.take(i + 1).last() == rows[i]);
    assert(rows.take(0).len() == 0);
    assert(scroll_sum(rows.take(i)) <= scroll_sum(rows.take(i + 1)));
}

/// How long ago something was is told in its largest unit, and never ahead of
/// time.
pub proof fn lemma_age_is_told(timestamp: i64, now: i64, k: nat)
    requires
        0 <= timestamp,
        0 < k,
    ensures
        now - timestamp < 60 ==> age_label(timestamp, now) == "now"@,
        k < 60 && 60 * k <= now - timestamp < 60 * (k + 1) ==> age_label(timestamp, now) == decimal(
            k,
        ) + "m ago"@,
        k < 24 && 3_600 * k <= now - timestamp < 3_600 * (k + 1) ==> age_label(timestamp, now)
            == decimal(k) + "h ago"@,
        k < 30 && 86_400 * k <= now - timestamp < 86_400 * (k + 1) ==> age_label(timestamp, now)
            == decimal(k) + "d ago"@,
{
}

/// A duration is told in seconds, or in minutes and seconds.
pub proof fn lemma_duration_is_told(minutes: nat, seconds: nat, millis: nat)
    requires
        seconds < 60,
        millis < 1000,
    ensures
        elapsed_label(seconds * 1000 + millis) == decimal(seconds) + "s"@,
        minutes > 0 ==> elapsed_label((minutes * 60 + seconds) * 1000 + millis) == decimal(minutes)
            + "m "@ + padded2(seconds) + "s"@,
{
}

/// Every question is on screen as it was asked, with what was answered so far and
/// up to three of its options in their order.
pub proof fn lemma_question_is_on_screen(s: AppStateView, i: int)
    requires
        s.user_question is Some,
        0 <= i < s.user_question->0.questions.len(),
        i <= i32::MAX,
    ensures
        ({
            let q = s.user_question->0.questions[i];
            let row = shown_questions(s)[i];
            &&& row.index == i
            &&& row.header == q.header && row.question == q.question
            &&& row.answer == q.answer && row.secret == q.secret
            &&& q.options.len() <= 3 ==> row.option_count == q.options.len()
            &&& q.options.len() > 3 ==> row.option_count == 3
            &&& q.options.len() > 0 ==> row.option_a == q.options[0].0
            &&& q.options.len() > 1 ==> row.option_b == q.options[1].0
            &&& q.options.len() > 2 ==> row.option_c == q.options[2].0
        }),
        dialogs_of(s).questions == shown_questions(s),
{
    reveal(dialogs_of);
}

/// What is shown of the usage is what the thread on screen and the plan have
/// used up: what is left and what is used of a window make a hundred per cent.
pub proof fn lemma_usage_is_on_screen(s: AppStateView, k: int, left: u64)
    ensures
        ({
            let u = usage_of(s);
            &&& s.active_thread_index() == Some(k) && s.threads[k].context_usage is Some
                ==> u.context_percent == s.threads[k].context_usage->0.percent_used()
            &&& s.active_thread_index() is None ==> u.context_percent == 0
                && u.context_label.len() == 0
            &&& u.reset_in_progress == s.reset_in_progress
            &&& s.plan_usage is Some && s.plan_usage->0.available_reset_count <= i32::MAX
                ==> u.reset_count == s.plan_usage->0.available_reset_count
            &&& s.plan_usage is Some && s.plan_usage->0.limits.len() == 1
                && s.plan_usage->0.limits[0].primary is Some && left
                + s.plan_usage->0.limits[0].primary->0.used_percent == 100 ==> u.usage_left_label
                == decimal(left as nat) + "% usage left"@
        }),
{
    reveal(usage_of);
    if s.active_thread_index() == Some(k) && s.threads[k].context_usage is Some {
        let c = s.threads[k].context_usage->0;
        let scaled = if c.used_tokens * 100 <= u64::MAX {
            c.used_tokens * 100
        } else {
            u64::MAX as int
        };
        let capacity = if c.capacity_tokens == 0 {
            1int
        } else {
            c.capacity_tokens as int
        };
        assert(scaled / capacity >= 0) by (nonlinear_arith)
            requires
                scaled >= 0,
                capacity > 0,
        ;
    }
    if s.plan_usage is Some && s.plan_usage->0.limits.len() == 1 {
        let limits = s.plan_usage->0.limits;
        lemma_first_where(limits, |l: crate::model::RateLimitView| l.id == "codex"@);
        assert(crate::sync::default_limit_of(s.plan_usage->0) == Some(limits[0]));
    }
}

/// The heading of an entry says what is being done while it runs, and what was
/// done when it does not.
pub proof fn lemma_heading_tells_what_is_done(item: ConversationItemView)
    ensures
        item.kind == ItemKind::Command ==> row_title(item) == if item.status == "running"@ {
            "Running command"@
        } else {
            "Ran command"@
        },
        item.kind == ItemKind::FileChange ==> row_title(item) == if item.status == "running"@ {
            "Changing files"@
        } else {
            "Changed files"@
        },
        item.kind == ItemKind::Plan ==> row_title(item) == if item.status == "running"@ {
            "Updating plan"@
        } else {
            "Updated plan"@
        },
        item.kind == ItemKind::User || item.kind == ItemKind::Assistant || item.kind
            == ItemKind::Reasoning || item.kind == ItemKind::System ==> row_title(item) == item.title,
{
}

} // verus!
