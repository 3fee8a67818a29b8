//! What the window shows of the application.
use crate::controller::{Controller, ControllerView};
use crate::file_tree::{file_rows, file_rows_of};
use crate::formatting::{
    find_model, format_token_count, model_at, short_path, shortened, token_count,
};
use crate::labels::{context_ring_path, ring_path};
use crate::model::{
    ApprovalChoice, ContextWindowUsage, ModelOption, ModelOptionView, PlanUsage, PlanUsageView,
    RateLimit, RateLimitView, RateLimitWindow, SandboxChoice, text_or_empty,
};
use crate::path::{backslashed, to_backslashes};
use crate::row_updates::{question_row, question_row_of};
use crate::sidebar::{project_rows, project_rows_of, thread_rows_at, thread_rows_of};
use crate::state::{find_project, project_at, AppState, AppStateView, QuestionView};
use crate::table::{first_where, lemma_first_where_is, lemma_first_where_none};
use crate::text::{cat, cat3, decimal, decimal_text, join, joined, same_text, text_lines};
use crate::view_models::{
    message_rows, rows_of, MessageRow, MessageRowView, ProjectRow, ProjectRowView, QuestionRow,
    QuestionRowView, ThreadRow, ThreadRowView,
};
use crate::workspace_view::{
    change_rows, changes_in_lines, changes_recorded, recorded_change_rows, FileRow, FileRowView,
    ParsedChangeRow, ParsedChangeRowView,
};
use vstd::prelude::*;
use vstd::string::*;

verus! {

/// The frame of the window: connection, account, project and update.
#[derive(Debug, PartialEq, Eq)]
pub struct FrameModel {
    pub startup_finished: bool,
    pub connected: bool,
    pub connection_text: String,
    pub account_label: String,
    pub plan_label: String,
    pub workspace_path: String,
    pub respect_gitignore: bool,
    pub visible_thread_limit: u32,
    pub workspace_name: String,
    pub has_project: bool,
    pub busy: bool,
    pub codex_update_version: String,
    pub codex_update_in_progress: bool,
    pub inspector_visible: bool,
}

/// What a [`FrameModel`] holds.
pub struct FrameModelView {
    pub startup_finished: bool,
    pub connected: bool,
    pub connection_text: Seq<char>,
    pub account_label: Seq<char>,
    pub plan_label: Seq<char>,
    pub workspace_path: Seq<char>,
    pub respect_gitignore: bool,
    pub visible_thread_limit: u32,
    pub workspace_name: Seq<char>,
    pub has_project: bool,
    pub busy: bool,
    pub codex_update_version: Seq<char>,
    pub codex_update_in_progress: bool,
    pub inspector_visible: bool,
}

impl DeepView for FrameModel {
    type V = FrameModelView;

    open spec fn deep_view(&self) -> FrameModelView {
        FrameModelView {
            startup_finished: self.startup_finished.deep_view(),
            connected: self.connected.deep_view(),
            connection_text: self.connection_text.deep_view(),
            account_label: self.account_label.deep_view(),
            plan_label: self.plan_label.deep_view(),
            workspace_path: self.workspace_path.deep_view(),
            respect_gitignore: self.respect_gitignore.deep_view(),
            visible_thread_limit: self.visible_thread_limit.deep_view(),
            workspace_name: self.workspace_name.deep_view(),
            has_project: self.has_project.deep_view(),
            busy: self.busy.deep_view(),
            codex_update_version: self.codex_update_version.deep_view(),
            codex_update_in_progress: self.codex_update_in_progress.deep_view(),
            inspector_visible: self.inspector_visible.deep_view(),
        }
    }
}

/// The sidebar and the conversation.
#[derive(Debug, PartialEq, Eq)]
pub struct ListsModel {
    pub threads: Vec<ThreadRow>,
    pub projects: Vec<ProjectRow>,
    pub active_thread_id: String,
    pub messages: Vec<MessageRow>,
    pub active_thread_title: String,
}

/// What a [`ListsModel`] holds.
pub struct ListsModelView {
    pub threads: Seq<ThreadRowView>,
    pub projects: Seq<ProjectRowView>,
    pub active_thread_id: Seq<char>,
    pub messages: Seq<MessageRowView>,
    pub active_thread_title: Seq<char>,
}

impl DeepView for ListsModel {
    type V = ListsModelView;

    open spec fn deep_view(&self) -> ListsModelView {
        ListsModelView {
            threads: self.threads.deep_view(),
            projects: self.projects.deep_view(),
            active_thread_id: self.active_thread_id.deep_view(),
            messages: self.messages.deep_view(),
            active_thread_title: self.active_thread_title.deep_view(),
        }
    }
}

/// How much of the context and of the plan is used.
#[derive(Debug, PartialEq, Eq)]
pub struct UsageModel {
    pub context_label: String,
    pub context_percent: u32,
    pub context_progress_path: String,
    pub usage_left_label: String,
    pub usage_summary: String,
    pub reset_count: u32,
    pub reset_in_progress: bool,
}

/// What a [`UsageModel`] holds.
pub struct UsageModelView {
    pub context_label: Seq<char>,
    pub context_percent: u32,
    pub context_progress_path: Seq<char>,
    pub usage_left_label: Seq<char>,
    pub usage_summary: Seq<char>,
    pub reset_count: u32,
    pub reset_in_progress: bool,
}

impl DeepView for UsageModel {
    type V = UsageModelView;

    open spec fn deep_view(&self) -> UsageModelView {
        UsageModelView {
            context_label: self.context_label.deep_view(),
            context_percent: self.context_percent.deep_view(),
            context_progress_path: self.context_progress_path.deep_view(),
            usage_left_label: self.usage_left_label.deep_view(),
            usage_summary: self.usage_summary.deep_view(),
            reset_count: self.reset_count.deep_view(),
            reset_in_progress: self.reset_in_progress.deep_view(),
        }
    }
}

/// The files, the changes and the log.
#[derive(Debug, PartialEq, Eq)]
pub struct WorkspaceModel {
    pub files: Vec<FileRow>,
    pub changes: Vec<ParsedChangeRow>,
    pub staged_change_count: u64,
    pub unstaged_change_count: u64,
    pub activity: Vec<String>,
}

/// What a [`WorkspaceModel`] holds.
pub struct WorkspaceModelView {
    pub files: Seq<FileRowView>,
    pub changes: Seq<ParsedChangeRowView>,
    pub staged_change_count: u64,
    pub unstaged_change_count: u64,
    pub activity: Seq<Seq<char>>,
}

impl DeepView for WorkspaceModel {
    type V = WorkspaceModelView;

    open spec fn deep_view(&self) -> WorkspaceModelView {
        WorkspaceModelView {
            files: self.files.deep_view(),
            changes: self.changes.deep_view(),
            staged_change_count: self.staged_change_count.deep_view(),
            unstaged_change_count: self.unstaged_change_count.deep_view(),
            activity: self.activity.deep_view(),
        }
    }
}

/// The choices of model, effort, sandbox and approval.
#[derive(Debug, PartialEq, Eq)]
pub struct AgentModel {
    pub model_names: Vec<String>,
    pub selected_model_index: usize,
    pub effort_names: Vec<String>,
    pub selected_effort_index: usize,
    pub default_model_index: usize,
    pub default_effort_names: Vec<String>,
    pub default_effort_index: usize,
    pub summary_model_index: usize,
    pub summary_effort_names: Vec<String>,
    pub summary_effort_index: usize,
    pub sandbox_names: Vec<String>,
    pub selected_sandbox_index: usize,
    pub default_sandbox_index: usize,
    pub approval_names: Vec<String>,
    pub selected_approval_index: usize,
}

/// What a [`AgentModel`] holds.
pub struct AgentModelView {
    pub model_names: Seq<Seq<char>>,
    pub selected_model_index: usize,
    pub effort_names: Seq<Seq<char>>,
    pub selected_effort_index: usize,
    pub default_model_index: usize,
    pub default_effort_names: Seq<Seq<char>>,
    pub default_effort_index: usize,
    pub summary_model_index: usize,
    pub summary_effort_names: Seq<Seq<char>>,
    pub summary_effort_index: usize,
    pub sandbox_names: Seq<Seq<char>>,
    pub selected_sandbox_index: usize,
    pub default_sandbox_index: usize,
    pub approval_names: Seq<Seq<char>>,
    pub selected_approval_index: usize,
}

impl DeepView for AgentModel {
    type V = AgentModelView;

    open spec fn deep_view(&self) -> AgentModelView {
        AgentModelView {
            model_names: self.model_names.deep_view(),
            selected_model_index: self.selected_model_index.deep_view(),
            effort_names: self.effort_names.deep_view(),
            selected_effort_index: self.selected_effort_index.deep_view(),
            default_model_index: self.default_model_index.deep_view(),
            default_effort_names: self.default_effort_names.deep_view(),
            default_effort_index: self.default_effort_index.deep_view(),
            summary_model_index: self.summary_model_index.deep_view(),
            summary_effort_names: self.summary_effort_names.deep_view(),
            summary_effort_index: self.summary_effort_index.deep_view(),
            sandbox_names: self.sandbox_names.deep_view(),
            selected_sandbox_index: self.selected_sandbox_index.deep_view(),
            default_sandbox_index: self.default_sandbox_index.deep_view(),
            approval_names: self.approval_names.deep_view(),
            selected_approval_index: self.selected_approval_index.deep_view(),
        }
    }
}

/// What asks for the attention of the user.
#[derive(Debug, PartialEq, Eq)]
pub struct DialogModel {
    pub approval_title: String,
    pub approval_detail: String,
    pub approval_session: bool,
    pub questions: Vec<QuestionRow>,
    pub toast_text: String,
    /// Whether the message is an error; without a message the mark stays as it
    /// was.
    pub toast_error: Option<bool>,
}

/// What a [`DialogModel`] holds.
pub struct DialogModelView {
    pub approval_title: Seq<char>,
    pub approval_detail: Seq<char>,
    pub approval_session: bool,
    pub questions: Seq<QuestionRowView>,
    pub toast_text: Seq<char>,
    pub toast_error: Option<bool>,
}

impl DeepView for DialogModel {
    type V = DialogModelView;

    open spec fn deep_view(&self) -> DialogModelView {
        DialogModelView {
            approval_title: self.approval_title.deep_view(),
            approval_detail: self.approval_detail.deep_view(),
            approval_session: self.approval_session.deep_view(),
            questions: self.questions.deep_view(),
            toast_text: self.toast_text.deep_view(),
            toast_error: self.toast_error.deep_view(),
        }
    }
}

/// Everything that the window shows.
#[derive(Debug, PartialEq, Eq)]
pub struct UiModel {
    pub frame: FrameModel,
    pub lists: ListsModel,
    pub usage: UsageModel,
    pub workspace: WorkspaceModel,
    pub agent: AgentModel,
    pub dialogs: DialogModel,
}

/// What a [`UiModel`] holds.
pub struct UiModelView {
    pub frame: FrameModelView,
    pub lists: ListsModelView,
    pub usage: UsageModelView,
    pub workspace: WorkspaceModelView,
    pub agent: AgentModelView,
    pub dialogs: DialogModelView,
}

impl DeepView for UiModel {
    type V = UiModelView;

    open spec fn deep_view(&self) -> UiModelView {
        UiModelView {
            frame: self.frame.deep_view(),
            lists: self.lists.deep_view(),
            usage: self.usage.deep_view(),
            workspace: self.workspace.deep_view(),
            agent: self.agent.deep_view(),
            dialogs: self.dialogs.deep_view(),
        }
    }
}


/// The limit that the usage label is about: the one of Codex, else the first.
pub open spec fn default_limit_of(usage: PlanUsageView) -> Option<RateLimitView> {
    match first_where(usage.limits, |l: RateLimitView| l.id == "codex"@) {
        Some(i) => Some(usage.limits[i]),
        None => if usage.limits.len() > 0 {
            Some(usage.limits[0])
        } else {
            None
        },
    }
}

impl PlanUsage {
    pub fn default_limit(&self) -> (r: Option<&RateLimit>)
        ensures
            r.deep_view() == default_limit_of(self.deep_view()),
    {
        let ghost all = self.limits.deep_view();
        let ghost p = |l: RateLimitView| l.id == "codex"@;
        let mut i: usize = 0;
        while i < self.limits.len()
            invariant
                i <= self.limits@.len(),
                all == self.limits.deep_view(),
                p == (|l: RateLimitView| l.id == "codex"@),
                forall|j: int| 0 <= j < i ==> !p(#[trigger] all[j]),
            decreases self.limits@.len() - i,
        {
            assert(all[i as int] == self.limits@[i as int].deep_view());
            if same_text(self.limits[i].id.as_str(), "codex") {
                proof {
                    lemma_first_where_is(all, p, i as int);
                }
                return Some(&self.limits[i]);
            }
            i += 1;
        }
        proof {
            lemma_first_where_none(all, p);
        }
        if self.limits.len() > 0 {
            assert(all[0] == self.limits@[0].deep_view());
            Some(&self.limits[0])
        } else {
            None
        }
    }
}

/// The name of the active project.
pub open spec fn shown_project(state: AppStateView) -> Seq<char> {
    match state.active_project {
        Some(id) => match project_at(state.projects, id) {
            Some(i) => state.projects[i].name,
            None => "Workspace"@,
        },
        None => "Workspace"@,
    }
}

fn project_name(state: &AppState) -> (r: String)
    ensures
        r@ == shown_project(state.deep_view()),
{
    match &state.active_project {
        Some(id) => match find_project(&state.projects, id.as_str()) {
            Some(i) => {
                assert(state.deep_view().projects[i as int] == state.projects@[i as int].deep_view());
                state.projects[i].name.clone()
            },
            None => "Workspace".to_owned(),
        },
        None => "Workspace".to_owned(),
    }
}

/// The title of the active thread.
pub open spec fn shown_title(state: AppStateView) -> Seq<char> {
    match state.active_thread_index() {
        Some(i) => state.threads[i].title,
        None => "New thread"@,
    }
}

/// How full the context of the active thread is.
pub open spec fn shown_usage(state: AppStateView) -> Option<ContextWindowUsage> {
    match state.active_thread_index() {
        Some(i) => state.threads[i].context_usage,
        None => None,
    }
}

fn thread_title(state: &AppState) -> (r: String)
    ensures
        r@ == shown_title(state.deep_view()),
{
    match state.active_index() {
        Some(i) => {
            assert(state.deep_view().threads[i as int] == state.threads@[i as int].deep_view());
            state.threads[i].title.clone()
        },
        None => "New thread".to_owned(),
    }
}

fn thread_usage(state: &AppState) -> (r: Option<ContextWindowUsage>)
    ensures
        r == shown_usage(state.deep_view()),
{
    match state.active_index() {
        Some(i) => {
            assert(state.deep_view().threads[i as int] == state.threads@[i as int].deep_view());
            state.threads[i].context_usage
        },
        None => None,
    }
}

pub open spec fn usage_percent(usage: Option<ContextWindowUsage>) -> int {
    match usage {
        Some(u) => u.percent_used(),
        None => 0,
    }
}

pub open spec fn usage_label(usage: Option<ContextWindowUsage>) -> Seq<char> {
    match usage {
        Some(u) => "Context: "@ + token_count(u.used_tokens as nat) + " / "@ + token_count(
            u.capacity_tokens as nat,
        ) + " ("@ + decimal(u.percent_used() as nat) + "%)"@,
        None => Seq::empty(),
    }
}

fn context_label(usage: Option<ContextWindowUsage>) -> (r: String)
    ensures
        r@ == usage_label(usage),
{
    match usage {
        Some(u) => {
            let mut r = cat3("Context: ", format_token_count(u.used_tokens).as_str(), " / ");
            r.append(format_token_count(u.capacity_tokens).as_str());
            r.append(" (");
            r.append(decimal_text(u.percent() as u128).as_str());
            r.append("%)");
            r
        },
        None => String::new(),
    }
}

/// What is left of the first window of the plan.
pub open spec fn left_label(usage: Option<PlanUsageView>) -> Seq<char> {
    match usage {
        Some(u) => match default_limit_of(u) {
            Some(limit) => match limit.primary {
                Some(window) => decimal(
                    if window.used_percent > 100 {
                        0
                    } else {
                        (100 - window.used_percent) as nat
                    },
                ) + "% usage left"@,
                None => Seq::empty(),
            },
            None => Seq::empty(),
        },
        None => Seq::empty(),
    }
}

fn usage_left_label(usage: &Option<PlanUsage>) -> (r: String)
    ensures
        r@ == left_label(usage.deep_view()),
{
    match usage {
        Some(u) => match u.default_limit() {
            Some(limit) => match limit.primary {
                Some(window) => {
                    let left: u32 = if window.used_percent > 100 {
                        0
                    } else {
                        100 - window.used_percent
                    };
                    cat(decimal_text(left as u128).as_str(), "% usage left")
                },
                None => String::new(),
            },
            None => String::new(),
        },
        None => String::new(),
    }
}

pub open spec fn changed_paths(changes: Seq<ParsedChangeRowView>) -> Seq<Seq<char>> {
    Seq::new(changes.len(), |i: int| backslashed(changes[i].path))
}

fn collect_changed(changes: &Vec<ParsedChangeRow>) -> (r: Vec<String>)
    ensures
        r.deep_view() == changed_paths(changes.deep_view()),
{
    let mut out: Vec<String> = Vec::new();
    let mut i: usize = 0;
    while i < changes.len()
        invariant
            i <= changes@.len(),
            out@.len() == i,
            forall|j: int| 0 <= j < i ==> (#[trigger] out@[j])@ == backslashed(changes@[j].path@),
        decreases changes@.len() - i,
    {
        out.push(to_backslashes(changes[i].path.as_str()));
        i += 1;
    }
    assert(out.deep_view() =~= changed_paths(changes.deep_view()));
    out
}

pub open spec fn staged_count(changes: Seq<ParsedChangeRowView>) -> nat
    decreases changes.len(),
{
    if changes.len() == 0 {
        0
    } else {
        staged_count(changes.drop_last()) + (if changes.last().staged {
            1nat
        } else {
            0
        })
    }
}

pub open spec fn unstaged_count(changes: Seq<ParsedChangeRowView>) -> nat
    decreases changes.len(),
{
    if changes.len() == 0 {
        0
    } else {
        unstaged_count(changes.drop_last()) + (if changes.last().unstaged {
            1nat
        } else {
            0
        })
    }
}

fn count_changes(changes: &Vec<ParsedChangeRow>) -> (r: (u64, u64))
    ensures
        r.0 == staged_count(changes.deep_view()),
        r.1 == unstaged_count(changes.deep_view()),
{
    let ghost all = changes.deep_view();
    let mut staged: u64 = 0;
    let mut unstaged: u64 = 0;
    let mut i: usize = 0;
    while i < changes.len()
        invariant
            i <= changes@.len(),
            all == changes.deep_view(),
            staged == staged_count(all.take(i as int)),
            unstaged == unstaged_count(all.take(i as int)),
            staged <= i,
            unstaged <= i,
        decreases changes@.len() - i,
    {
        assert(all.take(i as int + 1).drop_last() =~= all.take(i as int));
        assert(all.take(i as int + 1).last() == changes@[i as int].deep_view());
        if changes[i].staged {
            staged += 1;
        }
        if changes[i].unstaged {
            unstaged += 1;
        }
        i += 1;
    }
    assert(all.take(i as int) =~= all);
    (staged, unstaged)
}

/// The last hundred lines of the log, the last one first.
pub open spec fn recent_activity(log: Seq<Seq<char>>) -> Seq<Seq<char>> {
    Seq::new(
        if log.len() > 100 {
            100
        } else {
            log.len()
        },
        |i: int| log[log.len() - 1 - i],
    )
}

fn latest_activity(log: &Vec<String>) -> (r: Vec<String>)
    ensures
        r.deep_view() == recent_activity(log.deep_view()),
{
    let n: usize = log.len();
    let wanted: usize = if n > 100 {
        100
    } else {
        n
    };
    let mut out: Vec<String> = Vec::new();
    let mut i: usize = 0;
    while i < wanted
        invariant
            i <= wanted <= n,
            n == log@.len(),
            out@.len() == i,
            forall|j: int| 0 <= j < i ==> (#[trigger] out@[j])@ == log@[n - 1 - j]@,
        decreases wanted - i,
    {
        out.push(log[n - 1 - i].clone());
        i += 1;
    }
    assert(out.deep_view() =~= recent_activity(log.deep_view()));
    out
}

pub open spec fn model_names_of(models: Seq<ModelOptionView>) -> Seq<Seq<char>> {
    Seq::new(models.len(), |i: int| models[i].display_name)
}

fn collect_model_names(models: &Vec<ModelOption>) -> (r: Vec<String>)
    ensures
        r.deep_view() == model_names_of(models.deep_view()),
{
    let mut out: Vec<String> = Vec::new();
    let mut i: usize = 0;
    while i < models.len()
        invariant
            i <= models@.len(),
            out@.len() == i,
            forall|j: int| 0 <= j < i ==> (#[trigger] out@[j])@ == models@[j].display_name@,
        decreases models@.len() - i,
    {
        out.push(models[i].display_name.clone());
        i += 1;
    }
    assert(out.deep_view() =~= model_names_of(models.deep_view()));
    out
}

/// The place of a model in the list, the first without one.
pub open spec fn model_index(models: Seq<ModelOptionView>, id: Seq<char>) -> int {
    match model_at(models, id) {
        Some(i) => i,
        None => 0,
    }
}

fn index_of_model(models: &Vec<ModelOption>, id: &str) -> (r: usize)
    ensures
        r == model_index(models.deep_view(), id@),
{
    match find_model(models, id) {
        Some(i) => i,
        None => 0,
    }
}

/// The efforts of a model, or only the one that is set.
pub open spec fn efforts_for(models: Seq<ModelOptionView>, id: Seq<char>, fallback: Seq<char>) -> Seq<
    Seq<char>,
> {
    match model_at(models, id) {
        Some(i) => if models[i].efforts.len() == 0 {
            seq![fallback]
        } else {
            models[i].efforts
        },
        None => seq![fallback],
    }
}

fn list_efforts(models: &Vec<ModelOption>, id: &str, fallback: &str) -> (r: Vec<String>)
    ensures
        r.deep_view() == efforts_for(models.deep_view(), id@, fallback@),
{
    match find_model(models, id) {
        Some(i) => {
            assert(models.deep_view()[i as int] == models@[i as int].deep_view());
            if models[i].efforts.len() > 0 {
                let r = models[i].efforts.clone();
                assert(r.deep_view() =~= models@[i as int].efforts.deep_view());
                return r;
            }
        },
        None => {},
    }
    let r: Vec<String> = vec![fallback.to_owned()];
    assert(r.deep_view() =~= seq![fallback@]);
    r
}

/// Texts equal to one.
pub open spec fn text_is(t: Seq<char>) -> spec_fn(Seq<char>) -> bool {
    |x: Seq<char>| x == t
}

/// The place of a text in a list, the first without one.
pub open spec fn text_index(all: Seq<Seq<char>>, t: Seq<char>) -> int {
    match first_where(all, text_is(t)) {
        Some(i) => i,
        None => 0,
    }
}

fn index_of_text(all: &Vec<String>, t: &str) -> (r: usize)
    ensures
        r == text_index(all.deep_view(), t@),
{
    let ghost views = all.deep_view();
    let mut i: usize = 0;
    while i < all.len()
        invariant
            i <= all@.len(),
            views == all.deep_view(),
            forall|j: int| 0 <= j < i ==> !text_is(t@)(#[trigger] views[j]),
        decreases all@.len() - i,
    {
        assert(views[i as int] == all@[i as int]@);
        if same_text(all[i].as_str(), t) {
            proof {
                lemma_first_where_is(views, text_is(t@), i as int);
            }
            return i;
        }
        i += 1;
    }
    proof {
        lemma_first_where_none(views, text_is(t@));
    }
    0
}

pub open spec fn sandbox_index(choice: SandboxChoice) -> usize {
    match choice {
        SandboxChoice::ReadOnly => 0,
        SandboxChoice::WorkspaceWrite => 1,
        SandboxChoice::FullAccess => 2,
    }
}

fn index_of_sandbox(choice: SandboxChoice) -> (r: usize)
    ensures
        r == sandbox_index(choice),
{
    match choice {
        SandboxChoice::ReadOnly => 0,
        SandboxChoice::WorkspaceWrite => 1,
        SandboxChoice::FullAccess => 2,
    }
}

pub open spec fn approval_index(choice: ApprovalChoice) -> usize {
    match choice {
        ApprovalChoice::OnRequest => 0,
        ApprovalChoice::Untrusted => 1,
        ApprovalChoice::Never => 2,
    }
}

fn index_of_approval(choice: ApprovalChoice) -> (r: usize)
    ensures
        r == approval_index(choice),
{
    match choice {
        ApprovalChoice::OnRequest => 0,
        ApprovalChoice::Untrusted => 1,
        ApprovalChoice::Never => 2,
    }
}

pub open spec fn window_line(name: Seq<char>, window: Option<RateLimitWindow>) -> Seq<Seq<char>> {
    match window {
        Some(w) => seq![name + ": "@ + decimal(w.used_percent as nat) + "% used"@],
        None => Seq::empty(),
    }
}

/// The windows of the limits, one line each.
pub open spec fn window_lines(limits: Seq<RateLimitView>) -> Seq<Seq<char>>
    decreases limits.len(),
{
    if limits.len() == 0 {
        Seq::empty()
    } else {
        window_lines(limits.drop_last()) + window_line(limits.last().name, limits.last().primary)
            + window_line(limits.last().name, limits.last().secondary)
    }
}

pub open spec fn usage_summary_of(usage: Option<PlanUsageView>) -> Seq<char> {
    let text = match usage {
        Some(u) => joined(window_lines(u.limits), " · "@),
        None => Seq::empty(),
    };
    if text.len() == 0 {
        "Usage information unavailable"@
    } else {
        text
    }
}

fn push_window(out: &mut Vec<String>, name: &str, window: Option<RateLimitWindow>)
    ensures
        final(out).deep_view() == old(out).deep_view() + window_line(name@, window),
{
    let ghost before = out.deep_view();
    match window {
        Some(w) => {
            let mut line = cat3(name, ": ", decimal_text(w.used_percent as u128).as_str());
            line.append("% used");
            out.push(line);
        },
        None => {},
    }
    assert(out.deep_view() =~= before + window_line(name@, window));
}

fn summarize_usage(usage: &Option<PlanUsage>) -> (r: String)
    ensures
        r@ == usage_summary_of(usage.deep_view()),
{
    match usage {
        Some(u) => {
            let ghost all = u.limits.deep_view();
            let mut out: Vec<String> = Vec::new();
            let mut i: usize = 0;
            assert(out.deep_view() =~= window_lines(all.take(0)));
            while i < u.limits.len()
                invariant
                    i <= u.limits@.len(),
                    all == u.limits.deep_view(),
                    out.deep_view() == window_lines(all.take(i as int)),
                decreases u.limits@.len() - i,
            {
                assert(all.take(i as int + 1).drop_last() =~= all.take(i as int));
                assert(all.take(i as int + 1).last() == u.limits@[i as int].deep_view());
                push_window(&mut out, u.limits[i].name.as_str(), u.limits[i].primary);
                push_window(&mut out, u.limits[i].name.as_str(), u.limits[i].secondary);
                i += 1;
            }
            assert(all.take(i as int) =~= all);
            let text = join(&out, " · ");
            if !text.as_str().is_empty() {
                return text;
            }
        },
        None => {},
    }
    "Usage information unavailable".to_owned()
}

pub open spec fn question_rows_of(questions: Seq<QuestionView>) -> Seq<QuestionRowView> {
    Seq::new(questions.len(), |i: int| question_row_of(i as nat, questions[i]))
}

pub open spec fn shown_questions(state: AppStateView) -> Seq<QuestionRowView> {
    match state.user_question {
        Some(request) => question_rows_of(request.questions),
        None => Seq::empty(),
    }
}

fn question_rows(state: &AppState) -> (r: Vec<QuestionRow>)
    ensures
        r.deep_view() == shown_questions(state.deep_view()),
{
    let mut out: Vec<QuestionRow> = Vec::new();
    match &state.user_question {
        Some(request) => {
            let questions = &request.questions;
            let mut i: usize = 0;
            while i < questions.len()
                invariant
                    i <= questions@.len(),
                    out@.len() == i,
                    forall|j: int|
                        0 <= j < i ==> (#[trigger] out@[j]).deep_view() == question_row_of(
                            j as nat,
                            questions@[j].deep_view(),
                        ),
                decreases questions@.len() - i,
            {
                out.push(question_row(i, &questions[i]));
                i += 1;
            }
            assert(out.deep_view() =~= question_rows_of(questions.deep_view()));
        },
        None => {
            assert(out.deep_view() =~= Seq::empty());
        },
    }
    out
}

/// How many threads of a project are listed before the rest is folded away.
pub open spec fn shown_limit(limit: u32) -> u32 {
    if limit < 1 {
        1
    } else if limit > 100 {
        100
    } else {
        limit
    }
}

/// The limit within its range.
pub fn clamp_thread_limit(limit: u32) -> (r: u32)
    ensures
        r == shown_limit(limit),
{
    if limit < 1 {
        1
    } else if limit > 100 {
        100
    } else {
        limit
    }
}

fn owned_text(t: &Option<String>) -> (r: String)
    ensures
        r@ == text_or_empty(t.deep_view()),
{
    match t {
        Some(t) => t.clone(),
        None => String::new(),
    }
}

/// The frame of the window: connection, account, project and update.
#[verifier::opaque]
pub open spec fn frame_of(c: ControllerView, inspector_visible: bool) -> FrameModelView {
    let s = c.state;
    FrameModelView {
        startup_finished: !c.startup_in_progress,
        connected: s.connected,
        connection_text: s.connection_text,
        account_label: s.account.label,
        plan_label: s.account.plan,
        workspace_path: shortened(s.prefs.workspace, 54),
        respect_gitignore: s.prefs.respect_gitignore,
        visible_thread_limit: shown_limit(s.prefs.visible_thread_limit),
        workspace_name: shown_project(s),
        has_project: s.active_project is Some,
        busy: s.busy(),
        codex_update_version: text_or_empty(s.codex_update_version),
        codex_update_in_progress: s.codex_update_in_progress,
        inspector_visible: s.prefs.show_inspector || inspector_visible,
    }
}

fn make_frame(controller: &Controller, inspector_visible: bool) -> (r: FrameModel)
    ensures
        r.deep_view() == frame_of(controller.deep_view(), inspector_visible),
{
    proof {
        reveal(frame_of);
    }
    let state = &controller.state;
    FrameModel {
        startup_finished: !controller.startup_in_progress,
        connected: state.connected,
        connection_text: state.connection_text.clone(),
        account_label: state.account.label.clone(),
        plan_label: state.account.plan.clone(),
        workspace_path: short_path(state.prefs.workspace.as_str(), 54),
        respect_gitignore: state.prefs.respect_gitignore,
        visible_thread_limit: clamp_thread_limit(state.prefs.visible_thread_limit),
        workspace_name: project_name(state),
        has_project: state.active_project.is_some(),
        busy: state.active_thread_busy(),
        codex_update_version: owned_text(&state.codex_update_version),
        codex_update_in_progress: state.codex_update_in_progress,
        inspector_visible: state.prefs.show_inspector || inspector_visible,
    }
}

/// The sidebar and the conversation.
#[verifier::opaque]
pub open spec fn lists_of(s: AppStateView, search: Seq<char>, now: i64) -> ListsModelView {
    let threads = thread_rows_of(s, search, now);
    ListsModelView {
        threads,
        projects: project_rows_of(s, threads),
        active_thread_id: text_or_empty(s.active_local_thread),
        messages: rows_of(s.conversation),
        active_thread_title: shown_title(s),
    }
}

fn make_lists(state: &AppState, search: &str, now: i64) -> (r: ListsModel)
    ensures
        r.deep_view() == lists_of(state.deep_view(), search@, now),
{
    proof {
        reveal(lists_of);
    }
    let threads = thread_rows_at(state, search, now);
    let projects = project_rows(state, &threads);
    ListsModel {
        threads,
        projects,
        active_thread_id: owned_text(&state.active_local_thread),
        messages: message_rows(&state.conversation),
        active_thread_title: thread_title(state),
    }
}

/// How much of the context and of the plan is used.
#[verifier::opaque]
pub open spec fn usage_of(s: AppStateView) -> UsageModelView {
    UsageModelView {
        context_label: usage_label(shown_usage(s)),
        context_percent: usage_percent(shown_usage(s)) as u32,
        context_progress_path: ring_path(usage_percent(shown_usage(s)) as nat),
        usage_left_label: left_label(s.plan_usage),
        usage_summary: usage_summary_of(s.plan_usage),
        reset_count: match s.plan_usage {
            Some(u) => if u.available_reset_count > i32::MAX {
                i32::MAX as u32
            } else {
                u.available_reset_count as u32
            },
            None => 0,
        },
        reset_in_progress: s.reset_in_progress,
    }
}

fn make_usage(state: &AppState) -> (r: UsageModel)
    ensures
        r.deep_view() == usage_of(state.deep_view()),
{
    proof {
        reveal(usage_of);
    }
    let usage = thread_usage(state);
    let percent: u32 = match usage {
        Some(u) => u.percent(),
        None => 0,
    };
    let reset_count: u32 = match &state.plan_usage {
        Some(u) => if u.available_reset_count > 2147483647 {
            2147483647
        } else {
            u.available_reset_count as u32
        },
        None => 0,
    };
    UsageModel {
        context_label: context_label(usage),
        context_percent: percent,
        context_progress_path: context_ring_path(percent),
        usage_left_label: usage_left_label(&state.plan_usage),
        usage_summary: summarize_usage(&state.plan_usage),
        reset_count,
        reset_in_progress: state.reset_in_progress,
    }
}

/// The files, the changes and the log.
#[verifier::opaque]
pub open spec fn workspace_with(
    s: AppStateView,
    changes: Seq<ParsedChangeRowView>,
) -> WorkspaceModelView {
    WorkspaceModelView {
        files: file_rows_of(s.files, changed_paths(changes)),
        changes,
        staged_change_count: staged_count(changes) as u64,
        unstaged_change_count: unstaged_count(changes) as u64,
        activity: recent_activity(s.activity_log),
    }
}

fn make_workspace(state: &AppState, changes: Vec<ParsedChangeRow>) -> (r: WorkspaceModel)
    ensures
        r.deep_view() == workspace_with(state.deep_view(), changes.deep_view()),
{
    proof {
        reveal(workspace_with);
    }
    let changed = collect_changed(&changes);
    let (staged_change_count, unstaged_change_count) = count_changes(&changes);
    WorkspaceModel {
        files: file_rows(&state.files, &changed),
        changes,
        staged_change_count,
        unstaged_change_count,
        activity: latest_activity(&state.activity_log),
    }
}

/// The choices of model, effort, sandbox and approval.
#[verifier::opaque]
pub open spec fn agent_of(s: AppStateView) -> AgentModelView {
    let agent = s.agent();
    let efforts = efforts_for(s.models, agent.model, agent.effort);
    let default_efforts = efforts_for(s.models, s.prefs.model, s.prefs.effort);
    let summary_efforts = efforts_for(s.models, s.prefs.summary_model, s.prefs.summary_effort);
    AgentModelView {
        model_names: model_names_of(s.models),
        selected_model_index: model_index(s.models, agent.model) as usize,
        effort_names: efforts,
        selected_effort_index: text_index(efforts, agent.effort) as usize,
        default_model_index: model_index(s.models, s.prefs.model) as usize,
        default_effort_names: default_efforts,
        default_effort_index: text_index(default_efforts, s.prefs.effort) as usize,
        summary_model_index: model_index(s.models, s.prefs.summary_model) as usize,
        summary_effort_names: summary_efforts,
        summary_effort_index: text_index(summary_efforts, s.prefs.summary_effort) as usize,
        sandbox_names: sandbox_labels(),
        selected_sandbox_index: sandbox_index(
            match agent.sandbox {
                Some(x) => x,
                None => s.prefs.sandbox,
            },
        ),
        default_sandbox_index: sandbox_index(s.prefs.sandbox),
        approval_names: approval_labels(),
        selected_approval_index: approval_index(s.prefs.approval),
    }
}

/// The labels of the sandboxes.
pub open spec fn sandbox_labels() -> Seq<Seq<char>> {
    seq![
        SandboxChoice::ReadOnly.label_text(),
        SandboxChoice::WorkspaceWrite.label_text(),
        SandboxChoice::FullAccess.label_text(),
    ]
}

fn list_sandboxes() -> (r: Vec<String>)
    ensures
        r.deep_view() == sandbox_labels(),
{
    let r: Vec<String> = vec![
        SandboxChoice::ReadOnly.label().to_owned(),
        SandboxChoice::WorkspaceWrite.label().to_owned(),
        SandboxChoice::FullAccess.label().to_owned(),
    ];
    assert(r.deep_view() =~= sandbox_labels());
    r
}

/// The labels of the approval policies.
pub open spec fn approval_labels() -> Seq<Seq<char>> {
    seq![
        ApprovalChoice::OnRequest.label_text(),
        ApprovalChoice::Untrusted.label_text(),
        ApprovalChoice::Never.label_text(),
    ]
}

fn list_approvals() -> (r: Vec<String>)
    ensures
        r.deep_view() == approval_labels(),
{
    let r: Vec<String> = vec![
        ApprovalChoice::OnRequest.label().to_owned(),
        ApprovalChoice::Untrusted.label().to_owned(),
        ApprovalChoice::Never.label().to_owned(),
    ];
    assert(r.deep_view() =~= approval_labels());
    r
}

fn make_agent(state: &AppState) -> (r: AgentModel)
    ensures
        r.deep_view() == agent_of(state.deep_view()),
{
    proof {
        reveal(agent_of);
    }
    let agent = state.active_agent();
    let efforts = list_efforts(&state.models, agent.model.as_str(), agent.effort.as_str());
    let default_efforts = list_efforts(
        &state.models,
        state.prefs.model.as_str(),
        state.prefs.effort.as_str(),
    );
    let summary_efforts = list_efforts(
        &state.models,
        state.prefs.summary_model.as_str(),
        state.prefs.summary_effort.as_str(),
    );
    let sandbox = match agent.sandbox {
        Some(x) => x,
        None => state.prefs.sandbox,
    };
    let selected_effort_index: usize = index_of_text(&efforts, agent.effort.as_str());
    let default_effort_index: usize = index_of_text(
        &default_efforts,
        state.prefs.effort.as_str(),
    );
    let summary_effort_index: usize = index_of_text(
        &summary_efforts,
        state.prefs.summary_effort.as_str(),
    );
    AgentModel {
        model_names: collect_model_names(&state.models),
        selected_model_index: index_of_model(&state.models, agent.model.as_str()),
        effort_names: efforts,
        selected_effort_index,
        default_model_index: index_of_model(&state.models, state.prefs.model.as_str()),
        default_effort_names: default_efforts,
        default_effort_index,
        summary_model_index: index_of_model(&state.models, state.prefs.summary_model.as_str()),
        summary_effort_names: summary_efforts,
        summary_effort_index,
        sandbox_names: list_sandboxes(),
        selected_sandbox_index: index_of_sandbox(sandbox),
        default_sandbox_index: index_of_sandbox(state.prefs.sandbox),
        approval_names: list_approvals(),
        selected_approval_index: index_of_approval(state.prefs.approval),
    }
}

/// What asks for the attention of the user.
#[verifier::opaque]
pub open spec fn dialogs_of(s: AppStateView) -> DialogModelView {
    DialogModelView {
        approval_title: match s.approval {
            Some(a) => a.title,
            None => Seq::empty(),
        },
        approval_detail: match s.approval {
            Some(a) => a.detail,
            None => Seq::empty(),
        },
        approval_session: match s.approval {
            Some(a) => a.allow_session,
            None => false,
        },
        questions: shown_questions(s),
        toast_text: match s.toast {
            Some(t) => t.message,
            None => Seq::empty(),
        },
        toast_error: match s.toast {
            Some(t) => Some(t.is_error),
            None => None,
        },
    }
}

fn make_dialogs(state: &AppState) -> (r: DialogModel)
    ensures
        r.deep_view() == dialogs_of(state.deep_view()),
{
    proof {
        reveal(dialogs_of);
    }
    let (approval_title, approval_detail, approval_session) = match &state.approval {
        Some(a) => (a.title.clone(), a.detail.clone(), a.allow_session),
        None => (String::new(), String::new(), false),
    };
    let (toast_text, toast_error) = match &state.toast {
        Some(t) => (t.message.clone(), Some(t.is_error)),
        None => (String::new(), None),
    };
    DialogModel {
        approval_title,
        approval_detail,
        approval_session,
        questions: question_rows(state),
        toast_text,
        toast_error,
    }
}

/// What the window shows.
pub open spec fn ui_model(
    c: ControllerView,
    search: Seq<char>,
    inspector_visible: bool,
    now: i64,
) -> UiModelView {
    UiModelView {
        frame: frame_of(c, inspector_visible),
        lists: lists_of(c.state, search, now),
        usage: usage_of(c.state),
        workspace: workspace_with(c.state, changes_in_lines(text_lines(c.state.git_diff))),
        agent: agent_of(c.state),
        dialogs: dialogs_of(c.state),
    }
}

pub fn sync_ui(controller: &Controller, search: &str, inspector_visible: bool, now: i64) -> (r: UiModel)
    ensures
        r.deep_view() == ui_model(controller.deep_view(), search@, inspector_visible, now),
{
    UiModel {
        frame: make_frame(controller, inspector_visible),
        lists: make_lists(&controller.state, search, now),
        usage: make_usage(&controller.state),
        workspace: make_workspace(
            &controller.state,
            change_rows(controller.state.git_diff.as_str()),
        ),
        agent: make_agent(&controller.state),
        dialogs: make_dialogs(&controller.state),
    }
}

/// The files, the changes and the log where an inspection has written the
/// changes as JSON records; none where the changes are the lines of a status.
pub fn recorded_workspace(state: &AppState) -> (r: Option<WorkspaceModel>)
    ensures
        match r {
            Some(model) => changes_recorded(state.git_diff@) is Some && model.deep_view()
                == workspace_with(state.deep_view(), changes_recorded(state.git_diff@)->0),
            None => changes_recorded(state.git_diff@) is None,
        },
{
    match recorded_change_rows(state.git_diff.as_str()) {
        Some(changes) => Some(make_workspace(state, changes)),
        None => None,
    }
}

/// The revision of the messages after one more change, from the largest number
/// back to zero.
pub fn next_message_revision(revision: i32) -> (r: i32)
    ensures
        r == if revision == i32::MAX {
            0
        } else {
            revision + 1
        },
{
    if revision == 2147483647 {
        0
    } else {
        revision + 1
    }
}

} // verus!
