//! The data of the application: projects, threads, conversations, settings
//! and what the backend reports about models, account and usage.
use crate::json::{Json, JsonView};
use crate::order::{lemma_insert_by, sorted_by, text_before};
use crate::text::{same_text, text_less};
use vstd::prelude::*;
use vstd::string::*;

verus! {

/// What an entry of a conversation is.
#[derive(Debug, Clone, Copy, PartialEq, Eq, Structural)]
pub enum ItemKind {
    User,
    Assistant,
    Reasoning,
    Command,
    FileChange,
    Tool,
    Plan,
    System,
}

impl DeepView for ItemKind {
    type V = ItemKind;

    open spec fn deep_view(&self) -> ItemKind {
        *self
    }
}

/// How far the agent may reach into the file system.
#[derive(Debug, Clone, Copy, PartialEq, Eq, Structural)]
pub enum SandboxChoice {
    ReadOnly,
    WorkspaceWrite,
    FullAccess,
}

impl DeepView for SandboxChoice {
    type V = SandboxChoice;

    open spec fn deep_view(&self) -> SandboxChoice {
        *self
    }
}

/// When the agent asks before it acts.
#[derive(Debug, Clone, Copy, PartialEq, Eq, Structural)]
pub enum ApprovalChoice {
    OnRequest,
    Untrusted,
    Never,
}

impl DeepView for ApprovalChoice {
    type V = ApprovalChoice;

    open spec fn deep_view(&self) -> ApprovalChoice {
        *self
    }
}

/// How much of a model's context window a thread fills.
#[derive(Debug, Clone, Copy, PartialEq, Eq, Structural)]
pub struct ContextWindowUsage {
    pub used_tokens: u64,
    pub capacity_tokens: u64,
}

impl DeepView for ContextWindowUsage {
    type V = ContextWindowUsage;

    open spec fn deep_view(&self) -> ContextWindowUsage {
        *self
    }
}

/// One window of a rate limit.
#[derive(Debug, Clone, Copy, PartialEq, Eq, Structural)]
pub struct RateLimitWindow {
    pub used_percent: u32,
    pub resets_at: Option<i64>,
    pub duration_minutes: Option<i64>,
}

impl DeepView for RateLimitWindow {
    type V = RateLimitWindow;

    open spec fn deep_view(&self) -> RateLimitWindow {
        *self
    }
}

/// A directory that threads belong to.
#[derive(Debug, PartialEq, Eq)]
pub struct Project {
    pub id: String,
    pub name: String,
    pub path: String,
    pub created_at: i64,
    pub collapsed: bool,
}

/// What a [`Project`] holds.
pub struct ProjectView {
    pub id: Seq<char>,
    pub name: Seq<char>,
    pub path: Seq<char>,
    pub created_at: i64,
    pub collapsed: bool,
}

impl DeepView for Project {
    type V = ProjectView;

    open spec fn deep_view(&self) -> ProjectView {
        ProjectView {
            id: self.id.deep_view(),
            name: self.name.deep_view(),
            path: self.path.deep_view(),
            created_at: self.created_at.deep_view(),
            collapsed: self.collapsed.deep_view(),
        }
    }
}

impl Clone for Project {
    fn clone(&self) -> (r: Self)
        ensures
            r.deep_view() == self.deep_view(),
    {
        let r = Project {
            id: self.id.clone(),
            name: self.name.clone(),
            path: self.path.clone(),
            created_at: self.created_at,
            collapsed: self.collapsed,
        };
        r
    }
}

/// The agent settings of one thread; an empty or missing one is still to be filled.
#[derive(Debug, PartialEq, Eq)]
pub struct ThreadAgentSettings {
    pub model: String,
    pub effort: String,
    pub sandbox: Option<SandboxChoice>,
    pub approval: Option<ApprovalChoice>,
}

/// What a [`ThreadAgentSettings`] holds.
pub struct ThreadAgentSettingsView {
    pub model: Seq<char>,
    pub effort: Seq<char>,
    pub sandbox: Option<SandboxChoice>,
    pub approval: Option<ApprovalChoice>,
}

impl DeepView for ThreadAgentSettings {
    type V = ThreadAgentSettingsView;

    open spec fn deep_view(&self) -> ThreadAgentSettingsView {
        ThreadAgentSettingsView {
            model: self.model.deep_view(),
            effort: self.effort.deep_view(),
            sandbox: self.sandbox.deep_view(),
            approval: self.approval.deep_view(),
        }
    }
}

impl Clone for ThreadAgentSettings {
    fn clone(&self) -> (r: Self)
        ensures
            r.deep_view() == self.deep_view(),
    {
        let r = ThreadAgentSettings {
            model: self.model.clone(),
            effort: self.effort.clone(),
            sandbox: self.sandbox,
            approval: self.approval,
        };
        r
    }
}

/// One entry of a conversation.
#[derive(Debug, PartialEq, Eq)]
pub struct ConversationItem {
    pub id: String,
    pub kind: ItemKind,
    pub title: String,
    pub body: String,
    pub status: String,
    pub collapsed: bool,
    pub summary: Option<String>,
    pub duration_ms: Option<u64>,
    pub response_details_collapsed: bool,
    pub attachments: Vec<String>,
}

/// What a [`ConversationItem`] holds.
pub struct ConversationItemView {
    pub id: Seq<char>,
    pub kind: ItemKind,
    pub title: Seq<char>,
    pub body: Seq<char>,
    pub status: Seq<char>,
    pub collapsed: bool,
    pub summary: Option<Seq<char>>,
    pub duration_ms: Option<u64>,
    pub response_details_collapsed: bool,
    pub attachments: Seq<Seq<char>>,
}

impl DeepView for ConversationItem {
    type V = ConversationItemView;

    open spec fn deep_view(&self) -> ConversationItemView {
        ConversationItemView {
            id: self.id.deep_view(),
            kind: self.kind.deep_view(),
            title: self.title.deep_view(),
            body: self.body.deep_view(),
            status: self.status.deep_view(),
            collapsed: self.collapsed.deep_view(),
            summary: self.summary.deep_view(),
            duration_ms: self.duration_ms.deep_view(),
            response_details_collapsed: self.response_details_collapsed.deep_view(),
            attachments: self.attachments.deep_view(),
        }
    }
}

impl Clone for ConversationItem {
    fn clone(&self) -> (r: Self)
        ensures
            r.deep_view() == self.deep_view(),
    {
        let r = ConversationItem {
            id: self.id.clone(),
            kind: self.kind,
            title: self.title.clone(),
            body: self.body.clone(),
            status: self.status.clone(),
            collapsed: self.collapsed,
            summary: self.summary.clone(),
            duration_ms: self.duration_ms,
            response_details_collapsed: self.response_details_collapsed,
            attachments: self.attachments.clone(),
        };
        assert(r.attachments.deep_view() =~= self.attachments.deep_view());
        r
    }
}

/// A conversation with the agent about one project.
#[derive(Debug, PartialEq, Eq)]
pub struct LocalThread {
    pub id: String,
    pub project_id: String,
    pub title: String,
    pub created_at: i64,
    pub updated_at: i64,
    pub title_generated: bool,
    pub messages: Vec<ConversationItem>,
    pub context_usage: Option<ContextWindowUsage>,
    pub agent: ThreadAgentSettings,
    pub unread_completion: bool,
}

/// What a [`LocalThread`] holds.
pub struct LocalThreadView {
    pub id: Seq<char>,
    pub project_id: Seq<char>,
    pub title: Seq<char>,
    pub created_at: i64,
    pub updated_at: i64,
    pub title_generated: bool,
    pub messages: Seq<ConversationItemView>,
    pub context_usage: Option<ContextWindowUsage>,
    pub agent: ThreadAgentSettingsView,
    pub unread_completion: bool,
}

impl DeepView for LocalThread {
    type V = LocalThreadView;

    open spec fn deep_view(&self) -> LocalThreadView {
        LocalThreadView {
            id: self.id.deep_view(),
            project_id: self.project_id.deep_view(),
            title: self.title.deep_view(),
            created_at: self.created_at.deep_view(),
            updated_at: self.updated_at.deep_view(),
            title_generated: self.title_generated.deep_view(),
            messages: self.messages.deep_view(),
            context_usage: self.context_usage.deep_view(),
            agent: self.agent.deep_view(),
            unread_completion: self.unread_completion.deep_view(),
        }
    }
}

impl Clone for LocalThread {
    fn clone(&self) -> (r: Self)
        ensures
            r.deep_view() == self.deep_view(),
    {
        let r = LocalThread {
            id: self.id.clone(),
            project_id: self.project_id.clone(),
            title: self.title.clone(),
            created_at: self.created_at,
            updated_at: self.updated_at,
            title_generated: self.title_generated,
            messages: self.messages.clone(),
            context_usage: self.context_usage,
            agent: self.agent.clone(),
            unread_completion: self.unread_completion,
        };
        assert(r.messages.deep_view() =~= self.messages.deep_view());
        r
    }
}

/// A prompt that was not sent yet.
#[derive(Debug, PartialEq, Eq)]
pub struct Draft {
    pub text: String,
    pub attachments: Vec<String>,
}

/// What a [`Draft`] holds.
pub struct DraftView {
    pub text: Seq<char>,
    pub attachments: Seq<Seq<char>>,
}

impl DeepView for Draft {
    type V = DraftView;

    open spec fn deep_view(&self) -> DraftView {
        DraftView {
            text: self.text.deep_view(),
            attachments: self.attachments.deep_view(),
        }
    }
}

impl Clone for Draft {
    fn clone(&self) -> (r: Self)
        ensures
            r.deep_view() == self.deep_view(),
    {
        let r = Draft {
            text: self.text.clone(),
            attachments: self.attachments.clone(),
        };
        assert(r.attachments.deep_view() =~= self.attachments.deep_view());
        r
    }
}

/// A draft under the key of the place it was written in.
#[derive(Debug, PartialEq, Eq)]
pub struct DraftEntry {
    pub key: String,
    pub draft: Draft,
}

/// What a [`DraftEntry`] holds.
pub struct DraftEntryView {
    pub key: Seq<char>,
    pub draft: DraftView,
}

impl DeepView for DraftEntry {
    type V = DraftEntryView;

    open spec fn deep_view(&self) -> DraftEntryView {
        DraftEntryView {
            key: self.key.deep_view(),
            draft: self.draft.deep_view(),
        }
    }
}

impl Clone for DraftEntry {
    fn clone(&self) -> (r: Self)
        ensures
            r.deep_view() == self.deep_view(),
    {
        let r = DraftEntry {
            key: self.key.clone(),
            draft: self.draft.clone(),
        };
        r
    }
}

/// Everything that is kept about projects and threads.
#[derive(Debug, PartialEq, Eq)]
pub struct AppHistory {
    pub projects: Vec<Project>,
    pub threads: Vec<LocalThread>,
    pub archived_threads: Vec<LocalThread>,
    pub drafts: Vec<DraftEntry>,
    pub active_project: Option<String>,
    pub active_thread: Option<String>,
}

/// What a [`AppHistory`] holds.
pub struct AppHistoryView {
    pub projects: Seq<ProjectView>,
    pub threads: Seq<LocalThreadView>,
    pub archived_threads: Seq<LocalThreadView>,
    pub drafts: Seq<DraftEntryView>,
    pub active_project: Option<Seq<char>>,
    pub active_thread: Option<Seq<char>>,
}

impl DeepView for AppHistory {
    type V = AppHistoryView;

    open spec fn deep_view(&self) -> AppHistoryView {
        AppHistoryView {
            projects: self.projects.deep_view(),
            threads: self.threads.deep_view(),
            archived_threads: self.archived_threads.deep_view(),
            drafts: self.drafts.deep_view(),
            active_project: self.active_project.deep_view(),
            active_thread: self.active_thread.deep_view(),
        }
    }
}

impl Clone for AppHistory {
    fn clone(&self) -> (r: Self)
        ensures
            r.deep_view() == self.deep_view(),
    {
        let r = AppHistory {
            projects: self.projects.clone(),
            threads: self.threads.clone(),
            archived_threads: self.archived_threads.clone(),
            drafts: self.drafts.clone(),
            active_project: self.active_project.clone(),
            active_thread: self.active_thread.clone(),
        };
        assert(r.projects.deep_view() =~= self.projects.deep_view());
        assert(r.threads.deep_view() =~= self.threads.deep_view());
        assert(r.archived_threads.deep_view() =~= self.archived_threads.deep_view());
        assert(r.drafts.deep_view() =~= self.drafts.deep_view());
        r
    }
}

/// A model that the backend offers.
#[derive(Debug, PartialEq, Eq)]
pub struct ModelOption {
    pub id: String,
    pub display_name: String,
    pub description: String,
    pub efforts: Vec<String>,
    pub default_effort: String,
    pub is_default: bool,
}

/// What a [`ModelOption`] holds.
pub struct ModelOptionView {
    pub id: Seq<char>,
    pub display_name: Seq<char>,
    pub description: Seq<char>,
    pub efforts: Seq<Seq<char>>,
    pub default_effort: Seq<char>,
    pub is_default: bool,
}

impl DeepView for ModelOption {
    type V = ModelOptionView;

    open spec fn deep_view(&self) -> ModelOptionView {
        ModelOptionView {
            id: self.id.deep_view(),
            display_name: self.display_name.deep_view(),
            description: self.description.deep_view(),
            efforts: self.efforts.deep_view(),
            default_effort: self.default_effort.deep_view(),
            is_default: self.is_default.deep_view(),
        }
    }
}

impl Clone for ModelOption {
    fn clone(&self) -> (r: Self)
        ensures
            r.deep_view() == self.deep_view(),
    {
        let r = ModelOption {
            id: self.id.clone(),
            display_name: self.display_name.clone(),
            description: self.description.clone(),
            efforts: self.efforts.clone(),
            default_effort: self.default_effort.clone(),
            is_default: self.is_default,
        };
        assert(r.efforts.deep_view() =~= self.efforts.deep_view());
        r
    }
}

/// Who is signed in.
#[derive(Debug, PartialEq, Eq)]
pub struct AccountInfo {
    pub label: String,
    pub plan: String,
    pub authenticated: bool,
}

/// What a [`AccountInfo`] holds.
pub struct AccountInfoView {
    pub label: Seq<char>,
    pub plan: Seq<char>,
    pub authenticated: bool,
}

impl DeepView for AccountInfo {
    type V = AccountInfoView;

    open spec fn deep_view(&self) -> AccountInfoView {
        AccountInfoView {
            label: self.label.deep_view(),
            plan: self.plan.deep_view(),
            authenticated: self.authenticated.deep_view(),
        }
    }
}

impl Clone for AccountInfo {
    fn clone(&self) -> (r: Self)
        ensures
            r.deep_view() == self.deep_view(),
    {
        let r = AccountInfo {
            label: self.label.clone(),
            plan: self.plan.clone(),
            authenticated: self.authenticated,
        };
        r
    }
}

/// A rate limit of the plan.
#[derive(Debug, PartialEq, Eq)]
pub struct RateLimit {
    pub id: String,
    pub name: String,
    pub plan: String,
    pub primary: Option<RateLimitWindow>,
    pub secondary: Option<RateLimitWindow>,
    pub credits_balance: Option<String>,
    pub credits_unlimited: bool,
}

/// What a [`RateLimit`] holds.
pub struct RateLimitView {
    pub id: Seq<char>,
    pub name: Seq<char>,
    pub plan: Seq<char>,
    pub primary: Option<RateLimitWindow>,
    pub secondary: Option<RateLimitWindow>,
    pub credits_balance: Option<Seq<char>>,
    pub credits_unlimited: bool,
}

impl DeepView for RateLimit {
    type V = RateLimitView;

    open spec fn deep_view(&self) -> RateLimitView {
        RateLimitView {
            id: self.id.deep_view(),
            name: self.name.deep_view(),
            plan: self.plan.deep_view(),
            primary: self.primary.deep_view(),
            secondary: self.secondary.deep_view(),
            credits_balance: self.credits_balance.deep_view(),
            credits_unlimited: self.credits_unlimited.deep_view(),
        }
    }
}

impl Clone for RateLimit {
    fn clone(&self) -> (r: Self)
        ensures
            r.deep_view() == self.deep_view(),
    {
        let r = RateLimit {
            id: self.id.clone(),
            name: self.name.clone(),
            plan: self.plan.clone(),
            primary: self.primary,
            secondary: self.secondary,
            credits_balance: self.credits_balance.clone(),
            credits_unlimited: self.credits_unlimited,
        };
        r
    }
}

/// A credit that resets a usage window.
#[derive(Debug, PartialEq, Eq)]
pub struct ResetCredit {
    pub id: String,
    pub title: String,
    pub description: String,
    pub status: String,
    pub granted_at: i64,
    pub expires_at: Option<i64>,
}

/// What a [`ResetCredit`] holds.
pub struct ResetCreditView {
    pub id: Seq<char>,
    pub title: Seq<char>,
    pub description: Seq<char>,
    pub status: Seq<char>,
    pub granted_at: i64,
    pub expires_at: Option<i64>,
}

impl DeepView for ResetCredit {
    type V = ResetCreditView;

    open spec fn deep_view(&self) -> ResetCreditView {
        ResetCreditView {
            id: self.id.deep_view(),
            title: self.title.deep_view(),
            description: self.description.deep_view(),
            status: self.status.deep_view(),
            granted_at: self.granted_at.deep_view(),
            expires_at: self.expires_at.deep_view(),
        }
    }
}

impl Clone for ResetCredit {
    fn clone(&self) -> (r: Self)
        ensures
            r.deep_view() == self.deep_view(),
    {
        let r = ResetCredit {
            id: self.id.clone(),
            title: self.title.clone(),
            description: self.description.clone(),
            status: self.status.clone(),
            granted_at: self.granted_at,
            expires_at: self.expires_at,
        };
        r
    }
}

/// The usage of the plan.
#[derive(Debug, PartialEq, Eq)]
pub struct PlanUsage {
    pub limits: Vec<RateLimit>,
    pub available_reset_count: u64,
    pub reset_credits: Option<Vec<ResetCredit>>,
}

/// What a [`PlanUsage`] holds.
pub struct PlanUsageView {
    pub limits: Seq<RateLimitView>,
    pub available_reset_count: u64,
    pub reset_credits: Option<Seq<ResetCreditView>>,
}

impl DeepView for PlanUsage {
    type V = PlanUsageView;

    open spec fn deep_view(&self) -> PlanUsageView {
        PlanUsageView {
            limits: self.limits.deep_view(),
            available_reset_count: self.available_reset_count.deep_view(),
            reset_credits: self.reset_credits.deep_view(),
        }
    }
}

impl Clone for PlanUsage {
    fn clone(&self) -> (r: Self)
        ensures
            r.deep_view() == self.deep_view(),
    {
        let r = PlanUsage {
            limits: self.limits.clone(),
            available_reset_count: self.available_reset_count,
            reset_credits: self.reset_credits.clone(),
        };
        assert(r.limits.deep_view() =~= self.limits.deep_view());
        assert(r.reset_credits is Some ==> r.reset_credits->0.deep_view() =~= self.reset_credits->0.deep_view());
        r
    }
}

/// A request of the agent that waits for the user's decision.
#[derive(Debug, PartialEq)]
pub struct Approval {
    pub request_id: Json,
    pub local_thread_id: Option<String>,
    pub method: String,
    pub title: String,
    pub detail: String,
    pub allow_session: bool,
}

/// What a [`Approval`] holds.
pub struct ApprovalView {
    pub request_id: JsonView,
    pub local_thread_id: Option<Seq<char>>,
    pub method: Seq<char>,
    pub title: Seq<char>,
    pub detail: Seq<char>,
    pub allow_session: bool,
}

impl DeepView for Approval {
    type V = ApprovalView;

    open spec fn deep_view(&self) -> ApprovalView {
        ApprovalView {
            request_id: self.request_id.deep_view(),
            local_thread_id: self.local_thread_id.deep_view(),
            method: self.method.deep_view(),
            title: self.title.deep_view(),
            detail: self.detail.deep_view(),
            allow_session: self.allow_session.deep_view(),
        }
    }
}

impl Clone for Approval {
    fn clone(&self) -> (r: Self)
        ensures
            r.deep_view() == self.deep_view(),
    {
        let r = Approval {
            request_id: self.request_id.clone(),
            local_thread_id: self.local_thread_id.clone(),
            method: self.method.clone(),
            title: self.title.clone(),
            detail: self.detail.clone(),
            allow_session: self.allow_session,
        };
        r
    }
}

/// The user's settings.
#[derive(Debug, PartialEq, Eq)]
pub struct Preferences {
    pub workspace: String,
    pub model: String,
    pub effort: String,
    pub sandbox: SandboxChoice,
    pub approval: ApprovalChoice,
    pub show_inspector: bool,
    pub respect_gitignore: bool,
    pub summary_model: String,
    pub summary_effort: String,
    pub visible_thread_limit: u32,
    pub github_private_repositories: bool,
}

/// What a [`Preferences`] holds.
pub struct PreferencesView {
    pub workspace: Seq<char>,
    pub model: Seq<char>,
    pub effort: Seq<char>,
    pub sandbox: SandboxChoice,
    pub approval: ApprovalChoice,
    pub show_inspector: bool,
    pub respect_gitignore: bool,
    pub summary_model: Seq<char>,
    pub summary_effort: Seq<char>,
    pub visible_thread_limit: u32,
    pub github_private_repositories: bool,
}

impl DeepView for Preferences {
    type V = PreferencesView;

    open spec fn deep_view(&self) -> PreferencesView {
        PreferencesView {
            workspace: self.workspace.deep_view(),
            model: self.model.deep_view(),
            effort: self.effort.deep_view(),
            sandbox: self.sandbox.deep_view(),
            approval: self.approval.deep_view(),
            show_inspector: self.show_inspector.deep_view(),
            respect_gitignore: self.respect_gitignore.deep_view(),
            summary_model: self.summary_model.deep_view(),
            summary_effort: self.summary_effort.deep_view(),
            visible_thread_limit: self.visible_thread_limit.deep_view(),
            github_private_repositories: self.github_private_repositories.deep_view(),
        }
    }
}

impl Clone for Preferences {
    fn clone(&self) -> (r: Self)
        ensures
            r.deep_view() == self.deep_view(),
    {
        let r = Preferences {
            workspace: self.workspace.clone(),
            model: self.model.clone(),
            effort: self.effort.clone(),
            sandbox: self.sandbox,
            approval: self.approval,
            show_inspector: self.show_inspector,
            respect_gitignore: self.respect_gitignore,
            summary_model: self.summary_model.clone(),
            summary_effort: self.summary_effort.clone(),
            visible_thread_limit: self.visible_thread_limit,
            github_private_repositories: self.github_private_repositories,
        };
        r
    }
}

/// What is written to disk.
#[derive(Debug, PartialEq, Eq)]
pub struct PersistedState {
    pub preferences: Preferences,
    pub history: AppHistory,
}

/// What a [`PersistedState`] holds.
pub struct PersistedStateView {
    pub preferences: PreferencesView,
    pub history: AppHistoryView,
}

impl DeepView for PersistedState {
    type V = PersistedStateView;

    open spec fn deep_view(&self) -> PersistedStateView {
        PersistedStateView {
            preferences: self.preferences.deep_view(),
            history: self.history.deep_view(),
        }
    }
}

impl Clone for PersistedState {
    fn clone(&self) -> (r: Self)
        ensures
            r.deep_view() == self.deep_view(),
    {
        let r = PersistedState {
            preferences: self.preferences.clone(),
            history: self.history.clone(),
        };
        r
    }
}

/// A text that is there, or the empty one.
pub open spec fn text_or_empty(t: Option<Seq<char>>) -> Seq<char> {
    match t {
        Some(t) => t,
        None => Seq::empty(),
    }
}

pub fn owned_or_empty(t: Option<&str>) -> (r: String)
    ensures
        r@ == text_or_empty(t.deep_view()),
{
    match t {
        Some(t) => t.to_owned(),
        None => String::new(),
    }
}

/// A text that is there, or another one.
pub open spec fn text_or(t: Option<Seq<char>>, other: Seq<char>) -> Seq<char> {
    match t {
        Some(t) => t,
        None => other,
    }
}

pub fn owned_or(t: Option<&str>, other: &str) -> (r: String)
    ensures
        r@ == text_or(t.deep_view(), other@),
{
    match t {
        Some(t) => t.to_owned(),
        None => other.to_owned(),
    }
}

/// A text that is there and not empty, or another one.
pub open spec fn nonempty_or(t: Option<Seq<char>>, other: Seq<char>) -> Seq<char> {
    match t {
        Some(t) => if t.len() > 0 {
            t
        } else {
            other
        },
        None => other,
    }
}

pub fn owned_nonempty_or(t: Option<&str>, other: &str) -> (r: String)
    ensures
        r@ == nonempty_or(t.deep_view(), other@),
{
    match t {
        Some(t) => if !t.is_empty() {
            t.to_owned()
        } else {
            other.to_owned()
        },
        None => other.to_owned(),
    }
}

impl ItemKind {
    /// The name under which a kind goes over the wire.
    pub open spec fn name(self) -> Seq<char> {
        match self {
            ItemKind::User => "user"@,
            ItemKind::Assistant => "assistant"@,
            ItemKind::Reasoning => "reasoning"@,
            ItemKind::Command => "command"@,
            ItemKind::FileChange => "file-change"@,
            ItemKind::Tool => "tool"@,
            ItemKind::Plan => "plan"@,
            ItemKind::System => "system"@,
        }
    }

    pub fn wire_name(self) -> (r: &'static str)
        ensures
            r@ == self.name(),
    {
        match self {
            ItemKind::User => "user",
            ItemKind::Assistant => "assistant",
            ItemKind::Reasoning => "reasoning",
            ItemKind::Command => "command",
            ItemKind::FileChange => "file-change",
            ItemKind::Tool => "tool",
            ItemKind::Plan => "plan",
            ItemKind::System => "system",
        }
    }
}

impl SandboxChoice {
    pub open spec fn wire_text(self) -> Seq<char> {
        match self {
            SandboxChoice::ReadOnly => "read-only"@,
            SandboxChoice::WorkspaceWrite => "workspace-write"@,
            SandboxChoice::FullAccess => "danger-full-access"@,
        }
    }

    pub open spec fn label_text(self) -> Seq<char> {
        match self {
            SandboxChoice::ReadOnly => "Read only"@,
            SandboxChoice::WorkspaceWrite => "Workspace"@,
            SandboxChoice::FullAccess => "Full access"@,
        }
    }

    /// The choice that a wire name stands for; unknown names mean the workspace.
    pub open spec fn of_wire(value: Seq<char>) -> SandboxChoice {
        if value == "read-only"@ {
            SandboxChoice::ReadOnly
        } else if value == "danger-full-access"@ {
            SandboxChoice::FullAccess
        } else {
            SandboxChoice::WorkspaceWrite
        }
    }

    /// The choice that a label stands for.
    pub open spec fn of_label(value: Seq<char>) -> Option<SandboxChoice> {
        if value == "Read only"@ {
            Some(SandboxChoice::ReadOnly)
        } else if value == "Workspace"@ {
            Some(SandboxChoice::WorkspaceWrite)
        } else if value == "Full access"@ {
            Some(SandboxChoice::FullAccess)
        } else {
            None
        }
    }

    /// All choices, in the order in which they are offered.
    pub fn all() -> (r: Vec<SandboxChoice>)
        ensures
            r@ == seq![SandboxChoice::ReadOnly, SandboxChoice::WorkspaceWrite, SandboxChoice::FullAccess],
    {
        let r = vec![SandboxChoice::ReadOnly, SandboxChoice::WorkspaceWrite, SandboxChoice::FullAccess];
        assert(r@ =~= seq![
            SandboxChoice::ReadOnly,
            SandboxChoice::WorkspaceWrite,
            SandboxChoice::FullAccess,
        ]);
        r
    }

    pub fn wire(self) -> (r: &'static str)
        ensures
            r@ == self.wire_text(),
    {
        match self {
            SandboxChoice::ReadOnly => "read-only",
            SandboxChoice::WorkspaceWrite => "workspace-write",
            SandboxChoice::FullAccess => "danger-full-access",
        }
    }

    pub fn label(self) -> (r: &'static str)
        ensures
            r@ == self.label_text(),
    {
        match self {
            SandboxChoice::ReadOnly => "Read only",
            SandboxChoice::WorkspaceWrite => "Workspace",
            SandboxChoice::FullAccess => "Full access",
        }
    }

    pub fn from_wire(value: &str) -> (r: SandboxChoice)
        ensures
            r == SandboxChoice::of_wire(value@),
    {
        if same_text(value, "read-only") {
            SandboxChoice::ReadOnly
        } else if same_text(value, "danger-full-access") {
            SandboxChoice::FullAccess
        } else {
            SandboxChoice::WorkspaceWrite
        }
    }

    pub fn from_label(value: &str) -> (r: Option<SandboxChoice>)
        ensures
            r == SandboxChoice::of_label(value@),
    {
        if same_text(value, "Read only") {
            Some(SandboxChoice::ReadOnly)
        } else if same_text(value, "Workspace") {
            Some(SandboxChoice::WorkspaceWrite)
        } else if same_text(value, "Full access") {
            Some(SandboxChoice::FullAccess)
        } else {
            None
        }
    }

    /// Reading a choice's wire name gives the choice back, and so does looking
    /// its label up.
    pub proof fn lemma_names_round_trip(self)
        ensures
            SandboxChoice::of_wire(self.wire_text()) == self,
            SandboxChoice::of_label(self.label_text()) == Some(self),
    {
        reveal_strlit("read-only");
        reveal_strlit("workspace-write");
        reveal_strlit("danger-full-access");
        reveal_strlit("Read only");
        reveal_strlit("Workspace");
        reveal_strlit("Full access");
        assert("workspace-write"@.len() == 15);
        assert("read-only"@.len() == 9);
        assert("danger-full-access"@.len() == 18);
        assert("Read only"@[0] == 'R');
        assert("Workspace"@[0] == 'W');
        assert("Full access"@[0] == 'F');
    }
}

impl ApprovalChoice {
    pub open spec fn wire_text(self) -> Seq<char> {
        match self {
            ApprovalChoice::OnRequest => "on-request"@,
            ApprovalChoice::Untrusted => "untrusted"@,
            ApprovalChoice::Never => "never"@,
        }
    }

    pub open spec fn label_text(self) -> Seq<char> {
        match self {
            ApprovalChoice::OnRequest => "Ask when needed"@,
            ApprovalChoice::Untrusted => "Ask for risky"@,
            ApprovalChoice::Never => "Never ask"@,
        }
    }

    /// The choice that a wire name stands for; unknown names mean on request.
    pub open spec fn of_wire(value: Seq<char>) -> ApprovalChoice {
        if value == "untrusted"@ {
            ApprovalChoice::Untrusted
        } else if value == "never"@ {
            ApprovalChoice::Never
        } else {
            ApprovalChoice::OnRequest
        }
    }

    /// The choice that a label stands for.
    pub open spec fn of_label(value: Seq<char>) -> Option<ApprovalChoice> {
        if value == "Ask when needed"@ {
            Some(ApprovalChoice::OnRequest)
        } else if value == "Ask for risky"@ {
            Some(ApprovalChoice::Untrusted)
        } else if value == "Never ask"@ {
            Some(ApprovalChoice::Never)
        } else {
            None
        }
    }

    /// All choices, in the order in which they are offered.
    pub fn all() -> (r: Vec<ApprovalChoice>)
        ensures
            r@ == seq![ApprovalChoice::OnRequest, ApprovalChoice::Untrusted, ApprovalChoice::Never],
    {
        let r = vec![ApprovalChoice::OnRequest, ApprovalChoice::Untrusted, ApprovalChoice::Never];
        assert(r@ =~= seq![
            ApprovalChoice::OnRequest,
            ApprovalChoice::Untrusted,
            ApprovalChoice::Never,
        ]);
        r
    }

    pub fn wire(self) -> (r: &'static str)
        ensures
            r@ == self.wire_text(),
    {
        match self {
            ApprovalChoice::OnRequest => "on-request",
            ApprovalChoice::Untrusted => "untrusted",
            ApprovalChoice::Never => "never",
        }
    }

    pub fn label(self) -> (r: &'static str)
        ensures
            r@ == self.label_text(),
    {
        match self {
            ApprovalChoice::OnRequest => "Ask when needed",
            ApprovalChoice::Untrusted => "Ask for risky",
            ApprovalChoice::Never => "Never ask",
        }
    }

    pub fn from_wire(value: &str) -> (r: ApprovalChoice)
        ensures
            r == ApprovalChoice::of_wire(value@),
    {
        if same_text(value, "untrusted") {
            ApprovalChoice::Untrusted
        } else if same_text(value, "never") {
            ApprovalChoice::Never
        } else {
            ApprovalChoice::OnRequest
        }
    }

    pub fn from_label(value: &str) -> (r: Option<ApprovalChoice>)
        ensures
            r == ApprovalChoice::of_label(value@),
    {
        if same_text(value, "Ask when needed") {
            Some(ApprovalChoice::OnRequest)
        } else if same_text(value, "Ask for risky") {
            Some(ApprovalChoice::Untrusted)
        } else if same_text(value, "Never ask") {
            Some(ApprovalChoice::Never)
        } else {
            None
        }
    }

    /// Reading a choice's wire name gives the choice back, and so does looking
    /// its label up.
    pub proof fn lemma_names_round_trip(self)
        ensures
            ApprovalChoice::of_wire(self.wire_text()) == self,
            ApprovalChoice::of_label(self.label_text()) == Some(self),
    {
        reveal_strlit("on-request");
        reveal_strlit("untrusted");
        reveal_strlit("never");
        reveal_strlit("Ask when needed");
        reveal_strlit("Ask for risky");
        reveal_strlit("Never ask");
        assert("on-request"@[0] == 'o');
        assert("untrusted"@[0] == 'u');
        assert("never"@[0] == 'n');
        assert("Ask when needed"@.len() == 15);
        assert("Ask for risky"@.len() == 13);
        assert("Never ask"@.len() == 9);
    }
}

/// The settings that a thread copies from the preferences.
pub open spec fn agent_of_preferences(p: PreferencesView) -> ThreadAgentSettingsView {
    ThreadAgentSettingsView {
        model: p.model,
        effort: p.effort,
        sandbox: Some(p.sandbox),
        approval: Some(p.approval),
    }
}

/// The settings with each missing one taken from the preferences.
pub open spec fn agent_filled(a: ThreadAgentSettingsView, p: PreferencesView) -> ThreadAgentSettingsView {
    ThreadAgentSettingsView {
        model: if a.model.len() == 0 {
            p.model
        } else {
            a.model
        },
        effort: if a.effort.len() == 0 {
            p.effort
        } else {
            a.effort
        },
        sandbox: if a.sandbox is None {
            Some(p.sandbox)
        } else {
            a.sandbox
        },
        approval: if a.approval is None {
            Some(p.approval)
        } else {
            a.approval
        },
    }
}

/// Filling settings keeps what was set, fills an unset record as a copy of the
/// preferences, and does nothing the second time.
pub proof fn lemma_filling_settings(
    a: ThreadAgentSettingsView,
    p: PreferencesView,
    q: PreferencesView,
)
    ensures
        a.model.len() > 0 ==> agent_filled(a, p).model == a.model,
        a.effort.len() > 0 ==> agent_filled(a, p).effort == a.effort,
        a.sandbox is Some ==> agent_filled(a, p).sandbox == a.sandbox,
        a.approval is Some ==> agent_filled(a, p).approval == a.approval,
        agent_filled(agent_filled(a, p), p) == agent_filled(a, p),
        p.model.len() > 0 && p.effort.len() > 0 ==> agent_filled(agent_filled(a, p), q)
            == agent_filled(a, p),
        agent_filled(empty_agent(), p) == agent_of_preferences(p),
{
}

/// Settings with nothing set.
pub open spec fn empty_agent() -> ThreadAgentSettingsView {
    ThreadAgentSettingsView { model: Seq::empty(), effort: Seq::empty(), sandbox: None, approval: None }
}

impl Default for ThreadAgentSettings {
    fn default() -> (r: Self)
        ensures
            r.deep_view() == empty_agent(),
    {
        ThreadAgentSettings { model: String::new(), effort: String::new(), sandbox: None, approval: None }
    }
}

impl ThreadAgentSettings {
    pub fn from_preferences(preferences: &Preferences) -> (r: Self)
        ensures
            r.deep_view() == agent_of_preferences(preferences.deep_view()),
    {
        ThreadAgentSettings {
            model: preferences.model.clone(),
            effort: preferences.effort.clone(),
            sandbox: Some(preferences.sandbox),
            approval: Some(preferences.approval),
        }
    }

    pub fn fill_missing_from(&mut self, preferences: &Preferences)
        ensures
            final(self).deep_view() == agent_filled(old(self).deep_view(), preferences.deep_view()),
    {
        if self.model.as_str().is_empty() {
            self.model = preferences.model.clone();
        }
        if self.effort.as_str().is_empty() {
            self.effort = preferences.effort.clone();
        }
        if self.sandbox.is_none() {
            self.sandbox = Some(preferences.sandbox);
        }
        if self.approval.is_none() {
            self.approval = Some(preferences.approval);
        }
    }
}

/// The usage that a token notification reports, if it names a capacity.
pub open spec fn usage_of_notification(params: JsonView) -> Option<ContextWindowUsage> {
    let usage = params.get("tokenUsage"@);
    let last = match usage {
        Some(u) => u.get("last"@),
        None => None,
    };
    let used = match last {
        Some(l) => l.u64_at("totalTokens"@),
        None => None,
    };
    let capacity = match usage {
        Some(u) => u.u64_at("modelContextWindow"@),
        None => None,
    };
    match (used, capacity) {
        (Some(used), Some(capacity)) => if capacity > 0 {
            Some(ContextWindowUsage { used_tokens: used, capacity_tokens: capacity })
        } else {
            None
        },
        _ => None,
    }
}

impl ContextWindowUsage {
    pub fn from_notification(params: &Json) -> (r: Option<ContextWindowUsage>)
        ensures
            r == usage_of_notification(params.deep_view()),
    {
        let usage = match params.get("tokenUsage") {
            Some(usage) => usage,
            None => return None,
        };
        let used: u64 = match usage.get("last") {
            Some(last) => match last.u64_at("totalTokens") {
                Some(used) => used,
                None => return None,
            },
            None => return None,
        };
        match usage.u64_at("modelContextWindow") {
            Some(capacity) => if capacity > 0 {
                Some(ContextWindowUsage { used_tokens: used, capacity_tokens: capacity })
            } else {
                None
            },
            None => None,
        }
    }

    /// The used part of the capacity in whole percent, at most 100; the product
    /// by 100 stops at the largest number, and no capacity counts as one token.
    pub open spec fn percent_used(self) -> int {
        let scaled = if self.used_tokens * 100 <= u64::MAX {
            self.used_tokens * 100
        } else {
            u64::MAX as int
        };
        let capacity = if self.capacity_tokens == 0 {
            1int
        } else {
            self.capacity_tokens as int
        };
        let percent = scaled / capacity;
        if percent < 100 {
            percent
        } else {
            100
        }
    }

    pub fn percent(self) -> (r: u32)
        ensures
            r == self.percent_used(),
            r <= 100,
    {
        let wide: u128 = (self.used_tokens as u128) * 100;
        let scaled: u64 = if wide <= 18446744073709551615 {
            wide as u64
        } else {
            18446744073709551615
        };
        let capacity: u64 = if self.capacity_tokens == 0 {
            1
        } else {
            self.capacity_tokens
        };
        let percent: u64 = scaled / capacity;
        if percent < 100 {
            percent as u32
        } else {
            100
        }
    }
}

/// A new entry: running, empty and open.
pub open spec fn new_item(id: Seq<char>, kind: ItemKind, title: Seq<char>) -> ConversationItemView {
    ConversationItemView {
        id,
        kind,
        title,
        body: Seq::empty(),
        status: "running"@,
        collapsed: false,
        summary: None,
        duration_ms: None,
        response_details_collapsed: false,
        attachments: Seq::empty(),
    }
}

impl ConversationItem {
    pub fn new(id: &str, kind: ItemKind, title: &str) -> (r: Self)
        ensures
            r.deep_view() == new_item(id@, kind, title@),
    {
        let r = ConversationItem {
            id: id.to_owned(),
            kind,
            title: title.to_owned(),
            body: String::new(),
            status: "running".to_owned(),
            collapsed: false,
            summary: None,
            duration_ms: None,
            response_details_collapsed: false,
            attachments: Vec::new(),
        };
        assert(r.attachments.deep_view() =~= Seq::<Seq<char>>::empty());
        r
    }
}

/// The window that a rate limit reports, if it says how much is used.
pub open spec fn window_of(value: JsonView) -> Option<RateLimitWindow> {
    match value.u64_at("usedPercent"@) {
        Some(n) => Some(
            RateLimitWindow {
                used_percent: if n < 100 {
                    n as u32
                } else {
                    100
                },
                resets_at: value.i64_at("resetsAt"@),
                duration_minutes: value.i64_at("windowDurationMins"@),
            },
        ),
        None => None,
    }
}

impl RateLimitWindow {
    pub fn from_protocol(value: &Json) -> (r: Option<RateLimitWindow>)
        ensures
            r == window_of(value.deep_view()),
    {
        match value.u64_at("usedPercent") {
            Some(n) => Some(
                RateLimitWindow {
                    used_percent: if n < 100 {
                        n as u32
                    } else {
                        100
                    },
                    resets_at: value.i64_at("resetsAt"),
                    duration_minutes: value.i64_at("windowDurationMins"),
                },
            ),
            None => None,
        }
    }
}

/// The window under a key, when there is one that is not null.
pub open spec fn window_at(value: JsonView, key: Seq<char>) -> Option<RateLimitWindow> {
    match value.present(key) {
        Some(v) => window_of(v),
        None => None,
    }
}

/// The rate limit that the backend describes; its own id and name win over the
/// fallback, and a missing or empty name is the id.
pub open spec fn rate_limit_of(fallback_id: Seq<char>, value: JsonView) -> RateLimitView {
    let id = text_or(value.text_at("limitId"@), fallback_id);
    let credits = value.present("credits"@);
    RateLimitView {
        id,
        name: nonempty_or(value.text_at("limitName"@), id),
        plan: text_or_empty(value.text_at("planType"@)),
        primary: window_at(value, "primary"@),
        secondary: window_at(value, "secondary"@),
        credits_balance: match credits {
            Some(c) => c.text_at("balance"@),
            None => None,
        },
        credits_unlimited: match credits {
            Some(c) => c.bool_at("unlimited"@) == Some(true),
            None => false,
        },
    }
}

impl RateLimit {
    pub fn from_protocol(fallback_id: &str, value: &Json) -> (r: Self)
        ensures
            r.deep_view() == rate_limit_of(fallback_id@, value.deep_view()),
    {
        let id = owned_or(value.text_at("limitId"), fallback_id);
        let name = owned_nonempty_or(value.text_at("limitName"), id.as_str());
        let primary = match value.present("primary") {
            Some(v) => RateLimitWindow::from_protocol(v),
            None => None,
        };
        let secondary = match value.present("secondary") {
            Some(v) => RateLimitWindow::from_protocol(v),
            None => None,
        };
        let (credits_balance, credits_unlimited) = match value.present("credits") {
            Some(credits) => {
                let balance = match credits.text_at("balance") {
                    Some(t) => Some(t.to_owned()),
                    None => None,
                };
                let unlimited = match credits.bool_at("unlimited") {
                    Some(b) => b,
                    None => false,
                };
                (balance, unlimited)
            },
            None => (None, false),
        };
        RateLimit {
            id,
            name,
            plan: owned_or_empty(value.text_at("planType")),
            primary,
            secondary,
            credits_balance,
            credits_unlimited,
        }
    }

    /// The order in which limits are listed: by name, then by id.
    pub open spec fn listed_before() -> spec_fn(RateLimitView, RateLimitView) -> bool {
        |a: RateLimitView, b: RateLimitView|
            text_less(a.name, b.name) || (a.name == b.name && text_less(a.id, b.id))
    }

    fn is_before(&self, other: &RateLimit) -> (r: bool)
        ensures
            r == RateLimit::listed_before()(self.deep_view(), other.deep_view()),
    {
        text_before(self.name.as_str(), other.name.as_str()) || (same_text(
            self.name.as_str(),
            other.name.as_str(),
        ) && text_before(self.id.as_str(), other.id.as_str()))
    }
}

/// The credit that the backend describes, if it has an id.
pub open spec fn reset_credit_of(value: JsonView) -> Option<ResetCreditView> {
    match value.text_at("id"@) {
        Some(id) => Some(
            ResetCreditView {
                id,
                title: nonempty_or(value.text_at("title"@), "Codex usage reset"@),
                description: text_or_empty(value.text_at("description"@)),
                status: text_or(value.text_at("status"@), "unknown"@),
                granted_at: match value.i64_at("grantedAt"@) {
                    Some(n) => n,
                    None => 0,
                },
                expires_at: value.i64_at("expiresAt"@),
            },
        ),
        None => None,
    }
}

impl ResetCredit {
    pub fn from_protocol(value: &Json) -> (r: Option<ResetCredit>)
        ensures
            r.deep_view() == reset_credit_of(value.deep_view()),
    {
        match value.text_at("id") {
            Some(id) => Some(
                ResetCredit {
                    id: id.to_owned(),
                    title: owned_nonempty_or(value.text_at("title"), "Codex usage reset"),
                    description: owned_or_empty(value.text_at("description")),
                    status: owned_or(value.text_at("status"), "unknown"),
                    granted_at: match value.i64_at("grantedAt") {
                        Some(n) => n,
                        None => 0,
                    },
                    expires_at: value.i64_at("expiresAt"),
                },
            ),
            None => None,
        }
    }
}

/// The credits among the values, those without an id left out.
pub open spec fn reset_credits_of(values: Seq<JsonView>) -> Seq<ResetCreditView>
    decreases values.len(),
{
    if values.len() == 0 {
        Seq::empty()
    } else {
        let before = reset_credits_of(values.drop_last());
        match reset_credit_of(values.last()) {
            Some(c) => before.push(c),
            None => before,
        }
    }
}

/// The limits of an object, one for each member.
pub open spec fn member_limits(entries: Seq<(Seq<char>, JsonView)>) -> Seq<RateLimitView> {
    Seq::new(entries.len(), |i: int| rate_limit_of(entries[i].0, entries[i].1))
}

/// The limits that a usage reply lists: those by id in listing order, or when
/// there are none the single one.
pub open spec fn limits_of(result: JsonView) -> Seq<RateLimitView> {
    let listed = match result.object_at("rateLimitsByLimitId"@) {
        Some(entries) => sorted_by(member_limits(entries), RateLimit::listed_before()),
        None => Seq::empty(),
    };
    if listed.len() > 0 {
        listed
    } else {
        match result.present("rateLimits"@) {
            Some(v) => seq![rate_limit_of(text_or(v.text_at("limitId"@), "codex"@), v)],
            None => Seq::empty(),
        }
    }
}

/// The usage that a usage reply describes.
pub open spec fn plan_usage_of(result: JsonView) -> PlanUsageView {
    let summary = result.present("rateLimitResetCredits"@);
    PlanUsageView {
        limits: limits_of(result),
        available_reset_count: match summary {
            Some(s) => match s.u64_at("availableCount"@) {
                Some(n) => n,
                None => 0,
            },
            None => 0,
        },
        reset_credits: match summary {
            Some(s) => match s.array_at("credits"@) {
                Some(values) => Some(reset_credits_of(values)),
                None => None,
            },
            None => None,
        },
    }
}

fn sorted_member_limits(entries: &Vec<(String, Json)>) -> (r: Vec<RateLimit>)
    ensures
        r.deep_view() == sorted_by(
            member_limits(entries.deep_view()),
            RateLimit::listed_before(),
        ),
{
    let ghost less = RateLimit::listed_before();
    let ghost all = member_limits(entries.deep_view());
    let mut out: Vec<RateLimit> = Vec::new();
    let mut i: usize = 0;
    assert(all.take(0) =~= Seq::<RateLimitView>::empty());
    assert(out.deep_view() =~= Seq::<RateLimitView>::empty());
    while i < entries.len()
        invariant
            i <= entries@.len(),
            less == RateLimit::listed_before(),
            all == member_limits(entries.deep_view()),
            out.deep_view() == sorted_by(all.take(i as int), less),
        decreases entries@.len() - i,
    {
        let limit = RateLimit::from_protocol(entries[i].0.as_str(), &entries[i].1);
        assert(limit.deep_view() == all[i as int]);
        let mut at: usize = out.len();
        while at > 0 && limit.is_before(&out[at - 1])
            invariant
                at <= out@.len(),
                less == RateLimit::listed_before(),
                forall|j: int|
                    at <= j < out@.len() ==> less(limit.deep_view(), #[trigger] out.deep_view()[j]),
            decreases at,
        {
            assert(out.deep_view()[at - 1] == out@[at - 1].deep_view());
            at -= 1;
        }
        proof {
            if at > 0 {
                assert(out.deep_view()[at - 1] == out@[at - 1].deep_view());
            }
            lemma_insert_by(out.deep_view(), limit.deep_view(), less, at as int);
            assert(all.take(i as int + 1).drop_last() =~= all.take(i as int));
        }
        let ghost before = out.deep_view();
        let ghost x = limit.deep_view();
        out.insert(at, limit);
        assert(out.deep_view() =~= before.insert(at as int, x));
        i += 1;
    }
    assert(all.take(i as int) =~= all);
    out
}

fn reset_credits(values: &Vec<Json>) -> (r: Vec<ResetCredit>)
    ensures
        r.deep_view() == reset_credits_of(values.deep_view()),
{
    let ghost all = values.deep_view();
    let mut out: Vec<ResetCredit> = Vec::new();
    let mut i: usize = 0;
    assert(out.deep_view() =~= reset_credits_of(all.take(0)));
    while i < values.len()
        invariant
            i <= values@.len(),
            all == values.deep_view(),
            out.deep_view() == reset_credits_of(all.take(i as int)),
        decreases values@.len() - i,
    {
        assert(all.take(i as int + 1).drop_last() =~= all.take(i as int));
        let ghost before = out.deep_view();
        match ResetCredit::from_protocol(&values[i]) {
            Some(credit) => {
                let ghost x = credit.deep_view();
                out.push(credit);
                assert(out.deep_view() =~= before.push(x));
            },
            None => {},
        }
        i += 1;
    }
    assert(all.take(i as int) =~= all);
    out
}

impl PlanUsage {
    pub fn from_protocol(result: &Json) -> (r: Self)
        ensures
            r.deep_view() == plan_usage_of(result.deep_view()),
    {
        let mut limits = match result.object_at("rateLimitsByLimitId") {
            Some(entries) => sorted_member_limits(entries),
            None => Vec::new(),
        };
        if limits.is_empty() {
            assert(limits.deep_view().len() == 0);
            match result.present("rateLimits") {
                Some(value) => {
                    let id = owned_or(value.text_at("limitId"), "codex");
                    limits.push(RateLimit::from_protocol(id.as_str(), value));
                },
                None => {},
            }
        }
        assert(limits.deep_view() =~= limits_of(result.deep_view()));
        let (available_reset_count, credits) = match result.present("rateLimitResetCredits") {
            Some(summary) => {
                let count: u64 = match summary.u64_at("availableCount") {
                    Some(n) => n,
                    None => 0,
                };
                let credits = match summary.array_at("credits") {
                    Some(values) => Some(reset_credits(values)),
                    None => None,
                };
                (count, credits)
            },
            None => (0, None),
        };
        PlanUsage { limits, available_reset_count, reset_credits: credits }
    }
}

/// The preferences of a first launch in a directory.
pub open spec fn default_preferences(workspace: Seq<char>) -> PreferencesView {
    PreferencesView {
        workspace,
        model: Seq::empty(),
        effort: "high"@,
        sandbox: SandboxChoice::WorkspaceWrite,
        approval: ApprovalChoice::OnRequest,
        show_inspector: false,
        respect_gitignore: true,
        summary_model: "gpt-5.6-luna"@,
        summary_effort: "low"@,
        visible_thread_limit: 5,
        github_private_repositories: true,
    }
}

impl Preferences {
    /// The preferences of a first launch in a directory.
    pub fn for_workspace(workspace: String) -> (r: Self)
        ensures
            r.deep_view() == default_preferences(workspace@),
    {
        Preferences {
            workspace,
            model: String::new(),
            effort: "high".to_owned(),
            sandbox: SandboxChoice::WorkspaceWrite,
            approval: ApprovalChoice::OnRequest,
            show_inspector: false,
            respect_gitignore: true,
            summary_model: "gpt-5.6-luna".to_owned(),
            summary_effort: "low".to_owned(),
            visible_thread_limit: 5,
            github_private_repositories: true,
        }
    }
}

impl Default for Preferences {
    /// The preferences of a first launch without a known directory.
    fn default() -> (r: Self)
        ensures
            r.deep_view() == default_preferences(Seq::empty()),
    {
        Preferences::for_workspace(String::new())
    }
}

/// A history without anything in it.
pub open spec fn empty_history() -> AppHistoryView {
    AppHistoryView {
        projects: Seq::empty(),
        threads: Seq::empty(),
        archived_threads: Seq::empty(),
        drafts: Seq::empty(),
        active_project: None,
        active_thread: None,
    }
}

impl Default for AppHistory {
    fn default() -> (r: Self)
        ensures
            r.deep_view() == empty_history(),
    {
        let r = AppHistory {
            projects: Vec::new(),
            threads: Vec::new(),
            archived_threads: Vec::new(),
            drafts: Vec::new(),
            active_project: None,
            active_thread: None,
        };
        assert(r.projects.deep_view() =~= Seq::empty());
        assert(r.threads.deep_view() =~= Seq::empty());
        assert(r.archived_threads.deep_view() =~= Seq::empty());
        assert(r.drafts.deep_view() =~= Seq::empty());
        r
    }
}

impl Default for PersistedState {
    fn default() -> (r: Self)
        ensures
            r.deep_view() == (PersistedStateView {
                preferences: default_preferences(Seq::empty()),
                history: empty_history(),
            }),
    {
        PersistedState { preferences: Preferences::default(), history: AppHistory::default() }
    }
}

impl Default for AccountInfo {
    fn default() -> (r: Self)
        ensures
            r.deep_view() == (AccountInfoView {
                label: Seq::empty(),
                plan: Seq::empty(),
                authenticated: false,
            }),
    {
        AccountInfo { label: String::new(), plan: String::new(), authenticated: false }
    }
}

} // verus!
