//! The state behind the interface: projects, threads, the conversation on
//! screen, and what waits for the user.
use crate::json::{Json, JsonView};
use crate::model::{
    agent_filled, agent_of_preferences, AccountInfo, AccountInfoView, AppHistory, AppHistoryView,
    Approval, ApprovalView, ConversationItem, ConversationItemView, Draft, DraftEntry,
    DraftEntryView, DraftView, ItemKind, LocalThread, LocalThreadView, ModelOption,
    ModelOptionView, PersistedState, PersistedStateView, PlanUsage, PlanUsageView, Preferences,
    PreferencesView, Project, ProjectView, ThreadAgentSettings, ThreadAgentSettingsView,
};
use crate::path::{eq_ignore_ascii_case, file_name, name_in_path, same_ignoring_case};
use crate::table::{
    first_where, has_key, last_where, lemma_first_where_is, lemma_first_where_none,
    lemma_last_where_is, lemma_last_where_none, lookup, put, without, Table,
};
use crate::text::{cat, decimal, decimal_text, same_text, signed_decimal, signed_decimal_text};
use crate::workspace::GitStatus;
use vstd::prelude::*;
use vstd::string::*;

verus! {

/// A question of the agent with the answer given so far.
#[derive(Debug, PartialEq, Eq)]
pub struct Question {
    pub id: String,
    pub header: String,
    pub question: String,
    pub options: Vec<(String, String)>,
    pub answer: String,
    pub secret: bool,
}

/// What a [`Question`] holds.
pub struct QuestionView {
    pub id: Seq<char>,
    pub header: Seq<char>,
    pub question: Seq<char>,
    pub options: Seq<(Seq<char>, Seq<char>)>,
    pub answer: Seq<char>,
    pub secret: bool,
}

impl DeepView for Question {
    type V = QuestionView;

    open spec fn deep_view(&self) -> QuestionView {
        QuestionView {
            id: self.id.deep_view(),
            header: self.header.deep_view(),
            question: self.question.deep_view(),
            options: self.options.deep_view(),
            answer: self.answer.deep_view(),
            secret: self.secret.deep_view(),
        }
    }
}

/// A request of the agent for answers.
#[derive(Debug, PartialEq)]
pub struct QuestionRequest {
    pub request_id: Json,
    pub local_thread_id: Option<String>,
    pub questions: Vec<Question>,
}

/// What a [`QuestionRequest`] holds.
pub struct QuestionRequestView {
    pub request_id: JsonView,
    pub local_thread_id: Option<Seq<char>>,
    pub questions: Seq<QuestionView>,
}

impl DeepView for QuestionRequest {
    type V = QuestionRequestView;

    open spec fn deep_view(&self) -> QuestionRequestView {
        QuestionRequestView {
            request_id: self.request_id.deep_view(),
            local_thread_id: self.local_thread_id.deep_view(),
            questions: self.questions.deep_view(),
        }
    }
}

/// A message shown for a moment.
#[derive(Debug, PartialEq, Eq)]
pub struct Toast {
    pub message: String,
    pub is_error: bool,
}

/// What a [`Toast`] holds.
pub struct ToastView {
    pub message: Seq<char>,
    pub is_error: bool,
}

impl DeepView for Toast {
    type V = ToastView;

    open spec fn deep_view(&self) -> ToastView {
        ToastView {
            message: self.message.deep_view(),
            is_error: self.is_error.deep_view(),
        }
    }
}

impl Clone for Toast {
    fn clone(&self) -> (r: Self)
        ensures
            r.deep_view() == self.deep_view(),
    {
        let r = Toast {
            message: self.message.clone(),
            is_error: self.is_error,
        };
        r
    }
}

/// Everything that the interface shows.
#[derive(Debug, PartialEq)]
pub struct AppState {
    pub connected: bool,
    pub connection_text: String,
    pub account: AccountInfo,
    pub plan_usage: Option<PlanUsage>,
    pub usage_loading: bool,
    pub reset_in_progress: bool,
    pub usage_error: Option<String>,
    pub models: Vec<ModelOption>,
    pub projects: Vec<Project>,
    pub threads: Vec<LocalThread>,
    pub archived_threads: Vec<LocalThread>,
    pub drafts: Vec<DraftEntry>,
    pub active_project: Option<String>,
    pub active_local_thread: Option<String>,
    pub runtime_threads: Table<String>,
    pub running_turns: Table<Option<String>>,
    pub turn_started_at_ms: Table<u64>,
    pub conversation: Vec<ConversationItem>,
    pub prefs: Preferences,
    pub approval: Option<Approval>,
    pub approval_queue: Vec<Approval>,
    pub user_question: Option<QuestionRequest>,
    pub user_question_queue: Vec<QuestionRequest>,
    pub toast: Option<Toast>,
    pub codex_update_version: Option<String>,
    pub codex_update_in_progress: bool,
    pub activity_log: Vec<String>,
    pub git_diff: String,
    pub git_status: GitStatus,
    pub git_action_in_progress: bool,
    pub workspace_loading: bool,
    pub files: Vec<String>,
    pub windows_paths: bool,
    pub revision: u64,
}

/// What a [`AppState`] holds.
pub struct AppStateView {
    pub connected: bool,
    pub connection_text: Seq<char>,
    pub account: AccountInfoView,
    pub plan_usage: Option<PlanUsageView>,
    pub usage_loading: bool,
    pub reset_in_progress: bool,
    pub usage_error: Option<Seq<char>>,
    pub models: Seq<ModelOptionView>,
    pub projects: Seq<ProjectView>,
    pub threads: Seq<LocalThreadView>,
    pub archived_threads: Seq<LocalThreadView>,
    pub drafts: Seq<DraftEntryView>,
    pub active_project: Option<Seq<char>>,
    pub active_local_thread: Option<Seq<char>>,
    pub runtime_threads: Seq<(Seq<char>, Seq<char>)>,
    pub running_turns: Seq<(Seq<char>, Option<Seq<char>>)>,
    pub turn_started_at_ms: Seq<(Seq<char>, u64)>,
    pub conversation: Seq<ConversationItemView>,
    pub prefs: PreferencesView,
    pub approval: Option<ApprovalView>,
    pub approval_queue: Seq<ApprovalView>,
    pub user_question: Option<QuestionRequestView>,
    pub user_question_queue: Seq<QuestionRequestView>,
    pub toast: Option<ToastView>,
    pub codex_update_version: Option<Seq<char>>,
    pub codex_update_in_progress: bool,
    pub activity_log: Seq<Seq<char>>,
    pub git_diff: Seq<char>,
    pub git_status: GitStatus,
    pub git_action_in_progress: bool,
    pub workspace_loading: bool,
    pub files: Seq<Seq<char>>,
    pub windows_paths: bool,
    pub revision: u64,
}

impl DeepView for AppState {
    type V = AppStateView;

    open spec fn deep_view(&self) -> AppStateView {
        AppStateView {
            connected: self.connected.deep_view(),
            connection_text: self.connection_text.deep_view(),
            account: self.account.deep_view(),
            plan_usage: self.plan_usage.deep_view(),
            usage_loading: self.usage_loading.deep_view(),
            reset_in_progress: self.reset_in_progress.deep_view(),
            usage_error: self.usage_error.deep_view(),
            models: self.models.deep_view(),
            projects: self.projects.deep_view(),
            threads: self.threads.deep_view(),
            archived_threads: self.archived_threads.deep_view(),
            drafts: self.drafts.deep_view(),
            active_project: self.active_project.deep_view(),
            active_local_thread: self.active_local_thread.deep_view(),
            runtime_threads: self.runtime_threads.deep_view(),
            running_turns: self.running_turns.deep_view(),
            turn_started_at_ms: self.turn_started_at_ms.deep_view(),
            conversation: self.conversation.deep_view(),
            prefs: self.prefs.deep_view(),
            approval: self.approval.deep_view(),
            approval_queue: self.approval_queue.deep_view(),
            user_question: self.user_question.deep_view(),
            user_question_queue: self.user_question_queue.deep_view(),
            toast: self.toast.deep_view(),
            codex_update_version: self.codex_update_version.deep_view(),
            codex_update_in_progress: self.codex_update_in_progress.deep_view(),
            activity_log: self.activity_log.deep_view(),
            git_diff: self.git_diff.deep_view(),
            git_status: self.git_status.deep_view(),
            git_action_in_progress: self.git_action_in_progress.deep_view(),
            workspace_loading: self.workspace_loading.deep_view(),
            files: self.files.deep_view(),
            windows_paths: self.windows_paths.deep_view(),
            revision: self.revision.deep_view(),
        }
    }
}


/// Threads with an id.
pub open spec fn thread_named(id: Seq<char>) -> spec_fn(LocalThreadView) -> bool {
    |t: LocalThreadView| t.id == id
}

/// Projects with an id.
pub open spec fn project_named(id: Seq<char>) -> spec_fn(ProjectView) -> bool {
    |p: ProjectView| p.id == id
}

/// Entries with an id.
pub open spec fn item_named(id: Seq<char>) -> spec_fn(ConversationItemView) -> bool {
    |i: ConversationItemView| i.id == id
}

/// Projects in a directory, whatever the case of its letters.
pub open spec fn project_in(path: Seq<char>) -> spec_fn(ProjectView) -> bool {
    |p: ProjectView| same_ignoring_case(p.path, path)
}

/// The first thread with an id.
pub open spec fn thread_at(threads: Seq<LocalThreadView>, id: Seq<char>) -> Option<int> {
    first_where(threads, thread_named(id))
}

/// The first project with an id.
pub open spec fn project_at(projects: Seq<ProjectView>, id: Seq<char>) -> Option<int> {
    first_where(projects, project_named(id))
}

/// The first entry with an id.
pub open spec fn item_at(items: Seq<ConversationItemView>, id: Seq<char>) -> Option<int> {
    first_where(items, item_named(id))
}

pub fn find_thread(threads: &Vec<LocalThread>, id: &str) -> (r: Option<usize>)
    ensures
        match r {
            Some(i) => i < threads@.len() && thread_at(threads.deep_view(), id@) == Some(i as int)
                && threads@[i as int].id@ == id@,
            None => thread_at(threads.deep_view(), id@) is None,
        },
{
    let ghost all = threads.deep_view();
    let mut i: usize = 0;
    while i < threads.len()
        invariant
            i <= threads@.len(),
            all == threads.deep_view(),
            forall|j: int| 0 <= j < i ==> !thread_named(id@)(#[trigger] all[j]),
        decreases threads@.len() - i,
    {
        assert(all[i as int] == threads@[i as int].deep_view());
        if same_text(threads[i].id.as_str(), id) {
            proof {
                lemma_first_where_is(all, thread_named(id@), i as int);
            }
            return Some(i);
        }
        i += 1;
    }
    proof {
        lemma_first_where_none(all, thread_named(id@));
    }
    None
}

pub fn find_project(projects: &Vec<Project>, id: &str) -> (r: Option<usize>)
    ensures
        match r {
            Some(i) => i < projects@.len() && project_at(projects.deep_view(), id@) == Some(
                i as int,
            ) && projects@[i as int].id@ == id@,
            None => project_at(projects.deep_view(), id@) is None,
        },
{
    let ghost all = projects.deep_view();
    let mut i: usize = 0;
    while i < projects.len()
        invariant
            i <= projects@.len(),
            all == projects.deep_view(),
            forall|j: int| 0 <= j < i ==> !project_named(id@)(#[trigger] all[j]),
        decreases projects@.len() - i,
    {
        assert(all[i as int] == projects@[i as int].deep_view());
        if same_text(projects[i].id.as_str(), id) {
            proof {
                lemma_first_where_is(all, project_named(id@), i as int);
            }
            return Some(i);
        }
        i += 1;
    }
    proof {
        lemma_first_where_none(all, project_named(id@));
    }
    None
}

fn find_project_in(projects: &Vec<Project>, path: &str) -> (r: Option<usize>)
    ensures
        match r {
            Some(i) => i < projects@.len() && first_where(projects.deep_view(), project_in(path@))
                == Some(i as int),
            None => first_where(projects.deep_view(), project_in(path@)) is None,
        },
{
    let ghost all = projects.deep_view();
    let mut i: usize = 0;
    while i < projects.len()
        invariant
            i <= projects@.len(),
            all == projects.deep_view(),
            forall|j: int| 0 <= j < i ==> !project_in(path@)(#[trigger] all[j]),
        decreases projects@.len() - i,
    {
        assert(all[i as int] == projects@[i as int].deep_view());
        if eq_ignore_ascii_case(projects[i].path.as_str(), path) {
            proof {
                lemma_first_where_is(all, project_in(path@), i as int);
            }
            return Some(i);
        }
        i += 1;
    }
    proof {
        lemma_first_where_none(all, project_in(path@));
    }
    None
}

pub fn find_item(items: &Vec<ConversationItem>, id: &str) -> (r: Option<usize>)
    ensures
        match r {
            Some(i) => i < items@.len() && item_at(items.deep_view(), id@) == Some(i as int),
            None => item_at(items.deep_view(), id@) is None,
        },
{
    let ghost all = items.deep_view();
    let mut i: usize = 0;
    while i < items.len()
        invariant
            i <= items@.len(),
            all == items.deep_view(),
            forall|j: int| 0 <= j < i ==> !item_named(id@)(#[trigger] all[j]),
        decreases items@.len() - i,
    {
        assert(all[i as int] == items@[i as int].deep_view());
        if same_text(items[i].id.as_str(), id) {
            proof {
                lemma_first_where_is(all, item_named(id@), i as int);
            }
            return Some(i);
        }
        i += 1;
    }
    proof {
        lemma_first_where_none(all, item_named(id@));
    }
    None
}

/// Whether an optional id is this one.
pub fn is_id(id: &Option<String>, other: &str) -> (r: bool)
    ensures
        r == (id.deep_view() == Some(other@)),
{
    match id {
        Some(id) => same_text(id.as_str(), other),
        None => false,
    }
}

/// The counter after one more change.
pub open spec fn next_revision(n: u64) -> u64 {
    if n == u64::MAX {
        0
    } else {
        (n + 1) as u64
    }
}

/// Whether a kind of entry folds away once it is done.
pub open spec fn folds(kind: ItemKind) -> bool {
    kind == ItemKind::Command || kind == ItemKind::Tool || kind == ItemKind::FileChange || kind
        == ItemKind::Plan
}

pub fn kind_folds(kind: ItemKind) -> (r: bool)
    ensures
        r == folds(kind),
{
    matches!(kind, ItemKind::Command | ItemKind::Tool | ItemKind::FileChange | ItemKind::Plan)
}

/// An entry as it is read back: finished activity is folded.
pub open spec fn restored_item(item: ConversationItemView) -> ConversationItemView {
    ConversationItemView {
        collapsed: item.collapsed || (item.status != "running"@ && folds(item.kind)),
        ..item
    }
}

pub open spec fn restored_items(items: Seq<ConversationItemView>) -> Seq<ConversationItemView> {
    Seq::new(items.len(), |i: int| restored_item(items[i]))
}

/// A thread as it is read back: its settings filled, finished activity folded.
pub open spec fn restored_thread(t: LocalThreadView, prefs: PreferencesView) -> LocalThreadView {
    LocalThreadView {
        agent: agent_filled(t.agent, prefs),
        messages: restored_items(t.messages),
        ..t
    }
}

#[verifier::opaque]
pub open spec fn restored_threads(
    threads: Seq<LocalThreadView>,
    prefs: PreferencesView,
) -> Seq<LocalThreadView> {
    Seq::new(threads.len(), |i: int| restored_thread(threads[i], prefs))
}

/// The project that a history names as active, if it is there.
pub open spec fn valid_project(h: AppHistoryView) -> Option<Seq<char>> {
    match h.active_project {
        Some(id) => if project_at(h.projects, id) is Some {
            Some(id)
        } else {
            None
        },
        None => None,
    }
}

/// The thread that a history names as active, if it belongs to the active project.
#[verifier::opaque]
pub open spec fn valid_thread(h: AppHistoryView) -> Option<Seq<char>> {
    match h.active_thread {
        Some(id) => if exists|i: int|
            0 <= i < h.threads.len() && (#[trigger] h.threads[i]).id == id && valid_project(h) == Some(
                h.threads[i].project_id,
            ) {
            Some(id)
        } else {
            None
        },
        None => None,
    }
}

/// The messages kept for a thread.
#[verifier::opaque]
pub open spec fn messages_of(threads: Seq<LocalThreadView>, id: Option<Seq<char>>) -> Seq<
    ConversationItemView,
> {
    match id {
        Some(id) => match thread_at(threads, id) {
            Some(i) => threads[i].messages,
            None => Seq::empty(),
        },
        None => Seq::empty(),
    }
}

/// The directory of a project.
pub open spec fn path_of(projects: Seq<ProjectView>, id: Option<Seq<char>>) -> Option<Seq<char>> {
    match id {
        Some(id) => match project_at(projects, id) {
            Some(i) => Some(projects[i].path),
            None => None,
        },
        None => None,
    }
}

/// The draft under a key.
pub open spec fn draft_under(drafts: Seq<DraftEntryView>, key: Seq<char>) -> Option<int> {
    first_where(drafts, |d: DraftEntryView| d.key == key)
}

pub open spec fn empty_draft() -> DraftView {
    DraftView { text: Seq::empty(), attachments: Seq::empty() }
}

/// The last answer of the running turn: the last assistant entry behind the
/// last entry of the user.
pub open spec fn final_answer(items: Seq<ConversationItemView>) -> Option<int> {
    match last_where(
        items,
        |i: ConversationItemView| i.kind == ItemKind::Assistant || i.kind == ItemKind::User,
    ) {
        Some(i) => if items[i].kind == ItemKind::Assistant {
            Some(i)
        } else {
            None
        },
        None => None,
    }
}

/// The entries with the duration of the turn on its final answer.
pub open spec fn timed(items: Seq<ConversationItemView>, ms: u64) -> Seq<ConversationItemView> {
    match final_answer(items) {
        Some(i) => items.update(i, ConversationItemView { duration_ms: Some(ms), ..items[i] }),
        None => items,
    }
}

/// The entries with those that still ran marked as interrupted.
pub open spec fn interrupted(items: Seq<ConversationItemView>) -> Seq<ConversationItemView> {
    Seq::new(
        items.len(),
        |i: int|
            if items[i].status == "running"@ {
                ConversationItemView { status: "interrupted"@, ..items[i] }
            } else {
                items[i]
            },
    )
}

/// The time since a moment, none when it lies ahead.
pub open spec fn elapsed(started: u64, now_ms: u64) -> u64 {
    if now_ms >= started {
        (now_ms - started) as u64
    } else {
        0
    }
}

/// The preferences with a directory, if one is given.
pub open spec fn in_workspace(prefs: PreferencesView, path: Option<Seq<char>>) -> PreferencesView {
    match path {
        Some(path) => PreferencesView { workspace: path, ..prefs },
        None => prefs,
    }
}

/// A thread that was just opened in a project.
pub open spec fn fresh_thread(
    id: Seq<char>,
    project_id: Seq<char>,
    now: i64,
    prefs: PreferencesView,
) -> LocalThreadView {
    LocalThreadView {
        id,
        project_id,
        title: "New thread"@,
        created_at: now,
        updated_at: now,
        title_generated: false,
        messages: Seq::empty(),
        context_usage: None,
        agent: agent_of_preferences(prefs),
        unread_completion: false,
    }
}

/// An id that holds its kind, the time and the count of what there is.
pub open spec fn counted_id(prefix: Seq<char>, now: i64, count: nat) -> Seq<char> {
    prefix + signed_decimal(now as int) + "-"@ + decimal(count + 1)
}

fn make_counted_id(prefix: &str, now: i64, count: usize) -> (r: String)
    ensures
        r@ == counted_id(prefix@, now, count as nat),
{
    let mut id = cat(prefix, signed_decimal_text(now).as_str());
    id.append("-");
    id.append(decimal_text(count as u128 + 1).as_str());
    id
}

impl AppStateView {
    pub open spec fn touched(self) -> AppStateView {
        AppStateView { revision: next_revision(self.revision), ..self }
    }

    #[verifier::opaque]
    pub open spec fn logged(self, line: Seq<char>) -> AppStateView {
        AppStateView { activity_log: self.activity_log.push(line), ..self }
    }

    /// A message is shown.
    pub open spec fn toasted(self, message: Seq<char>, is_error: bool) -> AppStateView {
        AppStateView { toast: Some(ToastView { message, is_error }), ..self }
    }

    /// A thread, or none, of a project is on screen.
    pub open spec fn showing(
        self,
        project: Seq<char>,
        path: Seq<char>,
        thread: Option<Seq<char>>,
        messages: Seq<ConversationItemView>,
    ) -> AppStateView {
        AppStateView {
            active_project: Some(project),
            active_local_thread: thread,
            prefs: in_workspace(self.prefs, Some(path)),
            conversation: messages,
            ..self
        }
    }

    /// An error is logged and shown.
    #[verifier::opaque]
    pub open spec fn with_error(self, message: Seq<char>) -> AppStateView {
        self.logged("Error: "@ + message).toasted(message, true).touched()
    }

    /// A notice is shown.
    #[verifier::opaque]
    pub open spec fn with_info(self, message: Seq<char>) -> AppStateView {
        self.toasted(message, false).touched()
    }

    /// The conversation on screen is kept in its thread.
    #[verifier::opaque]
    pub open spec fn synced(self) -> AppStateView {
        match self.active_local_thread {
            Some(id) => match thread_at(self.threads, id) {
                Some(i) => AppStateView {
                    threads: self.threads.update(
                        i,
                        LocalThreadView { messages: self.conversation, ..self.threads[i] },
                    ),
                    ..self
                },
                None => self,
            },
            None => self,
        }
    }

    pub open spec fn project_path(self) -> Option<Seq<char>> {
        path_of(self.projects, self.active_project)
    }

    pub open spec fn busy(self) -> bool {
        match self.active_local_thread {
            Some(id) => has_key(self.running_turns, id),
            None => false,
        }
    }

    pub open spec fn active_thread_index(self) -> Option<int> {
        match self.active_local_thread {
            Some(id) => thread_at(self.threads, id),
            None => None,
        }
    }

    /// The settings of the active thread, or those a new thread would get.
    pub open spec fn agent(self) -> ThreadAgentSettingsView {
        match self.active_thread_index() {
            Some(i) => self.threads[i].agent,
            None => agent_of_preferences(self.prefs),
        }
    }

    pub open spec fn with_agent(self, i: int, agent: ThreadAgentSettingsView) -> AppStateView {
        AppStateView {
            threads: self.threads.update(i, LocalThreadView { agent, ..self.threads[i] }),
            ..self
        }
    }

    /// A model is chosen for the active thread; an effort that it does not
    /// offer gives way to its default.
    #[verifier::opaque]
    pub open spec fn model_selected(
        self,
        id: Seq<char>,
        default_effort: Seq<char>,
        efforts: Seq<Seq<char>>,
    ) -> AppStateView {
        match self.active_thread_index() {
            Some(i) => {
                let agent = self.threads[i].agent;
                self.with_agent(
                    i,
                    ThreadAgentSettingsView {
                        model: id,
                        effort: if efforts.len() == 0 || efforts.contains(agent.effort) {
                            agent.effort
                        } else {
                            default_effort
                        },
                        ..agent
                    },
                ).touched()
            },
            None => self,
        }
    }

    #[verifier::opaque]
    pub open spec fn effort_selected(self, effort: Seq<char>) -> AppStateView {
        match self.active_thread_index() {
            Some(i) => self.with_agent(
                i,
                ThreadAgentSettingsView { effort, ..self.threads[i].agent },
            ).touched(),
            None => self,
        }
    }

    /// A history takes the place of the present one.
    #[verifier::opaque]
    pub open spec fn with_history(self, h: AppHistoryView) -> AppStateView {
        let threads = restored_threads(h.threads, self.prefs);
        let project = valid_project(h);
        let thread = valid_thread(h);
        AppStateView {
            conversation: messages_of(threads, thread),
            prefs: in_workspace(self.prefs, path_of(h.projects, project)),
            projects: h.projects,
            threads,
            archived_threads: h.archived_threads,
            drafts: h.drafts,
            active_project: project,
            active_local_thread: thread,
            ..self
        }.touched()
    }

    /// What is written to disk of the state.
    pub open spec fn to_persist(self) -> PersistedStateView {
        PersistedStateView {
            preferences: self.prefs,
            history: AppHistoryView {
                projects: self.projects,
                threads: self.threads,
                archived_threads: self.archived_threads,
                drafts: self.drafts,
                active_project: self.active_project,
                active_thread: self.active_local_thread,
            },
        }
    }

    /// A thread can be opened: it is not the active one, and it and its project exist.
    pub open spec fn can_open(self, id: Seq<char>) -> bool {
        &&& self.active_local_thread != Some(id)
        &&& thread_at(self.threads, id) is Some
        &&& project_at(self.projects, self.threads[thread_at(self.threads, id)->0].project_id) is Some
    }

    #[verifier::opaque]
    pub open spec fn thread_opened(self, id: Seq<char>) -> AppStateView {
        if self.active_local_thread == Some(id) {
            self
        } else {
            let s = self.synced();
            if s.can_open(id) {
                let thread = s.threads[thread_at(s.threads, id)->0];
                let project = s.projects[project_at(s.projects, thread.project_id)->0];
                s.showing(thread.project_id, project.path, Some(id), thread.messages).logged(
                    "Opened local conversation"@,
                ).touched()
            } else {
                s
            }
        }
    }

    pub open spec fn with_projects(self, projects: Seq<ProjectView>) -> AppStateView {
        AppStateView { projects, ..self }
    }

    pub open spec fn with_new_thread(self, thread: LocalThreadView) -> AppStateView {
        AppStateView {
            threads: self.threads.push(thread),
            active_local_thread: Some(thread.id),
            conversation: Seq::empty(),
            ..self
        }
    }

    #[verifier::opaque]
    pub open spec fn project_selected(self, id: Seq<char>) -> AppStateView {
        match project_at(self.projects, id) {
            Some(i) => self.synced().showing(
                id,
                self.projects[i].path,
                None,
                Seq::empty(),
            ).touched(),
            None => self,
        }
    }

    #[verifier::opaque]
    pub open spec fn project_toggled(self, id: Seq<char>) -> AppStateView {
        match project_at(self.projects, id) {
            Some(i) => AppStateView {
                projects: self.projects.update(
                    i,
                    ProjectView { collapsed: !self.projects[i].collapsed, ..self.projects[i] },
                ),
                ..self
            }.touched(),
            None => self,
        }
    }

    /// The id under which a directory is a project afterwards.
    pub open spec fn added_project_id(self, path: Seq<char>, now: i64) -> Seq<char> {
        match first_where(self.projects, project_in(path)) {
            Some(i) => self.projects[i].id,
            None => counted_id("project-"@, now, self.projects.len()),
        }
    }

    /// A directory is made a project, or the project that it is already is selected.
    #[verifier::opaque]
    pub open spec fn project_added(self, path: Seq<char>, now: i64) -> AppStateView {
        let id = self.added_project_id(path, now);
        if first_where(self.projects, project_in(path)) is Some {
            self.project_selected(id)
        } else {
            self.with_projects(
                self.projects.push(
                    ProjectView {
                        id,
                        name: match name_in_path(path, self.windows_paths) {
                            Some(name) => name,
                            None => path,
                        },
                        path,
                        created_at: now,
                        collapsed: false,
                    },
                ),
            ).showing(id, path, None, Seq::empty()).logged("Project added"@).touched()
        }
    }

    /// A thread is opened in the active project.
    #[verifier::opaque]
    pub open spec fn thread_created(self, now: i64) -> AppStateView {
        match self.active_project {
            Some(project_id) => {
                let s = self.synced();
                let id = counted_id("thread-"@, now, s.threads.len());
                s.with_new_thread(fresh_thread(id, project_id, now, s.prefs)).logged(
                    "New conversation"@,
                ).touched()
            },
            None => self,
        }
    }

    /// A thread that does not run is taken out of the list.
    #[verifier::opaque]
    pub open spec fn thread_archived(self, id: Seq<char>) -> AppStateView {
        if has_key(self.running_turns, id) {
            self.with_info("Stop this thread before archiving it"@)
        } else {
            let kept = threads_without(self.threads, id);
            let active = self.active_local_thread == Some(id);
            let s = AppStateView {
                threads: kept,
                archived_threads: self.archived_threads + threads_with(self.threads, id),
                runtime_threads: without(self.runtime_threads, id),
                active_local_thread: if active {
                    None
                } else {
                    self.active_local_thread
                },
                conversation: if active {
                    Seq::empty()
                } else {
                    self.conversation
                },
                ..self
            };
            if kept.len() != self.threads.len() {
                s.touched()
            } else {
                s
            }
        }
    }

    /// The thread that was archived last comes back.
    #[verifier::opaque]
    pub open spec fn archive_undone(self) -> AppStateView {
        if self.archived_threads.len() == 0 {
            self
        } else {
            AppStateView {
                threads: self.threads.push(self.archived_threads.last()),
                archived_threads: self.archived_threads.drop_last(),
                ..self
            }.touched()
        }
    }

    /// An approval is shown, or waits behind the one that is shown.
    #[verifier::opaque]
    pub open spec fn approval_enqueued(self, approval: ApprovalView) -> AppStateView {
        if self.approval is None {
            AppStateView { approval: Some(approval), ..self }.touched()
        } else {
            AppStateView { approval_queue: self.approval_queue.push(approval), ..self }.touched()
        }
    }

    /// Questions are shown, or wait behind those that are shown.
    #[verifier::opaque]
    pub open spec fn question_enqueued(self, question: QuestionRequestView) -> AppStateView {
        if self.user_question is None {
            AppStateView { user_question: Some(question), ..self }.touched()
        } else {
            AppStateView {
                user_question_queue: self.user_question_queue.push(question),
                ..self
            }.touched()
        }
    }

    /// The messages of a thread, those on screen for the active one.
    pub open spec fn thread_messages(self, id: Seq<char>) -> Option<Seq<ConversationItemView>> {
        if self.active_local_thread == Some(id) {
            Some(self.conversation)
        } else {
            match thread_at(self.threads, id) {
                Some(i) => Some(self.threads[i].messages),
                None => None,
            }
        }
    }

    /// The state with other messages for a thread.
    pub open spec fn with_messages(
        self,
        id: Seq<char>,
        messages: Seq<ConversationItemView>,
    ) -> AppStateView {
        if self.active_local_thread == Some(id) {
            AppStateView { conversation: messages, ..self }
        } else {
            match thread_at(self.threads, id) {
                Some(i) => AppStateView {
                    threads: self.threads.update(
                        i,
                        LocalThreadView { messages, ..self.threads[i] },
                    ),
                    ..self
                },
                None => self,
            }
        }
    }

    /// A turn of a thread runs, its id still unknown.
    #[verifier::opaque]
    pub open spec fn turn_begun(self, id: Seq<char>, now_ms: u64) -> AppStateView {
        AppStateView {
            running_turns: put(self.running_turns, id, None),
            turn_started_at_ms: put(self.turn_started_at_ms, id, now_ms),
            ..self
        }
    }

    /// The final answer of a thread gets its duration.
    #[verifier::opaque]
    pub open spec fn answer_timed(self, id: Seq<char>, ms: u64) -> AppStateView {
        match self.thread_messages(id) {
            Some(messages) => self.with_messages(id, timed(messages, ms)),
            None => self,
        }
    }

    /// The turn of a thread has ended; its duration goes to its final answer.
    #[verifier::opaque]
    pub open spec fn turn_finished(self, id: Seq<char>, now_ms: u64) -> AppStateView {
        self.answer_settled(id, now_ms).turn_dropped(id)
    }

    /// The final answer gets its duration, if the start of the turn is known.
    #[verifier::opaque]
    pub open spec fn answer_settled(self, id: Seq<char>, now_ms: u64) -> AppStateView {
        match lookup(self.turn_started_at_ms, id) {
            Some(started) => self.answer_timed(id, elapsed(started, now_ms)),
            None => self,
        }
    }

    pub open spec fn turn_dropped(self, id: Seq<char>) -> AppStateView {
        AppStateView {
            running_turns: without(self.running_turns, id),
            turn_started_at_ms: without(self.turn_started_at_ms, id),
            ..self
        }
    }

    /// What still ran in a thread is marked as interrupted.
    #[verifier::opaque]
    pub open spec fn items_interrupted(self, id: Seq<char>) -> AppStateView {
        match self.thread_messages(id) {
            Some(messages) => self.with_messages(id, interrupted(messages)),
            None => self,
        }
    }

    /// An entry on screen is folded or unfolded.
    #[verifier::opaque]
    pub open spec fn message_toggled(self, id: Seq<char>) -> AppStateView {
        match item_at(self.conversation, id) {
            Some(i) => AppStateView {
                conversation: self.conversation.update(
                    i,
                    ConversationItemView {
                        collapsed: !self.conversation[i].collapsed,
                        ..self.conversation[i]
                    },
                ),
                ..self
            }.touched(),
            None => self,
        }
    }

    /// The details of a response are folded or unfolded.
    #[verifier::opaque]
    pub open spec fn details_toggled(self, id: Seq<char>) -> AppStateView {
        match item_at(self.conversation, id) {
            Some(i) => AppStateView {
                conversation: self.conversation.update(
                    i,
                    ConversationItemView {
                        response_details_collapsed: !self.conversation[i].response_details_collapsed,
                        ..self.conversation[i]
                    },
                ),
                ..self
            }.touched(),
            None => self,
        }
    }

    /// Where the draft of the present place is kept.
    pub open spec fn key_of_draft(self) -> Seq<char> {
        match self.active_local_thread {
            Some(id) => id,
            None => match self.active_project {
                Some(id) => id,
                None => Seq::empty(),
            },
        }
    }

    pub open spec fn draft(self) -> DraftView {
        match draft_under(self.drafts, self.key_of_draft()) {
            Some(i) => self.drafts[i].draft,
            None => empty_draft(),
        }
    }

    #[verifier::opaque]
    pub open spec fn with_draft_under(self, key: Seq<char>, draft: DraftView) -> AppStateView {
        let entry = DraftEntryView { key, draft };
        AppStateView {
            drafts: match draft_under(self.drafts, key) {
                Some(i) => self.drafts.update(i, entry),
                None => self.drafts.push(entry),
            },
            ..self
        }.touched()
    }

    pub open spec fn with_draft(self, draft: DraftView) -> AppStateView {
        self.with_draft_under(self.key_of_draft(), draft)
    }

    /// Files are added to the draft under a key.
    pub open spec fn files_attached(self, key: Seq<char>, paths: Seq<Seq<char>>) -> AppStateView {
        self.with_draft_under(
            key,
            match draft_under(self.drafts, key) {
                Some(i) => DraftView {
                    attachments: self.drafts[i].draft.attachments + paths,
                    ..self.drafts[i].draft
                },
                None => DraftView { attachments: paths, ..empty_draft() },
            },
        )
    }

    /// One attachment is taken out of the present draft, if there are that many.
    pub open spec fn attachment_removed(self, index: int) -> AppStateView {
        if 0 <= index < self.draft().attachments.len() {
            self.with_draft(
                DraftView {
                    attachments: self.draft().attachments.remove(index),
                    ..self.draft()
                },
            )
        } else {
            self
        }
    }
}

/// The threads that do not have an id.
pub open spec fn threads_without(threads: Seq<LocalThreadView>, id: Seq<char>) -> Seq<LocalThreadView>
    decreases threads.len(),
{
    if threads.len() == 0 {
        threads
    } else if threads[0].id == id {
        threads_without(threads.drop_first(), id)
    } else {
        seq![threads[0]] + threads_without(threads.drop_first(), id)
    }
}

/// The threads that have an id.
pub open spec fn threads_with(threads: Seq<LocalThreadView>, id: Seq<char>) -> Seq<LocalThreadView>
    decreases threads.len(),
{
    if threads.len() == 0 {
        threads
    } else if threads[0].id == id {
        seq![threads[0]] + threads_with(threads.drop_first(), id)
    } else {
        threads_with(threads.drop_first(), id)
    }
}

/// The state at launch, before any history.
pub open spec fn initial_state(prefs: PreferencesView) -> AppStateView {
    AppStateView {
        connected: false,
        connection_text: "Starting Codex…"@,
        account: AccountInfoView { label: Seq::empty(), plan: Seq::empty(), authenticated: false },
        plan_usage: None,
        usage_loading: false,
        reset_in_progress: false,
        usage_error: None,
        models: Seq::empty(),
        projects: Seq::empty(),
        threads: Seq::empty(),
        archived_threads: Seq::empty(),
        drafts: Seq::empty(),
        active_project: None,
        active_local_thread: None,
        runtime_threads: Seq::empty(),
        running_turns: Seq::empty(),
        turn_started_at_ms: Seq::empty(),
        conversation: Seq::empty(),
        prefs,
        approval: None,
        approval_queue: Seq::empty(),
        user_question: None,
        user_question_queue: Seq::empty(),
        toast: None,
        codex_update_version: None,
        codex_update_in_progress: false,
        activity_log: seq!["CodeAgent launched"@],
        git_diff: Seq::empty(),
        git_status: no_git_status(),
        git_action_in_progress: false,
        workspace_loading: false,
        files: Seq::empty(),
        windows_paths: false,
        revision: 1,
    }
}

/// A status of which nothing is known.
pub open spec fn no_git_status() -> GitStatus {
    GitStatus {
        installed: false,
        is_repository: false,
        has_changes: false,
        has_commits: false,
        has_github_remote: false,
        has_unpushed_commits: false,
        github_configured: false,
    }
}

impl Default for GitStatus {
    fn default() -> (r: Self)
        ensures
            r == no_git_status(),
    {
        GitStatus {
            installed: false,
            is_repository: false,
            has_changes: false,
            has_commits: false,
            has_github_remote: false,
            has_unpushed_commits: false,
            github_configured: false,
        }
    }
}

/// Folds finished activity.
fn fold_finished(items: &mut Vec<ConversationItem>)
    ensures
        final(items).deep_view() == restored_items(old(items).deep_view()),
{
    let ghost before = items.deep_view();
    let mut i: usize = 0;
    while i < items.len()
        invariant
            i <= items@.len(),
            items@.len() == before.len(),
            forall|j: int| 0 <= j < i ==> (#[trigger] items@[j]).deep_view() == restored_item(before[j]),
            forall|j: int| i <= j < before.len() ==> (#[trigger] items@[j]).deep_view() == before[j],
        decreases items@.len() - i,
    {
        if !same_text(items[i].status.as_str(), "running") && kind_folds(items[i].kind) {
            items[i].collapsed = true;
        }
        i += 1;
    }
    assert(items.deep_view() =~= restored_items(before));
}

fn restore_threads(threads: &mut Vec<LocalThread>, prefs: &Preferences)
    ensures
        final(threads).deep_view() == restored_threads(old(threads).deep_view(), prefs.deep_view()),
{
    proof {
        reveal(restored_threads);
    }
    let ghost before = threads.deep_view();
    let mut i: usize = 0;
    while i < threads.len()
        invariant
            i <= threads@.len(),
            threads@.len() == before.len(),
            forall|j: int|
                0 <= j < i ==> (#[trigger] threads@[j]).deep_view() == restored_thread(
                    before[j],
                    prefs.deep_view(),
                ),
            forall|j: int| i <= j < before.len() ==> (#[trigger] threads@[j]).deep_view() == before[j],
        decreases threads@.len() - i,
    {
        threads[i].agent.fill_missing_from(prefs);
        fold_finished(&mut threads[i].messages);
        i += 1;
    }
    assert(threads.deep_view() =~= restored_threads(before, prefs.deep_view()));
}

fn active_project_of(history: &AppHistory) -> (r: Option<String>)
    ensures
        r.deep_view() == valid_project(history.deep_view()),
{
    match &history.active_project {
        Some(id) => match find_project(&history.projects, id.as_str()) {
            Some(_) => Some(id.clone()),
            None => None,
        },
        None => None,
    }
}

fn active_thread_of(history: &AppHistory, active_project: &Option<String>) -> (r: Option<String>)
    requires
        active_project.deep_view() == valid_project(history.deep_view()),
    ensures
        r.deep_view() == valid_thread(history.deep_view()),
{
    proof {
        reveal(valid_thread);
    }
    let ghost h = history.deep_view();
    match &history.active_thread {
        Some(id) => {
            let mut i: usize = 0;
            while i < history.threads.len()
                invariant
                    i <= history.threads@.len(),
                    h == history.deep_view(),
                    h.active_thread == Some(id@),
                    active_project.deep_view() == valid_project(h),
                    forall|j: int|
                        0 <= j < i ==> !((#[trigger] h.threads[j]).id == id@ && valid_project(h)
                            == Some(h.threads[j].project_id)),
                decreases history.threads@.len() - i,
            {
                assert(h.threads[i as int] == history.threads@[i as int].deep_view());
                if same_text(history.threads[i].id.as_str(), id.as_str()) && is_id(
                    active_project,
                    history.threads[i].project_id.as_str(),
                ) {
                    proof {
                        reveal(valid_thread);
                        assert(h.threads[i as int].id == id@);
                    }
                    return Some(id.clone());
                }
                i += 1;
            }
            None
        },
        None => None,
    }
}

fn project_directory(projects: &Vec<Project>, id: &Option<String>) -> (r: Option<String>)
    ensures
        r.deep_view() == path_of(projects.deep_view(), id.deep_view()),
{
    match id {
        Some(id) => match find_project(projects, id.as_str()) {
            Some(i) => Some(projects[i].path.clone()),
            None => None,
        },
        None => None,
    }
}

impl Preferences {
    /// Makes a directory the workspace, if one is given.
    pub fn enter(&mut self, path: Option<String>)
        ensures
            final(self).deep_view() == in_workspace(old(self).deep_view(), path.deep_view()),
    {
        match path {
            Some(path) => {
                self.workspace = path;
            },
            None => {},
        }
    }
}

fn kept_messages(threads: &Vec<LocalThread>, id: &Option<String>) -> (r: Vec<ConversationItem>)
    ensures
        r.deep_view() == messages_of(threads.deep_view(), id.deep_view()),
{
    proof {
        reveal(messages_of);
    }
    match id {
        Some(id) => match find_thread(threads, id.as_str()) {
            Some(i) => {
                let r = threads[i].messages.clone();
                assert(r.deep_view() =~= threads@[i as int].messages.deep_view());
                return r;
            },
            None => {},
        },
        None => {},
    }
    let r: Vec<ConversationItem> = Vec::new();
    assert(r.deep_view() =~= Seq::empty());
    r
}

impl AppState {
    fn launch(preferences: Preferences) -> (r: AppState)
        ensures
            r.deep_view() == initial_state(preferences.deep_view()),
    {
        let r = AppState {
            connected: false,
            connection_text: "Starting Codex…".to_owned(),
            account: AccountInfo::default(),
            plan_usage: None,
            usage_loading: false,
            reset_in_progress: false,
            usage_error: None,
            models: Vec::new(),
            projects: Vec::new(),
            threads: Vec::new(),
            archived_threads: Vec::new(),
            drafts: Vec::new(),
            active_project: None,
            active_local_thread: None,
            runtime_threads: Table::new(),
            running_turns: Table::new(),
            turn_started_at_ms: Table::new(),
            conversation: Vec::new(),
            prefs: preferences,
            approval: None,
            approval_queue: Vec::new(),
            user_question: None,
            user_question_queue: Vec::new(),
            toast: None,
            codex_update_version: None,
            codex_update_in_progress: false,
            activity_log: vec!["CodeAgent launched".to_owned()],
            git_diff: String::new(),
            git_status: GitStatus::default(),
            git_action_in_progress: false,
            workspace_loading: false,
            files: Vec::new(),
            windows_paths: false,
            revision: 1,
        };
        proof {
            assert(r.models.deep_view() =~= Seq::empty());
            assert(r.projects.deep_view() =~= Seq::empty());
            assert(r.threads.deep_view() =~= Seq::empty());
            assert(r.archived_threads.deep_view() =~= Seq::empty());
            assert(r.drafts.deep_view() =~= Seq::empty());
            assert(r.conversation.deep_view() =~= Seq::empty());
            assert(r.approval_queue.deep_view() =~= Seq::empty());
            assert(r.user_question_queue.deep_view() =~= Seq::empty());
            assert(r.files.deep_view() =~= Seq::empty());
            assert(r.activity_log.deep_view() =~= seq!["CodeAgent launched"@]);
        }
        r
    }

    pub fn from_persisted(persisted: PersistedState) -> (r: AppState)
        ensures
            r.deep_view() == initial_state(persisted.deep_view().preferences).with_history(
                persisted.deep_view().history,
            ),
    {
        let mut state = AppState::launch(persisted.preferences);
        state.apply_history(persisted.history);
        state
    }

    pub fn persisted(&mut self) -> (r: PersistedState)
        ensures
            final(self).deep_view() == old(self).deep_view().synced(),
            r.deep_view() == old(self).deep_view().synced().to_persist(),
    {
        self.sync_active_conversation();
        let r = PersistedState {
            preferences: self.prefs.clone(),
            history: AppHistory {
                projects: self.projects.clone(),
                threads: self.threads.clone(),
                archived_threads: self.archived_threads.clone(),
                drafts: self.drafts.clone(),
                active_project: self.active_project.clone(),
                active_thread: self.active_local_thread.clone(),
            },
        };
        proof {
            assert(r.history.projects.deep_view() =~= self.projects.deep_view());
            assert(r.history.threads.deep_view() =~= self.threads.deep_view());
            assert(r.history.archived_threads.deep_view() =~= self.archived_threads.deep_view());
            assert(r.history.drafts.deep_view() =~= self.drafts.deep_view());
        }
        r
    }

    pub fn apply_history(&mut self, history: AppHistory)
        ensures
            final(self).deep_view() == old(self).deep_view().with_history(history.deep_view()),
    {
        proof {
            reveal(AppStateView::with_history);
        }
        let ghost h = history.deep_view();
        let ghost before = self.deep_view();
        let active_project = active_project_of(&history);
        let active_thread = active_thread_of(&history, &active_project);
        let mut threads = history.threads;
        restore_threads(&mut threads, &self.prefs);
        let conversation = kept_messages(&threads, &active_thread);
        let path = project_directory(&history.projects, &active_project);
        self.prefs.enter(path);
        self.conversation = conversation;
        self.projects = history.projects;
        self.threads = threads;
        self.archived_threads = history.archived_threads;
        self.drafts = history.drafts;
        self.active_project = active_project;
        self.active_local_thread = active_thread;
        self.touch();
    }

    pub fn touch(&mut self)
        ensures
            final(self).deep_view() == old(self).deep_view().touched(),
    {
        self.revision = self.revision.wrapping_add(1);
    }

    /// Adds a line to the activity log.
    pub fn log(&mut self, line: &str)
        ensures
            final(self).deep_view() == old(self).deep_view().logged(line@),
    {
        proof {
            reveal(AppStateView::logged);
        }
        let ghost before = self.activity_log.deep_view();
        self.activity_log.push(line.to_owned());
        assert(self.activity_log.deep_view() =~= before.push(line@));
    }

    pub fn active_project_path(&self) -> (r: Option<&str>)
        ensures
            r.deep_view() == self.deep_view().project_path(),
    {
        match &self.active_project {
            Some(id) => match find_project(&self.projects, id.as_str()) {
                Some(i) => Some(self.projects[i].path.as_str()),
                None => None,
            },
            None => None,
        }
    }

    pub fn active_thread_busy(&self) -> (r: bool)
        ensures
            r == self.deep_view().busy(),
    {
        match &self.active_local_thread {
            Some(id) => self.running_turns.contains_key(id.as_str()),
            None => false,
        }
    }

    /// Where the active thread stands in the list.
    pub fn active_index(&self) -> (r: Option<usize>)
        ensures
            match r {
                Some(i) => i < self.threads@.len() && self.deep_view().active_thread_index() == Some(
                    i as int,
                ),
                None => self.deep_view().active_thread_index() is None,
            },
    {
        match &self.active_local_thread {
            Some(id) => find_thread(&self.threads, id.as_str()),
            None => None,
        }
    }

    pub fn active_agent(&self) -> (r: ThreadAgentSettings)
        ensures
            r.deep_view() == self.deep_view().agent(),
    {
        match self.active_index() {
            Some(i) => self.threads[i].agent.clone(),
            None => ThreadAgentSettings::from_preferences(&self.prefs),
        }
    }

    /// The settings of the active thread, to be changed. Nothing else of the
    /// state is.
    pub fn active_agent_mut(&mut self) -> (r: Option<&mut ThreadAgentSettings>)
        ensures
            match r {
                Some(agent) => {
                    let i = old(self).deep_view().active_thread_index()->0;
                    &&& old(self).deep_view().active_thread_index() is Some
                    &&& 0 <= i < old(self).threads@.len()
                    &&& *agent == old(self).threads@[i].agent
                    &&& final(self).threads@ == old(self).threads@.update(
                        i,
                        LocalThread { agent: *final(agent), ..old(self).threads@[i] },
                    )
                    &&& *final(self) == (AppState {
                        threads: final(self).threads,
                        ..*old(self)
                    })
                },
                None => {
                    &&& old(self).deep_view().active_thread_index() is None
                    &&& *final(self) == *old(self)
                },
            },
    {
        match self.active_index() {
            Some(i) => Some(&mut self.threads[i].agent),
            None => None,
        }
    }

    pub fn select_model(&mut self, id: &str, default_effort: &str, efforts: &Vec<String>)
        ensures
            final(self).deep_view() == old(self).deep_view().model_selected(
                id@,
                default_effort@,
                efforts.deep_view(),
            ),
    {
        proof {
            reveal(AppStateView::model_selected);
        }
        match self.active_index() {
            Some(i) => {
                let ghost before = self.deep_view();
                let keep = efforts.len() == 0 || contains_text(
                    efforts,
                    self.threads[i].agent.effort.as_str(),
                );
                self.threads[i].agent.model = id.to_owned();
                if !keep {
                    self.threads[i].agent.effort = default_effort.to_owned();
                }
                self.touch();
                assert(self.threads.deep_view() =~= before.model_selected(
                    id@,
                    default_effort@,
                    efforts.deep_view(),
                ).threads);
            },
            None => {},
        }
    }

    pub fn select_effort(&mut self, effort: &str)
        ensures
            final(self).deep_view() == old(self).deep_view().effort_selected(effort@),
    {
        proof {
            reveal(AppStateView::effort_selected);
        }
        match self.active_index() {
            Some(i) => {
                let ghost before = self.deep_view();
                self.threads[i].agent.effort = effort.to_owned();
                self.touch();
                assert(self.threads.deep_view() =~= before.effort_selected(effort@).threads);
            },
            None => {},
        }
    }

    pub fn sync_active_conversation(&mut self)
        ensures
            final(self).deep_view() == old(self).deep_view().synced(),
    {
        proof {
            reveal(AppStateView::synced);
        }
        match self.active_index() {
            Some(i) => {
                let ghost before = self.deep_view();
                let messages = self.conversation.clone();
                assert(messages.deep_view() =~= self.conversation.deep_view());
                self.threads[i].messages = messages;
                assert(self.threads.deep_view() =~= before.synced().threads);
            },
            None => {},
        }
    }

    pub fn open_thread(&mut self, id: &str) -> (r: bool)
        ensures
            final(self).deep_view() == old(self).deep_view().thread_opened(id@),
            r == (old(self).deep_view().active_local_thread != Some(id@) && old(
                self,
            ).deep_view().synced().can_open(id@)),
    {
        proof {
            reveal(AppStateView::synced);
            reveal(AppStateView::logged);
            reveal(AppStateView::thread_opened);
        }
        if is_id(&self.active_local_thread, id) {
            return false;
        }
        self.sync_active_conversation();
        let i: usize = match find_thread(&self.threads, id) {
            Some(i) => i,
            None => return false,
        };
        let project_id = self.threads[i].project_id.clone();
        let messages = self.threads[i].messages.clone();
        assert(messages.deep_view() =~= self.threads@[i as int].messages.deep_view());
        let path = match find_project(&self.projects, project_id.as_str()) {
            Some(p) => self.projects[p].path.clone(),
            None => return false,
        };
        self.active_project = Some(project_id);
        self.active_local_thread = Some(id.to_owned());
        self.prefs.workspace = path;
        self.conversation = messages;
        self.log("Opened local conversation");
        self.touch();
        true
    }

    pub fn select_project(&mut self, id: &str) -> (r: bool)
        ensures
            final(self).deep_view() == old(self).deep_view().project_selected(id@),
            r == (project_at(old(self).deep_view().projects, id@) is Some),
    {
        proof {
            reveal(AppStateView::synced);
            reveal(AppStateView::project_selected);
        }
        let path = match find_project(&self.projects, id) {
            Some(i) => self.projects[i].path.clone(),
            None => return false,
        };
        self.sync_active_conversation();
        self.active_project = Some(id.to_owned());
        self.prefs.workspace = path;
        self.active_local_thread = None;
        self.clear_conversation();
        self.touch();
        true
    }

    fn clear_conversation(&mut self)
        ensures
            final(self).deep_view() == (AppStateView {
                conversation: Seq::empty(),
                ..old(self).deep_view()
            }),
    {
        self.conversation = Vec::new();
        assert(self.conversation.deep_view() =~= Seq::empty());
    }

    pub fn toggle_project(&mut self, id: &str) -> (r: bool)
        ensures
            final(self).deep_view() == old(self).deep_view().project_toggled(id@),
            r == (project_at(old(self).deep_view().projects, id@) is Some),
    {
        proof {
            reveal(AppStateView::project_toggled);
        }
        match find_project(&self.projects, id) {
            Some(i) => {
                let ghost before = self.deep_view();
                let flipped = !self.projects[i].collapsed;
                self.projects[i].collapsed = flipped;
                self.touch();
                assert(self.projects.deep_view() =~= before.project_toggled(id@).projects);
                true
            },
            None => false,
        }
    }

    pub fn add_project(&mut self, path: String, now: i64) -> (r: String)
        ensures
            final(self).deep_view() == old(self).deep_view().project_added(path@, now),
            r@ == old(self).deep_view().added_project_id(path@, now),
    {
        proof {
            reveal(AppStateView::logged);
            reveal(AppStateView::project_added);
        }
        match find_project_in(&self.projects, path.as_str()) {
            Some(i) => {
                let id = self.projects[i].id.clone();
                self.select_project(id.as_str());
                id
            },
            None => {
                let ghost before = self.deep_view();
                let id = make_counted_id("project-", now, self.projects.len());
                let name = match file_name(path.as_str(), self.windows_paths) {
                    Some(name) => name,
                    None => path.clone(),
                };
                self.projects.push(
                    Project {
                        id: id.clone(),
                        name,
                        path: path.clone(),
                        created_at: now,
                        collapsed: false,
                    },
                );
                assert(self.projects.deep_view() =~= before.project_added(path@, now).projects);
                self.active_project = Some(id.clone());
                self.active_local_thread = None;
                self.prefs.workspace = path;
                self.clear_conversation();
                self.log("Project added");
                self.touch();
                id
            },
        }
    }

    pub fn new_thread(&mut self, now: i64) -> (r: Option<String>)
        ensures
            final(self).deep_view() == old(self).deep_view().thread_created(now),
            match r {
                Some(id) => old(self).deep_view().active_project is Some && Some(id@)
                    == old(self).deep_view().thread_created(now).active_local_thread,
                None => old(self).deep_view().active_project is None,
            },
    {
        proof {
            reveal(AppStateView::logged);
            reveal(AppStateView::thread_created);
        }
        let project_id = match &self.active_project {
            Some(id) => id.clone(),
            None => return None,
        };
        self.sync_active_conversation();
        let ghost before = self.deep_view();
        let id = make_counted_id("thread-", now, self.threads.len());
        let thread = LocalThread {
            id: id.clone(),
            project_id,
            title: "New thread".to_owned(),
            created_at: now,
            updated_at: now,
            title_generated: false,
            messages: Vec::new(),
            context_usage: None,
            agent: ThreadAgentSettings::from_preferences(&self.prefs),
            unread_completion: false,
        };
        assert(thread.messages.deep_view() =~= Seq::empty());
        let ghost view = thread.deep_view();
        self.threads.push(thread);
        assert(self.threads.deep_view() =~= before.threads.push(view));
        self.active_local_thread = Some(id.clone());
        self.clear_conversation();
        self.log("New conversation");
        self.touch();
        Some(id)
    }

    pub fn archive_thread(&mut self, id: &str) -> (r: bool)
        ensures
            final(self).deep_view() == old(self).deep_view().thread_archived(id@),
            r == (!has_key(old(self).deep_view().running_turns, id@) && threads_without(
                old(self).deep_view().threads,
                id@,
            ).len() != old(self).deep_view().threads.len()),
    {
        proof {
            reveal(AppStateView::thread_archived);
        }
        if self.running_turns.contains_key(id) {
            self.info("Stop this thread before archiving it");
            return false;
        }
        let old_len: usize = self.threads.len();
        let ghost all = self.threads.deep_view();
        let ghost archived = self.archived_threads.deep_view();
        let mut i: usize = 0;
        proof {
            assert(all.skip(0) =~= all);
            assert(all.take(0) + threads_without(all, id@) =~= threads_without(all, id@));
            assert(archived + threads_with(all, id@) =~= archived + threads_with(all, id@));
        }
        while i < self.threads.len()
            invariant
                i <= self.threads@.len(),
                threads_without(all, id@) == self.threads.deep_view().take(i as int)
                    + threads_without(self.threads.deep_view().skip(i as int), id@),
                archived + threads_with(all, id@) == self.archived_threads.deep_view()
                    + threads_with(self.threads.deep_view().skip(i as int), id@),
                self.deep_view() == (AppStateView {
                    threads: self.threads.deep_view(),
                    archived_threads: self.archived_threads.deep_view(),
                    ..old(self).deep_view()
                }),
            decreases self.threads@.len() - i,
        {
            let ghost now = self.threads.deep_view();
            let ghost rest = now.skip(i as int);
            let ghost gone = self.archived_threads.deep_view();
            assert(rest[0] == now[i as int]);
            assert(now[i as int] == self.threads@[i as int].deep_view());
            if same_text(self.threads[i].id.as_str(), id) {
                let thread = self.threads.remove(i);
                self.archived_threads.push(thread);
                proof {
                    assert(self.threads.deep_view() =~= now.remove(i as int));
                    assert(self.threads.deep_view().take(i as int) =~= now.take(i as int));
                    assert(self.threads.deep_view().skip(i as int) =~= rest.drop_first());
                    assert(self.archived_threads.deep_view() =~= gone.push(rest[0]));
                    assert(gone + (seq![rest[0]] + threads_with(rest.drop_first(), id@))
                        =~= gone.push(rest[0]) + threads_with(rest.drop_first(), id@));
                }
            } else {
                proof {
                    assert(now.skip(i as int + 1) =~= rest.drop_first());
                    assert(now.take(i as int) + (seq![rest[0]] + threads_without(
                        rest.drop_first(),
                        id@,
                    )) =~= now.take(i as int + 1) + threads_without(now.skip(i as int + 1), id@));
                }
                i += 1;
            }
        }
        proof {
            assert(self.threads.deep_view().skip(i as int).len() == 0);
            assert(self.threads.deep_view() =~= threads_without(all, id@));
            assert(self.archived_threads.deep_view() =~= archived + threads_with(all, id@));
        }
        self.runtime_threads.remove(id);
        if is_id(&self.active_local_thread, id) {
            self.active_local_thread = None;
            self.clear_conversation();
        }
        let changed = old_len != self.threads.len();
        if changed {
            self.touch();
        }
        changed
    }

    pub fn undo_archive(&mut self)
        ensures
            final(self).deep_view() == old(self).deep_view().archive_undone(),
    {
        proof {
            reveal(AppStateView::archive_undone);
        }
        let ghost before = self.deep_view();
        match self.archived_threads.pop() {
            Some(thread) => {
                self.threads.push(thread);
                self.touch();
                assert(self.archived_threads.deep_view() =~= before.archived_threads.drop_last());
                assert(self.threads.deep_view() =~= before.threads.push(
                    before.archived_threads.last(),
                ));
            },
            None => {
                assert(self.archived_threads.deep_view() =~= before.archived_threads);
            },
        }
    }

    pub fn enqueue_approval(&mut self, approval: Approval)
        ensures
            final(self).deep_view() == old(self).deep_view().approval_enqueued(approval.deep_view()),
    {
        proof {
            reveal(AppStateView::approval_enqueued);
        }
        let ghost before = self.approval_queue.deep_view();
        let ghost view = approval.deep_view();
        if self.approval.is_none() {
            self.approval = Some(approval);
        } else {
            self.approval_queue.push(approval);
            assert(self.approval_queue.deep_view() =~= before.push(view));
        }
        self.touch();
    }

    pub fn enqueue_question(&mut self, question: QuestionRequest)
        ensures
            final(self).deep_view() == old(self).deep_view().question_enqueued(question.deep_view()),
    {
        proof {
            reveal(AppStateView::question_enqueued);
        }
        let ghost before = self.user_question_queue.deep_view();
        let ghost view = question.deep_view();
        if self.user_question.is_none() {
            self.user_question = Some(question);
        } else {
            self.user_question_queue.push(question);
            assert(self.user_question_queue.deep_view() =~= before.push(view));
        }
        self.touch();
    }

    pub fn error(&mut self, message: &str)
        ensures
            final(self).deep_view() == old(self).deep_view().with_error(message@),
    {
        proof {
            reveal(AppStateView::with_error);
        }
        let line = cat("Error: ", message);
        self.log(line.as_str());
        self.toast = Some(Toast { message: message.to_owned(), is_error: true });
        self.touch();
    }

    pub fn info(&mut self, message: &str)
        ensures
            final(self).deep_view() == old(self).deep_view().with_info(message@),
    {
        proof {
            reveal(AppStateView::with_info);
        }
        self.toast = Some(Toast { message: message.to_owned(), is_error: false });
        self.touch();
    }

    pub fn begin_turn(&mut self, id: String, now_ms: u64)
        ensures
            final(self).deep_view() == old(self).deep_view().turn_begun(id@, now_ms),
    {
        proof {
            reveal(AppStateView::turn_begun);
        }
        self.running_turns.insert(id.clone(), None);
        self.turn_started_at_ms.insert(id, now_ms);
    }

    fn settle_answer(&mut self, id: &str, now_ms: u64)
        ensures
            final(self).deep_view() == old(self).deep_view().answer_settled(id@, now_ms),
    {
        proof {
            reveal(AppStateView::answer_settled);
        }
        let started: Option<u64> = match self.turn_started_at_ms.get(id) {
            Some(started) => Some(*started),
            None => None,
        };
        match started {
            Some(started) => {
                self.time_answer(id, now_ms.saturating_sub(started));
            },
            None => {},
        }
    }

    fn time_answer(&mut self, id: &str, ms: u64)
        ensures
            final(self).deep_view() == old(self).deep_view().answer_timed(id@, ms),
    {
        proof {
            reveal(AppStateView::answer_timed);
        }
        if is_id(&self.active_local_thread, id) {
            set_duration(&mut self.conversation, ms);
        } else {
            match find_thread(&self.threads, id) {
                Some(i) => {
                    let ghost before = self.deep_view();
                    set_duration(&mut self.threads[i].messages, ms);
                    assert(self.threads.deep_view() =~= before.with_messages(
                        id@,
                        timed(before.threads[i as int].messages, ms),
                    ).threads);
                },
                None => {},
            }
        }
    }

    pub fn finish_turn(&mut self, id: &str, now_ms: u64)
        ensures
            final(self).deep_view() == old(self).deep_view().turn_finished(id@, now_ms),
    {
        proof {
            reveal(AppStateView::turn_finished);
        }
        self.settle_answer(id, now_ms);
        self.running_turns.remove(id);
        self.turn_started_at_ms.remove(id);
    }

    pub fn interrupt_items(&mut self, id: &str)
        ensures
            final(self).deep_view() == old(self).deep_view().items_interrupted(id@),
    {
        proof {
            reveal(AppStateView::items_interrupted);
        }
        if is_id(&self.active_local_thread, id) {
            mark_interrupted(&mut self.conversation);
        } else {
            match find_thread(&self.threads, id) {
                Some(i) => {
                    let ghost before = self.deep_view();
                    mark_interrupted(&mut self.threads[i].messages);
                    assert(self.threads.deep_view() =~= before.with_messages(
                        id@,
                        interrupted(before.threads[i as int].messages),
                    ).threads);
                },
                None => {},
            }
        }
    }

    pub fn toggle_message(&mut self, id: &str)
        ensures
            final(self).deep_view() == old(self).deep_view().message_toggled(id@),
    {
        proof {
            reveal(AppStateView::message_toggled);
        }
        match find_item(&self.conversation, id) {
            Some(i) => {
                let ghost before = self.deep_view();
                let flipped = !self.conversation[i].collapsed;
                self.conversation[i].collapsed = flipped;
                self.touch();
                assert(self.conversation.deep_view() =~= before.message_toggled(id@).conversation);
            },
            None => {},
        }
    }

    pub fn toggle_response_details(&mut self, id: &str)
        ensures
            final(self).deep_view() == old(self).deep_view().details_toggled(id@),
    {
        proof {
            reveal(AppStateView::details_toggled);
        }
        match find_item(&self.conversation, id) {
            Some(i) => {
                let ghost before = self.deep_view();
                let flipped = !self.conversation[i].response_details_collapsed;
                self.conversation[i].response_details_collapsed = flipped;
                self.touch();
                assert(self.conversation.deep_view() =~= before.details_toggled(id@).conversation);
            },
            None => {},
        }
    }

    /// How long the turn of the active thread has been running.
    pub fn active_turn_elapsed_ms(&self, now_ms: u64) -> (r: Option<u64>)
        ensures
            r == match self.deep_view().active_local_thread {
                Some(id) => match lookup(self.deep_view().turn_started_at_ms, id) {
                    Some(started) => Some(elapsed(started, now_ms)),
                    None => None,
                },
                None => None,
            },
    {
        match &self.active_local_thread {
            Some(id) => match self.turn_started_at_ms.get(id.as_str()) {
                Some(started) => Some(now_ms.saturating_sub(*started)),
                None => None,
            },
            None => None,
        }
    }

    pub fn draft_key(&self) -> (r: String)
        ensures
            r@ == self.deep_view().key_of_draft(),
    {
        match &self.active_local_thread {
            Some(id) => id.clone(),
            None => match &self.active_project {
                Some(id) => id.clone(),
                None => String::new(),
            },
        }
    }

    fn find_draft(&self, key: &str) -> (r: Option<usize>)
        ensures
            match r {
                Some(i) => i < self.drafts@.len() && draft_under(self.drafts.deep_view(), key@)
                    == Some(i as int),
                None => draft_under(self.drafts.deep_view(), key@) is None,
            },
    {
        let ghost all = self.drafts.deep_view();
        let ghost p = |d: DraftEntryView| d.key == key@;
        let mut i: usize = 0;
        while i < self.drafts.len()
            invariant
                i <= self.drafts@.len(),
                all == self.drafts.deep_view(),
                p == (|d: DraftEntryView| d.key == key@),
                forall|j: int| 0 <= j < i ==> !p(#[trigger] all[j]),
            decreases self.drafts@.len() - i,
        {
            assert(all[i as int] == self.drafts@[i as int].deep_view());
            if same_text(self.drafts[i].key.as_str(), key) {
                proof {
                    lemma_first_where_is(all, p, i as int);
                }
                return Some(i);
            }
            i += 1;
        }
        proof {
            lemma_first_where_none(all, p);
        }
        None
    }

    pub fn active_draft(&self) -> (r: Draft)
        ensures
            r.deep_view() == self.deep_view().draft(),
    {
        let key = self.draft_key();
        match self.find_draft(key.as_str()) {
            Some(i) => self.drafts[i].draft.clone(),
            None => {
                let r = Draft { text: String::new(), attachments: Vec::new() };
                assert(r.attachments.deep_view() =~= Seq::empty());
                r
            },
        }
    }

    fn set_draft_under(&mut self, key: String, draft: Draft)
        ensures
            final(self).deep_view() == old(self).deep_view().with_draft_under(
                key@,
                draft.deep_view(),
            ),
    {
        proof {
            reveal(AppStateView::with_draft_under);
        }
        let ghost before = self.deep_view();
        let ghost view = draft.deep_view();
        let found = self.find_draft(key.as_str());
        let entry = DraftEntry { key, draft };
        match found {
            Some(i) => {
                self.drafts.set(i, entry);
            },
            None => {
                self.drafts.push(entry);
            },
        }
        self.touch();
        assert(self.drafts.deep_view() =~= before.with_draft_under(key@, view).drafts);
    }

    pub fn set_draft(&mut self, draft: Draft)
        ensures
            final(self).deep_view() == old(self).deep_view().with_draft(draft.deep_view()),
    {
        let key = self.draft_key();
        self.set_draft_under(key, draft);
    }

    /// Adds files to the draft of the place under a key.
    pub fn attach_to_draft(&mut self, key: String, paths: Vec<String>)
        ensures
            final(self).deep_view() == old(self).deep_view().files_attached(
                key@,
                paths.deep_view(),
            ),
    {
        let ghost added = paths.deep_view();
        let mut paths = paths;
        let draft = match self.find_draft(key.as_str()) {
            Some(i) => {
                let mut draft = self.drafts[i].draft.clone();
                let ghost had = draft.attachments.deep_view();
                draft.attachments.append(&mut paths);
                assert(draft.attachments.deep_view() =~= had + added);
                draft
            },
            None => Draft { text: String::new(), attachments: paths },
        };
        self.set_draft_under(key, draft);
    }

    /// Takes one attachment out of the present draft, if there are that many.
    pub fn remove_attachment(&mut self, index: usize)
        ensures
            final(self).deep_view() == old(self).deep_view().attachment_removed(index as int),
    {
        let mut draft = self.active_draft();
        if index < draft.attachments.len() {
            let ghost had = draft.attachments.deep_view();
            let _gone = draft.attachments.remove(index);
            assert(draft.attachments.deep_view() =~= had.remove(index as int));
            self.set_draft(draft);
        }
    }
}

/// Whether a text is among others.
pub fn contains_text(all: &Vec<String>, t: &str) -> (r: bool)
    ensures
        r == all.deep_view().contains(t@),
{
    let mut i: usize = 0;
    while i < all.len()
        invariant
            i <= all@.len(),
            forall|j: int| 0 <= j < i ==> all.deep_view()[j] != t@,
        decreases all@.len() - i,
    {
        assert(all.deep_view()[i as int] == all@[i as int]@);
        if same_text(all[i].as_str(), t) {
            return true;
        }
        i += 1;
    }
    false
}

fn set_duration(items: &mut Vec<ConversationItem>, ms: u64)
    ensures
        final(items).deep_view() == timed(old(items).deep_view(), ms),
{
    let ghost before = items.deep_view();
    let ghost p = |i: ConversationItemView|
        i.kind == ItemKind::Assistant || i.kind == ItemKind::User;
    let mut i: usize = items.len();
    while i > 0
        invariant
            i <= items@.len(),
            items.deep_view() == before,
            before == old(items).deep_view(),
            p == (|i: ConversationItemView|
                i.kind == ItemKind::Assistant || i.kind == ItemKind::User),
            forall|j: int| i <= j < before.len() ==> !p(#[trigger] before[j]),
        decreases i,
    {
        i -= 1;
        assert(before[i as int] == items@[i as int].deep_view());
        if items[i].kind == ItemKind::Assistant {
            proof {
                lemma_last_where_is(before, p, i as int);
            }
            items[i].duration_ms = Some(ms);
            assert(items.deep_view() =~= timed(before, ms));
            return;
        }
        if items[i].kind == ItemKind::User {
            proof {
                lemma_last_where_is(before, p, i as int);
            }
            return;
        }
    }
    proof {
        lemma_last_where_none(before, p);
    }
}

fn mark_interrupted(items: &mut Vec<ConversationItem>)
    ensures
        final(items).deep_view() == interrupted(old(items).deep_view()),
{
    let ghost before = items.deep_view();
    let mut i: usize = 0;
    while i < items.len()
        invariant
            i <= items@.len(),
            items@.len() == before.len(),
            forall|j: int|
                0 <= j < i ==> (#[trigger] items@[j]).deep_view() == interrupted(before)[j],
            forall|j: int| i <= j < before.len() ==> (#[trigger] items@[j]).deep_view() == before[j],
        decreases items@.len() - i,
    {
        if same_text(items[i].status.as_str(), "running") {
            items[i].status = "interrupted".to_owned();
        }
        i += 1;
    }
    assert(items.deep_view() =~= interrupted(before));
}

} // verus!
