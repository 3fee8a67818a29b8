//! The controller: what the application does on each event. It holds no
//! channels and reads no clocks; it takes moments and messages as arguments
//! and leaves the work it asks for in its outbox.
use crate::json::{Json, JsonView};
use crate::protocol::turn_params_view;
use crate::state::{AppState, AppStateView};
use crate::table::{first_where, lookup, without, Table};
use crate::workspace::{
    CommitSnapshot, CommitSnapshotView, GitAction, WorkspaceSnapshot, WorkspaceSnapshotView,
};
use vstd::prelude::*;
use vstd::string::*;

pub mod answers;
pub mod calls;
pub mod exchange;
pub mod inspection;
pub mod laws;
pub mod lifecycle;
pub mod navigation;
pub mod notifications;
pub mod outcomes;
pub mod poll;
pub mod prompts;
pub mod reports;
pub mod requests;
pub mod responses;
pub mod startup;

verus! {

/// A reading of the clocks: seconds and milliseconds since the epoch, and a clock that only runs forward, in milliseconds.
#[derive(Debug, Clone, Copy, PartialEq, Eq, Structural)]
pub struct Moment {
    pub seconds: i64,
    pub millis: u64,
    pub ticks: u64,
}

impl DeepView for Moment {
    type V = Moment;

    open spec fn deep_view(&self) -> Moment {
        *self
    }
}

/// A turn that waits for its thread on the backend.
#[derive(Debug, PartialEq)]
pub struct PendingTurn {
    pub generation: u64,
    pub input: Vec<Json>,
    pub cwd: String,
    pub approval_policy: String,
    pub sandbox: String,
    pub model: String,
    pub effort: String,
}

/// What a [`PendingTurn`] holds.
pub struct PendingTurnView {
    pub generation: u64,
    pub input: Seq<JsonView>,
    pub cwd: Seq<char>,
    pub approval_policy: Seq<char>,
    pub sandbox: Seq<char>,
    pub model: Seq<char>,
    pub effort: Seq<char>,
}

impl DeepView for PendingTurn {
    type V = PendingTurnView;

    open spec fn deep_view(&self) -> PendingTurnView {
        PendingTurnView {
            generation: self.generation.deep_view(),
            input: self.input.deep_view(),
            cwd: self.cwd.deep_view(),
            approval_policy: self.approval_policy.deep_view(),
            sandbox: self.sandbox.deep_view(),
            model: self.model.deep_view(),
            effort: self.effort.deep_view(),
        }
    }
}

/// What a summary is made for.
#[derive(Debug, PartialEq)]
pub enum SummaryTarget {
    ThreadTitle { local_thread_id: String },
    GitCommit { root: String, snapshot: CommitSnapshot },
}

/// What a [`SummaryTarget`] holds.
pub enum SummaryTargetView {
    ThreadTitle { local_thread_id: Seq<char> },
    GitCommit { root: Seq<char>, snapshot: CommitSnapshotView },
}

impl DeepView for SummaryTarget {
    type V = SummaryTargetView;

    open spec fn deep_view(&self) -> SummaryTargetView {
        match self {
            SummaryTarget::ThreadTitle { local_thread_id } => SummaryTargetView::ThreadTitle {
                local_thread_id: local_thread_id.deep_view(),
            },
            SummaryTarget::GitCommit { root, snapshot } => SummaryTargetView::GitCommit {
                root: root.deep_view(),
                snapshot: snapshot.deep_view(),
            },
        }
    }
}

/// A summary that waits for its thread on the backend.
#[derive(Debug, PartialEq)]
pub struct SummaryJob {
    pub key: String,
    pub target: SummaryTarget,
    pub prompt: String,
    pub cwd: String,
    pub model: String,
    pub effort: String,
}

/// What a [`SummaryJob`] holds.
pub struct SummaryJobView {
    pub key: Seq<char>,
    pub target: SummaryTargetView,
    pub prompt: Seq<char>,
    pub cwd: Seq<char>,
    pub model: Seq<char>,
    pub effort: Seq<char>,
}

impl DeepView for SummaryJob {
    type V = SummaryJobView;

    open spec fn deep_view(&self) -> SummaryJobView {
        SummaryJobView {
            key: self.key.deep_view(),
            target: self.target.deep_view(),
            prompt: self.prompt.deep_view(),
            cwd: self.cwd.deep_view(),
            model: self.model.deep_view(),
            effort: self.effort.deep_view(),
        }
    }
}

/// A summary that is being written.
#[derive(Debug, PartialEq)]
pub struct ActiveSummary {
    pub key: String,
    pub target: SummaryTarget,
    pub output: String,
    pub deadline: u64,
}

/// What a [`ActiveSummary`] holds.
pub struct ActiveSummaryView {
    pub key: Seq<char>,
    pub target: SummaryTargetView,
    pub output: Seq<char>,
    pub deadline: u64,
}

impl DeepView for ActiveSummary {
    type V = ActiveSummaryView;

    open spec fn deep_view(&self) -> ActiveSummaryView {
        ActiveSummaryView {
            key: self.key.deep_view(),
            target: self.target.deep_view(),
            output: self.output.deep_view(),
            deadline: self.deadline.deep_view(),
        }
    }
}

/// A request to the backend that was not answered yet.
#[derive(Debug, PartialEq)]
pub enum PendingCall {
    Initialize,
    Account,
    RateLimits,
    ConsumeReset,
    Models,
    ThreadStart { local_thread_id: String, turn: PendingTurn },
    TurnStart { local_thread_id: String, generation: u64 },
    Interrupt { local_thread_id: String, turn_id: String },
    SummaryThreadStart(SummaryJob),
    SummaryTurnStart { thread_id: String },
}

/// What a [`PendingCall`] holds.
pub enum PendingCallView {
    Initialize,
    Account,
    RateLimits,
    ConsumeReset,
    Models,
    ThreadStart { local_thread_id: Seq<char>, turn: PendingTurnView },
    TurnStart { local_thread_id: Seq<char>, generation: u64 },
    Interrupt { local_thread_id: Seq<char>, turn_id: Seq<char> },
    SummaryThreadStart(SummaryJobView),
    SummaryTurnStart { thread_id: Seq<char> },
}

impl DeepView for PendingCall {
    type V = PendingCallView;

    open spec fn deep_view(&self) -> PendingCallView {
        match self {
            PendingCall::Initialize => PendingCallView::Initialize,
            PendingCall::Account => PendingCallView::Account,
            PendingCall::RateLimits => PendingCallView::RateLimits,
            PendingCall::ConsumeReset => PendingCallView::ConsumeReset,
            PendingCall::Models => PendingCallView::Models,
            PendingCall::ThreadStart { local_thread_id, turn } => PendingCallView::ThreadStart {
                local_thread_id: local_thread_id.deep_view(),
                turn: turn.deep_view(),
            },
            PendingCall::TurnStart { local_thread_id, generation } => PendingCallView::TurnStart {
                local_thread_id: local_thread_id.deep_view(),
                generation: generation.deep_view(),
            },
            PendingCall::Interrupt { local_thread_id, turn_id } => PendingCallView::Interrupt {
                local_thread_id: local_thread_id.deep_view(),
                turn_id: turn_id.deep_view(),
            },
            PendingCall::SummaryThreadStart(inner) => PendingCallView::SummaryThreadStart(inner.deep_view()),
            PendingCall::SummaryTurnStart { thread_id } => PendingCallView::SummaryTurnStart {
                thread_id: thread_id.deep_view(),
            },
        }
    }
}

/// A request under its id, with the time until which an answer is awaited.
#[derive(Debug, PartialEq)]
pub struct PendingEntry {
    pub id: u64,
    pub call: PendingCall,
    pub deadline: u64,
}

/// What a [`PendingEntry`] holds.
pub struct PendingEntryView {
    pub id: u64,
    pub call: PendingCallView,
    pub deadline: u64,
}

impl DeepView for PendingEntry {
    type V = PendingEntryView;

    open spec fn deep_view(&self) -> PendingEntryView {
        PendingEntryView {
            id: self.id.deep_view(),
            call: self.call.deep_view(),
            deadline: self.deadline.deep_view(),
        }
    }
}

/// Work that the library asks its surroundings to do.
#[derive(Debug, PartialEq)]
pub enum Action {
    Send(Json),
    StartBackend,
    DropBackend,
    CheckUpdate,
    InstallUpdate,
    Inspect { directory: Option<String>, respect_gitignore: bool, github_configuration: Option<bool> },
    PrepareCommit { root: String },
    RunGit { root: String, action: GitAction, private_repository: bool },
    Commit { root: String, message: String, snapshot: CommitSnapshot },
}

/// What a [`Action`] holds.
pub enum ActionView {
    Send(JsonView),
    StartBackend,
    DropBackend,
    CheckUpdate,
    InstallUpdate,
    Inspect { directory: Option<Seq<char>>, respect_gitignore: bool, github_configuration: Option<bool> },
    PrepareCommit { root: Seq<char> },
    RunGit { root: Seq<char>, action: GitAction, private_repository: bool },
    Commit { root: Seq<char>, message: Seq<char>, snapshot: CommitSnapshotView },
}

impl DeepView for Action {
    type V = ActionView;

    open spec fn deep_view(&self) -> ActionView {
        match self {
            Action::Send(inner) => ActionView::Send(inner.deep_view()),
            Action::StartBackend => ActionView::StartBackend,
            Action::DropBackend => ActionView::DropBackend,
            Action::CheckUpdate => ActionView::CheckUpdate,
            Action::InstallUpdate => ActionView::InstallUpdate,
            Action::Inspect { directory, respect_gitignore, github_configuration } => ActionView::Inspect {
                directory: directory.deep_view(),
                respect_gitignore: respect_gitignore.deep_view(),
                github_configuration: github_configuration.deep_view(),
            },
            Action::PrepareCommit { root } => ActionView::PrepareCommit {
                root: root.deep_view(),
            },
            Action::RunGit { root, action, private_repository } => ActionView::RunGit {
                root: root.deep_view(),
                action: action.deep_view(),
                private_repository: private_repository.deep_view(),
            },
            Action::Commit { root, message, snapshot } => ActionView::Commit {
                root: root.deep_view(),
                message: message.deep_view(),
                snapshot: snapshot.deep_view(),
            },
        }
    }
}

/// The application: its state, the calls under way, and the work it asks for.
#[derive(Debug, PartialEq)]
pub struct Controller {
    pub state: AppState,
    pub version: String,
    pub backend: bool,
    pub backend_start: bool,
    pub startup_in_progress: bool,
    pub workspace_rx: bool,
    pub workspace_snapshots: Table<WorkspaceSnapshot>,
    pub github_configuration: Option<bool>,
    pub git_action_rx: bool,
    pub commit_prepare_rx: bool,
    pub update_check_rx: bool,
    pub update_install_rx: bool,
    pub pending: Vec<PendingEntry>,
    pub summary_pending: Table<()>,
    pub active_summaries: Table<ActiveSummary>,
    pub next_id: u64,
    pub last_polled_revision: u64,
    pub turn_generations: Table<u64>,
    pub cancelled: Table<()>,
    pub completed_turns: Vec<(String, String)>,
    pub startup_deadline: Option<u64>,
    pub outbox: Vec<Action>,
}

/// What a [`Controller`] holds.
pub struct ControllerView {
    pub state: AppStateView,
    pub version: Seq<char>,
    pub backend: bool,
    pub backend_start: bool,
    pub startup_in_progress: bool,
    pub workspace_rx: bool,
    pub workspace_snapshots: Seq<(Seq<char>, WorkspaceSnapshotView)>,
    pub github_configuration: Option<bool>,
    pub git_action_rx: bool,
    pub commit_prepare_rx: bool,
    pub update_check_rx: bool,
    pub update_install_rx: bool,
    pub pending: Seq<PendingEntryView>,
    pub summary_pending: Seq<(Seq<char>, ())>,
    pub active_summaries: Seq<(Seq<char>, ActiveSummaryView)>,
    pub next_id: u64,
    pub last_polled_revision: u64,
    pub turn_generations: Seq<(Seq<char>, u64)>,
    pub cancelled: Seq<(Seq<char>, ())>,
    pub completed_turns: Seq<(Seq<char>, Seq<char>)>,
    pub startup_deadline: Option<u64>,
    pub outbox: Seq<ActionView>,
}

impl DeepView for Controller {
    type V = ControllerView;

    open spec fn deep_view(&self) -> ControllerView {
        ControllerView {
            state: self.state.deep_view(),
            version: self.version.deep_view(),
            backend: self.backend.deep_view(),
            backend_start: self.backend_start.deep_view(),
            startup_in_progress: self.startup_in_progress.deep_view(),
            workspace_rx: self.workspace_rx.deep_view(),
            workspace_snapshots: self.workspace_snapshots.deep_view(),
            github_configuration: self.github_configuration.deep_view(),
            git_action_rx: self.git_action_rx.deep_view(),
            commit_prepare_rx: self.commit_prepare_rx.deep_view(),
            update_check_rx: self.update_check_rx.deep_view(),
            update_install_rx: self.update_install_rx.deep_view(),
            pending: self.pending.deep_view(),
            summary_pending: self.summary_pending.deep_view(),
            active_summaries: self.active_summaries.deep_view(),
            next_id: self.next_id.deep_view(),
            last_polled_revision: self.last_polled_revision.deep_view(),
            turn_generations: self.turn_generations.deep_view(),
            cancelled: self.cancelled.deep_view(),
            completed_turns: self.completed_turns.deep_view(),
            startup_deadline: self.startup_deadline.deep_view(),
            outbox: self.outbox.deep_view(),
        }
    }
}


/// A moment some milliseconds later.
pub open spec fn later(ticks: u64, ms: u64) -> u64 {
    if ticks + ms > u64::MAX {
        u64::MAX
    } else {
        (ticks + ms) as u64
    }
}

/// Calls with an id.
pub open spec fn call_numbered(id: u64) -> spec_fn(PendingEntryView) -> bool {
    |e: PendingEntryView| e.id == id
}

/// The call under an id.
pub open spec fn call_at(pending: Seq<PendingEntryView>, id: u64) -> Option<PendingCallView> {
    match first_where(pending, call_numbered(id)) {
        Some(i) => Some(pending[i].call),
        None => None,
    }
}

/// The calls without those under an id.
pub open spec fn without_call(pending: Seq<PendingEntryView>, id: u64) -> Seq<PendingEntryView>
    decreases pending.len(),
{
    if pending.len() == 0 {
        pending
    } else if pending[0].id == id {
        without_call(pending.drop_first(), id)
    } else {
        seq![pending[0]] + without_call(pending.drop_first(), id)
    }
}

/// The calls of the handshake.
pub open spec fn is_startup_call(call: PendingCallView) -> bool {
    call is Initialize || call is Account || call is Models || call is RateLimits
}

pub open spec fn startup_pending(pending: Seq<PendingEntryView>) -> bool {
    exists|i: int| 0 <= i < pending.len() && is_startup_call(#[trigger] pending[i].call)
}

/// A request as it goes over the wire.
pub open spec fn request_view(method: Seq<char>, id: u64, params: JsonView) -> JsonView {
    JsonView::Object(seq![
        ("method"@, JsonView::Text(method)),
        ("id"@, JsonView::Unsigned(id)),
        ("params"@, params),
    ])
}

/// The parameters of a request as they go over the wire.
pub open spec fn wire_params(method: Seq<char>, params: JsonView) -> Result<JsonView, Seq<char>> {
    if method == "turn/start"@ {
        turn_params_view(params)
    } else {
        Ok(params)
    }
}

/// The pairs with one more, unless it is there.
pub open spec fn pair_put(
    pairs: Seq<(Seq<char>, Seq<char>)>,
    pair: (Seq<char>, Seq<char>),
) -> Seq<(Seq<char>, Seq<char>)> {
    if pairs.contains(pair) {
        pairs
    } else {
        pairs.push(pair)
    }
}

/// What is asked of the backend to start a turn.
pub open spec fn turn_start_view(thread_id: Seq<char>, turn: PendingTurnView) -> JsonView {
    JsonView::Object(seq![
        ("threadId"@, JsonView::Text(thread_id)),
        ("input"@, JsonView::Array(turn.input)),
        ("cwd"@, JsonView::Text(turn.cwd)),
        ("approvalPolicy"@, JsonView::Text(turn.approval_policy)),
        ("sandbox"@, JsonView::Text(turn.sandbox)),
        ("model"@, JsonView::Text(turn.model)),
        ("effort"@, JsonView::Text(turn.effort)),
    ])
}

impl ControllerView {
    pub open spec fn with_state(self, state: AppStateView) -> ControllerView {
        ControllerView { state, ..self }
    }

    /// Work is asked for.
    pub open spec fn acted(self, action: ActionView) -> ControllerView {
        ControllerView { outbox: self.outbox.push(action), ..self }
    }

    pub open spec fn errored(self, text: Seq<char>) -> ControllerView {
        self.with_state(self.state.with_error(text))
    }

    pub open spec fn touched(self) -> ControllerView {
        self.with_state(self.state.touched())
    }

    /// A call is under way, to be answered within a minute.
    #[verifier::opaque]
    pub open spec fn call_opened(self, call: PendingCallView, now: Moment) -> ControllerView {
        ControllerView {
            next_id: crate::state::next_revision(self.next_id),
            pending: without_call(self.pending, self.next_id).push(
                PendingEntryView { id: self.next_id, call, deadline: later(now.ticks, 60_000) },
            ),
            ..self
        }
    }

    #[verifier::opaque]
    pub open spec fn call_closed(self, id: u64) -> ControllerView {
        ControllerView { pending: without_call(self.pending, id), ..self }
    }

    /// The startup is over once none of its calls is under way.
    #[verifier::opaque]
    pub open spec fn startup_checked(self) -> ControllerView {
        if self.startup_in_progress && !startup_pending(self.pending) {
            ControllerView { startup_in_progress: false, startup_deadline: None, ..self }
        } else {
            self
        }
    }

    /// A message that awaits no answer goes to the backend, if there is one.
    #[verifier::opaque]
    pub open spec fn raw_sent(self, message: JsonView) -> ControllerView {
        if self.backend {
            self.acted(ActionView::Send(message))
        } else {
            self
        }
    }

    /// The turn of a thread is over on this side.
    #[verifier::opaque]
    pub open spec fn local_turn_finished(self, id: Seq<char>, now: Moment) -> ControllerView {
        ControllerView {
            turn_generations: without(self.turn_generations, id),
            cancelled: without(self.cancelled, id),
            state: self.state.approvals_dropped(id).questions_dropped(id).turn_finished(
                id,
                now.millis,
            ).touched(),
            ..self
        }
    }

    /// Only a call of the present generation can end the turn of a thread.
    #[verifier::opaque]
    pub open spec fn turn_abandoned(self, id: Seq<char>, generation: u64, now: Moment) -> ControllerView {
        if lookup(self.turn_generations, id) == Some(generation) {
            self.local_turn_finished(id, now)
        } else {
            self
        }
    }

    pub open spec fn summary_dropped(self, key: Seq<char>) -> ControllerView {
        ControllerView { summary_pending: without(self.summary_pending, key), ..self }
    }

    /// A failed summary is reported when a commit waits for it, else logged.
    #[verifier::opaque]
    pub open spec fn summary_failed(self, target: SummaryTargetView, text: Seq<char>) -> ControllerView {
        match target {
            SummaryTargetView::GitCommit { .. } => self.with_state(
                self.state.git_busy(false).with_error(text),
            ),
            SummaryTargetView::ThreadTitle { .. } => self.with_state(
                self.state.logged("Title summary unavailable: "@ + text).touched(),
            ),
        }
    }

    pub open spec fn summary_closed(self, thread_id: Seq<char>) -> ControllerView {
        ControllerView { active_summaries: without(self.active_summaries, thread_id), ..self }
    }

    /// A turn could not be started.
    #[verifier::opaque]
    pub open spec fn turn_failed(
        self,
        id: Seq<char>,
        generation: u64,
        text: Seq<char>,
        now: Moment,
    ) -> ControllerView {
        self.turn_abandoned(id, generation, now).errored(text)
    }

    /// The thread of a summary could not be started.
    #[verifier::opaque]
    pub open spec fn summary_start_failed(
        self,
        key: Seq<char>,
        target: SummaryTargetView,
        text: Seq<char>,
    ) -> ControllerView {
        self.summary_dropped(key).summary_failed(target, text)
    }

    /// The turn of a summary could not be started.
    #[verifier::opaque]
    pub open spec fn summary_turn_failed(self, thread_id: Seq<char>, text: Seq<char>) -> ControllerView {
        match lookup(self.active_summaries, thread_id) {
            Some(active) => self.summary_closed(thread_id).summary_start_failed(
                active.key,
                active.target,
                text,
            ),
            None => self.touched(),
        }
    }

    /// What the failure of a call does.
    #[verifier::opaque]
    pub open spec fn failed(
        self,
        call: Option<PendingCallView>,
        text: Seq<char>,
        now: Moment,
    ) -> ControllerView {
        match call {
            Some(PendingCallView::ThreadStart { local_thread_id, turn }) => self.turn_failed(
                local_thread_id,
                turn.generation,
                text,
                now,
            ),
            Some(PendingCallView::TurnStart { local_thread_id, generation }) => self.turn_failed(
                local_thread_id,
                generation,
                text,
                now,
            ),
            Some(PendingCallView::SummaryThreadStart(job)) => self.summary_start_failed(
                job.key,
                job.target,
                text,
            ),
            Some(PendingCallView::SummaryTurnStart { thread_id }) => self.summary_turn_failed(
                thread_id,
                text,
            ),
            Some(PendingCallView::RateLimits) => self.with_state(
                self.state.usage_failed(text).with_error(text),
            ),
            Some(PendingCallView::Initialize) => self.with_state(
                self.state.with_connection(
                    false,
                    "Connection failed — Reconnect to retry"@,
                ).with_error(text),
            ),
            Some(PendingCallView::ConsumeReset) => self.with_state(
                self.state.resetting(false).with_error(text),
            ),
            _ => self.errored(text),
        }
    }

    /// A call came back with an error.
    #[verifier::opaque]
    pub open spec fn call_failed(self, id: u64, text: Seq<char>, now: Moment) -> ControllerView {
        self.call_closed(id).failed(call_at(self.pending, id), text, now).startup_checked()
    }

    /// A message could not be sent.
    #[verifier::opaque]
    pub open spec fn send_refused(self, message: JsonView, text: Seq<char>, now: Moment) -> ControllerView {
        match (message.get("method"@), message.u64_at("id"@)) {
            (Some(_), Some(id)) => self.call_failed(id, text, now),
            _ => self.errored(text),
        }
    }

    /// A call is made: it goes to the backend, or fails at once without one.
    #[verifier::opaque]
    pub open spec fn requested(
        self,
        method: Seq<char>,
        params: JsonView,
        call: PendingCallView,
        now: Moment,
    ) -> ControllerView {
        let opened = self.call_opened(call, now);
        match wire_params(method, params) {
            Ok(p) => if self.backend {
                opened.acted(ActionView::Send(request_view(method, self.next_id, p)))
            } else {
                opened.call_failed(self.next_id, "Codex is disconnected"@, now)
            },
            Err(e) => opened.call_failed(self.next_id, e, now),
        }
    }

    /// A turn of a thread is asked for.
    #[verifier::opaque]
    pub open spec fn turn_requested(
        self,
        local_thread_id: Seq<char>,
        thread_id: Seq<char>,
        turn: PendingTurnView,
        now: Moment,
    ) -> ControllerView {
        self.requested(
            "turn/start"@,
            turn_start_view(thread_id, turn),
            PendingCallView::TurnStart { local_thread_id, generation: turn.generation },
            now,
        )
    }
}

} // verus!
