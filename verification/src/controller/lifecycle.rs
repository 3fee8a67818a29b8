//! Starting, losing and replacing the backend, and its updates.
use super::{
    later, Action, ActionView, Controller, ControllerView, Moment, PendingCall, PendingCallView,
};
use crate::json::{object, Json, JsonView};
use crate::model::{PersistedState, PersistedStateView};
use crate::state::{initial_state, AppState, AppStateView};
use crate::table::Table;
use crate::text::{cat, cat3};
use vstd::prelude::*;
use vstd::string::*;

verus! {

/// A worker that could not be started.
#[derive(Debug, Clone, Copy, PartialEq, Eq, Structural)]
pub enum Worker {
    Backend,
    UpdateCheck,
    UpdateInstall,
    Inspection,
    CommitPreparation,
    GitAction,
    GitCommit,
}

/// What the handshake says of this client.
pub open spec fn initialize_view(version: Seq<char>) -> JsonView {
    JsonView::Object(seq![
        (
            "clientInfo"@,
            JsonView::Object(seq![
                ("name"@, JsonView::Text("ferro-code"@)),
                ("title"@, JsonView::Text("Ferro Code"@)),
                ("version"@, JsonView::Text(version)),
            ]),
        ),
        (
            "capabilities"@,
            JsonView::Object(seq![
                ("experimentalApi"@, JsonView::Bool(true)),
                ("requestAttestation"@, JsonView::Bool(false)),
            ]),
        ),
    ])
}

fn initialize_params(version: &str) -> (r: Json)
    ensures
        r.deep_view() == initialize_view(version@),
{
    let client = object(
        vec![
            ("name".to_owned(), Json::text("ferro-code")),
            ("title".to_owned(), Json::text("Ferro Code")),
            ("version".to_owned(), Json::text(version)),
        ],
    );
    assert(client.deep_view()->Object_0 =~= seq![
        ("name"@, JsonView::Text("ferro-code"@)),
        ("title"@, JsonView::Text("Ferro Code"@)),
        ("version"@, JsonView::Text(version@)),
    ]);
    let capabilities = object(
        vec![
            ("experimentalApi".to_owned(), Json::Bool(true)),
            ("requestAttestation".to_owned(), Json::Bool(false)),
        ],
    );
    assert(capabilities.deep_view()->Object_0 =~= seq![
        ("experimentalApi"@, JsonView::Bool(true)),
        ("requestAttestation"@, JsonView::Bool(false)),
    ]);
    let r = object(
        vec![("clientInfo".to_owned(), client), ("capabilities".to_owned(), capabilities)],
    );
    assert(r.deep_view()->Object_0 =~= initialize_view(version@)->Object_0);
    r
}

impl AppStateView {
    pub open spec fn with_connection_text(self, text: Seq<char>) -> AppStateView {
        AppStateView { connection_text: text, ..self }
    }

    pub open spec fn with_update_version(self, version: Option<Seq<char>>) -> AppStateView {
        AppStateView { codex_update_version: version, ..self }
    }

    pub open spec fn updating(self, running: bool) -> AppStateView {
        AppStateView { codex_update_in_progress: running, ..self }
    }

    pub open spec fn with_paths(self, windows: bool) -> AppStateView {
        AppStateView { windows_paths: windows, ..self }
    }

    pub open spec fn loading_workspace(self, loading: bool) -> AppStateView {
        AppStateView { workspace_loading: loading, ..self }
    }
}

/// A controller that has just been made.
pub open spec fn new_controller(p: PersistedStateView) -> ControllerView {
    ControllerView {
        state: initial_state(p.preferences).with_history(p.history),
        version: "0.1.0"@,
        backend: false,
        backend_start: false,
        startup_in_progress: false,
        workspace_rx: false,
        workspace_snapshots: Seq::empty(),
        github_configuration: None,
        git_action_rx: false,
        commit_prepare_rx: false,
        update_check_rx: false,
        update_install_rx: false,
        pending: Seq::empty(),
        summary_pending: Seq::empty(),
        active_summaries: Seq::empty(),
        next_id: 1,
        last_polled_revision: 0,
        turn_generations: Seq::empty(),
        cancelled: Seq::empty(),
        completed_turns: Seq::empty(),
        startup_deadline: None,
        outbox: Seq::empty(),
    }
}

impl ControllerView {
    /// Everything that belongs to a connection is dropped.
    #[verifier::opaque]
    pub open spec fn backend_cleared(self, now: Moment) -> ControllerView {
        ControllerView {
            backend: false,
            backend_start: false,
            pending: Seq::empty(),
            startup_deadline: None,
            turn_generations: Seq::empty(),
            cancelled: Seq::empty(),
            completed_turns: Seq::empty(),
            state: self.state.runtime_cleared(
                now.millis,
                !self.git_action_rx && !self.commit_prepare_rx,
            ),
            summary_pending: Seq::empty(),
            active_summaries: Seq::empty(),
            outbox: self.outbox.push(ActionView::DropBackend),
            ..self
        }
    }

    pub open spec fn starting_up(self, running: bool, deadline: Option<u64>) -> ControllerView {
        ControllerView { startup_in_progress: running, startup_deadline: deadline, ..self }
    }

    /// The connection is lost.
    #[verifier::opaque]
    pub open spec fn disconnected(self, message: Seq<char>, now: Moment) -> ControllerView {
        let c = self.backend_cleared(now).starting_up(false, None);
        c.with_state(
            c.state.with_connection(
                false,
                "Codex disconnected — Reconnect to retry"@,
            ).with_error(message),
        )
    }

    pub open spec fn launching(self, running: bool) -> ControllerView {
        ControllerView { backend_start: running, ..self }
    }

    pub open spec fn attached(self, backend: bool) -> ControllerView {
        ControllerView { backend, ..self }
    }

    /// A backend is asked for, within a minute.
    #[verifier::opaque]
    pub open spec fn launched(self, now: Moment) -> ControllerView {
        let c = self.backend_cleared(now).starting_up(
            true,
            Some(later(now.ticks, 60_000)),
        ).launching(true);
        c.with_state(c.state.with_connection(false, "Starting Codex…"@).touched()).acted(
            ActionView::StartBackend,
        ).workspace_refreshed()
    }

    /// A backend is asked for, unless one is on its way.
    pub open spec fn started(self, now: Moment) -> ControllerView {
        if self.backend_start {
            self
        } else {
            self.launched(now)
        }
    }

    /// A history from a file takes the place of everything.
    #[verifier::opaque]
    pub open spec fn history_restored(self, p: PersistedStateView, now: Moment) -> ControllerView {
        self.backend_cleared(now).with_state(
            initial_state(p.preferences).with_history(p.history).with_paths(
                self.state.windows_paths,
            ),
        ).with_snapshots(Seq::empty()).inspection_restarted().started(now)
    }

    pub open spec fn checking_update(self, running: bool) -> ControllerView {
        ControllerView { update_check_rx: running, ..self }
    }

    pub open spec fn installing_update(self, running: bool) -> ControllerView {
        ControllerView { update_install_rx: running, ..self }
    }

    /// A check for updates is asked for, unless a worker is on updates.
    #[verifier::opaque]
    pub open spec fn update_check_asked(self) -> ControllerView {
        if self.update_check_rx || self.update_install_rx {
            self
        } else {
            self.checking_update(true).acted(ActionView::CheckUpdate)
        }
    }

    /// The update that is known is asked for.
    #[verifier::opaque]
    pub open spec fn update_asked(self) -> ControllerView {
        if self.state.codex_update_version is None || self.state.codex_update_in_progress
            || self.update_install_rx {
            self
        } else {
            self.with_state(self.state.updating(true).touched()).installing_update(true).acted(
                ActionView::InstallUpdate,
            )
        }
    }

    /// The backend is there: updates of an installed one are checked for, and
    /// the handshake begins.
    #[verifier::opaque]
    pub open spec fn backend_joined(self, uses_cli_fallback: bool, now: Moment) -> ControllerView {
        let c = self.starting_up(self.startup_in_progress, None).launching(false).attached(true);
        let c = if uses_cli_fallback {
            c.update_check_asked()
        } else {
            c
        };
        c.with_state(c.state.with_connection_text("Connecting…"@)).requested(
            "initialize"@,
            initialize_view(self.version),
            PendingCallView::Initialize,
            now,
        ).touched()
    }

    /// There is no backend to be had.
    #[verifier::opaque]
    pub open spec fn backend_refused(self, error: Seq<char>) -> ControllerView {
        self.starting_up(false, None).launching(false).with_state(
            self.state.with_connection_text("Codex unavailable"@).with_error(error).touched(),
        )
    }

    #[verifier::opaque]
    pub open spec fn update_checked(self, result: Result<Option<Seq<char>>, Seq<char>>) -> ControllerView {
        match result {
            Ok(version) => self.checking_update(false).with_state(
                self.state.with_update_version(version).touched(),
            ),
            Err(error) => self.checking_update(false).with_state(
                self.state.logged("Codex update check unavailable: "@ + error).touched(),
            ),
        }
    }

    #[verifier::opaque]
    pub open spec fn update_installed(self, result: Result<(), Seq<char>>) -> ControllerView {
        let version = match self.state.codex_update_version {
            Some(v) => v,
            None => "latest version"@,
        };
        match result {
            Ok(_) => self.installing_update(false).with_state(
                self.state.updating(false).with_update_version(None).logged(
                    "Updated Codex to "@ + version,
                ).with_info("Codex "@ + version + " installed. Restart Ferro Code to use it."@),
            ),
            Err(error) => self.installing_update(false).with_state(
                self.state.updating(false).with_error(error),
            ),
        }
    }

    /// A worker that was asked for could not be started.
    #[verifier::opaque]
    pub open spec fn worker_failed(self, worker: Worker, error: Seq<char>, now: Moment) -> ControllerView {
        match worker {
            Worker::Backend => self.disconnected("Could not start Codex: "@ + error, now),
            Worker::UpdateCheck => self.checking_update(false).with_state(
                self.state.logged(
                    "Codex update check unavailable: could not start worker: "@ + error,
                ).touched(),
            ),
            Worker::UpdateInstall => self.installing_update(false).with_state(
                self.state.updating(false).with_error(
                    "Could not start the Codex update: "@ + error,
                ),
            ),
            Worker::Inspection => self.inspecting(false).with_state(
                self.state.loading_workspace(false).with_error(
                    "Could not inspect the workspace: "@ + error,
                ),
            ),
            Worker::CommitPreparation => self.preparing_commit(false).with_state(
                self.state.git_busy(false).with_error(error),
            ),
            Worker::GitAction => self.git_running(false).with_state(
                self.state.git_busy(false).with_error("Could not start the Git action: "@ + error),
            ),
            Worker::GitCommit => self.git_running(false).with_state(
                self.state.git_busy(false).with_error("Could not start the Git commit: "@ + error),
            ),
        }
    }
}

impl Controller {
    pub fn new(persisted: PersistedState) -> (r: Controller)
        ensures
            r.deep_view() == new_controller(persisted.deep_view()),
    {
        let r = Controller {
            state: AppState::from_persisted(persisted),
            version: "0.1.0".to_owned(),
                backend: false,
            backend_start: false,
            startup_in_progress: false,
            workspace_rx: false,
            workspace_snapshots: Table::new(),
            github_configuration: None,
            git_action_rx: false,
            commit_prepare_rx: false,
            update_check_rx: false,
            update_install_rx: false,
            pending: Vec::new(),
            summary_pending: Table::new(),
            active_summaries: Table::new(),
            next_id: 1,
            last_polled_revision: 0,
            turn_generations: Table::new(),
            cancelled: Table::new(),
            completed_turns: Vec::new(),
            startup_deadline: None,
            outbox: Vec::new(),
        };
        assert(r.pending.deep_view() =~= Seq::empty());
        assert(r.completed_turns.deep_view() =~= Seq::empty());
        assert(r.outbox.deep_view() =~= Seq::empty());
        r
    }

    /// A controller whose backend is there already.
    pub fn with_transport(persisted: PersistedState) -> (r: Controller)
        ensures
            r.deep_view() == new_controller(persisted.deep_view()).attached(true),
    {
        let mut controller = Controller::new(persisted);
        controller.backend = true;
        controller
    }

    /// Hands out the work that was asked for, oldest first.
    pub fn take_actions(&mut self) -> (r: Vec<Action>)
        ensures
            r.deep_view() == old(self).deep_view().outbox,
            final(self).deep_view() == (ControllerView {
                outbox: Seq::empty(),
                ..old(self).deep_view()
            }),
    {
        let mut actions: Vec<Action> = Vec::new();
        core::mem::swap(&mut actions, &mut self.outbox);
        assert(self.outbox.deep_view() =~= Seq::empty());
        actions
    }

    /// True until the handshake and the first metadata have come or failed.
    pub fn startup_in_progress(&self) -> (r: bool)
        ensures
            r == self.deep_view().startup_in_progress,
    {
        self.startup_in_progress
    }

    pub(crate) fn clear_backend_state(&mut self, now: Moment)
        ensures
            final(self).deep_view() == old(self).deep_view().backend_cleared(now),
    {
        proof {
            reveal(ControllerView::backend_cleared);
        }
        let git_idle = !self.git_action_rx && !self.commit_prepare_rx;
        self.backend = false;
        self.backend_start = false;
        self.pending = Vec::new();
        self.startup_deadline = None;
        self.turn_generations.clear();
        self.cancelled.clear();
        self.completed_turns = Vec::new();
        self.state.clear_runtime(now.millis, git_idle);
        self.summary_pending.clear();
        self.active_summaries.clear();
        self.act(Action::DropBackend);
        assert(self.pending.deep_view() =~= Seq::empty());
        assert(self.completed_turns.deep_view() =~= Seq::empty());
    }

    pub(crate) fn disconnect(&mut self, message: &str, now: Moment)
        ensures
            final(self).deep_view() == old(self).deep_view().disconnected(message@, now),
    {
        proof {
            reveal(ControllerView::disconnected);
        }
        self.clear_backend_state(now);
        self.startup_in_progress = false;
        self.startup_deadline = None;
        self.state.set_connection(false, "Codex disconnected — Reconnect to retry");
        self.state.error(message);
    }

    fn launch(&mut self, now: Moment)
        ensures
            final(self).deep_view() == old(self).deep_view().launched(now),
    {
        proof {
            reveal(ControllerView::launched);
        }
        self.clear_backend_state(now);
        self.startup_deadline = Some(now.ticks.saturating_add(60_000));
        self.startup_in_progress = true;
        self.backend_start = true;
        self.state.set_connection(false, "Starting Codex…");
        self.state.touch();
        self.act(Action::StartBackend);
        self.refresh_workspace();
    }

    pub fn start(&mut self, now: Moment)
        ensures
            final(self).deep_view() == old(self).deep_view().started(now),
    {
        if !self.backend_start {
            self.launch(now);
        }
    }

    fn replace_state(&mut self, persisted: PersistedState, windows: bool)
        ensures
            final(self).deep_view() == old(self).deep_view().with_state(
                initial_state(persisted.deep_view().preferences).with_history(
                    persisted.deep_view().history,
                ).with_paths(windows),
            ),
    {
        self.state = AppState::from_persisted(persisted);
        self.state.windows_paths = windows;
    }

    pub fn restore_history(&mut self, persisted: PersistedState, now: Moment)
        ensures
            final(self).deep_view() == old(self).deep_view().history_restored(
                persisted.deep_view(),
                now,
            ),
    {
        proof {
            reveal(ControllerView::history_restored);
        }
        let windows = self.state.windows_paths;
        self.clear_backend_state(now);
        self.replace_state(persisted, windows);
        self.workspace_snapshots.clear();
        self.restart_workspace_inspection();
        self.start(now);
    }

    fn ask_update_check(&mut self)
        ensures
            final(self).deep_view() == old(self).deep_view().checking_update(true).acted(
                ActionView::CheckUpdate,
            ),
    {
        self.update_check_rx = true;
        self.act(Action::CheckUpdate);
    }

    fn check_for_codex_update(&mut self)
        ensures
            final(self).deep_view() == old(self).deep_view().update_check_asked(),
    {
        proof {
            reveal(ControllerView::update_check_asked);
        }
        if !self.update_check_rx && !self.update_install_rx {
            self.ask_update_check();
        }
    }

    fn ask_update(&mut self)
        ensures
            final(self).deep_view() == old(self).deep_view().with_state(
                old(self).deep_view().state.updating(true).touched(),
            ).installing_update(true).acted(ActionView::InstallUpdate),
    {
        self.state.codex_update_in_progress = true;
        self.state.touch();
        self.update_install_rx = true;
        self.act(Action::InstallUpdate);
    }

    pub fn update_codex(&mut self)
        ensures
            final(self).deep_view() == old(self).deep_view().update_asked(),
    {
        proof {
            reveal(ControllerView::update_asked);
        }
        if self.state.codex_update_version.is_none() || self.state.codex_update_in_progress
            || self.update_install_rx {
            return;
        }
        self.ask_update();
    }

    fn join_backend(&mut self)
        ensures
            final(self).deep_view() == old(self).deep_view().starting_up(
                old(self).deep_view().startup_in_progress,
                None,
            ).launching(false).attached(true),
    {
        self.startup_deadline = None;
        self.backend_start = false;
        self.backend = true;
    }

    fn show_connection(&mut self, text: &str)
        ensures
            final(self).deep_view() == old(self).deep_view().with_state(
                old(self).deep_view().state.with_connection_text(text@),
            ),
    {
        self.state.connection_text = text.to_owned();
    }

    fn begin_handshake(&mut self, now: Moment)
        ensures
            final(self).deep_view() == old(self).deep_view().with_state(
                old(self).deep_view().state.with_connection_text("Connecting…"@),
            ).requested(
                "initialize"@,
                initialize_view(old(self).deep_view().version),
                PendingCallView::Initialize,
                now,
            ).touched(),
    {
        let params = initialize_params(self.version.as_str());
        self.show_connection("Connecting…");
        self.request("initialize", params, PendingCall::Initialize, now);
        self.touch();
    }

    fn attach(&mut self, uses_cli_fallback: bool, now: Moment)
        ensures
            final(self).deep_view() == old(self).deep_view().backend_joined(uses_cli_fallback, now),
    {
        proof {
            reveal(ControllerView::backend_joined);
            reveal(ControllerView::update_check_asked);
        }
        self.join_backend();
        if uses_cli_fallback {
            self.check_for_codex_update();
        }
        self.begin_handshake(now);
    }

    fn refuse(&mut self, error: &str)
        ensures
            final(self).deep_view() == old(self).deep_view().backend_refused(error@),
    {
        proof {
            reveal(ControllerView::backend_refused);
        }
        self.startup_deadline = None;
        self.startup_in_progress = false;
        self.backend_start = false;
        self.state.connection_text = "Codex unavailable".to_owned();
        self.state.error(error);
        self.state.touch();
    }

    /// Takes the result of starting a backend: whether it is the installed one,
    /// or why there is none.
    pub fn attach_backend(&mut self, result: Result<bool, String>, now: Moment)
        ensures
            final(self).deep_view() == match result {
                Ok(fallback) => old(self).deep_view().backend_joined(fallback, now),
                Err(error) => old(self).deep_view().backend_refused(error@),
            },
    {
        match result {
            Ok(fallback) => {
                self.attach(fallback, now);
            },
            Err(error) => {
                self.refuse(error.as_str());
            },
        }
    }

    fn know_update(&mut self, version: Option<String>)
        ensures
            final(self).deep_view() == old(self).deep_view().checking_update(false).with_state(
                old(self).deep_view().state.with_update_version(version.deep_view()).touched(),
            ),
    {
        self.update_check_rx = false;
        self.state.codex_update_version = version;
        self.state.touch();
    }

    fn note_update_check(&mut self, line: &str)
        ensures
            final(self).deep_view() == old(self).deep_view().checking_update(false).with_state(
                old(self).deep_view().state.logged(line@).touched(),
            ),
    {
        self.update_check_rx = false;
        self.state.log(line);
        self.state.touch();
    }

    /// Takes the result of a check for updates.
    pub fn update_check_finished(&mut self, result: Result<Option<String>, String>)
        ensures
            final(self).deep_view() == old(self).deep_view().update_checked(
                match result {
                    Ok(v) => Ok(v.deep_view()),
                    Err(e) => Err(e@),
                },
            ),
    {
        proof {
            reveal(ControllerView::update_checked);
        }
        match result {
            Ok(version) => {
                self.know_update(version);
            },
            Err(error) => {
                self.note_update_check(
                    cat("Codex update check unavailable: ", error.as_str()).as_str(),
                );
            },
        }
    }

    fn finish_update(&mut self)
        ensures
            final(self).deep_view() == old(self).deep_view().update_installed(Ok(())),
    {
        proof {
            reveal(ControllerView::update_installed);
        }
        let version = match &self.state.codex_update_version {
            Some(v) => v.clone(),
            None => "latest version".to_owned(),
        };
        self.update_install_rx = false;
        self.state.codex_update_in_progress = false;
        self.state.codex_update_version = None;
        self.state.log(cat("Updated Codex to ", version.as_str()).as_str());
        self.state.info(
            cat3(
                "Codex ",
                version.as_str(),
                " installed. Restart Ferro Code to use it.",
            ).as_str(),
        );
    }

    fn fail_update(&mut self, error: &str)
        ensures
            final(self).deep_view() == old(self).deep_view().installing_update(false).with_state(
                old(self).deep_view().state.updating(false).with_error(error@),
            ),
    {
        self.update_install_rx = false;
        self.state.codex_update_in_progress = false;
        self.state.error(error);
    }

    /// Takes the result of an update.
    pub fn update_install_finished(&mut self, result: Result<(), String>)
        ensures
            final(self).deep_view() == old(self).deep_view().update_installed(
                match result {
                    Ok(_) => Ok(()),
                    Err(e) => Err(e@),
                },
            ),
    {
        proof {
            reveal(ControllerView::update_installed);
        }
        match result {
            Ok(_) => {
                self.finish_update();
            },
            Err(error) => {
                self.fail_update(error.as_str());
            },
        }
    }

    fn fail_inspection(&mut self, message: &str)
        ensures
            final(self).deep_view() == old(self).deep_view().inspecting(false).with_state(
                old(self).deep_view().state.loading_workspace(false).with_error(message@),
            ),
    {
        self.workspace_rx = false;
        self.state.workspace_loading = false;
        self.state.error(message);
    }

    fn fail_preparation(&mut self, message: &str)
        ensures
            final(self).deep_view() == old(self).deep_view().preparing_commit(false).with_state(
                old(self).deep_view().state.git_busy(false).with_error(message@),
            ),
    {
        self.commit_prepare_rx = false;
        self.state.git_action_in_progress = false;
        self.state.error(message);
    }

    fn fail_git(&mut self, message: &str)
        ensures
            final(self).deep_view() == old(self).deep_view().git_running(false).with_state(
                old(self).deep_view().state.git_busy(false).with_error(message@),
            ),
    {
        self.git_action_rx = false;
        self.state.git_action_in_progress = false;
        self.state.error(message);
    }

    /// Takes note that a worker could not be started.
    pub fn worker_not_started(&mut self, worker: Worker, error: &str, now: Moment)
        ensures
            final(self).deep_view() == old(self).deep_view().worker_failed(worker, error@, now),
    {
        proof {
            reveal(ControllerView::worker_failed);
        }
        match worker {
            Worker::Backend => {
                self.disconnect(cat("Could not start Codex: ", error).as_str(), now);
            },
            Worker::UpdateCheck => {
                self.note_update_check(
                    cat(
                        "Codex update check unavailable: could not start worker: ",
                        error,
                    ).as_str(),
                );
            },
            Worker::UpdateInstall => {
                self.fail_update(cat("Could not start the Codex update: ", error).as_str());
            },
            Worker::Inspection => {
                self.fail_inspection(cat("Could not inspect the workspace: ", error).as_str());
            },
            Worker::CommitPreparation => {
                self.fail_preparation(error);
            },
            Worker::GitAction => {
                self.fail_git(cat("Could not start the Git action: ", error).as_str());
            },
            Worker::GitCommit => {
                self.fail_git(cat("Could not start the Git commit: ", error).as_str());
            },
        }
    }
}

} // verus!
