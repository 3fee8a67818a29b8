//! Inspection of the workspace and the Git button.
use super::{Action, ActionView, Controller, ControllerView};
use crate::path::{backslashed, eq_ignore_ascii_case, same_ignoring_case, to_backslashes};
use crate::table::{lookup, put, without};
use crate::text::{lower_text, same_text, to_ascii_lowercase};
use crate::workspace::{
    CommitSnapshot, CommitSnapshotView, GitAction, WorkspaceSnapshot, WorkspaceSnapshotView,
};
use vstd::prelude::*;
use vstd::string::*;

verus! {

/// The key under which the snapshot of a directory is kept: where paths do not
/// tell case or separators apart, neither does the key.
pub open spec fn cache_key(windows: bool, root: Seq<char>) -> Seq<char> {
    if windows {
        lower_text(backslashed(root))
    } else {
        root
    }
}

pub fn workspace_cache_key(windows: bool, root: &str) -> (r: String)
    ensures
        r@ == cache_key(windows, root@),
{
    if windows {
        to_ascii_lowercase(to_backslashes(root).as_str())
    } else {
        root.to_owned()
    }
}

/// Whether two directories, or none, are the same.
pub open spec fn same_root(windows: bool, a: Option<Seq<char>>, b: Option<Seq<char>>) -> bool {
    match (a, b) {
        (Some(a), Some(b)) => if windows {
            same_ignoring_case(a, b)
        } else {
            a == b
        },
        (None, None) => true,
        _ => false,
    }
}

pub fn same_workspace(windows: bool, left: &Option<String>, right: &Option<String>) -> (r: bool)
    ensures
        r == same_root(windows, left.deep_view(), right.deep_view()),
{
    match (left, right) {
        (Some(a), Some(b)) => if windows {
            eq_ignore_ascii_case(a.as_str(), b.as_str())
        } else {
            same_text(a.as_str(), b.as_str())
        },
        (None, None) => true,
        _ => false,
    }
}

impl ControllerView {
    /// An inspection is asked for, unless one is under way.
    #[verifier::opaque]
    pub open spec fn workspace_refreshed(self) -> ControllerView {
        if self.workspace_rx {
            self
        } else {
            self.inspecting(true).acted(
                ActionView::Inspect {
                    directory: self.state.project_path(),
                    respect_gitignore: self.state.prefs.respect_gitignore,
                    github_configuration: self.github_configuration,
                },
            )
        }
    }

    pub open spec fn inspecting(self, running: bool) -> ControllerView {
        ControllerView { workspace_rx: running, ..self }
    }

    pub open spec fn with_github(self, configured: Option<bool>) -> ControllerView {
        ControllerView { github_configuration: configured, ..self }
    }

    pub open spec fn inspection_restarted(self) -> ControllerView {
        self.inspecting(false).with_github(None).workspace_refreshed()
    }

    /// The snapshot that is kept of the active project.
    pub open spec fn cached_snapshot(self) -> Option<WorkspaceSnapshotView> {
        match self.state.project_path() {
            Some(root) => lookup(self.workspace_snapshots, cache_key(self.state.windows_paths, root)),
            None => None,
        }
    }

    /// What was last known of the active project is shown, or that it loads.
    #[verifier::opaque]
    pub open spec fn cache_shown(self) -> ControllerView {
        match self.cached_snapshot() {
            Some(snapshot) => self.with_state(self.state.snapshot_applied(snapshot)),
            None => self.with_state(
                self.state.workspace_reset(
                    match self.github_configuration {
                        Some(b) => b,
                        None => self.state.git_status.github_configured,
                    },
                    self.state.project_path() is Some,
                ),
            ),
        }
    }

    /// The inspection turns to the active project.
    #[verifier::opaque]
    pub open spec fn inspection_switched(self) -> ControllerView {
        self.inspecting(false).cache_shown().workspace_refreshed()
    }

    pub open spec fn with_snapshots(
        self,
        snapshots: Seq<(Seq<char>, WorkspaceSnapshotView)>,
    ) -> ControllerView {
        ControllerView { workspace_snapshots: snapshots, ..self }
    }

    /// What is kept of the active project is out of date.
    #[verifier::opaque]
    pub open spec fn snapshot_invalidated(self) -> ControllerView {
        match self.state.project_path() {
            Some(root) => self.with_snapshots(
                without(self.workspace_snapshots, cache_key(self.state.windows_paths, root)),
            ).inspection_switched(),
            None => self.inspection_switched(),
        }
    }

    /// An inspection has come back: it is kept, and shown if it is of the
    /// active project.
    #[verifier::opaque]
    pub open spec fn inspected(
        self,
        root: Option<Seq<char>>,
        snapshot: WorkspaceSnapshotView,
    ) -> ControllerView {
        let kept = match root {
            Some(r) => put(
                self.workspace_snapshots,
                cache_key(self.state.windows_paths, r),
                snapshot,
            ),
            None => self.workspace_snapshots,
        };
        let c = self.inspecting(false).with_github(
            Some(snapshot.git.github_configured),
        ).with_snapshots(kept);
        if same_root(self.state.windows_paths, root, self.state.project_path()) {
            c.with_state(self.state.snapshot_applied(snapshot))
        } else {
            c
        }
    }

    pub open spec fn git_running(self, running: bool) -> ControllerView {
        ControllerView { git_action_rx: running, ..self }
    }

    pub open spec fn preparing_commit(self, running: bool) -> ControllerView {
        ControllerView { commit_prepare_rx: running, ..self }
    }

    /// A Git action is asked for.
    #[verifier::opaque]
    pub open spec fn git_started(self, root: Seq<char>, action: GitAction) -> ControllerView {
        self.with_state(self.state.git_busy(true).touched()).git_running(true).acted(
            ActionView::RunGit {
                root,
                action,
                private_repository: self.state.prefs.github_private_repositories,
            },
        )
    }

    /// The staged content of a commit is asked for.
    #[verifier::opaque]
    pub open spec fn commit_prepared_for(self, root: Seq<char>) -> ControllerView {
        self.with_state(self.state.git_busy(true).touched()).preparing_commit(true).acted(
            ActionView::PrepareCommit { root },
        )
    }

    /// What the Git button does: a directory without a repository gets one,
    /// changes are committed, a repository without a remote is published, and
    /// commits that the remote lacks are pushed.
    #[verifier::opaque]
    pub open spec fn git_pressed(self) -> ControllerView {
        let git = self.state.git_status;
        let no_github = "GitHub is not configured. Run `gh auth login` and try again."@;
        if self.state.git_action_in_progress {
            self
        } else {
            match self.state.project_path() {
                None => self.errored("Select a project before using Git"@),
                Some(root) => if !git.installed {
                    self
                } else if !git.is_repository {
                    self.git_started(root, GitAction::Initialize)
                } else if git.has_changes {
                    if !self.state.connected {
                        self.errored("Codex must be connected to create the commit summary"@)
                    } else {
                        self.commit_prepared_for(root)
                    }
                } else if !git.has_github_remote {
                    if !git.github_configured {
                        self.errored(no_github)
                    } else {
                        self.git_started(root, GitAction::Publish)
                    }
                } else if git.has_unpushed_commits {
                    if !git.github_configured {
                        self.errored(no_github)
                    } else {
                        self.git_started(root, GitAction::Push)
                    }
                } else {
                    self.with_state(self.state.with_info("Repository is up to date"@))
                },
            }
        }
    }

    /// A Git action has come back.
    #[verifier::opaque]
    pub open spec fn git_done(self, result: Result<Seq<char>, Seq<char>>) -> ControllerView {
        let c = self.git_running(false).with_state(self.state.git_busy(false));
        match result {
            Ok(message) => c.with_state(
                c.state.logged(message).with_info(message),
            ).snapshot_invalidated(),
            Err(error) => c.errored(error).snapshot_invalidated(),
        }
    }

    /// A commit is asked for.
    #[verifier::opaque]
    pub open spec fn commit_started(
        self,
        root: Seq<char>,
        message: Seq<char>,
        snapshot: CommitSnapshotView,
    ) -> ControllerView {
        self.git_running(true).acted(ActionView::Commit { root, message, snapshot })
    }
}

impl Controller {
    fn root(&self) -> (r: Option<String>)
        ensures
            r.deep_view() == self.deep_view().state.project_path(),
    {
        match self.state.active_project_path() {
            Some(path) => Some(path.to_owned()),
            None => None,
        }
    }

    fn ask_inspection(&mut self)
        ensures
            final(self).deep_view() == old(self).deep_view().inspecting(true).acted(
                ActionView::Inspect {
                    directory: old(self).deep_view().state.project_path(),
                    respect_gitignore: old(self).deep_view().state.prefs.respect_gitignore,
                    github_configuration: old(self).deep_view().github_configuration,
                },
            ),
    {
        let directory = self.root();
        let respect_gitignore = self.state.prefs.respect_gitignore;
        let github_configuration = self.github_configuration;
        self.workspace_rx = true;
        self.act(Action::Inspect { directory, respect_gitignore, github_configuration });
    }

    pub fn refresh_workspace(&mut self)
        ensures
            final(self).deep_view() == old(self).deep_view().workspace_refreshed(),
    {
        proof {
            reveal(ControllerView::workspace_refreshed);
        }
        if !self.workspace_rx {
            self.ask_inspection();
        }
    }

    pub fn restart_workspace_inspection(&mut self)
        ensures
            final(self).deep_view() == old(self).deep_view().inspection_restarted(),
    {
        self.workspace_rx = false;
        self.github_configuration = None;
        self.refresh_workspace();
    }

    fn cached(&self) -> (r: Option<WorkspaceSnapshot>)
        ensures
            r.deep_view() == self.deep_view().cached_snapshot(),
    {
        match self.root() {
            Some(root) => {
                let key = workspace_cache_key(self.state.windows_paths, root.as_str());
                match self.workspace_snapshots.get(key.as_str()) {
                    Some(snapshot) => Some(snapshot.clone()),
                    None => None,
                }
            },
            None => None,
        }
    }

    fn apply_workspace_snapshot(&mut self, snapshot: WorkspaceSnapshot)
        ensures
            final(self).deep_view() == old(self).deep_view().with_state(
                old(self).deep_view().state.snapshot_applied(snapshot.deep_view()),
            ),
    {
        self.state.apply_snapshot(snapshot);
    }

    fn show_loading(&mut self)
        ensures
            final(self).deep_view() == old(self).deep_view().with_state(
                old(self).deep_view().state.workspace_reset(
                    match old(self).deep_view().github_configuration {
                        Some(b) => b,
                        None => old(self).deep_view().state.git_status.github_configured,
                    },
                    old(self).deep_view().state.project_path() is Some,
                ),
            ),
    {
        let github_configured = match self.github_configuration {
            Some(b) => b,
            None => self.state.git_status.github_configured,
        };
        let loading = self.root().is_some();
        self.state.reset_workspace(github_configured, loading);
    }

    fn restore_cached_workspace(&mut self)
        ensures
            final(self).deep_view() == old(self).deep_view().cache_shown(),
    {
        proof {
            reveal(ControllerView::cache_shown);
        }
        match self.cached() {
            Some(snapshot) => {
                self.apply_workspace_snapshot(snapshot);
            },
            None => {
                self.show_loading();
            },
        }
    }

    pub(crate) fn switch_workspace_inspection(&mut self)
        ensures
            final(self).deep_view() == old(self).deep_view().inspection_switched(),
    {
        proof {
            reveal(ControllerView::inspection_switched);
        }
        self.workspace_rx = false;
        self.restore_cached_workspace();
        self.refresh_workspace();
    }

    fn forget_snapshot(&mut self, root: &str)
        ensures
            final(self).deep_view() == old(self).deep_view().with_snapshots(
                without(
                    old(self).deep_view().workspace_snapshots,
                    cache_key(old(self).deep_view().state.windows_paths, root@),
                ),
            ),
    {
        let key = workspace_cache_key(self.state.windows_paths, root);
        self.workspace_snapshots.remove(key.as_str());
    }

    fn invalidate_current_workspace_snapshot(&mut self)
        ensures
            final(self).deep_view() == old(self).deep_view().snapshot_invalidated(),
    {
        proof {
            reveal(ControllerView::snapshot_invalidated);
        }
        match self.root() {
            Some(root) => {
                self.forget_snapshot(root.as_str());
                self.switch_workspace_inspection();
            },
            None => {
                self.switch_workspace_inspection();
            },
        }
    }

    fn keep_snapshot(&mut self, root: &Option<String>, snapshot: &WorkspaceSnapshot)
        ensures
            final(self).deep_view() == old(self).deep_view().with_snapshots(
                match root.deep_view() {
                    Some(r) => put(
                        old(self).deep_view().workspace_snapshots,
                        cache_key(old(self).deep_view().state.windows_paths, r),
                        snapshot.deep_view(),
                    ),
                    None => old(self).deep_view().workspace_snapshots,
                },
            ),
    {
        match root {
            Some(r) => {
                let key = workspace_cache_key(self.state.windows_paths, r.as_str());
                self.workspace_snapshots.insert(key, snapshot.clone());
            },
            None => {},
        }
    }

    fn end_inspection(&mut self, github_configured: bool)
        ensures
            final(self).deep_view() == old(self).deep_view().inspecting(false).with_github(
                Some(github_configured),
            ),
    {
        self.workspace_rx = false;
        self.github_configuration = Some(github_configured);
    }

    /// Takes the result of an inspection.
    pub fn workspace_inspected(&mut self, root: Option<String>, snapshot: WorkspaceSnapshot)
        ensures
            final(self).deep_view() == old(self).deep_view().inspected(
                root.deep_view(),
                snapshot.deep_view(),
            ),
    {
        proof {
            reveal(ControllerView::inspected);
        }
        let active = self.root();
        let shown = same_workspace(self.state.windows_paths, &root, &active);
        self.end_inspection(snapshot.git.github_configured);
        self.keep_snapshot(&root, &snapshot);
        if shown {
            self.apply_workspace_snapshot(snapshot);
        }
    }

    fn spawn_git_action(&mut self, root: String, action: GitAction)
        ensures
            final(self).deep_view() == old(self).deep_view().git_started(root@, action),
    {
        proof {
            reveal(ControllerView::git_started);
        }
        let private_repository = self.state.prefs.github_private_repositories;
        self.state.git_action_in_progress = true;
        self.state.touch();
        self.git_action_rx = true;
        self.act(Action::RunGit { root, action, private_repository });
    }

    fn prepare_commit(&mut self, root: String)
        ensures
            final(self).deep_view() == old(self).deep_view().commit_prepared_for(root@),
    {
        proof {
            reveal(ControllerView::commit_prepared_for);
        }
        self.state.git_action_in_progress = true;
        self.state.touch();
        self.commit_prepare_rx = true;
        self.act(Action::PrepareCommit { root });
    }

    pub(crate) fn inform(&mut self, text: &str)
        ensures
            final(self).deep_view() == old(self).deep_view().with_state(
                old(self).deep_view().state.with_info(text@),
            ),
    {
        self.state.info(text);
    }

    pub fn run_git_action(&mut self)
        ensures
            final(self).deep_view() == old(self).deep_view().git_pressed(),
    {
        proof {
            reveal(ControllerView::git_pressed);
        }
        if self.state.git_action_in_progress {
            return;
        }
        let root = match self.root() {
            Some(root) => root,
            None => {
                self.error("Select a project before using Git");
                return;
            },
        };
        let git = self.state.git_status;
        if !git.installed {
            return;
        }
        if !git.is_repository {
            self.spawn_git_action(root, GitAction::Initialize);
        } else if git.has_changes {
            if !self.state.connected {
                self.error("Codex must be connected to create the commit summary");
            } else {
                self.prepare_commit(root);
            }
        } else if !git.has_github_remote {
            if !git.github_configured {
                self.error("GitHub is not configured. Run `gh auth login` and try again.");
            } else {
                self.spawn_git_action(root, GitAction::Publish);
            }
        } else if git.has_unpushed_commits {
            if !git.github_configured {
                self.error("GitHub is not configured. Run `gh auth login` and try again.");
            } else {
                self.spawn_git_action(root, GitAction::Push);
            }
        } else {
            self.inform("Repository is up to date");
        }
    }

    fn end_git_action(&mut self)
        ensures
            final(self).deep_view() == old(self).deep_view().git_running(false).with_state(
                old(self).deep_view().state.git_busy(false),
            ),
    {
        self.git_action_rx = false;
        self.state.git_action_in_progress = false;
    }

    fn announce(&mut self, message: &str)
        ensures
            final(self).deep_view() == old(self).deep_view().with_state(
                old(self).deep_view().state.logged(message@).with_info(message@),
            ),
    {
        self.state.log(message);
        self.state.info(message);
    }

    /// Takes the result of a Git action or a commit.
    pub fn git_finished(&mut self, result: Result<String, String>)
        ensures
            final(self).deep_view() == old(self).deep_view().git_done(
                match result {
                    Ok(m) => Ok(m@),
                    Err(e) => Err(e@),
                },
            ),
    {
        proof {
            reveal(ControllerView::git_done);
        }
        self.end_git_action();
        match result {
            Ok(message) => {
                self.announce(message.as_str());
                self.invalidate_current_workspace_snapshot();
            },
            Err(error) => {
                self.error(error.as_str());
                self.invalidate_current_workspace_snapshot();
            },
        }
    }

    pub(crate) fn spawn_git_commit(&mut self, root: String, message: String, snapshot: CommitSnapshot)
        ensures
            final(self).deep_view() == old(self).deep_view().commit_started(
                root@,
                message@,
                snapshot.deep_view(),
            ),
    {
        proof {
            reveal(ControllerView::commit_started);
        }
        self.git_action_rx = true;
        self.act(Action::Commit { root, message, snapshot });
    }
}

} // verus!
