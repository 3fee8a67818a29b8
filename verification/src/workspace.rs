//! The state of a project's working directory and its Git repository.
use vstd::prelude::*;
use vstd::string::*;

verus! {

/// What the Git button does next.
#[derive(Debug, Clone, Copy, PartialEq, Eq, Structural)]
pub enum GitAction {
    Initialize,
    Publish,
    Push,
}

impl DeepView for GitAction {
    type V = GitAction;

    open spec fn deep_view(&self) -> GitAction {
        *self
    }
}

/// What is known of the repository of a workspace.
#[derive(Debug, Clone, Copy, PartialEq, Eq, Structural)]
pub struct GitStatus {
    pub installed: bool,
    pub is_repository: bool,
    pub has_changes: bool,
    pub has_commits: bool,
    pub has_github_remote: bool,
    pub has_unpushed_commits: bool,
    pub github_configured: bool,
}

impl DeepView for GitStatus {
    type V = GitStatus;

    open spec fn deep_view(&self) -> GitStatus {
        *self
    }
}

/// What one inspection of a workspace found.
#[derive(Debug, PartialEq, Eq)]
pub struct WorkspaceSnapshot {
    pub diff: String,
    pub files: Vec<String>,
    pub git: GitStatus,
}

/// What a [`WorkspaceSnapshot`] holds.
pub struct WorkspaceSnapshotView {
    pub diff: Seq<char>,
    pub files: Seq<Seq<char>>,
    pub git: GitStatus,
}

impl DeepView for WorkspaceSnapshot {
    type V = WorkspaceSnapshotView;

    open spec fn deep_view(&self) -> WorkspaceSnapshotView {
        WorkspaceSnapshotView {
            diff: self.diff.deep_view(),
            files: self.files.deep_view(),
            git: self.git.deep_view(),
        }
    }
}

impl Clone for WorkspaceSnapshot {
    fn clone(&self) -> (r: Self)
        ensures
            r.deep_view() == self.deep_view(),
    {
        let r = WorkspaceSnapshot {
            diff: self.diff.clone(),
            files: self.files.clone(),
            git: self.git,
        };
        assert(r.files.deep_view() =~= self.files.deep_view());
        r
    }
}

/// The staged content that a commit message is asked for.
#[derive(Debug, PartialEq, Eq)]
pub struct CommitSnapshot {
    pub context: String,
    pub tree: String,
    pub head: Option<String>,
}

/// What a [`CommitSnapshot`] holds.
pub struct CommitSnapshotView {
    pub context: Seq<char>,
    pub tree: Seq<char>,
    pub head: Option<Seq<char>>,
}

impl DeepView for CommitSnapshot {
    type V = CommitSnapshotView;

    open spec fn deep_view(&self) -> CommitSnapshotView {
        CommitSnapshotView {
            context: self.context.deep_view(),
            tree: self.tree.deep_view(),
            head: self.head.deep_view(),
        }
    }
}

impl Clone for CommitSnapshot {
    fn clone(&self) -> (r: Self)
        ensures
            r.deep_view() == self.deep_view(),
    {
        let r = CommitSnapshot {
            context: self.context.clone(),
            tree: self.tree.clone(),
            head: self.head.clone(),
        };
        r
    }
}

/// One changed path with its two status letters.
#[derive(Debug, PartialEq, Eq)]
pub struct GitChange {
    pub index: char,
    pub worktree: char,
    pub path: String,
    pub original_path: Option<String>,
}

/// What a [`GitChange`] holds.
pub struct GitChangeView {
    pub index: char,
    pub worktree: char,
    pub path: Seq<char>,
    pub original_path: Option<Seq<char>>,
}

impl DeepView for GitChange {
    type V = GitChangeView;

    open spec fn deep_view(&self) -> GitChangeView {
        GitChangeView {
            index: self.index.deep_view(),
            worktree: self.worktree.deep_view(),
            path: self.path.deep_view(),
            original_path: self.original_path.deep_view(),
        }
    }
}

impl Clone for GitChange {
    fn clone(&self) -> (r: Self)
        ensures
            r.deep_view() == self.deep_view(),
    {
        let r = GitChange {
            index: self.index,
            worktree: self.worktree,
            path: self.path.clone(),
            original_path: self.original_path.clone(),
        };
        r
    }
}

} // verus!
