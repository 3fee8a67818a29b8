//! Work with Git that takes several commands: what each command is, and what
//! follows from what it printed.
use crate::git::{lossy_text, text_of_bytes};
use crate::path::{file_name, name_in_path};
use crate::repository::{github_https_remote, https_remote};
use crate::text::{cat, cat3, chars_of, same_text, string_of_range, trim, trimmed};
use crate::workspace::{CommitSnapshot, CommitSnapshotView, GitAction};
use vstd::prelude::*;
use vstd::string::*;

verus! {

/// How a command came out.
#[derive(Debug, PartialEq)]
pub enum Outcome {
    /// It could not be started.
    NotStarted(String),
    /// It ran to its end.
    Finished { success: bool, status: String, stdout: Vec<u8>, stderr: Vec<u8> },
}

/// A program with its arguments.
#[derive(Debug, PartialEq, Eq)]
pub struct Command {
    pub program: String,
    pub args: Vec<String>,
}

/// What a [`Command`] holds.
pub struct CommandView {
    pub program: Seq<char>,
    pub args: Seq<Seq<char>>,
}

impl DeepView for Command {
    type V = CommandView;

    open spec fn deep_view(&self) -> CommandView {
        CommandView {
            program: self.program.deep_view(),
            args: self.args.deep_view(),
        }
    }
}

impl Clone for Command {
    fn clone(&self) -> (r: Self)
        ensures
            r.deep_view() == self.deep_view(),
    {
        let r = Command {
            program: self.program.clone(),
            args: self.args.clone(),
        };
        assert(r.args.deep_view() =~= self.args.deep_view());
        r
    }
}

/// What the staged content is wanted for.
#[derive(Debug, PartialEq)]
pub enum CommitGoal {
    Prepare,
    Save { message: String, snapshot: CommitSnapshot },
}

/// What a [`CommitGoal`] holds.
pub enum CommitGoalView {
    Prepare,
    Save { message: Seq<char>, snapshot: CommitSnapshotView },
}

impl DeepView for CommitGoal {
    type V = CommitGoalView;

    open spec fn deep_view(&self) -> CommitGoalView {
        match self {
            CommitGoal::Prepare => CommitGoalView::Prepare,
            CommitGoal::Save { message, snapshot } => CommitGoalView::Save {
                message: message.deep_view(),
                snapshot: snapshot.deep_view(),
            },
        }
    }
}

/// How far the work on a commit has come.
#[derive(Debug, PartialEq)]
pub enum CommitStage {
    Root,
    Compare { repository: String },
    Add,
    Tree,
    Head { tree: String },
    Base { tree: String },
    Stat { tree: String, head: Option<String>, base: String },
    Patch { tree: String, head: Option<String>, base: String, stat: String },
    Commit,
}

/// What a [`CommitStage`] holds.
pub enum CommitStageView {
    Root,
    Compare { repository: Seq<char> },
    Add,
    Tree,
    Head { tree: Seq<char> },
    Base { tree: Seq<char> },
    Stat { tree: Seq<char>, head: Option<Seq<char>>, base: Seq<char> },
    Patch { tree: Seq<char>, head: Option<Seq<char>>, base: Seq<char>, stat: Seq<char> },
    Commit,
}

impl DeepView for CommitStage {
    type V = CommitStageView;

    open spec fn deep_view(&self) -> CommitStageView {
        match self {
            CommitStage::Root => CommitStageView::Root,
            CommitStage::Compare { repository } => CommitStageView::Compare {
                repository: repository.deep_view(),
            },
            CommitStage::Add => CommitStageView::Add,
            CommitStage::Tree => CommitStageView::Tree,
            CommitStage::Head { tree } => CommitStageView::Head {
                tree: tree.deep_view(),
            },
            CommitStage::Base { tree } => CommitStageView::Base {
                tree: tree.deep_view(),
            },
            CommitStage::Stat { tree, head, base } => CommitStageView::Stat {
                tree: tree.deep_view(),
                head: head.deep_view(),
                base: base.deep_view(),
            },
            CommitStage::Patch { tree, head, base, stat } => CommitStageView::Patch {
                tree: tree.deep_view(),
                head: head.deep_view(),
                base: base.deep_view(),
                stat: stat.deep_view(),
            },
            CommitStage::Commit => CommitStageView::Commit,
        }
    }
}

/// What the work on a commit has come to.
#[derive(Debug, PartialEq)]
pub enum CommitEnd {
    Prepared(CommitSnapshot),
    Saved(String),
    Failed(String),
}

/// What a [`CommitEnd`] holds.
pub enum CommitEndView {
    Prepared(CommitSnapshotView),
    Saved(Seq<char>),
    Failed(Seq<char>),
}

impl DeepView for CommitEnd {
    type V = CommitEndView;

    open spec fn deep_view(&self) -> CommitEndView {
        match self {
            CommitEnd::Prepared(inner) => CommitEndView::Prepared(inner.deep_view()),
            CommitEnd::Saved(inner) => CommitEndView::Saved(inner.deep_view()),
            CommitEnd::Failed(inner) => CommitEndView::Failed(inner.deep_view()),
        }
    }
}

/// What is to be done next for a commit.
#[derive(Debug, PartialEq)]
pub enum CommitStep {
    Run { stage: CommitStage, command: Command },
    Compare { stage: CommitStage, left: String, right: String },
    Done(CommitEnd),
}

/// What a [`CommitStep`] holds.
pub enum CommitStepView {
    Run { stage: CommitStageView, command: CommandView },
    Compare { stage: CommitStageView, left: Seq<char>, right: Seq<char> },
    Done(CommitEndView),
}

impl DeepView for CommitStep {
    type V = CommitStepView;

    open spec fn deep_view(&self) -> CommitStepView {
        match self {
            CommitStep::Run { stage, command } => CommitStepView::Run {
                stage: stage.deep_view(),
                command: command.deep_view(),
            },
            CommitStep::Compare { stage, left, right } => CommitStepView::Compare {
                stage: stage.deep_view(),
                left: left.deep_view(),
                right: right.deep_view(),
            },
            CommitStep::Done(inner) => CommitStepView::Done(inner.deep_view()),
        }
    }
}

/// How far a Git action has come.
#[derive(Debug, PartialEq)]
pub enum ActionStage {
    Init,
    InitPlain,
    Auth { publish: bool },
    Create { name: String },
    HasHead { name: String },
    RemoteGet { published: Option<String> },
    RemoteSet { published: Option<String> },
    Push { published: Option<String> },
}

/// What a [`ActionStage`] holds.
pub enum ActionStageView {
    Init,
    InitPlain,
    Auth { publish: bool },
    Create { name: Seq<char> },
    HasHead { name: Seq<char> },
    RemoteGet { published: Option<Seq<char>> },
    RemoteSet { published: Option<Seq<char>> },
    Push { published: Option<Seq<char>> },
}

impl DeepView for ActionStage {
    type V = ActionStageView;

    open spec fn deep_view(&self) -> ActionStageView {
        match self {
            ActionStage::Init => ActionStageView::Init,
            ActionStage::InitPlain => ActionStageView::InitPlain,
            ActionStage::Auth { publish } => ActionStageView::Auth {
                publish: publish.deep_view(),
            },
            ActionStage::Create { name } => ActionStageView::Create {
                name: name.deep_view(),
            },
            ActionStage::HasHead { name } => ActionStageView::HasHead {
                name: name.deep_view(),
            },
            ActionStage::RemoteGet { published } => ActionStageView::RemoteGet {
                published: published.deep_view(),
            },
            ActionStage::RemoteSet { published } => ActionStageView::RemoteSet {
                published: published.deep_view(),
            },
            ActionStage::Push { published } => ActionStageView::Push {
                published: published.deep_view(),
            },
        }
    }
}

/// What is to be done next for a Git action.
#[derive(Debug, PartialEq)]
pub enum ActionStep {
    Run { stage: ActionStage, command: Command },
    Done(String),
    Failed(String),
}

/// What a [`ActionStep`] holds.
pub enum ActionStepView {
    Run { stage: ActionStageView, command: CommandView },
    Done(Seq<char>),
    Failed(Seq<char>),
}

impl DeepView for ActionStep {
    type V = ActionStepView;

    open spec fn deep_view(&self) -> ActionStepView {
        match self {
            ActionStep::Run { stage, command } => ActionStepView::Run {
                stage: stage.deep_view(),
                command: command.deep_view(),
            },
            ActionStep::Done(inner) => ActionStepView::Done(inner.deep_view()),
            ActionStep::Failed(inner) => ActionStepView::Failed(inner.deep_view()),
        }
    }
}


/// Why a command failed: what it wrote to its error output, else to its
/// output, else how it ended.
pub open spec fn failure_text(
    program: Seq<char>,
    status: Seq<char>,
    stdout: Seq<u8>,
    stderr: Seq<u8>,
) -> Seq<char> {
    if trimmed(lossy_text(stderr)).len() > 0 {
        trimmed(lossy_text(stderr))
    } else if trimmed(lossy_text(stdout)).len() > 0 {
        trimmed(lossy_text(stdout))
    } else {
        program + " exited with "@ + status
    }
}

/// What a command printed, or why it failed.
pub open spec fn ran(program: Seq<char>, outcome: Outcome) -> Result<Seq<char>, Seq<char>> {
    match outcome {
        Outcome::NotStarted(error) => Err("Could not start "@ + program + ": "@ + error@),
        Outcome::Finished { success, status, stdout, stderr } => if success {
            Ok(trimmed(lossy_text(stdout@)))
        } else {
            Err(failure_text(program, status@, stdout@, stderr@))
        },
    }
}

/// What a command printed, if it succeeded.
pub open spec fn printed(outcome: Outcome) -> Option<Seq<char>> {
    match outcome {
        Outcome::Finished { success: true, stdout, .. } => Some(trimmed(lossy_text(stdout@))),
        _ => None,
    }
}

/// Whether a command succeeded.
pub open spec fn succeeded(outcome: Outcome) -> bool {
    outcome matches Outcome::Finished { success: true, .. }
}

pub fn command_error(program: &str, status: &str, stdout: &[u8], stderr: &[u8]) -> (r: String)
    ensures
        r@ == failure_text(program@, status@, stdout@, stderr@),
{
    let error = trim(text_of_bytes(stderr).as_str());
    if !error.as_str().is_empty() {
        return error;
    }
    let output = trim(text_of_bytes(stdout).as_str());
    if !output.as_str().is_empty() {
        return output;
    }
    cat3(program, " exited with ", status)
}

/// The result of a command by its view.
pub open spec fn text_result(r: Result<String, String>) -> Result<Seq<char>, Seq<char>> {
    match r {
        Ok(t) => Ok(t@),
        Err(e) => Err(e@),
    }
}

pub fn command_result(program: &str, outcome: &Outcome) -> (r: Result<String, String>)
    ensures
        text_result(r) == ran(program@, *outcome),
{
    match outcome {
        Outcome::NotStarted(error) => {
            let mut text = cat3("Could not start ", program, ": ");
            text.append(error.as_str());
            Err(text)
        },
        Outcome::Finished { success, status, stdout, stderr } => {
            if *success {
                Ok(trim(text_of_bytes(stdout).as_str()))
            } else {
                Err(command_error(program, status.as_str(), stdout, stderr))
            }
        },
    }
}

pub fn command_stdout(outcome: &Outcome) -> (r: Option<String>)
    ensures
        r.deep_view() == printed(*outcome),
{
    match outcome {
        Outcome::Finished { success, stdout, .. } => if *success {
            Some(trim(text_of_bytes(stdout).as_str()))
        } else {
            None
        },
        _ => None,
    }
}

pub fn command_success(outcome: &Outcome) -> (r: bool)
    ensures
        r == succeeded(*outcome),
{
    match outcome {
        Outcome::Finished { success, .. } => *success,
        _ => false,
    }
}

pub open spec fn git_command(root: Seq<char>, args: Seq<Seq<char>>) -> CommandView {
    CommandView { program: "git"@, args: seq!["-C"@, root] + args }
}

fn make_git(root: &str, args: Vec<&str>) -> (r: Command)
    ensures
        r.deep_view() == git_command(root@, args.deep_view()),
{
    let ghost wanted = args.deep_view();
    let mut out: Vec<String> = vec!["-C".to_owned(), root.to_owned()];
    let mut i: usize = 0;
    assert(out.deep_view() =~= seq!["-C"@, root@] + wanted.take(0));
    while i < args.len()
        invariant
            i <= args@.len(),
            wanted == args.deep_view(),
            out.deep_view() == seq!["-C"@, root@] + wanted.take(i as int),
        decreases args@.len() - i,
    {
        let ghost before = out.deep_view();
        out.push(args[i].to_owned());
        i += 1;
        assert(out.deep_view() =~= before.push(wanted[i - 1]));
        assert(out.deep_view() =~= seq!["-C"@, root@] + wanted.take(i as int));
    }
    assert(wanted.take(i as int) =~= wanted);
    Command { program: "git".to_owned(), args: out }
}

pub open spec fn toplevel_command(root: Seq<char>) -> CommandView {
    git_command(root, seq!["rev-parse"@, "--show-toplevel"@])
}

pub open spec fn add_command(root: Seq<char>) -> CommandView {
    git_command(root, seq!["add"@, "--all"@, "--"@, "."@])
}

pub open spec fn tree_command(root: Seq<char>) -> CommandView {
    git_command(root, seq!["write-tree"@])
}

pub open spec fn head_command(root: Seq<char>) -> CommandView {
    git_command(root, seq!["rev-parse"@, "--verify"@, "HEAD"@])
}

pub open spec fn base_command(root: Seq<char>) -> CommandView {
    git_command(root, seq!["mktree"@])
}

pub open spec fn stat_command(root: Seq<char>, base: Seq<char>, tree: Seq<char>) -> CommandView {
    git_command(root, seq!["diff"@, "--no-ext-diff"@, "--stat"@, base, tree, "--"@])
}

pub open spec fn patch_command(root: Seq<char>, base: Seq<char>, tree: Seq<char>) -> CommandView {
    git_command(
        root,
        seq!["diff"@, "--no-ext-diff"@, base, tree, "--"@, ":(exclude)Cargo.lock"@],
    )
}

pub open spec fn commit_command(root: Seq<char>, message: Seq<char>) -> CommandView {
    git_command(root, seq!["commit"@, "-m"@, message])
}

fn make_tree(root: &str) -> (r: Command)
    ensures
        r.deep_view() == tree_command(root@),
{
    let args: Vec<&str> = vec!["write-tree"];
    assert(args.deep_view() =~= seq!["write-tree"@]);
    make_git(root, args)
}

fn make_head(root: &str) -> (r: Command)
    ensures
        r.deep_view() == head_command(root@),
{
    let args: Vec<&str> = vec!["rev-parse", "--verify", "HEAD"];
    assert(args.deep_view() =~= seq!["rev-parse"@, "--verify"@, "HEAD"@]);
    make_git(root, args)
}

fn make_stat(root: &str, base: &str, tree: &str) -> (r: Command)
    ensures
        r.deep_view() == stat_command(root@, base@, tree@),
{
    let args: Vec<&str> = vec!["diff", "--no-ext-diff", "--stat", base, tree, "--"];
    assert(args.deep_view() =~= seq!["diff"@, "--no-ext-diff"@, "--stat"@, base@, tree@, "--"@]);
    make_git(root, args)
}

fn make_patch(root: &str, base: &str, tree: &str) -> (r: Command)
    ensures
        r.deep_view() == patch_command(root@, base@, tree@),
{
    let args: Vec<&str> = vec![
        "diff", "--no-ext-diff", base, tree, "--", ":(exclude)Cargo.lock",
    ];
    assert(args.deep_view() =~= seq![
        "diff"@, "--no-ext-diff"@, base@, tree@, "--"@, ":(exclude)Cargo.lock"@,
    ]);
    make_git(root, args)
}

/// The first twenty-four thousand characters of what a commit holds.
pub open spec fn commit_context_of(tree: Seq<char>, stat: Seq<char>, patch: Seq<char>) -> Seq<char> {
    let whole = "Staged snapshot: "@ + tree + "\n"@ + stat + "\n"@ + patch;
    if whole.len() > 24_000 {
        whole.take(24_000)
    } else {
        whole
    }
}

fn make_context(tree: &str, stat: &str, patch: &str) -> (r: String)
    ensures
        r@ == commit_context_of(tree@, stat@, patch@),
{
    let mut whole = cat3("Staged snapshot: ", tree, "\n");
    whole.append(stat);
    whole.append("\n");
    whole.append(patch);
    let chars = chars_of(whole.as_str());
    if chars.len() > 24_000 {
        let r = string_of_range(&chars, 0, 24_000);
        assert(r@ =~= whole@.take(24_000));
        r
    } else {
        whole
    }
}

pub open spec fn larger_repository(repository: Seq<char>) -> Seq<char> {
    "This project is inside a larger repository. Select the repository root ("@ + repository
        + ") before committing; no files were staged."@
}

pub open spec fn staged_changed() -> Seq<char> {
    "The staged changes or branch changed while generating the summary. Review the index and click Commit again."@
}

pub open spec fn commit_failed(error: Seq<char>) -> CommitStepView {
    CommitStepView::Done(CommitEndView::Failed(error))
}

pub open spec fn commit_run(stage: CommitStageView, command: CommandView) -> CommitStepView {
    CommitStepView::Run { stage, command }
}

/// The first step: only the root of a repository is committed.
pub open spec fn commit_begun(root: Seq<char>) -> CommitStepView {
    commit_run(CommitStageView::Root, toplevel_command(root))
}

/// What follows once the directory of the project was compared with the root
/// of its repository.
pub open spec fn root_compared(
    root: Seq<char>,
    goal: CommitGoalView,
    repository: Seq<char>,
    same: Result<bool, Seq<char>>,
) -> CommitStepView {
    match same {
        Err(error) => commit_failed(error),
        Ok(false) => commit_failed(larger_repository(repository)),
        Ok(true) => match goal {
            CommitGoalView::Prepare => commit_run(CommitStageView::Add, add_command(root)),
            CommitGoalView::Save { .. } => commit_run(CommitStageView::Tree, tree_command(root)),
        },
    }
}

/// What follows once the current commit is known: a commit is made only of
/// what was staged when its message was asked for.
pub open spec fn head_known(
    root: Seq<char>,
    goal: CommitGoalView,
    tree: Seq<char>,
    head: Option<Seq<char>>,
) -> CommitStepView {
    match goal {
        CommitGoalView::Prepare => match head {
            Some(h) => commit_run(
                CommitStageView::Stat { tree, head, base: h },
                stat_command(root, h, tree),
            ),
            None => commit_run(CommitStageView::Base { tree }, base_command(root)),
        },
        CommitGoalView::Save { message, snapshot } => if head != snapshot.head {
            commit_failed(staged_changed())
        } else {
            commit_run(CommitStageView::Commit, commit_command(root, message))
        },
    }
}

/// What follows once a command of the work on a commit has succeeded.
pub open spec fn commit_continued(
    root: Seq<char>,
    goal: CommitGoalView,
    stage: CommitStageView,
    text: Seq<char>,
) -> CommitStepView {
    match stage {
        CommitStageView::Root => CommitStepView::Compare {
            stage: CommitStageView::Compare { repository: text },
            left: root,
            right: text,
        },
        CommitStageView::Add => commit_run(CommitStageView::Tree, tree_command(root)),
        CommitStageView::Tree => match goal {
            CommitGoalView::Save { snapshot, .. } => if text != snapshot.tree {
                commit_failed(staged_changed())
            } else {
                commit_run(CommitStageView::Head { tree: text }, head_command(root))
            },
            CommitGoalView::Prepare => commit_run(
                CommitStageView::Head { tree: text },
                head_command(root),
            ),
        },
        CommitStageView::Base { tree } => commit_run(
            CommitStageView::Stat { tree, head: None, base: text },
            stat_command(root, text, tree),
        ),
        CommitStageView::Stat { tree, head, base } => commit_run(
            CommitStageView::Patch { tree, head, base, stat: text },
            patch_command(root, base, tree),
        ),
        CommitStageView::Patch { tree, head, base, stat } => CommitStepView::Done(
            CommitEndView::Prepared(
                CommitSnapshotView { context: commit_context_of(tree, stat, text), tree, head },
            ),
        ),
        CommitStageView::Commit => match goal {
            CommitGoalView::Save { message, .. } => CommitStepView::Done(
                CommitEndView::Saved("Committed staged changes: "@ + message),
            ),
            CommitGoalView::Prepare => commit_failed(Seq::empty()),
        },
        _ => commit_failed(Seq::empty()),
    }
}

/// What follows a command of the work on a commit. The current commit may be
/// missing; any other command has to succeed.
pub open spec fn commit_after(
    root: Seq<char>,
    goal: CommitGoalView,
    stage: CommitStageView,
    outcome: Outcome,
) -> CommitStepView {
    match stage {
        CommitStageView::Head { tree } => head_known(root, goal, tree, printed(outcome)),
        _ => match ran("git"@, outcome) {
            Ok(text) => commit_continued(root, goal, stage, text),
            Err(error) => commit_failed(error),
        },
    }
}

pub fn begin_commit(root: &str) -> (r: CommitStep)
    ensures
        r.deep_view() == commit_begun(root@),
{
    let args: Vec<&str> = vec!["rev-parse", "--show-toplevel"];
    assert(args.deep_view() =~= seq!["rev-parse"@, "--show-toplevel"@]);
    CommitStep::Run { stage: CommitStage::Root, command: make_git(root, args) }
}

fn fail_commit(error: String) -> (r: CommitStep)
    ensures
        r.deep_view() == commit_failed(error@),
{
    CommitStep::Done(CommitEnd::Failed(error))
}

pub fn compare_commit_root(
    root: &str,
    goal: &CommitGoal,
    repository: &str,
    same: Result<bool, String>,
) -> (r: CommitStep)
    ensures
        r.deep_view() == root_compared(
            root@,
            goal.deep_view(),
            repository@,
            match same {
                Ok(b) => Ok(b),
                Err(e) => Err(e@),
            },
        ),
{
    match same {
        Err(error) => fail_commit(error),
        Ok(same) => {
            if !same {
                return fail_commit(
                    cat3(
                        "This project is inside a larger repository. Select the repository root (",
                        repository,
                        ") before committing; no files were staged.",
                    ),
                );
            }
            match goal {
                CommitGoal::Prepare => {
                    let args: Vec<&str> = vec!["add", "--all", "--", "."];
                    assert(args.deep_view() =~= seq!["add"@, "--all"@, "--"@, "."@]);
                    CommitStep::Run { stage: CommitStage::Add, command: make_git(root, args) }
                },
                CommitGoal::Save { .. } => CommitStep::Run {
                    stage: CommitStage::Tree,
                    command: make_tree(root),
                },
            }
        },
    }
}

/// Whether two optional texts are the same.
fn same_option(a: &Option<String>, b: &Option<String>) -> (r: bool)
    ensures
        r == (a.deep_view() == b.deep_view()),
{
    match (a, b) {
        (Some(x), Some(y)) => same_text(x.as_str(), y.as_str()),
        (None, None) => true,
        _ => false,
    }
}

fn know_head(root: &str, goal: &CommitGoal, tree: String, head: Option<String>) -> (r: CommitStep)
    ensures
        r.deep_view() == head_known(root@, goal.deep_view(), tree@, head.deep_view()),
{
    match goal {
        CommitGoal::Prepare => match head {
            Some(h) => {
                let command = make_stat(root, h.as_str(), tree.as_str());
                CommitStep::Run {
                    stage: CommitStage::Stat { tree, head: Some(h.clone()), base: h },
                    command,
                }
            },
            None => {
                let args: Vec<&str> = vec!["mktree"];
                assert(args.deep_view() =~= seq!["mktree"@]);
                CommitStep::Run {
                    stage: CommitStage::Base { tree },
                    command: make_git(root, args),
                }
            },
        },
        CommitGoal::Save { message, snapshot } => {
            if !same_option(&head, &snapshot.head) {
                return fail_commit(
                    "The staged changes or branch changed while generating the summary. Review the index and click Commit again.".to_owned(),
                );
            }
            let args: Vec<&str> = vec!["commit", "-m", message.as_str()];
            assert(args.deep_view() =~= seq!["commit"@, "-m"@, message@]);
            CommitStep::Run { stage: CommitStage::Commit, command: make_git(root, args) }
        },
    }
}

fn continue_commit(root: &str, goal: &CommitGoal, stage: CommitStage, text: String) -> (r: CommitStep)
    ensures
        r.deep_view() == commit_continued(root@, goal.deep_view(), stage.deep_view(), text@),
{
    match stage {
        CommitStage::Root => CommitStep::Compare {
            stage: CommitStage::Compare { repository: text.clone() },
            left: root.to_owned(),
            right: text,
        },
        CommitStage::Add => CommitStep::Run {
            stage: CommitStage::Tree,
            command: make_tree(root),
        },
        CommitStage::Tree => {
            match goal {
                CommitGoal::Save { snapshot, .. } => {
                    if !same_text(text.as_str(), snapshot.tree.as_str()) {
                        return fail_commit(
                            "The staged changes or branch changed while generating the summary. Review the index and click Commit again.".to_owned(),
                        );
                    }
                },
                CommitGoal::Prepare => {},
            }
            CommitStep::Run {
                stage: CommitStage::Head { tree: text },
                command: make_head(root),
            }
        },
        CommitStage::Base { tree } => {
            let command = make_stat(root, text.as_str(), tree.as_str());
            CommitStep::Run { stage: CommitStage::Stat { tree, head: None, base: text }, command }
        },
        CommitStage::Stat { tree, head, base } => {
            let command = make_patch(root, base.as_str(), tree.as_str());
            CommitStep::Run {
                stage: CommitStage::Patch { tree, head, base, stat: text },
                command,
            }
        },
        CommitStage::Patch { tree, head, base: _, stat } => {
            let context = make_context(tree.as_str(), stat.as_str(), text.as_str());
            CommitStep::Done(CommitEnd::Prepared(CommitSnapshot { context, tree, head }))
        },
        CommitStage::Commit => match goal {
            CommitGoal::Save { message, .. } => CommitStep::Done(
                CommitEnd::Saved(cat("Committed staged changes: ", message.as_str())),
            ),
            CommitGoal::Prepare => fail_commit(String::new()),
        },
        _ => fail_commit(String::new()),
    }
}

pub fn step_commit(root: &str, goal: &CommitGoal, stage: CommitStage, outcome: &Outcome) -> (r:
    CommitStep)
    ensures
        r.deep_view() == commit_after(root@, goal.deep_view(), stage.deep_view(), *outcome),
{
    match stage {
        CommitStage::Head { tree } => know_head(root, goal, tree, command_stdout(outcome)),
        _ => match command_result("git", outcome) {
            Ok(text) => continue_commit(root, goal, stage, text),
            Err(error) => fail_commit(error),
        },
    }
}

/// A commit is made only of what its message was asked for: whenever the next
/// command is the commit itself, the staged tree and the current commit are
/// those of the snapshot, or were compared with it a step before.
pub proof fn lemma_commit_only_of_snapshot(
    root: Seq<char>,
    message: Seq<char>,
    snapshot: CommitSnapshotView,
    stage: CommitStageView,
    outcome: Outcome,
)
    ensures
        ({
            let goal = CommitGoalView::Save { message, snapshot };
            let next = commit_after(root, goal, stage, outcome);
            &&& (next matches CommitStepView::Run { stage: CommitStageView::Commit, .. }) ==> stage
                is Head && printed(outcome) == snapshot.head
            &&& next matches CommitStepView::Run { stage: CommitStageView::Head { tree }, .. }
                ==> tree == snapshot.tree
        }),
{
}

pub open spec fn auth_command() -> CommandView {
    CommandView {
        program: "gh"@,
        args: seq!["auth"@, "status"@, "--hostname"@, "github.com"@],
    }
}

pub open spec fn create_command(name: Seq<char>, root: Seq<char>, private: bool) -> CommandView {
    CommandView {
        program: "gh"@,
        args: seq![
            "repo"@,
            "create"@,
            name,
            "--source"@,
            root,
            "--remote"@,
            "origin"@,
            if private {
                "--private"@
            } else {
                "--public"@
            },
        ],
    }
}

pub open spec fn push_command(root: Seq<char>) -> CommandView {
    git_command(
        root,
        seq![
            "-c"@,
            "credential.https://github.com.helper="@,
            "-c"@,
            "credential.https://github.com.helper=!gh auth git-credential"@,
            "push"@,
            "--set-upstream"@,
            "origin"@,
            "HEAD"@,
        ],
    )
}

pub open spec fn remote_command(root: Seq<char>) -> CommandView {
    git_command(root, seq!["remote"@, "get-url"@, "origin"@])
}

pub open spec fn set_remote_command(root: Seq<char>, url: Seq<char>) -> CommandView {
    git_command(root, seq!["remote"@, "set-url"@, "origin"@, url])
}

pub open spec fn action_run(stage: ActionStageView, command: CommandView) -> ActionStepView {
    ActionStepView::Run { stage, command }
}

/// The first step of a Git action.
pub open spec fn action_begun(root: Seq<char>, action: GitAction) -> ActionStepView {
    match action {
        GitAction::Initialize => action_run(
            ActionStageView::Init,
            git_command(root, seq!["init"@, "-b"@, "main"@]),
        ),
        GitAction::Publish => action_run(ActionStageView::Auth { publish: true }, auth_command()),
        GitAction::Push => action_run(ActionStageView::Auth { publish: false }, auth_command()),
    }
}

/// A push that failed; after publishing, the repository is there all the same.
pub open spec fn push_failed(published: Option<Seq<char>>, error: Seq<char>) -> ActionStepView {
    match published {
        Some(_) => ActionStepView::Failed(
            "The GitHub repository was created, but the initial push failed: "@ + error,
        ),
        None => ActionStepView::Failed(error),
    }
}

/// What follows once the remote is known: one of another form is rewritten
/// before the push.
pub open spec fn remote_known(
    root: Seq<char>,
    published: Option<Seq<char>>,
    origin: Seq<char>,
) -> ActionStepView {
    match https_remote(origin) {
        Some(url) => if origin == url {
            action_run(ActionStageView::Push { published }, push_command(root))
        } else {
            action_run(ActionStageView::RemoteSet { published }, set_remote_command(root, url))
        },
        None => push_failed(
            published,
            "The origin remote is not a supported GitHub repository URL"@,
        ),
    }
}

/// What follows a command of a Git action.
pub open spec fn action_after(
    root: Seq<char>,
    windows: bool,
    private: bool,
    stage: ActionStageView,
    outcome: Outcome,
) -> ActionStepView {
    match stage {
        ActionStageView::Init => match outcome {
            Outcome::NotStarted(error) => ActionStepView::Failed("Could not start Git: "@ + error@),
            _ => if succeeded(outcome) {
                ActionStepView::Done("Initialized Git repository"@)
            } else {
                action_run(ActionStageView::InitPlain, git_command(root, seq!["init"@]))
            },
        },
        ActionStageView::InitPlain => match ran("git"@, outcome) {
            Ok(_) => ActionStepView::Done("Initialized Git repository"@),
            Err(error) => ActionStepView::Failed(error),
        },
        ActionStageView::Auth { publish } => if !succeeded(outcome) {
            ActionStepView::Failed(
                "GitHub is not configured. Run `gh auth login` and try again."@,
            )
        } else if publish {
            match name_in_path(root, windows) {
                Some(name) => action_run(
                    ActionStageView::Create { name },
                    create_command(name, root, private),
                ),
                None => ActionStepView::Failed(
                    "The project folder does not have a valid repository name"@,
                ),
            }
        } else {
            action_run(ActionStageView::RemoteGet { published: None }, remote_command(root))
        },
        ActionStageView::Create { name } => match ran("gh"@, outcome) {
            Ok(_) => action_run(ActionStageView::HasHead { name }, head_command(root)),
            Err(error) => ActionStepView::Failed(error),
        },
        ActionStageView::HasHead { name } => if succeeded(outcome) {
            action_run(ActionStageView::RemoteGet { published: Some(name) }, remote_command(root))
        } else {
            ActionStepView::Done("Published "@ + name + " to GitHub"@)
        },
        ActionStageView::RemoteGet { published } => match ran("git"@, outcome) {
            Ok(origin) => remote_known(root, published, origin),
            Err(error) => push_failed(published, error),
        },
        ActionStageView::RemoteSet { published } => match ran("git"@, outcome) {
            Ok(_) => action_run(ActionStageView::Push { published }, push_command(root)),
            Err(error) => push_failed(published, error),
        },
        ActionStageView::Push { published } => match ran("git"@, outcome) {
            Ok(_) => match published {
                Some(name) => ActionStepView::Done("Published "@ + name + " to GitHub"@),
                None => ActionStepView::Done("Pushed changes to GitHub"@),
            },
            Err(error) => push_failed(published, error),
        },
    }
}

fn make_auth() -> (r: Command)
    ensures
        r.deep_view() == auth_command(),
{
    let r = Command {
        program: "gh".to_owned(),
        args: vec![
            "auth".to_owned(),
            "status".to_owned(),
            "--hostname".to_owned(),
            "github.com".to_owned(),
        ],
    };
    assert(r.args.deep_view() =~= auth_command().args);
    r
}

fn make_create(name: &str, root: &str, private: bool) -> (r: Command)
    ensures
        r.deep_view() == create_command(name@, root@, private),
{
    let visibility = if private {
        "--private"
    } else {
        "--public"
    };
    let r = Command {
        program: "gh".to_owned(),
        args: vec![
            "repo".to_owned(),
            "create".to_owned(),
            name.to_owned(),
            "--source".to_owned(),
            root.to_owned(),
            "--remote".to_owned(),
            "origin".to_owned(),
            visibility.to_owned(),
        ],
    };
    assert(r.args.deep_view() =~= create_command(name@, root@, private).args);
    r
}

fn make_push(root: &str) -> (r: Command)
    ensures
        r.deep_view() == push_command(root@),
{
    let args: Vec<&str> = vec![
        "-c",
        "credential.https://github.com.helper=",
        "-c",
        "credential.https://github.com.helper=!gh auth git-credential",
        "push",
        "--set-upstream",
        "origin",
        "HEAD",
    ];
    assert(args.deep_view() =~= seq![
        "-c"@,
        "credential.https://github.com.helper="@,
        "-c"@,
        "credential.https://github.com.helper=!gh auth git-credential"@,
        "push"@,
        "--set-upstream"@,
        "origin"@,
        "HEAD"@,
    ]);
    make_git(root, args)
}

fn make_remote(root: &str) -> (r: Command)
    ensures
        r.deep_view() == remote_command(root@),
{
    let args: Vec<&str> = vec!["remote", "get-url", "origin"];
    assert(args.deep_view() =~= seq!["remote"@, "get-url"@, "origin"@]);
    make_git(root, args)
}

pub fn begin_action(root: &str, action: GitAction) -> (r: ActionStep)
    ensures
        r.deep_view() == action_begun(root@, action),
{
    match action {
        GitAction::Initialize => {
            let args: Vec<&str> = vec!["init", "-b", "main"];
            assert(args.deep_view() =~= seq!["init"@, "-b"@, "main"@]);
            ActionStep::Run { stage: ActionStage::Init, command: make_git(root, args) }
        },
        GitAction::Publish => ActionStep::Run {
            stage: ActionStage::Auth { publish: true },
            command: make_auth(),
        },
        GitAction::Push => ActionStep::Run {
            stage: ActionStage::Auth { publish: false },
            command: make_auth(),
        },
    }
}

fn fail_push(published: Option<String>, error: &str) -> (r: ActionStep)
    ensures
        r.deep_view() == push_failed(published.deep_view(), error@),
{
    match published {
        Some(_) => ActionStep::Failed(
            cat("The GitHub repository was created, but the initial push failed: ", error),
        ),
        None => ActionStep::Failed(error.to_owned()),
    }
}

fn know_remote(root: &str, published: Option<String>, origin: &str) -> (r: ActionStep)
    ensures
        r.deep_view() == remote_known(root@, published.deep_view(), origin@),
{
    match github_https_remote(origin) {
        Some(url) => {
            if same_text(origin, url.as_str()) {
                ActionStep::Run { stage: ActionStage::Push { published }, command: make_push(root) }
            } else {
                let args: Vec<&str> = vec!["remote", "set-url", "origin", url.as_str()];
                assert(args.deep_view() =~= seq!["remote"@, "set-url"@, "origin"@, url@]);
                ActionStep::Run {
                    stage: ActionStage::RemoteSet { published },
                    command: make_git(root, args),
                }
            }
        },
        None => fail_push(published, "The origin remote is not a supported GitHub repository URL"),
    }
}

fn published_text(name: &str) -> (r: String)
    ensures
        r@ == "Published "@ + name@ + " to GitHub"@,
{
    cat3("Published ", name, " to GitHub")
}

pub fn step_action(
    root: &str,
    windows: bool,
    private_repository: bool,
    stage: ActionStage,
    outcome: &Outcome,
) -> (r: ActionStep)
    ensures
        r.deep_view() == action_after(root@, windows, private_repository, stage.deep_view(), *outcome),
{
    match stage {
        ActionStage::Init => match outcome {
            Outcome::NotStarted(error) => ActionStep::Failed(
                cat("Could not start Git: ", error.as_str()),
            ),
            _ => {
                if command_success(outcome) {
                    ActionStep::Done("Initialized Git repository".to_owned())
                } else {
                    let args: Vec<&str> = vec!["init"];
                    assert(args.deep_view() =~= seq!["init"@]);
                    ActionStep::Run {
                        stage: ActionStage::InitPlain,
                        command: make_git(root, args),
                    }
                }
            },
        },
        ActionStage::InitPlain => match command_result("git", outcome) {
            Ok(_) => ActionStep::Done("Initialized Git repository".to_owned()),
            Err(error) => ActionStep::Failed(error),
        },
        ActionStage::Auth { publish } => {
            if !command_success(outcome) {
                return ActionStep::Failed(
                    "GitHub is not configured. Run `gh auth login` and try again.".to_owned(),
                );
            }
            if !publish {
                return ActionStep::Run {
                    stage: ActionStage::RemoteGet { published: None },
                    command: make_remote(root),
                };
            }
            match file_name(root, windows) {
                Some(name) => {
                    let command = make_create(name.as_str(), root, private_repository);
                    ActionStep::Run { stage: ActionStage::Create { name }, command }
                },
                None => ActionStep::Failed(
                    "The project folder does not have a valid repository name".to_owned(),
                ),
            }
        },
        ActionStage::Create { name } => match command_result("gh", outcome) {
            Ok(_) => ActionStep::Run {
                stage: ActionStage::HasHead { name },
                command: make_head(root),
            },
            Err(error) => ActionStep::Failed(error),
        },
        ActionStage::HasHead { name } => {
            if command_success(outcome) {
                ActionStep::Run {
                    stage: ActionStage::RemoteGet { published: Some(name) },
                    command: make_remote(root),
                }
            } else {
                ActionStep::Done(published_text(name.as_str()))
            }
        },
        ActionStage::RemoteGet { published } => match command_result("git", outcome) {
            Ok(origin) => know_remote(root, published, origin.as_str()),
            Err(error) => fail_push(published, error.as_str()),
        },
        ActionStage::RemoteSet { published } => match command_result("git", outcome) {
            Ok(_) => ActionStep::Run {
                stage: ActionStage::Push { published },
                command: make_push(root),
            },
            Err(error) => fail_push(published, error.as_str()),
        },
        ActionStage::Push { published } => match command_result("git", outcome) {
            Ok(_) => match published {
                Some(name) => ActionStep::Done(published_text(name.as_str())),
                None => ActionStep::Done("Pushed changes to GitHub".to_owned()),
            },
            Err(error) => fail_push(published, error.as_str()),
        },
    }
}

} // verus!
