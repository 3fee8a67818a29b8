//! What the work with Git comes to: where its commands run, what is published
//! and pushed, and what a commit is made of.
use crate::git::lossy_text;
use crate::git_flow::{
    action_after, action_begun, commit_after, commit_begun, failure_text, printed, ran,
    root_compared, succeeded, tree_command, ActionStageView, ActionStepView, CommandView,
    CommitEndView, CommitGoalView, CommitStageView, CommitStepView, Outcome,
};
use crate::path::name_in_path;
use crate::markdown_lines::{without_end, without_start};
use crate::repository::{github_path, https_remote};
use crate::text::{
    has_text, is_space, lemma_has_itself, lemma_has_text_within, lemma_pieces_around,
    lemma_single_piece, lemma_trimmed_end, lemma_trimmed_start, pieces, trimmed,
};
use crate::workspace::{CommitSnapshotView, GitAction};
use vstd::prelude::*;
use vstd::string::*;

verus! {

/// A command of Git works in a directory; one of the GitHub tool may work
/// anywhere.
pub open spec fn works_in(command: CommandView, root: Seq<char>) -> bool {
    ||| command.program == "gh"@
    ||| command.program == "git"@ && command.args.len() > 2 && command.args[0] == "-C"@
        && command.args[1] == root
}

/// Every command of Git works in the directory of the project, whatever came
/// before it.
pub proof fn lemma_git_works_in_the_project(
    root: Seq<char>,
    windows: bool,
    private: bool,
    action: GitAction,
    stage: ActionStageView,
    goal: CommitGoalView,
    commit_stage: CommitStageView,
    outcome: Outcome,
)
    ensures
        action_begun(root, action) matches ActionStepView::Run { command, .. } && works_in(
            command,
            root,
        ),
        action_after(root, windows, private, stage, outcome) matches ActionStepView::Run {
            command,
            ..
        } ==> works_in(command, root),
        commit_begun(root) matches CommitStepView::Run { command, .. } && works_in(command, root),
        commit_after(root, goal, commit_stage, outcome) matches CommitStepView::Run {
            command,
            ..
        } ==> works_in(command, root),
{
}

/// A command that failed ends the work, and says why in its own words; only a
/// first attempt to make a repository is tried in another way, and a repository
/// without a commit is published without a push.
pub proof fn lemma_failure_ends_the_work(
    root: Seq<char>,
    windows: bool,
    private: bool,
    stage: ActionStageView,
    outcome: Outcome,
)
    requires
        !succeeded(outcome),
        !(stage is Init),
        !(stage is HasHead),
    ensures
        action_after(root, windows, private, stage, outcome) matches ActionStepView::Failed(error)
            && (!(stage is Auth) ==> exists|program: Seq<char>|
            #[trigger] ran(program, outcome) matches Err(e) && crate::text::ends(error, e)),
{
    let program = if stage is Create {
        "gh"@
    } else {
        "git"@
    };
    let e = ran(program, outcome)->Err_0;
    assert(e.skip(0) =~= e);
    let told = "The GitHub repository was created, but the initial push failed: "@ + e;
    assert(told.skip(told.len() - e.len()) =~= e);
}

/// Why a command failed is told by its error output, and by its output when
/// there is none.
pub proof fn lemma_failure_is_told(
    program: Seq<char>,
    status: Seq<char>,
    stdout: Seq<u8>,
    stderr: Seq<u8>,
)
    ensures
        ({
            let told = failure_text(program, status, stdout, stderr);
            let error = trimmed(lossy_text(stderr));
            let output = trimmed(lossy_text(stdout));
            &&& error.len() > 0 ==> told == error
            &&& error.len() == 0 && output.len() > 0 ==> told == output
            &&& error.len() == 0 && output.len() == 0 ==> crate::text::ends(told, status)
        }),
{
    let told = program + " exited with "@ + status;
    assert(told.skip(told.len() - status.len()) =~= status);
}

/// Publishing creates a repository under the name of the project's directory,
/// from that directory, and as private as the user wants it, once GitHub knows
/// the user.
pub proof fn lemma_publishing_creates_the_repository(
    root: Seq<char>,
    windows: bool,
    private: bool,
    name: Seq<char>,
    outcome: Outcome,
)
    requires
        succeeded(outcome),
        name_in_path(root, windows) == Some(name),
    ensures
        action_begun(root, GitAction::Publish) matches ActionStepView::Run { stage, command }
            && command.program == "gh"@ && command.args.len() > 1 && command.args[0] == "auth"@
            && command.args[1] == "status"@ && {
            action_after(root, windows, private, stage, outcome) matches ActionStepView::Run {
                stage: next,
                command: create,
            } && {
                &&& create.program == "gh"@
                &&& create.args.len() == 8
                &&& create.args[0] == "repo"@ && create.args[1] == "create"@
                &&& create.args[2] == name
                &&& create.args[3] == "--source"@ && create.args[4] == root
                &&& create.args[7] == if private {
                    "--private"@
                } else {
                    "--public"@
                }
                &&& next == (ActionStageView::Create { name })
            }
        },
{
}

/// A push goes to the remote only when its address is one of GitHub over HTTPS:
/// any other is first rewritten to that, and an address that is none of GitHub
/// is not pushed to.
pub proof fn lemma_push_goes_to_github(
    root: Seq<char>,
    windows: bool,
    private: bool,
    published: Option<Seq<char>>,
    outcome: Outcome,
    origin: Seq<char>,
)
    requires
        ran("git"@, outcome) == Ok::<Seq<char>, Seq<char>>(origin),
    ensures
        ({
            let step = action_after(
                root,
                windows,
                private,
                ActionStageView::RemoteGet { published },
                outcome,
            );
            &&& https_remote(origin) is None ==> step is Failed
            &&& https_remote(origin) == Some(origin) ==> (step matches ActionStepView::Run {
                stage,
                command,
            } && stage is Push && command.args.len() > 4 && command.args[command.args.len() - 1]
                == "HEAD"@ && command.args[command.args.len() - 2] == "origin"@
                && command.args.contains("push"@))
            &&& https_remote(origin) is Some && https_remote(origin) != Some(origin) ==> (
            step matches ActionStepView::Run { stage, command } && stage is RemoteSet && Some(
                command.args.last(),
            ) == https_remote(origin) && command.args.contains("set-url"@))
        }),
{
    let step = action_after(
        root,
        windows,
        private,
        ActionStageView::RemoteGet { published },
        outcome,
    );
    if let ActionStepView::Run { stage, command } = step {
        if stage is Push {
            assert(command.args[6] == "push"@);
        } else {
            assert(command.args[3] == "set-url"@);
        }
    }
}

/// What is done is told only when it was done: a push that succeeded ends the
/// work, and what was published is named.
pub proof fn lemma_success_is_told(
    root: Seq<char>,
    windows: bool,
    private: bool,
    published: Option<Seq<char>>,
    outcome: Outcome,
)
    ensures
        ({
            let step = action_after(
                root,
                windows,
                private,
                ActionStageView::Push { published },
                outcome,
            );
            &&& succeeded(outcome) <==> step is Done
            &&& published matches Some(name) ==> (step matches ActionStepView::Done(told) ==> has_text(
                told,
                name,
            ))
        }),
        action_after(root, windows, private, ActionStageView::InitPlain, outcome) is Done
            <==> succeeded(outcome),
        action_after(root, windows, private, ActionStageView::Init, outcome) is Done
            <==> succeeded(outcome),
{
    if published is Some {
        let name = published->0;
        lemma_has_itself(name);
        lemma_has_text_within("Published "@, name, " to GitHub"@, name);
    }
}

/// A commit is prepared by staging everything in the project; nothing is staged
/// in a project that is not the root of its repository.
pub proof fn lemma_only_the_root_is_staged(
    root: Seq<char>,
    repository: Seq<char>,
    goal: CommitGoalView,
    error: Seq<char>,
)
    ensures
        root_compared(root, goal, repository, Ok(false)) is Done,
        root_compared(root, goal, repository, Err(error)) is Done,
        root_compared(root, CommitGoalView::Prepare, repository, Ok(true)) matches CommitStepView::Run {
            command,
            ..
        } && command.args.len() == 6 && command.args[2] == "add"@ && command.args[3] == "--all"@,
        goal is Save ==> (root_compared(root, goal, repository, Ok(true))
            matches CommitStepView::Run { command, .. } && command == tree_command(root)),
{
}

/// The commit that is made has the message that was asked for, and what is told
/// of it names that message.
pub proof fn lemma_commit_has_its_message(
    root: Seq<char>,
    message: Seq<char>,
    snapshot: CommitSnapshotView,
    outcome: Outcome,
    tree: Seq<char>,
)
    requires
        printed(outcome) == snapshot.head,
    ensures
        ({
            let goal = CommitGoalView::Save { message, snapshot };
            commit_after(root, goal, CommitStageView::Head { tree }, outcome)
                matches CommitStepView::Run { stage, command } && {
                &&& stage is Commit
                &&& command.program == "git"@
                &&& command.args.len() == 5
                &&& command.args[1] == root
                &&& command.args[2] == "commit"@
                &&& command.args[3] == "-m"@
                &&& command.args[4] == message
            }
        }),
        ({
            let goal = CommitGoalView::Save { message, snapshot };
            succeeded(outcome) ==> (commit_after(root, goal, CommitStageView::Commit, outcome)
                matches CommitStepView::Done(CommitEndView::Saved(told)) && crate::text::ends(
                told,
                message,
            ))
        }),
{
    let told = "Committed staged changes: "@ + message;
    assert(told.skip(told.len() - message.len()) =~= message);
}

/// What a message is asked for holds what is staged: the tree that Git wrote,
/// the commit it stands on, and the differences between them as far as they fit.
pub proof fn lemma_prepared_commit_holds_what_is_staged(
    root: Seq<char>,
    tree: Seq<char>,
    head: Option<Seq<char>>,
    base: Seq<char>,
    stat: Seq<char>,
    outcome: Outcome,
    patch: Seq<char>,
)
    requires
        ran("git"@, outcome) == Ok::<Seq<char>, Seq<char>>(patch),
    ensures
        commit_after(
            root,
            CommitGoalView::Prepare,
            CommitStageView::Patch { tree, head, base, stat },
            outcome,
        ) matches CommitStepView::Done(CommitEndView::Prepared(snapshot)) && {
            &&& snapshot.tree == tree
            &&& snapshot.head == head
            &&& snapshot.context.len() <= 24_000
            &&& tree.len() + stat.len() + patch.len() < 23_900 ==> has_text(snapshot.context, patch)
                && has_text(snapshot.context, stat) && has_text(snapshot.context, tree)
        },
{
    reveal_strlit("Staged snapshot: ");
    reveal_strlit("\n");
    let head_text = "Staged snapshot: "@;
    assert(head_text.len() == 17 && "\n"@.len() == 1);
    let whole = head_text + tree + "\n"@ + stat + "\n"@ + patch;
    lemma_has_itself(tree);
    lemma_has_itself(stat);
    lemma_has_itself(patch);
    lemma_has_text_within(head_text, tree, "\n"@ + stat + "\n"@ + patch, tree);
    assert(head_text + tree + ("\n"@ + stat + "\n"@ + patch) =~= whole);
    lemma_has_text_within(head_text + tree + "\n"@, stat, "\n"@ + patch, stat);
    assert(head_text + tree + "\n"@ + stat + ("\n"@ + patch) =~= whole);
    lemma_has_text_within(head_text + tree + "\n"@ + stat + "\n"@, patch, Seq::empty(), patch);
    assert(head_text + tree + "\n"@ + stat + "\n"@ + patch + Seq::empty() =~= whole);
}

/// The differences are those between the commit that there is, or none, and what
/// is staged now.
pub proof fn lemma_differences_are_of_the_staged_tree(
    root: Seq<char>,
    tree: Seq<char>,
    outcome: Outcome,
)
    ensures
        printed(outcome) matches Some(head) ==> (commit_after(
            root,
            CommitGoalView::Prepare,
            CommitStageView::Head { tree },
            outcome,
        ) matches CommitStepView::Run { stage, command } && stage == (CommitStageView::Stat {
            tree,
            head: Some(head),
            base: head,
        }) && command.args.len() > 6 && command.args[2] == "diff"@ && command.args[5] == head
            && command.args[6] == tree),
        printed(outcome) is None ==> (commit_after(
            root,
            CommitGoalView::Prepare,
            CommitStageView::Head { tree },
            outcome,
        ) matches CommitStepView::Run { stage, .. } && stage == (CommitStageView::Base { tree })),
{
}

/// The ways in which a repository on GitHub is addressed.
pub open spec fn is_github_prefix(prefix: Seq<char>) -> bool {
    prefix == "git@github.com:"@ || prefix == "ssh://git@github.com/"@ || prefix
        == "ssh://github.com/"@ || prefix == "https://github.com/"@ || prefix == "http://github.com/"@
}

/// A name in an address: not empty, without a slash and without space at its
/// ends.
pub open spec fn address_part(name: Seq<char>) -> bool {
    &&& name.len() > 0
    &&& !is_space(name.last())
    &&& forall|i: int| 0 <= i < name.len() ==> (#[trigger] name[i]) != '/'
}

proof fn lemma_github_prefix(prefix: Seq<char>, path: Seq<char>)
    requires
        is_github_prefix(prefix),
    ensures
        github_path(prefix + path) == Some(path),
        prefix.len() > 0,
        prefix[0] == 'g' || prefix[0] == 's' || prefix[0] == 'h',
{
    reveal_strlit("git@github.com:");
    reveal_strlit("ssh://git@github.com/");
    reveal_strlit("ssh://github.com/");
    reveal_strlit("https://github.com/");
    reveal_strlit("http://github.com/");
    let remote = prefix + path;
    let a = "git@github.com:"@;
    let b = "ssh://git@github.com/"@;
    let c = "ssh://github.com/"@;
    let d = "https://github.com/"@;
    let e = "http://github.com/"@;
    assert(a[0] == 'g' && b[0] == 's' && c[0] == 's' && d[0] == 'h' && e[0] == 'h');
    assert(b[9] == '@' && c[9] == 'h' && d[4] == 's' && e[4] == ':');
    assert(a.len() == 15 && b.len() == 21 && c.len() == 17 && d.len() == 19 && e.len() == 18);
    assert(remote.take(prefix.len() as int) =~= prefix);
    assert(remote.skip(prefix.len() as int) =~= path);
    assert(remote[0] == prefix[0] && remote[4] == prefix[4] && remote[9] == prefix[9]);
    if remote.len() >= a.len() {
        assert(remote.take(15)[0] == remote[0]);
    }
    if remote.len() >= b.len() {
        assert(remote.take(21)[0] == remote[0] && remote.take(21)[9] == remote[9]);
    }
    if remote.len() >= c.len() {
        assert(remote.take(17)[0] == remote[0] && remote.take(17)[9] == remote[9]);
    }
    if remote.len() >= d.len() {
        assert(remote.take(19)[0] == remote[0] && remote.take(19)[4] == remote[4]);
    }
}

/// However a repository on GitHub is addressed, it is pushed to over HTTPS: the
/// same owner and the same repository.
pub proof fn lemma_one_address_of_a_repository(
    prefix: Seq<char>,
    owner: Seq<char>,
    name: Seq<char>,
)
    requires
        is_github_prefix(prefix),
        address_part(owner) && address_part(name),
    ensures
        https_remote(prefix + (owner.push('/') + name)) == Some(
            "https://github.com/"@ + (owner.push('/') + name),
        ),
{
    let path = owner.push('/') + name;
    let remote = prefix + path;
    lemma_github_prefix(prefix, path);
    assert(remote[0] == prefix[0]);
    assert(remote.last() == name.last());
    assert(!is_space(remote[0]));
    lemma_trimmed_start(remote, 0);
    assert(remote.skip(0) =~= remote);
    lemma_trimmed_end(remote, remote.len() as int);
    assert(remote.take(remote.len() as int) =~= remote);
    assert(path[0] == owner[0] && owner[0] != '/');
    assert(path.last() == name.last() && name[name.len() - 1] != '/');
    assert(without_start(path, '/') == path);
    assert(without_end(path, '/') == path);
    lemma_pieces_around(owner, '/', name);
    lemma_single_piece(owner, '/');
    lemma_single_piece(name, '/');
    let segments = pieces(path, '/');
    assert(segments =~= seq![owner, name]);
    reveal_strlit("/");
    assert("/"@ =~= seq!['/']);
    assert("https://github.com/"@ + owner + "/"@ + name =~= "https://github.com/"@ + path);
}

/// An address elsewhere is none on GitHub.
pub proof fn lemma_other_addresses_are_not_rewritten(remote: Seq<char>)
    requires
        remote.len() > 0,
        !is_space(remote[0]) && !is_space(remote.last()),
        remote[0] != 'g' && remote[0] != 's' && remote[0] != 'h',
    ensures
        https_remote(remote) is None,
{
    reveal_strlit("git@github.com:");
    reveal_strlit("ssh://git@github.com/");
    reveal_strlit("ssh://github.com/");
    reveal_strlit("https://github.com/");
    reveal_strlit("http://github.com/");
    lemma_trimmed_start(remote, 0);
    assert(remote.skip(0) =~= remote);
    lemma_trimmed_end(remote, remote.len() as int);
    assert(remote.take(remote.len() as int) =~= remote);
    assert("git@github.com:"@[0] == 'g' && "ssh://git@github.com/"@[0] == 's'
        && "ssh://github.com/"@[0] == 's' && "https://github.com/"@[0] == 'h'
        && "http://github.com/"@[0] == 'h');
    assert("git@github.com:"@.len() == 15 && "ssh://git@github.com/"@.len() == 21
        && "ssh://github.com/"@.len() == 17 && "https://github.com/"@.len() == 19
        && "http://github.com/"@.len() == 18);
    assert forall|n: int| 0 < n <= remote.len() implies (#[trigger] remote.take(n))[0] == remote[0] by {}
}

/// To make a repository of a directory Git is asked to, with the main branch by
/// name or, where it does not know how, without; either way the user is told that
/// it is there only once Git has made it.
pub proof fn lemma_initializing_makes_a_repository(
    root: Seq<char>,
    windows: bool,
    private: bool,
    outcome: Outcome,
)
    ensures
        action_begun(root, GitAction::Initialize) matches ActionStepView::Run { stage, command }
            && {
            &&& command.program == "git"@
            &&& command.args == seq!["-C"@, root, "init"@, "-b"@, "main"@]
            &&& succeeded(outcome) ==> action_after(root, windows, private, stage, outcome)
                is Done
            &&& outcome is Finished && !succeeded(outcome) ==> (action_after(
                root,
                windows,
                private,
                stage,
                outcome,
            ) matches ActionStepView::Run { stage: again, command: plain } && plain.program
                == "git"@ && plain.args == seq!["-C"@, root, "init"@] && (action_after(
                root,
                windows,
                private,
                again,
                outcome,
            ) is Failed))
            &&& outcome is NotStarted ==> action_after(root, windows, private, stage, outcome)
                is Failed
        },
{
    assert(seq!["-C"@, root] + seq!["init"@, "-b"@, "main"@] =~= seq![
        "-C"@,
        root,
        "init"@,
        "-b"@,
        "main"@,
    ]);
    assert(seq!["-C"@, root] + seq!["init"@] =~= seq!["-C"@, root, "init"@]);
}

} // verus!
