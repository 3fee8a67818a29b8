use ferro_code::git_flow::{
    begin_action, begin_commit, command_error, command_result, command_stdout,
    compare_commit_root, step_action, step_commit, ActionStep, Command, CommitEnd, CommitGoal,
    CommitStage, CommitStep, Outcome,
};
use ferro_code::repository::{
    empty_snapshot, is_listed_name, read_file_list, summarize_inspection, visible_relative_path,
    walk_enters, Inspection,
};
use ferro_code::workspace::{CommitSnapshot, GitAction};
use ferro_code::workspace_view::recorded_change_rows;

fn printed(text: &str) -> Outcome {
    Outcome::Finished {
        success: true,
        status: "exit status: 0".into(),
        stdout: text.as_bytes().to_vec(),
        stderr: vec![],
    }
}

fn failed(text: &str) -> Outcome {
    Outcome::Finished {
        success: false,
        status: "exit status: 1".into(),
        stdout: vec![],
        stderr: text.as_bytes().to_vec(),
    }
}

/// Runs a commit against answers for each command, and lists the commands.
fn commit(
    goal: CommitGoal,
    same: Result<bool, String>,
    answer: impl Fn(&Command) -> Outcome,
) -> (CommitEnd, Vec<String>) {
    let mut commands = Vec::new();
    let mut step = begin_commit("/work");
    loop {
        step = match step {
            CommitStep::Run { stage, command } => {
                commands.push(format!("{} {}", command.program, command.args.join(" ")));
                step_commit("/work", &goal, stage, &answer(&command))
            }
            CommitStep::Compare { stage, left, right } => {
                assert_eq!(left, "/work");
                assert_eq!(right, "/work/real");
                match stage {
                    CommitStage::Compare { repository } => {
                        compare_commit_root("/work", &goal, &repository, same.clone())
                    }
                    other => panic!("unexpected stage: {other:?}"),
                }
            }
            CommitStep::Done(end) => return (end, commands),
        };
    }
}

fn git(head: &'static str) -> impl Fn(&Command) -> Outcome {
    move |command| match command.args[2].as_str() {
        "rev-parse" if command.args[3] == "--show-toplevel" => printed("/work/real\n"),
        "rev-parse" if head.is_empty() => failed("no HEAD"),
        "rev-parse" => printed(head),
        "write-tree" => printed("tree1\n"),
        "mktree" => printed("empty1"),
        "diff" if command.args[4] == "--stat" => printed("1 file changed"),
        "diff" => printed("+snapshot contents"),
        _ => printed(""),
    }
}

#[test]
fn a_commit_is_prepared_from_the_staged_tree() {
    let (end, commands) = commit(CommitGoal::Prepare, Ok(true), git(""));
    match end {
        CommitEnd::Prepared(snapshot) => {
            assert_eq!(snapshot.tree, "tree1");
            assert_eq!(snapshot.head, None);
            assert_eq!(
                snapshot.context,
                "Staged snapshot: tree1\n1 file changed\n+snapshot contents"
            );
        }
        other => panic!("unexpected end: {other:?}"),
    }
    assert_eq!(
        commands,
        [
            "git -C /work rev-parse --show-toplevel",
            "git -C /work add --all -- .",
            "git -C /work write-tree",
            "git -C /work rev-parse --verify HEAD",
            "git -C /work mktree",
            "git -C /work diff --no-ext-diff --stat empty1 tree1 --",
            "git -C /work diff --no-ext-diff empty1 tree1 -- :(exclude)Cargo.lock"
        ]
    );
}

#[test]
fn a_subfolder_is_not_committed() {
    let (end, commands) = commit(CommitGoal::Prepare, Ok(false), git(""));
    match end {
        CommitEnd::Failed(message) => assert!(message.contains("repository root (/work/real)")),
        other => panic!("unexpected end: {other:?}"),
    }
    assert_eq!(commands.len(), 1);
    let (end, _) = commit(CommitGoal::Prepare, Err("gone".into()), git(""));
    assert!(matches!(end, CommitEnd::Failed(message) if message == "gone"));
}

#[test]
fn only_the_snapshot_is_committed() {
    let goal = |tree: &str, head: Option<&str>| CommitGoal::Save {
        message: "Save snapshot".into(),
        snapshot: CommitSnapshot {
            context: String::new(),
            tree: tree.into(),
            head: head.map(str::to_owned),
        },
    };
    let (end, commands) = commit(goal("tree1", Some("abc")), Ok(true), git("abc"));
    assert!(
        matches!(end, CommitEnd::Saved(text) if text == "Committed staged changes: Save snapshot")
    );
    assert_eq!(
        commands.last().unwrap(),
        "git -C /work commit -m Save snapshot"
    );
    for (tree, head) in [("tree2", Some("abc")), ("tree1", Some("old")), ("tree1", None)] {
        let (end, commands) = commit(goal(tree, head), Ok(true), git("abc"));
        assert!(
            matches!(end, CommitEnd::Failed(text) if text.starts_with("The staged changes or branch changed"))
        );
        assert!(!commands.iter().any(|command| command.contains("commit -m")));
    }
}

fn act(
    action: GitAction,
    private_repository: bool,
    answer: impl Fn(&Command) -> Outcome,
) -> (Result<String, String>, Vec<String>) {
    let mut commands = Vec::new();
    let mut step = begin_action("/work/demo", action);
    loop {
        step = match step {
            ActionStep::Run { stage, command } => {
                commands.push(format!("{} {}", command.program, command.args.join(" ")));
                step_action("/work/demo", false, private_repository, stage, &answer(&command))
            }
            ActionStep::Done(text) => return (Ok(text), commands),
            ActionStep::Failed(text) => return (Err(text), commands),
        };
    }
}

#[test]
fn repositories_are_initialized_with_either_version_of_git() {
    let (result, commands) = act(GitAction::Initialize, true, |_| printed(""));
    assert_eq!(result, Ok("Initialized Git repository".into()));
    assert_eq!(commands, ["git -C /work/demo init -b main"]);
    let (result, commands) = act(GitAction::Initialize, true, |command| {
        if command.args.len() > 3 {
            failed("unknown switch b")
        } else {
            printed("")
        }
    });
    assert!(result.is_ok());
    assert_eq!(commands[1], "git -C /work/demo init");
    let (result, _) = act(GitAction::Initialize, true, |_| {
        Outcome::NotStarted("missing".into())
    });
    assert_eq!(result, Err("Could not start Git: missing".into()));
}

#[test]
fn publishing_creates_a_repository_and_pushes() {
    let answer = |command: &Command| match command.args.last().unwrap().as_str() {
        "origin" => printed("git@github.com:me/demo.git\n"),
        _ => printed(""),
    };
    let (result, commands) = act(GitAction::Publish, true, answer);
    assert_eq!(result, Ok("Published demo to GitHub".into()));
    assert_eq!(
        commands,
        [
            "gh auth status --hostname github.com",
            "gh repo create demo --source /work/demo --remote origin --private",
            "git -C /work/demo rev-parse --verify HEAD",
            "git -C /work/demo remote get-url origin",
            "git -C /work/demo remote set-url origin https://github.com/me/demo.git",
            "git -C /work/demo -c credential.https://github.com.helper= -c credential.https://github.com.helper=!gh auth git-credential push --set-upstream origin HEAD"
        ]
    );
    let (result, _) = act(GitAction::Publish, false, |command| {
        if command.args.contains(&"push".to_owned()) {
            failed("rejected")
        } else if command.args.last().unwrap() == "origin" {
            printed("https://github.com/me/demo.git")
        } else {
            printed("")
        }
    });
    assert_eq!(
        result,
        Err("The GitHub repository was created, but the initial push failed: rejected".into())
    );
}

#[test]
fn pushing_needs_github() {
    let (result, commands) = act(GitAction::Push, true, |_| failed("no"));
    assert_eq!(
        result,
        Err("GitHub is not configured. Run `gh auth login` and try again.".into())
    );
    assert_eq!(commands.len(), 1);
    let (result, _) = act(GitAction::Push, true, |command| {
        if command.args.last().unwrap() == "origin" {
            printed("https://example.com/me/demo")
        } else {
            printed("")
        }
    });
    assert_eq!(
        result,
        Err("The origin remote is not a supported GitHub repository URL".into())
    );
}

#[test]
fn failures_of_commands_are_told() {
    assert_eq!(
        command_error("git", "exit status: 1", b"", b""),
        "git exited with exit status: 1"
    );
    assert_eq!(command_error("git", "", b" out ", b" "), "out");
    assert_eq!(command_error("git", "", b"out", b" err "), "err");
    assert_eq!(
        command_result("git", &Outcome::NotStarted("missing".into())),
        Err("Could not start git: missing".into())
    );
    assert_eq!(command_stdout(&printed(" a\n")), Some("a".into()));
    assert_eq!(command_stdout(&failed("x")), None);
    assert_eq!(
        command_stdout(&Outcome::Finished {
            success: true,
            status: String::new(),
            stdout: b"a\xffb".to_vec(),
            stderr: vec![]
        }),
        Some("a\u{fffd}b".into())
    );
}

fn inspection(status: &str) -> Inspection {
    Inspection {
        installed: true,
        status: Some(status.into()),
        porcelain: Some(b" M b.txt\0?? a.txt\0".to_vec()),
        listed: Some(b"src/b.rs\0a.txt\0.hidden\0target/x\0".to_vec()),
        walked: vec!["walked.txt".into(), "debug.log".into()],
        origin: Some("git@GitHub.com:me/demo.git".into()),
        github_configured: true,
    }
}

#[test]
fn inspections_are_summarized() {
    let found = summarize_inspection(inspection("## main...origin/main [ahead 2]\n M b.txt\n"), true, false);
    assert_eq!(found.files, ["a.txt", "src/b.rs"]);
    assert!(found.git.is_repository && found.git.has_changes && found.git.has_commits);
    assert!(found.git.has_github_remote && found.git.has_unpushed_commits);
    let rows = recorded_change_rows(&found.diff).unwrap();
    assert_eq!(rows.len(), 2);
    assert_eq!(rows[0].path, "b.txt");
    assert_eq!(rows[1].row.status_label, "Untracked");
    let found = summarize_inspection(inspection("## main...origin/main\n"), false, false);
    assert_eq!(found.files, ["debug.log", "walked.txt"]);
    assert!(!found.git.has_unpushed_commits);
    let found = summarize_inspection(inspection("## No commits yet on main\n"), true, false);
    assert!(!found.git.has_commits && !found.git.has_unpushed_commits);
    let found = summarize_inspection(inspection("## main\n"), true, false);
    assert!(found.git.has_unpushed_commits);
    let mut none = inspection("");
    none.status = None;
    let found = summarize_inspection(none, true, false);
    assert!(!found.git.is_repository && !found.git.has_changes);
    assert_eq!(found.diff, "[]");
    assert_eq!(found.files, ["debug.log", "walked.txt"]);
    let nothing = empty_snapshot(true, false);
    assert!(nothing.git.installed && nothing.files.is_empty());
}

#[test]
fn listed_files_are_visible_ones() {
    assert!(is_listed_name("main.rs"));
    assert!(!is_listed_name(".git"));
    assert!(!is_listed_name("target"));
    assert!(!is_listed_name("node_modules"));
    assert!(visible_relative_path("a/b/c/d/e/f/g", false));
    assert!(!visible_relative_path("a/b/c/d/e/f/g/h", false));
    assert!(!visible_relative_path("a/.b/c", false));
    assert!(!visible_relative_path("C:/1/2/3/4/5/6", true));
    assert!(visible_relative_path("C:/1/2/3/4/5", true));
    assert!(visible_relative_path("C:1/2/3/4/5/6", true));
    assert!(!visible_relative_path("C:.hidden/x", true));
    assert!(!visible_relative_path("C:./x", true));
    assert!(visible_relative_path("C:/1/2/3/4/5/6", false));
    assert!(visible_relative_path(r"\\srv\share\1\2\3\4\5", true));
    assert!(!visible_relative_path(r"\\srv\share\1\2\3\4\5\6", true));
    assert!(visible_relative_path("a\\.b", false));
    assert!(!visible_relative_path("a\\.b", true));
    assert!(walk_enters(6, 499));
    assert!(!walk_enters(7, 0));
    assert!(!walk_enters(0, 500));
    assert_eq!(read_file_list(b"a/b\0\0c\0", true), ["a\\b", "c"]);
}
