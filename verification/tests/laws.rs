use ferro_code::controller::poll::{Inbox, ROUND_MESSAGES};
use ferro_code::controller::{Action, Controller, Moment, PendingCall};
use ferro_code::file_tree::file_rows;
use ferro_code::formatting::{
    fallback_activity_summary, format_token_count, humanize, is_skills_budget_warning,
    model_display, short_path, truncate_text,
};
use ferro_code::json::Json;
use ferro_code::json_text::parse_json;
use ferro_code::labels::{context_ring_path, elapsed_duration_label, relative_time_label};
use ferro_code::markdown::{markdown_plain_text, normalize_inline_markdown};
use ferro_code::markdown_blocks::parse_markdown_blocks;
use ferro_code::model::{
    Approval, ConversationItem, Draft, ItemKind, ModelOption, PersistedState,
};
use ferro_code::prompt::{clean_summary, title_from_prompt};
use ferro_code::repository::github_https_remote;
use ferro_code::row_updates::{project_rows_match, update_message_rows};
use ferro_code::sidebar::{project_rows, thread_rows_at};
use ferro_code::state::{AppState, Question, QuestionRequest};
use ferro_code::sync::{
    clamp_thread_limit, next_message_revision, recorded_workspace, sync_ui,
};
use ferro_code::table::Table;
use ferro_code::view_models::{message_content_height, message_rows};
use ferro_code::workspace::{CommitSnapshot, GitStatus, WorkspaceSnapshot};

fn json(text: &str) -> Json {
    parse_json(text.as_bytes()).unwrap()
}

fn now() -> Moment {
    Moment {
        seconds: 1_000,
        millis: 1_000_000,
        ticks: 5_000,
    }
}

fn state() -> AppState {
    AppState::from_persisted(PersistedState::default())
}

fn approval(id: u64) -> Approval {
    Approval {
        request_id: Json::Unsigned(id),
        method: "item/commandExecution/requestApproval".into(),
        title: format!("Approval {id}"),
        detail: String::new(),
        allow_session: true,
        local_thread_id: None,
    }
}

#[test]
fn history_survives_a_restart() {
    let mut before = state();
    before.add_project("/code/first".into(), 1);
    let first = before.new_thread(2).unwrap();
    let mut command = ConversationItem::new("c", ItemKind::Command, "ls");
    command.status = "completed".into();
    before.conversation.push(command);
    before.set_draft(Draft {
        text: "half".into(),
        attachments: vec!["/a".into()],
    });
    let saved = before.persisted();
    let mut after = AppState::from_persisted(saved);
    assert_eq!(after.projects, before.projects);
    assert_eq!(after.drafts, before.drafts);
    assert_eq!(after.active_local_thread.as_deref(), Some(first.as_str()));
    assert_eq!(after.conversation[0].id, "c");
    assert!(after.conversation[0].collapsed);
    assert_eq!(after.active_draft().text, "half");
    let once = after.persisted();
    let again = AppState::from_persisted(once.clone()).persisted();
    assert_eq!(again, once);
}

#[test]
fn switching_threads_keeps_the_conversation() {
    let mut s = state();
    s.add_project("/code/first".into(), 1);
    let there = s.new_thread(2).unwrap();
    let here = s.new_thread(3).unwrap();
    s.conversation
        .push(ConversationItem::new("m", ItemKind::User, "You"));
    assert!(s.open_thread(&there));
    assert!(s.conversation.is_empty());
    assert!(!s.open_thread(&there));
    assert!(s.open_thread(&here));
    assert_eq!(s.conversation.len(), 1);
    assert!(!s.open_thread("missing"));
    assert!(!s.select_project("missing"));
    assert!(!s.toggle_project("missing"));
}

#[test]
fn archived_threads_come_back() {
    let mut s = state();
    s.add_project("/code/first".into(), 1);
    let first = s.new_thread(2).unwrap();
    let second = s.new_thread(3).unwrap();
    assert!(s.archive_thread(&first));
    assert_eq!(s.active_local_thread.as_deref(), Some(second.as_str()));
    assert_eq!(s.archived_threads[0].id, first);
    assert!(!s.archive_thread("missing"));
    s.undo_archive();
    assert!(s.archived_threads.is_empty());
    assert_eq!(s.threads[1].id, first);
}

#[test]
fn approvals_and_questions_wait_their_turn() {
    let mut c = Controller::with_transport(PersistedState::default());
    for id in 1..4 {
        c.state.enqueue_approval(approval(id));
    }
    assert_eq!(c.state.approval_queue.len(), 2);
    c.answer_approval("accept");
    assert_eq!(c.state.approval.as_ref().unwrap().title, "Approval 2");
    match &c.take_actions()[..] {
        [Action::Send(message)] => {
            assert_eq!(message.u64_at("id"), Some(1));
            assert_eq!(message.text_at2("result", "decision"), Some("accept"));
        }
        other => panic!("unexpected actions: {other:?}"),
    }
    c.answer_approval("decline");
    c.answer_approval("decline");
    assert!(c.state.approval.is_none());
    for id in 1..3 {
        c.state.enqueue_question(QuestionRequest {
            request_id: Json::Unsigned(id),
            local_thread_id: None,
            questions: vec![Question {
                id: format!("q{id}"),
                header: String::new(),
                question: "?".into(),
                options: vec![],
                answer: String::new(),
                secret: false,
            }],
        });
    }
    c.set_question_answer(0, "yes".into());
    c.set_question_answer(5, "no".into());
    c.submit_question_answers();
    assert_eq!(c.state.user_question.as_ref().unwrap().questions[0].id, "q2");
}

#[test]
fn drafts_belong_to_their_place() {
    let mut s = state();
    s.add_project("/code/first".into(), 1);
    s.set_draft(Draft {
        text: "project".into(),
        attachments: vec![],
    });
    let thread = s.new_thread(2).unwrap();
    assert_eq!(s.active_draft().text, "");
    s.set_draft(Draft {
        text: "thread".into(),
        attachments: vec!["/a".into(), "/b".into()],
    });
    s.remove_attachment(0);
    s.remove_attachment(9);
    assert_eq!(s.active_draft().attachments, ["/b"]);
    assert_eq!(s.draft_key(), thread);
    s.attach_to_draft(thread, vec!["/c".into()]);
    assert_eq!(s.active_draft().attachments, ["/b", "/c"]);
    let project = s.projects[0].id.clone();
    s.select_project(&project);
    assert_eq!(s.active_draft().text, "project");
}

fn running() -> (Controller, String) {
    let mut c = Controller::with_transport(PersistedState::default());
    c.state.connected = true;
    c.state.add_project("project".into(), 1);
    let local = c.state.new_thread(2).unwrap();
    c.state
        .conversation
        .push(ConversationItem::new("previous", ItemKind::User, "User"));
    c.state.runtime_threads.insert(local.clone(), "runtime".into());
    assert!(c.send_prompt("hello".into(), vec![], &Vec::new(), now()));
    (c, local)
}

#[test]
fn stale_calls_change_nothing() {
    let (mut c, local) = running();
    c.handle_response(
        PendingCall::TurnStart {
            local_thread_id: local,
            generation: 999,
        },
        &json(r#"{"turn":{"id":"late"}}"#),
        now(),
    );
    assert_eq!(c.state.running_turns.len(), 1);
    assert_eq!(c.state.running_turns.entries[0].1, None);
}

#[test]
fn a_turn_is_interrupted_once() {
    let (mut c, _) = running();
    c.handle_notification(
        "turn/started",
        &json(r#"{"threadId":"runtime","turn":{"id":"turn"}}"#),
        now(),
    );
    c.take_actions();
    c.interrupt(now());
    assert_eq!(c.take_actions().len(), 1);
    c.interrupt(now());
    assert!(c.take_actions().is_empty());
    assert!(!c.send_prompt("again".into(), vec![], &Vec::new(), now()));
}

#[test]
fn a_slow_startup_ends_the_connection() {
    let mut c = Controller::new(PersistedState::default());
    c.start(now());
    assert!(c.startup_in_progress());
    assert!(matches!(c.take_actions()[1], Action::StartBackend));
    c.start(now());
    assert!(c.take_actions().is_empty());
    let later = Moment {
        ticks: 65_000,
        ..now()
    };
    c.poll(Inbox::default(), later);
    assert!(!c.startup_in_progress());
    assert_eq!(
        c.state.toast.as_ref().unwrap().message,
        "Codex startup timed out. Use Reconnect to retry."
    );
}

#[test]
fn the_log_stays_short() {
    let mut c = Controller::new(PersistedState::default());
    for n in 0..1_100 {
        c.state.log(&n.to_string());
    }
    c.poll(Inbox::default(), now());
    assert_eq!(c.state.activity_log.len(), 1_000);
    assert_eq!(c.state.activity_log[0], "100");
    assert!(!c.poll(Inbox::default(), now()));
}

#[test]
fn inspections_of_other_projects_are_kept() {
    let mut c = Controller::new(PersistedState::default());
    c.state.add_project("/first".into(), 1);
    let second = c.state.add_project("/second".into(), 2);
    let first = c.state.projects[0].id.clone();
    c.refresh_workspace();
    assert_eq!(c.take_actions().len(), 1);
    c.refresh_workspace();
    assert!(c.take_actions().is_empty());
    let snapshot = WorkspaceSnapshot {
        diff: "[]".into(),
        files: vec!["x".into()],
        git: GitStatus::default(),
    };
    c.workspace_inspected(Some("/first".into()), snapshot);
    assert!(c.state.files.is_empty());
    assert_eq!(c.state.active_project.as_deref(), Some(second.as_str()));
    c.select_project(&first);
    assert_eq!(c.state.files, ["x"]);
}

#[test]
fn the_git_button_follows_the_repository() {
    let mut c = Controller::new(PersistedState::default());
    c.run_git_action();
    assert_eq!(
        c.state.toast.as_ref().unwrap().message,
        "Select a project before using Git"
    );
    c.state.add_project("/first".into(), 1);
    c.state.git_status.installed = true;
    c.run_git_action();
    assert!(matches!(c.take_actions()[0], Action::RunGit { .. }));
    c.run_git_action();
    assert!(c.take_actions().is_empty());
    c.git_finished(Ok("Initialized Git repository".into()));
    assert!(!c.state.git_action_in_progress);
    c.state.git_status.installed = true;
    c.state.git_status.is_repository = true;
    c.state.git_status.has_changes = true;
    c.run_git_action();
    assert_eq!(
        c.state.toast.as_ref().unwrap().message,
        "Codex must be connected to create the commit summary"
    );
    c.commit_prepared(
        "/first".into(),
        Ok(CommitSnapshot {
            context: String::new(),
            tree: String::new(),
            head: None,
        }),
        now(),
    );
    assert_eq!(
        c.state.toast.as_ref().unwrap().message,
        "Codex disconnected while staging. Your staged changes are retained."
    );
}

#[test]
fn updated_rows_show_the_next_conversation() {
    let mut item = ConversationItem::new("a", ItemKind::Assistant, "Codex");
    item.body = "One".into();
    let mut rows = message_rows(&vec![item.clone()]);
    item.body = "One **two**".into();
    let next = message_rows(&vec![item, ConversationItem::new("b", ItemKind::User, "You")]);
    assert!(update_message_rows(&mut rows, next.clone()));
    assert_eq!(rows, next);
    assert_eq!(
        message_content_height(&rows),
        rows.last().unwrap().scroll_offset + rows.last().unwrap().row_height
    );
}

#[test]
fn remotes_that_are_normal_stay_as_they_are() {
    let https = github_https_remote(" git@github.com:owner/repo.git/ \n").unwrap();
    assert_eq!(https, "https://github.com/owner/repo.git");
    assert_eq!(github_https_remote(&https), Some(https.clone()));
    assert_eq!(github_https_remote("https://github.com/a/b/c"), None);
}

#[test]
fn texts_are_cut_by_characters() {
    assert_eq!(truncate_text("ab", 2), "ab");
    assert_eq!(truncate_text("", 0), "");
    assert_eq!(short_path("abc", 3), "abc");
    assert_eq!(format_token_count(1_000), "1.0K");
    assert_eq!(format_token_count(999_949), "999.9K");
    assert_eq!(format_token_count(1_250_000), "1.2M");
    assert_eq!(humanize("request_user_input"), "Request user input");
    assert_eq!(humanize("ärger"), "Ärger");
    assert!(is_skills_budget_warning(
        "Skill descriptions were shortened to fit the skills context budget."
    ));
    assert_eq!(clean_summary("\n \"Fix: it!\" \nmore", 70), "Fix: it");
    assert_eq!(title_from_prompt("first line\nsecond"), "first line");
    assert_eq!(title_from_prompt(""), "New thread");
    assert_eq!(title_from_prompt(&"x".repeat(71)).len(), 70);
    assert_eq!(fallback_activity_summary(&vec![]), "Completed actions · 0");
    let tool = ConversationItem::new("t", ItemKind::Tool, "Read");
    assert_eq!(fallback_activity_summary(&vec![tool]), "Used tools · 1");
}

#[test]
fn labels_round_down() {
    assert_eq!(elapsed_duration_label(3_600_000), "60m 00s");
    assert_eq!(relative_time_label(0, 3_599), "59m ago");
    assert_eq!(relative_time_label(0, 86_399), "23h ago");
    assert_eq!(context_ring_path(50), "M 10 1 A 9 9 0 0 1 10.000 19.000");
}

#[test]
fn inline_markdown_is_taken_apart() {
    assert_eq!(markdown_plain_text("`a*b` ![x](y) \\*"), "a*b x *");
    assert_eq!(normalize_inline_markdown("plain"), "plain");
    let blocks = parse_markdown_blocks("para\n\n## Two\n- item", false);
    assert_eq!(blocks[0].kind, "paragraph");
    assert_eq!(blocks[1].level, 2);
    assert_eq!(blocks[2].raw_text, "- item");
}

#[test]
fn the_sidebar_lists_newest_threads_first() {
    let mut s = state();
    let project = s.add_project("/code/first".into(), 1);
    s.new_thread(10).unwrap();
    s.new_thread(30).unwrap();
    s.new_thread(20).unwrap();
    let rows = thread_rows_at(&s, "", 40);
    let order: Vec<u64> = rows.iter().map(|row| row.project_index).collect();
    assert_eq!(order, [0, 1, 2]);
    assert!(rows[0].id.starts_with("thread-30"));
    assert!(rows[2].id.starts_with("thread-10"));
    let projects = project_rows(&s, &rows);
    assert_eq!(projects[0].id, project);
    assert_eq!(projects[0].thread_count, 3);
    assert!(thread_rows_at(&s, "nothing", 40).is_empty());
}

#[test]
fn the_interface_shows_the_state() {
    let mut c = Controller::new(PersistedState::default());
    c.state.add_project("/code/first".into(), 1);
    c.state.new_thread(2);
    c.state.error("went wrong");
    let ui = sync_ui(&c, "", true, 10);
    assert_eq!(ui.lists.threads.len(), 1);
    assert_eq!(ui.lists.projects[0].name, "first");
    assert_eq!(
        ui.agent.sandbox_names,
        ["Read only", "Workspace", "Full access"]
    );
    assert_eq!(ui.agent.selected_sandbox_index, 1);
    assert_eq!(ui.agent.approval_names.len(), 3);
    assert_eq!(ui.dialogs.toast_text, "went wrong");
    assert_eq!(clamp_thread_limit(0), 1);
    assert_eq!(clamp_thread_limit(500), 100);
    assert_eq!(next_message_revision(i32::MAX), 0);
}

#[test]
fn changed_files_are_marked_in_the_tree() {
    let rows = file_rows(
        &vec!["b.txt".into(), "a/x.txt".into()],
        &vec!["a/x.txt".into()],
    );
    assert_eq!(rows.len(), 3);
    assert_eq!(rows[0].name, "a");
    assert!(rows[1].changed);
    assert!(!rows[2].changed);
}

#[test]
fn unsupported_requests_are_answered() {
    let mut c = Controller::with_transport(PersistedState::default());
    c.handle_message(&json(r#"{"id":"x","method":"moon/land","params":{}}"#), now());
    match &c.take_actions()[..] {
        [Action::Send(message)] => {
            assert_eq!(message.text_at("id"), Some("x"));
            assert_eq!(
                message.text_at2("error", "message"),
                Some("Unsupported request: moon/land")
            );
        }
        other => panic!("unexpected actions: {other:?}"),
    }
    assert!(c.state.approval.is_none());
}

#[test]
fn unknown_threads_are_started_with_what_was_said() {
    let mut c = Controller::with_transport(PersistedState::default());
    c.state.connected = true;
    c.state.add_project("project".into(), 1);
    c.state.new_thread(2).unwrap();
    let mut said = ConversationItem::new("a", ItemKind::Assistant, "Codex");
    said.body = "Earlier answer".into();
    c.state.conversation.push(said);
    assert!(c.send_prompt("Next".into(), vec![], &Vec::new(), now()));
    match &c.pending.last().unwrap().call {
        PendingCall::ThreadStart { turn, .. } => {
            let text = turn.input[0].text_at("text").unwrap();
            assert!(text.contains("Assistant: Earlier answer"));
            assert!(text.ends_with("Current user request:\nNext"));
        }
        other => panic!("unexpected call: {other:?}"),
    }
}

#[test]
fn messages_that_cannot_be_sent_fail() {
    let (mut c, _) = running();
    let sent = c
        .take_actions()
        .into_iter()
        .find_map(|action| match action {
            Action::Send(message) => Some(message),
            _ => None,
        })
        .unwrap();
    c.send_failed(&sent, "closed", now());
    assert!(c.pending.is_empty());
    assert!(!c.state.active_thread_busy());
    assert_eq!(c.state.toast.as_ref().unwrap().message, "closed");
    c.send_failed(&json(r#"{"id":1,"result":{}}"#), "gone", now());
    assert_eq!(c.state.toast.as_ref().unwrap().message, "gone");
}

#[test]
fn models_and_projects_are_shown_by_name() {
    let models = vec![ModelOption {
        id: "sol".into(),
        display_name: "Sol".into(),
        description: String::new(),
        efforts: vec![],
        default_effort: "high".into(),
        is_default: true,
    }];
    assert_eq!(model_display(&models, "sol"), "Sol");
    assert_eq!(model_display(&models, ""), "Default model");
    let mut s = state();
    s.add_project("/code/first".into(), 1);
    let rows = project_rows(&s, &Vec::new());
    assert!(project_rows_match(&rows, &rows.clone()));
    s.add_project("/code/second".into(), 2);
    assert!(!project_rows_match(&rows, &project_rows(&s, &Vec::new())));
    s.new_thread(3);
    s.active_agent_mut().unwrap().effort = "low".into();
    assert_eq!(s.active_agent().effort, "low");
    s.active_local_thread = None;
    assert!(s.active_agent_mut().is_none());
}

#[test]
fn a_round_hears_so_many_messages() {
    let mut c = Controller::with_transport(PersistedState::default());
    let mut inbox = Inbox::default();
    for n in 0..ROUND_MESSAGES + 5 {
        inbox.messages.push(json(&format!(
            r#"{{"id":{n},"method":"item/commandExecution/requestApproval","params":{{}}}}"#
        )));
    }
    c.poll(inbox, now());
    assert_eq!(c.state.approval_queue.len(), ROUND_MESSAGES - 1);
}

#[test]
fn startup_lasts_while_its_calls_wait() {
    let mut c = Controller::new(PersistedState::default());
    c.start(now());
    let mut inbox = Inbox::default();
    inbox.backend_started = Some(Ok(false));
    c.poll(inbox, now());
    assert!(c.startup_in_progress());
    let reply = |id: u64, result: &str| json(&format!("{{\"id\":{id},\"result\":{result}}}"));
    c.handle_message(&reply(1, "{}"), now());
    assert!(c.startup_in_progress());
    c.handle_message(&reply(3, r#"{"data":[]}"#), now());
    assert!(c.startup_in_progress());
    c.handle_message(&reply(2, r#"{"account":{"email":"me"}}"#), now());
    assert!(c.startup_in_progress());
    c.handle_message(
        &json(r#"{"id":4,"error":{"message":"no limits"}}"#),
        now(),
    );
    assert!(!c.startup_in_progress());
    c.refresh_plan_usage(now());
    assert!(!c.startup_in_progress());
}

#[test]
fn losing_the_connection_interrupts_background_threads() {
    let (mut c, local) = running();
    c.state.conversation.push(ConversationItem::new("w", ItemKind::Command, "work"));
    c.state.new_thread(9).unwrap();
    c.handle_notification("backend/exited", &json(r#"{"message":"EOF"}"#), now());
    let thread = c.state.threads.iter().find(|thread| thread.id == local).unwrap();
    assert_eq!(thread.messages.last().unwrap().status, "interrupted");
}

#[test]
fn projects_are_named_by_the_rules_of_the_system() {
    let mut s = state();
    s.add_project(r"C:\Code\First".into(), 1);
    assert_eq!(s.projects[0].name, r"C:\Code\First");
    let mut c = Controller::new(PersistedState::default());
    c.state.windows_paths = true;
    c.state.add_project(r"C:\Code\First".into(), 1);
    assert_eq!(c.state.projects[0].name, "First");
    c.restore_history(PersistedState::default(), now());
    assert!(c.state.windows_paths);
}

#[test]
fn changes_are_shown_from_lines_or_from_records() {
    let mut c = Controller::new(PersistedState::default());
    c.state.git_diff = " M src/main.rs\n".into();
    let ui = sync_ui(&c, "", true, 10);
    assert_eq!(ui.workspace.changes[0].path, "src/main.rs");
    assert!(recorded_workspace(&c.state).is_none());
    c.state.git_diff =
        r#"[{"index":"R","original_path":"a -> b","path":"c.txt","worktree":" "}]"#.into();
    let workspace = recorded_workspace(&c.state).unwrap();
    assert_eq!(workspace.changes[0].path, "c.txt");
    assert_eq!(workspace.staged_change_count, 1);
    let ui = sync_ui(&c, "", true, 10);
    assert_ne!(ui.workspace.changes[0].path, "c.txt");
}

#[test]
fn tables_hold_each_key_once() {
    let mut table: Table<u64> = Table::new();
    table.insert("a".to_owned(), 1);
    table.insert("b".to_owned(), 2);
    table.insert("a".to_owned(), 3);
    assert_eq!(table.len(), 2);
    assert_eq!(table.get("a"), Some(&3));
    assert_eq!(table.take("a"), Some(3));
    assert!(!table.contains_key("a"));
    table.remove("b");
    assert!(table.is_empty());
}
