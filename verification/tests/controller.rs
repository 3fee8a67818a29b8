use ferro_code::controller::poll::Inbox;
use ferro_code::controller::{Action, Controller, Moment, PendingCall, PendingEntry};
use ferro_code::json::Json;
use ferro_code::json_text::{parse_json, write_json, write_json_line};
use ferro_code::model::{ConversationItem, ItemKind, PersistedState};
use ferro_code::prompt::{attachment_input, clean_summary, conversation_context};
use ferro_code::workspace::{GitStatus, WorkspaceSnapshot};

fn json(text: &str) -> Json {
    parse_json(text.as_bytes()).unwrap()
}

fn assert_same(left: &Json, right: &Json) {
    assert_eq!(write_json(left), write_json(right));
}

fn now() -> Moment {
    Moment {
        seconds: 1_000,
        millis: 1_000_000,
        ticks: 5_000,
    }
}

fn pending(id: u64, call: PendingCall) -> PendingEntry {
    PendingEntry {
        id,
        call,
        deadline: 65_000,
    }
}

fn no_changes() -> GitStatus {
    GitStatus {
        installed: false,
        is_repository: false,
        has_changes: false,
        has_commits: false,
        has_unpushed_commits: false,
        has_github_remote: false,
        github_configured: false,
    }
}

fn connected() -> (Controller, String) {
    let mut c = Controller::with_transport(PersistedState::default());
    c.state.connected = true;
    c.state.add_project("project".into(), 1);
    let local = c.state.new_thread(2).unwrap();
    // Avoid a title-summary request in tests of the interactive turn.
    c.state
        .conversation
        .push(ConversationItem::new("previous", ItemKind::User, "User"));
    (c, local)
}

fn send(c: &mut Controller, text: &str) -> bool {
    c.send_prompt(text.into(), vec![], &Vec::new(), now())
}

/// Gathers what was sent to the backend.
fn collect(c: &mut Controller, sent: &mut Vec<Json>) {
    for action in c.take_actions() {
        if let Action::Send(message) = action {
            sent.push(message);
        }
    }
}

fn request(c: &mut Controller, sent: &mut Vec<Json>, method: &str) -> Json {
    collect(c, sent);
    sent.iter()
        .rev()
        .find(|message| message.text_at("method") == Some(method))
        .unwrap()
        .clone()
}

fn count(sent: &Vec<Json>, method: &str) -> usize {
    sent.iter()
        .filter(|message| message.text_at("method") == Some(method))
        .count()
}

fn reply(c: &mut Controller, request: &Json, result: &str) {
    let id = request.u64_at("id").unwrap();
    let message = json(&format!("{{\"id\":{id},{result}}}"));
    c.handle_message(&message, now());
}

#[test]
fn startup_waits_for_all_initial_codex_metadata() {
    let mut controller = Controller::new(PersistedState::default());
    controller.startup_in_progress = true;
    controller.pending.push(pending(1, PendingCall::Account));
    controller.pending.push(pending(2, PendingCall::Models));
    controller.pending.push(pending(3, PendingCall::RateLimits));

    controller.pending.retain(|entry| entry.id != 1);
    controller.finish_startup_if_ready();
    assert!(controller.startup_in_progress());

    controller.pending.retain(|entry| entry.id != 2);
    controller.finish_startup_if_ready();
    assert!(controller.startup_in_progress());

    controller.pending.retain(|entry| entry.id != 3);
    controller.finish_startup_if_ready();
    assert!(!controller.startup_in_progress());
}

#[test]
fn project_new_chat_switches_projects_before_creating_the_thread() {
    let mut controller = Controller::new(PersistedState::default());
    let first_project = controller.state.add_project("first".into(), 1);
    let second_project = controller.state.add_project("second".into(), 2);
    assert_eq!(
        controller.state.active_project.as_deref(),
        Some(second_project.as_str())
    );

    controller.new_thread_for_project(&first_project, now());

    assert_eq!(
        controller.state.active_project.as_deref(),
        Some(first_project.as_str())
    );
    assert_eq!(controller.state.threads.len(), 1);
    assert_eq!(controller.state.threads[0].project_id, first_project);
    assert_eq!(
        controller.state.active_local_thread.as_deref(),
        Some(controller.state.threads[0].id.as_str())
    );
}

#[test]
fn project_switch_restores_cached_workspace_without_waiting_for_refresh() {
    let mut controller = Controller::new(PersistedState::default());
    let first_project = controller.state.add_project("first".into(), 1);
    let first_thread = controller.state.new_thread(2).unwrap();
    controller.state.add_project("second".into(), 3);
    controller.state.new_thread(4).unwrap();
    controller.github_configuration = Some(false);
    controller.workspace_snapshots.insert(
        "first".into(),
        WorkspaceSnapshot {
            diff: " M cached.txt".into(),
            files: vec!["cached.txt".into()],
            git: GitStatus {
                installed: true,
                is_repository: true,
                has_changes: true,
                ..no_changes()
            },
        },
    );

    controller.open_thread(&first_thread);

    assert_eq!(
        controller.state.active_project.as_deref(),
        Some(first_project.as_str())
    );
    assert_eq!(controller.state.files, ["cached.txt"]);
    assert_eq!(controller.state.git_diff, " M cached.txt");
    assert!(!controller.state.workspace_loading);

    // Opening another thread in this project should not start another scan.
    controller.workspace_rx = false;
    let other_thread = controller.state.new_thread(5).unwrap();
    controller.open_thread(&first_thread);
    assert_eq!(
        controller.state.active_local_thread.as_deref(),
        Some(first_thread.as_str())
    );
    assert_ne!(other_thread, first_thread);
    assert!(!controller.workspace_rx);
}

#[test]
fn streamed_delta_updates_active_conversation_without_backend() {
    let mut controller = Controller::new(PersistedState::default());
    let project = controller.state.add_project("demo".into(), 1);
    let local = controller.state.new_thread(2).unwrap();
    controller
        .state
        .runtime_threads
        .insert(local.clone(), "runtime".into());
    controller.handle_notification("item/agentMessage/delta", &json(r#"{"threadId":"runtime","itemId":"agent-1","delta":"Hello"}"#), now());
    controller.handle_notification("item/agentMessage/delta", &json(r#"{"threadId":"runtime","itemId":"agent-1","delta":" world"}"#), now());
    assert_eq!(controller.state.conversation[0].body, "Hello world");
    assert_eq!(
        controller.state.active_project.as_deref(),
        Some(project.as_str())
    );
}

#[test]
fn completed_command_collapses_while_response_details_remain_visible() {
    let mut controller = Controller::new(PersistedState::default());
    controller.state.add_project("demo".into(), 1);
    let local = controller.state.new_thread(2).unwrap();
    controller
        .state
        .runtime_threads
        .insert(local, "runtime".into());
    controller.handle_notification("item/completed", &json(r#"{"threadId":"runtime","item":{"id":"cmd","type":"commandExecution","command":"cargo test","aggregatedOutput":"ok"}}"#), now());
    assert!(controller.state.conversation[0].collapsed);
    assert_eq!(controller.state.conversation[0].status, "completed");
}

#[test]
fn token_usage_notification_updates_the_matching_thread_immediately() {
    let mut controller = Controller::new(PersistedState::default());
    controller.state.add_project("demo".into(), 1);
    let local = controller.state.new_thread(2).unwrap();
    controller
        .state
        .runtime_threads
        .insert(local.clone(), "runtime".into());
    let previous_revision = controller.state.revision;

    controller.handle_notification("thread/tokenUsage/updated", &json(r#"{
            "threadId": "runtime",
            "turnId": "turn-1",
            "tokenUsage": {
                "last": {"totalTokens": 48000},
                "modelContextWindow": 120000
            }
        }"#), now());

    let usage = controller
        .state
        .threads
        .iter()
        .find(|thread| thread.id == local)
        .and_then(|thread| thread.context_usage)
        .unwrap();
    assert_eq!(usage.used_tokens, 48_000);
    assert_eq!(usage.capacity_tokens, 120_000);
    assert_eq!(usage.percent(), 40);
    assert!(controller.state.revision > previous_revision);
}

#[test]
fn server_requests_queue_approvals() {
    let mut controller = Controller::new(PersistedState::default());
    controller.handle_message(&json(r#"{"id":7,"method":"item/commandExecution/requestApproval","params":{"command":"cargo test","cwd":"demo"}}"#), now());
    assert_eq!(
        controller.state.approval.as_ref().unwrap().title,
        "Run command?"
    );
}

#[test]
fn restored_context_excludes_the_current_request_and_non_chat_items() {
    let mut prior_user = ConversationItem::new("u1", ItemKind::User, "You");
    prior_user.body = "Earlier question".into();
    let mut tool = ConversationItem::new("tool", ItemKind::Tool, "Read");
    tool.body = "internal details".into();
    let mut answer = ConversationItem::new("a1", ItemKind::Assistant, "Codex");
    answer.body = "Earlier answer".into();
    let mut current = ConversationItem::new("u2", ItemKind::User, "You");
    current.body = "Current request".into();

    let context = conversation_context(&vec![prior_user, tool, answer, current]);
    assert_eq!(
        context,
        "User: Earlier question\n\nAssistant: Earlier answer"
    );
}

#[test]
fn summary_titles_are_cleaned_for_sidebar_display() {
    assert_eq!(
        clean_summary("**Fix new-chat model defaults.**\nExtra", 70),
        "Fix new-chat model defaults"
    );
}

#[test]
fn model_discovery_fills_new_thread_defaults_and_preserves_luna_summaries() {
    let mut controller = Controller::new(PersistedState::default());
    controller.state.add_project("demo".into(), 1);
    controller.state.new_thread(2);

    controller.apply_models(&json(r#"{"data":[
        {
            "id":"gpt-5.6-sol",
            "displayName":"GPT-5.6-Sol",
            "isDefault":true,
            "defaultReasoningEffort":"high",
            "supportedReasoningEfforts":[
                {"reasoningEffort":"low"},
                {"reasoningEffort":"high"}
            ]
        },
        {
            "id":"gpt-5.6-luna",
            "displayName":"GPT-5.6-Luna",
            "defaultReasoningEffort":"low",
            "supportedReasoningEfforts":[{"reasoningEffort":"low"}]
        }
    ]}"#));

    assert_eq!(controller.state.prefs.model, "gpt-5.6-sol");
    assert_eq!(controller.state.active_agent().model, "gpt-5.6-sol");
    assert_eq!(controller.state.active_agent().effort, "high");
    assert_eq!(controller.state.prefs.summary_model, "gpt-5.6-luna");
    assert_eq!(controller.state.prefs.summary_effort, "low");
}

#[test]
fn attachments_use_the_protocol_input_for_their_file_type() {
    assert_same(
        &attachment_input(r"C:\tmp\screen.PNG", true),
        &json(r#"{"type":"localImage","path":"C:\\tmp\\screen.PNG"}"#),
    );
    assert_same(
        &attachment_input(r"C:\tmp\meeting.wav", true),
        &json(r#"{"type":"localAudio","path":"C:\\tmp\\meeting.wav"}"#),
    );
    assert_same(
        &attachment_input(r"C:\tmp\notes.pdf", true),
        &json(r#"{"type":"mention","name":"notes.pdf","path":"C:\\tmp\\notes.pdf"}"#),
    );
}

#[test]
fn sent_messages_retain_attachment_paths_for_the_ui() {
    let mut controller = Controller::new(PersistedState::default());
    controller.state.add_project("demo".into(), 1);
    controller.state.new_thread(2);
    controller.state.connected = true;

    controller.send_prompt(
        "Describe this".into(),
        vec!["/tmp/screenshot.png".into()],
        &Vec::new(),
        now(),
    );

    assert_eq!(
        controller.state.conversation[0].attachments,
        ["/tmp/screenshot.png"]
    );
    assert_eq!(controller.state.conversation[0].body, "Describe this");
}

#[test]
fn string_request_ids_queue_approval() {
    let mut c = Controller::new(PersistedState::default());
    c.handle_message(&json(r#"{"id":"request-1", "method":"item/commandExecution/requestApproval", "params":{"command":"echo hi"}}"#), now());
    assert!(c.state.approval.is_some());
}

#[test]
fn rate_limit_error_stops_loading() {
    let mut c = Controller::new(PersistedState::default());
    c.state.usage_loading = true;
    c.pending.push(pending(1, PendingCall::RateLimits));
    c.handle_message(&json(r#"{"id":1,"error":{"message":"test failure"}}"#), now());
    assert!(!c.state.usage_loading);
}

#[test]
fn late_start_response_does_not_resurrect_completed_turn() {
    let mut c = Controller::new(PersistedState::default());
    c.state.add_project("project".into(), 1);
    let id = c.state.new_thread(2).unwrap();
    c.state.runtime_threads.insert(id.clone(), "runtime".into());
    c.state.begin_turn(id.clone(), 100);
    c.turn_generations.insert(id.clone(), 1);
    c.handle_notification("turn/completed", &json(r#"{"threadId":"runtime","turn":{"id":"turn", "status":"completed"}}"#), now());
    c.handle_response(
        PendingCall::TurnStart {
            local_thread_id: id,
            generation: 1,
        },
        &json(r#"{"turn":{"id":"turn"}}"#),
        now(),
    );
    assert!(!c.state.active_thread_busy());
}

#[test]
fn failed_commands_keep_failed_status() {
    let mut c = Controller::new(PersistedState::default());
    c.state.add_project("project".into(), 1);
    let id = c.state.new_thread(2).unwrap();
    c.state.take_item(&id, &json(r#"{"id":"cmd", "type":"commandExecution", "command":"false", "status":"failed", "exitCode":1, "aggregatedOutput":""}"#), true);
    assert_eq!(c.state.conversation[0].status, "failed");
}

#[test]
fn question_edits_are_detected_by_poll() {
    let mut c = Controller::new(PersistedState::default());
    c.handle_server_request(&json(r#"{"id":1,"method":"item/tool/requestUserInput","params":{"questions":[{"id":"q","question":"Pick one"}]}}"#));
    c.set_question_answer(0, "option".into());
    assert!(
        c.poll(Inbox::default(), now()),
        "UI timer relies on poll returning true to refresh question rows"
    );
}

#[test]
fn background_file_approval_identifies_origin_project() {
    let mut c = Controller::new(PersistedState::default());
    c.state.add_project("project-a".into(), 1);
    let id = c.state.new_thread(2).unwrap();
    c.state.runtime_threads.insert(id, "runtime-a".into());
    c.state.add_project("project-b".into(), 3);
    c.handle_server_request(&json(r#"{"id":1,"method":"item/fileChange/requestApproval","params":{"threadId":"runtime-a"}}"#));
    assert!(
        c.state.approval.unwrap().detail.contains("project-a"),
        "Approval shows the foreground project instead of the requesting project"
    );
}

#[test]
fn stop_before_thread_start_prevents_turn_request() {
    let (mut c, _) = connected();
    let mut sent = Vec::new();
    assert!(send(&mut c, "hello"));
    c.interrupt(now());
    let start = request(&mut c, &mut sent, "thread/start");
    reply(&mut c, &start, r#""result":{"thread":{"id":"runtime"}}"#);
    assert!(!c.state.active_thread_busy());
    collect(&mut c, &mut sent);
    assert_eq!(count(&sent, "turn/start"), 0);
}

#[test]
fn stop_during_turn_start_interrupts_once_id_arrives() {
    let (mut c, local) = connected();
    let mut sent = Vec::new();
    c.state.runtime_threads.insert(local, "runtime".into());
    send(&mut c, "hello");
    let start = request(&mut c, &mut sent, "turn/start");
    assert_eq!(
        start.get2("params", "sandboxPolicy").unwrap().text_at("type"),
        Some("workspaceWrite")
    );
    c.interrupt(now());
    c.handle_notification("turn/started", &json(r#"{"threadId":"runtime","turn":{"id":"turn"}}"#), now());
    reply(&mut c, &start, r#""result":{"turn":{"id":"turn"}}"#);
    collect(&mut c, &mut sent);
    assert_eq!(count(&sent, "turn/interrupt"), 1);
    let stop = request(&mut c, &mut sent, "turn/interrupt");
    assert_eq!(stop.text_at2("params", "turnId"), Some("turn"));
}

#[test]
fn completed_turn_and_stale_interrupt_cannot_finish_next_turn() {
    let (mut c, local) = connected();
    let mut sent = Vec::new();
    c.state
        .runtime_threads
        .insert(local.clone(), "runtime".into());
    send(&mut c, "first");
    let first = request(&mut c, &mut sent, "turn/start");
    c.handle_notification("turn/completed", &json(r#"{"threadId":"runtime","turn":{"id":"old"}}"#), now());
    reply(&mut c, &first, r#""result":{"turn":{"id":"old"}}"#);
    assert!(!c.state.active_thread_busy());
    send(&mut c, "second");
    c.handle_notification("turn/completed", &json(r#"{"threadId":"runtime","turn":{"id":"old"}}"#), now());
    assert!(c.state.active_thread_busy());
    let second = request(&mut c, &mut sent, "turn/start");
    reply(&mut c, &second, r#""result":{"turn":{"id":"new"}}"#);
    c.handle_response(
        PendingCall::Interrupt {
            local_thread_id: local,
            turn_id: "old".into(),
        },
        &json(r#"{}"#),
        now(),
    );
    assert!(c.state.active_thread_busy());
}

#[test]
fn disconnect_clears_runtime_queues_and_marks_partial_items_interrupted() {
    let (mut c, local) = connected();
    c.state.runtime_threads.insert(local, "runtime".into());
    send(&mut c, "hello");
    c.state
        .conversation
        .push(ConversationItem::new("command", ItemKind::Command, "work"));
    c.state.usage_loading = true;
    c.handle_server_request(&json(r#"{"id":"approval","method":"item/fileChange/requestApproval","params":{"threadId":"runtime"}}"#));
    c.handle_notification("backend/exited", &json(r#"{"message":"EOF"}"#), now());
    assert!(!c.state.connected);
    assert!(c.pending.is_empty());
    assert!(c.state.runtime_threads.is_empty());
    assert!(c.state.running_turns.is_empty());
    assert!(c.state.approval.is_none());
    assert!(!c.state.usage_loading);
    assert_eq!(c.state.conversation.last().unwrap().status, "interrupted");
}

#[test]
fn expired_start_request_disconnects_instead_of_allowing_overlapping_retry() {
    let (mut c, _) = connected();
    send(&mut c, "hello");
    for entry in c.pending.iter_mut() {
        entry.deadline = now().ticks;
    }
    c.poll(Inbox::default(), now());
    assert!(!c.state.connected);
    assert!(!c.state.active_thread_busy());
}

#[test]
fn restored_attachment_is_included_in_new_runtime_turn() {
    let (mut c, _) = connected();
    let mut sent = Vec::new();
    let path = "/tmp/restored.txt".to_owned();
    c.state.conversation[0].attachments.push(path.clone());
    assert_eq!(c.attachments_to_check(), [path.clone()]);
    c.send_prompt("use that file".into(), vec![], &vec![path.clone()], now());
    let start = request(&mut c, &mut sent, "thread/start");
    reply(&mut c, &start, r#""result":{"thread":{"id":"runtime"}}"#);
    let turn = request(&mut c, &mut sent, "turn/start");
    assert!(
        turn.get2("params", "input")
            .unwrap()
            .as_array()
            .unwrap()
            .iter()
            .any(|v| write_json_line(v).contains(&path))
    );
}

#[test]
fn controller_streamed_delta_updates_active_conversation_without_backend() {
    let mut controller = Controller::new(PersistedState::default());
    let project = controller.state.add_project("demo".into(), 1);
    let local = controller.state.new_thread(2).unwrap();
    controller
        .state
        .runtime_threads
        .insert(local.clone(), "runtime".into());
    controller.handle_notification("item/agentMessage/delta", &json(r#"{"threadId":"runtime","itemId":"agent-1","delta":"Hello"}"#), now());
    controller.handle_notification("item/agentMessage/delta", &json(r#"{"threadId":"runtime","itemId":"agent-1","delta":" world"}"#), now());
    assert_eq!(controller.state.conversation[0].body, "Hello world");
    assert_eq!(
        controller.state.active_project.as_deref(),
        Some(project.as_str())
    );
}

#[test]
fn completed_command_is_collapsed() {
    let mut controller = Controller::new(PersistedState::default());
    controller.state.add_project("demo".into(), 1);
    let local = controller.state.new_thread(2).unwrap();
    controller
        .state
        .runtime_threads
        .insert(local, "runtime".into());
    controller.handle_notification("item/completed", &json(r#"{"threadId":"runtime","item":{"id":"cmd","type":"commandExecution","command":"cargo test","aggregatedOutput":"ok"}}"#), now());
    assert!(controller.state.conversation[0].collapsed);
    assert_eq!(controller.state.conversation[0].status, "completed");
}

#[test]
fn controller_server_requests_queue_approvals() {
    let mut controller = Controller::new(PersistedState::default());
    controller.handle_message(&json(r#"{"id":7,"method":"item/commandExecution/requestApproval","params":{"command":"cargo test","cwd":"demo"}}"#), now());
    assert_eq!(
        controller.state.approval.as_ref().unwrap().title,
        "Run command?"
    );
}

#[test]
fn controller_restored_context_excludes_the_current_request_and_non_chat_items() {
    let mut prior_user = ConversationItem::new("u1", ItemKind::User, "You");
    prior_user.body = "Earlier question".into();
    let mut tool = ConversationItem::new("tool", ItemKind::Tool, "Read");
    tool.body = "internal details".into();
    let mut answer = ConversationItem::new("a1", ItemKind::Assistant, "Codex");
    answer.body = "Earlier answer".into();
    let mut current = ConversationItem::new("u2", ItemKind::User, "You");
    current.body = "Current request".into();

    let context = conversation_context(&vec![prior_user, tool, answer, current]);
    assert_eq!(
        context,
        "User: Earlier question\n\nAssistant: Earlier answer"
    );
}

#[test]
fn controller_summary_titles_are_cleaned_for_sidebar_display() {
    assert_eq!(
        clean_summary("**Fix new-chat model defaults.**\nExtra", 70),
        "Fix new-chat model defaults"
    );
}

#[test]
fn controller_model_discovery_fills_new_thread_defaults_and_preserves_luna_summaries() {
    let mut controller = Controller::new(PersistedState::default());
    controller.state.add_project("demo".into(), 1);
    controller.state.new_thread(2);

    controller.apply_models(&json(r#"{"data":[
        {
            "id":"gpt-5.6-sol",
            "displayName":"GPT-5.6-Sol",
            "isDefault":true,
            "defaultReasoningEffort":"high",
            "supportedReasoningEfforts":[
                {"reasoningEffort":"low"},
                {"reasoningEffort":"high"}
            ]
        },
        {
            "id":"gpt-5.6-luna",
            "displayName":"GPT-5.6-Luna",
            "defaultReasoningEffort":"low",
            "supportedReasoningEfforts":[{"reasoningEffort":"low"}]
        }
    ]}"#));

    assert_eq!(controller.state.prefs.model, "gpt-5.6-sol");
    assert_eq!(controller.state.active_agent().model, "gpt-5.6-sol");
    assert_eq!(controller.state.active_agent().effort, "high");
    assert_eq!(controller.state.prefs.summary_model, "gpt-5.6-luna");
    assert_eq!(controller.state.prefs.summary_effort, "low");
}

#[test]
fn controller_attachments_use_the_protocol_input_for_their_file_type() {
    assert_same(
        &attachment_input(r"C:\tmp\screen.PNG", true),
        &json(r#"{"type":"localImage","path":"C:\\tmp\\screen.PNG"}"#),
    );
    assert_same(
        &attachment_input(r"C:\tmp\meeting.wav", true),
        &json(r#"{"type":"localAudio","path":"C:\\tmp\\meeting.wav"}"#),
    );
    assert_same(
        &attachment_input(r"C:\tmp\notes.pdf", true),
        &json(r#"{"type":"mention","name":"notes.pdf","path":"C:\\tmp\\notes.pdf"}"#),
    );
}

