use ferro_code::model::{AppHistory, ConversationItem, ItemKind, PersistedState, SandboxChoice};
use ferro_code::state::AppState;

fn state() -> AppState {
    AppState::from_persisted(PersistedState::default())
}

#[test]
fn invalid_active_ids_are_discarded() {
    let mut state = state();
    state.apply_history(AppHistory {
        projects: vec![],
        threads: vec![],
        archived_threads: vec![],
        drafts: vec![],
        active_project: Some("missing".into()),
        active_thread: Some("missing".into()),
    });
    assert!(state.active_project.is_none());
    assert!(state.active_local_thread.is_none());
}

#[test]
fn project_thread_and_conversation_lifecycle_is_stable() {
    let mut state = state();
    let project = state.add_project(r"C:\code\demo".into(), 10);
    let thread = state.new_thread(20).unwrap();
    state
        .conversation
        .push(ConversationItem::new("m", ItemKind::Assistant, "Codex"));
    state.sync_active_conversation();
    assert_eq!(state.threads[0].messages.len(), 1);
    assert_eq!(state.active_project.as_deref(), Some(project.as_str()));
    assert!(state.archive_thread(&thread));
    assert!(state.active_local_thread.is_none());
}

#[test]
fn duplicate_project_path_selects_existing_project() {
    let mut state = state();
    let first = state.add_project(r"C:\Code\Demo".into(), 1);
    let second = state.add_project(r"c:\code\demo".into(), 2);
    assert_eq!(first, second);
    assert_eq!(state.projects.len(), 1);
}

#[test]
fn project_headers_toggle_their_thread_visibility_state() {
    let mut state = state();
    let project = state.add_project(r"C:\Code\Demo".into(), 1);
    assert!(!state.projects[0].collapsed);
    assert!(state.toggle_project(&project));
    assert!(state.projects[0].collapsed);
    assert!(state.toggle_project(&project));
    assert!(!state.projects[0].collapsed);
}

#[test]
fn opening_sidebar_thread_switches_to_its_project_and_conversation() {
    let mut state = state();
    let first_project = state.add_project(r"C:\Code\First".into(), 1);
    let first_thread = state.new_thread(2).unwrap();
    state
        .conversation
        .push(ConversationItem::new("saved", ItemKind::Assistant, "Codex"));
    state.sync_active_conversation();

    state.add_project(r"C:\Code\Second".into(), 3);
    state.new_thread(4).unwrap();

    assert!(state.open_thread(&first_thread));
    assert_eq!(
        state.active_project.as_deref(),
        Some(first_project.as_str())
    );
    assert_eq!(
        state.active_local_thread.as_deref(),
        Some(first_thread.as_str())
    );
    assert_eq!(state.prefs.workspace, r"C:\Code\First");
    assert_eq!(state.conversation.len(), 1);
    assert_eq!(state.conversation[0].id, "saved");
}

#[test]
fn busy_sidebar_thread_cannot_be_archived() {
    let mut state = state();
    state.add_project(r"C:\Code\Demo".into(), 1);
    let thread = state.new_thread(2).unwrap();
    state.running_turns.insert(thread.clone(), None);

    assert!(!state.archive_thread(&thread));
    assert!(state.threads.iter().any(|candidate| candidate.id == thread));
    assert_eq!(
        state.toast.as_ref().map(|toast| toast.message.as_str()),
        Some("Stop this thread before archiving it")
    );
}

#[test]
fn new_threads_copy_defaults_and_keep_independent_agent_settings() {
    let mut state = state();
    state.prefs.model = "gpt-5.6-sol".into();
    state.prefs.effort = "high".into();
    state.prefs.sandbox = SandboxChoice::FullAccess;
    state.add_project(r"C:\Code\Demo".into(), 1);

    let first = state.new_thread(2).unwrap();
    state.prefs.model = "gpt-5.6-luna".into();
    state.prefs.effort = "low".into();
    state.prefs.sandbox = SandboxChoice::ReadOnly;
    let second = state.new_thread(3).unwrap();

    let first_agent = &state
        .threads
        .iter()
        .find(|thread| thread.id == first)
        .unwrap()
        .agent;
    assert_eq!(first_agent.model, "gpt-5.6-sol");
    assert_eq!(first_agent.effort, "high");
    assert_eq!(
        first_agent.sandbox,
        Some(SandboxChoice::FullAccess)
    );

    assert_eq!(state.active_local_thread.as_deref(), Some(second.as_str()));
    assert_eq!(state.active_agent().model, "gpt-5.6-luna");
    assert_eq!(state.active_agent().effort, "low");
}

#[test]
fn composer_changes_without_an_active_thread_do_not_replace_defaults() {
    let mut state = state();
    state.prefs.model = "gpt-5.6-sol".into();
    state.prefs.effort = "high".into();
    let efforts = vec!["low".into(), "high".into()];

    state.select_model("gpt-5.6-terra", "low", &efforts);
    state.select_effort("low");

    assert_eq!(state.prefs.model, "gpt-5.6-sol");
    assert_eq!(state.prefs.effort, "high");
}

#[test]
fn composer_model_and_effort_are_restored_per_thread() {
    let mut state = state();
    state.prefs.model = "gpt-5.6-sol".into();
    state.prefs.effort = "high".into();
    state.add_project(r"C:\Code\Demo".into(), 1);
    let first = state.new_thread(2).unwrap();
    let efforts = vec!["low".into(), "xhigh".into()];

    state.select_model("gpt-5.6-terra", "low", &efforts);
    state.select_effort("xhigh");
    let second = state.new_thread(3).unwrap();

    let first_agent = &state
        .threads
        .iter()
        .find(|thread| thread.id == first)
        .unwrap()
        .agent;
    assert_eq!(first_agent.model, "gpt-5.6-terra");
    assert_eq!(first_agent.effort, "xhigh");

    let second_agent = &state
        .threads
        .iter()
        .find(|thread| thread.id == second)
        .unwrap()
        .agent;
    assert_eq!(second_agent.model, "gpt-5.6-sol");
    assert_eq!(second_agent.effort, "high");

    let persisted = state.persisted();
    let mut restored = AppState::from_persisted(persisted);
    assert_eq!(
        restored.active_local_thread.as_deref(),
        Some(second.as_str())
    );
    assert_eq!(restored.active_agent().model, "gpt-5.6-sol");
    assert_eq!(restored.active_agent().effort, "high");

    assert!(restored.open_thread(&first));
    assert_eq!(restored.active_agent().model, "gpt-5.6-terra");
    assert_eq!(restored.active_agent().effort, "xhigh");
    assert_eq!(restored.prefs.model, "gpt-5.6-sol");
    assert_eq!(restored.prefs.effort, "high");
}
