use ferro_code::json::Json;
use ferro_code::json_text::parse_json;
use ferro_code::model::{
    AppHistory, ApprovalChoice, ContextWindowUsage, PlanUsage, Preferences, SandboxChoice,
    ThreadAgentSettings,
};

fn json(text: &str) -> Json {
    parse_json(text.as_bytes()).unwrap()
}

#[test]
fn a_new_history_is_empty() {
    let history = AppHistory::default();
    assert!(history.projects.is_empty());
    assert!(history.threads.is_empty());
    assert!(history.archived_threads.is_empty());
    assert!(history.drafts.is_empty());
    assert!(history.active_project.is_none());
}

#[test]
fn wire_preferences_match_codex_protocol() {
    assert_eq!(SandboxChoice::FullAccess.wire(), "danger-full-access");
    assert_eq!(ApprovalChoice::OnRequest.wire(), "on-request");
    assert_eq!(Preferences::default().summary_model, "gpt-5.6-luna");
    assert_eq!(Preferences::default().summary_effort, "low");
}

#[test]
fn thread_agent_settings_copy_defaults_without_linking_to_them() {
    let mut preferences = Preferences {
        model: "gpt-5.6-sol".into(),
        effort: "high".into(),
        ..Preferences::default()
    };

    let agent = ThreadAgentSettings::from_preferences(&preferences);
    preferences.model = "gpt-5.6-luna".into();

    assert_eq!(agent.model, "gpt-5.6-sol");
    assert_eq!(agent.effort, "high");
    assert_eq!(agent.sandbox, Some(SandboxChoice::WorkspaceWrite));
}

#[test]
fn parses_and_sorts_plan_usage() {
    let usage = PlanUsage::from_protocol(&json(
        r#"{
        "rateLimitsByLimitId": {
            "z": {"limitName":"Zeta","primary":{"usedPercent":150}},
            "a": {"limitName":"Alpha","primary":{"usedPercent":12}}
        },
        "rateLimitResetCredits":{"availableCount":3,"credits":null}
    }"#,
    ));
    assert_eq!(usage.limits[0].name, "Alpha");
    assert_eq!(usage.limits[1].primary.as_ref().unwrap().used_percent, 100);
    assert_eq!(usage.available_reset_count, 3);
    assert!(usage.reset_credits.is_none());
}

#[test]
fn rejects_zero_context_capacity() {
    assert!(
        ContextWindowUsage::from_notification(&json(
            r#"{"tokenUsage":{"last":{"totalTokens":1},"modelContextWindow":0}}"#
        ))
        .is_none()
    );
}

#[test]
fn names_of_choices_are_read_back() {
    for choice in SandboxChoice::all() {
        assert_eq!(SandboxChoice::from_wire(choice.wire()), choice);
        assert_eq!(SandboxChoice::from_label(choice.label()), Some(choice));
    }
    for choice in ApprovalChoice::all() {
        assert_eq!(ApprovalChoice::from_wire(choice.wire()), choice);
        assert_eq!(ApprovalChoice::from_label(choice.label()), Some(choice));
    }
    assert_eq!(SandboxChoice::from_label("nothing"), None);
    assert_eq!(ApprovalChoice::from_label(""), None);
}

#[test]
fn filling_settings_keeps_what_was_set() {
    let preferences = Preferences {
        model: "gpt-5.6-sol".into(),
        effort: "high".into(),
        ..Preferences::default()
    };
    let mut agent = ThreadAgentSettings::default();
    agent.effort = "low".into();
    agent.fill_missing_from(&preferences);
    assert_eq!(agent.model, "gpt-5.6-sol");
    assert_eq!(agent.effort, "low");
    assert_eq!(agent.sandbox, Some(SandboxChoice::WorkspaceWrite));
    let once = agent.clone();
    agent.fill_missing_from(&Preferences::default());
    assert_eq!(agent, once);
}

#[test]
fn context_usage_is_at_most_full() {
    let usage = ContextWindowUsage {
        used_tokens: 5,
        capacity_tokens: 4,
    };
    assert_eq!(usage.percent(), 100);
    let third = ContextWindowUsage {
        used_tokens: 1,
        capacity_tokens: 3,
    };
    assert_eq!(third.percent(), 33);
}
