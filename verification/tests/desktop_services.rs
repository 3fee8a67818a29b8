use ferro_code::attachments::{attachment_rows, PreviewIndex, PREVIEW_LIMIT};
use ferro_code::controller::{Action, Controller, Moment};
use ferro_code::launcher::{
    choose_method, first_found, mac_methods, opened_text, unix_methods, windows_methods,
    MacPrograms, OpenMethod, UnixPrograms, WindowsPrograms,
};
use ferro_code::model::{ModelOption, PersistedState, SandboxChoice};
use ferro_code::model::ApprovalChoice;
use ferro_code::services::{
    copied_text, exported_text, final_save_warning, load_warning, tell_job_asked, Completed,
    CopiedText, FileJob, SaveResult, Saving,
};
use ferro_code::update::{check_outcome, command_error, install_outcome, parse_available_version};
use ferro_code::window_chrome::{
    caption_command, caption_hit_test, hit_test, menu_entry_enabled, resize_hit_test,
    scaled_pixels, system_menu_anchor, unpack_point, CaptionCommand, Chrome, ChromeAction,
    ChromeEvent, Hit, MenuEntry,
};

fn now() -> Moment {
    Moment {
        seconds: 1_000,
        millis: 1_000_000,
        ticks: 5_000,
    }
}

fn model(id: &str, name: &str, efforts: &[&str], default_effort: &str) -> ModelOption {
    ModelOption {
        id: id.into(),
        display_name: name.into(),
        description: String::new(),
        is_default: false,
        default_effort: default_effort.into(),
        efforts: efforts.iter().map(|effort| effort.to_string()).collect(),
    }
}

fn controller() -> Controller {
    let mut controller = Controller::new(PersistedState::default());
    controller.state.models = vec![
        model("sol", "Sol", &["low", "high"], "high"),
        model("luna", "Luna", &["medium"], "medium"),
    ];
    controller
}

#[test]
fn defaults_are_chosen_by_display_name() {
    let mut c = controller();
    c.state.prefs.effort = "high".into();
    c.state.select_default_model("Sol");
    assert_eq!(c.state.prefs.model, "sol");
    assert_eq!(c.state.prefs.effort, "high");
    c.state.select_default_model("Luna");
    assert_eq!(c.state.prefs.effort, "medium");
    let revision = c.state.revision;
    c.state.select_default_model("Nothing");
    assert_eq!(c.state.prefs.model, "luna");
    assert_eq!(c.state.revision, revision);
    c.state.select_default_effort("xhigh");
    assert_eq!(c.state.prefs.effort, "xhigh");
    c.state.select_default_sandbox(SandboxChoice::FullAccess.label());
    assert_eq!(c.state.prefs.sandbox, SandboxChoice::FullAccess);
    c.state.select_default_sandbox("nothing");
    assert_eq!(c.state.prefs.sandbox, SandboxChoice::WorkspaceWrite);
    c.state.select_approval(ApprovalChoice::Never.label());
    assert_eq!(c.state.prefs.approval, ApprovalChoice::Never);
    c.state.select_approval("nothing");
    assert_eq!(c.state.prefs.approval, ApprovalChoice::OnRequest);
}

#[test]
fn summaries_prefer_the_low_effort() {
    let mut c = controller();
    c.state.prefs.summary_effort = "medium".into();
    c.state.select_summary_model("Sol");
    assert_eq!(c.state.prefs.summary_model, "sol");
    assert_eq!(c.state.prefs.summary_effort, "low");
    c.state.select_summary_model("Luna");
    assert_eq!(c.state.prefs.summary_effort, "medium");
    c.state.select_summary_effort("high");
    assert_eq!(c.state.prefs.summary_effort, "high");
}

#[test]
fn thread_settings_leave_the_defaults_alone() {
    let mut c = controller();
    c.state.select_sandbox(SandboxChoice::ReadOnly.label());
    assert_eq!(c.state.prefs.sandbox, SandboxChoice::WorkspaceWrite);
    c.state.add_project("demo".into(), 1);
    c.state.new_thread(2);
    c.state.select_model_named("Luna");
    c.state.select_sandbox(SandboxChoice::ReadOnly.label());
    let agent = c.state.active_agent();
    assert_eq!(agent.model, "luna");
    assert_eq!(agent.sandbox, Some(SandboxChoice::ReadOnly));
    assert_eq!(c.state.prefs.sandbox, SandboxChoice::WorkspaceWrite);
    c.state.select_sandbox("nothing");
    assert_eq!(
        c.state.active_agent().sandbox,
        Some(SandboxChoice::WorkspaceWrite)
    );
}

#[test]
fn switches_are_noticed_once() {
    let mut c = controller();
    let shown = c.state.prefs.show_inspector;
    let revision = c.state.revision;
    c.state.set_inspector(shown);
    assert_eq!(c.state.revision, revision);
    c.state.set_inspector(!shown);
    assert_eq!(c.state.revision, revision + 1);
    c.state.set_visible_thread_limit(0);
    assert_eq!(c.state.prefs.visible_thread_limit, 1);
    c.state.set_visible_thread_limit(1_000);
    assert_eq!(c.state.prefs.visible_thread_limit, 100);
    c.state.set_visible_thread_limit(7);
    assert_eq!(c.state.prefs.visible_thread_limit, 7);
    c.set_respect_gitignore(true);
    assert!(c.take_actions().is_empty());
    c.set_respect_gitignore(false);
    assert!(matches!(
        c.take_actions()[0],
        Action::Inspect {
            respect_gitignore: false,
            ..
        }
    ));
}

#[test]
fn restoring_waits_for_running_tasks() {
    let mut c = controller();
    let mut saving = Saving::new(true);
    c.state.running_turns.insert("thread".into(), None);
    assert!(!saving.may_restore(&mut c.state));
    assert_eq!(
        c.state.toast.as_ref().unwrap().message,
        "Stop running tasks before restoring history."
    );
    c.state.running_turns.clear();
    assert!(saving.may_restore(&mut c.state));
    saving.restore_asked(&mut c.state, false);
    assert!(saving.enabled && !saving.restoring);
    saving.restore_asked(&mut c.state, true);
    assert!(!saving.enabled && saving.restoring);
    assert!(!saving.may_restore(&mut c.state));
    saving.complete(&mut c, Completed::Error("broken".into(), true), now());
    assert!(saving.enabled && !saving.restoring);
    assert_eq!(c.state.toast.as_ref().unwrap().message, "broken");
}

#[test]
fn restored_history_turns_saving_on() {
    let mut c = controller();
    let mut saving = Saving::new(false);
    saving.status = "damaged".into();
    saving.restore_asked(&mut c.state, true);
    let mut state = PersistedState::default();
    state.preferences.model = "restored".into();
    saving.complete(&mut c, Completed::Restored(state), now());
    assert!(saving.enabled);
    assert_eq!(saving.status, "");
    assert_eq!(c.state.prefs.model, "restored");
    assert_eq!(
        c.state.toast.as_ref().unwrap().message,
        "History restored. Previous data was preserved."
    );
    saving.complete(&mut c, Completed::Attached("draft".into(), vec!["/a".into()]), now());
    assert_eq!(c.state.drafts[0].draft.attachments, ["/a"]);
    saving.complete(&mut c, Completed::Message("done".into()), now());
    assert_eq!(c.state.toast.as_ref().unwrap().message, "done");
}

#[test]
fn each_revision_is_saved_once_and_failures_again() {
    let mut saving = Saving::new(true);
    assert!(saving.wants(3));
    saving.offered(3, false);
    assert!(saving.wants(3));
    saving.offered(3, true);
    assert!(!saving.wants(3));
    saving.saved(&SaveResult {
        revision: 3,
        result: Err("full".into()),
    });
    assert_eq!(saving.status, "History save failed: full");
    assert!(saving.wants(3));
    saving.saved(&SaveResult {
        revision: 3,
        result: Ok(()),
    });
    assert_eq!(saving.status, "");
    assert!(!Saving::new(false).wants(3));
}

#[test]
fn background_work_is_announced() {
    let mut c = controller();
    tell_job_asked(&mut c.state, FileJob::Attach, true);
    assert_eq!(c.state.toast.as_ref().unwrap().message, "Preparing attachments…");
    tell_job_asked(&mut c.state, FileJob::Paste, false);
    assert_eq!(
        c.state.toast.as_ref().unwrap().message,
        "File processing is busy. Paste again after it finishes."
    );
    let revision = c.state.revision;
    tell_job_asked(&mut c.state, FileJob::Export, true);
    assert_eq!(c.state.revision, revision);
    tell_job_asked(&mut c.state, FileJob::Diagnostics, false);
    assert_eq!(
        c.state.toast.as_ref().unwrap().message,
        "File processing is busy. Try diagnostics again."
    );
    assert_eq!(exported_text(FileJob::Export, "/b"), "Backup exported to /b");
    assert_eq!(
        exported_text(FileJob::Diagnostics, "/d"),
        "Diagnostics exported to /d"
    );
    assert_eq!(
        load_warning("bad", "/s"),
        "History could not be loaded: bad. Saving is paused. Restore a backup in Settings. Original: /s"
    );
    assert_eq!(
        final_save_warning("bad", "/s"),
        "bad\nThe previous saved generation is retained at /s"
    );
    assert_eq!(
        copied_text(CopiedText::Code, &Ok(())),
        "Code copied to clipboard"
    );
    assert_eq!(
        copied_text(CopiedText::Response, &Err("no".into())),
        "Could not copy response: no"
    );
}

#[test]
fn opening_requires_an_existing_project_directory() {
    let method = OpenMethod::new("Test", "unused".into(), vec![], false, false);
    let error = method
        .open("/tmp/codeagent-missing-project-folder", false)
        .unwrap_err();
    assert!(error.starts_with("Project folder does not exist:"));
}

#[test]
fn projects_are_handed_over_as_the_program_wants() {
    let editor = OpenMethod::new("Editor", "/bin/code".into(), vec!["-n".into()], true, false);
    let launch = editor.open("/work", true).unwrap();
    assert_eq!(launch.program, "/bin/code");
    assert_eq!(launch.arguments, ["-n", "/work"]);
    assert_eq!(launch.directory, None);
    let terminal = OpenMethod::new("Shell", "/bin/sh".into(), vec![], false, true);
    let launch = terminal.open("/work", true).unwrap();
    assert!(launch.arguments.is_empty());
    assert_eq!(launch.directory.as_deref(), Some("/work"));
    assert_eq!(
        terminal.launch_error("denied"),
        "Could not open project in Shell: denied"
    );
}

#[test]
fn methods_are_listed_once_and_in_order() {
    let found = |name: &str| Some(format!("/bin/{name}"));
    let unix = unix_methods(UnixPrograms {
        code: found("code"),
        codium: None,
        cursor: found("cursor"),
        files: found("xdg-open"),
        console: found("kgx"),
        gnome_terminal: None,
        konsole: found("konsole"),
        xfce_terminal: None,
        alacritty: None,
        kitty: None,
        xterm: found("xterm"),
    });
    let labels: Vec<&str> = unix.iter().map(|method| method.label()).collect();
    assert_eq!(
        labels,
        ["Visual Studio Code", "Cursor", "Files", "Terminal", "Konsole", "xterm"]
    );
    assert!(unix[2].pass_project_path);
    assert!(unix[5].use_project_as_working_directory);
    let mac = mac_methods(MacPrograms {
        open: found("open"),
        code: None,
        cursor: None,
        has_code: true,
        has_cursor: false,
        has_terminal: true,
        has_iterm: false,
    });
    assert_eq!(mac.len(), 3);
    assert_eq!(mac[0].arguments, ["-a", "Visual Studio Code"]);
    assert_eq!(mac[2].label(), "Finder");
    let windows = windows_methods(WindowsPrograms {
        code: None,
        cursor: None,
        explorer: found("explorer.exe"),
        powershell: found("pwsh.exe"),
        command_prompt: found("cmd.exe"),
        terminal: None,
    });
    assert_eq!(windows[1].arguments, ["-NoExit"]);
    assert_eq!(windows[2].arguments, ["/D", "/K"]);
    assert_eq!(choose_method(&windows, "PowerShell", Some("/work")), Ok(1));
    assert_eq!(
        choose_method(&windows, "Cursor", Some("/work")),
        Err("Cursor is not available on this machine".into())
    );
    assert_eq!(
        choose_method(&windows, "PowerShell", None),
        Err("Select a project before opening it".into())
    );
    assert_eq!(opened_text("Cursor"), "Opened project in Cursor");
    assert_eq!(
        first_found(vec![None, found("a"), found("b")]),
        Some("/bin/a".to_owned())
    );
    assert_eq!(first_found(vec![None]), None);
}

#[test]
fn the_title_bar_has_its_parts() {
    assert_eq!(scaled_pixels(46, 1_000), 46);
    assert_eq!(scaled_pixels(6, 1_250), 8);
    assert_eq!(scaled_pixels(36, 1_500), 54);
    assert_eq!(unpack_point(0x0003_fffe), (-2, 3));
    assert_eq!(unpack_point(0xffff_0005), (5, -1));
    let at = |x, y| caption_hit_test(x, y, 400, 1_000);
    assert_eq!(at(33, 10), Some(Hit::SystemMenu));
    assert_eq!(at(34, 10), Some(Hit::Caption));
    assert_eq!(at(399, 10), Some(Hit::Close));
    assert_eq!(at(354, 10), Some(Hit::Close));
    assert_eq!(at(353, 10), Some(Hit::Maximize));
    assert_eq!(at(307, 10), Some(Hit::Minimize));
    assert_eq!(at(10, 36), None);
    assert_eq!(at(400, 10), None);
}

#[test]
fn borders_resize_a_window_that_is_not_maximized() {
    let at = |x, y| resize_hit_test(x, y, 400, 300, 1_000, false);
    assert_eq!(at(0, 0), Some(Hit::TopLeft));
    assert_eq!(at(399, 5), Some(Hit::TopRight));
    assert_eq!(at(5, 294), Some(Hit::BottomLeft));
    assert_eq!(at(394, 294), Some(Hit::BottomRight));
    assert_eq!(at(0, 100), Some(Hit::Left));
    assert_eq!(at(394, 100), Some(Hit::Right));
    assert_eq!(at(100, 0), Some(Hit::Top));
    assert_eq!(at(100, 299), Some(Hit::Bottom));
    assert_eq!(at(100, 100), None);
    assert_eq!(resize_hit_test(0, 0, 400, 300, 1_000, true), None);
    assert_eq!(hit_test(0, 10, 400, 300, 1_000, true), Some(Hit::SystemMenu));
    assert_eq!(hit_test(0, 10, 400, 300, 1_000, false), Some(Hit::Left));
}

#[test]
fn title_buttons_act_where_they_were_pressed() {
    let mut chrome = Chrome { held: 0 };
    assert_eq!(
        chrome.on_event(ChromeEvent::Pressed(Some(Hit::Maximize)), false),
        ChromeAction::Capture
    );
    assert_eq!(
        chrome.on_event(ChromeEvent::Released(Some(Hit::Close)), false),
        ChromeAction::Release
    );
    assert_eq!(chrome.held, 0);
    chrome.on_event(ChromeEvent::Pressed(Some(Hit::Maximize)), true);
    assert_eq!(
        chrome.on_event(ChromeEvent::Released(Some(Hit::Maximize)), true),
        ChromeAction::ReleaseAndRun(CaptionCommand::Restore)
    );
    assert_eq!(
        chrome.on_event(ChromeEvent::ReleasedOnBar(Some(Hit::SystemMenu), None), true),
        ChromeAction::ShowMenuAtAnchor
    );
    assert_eq!(
        chrome.on_event(ChromeEvent::DoubleClicked(Some(Hit::SystemMenu)), true),
        ChromeAction::Run(CaptionCommand::Close)
    );
    assert_eq!(
        chrome.on_event(ChromeEvent::RightReleased(Some(Hit::Caption)), true),
        ChromeAction::ShowMenuAtPointer
    );
    assert_eq!(caption_command(2, false), Some(CaptionCommand::Maximize));
    assert_eq!(caption_command(0, false), None);
    assert!(menu_entry_enabled(MenuEntry::Restore, true));
    assert!(!menu_entry_enabled(MenuEntry::Move, true));
    assert!(menu_entry_enabled(MenuEntry::Close, true));
    assert_eq!(system_menu_anchor(-5, 7, 1_000), (-5, 43));
}

#[test]
fn previews_leave_in_the_order_in_which_they_came() {
    let mut index = PreviewIndex::new();
    assert!(index.wants("a"));
    index.asked("a");
    assert!(!index.wants("a"));
    assert!(index.finish("a").is_empty());
    assert!(index.is_shown("a"));
    for n in 1..PREVIEW_LIMIT {
        assert!(index.finish(&n.to_string()).is_empty());
    }
    assert_eq!(index.shown.len(), PREVIEW_LIMIT);
    assert_eq!(index.finish("last"), ["a"]);
    assert_eq!(index.shown.len(), PREVIEW_LIMIT);
    assert!(!index.is_shown("a"));
    assert!(index.is_shown("last"));
    assert!(index.wants("a"));
}

#[test]
fn attachments_are_listed_by_name() {
    let paths = vec!["/a/Photo.JPG".into(), "/a/notes.txt".into(), "..".into()];
    let rows = attachment_rows(&paths, false);
    assert_eq!(rows[0].name, "Photo.JPG");
    assert!(rows[0].image);
    assert_eq!(rows[1].index, 1);
    assert!(!rows[1].image);
    assert_eq!(rows[2].name, "Attachment");
    let odd = vec!["/a/b\\.png".to_owned()];
    assert_eq!(attachment_rows(&odd, false)[0].name, "b\\.png");
    assert!(attachment_rows(&odd, false)[0].image);
    assert_eq!(attachment_rows(&odd, true)[0].name, ".png");
    assert!(!attachment_rows(&odd, true)[0].image);
}

#[test]
fn update_reports_say_what_is_wrong() {
    assert_eq!(
        parse_available_version(b"{}"),
        Err("Codex did not include update information in its report".into())
    );
    assert_eq!(
        parse_available_version(
            br#"{"checks":{"updates.status":{"details":{"latest version status":"newer version is available","latest version":" "}}}}"#
        ),
        Err("Codex reported an update without a version number".into())
    );
    assert!(parse_available_version(b"?")
        .unwrap_err()
        .starts_with("Codex returned an unreadable update report: expected"));
    assert_eq!(
        command_error("Context", b"\n out \n", b" \n\r\n"),
        "Context: out"
    );
    assert_eq!(command_error("Context", b"out", b"\xff"), "Context: out");
    assert_eq!(command_error("Context", b"out", b" err\nmore"), "Context: err");
    assert_eq!(command_error("Context", b"", b""), "Context: unknown error");
    assert_eq!(
        check_outcome(false, b"", b"offline"),
        Err("Codex could not check for updates: offline".into())
    );
    assert_eq!(install_outcome(true, b"", b""), Ok(()));
    assert_eq!(
        install_outcome(false, b"", b""),
        Err("Codex update failed: unknown error".into())
    );
}
