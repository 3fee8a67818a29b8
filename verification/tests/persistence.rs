use ferro_code::ids::{new_id, same_path};
use ferro_code::json::Json;
use ferro_code::json_text::parse_json;
use ferro_code::model::{ConversationItem, Draft, DraftEntry, ItemKind, LocalThread, PersistedState};
use ferro_code::model::ThreadAgentSettings;
use ferro_code::path::{extension, file_name};
use ferro_code::persistence::{
    export_reference, import_source, paused_text, recovery_notice, AttachmentPlan, Choice,
    Environment, FileReading, FileWrite, LoadSource, LocalStore, PersistenceWorker, Platform,
    Reading, StoreSession, WriterTask,
};
use ferro_code::remap::{attachment_paths, remap_attachments};
use ferro_code::snapshot::{decode_snapshot, encode_snapshot, StoreError};
use ferro_code::store_path::{join_path, parent_path, with_extension};
use ferro_code::table::Table;

fn environment(platform: Platform) -> Environment {
    Environment {
        platform,
        local_app_data: Some(r"C:\Users\me\AppData\Local".into()),
        app_data: None,
        data_home: Some("".into()),
        home: Some("/home/me".into()),
        temporary: "/tmp".into(),
        current: Some("/work".into()),
    }
}

fn json(text: &str) -> Json {
    parse_json(text.as_bytes()).unwrap()
}

#[test]
fn discovered_store_uses_the_platform_data_directory_name() {
    for platform in [Platform::Windows, Platform::Mac] {
        let store = LocalStore::discover(&environment(platform));
        let path = store.path().replace('\\', "/");
        assert!(path.ends_with("Ferro Code/state.json"));
    }
    for platform in [Platform::Unix, Platform::Other] {
        let store = LocalStore::discover(&environment(platform));
        assert!(store.path().ends_with("ferro-code/state.json"));
    }
}

#[test]
fn stores_stand_where_the_platform_keeps_data() {
    let windows = LocalStore::discover(&environment(Platform::Windows));
    assert_eq!(
        windows.path(),
        r"C:\Users\me\AppData\Local\Ferro Code\state.json"
    );
    assert_eq!(
        windows.legacy_path.as_deref(),
        Some(r"C:\Users\me\AppData\Local\CodeAgent\state.json")
    );
    let mac = LocalStore::discover(&environment(Platform::Mac));
    assert_eq!(
        mac.path(),
        "/home/me/Library/Application Support/Ferro Code/state.json"
    );
    let unix = LocalStore::discover(&environment(Platform::Unix));
    assert_eq!(unix.path(), "/home/me/.local/share/ferro-code/state.json");
    assert_eq!(
        unix.legacy_path.as_deref(),
        Some("/work/Ferro Code/state.json")
    );
    let mut homeless = environment(Platform::Unix);
    homeless.home = None;
    homeless.current = None;
    let store = LocalStore::discover(&homeless);
    assert_eq!(store.path(), "/tmp/ferro-code/state.json");
    assert_eq!(
        store.legacy_path.as_deref(),
        Some("/tmp/Ferro Code/state.json")
    );
    homeless.data_home = Some("/data/".into());
    assert_eq!(
        LocalStore::discover(&homeless).path(),
        "/data/ferro-code/state.json"
    );
}

#[test]
fn files_stand_beside_the_state() {
    let store = LocalStore::new("/a/b/state.json", false);
    assert_eq!(store.lock_path(), "/a/b/state.lock");
    assert_eq!(store.backup_path(), "/a/b/state.json.bak");
    assert_eq!(store.temporary_path(), "/a/b/state.json.tmp");
    assert_eq!(store.attachments_dir(), "/a/b/attachments");
    assert_eq!(store.folder(), "/a/b");
    let preserved = store.preserved_path();
    assert!(preserved.starts_with("/a/b/state.preserved-"));
    assert!(preserved.ends_with(".json"));
    assert_ne!(preserved, store.preserved_path());
    assert_eq!(LocalStore::new("state", false).attachments_dir(), "attachments");
}

#[test]
fn paths_are_joined_and_taken_apart() {
    assert_eq!(join_path("", "x", false), "x");
    assert_eq!(join_path("/", "x", false), "/x");
    assert_eq!(join_path("/a", "/x", false), "/x");
    assert_eq!(join_path("C:", "x", true), "C:x");
    assert_eq!(join_path("C:/a", "x", true), "C:/a\\x");
    assert_eq!(parent_path("/a/b", false).as_deref(), Some("/a"));
    assert_eq!(parent_path("/a", false).as_deref(), Some("/"));
    assert_eq!(parent_path("/", false), None);
    assert_eq!(parent_path("", false), None);
    assert_eq!(parent_path("a", false).as_deref(), Some(""));
    assert_eq!(parent_path(r"C:\a", true).as_deref(), Some("C:\\"));
    assert_eq!(parent_path(r"C:\", true), None);
    assert_eq!(with_extension("/a.b/c", "d", false), "/a.b/c.d");
    assert_eq!(with_extension("/a/.c", "d", false), "/a/.c.d");
    assert_eq!(with_extension("/a/..", "d", false), "/a/..");
    assert_eq!(with_extension("/a/.", "d", false), "/a.d");
    assert_eq!(with_extension("/a.b/./", "d", false), "/a.d");
    assert_eq!(parent_path("a/./b", false).as_deref(), Some("a"));
    assert_eq!(parent_path(r"\\srv\share\x", true).as_deref(), Some(r"\\srv\share\"));
    assert_eq!(parent_path(r"\\srv\share", true), None);
    assert_eq!(parent_path("C:x", true).as_deref(), Some("C:"));
    assert_eq!(join_path(r"C:\a", r"\x", true), r"C:\x");
    assert_eq!(join_path(r"\\srv\share\a", "/x", true), r"\\srv\share/x");
    assert_eq!(join_path(r"C:\a", r"\\srv", true), r"C:\\srv");
    assert_eq!(parent_path(r"\\srv", true).as_deref(), Some(r"\"));
    assert_eq!(file_name(r"\\srv", true).as_deref(), Some("srv"));
    assert_eq!(join_path(r"C:\a", "D:x", true), "D:x");
    assert_eq!(join_path("/a", "D:x", false), "/a/D:x");
    assert_eq!(join_path("/a", r"\x", false), r"/a/\x");
}

#[test]
fn names_follow_the_rules_of_the_system() {
    assert_eq!(file_name(r"a\b", false).as_deref(), Some(r"a\b"));
    assert_eq!(file_name(r"a\b", true).as_deref(), Some("b"));
    assert_eq!(file_name("C:", false).as_deref(), Some("C:"));
    assert_eq!(file_name("C:", true), None);
    assert_eq!(file_name("C:x", true).as_deref(), Some("x"));
    assert_eq!(file_name(r"\\srv\share", true), None);
    assert_eq!(file_name(r"\\srv\share\x", true).as_deref(), Some("x"));
    assert_eq!(file_name("/a/b/.", false).as_deref(), Some("b"));
    assert_eq!(file_name("/a/..", false), None);
    assert_eq!(extension(r"x\.png", false).as_deref(), Some("png"));
    assert_eq!(extension(r"x\.png", true), None);
}

#[test]
fn snapshots_are_read_back() {
    let state = json(r#"{"history":{"projects":[{"id":"p","name":"Δemo"}]},"preferences":{}}"#);
    let bytes = encode_snapshot(state.clone());
    assert!(bytes.starts_with(b"{\n  \"schema_version\": 1,\n  \"state\": {"));
    assert_eq!(decode_snapshot(&bytes).unwrap(), state);
}

#[test]
fn snapshots_without_a_version_are_read() {
    let state = json(r#"{"preferences":{"model":"legacy-model"}}"#);
    assert_eq!(
        decode_snapshot(br#"{"preferences":{"model":"legacy-model"}}"#).unwrap(),
        state
    );
}

#[test]
fn other_files_are_no_snapshots() {
    for (text, message) in [
        ("{}", "This file is not a Ferro Code history snapshot"),
        ("[]", "This file is not a Ferro Code history snapshot"),
        (
            r#"{"schema_version":1,"state":{}}"#,
            "This file is not a Ferro Code history snapshot",
        ),
        (r#"{"schema_version":1}"#, "Missing history snapshot"),
    ] {
        match decode_snapshot(text.as_bytes()) {
            Err(StoreError::Io(found)) => assert_eq!(found, message),
            other => panic!("unexpected result: {other:?}"),
        }
    }
    assert!(matches!(
        decode_snapshot(br#"{"schema_version":99,"state":{}}"#),
        Err(StoreError::UnsupportedSchema)
    ));
    assert!(matches!(
        decode_snapshot(br#"{"schema_version":null,"state":{}}"#),
        Err(StoreError::UnsupportedSchema)
    ));
    match decode_snapshot(b"broken") {
        Err(StoreError::Json(message)) => assert!(message.contains("line 1")),
        other => panic!("unexpected result: {other:?}"),
    }
    assert_eq!(
        StoreError::UnsupportedSchema.text(),
        "History was saved by an unsupported version. Open it with a compatible Ferro Code version."
    );
    assert_eq!(StoreError::Io("gone".into()).text(), "gone");
}

#[test]
fn unreadable_history_is_not_overwritten() {
    let store = LocalStore::new("/a/state.json", false);
    let snapshot = encode_snapshot(json(r#"{"history":{}}"#));
    assert!(store
        .save(Some(b"broken".to_vec()), Ok(()), snapshot.clone())
        .is_err());
    assert!(matches!(
        store.save(Some(snapshot.clone()), Err("bad field".into()), snapshot.clone()),
        Err(StoreError::Json(message)) if message == "bad field"
    ));
    let first = store.save(None, Ok(()), snapshot.clone()).unwrap();
    assert_eq!(first.len(), 1);
    assert!(matches!(&first[0], FileWrite::State(bytes) if *bytes == snapshot));
    let next = encode_snapshot(json(r#"{"history":{"projects":[]}}"#));
    let second = store
        .save(Some(snapshot.clone()), Ok(()), next.clone())
        .unwrap();
    assert_eq!(second.len(), 2);
    assert!(matches!(&second[0], FileWrite::Backup(bytes) if *bytes == snapshot));
    assert!(matches!(&second[1], FileWrite::State(bytes) if *bytes == next));
}

#[test]
fn restored_history_sets_the_present_one_aside() {
    let session = StoreSession {
        store: LocalStore::new("/a/state.json", false),
    };
    let steps = session.restore(true, b"new".to_vec());
    assert_eq!(steps.len(), 2);
    assert!(matches!(steps[0], FileWrite::Preserve));
    assert!(matches!(&steps[1], FileWrite::State(bytes) if bytes == b"new"));
    assert_eq!(session.restore(false, b"new".to_vec()).len(), 1);
}

#[test]
fn generations_are_chosen_with_care() {
    let session = StoreSession {
        store: LocalStore::new("/a/state.json", false),
    };
    let load = |primary, exists, backup, temporary| session.load(primary, exists, backup, temporary);
    let valid = Some(Reading::Valid);
    assert_eq!(load(Reading::Valid, true, valid, valid), Choice::Primary);
    assert_eq!(
        load(Reading::Unsupported, true, valid, valid),
        Choice::Primary
    );
    assert_eq!(
        load(Reading::Unreadable, true, valid, None),
        Choice::RecoverBackup
    );
    assert_eq!(
        load(Reading::Valid, false, valid, None),
        Choice::RecoverBackup
    );
    assert_eq!(
        load(Reading::Unreadable, true, Some(Reading::Unreadable), valid),
        Choice::RecoverTemporary
    );
    assert_eq!(
        load(Reading::Valid, false, Some(Reading::Unreadable), valid),
        Choice::FailBackup
    );
    assert_eq!(
        load(Reading::Valid, false, None, Some(Reading::Unsupported)),
        Choice::FailTemporary
    );
    assert_eq!(load(Reading::Unreadable, true, None, None), Choice::Primary);
    assert_eq!(load(Reading::Valid, false, None, None), Choice::Primary);
    assert_eq!(
        recovery_notice(),
        "Recovered local history from a saved generation. The damaged file was preserved."
    );
}

#[test]
fn earlier_releases_are_read_while_there_is_no_state() {
    let mut store = LocalStore::new("/a/state.json", false);
    assert_eq!(
        store.load(FileReading::Missing, FileReading::Found),
        LoadSource::Defaults
    );
    store.legacy_path = Some("/old/state.json".into());
    assert_eq!(
        store.load(FileReading::Missing, FileReading::Found),
        LoadSource::Legacy
    );
    assert_eq!(
        store.load(FileReading::Missing, FileReading::Missing),
        LoadSource::Defaults
    );
    assert_eq!(
        store.load(FileReading::Found, FileReading::Found),
        LoadSource::State
    );
    assert_eq!(
        store.load(FileReading::Failed, FileReading::Found),
        LoadSource::State
    );
}

#[test]
fn paused_writer_requires_restore_before_it_saves() {
    let mut writer = PersistenceWorker { writable: false };
    assert_eq!(writer.task(false), WriterTask::Refuse);
    assert_eq!(
        paused_text(),
        "History saving is paused. Restore a valid backup in Settings."
    );
    assert_eq!(writer.task(true), WriterTask::Restore);
    writer.finished(true, false);
    assert_eq!(writer.task(false), WriterTask::Refuse);
    writer.finished(true, true);
    assert_eq!(writer.task(false), WriterTask::Save);
    writer.finished(false, false);
    assert_eq!(writer.task(false), WriterTask::Save);
}

#[test]
fn export_goes_beside_history_and_never_over_it() {
    let store = LocalStore::new("/a/state.json", false);
    let real = |path: &str| Some(path.to_owned());
    let files = store
        .export("/out/backup.json", &real("/out/backup.json"), &real("/a/state.json"), &None)
        .unwrap();
    assert_eq!(files.path(), "/out/backup.files/state.json");
    assert!(store
        .export("/a/state.json", &real("/a/state.json"), &real("/a/state.json"), &None)
        .is_err());
    assert!(store
        .export(
            "/x.json",
            &real("/a/state.json.bak"),
            &real("/a/state.json"),
            &real("/a/state.json.bak")
        )
        .is_err());
    assert!(store.export("/new.json", &None, &real("/a/state.json"), &None).is_ok());
    assert_eq!(
        export_reference("/out/backup.files/attachments/f/x.txt", "/out/backup.json", false),
        "backup.files/attachments/f/x.txt"
    );
    assert_eq!(export_reference("/other/x.txt", "/out/backup.json", false), "/other/x.txt");
    assert_eq!(
        import_source("backup.files/x.txt", "/moved/backup.json", false),
        "/moved/backup.files/x.txt"
    );
    assert_eq!(import_source("/abs/x.txt", "/moved/backup.json", false), "/abs/x.txt");
}

#[test]
fn attached_files_get_a_folder_of_their_own() {
    let store = LocalStore::new("/a/state.json", false);
    assert!(matches!(
        store.plan_attachment("/a/attachments/f/x.txt", true),
        Ok(AttachmentPlan::Keep)
    ));
    match store.plan_attachment("/tmp/x.txt", false) {
        Ok(AttachmentPlan::Copy { folder, target }) => {
            assert!(folder.starts_with("/a/attachments/file-"));
            assert_eq!(target, format!("{folder}/x.txt"));
        }
        other => panic!("unexpected plan: {other:?}"),
    }
    match store.plan_attachment("/tmp/..", false) {
        Err(StoreError::Io(message)) => assert_eq!(message, "Attachment has no filename"),
        other => panic!("unexpected plan: {other:?}"),
    }
}

#[test]
fn identifiers_are_random_and_have_a_prefix() {
    let first = new_id("file");
    assert_eq!(first.len(), 41);
    assert!(first.starts_with("file-"));
    assert_eq!(first.as_bytes()[19], b'4');
    assert_ne!(first, new_id("file"));
}

#[test]
fn paths_agree_by_the_rules_of_the_system() {
    assert!(same_path("C:/Code", r"c:\code", true));
    assert!(!same_path("C:/Code", r"c:\code", false));
    assert!(same_path("/a", "/a", false));
}

fn thread_with(id: &str, attachments: Vec<String>) -> LocalThread {
    let mut item = ConversationItem::new("m", ItemKind::User, "You");
    item.attachments = attachments;
    LocalThread {
        id: id.into(),
        project_id: "p".into(),
        title: "t".into(),
        created_at: 1,
        updated_at: 1,
        title_generated: false,
        messages: vec![item],
        context_usage: None,
        agent: ThreadAgentSettings::default(),
        unread_completion: false,
    }
}

#[test]
fn files_of_a_state_move_together() {
    let mut state = PersistedState::default();
    state
        .history
        .threads
        .push(thread_with("a", vec!["/x".into(), "/y".into()]));
    state
        .history
        .archived_threads
        .push(thread_with("b", vec!["/x".into()]));
    state.history.drafts.push(DraftEntry {
        key: "draft".into(),
        draft: Draft {
            text: "remember".into(),
            attachments: vec!["/z".into(), "/y".into()],
        },
    });
    assert_eq!(attachment_paths(&state), ["/x", "/y", "/z"]);
    let mut places = Table::new();
    places.insert("/x".to_owned(), "/new/x".to_owned());
    places.insert("/z".to_owned(), "/new/z".to_owned());
    remap_attachments(&mut state, &places);
    assert_eq!(
        state.history.threads[0].messages[0].attachments,
        ["/new/x", "/y"]
    );
    assert_eq!(
        state.history.archived_threads[0].messages[0].attachments,
        ["/new/x"]
    );
    assert_eq!(state.history.drafts[0].draft.attachments, ["/new/z", "/y"]);
    assert_eq!(state.history.drafts[0].draft.text, "remember");
}

#[test]
fn export_cannot_overwrite_open_history() {
    let store = LocalStore::new("/history/state.json", false);
    let path = Some(store.path().to_owned());
    assert!(store
        .export(store.path(), &path, &path, &Some(store.backup_path()))
        .is_err());
    assert!(decode_snapshot(b"{}").is_err());
}

#[test]
fn moved_exports_find_their_files() {
    for (folder, moved, windows) in [
        ("/out", "/moved/there", false),
        ("/", "/moved", false),
        (r"C:\out", r"D:\moved", true),
        (r"\\srv\share\out", r"C:\moved", true),
    ] {
        let target = join_path(folder, "backup.json", windows);
        let store = LocalStore::new("/a/state.json", windows);
        let files = store.export(&target, &None, &None, &None).unwrap();
        let copy = match files.plan_attachment("/tmp/x.txt", false) {
            Ok(AttachmentPlan::Copy { target, .. }) => target,
            other => panic!("unexpected plan: {other:?}"),
        };
        let reference = export_reference(&copy, &target, windows);
        assert!(reference.starts_with("backup.files"));
        assert_eq!(join_path(folder, &reference, windows), copy);
        let snapshot = join_path(moved, "backup.json", windows);
        assert_eq!(
            import_source(&reference, &snapshot, windows),
            join_path(moved, &reference, windows)
        );
    }
}
