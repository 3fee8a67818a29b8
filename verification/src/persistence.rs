//! Where local history is kept, what may replace it, and how it is recovered.
use crate::ids::new_id;
use crate::path::{file_name, is_separator, name_in_path, separates};
use crate::snapshot::{
    decode_snapshot, decoded_snapshot, StoreError, StoreErrorView,
};
use crate::store_path::{
    absolute, file_stem, is_absolute, join_path, joined_path, parent_of, parent_path, stem_length,
    with_extension, with_other_extension,
};
use crate::text::{begins, cat, chars_of, same_text, starts_with, string_of_range};
use vstd::prelude::*;
use vstd::string::*;

verus! {

/// The systems that keep application data in different places.
#[derive(Debug, Clone, Copy, PartialEq, Eq, Structural)]
pub enum Platform {
    Windows,
    Mac,
    Unix,
    Other,
}

/// What the surroundings say of where data is kept.
#[derive(Debug)]
pub struct Environment {
    pub platform: Platform,
    pub local_app_data: Option<String>,
    pub app_data: Option<String>,
    pub data_home: Option<String>,
    pub home: Option<String>,
    pub temporary: String,
    pub current: Option<String>,
}

/// A value that is set and not empty.
pub open spec fn filled(value: Option<Seq<char>>) -> Option<Seq<char>> {
    match value {
        Some(v) => if v.len() > 0 {
            Some(v)
        } else {
            None
        },
        None => None,
    }
}

fn non_empty(value: &Option<String>) -> (r: Option<String>)
    ensures
        r.deep_view() == filled(value.deep_view()),
{
    match value {
        Some(v) => if v.as_str().is_empty() {
            None
        } else {
            Some(v.clone())
        },
        None => None,
    }
}

/// The folder under which applications keep their data.
pub open spec fn state_base(env: Environment) -> Seq<char> {
    let home = filled(env.home.deep_view());
    match env.platform {
        Platform::Windows => match filled(env.local_app_data.deep_view()) {
            Some(v) => v,
            None => match filled(env.app_data.deep_view()) {
                Some(v) => v,
                None => env.temporary@,
            },
        },
        Platform::Mac => match home {
            Some(v) => joined_path(
                joined_path(v, "Library"@, false),
                "Application Support"@,
                false,
            ),
            None => env.temporary@,
        },
        Platform::Unix => match filled(env.data_home.deep_view()) {
            Some(v) => v,
            None => match home {
                Some(v) => joined_path(joined_path(v, ".local"@, false), "share"@, false),
                None => env.temporary@,
            },
        },
        Platform::Other => env.temporary@,
    }
}

pub fn state_base_dir(env: &Environment) -> (r: String)
    ensures
        r@ == state_base(*env),
{
    match env.platform {
        Platform::Windows => match non_empty(&env.local_app_data) {
            Some(v) => v,
            None => match non_empty(&env.app_data) {
                Some(v) => v,
                None => env.temporary.clone(),
            },
        },
        Platform::Mac => match non_empty(&env.home) {
            Some(v) => join_path(
                join_path(v.as_str(), "Library", false).as_str(),
                "Application Support",
                false,
            ),
            None => env.temporary.clone(),
        },
        Platform::Unix => match non_empty(&env.data_home) {
            Some(v) => v,
            None => match non_empty(&env.home) {
                Some(v) => join_path(
                    join_path(v.as_str(), ".local", false).as_str(),
                    "share",
                    false,
                ),
                None => env.temporary.clone(),
            },
        },
        Platform::Other => env.temporary.clone(),
    }
}

/// The name of the application's own folder.
pub open spec fn directory_name(platform: Platform) -> Seq<char> {
    match platform {
        Platform::Windows | Platform::Mac => "Ferro Code"@,
        _ => "ferro-code"@,
    }
}

pub fn state_directory_name(platform: Platform) -> (r: &'static str)
    ensures
        r@ == directory_name(platform),
{
    match platform {
        Platform::Windows | Platform::Mac => "Ferro Code",
        _ => "ferro-code",
    }
}

/// Where earlier releases kept their state.
pub open spec fn legacy_path(env: Environment) -> Seq<char> {
    match env.platform {
        Platform::Windows => joined_path(
            joined_path(state_base(env), "CodeAgent"@, true),
            "state.json"@,
            true,
        ),
        _ => joined_path(
            joined_path(
                match env.current.deep_view() {
                    Some(v) => v,
                    None => env.temporary@,
                },
                "Ferro Code"@,
                false,
            ),
            "state.json"@,
            false,
        ),
    }
}

fn legacy_state_path(env: &Environment, base: &str) -> (r: String)
    requires
        base@ == state_base(*env),
    ensures
        r@ == legacy_path(*env),
{
    match env.platform {
        Platform::Windows => {
            let folder = join_path(base, "CodeAgent", true);
            join_path(folder.as_str(), "state.json", true)
        },
        _ => {
            let current = match &env.current {
                Some(v) => v.clone(),
                None => env.temporary.clone(),
            };
            let folder = join_path(current.as_str(), "Ferro Code", false);
            join_path(folder.as_str(), "state.json", false)
        },
    }
}

/// The file in which history is kept, and one that is read while that is
/// missing.
#[derive(Debug)]
pub struct LocalStore {
    pub path: String,
    pub legacy_path: Option<String>,
    pub windows: bool,
}

/// A path beside the state file, with another extension.
pub open spec fn beside(store: LocalStore, extension: Seq<char>) -> Seq<char> {
    with_other_extension(store.path@, extension, store.windows)
}

/// The folder of a path, the current one where it has none.
pub open spec fn folder_of(path: Seq<char>, windows: bool) -> Seq<char> {
    match parent_of(path, windows) {
        Some(folder) => folder,
        None => "."@,
    }
}

fn folder(path: &str, windows: bool) -> (r: String)
    ensures
        r@ == folder_of(path@, windows),
{
    match parent_path(path, windows) {
        Some(folder) => folder,
        None => ".".to_owned(),
    }
}

/// The folder of the attached files of a store.
pub open spec fn attachments_folder(store: LocalStore) -> Seq<char> {
    joined_path(folder_of(store.path@, store.windows), "attachments"@, store.windows)
}

/// What is to be done with a file that is attached.
#[derive(Debug)]
pub enum AttachmentPlan {
    /// It is already among the attached files.
    Keep,
    /// It is copied into a folder of its own.
    Copy { folder: String, target: String },
}

impl LocalStore {
    /// The store of this machine.
    pub fn discover(env: &Environment) -> (r: LocalStore)
        ensures
            r.windows == (env.platform is Windows),
            r.path@ == joined_path(
                joined_path(state_base(*env), directory_name(env.platform), r.windows),
                "state.json"@,
                r.windows,
            ),
            r.legacy_path.deep_view() == Some(legacy_path(*env)),
    {
        let windows = match env.platform {
            Platform::Windows => true,
            _ => false,
        };
        let base = state_base_dir(env);
        let folder = join_path(base.as_str(), state_directory_name(env.platform), windows);
        LocalStore {
            path: join_path(folder.as_str(), "state.json", windows),
            legacy_path: Some(legacy_state_path(env, base.as_str())),
            windows,
        }
    }

    /// A store in a given file.
    pub fn new(path: &str, windows: bool) -> (r: LocalStore)
        ensures
            r.path@ == path@,
            r.legacy_path is None,
            r.windows == windows,
    {
        LocalStore { path: path.to_owned(), legacy_path: None, windows }
    }

    pub fn path(&self) -> (r: &str)
        ensures
            r@ == self.path@,
    {
        self.path.as_str()
    }

    /// The folder of the state file.
    pub fn folder(&self) -> (r: String)
        ensures
            r@ == folder_of(self.path@, self.windows),
    {
        folder(self.path.as_str(), self.windows)
    }

    /// The file whose lock keeps other windows out.
    pub fn lock_path(&self) -> (r: String)
        ensures
            r@ == beside(*self, "lock"@),
    {
        with_extension(self.path.as_str(), "lock", self.windows)
    }

    /// The file of the previous generation.
    pub fn backup_path(&self) -> (r: String)
        ensures
            r@ == beside(*self, "json.bak"@),
    {
        with_extension(self.path.as_str(), "json.bak", self.windows)
    }

    /// The file in which earlier releases staged a write.
    pub fn temporary_path(&self) -> (r: String)
        ensures
            r@ == beside(*self, "json.tmp"@),
    {
        with_extension(self.path.as_str(), "json.tmp", self.windows)
    }

    /// A new file in which the current state is set aside.
    pub fn preserved_path(&self) -> (r: String)
        ensures
            exists|id: Seq<char>|
                id.len() == 46 && id.take(10) == "preserved-"@ && r@ == beside(
                    *self,
                    #[trigger] (id + ".json"@),
                ),
    {
        let id = new_id("preserved");
        proof {
            reveal_strlit("preserved");
            reveal_strlit("preserved-");
            reveal_strlit("-");
            assert("preserved"@ + "-"@ =~= "preserved-"@);
        }
        let extension = cat(id.as_str(), ".json");
        let r = with_extension(self.path.as_str(), extension.as_str(), self.windows);
        assert(r@ == beside(*self, id@ + ".json"@));
        r
    }

    pub fn attachments_dir(&self) -> (r: String)
        ensures
            r@ == attachments_folder(*self),
    {
        let folder = self.folder();
        join_path(folder.as_str(), "attachments", self.windows)
    }

    /// Where an attached file goes, given whether it is already among the
    /// attached files.
    pub fn plan_attachment(&self, source: &str, inside: bool) -> (r: Result<
        AttachmentPlan,
        StoreError,
    >)
        ensures
            match r {
                Ok(AttachmentPlan::Keep) => inside,
                Ok(AttachmentPlan::Copy { folder, target }) => {
                    &&& !inside
                    &&& name_in_path(source@, self.windows) is Some
                    &&& target@ == joined_path(folder@, name_in_path(source@, self.windows)->0, self.windows)
                    &&& exists|id: Seq<char>|
                        id.len() == 41 && id.take(5) == "file-"@ && folder@
                            == #[trigger] joined_path(attachments_folder(*self), id, self.windows)
                },
                Err(error) => !inside && name_in_path(source@, self.windows) is None && error.deep_view()
                    == StoreErrorView::Io("Attachment has no filename"@),
            },
    {
        if inside {
            return Ok(AttachmentPlan::Keep);
        }
        match file_name(source, self.windows) {
            Some(name) => {
                let id = new_id("file");
                proof {
                    reveal_strlit("file");
                    reveal_strlit("file-");
                    reveal_strlit("-");
                    assert("file"@ + "-"@ =~= "file-"@);
                }
                let folder = join_path(
                    self.attachments_dir().as_str(),
                    id.as_str(),
                    self.windows,
                );
                let target = join_path(folder.as_str(), name.as_str(), self.windows);
                assert(folder@ == joined_path(attachments_folder(*self), id@, self.windows));
                Ok(AttachmentPlan::Copy { folder, target })
            },
            None => Err(StoreError::Io("Attachment has no filename".to_owned())),
        }
    }

    /// Where the files of an exported history go: beside the export, in a
    /// folder that has its name. The real paths of the export, of the state and
    /// of its previous generation are given; history does not export over
    /// itself.
    pub fn export(
        &self,
        target: &str,
        real_target: &Option<String>,
        real_state: &Option<String>,
        real_backup: &Option<String>,
    ) -> (r: Result<LocalStore, StoreError>)
        ensures
            match r {
                Ok(files) => {
                    &&& !names_history(
                        real_target.deep_view(),
                        real_state.deep_view(),
                        real_backup.deep_view(),
                    )
                    &&& files.path@ == export_files(target@, self.windows)
                    &&& files.legacy_path is None
                    &&& files.windows == self.windows
                },
                Err(error) => names_history(
                    real_target.deep_view(),
                    real_state.deep_view(),
                    real_backup.deep_view(),
                ) && error.deep_view() == StoreErrorView::Io(
                    "Choose an export path outside the active history files"@,
                ),
            },
    {
        if let (Some(target), Some(primary)) = (real_target, real_state) {
            let is_backup = match real_backup {
                Some(backup) => same_text(target.as_str(), backup.as_str()),
                None => target.as_str().is_empty(),
            };
            if same_text(target.as_str(), primary.as_str()) || is_backup {
                return Err(
                    StoreError::Io(
                        "Choose an export path outside the active history files".to_owned(),
                    ),
                );
            }
        }
        let stem = match file_name(target, self.windows) {
            Some(name) => file_stem(name.as_str()),
            None => String::new(),
        };
        let name = cat(stem.as_str(), ".files");
        let outer = folder(target, self.windows);
        let inner = join_path(outer.as_str(), name.as_str(), self.windows);
        let path = join_path(inner.as_str(), "state.json", self.windows);
        Ok(LocalStore::new(path.as_str(), self.windows))
    }

    /// What is read at first: the state file, while it is missing the one of an
    /// earlier release, and nothing while that is missing too.
    pub fn load(&self, state: FileReading, legacy: FileReading) -> (r: LoadSource)
        ensures
            r == load_source(state, self.legacy_path is Some, legacy),
    {
        if state != FileReading::Missing {
            LoadSource::State
        } else if self.legacy_path.is_some() && legacy != FileReading::Missing {
            LoadSource::Legacy
        } else {
            LoadSource::Defaults
        }
    }

    /// How history is saved over what the state file holds, given whether that
    /// could be read as a state.
    pub fn save(
        &self,
        existing: Option<Vec<u8>>,
        readable: Result<(), String>,
        snapshot: Vec<u8>,
    ) -> (r: Result<Vec<FileWrite>, StoreError>)
        ensures
            match r {
                Ok(steps) => save_steps(
                    bytes_view(existing),
                    readable_view(readable),
                    snapshot@,
                ) == Ok::<_, StoreErrorView>(steps.deep_view()),
                Err(error) => save_steps(
                    bytes_view(existing),
                    readable_view(readable),
                    snapshot@,
                ) == Err::<Seq<FileWriteView>, _>(error.deep_view()),
            },
    {
        let mut steps: Vec<FileWrite> = Vec::new();
        match existing {
            Some(previous) => {
                match decode_snapshot(previous.as_slice()) {
                    Err(error) => return Err(error),
                    Ok(_) => {},
                }
                match readable {
                    Err(message) => return Err(StoreError::Json(message)),
                    Ok(_) => {},
                }
                let ghost bytes = previous@;
                steps.push(FileWrite::Backup(previous));
                steps.push(FileWrite::State(snapshot));
                assert(steps.deep_view() =~= seq![
                    FileWriteView::Backup(bytes),
                    FileWriteView::State(snapshot@),
                ]);
            },
            None => {
                steps.push(FileWrite::State(snapshot));
                assert(steps.deep_view() =~= seq![FileWriteView::State(snapshot@)]);
            },
        }
        Ok(steps)
    }
}

/// How reading a file went.
#[derive(Debug, Clone, Copy, PartialEq, Eq, Structural)]
pub enum FileReading {
    Found,
    Missing,
    Failed,
}

/// What history is loaded from.
#[derive(Debug, Clone, Copy, PartialEq, Eq, Structural)]
pub enum LoadSource {
    State,
    Legacy,
    Defaults,
}

pub open spec fn load_source(state: FileReading, has_legacy: bool, legacy: FileReading) -> LoadSource {
    if state != FileReading::Missing {
        LoadSource::State
    } else if has_legacy && legacy != FileReading::Missing {
        LoadSource::Legacy
    } else {
        LoadSource::Defaults
    }
}

/// The name of a file without its extension.
pub open spec fn stem_of(path: Seq<char>, windows: bool) -> Seq<char> {
    match name_in_path(path, windows) {
        Some(name) => name.take(stem_length(name, name.len() as int)),
        None => Seq::empty(),
    }
}

/// The store for the files of an exported history.
pub open spec fn export_files(target: Seq<char>, windows: bool) -> Seq<char> {
    joined_path(
        joined_path(folder_of(target, windows), stem_of(target, windows) + ".files"@, windows),
        "state.json"@,
        windows,
    )
}

/// A path as seen from a folder that it stands in.
pub open spec fn seen_from(path: Seq<char>, folder: Seq<char>, windows: bool) -> Seq<char> {
    let rest = path.skip(folder.len() as int);
    if folder.len() == 0 || !begins(path, folder) {
        path
    } else if separates(folder.last(), windows) {
        rest
    } else if rest.len() > 0 && separates(rest[0], windows) {
        rest.skip(1)
    } else {
        path
    }
}

/// The path by which an exported history refers to one of its files.
pub fn export_reference(path: &str, target: &str, windows: bool) -> (r: String)
    ensures
        r@ == seen_from(path@, folder_of(target@, windows), windows),
{
    let outer = folder(target, windows);
    let front = chars_of(outer.as_str());
    let n: usize = front.len();
    let chars = chars_of(path);
    if n == 0 || !starts_with(path, outer.as_str()) {
        return path.to_owned();
    }
    let ghost rest = path@.skip(n as int);
    if is_separator(front[n - 1], windows) {
        let r = string_of_range(&chars, n, chars.len());
        assert(r@ =~= rest);
        return r;
    }
    if chars.len() > n && is_separator(chars[n], windows) {
        let r = string_of_range(&chars, n + 1, chars.len());
        assert(r@ =~= rest.skip(1));
        return r;
    }
    path.to_owned()
}

/// Whether a file is the state or its previous generation.
pub open spec fn names_history(
    target: Option<Seq<char>>,
    primary: Option<Seq<char>>,
    backup: Option<Seq<char>>,
) -> bool {
    target is Some && primary is Some && (target == primary || match backup {
        Some(backup) => target->0 == backup,
        None => target->0.len() == 0,
    })
}

/// Where an exported file stands that a snapshot refers to: beside the
/// snapshot, unless its path is absolute.
pub open spec fn imported_from(path: Seq<char>, snapshot: Seq<char>, windows: bool) -> Seq<char> {
    if absolute(path, windows) {
        path
    } else {
        joined_path(folder_of(snapshot, windows), path, windows)
    }
}

pub fn import_source(path: &str, snapshot: &str, windows: bool) -> (r: String)
    ensures
        r@ == imported_from(path@, snapshot@, windows),
{
    if is_absolute(path, windows) {
        path.to_owned()
    } else {
        let folder = folder(snapshot, windows);
        join_path(folder.as_str(), path, windows)
    }
}

/// How reading one generation of the history went.
#[derive(Debug, Clone, Copy, PartialEq, Eq, Structural)]
pub enum Reading {
    Valid,
    Unsupported,
    Unreadable,
}

/// Which generation is used.
#[derive(Debug, Clone, Copy, PartialEq, Eq, Structural)]
pub enum Choice {
    /// What reading the state file gave, the error too.
    Primary,
    /// A saved generation takes the place of the state file, which is set aside.
    RecoverBackup,
    RecoverTemporary,
    /// A saved generation cannot be read and the state file is missing.
    FailBackup,
    FailTemporary,
}

/// Whether a saved generation is looked for at all.
pub open spec fn needs_recovery(primary: Reading, primary_exists: bool) -> bool {
    primary != Reading::Unsupported && !(primary == Reading::Valid && primary_exists)
}

/// Which generation is used. A missing state file reads as valid.
pub open spec fn chosen_generation(
    primary: Reading,
    primary_exists: bool,
    backup: Option<Reading>,
    temporary: Option<Reading>,
) -> Choice {
    if !needs_recovery(primary, primary_exists) {
        Choice::Primary
    } else if backup == Some(Reading::Valid) {
        Choice::RecoverBackup
    } else if backup is Some && primary == Reading::Valid {
        Choice::FailBackup
    } else if temporary == Some(Reading::Valid) {
        Choice::RecoverTemporary
    } else if temporary is Some && primary == Reading::Valid {
        Choice::FailTemporary
    } else {
        Choice::Primary
    }
}

/// A store while this window alone has it open.
#[derive(Debug)]
pub struct StoreSession {
    pub store: LocalStore,
}

impl StoreSession {
    /// Which generation of the history is used, given how reading each went.
    pub fn load(
        &self,
        primary: Reading,
        primary_exists: bool,
        backup: Option<Reading>,
        temporary: Option<Reading>,
    ) -> (r: Choice)
        ensures
            r == chosen_generation(primary, primary_exists, backup, temporary),
    {
        if primary == Reading::Unsupported || (primary == Reading::Valid && primary_exists) {
            return Choice::Primary;
        }
        match backup {
            Some(reading) => {
                if reading == Reading::Valid {
                    return Choice::RecoverBackup;
                }
                if primary == Reading::Valid {
                    return Choice::FailBackup;
                }
            },
            None => {},
        }
        match temporary {
            Some(reading) => {
                if reading == Reading::Valid {
                    return Choice::RecoverTemporary;
                }
                if primary == Reading::Valid {
                    return Choice::FailTemporary;
                }
            },
            None => {},
        }
        Choice::Primary
    }

    /// How history is saved, as the store says.
    pub fn save(
        &self,
        existing: Option<Vec<u8>>,
        readable: Result<(), String>,
        snapshot: Vec<u8>,
    ) -> (r: Result<Vec<FileWrite>, StoreError>)
        ensures
            match r {
                Ok(steps) => save_steps(
                    bytes_view(existing),
                    readable_view(readable),
                    snapshot@,
                ) == Ok::<_, StoreErrorView>(steps.deep_view()),
                Err(error) => save_steps(
                    bytes_view(existing),
                    readable_view(readable),
                    snapshot@,
                ) == Err::<Seq<FileWriteView>, _>(error.deep_view()),
            },
    {
        self.store.save(existing, readable, snapshot)
    }

    /// How history is replaced by a restored one.
    pub fn restore(&self, present: bool, snapshot: Vec<u8>) -> (r: Vec<FileWrite>)
        ensures
            r.deep_view() == restore_steps(present, snapshot@),
    {
        let mut steps: Vec<FileWrite> = Vec::new();
        if present {
            steps.push(FileWrite::Preserve);
        }
        steps.push(FileWrite::State(snapshot));
        assert(steps.deep_view() =~= restore_steps(present, snapshot@));
        steps
    }
}

/// A history of another version is left alone whatever else was saved, and a
/// readable one is used as it is.
pub proof fn lemma_sound_history_is_not_replaced(
    primary: Reading,
    exists_now: bool,
    backup: Option<Reading>,
    temporary: Option<Reading>,
)
    ensures
        primary == Reading::Unsupported ==> chosen_generation(
            primary,
            exists_now,
            backup,
            temporary,
        ) == Choice::Primary,
        primary == Reading::Valid && exists_now ==> chosen_generation(
            primary,
            exists_now,
            backup,
            temporary,
        ) == Choice::Primary,
{
}

/// A damaged or missing history is recovered from the previous generation where
/// that can be read.
pub proof fn lemma_damaged_history_is_recovered(
    primary: Reading,
    exists_now: bool,
    temporary: Option<Reading>,
)
    requires
        needs_recovery(primary, exists_now),
    ensures
        chosen_generation(primary, exists_now, Some(Reading::Valid), temporary)
            == Choice::RecoverBackup,
{
}

/// What a recovery is announced with.
pub fn recovery_notice() -> (r: String)
    ensures
        r@
            == "Recovered local history from a saved generation. The damaged file was preserved."@,
{
    "Recovered local history from a saved generation. The damaged file was preserved.".to_owned()
}

/// One step of replacing the history.
#[derive(Debug)]
pub enum FileWrite {
    /// The state file is copied aside.
    Preserve,
    /// The previous generation is replaced, all at once.
    Backup(Vec<u8>),
    /// The state file is replaced, all at once.
    State(Vec<u8>),
}

pub enum FileWriteView {
    Preserve,
    Backup(Seq<u8>),
    State(Seq<u8>),
}

impl DeepView for FileWrite {
    type V = FileWriteView;

    open spec fn deep_view(&self) -> FileWriteView {
        match self {
            FileWrite::Preserve => FileWriteView::Preserve,
            FileWrite::Backup(bytes) => FileWriteView::Backup(bytes@),
            FileWrite::State(bytes) => FileWriteView::State(bytes@),
        }
    }
}

/// How history is saved over what the state file holds, given whether that
/// could be read as a state: unreadable history is never replaced.
pub open spec fn save_steps(
    existing: Option<Seq<u8>>,
    readable: Result<(), Seq<char>>,
    snapshot: Seq<u8>,
) -> Result<Seq<FileWriteView>, StoreErrorView> {
    match existing {
        None => Ok(seq![FileWriteView::State(snapshot)]),
        Some(previous) => match decoded_snapshot(previous) {
            Err(error) => Err(error),
            Ok(_) => match readable {
                Err(message) => Err(StoreErrorView::Json(message)),
                Ok(_) => Ok(
                    seq![FileWriteView::Backup(previous), FileWriteView::State(snapshot)],
                ),
            },
        },
    }
}

pub open spec fn readable_view(readable: Result<(), String>) -> Result<(), Seq<char>> {
    match readable {
        Ok(_) => Ok(()),
        Err(message) => Err(message@),
    }
}

pub open spec fn bytes_view(bytes: Option<Vec<u8>>) -> Option<Seq<u8>> {
    match bytes {
        Some(bytes) => Some(bytes@),
        None => None,
    }
}

/// How history is replaced by a restored one: what is there is set aside.
pub open spec fn restore_steps(present: bool, snapshot: Seq<u8>) -> Seq<FileWriteView> {
    if present {
        seq![FileWriteView::Preserve, FileWriteView::State(snapshot)]
    } else {
        seq![FileWriteView::State(snapshot)]
    }
}

/// The files of a store.
pub struct StoredFiles {
    pub state: Option<Seq<u8>>,
    pub backup: Option<Seq<u8>>,
    pub preserved: Seq<Seq<u8>>,
}

impl StoredFiles {
    /// The files after one step.
    pub open spec fn after(self, step: FileWriteView) -> StoredFiles {
        match step {
            FileWriteView::Preserve => match self.state {
                Some(bytes) => StoredFiles { preserved: self.preserved.push(bytes), ..self },
                None => self,
            },
            FileWriteView::Backup(bytes) => StoredFiles { backup: Some(bytes), ..self },
            FileWriteView::State(bytes) => StoredFiles { state: Some(bytes), ..self },
        }
    }

    /// The files after the first steps of a plan.
    pub open spec fn after_steps(self, steps: Seq<FileWriteView>, n: int) -> StoredFiles
        decreases n,
    {
        if n <= 0 {
            self
        } else {
            self.after_steps(steps, n - 1).after(steps[n - 1])
        }
    }
}

/// However far a save gets, the state file holds either what it held or the
/// new history, and what it held is then the previous generation.
pub proof fn lemma_save_keeps_previous_generation(
    files: StoredFiles,
    readable: Result<(), Seq<char>>,
    snapshot: Seq<u8>,
    steps: Seq<FileWriteView>,
    n: int,
)
    requires
        save_steps(files.state, readable, snapshot) == Ok::<_, StoreErrorView>(steps),
        0 <= n <= steps.len(),
    ensures
        files.after_steps(steps, n).state == files.state || files.after_steps(steps, n).state
            == Some(snapshot),
        n == steps.len() ==> files.after_steps(steps, n).state == Some(snapshot),
        n == steps.len() && files.state is Some ==> files.after_steps(steps, n).backup
            == files.state,
        n < steps.len() ==> files.after_steps(steps, n).state == files.state,
{
    reveal_with_fuel(StoredFiles::after_steps, 3);
}

/// However far a restore gets, the state file holds either what it held or the
/// restored history, and what it held has then been set aside.
pub proof fn lemma_restore_preserves_history(files: StoredFiles, snapshot: Seq<u8>, n: int)
    requires
        0 <= n <= restore_steps(files.state is Some, snapshot).len(),
    ensures
        ({
            let steps = restore_steps(files.state is Some, snapshot);
            let after = files.after_steps(steps, n);
            &&& n == steps.len() ==> after.state == Some(snapshot)
            &&& n < steps.len() ==> after.state == files.state
            &&& n == steps.len() && files.state is Some ==> after.preserved
                == files.preserved.push(files.state->0)
        }),
{
    reveal_with_fuel(StoredFiles::after_steps, 3);
}

/// A save over history that cannot be read is refused.
pub proof fn lemma_unreadable_history_is_not_replaced(
    previous: Seq<u8>,
    readable: Result<(), Seq<char>>,
    snapshot: Seq<u8>,
)
    requires
        decoded_snapshot(previous) is Err || readable is Err,
    ensures
        save_steps(Some(previous), readable, snapshot) is Err,
{
}

/// What a writer does with a request.
#[derive(Debug, Clone, Copy, PartialEq, Eq, Structural)]
pub enum WriterTask {
    Restore,
    Save,
    Refuse,
}

/// The one writer of a store. It is paused while the history could not be
/// read.
#[derive(Debug)]
pub struct PersistenceWorker {
    pub writable: bool,
}

/// What is said of a save that is refused.
pub fn paused_text() -> (r: String)
    ensures
        r@ == "History saving is paused. Restore a valid backup in Settings."@,
{
    "History saving is paused. Restore a valid backup in Settings.".to_owned()
}

pub open spec fn writer_task(writable: bool, restore: bool) -> WriterTask {
    if restore {
        WriterTask::Restore
    } else if writable {
        WriterTask::Save
    } else {
        WriterTask::Refuse
    }
}

/// Whether the writer may save after requests: each with whether it restores,
/// and whether it succeeded.
pub open spec fn writable_after(writable: bool, requests: Seq<(bool, bool)>) -> bool
    decreases requests.len(),
{
    if requests.len() == 0 {
        writable
    } else {
        writable_after(writable, requests.drop_last()) || (requests.last().0 && requests.last().1)
    }
}

impl PersistenceWorker {
    pub fn task(&self, restore: bool) -> (r: WriterTask)
        ensures
            r == writer_task(self.writable, restore),
    {
        if restore {
            WriterTask::Restore
        } else if self.writable {
            WriterTask::Save
        } else {
            WriterTask::Refuse
        }
    }

    pub fn finished(&mut self, restore: bool, success: bool)
        ensures
            final(self).writable == writable_after(old(self).writable, seq![(restore, success)]),
    {
        proof {
            reveal_with_fuel(writable_after, 2);
            assert(seq![(restore, success)].drop_last() =~= Seq::empty());
        }
        if restore && success {
            self.writable = true;
        }
    }
}

/// A paused writer saves again exactly once a restore has succeeded.
pub proof fn lemma_paused_until_restored(requests: Seq<(bool, bool)>)
    ensures
        writer_task(writable_after(false, requests), false) == WriterTask::Save <==> requests.contains(
            (true, true),
        ),
    decreases requests.len(),
{
    if requests.len() > 0 {
        let rest = requests.drop_last();
        lemma_paused_until_restored(rest);
        if rest.contains((true, true)) {
            let k = choose|k: int| 0 <= k < rest.len() && rest[k] == (true, true);
            assert(requests[k] == (true, true));
        }
        if requests.contains((true, true)) && requests.last() != (true, true) {
            let k = choose|k: int| 0 <= k < requests.len() && requests[k] == (true, true);
            assert(rest[k] == (true, true));
        }
        if requests.last() == (true, true) {
            assert(requests[requests.len() - 1] == (true, true));
        }
    }
}

} // verus!
