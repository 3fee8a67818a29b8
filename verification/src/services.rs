//! What becomes of work on files that is done in the background, and when
//! history is saved.
use crate::controller::{Controller, ControllerView, Moment};
use crate::model::{DraftView, PersistedState};
use crate::state::{draft_under, AppState, AppStateView};
use crate::text::cat;
use vstd::prelude::*;
use vstd::string::*;

verus! {

/// How one save went.
#[derive(Debug)]
pub struct SaveResult {
    pub revision: u64,
    pub result: Result<(), String>,
}

/// Work that has been done.
pub enum Completed {
    Attached(String, Vec<String>),
    Restored(PersistedState),
    Message(String),
    /// What went wrong, and whether history was being restored.
    Error(String, bool),
}

/// Whether history is saved, and up to which revision it is.
#[derive(Debug)]
pub struct Saving {
    pub enabled: bool,
    pub previous: bool,
    pub restoring: bool,
    pub saved_revision: u64,
    pub status: String,
}

pub struct SavingView {
    pub enabled: bool,
    pub previous: bool,
    pub restoring: bool,
    pub saved_revision: u64,
    pub status: Seq<char>,
}

impl DeepView for Saving {
    type V = SavingView;

    open spec fn deep_view(&self) -> SavingView {
        SavingView {
            enabled: self.enabled,
            previous: self.previous,
            restoring: self.restoring,
            saved_revision: self.saved_revision,
            status: self.status@,
        }
    }
}

impl SavingView {
    /// A save has ended: one that failed is tried again.
    pub open spec fn saved(self, result: Result<(), Seq<char>>) -> SavingView {
        match result {
            Ok(_) => SavingView { status: Seq::empty(), ..self },
            Err(error) => SavingView {
                status: "History save failed: "@ + error,
                saved_revision: 0,
                ..self
            },
        }
    }

    /// A restore is under way: nothing is saved meanwhile.
    pub open spec fn restore_started(self) -> SavingView {
        SavingView { previous: self.enabled, enabled: false, restoring: true, ..self }
    }

    /// Work has been done.
    pub open spec fn after(self, completed: Completed) -> SavingView {
        match completed {
            Completed::Restored(_) => SavingView {
                enabled: true,
                restoring: false,
                status: Seq::empty(),
                ..self
            },
            Completed::Error(_, true) => SavingView {
                enabled: self.previous,
                restoring: false,
                ..self
            },
            _ => self,
        }
    }
}

impl AppStateView {
    /// Files are attached to a draft.
    pub open spec fn with_attached(self, key: Seq<char>, paths: Seq<Seq<char>>) -> AppStateView {
        self.with_draft_under(
            key,
            match draft_under(self.drafts, key) {
                Some(i) => DraftView {
                    attachments: self.drafts[i].draft.attachments + paths,
                    ..self.drafts[i].draft
                },
                None => DraftView { text: Seq::empty(), attachments: paths },
            },
        )
    }
}

impl ControllerView {
    /// Work has been done.
    #[verifier::opaque]
    pub open spec fn work_completed(self, completed: Completed, now: Moment) -> ControllerView {
        match completed {
            Completed::Attached(key, paths) => self.with_state(
                self.state.with_attached(key@, paths.deep_view()),
            ),
            Completed::Restored(state) => {
                let restored = self.history_restored(state.deep_view(), now);
                restored.with_state(
                    restored.state.with_info("History restored. Previous data was preserved."@),
                )
            },
            Completed::Message(text) => self.with_state(self.state.with_info(text@)),
            Completed::Error(text, _) => self.with_state(self.state.with_error(text@)),
        }
    }
}

/// While a restore is under way nothing is saved, and a restore that fails
/// leaves saving as it was before.
pub proof fn lemma_failed_restore_changes_nothing(saving: SavingView, error: String)
    ensures
        !saving.restore_started().enabled,
        saving.restore_started().after(Completed::Error(error, true)).enabled == saving.enabled,
        !saving.restore_started().after(Completed::Error(error, true)).restoring,
        saving.restore_started().after(Completed::Error(error, true)).saved_revision
            == saving.saved_revision,
{
}

impl Saving {
    /// Saving is on where the history could be read.
    pub fn new(writable: bool) -> (r: Saving)
        ensures
            r.deep_view() == (SavingView {
                enabled: writable,
                previous: writable,
                restoring: false,
                saved_revision: 0,
                status: Seq::empty(),
            }),
    {
        let status = String::new();
        assert(status@ =~= Seq::empty());
        Saving { enabled: writable, previous: writable, restoring: false, saved_revision: 0, status }
    }

    pub fn saved(&mut self, saved: &SaveResult)
        ensures
            final(self).deep_view() == old(self).deep_view().saved(
                match saved.result {
                    Ok(_) => Ok(()),
                    Err(error) => Err(error@),
                },
            ),
    {
        match &saved.result {
            Ok(_) => {
                self.status = String::new();
                assert(self.status@ =~= Seq::empty());
            },
            Err(error) => {
                self.status = cat("History save failed: ", error.as_str());
                self.saved_revision = 0;
            },
        }
    }

    /// Whether a revision has to be saved.
    pub fn wants(&self, revision: u64) -> (r: bool)
        ensures
            r == (self.deep_view().enabled && self.deep_view().saved_revision != revision),
    {
        self.enabled && self.saved_revision != revision
    }

    /// The writer took a revision, or was busy.
    pub fn offered(&mut self, revision: u64, taken: bool)
        ensures
            final(self).deep_view() == (SavingView {
                saved_revision: if taken {
                    revision
                } else {
                    old(self).deep_view().saved_revision
                },
                ..old(self).deep_view()
            }),
    {
        if taken {
            self.saved_revision = revision;
        }
    }

    /// Whether history may be restored now. While turns run or Git is at work
    /// it may not, and the user is told.
    pub fn may_restore(&self, state: &mut AppState) -> (r: bool)
        ensures
            r == (!self.restoring && old(state).deep_view().running_turns.len() == 0 && !old(
                state,
            ).deep_view().git_action_in_progress),
            final(state).deep_view() == if r || self.restoring {
                old(state).deep_view()
            } else {
                old(state).deep_view().with_error("Stop running tasks before restoring history."@)
            },
    {
        if self.restoring {
            return false;
        }
        if !state.running_turns.is_empty() || state.git_action_in_progress {
            state.error("Stop running tasks before restoring history.");
            return false;
        }
        true
    }

    /// A restore was asked for.
    pub fn restore_asked(&mut self, state: &mut AppState, taken: bool)
        ensures
            final(self).deep_view() == if taken {
                old(self).deep_view().restore_started()
            } else {
                old(self).deep_view()
            },
            final(state).deep_view() == if taken {
                old(state).deep_view().with_info("Restoring history…"@)
            } else {
                old(state).deep_view().with_error("File processing is busy. Try restore again."@)
            },
    {
        if taken {
            self.previous = self.enabled;
            self.enabled = false;
            self.restoring = true;
            state.info("Restoring history…");
        } else {
            state.error("File processing is busy. Try restore again.");
        }
    }

    /// Takes in work that has been done.
    pub fn complete(&mut self, controller: &mut Controller, completed: Completed, now: Moment)
        ensures
            final(self).deep_view() == old(self).deep_view().after(completed),
            final(controller).deep_view() == old(controller).deep_view().work_completed(
                completed,
                now,
            ),
    {
        proof {
            reveal(ControllerView::work_completed);
        }
        match completed {
            Completed::Attached(key, paths) => {
                controller.take_attached(key, paths);
            },
            Completed::Restored(state) => {
                controller.take_restored(state, now);
                self.enabled = true;
                self.restoring = false;
                self.status = String::new();
                assert(self.status@ =~= Seq::empty());
            },
            Completed::Message(text) => {
                controller.tell(text.as_str());
            },
            Completed::Error(text, restore) => {
                if restore {
                    self.enabled = self.previous;
                    self.restoring = false;
                }
                controller.tell_error(text.as_str());
            },
        }
    }
}

impl Controller {
    fn take_attached(&mut self, key: String, paths: Vec<String>)
        ensures
            final(self).deep_view() == old(self).deep_view().with_state(
                old(self).deep_view().state.with_attached(key@, paths.deep_view()),
            ),
    {
        self.state.attach_to_draft(key, paths);
    }

    fn take_restored(&mut self, state: PersistedState, now: Moment)
        ensures
            final(self).deep_view() == ({
                let restored = old(self).deep_view().history_restored(state.deep_view(), now);
                restored.with_state(
                    restored.state.with_info("History restored. Previous data was preserved."@),
                )
            }),
    {
        self.restore_history(state, now);
        self.state.info("History restored. Previous data was preserved.");
    }

    fn tell(&mut self, text: &str)
        ensures
            final(self).deep_view() == old(self).deep_view().with_state(
                old(self).deep_view().state.with_info(text@),
            ),
    {
        self.state.info(text);
    }

    fn tell_error(&mut self, text: &str)
        ensures
            final(self).deep_view() == old(self).deep_view().with_state(
                old(self).deep_view().state.with_error(text@),
            ),
    {
        self.state.error(text);
    }
}

/// Work on files that is asked for.
#[derive(Debug, Clone, Copy, PartialEq, Eq, Structural)]
pub enum FileJob {
    Attach,
    Paste,
    Export,
    Diagnostics,
}

/// What is said of work that the worker took, or was too busy for.
pub open spec fn job_asked(state: AppStateView, job: FileJob, taken: bool) -> AppStateView {
    match job {
        FileJob::Attach => if taken {
            state.with_info("Preparing attachments…"@)
        } else {
            state.with_error("File processing is busy. Try attaching again."@)
        },
        FileJob::Paste => if taken {
            state.with_info("Preparing attachment…"@)
        } else {
            state.with_error("File processing is busy. Paste again after it finishes."@)
        },
        FileJob::Export => if taken {
            state
        } else {
            state.with_error("File processing is busy. Try export again."@)
        },
        FileJob::Diagnostics => if taken {
            state
        } else {
            state.with_error("File processing is busy. Try diagnostics again."@)
        },
    }
}

/// Tells the user what became of work that was asked for.
pub fn tell_job_asked(state: &mut AppState, job: FileJob, taken: bool)
    ensures
        final(state).deep_view() == job_asked(old(state).deep_view(), job, taken),
{
    match job {
        FileJob::Attach => if taken {
            state.info("Preparing attachments…");
        } else {
            state.error("File processing is busy. Try attaching again.");
        },
        FileJob::Paste => if taken {
            state.info("Preparing attachment…");
        } else {
            state.error("File processing is busy. Paste again after it finishes.");
        },
        FileJob::Export => if !taken {
            state.error("File processing is busy. Try export again.");
        },
        FileJob::Diagnostics => if !taken {
            state.error("File processing is busy. Try diagnostics again.");
        },
    }
}

/// What is said of a finished export.
pub fn exported_text(job: FileJob, path: &str) -> (r: String)
    requires
        job is Export || job is Diagnostics,
    ensures
        r@ == if job is Export {
            "Backup exported to "@ + path@
        } else {
            "Diagnostics exported to "@ + path@
        },
{
    match job {
        FileJob::Export => cat("Backup exported to ", path),
        _ => cat("Diagnostics exported to ", path),
    }
}

/// What is said of history that could not be loaded.
pub fn load_warning(error: &str, path: &str) -> (r: String)
    ensures
        r@ == "History could not be loaded: "@ + error@
            + ". Saving is paused. Restore a backup in Settings. Original: "@ + path@,
{
    let start = cat("History could not be loaded: ", error);
    let middle = cat(
        start.as_str(),
        ". Saving is paused. Restore a backup in Settings. Original: ",
    );
    cat(middle.as_str(), path)
}

/// What is said of history that could not be saved at the end.
pub fn final_save_warning(error: &str, path: &str) -> (r: String)
    ensures
        r@ == error@ + "\nThe previous saved generation is retained at "@ + path@,
{
    let start = cat(error, "\nThe previous saved generation is retained at ");
    cat(start.as_str(), path)
}

/// What a copied text is called.
#[derive(Debug, Clone, Copy, PartialEq, Eq, Structural)]
pub enum CopiedText {
    Code,
    Response,
}

/// What is said after copying to the clipboard.
pub fn copied_text(what: CopiedText, result: &Result<(), String>) -> (r: String)
    ensures
        r@ == match *result {
            Ok(_) => match what {
                CopiedText::Code => "Code copied to clipboard"@,
                CopiedText::Response => "Response copied to clipboard"@,
            },
            Err(error) => match what {
                CopiedText::Code => "Could not copy code: "@ + error@,
                CopiedText::Response => "Could not copy response: "@ + error@,
            },
        },
{
    match result {
        Ok(_) => match what {
            CopiedText::Code => "Code copied to clipboard".to_owned(),
            CopiedText::Response => "Response copied to clipboard".to_owned(),
        },
        Err(error) => match what {
            CopiedText::Code => cat("Could not copy code: ", error.as_str()),
            CopiedText::Response => cat("Could not copy response: ", error.as_str()),
        },
    }
}

} // verus!
