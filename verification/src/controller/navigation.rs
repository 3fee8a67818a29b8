//! Moving between projects and threads.
use super::inspection::{same_root, same_workspace};
use super::{Controller, ControllerView, Moment};
use crate::json::{object, Json, JsonView};
use crate::model::{ConversationItemView, Draft, DraftView, ItemKind, PersistedState};
use crate::state::{is_id, project_at, AppStateView};
use crate::table::{last_where, lemma_last_where_is, lemma_last_where_none};
use vstd::prelude::*;
use vstd::string::*;

verus! {

impl ControllerView {
    /// The inspection follows when the active directory has changed.
    #[verifier::opaque]
    pub open spec fn root_followed(self, before: Option<Seq<char>>) -> ControllerView {
        if same_root(self.state.windows_paths, before, self.state.project_path()) {
            self
        } else {
            self.inspection_switched()
        }
    }

    #[verifier::opaque]
    pub open spec fn project_selected(self, id: Seq<char>) -> ControllerView {
        if project_at(self.state.projects, id) is Some {
            self.with_state(self.state.project_selected(id)).root_followed(
                self.state.project_path(),
            )
        } else {
            self
        }
    }

    /// A project that is not active is selected first.
    #[verifier::opaque]
    pub open spec fn project_ensured(self, id: Seq<char>) -> ControllerView {
        if self.state.active_project == Some(id) {
            self
        } else {
            self.project_selected(id)
        }
    }

    pub open spec fn project_toggled(self, id: Seq<char>) -> ControllerView {
        let c = self.project_ensured(id);
        c.with_state(c.state.project_toggled(id))
    }

    #[verifier::opaque]
    pub open spec fn thread_opened(self, id: Seq<char>) -> ControllerView {
        let c = self.with_state(self.state.thread_opened(id));
        if self.state.active_local_thread != Some(id) && self.state.synced().can_open(id) {
            c.root_followed(self.state.project_path())
        } else {
            c
        }
    }

    /// A thread is created in a project, which becomes the active one.
    #[verifier::opaque]
    pub open spec fn thread_created_in(self, id: Seq<char>, now: Moment) -> ControllerView {
        let c = self.project_ensured(id);
        if c.state.active_project == Some(id) {
            c.with_state(c.state.thread_created(now.seconds))
        } else {
            c
        }
    }

    /// A directory becomes a project with a thread in it.
    pub open spec fn project_added(self, path: Seq<char>, now: Moment) -> ControllerView {
        self.with_state(
            self.state.project_added(path, now.seconds).thread_created(now.seconds),
        ).inspection_switched()
    }

    /// The last prompt of the conversation becomes the draft.
    #[verifier::opaque]
    pub open spec fn prompt_restored(self) -> ControllerView {
        match last_where(
            self.state.conversation,
            |i: ConversationItemView| i.kind == ItemKind::User,
        ) {
            Some(i) => self.with_state(
                self.state.with_draft(
                    DraftView {
                        text: self.state.conversation[i].body,
                        attachments: self.state.conversation[i].attachments,
                    },
                ),
            ),
            None => self,
        }
    }
}

/// What a report about the application holds: counts and versions, nothing of
/// what was said.
pub open spec fn diagnostics_view(
    c: ControllerView,
    os: Seq<char>,
    architecture: Seq<char>,
) -> JsonView {
    JsonView::Object(seq![
        ("applicationVersion"@, JsonView::Text(c.version)),
        ("os"@, JsonView::Text(os)),
        ("architecture"@, JsonView::Text(architecture)),
        ("connection"@, JsonView::Text(c.state.connection_text)),
        ("connected"@, JsonView::Bool(c.state.connected)),
        ("pendingRequests"@, JsonView::Unsigned(c.pending.len() as u64)),
        ("runningTurns"@, JsonView::Unsigned(c.state.running_turns.len() as u64)),
        ("projects"@, JsonView::Unsigned(c.state.projects.len() as u64)),
        ("threads"@, JsonView::Unsigned(c.state.threads.len() as u64)),
        ("archivedThreads"@, JsonView::Unsigned(c.state.archived_threads.len() as u64)),
        ("usageLoading"@, JsonView::Bool(c.state.usage_loading)),
        (
            "note"@,
            JsonView::Text(
                "Conversation content, account identifiers, credentials, and command output are omitted."@,
            ),
        ),
    ])
}

impl Controller {
    fn root_text(&self) -> (r: Option<String>)
        ensures
            r.deep_view() == self.deep_view().state.project_path(),
    {
        match self.state.active_project_path() {
            Some(path) => Some(path.to_owned()),
            None => None,
        }
    }

    fn follow_root(&mut self, before: &Option<String>)
        ensures
            final(self).deep_view() == old(self).deep_view().root_followed(before.deep_view()),
    {
        proof {
            reveal(ControllerView::root_followed);
        }
        let after = self.root_text();
        if !same_workspace(self.state.windows_paths, before, &after) {
            self.switch_workspace_inspection();
        }
    }

    fn select_in_state(&mut self, id: &str) -> (r: bool)
        ensures
            final(self).deep_view() == old(self).deep_view().with_state(
                old(self).deep_view().state.project_selected(id@),
            ),
            r == (project_at(old(self).deep_view().state.projects, id@) is Some),
            !r ==> final(self).deep_view() == old(self).deep_view(),
    {
        proof {
            reveal(AppStateView::project_selected);
        }
        self.state.select_project(id)
    }

    pub fn select_project(&mut self, id: &str)
        ensures
            final(self).deep_view() == old(self).deep_view().project_selected(id@),
    {
        proof {
            reveal(ControllerView::project_selected);
        }
        let before = self.root_text();
        if self.select_in_state(id) {
            self.follow_root(&before);
        }
    }

    fn ensure_project(&mut self, id: &str)
        ensures
            final(self).deep_view() == old(self).deep_view().project_ensured(id@),
    {
        proof {
            reveal(ControllerView::project_ensured);
        }
        if !is_id(&self.state.active_project, id) {
            self.select_project(id);
        }
    }

    pub fn toggle_project(&mut self, id: &str)
        ensures
            final(self).deep_view() == old(self).deep_view().project_toggled(id@),
    {
        self.ensure_project(id);
        self.state.toggle_project(id);
    }

    fn open_in_state(&mut self, id: &str) -> (r: bool)
        ensures
            final(self).deep_view() == old(self).deep_view().with_state(
                old(self).deep_view().state.thread_opened(id@),
            ),
            r == (old(self).deep_view().state.active_local_thread != Some(id@) && old(
                self,
            ).deep_view().state.synced().can_open(id@)),
    {
        self.state.open_thread(id)
    }

    pub fn open_thread(&mut self, id: &str)
        ensures
            final(self).deep_view() == old(self).deep_view().thread_opened(id@),
    {
        proof {
            reveal(ControllerView::thread_opened);
        }
        let before = self.root_text();
        if self.open_in_state(id) {
            self.follow_root(&before);
        }
    }

    pub fn new_thread(&mut self, now: Moment)
        ensures
            final(self).deep_view() == old(self).deep_view().with_state(
                old(self).deep_view().state.thread_created(now.seconds),
            ),
    {
        let _id = self.state.new_thread(now.seconds);
    }

    pub fn new_thread_for_project(&mut self, id: &str, now: Moment)
        ensures
            final(self).deep_view() == old(self).deep_view().thread_created_in(id@, now),
    {
        proof {
            reveal(ControllerView::thread_created_in);
        }
        self.ensure_project(id);
        if is_id(&self.state.active_project, id) {
            self.new_thread(now);
        }
    }

    pub fn add_project(&mut self, path: String, now: Moment)
        ensures
            final(self).deep_view() == old(self).deep_view().project_added(path@, now),
    {
        let _project = self.state.add_project(path, now.seconds);
        let _thread = self.state.new_thread(now.seconds);
        self.switch_workspace_inspection();
    }

    pub fn archive_thread(&mut self, id: &str)
        ensures
            final(self).deep_view() == old(self).deep_view().with_state(
                old(self).deep_view().state.thread_archived(id@),
            ),
    {
        let _changed = self.state.archive_thread(id);
    }

    pub fn toggle_message(&mut self, id: &str)
        ensures
            final(self).deep_view() == old(self).deep_view().with_state(
                old(self).deep_view().state.message_toggled(id@),
            ),
    {
        self.state.toggle_message(id);
    }

    pub fn toggle_response_details(&mut self, id: &str)
        ensures
            final(self).deep_view() == old(self).deep_view().with_state(
                old(self).deep_view().state.details_toggled(id@),
            ),
    {
        self.state.toggle_response_details(id);
    }

    pub fn undo_archive(&mut self)
        ensures
            final(self).deep_view() == old(self).deep_view().with_state(
                old(self).deep_view().state.archive_undone(),
            ).inspection_restarted(),
    {
        self.state.undo_archive();
        self.restart_workspace_inspection();
    }

    pub fn persisted(&mut self) -> (r: PersistedState)
        ensures
            final(self).deep_view() == old(self).deep_view().with_state(
                old(self).deep_view().state.synced(),
            ),
            r.deep_view() == old(self).deep_view().state.synced().to_persist(),
    {
        self.state.persisted()
    }

    fn set_draft(&mut self, draft: Draft)
        ensures
            final(self).deep_view() == old(self).deep_view().with_state(
                old(self).deep_view().state.with_draft(draft.deep_view()),
            ),
    {
        self.state.set_draft(draft);
    }

    /// The last message of the user on screen.
    fn last_prompt(&self) -> (r: Option<usize>)
        ensures
            match r {
                Some(i) => i < self.state.conversation@.len() && last_where(
                    self.deep_view().state.conversation,
                    |i: ConversationItemView| i.kind == ItemKind::User,
                ) == Some(i as int),
                None => last_where(
                    self.deep_view().state.conversation,
                    |i: ConversationItemView| i.kind == ItemKind::User,
                ) is None,
            },
    {
        let items = &self.state.conversation;
        let ghost all = items.deep_view();
        let ghost p = |i: ConversationItemView| i.kind == ItemKind::User;
        let mut i: usize = items.len();
        while i > 0
            invariant
                i <= items@.len(),
                all == items.deep_view(),
                *items == self.state.conversation,
                all == self.deep_view().state.conversation,
                p == (|i: ConversationItemView| i.kind == ItemKind::User),
                forall|j: int| i <= j < all.len() ==> !p(#[trigger] all[j]),
            decreases i,
        {
            i -= 1;
            assert(all[i as int] == items@[i as int].deep_view());
            if items[i].kind == ItemKind::User {
                proof {
                    lemma_last_where_is(all, p, i as int);
                }
                return Some(i);
            }
        }
        proof {
            lemma_last_where_none(all, p);
        }
        None
    }

    pub fn restore_last_prompt(&mut self)
        ensures
            final(self).deep_view() == old(self).deep_view().prompt_restored(),
    {
        proof {
            reveal(ControllerView::prompt_restored);
        }
        match self.last_prompt() {
            Some(i) => {
                let item = &self.state.conversation[i];
                let draft = Draft {
                    text: item.body.clone(),
                    attachments: item.attachments.clone(),
                };
                assert(draft.attachments.deep_view() =~= item.attachments.deep_view());
                self.set_draft(draft);
            },
            None => {},
        }
    }

    /// A report about the application without anything that was said in it.
    pub fn diagnostics(&self, os: &str, architecture: &str) -> (r: Json)
        ensures
            r.deep_view() == diagnostics_view(self.deep_view(), os@, architecture@),
    {
        let r = object(
            vec![
                ("applicationVersion".to_owned(), Json::text(self.version.as_str())),
                ("os".to_owned(), Json::text(os)),
                ("architecture".to_owned(), Json::text(architecture)),
                ("connection".to_owned(), Json::text(self.state.connection_text.as_str())),
                ("connected".to_owned(), Json::Bool(self.state.connected)),
                ("pendingRequests".to_owned(), Json::Unsigned(self.pending.len() as u64)),
                ("runningTurns".to_owned(), Json::Unsigned(self.state.running_turns.len() as u64)),
                ("projects".to_owned(), Json::Unsigned(self.state.projects.len() as u64)),
                ("threads".to_owned(), Json::Unsigned(self.state.threads.len() as u64)),
                (
                    "archivedThreads".to_owned(),
                    Json::Unsigned(self.state.archived_threads.len() as u64),
                ),
                ("usageLoading".to_owned(), Json::Bool(self.state.usage_loading)),
                (
                    "note".to_owned(),
                    Json::text(
                        "Conversation content, account identifiers, credentials, and command output are omitted.",
                    ),
                ),
            ],
        );
        assert(r.deep_view()->Object_0 =~= diagnostics_view(
            self.deep_view(),
            os@,
            architecture@,
        )->Object_0);
        r
    }
}

} // verus!
