//! What holds of the state across operations.
use crate::model::{
    AppHistoryView, ApprovalView, DraftEntryView, DraftView, ItemKind, LocalThreadView,
    PreferencesView,
};
use crate::session::{approvals_of_others, questions_of_others};
use crate::state::{
    draft_under, in_workspace, initial_state, item_at, item_named, messages_of, project_at,
    project_in, project_named, restored_items, restored_threads, thread_at, thread_named,
    threads_with, threads_without, valid_project, valid_thread, AppStateView, QuestionRequestView,
};
use crate::table::{first_where, has_key, lemma_first_where, lemma_first_where_is};
use vstd::prelude::*;
use vstd::string::*;

verus! {

/// Whether a thread stands in a project.
pub open spec fn thread_in_project(
    threads: Seq<LocalThreadView>,
    id: Seq<char>,
    project: Seq<char>,
) -> bool {
    exists|i: int|
        0 <= i < threads.len() && (#[trigger] threads[i]).id == id && threads[i].project_id
            == project
}

impl AppStateView {
    /// The active project exists, and the active thread stands in it.
    pub open spec fn selection_valid(self) -> bool {
        &&& self.active_project is Some ==> project_at(self.projects, self.active_project->0) is Some
        &&& self.active_local_thread is Some ==> self.active_project is Some && thread_in_project(
            self.threads,
            self.active_local_thread->0,
            self.active_project->0,
        )
    }

    /// The approvals that wait for the user, the one that is shown first.
    pub open spec fn waiting_approvals(self) -> Seq<ApprovalView> {
        match self.approval {
            Some(a) => seq![a] + self.approval_queue,
            None => self.approval_queue,
        }
    }

    /// The questions that wait for the user, those that are shown first.
    pub open spec fn waiting_questions(self) -> Seq<QuestionRequestView> {
        match self.user_question {
            Some(q) => seq![q] + self.user_question_queue,
            None => self.user_question_queue,
        }
    }

    /// Something waits only behind something that is shown.
    pub open spec fn queues_valid(self) -> bool {
        &&& self.approval is None ==> self.approval_queue.len() == 0
        &&& self.user_question is None ==> self.user_question_queue.len() == 0
    }
}

/// Keeping the conversation in its thread changes messages only.
pub(crate) proof fn lemma_synced(s: AppStateView)
    ensures
        s.synced().threads.len() == s.threads.len(),
        forall|i: int|
            0 <= i < s.threads.len() ==> (#[trigger] s.synced().threads[i]).id == s.threads[i].id
                && s.synced().threads[i].project_id == s.threads[i].project_id,
        forall|id: Seq<char>|
            #![trigger thread_at(s.synced().threads, id)]
            thread_at(s.synced().threads, id) == thread_at(s.threads, id),
        forall|i: int|
            0 <= i < s.threads.len() && s.active_thread_index() != Some(i) ==> (
            #[trigger] s.synced().threads[i]) == s.threads[i],
        s.active_thread_index() matches Some(i) ==> 0 <= i < s.threads.len()
            && s.synced().threads[i].messages == s.conversation,
        s.synced() == (AppStateView { threads: s.synced().threads, ..s }),
{
    reveal(AppStateView::synced);
    if s.active_local_thread is Some {
        lemma_first_where(s.threads, thread_named(s.active_local_thread->0));
    }
    assert forall|id: Seq<char>| thread_at(s.synced().threads, id) == thread_at(s.threads, id) by {
        lemma_first_where(s.threads, thread_named(id));
        lemma_first_where(s.synced().threads, thread_named(id));
        match thread_at(s.threads, id) {
            Some(i) => {
                assert(thread_named(id)(s.synced().threads[i]));
                assert forall|j: int| 0 <= j < i implies !thread_named(id)(
                    #[trigger] s.synced().threads[j],
                ) by {
                    assert(!thread_named(id)(s.threads[j]));
                }
                lemma_first_where_is(s.synced().threads, thread_named(id), i);
            },
            None => {
                if thread_at(s.synced().threads, id) is Some {
                    let k = thread_at(s.synced().threads, id)->0;
                    assert(!thread_named(id)(s.threads[k]));
                }
            },
        }
    }
}

proof fn lemma_synced_selection(s: AppStateView)
    requires
        s.selection_valid(),
    ensures
        s.synced().selection_valid(),
{
    lemma_synced(s);
    if s.active_local_thread is Some {
        let i = choose|i: int|
            0 <= i < s.threads.len() && (#[trigger] s.threads[i]).id == s.active_local_thread->0
                && s.threads[i].project_id == s.active_project->0;
        assert(s.synced().threads[i].id == s.active_local_thread->0);
    }
}

/// A history that is read back has a valid selection, whatever it says.
pub proof fn lemma_restored_selection_is_valid(s: AppStateView, h: AppHistoryView)
    ensures
        s.with_history(h).selection_valid(),
{
    reveal(AppStateView::with_history);
    reveal(valid_thread);
    reveal(restored_threads);
    let r = s.with_history(h);
    if r.active_local_thread is Some {
        let i = choose|i: int|
            0 <= i < h.threads.len() && (#[trigger] h.threads[i]).id == h.active_thread->0
                && valid_project(h) == Some(h.threads[i].project_id);
        assert(r.threads[i].id == h.active_thread->0);
    }
}

/// Navigation keeps the selection valid: selecting, adding and folding
/// projects, and opening, creating, archiving and bringing back threads.
pub proof fn lemma_navigation_keeps_selection_valid(s: AppStateView, id: Seq<char>, now: i64)
    requires
        s.selection_valid(),
    ensures
        s.project_selected(id).selection_valid(),
        s.project_added(id, now).selection_valid(),
        s.project_toggled(id).selection_valid(),
        s.thread_opened(id).selection_valid(),
        s.thread_created(now).selection_valid(),
        s.thread_archived(id).selection_valid(),
        s.archive_undone().selection_valid(),
{
    lemma_selecting(s, id);
    lemma_adding(s, id, now);
    lemma_toggling(s, id);
    lemma_opening(s, id);
    lemma_creating(s, now);
    lemma_archiving(s, id);
    lemma_bringing_back(s);
}

proof fn lemma_selecting(s: AppStateView, id: Seq<char>)
    requires
        s.selection_valid(),
    ensures
        s.project_selected(id).selection_valid(),
{
    reveal(AppStateView::project_selected);
    lemma_synced(s);
}

proof fn lemma_adding(s: AppStateView, path: Seq<char>, now: i64)
    requires
        s.selection_valid(),
    ensures
        s.project_added(path, now).selection_valid(),
{
    reveal(AppStateView::project_added);
    reveal(AppStateView::logged);
    let id = s.added_project_id(path, now);
    if first_where(s.projects, project_in(path)) is Some {
        lemma_selecting(s, id);
    } else {
        let r = s.project_added(path, now);
        lemma_first_where(r.projects, project_named(id));
        assert(project_named(id)(r.projects[s.projects.len() as int]));
    }
}

proof fn lemma_toggling(s: AppStateView, id: Seq<char>)
    requires
        s.selection_valid(),
    ensures
        s.project_toggled(id).selection_valid(),
{
    reveal(AppStateView::project_toggled);
    if s.active_project is Some {
        let active = s.active_project->0;
        let r = s.project_toggled(id);
        lemma_first_where(s.projects, project_named(id));
        lemma_first_where(s.projects, project_named(active));
        lemma_first_where(r.projects, project_named(active));
        let k = project_at(s.projects, active)->0;
        assert(project_named(active)(r.projects[k]));
    }
}

proof fn lemma_opening(s: AppStateView, id: Seq<char>)
    requires
        s.selection_valid(),
    ensures
        s.thread_opened(id).selection_valid(),
{
    reveal(AppStateView::thread_opened);
    reveal(AppStateView::logged);
    lemma_synced(s);
    lemma_synced_selection(s);
    let t = s.synced();
    if s.active_local_thread != Some(id) && t.can_open(id) {
        lemma_first_where(t.threads, thread_named(id));
        let i = thread_at(t.threads, id)->0;
        assert(t.threads[i].id == id);
    }
}

proof fn lemma_creating(s: AppStateView, now: i64)
    requires
        s.selection_valid(),
    ensures
        s.thread_created(now).selection_valid(),
{
    reveal(AppStateView::thread_created);
    reveal(AppStateView::logged);
    lemma_synced(s);
    if s.active_project is Some {
        let r = s.thread_created(now);
        assert(r.threads[s.threads.len() as int].id == r.active_local_thread->0);
    }
}

proof fn lemma_threads_without(threads: Seq<LocalThreadView>, id: Seq<char>, other: Seq<char>, project: Seq<char>)
    ensures
        other != id && thread_in_project(threads, other, project) ==> thread_in_project(
            threads_without(threads, id),
            other,
            project,
        ),
        forall|i: int|
            0 <= i < threads_without(threads, id).len() ==> (#[trigger] threads_without(
                threads,
                id,
            )[i]).id != id,
    decreases threads.len(),
{
    if threads.len() > 0 {
        let rest = threads.drop_first();
        lemma_threads_without(rest, id, other, project);
        let kept = threads_without(threads, id);
        let kept_rest = threads_without(rest, id);
        if other != id && thread_in_project(threads, other, project) {
            let i = choose|i: int|
                0 <= i < threads.len() && (#[trigger] threads[i]).id == other
                    && threads[i].project_id == project;
            if i > 0 {
                assert(rest[i - 1] == threads[i]);
                assert(thread_in_project(rest, other, project));
                let k = choose|k: int|
                    0 <= k < kept_rest.len() && (#[trigger] kept_rest[k]).id == other
                        && kept_rest[k].project_id == project;
                if threads[0].id == id {
                    assert(kept[k].id == other);
                } else {
                    assert(kept[k + 1] == kept_rest[k]);
                }
            } else {
                assert(kept[0] == threads[0]);
            }
        }
    }
}

proof fn lemma_archiving(s: AppStateView, id: Seq<char>)
    requires
        s.selection_valid(),
    ensures
        s.thread_archived(id).selection_valid(),
{
    reveal(AppStateView::thread_archived);
    reveal(AppStateView::with_info);
    if s.active_local_thread is Some && s.active_project is Some {
        lemma_threads_without(s.threads, id, s.active_local_thread->0, s.active_project->0);
    }
}

proof fn lemma_bringing_back(s: AppStateView)
    requires
        s.selection_valid(),
    ensures
        s.archive_undone().selection_valid(),
{
    reveal(AppStateView::archive_undone);
    if s.active_local_thread is Some && s.archived_threads.len() > 0 {
        let r = s.archive_undone();
        let i = choose|i: int|
            0 <= i < s.threads.len() && (#[trigger] s.threads[i]).id == s.active_local_thread->0
                && s.threads[i].project_id == s.active_project->0;
        assert(r.threads[i] == s.threads[i]);
    }
}

/// What a restart brings back of a state: the projects, the archive, the
/// drafts and the selection as they were, every thread and the conversation on
/// screen with finished activity folded and missing settings filled in.
pub proof fn lemma_history_survives_restart(s: AppStateView)
    requires
        s.selection_valid(),
    ensures
        ({
            let p = s.synced().to_persist();
            let r = initial_state(p.preferences).with_history(p.history);
            &&& r.projects == s.projects
            &&& r.archived_threads == s.archived_threads
            &&& r.drafts == s.drafts
            &&& r.active_project == s.active_project
            &&& r.active_local_thread == s.active_local_thread
            &&& r.threads == restored_threads(s.synced().threads, s.prefs)
            &&& s.active_local_thread is Some ==> r.conversation == restored_items(s.conversation)
            &&& s.active_local_thread is None ==> r.conversation.len() == 0
            &&& r.prefs == in_workspace(s.prefs, s.project_path())
        }),
{
    reveal(AppStateView::with_history);
    reveal(valid_thread);
    reveal(restored_threads);
    reveal(messages_of);
    lemma_synced(s);
    lemma_synced_selection(s);
    let t = s.synced();
    let p = t.to_persist();
    let h = p.history;
    let r = initial_state(p.preferences).with_history(h);
    assert(valid_project(h) == s.active_project);
    if s.active_local_thread is Some {
        let id = s.active_local_thread->0;
        let i = choose|i: int|
            0 <= i < t.threads.len() && (#[trigger] t.threads[i]).id == id
                && t.threads[i].project_id == s.active_project->0;
        assert(h.threads[i].id == id && valid_project(h) == Some(h.threads[i].project_id));
        assert(valid_thread(h) == Some(id));
        lemma_first_where(s.threads, thread_named(id));
        assert(thread_named(id)(s.threads[i]));
        let k = thread_at(s.threads, id)->0;
        lemma_restored_index(t.threads, p.preferences, id);
        assert(r.conversation == restored_items(t.threads[k].messages));
    }
}

/// Reading back finds threads where they were.
proof fn lemma_restored_index(threads: Seq<LocalThreadView>, prefs: PreferencesView, id: Seq<char>)
    ensures
        thread_at(restored_threads(threads, prefs), id) == thread_at(threads, id),
{
    reveal(restored_threads);
    let r = restored_threads(threads, prefs);
    lemma_first_where(threads, thread_named(id));
    lemma_first_where(r, thread_named(id));
    match thread_at(threads, id) {
        Some(i) => {
            assert(thread_named(id)(r[i]));
            assert forall|j: int| 0 <= j < i implies !thread_named(id)(#[trigger] r[j]) by {
                assert(!thread_named(id)(threads[j]));
            }
            lemma_first_where_is(r, thread_named(id), i);
        },
        None => {
            if thread_at(r, id) is Some {
                let k = thread_at(r, id)->0;
                assert(!thread_named(id)(threads[k]));
            }
        },
    }
}

/// A history that was read back and saved is read back the same.
pub proof fn lemma_restarting_again_changes_nothing(
    threads: Seq<LocalThreadView>,
    prefs: PreferencesView,
)
    ensures
        restored_threads(restored_threads(threads, prefs), prefs) == restored_threads(
            threads,
            prefs,
        ),
{
    reveal(restored_threads);
    let once = restored_threads(threads, prefs);
    let twice = restored_threads(once, prefs);
    assert forall|i: int| 0 <= i < threads.len() implies twice[i] == once[i] by {
        assert(restored_items(restored_items(threads[i].messages)) =~= restored_items(
            threads[i].messages,
        ));
    }
    assert(twice =~= once);
}

/// Opening another thread and coming back shows the conversation that was on
/// screen.
pub proof fn lemma_switching_threads_keeps_conversation(
    s: AppStateView,
    here: Seq<char>,
    there: Seq<char>,
)
    requires
        s.active_local_thread == Some(here),
        here != there,
        thread_at(s.threads, here) is Some,
        thread_at(s.threads, there) is Some,
        project_at(s.projects, s.threads[thread_at(s.threads, here)->0].project_id) is Some,
        project_at(s.projects, s.threads[thread_at(s.threads, there)->0].project_id) is Some,
    ensures
        s.thread_opened(there).active_local_thread == Some(there),
        s.thread_opened(there).conversation == s.threads[thread_at(s.threads, there)->0].messages,
        s.thread_opened(there).thread_opened(here).active_local_thread == Some(here),
        s.thread_opened(there).thread_opened(here).conversation == s.conversation,
{
    reveal(AppStateView::thread_opened);
    reveal(AppStateView::logged);
    lemma_first_where(s.threads, thread_named(here));
    lemma_first_where(s.threads, thread_named(there));
    let i = thread_at(s.threads, here)->0;
    let j = thread_at(s.threads, there)->0;
    assert(i != j);
    lemma_synced(s);
    let a = s.synced();
    assert(thread_at(a.threads, there) == Some(j));
    assert(a.can_open(there));
    let b = s.thread_opened(there);
    assert(b.threads == a.threads);
    lemma_synced(b);
    let c = b.synced();
    assert(thread_at(b.threads, here) == Some(i));
    assert(thread_at(c.threads, here) == Some(i));
    assert(thread_at(b.threads, there) == Some(j));
    assert(c.threads[i] == b.threads[i]);
    assert(c.can_open(here));
}

/// Folding twice is the same as not folding, for projects and for entries.
pub proof fn lemma_toggling_twice(s: AppStateView, id: Seq<char>)
    ensures
        s.project_toggled(id).project_toggled(id).projects == s.projects,
        s.message_toggled(id).message_toggled(id).conversation == s.conversation,
        s.details_toggled(id).details_toggled(id).conversation == s.conversation,
{
    reveal(AppStateView::project_toggled);
    reveal(AppStateView::message_toggled);
    reveal(AppStateView::details_toggled);
    lemma_first_where(s.projects, project_named(id));
    lemma_first_where(s.conversation, item_named(id));
    if project_at(s.projects, id) is Some {
        let i = project_at(s.projects, id)->0;
        let once = s.project_toggled(id);
        assert forall|j: int| 0 <= j < i implies !project_named(id)(
            #[trigger] once.projects[j],
        ) by {
            assert(!project_named(id)(s.projects[j]));
        }
        lemma_first_where_is(once.projects, project_named(id), i);
        assert(once.project_toggled(id).projects =~= s.projects);
    }
    if item_at(s.conversation, id) is Some {
        let i = item_at(s.conversation, id)->0;
        let once = s.message_toggled(id);
        assert forall|j: int| 0 <= j < i implies !item_named(id)(
            #[trigger] once.conversation[j],
        ) by {
            assert(!item_named(id)(s.conversation[j]));
        }
        lemma_first_where_is(once.conversation, item_named(id), i);
        assert(once.message_toggled(id).conversation =~= s.conversation);
        let other = s.details_toggled(id);
        assert forall|j: int| 0 <= j < i implies !item_named(id)(
            #[trigger] other.conversation[j],
        ) by {
            assert(!item_named(id)(s.conversation[j]));
        }
        lemma_first_where_is(other.conversation, item_named(id), i);
        assert(other.details_toggled(id).conversation =~= s.conversation);
    }
}

/// A thread that runs is not archived.
pub proof fn lemma_running_thread_stays(s: AppStateView, id: Seq<char>)
    requires
        has_key(s.running_turns, id),
    ensures
        s.thread_archived(id).threads == s.threads,
        s.thread_archived(id).archived_threads == s.archived_threads,
        s.thread_archived(id).active_local_thread == s.active_local_thread,
        s.thread_archived(id).conversation == s.conversation,
{
    reveal(AppStateView::thread_archived);
    reveal(AppStateView::with_info);
}

proof fn lemma_threads_partition(threads: Seq<LocalThreadView>, id: Seq<char>)
    ensures
        (threads_without(threads, id) + threads_with(threads, id)).to_multiset()
            == threads.to_multiset(),
    decreases threads.len(),
{
    broadcast use vstd::seq_lib::group_to_multiset_ensures;

    let kept = threads_without(threads, id);
    let gone = threads_with(threads, id);
    if threads.len() == 0 {
        assert(kept + gone =~= threads);
    } else {
        let rest = threads.drop_first();
        lemma_threads_partition(rest, id);
        let first = seq![threads[0]];
        vstd::seq_lib::lemma_multiset_commutative(kept, gone);
        vstd::seq_lib::lemma_multiset_commutative(
            threads_without(rest, id),
            threads_with(rest, id),
        );
        vstd::seq_lib::lemma_multiset_commutative(first, rest);
        assert(first + rest =~= threads);
        if threads[0].id == id {
            vstd::seq_lib::lemma_multiset_commutative(first, threads_with(rest, id));
        } else {
            vstd::seq_lib::lemma_multiset_commutative(first, threads_without(rest, id));
        }
    }
}

/// Archiving loses no thread: the list and the archive together hold what they
/// held. Neither does bringing one back.
pub proof fn lemma_archiving_loses_nothing(s: AppStateView, id: Seq<char>)
    ensures
        ({
            let r = s.thread_archived(id);
            (r.threads + r.archived_threads).to_multiset() == (s.threads
                + s.archived_threads).to_multiset()
        }),
        ({
            let r = s.archive_undone();
            (r.threads + r.archived_threads).to_multiset() == (s.threads
                + s.archived_threads).to_multiset()
        }),
{
    broadcast use vstd::seq_lib::group_to_multiset_ensures;

    reveal(AppStateView::thread_archived);
    reveal(AppStateView::with_info);
    reveal(AppStateView::archive_undone);
    let kept = threads_without(s.threads, id);
    let gone = threads_with(s.threads, id);
    lemma_threads_partition(s.threads, id);
    vstd::seq_lib::lemma_multiset_commutative(kept, gone);
    vstd::seq_lib::lemma_multiset_commutative(s.archived_threads, gone);
    vstd::seq_lib::lemma_multiset_commutative(kept, s.archived_threads + gone);
    vstd::seq_lib::lemma_multiset_commutative(s.threads, s.archived_threads);
    let r = s.thread_archived(id);
    assert((r.threads + r.archived_threads).to_multiset() =~= (s.threads
        + s.archived_threads).to_multiset());
    let u = s.archive_undone();
    if s.archived_threads.len() > 0 {
        let last = seq![s.archived_threads.last()];
        let front = s.archived_threads.drop_last();
        vstd::seq_lib::lemma_multiset_commutative(s.threads, last);
        vstd::seq_lib::lemma_multiset_commutative(front, last);
        vstd::seq_lib::lemma_multiset_commutative(s.threads + last, front);
        assert(u.threads =~= s.threads + last);
        assert(s.archived_threads =~= front + last);
        assert((u.threads + u.archived_threads).to_multiset() =~= (s.threads
            + s.archived_threads).to_multiset());
    }
}

/// Approvals are shown in the order in which they were asked for: a new one
/// waits behind all others, and answering removes the first.
pub proof fn lemma_approvals_in_order(s: AppStateView, approval: ApprovalView)
    requires
        s.queues_valid(),
    ensures
        s.approval_enqueued(approval).queues_valid(),
        s.approval_enqueued(approval).waiting_approvals() == s.waiting_approvals().push(approval),
        s.next_approval().queues_valid(),
        s.approval is Some ==> s.next_approval().waiting_approvals()
            == s.waiting_approvals().drop_first(),
{
    reveal(AppStateView::approval_enqueued);
    reveal(AppStateView::next_approval);
    assert(s.approval_enqueued(approval).waiting_approvals() =~= s.waiting_approvals().push(
        approval,
    ));
    if s.approval is Some {
        assert(s.next_approval().waiting_approvals() =~= s.waiting_approvals().drop_first());
    }
}

/// Questions are shown in the order in which they were asked.
pub proof fn lemma_questions_in_order(s: AppStateView, question: QuestionRequestView)
    requires
        s.queues_valid(),
    ensures
        s.question_enqueued(question).queues_valid(),
        s.question_enqueued(question).waiting_questions() == s.waiting_questions().push(question),
        s.next_question().queues_valid(),
        s.user_question is Some ==> s.next_question().waiting_questions()
            == s.waiting_questions().drop_first(),
{
    reveal(AppStateView::question_enqueued);
    reveal(AppStateView::next_question);
    assert(s.question_enqueued(question).waiting_questions() =~= s.waiting_questions().push(
        question,
    ));
    if s.user_question is Some {
        assert(s.next_question().waiting_questions() =~= s.waiting_questions().drop_first());
    }
}

/// When a turn ends, what its thread asked approval for is forgotten and the
/// approvals of other threads keep their order.
pub proof fn lemma_dropping_keeps_other_approvals(s: AppStateView, id: Seq<char>)
    requires
        s.queues_valid(),
    ensures
        s.approvals_dropped(id).queues_valid(),
        s.approvals_dropped(id).waiting_approvals() == approvals_of_others(
            s.waiting_approvals(),
            id,
        ),
        s.questions_dropped(id).queues_valid(),
        s.questions_dropped(id).waiting_questions() == questions_of_others(
            s.waiting_questions(),
            id,
        ),
{
    reveal(AppStateView::approvals_dropped);
    reveal(AppStateView::questions_dropped);
    reveal(AppStateView::next_approval);
    reveal(AppStateView::next_question);
    if s.approval is Some {
        assert(s.waiting_approvals().drop_first() =~= s.approval_queue);
    }
    if s.user_question is Some {
        assert(s.waiting_questions().drop_first() =~= s.user_question_queue);
    }
    assert(s.approvals_dropped(id).waiting_approvals() =~= approvals_of_others(
        s.waiting_approvals(),
        id,
    ));
    assert(s.questions_dropped(id).waiting_questions() =~= questions_of_others(
        s.waiting_questions(),
        id,
    ));
}

/// A draft that is kept is found again, and the drafts of other places stay as
/// they are.
pub proof fn lemma_draft_is_kept(
    s: AppStateView,
    key: Seq<char>,
    draft: DraftView,
    other: Seq<char>,
)
    ensures
        ({
            let r = s.with_draft_under(key, draft);
            &&& draft_under(r.drafts, key) is Some
            &&& r.drafts[draft_under(r.drafts, key)->0].draft == draft
            &&& other != key ==> match (draft_under(s.drafts, other), draft_under(r.drafts, other)) {
                (Some(i), Some(j)) => r.drafts[j] == s.drafts[i],
                (None, None) => true,
                _ => false,
            }
        }),
{
    reveal(AppStateView::with_draft_under);
    let r = s.with_draft_under(key, draft);
    let named = |k: Seq<char>| |d: DraftEntryView| d.key == k;
    lemma_first_where(s.drafts, named(key));
    lemma_first_where(r.drafts, named(key));
    lemma_first_where(s.drafts, named(other));
    lemma_first_where(r.drafts, named(other));
    assert(draft_under(s.drafts, key) == first_where(s.drafts, named(key)));
    assert(draft_under(r.drafts, key) == first_where(r.drafts, named(key)));
    assert(draft_under(s.drafts, other) == first_where(s.drafts, named(other)));
    assert(draft_under(r.drafts, other) == first_where(r.drafts, named(other)));
    let n = s.drafts.len() as int;
    match first_where(s.drafts, named(key)) {
        Some(i) => {
            assert(named(key)(r.drafts[i]));
            assert forall|j: int| 0 <= j < i implies !named(key)(#[trigger] r.drafts[j]) by {
                assert(!named(key)(s.drafts[j]));
            }
            lemma_first_where_is(r.drafts, named(key), i);
        },
        None => {
            assert(named(key)(r.drafts[n]));
            assert forall|j: int| 0 <= j < n implies !named(key)(#[trigger] r.drafts[j]) by {
                assert(!named(key)(s.drafts[j]));
            }
            lemma_first_where_is(r.drafts, named(key), n);
        },
    }
    if other != key {
        match first_where(s.drafts, named(other)) {
            Some(i) => {
                assert(named(other)(r.drafts[i]));
                assert forall|j: int| 0 <= j < i implies !named(other)(#[trigger] r.drafts[j]) by {
                    assert(!named(other)(s.drafts[j]));
                }
                lemma_first_where_is(r.drafts, named(other), i);
            },
            None => {
                if first_where(r.drafts, named(other)) is Some {
                    let k = first_where(r.drafts, named(other))->0;
                    if k < n {
                        assert(!named(other)(s.drafts[k]));
                    }
                }
            },
        }
    }
}

/// A new thread is the one on screen: empty, in the active project, with the
/// settings of new threads. What was on screen before is kept in its thread.
pub proof fn lemma_new_thread_is_on_screen(s: AppStateView, now: i64)
    requires
        s.active_project is Some,
    ensures
        ({
            let r = s.thread_created(now);
            let n = s.threads.len() as int;
            &&& r.threads.len() == n + 1
            &&& r.active_local_thread == Some(r.threads[n].id)
            &&& r.active_project == s.active_project
            &&& r.conversation.len() == 0
            &&& r.threads[n].messages.len() == 0
            &&& Some(r.threads[n].project_id) == s.active_project
            &&& r.threads[n].created_at == now && r.threads[n].updated_at == now
            &&& r.threads[n].agent.model == s.prefs.model
            &&& r.threads[n].agent.effort == s.prefs.effort
            &&& r.threads[n].agent.sandbox == Some(s.prefs.sandbox)
            &&& r.threads[n].agent.approval == Some(s.prefs.approval)
            &&& forall|i: int|
                0 <= i < n && s.active_thread_index() != Some(i) ==> (#[trigger] r.threads[i])
                    == s.threads[i]
            &&& s.active_thread_index() matches Some(i) ==> r.threads[i].messages == s.conversation
        }),
{
    reveal(AppStateView::thread_created);
    reveal(AppStateView::logged);
    lemma_synced(s);
}

/// A directory becomes a project once: a new one is listed last and selected,
/// one that is there already is only selected.
pub proof fn lemma_directory_becomes_a_project(s: AppStateView, path: Seq<char>, now: i64)
    ensures
        ({
            let r = s.project_added(path, now);
            let known = first_where(s.projects, project_in(path));
            &&& r.active_project is Some
            &&& r.active_local_thread is None
            &&& r.conversation.len() == 0
            &&& known is None ==> {
                &&& r.projects.len() == s.projects.len() + 1
                &&& r.projects.drop_last() == s.projects
                &&& r.projects.last().path == path
                &&& r.active_project == Some(r.projects.last().id)
                &&& r.prefs.workspace == path
                &&& !r.projects.last().collapsed
            }
            &&& known matches Some(i) ==> r.projects == s.projects && r.active_project == Some(
                s.projects[i].id,
            )
        }),
{
    reveal(AppStateView::project_added);
    reveal(AppStateView::project_selected);
    reveal(AppStateView::logged);
    lemma_synced(s);
    lemma_first_where(s.projects, project_in(path));
    if first_where(s.projects, project_in(path)) is Some {
        let i = first_where(s.projects, project_in(path))->0;
        lemma_first_where(s.projects, project_named(s.projects[i].id));
        assert(project_named(s.projects[i].id)(s.projects[i]));
    } else {
        assert(s.project_added(path, now).projects.drop_last() =~= s.projects);
    }
}

/// Selecting a project shows none of its threads and works in its directory;
/// what was on screen is kept.
pub proof fn lemma_selected_project_is_worked_in(s: AppStateView, id: Seq<char>, i: int)
    requires
        project_at(s.projects, id) == Some(i),
    ensures
        ({
            let r = s.project_selected(id);
            &&& r.active_project == Some(id)
            &&& r.active_local_thread is None
            &&& r.conversation.len() == 0
            &&& r.prefs.workspace == s.projects[i].path
            &&& r.projects == s.projects
            &&& s.active_thread_index() matches Some(k) ==> r.threads[k].messages == s.conversation
        }),
{
    reveal(AppStateView::project_selected);
    lemma_synced(s);
}

/// A thread that is archived is no longer listed and can be brought back; the
/// threads that stay are those that were there, in order, and if it was on
/// screen the screen is empty.
pub proof fn lemma_archived_thread_leaves_the_list(s: AppStateView, id: Seq<char>)
    requires
        !has_key(s.running_turns, id),
    ensures
        ({
            let r = s.thread_archived(id);
            &&& forall|i: int| 0 <= i < r.threads.len() ==> (#[trigger] r.threads[i]).id != id
            &&& r.threads == s.threads.filter(|t: LocalThreadView| t.id != id)
            &&& r.archived_threads == s.archived_threads + s.threads.filter(
                |t: LocalThreadView| t.id == id,
            )
            &&& s.active_local_thread == Some(id) ==> r.active_local_thread is None
                && r.conversation.len() == 0
            &&& s.active_local_thread != Some(id) ==> r.active_local_thread == s.active_local_thread
                && r.conversation == s.conversation
            &&& !has_key(r.runtime_threads, id)
        }),
{
    reveal(AppStateView::thread_archived);
    lemma_threads_without(s.threads, id, id, id);
    lemma_archive_parts(s.threads, id);
    if s.runtime_threads.len() > 0 {
        crate::table::lemma_put_lookup(s.runtime_threads, id, s.runtime_threads[0].1, id);
    }
}

proof fn lemma_archive_parts(threads: Seq<LocalThreadView>, id: Seq<char>)
    ensures
        threads_without(threads, id) == threads.filter(|t: LocalThreadView| t.id != id),
        threads_with(threads, id) == threads.filter(|t: LocalThreadView| t.id == id),
    decreases threads.len(),
{
    let others = |t: LocalThreadView| t.id != id;
    let own = |t: LocalThreadView| t.id == id;
    reveal(Seq::filter);
    if threads.len() > 0 {
        let rest = threads.drop_first();
        lemma_archive_parts(rest, id);
        Seq::filter_distributes_over_add(seq![threads[0]], rest, others);
        Seq::filter_distributes_over_add(seq![threads[0]], rest, own);
        assert(seq![threads[0]] + rest =~= threads);
        assert(seq![threads[0]].drop_last() =~= Seq::empty());
        reveal_with_fuel(Seq::filter, 2);
        if threads[0].id == id {
            assert(seq![threads[0]].filter(others) =~= Seq::empty());
            assert(seq![threads[0]].filter(own) =~= seq![threads[0]]);
            assert(Seq::<LocalThreadView>::empty() + rest.filter(others) =~= rest.filter(others));
        } else {
            assert(seq![threads[0]].filter(others) =~= seq![threads[0]]);
            assert(seq![threads[0]].filter(own) =~= Seq::empty());
            assert(Seq::<LocalThreadView>::empty() + rest.filter(own) =~= rest.filter(own));
        }
    } else {
        assert(threads.filter(others) =~= threads);
        assert(threads.filter(own) =~= threads);
    }
}

/// Bringing back undoes archiving one thread: it is listed again as it was.
pub proof fn lemma_undo_brings_the_thread_back(s: AppStateView, id: Seq<char>, k: int)
    requires
        !has_key(s.running_turns, id),
        0 <= k < s.threads.len(),
        s.threads[k].id == id,
        forall|j: int| 0 <= j < s.threads.len() && j != k ==> (#[trigger] s.threads[j]).id != id,
    ensures
        ({
            let r = s.thread_archived(id).archive_undone();
            &&& r.archived_threads == s.archived_threads
            &&& r.threads == s.thread_archived(id).threads.push(s.threads[k])
        }),
{
    reveal(AppStateView::thread_archived);
    reveal(AppStateView::archive_undone);
    lemma_only_thread(s.threads, id, k);
    let a = s.thread_archived(id);
    assert(a.archived_threads.drop_last() =~= s.archived_threads);
}

proof fn lemma_only_thread(threads: Seq<LocalThreadView>, id: Seq<char>, k: int)
    requires
        0 <= k < threads.len(),
        threads[k].id == id,
        forall|j: int| 0 <= j < threads.len() && j != k ==> (#[trigger] threads[j]).id != id,
    ensures
        threads_with(threads, id) == seq![threads[k]],
    decreases threads.len(),
{
    let rest = threads.drop_first();
    if k == 0 {
        lemma_no_thread(rest, id);
        assert(seq![threads[0]] + threads_with(rest, id) =~= seq![threads[k]]);
    } else {
        assert(threads[0].id != id);
        assert forall|j: int| 0 <= j < rest.len() && j != k - 1 implies (#[trigger] rest[j]).id != id by {
            assert(rest[j] == threads[j + 1]);
        }
        lemma_only_thread(rest, id, k - 1);
    }
}

proof fn lemma_no_thread(threads: Seq<LocalThreadView>, id: Seq<char>)
    requires
        forall|j: int| 0 <= j < threads.len() ==> (#[trigger] threads[j]).id != id,
    ensures
        threads_with(threads, id).len() == 0,
    decreases threads.len(),
{
    if threads.len() > 0 {
        assert(threads[0].id != id);
        assert forall|j: int| 0 <= j < threads.drop_first().len() implies (
        #[trigger] threads.drop_first()[j]).id != id by {
            assert(threads.drop_first()[j] == threads[j + 1]);
        }
        lemma_no_thread(threads.drop_first(), id);
    }
}

/// What is typed and attached is there as it was left: a draft that is set is
/// the draft, files that are attached come behind those that were, and taking
/// one out leaves the others in order.
pub proof fn lemma_draft_holds_what_was_left(
    s: AppStateView,
    draft: DraftView,
    paths: Seq<Seq<char>>,
    index: int,
)
    ensures
        s.with_draft(draft).draft() == draft,
        s.files_attached(s.key_of_draft(), paths).draft().text == s.draft().text,
        s.files_attached(s.key_of_draft(), paths).draft().attachments == s.draft().attachments
            + paths,
        0 <= index < s.draft().attachments.len() ==> ({
            let before = s.draft();
            let after = s.attachment_removed(index).draft();
            &&& after.text == before.text
            &&& after.attachments == before.attachments.take(index) + before.attachments.skip(
                index + 1,
            )
        }),
        !(0 <= index < s.draft().attachments.len()) ==> s.attachment_removed(index) == s,
{
    let key = s.key_of_draft();
    lemma_draft_is_kept(s, key, draft, key);
    reveal(AppStateView::with_draft_under);
    let attached = DraftView { attachments: s.draft().attachments + paths, ..s.draft() };
    lemma_draft_is_kept(s, key, attached, key);
    if draft_under(s.drafts, key) is None {
        assert(s.draft().attachments + paths =~= paths);
    }
    if 0 <= index < s.draft().attachments.len() {
        let before = s.draft().attachments;
        assert(before.remove(index) =~= before.take(index) + before.skip(index + 1));
        lemma_draft_is_kept(
            s,
            key,
            DraftView { attachments: before.remove(index), ..s.draft() },
            key,
        );
    }
}

/// An error is told to the user in its own words, and logged; a notice is told
/// as no error.
pub proof fn lemma_user_is_told(s: AppStateView, message: Seq<char>, line: Seq<char>)
    ensures
        ({
            let r = s.with_error(message);
            &&& r.toast matches Some(t) && t.message == message && t.is_error
            &&& r.activity_log.len() == s.activity_log.len() + 1
            &&& r.activity_log.last() == "Error: "@ + message
            &&& r.conversation == s.conversation && r.threads == s.threads
        }),
        ({
            let r = s.with_info(message);
            &&& r.toast matches Some(t) && t.message == message && !t.is_error
            &&& r.activity_log == s.activity_log
        }),
        s.logged(line).activity_log == s.activity_log.push(line),
        s.logged(line).toast == s.toast,
{
    reveal(AppStateView::with_error);
    reveal(AppStateView::with_info);
    reveal(AppStateView::logged);
}

/// The final answer of a turn says how long the turn took.
pub proof fn lemma_answer_says_how_long(
    s: AppStateView,
    id: Seq<char>,
    started: u64,
    ended: u64,
    k: int,
)
    requires
        s.active_local_thread == Some(id),
        started <= ended,
        0 <= k < s.conversation.len(),
        s.conversation[k].kind == ItemKind::Assistant,
        forall|j: int|
            k < j < s.conversation.len() ==> (#[trigger] s.conversation[j]).kind
                != ItemKind::Assistant && s.conversation[j].kind != ItemKind::User,
    ensures
        ({
            let r = s.turn_begun(id, started).turn_finished(id, ended);
            &&& r.conversation.len() == s.conversation.len()
            &&& r.conversation[k].duration_ms == Some((ended - started) as u64)
            &&& r.conversation[k].body == s.conversation[k].body
            &&& !has_key(r.running_turns, id)
            &&& forall|j: int|
                0 <= j < s.conversation.len() && j != k ==> (#[trigger] r.conversation[j])
                    == s.conversation[j]
        }),
        has_key(s.turn_begun(id, started).running_turns, id),
{
    reveal(AppStateView::turn_begun);
    reveal(AppStateView::turn_finished);
    reveal(AppStateView::answer_settled);
    reveal(AppStateView::answer_timed);
    let b = s.turn_begun(id, started);
    crate::table::lemma_put_lookup(s.turn_started_at_ms, id, started, id);
    crate::table::lemma_put_lookup(s.running_turns, id, None, id);
    crate::table::lemma_put_lookup(b.running_turns, id, None, id);
    let said = |i: crate::model::ConversationItemView|
        i.kind == ItemKind::Assistant || i.kind == ItemKind::User;
    assert forall|j: int| k < j < s.conversation.len() implies !said(#[trigger] s.conversation[j]) by {
        assert(s.conversation[j].kind != ItemKind::Assistant);
    }
    crate::table::lemma_last_where_is(s.conversation, said, k);
    assert(crate::state::final_answer(s.conversation) == Some(k));
}

} // verus!
