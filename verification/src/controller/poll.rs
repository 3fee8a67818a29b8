//! One round of the event loop: deadlines, then everything that has come in.
use super::{
    call_at, ActiveSummaryView, Controller, ControllerView, Moment, PendingCall,
    PendingCallView, PendingEntryView,
};
use crate::json::{Json, JsonView};
use crate::workspace::{
    CommitSnapshot, CommitSnapshotView, WorkspaceSnapshot, WorkspaceSnapshotView,
};
use vstd::prelude::*;
use vstd::string::*;

verus! {

/// What has come in since the last round: the result of starting a backend
/// (whether it is the installed one), messages of the backend, no more than are
/// heard in one round, and the results of the workers.
pub struct Inbox {
    pub backend_started: Option<Result<bool, String>>,
    pub messages: Vec<Json>,
    pub workspace: Option<(Option<String>, WorkspaceSnapshot)>,
    pub commit: Option<(String, Result<CommitSnapshot, String>)>,
    pub git: Option<Result<String, String>>,
    pub update_check: Option<Result<Option<String>, String>>,
    pub update_install: Option<Result<(), String>>,
}

/// What an [`Inbox`] holds.
pub struct InboxView {
    pub backend_started: Option<Result<bool, Seq<char>>>,
    pub messages: Seq<JsonView>,
    pub workspace: Option<(Option<Seq<char>>, WorkspaceSnapshotView)>,
    pub commit: Option<(Seq<char>, Result<CommitSnapshotView, Seq<char>>)>,
    pub git: Option<Result<Seq<char>, Seq<char>>>,
    pub update_check: Option<Result<Option<Seq<char>>, Seq<char>>>,
    pub update_install: Option<Result<(), Seq<char>>>,
}

/// A result with its parts by their views.
pub open spec fn result_of<T: DeepView>(r: Result<T, String>) -> Result<T::V, Seq<char>> {
    match r {
        Ok(v) => Ok(v.deep_view()),
        Err(e) => Err(e@),
    }
}

impl DeepView for Inbox {
    type V = InboxView;

    open spec fn deep_view(&self) -> InboxView {
        InboxView {
            backend_started: match self.backend_started {
                Some(r) => Some(result_of(r)),
                None => None,
            },
            messages: self.messages.deep_view(),
            workspace: self.workspace.deep_view(),
            commit: match self.commit {
                Some(c) => Some((c.0@, result_of(c.1))),
                None => None,
            },
            git: match self.git {
                Some(r) => Some(result_of(r)),
                None => None,
            },
            update_check: match self.update_check {
                Some(r) => Some(result_of(r)),
                None => None,
            },
            update_install: match self.update_install {
                Some(r) => Some(result_of(r)),
                None => None,
            },
        }
    }
}

impl Default for Inbox {
    /// Nothing has come in.
    fn default() -> (r: Self)
        ensures
            r.deep_view() == (InboxView {
                backend_started: None,
                messages: Seq::empty(),
                workspace: None,
                commit: None,
                git: None,
                update_check: None,
                update_install: None,
            }),
    {
        let r = Inbox {
            backend_started: None,
            messages: Vec::new(),
            workspace: None,
            commit: None,
            git: None,
            update_check: None,
            update_install: None,
        };
        assert(r.messages.deep_view() =~= Seq::empty());
        r
    }
}

/// How many messages of the backend are heard in one round.
pub const ROUND_MESSAGES: usize = 300;

/// The messages that are heard in one round.
pub open spec fn round_of(messages: Seq<JsonView>) -> Seq<JsonView> {
    if messages.len() > ROUND_MESSAGES {
        messages.take(ROUND_MESSAGES as int)
    } else {
        messages
    }
}

/// The ids of the calls whose time is up, in order.
pub open spec fn expired_ids(pending: Seq<PendingEntryView>, ticks: u64) -> Seq<u64>
    decreases pending.len(),
{
    if pending.len() == 0 {
        Seq::empty()
    } else {
        let before = expired_ids(pending.drop_last(), ticks);
        if ticks >= pending.last().deadline {
            before.push(pending.last().id)
        } else {
            before
        }
    }
}

/// Calls that may still be carried out by the backend though they timed out.
pub open spec fn leaves_doubt(call: Option<PendingCallView>) -> bool {
    match call {
        Some(c) => c is ThreadStart || c is TurnStart || c is Interrupt || c is SummaryThreadStart
            || c is SummaryTurnStart,
        None => false,
    }
}

pub open spec fn summary_expired(
    summaries: Seq<(Seq<char>, ActiveSummaryView)>,
    ticks: u64,
) -> bool {
    exists|i: int| 0 <= i < summaries.len() && ticks >= (#[trigger] summaries[i]).1.deadline
}

impl ControllerView {
    #[verifier::opaque]
    pub open spec fn startup_expired(self, now: Moment) -> ControllerView {
        if self.startup_deadline is Some && now.ticks >= self.startup_deadline->0 {
            self.disconnected("Codex startup timed out. Use Reconnect to retry."@, now)
        } else {
            self
        }
    }

    #[verifier::opaque]
    pub open spec fn summaries_expired(self, now: Moment) -> ControllerView {
        if summary_expired(self.active_summaries, now.ticks) {
            self.disconnected(
                "Codex summary timed out. Reconnect to retry; staged files were retained."@,
                now,
            )
        } else {
            self
        }
    }

    /// Calls time out. One that may still be carried out ends the connection,
    /// so that no second turn runs over uncertain work.
    pub open spec fn calls_expired(self, ids: Seq<u64>, now: Moment) -> ControllerView
        decreases ids.len(),
    {
        if ids.len() == 0 {
            self
        } else if leaves_doubt(call_at(self.pending, ids[0])) {
            self.disconnected(
                "Codex request timed out. Reconnect before retrying the task."@,
                now,
            )
        } else {
            self.call_failed(ids[0], "Codex request timed out"@, now).calls_expired(
                ids.drop_first(),
                now,
            )
        }
    }

    #[verifier::opaque]
    pub open spec fn deadlines_passed(self, now: Moment) -> ControllerView {
        let c = self.startup_expired(now).summaries_expired(now);
        c.calls_expired(expired_ids(c.pending, now.ticks), now)
    }

    #[verifier::opaque]
    pub open spec fn backend_polled(
        self,
        started: Option<Result<bool, Seq<char>>>,
        now: Moment,
    ) -> ControllerView {
        if self.backend_start {
            match started {
                Some(Ok(fallback)) => self.backend_joined(fallback, now),
                Some(Err(error)) => self.backend_refused(error),
                None => self,
            }
        } else {
            self
        }
    }

    pub open spec fn messages_taken(self, messages: Seq<JsonView>, now: Moment) -> ControllerView
        decreases messages.len(),
    {
        if messages.len() == 0 {
            self
        } else {
            self.message_taken(messages[0], now).messages_taken(messages.drop_first(), now)
        }
    }

    /// The messages of one round are heard; what is beyond them is not.
    #[verifier::opaque]
    pub open spec fn backend_heard(self, messages: Seq<JsonView>, now: Moment) -> ControllerView {
        if self.backend {
            self.messages_taken(round_of(messages), now)
        } else {
            self
        }
    }

    #[verifier::opaque]
    pub open spec fn workspace_polled(
        self,
        result: Option<(Option<Seq<char>>, WorkspaceSnapshotView)>,
    ) -> ControllerView {
        match result {
            Some((root, snapshot)) => if self.workspace_rx {
                self.inspected(root, snapshot)
            } else {
                self
            },
            None => self,
        }
    }

    #[verifier::opaque]
    pub open spec fn commit_polled(
        self,
        result: Option<(Seq<char>, Result<CommitSnapshotView, Seq<char>>)>,
        now: Moment,
    ) -> ControllerView {
        match result {
            Some((root, outcome)) => if self.commit_prepare_rx {
                self.commit_prepared(root, outcome, now)
            } else {
                self
            },
            None => self,
        }
    }

    #[verifier::opaque]
    pub open spec fn git_polled(self, result: Option<Result<Seq<char>, Seq<char>>>) -> ControllerView {
        match result {
            Some(outcome) => if self.git_action_rx {
                self.git_done(outcome)
            } else {
                self
            },
            None => self,
        }
    }

    #[verifier::opaque]
    pub open spec fn update_check_polled(
        self,
        result: Option<Result<Option<Seq<char>>, Seq<char>>>,
    ) -> ControllerView {
        match result {
            Some(outcome) => if self.update_check_rx {
                self.update_checked(outcome)
            } else {
                self
            },
            None => self,
        }
    }

    #[verifier::opaque]
    pub open spec fn update_install_polled(
        self,
        result: Option<Result<(), Seq<char>>>,
    ) -> ControllerView {
        match result {
            Some(outcome) => if self.update_install_rx {
                self.update_installed(outcome)
            } else {
                self
            },
            None => self,
        }
    }

    /// The log is cut and the revision remembered.
    #[verifier::opaque]
    pub open spec fn round_closed(self) -> ControllerView {
        ControllerView {
            state: self.state.log_trimmed(),
            last_polled_revision: self.state.log_trimmed().revision,
            ..self
        }
    }

    /// One round of the event loop.
    #[verifier::opaque]
    pub open spec fn polled(self, inbox: InboxView, now: Moment) -> ControllerView {
        self.deadlines_passed(now).backend_polled(inbox.backend_started, now).backend_heard(
            inbox.messages,
            now,
        ).workspace_polled(inbox.workspace).commit_polled(inbox.commit, now).git_polled(
            inbox.git,
        ).update_check_polled(inbox.update_check).update_install_polled(
            inbox.update_install,
        ).round_closed()
    }
}

impl Controller {
    fn expire_startup(&mut self, now: Moment)
        ensures
            final(self).deep_view() == old(self).deep_view().startup_expired(now),
    {
        proof {
            reveal(ControllerView::startup_expired);
        }
        let expired = match self.startup_deadline {
            Some(deadline) => now.ticks >= deadline,
            None => false,
        };
        if expired {
            self.disconnect("Codex startup timed out. Use Reconnect to retry.", now);
        }
    }

    fn has_expired_summary(&self, ticks: u64) -> (r: bool)
        ensures
            r == summary_expired(self.deep_view().active_summaries, ticks),
    {
        let entries = &self.active_summaries.entries;
        let ghost all = self.active_summaries.deep_view();
        let mut i: usize = 0;
        while i < entries.len()
            invariant
                i <= entries@.len(),
                *entries == self.active_summaries.entries,
                all == self.active_summaries.deep_view(),
                all == entries.deep_view(),
                forall|j: int| 0 <= j < i ==> ticks < (#[trigger] all[j]).1.deadline,
            decreases entries@.len() - i,
        {
            assert(all[i as int].1 == entries@[i as int].1.deep_view());
            if ticks >= entries[i].1.deadline {
                return true;
            }
            i += 1;
        }
        false
    }

    fn expire_summaries(&mut self, now: Moment)
        ensures
            final(self).deep_view() == old(self).deep_view().summaries_expired(now),
    {
        proof {
            reveal(ControllerView::summaries_expired);
        }
        if self.has_expired_summary(now.ticks) {
            self.disconnect(
                "Codex summary timed out. Reconnect to retry; staged files were retained.",
                now,
            );
        }
    }

    fn overdue(&self, ticks: u64) -> (r: Vec<u64>)
        ensures
            r@ == expired_ids(self.deep_view().pending, ticks),
    {
        let ghost all = self.deep_view().pending;
        let mut out: Vec<u64> = Vec::new();
        let mut i: usize = 0;
        assert(out@ =~= expired_ids(all.take(0), ticks));
        while i < self.pending.len()
            invariant
                i <= self.pending@.len(),
                all == self.pending.deep_view(),
                out@ == expired_ids(all.take(i as int), ticks),
            decreases self.pending@.len() - i,
        {
            assert(all.take(i as int + 1).drop_last() =~= all.take(i as int));
            assert(all[i as int] == self.pending@[i as int].deep_view());
            if ticks >= self.pending[i].deadline {
                out.push(self.pending[i].id);
            }
            i += 1;
        }
        assert(all.take(i as int) =~= all);
        out
    }

    fn in_doubt(&self, id: u64) -> (r: bool)
        ensures
            r == leaves_doubt(call_at(self.deep_view().pending, id)),
    {
        let ghost all = self.deep_view().pending;
        let ghost p = super::call_numbered(id);
        let mut i: usize = 0;
        while i < self.pending.len()
            invariant
                i <= self.pending@.len(),
                all == self.pending.deep_view(),
                p == super::call_numbered(id),
                forall|j: int| 0 <= j < i ==> !p(#[trigger] all[j]),
            decreases self.pending@.len() - i,
        {
            assert(all[i as int] == self.pending@[i as int].deep_view());
            if self.pending[i].id == id {
                proof {
                    crate::table::lemma_first_where_is(all, p, i as int);
                }
                return matches!(
                    self.pending[i].call,
                    PendingCall::ThreadStart { .. } | PendingCall::TurnStart { .. }
                        | PendingCall::Interrupt { .. } | PendingCall::SummaryThreadStart(_)
                        | PendingCall::SummaryTurnStart { .. }
                );
            }
            i += 1;
        }
        proof {
            crate::table::lemma_first_where_none(all, p);
        }
        false
    }

    fn expire_calls(&mut self, ids: &Vec<u64>, from: usize, now: Moment)
        requires
            from <= ids@.len(),
        ensures
            final(self).deep_view() == old(self).deep_view().calls_expired(
                ids@.skip(from as int),
                now,
            ),
        decreases ids@.len() - from,
    {
        if from < ids.len() {
            assert(ids@.skip(from as int)[0] == ids@[from as int]);
            assert(ids@.skip(from as int).drop_first() =~= ids@.skip(from as int + 1));
            if self.in_doubt(ids[from]) {
                self.disconnect(
                    "Codex request timed out. Reconnect before retrying the task.",
                    now,
                );
            } else {
                self.fail_call(ids[from], "Codex request timed out", now);
                self.expire_calls(ids, from + 1, now);
            }
        }
    }

    fn pass_deadlines(&mut self, now: Moment)
        ensures
            final(self).deep_view() == old(self).deep_view().deadlines_passed(now),
    {
        proof {
            reveal(ControllerView::deadlines_passed);
        }
        self.expire_startup(now);
        self.expire_summaries(now);
        let ids = self.overdue(now.ticks);
        assert(ids@.skip(0) =~= ids@);
        self.expire_calls(&ids, 0, now);
    }

    fn poll_backend(&mut self, started: Option<Result<bool, String>>, now: Moment)
        ensures
            final(self).deep_view() == old(self).deep_view().backend_polled(
                match started {
                    Some(r) => Some(result_of(r)),
                    None => None,
                },
                now,
            ),
    {
        proof {
            reveal(ControllerView::backend_polled);
        }
        if self.backend_start {
            match started {
                Some(result) => {
                    self.attach_backend(result, now);
                },
                None => {},
            }
        }
    }

    fn take_messages(&mut self, messages: &Vec<Json>, from: usize, upto: usize, now: Moment)
        requires
            from <= upto <= messages@.len(),
        ensures
            final(self).deep_view() == old(self).deep_view().messages_taken(
                messages.deep_view().subrange(from as int, upto as int),
                now,
            ),
        decreases upto - from,
    {
        if from < upto {
            let ghost part = messages.deep_view().subrange(from as int, upto as int);
            assert(part[0] == messages@[from as int].deep_view());
            assert(part.drop_first() =~= messages.deep_view().subrange(
                from as int + 1,
                upto as int,
            ));
            self.handle_message(&messages[from], now);
            self.take_messages(messages, from + 1, upto, now);
        }
    }

    fn hear_backend(&mut self, messages: &Vec<Json>, now: Moment)
        ensures
            final(self).deep_view() == old(self).deep_view().backend_heard(
                messages.deep_view(),
                now,
            ),
    {
        proof {
            reveal(ControllerView::backend_heard);
        }
        if self.backend {
            let upto: usize = if messages.len() > ROUND_MESSAGES {
                ROUND_MESSAGES
            } else {
                messages.len()
            };
            assert(messages.deep_view().subrange(0, upto as int) =~= round_of(
                messages.deep_view(),
            ));
            self.take_messages(messages, 0, upto, now);
        }
    }

    fn poll_workspace(&mut self, result: Option<(Option<String>, WorkspaceSnapshot)>)
        ensures
            final(self).deep_view() == old(self).deep_view().workspace_polled(result.deep_view()),
    {
        proof {
            reveal(ControllerView::workspace_polled);
        }
        match result {
            Some((root, snapshot)) => {
                if self.workspace_rx {
                    self.workspace_inspected(root, snapshot);
                }
            },
            None => {},
        }
    }

    fn poll_commit(&mut self, result: Option<(String, Result<CommitSnapshot, String>)>, now: Moment)
        ensures
            final(self).deep_view() == old(self).deep_view().commit_polled(
                match result {
                    Some(c) => Some((c.0@, result_of(c.1))),
                    None => None,
                },
                now,
            ),
    {
        proof {
            reveal(ControllerView::commit_polled);
        }
        match result {
            Some((root, outcome)) => {
                if self.commit_prepare_rx {
                    self.commit_prepared(root, outcome, now);
                }
            },
            None => {},
        }
    }

    fn poll_git(&mut self, result: Option<Result<String, String>>)
        ensures
            final(self).deep_view() == old(self).deep_view().git_polled(
                match result {
                    Some(r) => Some(result_of(r)),
                    None => None,
                },
            ),
    {
        proof {
            reveal(ControllerView::git_polled);
        }
        match result {
            Some(outcome) => {
                if self.git_action_rx {
                    self.git_finished(outcome);
                }
            },
            None => {},
        }
    }

    fn poll_update_check(&mut self, result: Option<Result<Option<String>, String>>)
        ensures
            final(self).deep_view() == old(self).deep_view().update_check_polled(
                match result {
                    Some(r) => Some(result_of(r)),
                    None => None,
                },
            ),
    {
        proof {
            reveal(ControllerView::update_check_polled);
        }
        match result {
            Some(outcome) => {
                if self.update_check_rx {
                    self.update_check_finished(outcome);
                }
            },
            None => {},
        }
    }

    fn poll_update_install(&mut self, result: Option<Result<(), String>>)
        ensures
            final(self).deep_view() == old(self).deep_view().update_install_polled(
                match result {
                    Some(r) => Some(result_of(r)),
                    None => None,
                },
            ),
    {
        proof {
            reveal(ControllerView::update_install_polled);
        }
        match result {
            Some(outcome) => {
                if self.update_install_rx {
                    self.update_install_finished(outcome);
                }
            },
            None => {},
        }
    }

    fn close_round(&mut self)
        ensures
            final(self).deep_view() == old(self).deep_view().round_closed(),
    {
        proof {
            reveal(ControllerView::round_closed);
        }
        self.state.trim_log();
        self.last_polled_revision = self.state.revision;
    }

    /// Takes everything that has come in; whether anything has changed since
    /// the last round.
    pub fn poll(&mut self, inbox: Inbox, now: Moment) -> (r: bool)
        ensures
            final(self).deep_view() == old(self).deep_view().polled(inbox.deep_view(), now),
            r == (old(self).deep_view().last_polled_revision
                != final(self).deep_view().last_polled_revision),
    {
        proof {
            reveal(ControllerView::polled);
        }
        let previous: u64 = self.last_polled_revision;
        self.pass_deadlines(now);
        self.poll_backend(inbox.backend_started, now);
        self.hear_backend(&inbox.messages, now);
        self.poll_workspace(inbox.workspace);
        self.poll_commit(inbox.commit, now);
        self.poll_git(inbox.git);
        self.poll_update_check(inbox.update_check);
        self.poll_update_install(inbox.update_install);
        self.close_round();
        previous != self.last_polled_revision
    }
}

} // verus!
