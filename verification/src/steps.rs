//! The single steps by which the controller changes the state.
use crate::model::{
    new_item, AccountInfo, AccountInfoView, ApprovalView, ContextWindowUsage, ConversationItem,
    ConversationItemView, ItemKind, LocalThreadView, ModelOption, ModelOptionView, PlanUsage,
    PlanUsageView,
};
use crate::prompt::{prompt_title, title_from_prompt};
use crate::session::{
    approvals_of_others, drop_approvals, drop_questions, fill_agents, plan_named, plan_of,
    prefs_with_models, questions_of_others, threads_filled,
};
use crate::state::{
    find_thread, is_id, no_git_status, thread_at, AppState, AppStateView, QuestionRequestView,
    QuestionView,
};
use crate::text::same_text;
use crate::workspace::{GitStatus, WorkspaceSnapshot, WorkspaceSnapshotView};
use vstd::prelude::*;
use vstd::string::*;

verus! {

/// The keys of a table, in order.
pub open spec fn keys<W>(s: Seq<(Seq<char>, W)>) -> Seq<Seq<char>> {
    Seq::new(s.len(), |i: int| s[i].0)
}

impl AppStateView {
    #[verifier::opaque]
    pub open spec fn with_connection(self, connected: bool, text: Seq<char>) -> AppStateView {
        AppStateView { connected, connection_text: text, ..self }
    }

    pub open spec fn with_account(self, account: AccountInfoView) -> AppStateView {
        AppStateView { account, ..self }
    }

    #[verifier::opaque]
    pub open spec fn with_models(self, models: Seq<ModelOptionView>) -> AppStateView {
        AppStateView {
            models,
            prefs: prefs_with_models(self.prefs, models),
            threads: threads_filled(self.threads, prefs_with_models(self.prefs, models)),
            ..self
        }
    }

    #[verifier::opaque]
    pub open spec fn usage_requested(self) -> AppStateView {
        AppStateView { usage_loading: true, usage_error: None, ..self }
    }

    #[verifier::opaque]
    pub open spec fn usage_failed(self, text: Seq<char>) -> AppStateView {
        AppStateView { usage_loading: false, usage_error: Some(text), ..self }
    }

    #[verifier::opaque]
    pub open spec fn with_usage(self, usage: PlanUsageView) -> AppStateView {
        AppStateView {
            usage_loading: false,
            usage_error: None,
            account: AccountInfoView {
                plan: plan_of(usage.limits, self.account.plan),
                ..self.account
            },
            plan_usage: Some(usage),
            ..self
        }
    }

    pub open spec fn resetting(self, running: bool) -> AppStateView {
        AppStateView { reset_in_progress: running, ..self }
    }

    pub open spec fn git_busy(self, busy: bool) -> AppStateView {
        AppStateView { git_action_in_progress: busy, ..self }
    }

    /// The next approval that waits is shown.
    #[verifier::opaque]
    pub open spec fn next_approval(self) -> AppStateView {
        if self.approval_queue.len() > 0 {
            AppStateView {
                approval: Some(self.approval_queue[0]),
                approval_queue: self.approval_queue.drop_first(),
                ..self
            }
        } else {
            AppStateView { approval: None, ..self }
        }
    }

    /// The next questions that wait are shown.
    #[verifier::opaque]
    pub open spec fn next_question(self) -> AppStateView {
        if self.user_question_queue.len() > 0 {
            AppStateView {
                user_question: Some(self.user_question_queue[0]),
                user_question_queue: self.user_question_queue.drop_first(),
                ..self
            }
        } else {
            AppStateView { user_question: None, ..self }
        }
    }

    pub open spec fn with_approval_queue(self, queue: Seq<ApprovalView>) -> AppStateView {
        AppStateView { approval_queue: queue, ..self }
    }

    pub open spec fn with_question_queue(self, queue: Seq<QuestionRequestView>) -> AppStateView {
        AppStateView { user_question_queue: queue, ..self }
    }

    /// What a thread asked approval for is forgotten; what is shown then is the
    /// approval that was shown, if it was another thread's, else the next one.
    #[verifier::opaque]
    pub open spec fn approvals_dropped(self, id: Seq<char>) -> AppStateView {
        let s = self.with_approval_queue(approvals_of_others(self.approval_queue, id));
        if self.approval is None || self.approval->0.local_thread_id == Some(id) {
            s.next_approval()
        } else {
            s
        }
    }

    /// What a thread asked is forgotten in the same way.
    #[verifier::opaque]
    pub open spec fn questions_dropped(self, id: Seq<char>) -> AppStateView {
        let s = self.with_question_queue(questions_of_others(self.user_question_queue, id));
        if self.user_question is None || self.user_question->0.local_thread_id == Some(id) {
            s.next_question()
        } else {
            s
        }
    }

    /// The turns of these threads end, what still ran in them interrupted.
    pub open spec fn turns_ended(self, ids: Seq<Seq<char>>, now_ms: u64) -> AppStateView
        decreases ids.len(),
    {
        if ids.len() == 0 {
            self
        } else {
            self.items_interrupted(ids[0]).turn_finished(ids[0], now_ms).turns_ended(
                ids.drop_first(),
                now_ms,
            )
        }
    }

    pub open spec fn runtime_forgotten(self) -> AppStateView {
        AppStateView { runtime_threads: Seq::empty(), ..self }
    }

    /// Nothing waits for the backend or the user any more.
    #[verifier::opaque]
    pub open spec fn waiting_cleared(self, git_idle: bool) -> AppStateView {
        AppStateView {
            turn_started_at_ms: Seq::empty(),
            approval: None,
            approval_queue: Seq::empty(),
            user_question: None,
            user_question_queue: Seq::empty(),
            usage_loading: false,
            reset_in_progress: false,
            git_action_in_progress: self.git_action_in_progress && !git_idle,
            ..self
        }
    }

    /// Everything that belonged to a connection is gone.
    #[verifier::opaque]
    pub open spec fn runtime_cleared(self, now_ms: u64, git_idle: bool) -> AppStateView {
        self.runtime_forgotten().turns_ended(keys(self.running_turns), now_ms).waiting_cleared(
            git_idle,
        )
    }

    /// The prompt of the user is on screen.
    #[verifier::opaque]
    pub open spec fn with_prompt(
        self,
        item_id: Seq<char>,
        text: Seq<char>,
        attachments: Seq<Seq<char>>,
    ) -> AppStateView {
        AppStateView {
            conversation: self.conversation.push(
                ConversationItemView {
                    body: text,
                    status: "completed"@,
                    attachments,
                    ..new_item(item_id, ItemKind::User, "You"@)
                },
            ),
            ..self
        }
    }

    /// A thread was used, and named by its first prompt.
    #[verifier::opaque]
    pub open spec fn thread_stamped(self, id: Seq<char>, now: i64, text: Seq<char>) -> AppStateView {
        match thread_at(self.threads, id) {
            Some(i) => AppStateView {
                threads: self.threads.update(
                    i,
                    LocalThreadView {
                        updated_at: now,
                        title: if self.threads[i].title == "New thread"@ {
                            prompt_title(text)
                        } else {
                            self.threads[i].title
                        },
                        ..self.threads[i]
                    },
                ),
                ..self
            },
            None => self,
        }
    }

    #[verifier::opaque]
    pub open spec fn snapshot_applied(self, snapshot: WorkspaceSnapshotView) -> AppStateView {
        AppStateView {
            git_diff: snapshot.diff,
            files: snapshot.files,
            git_status: snapshot.git,
            workspace_loading: false,
            ..self
        }.touched()
    }

    /// Nothing is known of the workspace yet.
    #[verifier::opaque]
    pub open spec fn workspace_reset(self, github_configured: bool, loading: bool) -> AppStateView {
        AppStateView {
            git_diff: Seq::empty(),
            files: Seq::empty(),
            git_status: GitStatus {
                installed: self.git_status.installed,
                github_configured,
                ..no_git_status()
            },
            workspace_loading: loading,
            ..self
        }.touched()
    }

    #[verifier::opaque]
    pub open spec fn with_thread_usage(self, id: Seq<char>, usage: ContextWindowUsage) -> AppStateView {
        match thread_at(self.threads, id) {
            Some(i) => AppStateView {
                threads: self.threads.update(
                    i,
                    LocalThreadView { context_usage: Some(usage), ..self.threads[i] },
                ),
                ..self
            },
            None => self,
        }
    }

    #[verifier::opaque]
    pub open spec fn with_thread_title(self, id: Seq<char>, title: Seq<char>) -> AppStateView {
        match thread_at(self.threads, id) {
            Some(i) => AppStateView {
                threads: self.threads.update(
                    i,
                    LocalThreadView { title, title_generated: true, ..self.threads[i] },
                ),
                ..self
            },
            None => self,
        }
    }

    /// The log keeps its last thousand lines.
    #[verifier::opaque]
    pub open spec fn log_trimmed(self) -> AppStateView {
        AppStateView {
            activity_log: if self.activity_log.len() > 1000 {
                self.activity_log.skip(self.activity_log.len() - 1000)
            } else {
                self.activity_log
            },
            ..self
        }
    }

    /// A question that is shown gets an answer.
    #[verifier::opaque]
    pub open spec fn with_answer(self, index: nat, answer: Seq<char>) -> AppStateView {
        match self.user_question {
            Some(request) => if index < request.questions.len() {
                AppStateView {
                    user_question: Some(
                        QuestionRequestView {
                            questions: request.questions.update(
                                index as int,
                                QuestionView { answer, ..request.questions[index as int] },
                            ),
                            ..request
                        },
                    ),
                    ..self
                }.touched()
            } else {
                self
            },
            None => self,
        }
    }
}

impl AppState {
    pub fn set_connection(&mut self, connected: bool, text: &str)
        ensures
            final(self).deep_view() == old(self).deep_view().with_connection(connected, text@),
    {
        proof {
            reveal(AppStateView::with_connection);
        }
        self.connected = connected;
        self.connection_text = text.to_owned();
    }

    pub fn set_account(&mut self, account: AccountInfo)
        ensures
            final(self).deep_view() == old(self).deep_view().with_account(account.deep_view()),
    {
        self.account = account;
    }

    pub fn set_models(&mut self, models: Vec<ModelOption>)
        ensures
            final(self).deep_view() == old(self).deep_view().with_models(models.deep_view()),
    {
        proof {
            reveal(AppStateView::with_models);
        }
        self.prefs.fit_models(&models);
        fill_agents(&mut self.threads, &self.prefs);
        self.models = models;
    }

    pub fn request_usage(&mut self)
        ensures
            final(self).deep_view() == old(self).deep_view().usage_requested(),
    {
        proof {
            reveal(AppStateView::usage_requested);
        }
        self.usage_loading = true;
        self.usage_error = None;
    }

    pub fn fail_usage(&mut self, text: &str)
        ensures
            final(self).deep_view() == old(self).deep_view().usage_failed(text@),
    {
        proof {
            reveal(AppStateView::usage_failed);
        }
        self.usage_loading = false;
        self.usage_error = Some(text.to_owned());
    }

    pub fn set_usage(&mut self, usage: PlanUsage)
        ensures
            final(self).deep_view() == old(self).deep_view().with_usage(usage.deep_view()),
    {
        proof {
            reveal(AppStateView::with_usage);
        }
        self.usage_loading = false;
        self.usage_error = None;
        self.account.plan = plan_named(&usage.limits, self.account.plan.as_str());
        self.plan_usage = Some(usage);
    }

    pub fn show_next_approval(&mut self)
        ensures
            final(self).deep_view() == old(self).deep_view().next_approval(),
    {
        proof {
            reveal(AppStateView::next_approval);
        }
        let ghost before = self.approval_queue.deep_view();
        if self.approval_queue.len() > 0 {
            let next = self.approval_queue.remove(0);
            assert(self.approval_queue.deep_view() =~= before.drop_first());
            assert(next.deep_view() == before[0]);
            self.approval = Some(next);
        } else {
            self.approval = None;
        }
    }

    pub fn show_next_question(&mut self)
        ensures
            final(self).deep_view() == old(self).deep_view().next_question(),
    {
        proof {
            reveal(AppStateView::next_question);
        }
        let ghost before = self.user_question_queue.deep_view();
        if self.user_question_queue.len() > 0 {
            let next = self.user_question_queue.remove(0);
            assert(self.user_question_queue.deep_view() =~= before.drop_first());
            assert(next.deep_view() == before[0]);
            self.user_question = Some(next);
        } else {
            self.user_question = None;
        }
    }

    pub fn drop_approvals_of(&mut self, id: &str)
        ensures
            final(self).deep_view() == old(self).deep_view().approvals_dropped(id@),
    {
        proof {
            reveal(AppStateView::approvals_dropped);
        }
        let next = match &self.approval {
            Some(approval) => is_id(&approval.local_thread_id, id),
            None => true,
        };
        drop_approvals(&mut self.approval_queue, id);
        if next {
            self.show_next_approval();
        }
    }

    pub fn drop_questions_of(&mut self, id: &str)
        ensures
            final(self).deep_view() == old(self).deep_view().questions_dropped(id@),
    {
        proof {
            reveal(AppStateView::questions_dropped);
        }
        let next = match &self.user_question {
            Some(question) => is_id(&question.local_thread_id, id),
            None => true,
        };
        drop_questions(&mut self.user_question_queue, id);
        if next {
            self.show_next_question();
        }
    }

    fn end_turns(&mut self, ids: &Vec<String>, now_ms: u64)
        ensures
            final(self).deep_view() == old(self).deep_view().turns_ended(ids.deep_view(), now_ms),
    {
        let ghost before = self.deep_view();
        let ghost all = ids.deep_view();
        let mut i: usize = 0;
        assert(all.skip(0) =~= all);
        while i < ids.len()
            invariant
                i <= ids@.len(),
                all == ids.deep_view(),
                before.turns_ended(all, now_ms) == self.deep_view().turns_ended(
                    all.skip(i as int),
                    now_ms,
                ),
            decreases ids@.len() - i,
        {
            assert(all.skip(i as int)[0] == ids@[i as int]@);
            assert(all.skip(i as int).drop_first() =~= all.skip(i as int + 1));
            self.interrupt_items(ids[i].as_str());
            self.finish_turn(ids[i].as_str(), now_ms);
            i += 1;
        }
        assert(all.skip(i as int).len() == 0);
    }

    fn running_ids(&self) -> (r: Vec<String>)
        ensures
            r.deep_view() == keys(self.deep_view().running_turns),
    {
        let mut out: Vec<String> = Vec::new();
        let mut i: usize = 0;
        while i < self.running_turns.entries.len()
            invariant
                i <= self.running_turns.entries@.len(),
                out@.len() == i,
                forall|j: int|
                    0 <= j < i ==> (#[trigger] out@[j])@ == self.running_turns.entries@[j].0@,
            decreases self.running_turns.entries@.len() - i,
        {
            out.push(self.running_turns.entries[i].0.clone());
            i += 1;
        }
        assert(out.deep_view() =~= keys(self.deep_view().running_turns));
        out
    }

    fn clear_waiting(&mut self, git_idle: bool)
        ensures
            final(self).deep_view() == old(self).deep_view().waiting_cleared(git_idle),
    {
        proof {
            reveal(AppStateView::waiting_cleared);
        }
        self.turn_started_at_ms.clear();
        self.approval = None;
        self.approval_queue = Vec::new();
        self.user_question = None;
        self.user_question_queue = Vec::new();
        self.usage_loading = false;
        self.reset_in_progress = false;
        let busy = self.git_action_in_progress && !git_idle;
        self.git_action_in_progress = busy;
        assert(self.approval_queue.deep_view() =~= Seq::empty());
        assert(self.user_question_queue.deep_view() =~= Seq::empty());
    }

    pub fn clear_runtime(&mut self, now_ms: u64, git_idle: bool)
        ensures
            final(self).deep_view() == old(self).deep_view().runtime_cleared(now_ms, git_idle),
    {
        proof {
            reveal(AppStateView::runtime_cleared);
        }
        let ids = self.running_ids();
        self.runtime_threads.clear();
        self.end_turns(&ids, now_ms);
        self.clear_waiting(git_idle);
    }

    pub fn add_prompt(&mut self, item_id: &str, text: &str, attachments: &Vec<String>)
        ensures
            final(self).deep_view() == old(self).deep_view().with_prompt(
                item_id@,
                text@,
                attachments.deep_view(),
            ),
    {
        proof {
            reveal(AppStateView::with_prompt);
        }
        let ghost before = self.conversation.deep_view();
        let mut item = ConversationItem::new(item_id, ItemKind::User, "You");
        item.body = text.to_owned();
        item.status = "completed".to_owned();
        item.attachments = attachments.clone();
        assert(item.attachments.deep_view() =~= attachments.deep_view());
        let ghost view = item.deep_view();
        self.conversation.push(item);
        assert(self.conversation.deep_view() =~= before.push(view));
    }

    pub fn stamp_thread(&mut self, id: &str, now: i64, text: &str)
        ensures
            final(self).deep_view() == old(self).deep_view().thread_stamped(id@, now, text@),
    {
        proof {
            reveal(AppStateView::thread_stamped);
        }
        match find_thread(&self.threads, id) {
            Some(i) => {
                let ghost before = self.deep_view();
                let title = if same_text(self.threads[i].title.as_str(), "New thread") {
                    title_from_prompt(text)
                } else {
                    self.threads[i].title.clone()
                };
                self.threads[i].updated_at = now;
                self.threads[i].title = title;
                assert(self.threads.deep_view() =~= before.thread_stamped(id@, now, text@).threads);
            },
            None => {},
        }
    }

    pub fn apply_snapshot(&mut self, snapshot: WorkspaceSnapshot)
        ensures
            final(self).deep_view() == old(self).deep_view().snapshot_applied(snapshot.deep_view()),
    {
        proof {
            reveal(AppStateView::snapshot_applied);
        }
        self.git_diff = snapshot.diff;
        self.files = snapshot.files;
        self.git_status = snapshot.git;
        self.workspace_loading = false;
        self.touch();
    }

    pub fn reset_workspace(&mut self, github_configured: bool, loading: bool)
        ensures
            final(self).deep_view() == old(self).deep_view().workspace_reset(
                github_configured,
                loading,
            ),
    {
        proof {
            reveal(AppStateView::workspace_reset);
        }
        let installed = self.git_status.installed;
        self.git_diff = String::new();
        self.files = Vec::new();
        let mut status = GitStatus::default();
        status.installed = installed;
        status.github_configured = github_configured;
        self.git_status = status;
        self.workspace_loading = loading;
        self.touch();
        assert(self.files.deep_view() =~= Seq::empty());
    }

    pub fn set_thread_usage(&mut self, id: &str, usage: ContextWindowUsage)
        ensures
            final(self).deep_view() == old(self).deep_view().with_thread_usage(id@, usage),
    {
        proof {
            reveal(AppStateView::with_thread_usage);
        }
        match find_thread(&self.threads, id) {
            Some(i) => {
                let ghost before = self.deep_view();
                self.threads[i].context_usage = Some(usage);
                assert(self.threads.deep_view() =~= before.with_thread_usage(id@, usage).threads);
            },
            None => {},
        }
    }

    pub fn set_thread_title(&mut self, id: &str, title: &str)
        ensures
            final(self).deep_view() == old(self).deep_view().with_thread_title(id@, title@),
    {
        proof {
            reveal(AppStateView::with_thread_title);
        }
        match find_thread(&self.threads, id) {
            Some(i) => {
                let ghost before = self.deep_view();
                self.threads[i].title = title.to_owned();
                self.threads[i].title_generated = true;
                assert(self.threads.deep_view() =~= before.with_thread_title(id@, title@).threads);
            },
            None => {},
        }
    }

    pub fn trim_log(&mut self)
        ensures
            final(self).deep_view() == old(self).deep_view().log_trimmed(),
    {
        proof {
            reveal(AppStateView::log_trimmed);
        }
        let ghost before = self.activity_log.deep_view();
        let n: usize = self.activity_log.len();
        if n > 1000 {
            let kept = self.activity_log.split_off(n - 1000);
            assert(kept.deep_view() =~= before.skip(n - 1000));
            self.activity_log = kept;
        }
    }

    pub fn answer_question(&mut self, index: usize, answer: String)
        ensures
            final(self).deep_view() == old(self).deep_view().with_answer(index as nat, answer@),
    {
        proof {
            reveal(AppStateView::with_answer);
        }
        let ghost before = self.deep_view();
        let mut changed = false;
        match &mut self.user_question {
            Some(request) => {
                if index < request.questions.len() {
                    let ghost had = request.questions.deep_view();
                    request.questions[index].answer = answer;
                    changed = true;
                    assert(request.questions.deep_view() =~= had.update(
                        index as int,
                        QuestionView { answer: answer@, ..had[index as int] },
                    ));
                }
            },
            None => {},
        }
        if changed {
            self.touch();
        }
    }
}

} // verus!
