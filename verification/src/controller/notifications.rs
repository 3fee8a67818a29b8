//! Notifications of the backend, and the messages that carry everything.
use super::requests::local_of;
use super::responses::contains_pair;
use super::{
    call_at, ActiveSummary, ActiveSummaryView, Controller, ControllerView, Moment,
    SummaryTarget, SummaryTargetView,
};
use crate::formatting::{is_skills_budget_warning, skills_budget_warning};
use crate::items::{append_delta_to, delta_appended, ingest_into, item_ingested};
use crate::json::{object1, Json, JsonView};
use crate::model::{
    owned_or, owned_or_empty, text_or, text_or_empty, usage_of_notification, ContextWindowUsage,
    ItemKind,
};
use crate::prompt::{clean_summary, summary_of};
use crate::protocol::member_or_null;
use crate::session::account_of;
use crate::state::{find_thread, is_id, AppState, AppStateView};
use crate::table::{has_key, lookup, put};
use crate::text::{cat, contains, has_text, same_text};
use vstd::prelude::*;
use vstd::string::*;

verus! {

impl AppStateView {
    /// An item of a thread was reported.
    #[verifier::opaque]
    pub open spec fn item_taken(self, local: Seq<char>, item: JsonView, completed: bool) -> AppStateView {
        match self.thread_messages(local) {
            Some(messages) => self.with_messages(local, item_ingested(messages, item, completed)),
            None => self,
        }
    }

    /// A piece of text of a thread came in.
    #[verifier::opaque]
    pub open spec fn delta_taken(
        self,
        local: Seq<char>,
        params: JsonView,
        kind: ItemKind,
        title: Seq<char>,
    ) -> AppStateView {
        match self.thread_messages(local) {
            Some(messages) => self.with_messages(
                local,
                delta_appended(messages, params, kind, title),
            ),
            None => self,
        }
    }
}

impl AppState {
    pub fn take_item(&mut self, local: &str, item: &Json, completed: bool)
        ensures
            final(self).deep_view() == old(self).deep_view().item_taken(
                local@,
                item.deep_view(),
                completed,
            ),
    {
        proof {
            reveal(AppStateView::item_taken);
        }
        if is_id(&self.active_local_thread, local) {
            ingest_into(&mut self.conversation, item, completed);
        } else {
            match find_thread(&self.threads, local) {
                Some(i) => {
                    let ghost before = self.deep_view();
                    ingest_into(&mut self.threads[i].messages, item, completed);
                    assert(self.threads.deep_view() =~= before.item_taken(
                        local@,
                        item.deep_view(),
                        completed,
                    ).threads);
                },
                None => {},
            }
        }
    }

    pub fn take_delta(&mut self, local: &str, params: &Json, kind: ItemKind, title: &str)
        ensures
            final(self).deep_view() == old(self).deep_view().delta_taken(
                local@,
                params.deep_view(),
                kind,
                title@,
            ),
    {
        proof {
            reveal(AppStateView::delta_taken);
        }
        if is_id(&self.active_local_thread, local) {
            append_delta_to(&mut self.conversation, params, kind, title);
        } else {
            match find_thread(&self.threads, local) {
                Some(i) => {
                    let ghost before = self.deep_view();
                    append_delta_to(&mut self.threads[i].messages, params, kind, title);
                    assert(self.threads.deep_view() =~= before.delta_taken(
                        local@,
                        params.deep_view(),
                        kind,
                        title@,
                    ).threads);
                },
                None => {},
            }
        }
    }
}

/// The text of a member of a member of a member.
pub open spec fn text_at3(
    value: JsonView,
    first: Seq<char>,
    second: Seq<char>,
    third: Seq<char>,
) -> Option<Seq<char>> {
    match value.get(first) {
        Some(v) => v.text_at2(second, third),
        None => None,
    }
}

fn get_text3<'a>(value: &'a Json, first: &str, second: &str, third: &str) -> (r: Option<&'a str>)
    ensures
        r.deep_view() == text_at3(value.deep_view(), first@, second@, third@),
{
    match value.get(first) {
        Some(v) => v.text_at2(second, third),
        None => None,
    }
}

/// What a summary has written so far, after a notification about it.
pub open spec fn summary_output(output: Seq<char>, method: Seq<char>, params: JsonView) -> Seq<char> {
    if method == "item/agentMessage/delta"@ {
        output + text_or_empty(params.text_at("delta"@))
    } else if method == "item/completed"@ && params.text_at2("item"@, "type"@) == Some(
        "agentMessage"@,
    ) && text_or_empty(params.text_at2("item"@, "text"@)).len() > 0 {
        params.text_at2("item"@, "text"@)->0
    } else {
        output
    }
}

/// The end of a turn is logged, and its failure reported.
#[verifier::opaque]
pub open spec fn turn_end_logged(state: AppStateView, params: JsonView) -> AppStateView {
    let status = text_or(params.text_at2("turn"@, "status"@), "completed"@);
    let s = state.logged("Turn "@ + status);
    if status == "failed"@ {
        s.with_error(
            text_or(
                text_at3(params, "turn"@, "error"@, "message"@),
                "The Codex turn failed"@,
            ),
        )
    } else {
        s
    }
}

/// The message of a warning.
pub open spec fn warning_text(params: JsonView) -> Seq<char> {
    text_or(
        match params.get("message"@) {
            Some(v) => v.as_text(),
            None => params.text_at("summary"@),
        },
        "Codex reported a warning"@,
    )
}

impl ControllerView {
    #[verifier::opaque]
    pub open spec fn item_reported(self, params: JsonView, completed: bool) -> ControllerView {
        match (local_of(self.state.runtime_threads, params), params.get("item"@)) {
            (Some(local), Some(item)) => self.with_state(
                self.state.item_taken(local, item, completed).touched(),
            ),
            _ => self,
        }
    }

    #[verifier::opaque]
    pub open spec fn delta_reported(
        self,
        params: JsonView,
        kind: ItemKind,
        title: Seq<char>,
    ) -> ControllerView {
        match local_of(self.state.runtime_threads, params) {
            Some(local) => self.with_state(
                self.state.delta_taken(local, params, kind, title).touched(),
            ),
            None => self,
        }
    }

    /// The backend says that a turn runs: believed of a thread whose turn is
    /// under way, and not of a turn that is over.
    #[verifier::opaque]
    pub open spec fn turn_start_reported(self, params: JsonView, now: Moment) -> ControllerView {
        match local_of(self.state.runtime_threads, params) {
            Some(local) => {
                let turn_id = params.text_at2("turn"@, "id"@);
                if !has_key(self.state.running_turns, local) || (turn_id is Some
                    && self.completed_turns.contains((local, turn_id->0))) {
                    self
                } else {
                    self.turn_running(local, turn_id, now).noted("Agent turn started"@)
                }
            },
            None => self,
        }
    }

    /// A line is logged and seen.
    #[verifier::opaque]
    pub open spec fn noted(self, line: Seq<char>) -> ControllerView {
        self.with_state(self.state.logged(line).touched())
    }

    /// The end of a turn is logged and the conversation kept.
    #[verifier::opaque]
    pub open spec fn turn_end_kept(self, params: JsonView) -> ControllerView {
        self.with_state(turn_end_logged(self.state, params).synced())
    }

    /// What the end of a turn does apart from the turn itself.
    #[verifier::opaque]
    pub open spec fn turn_end_told(self, params: JsonView) -> ControllerView {
        self.turn_end_kept(params).workspace_refreshed().touched()
    }

    /// The backend says that a turn is over. Of a turn that was over already
    /// nothing more is done, and the turn that runs is ended by no other.
    #[verifier::opaque]
    pub open spec fn turn_end_reported(self, params: JsonView, now: Moment) -> ControllerView {
        match local_of(self.state.runtime_threads, params) {
            Some(local) => match params.text_at2("turn"@, "id"@) {
                Some(turn_id) => {
                    let c = self.turn_completed(local, turn_id);
                    if self.completed_turns.contains((local, turn_id)) {
                        self
                    } else if lookup(self.state.running_turns, local) matches Some(Some(running))
                        && running != turn_id {
                        c
                    } else {
                        c.local_turn_finished(local, now).turn_end_told(params)
                    }
                },
                None => self.local_turn_finished(local, now).turn_end_told(params),
            },
            None => self.turn_end_told(params),
        }
    }

    #[verifier::opaque]
    pub open spec fn usage_reported(self, params: JsonView) -> ControllerView {
        match (local_of(self.state.runtime_threads, params), usage_of_notification(params)) {
            (Some(local), Some(usage)) => self.with_state(
                self.state.with_thread_usage(local, usage).touched(),
            ),
            _ => self,
        }
    }

    #[verifier::opaque]
    pub open spec fn account_reported(self, params: JsonView) -> ControllerView {
        match params.get("account"@) {
            Some(account) => self.with_state(
                self.state.with_account(
                    account_of(JsonView::Object(seq![("account"@, account)])),
                ).touched(),
            ),
            None => self,
        }
    }

    #[verifier::opaque]
    pub open spec fn stderr_reported(self, params: JsonView) -> ControllerView {
        match params.text_at("message"@) {
            Some(message) => if has_text(message, "ERROR"@) || has_text(message, "WARN"@) {
                self.noted("Codex: "@ + message)
            } else {
                self
            },
            None => self,
        }
    }

    #[verifier::opaque]
    pub open spec fn warning_reported(self, params: JsonView) -> ControllerView {
        if skills_budget_warning(warning_text(params)) {
            self
        } else {
            self.errored(warning_text(params))
        }
    }

    /// The summary that a notification is about.
    pub open spec fn summary_of_notice(self, params: JsonView) -> Option<ActiveSummaryView> {
        match params.text_at("threadId"@) {
            Some(thread_id) => lookup(self.active_summaries, thread_id),
            None => None,
        }
    }

    /// A title was written.
    #[verifier::opaque]
    pub open spec fn title_written(self, local: Seq<char>, output: Seq<char>) -> ControllerView {
        let title = summary_of(output, 70);
        if title.len() > 0 {
            self.with_state(self.state.with_thread_title(local, title))
        } else {
            self
        }
    }

    /// A commit subject was written: the commit follows, unless writing failed
    /// or nothing came of it.
    #[verifier::opaque]
    pub open spec fn subject_written(
        self,
        root: Seq<char>,
        snapshot: crate::workspace::CommitSnapshotView,
        output: Seq<char>,
        params: JsonView,
    ) -> ControllerView {
        let message = summary_of(output, 72);
        if text_or(params.text_at2("turn"@, "status"@), "completed"@) == "failed"@ {
            self.with_state(
                self.state.git_busy(false).with_error(
                    text_or(
                        text_at3(params, "turn"@, "error"@, "message"@),
                        "The commit-message summary failed"@,
                    ),
                ),
            )
        } else if message.len() == 0 {
            self.with_state(
                self.state.git_busy(false).with_error(
                    "The summary model did not return a commit message"@,
                ),
            )
        } else {
            self.commit_started(root, message, snapshot)
        }
    }

    /// A summary is done.
    #[verifier::opaque]
    pub open spec fn summary_done(self, summary: ActiveSummaryView, params: JsonView) -> ControllerView {
        let c = self.summary_dropped(summary.key);
        match summary.target {
            SummaryTargetView::ThreadTitle { local_thread_id } => c.title_written(
                local_thread_id,
                summary.output,
            ).touched(),
            SummaryTargetView::GitCommit { root, snapshot } => c.subject_written(
                root,
                snapshot,
                summary.output,
                params,
            ).touched(),
        }
    }

    /// A notification about a summary.
    #[verifier::opaque]
    pub open spec fn summary_notified(
        self,
        summary: ActiveSummaryView,
        method: Seq<char>,
        params: JsonView,
    ) -> ControllerView {
        let thread_id = params.text_at("threadId"@)->0;
        if method == "turn/completed"@ {
            self.summary_closed(thread_id).summary_done(summary, params)
        } else {
            self.with_summary(
                thread_id,
                ActiveSummaryView {
                    output: summary_output(summary.output, method, params),
                    ..summary
                },
            )
        }
    }

    /// A notification about anything else.
    #[verifier::opaque]
    pub open spec fn plainly_notified(
        self,
        method: Seq<char>,
        params: JsonView,
        now: Moment,
    ) -> ControllerView {
        if method == "backend/exited"@ || method == "backend/protocolError"@ {
            self.disconnected(text_or(params.text_at("message"@), method), now)
        } else if method == "backend/stderr"@ {
            self.stderr_reported(params)
        } else if method == "item/started"@ {
            self.item_reported(params, false)
        } else if method == "item/completed"@ {
            self.item_reported(params, true)
        } else if method == "item/agentMessage/delta"@ {
            self.delta_reported(params, ItemKind::Assistant, "Codex"@)
        } else if method == "item/reasoning/summaryTextDelta"@ || method
            == "item/reasoning/textDelta"@ {
            self.delta_reported(params, ItemKind::Reasoning, "Reasoning"@)
        } else if method == "item/plan/delta"@ {
            self.delta_reported(params, ItemKind::Plan, "Plan"@)
        } else if method == "item/commandExecution/outputDelta"@ {
            self.delta_reported(params, ItemKind::Command, "Command"@)
        } else if method == "turn/started"@ {
            self.turn_start_reported(params, now)
        } else if method == "turn/completed"@ {
            self.turn_end_reported(params, now)
        } else if method == "thread/tokenUsage/updated"@ {
            self.usage_reported(params)
        } else if method == "account/updated"@ {
            self.account_reported(params)
        } else if method == "account/rateLimits/updated"@ {
            self.usage_refreshed(now)
        } else if method == "warning"@ || method == "configWarning"@ || method == "error"@ {
            self.warning_reported(params)
        } else {
            self
        }
    }

    /// A notification: the threads of summaries are known to them alone.
    #[verifier::opaque]
    pub open spec fn notified(self, method: Seq<char>, params: JsonView, now: Moment) -> ControllerView {
        match self.summary_of_notice(params) {
            Some(summary) => self.summary_notified(summary, method, params),
            None => self.plainly_notified(method, params, now),
        }
    }

    /// The answer to a call.
    #[verifier::opaque]
    pub open spec fn answered(self, id: u64, message: JsonView, now: Moment) -> ControllerView {
        match message.get("error"@) {
            Some(error) => self.call_failed(
                id,
                text_or(error.text_at("message"@), "Unknown Codex error"@),
                now,
            ),
            None => match (call_at(self.pending, id), message.get("result"@)) {
                (Some(call), Some(result)) => self.call_closed(id).responded(
                    call,
                    result,
                    now,
                ).startup_checked(),
                _ => self.call_closed(id).startup_checked(),
            },
        }
    }

    /// A message of the backend: a request of its own, the answer to a call,
    /// or a notification.
    #[verifier::opaque]
    pub open spec fn message_taken(self, message: JsonView, now: Moment) -> ControllerView {
        if message.get("id"@) is Some && message.get("method"@) is Some {
            self.server_requested(message)
        } else {
            match message.u64_at("id"@) {
                Some(id) => self.answered(id, message, now),
                None => match message.text_at("method"@) {
                    Some(method) => self.notified(
                        method,
                        member_or_null(message, "params"@),
                        now,
                    ),
                    None => self,
                },
            }
        }
    }
}

impl Controller {
    fn take_item(&mut self, local: &str, item: &Json, completed: bool)
        ensures
            final(self).deep_view() == old(self).deep_view().with_state(
                old(self).deep_view().state.item_taken(
                    local@,
                    item.deep_view(),
                    completed,
                ).touched(),
            ),
    {
        self.state.take_item(local, item, completed);
        self.state.touch();
    }

    fn report_item(&mut self, params: &Json, completed: bool)
        ensures
            final(self).deep_view() == old(self).deep_view().item_reported(
                params.deep_view(),
                completed,
            ),
    {
        proof {
            reveal(ControllerView::item_reported);
        }
        match self.local_thread_id(params) {
            Some(local) => match params.get("item") {
                Some(item) => {
                    self.take_item(local.as_str(), item, completed);
                },
                None => {},
            },
            None => {},
        }
    }

    fn take_delta(&mut self, local: &str, params: &Json, kind: ItemKind, title: &str)
        ensures
            final(self).deep_view() == old(self).deep_view().with_state(
                old(self).deep_view().state.delta_taken(
                    local@,
                    params.deep_view(),
                    kind,
                    title@,
                ).touched(),
            ),
    {
        self.state.take_delta(local, params, kind, title);
        self.state.touch();
    }

    fn append_delta_for(&mut self, params: &Json, kind: ItemKind, title: &str)
        ensures
            final(self).deep_view() == old(self).deep_view().delta_reported(
                params.deep_view(),
                kind,
                title@,
            ),
    {
        proof {
            reveal(ControllerView::delta_reported);
        }
        match self.local_thread_id(params) {
            Some(local) => {
                self.take_delta(local.as_str(), params, kind, title);
            },
            None => {},
        }
    }

    fn log_and_touch(&mut self, line: &str)
        ensures
            final(self).deep_view() == old(self).deep_view().noted(line@),
    {
        proof {
            reveal(ControllerView::noted);
        }
        self.state.log(line);
        self.state.touch();
    }

    /// Whether a turn can have started in a thread.
    fn believes_start(&self, local: &str, turn_id: &Option<String>) -> (r: bool)
        ensures
            r == !(!has_key(self.deep_view().state.running_turns, local@) || (turn_id.deep_view() is Some
                && self.deep_view().completed_turns.contains((local@, turn_id.deep_view()->0)))),
    {
        if !self.state.running_turns.contains_key(local) {
            return false;
        }
        match turn_id {
            Some(t) => !contains_pair(&self.completed_turns, local, t.as_str()),
            None => true,
        }
    }

    fn report_turn_start(&mut self, params: &Json, now: Moment)
        ensures
            final(self).deep_view() == old(self).deep_view().turn_start_reported(
                params.deep_view(),
                now,
            ),
    {
        proof {
            reveal(ControllerView::turn_start_reported);
        }
        match self.local_thread_id(params) {
            Some(local) => {
                let turn_id = match params.text_at2("turn", "id") {
                    Some(t) => Some(t.to_owned()),
                    None => None,
                };
                if self.believes_start(local.as_str(), &turn_id) {
                    self.run_turn(local.as_str(), turn_id, now);
                    self.log_and_touch("Agent turn started");
                }
            },
            None => {},
        }
    }

    pub(crate) fn sync(&mut self)
        ensures
            final(self).deep_view() == old(self).deep_view().with_state(
                old(self).deep_view().state.synced(),
            ),
    {
        self.state.sync_active_conversation();
    }

    pub(crate) fn log_turn_end(&mut self, params: &Json)
        ensures
            final(self).deep_view() == old(self).deep_view().with_state(
                turn_end_logged(old(self).deep_view().state, params.deep_view()),
            ),
    {
        proof {
            reveal(turn_end_logged);
        }
        let status = owned_or(params.text_at2("turn", "status"), "completed");
        self.log(cat("Turn ", status.as_str()).as_str());
        if same_text(status.as_str(), "failed") {
            let message = owned_or(
                get_text3(params, "turn", "error", "message"),
                "The Codex turn failed",
            );
            self.error(message.as_str());
        }
    }

    fn keep_turn_end(&mut self, params: &Json)
        ensures
            final(self).deep_view() == old(self).deep_view().turn_end_kept(params.deep_view()),
    {
        proof {
            reveal(ControllerView::turn_end_kept);
        }
        self.log_turn_end(params);
        self.sync();
    }

    fn tell_turn_end(&mut self, params: &Json)
        ensures
            final(self).deep_view() == old(self).deep_view().turn_end_told(params.deep_view()),
    {
        proof {
            reveal(ControllerView::turn_end_told);
        }
        self.keep_turn_end(params);
        self.refresh_workspace();
        self.touch();
    }

    /// Whether another turn than this one runs in a thread.
    fn runs_other(&self, local: &str, turn_id: &str) -> (r: bool)
        ensures
            r == (lookup(self.deep_view().state.running_turns, local@) matches Some(Some(running))
                && running != turn_id@),
    {
        match self.state.running_turns.get(local) {
            Some(Some(running)) => !same_text(running.as_str(), turn_id),
            _ => false,
        }
    }

    fn report_turn_end(&mut self, params: &Json, now: Moment)
        ensures
            final(self).deep_view() == old(self).deep_view().turn_end_reported(
                params.deep_view(),
                now,
            ),
    {
        proof {
            reveal(ControllerView::turn_end_reported);
        }
        match self.local_thread_id(params) {
            Some(local) => {
                match params.text_at2("turn", "id") {
                    Some(turn_id) => {
                        let other = self.runs_other(local.as_str(), turn_id);
                        if !self.complete_turn(local.as_str(), turn_id) {
                            return;
                        }
                        if other {
                            return;
                        }
                        self.finish_local_turn(local.as_str(), now);
                        self.tell_turn_end(params);
                    },
                    None => {
                        self.finish_local_turn(local.as_str(), now);
                        self.tell_turn_end(params);
                    },
                }
            },
            None => {
                self.tell_turn_end(params);
            },
        }
    }

    fn set_usage(&mut self, local: &str, usage: ContextWindowUsage)
        ensures
            final(self).deep_view() == old(self).deep_view().with_state(
                old(self).deep_view().state.with_thread_usage(local@, usage).touched(),
            ),
    {
        self.state.set_thread_usage(local, usage);
        self.state.touch();
    }

    fn report_usage(&mut self, params: &Json)
        ensures
            final(self).deep_view() == old(self).deep_view().usage_reported(params.deep_view()),
    {
        proof {
            reveal(ControllerView::usage_reported);
        }
        match self.local_thread_id(params) {
            Some(local) => match ContextWindowUsage::from_notification(params) {
                Some(usage) => {
                    self.set_usage(local.as_str(), usage);
                },
                None => {},
            },
            None => {},
        }
    }

    fn report_account(&mut self, params: &Json)
        ensures
            final(self).deep_view() == old(self).deep_view().account_reported(params.deep_view()),
    {
        proof {
            reveal(ControllerView::account_reported);
        }
        match params.get("account") {
            Some(account) => {
                let wrapped = object1("account", account.clone());
                self.apply_account(&wrapped);
                self.touch();
            },
            None => {},
        }
    }

    fn report_stderr(&mut self, params: &Json)
        ensures
            final(self).deep_view() == old(self).deep_view().stderr_reported(params.deep_view()),
    {
        proof {
            reveal(ControllerView::stderr_reported);
        }
        match params.text_at("message") {
            Some(message) => {
                if contains(message, "ERROR") || contains(message, "WARN") {
                    self.log_and_touch(cat("Codex: ", message).as_str());
                }
            },
            None => {},
        }
    }

    fn report_warning(&mut self, params: &Json)
        ensures
            final(self).deep_view() == old(self).deep_view().warning_reported(params.deep_view()),
    {
        proof {
            reveal(ControllerView::warning_reported);
        }
        let text = match params.get("message") {
            Some(v) => v.as_text(),
            None => params.text_at("summary"),
        };
        let message = owned_or(text, "Codex reported a warning");
        if !is_skills_budget_warning(message.as_str()) {
            self.error(message.as_str());
        }
    }

    fn write_output(&mut self, thread_id: &str, output: String)
        requires
            lookup(old(self).deep_view().active_summaries, thread_id@) is Some,
        ensures
            final(self).deep_view() == old(self).deep_view().with_summary(
                thread_id@,
                ActiveSummaryView {
                    output: output@,
                    ..lookup(old(self).deep_view().active_summaries, thread_id@)->0
                },
            ),
    {
        let ghost before = self.active_summaries.deep_view();
        match self.active_summaries.index_of(thread_id) {
            Some(i) => {
                self.active_summaries.entries[i].1.output = output;
                assert(self.active_summaries.deep_view() =~= put(
                    before,
                    thread_id@,
                    ActiveSummaryView { output: output@, ..lookup(before, thread_id@)->0 },
                ));
            },
            None => {},
        }
    }

    fn set_title(&mut self, local: &str, title: &str)
        ensures
            final(self).deep_view() == old(self).deep_view().with_state(
                old(self).deep_view().state.with_thread_title(local@, title@),
            ),
    {
        self.state.set_thread_title(local, title);
    }

    fn write_title(&mut self, local: &str, output: &str)
        ensures
            final(self).deep_view() == old(self).deep_view().title_written(local@, output@),
    {
        proof {
            reveal(ControllerView::title_written);
        }
        let title = clean_summary(output, 70);
        if !title.as_str().is_empty() {
            self.set_title(local, title.as_str());
        }
    }

    fn write_subject(
        &mut self,
        root: String,
        snapshot: crate::workspace::CommitSnapshot,
        output: &str,
        params: &Json,
    )
        ensures
            final(self).deep_view() == old(self).deep_view().subject_written(
                root@,
                snapshot.deep_view(),
                output@,
                params.deep_view(),
            ),
    {
        proof {
            reveal(ControllerView::subject_written);
        }
        let message = clean_summary(output, 72);
        let status = owned_or(params.text_at2("turn", "status"), "completed");
        if same_text(status.as_str(), "failed") {
            let error = owned_or(
                get_text3(params, "turn", "error", "message"),
                "The commit-message summary failed",
            );
            self.fail_commit(error.as_str());
        } else if message.as_str().is_empty() {
            self.fail_commit("The summary model did not return a commit message");
        } else {
            self.spawn_git_commit(root, message, snapshot);
        }
    }

    fn finish_summary(&mut self, summary: ActiveSummary, params: &Json)
        ensures
            final(self).deep_view() == old(self).deep_view().summary_done(
                summary.deep_view(),
                params.deep_view(),
            ),
    {
        proof {
            reveal(ControllerView::summary_done);
        }
        self.drop_summary(summary.key.as_str());
        match summary.target {
            SummaryTarget::ThreadTitle { local_thread_id } => {
                self.write_title(local_thread_id.as_str(), summary.output.as_str());
                self.touch();
            },
            SummaryTarget::GitCommit { root, snapshot } => {
                self.write_subject(root, snapshot, summary.output.as_str(), params);
                self.touch();
            },
        }
    }

    /// What a summary has written after a notification about it.
    fn next_output(&self, thread_id: &str, method: &str, params: &Json) -> (r: Option<String>)
        ensures
            r.deep_view() == match lookup(self.deep_view().active_summaries, thread_id@) {
                Some(s) => Some(summary_output(s.output, method@, params.deep_view())),
                None => None,
            },
    {
        match self.active_summaries.get(thread_id) {
            Some(summary) => {
                if same_text(method, "item/agentMessage/delta") {
                    return Some(
                        cat(
                            summary.output.as_str(),
                            owned_or_empty(params.text_at("delta")).as_str(),
                        ),
                    );
                }
                if same_text(method, "item/completed") {
                    match params.text_at2("item", "type") {
                        Some(t) => if same_text(t, "agentMessage") {
                            match params.text_at2("item", "text") {
                                Some(text) => if !text.is_empty() {
                                    return Some(text.to_owned());
                                },
                                None => {},
                            }
                        },
                        None => {},
                    }
                }
                Some(summary.output.clone())
            },
            None => None,
        }
    }

    /// Takes a notification about a summary; whether it was one.
    fn handle_summary_notification(&mut self, method: &str, params: &Json) -> (r: bool)
        ensures
            r == (old(self).deep_view().summary_of_notice(params.deep_view()) is Some),
            final(self).deep_view() == match old(self).deep_view().summary_of_notice(
                params.deep_view(),
            ) {
                Some(summary) => old(self).deep_view().summary_notified(
                    summary,
                    method@,
                    params.deep_view(),
                ),
                None => old(self).deep_view(),
            },
    {
        proof {
            reveal(ControllerView::summary_notified);
        }
        let thread_id = match params.text_at("threadId") {
            Some(id) => id,
            None => return false,
        };
        let output = match self.next_output(thread_id, method, params) {
            Some(output) => output,
            None => return false,
        };
        if same_text(method, "turn/completed") {
            match self.close_summary(thread_id) {
                Some(summary) => {
                    self.finish_summary(summary, params);
                },
                None => {},
            }
        } else {
            self.write_output(thread_id, output);
        }
        true
    }

    fn handle_plain_notification(&mut self, method: &str, params: &Json, now: Moment)
        ensures
            final(self).deep_view() == old(self).deep_view().plainly_notified(
                method@,
                params.deep_view(),
                now,
            ),
    {
        proof {
            reveal(ControllerView::plainly_notified);
        }
        if same_text(method, "backend/exited") || same_text(method, "backend/protocolError") {
            let message = owned_or(params.text_at("message"), method);
            self.disconnect(message.as_str(), now);
        } else if same_text(method, "backend/stderr") {
            self.report_stderr(params);
        } else if same_text(method, "item/started") {
            self.report_item(params, false);
        } else if same_text(method, "item/completed") {
            self.report_item(params, true);
        } else if same_text(method, "item/agentMessage/delta") {
            self.append_delta_for(params, ItemKind::Assistant, "Codex");
        } else if same_text(method, "item/reasoning/summaryTextDelta") || same_text(
            method,
            "item/reasoning/textDelta",
        ) {
            self.append_delta_for(params, ItemKind::Reasoning, "Reasoning");
        } else if same_text(method, "item/plan/delta") {
            self.append_delta_for(params, ItemKind::Plan, "Plan");
        } else if same_text(method, "item/commandExecution/outputDelta") {
            self.append_delta_for(params, ItemKind::Command, "Command");
        } else if same_text(method, "turn/started") {
            self.report_turn_start(params, now);
        } else if same_text(method, "turn/completed") {
            self.report_turn_end(params, now);
        } else if same_text(method, "thread/tokenUsage/updated") {
            self.report_usage(params);
        } else if same_text(method, "account/updated") {
            self.report_account(params);
        } else if same_text(method, "account/rateLimits/updated") {
            self.refresh_plan_usage(now);
        } else if same_text(method, "warning") || same_text(method, "configWarning") || same_text(
            method,
            "error",
        ) {
            self.report_warning(params);
        }
    }

    /// Takes a notification of the backend.
    pub fn handle_notification(&mut self, method: &str, params: &Json, now: Moment)
        ensures
            final(self).deep_view() == old(self).deep_view().notified(
                method@,
                params.deep_view(),
                now,
            ),
    {
        proof {
            reveal(ControllerView::notified);
        }
        if !self.handle_summary_notification(method, params) {
            self.handle_plain_notification(method, params, now);
        }
    }

    fn take_answer(&mut self, id: u64, message: &Json, now: Moment)
        ensures
            final(self).deep_view() == old(self).deep_view().answered(
                id,
                message.deep_view(),
                now,
            ),
    {
        proof {
            reveal(ControllerView::answered);
        }
        match message.get("error") {
            Some(error) => {
                let text = owned_or(error.text_at("message"), "Unknown Codex error");
                self.fail_call(id, text.as_str(), now);
            },
            None => {
                match self.close_call(id) {
                    Some(call) => match message.get("result") {
                        Some(result) => {
                            self.handle_response(call, result, now);
                            self.finish_startup_if_ready();
                        },
                        None => {
                            self.finish_startup_if_ready();
                        },
                    },
                    None => {
                        self.finish_startup_if_ready();
                    },
                }
            },
        }
    }

    /// Takes a message of the backend.
    pub fn handle_message(&mut self, message: &Json, now: Moment)
        ensures
            final(self).deep_view() == old(self).deep_view().message_taken(
                message.deep_view(),
                now,
            ),
    {
        proof {
            reveal(ControllerView::message_taken);
        }
        if message.get("id").is_some() && message.get("method").is_some() {
            self.handle_server_request(message);
            return;
        }
        match message.u64_at("id") {
            Some(id) => {
                self.take_answer(id, message, now);
            },
            None => {
                match message.text_at("method") {
                    Some(method) => {
                        match message.get("params") {
                            Some(params) => {
                                self.handle_notification(method, params, now);
                            },
                            None => {
                                self.handle_notification(method, &Json::Null, now);
                            },
                        }
                    },
                    None => {},
                }
            },
        }
    }
}

} // verus!
