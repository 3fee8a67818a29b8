//! What the answers of the backend do.
use super::{
    later, pair_put, ActiveSummary, ActiveSummaryView, Controller, ControllerView, Moment,
    PendingCall, PendingCallView, PendingEntryView, PendingTurn, PendingTurnView, SummaryJob,
    SummaryJobView, SummaryTarget, SummaryTargetView,
};
use crate::items::values_at;
use crate::json::{array, object, object1, optional_text_view, Json, JsonView};
use crate::model::{owned_or, plan_usage_of, text_or, PlanUsage, ResetCreditView};
use crate::prompt::{text_input, text_input_view};
use crate::session::{account_of, models_of, read_account, read_models};
use crate::state::AppStateView;
use crate::table::{first_where, has_key, lemma_first_where_is, lemma_first_where_none, lookup, put};
use crate::text::{cat, cat3, decimal, decimal_text, same_text};
use vstd::prelude::*;
use vstd::string::*;

verus! {

/// The first reset credit that can be used.
pub open spec fn available_credit(state: AppStateView) -> Option<Seq<char>> {
    match state.plan_usage {
        Some(usage) => match usage.reset_credits {
            Some(credits) => match first_where(
                credits,
                |c: ResetCreditView| c.status == "available"@,
            ) {
                Some(i) => Some(credits[i].id),
                None => None,
            },
            None => None,
        },
        None => None,
    }
}

/// What is asked for to use a reset credit. The key is new for each request.
pub open spec fn consume_view(credit: Option<Seq<char>>, now: Moment, next_id: u64) -> JsonView {
    JsonView::Object(seq![
        ("creditId"@, optional_text_view(credit)),
        (
            "idempotencyKey"@,
            JsonView::Text(
                "ferro-code-"@ + decimal(now.millis as nat) + "-"@ + decimal(next_id as nat),
            ),
        ),
    ])
}

pub open spec fn interrupt_view(thread_id: Seq<char>, turn_id: Seq<char>) -> JsonView {
    JsonView::Object(seq![
        ("threadId"@, JsonView::Text(thread_id)),
        ("turnId"@, JsonView::Text(turn_id)),
    ])
}

/// Whether a turn is being interrupted already.
pub open spec fn interrupt_pending(
    pending: Seq<PendingEntryView>,
    local: Seq<char>,
    turn: Seq<char>,
) -> bool {
    exists|i: int|
        0 <= i < pending.len() && (#[trigger] pending[i]).call == (PendingCallView::Interrupt {
            local_thread_id: local,
            turn_id: turn,
        })
}

/// What is asked for to write a summary.
pub open spec fn summary_turn_view(thread_id: Seq<char>, job: SummaryJobView) -> JsonView {
    JsonView::Object(seq![
        ("threadId"@, JsonView::Text(thread_id)),
        ("input"@, JsonView::Array(seq![text_input_view(job.prompt)])),
        ("cwd"@, JsonView::Text(job.cwd)),
        ("approvalPolicy"@, JsonView::Text("never"@)),
        ("sandbox"@, JsonView::Text("read-only"@)),
        ("model"@, JsonView::Text(job.model)),
        ("effort"@, JsonView::Text(job.effort)),
    ])
}

impl AppStateView {
    pub open spec fn with_running_turn(self, id: Seq<char>, turn: Option<Seq<char>>) -> AppStateView {
        AppStateView { running_turns: put(self.running_turns, id, turn), ..self }
    }

    pub open spec fn with_runtime_thread(self, id: Seq<char>, thread: Seq<char>) -> AppStateView {
        AppStateView { runtime_threads: put(self.runtime_threads, id, thread), ..self }
    }
}

impl ControllerView {
    /// The usage of the plan is asked for, when there is one to ask for.
    #[verifier::opaque]
    pub open spec fn usage_refreshed(self, now: Moment) -> ControllerView {
        if !self.state.connected || !self.state.account.authenticated || self.state.usage_loading {
            self
        } else {
            self.with_state(self.state.usage_requested()).requested(
                "account/rateLimits/read"@,
                JsonView::Null,
                PendingCallView::RateLimits,
                now,
            )
        }
    }

    /// A reset credit is used.
    #[verifier::opaque]
    pub open spec fn reset_consumed(self, now: Moment) -> ControllerView {
        if self.state.reset_in_progress || !self.state.connected {
            self
        } else {
            self.with_state(self.state.resetting(true)).requested(
                "account/rateLimitResetCredit/consume"@,
                consume_view(available_credit(self.state), now, self.next_id),
                PendingCallView::ConsumeReset,
                now,
            ).touched()
        }
    }

    /// The running turn of a thread is interrupted once its ids are known; one
    /// interrupt at a time.
    #[verifier::opaque]
    pub open spec fn interrupted_when_ready(self, local: Seq<char>, now: Moment) -> ControllerView {
        match (lookup(self.state.runtime_threads, local), lookup(self.state.running_turns, local)) {
            (Some(thread_id), Some(Some(turn_id))) => if interrupt_pending(
                self.pending,
                local,
                turn_id,
            ) {
                self
            } else {
                self.requested(
                    "turn/interrupt"@,
                    interrupt_view(thread_id, turn_id),
                    PendingCallView::Interrupt { local_thread_id: local, turn_id },
                    now,
                )
            },
            _ => self,
        }
    }

    pub open spec fn cancelling(self, local: Seq<char>) -> ControllerView {
        ControllerView { cancelled: put(self.cancelled, local, ()), ..self }
    }

    /// The user stops the active thread.
    #[verifier::opaque]
    pub open spec fn interrupted(self, now: Moment) -> ControllerView {
        match self.state.active_local_thread {
            Some(id) => if has_key(self.state.running_turns, id) {
                self.cancelling(id).interrupted_when_ready(id, now)
            } else {
                self
            },
            None => self,
        }
    }

    /// The handshake is done; who is signed in and what models there are is
    /// asked for.
    #[verifier::opaque]
    pub open spec fn initialized(self, result: JsonView, now: Moment) -> ControllerView {
        let agent = text_or(result.text_at("userAgent"@), "Codex"@);
        self.with_state(
            self.state.with_connection(true, "Connected: "@ + agent).logged(
                "Connected to "@ + agent,
            ),
        ).raw_sent(
            JsonView::Object(seq![("method"@, JsonView::Text("initialized"@))]),
        ).requested(
            "account/read"@,
            JsonView::Object(seq![("refreshToken"@, JsonView::Bool(false))]),
            PendingCallView::Account,
            now,
        ).requested(
            "model/list"@,
            JsonView::Object(seq![("limit"@, JsonView::Unsigned(100))]),
            PendingCallView::Models,
            now,
        ).touched()
    }

    /// What came of using a reset credit.
    #[verifier::opaque]
    pub open spec fn reset_answered(self, outcome: Seq<char>, now: Moment) -> ControllerView {
        let s = self.state.resetting(false);
        let told = if outcome == "reset"@ {
            s.with_info("Codex plan usage was reset"@)
        } else if outcome == "alreadyRedeemed"@ {
            s.with_info("This reset was already applied"@)
        } else if outcome == "nothingToReset"@ {
            s.with_error("None of the current usage windows can be reset yet"@)
        } else if outcome == "noCredit"@ {
            s.with_error("No usage resets are available"@)
        } else {
            s.with_error("Codex returned an unknown reset result: "@ + outcome)
        };
        self.with_state(told).usage_refreshed(now).touched()
    }

    /// The thread of a turn has started: the turn follows, unless the call is
    /// of an earlier generation or was cancelled.
    #[verifier::opaque]
    pub open spec fn thread_started(
        self,
        local: Seq<char>,
        turn: PendingTurnView,
        thread_id: Option<Seq<char>>,
        now: Moment,
    ) -> ControllerView {
        if lookup(self.turn_generations, local) != Some(turn.generation) {
            self
        } else if has_key(self.cancelled, local) {
            self.local_turn_finished(local, now)
        } else {
            match thread_id {
                Some(thread_id) => self.with_state(
                    self.state.with_runtime_thread(local, thread_id),
                ).turn_requested(local, thread_id, turn, now).touched(),
                None => self.with_state(
                    self.state.turn_finished(local, now.millis).with_error(
                        "Codex started a thread without returning its id"@,
                    ),
                ).touched(),
            }
        }
    }

    /// A turn has an id: it runs, unless the call is of an earlier generation
    /// or the turn is over already.
    #[verifier::opaque]
    pub open spec fn turn_accepted(
        self,
        local: Seq<char>,
        generation: u64,
        turn_id: Option<Seq<char>>,
        now: Moment,
    ) -> ControllerView {
        if lookup(self.turn_generations, local) != Some(generation) {
            self
        } else {
            match turn_id {
                Some(turn_id) => if self.completed_turns.contains((local, turn_id)) {
                    self.touched()
                } else {
                    self.turn_running(local, Some(turn_id), now).touched()
                },
                None => self.local_turn_finished(local, now).errored(
                    "Codex did not return a turn ID"@,
                ).touched(),
            }
        }
    }

    /// A turn runs; a cancelled one is interrupted.
    #[verifier::opaque]
    pub open spec fn turn_running(
        self,
        local: Seq<char>,
        turn_id: Option<Seq<char>>,
        now: Moment,
    ) -> ControllerView {
        let c = self.with_state(self.state.with_running_turn(local, turn_id));
        if has_key(self.cancelled, local) {
            c.interrupted_when_ready(local, now)
        } else {
            c
        }
    }

    pub open spec fn turn_completed(self, local: Seq<char>, turn_id: Seq<char>) -> ControllerView {
        ControllerView { completed_turns: pair_put(self.completed_turns, (local, turn_id)), ..self }
    }

    /// An interrupt was confirmed: the turn is over, if it is still the one
    /// that runs.
    #[verifier::opaque]
    pub open spec fn interrupt_confirmed(
        self,
        local: Seq<char>,
        turn_id: Seq<char>,
        now: Moment,
    ) -> ControllerView {
        if lookup(self.state.running_turns, local) == Some(Some(turn_id)) {
            let c = self.turn_completed(local, turn_id).with_state(
                self.state.items_interrupted(local),
            ).local_turn_finished(local, now);
            c.with_state(c.state.logged("Turn interrupted"@)).touched()
        } else {
            self.touched()
        }
    }

    pub open spec fn with_summary(
        self,
        thread_id: Seq<char>,
        summary: ActiveSummaryView,
    ) -> ControllerView {
        ControllerView {
            active_summaries: put(self.active_summaries, thread_id, summary),
            ..self
        }
    }

    /// The thread of a summary has started: its turn follows.
    #[verifier::opaque]
    pub open spec fn summary_started(
        self,
        job: SummaryJobView,
        thread_id: Option<Seq<char>>,
        now: Moment,
    ) -> ControllerView {
        match thread_id {
            Some(thread_id) => self.with_summary(
                thread_id,
                ActiveSummaryView {
                    key: job.key,
                    target: job.target,
                    output: Seq::empty(),
                    deadline: later(now.ticks, 180_000),
                },
            ).requested(
                "turn/start"@,
                summary_turn_view(thread_id, job),
                PendingCallView::SummaryTurnStart { thread_id },
                now,
            ).touched(),
            None => match job.target {
                SummaryTargetView::GitCommit { .. } => self.summary_dropped(job.key).with_state(
                    self.state.git_busy(false).with_error(
                        "Could not start the AI commit-message summary"@,
                    ).touched(),
                ),
                SummaryTargetView::ThreadTitle { .. } => self.summary_dropped(job.key).with_state(
                    self.state.logged("Title summary did not return a thread id"@).touched(),
                ),
            },
        }
    }

    /// What the answer to a call does.
    #[verifier::opaque]
    pub open spec fn responded(
        self,
        call: PendingCallView,
        result: JsonView,
        now: Moment,
    ) -> ControllerView {
        match call {
            PendingCallView::Initialize => self.initialized(result, now),
            PendingCallView::Account => self.with_state(
                self.state.with_account(account_of(result)),
            ).usage_refreshed(now).touched(),
            PendingCallView::RateLimits => self.with_state(
                self.state.with_usage(plan_usage_of(result)),
            ).touched(),
            PendingCallView::ConsumeReset => self.reset_answered(
                text_or(result.text_at("outcome"@), "unknown"@),
                now,
            ),
            PendingCallView::Models => self.with_state(
                self.state.with_models(models_of(values_at(result, "data"@))),
            ).touched(),
            PendingCallView::ThreadStart { local_thread_id, turn } => self.thread_started(
                local_thread_id,
                turn,
                result.text_at2("thread"@, "id"@),
                now,
            ),
            PendingCallView::TurnStart { local_thread_id, generation } => self.turn_accepted(
                local_thread_id,
                generation,
                result.text_at2("turn"@, "id"@),
                now,
            ),
            PendingCallView::Interrupt { local_thread_id, turn_id } => self.interrupt_confirmed(
                local_thread_id,
                turn_id,
                now,
            ),
            PendingCallView::SummaryThreadStart(job) => self.summary_started(
                job,
                result.text_at2("thread"@, "id"@),
                now,
            ),
            PendingCallView::SummaryTurnStart { .. } => self.touched(),
        }
    }
}

/// Whether a pair is among others.
pub(crate) fn contains_pair(pairs: &Vec<(String, String)>, first: &str, second: &str) -> (r: bool)
    ensures
        r == pairs.deep_view().contains((first@, second@)),
{
    let mut i: usize = 0;
    while i < pairs.len()
        invariant
            i <= pairs@.len(),
            forall|j: int| 0 <= j < i ==> pairs.deep_view()[j] != (first@, second@),
        decreases pairs@.len() - i,
    {
        assert(pairs.deep_view()[i as int] == (pairs@[i as int].0@, pairs@[i as int].1@));
        if same_text(pairs[i].0.as_str(), first) && same_text(pairs[i].1.as_str(), second) {
            return true;
        }
        i += 1;
    }
    false
}

fn owned(t: Option<&str>) -> (r: Option<String>)
    ensures
        r.deep_view() == t.deep_view(),
{
    match t {
        Some(t) => Some(t.to_owned()),
        None => None,
    }
}

fn summary_turn_params(thread_id: &str, job: &SummaryJob) -> (r: Json)
    ensures
        r.deep_view() == summary_turn_view(thread_id@, job.deep_view()),
{
    let inputs: Vec<Json> = vec![text_input(job.prompt.as_str())];
    assert(inputs.deep_view() =~= seq![text_input_view(job.prompt@)]);
    let r = object(
        vec![
            ("threadId".to_owned(), Json::text(thread_id)),
            ("input".to_owned(), array(inputs)),
            ("cwd".to_owned(), Json::text(job.cwd.as_str())),
            ("approvalPolicy".to_owned(), Json::text("never")),
            ("sandbox".to_owned(), Json::text("read-only")),
            ("model".to_owned(), Json::text(job.model.as_str())),
            ("effort".to_owned(), Json::text(job.effort.as_str())),
        ],
    );
    assert(r.deep_view()->Object_0 =~= summary_turn_view(thread_id@, job.deep_view())->Object_0);
    r
}

impl Controller {
    fn begin_usage(&mut self)
        ensures
            final(self).deep_view() == old(self).deep_view().with_state(
                old(self).deep_view().state.usage_requested(),
            ),
    {
        self.state.request_usage();
    }

    pub fn refresh_plan_usage(&mut self, now: Moment)
        ensures
            final(self).deep_view() == old(self).deep_view().usage_refreshed(now),
    {
        proof {
            reveal(ControllerView::usage_refreshed);
        }
        if !self.state.connected || !self.state.account.authenticated || self.state.usage_loading {
            return;
        }
        self.begin_usage();
        self.request("account/rateLimits/read", Json::Null, PendingCall::RateLimits, now);
    }

    fn find_credit(&self) -> (r: Option<String>)
        ensures
            r.deep_view() == available_credit(self.deep_view().state),
    {
        match &self.state.plan_usage {
            Some(usage) => match &usage.reset_credits {
                Some(credits) => {
                    let ghost all = credits.deep_view();
                    let ghost p = |c: ResetCreditView| c.status == "available"@;
                    let mut i: usize = 0;
                    while i < credits.len()
                        invariant
                            i <= credits@.len(),
                            all == credits.deep_view(),
                            p == (|c: ResetCreditView| c.status == "available"@),
                            self.deep_view().state.plan_usage == Some(usage.deep_view()),
                            usage.deep_view().reset_credits == Some(all),
                            forall|j: int| 0 <= j < i ==> !p(#[trigger] all[j]),
                        decreases credits@.len() - i,
                    {
                        assert(all[i as int] == credits@[i as int].deep_view());
                        if same_text(credits[i].status.as_str(), "available") {
                            proof {
                                lemma_first_where_is(all, p, i as int);
                            }
                            return Some(credits[i].id.clone());
                        }
                        i += 1;
                    }
                    proof {
                        lemma_first_where_none(all, p);
                    }
                    None
                },
                None => None,
            },
            None => None,
        }
    }

    fn set_resetting(&mut self, running: bool)
        ensures
            final(self).deep_view() == old(self).deep_view().with_state(
                old(self).deep_view().state.resetting(running),
            ),
    {
        self.state.reset_in_progress = running;
    }

    pub fn consume_reset(&mut self, now: Moment)
        ensures
            final(self).deep_view() == old(self).deep_view().reset_consumed(now),
    {
        proof {
            reveal(ControllerView::reset_consumed);
        }
        if self.state.reset_in_progress || !self.state.connected {
            return;
        }
        let credit = self.find_credit();
        let mut key = cat3("ferro-code-", decimal_text(now.millis as u128).as_str(), "-");
        key.append(decimal_text(self.next_id as u128).as_str());
        let params = object(
            vec![
                ("creditId".to_owned(), Json::optional_text(&credit)),
                ("idempotencyKey".to_owned(), Json::Text(key)),
            ],
        );
        assert(params.deep_view()->Object_0 =~= consume_view(
            credit.deep_view(),
            now,
            self.next_id,
        )->Object_0);
        self.set_resetting(true);
        self.request(
            "account/rateLimitResetCredit/consume",
            params,
            PendingCall::ConsumeReset,
            now,
        );
        self.touch();
    }

    fn is_interrupting(&self, local: &str, turn: &str) -> (r: bool)
        ensures
            r == interrupt_pending(self.deep_view().pending, local@, turn@),
    {
        let mut i: usize = 0;
        while i < self.pending.len()
            invariant
                i <= self.pending@.len(),
                forall|j: int|
                    0 <= j < i ==> (#[trigger] self.deep_view().pending[j]).call != (
                    PendingCallView::Interrupt { local_thread_id: local@, turn_id: turn@ }),
            decreases self.pending@.len() - i,
        {
            assert(self.deep_view().pending[i as int] == self.pending@[i as int].deep_view());
            match &self.pending[i].call {
                PendingCall::Interrupt { local_thread_id, turn_id } => {
                    if same_text(local_thread_id.as_str(), local) && same_text(
                        turn_id.as_str(),
                        turn,
                    ) {
                        assert(self.deep_view().pending[i as int].call == (
                        PendingCallView::Interrupt { local_thread_id: local@, turn_id: turn@ }));
                        return true;
                    }
                },
                _ => {},
            }
            i += 1;
        }
        false
    }

    /// The turn of a thread, when it runs and its id is known.
    fn running_turn(&self, local: &str) -> (r: Option<String>)
        ensures
            r.deep_view() == match lookup(self.deep_view().state.running_turns, local@) {
                Some(turn) => turn,
                None => None,
            },
    {
        match self.state.running_turns.get(local) {
            Some(turn) => turn.clone(),
            None => None,
        }
    }

    pub(crate) fn interrupt_when_ready(&mut self, local: &str, now: Moment)
        ensures
            final(self).deep_view() == old(self).deep_view().interrupted_when_ready(local@, now),
    {
        proof {
            reveal(ControllerView::interrupted_when_ready);
        }
        let thread_id = match self.state.runtime_threads.get(local) {
            Some(thread) => thread.clone(),
            None => return,
        };
        let turn_id = match self.running_turn(local) {
            Some(turn) => turn,
            None => return,
        };
        if self.is_interrupting(local, turn_id.as_str()) {
            return;
        }
        let params = object(
            vec![
                ("threadId".to_owned(), Json::Text(thread_id.clone())),
                ("turnId".to_owned(), Json::Text(turn_id.clone())),
            ],
        );
        assert(params.deep_view()->Object_0 =~= interrupt_view(thread_id@, turn_id@)->Object_0);
        self.request(
            "turn/interrupt",
            params,
            PendingCall::Interrupt { local_thread_id: local.to_owned(), turn_id },
            now,
        );
    }

    fn cancel(&mut self, local: String)
        ensures
            final(self).deep_view() == old(self).deep_view().cancelling(local@),
    {
        self.cancelled.insert(local, ());
    }

    pub fn interrupt(&mut self, now: Moment)
        ensures
            final(self).deep_view() == old(self).deep_view().interrupted(now),
    {
        proof {
            reveal(ControllerView::interrupted);
        }
        let local = match &self.state.active_local_thread {
            Some(id) => id.clone(),
            None => return,
        };
        if !self.state.running_turns.contains_key(local.as_str()) {
            return;
        }
        self.cancel(local.clone());
        self.interrupt_when_ready(local.as_str(), now);
    }

    fn greet(&mut self, agent: &str)
        ensures
            final(self).deep_view() == old(self).deep_view().with_state(
                old(self).deep_view().state.with_connection(true, "Connected: "@ + agent@).logged(
                    "Connected to "@ + agent@,
                ),
            ),
    {
        self.state.set_connection(true, cat("Connected: ", agent).as_str());
        self.state.log(cat("Connected to ", agent).as_str());
    }

    fn initialize_done(&mut self, result: &Json, now: Moment)
        ensures
            final(self).deep_view() == old(self).deep_view().initialized(result.deep_view(), now),
    {
        proof {
            reveal(ControllerView::initialized);
        }
        let agent = owned_or(result.text_at("userAgent"), "Codex");
        self.greet(agent.as_str());
        self.send_raw(object1("method", Json::text("initialized")));
        self.request(
            "account/read",
            object1("refreshToken", Json::Bool(false)),
            PendingCall::Account,
            now,
        );
        self.request("model/list", object1("limit", Json::Unsigned(100)), PendingCall::Models, now);
        self.touch();
    }

    pub fn apply_account(&mut self, result: &Json)
        ensures
            final(self).deep_view() == old(self).deep_view().with_state(
                old(self).deep_view().state.with_account(account_of(result.deep_view())),
            ),
    {
        let account = read_account(result);
        self.state.set_account(account);
    }

    pub fn apply_models(&mut self, result: &Json)
        ensures
            final(self).deep_view() == old(self).deep_view().with_state(
                old(self).deep_view().state.with_models(
                    models_of(values_at(result.deep_view(), "data"@)),
                ),
            ),
    {
        let models = read_models(result);
        self.state.set_models(models);
    }

    fn apply_usage(&mut self, result: &Json)
        ensures
            final(self).deep_view() == old(self).deep_view().with_state(
                old(self).deep_view().state.with_usage(plan_usage_of(result.deep_view())),
            ),
    {
        let usage = PlanUsage::from_protocol(result);
        self.state.set_usage(usage);
    }

    fn reset_done(&mut self, outcome: &str, now: Moment)
        ensures
            final(self).deep_view() == old(self).deep_view().reset_answered(outcome@, now),
    {
        proof {
            reveal(ControllerView::reset_answered);
        }
        self.set_resetting(false);
        if same_text(outcome, "reset") {
            self.inform("Codex plan usage was reset");
        } else if same_text(outcome, "alreadyRedeemed") {
            self.inform("This reset was already applied");
        } else if same_text(outcome, "nothingToReset") {
            self.error("None of the current usage windows can be reset yet");
        } else if same_text(outcome, "noCredit") {
            self.error("No usage resets are available");
        } else {
            self.error(cat("Codex returned an unknown reset result: ", outcome).as_str());
        }
        self.refresh_plan_usage(now);
        self.touch();
    }

    pub(crate) fn is_generation(&self, local: &str, generation: u64) -> (r: bool)
        ensures
            r == (lookup(self.deep_view().turn_generations, local@) == Some(generation)),
    {
        match self.turn_generations.get(local) {
            Some(g) => *g == generation,
            None => false,
        }
    }

    fn bind_thread(&mut self, local: &str, thread_id: &str)
        ensures
            final(self).deep_view() == old(self).deep_view().with_state(
                old(self).deep_view().state.with_runtime_thread(local@, thread_id@),
            ),
    {
        self.state.runtime_threads.insert(local.to_owned(), thread_id.to_owned());
    }

    fn lose_turn(&mut self, local: &str, now: Moment)
        ensures
            final(self).deep_view() == old(self).deep_view().with_state(
                old(self).deep_view().state.turn_finished(local@, now.millis).with_error(
                    "Codex started a thread without returning its id"@,
                ),
            ).touched(),
    {
        self.state.finish_turn(local, now.millis);
        self.state.error("Codex started a thread without returning its id");
        self.state.touch();
    }

    fn thread_start_done(
        &mut self,
        local: String,
        turn: PendingTurn,
        thread_id: Option<String>,
        now: Moment,
    )
        ensures
            final(self).deep_view() == old(self).deep_view().thread_started(
                local@,
                turn.deep_view(),
                thread_id.deep_view(),
                now,
            ),
    {
        proof {
            reveal(ControllerView::thread_started);
        }
        if !self.is_generation(local.as_str(), turn.generation) {
            return;
        }
        if self.cancelled.contains_key(local.as_str()) {
            self.finish_local_turn(local.as_str(), now);
            return;
        }
        match thread_id {
            Some(thread_id) => {
                self.bind_thread(local.as_str(), thread_id.as_str());
                self.start_turn(local, thread_id.as_str(), turn, now);
                self.touch();
            },
            None => {
                self.lose_turn(local.as_str(), now);
            },
        }
    }

    fn set_running(&mut self, local: &str, turn_id: Option<String>)
        ensures
            final(self).deep_view() == old(self).deep_view().with_state(
                old(self).deep_view().state.with_running_turn(local@, turn_id.deep_view()),
            ),
    {
        self.state.running_turns.insert(local.to_owned(), turn_id);
    }

    pub(crate) fn run_turn(&mut self, local: &str, turn_id: Option<String>, now: Moment)
        ensures
            final(self).deep_view() == old(self).deep_view().turn_running(
                local@,
                turn_id.deep_view(),
                now,
            ),
    {
        proof {
            reveal(ControllerView::turn_running);
        }
        self.set_running(local, turn_id);
        if self.cancelled.contains_key(local) {
            self.interrupt_when_ready(local, now);
        }
    }

    fn turn_start_done(
        &mut self,
        local: &str,
        generation: u64,
        turn_id: Option<String>,
        now: Moment,
    )
        ensures
            final(self).deep_view() == old(self).deep_view().turn_accepted(
                local@,
                generation,
                turn_id.deep_view(),
                now,
            ),
    {
        proof {
            reveal(ControllerView::turn_accepted);
        }
        if !self.is_generation(local, generation) {
            return;
        }
        match turn_id {
            Some(turn_id) => {
                if contains_pair(&self.completed_turns, local, turn_id.as_str()) {
                    self.touch();
                } else {
                    self.run_turn(local, Some(turn_id), now);
                    self.touch();
                }
            },
            None => {
                self.finish_local_turn(local, now);
                self.error("Codex did not return a turn ID");
                self.touch();
            },
        }
    }

    /// Takes note that a turn is over; whether that was new.
    pub(crate) fn complete_turn(&mut self, local: &str, turn_id: &str) -> (r: bool)
        ensures
            final(self).deep_view() == old(self).deep_view().turn_completed(local@, turn_id@),
            r == !old(self).deep_view().completed_turns.contains((local@, turn_id@)),
            !r ==> final(self).deep_view() == old(self).deep_view(),
    {
        if contains_pair(&self.completed_turns, local, turn_id) {
            return false;
        }
        self.add_completed(local, turn_id);
        true
    }

    fn add_completed(&mut self, local: &str, turn_id: &str)
        requires
            !old(self).deep_view().completed_turns.contains((local@, turn_id@)),
        ensures
            final(self).deep_view() == old(self).deep_view().turn_completed(local@, turn_id@),
    {
        let ghost before = self.completed_turns.deep_view();
        self.completed_turns.push((local.to_owned(), turn_id.to_owned()));
        assert(self.completed_turns.deep_view() =~= before.push((local@, turn_id@)));
    }

    fn mark_interrupted(&mut self, local: &str)
        ensures
            final(self).deep_view() == old(self).deep_view().with_state(
                old(self).deep_view().state.items_interrupted(local@),
            ),
    {
        self.state.interrupt_items(local);
    }

    pub(crate) fn log(&mut self, line: &str)
        ensures
            final(self).deep_view() == old(self).deep_view().with_state(
                old(self).deep_view().state.logged(line@),
            ),
    {
        self.state.log(line);
    }

    fn interrupt_done(&mut self, local: &str, turn_id: &str, now: Moment)
        ensures
            final(self).deep_view() == old(self).deep_view().interrupt_confirmed(
                local@,
                turn_id@,
                now,
            ),
    {
        proof {
            reveal(ControllerView::interrupt_confirmed);
        }
        let current = match self.running_turn(local) {
            Some(turn) => same_text(turn.as_str(), turn_id),
            None => false,
        };
        if current {
            let _new = self.complete_turn(local, turn_id);
            self.mark_interrupted(local);
            self.finish_local_turn(local, now);
            self.log("Turn interrupted");
        }
        self.touch();
    }

    fn open_summary(&mut self, thread_id: &str, key: String, target: SummaryTarget, now: Moment)
        ensures
            final(self).deep_view() == old(self).deep_view().with_summary(
                thread_id@,
                ActiveSummaryView {
                    key: key@,
                    target: target.deep_view(),
                    output: Seq::empty(),
                    deadline: later(now.ticks, 180_000),
                },
            ),
    {
        self.active_summaries.insert(
            thread_id.to_owned(),
            ActiveSummary {
                key,
                target,
                output: String::new(),
                deadline: now.ticks.saturating_add(180_000),
            },
        );
    }

    pub(crate) fn drop_summary(&mut self, key: &str)
        ensures
            final(self).deep_view() == old(self).deep_view().summary_dropped(key@),
    {
        self.summary_pending.remove(key);
    }

    pub(crate) fn fail_commit(&mut self, text: &str)
        ensures
            final(self).deep_view() == old(self).deep_view().with_state(
                old(self).deep_view().state.git_busy(false).with_error(text@),
            ),
    {
        self.state.git_action_in_progress = false;
        self.state.error(text);
    }

    fn ask_summary(&mut self, job: SummaryJob, thread_id: String, now: Moment)
        ensures
            final(self).deep_view() == old(self).deep_view().summary_started(
                job.deep_view(),
                Some(thread_id@),
                now,
            ),
    {
        proof {
            reveal(ControllerView::summary_started);
        }
        let params = summary_turn_params(thread_id.as_str(), &job);
        self.open_summary(thread_id.as_str(), job.key, job.target, now);
        self.request("turn/start", params, PendingCall::SummaryTurnStart { thread_id }, now);
        self.touch();
    }

    fn lose_summary(&mut self, job: SummaryJob)
        ensures
            final(self).deep_view() == match job.deep_view().target {
                SummaryTargetView::GitCommit { .. } => old(self).deep_view().summary_dropped(
                    job.key@,
                ).with_state(
                    old(self).deep_view().state.git_busy(false).with_error(
                        "Could not start the AI commit-message summary"@,
                    ).touched(),
                ),
                SummaryTargetView::ThreadTitle { .. } => old(self).deep_view().summary_dropped(
                    job.key@,
                ).with_state(
                    old(self).deep_view().state.logged(
                        "Title summary did not return a thread id"@,
                    ).touched(),
                ),
            },
    {
        self.drop_summary(job.key.as_str());
        match job.target {
            SummaryTarget::GitCommit { .. } => {
                self.fail_commit("Could not start the AI commit-message summary");
                self.touch();
            },
            SummaryTarget::ThreadTitle { .. } => {
                self.log("Title summary did not return a thread id");
                self.touch();
            },
        }
    }

    fn summary_start_done(&mut self, job: SummaryJob, thread_id: Option<String>, now: Moment)
        ensures
            final(self).deep_view() == old(self).deep_view().summary_started(
                job.deep_view(),
                thread_id.deep_view(),
                now,
            ),
    {
        proof {
            reveal(ControllerView::summary_started);
        }
        match thread_id {
            Some(thread_id) => {
                self.ask_summary(job, thread_id, now);
            },
            None => {
                self.lose_summary(job);
            },
        }
    }

    /// Takes the answer to a call.
    pub fn handle_response(&mut self, call: PendingCall, result: &Json, now: Moment)
        ensures
            final(self).deep_view() == old(self).deep_view().responded(
                call.deep_view(),
                result.deep_view(),
                now,
            ),
    {
        proof {
            reveal(ControllerView::responded);
        }
        match call {
            PendingCall::Initialize => {
                self.initialize_done(result, now);
            },
            PendingCall::Account => {
                self.apply_account(result);
                self.refresh_plan_usage(now);
                self.touch();
            },
            PendingCall::RateLimits => {
                self.apply_usage(result);
                self.touch();
            },
            PendingCall::ConsumeReset => {
                let outcome = owned_or(result.text_at("outcome"), "unknown");
                self.reset_done(outcome.as_str(), now);
            },
            PendingCall::Models => {
                self.apply_models(result);
                self.touch();
            },
            PendingCall::ThreadStart { local_thread_id, turn } => {
                let thread_id = owned(result.text_at2("thread", "id"));
                self.thread_start_done(local_thread_id, turn, thread_id, now);
            },
            PendingCall::TurnStart { local_thread_id, generation } => {
                let turn_id = owned(result.text_at2("turn", "id"));
                self.turn_start_done(local_thread_id.as_str(), generation, turn_id, now);
            },
            PendingCall::Interrupt { local_thread_id, turn_id } => {
                self.interrupt_done(local_thread_id.as_str(), turn_id.as_str(), now);
            },
            PendingCall::SummaryThreadStart(job) => {
                let thread_id = owned(result.text_at2("thread", "id"));
                self.summary_start_done(job, thread_id, now);
            },
            PendingCall::SummaryTurnStart { .. } => {
                self.touch();
            },
        }
    }
}

} // verus!
