//! Calls to the backend: how they are made, and what their failure does.
use super::{
    call_at, ActiveSummary, call_numbered, is_startup_call, request_view, startup_pending,
    turn_start_view, without_call, Action, Controller, ControllerView, Moment, PendingCall,
    PendingEntry, PendingTurn, SummaryTarget,
};
use crate::json::{array, object, Json};
use crate::protocol::turn_params;
use crate::table::{lemma_first_where_is, lemma_first_where_none, lookup};
use crate::text::{cat, same_text};
use vstd::prelude::*;
use vstd::string::*;

verus! {

/// Takes the calls under an id out; the first of them is the call that was made.
fn take_call(pending: &mut Vec<PendingEntry>, id: u64) -> (r: Option<PendingCall>)
    ensures
        final(pending).deep_view() == without_call(old(pending).deep_view(), id),
        r.deep_view() == call_at(old(pending).deep_view(), id),
{
    let ghost before = pending.deep_view();
    let mut found: Option<PendingCall> = None;
    let mut i: usize = 0;
    proof {
        assert(before.skip(0) =~= before);
        assert(before.take(0) + without_call(before, id) =~= without_call(before, id));
    }
    let ghost mut at: int = 0;
    while i < pending.len()
        invariant
            i <= pending@.len(),
            0 <= at <= before.len(),
            pending.deep_view().skip(i as int) == before.skip(at),
            without_call(before, id) == pending.deep_view().take(i as int) + without_call(
                pending.deep_view().skip(i as int),
                id,
            ),
            found is None ==> forall|j: int| 0 <= j < at ==> !call_numbered(id)(#[trigger] before[j]),
            found is Some ==> found.deep_view() == call_at(before, id),
        decreases pending@.len() - i,
    {
        let ghost now = pending.deep_view();
        let ghost rest = now.skip(i as int);
        proof {
            assert(rest[0] == now[i as int]);
            assert(now[i as int] == pending@[i as int].deep_view());
            assert(before.skip(at)[0] == before[at]);
            assert(before.skip(at).drop_first() =~= before.skip(at + 1));
        }
        if pending[i].id == id {
            let entry = pending.remove(i);
            proof {
                assert(pending.deep_view() =~= now.remove(i as int));
                assert(pending.deep_view().take(i as int) =~= now.take(i as int));
                assert(pending.deep_view().skip(i as int) =~= rest.drop_first());
                if found is None {
                    lemma_first_where_is(before, call_numbered(id), at);
                }
            }
            if found.is_none() {
                found = Some(entry.call);
            }
        } else {
            proof {
                assert(now.skip(i as int + 1) =~= rest.drop_first());
                assert(now.take(i as int) + (seq![rest[0]] + without_call(rest.drop_first(), id))
                    =~= now.take(i as int + 1) + without_call(now.skip(i as int + 1), id));
            }
            i += 1;
        }
        proof {
            at = at + 1;
        }
    }
    proof {
        assert(pending.deep_view().skip(i as int).len() == 0);
        assert(before.skip(at).len() == 0);
        assert(pending.deep_view() =~= without_call(before, id));
        if found is None {
            lemma_first_where_none(before, call_numbered(id));
        }
    }
    found
}

/// Whether a call of the handshake is under way.
fn has_startup_call(pending: &Vec<PendingEntry>) -> (r: bool)
    ensures
        r == startup_pending(pending.deep_view()),
{
    let mut i: usize = 0;
    while i < pending.len()
        invariant
            i <= pending@.len(),
            forall|j: int|
                0 <= j < i ==> !is_startup_call(#[trigger] pending.deep_view()[j].call),
        decreases pending@.len() - i,
    {
        assert(pending.deep_view()[i as int] == pending@[i as int].deep_view());
        if matches!(
            pending[i].call,
            PendingCall::Initialize | PendingCall::Account | PendingCall::Models
                | PendingCall::RateLimits
        ) {
            assert(is_startup_call(pending.deep_view()[i as int].call));
            return true;
        }
        i += 1;
    }
    false
}

impl Controller {
    /// Asks for work.
    pub(crate) fn act(&mut self, action: Action)
        ensures
            final(self).deep_view() == old(self).deep_view().acted(action.deep_view()),
    {
        let ghost before = self.outbox.deep_view();
        let ghost view = action.deep_view();
        self.outbox.push(action);
        assert(self.outbox.deep_view() =~= before.push(view));
    }

    pub(crate) fn open_call(&mut self, call: PendingCall, now: Moment) -> (r: u64)
        ensures
            final(self).deep_view() == old(self).deep_view().call_opened(call.deep_view(), now),
            r == old(self).next_id,
    {
        proof {
            reveal(ControllerView::call_opened);
        }
        let id: u64 = self.next_id;
        self.next_id = self.next_id.wrapping_add(1);
        let _replaced = take_call(&mut self.pending, id);
        let ghost before = self.pending.deep_view();
        let entry = PendingEntry { id, call, deadline: now.ticks.saturating_add(60_000) };
        let ghost view = entry.deep_view();
        self.pending.push(entry);
        assert(self.pending.deep_view() =~= before.push(view));
        id
    }

    pub(crate) fn close_call(&mut self, id: u64) -> (r: Option<PendingCall>)
        ensures
            final(self).deep_view() == old(self).deep_view().call_closed(id),
            r.deep_view() == call_at(old(self).deep_view().pending, id),
    {
        proof {
            reveal(ControllerView::call_closed);
        }
        take_call(&mut self.pending, id)
    }

    pub fn finish_startup_if_ready(&mut self)
        ensures
            final(self).deep_view() == old(self).deep_view().startup_checked(),
    {
        proof {
            reveal(ControllerView::startup_checked);
        }
        if self.startup_in_progress && !has_startup_call(&self.pending) {
            self.startup_in_progress = false;
            self.startup_deadline = None;
        }
    }

    pub(crate) fn send_raw(&mut self, message: Json)
        ensures
            final(self).deep_view() == old(self).deep_view().raw_sent(message.deep_view()),
    {
        proof {
            reveal(ControllerView::raw_sent);
        }
        if self.backend {
            self.act(Action::Send(message));
        }
    }

    pub(crate) fn finish_local_turn(&mut self, id: &str, now: Moment)
        ensures
            final(self).deep_view() == old(self).deep_view().local_turn_finished(id@, now),
    {
        proof {
            reveal(ControllerView::local_turn_finished);
        }
        self.turn_generations.remove(id);
        self.cancelled.remove(id);
        self.state.drop_approvals_of(id);
        self.state.drop_questions_of(id);
        self.state.finish_turn(id, now.millis);
        self.state.touch();
    }

    fn abandon_turn(&mut self, id: &str, generation: u64, now: Moment)
        ensures
            final(self).deep_view() == old(self).deep_view().turn_abandoned(id@, generation, now),
    {
        proof {
            reveal(ControllerView::turn_abandoned);
        }
        let current: Option<u64> = match self.turn_generations.get(id) {
            Some(g) => Some(*g),
            None => None,
        };
        match current {
            Some(g) => {
                if g == generation {
                    self.finish_local_turn(id, now);
                }
            },
            None => {},
        }
    }

    pub(crate) fn error(&mut self, text: &str)
        ensures
            final(self).deep_view() == old(self).deep_view().errored(text@),
    {
        self.state.error(text);
    }

    pub(crate) fn touch(&mut self)
        ensures
            final(self).deep_view() == old(self).deep_view().touched(),
    {
        self.state.touch();
    }

    /// Ends a summary that was being written.
    pub(crate) fn close_summary(&mut self, thread_id: &str) -> (r: Option<ActiveSummary>)
        ensures
            final(self).deep_view() == old(self).deep_view().summary_closed(thread_id@),
            r.deep_view() == lookup(old(self).deep_view().active_summaries, thread_id@),
            r is None ==> final(self).deep_view() == old(self).deep_view(),
    {
        self.active_summaries.take(thread_id)
    }

    fn fail_usage(&mut self, text: &str)
        ensures
            final(self).deep_view() == old(self).deep_view().with_state(
                old(self).deep_view().state.usage_failed(text@).with_error(text@),
            ),
    {
        self.state.fail_usage(text);
        self.state.error(text);
    }

    fn fail_handshake(&mut self, text: &str)
        ensures
            final(self).deep_view() == old(self).deep_view().with_state(
                old(self).deep_view().state.with_connection(
                    false,
                    "Connection failed — Reconnect to retry"@,
                ).with_error(text@),
            ),
    {
        self.state.set_connection(false, "Connection failed — Reconnect to retry");
        self.state.error(text);
    }

    fn fail_reset(&mut self, text: &str)
        ensures
            final(self).deep_view() == old(self).deep_view().with_state(
                old(self).deep_view().state.resetting(false).with_error(text@),
            ),
    {
        self.state.reset_in_progress = false;
        self.state.error(text);
    }

    fn fail_summary(&mut self, target: &SummaryTarget, text: &str)
        ensures
            final(self).deep_view() == old(self).deep_view().summary_failed(
                target.deep_view(),
                text@,
            ),
    {
        proof {
            reveal(ControllerView::summary_failed);
        }
        match target {
            SummaryTarget::GitCommit { .. } => {
                self.state.git_action_in_progress = false;
                self.state.error(text);
            },
            SummaryTarget::ThreadTitle { .. } => {
                self.state.log(cat("Title summary unavailable: ", text).as_str());
                self.state.touch();
            },
        }
    }

    fn fail_turn(&mut self, id: &str, generation: u64, text: &str, now: Moment)
        ensures
            final(self).deep_view() == old(self).deep_view().turn_failed(
                id@,
                generation,
                text@,
                now,
            ),
    {
        proof {
            reveal(ControllerView::turn_failed);
        }
        self.abandon_turn(id, generation, now);
        self.error(text);
    }

    fn fail_summary_start(&mut self, key: &str, target: &SummaryTarget, text: &str)
        ensures
            final(self).deep_view() == old(self).deep_view().summary_start_failed(
                key@,
                target.deep_view(),
                text@,
            ),
    {
        proof {
            reveal(ControllerView::summary_start_failed);
        }
        self.summary_pending.remove(key);
        self.fail_summary(target, text);
    }

    fn fail_summary_turn(&mut self, thread_id: &str, text: &str)
        ensures
            final(self).deep_view() == old(self).deep_view().summary_turn_failed(thread_id@, text@),
    {
        proof {
            reveal(ControllerView::summary_turn_failed);
        }
        match self.close_summary(thread_id) {
            Some(active) => {
                self.fail_summary_start(active.key.as_str(), &active.target, text);
            },
            None => {
                self.touch();
            },
        }
    }

    fn fail(&mut self, call: Option<PendingCall>, text: &str, now: Moment)
        ensures
            final(self).deep_view() == old(self).deep_view().failed(call.deep_view(), text@, now),
    {
        proof {
            reveal(ControllerView::failed);
        }
        match call {
            Some(PendingCall::ThreadStart { local_thread_id, turn }) => {
                self.fail_turn(local_thread_id.as_str(), turn.generation, text, now);
            },
            Some(PendingCall::TurnStart { local_thread_id, generation }) => {
                self.fail_turn(local_thread_id.as_str(), generation, text, now);
            },
            Some(PendingCall::SummaryThreadStart(job)) => {
                self.fail_summary_start(job.key.as_str(), &job.target, text);
            },
            Some(PendingCall::SummaryTurnStart { thread_id }) => {
                self.fail_summary_turn(thread_id.as_str(), text);
            },
            Some(PendingCall::RateLimits) => {
                self.fail_usage(text);
            },
            Some(PendingCall::Initialize) => {
                self.fail_handshake(text);
            },
            Some(PendingCall::ConsumeReset) => {
                self.fail_reset(text);
            },
            _ => {
                self.error(text);
            },
        }
    }

    /// Takes note that a call failed.
    pub fn fail_call(&mut self, id: u64, text: &str, now: Moment)
        ensures
            final(self).deep_view() == old(self).deep_view().call_failed(id, text@, now),
    {
        proof {
            reveal(ControllerView::call_failed);
        }
        let call = self.close_call(id);
        self.fail(call, text, now);
        self.finish_startup_if_ready();
    }

    /// Takes note that a message could not be sent: a call fails, of anything
    /// else the user is told.
    pub fn send_failed(&mut self, message: &Json, text: &str, now: Moment)
        ensures
            final(self).deep_view() == old(self).deep_view().send_refused(
                message.deep_view(),
                text@,
                now,
            ),
    {
        proof {
            reveal(ControllerView::send_refused);
        }
        if message.get("method").is_some() {
            if let Some(id) = message.u64_at("id") {
                self.fail_call(id, text, now);
                return;
            }
        }
        self.error(text);
    }

    pub(crate) fn request(&mut self, method: &str, params: Json, call: PendingCall, now: Moment)
        ensures
            final(self).deep_view() == old(self).deep_view().requested(
                method@,
                params.deep_view(),
                call.deep_view(),
                now,
            ),
    {
        proof {
            reveal(ControllerView::requested);
            reveal(ControllerView::call_opened);
        }
        let id: u64 = self.open_call(call, now);
        let wire: Result<Json, String> = if same_text(method, "turn/start") {
            turn_params(params)
        } else {
            Ok(params)
        };
        match wire {
            Ok(p) => {
                if self.backend {
                    let ghost view = p.deep_view();
                    let message = object(
                        vec![
                            ("method".to_owned(), Json::text(method)),
                            ("id".to_owned(), Json::Unsigned(id)),
                            ("params".to_owned(), p),
                        ],
                    );
                    assert(message.deep_view()->Object_0 =~= request_view(
                        method@,
                        id,
                        view,
                    )->Object_0);
                    self.act(Action::Send(message));
                } else {
                    self.fail_call(id, "Codex is disconnected", now);
                }
            },
            Err(e) => {
                self.fail_call(id, e.as_str(), now);
            },
        }
    }

    pub(crate) fn start_turn(
        &mut self,
        local_thread_id: String,
        thread_id: &str,
        turn: PendingTurn,
        now: Moment,
    )
        ensures
            final(self).deep_view() == old(self).deep_view().turn_requested(
                local_thread_id@,
                thread_id@,
                turn.deep_view(),
                now,
            ),
    {
        proof {
            reveal(ControllerView::turn_requested);
        }
        let ghost view = turn.deep_view();
        let generation: u64 = turn.generation;
        let params = object(
            vec![
                ("threadId".to_owned(), Json::text(thread_id)),
                ("input".to_owned(), array(turn.input)),
                ("cwd".to_owned(), Json::Text(turn.cwd)),
                ("approvalPolicy".to_owned(), Json::Text(turn.approval_policy)),
                ("sandbox".to_owned(), Json::Text(turn.sandbox)),
                ("model".to_owned(), Json::Text(turn.model)),
                ("effort".to_owned(), Json::Text(turn.effort)),
            ],
        );
        assert(params.deep_view()->Object_0 =~= turn_start_view(thread_id@, view)->Object_0);
        self.request(
            "turn/start",
            params,
            PendingCall::TurnStart { local_thread_id, generation },
            now,
        );
    }
}

} // verus!
