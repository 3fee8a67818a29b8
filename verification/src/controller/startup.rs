//! How long the startup lasts.
use super::laws::{lemma_clearing, lemma_disconnecting_clears_everything};
use super::lifecycle::{initialize_view, new_controller};
use super::notifications::turn_end_logged;
use super::poll::{expired_ids, leaves_doubt, round_of, InboxView, ROUND_MESSAGES};
use super::prompts::{
    commit_job, summary_thread_view, thread_start_view, title_job, turn_for,
};
use super::requests::local_of;
use super::responses::{available_credit, consume_view, interrupt_view, summary_turn_view};
use super::{
    call_at, is_startup_call, later, startup_pending, turn_start_view, wire_params, without_call,
    ActiveSummaryView, ControllerView, Moment, PendingCallView, PendingEntryView, PendingTurnView,
};
use crate::json::JsonView;
use crate::model::{text_or, ItemKind, PersistedStateView};
use crate::protocol::member_or_null;
use crate::session::account_of;
use crate::state::AppStateView;
use crate::table::{has_key, lookup};
use crate::text::trimmed;
use crate::workspace::CommitSnapshotView;
use vstd::prelude::*;
use vstd::string::*;

verus! {

impl ControllerView {
    /// The startup has something to wait for: a backend that is on its way, or
    /// one of the calls of the handshake.
    pub open spec fn startup_waits(self) -> bool {
        self.backend_start || startup_pending(self.pending)
    }

    /// Ids of calls that are under way are used up.
    pub open spec fn ids_used(self) -> bool {
        forall|i: int| 0 <= i < self.pending.len() ==> (#[trigger] self.pending[i]).id < self.next_id
    }

    /// There is a backend, and calls under way have used ids.
    pub open spec fn served(self) -> bool {
        self.backend && !self.backend_start && self.ids_used()
    }

    /// What holds of every controller: a backend is there or on its way, not
    /// both; without one nothing is under way; and a startup has something to
    /// wait for.
    pub open spec fn startup_sound(self) -> bool {
        &&& self.ids_used()
        &&& self.backend_start ==> !self.backend
        &&& !self.backend ==> self.pending.len() == 0 && !self.state.connected
            && self.state.running_turns.len() == 0
        &&& self.startup_in_progress ==> self.startup_waits()
    }
}

/// Nothing that the startup depends on differs.
pub open spec fn kept(a: ControllerView, b: ControllerView) -> bool {
    &&& b.backend == a.backend
    &&& b.backend_start == a.backend_start
    &&& b.startup_in_progress == a.startup_in_progress
    &&& b.pending == a.pending
    &&& b.next_id == a.next_id
}

/// At most so many calls were made, and none has come back.
spec fn called(a: ControllerView, b: ControllerView, count: int) -> bool {
    &&& b.served()
    &&& b.startup_in_progress == a.startup_in_progress
    &&& startup_pending(a.pending) ==> startup_pending(b.pending)
    &&& a.next_id <= b.next_id <= a.next_id + count
}

/// The same, and the startup may have been found to be over.
spec fn settled(a: ControllerView, b: ControllerView, count: int) -> bool {
    &&& b.served()
    &&& b.startup_in_progress == a.startup_in_progress || b.startup_in_progress == (
    a.startup_in_progress && startup_pending(b.pending))
    &&& startup_pending(a.pending) ==> startup_pending(b.pending)
    &&& a.next_id <= b.next_id <= a.next_id + count
}

/// There is no connection, and nothing of one.
spec fn lost(b: ControllerView) -> bool {
    &&& !b.backend && !b.backend_start && !b.startup_in_progress
    &&& b.pending.len() == 0 && b.active_summaries.len() == 0
    &&& lost_state(b.state)
}

spec fn lost_state(s: AppStateView) -> bool {
    !s.connected && s.running_turns.len() == 0 && s.runtime_threads.len() == 0
}

proof fn lemma_absent_call(pending: Seq<PendingEntryView>, id: u64)
    requires
        forall|i: int| 0 <= i < pending.len() ==> (#[trigger] pending[i]).id != id,
    ensures
        without_call(pending, id) == pending,
    decreases pending.len(),
{
    if pending.len() > 0 {
        let rest = pending.drop_first();
        assert forall|i: int| 0 <= i < rest.len() implies (#[trigger] rest[i]).id != id by {
            assert(rest[i] == pending[i + 1]);
        }
        assert(pending[0].id != id);
        lemma_absent_call(rest, id);
        assert(seq![pending[0]] + rest =~= pending);
    }
}

proof fn lemma_last_call_dropped(pending: Seq<PendingEntryView>, entry: PendingEntryView)
    requires
        forall|i: int| 0 <= i < pending.len() ==> (#[trigger] pending[i]).id != entry.id,
    ensures
        without_call(pending.push(entry), entry.id) == pending,
    decreases pending.len(),
{
    let all = pending.push(entry);
    if pending.len() == 0 {
        assert(all.drop_first() =~= pending);
        assert(without_call(pending, entry.id) == pending);
        assert(all[0] == entry);
    } else {
        let rest = pending.drop_first();
        assert forall|i: int| 0 <= i < rest.len() implies (#[trigger] rest[i]).id != entry.id by {
            assert(rest[i] == pending[i + 1]);
        }
        assert(pending[0].id != entry.id);
        assert(all[0] == pending[0]);
        assert(all.drop_first() =~= rest.push(entry));
        lemma_last_call_dropped(rest, entry);
        assert(seq![pending[0]] + rest =~= pending);
    }
}

proof fn lemma_remaining_calls(pending: Seq<PendingEntryView>, id: u64, bound: u64)
    requires
        forall|i: int| 0 <= i < pending.len() ==> (#[trigger] pending[i]).id < bound,
    ensures
        forall|i: int|
            0 <= i < without_call(pending, id).len() ==> (#[trigger] without_call(
                pending,
                id,
            )[i]).id < bound,
    decreases pending.len(),
{
    if pending.len() > 0 {
        let rest = pending.drop_first();
        assert forall|i: int| 0 <= i < rest.len() implies (#[trigger] rest[i]).id < bound by {
            assert(rest[i] == pending[i + 1]);
        }
        assert(pending[0].id < bound);
        lemma_remaining_calls(rest, id, bound);
    }
}

/// The failure of a call changes nothing that the startup depends on.
proof fn lemma_failing(
    c: ControllerView,
    call: Option<PendingCallView>,
    text: Seq<char>,
    now: Moment,
)
    ensures
        kept(c, c.failed(call, text, now)),
{
    reveal(ControllerView::failed);
    reveal(ControllerView::turn_failed);
    reveal(ControllerView::turn_abandoned);
    reveal(ControllerView::local_turn_finished);
    reveal(ControllerView::summary_start_failed);
    reveal(ControllerView::summary_turn_failed);
    reveal(ControllerView::summary_failed);
}

proof fn lemma_opening(c: ControllerView, call: PendingCallView, now: Moment)
    requires
        c.served(),
        c.next_id < u64::MAX,
    ensures
        ({
            let r = c.call_opened(call, now);
            &&& called(c, r, 1)
            &&& r.next_id == c.next_id + 1
            &&& r.pending == c.pending.push(r.pending.last())
            &&& r.pending.last().id == c.next_id
            &&& r.pending.last().call == call
        }),
{
    reveal(ControllerView::call_opened);
    lemma_absent_call(c.pending, c.next_id);
    let r = c.call_opened(call, now);
    if startup_pending(c.pending) {
        let i = choose|i: int|
            0 <= i < c.pending.len() && is_startup_call(#[trigger] c.pending[i].call);
        assert(r.pending[i].call == c.pending[i].call);
    }
}

/// A call whose parameters can be sent is under way.
proof fn lemma_requesting(
    c: ControllerView,
    method: Seq<char>,
    params: JsonView,
    call: PendingCallView,
    now: Moment,
)
    requires
        c.served(),
        c.next_id < u64::MAX,
        method != "turn/start"@,
    ensures
        called(c, c.requested(method, params, call, now), 1),
        c.requested(method, params, call, now).pending.len() > 0,
        c.requested(method, params, call, now).pending.last().call == call,
{
    reveal(ControllerView::requested);
    lemma_opening(c, call, now);
}

/// Any call is under way, or has failed at once.
proof fn lemma_requesting_any(
    c: ControllerView,
    method: Seq<char>,
    params: JsonView,
    call: PendingCallView,
    now: Moment,
)
    requires
        c.served(),
        c.next_id < u64::MAX,
    ensures
        settled(c, c.requested(method, params, call, now), 1),
{
    reveal(ControllerView::requested);
    lemma_opening(c, call, now);
    let opened = c.call_opened(call, now);
    if wire_params(method, params) is Err {
        let text = wire_params(method, params)->Err_0;
        reveal(ControllerView::call_failed);
        reveal(ControllerView::call_closed);
        reveal(ControllerView::startup_checked);
        lemma_last_call_dropped(c.pending, opened.pending.last());
        let closed = opened.call_closed(c.next_id);
        lemma_failing(closed, call_at(opened.pending, c.next_id), text, now);
    }
}

proof fn lemma_refreshing_usage(c: ControllerView, now: Moment)
    requires
        c.served(),
        c.next_id < u64::MAX,
    ensures
        called(c, c.usage_refreshed(now), 1),
{
    reveal(ControllerView::usage_refreshed);
    reveal_strlit("account/rateLimits/read");
    reveal_strlit("turn/start");
    assert("account/rateLimits/read"@.len() != "turn/start"@.len());
    lemma_requesting(
        c.with_state(c.state.usage_requested()),
        "account/rateLimits/read"@,
        JsonView::Null,
        PendingCallView::RateLimits,
        now,
    );
}

proof fn lemma_interrupting(c: ControllerView, local: Seq<char>, now: Moment)
    requires
        c.served(),
        c.next_id < u64::MAX,
    ensures
        called(c, c.interrupted_when_ready(local, now), 1),
{
    reveal(ControllerView::interrupted_when_ready);
    reveal_strlit("turn/interrupt");
    reveal_strlit("turn/start");
    assert("turn/interrupt"@.len() != "turn/start"@.len());
    match (lookup(c.state.runtime_threads, local), lookup(c.state.running_turns, local)) {
        (Some(thread_id), Some(Some(turn_id))) => {
            lemma_requesting(
                c,
                "turn/interrupt"@,
                interrupt_view(thread_id, turn_id),
                PendingCallView::Interrupt { local_thread_id: local, turn_id },
                now,
            );
        },
        _ => {},
    }
}

proof fn lemma_turn_runs(
    c: ControllerView,
    local: Seq<char>,
    turn_id: Option<Seq<char>>,
    now: Moment,
)
    requires
        c.served(),
        c.next_id < u64::MAX,
    ensures
        called(c, c.turn_running(local, turn_id, now), 1),
{
    reveal(ControllerView::turn_running);
    lemma_interrupting(c.with_state(c.state.with_running_turn(local, turn_id)), local, now);
}

/// The answer to a call makes at most two more.
proof fn lemma_responding(
    c: ControllerView,
    call: PendingCallView,
    result: JsonView,
    now: Moment,
)
    requires
        c.served(),
        c.next_id + 2 <= u64::MAX,
    ensures
        settled(c, c.responded(call, result, now), 2),
{
    reveal(ControllerView::responded);
    reveal_strlit("account/read");
    reveal_strlit("model/list");
    reveal_strlit("turn/start");
    assert("account/read"@.len() != "turn/start"@.len());
    assert("model/list"@[0] != "turn/start"@[0]);
    match call {
        PendingCallView::Initialize => {
            reveal(ControllerView::initialized);
            reveal(ControllerView::raw_sent);
            let agent = text_or(result.text_at("userAgent"@), "Codex"@);
            let a = c.with_state(
                c.state.with_connection(true, "Connected: "@ + agent).logged(
                    "Connected to "@ + agent,
                ),
            ).raw_sent(JsonView::Object(seq![("method"@, JsonView::Text("initialized"@))]));
            let p = JsonView::Object(seq![("refreshToken"@, JsonView::Bool(false))]);
            lemma_requesting(a, "account/read"@, p, PendingCallView::Account, now);
            let b = a.requested("account/read"@, p, PendingCallView::Account, now);
            lemma_requesting(
                b,
                "model/list"@,
                JsonView::Object(seq![("limit"@, JsonView::Unsigned(100))]),
                PendingCallView::Models,
                now,
            );
        },
        PendingCallView::Account => {
            lemma_refreshing_usage(
                c.with_state(c.state.with_account(account_of(result))),
                now,
            );
        },
        PendingCallView::ConsumeReset => {
            reveal(ControllerView::reset_answered);
            let outcome = text_or(result.text_at("outcome"@), "unknown"@);
            let s = c.state.resetting(false);
            lemma_refreshing_usage(
                c.with_state(s.with_info("Codex plan usage was reset"@)),
                now,
            );
            lemma_refreshing_usage(
                c.with_state(s.with_info("This reset was already applied"@)),
                now,
            );
            lemma_refreshing_usage(
                c.with_state(
                    s.with_error("None of the current usage windows can be reset yet"@),
                ),
                now,
            );
            lemma_refreshing_usage(
                c.with_state(s.with_error("No usage resets are available"@)),
                now,
            );
            lemma_refreshing_usage(
                c.with_state(
                    s.with_error("Codex returned an unknown reset result: "@ + outcome),
                ),
                now,
            );
        },
        PendingCallView::ThreadStart { local_thread_id, turn } => {
            lemma_thread_starting(
                c,
                local_thread_id,
                turn,
                result.text_at2("thread"@, "id"@),
                now,
            );
        },
        PendingCallView::TurnStart { local_thread_id, generation } => {
            reveal(ControllerView::turn_accepted);
            reveal(ControllerView::local_turn_finished);
            lemma_turn_runs(c, local_thread_id, result.text_at2("turn"@, "id"@), now);
        },
        PendingCallView::Interrupt { local_thread_id, turn_id } => {
            reveal(ControllerView::interrupt_confirmed);
            reveal(ControllerView::local_turn_finished);
        },
        PendingCallView::SummaryThreadStart(job) => {
            reveal(ControllerView::summary_started);
            match result.text_at2("thread"@, "id"@) {
                Some(thread_id) => {
                    let a = c.with_summary(
                        thread_id,
                        ActiveSummaryView {
                            key: job.key,
                            target: job.target,
                            output: Seq::empty(),
                            deadline: later(now.ticks, 180_000),
                        },
                    );
                    lemma_requesting_any(
                        a,
                        "turn/start"@,
                        summary_turn_view(thread_id, job),
                        PendingCallView::SummaryTurnStart { thread_id },
                        now,
                    );
                },
                None => {},
            }
        },
        _ => {},
    }
}

proof fn lemma_thread_starting(
    c: ControllerView,
    local: Seq<char>,
    turn: PendingTurnView,
    thread_id: Option<Seq<char>>,
    now: Moment,
)
    requires
        c.served(),
        c.next_id < u64::MAX,
    ensures
        settled(c, c.thread_started(local, turn, thread_id, now), 1),
{
    reveal(ControllerView::thread_started);
    reveal(ControllerView::local_turn_finished);
    match thread_id {
        Some(thread_id) => {
            reveal(ControllerView::turn_requested);
            lemma_requesting_any(
                c.with_state(c.state.with_runtime_thread(local, thread_id)),
                "turn/start"@,
                turn_start_view(thread_id, turn),
                PendingCallView::TurnStart { local_thread_id: local, generation: turn.generation },
                now,
            );
        },
        None => {},
    }
}

/// What one event does to the startup: it goes on exactly while it has
/// something to wait for.
spec fn stepped(a: ControllerView, b: ControllerView, count: int) -> bool {
    &&& b.startup_sound()
    &&& b.startup_in_progress == (a.startup_in_progress && b.startup_waits())
    &&& a.next_id <= b.next_id <= a.next_id + count
}

proof fn lemma_closing(c: ControllerView, id: u64)
    requires
        c.served(),
    ensures
        c.call_closed(id).served(),
        c.call_closed(id).startup_in_progress == c.startup_in_progress,
        c.call_closed(id).next_id == c.next_id,
{
    reveal(ControllerView::call_closed);
    lemma_remaining_calls(c.pending, id, c.next_id);
}

proof fn lemma_call_fails(c: ControllerView, id: u64, text: Seq<char>, now: Moment)
    requires
        c.startup_sound(),
        c.backend,
    ensures
        stepped(c, c.call_failed(id, text, now), 0),
        c.call_failed(id, text, now).backend,
{
    reveal(ControllerView::call_failed);
    reveal(ControllerView::startup_checked);
    lemma_closing(c, id);
    lemma_failing(c.call_closed(id), call_at(c.pending, id), text, now);
}

proof fn lemma_answer_taken(c: ControllerView, id: u64, message: JsonView, now: Moment)
    requires
        c.startup_sound(),
        c.backend,
        c.next_id + 2 <= u64::MAX,
    ensures
        stepped(c, c.answered(id, message, now), 2),
{
    reveal(ControllerView::answered);
    match message.get("error"@) {
        Some(error) => {
            lemma_call_fails(
                c,
                id,
                text_or(error.text_at("message"@), "Unknown Codex error"@),
                now,
            );
        },
        None => {
            reveal(ControllerView::startup_checked);
            lemma_closing(c, id);
            match (call_at(c.pending, id), message.get("result"@)) {
                (Some(call), Some(result)) => {
                    lemma_responding(c.call_closed(id), call, result, now);
                },
                _ => {},
            }
        },
    }
}

proof fn lemma_notice_taken(c: ControllerView, method: Seq<char>, params: JsonView, now: Moment)
    requires
        c.startup_sound(),
        c.backend,
        c.next_id + 2 <= u64::MAX,
    ensures
        stepped(c, c.notified(method, params, now), 2),
{
    reveal(ControllerView::notified);
    match c.summary_of_notice(params) {
        Some(summary) => {
            reveal(ControllerView::summary_notified);
            reveal(ControllerView::summary_done);
            reveal(ControllerView::title_written);
            reveal(ControllerView::subject_written);
            reveal(ControllerView::commit_started);
            assert(kept(c, c.summary_notified(summary, method, params)));
        },
        None => {
            lemma_plain_notice(c, method, params, now);
        },
    }
}

proof fn lemma_plain_notice(c: ControllerView, method: Seq<char>, params: JsonView, now: Moment)
    requires
        c.startup_sound(),
        c.backend,
        c.next_id + 2 <= u64::MAX,
    ensures
        stepped(c, c.plainly_notified(method, params, now), 2),
{
    reveal(ControllerView::plainly_notified);
    let message = text_or(params.text_at("message"@), method);
    lemma_disconnecting_clears_everything(c, message, now);
    lemma_losing_keeps_ids(c, message, now);
    lemma_refreshing_usage(c, now);
    lemma_turn_notices(c, params, now);
    assert(kept(c, c.stderr_reported(params))) by {
        reveal(ControllerView::stderr_reported);
        reveal(ControllerView::noted);
    }
    assert(kept(c, c.item_reported(params, true)) && kept(c, c.item_reported(params, false))) by {
        reveal(ControllerView::item_reported);
    }
    assert forall|kind: ItemKind, title: Seq<char>| kept(
        c,
        #[trigger] c.delta_reported(params, kind, title),
    ) by {
        reveal(ControllerView::delta_reported);
    }
    assert(kept(c, c.usage_reported(params))) by {
        reveal(ControllerView::usage_reported);
    }
    assert(kept(c, c.account_reported(params))) by {
        reveal(ControllerView::account_reported);
    }
    assert(kept(c, c.warning_reported(params))) by {
        reveal(ControllerView::warning_reported);
    }
}

proof fn lemma_turn_notices(c: ControllerView, params: JsonView, now: Moment)
    requires
        c.served(),
        c.next_id < u64::MAX,
    ensures
        called(c, c.turn_start_reported(params, now), 1),
        kept(c, c.turn_end_reported(params, now)),
{
    reveal(ControllerView::turn_start_reported);
    reveal(ControllerView::noted);
    reveal(ControllerView::turn_end_reported);
    reveal(ControllerView::turn_end_told);
    reveal(ControllerView::turn_end_kept);
    reveal(ControllerView::workspace_refreshed);
    reveal(ControllerView::local_turn_finished);
    match local_of(c.state.runtime_threads, params) {
        Some(local) => {
            lemma_turn_runs(c, local, params.text_at2("turn"@, "id"@), now);
        },
        None => {},
    }
}

proof fn lemma_losing_keeps_ids(c: ControllerView, message: Seq<char>, now: Moment)
    ensures
        c.disconnected(message, now).next_id == c.next_id,
{
    reveal(ControllerView::disconnected);
    reveal(ControllerView::backend_cleared);
}

proof fn lemma_message_taken(c: ControllerView, message: JsonView, now: Moment)
    requires
        c.startup_sound(),
        c.backend,
        c.next_id + 2 <= u64::MAX,
    ensures
        stepped(c, c.message_taken(message, now), 2),
{
    reveal(ControllerView::message_taken);
    if message.get("id"@) is Some && message.get("method"@) is Some {
        reveal(ControllerView::server_requested);
        reveal(ControllerView::raw_sent);
        assert(kept(c, c.server_requested(message)));
    } else {
        match message.u64_at("id"@) {
            Some(id) => {
                lemma_answer_taken(c, id, message, now);
            },
            None => match message.text_at("method"@) {
                Some(method) => {
                    lemma_notice_taken(
                        c,
                        method,
                        member_or_null(message, "params"@),
                        now,
                    );
                },
                None => {},
            },
        }
    }
}

proof fn lemma_prompt_goes_out(
    c: ControllerView,
    text: Seq<char>,
    attachments: Seq<Seq<char>>,
    existing: Seq<Seq<char>>,
    now: Moment,
)
    requires
        c.startup_sound(),
        c.next_id + 2 <= u64::MAX,
    ensures
        stepped(c, c.prompt_sent(text, attachments, existing, now), 2),
{
    reveal(ControllerView::prompt_sent);
    if c.can_send(text, attachments) {
        reveal(ControllerView::thread_ensured);
        let d = c.thread_ensured(now);
        assert(kept(c, d));
        match d.state.active_local_thread {
            Some(local) => {
                lemma_prompt_goes_out_in(
                    d,
                    local,
                    trimmed(text),
                    attachments,
                    existing,
                    now,
                );
            },
            None => {},
        }
    }
}

proof fn lemma_prompt_goes_out_in(
    c: ControllerView,
    local: Seq<char>,
    text: Seq<char>,
    attachments: Seq<Seq<char>>,
    existing: Seq<Seq<char>>,
    now: Moment,
)
    requires
        c.served(),
        c.next_id + 2 <= u64::MAX,
    ensures
        settled(c, c.prompt_sent_in(local, text, attachments, existing, now), 2),
{
    reveal(ControllerView::prompt_sent_in);
    reveal(ControllerView::prompt_kept);
    reveal(ControllerView::titled_at_first);
    reveal(ControllerView::title_asked);
    reveal(ControllerView::turn_dispatched);
    reveal(ControllerView::turn_requested);
    reveal_strlit("thread/start");
    reveal_strlit("turn/start");
    assert("thread/start"@.len() != "turn/start"@.len());
    let k = c.prompt_kept(local, text, attachments, now);
    let first = c.state.conversation.len() == 0;
    let job = title_job(k.state, local, text);
    lemma_requesting(
        k.summary_opened(job.key),
        "thread/start"@,
        summary_thread_view(job.cwd, job.model),
        PendingCallView::SummaryThreadStart(job),
        now,
    );
    let t = k.titled_at_first(first, local, text, now);
    assert(called(c, t, 1));
    let restore = !has_key(c.state.runtime_threads, local);
    let turn = turn_for(
        t.state,
        c.next_id,
        text,
        attachments,
        existing,
        restore,
    );
    match lookup(t.state.runtime_threads, local) {
        Some(thread_id) => {
            lemma_requesting_any(
                t,
                "turn/start"@,
                turn_start_view(thread_id, turn),
                PendingCallView::TurnStart { local_thread_id: local, generation: turn.generation },
                now,
            );
        },
        None => {
            lemma_requesting_any(
                t,
                "thread/start"@,
                thread_start_view(turn),
                PendingCallView::ThreadStart { local_thread_id: local, turn },
                now,
            );
        },
    }
}

proof fn lemma_commit_goes_on(
    c: ControllerView,
    root: Seq<char>,
    result: Result<CommitSnapshotView, Seq<char>>,
    now: Moment,
)
    requires
        c.startup_sound(),
        c.next_id < u64::MAX,
    ensures
        stepped(c, c.commit_prepared(root, result, now), 1),
{
    reveal(ControllerView::commit_prepared);
    reveal(ControllerView::subject_asked);
    reveal(AppStateView::with_error);
    reveal(AppStateView::logged);
    reveal_strlit("thread/start");
    reveal_strlit("turn/start");
    assert("thread/start"@.len() != "turn/start"@.len());
    let d = c.preparing_commit(false);
    match result {
        Ok(snapshot) => if c.state.connected {
            let job = commit_job(d.state, root, snapshot);
            lemma_requesting(
                d.summary_opened(job.key).git_begun(),
                "thread/start"@,
                summary_thread_view(job.cwd, job.model),
                PendingCallView::SummaryThreadStart(job),
                now,
            );
        },
        Err(_) => {},
    }
}

proof fn lemma_backend_comes(c: ControllerView, fallback: bool, now: Moment)
    requires
        c.startup_sound(),
        c.backend_start,
        c.next_id < u64::MAX,
    ensures
        stepped(c, c.backend_joined(fallback, now), 1),
{
    reveal(ControllerView::backend_joined);
    reveal(ControllerView::update_check_asked);
    reveal_strlit("initialize");
    reveal_strlit("turn/start");
    assert("initialize"@[0] != "turn/start"@[0]);
    let a = c.starting_up(c.startup_in_progress, None).launching(false).attached(true);
    let b = if fallback {
        a.update_check_asked()
    } else {
        a
    };
    let d = b.with_state(b.state.with_connection_text("Connecting…"@));
    lemma_requesting(
        d,
        "initialize"@,
        initialize_view(c.version),
        PendingCallView::Initialize,
        now,
    );
    let r = d.requested(
        "initialize"@,
        initialize_view(c.version),
        PendingCallView::Initialize,
        now,
    );
    assert(r.pending[r.pending.len() - 1].call is Initialize);
    assert(startup_pending(r.pending));
}

/// A new controller is sound and starts nothing by itself.
pub proof fn lemma_new_controller_is_sound(persisted: PersistedStateView)
    ensures
        new_controller(persisted).startup_sound(),
        !new_controller(persisted).startup_in_progress,
{
    reveal(AppStateView::with_history);
}

/// Asking for a backend begins the startup.
pub proof fn lemma_start_begins_startup(c: ControllerView, now: Moment)
    requires
        !c.backend_start,
    ensures
        c.started(now).startup_sound(),
        c.started(now).startup_in_progress,
        c.started(now).backend_start,
        c.started(now).next_id == c.next_id,
{
    reveal(ControllerView::launched);
    reveal(ControllerView::workspace_refreshed);
    reveal(AppStateView::with_connection);
    reveal(ControllerView::backend_cleared);
    lemma_clearing(c, now);
}

/// What can happen to the startup: a message, a call that fails, a connection
/// that is lost, a backend that comes or does not, and what the user asks for.
/// Anything else leaves alone what the startup depends on.
pub enum StartupEvent {
    Message(JsonView),
    CallFails(u64, Seq<char>),
    Lost(Seq<char>),
    BackendComes(bool),
    BackendFails(Seq<char>),
    UsageAsked,
    ResetAsked,
    Prompt(Seq<char>, Seq<Seq<char>>, Seq<Seq<char>>),
    Stop,
    CommitPrepared(Seq<char>, Result<CommitSnapshotView, Seq<char>>),
    Other(ControllerView),
}

impl ControllerView {
    /// The controller after an event. Messages come from a backend, and only a
    /// backend that is on its way can come.
    pub open spec fn after_event(self, event: StartupEvent, now: Moment) -> ControllerView {
        match event {
            StartupEvent::Message(message) => if self.backend {
                self.message_taken(message, now)
            } else {
                self
            },
            StartupEvent::CallFails(id, text) => if self.backend {
                self.call_failed(id, text, now)
            } else {
                self
            },
            StartupEvent::Lost(text) => self.disconnected(text, now),
            StartupEvent::BackendComes(fallback) => if self.backend_start {
                self.backend_joined(fallback, now)
            } else {
                self
            },
            StartupEvent::BackendFails(error) => if self.backend_start {
                self.backend_refused(error)
            } else {
                self
            },
            StartupEvent::UsageAsked => self.usage_refreshed(now),
            StartupEvent::ResetAsked => self.reset_consumed(now),
            StartupEvent::Prompt(text, attachments, existing) => self.prompt_sent(
                text,
                attachments,
                existing,
                now,
            ),
            StartupEvent::Stop => self.interrupted(now),
            StartupEvent::CommitPrepared(root, result) => self.commit_prepared(root, result, now),
            StartupEvent::Other(next) => if alike(self, next) {
                next
            } else {
                self
            },
        }
    }

    /// The controller after a run of events.
    pub open spec fn after_run(self, events: Seq<(StartupEvent, Moment)>) -> ControllerView
        decreases events.len(),
    {
        if events.len() == 0 {
            self
        } else {
            self.after_run(events.drop_last()).after_event(events.last().0, events.last().1)
        }
    }
}

/// After every event the startup goes on exactly if it went on before and still
/// has something to wait for.
pub proof fn lemma_startup_after_event(c: ControllerView, event: StartupEvent, now: Moment)
    requires
        c.startup_sound(),
        c.next_id + 2 <= u64::MAX,
    ensures
        c.after_event(event, now).startup_sound(),
        c.after_event(event, now).startup_in_progress == (c.startup_in_progress && c.after_event(
            event,
            now,
        ).startup_waits()),
        c.after_event(event, now).next_id <= c.next_id + 2,
{
    match event {
        StartupEvent::Message(message) => {
            if c.backend {
                lemma_message_taken(c, message, now);
            }
        },
        StartupEvent::CallFails(id, text) => {
            if c.backend {
                lemma_call_fails(c, id, text, now);
            }
        },
        StartupEvent::Lost(text) => {
            lemma_disconnecting_clears_everything(c, text, now);
            lemma_losing_keeps_ids(c, text, now);
        },
        StartupEvent::BackendComes(fallback) => {
            if c.backend_start {
                lemma_backend_comes(c, fallback, now);
            }
        },
        StartupEvent::BackendFails(error) => {
            reveal(ControllerView::backend_refused);
            reveal(AppStateView::with_error);
            reveal(AppStateView::logged);
        },
        StartupEvent::UsageAsked => {
            reveal(ControllerView::usage_refreshed);
            if c.backend {
                lemma_refreshing_usage(c, now);
            }
        },
        StartupEvent::ResetAsked => {
            lemma_reset_asked(c, now);
        },
        StartupEvent::Prompt(text, attachments, existing) => {
            lemma_prompt_goes_out(c, text, attachments, existing, now);
        },
        StartupEvent::Stop => {
            reveal(ControllerView::interrupted);
            match c.state.active_local_thread {
                Some(id) => {
                    if has_key(c.state.running_turns, id) {
                        assert(c.state.running_turns.len() > 0);
                        lemma_interrupting(c.cancelling(id), id, now);
                    }
                },
                None => {},
            }
        },
        StartupEvent::CommitPrepared(root, result) => {
            lemma_commit_goes_on(c, root, result, now);
        },
        StartupEvent::Other(next) => {},
    }
}

proof fn lemma_reset_asked(c: ControllerView, now: Moment)
    requires
        c.startup_sound(),
        c.next_id < u64::MAX,
    ensures
        stepped(c, c.reset_consumed(now), 1),
{
    reveal(ControllerView::reset_consumed);
    reveal_strlit("account/rateLimitResetCredit/consume");
    reveal_strlit("turn/start");
    assert("account/rateLimitResetCredit/consume"@.len() != "turn/start"@.len());
    if !c.state.reset_in_progress && c.state.connected {
        lemma_requesting(
            c.with_state(c.state.resetting(true)),
            "account/rateLimitResetCredit/consume"@,
            consume_view(
                available_credit(c.state),
                now,
                c.next_id,
            ),
            PendingCallView::ConsumeReset,
            now,
        );
    }
}

/// What one part of a round does to the startup.
spec fn passed(a: ControllerView, b: ControllerView, count: int) -> bool {
    &&& b.startup_sound()
    &&& b.startup_in_progress ==> a.startup_in_progress
    &&& a.next_id <= b.next_id <= a.next_id + count
}

proof fn lemma_lost(c: ControllerView, text: Seq<char>, now: Moment)
    ensures
        passed(c, c.disconnected(text, now), 0),
{
    lemma_disconnecting_clears_everything(c, text, now);
    lemma_losing_keeps_ids(c, text, now);
}

proof fn lemma_calls_run_out(c: ControllerView, ids: Seq<u64>, now: Moment)
    requires
        c.startup_sound(),
        c.backend,
    ensures
        passed(c, c.calls_expired(ids, now), 0),
    decreases ids.len(),
{
    if ids.len() > 0 {
        if leaves_doubt(call_at(c.pending, ids[0])) {
            lemma_lost(
                c,
                "Codex request timed out. Reconnect before retrying the task."@,
                now,
            );
        } else {
            lemma_call_fails(c, ids[0], "Codex request timed out"@, now);
            lemma_calls_run_out(
                c.call_failed(ids[0], "Codex request timed out"@, now),
                ids.drop_first(),
                now,
            );
        }
    }
}

proof fn lemma_deadlines_pass(c: ControllerView, now: Moment)
    requires
        c.startup_sound(),
    ensures
        passed(c, c.deadlines_passed(now), 0),
{
    reveal(ControllerView::deadlines_passed);
    reveal(ControllerView::startup_expired);
    reveal(ControllerView::summaries_expired);
    lemma_lost(c, "Codex startup timed out. Use Reconnect to retry."@, now);
    let a = c.startup_expired(now);
    lemma_lost(
        a,
        "Codex summary timed out. Reconnect to retry; staged files were retained."@,
        now,
    );
    let b = a.summaries_expired(now);
    if b.backend {
        lemma_calls_run_out(b, expired_ids(b.pending, now.ticks), now);
    } else {
        assert(expired_ids(b.pending, now.ticks).len() == 0);
    }
}

/// What still comes in of a lost connection finds nothing to change.
proof fn lemma_late_message(c: ControllerView, message: JsonView, now: Moment)
    requires
        lost(c),
    ensures
        lost(c.message_taken(message, now)),
        c.message_taken(message, now).next_id == c.next_id,
{
    reveal(ControllerView::message_taken);
    if message.get("id"@) is Some && message.get("method"@) is Some {
        reveal(ControllerView::server_requested);
        reveal(ControllerView::raw_sent);
        reveal(AppStateView::approval_enqueued);
        reveal(AppStateView::question_enqueued);
    } else {
        match message.u64_at("id"@) {
            Some(id) => {
                lemma_late_answer(c, id, message, now);
            },
            None => match message.text_at("method"@) {
                Some(method) => {
                    lemma_late_notice(
                        c,
                        method,
                        member_or_null(message, "params"@),
                        now,
                    );
                },
                None => {},
            },
        }
    }
}

proof fn lemma_late_answer(c: ControllerView, id: u64, message: JsonView, now: Moment)
    requires
        lost(c),
    ensures
        lost(c.answered(id, message, now)),
        c.answered(id, message, now).next_id == c.next_id,
{
    reveal(ControllerView::answered);
    reveal(ControllerView::call_closed);
    reveal(ControllerView::call_failed);
    reveal(ControllerView::failed);
    reveal(ControllerView::startup_checked);
    reveal(AppStateView::with_error);
    reveal(AppStateView::logged);
    assert(call_at(c.pending, id) is None);
    assert(without_call(c.pending, id).len() == 0);
}

proof fn lemma_late_notice(c: ControllerView, method: Seq<char>, params: JsonView, now: Moment)
    requires
        lost(c),
    ensures
        lost(c.notified(method, params, now)),
        c.notified(method, params, now).next_id == c.next_id,
{
    reveal(ControllerView::notified);
    reveal(ControllerView::plainly_notified);
    let message = text_or(params.text_at("message"@), method);
    lemma_disconnecting_clears_everything(c, message, now);
    lemma_losing_keeps_ids(c, message, now);
    assert(local_of(c.state.runtime_threads, params) is None);
    reveal(ControllerView::item_reported);
    reveal(ControllerView::delta_reported);
    reveal(ControllerView::turn_start_reported);
    reveal(ControllerView::usage_reported);
    reveal(ControllerView::usage_refreshed);
    reveal(ControllerView::account_reported);
    assert(lost(c.stderr_reported(params)) && c.stderr_reported(params).next_id == c.next_id) by {
        reveal(ControllerView::stderr_reported);
        reveal(ControllerView::noted);
        reveal(AppStateView::logged);
    }
    assert(lost(c.warning_reported(params)) && c.warning_reported(params).next_id == c.next_id) by {
        reveal(ControllerView::warning_reported);
        reveal(AppStateView::with_error);
        reveal(AppStateView::logged);
    }
    assert(lost(c.turn_end_reported(params, now)) && c.turn_end_reported(params, now).next_id
        == c.next_id) by {
        reveal(ControllerView::turn_end_reported);
        reveal(ControllerView::turn_end_told);
        reveal(ControllerView::turn_end_kept);
        reveal(ControllerView::workspace_refreshed);
        reveal(turn_end_logged);
        reveal(AppStateView::with_error);
        reveal(AppStateView::logged);
        reveal(AppStateView::synced);
    }
}

proof fn lemma_messages_heard(c: ControllerView, messages: Seq<JsonView>, now: Moment)
    requires
        c.startup_sound(),
        c.backend || lost(c),
        c.next_id + 2 * messages.len() <= u64::MAX,
    ensures
        passed(c, c.messages_taken(messages, now), 2 * messages.len() as int),
    decreases messages.len(),
{
    if messages.len() > 0 {
        let d = c.message_taken(messages[0], now);
        if c.backend {
            lemma_message_taken(c, messages[0], now);
            lemma_backend_or_lost(c, messages[0], now);
        } else {
            lemma_late_message(c, messages[0], now);
        }
        lemma_messages_heard(d, messages.drop_first(), now);
    }
}

/// A message leaves the backend where it is, or loses the connection.
proof fn lemma_backend_or_lost(c: ControllerView, message: JsonView, now: Moment)
    requires
        c.startup_sound(),
        c.backend,
        c.next_id + 2 <= u64::MAX,
    ensures
        c.message_taken(message, now).backend || lost(c.message_taken(message, now)),
{
    reveal(ControllerView::message_taken);
    if message.get("id"@) is Some && message.get("method"@) is Some {
        reveal(ControllerView::server_requested);
        reveal(ControllerView::raw_sent);
    } else {
        match message.u64_at("id"@) {
            Some(id) => {
                reveal(ControllerView::answered);
                reveal(ControllerView::startup_checked);
                match message.get("error"@) {
                    Some(error) => {
                        lemma_call_fails(
                            c,
                            id,
                            text_or(
                                error.text_at("message"@),
                                "Unknown Codex error"@,
                            ),
                            now,
                        );
                    },
                    None => {
                        lemma_closing(c, id);
                        match (call_at(c.pending, id), message.get("result"@)) {
                            (Some(call), Some(result)) => {
                                lemma_responding(c.call_closed(id), call, result, now);
                            },
                            _ => {},
                        }
                    },
                }
            },
            None => match message.text_at("method"@) {
                Some(method) => {
                    let params = member_or_null(message, "params"@);
                    reveal(ControllerView::notified);
                    match c.summary_of_notice(params) {
                        Some(summary) => {
                            reveal(ControllerView::summary_notified);
                            reveal(ControllerView::summary_done);
                            reveal(ControllerView::title_written);
                            reveal(ControllerView::subject_written);
                            reveal(ControllerView::commit_started);
                        },
                        None => {
                            let text = text_or(
                                params.text_at("message"@),
                                method,
                            );
                            lemma_disconnecting_clears_everything(c, text, now);
                            lemma_refreshing_usage(c, now);
                            lemma_turn_notices(c, params, now);
                            reveal(ControllerView::plainly_notified);
                            reveal(ControllerView::stderr_reported);
                            reveal(ControllerView::noted);
                            reveal(ControllerView::item_reported);
                            reveal(ControllerView::delta_reported);
                            reveal(ControllerView::usage_reported);
                            reveal(ControllerView::account_reported);
                            reveal(ControllerView::warning_reported);
                        },
                    }
                },
                None => {},
            },
        }
    }
}

/// A round keeps the startup sound and never begins one.
pub proof fn lemma_round_keeps_startup_sound(c: ControllerView, inbox: InboxView, now: Moment)
    requires
        c.startup_sound(),
        c.next_id + 700 <= u64::MAX,
    ensures
        c.polled(inbox, now).startup_sound(),
        c.polled(inbox, now).startup_in_progress ==> c.startup_in_progress,
{
    reveal(ControllerView::polled);
    lemma_deadlines_pass(c, now);
    let a = c.deadlines_passed(now);
    reveal(ControllerView::backend_polled);
    reveal(ControllerView::backend_refused);
    reveal(AppStateView::with_error);
    reveal(AppStateView::logged);
    if a.backend_start && inbox.backend_started is Some && inbox.backend_started->0 is Ok {
        lemma_backend_comes(a, inbox.backend_started->0->Ok_0, now);
    }
    let b = a.backend_polled(inbox.backend_started, now);
    assert(passed(a, b, 1));
    reveal(ControllerView::backend_heard);
    if b.backend {
        lemma_messages_heard(b, round_of(inbox.messages), now);
    }
    let d = b.backend_heard(inbox.messages, now);
    assert(round_of(inbox.messages).len() <= ROUND_MESSAGES);
    assert(passed(b, d, 600));
    lemma_rest_of_round(d, inbox, now);
}

proof fn lemma_rest_of_round(c: ControllerView, inbox: InboxView, now: Moment)
    requires
        c.startup_sound(),
        c.next_id < u64::MAX,
    ensures
        ({
            let r = c.workspace_polled(inbox.workspace).commit_polled(inbox.commit, now).git_polled(
                inbox.git,
            ).update_check_polled(inbox.update_check).update_install_polled(
                inbox.update_install,
            ).round_closed();
            &&& r.startup_sound()
            &&& r.startup_in_progress ==> c.startup_in_progress
        }),
{
    reveal(ControllerView::workspace_polled);
    reveal(ControllerView::inspected);
    reveal(AppStateView::snapshot_applied);
    let a = c.workspace_polled(inbox.workspace);
    assert(alike(c, a));
    reveal(ControllerView::commit_polled);
    let b = a.commit_polled(inbox.commit, now);
    match inbox.commit {
        Some((root, outcome)) => {
            if a.commit_prepare_rx {
                lemma_commit_goes_on(a, root, outcome, now);
            }
        },
        None => {},
    }
    lemma_git_round(b, inbox.git);
    let d = b.git_polled(inbox.git);
    reveal(ControllerView::update_check_polled);
    reveal(ControllerView::update_checked);
    reveal(AppStateView::logged);
    let e = d.update_check_polled(inbox.update_check);
    assert(alike(d, e));
    reveal(ControllerView::update_install_polled);
    reveal(ControllerView::update_installed);
    reveal(AppStateView::with_error);
    reveal(AppStateView::with_info);
    let f = e.update_install_polled(inbox.update_install);
    assert(alike(e, f));
    reveal(ControllerView::round_closed);
    reveal(AppStateView::log_trimmed);
    assert(alike(f, f.round_closed()));
}

/// Nothing differs that the startup and its soundness depend on.
pub open spec fn alike(a: ControllerView, b: ControllerView) -> bool {
    &&& kept(a, b)
    &&& b.state.connected == a.state.connected
    &&& b.state.running_turns == a.state.running_turns
}

proof fn lemma_git_round(c: ControllerView, result: Option<Result<Seq<char>, Seq<char>>>)
    ensures
        alike(c, c.git_polled(result)),
{
    reveal(ControllerView::git_polled);
    reveal(ControllerView::git_done);
    reveal(ControllerView::snapshot_invalidated);
    reveal(ControllerView::inspection_switched);
    reveal(ControllerView::cache_shown);
    reveal(ControllerView::workspace_refreshed);
    reveal(AppStateView::snapshot_applied);
    reveal(AppStateView::workspace_reset);
    reveal(AppStateView::with_error);
    reveal(AppStateView::with_info);
    reveal(AppStateView::logged);
}

/// Over any run of events from a startup, the startup is in progress exactly
/// while, ever since it began, a backend was on its way or one of the calls of
/// the handshake had not come back.
pub proof fn lemma_startup_lasts_while_calls_wait(
    c: ControllerView,
    events: Seq<(StartupEvent, Moment)>,
)
    requires
        c.startup_sound(),
        c.startup_in_progress,
        c.next_id + 2 * events.len() <= u64::MAX,
    ensures
        c.after_run(events).startup_sound(),
        c.after_run(events).startup_in_progress <==> forall|k: int|
            0 <= k <= events.len() ==> (#[trigger] c.after_run(events.take(k))).startup_waits(),
        c.after_run(events).next_id <= c.next_id + 2 * events.len(),
    decreases events.len(),
{
    assert(events.take(events.len() as int) =~= events);
    if events.len() == 0 {
        assert forall|k: int| 0 <= k <= events.len() implies (#[trigger] c.after_run(
            events.take(k),
        )).startup_waits() by {
            assert(events.take(k) =~= events);
        }
    } else {
        let before = events.drop_last();
        lemma_startup_lasts_while_calls_wait(c, before);
        let b = c.after_run(before);
        lemma_startup_after_event(b, events.last().0, events.last().1);
        assert forall|k: int| 0 <= k <= before.len() implies #[trigger] before.take(k)
            == events.take(k) by {
            assert(before.take(k) =~= events.take(k));
        }
        if c.after_run(events).startup_in_progress {
            assert forall|k: int| 0 <= k <= events.len() implies (#[trigger] c.after_run(
                events.take(k),
            )).startup_waits() by {
                if k <= before.len() {
                    assert(before.take(k) == events.take(k));
                }
            }
        }
        if forall|k: int|
            0 <= k <= events.len() ==> (#[trigger] c.after_run(events.take(k))).startup_waits() {
            assert forall|k: int| 0 <= k <= before.len() implies (#[trigger] c.after_run(
                before.take(k),
            )).startup_waits() by {
                assert(before.take(k) == events.take(k));
                assert(c.after_run(events.take(k)).startup_waits());
            }
            assert(c.after_run(events.take(events.len() as int)).startup_waits());
        }
    }
}

} // verus!
