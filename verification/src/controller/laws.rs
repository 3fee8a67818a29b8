//! What holds of the controller across messages, calls and time.
use super::inspection::{cache_key, same_root};
use super::poll::{expired_ids, leaves_doubt, InboxView};
use super::prompts::turn_for;
use super::requests::{
    asks_change, asks_command, decision_view, local_of, result_view, unsupported_view,
};
use super::responses::interrupt_pending;
use super::{
    call_at, call_numbered, startup_pending, without_call, ActionView, ControllerView, Moment, PendingCallView,
    PendingEntryView, PendingTurnView,
};
use crate::json::JsonView;
use crate::model::{text_or_empty, ConversationItemView, ItemKind};
use crate::prompt::{chat_lines, last_chars, prompt_with_context, text_input_view};
use crate::protocol::member_or_null;
use crate::state::{
    elapsed, final_answer, interrupted, thread_at, thread_named, timed, AppStateView,
};
use crate::steps::keys;
use crate::table::{
    first_where, has_key, lemma_first_where, lemma_first_where_is, lemma_first_where_none,
    lemma_last_where, lemma_lookup, lemma_put_lookup, lookup, without,
};
use crate::text::{decimal, joined};
use crate::workspace::WorkspaceSnapshotView;
use vstd::prelude::*;
use vstd::string::*;

verus! {

/// A call that belongs to an earlier generation of a thread's turns changes
/// nothing when it is answered, and ends no turn when it fails.
pub proof fn lemma_stale_calls_change_nothing(
    c: ControllerView,
    local: Seq<char>,
    turn: PendingTurnView,
    answer: Option<Seq<char>>,
    now: Moment,
)
    requires
        lookup(c.turn_generations, local) != Some(turn.generation),
    ensures
        c.thread_started(local, turn, answer, now) == c,
        c.turn_accepted(local, turn.generation, answer, now) == c,
        c.turn_abandoned(local, turn.generation, now) == c,
{
    reveal(ControllerView::thread_started);
    reveal(ControllerView::turn_accepted);
    reveal(ControllerView::turn_abandoned);
}

/// A turn that is over does not start again: neither a late answer nor a late
/// notification makes it run, and a second end of it changes nothing.
pub proof fn lemma_finished_turn_stays_finished(
    c: ControllerView,
    local: Seq<char>,
    turn_id: Seq<char>,
    generation: u64,
    params: JsonView,
    now: Moment,
)
    requires
        c.completed_turns.contains((local, turn_id)),
        local_of(c.state.runtime_threads, params) == Some(local),
        params.text_at2("turn"@, "id"@) == Some(turn_id),
    ensures
        c.turn_accepted(local, generation, Some(turn_id), now).state.running_turns
            == c.state.running_turns,
        c.turn_start_reported(params, now) == c,
        c.turn_end_reported(params, now) == c,
{
    reveal(ControllerView::turn_accepted);
    reveal(ControllerView::turn_start_reported);
    reveal(ControllerView::turn_end_reported);
}

/// The turn that runs is not ended by the end of another turn of its thread.
pub proof fn lemma_other_turn_ends_nothing(
    c: ControllerView,
    local: Seq<char>,
    running: Seq<char>,
    other: Seq<char>,
    params: JsonView,
    now: Moment,
)
    requires
        lookup(c.state.running_turns, local) == Some(Some(running)),
        running != other,
        local_of(c.state.runtime_threads, params) == Some(local),
        params.text_at2("turn"@, "id"@) == Some(other),
    ensures
        c.turn_end_reported(params, now).state == c.state,
        c.interrupt_confirmed(local, other, now).state.running_turns == c.state.running_turns,
{
    reveal(ControllerView::turn_end_reported);
    reveal(ControllerView::interrupt_confirmed);
}

/// A turn that is confirmed as interrupted no longer runs, and is known to be
/// over.
pub proof fn lemma_interrupted_turn_is_over(
    c: ControllerView,
    local: Seq<char>,
    turn_id: Seq<char>,
    now: Moment,
)
    requires
        lookup(c.state.running_turns, local) == Some(Some(turn_id)),
    ensures
        !has_key(c.interrupt_confirmed(local, turn_id, now).state.running_turns, local),
        c.interrupt_confirmed(local, turn_id, now).completed_turns.contains((local, turn_id)),
        !has_key(c.interrupt_confirmed(local, turn_id, now).turn_generations, local),
        !has_key(c.interrupt_confirmed(local, turn_id, now).cancelled, local),
{
    reveal(ControllerView::interrupt_confirmed);
    reveal(AppStateView::logged);
    let marked = c.turn_completed(local, turn_id).with_state(c.state.items_interrupted(local));
    lemma_turn_over(marked, local, now);
    if !c.completed_turns.contains((local, turn_id)) {
        let all = c.turn_completed(local, turn_id).completed_turns;
        assert(all[c.completed_turns.len() as int] == (local, turn_id));
    }
}

/// Ending the turn of a thread leaves the turns of other threads alone.
pub proof fn lemma_turn_over(c: ControllerView, local: Seq<char>, now: Moment)
    ensures
        c.local_turn_finished(local, now).state.running_turns == without(
            c.state.running_turns,
            local,
        ),
        !has_key(c.local_turn_finished(local, now).state.running_turns, local),
        !has_key(c.local_turn_finished(local, now).turn_generations, local),
        !has_key(c.local_turn_finished(local, now).cancelled, local),
        c.local_turn_finished(local, now).completed_turns == c.completed_turns,
        c.local_turn_finished(local, now).pending == c.pending,
{
    reveal(ControllerView::local_turn_finished);
    let s = c.state.approvals_dropped(local).questions_dropped(local);
    reveal(AppStateView::approvals_dropped);
    reveal(AppStateView::questions_dropped);
    reveal(AppStateView::next_approval);
    reveal(AppStateView::next_question);
    lemma_finishing_drops_turn(s, local, now.millis);
    lemma_put_lookup(c.state.running_turns, local, None, local);
    lemma_put_lookup(c.turn_generations, local, 0u64, local);
    lemma_put_lookup(c.cancelled, local, (), local);
}

proof fn lemma_finishing_drops_turn(s: AppStateView, local: Seq<char>, now_ms: u64)
    ensures
        s.turn_finished(local, now_ms).running_turns == without(s.running_turns, local),
        s.turn_finished(local, now_ms).approval == s.approval,
        s.turn_finished(local, now_ms).user_question == s.user_question,
{
    reveal(AppStateView::turn_finished);
    reveal(AppStateView::answer_settled);
    reveal(AppStateView::answer_timed);
}

proof fn lemma_interrupting_keeps_turns(s: AppStateView, local: Seq<char>)
    ensures
        s.items_interrupted(local).running_turns == s.running_turns,
{
    reveal(AppStateView::items_interrupted);
}

proof fn lemma_without_subset<W>(s: Seq<(Seq<char>, W)>, key: Seq<char>)
    ensures
        forall|k: Seq<char>|
            #![trigger lookup(without(s, key), k)]
            lookup(without(s, key), k) is Some ==> k != key && lookup(s, k) is Some,
{
    assert forall|k: Seq<char>| lookup(without(s, key), k) is Some implies k != key && lookup(
        s,
        k,
    ) is Some by {
        if s.len() > 0 {
            lemma_put_lookup(s, key, s[0].1, k);
        }
    }
}

proof fn lemma_ending_turns(s: AppStateView, ids: Seq<Seq<char>>, now_ms: u64)
    requires
        forall|k: Seq<char>| #[trigger] lookup(s.running_turns, k) is Some ==> ids.contains(k),
    ensures
        s.turns_ended(ids, now_ms).running_turns.len() == 0,
    decreases ids.len(),
{
    if ids.len() == 0 {
        if s.running_turns.len() > 0 {
            let k = s.running_turns[0].0;
            assert(lookup(s.running_turns, k) is Some);
        }
    } else {
        let t = s.items_interrupted(ids[0]);
        lemma_interrupting_keeps_turns(s, ids[0]);
        lemma_finishing_drops_turn(t, ids[0], now_ms);
        lemma_without_subset(s.running_turns, ids[0]);
        let u = t.turn_finished(ids[0], now_ms);
        let rest = ids.drop_first();
        assert forall|k: Seq<char>| #[trigger] lookup(u.running_turns, k) is Some implies rest.contains(
            k,
        ) by {
            assert(k != ids[0] && lookup(s.running_turns, k) is Some);
            let i = choose|i: int| 0 <= i < ids.len() && ids[i] == k;
            assert(rest[i - 1] == k);
        }
        lemma_ending_turns(u, rest, now_ms);
    }
}

/// The same entries, those that ran marked as interrupted.
pub open spec fn stopped(
    before: Seq<ConversationItemView>,
    after: Seq<ConversationItemView>,
) -> bool {
    &&& after.len() == before.len()
    &&& forall|i: int|
        0 <= i < before.len() ==> {
            &&& (#[trigger] after[i]).id == before[i].id
            &&& after[i].kind == before[i].kind
            &&& after[i].body == before[i].body
            &&& after[i].status == if before[i].status == "running"@ {
                "interrupted"@
            } else {
                before[i].status
            }
        }
}

proof fn lemma_turn_stopped(s: AppStateView, id: Seq<char>, other: Seq<char>, now_ms: u64)
    ensures
        ({
            let r = s.items_interrupted(id).turn_finished(id, now_ms);
            &&& s.thread_messages(id) is Some ==> r.thread_messages(id) is Some && stopped(
                s.thread_messages(id)->0,
                r.thread_messages(id)->0,
            )
            &&& other != id ==> r.thread_messages(other) == s.thread_messages(other)
        }),
{
    let t = s.items_interrupted(id);
    reveal(AppStateView::items_interrupted);
    if s.thread_messages(id) is Some {
        let stopped_items = interrupted(s.thread_messages(id)->0);
        lemma_messages_replaced(s, id, stopped_items, other);
    }
    reveal(AppStateView::turn_finished);
    reveal(AppStateView::answer_settled);
    reveal(AppStateView::answer_timed);
    if lookup(t.turn_started_at_ms, id) is Some && t.thread_messages(id) is Some {
        let ms = elapsed(lookup(t.turn_started_at_ms, id)->0, now_ms);
        let m = t.thread_messages(id)->0;
        lemma_messages_replaced(t, id, timed(m, ms), other);
        if final_answer(m) is Some {
            lemma_last_where(
                m,
                |i: ConversationItemView| i.kind == ItemKind::Assistant || i.kind == ItemKind::User,
            );
        }
    }
}

pub(crate) proof fn lemma_messages_replaced(
    s: AppStateView,
    id: Seq<char>,
    messages: Seq<ConversationItemView>,
    other: Seq<char>,
)
    requires
        s.thread_messages(id) is Some,
    ensures
        s.with_messages(id, messages).thread_messages(id) == Some(messages),
        other != id ==> s.with_messages(id, messages).thread_messages(other)
            == s.thread_messages(other),
{
    if s.active_local_thread != Some(id) {
        let r = s.with_messages(id, messages);
        lemma_first_where(s.threads, thread_named(id));
        lemma_first_where(s.threads, thread_named(other));
        lemma_first_where(r.threads, thread_named(id));
        lemma_first_where(r.threads, thread_named(other));
        let i = thread_at(s.threads, id)->0;
        assert forall|j: int| 0 <= j < i implies !thread_named(id)(#[trigger] r.threads[j]) by {
            assert(!thread_named(id)(s.threads[j]));
        }
        lemma_first_where_is(r.threads, thread_named(id), i);
        if other != id {
            match thread_at(s.threads, other) {
                Some(k) => {
                    assert forall|j: int| 0 <= j < k implies !thread_named(other)(
                        #[trigger] r.threads[j],
                    ) by {
                        assert(!thread_named(other)(s.threads[j]));
                    }
                    assert(thread_named(other)(r.threads[k]));
                    lemma_first_where_is(r.threads, thread_named(other), k);
                },
                None => {
                    assert forall|j: int| 0 <= j < r.threads.len() implies !thread_named(other)(
                        #[trigger] r.threads[j],
                    ) by {
                        assert(!thread_named(other)(s.threads[j]));
                    }
                    lemma_first_where_none(r.threads, thread_named(other));
                },
            }
        }
    }
}

proof fn lemma_stopped_twice(
    a: Seq<ConversationItemView>,
    b: Seq<ConversationItemView>,
    c: Seq<ConversationItemView>,
)
    requires
        stopped(a, b),
        stopped(b, c),
    ensures
        stopped(a, c),
{
    reveal_strlit("running");
    reveal_strlit("interrupted");
    assert("running"@.len() != "interrupted"@.len());
    assert forall|i: int| 0 <= i < a.len() implies {
        &&& (#[trigger] c[i]).id == a[i].id
        &&& c[i].kind == a[i].kind
        &&& c[i].body == a[i].body
        &&& c[i].status == if a[i].status == "running"@ {
            "interrupted"@
        } else {
            a[i].status
        }
    } by {
        assert(b[i].id == a[i].id);
    }
}

proof fn lemma_turns_stopped(s: AppStateView, ids: Seq<Seq<char>>, id: Seq<char>, now_ms: u64)
    ensures
        ({
            let r = s.turns_ended(ids, now_ms);
            &&& !ids.contains(id) ==> r.thread_messages(id) == s.thread_messages(id)
            &&& ids.contains(id) && s.thread_messages(id) is Some ==> r.thread_messages(id) is Some
                && stopped(s.thread_messages(id)->0, r.thread_messages(id)->0)
        }),
    decreases ids.len(),
{
    if ids.len() > 0 {
        lemma_turn_stopped(s, ids[0], id, now_ms);
        let t = s.items_interrupted(ids[0]).turn_finished(ids[0], now_ms);
        let rest = ids.drop_first();
        lemma_turns_stopped(t, rest, id, now_ms);
        if rest.contains(id) {
            let k = choose|k: int| 0 <= k < rest.len() && rest[k] == id;
            assert(ids[k + 1] == id);
        } else if ids.contains(id) {
            let k = choose|k: int| 0 <= k < ids.len() && ids[k] == id;
            if k > 0 {
                assert(rest[k - 1] == id);
            }
        }
        if ids[0] == id && rest.contains(id) && s.thread_messages(id) is Some {
            lemma_stopped_twice(
                s.thread_messages(id)->0,
                t.thread_messages(id)->0,
                t.turns_ended(rest, now_ms).thread_messages(id)->0,
            );
        }
    }
}

/// Losing the connection marks what ran in a thread as interrupted, and leaves
/// threads without a running turn as they were.
pub proof fn lemma_disconnecting_interrupts_running_items(
    c: ControllerView,
    message: Seq<char>,
    id: Seq<char>,
    now: Moment,
)
    ensures
        ({
            let r = c.disconnected(message, now).state;
            let before = c.state.thread_messages(id);
            &&& has_key(c.state.running_turns, id) && before is Some ==> r.thread_messages(id) is Some
                && stopped(before->0, r.thread_messages(id)->0)
            &&& !has_key(c.state.running_turns, id) ==> r.thread_messages(id) == before
        }),
{
    reveal(ControllerView::disconnected);
    reveal(ControllerView::backend_cleared);
    reveal(AppStateView::with_connection);
    reveal(AppStateView::with_error);
    reveal(AppStateView::logged);
    reveal(AppStateView::runtime_cleared);
    reveal(AppStateView::waiting_cleared);
    let ids = keys(c.state.running_turns);
    lemma_turns_stopped(c.state.runtime_forgotten(), ids, id, now.millis);
    lemma_lookup(c.state.running_turns, id);
    if has_key(c.state.running_turns, id) {
        let i = choose|i: int|
            0 <= i < c.state.running_turns.len() && (#[trigger] c.state.running_turns[i]).0 == id;
        assert(ids[i] == id);
    } else if ids.contains(id) {
        let i = choose|i: int| 0 <= i < ids.len() && ids[i] == id;
        assert(c.state.running_turns[i].0 == id);
    }
}

/// Losing the connection leaves nothing behind that belonged to it: no call, no
/// running turn, no thread of the backend, no approval and no question.
pub proof fn lemma_disconnecting_clears_everything(
    c: ControllerView,
    message: Seq<char>,
    now: Moment,
)
    ensures
        ({
            let r = c.disconnected(message, now);
            &&& !r.backend && !r.backend_start && !r.startup_in_progress
            &&& r.startup_deadline is None
            &&& !r.state.connected
            &&& r.pending.len() == 0
            &&& r.turn_generations.len() == 0
            &&& r.cancelled.len() == 0
            &&& r.completed_turns.len() == 0
            &&& r.summary_pending.len() == 0
            &&& r.active_summaries.len() == 0
            &&& r.state.running_turns.len() == 0
            &&& r.state.turn_started_at_ms.len() == 0
            &&& r.state.runtime_threads.len() == 0
            &&& r.state.approval is None && r.state.approval_queue.len() == 0
            &&& r.state.user_question is None && r.state.user_question_queue.len() == 0
            &&& !r.state.usage_loading && !r.state.reset_in_progress
        }),
{
    reveal(ControllerView::disconnected);
    reveal(AppStateView::with_connection);
    reveal(AppStateView::with_error);
    reveal(AppStateView::logged);
    lemma_clearing(c, now);
}

pub(crate) proof fn lemma_clearing(c: ControllerView, now: Moment)
    ensures
        ({
            let r = c.backend_cleared(now);
            &&& !r.backend && !r.backend_start
            &&& r.startup_deadline is None
            &&& r.pending.len() == 0
            &&& r.turn_generations.len() == 0
            &&& r.cancelled.len() == 0
            &&& r.completed_turns.len() == 0
            &&& r.summary_pending.len() == 0
            &&& r.active_summaries.len() == 0
            &&& r.state.running_turns.len() == 0
            &&& r.state.turn_started_at_ms.len() == 0
            &&& r.state.runtime_threads.len() == 0
            &&& r.state.approval is None && r.state.approval_queue.len() == 0
            &&& r.state.user_question is None && r.state.user_question_queue.len() == 0
            &&& !r.state.usage_loading && !r.state.reset_in_progress
        }),
{
    reveal(ControllerView::backend_cleared);
    reveal(AppStateView::runtime_cleared);
    reveal(AppStateView::waiting_cleared);
    let s = c.state.runtime_forgotten();
    let ids = keys(c.state.running_turns);
    assert forall|k: Seq<char>| #[trigger] lookup(s.running_turns, k) is Some implies ids.contains(
        k,
    ) by {
        lemma_lookup(s.running_turns, k);
        let i = choose|i: int| 0 <= i < s.running_turns.len() && (#[trigger] s.running_turns[i]).0
            == k;
        assert(ids[i] == k);
    }
    lemma_ending_turns(s, ids, now.millis);
    lemma_ended_turns_keep_threads(s, ids, now.millis);
}

proof fn lemma_ended_turns_keep_threads(s: AppStateView, ids: Seq<Seq<char>>, now_ms: u64)
    ensures
        s.turns_ended(ids, now_ms).runtime_threads == s.runtime_threads,
    decreases ids.len(),
{
    if ids.len() > 0 {
        let t = s.items_interrupted(ids[0]);
        reveal(AppStateView::items_interrupted);
        reveal(AppStateView::turn_finished);
        reveal(AppStateView::answer_settled);
        reveal(AppStateView::answer_timed);
        lemma_ended_turns_keep_threads(
            t.turn_finished(ids[0], now_ms),
            ids.drop_first(),
            now_ms,
        );
    }
}

/// A startup that takes too long ends the connection.
pub proof fn lemma_slow_startup_disconnects(c: ControllerView, now: Moment)
    requires
        c.startup_deadline is Some,
        now.ticks >= c.startup_deadline->0,
    ensures
        !c.deadlines_passed(now).backend,
        !c.deadlines_passed(now).backend_start,
        !c.deadlines_passed(now).startup_in_progress,
        !c.deadlines_passed(now).state.connected,
        c.deadlines_passed(now).pending.len() == 0,
{
    reveal(ControllerView::deadlines_passed);
    reveal(ControllerView::startup_expired);
    reveal(ControllerView::summaries_expired);
    let message = "Codex startup timed out. Use Reconnect to retry."@;
    lemma_disconnecting_clears_everything(c, message, now);
    let d = c.disconnected(message, now);
    assert(d.active_summaries.len() == 0);
    assert(expired_ids(d.pending, now.ticks).len() == 0);
}

/// When a call that the backend may still carry out times out first, the
/// connection ends, so that no second turn runs beside it.
pub proof fn lemma_doubtful_timeout_disconnects(c: ControllerView, now: Moment)
    requires
        expired_ids(c.pending, now.ticks).len() > 0,
        leaves_doubt(call_at(c.pending, expired_ids(c.pending, now.ticks)[0])),
    ensures
        !c.deadlines_passed(now).backend,
        !c.deadlines_passed(now).state.connected,
        c.deadlines_passed(now).state.running_turns.len() == 0,
        c.deadlines_passed(now).pending.len() == 0,
{
    reveal(ControllerView::deadlines_passed);
    reveal(ControllerView::startup_expired);
    reveal(ControllerView::summaries_expired);
    lemma_disconnecting_clears_everything(
        c,
        "Codex startup timed out. Use Reconnect to retry."@,
        now,
    );
    lemma_disconnecting_clears_everything(
        c,
        "Codex summary timed out. Reconnect to retry; staged files were retained."@,
        now,
    );
    lemma_disconnecting_clears_everything(
        c,
        "Codex request timed out. Reconnect before retrying the task."@,
        now,
    );
}

pub(crate) proof fn lemma_without_call(pending: Seq<PendingEntryView>, id: u64, other: u64)
    ensures
        call_at(without_call(pending, id), id) is None,
        other != id ==> call_at(without_call(pending, id), other) == call_at(pending, other),
    decreases pending.len(),
{
    let kept = without_call(pending, id);
    if pending.len() > 0 {
        let rest = pending.drop_first();
        lemma_without_call(rest, id, other);
        lemma_first_where(rest, call_numbered(other));
        lemma_first_where(pending, call_numbered(other));
        if pending[0].id != id {
            let kept_rest = without_call(rest, id);
            assert(kept.drop_first() =~= kept_rest);
            lemma_first_where(kept_rest, call_numbered(other));
            lemma_first_where(kept_rest, call_numbered(id));
        }
    }
}

/// A call that is made is found under its id until it is closed, and no other
/// call is touched by it.
pub proof fn lemma_call_is_found(
    c: ControllerView,
    call: PendingCallView,
    now: Moment,
    other: u64,
)
    ensures
        call_at(c.call_opened(call, now).pending, c.next_id) == Some(call),
        other != c.next_id ==> call_at(c.call_opened(call, now).pending, other) == call_at(
            c.pending,
            other,
        ),
        call_at(c.call_closed(c.next_id).pending, c.next_id) is None,
        other != c.next_id ==> call_at(c.call_closed(c.next_id).pending, other) == call_at(
            c.pending,
            other,
        ),
{
    reveal(ControllerView::call_opened);
    reveal(ControllerView::call_closed);
    let kept = without_call(c.pending, c.next_id);
    lemma_without_call(c.pending, c.next_id, other);
    let all = c.call_opened(call, now).pending;
    let n = kept.len() as int;
    lemma_first_where(kept, call_numbered(c.next_id));
    lemma_first_where(all, call_numbered(c.next_id));
    assert(call_numbered(c.next_id)(all[n]));
    assert forall|j: int| 0 <= j < n implies !call_numbered(c.next_id)(#[trigger] all[j]) by {
        assert(!call_numbered(c.next_id)(kept[j]));
    }
    lemma_first_where_is(all, call_numbered(c.next_id), n);
    if other != c.next_id {
        lemma_first_where(kept, call_numbered(other));
        lemma_first_where(all, call_numbered(other));
        match first_where(kept, call_numbered(other)) {
            Some(i) => {
                assert forall|j: int| 0 <= j < i implies !call_numbered(other)(
                    #[trigger] all[j],
                ) by {
                    assert(!call_numbered(other)(kept[j]));
                }
                assert(call_numbered(other)(all[i]));
                lemma_first_where_is(all, call_numbered(other), i);
            },
            None => {
                assert forall|j: int| 0 <= j < all.len() implies !call_numbered(other)(
                    #[trigger] all[j],
                ) by {
                    if j < n {
                        assert(!call_numbered(other)(kept[j]));
                    }
                }
                lemma_first_where_none(all, call_numbered(other));
            },
        }
    }
}

/// A turn is asked to stop at most once: while the interrupt is under way,
/// stopping again sends nothing.
pub proof fn lemma_turn_is_interrupted_once(c: ControllerView, now: Moment, later: Moment)
    requires
        c.backend,
    ensures
        c.interrupted(now).interrupted(later).outbox == c.interrupted(now).outbox,
        c.interrupted(now).interrupted(later).pending == c.interrupted(now).pending,
{
    reveal(ControllerView::interrupted);
    match c.state.active_local_thread {
        Some(local) => if has_key(c.state.running_turns, local) {
            let first = c.cancelling(local);
            lemma_interrupt_sent(first, local, now);
            let once = first.interrupted_when_ready(local, now);
            let second = once.cancelling(local);
            reveal(ControllerView::interrupted_when_ready);
        },
        None => {},
    }
}

proof fn lemma_interrupt_sent(c: ControllerView, local: Seq<char>, now: Moment)
    requires
        c.backend,
    ensures
        c.interrupted_when_ready(local, now).state == c.state,
        lookup(c.state.runtime_threads, local) is Some ==> (lookup(c.state.running_turns, local)
            matches Some(Some(turn_id)) ==> interrupt_pending(
            c.interrupted_when_ready(local, now).pending,
            local,
            turn_id,
        )),
{
    reveal(ControllerView::interrupted_when_ready);
    reveal(ControllerView::requested);
    reveal(ControllerView::call_opened);
    reveal_strlit("turn/interrupt");
    reveal_strlit("turn/start");
    assert("turn/interrupt"@.len() != "turn/start"@.len());
    match (lookup(c.state.runtime_threads, local), lookup(c.state.running_turns, local)) {
        (Some(thread_id), Some(Some(turn_id))) => {
            if !interrupt_pending(c.pending, local, turn_id) {
                let r = c.interrupted_when_ready(local, now);
                assert(r.pending[r.pending.len() - 1].call == (PendingCallView::Interrupt {
                    local_thread_id: local,
                    turn_id,
                }));
            }
        },
        _ => {},
    }
}

/// A prompt that cannot be sent changes nothing.
pub proof fn lemma_refused_prompt_changes_nothing(
    c: ControllerView,
    text: Seq<char>,
    attachments: Seq<Seq<char>>,
    existing: Seq<Seq<char>>,
    now: Moment,
)
    requires
        c.state.busy() || !c.state.connected || c.state.active_project is None,
    ensures
        c.prompt_sent(text, attachments, existing, now) == c,
{
    reveal(ControllerView::prompt_sent);
}

/// A prompt that is kept is the last entry of the conversation and of its
/// thread, and its turn runs.
pub proof fn lemma_prompt_is_kept(
    c: ControllerView,
    local: Seq<char>,
    text: Seq<char>,
    attachments: Seq<Seq<char>>,
    now: Moment,
)
    requires
        c.state.active_local_thread == Some(local),
    ensures
        ({
            let r = c.prompt_kept(local, text, attachments, now);
            &&& r.state.conversation.len() == c.state.conversation.len() + 1
            &&& r.state.conversation.last().body == text
            &&& r.state.conversation.last().attachments == attachments
            &&& r.state.conversation.last().kind == ItemKind::User
            &&& has_key(r.state.running_turns, local)
            &&& lookup(r.turn_generations, local) == Some(c.next_id)
            &&& !has_key(r.cancelled, local)
            &&& thread_at(c.state.threads, local) matches Some(i) ==> r.state.threads[i].messages
                == r.state.conversation
        }),
{
    reveal(ControllerView::prompt_kept);
    reveal(ControllerView::state_with_prompt);
    reveal(AppStateView::with_prompt);
    reveal(AppStateView::thread_stamped);
    reveal(AppStateView::synced);
    reveal(AppStateView::turn_begun);
    lemma_put_lookup(c.state.running_turns, local, None, local);
    lemma_put_lookup(c.turn_generations, local, c.next_id, local);
    lemma_put_lookup(c.cancelled, local, (), local);
    lemma_first_where(c.state.threads, thread_named(local));
    if thread_at(c.state.threads, local) is Some {
        let i = thread_at(c.state.threads, local)->0;
        let stamped = c.state.with_prompt(
            "local-user-"@ + decimal(c.next_id as nat),
            text,
            attachments,
        ).thread_stamped(local, now.seconds, text);
        assert forall|j: int| 0 <= j < i implies !thread_named(local)(
            #[trigger] stamped.threads[j],
        ) by {
            assert(!thread_named(local)(c.state.threads[j]));
        }
        lemma_first_where_is(stamped.threads, thread_named(local), i);
    }
}

/// A thread that the backend does not know is started anew with what was said
/// in it before.
pub proof fn lemma_unknown_thread_is_reconstructed(
    c: ControllerView,
    local: Seq<char>,
    text: Seq<char>,
    attachments: Seq<Seq<char>>,
    existing: Seq<Seq<char>>,
    now: Moment,
)
    requires
        c.backend,
        c.state.active_local_thread == Some(local),
        !has_key(c.state.runtime_threads, local),
    ensures
        ({
            let r = c.prompt_sent_in(local, text, attachments, existing, now);
            let said = last_chars(joined(chat_lines(c.state.conversation), "\n\n"@), 60_000);
            &&& r.pending.len() > 0
            &&& r.pending.last().call matches PendingCallView::ThreadStart { local_thread_id, turn }
                && local_thread_id == local && turn.input.len() > 0 && turn.input[0]
                == text_input_view(prompt_with_context(text, said))
        }),
{
    reveal(ControllerView::prompt_sent_in);
    reveal(ControllerView::titled_at_first);
    reveal(ControllerView::title_asked);
    reveal(ControllerView::turn_dispatched);
    reveal(ControllerView::requested);
    reveal(ControllerView::call_opened);
    reveal(turn_for);
    reveal_strlit("thread/start");
    reveal_strlit("turn/start");
    assert("thread/start"@.len() != "turn/start"@.len());
    lemma_prompt_on_screen(c, local, text, attachments, now);
    let k = c.prompt_kept(local, text, attachments, now);
    assert(k.state.conversation.drop_last() =~= c.state.conversation);
}

proof fn lemma_prompt_on_screen(
    c: ControllerView,
    local: Seq<char>,
    text: Seq<char>,
    attachments: Seq<Seq<char>>,
    now: Moment,
)
    ensures
        ({
            let r = c.prompt_kept(local, text, attachments, now);
            &&& r.state.conversation.len() == c.state.conversation.len() + 1
            &&& forall|i: int|
                0 <= i < c.state.conversation.len() ==> (#[trigger] r.state.conversation[i])
                    == c.state.conversation[i]
            &&& r.state.runtime_threads == c.state.runtime_threads
            &&& r.backend == c.backend
        }),
{
    reveal(ControllerView::prompt_kept);
    reveal(ControllerView::state_with_prompt);
    reveal(AppStateView::with_prompt);
    reveal(AppStateView::thread_stamped);
    reveal(AppStateView::synced);
    reveal(AppStateView::turn_begun);
}

/// However much is logged, a round leaves at most a thousand lines.
pub proof fn lemma_log_is_bounded(c: ControllerView, inbox: InboxView, now: Moment)
    ensures
        c.polled(inbox, now).state.activity_log.len() <= 1000,
        c.polled(inbox, now).last_polled_revision == c.polled(inbox, now).state.revision,
{
    reveal(ControllerView::polled);
    reveal(ControllerView::round_closed);
    reveal(AppStateView::log_trimmed);
}

/// A request of the backend that is not supported is answered at once, under
/// its own id, and asks the user nothing.
pub proof fn lemma_unsupported_requests_are_answered(c: ControllerView, message: JsonView)
    requires
        c.backend,
        ({
            let method = text_or_empty(message.text_at("method"@));
            !asks_command(method) && !asks_change(method) && method != "item/tool/requestUserInput"@
        }),
    ensures
        c.server_requested(message).outbox == c.outbox.push(
            ActionView::Send(
                unsupported_view(
                    member_or_null(message, "id"@),
                    text_or_empty(message.text_at("method"@)),
                ),
            ),
        ),
        unsupported_view(
            member_or_null(message, "id"@),
            text_or_empty(message.text_at("method"@)),
        ).get("id"@) == Some(member_or_null(message, "id"@)),
        c.server_requested(message).state == c.state,
{
    reveal(ControllerView::server_requested);
    reveal(ControllerView::raw_sent);
}

/// The startup is not over while one of its calls is under way.
pub proof fn lemma_startup_waits_for_its_calls(c: ControllerView)
    ensures
        c.startup_checked().startup_in_progress == (c.startup_in_progress && startup_pending(
            c.pending,
        )),
{
    reveal(ControllerView::startup_checked);
}

/// A turn that was stopped before its thread started is not sent.
pub proof fn lemma_stopped_turn_is_not_sent(
    c: ControllerView,
    local: Seq<char>,
    turn: PendingTurnView,
    thread_id: Option<Seq<char>>,
    now: Moment,
)
    requires
        has_key(c.cancelled, local),
    ensures
        c.thread_started(local, turn, thread_id, now).outbox == c.outbox,
        lookup(c.turn_generations, local) == Some(turn.generation) ==> !has_key(
            c.thread_started(local, turn, thread_id, now).state.running_turns,
            local,
        ),
{
    reveal(ControllerView::thread_started);
    lemma_turn_over(c, local, now);
    reveal(ControllerView::local_turn_finished);
}

/// What an inspection of another project found is kept for that project and
/// not shown; coming to the project shows it.
pub proof fn lemma_inspection_of_another_project_is_kept(
    c: ControllerView,
    root: Seq<char>,
    snapshot: WorkspaceSnapshotView,
)
    requires
        !same_root(c.state.windows_paths, Some(root), c.state.project_path()),
    ensures
        c.inspected(Some(root), snapshot).state == c.state,
        lookup(
            c.inspected(Some(root), snapshot).workspace_snapshots,
            cache_key(c.state.windows_paths, root),
        ) == Some(snapshot),
{
    reveal(ControllerView::inspected);
    lemma_put_lookup(
        c.workspace_snapshots,
        cache_key(c.state.windows_paths, root),
        snapshot,
        cache_key(c.state.windows_paths, root),
    );
}

/// While Git is at work the button does nothing, and while a backend is on its
/// way no second one is asked for.
pub proof fn lemma_one_at_a_time(c: ControllerView, now: Moment)
    ensures
        c.state.git_action_in_progress ==> c.git_pressed() == c,
        c.backend_start ==> c.started(now) == c,
        c.workspace_rx ==> c.workspace_refreshed() == c,
        c.state.usage_loading ==> c.usage_refreshed(now) == c,
        c.state.reset_in_progress ==> c.reset_consumed(now) == c,
{
    reveal(ControllerView::git_pressed);
    reveal(ControllerView::workspace_refreshed);
    reveal(ControllerView::usage_refreshed);
    reveal(ControllerView::reset_consumed);
}

/// Requests of the backend are answered in order: the answer goes to the
/// request that is shown, and the next one is shown then.
pub proof fn lemma_answer_goes_to_shown_request(c: ControllerView, decision: Seq<char>)
    requires
        c.backend,
        c.state.approval is Some,
    ensures
        c.approval_answered(decision).outbox == c.outbox.push(
            ActionView::Send(
                result_view(
                    c.state.approval->0.request_id,
                    decision_view(c.state.approval->0.method, decision),
                ),
            ),
        ),
        c.state.approval_queue.len() > 0 ==> c.approval_answered(decision).state.approval == Some(
            c.state.approval_queue[0],
        ),
        c.state.approval_queue.len() == 0 ==> c.approval_answered(decision).state.approval is None,
{
    reveal(ControllerView::approval_answered);
    reveal(ControllerView::raw_sent);
    reveal(AppStateView::next_approval);
    reveal(AppStateView::logged);
}

} // verus!
