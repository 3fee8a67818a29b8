//! What becomes of calls that fail, of turns that end, of connections that are
//! made anew, and of the work that others do for the controller.
use super::laws::{lemma_clearing, lemma_turn_over};
use super::lifecycle::Worker;
use super::notifications::{summary_output, turn_end_logged};
use super::poll::{expired_ids, round_of};
use super::requests::local_of;
use super::{call_at, later, ActionView, ControllerView, Moment, PendingCallView, PendingEntryView};
use crate::json::JsonView;
use crate::model::PersistedStateView;
use crate::state::AppStateView;
use crate::table::{has_key, lemma_first_where, lemma_put_lookup, lookup};
use vstd::prelude::*;
use vstd::string::*;

verus! {

proof fn lemma_error_told(s: AppStateView, text: Seq<char>)
    ensures
        s.with_error(text).toast matches Some(t) && t.message == text && t.is_error,
        s.with_error(text).running_turns == s.running_turns,
        s.with_error(text).conversation == s.conversation,
        s.with_error(text).connected == s.connected,
        s.with_error(text).git_action_in_progress == s.git_action_in_progress,
{
    reveal(AppStateView::with_error);
    reveal(AppStateView::logged);
}

/// A turn that could not be started is over, and the user is told why: whether
/// its thread or the turn itself was refused. The call is no longer awaited.
pub proof fn lemma_refused_turn_is_over(
    c: ControllerView,
    id: u64,
    local: Seq<char>,
    generation: u64,
    text: Seq<char>,
    now: Moment,
)
    requires
        call_at(c.pending, id) == Some(
            PendingCallView::TurnStart { local_thread_id: local, generation },
        ) || (call_at(c.pending, id) matches Some(PendingCallView::ThreadStart {
            local_thread_id,
            turn,
        }) && local_thread_id == local && turn.generation == generation),
        lookup(c.turn_generations, local) == Some(generation),
    ensures
        ({
            let r = c.call_failed(id, text, now);
            &&& !has_key(r.state.running_turns, local)
            &&& r.state.toast matches Some(t) && t.message == text && t.is_error
            &&& call_at(r.pending, id) is None
            &&& r.outbox == c.outbox
        }),
{
    reveal(ControllerView::call_failed);
    reveal(ControllerView::call_closed);
    reveal(ControllerView::failed);
    reveal(ControllerView::turn_failed);
    reveal(ControllerView::turn_abandoned);
    reveal(ControllerView::startup_checked);
    reveal(ControllerView::local_turn_finished);
    let b = c.call_closed(id);
    lemma_turn_over(b, local, now);
    lemma_error_told(b.local_turn_finished(local, now).state, text);
    super::laws::lemma_without_call(c.pending, id, id);
}

/// A handshake that fails leaves no connection; any failure is told to the user
/// in the words in which it was reported.
pub proof fn lemma_failure_is_told(c: ControllerView, call: PendingCallView, text: Seq<char>, now: Moment)
    requires
        !(call is SummaryThreadStart) && !(call is SummaryTurnStart),
    ensures
        ({
            let r = c.failed(Some(call), text, now).state;
            &&& r.toast matches Some(t) && t.message == text && t.is_error
            &&& call is Initialize ==> !r.connected
            &&& call is RateLimits ==> !r.usage_loading && r.usage_error == Some(text)
            &&& call is ConsumeReset ==> !r.reset_in_progress
        }),
{
    reveal(ControllerView::failed);
    reveal(ControllerView::turn_failed);
    reveal(AppStateView::with_error);
    reveal(AppStateView::logged);
    reveal(AppStateView::with_connection);
    reveal(AppStateView::usage_failed);
}

/// The error of the backend goes to the call that it answers: the words of the
/// backend are told, and the call is awaited no longer.
pub proof fn lemma_error_answers_its_call(
    c: ControllerView,
    message: JsonView,
    id: u64,
    error: JsonView,
    text: Seq<char>,
    now: Moment,
)
    requires
        message.get("method"@) is None,
        message.u64_at("id"@) == Some(id),
        message.get("error"@) == Some(error),
        error.text_at("message"@) == Some(text),
    ensures
        c.message_taken(message, now) == c.call_failed(id, text, now),
{
    reveal(ControllerView::message_taken);
    reveal(ControllerView::answered);
}

/// The result of the backend goes to the call that it answers, and to no other.
pub proof fn lemma_result_answers_its_call(
    c: ControllerView,
    message: JsonView,
    id: u64,
    call: PendingCallView,
    result: JsonView,
    now: Moment,
)
    requires
        message.get("method"@) is None,
        message.u64_at("id"@) == Some(id),
        message.get("error"@) is None,
        message.get("result"@) == Some(result),
        call_at(c.pending, id) == Some(call),
    ensures
        c.message_taken(message, now) == c.call_closed(id).responded(
            call,
            result,
            now,
        ).startup_checked(),
        call_at(c.call_closed(id).pending, id) is None,
{
    reveal(ControllerView::message_taken);
    reveal(ControllerView::answered);
    reveal(ControllerView::call_closed);
    super::laws::lemma_without_call(c.pending, id, id);
}

/// A call is awaited for a minute.
pub proof fn lemma_call_is_awaited_for_a_minute(c: ControllerView, call: PendingCallView, now: Moment, ticks: u64)
    requires
        now.ticks <= u64::MAX - 60_000,
        c.pending.len() == 0,
    ensures
        ({
            let pending = c.call_opened(call, now).pending;
            &&& ticks < now.ticks + 60_000 ==> expired_ids(pending, ticks).len() == 0
            &&& ticks >= now.ticks + 60_000 ==> expired_ids(pending, ticks) == seq![c.next_id]
        }),
{
    reveal(ControllerView::call_opened);
    let pending = c.call_opened(call, now).pending;
    assert(pending.drop_last() =~= Seq::empty());
    assert(expired_ids(Seq::<PendingEntryView>::empty(), ticks) =~= Seq::empty());
    if ticks >= now.ticks + 60_000 {
        assert(expired_ids(pending, ticks) =~= seq![c.next_id]);
    }
}

/// When the backend says that the running turn of a thread has ended, it runs no
/// longer, and if it failed the user is told why.
pub proof fn lemma_ended_turn_runs_no_longer(
    c: ControllerView,
    local: Seq<char>,
    turn_id: Seq<char>,
    params: JsonView,
    error: JsonView,
    text: Seq<char>,
    now: Moment,
)
    requires
        local_of(c.state.runtime_threads, params) == Some(local),
        params.text_at2("turn"@, "id"@) == Some(turn_id),
        lookup(c.state.running_turns, local) == Some(Some(turn_id)),
        !c.completed_turns.contains((local, turn_id)),
        params.text_at2("turn"@, "status"@) == Some("failed"@),
        params.get2("turn"@, "error"@) == Some(error),
        error.text_at("message"@) == Some(text),
    ensures
        ({
            let r = c.turn_end_reported(params, now);
            &&& !has_key(r.state.running_turns, local)
            &&& r.state.toast matches Some(t) && t.message == text && t.is_error
            &&& r.completed_turns.contains((local, turn_id))
        }),
{
    reveal(ControllerView::turn_end_reported);
    reveal(ControllerView::turn_end_told);
    reveal(ControllerView::turn_end_kept);
    reveal(turn_end_logged);
    reveal(ControllerView::workspace_refreshed);
    reveal(AppStateView::synced);
    reveal(AppStateView::logged);
    let b = c.turn_completed(local, turn_id);
    lemma_turn_over(b, local, now);
    let f = b.local_turn_finished(local, now);
    lemma_error_told(f.state.logged("Turn "@ + "failed"@), text);
    let all = b.completed_turns;
    assert(all[c.completed_turns.len() as int] == (local, turn_id));
}

/// The end of a turn that did not fail is no error, and the workspace is looked
/// at anew.
pub proof fn lemma_finished_turn_is_no_error(
    c: ControllerView,
    local: Seq<char>,
    turn_id: Seq<char>,
    params: JsonView,
    now: Moment,
)
    requires
        local_of(c.state.runtime_threads, params) == Some(local),
        params.text_at2("turn"@, "id"@) == Some(turn_id),
        lookup(c.state.running_turns, local) == Some(Some(turn_id)),
        !c.completed_turns.contains((local, turn_id)),
        params.text_at2("turn"@, "status"@) == Some("completed"@),
        !c.workspace_rx,
    ensures
        ({
            let r = c.turn_end_reported(params, now);
            &&& !has_key(r.state.running_turns, local)
            &&& r.state.toast == c.state.toast
            &&& r.outbox.drop_last() == c.outbox
            &&& r.outbox.len() == c.outbox.len() + 1
            &&& r.outbox.last() is Inspect
        }),
{
    reveal(ControllerView::turn_end_reported);
    reveal(ControllerView::turn_end_told);
    reveal(ControllerView::turn_end_kept);
    reveal(turn_end_logged);
    reveal(ControllerView::workspace_refreshed);
    reveal(AppStateView::synced);
    reveal(AppStateView::logged);
    reveal_strlit("completed");
    reveal_strlit("failed");
    assert("completed"@.len() != "failed"@.len());
    let b = c.turn_completed(local, turn_id);
    lemma_turn_over(b, local, now);
    lemma_ending_keeps_toast(b, local, now);
    let r = c.turn_end_reported(params, now);
    assert(r.outbox.drop_last() =~= c.outbox);
}

proof fn lemma_ending_keeps_toast(c: ControllerView, local: Seq<char>, now: Moment)
    ensures
        c.local_turn_finished(local, now).state.toast == c.state.toast,
        c.local_turn_finished(local, now).outbox == c.outbox,
        c.local_turn_finished(local, now).workspace_rx == c.workspace_rx,
{
    reveal(ControllerView::local_turn_finished);
    reveal(AppStateView::approvals_dropped);
    reveal(AppStateView::questions_dropped);
    reveal(AppStateView::next_approval);
    reveal(AppStateView::next_question);
    reveal(AppStateView::turn_finished);
    reveal(AppStateView::answer_settled);
    reveal(AppStateView::answer_timed);
}

/// An inspection is of the directory of the project on screen, and is asked for
/// once at a time.
pub proof fn lemma_inspection_is_of_the_project(c: ControllerView)
    requires
        !c.workspace_rx,
    ensures
        c.workspace_refreshed().outbox == c.outbox.push(
            ActionView::Inspect {
                directory: c.state.project_path(),
                respect_gitignore: c.state.prefs.respect_gitignore,
                github_configuration: c.github_configuration,
            },
        ),
        c.workspace_refreshed().workspace_refreshed() == c.workspace_refreshed(),
        c.inspection_switched().outbox.len() == c.outbox.len() + 1,
        c.inspection_switched().outbox.last() matches ActionView::Inspect { directory, .. }
            && directory == c.state.project_path(),
{
    reveal(ControllerView::workspace_refreshed);
    reveal(ControllerView::inspection_switched);
    reveal(ControllerView::cache_shown);
    reveal(AppStateView::snapshot_applied);
    reveal(AppStateView::workspace_reset);
}

/// Coming to another project looks at its directory; staying does not.
pub proof fn lemma_other_project_is_inspected(c: ControllerView, id: Seq<char>, i: int, path: Seq<char>)
    requires
        crate::state::project_at(c.state.projects, id) == Some(i),
        c.state.project_path() == Some(path),
        !c.state.windows_paths,
    ensures
        c.state.projects[i].path != path ==> (c.project_selected(id).outbox.len()
            == c.outbox.len() + 1 && (c.project_selected(id).outbox.last()
            matches ActionView::Inspect { directory, .. } && directory == Some(
            c.state.projects[i].path,
        ))),
        c.state.projects[i].path == path ==> c.project_selected(id).outbox == c.outbox,
        c.project_selected(id).state.active_project == Some(id),
{
    reveal(ControllerView::project_selected);
    reveal(ControllerView::root_followed);
    reveal(ControllerView::inspection_switched);
    reveal(ControllerView::cache_shown);
    reveal(ControllerView::workspace_refreshed);
    reveal(AppStateView::project_selected);
    reveal(AppStateView::synced);
    reveal(AppStateView::snapshot_applied);
    reveal(AppStateView::workspace_reset);
}

/// What Git has done is told, and what was known of the project is looked up
/// anew; what failed is told as an error. Either way the next action may come.
pub proof fn lemma_git_outcome_is_told(c: ControllerView, message: Seq<char>)
    ensures
        ({
            let r = c.git_done(Ok(message));
            &&& !r.git_action_rx && !r.state.git_action_in_progress
            &&& r.state.toast matches Some(t) && t.message == message && !t.is_error
            &&& r.outbox.len() == c.outbox.len() + 1 && r.outbox.last() is Inspect
        }),
        ({
            let r = c.git_done(Err(message));
            &&& !r.git_action_rx && !r.state.git_action_in_progress
            &&& r.state.toast matches Some(t) && t.message == message && t.is_error
            &&& r.outbox.len() == c.outbox.len() + 1 && r.outbox.last() is Inspect
        }),
{
    reveal(ControllerView::git_done);
    reveal(ControllerView::snapshot_invalidated);
    reveal(ControllerView::inspection_switched);
    reveal(ControllerView::cache_shown);
    reveal(ControllerView::workspace_refreshed);
    reveal(AppStateView::with_error);
    reveal(AppStateView::with_info);
    reveal(AppStateView::logged);
    reveal(AppStateView::snapshot_applied);
    reveal(AppStateView::workspace_reset);
}

/// A newer version that was found is offered; it is installed when the user asks
/// for it, once, and then no longer offered.
pub proof fn lemma_update_is_offered_and_installed(c: ControllerView, version: Seq<char>, error: Seq<char>)
    ensures
        c.update_checked(Ok(Some(version))).state.codex_update_version == Some(version),
        c.update_checked(Ok(None)).state.codex_update_version is None,
        c.update_checked(Err(error)).state.codex_update_version == c.state.codex_update_version,
        c.state.codex_update_version is None ==> c.update_asked() == c,
        c.state.codex_update_version is Some && !c.state.codex_update_in_progress
            && !c.update_install_rx ==> c.update_asked().outbox == c.outbox.push(
            ActionView::InstallUpdate,
        ) && c.update_asked().state.codex_update_in_progress && c.update_asked().update_asked()
            == c.update_asked(),
        ({
            let r = c.update_installed(Ok(())).state;
            &&& r.codex_update_version is None && !r.codex_update_in_progress
            &&& r.toast matches Some(t) && !t.is_error && (c.state.codex_update_version
                matches Some(v) ==> crate::text::has_text(t.message, v))
        }),
        ({
            let r = c.update_installed(Err(error)).state;
            &&& r.codex_update_version == c.state.codex_update_version
            &&& !r.codex_update_in_progress
            &&& r.toast matches Some(t) && t.is_error && t.message == error
        }),
{
    reveal(ControllerView::update_checked);
    reveal(ControllerView::update_asked);
    reveal(ControllerView::update_installed);
    reveal(AppStateView::with_error);
    reveal(AppStateView::with_info);
    reveal(AppStateView::logged);
    if c.state.codex_update_version is Some {
        let v = c.state.codex_update_version->0;
        crate::text::lemma_has_itself(v);
        crate::text::lemma_has_text_within(
            "Codex "@,
            v,
            " installed. Restart Ferro Code to use it."@,
            v,
        );
    }
}

/// Connecting anew asks for a backend, once, and begins with nothing of the
/// connection that was.
pub proof fn lemma_reconnecting_asks_for_a_backend(c: ControllerView, now: Moment)
    requires
        !c.backend_start,
        !c.workspace_rx,
    ensures
        ({
            let r = c.started(now);
            let n = c.outbox.len() as int;
            &&& r.backend_start && !r.backend && r.startup_in_progress
            &&& r.pending.len() == 0
            &&& !r.state.connected
            &&& r.startup_deadline == Some(later(now.ticks, 60_000))
            &&& r.outbox.len() == n + 3
            &&& r.outbox[n] is DropBackend
            &&& r.outbox[n + 1] is StartBackend
            &&& r.outbox[n + 2] is Inspect
            &&& r.started(now) == r
            &&& r.state.projects == c.state.projects
        }),
{
    reveal(ControllerView::launched);
    reveal(ControllerView::workspace_refreshed);
    reveal(AppStateView::with_connection);
    lemma_clearing(c, now);
    lemma_clearing_keeps_projects(c, now);
    reveal(ControllerView::backend_cleared);
}

proof fn lemma_clearing_keeps_projects(c: ControllerView, now: Moment)
    ensures
        c.backend_cleared(now).state.projects == c.state.projects,
        c.backend_cleared(now).state.drafts == c.state.drafts,
        c.backend_cleared(now).state.prefs == c.state.prefs,
{
    reveal(ControllerView::backend_cleared);
    reveal(AppStateView::runtime_cleared);
    reveal(AppStateView::waiting_cleared);
    lemma_ending_keeps_projects(
        c.state.runtime_forgotten(),
        crate::steps::keys(c.state.running_turns),
        now.millis,
    );
}

proof fn lemma_ending_keeps_projects(s: AppStateView, ids: Seq<Seq<char>>, now_ms: u64)
    ensures
        s.turns_ended(ids, now_ms).projects == s.projects,
        s.turns_ended(ids, now_ms).drafts == s.drafts,
        s.turns_ended(ids, now_ms).prefs == s.prefs,
    decreases ids.len(),
{
    if ids.len() > 0 {
        reveal(AppStateView::items_interrupted);
        reveal(AppStateView::turn_finished);
        reveal(AppStateView::answer_settled);
        reveal(AppStateView::answer_timed);
        lemma_ending_keeps_projects(
            s.items_interrupted(ids[0]).turn_finished(ids[0], now_ms),
            ids.drop_first(),
            now_ms,
        );
    }
}

/// A history that is restored takes the place of the present one.
pub proof fn lemma_restored_history_is_in_use(c: ControllerView, p: PersistedStateView, now: Moment)
    ensures
        ({
            let r = c.history_restored(p, now);
            &&& r.state.projects == p.history.projects
            &&& r.state.archived_threads == p.history.archived_threads
            &&& r.state.drafts == p.history.drafts
            &&& r.state.threads.len() == p.history.threads.len()
            &&& r.state.prefs.model == p.preferences.model
            &&& r.state.prefs.sandbox == p.preferences.sandbox
            &&& r.state.windows_paths == c.state.windows_paths
        }),
{
    reveal(ControllerView::history_restored);
    reveal(ControllerView::workspace_refreshed);
    reveal(ControllerView::launched);
    reveal(AppStateView::with_history);
    reveal(AppStateView::with_connection);
    reveal(crate::state::restored_threads);
    let a = c.backend_cleared(now);
    reveal(ControllerView::backend_cleared);
    let b = a.with_state(
        crate::state::initial_state(p.preferences).with_history(p.history).with_paths(
            c.state.windows_paths,
        ),
    ).with_snapshots(Seq::empty()).inspection_restarted();
    assert(b.state.running_turns.len() == 0);
    lemma_restart_keeps_threads(b, now);
    lemma_clearing_keeps_projects(b, now);
}

proof fn lemma_restart_keeps_threads(c: ControllerView, now: Moment)
    requires
        c.state.running_turns.len() == 0,
    ensures
        c.backend_cleared(now).state.threads == c.state.threads,
        c.backend_cleared(now).state.archived_threads == c.state.archived_threads,
        c.backend_cleared(now).state.windows_paths == c.state.windows_paths,
{
    reveal(ControllerView::backend_cleared);
    reveal(AppStateView::runtime_cleared);
    reveal(AppStateView::waiting_cleared);
    assert(crate::steps::keys(c.state.running_turns).len() == 0);
}

/// Messages are heard in the order in which they came.
pub proof fn lemma_messages_are_heard_in_order(
    c: ControllerView,
    first: Seq<JsonView>,
    then: Seq<JsonView>,
    now: Moment,
)
    ensures
        c.messages_taken(first + then, now) == c.messages_taken(first, now).messages_taken(
            then,
            now,
        ),
        first.len() == 1 ==> c.messages_taken(first, now) == c.message_taken(first[0], now),
        first.len() <= 300 ==> round_of(first) == first,
        round_of(first).len() <= 300,
    decreases first.len(),
{
    if first.len() == 0 {
        assert(first + then =~= then);
    } else {
        assert((first + then).drop_first() =~= first.drop_first() + then);
        lemma_messages_are_heard_in_order(
            c.message_taken(first[0], now),
            first.drop_first(),
            then,
            now,
        );
        if first.len() == 1 {
            assert(first.drop_first() =~= Seq::empty());
        }
    }
}

/// What a summary has written is put together from its pieces; the whole text
/// takes their place when it comes.
pub proof fn lemma_summary_is_put_together(output: Seq<char>, params: JsonView, text: Seq<char>)
    ensures
        params.text_at("delta"@) == Some(text) ==> summary_output(
            output,
            "item/agentMessage/delta"@,
            params,
        ) == output + text,
        params.text_at2("item"@, "type"@) == Some("agentMessage"@) && params.text_at2(
            "item"@,
            "text"@,
        ) == Some(text) && text.len() > 0 ==> summary_output(output, "item/completed"@, params)
            == text,
{
    reveal_strlit("item/agentMessage/delta");
    reveal_strlit("item/completed");
    assert("item/agentMessage/delta"@.len() != "item/completed"@.len());
}

/// A warning of the backend is told in its own words, but for one about the
/// space for skills, which the user can do nothing about.
pub proof fn lemma_warning_is_told(c: ControllerView, params: JsonView, text: Seq<char>)
    requires
        params.get("message"@) == Some(JsonView::Text(text)),
    ensures
        !crate::text::has_text(text, "skills context budget"@) && !crate::text::has_text(
            text,
            "Skill descriptions were shortened"@,
        ) ==> (c.warning_reported(params).state.toast matches Some(t) && t.message == text
            && t.is_error),
        crate::text::has_text(text, "skills context budget"@) ==> c.warning_reported(params) == c,
{
    reveal(ControllerView::warning_reported);
    lemma_error_told(c.state, text);
}

/// What the backend writes beside its messages is logged when it speaks of an
/// error or a warning, and else ignored.
pub proof fn lemma_side_output_is_logged(c: ControllerView, params: JsonView, text: Seq<char>)
    requires
        params.text_at("message"@) == Some(text),
    ensures
        crate::text::has_text(text, "ERROR"@) || crate::text::has_text(text, "WARN"@)
            ==> c.stderr_reported(params).state.activity_log == c.state.activity_log.push(
            "Codex: "@ + text,
        ),
        !crate::text::has_text(text, "ERROR"@) && !crate::text::has_text(text, "WARN"@)
            ==> c.stderr_reported(params) == c,
        c.stderr_reported(params).state.toast == c.state.toast,
{
    reveal(ControllerView::stderr_reported);
    reveal(ControllerView::noted);
    reveal(AppStateView::logged);
}

/// A turn that the backend says has begun runs under the name that it gave.
pub proof fn lemma_begun_turn_runs(
    c: ControllerView,
    local: Seq<char>,
    turn_id: Seq<char>,
    params: JsonView,
    now: Moment,
)
    requires
        local_of(c.state.runtime_threads, params) == Some(local),
        params.text_at2("turn"@, "id"@) == Some(turn_id),
        has_key(c.state.running_turns, local),
        !c.completed_turns.contains((local, turn_id)),
        !has_key(c.cancelled, local),
    ensures
        lookup(c.turn_start_reported(params, now).state.running_turns, local) == Some(
            Some(turn_id),
        ),
        c.turn_start_reported(params, now).outbox == c.outbox,
{
    reveal(ControllerView::turn_start_reported);
    reveal(ControllerView::turn_running);
    reveal(ControllerView::noted);
    reveal(AppStateView::logged);
    lemma_put_lookup(c.state.running_turns, local, Some(turn_id), local);
}

/// A turn that the backend has accepted runs under the name that it gave.
pub proof fn lemma_accepted_turn_runs(
    c: ControllerView,
    local: Seq<char>,
    generation: u64,
    turn_id: Seq<char>,
    now: Moment,
)
    requires
        lookup(c.turn_generations, local) == Some(generation),
        !c.completed_turns.contains((local, turn_id)),
        !has_key(c.cancelled, local),
    ensures
        lookup(
            c.turn_accepted(local, generation, Some(turn_id), now).state.running_turns,
            local,
        ) == Some(Some(turn_id)),
        c.turn_accepted(local, generation, Some(turn_id), now).outbox == c.outbox,
{
    reveal(ControllerView::turn_accepted);
    reveal(ControllerView::turn_running);
    lemma_put_lookup(c.state.running_turns, local, Some(turn_id), local);
}

/// A backend that cannot be had is told of, and none is waited for.
pub proof fn lemma_missing_backend_is_told(c: ControllerView, error: Seq<char>)
    ensures
        ({
            let r = c.backend_refused(error);
            &&& !r.backend_start && !r.startup_in_progress
            &&& r.state.toast matches Some(t) && t.message == error && t.is_error
        }),
{
    reveal(ControllerView::backend_refused);
    reveal(AppStateView::with_error);
    reveal(AppStateView::logged);
}

/// Losing the connection is told in the words in which it was lost.
pub proof fn lemma_lost_connection_is_told(c: ControllerView, message: Seq<char>, now: Moment)
    ensures
        c.disconnected(message, now).state.toast matches Some(t) && t.message == message
            && t.is_error,
        c.disconnected(message, now).outbox == c.outbox.push(ActionView::DropBackend),
{
    reveal(ControllerView::disconnected);
    reveal(ControllerView::backend_cleared);
    reveal(AppStateView::with_error);
    reveal(AppStateView::logged);
}

/// Of the log the last lines are kept, and none of them is changed.
pub proof fn lemma_last_lines_are_kept(s: AppStateView, i: int)
    requires
        0 <= i < s.activity_log.len(),
        s.activity_log.len() - 1000 <= i,
    ensures
        ({
            let kept = s.log_trimmed().activity_log;
            &&& s.activity_log.len() <= 1000 ==> kept == s.activity_log
            &&& s.activity_log.len() > 1000 ==> kept.len() == 1000
            &&& kept[kept.len() - (s.activity_log.len() - i)] == s.activity_log[i]
        }),
{
    reveal(AppStateView::log_trimmed);
}

/// A thread is named by its first prompt and keeps its name with later ones; it
/// moves to the time of the prompt, and other threads stay as they are.
pub proof fn lemma_first_prompt_names_the_thread(
    s: AppStateView,
    id: Seq<char>,
    now: i64,
    text: Seq<char>,
    i: int,
    k: int,
)
    requires
        crate::state::thread_at(s.threads, id) == Some(i),
        0 <= k < s.threads.len(),
    ensures
        ({
            let r = s.thread_stamped(id, now, text);
            &&& 0 <= i < s.threads.len()
            &&& r.threads.len() == s.threads.len()
            &&& r.threads[i].updated_at == now
            &&& r.threads[i].messages == s.threads[i].messages
            &&& s.threads[i].title == "New thread"@ && crate::text::text_lines(text).len() > 0
                && crate::text::text_lines(text)[0].len() <= 70 ==> r.threads[i].title
                == crate::text::text_lines(text)[0]
            &&& s.threads[i].title != "New thread"@ ==> r.threads[i].title == s.threads[i].title
            &&& k != i ==> r.threads[k] == s.threads[k]
        }),
{
    reveal(AppStateView::thread_stamped);
    lemma_first_where(s.threads, crate::state::thread_named(id));
}

/// What the user answers is kept with its question, and what other questions
/// were answered stays.
pub proof fn lemma_answer_is_kept(s: AppStateView, index: nat, answer: Seq<char>, k: int)
    requires
        s.user_question is Some,
        0 <= k < s.user_question->0.questions.len(),
    ensures
        ({
            let before = s.user_question->0.questions;
            let r = s.with_answer(index, answer).user_question;
            &&& r is Some && r->0.questions.len() == before.len()
            &&& k == index ==> r->0.questions[k].answer == answer && r->0.questions[k].question
                == before[k].question && r->0.questions[k].id == before[k].id
            &&& k != index ==> r->0.questions[k] == before[k]
        }),
{
    reveal(AppStateView::with_answer);
}

/// A thread that is created in a project is on screen there, whichever project
/// was worked in before.
pub proof fn lemma_thread_is_created_in_the_project(
    c: ControllerView,
    id: Seq<char>,
    now: Moment,
)
    requires
        crate::state::project_at(c.state.projects, id) is Some,
    ensures
        ({
            let r = c.thread_created_in(id, now).state;
            &&& r.active_project == Some(id)
            &&& r.threads.len() == c.state.threads.len() + 1
            &&& r.threads.last().project_id == id
            &&& r.active_local_thread == Some(r.threads.last().id)
            &&& r.conversation.len() == 0
        }),
{
    reveal(ControllerView::thread_created_in);
    reveal(ControllerView::project_ensured);
    reveal(ControllerView::project_selected);
    reveal(ControllerView::root_followed);
    reveal(ControllerView::inspection_switched);
    reveal(ControllerView::cache_shown);
    reveal(ControllerView::workspace_refreshed);
    reveal(AppStateView::snapshot_applied);
    reveal(AppStateView::workspace_reset);
    let i = crate::state::project_at(c.state.projects, id)->0;
    crate::laws::lemma_selected_project_is_worked_in(c.state, id, i);
    reveal(AppStateView::project_selected);
    let b = c.project_ensured(id);
    crate::laws::lemma_new_thread_is_on_screen(b.state, now.seconds);
    crate::laws::lemma_synced(c.state);
    crate::laws::lemma_synced(b.state);
}

/// A report about the application depends on counts and on how things stand, not
/// on anything that was said.
pub proof fn lemma_report_tells_nothing_that_was_said(
    a: ControllerView,
    b: ControllerView,
    os: Seq<char>,
    architecture: Seq<char>,
)
    requires
        a.version == b.version,
        a.state.connection_text == b.state.connection_text,
        a.state.connected == b.state.connected,
        a.state.usage_loading == b.state.usage_loading,
        a.pending.len() == b.pending.len(),
        a.state.running_turns.len() == b.state.running_turns.len(),
        a.state.projects.len() == b.state.projects.len(),
        a.state.threads.len() == b.state.threads.len(),
        a.state.archived_threads.len() == b.state.archived_threads.len(),
    ensures
        super::navigation::diagnostics_view(a, os, architecture)
            == super::navigation::diagnostics_view(b, os, architecture),
{
}

/// A worker that could not be started is told of with the reason, and what was
/// waited for is waited for no longer. Of a check for updates only the log tells.
pub proof fn lemma_failed_worker_is_told(
    c: ControllerView,
    worker: Worker,
    error: Seq<char>,
    now: Moment,
)
    ensures
        ({
            let r = c.worker_failed(worker, error, now);
            &&& !(worker is UpdateCheck) ==> (r.state.toast matches Some(t) && t.is_error
                && crate::text::ends(t.message, error))
            &&& worker is UpdateCheck ==> r.state.toast == c.state.toast && !r.update_check_rx
                && r.state.activity_log.len() == c.state.activity_log.len() + 1
                && crate::text::ends(r.state.activity_log.last(), error)
            &&& worker is Backend ==> !r.backend_start && !r.startup_in_progress
                && !r.state.connected
            &&& worker is UpdateInstall ==> !r.update_install_rx
                && !r.state.codex_update_in_progress
            &&& worker is Inspection ==> !r.workspace_rx && !r.state.workspace_loading
            &&& worker is CommitPreparation ==> !r.commit_prepare_rx
                && !r.state.git_action_in_progress
            &&& worker is GitAction || worker is GitCommit ==> !r.git_action_rx
                && !r.state.git_action_in_progress
        }),
{
    reveal(ControllerView::worker_failed);
    reveal(AppStateView::logged);
    reveal(AppStateView::with_connection);
    match worker {
        Worker::Backend => {
            let text = "Could not start Codex: "@ + error;
            lemma_lost_connection_is_told(c, text, now);
            reveal(ControllerView::disconnected);
            reveal(ControllerView::backend_cleared);
            reveal(AppStateView::with_error);
            lemma_ends(text, error);
        },
        Worker::UpdateCheck => {
            lemma_ends("Codex update check unavailable: could not start worker: "@ + error, error);
        },
        Worker::UpdateInstall => {
            lemma_error_told(
                c.state.updating(false),
                "Could not start the Codex update: "@ + error,
            );
            reveal(AppStateView::with_error);
            lemma_ends("Could not start the Codex update: "@ + error, error);
        },
        Worker::Inspection => {
            reveal(AppStateView::with_error);
            lemma_ends("Could not inspect the workspace: "@ + error, error);
        },
        Worker::CommitPreparation => {
            reveal(AppStateView::with_error);
            lemma_ends(error, error);
        },
        Worker::GitAction => {
            reveal(AppStateView::with_error);
            lemma_ends("Could not start the Git action: "@ + error, error);
        },
        Worker::GitCommit => {
            reveal(AppStateView::with_error);
            lemma_ends("Could not start the Git commit: "@ + error, error);
        },
    }
}

proof fn lemma_ends(whole: Seq<char>, part: Seq<char>)
    requires
        whole.len() >= part.len(),
        forall|i: int|
            0 <= i < part.len() ==> whole[whole.len() - part.len() + i] == #[trigger] part[i],
    ensures
        crate::text::ends(whole, part),
{
    assert(whole.skip(whole.len() - part.len()) =~= part);
}

/// A summary that takes too long ends the connection, and no other does.
pub proof fn lemma_late_summary_disconnects(
    c: ControllerView,
    i: int,
    now: Moment,
)
    requires
        0 <= i < c.active_summaries.len(),
    ensures
        c.active_summaries[i].1.deadline <= now.ticks ==> !c.summaries_expired(now).state.connected
            && c.summaries_expired(now).active_summaries.len() == 0,
        (forall|j: int|
            0 <= j < c.active_summaries.len() ==> now.ticks < (
            #[trigger] c.active_summaries[j]).1.deadline) ==> c.summaries_expired(now) == c,
{
    reveal(ControllerView::summaries_expired);
    if c.active_summaries[i].1.deadline <= now.ticks {
        reveal(ControllerView::disconnected);
        reveal(ControllerView::backend_cleared);
        reveal(AppStateView::with_connection);
        reveal(AppStateView::with_error);
        reveal(AppStateView::logged);
    }
}

/// A commit whose subject was not written is not made: the failure is told, and
/// the next action may come.
pub proof fn lemma_unwritten_subject_stops_the_commit(
    c: ControllerView,
    root: Seq<char>,
    snapshot: crate::workspace::CommitSnapshotView,
    output: Seq<char>,
    params: JsonView,
    why: Seq<char>,
)
    requires
        params.text_at2("turn"@, "status"@) == Some("failed"@),
        params.get("turn"@) is Some,
        params.get("turn"@)->0.text_at2("error"@, "message"@) == Some(why),
    ensures
        ({
            let r = c.subject_written(root, snapshot, output, params);
            &&& r.outbox == c.outbox
            &&& !r.state.git_action_in_progress
            &&& r.state.toast matches Some(t) && t.message == why && t.is_error
        }),
{
    reveal(ControllerView::subject_written);
    lemma_error_told(c.state.git_busy(false), why);
}

proof fn lemma_notice_names()
    ensures
        "backend/exited"@ != "backend/stderr"@,
        "account/updated"@ != "backend/exited"@,
        "account/updated"@ != "backend/protocolError"@,
        "account/updated"@ != "backend/stderr"@,
        "account/updated"@ != "item/started"@,
        "account/updated"@ != "item/completed"@,
        "account/updated"@ != "item/agentMessage/delta"@,
        "account/updated"@ != "item/reasoning/summaryTextDelta"@,
        "account/updated"@ != "item/reasoning/textDelta"@,
        "account/updated"@ != "item/plan/delta"@,
        "account/updated"@ != "item/commandExecution/outputDelta"@,
        "account/updated"@ != "turn/started"@,
        "account/updated"@ != "turn/completed"@,
        "account/updated"@ != "thread/tokenUsage/updated"@,
        "account/rateLimits/updated"@ != "backend/exited"@,
        "account/rateLimits/updated"@ != "backend/protocolError"@,
        "account/rateLimits/updated"@ != "backend/stderr"@,
        "account/rateLimits/updated"@ != "item/started"@,
        "account/rateLimits/updated"@ != "item/completed"@,
        "account/rateLimits/updated"@ != "item/agentMessage/delta"@,
        "account/rateLimits/updated"@ != "item/reasoning/summaryTextDelta"@,
        "account/rateLimits/updated"@ != "item/reasoning/textDelta"@,
        "account/rateLimits/updated"@ != "item/plan/delta"@,
        "account/rateLimits/updated"@ != "item/commandExecution/outputDelta"@,
        "account/rateLimits/updated"@ != "turn/started"@,
        "account/rateLimits/updated"@ != "turn/completed"@,
        "account/rateLimits/updated"@ != "thread/tokenUsage/updated"@,
        "account/rateLimits/updated"@ != "account/updated"@,
{
    reveal_strlit("backend/exited");
    assert("backend/exited"@.len() == 14);
    reveal_strlit("backend/protocolError");
    assert("backend/protocolError"@.len() == 21);
    reveal_strlit("backend/stderr");
    assert("backend/stderr"@.len() == 14);
    reveal_strlit("item/started");
    assert("item/started"@.len() == 12);
    reveal_strlit("item/completed");
    assert("item/completed"@.len() == 14);
    reveal_strlit("item/agentMessage/delta");
    assert("item/agentMessage/delta"@.len() == 23);
    reveal_strlit("item/reasoning/summaryTextDelta");
    assert("item/reasoning/summaryTextDelta"@.len() == 31);
    reveal_strlit("item/reasoning/textDelta");
    assert("item/reasoning/textDelta"@.len() == 24);
    reveal_strlit("item/plan/delta");
    assert("item/plan/delta"@.len() == 15);
    reveal_strlit("item/commandExecution/outputDelta");
    assert("item/commandExecution/outputDelta"@.len() == 33);
    reveal_strlit("turn/started");
    assert("turn/started"@.len() == 12);
    reveal_strlit("turn/completed");
    assert("turn/completed"@.len() == 14);
    reveal_strlit("thread/tokenUsage/updated");
    assert("thread/tokenUsage/updated"@.len() == 25);
    reveal_strlit("account/updated");
    assert("account/updated"@.len() == 15);
    reveal_strlit("account/rateLimits/updated");
    assert("account/rateLimits/updated"@.len() == 26);
    assert("account/updated"@[0] == 'a' && "item/plan/delta"@[0] == 'i');
    assert("account/rateLimits/updated"@[0] == 'a');
    assert("backend/exited"@[8] == 'e' && "backend/stderr"@[8] == 's');
    assert("item/reasoning/textDelta"@[0] == 'i');
    assert("thread/tokenUsage/updated"@[0] == 't');
}

/// That the backend is gone ends the connection in its words; that another user
/// is signed in is shown; and that limits have changed has them asked for.
pub proof fn lemma_notices_are_heard(
    c: ControllerView,
    params: JsonView,
    account: JsonView,
    email: Seq<char>,
    why: Seq<char>,
    now: Moment,
)
    requires
        c.summary_of_notice(params) is None,
    ensures
        params.text_at("message"@) == Some(why) ==> {
            let r = c.notified("backend/exited"@, params, now);
            &&& !r.state.connected && !r.backend
            &&& r.state.toast matches Some(t) && t.message == why && t.is_error
        },
        params.get("account"@) == Some(account) && account is Object && account.get("email"@)
            == Some(JsonView::Text(email)) ==> {
            let r = c.notified("account/updated"@, params, now).state;
            &&& r.account.authenticated && r.account.label == email
            &&& r.conversation == c.state.conversation
        },
        c.notified("account/rateLimits/updated"@, params, now) == c.usage_refreshed(now),
{
    reveal(ControllerView::notified);
    reveal(ControllerView::plainly_notified);
    lemma_notice_names();
    lemma_lost_connection_is_told(c, why, now);
    reveal(ControllerView::disconnected);
    reveal(ControllerView::backend_cleared);
    reveal(AppStateView::with_connection);
    reveal(AppStateView::with_error);
    reveal(AppStateView::logged);
    reveal(ControllerView::account_reported);
    let members = seq![("account"@, account)];
    crate::json::lemma_entry_value(members, "account"@, 0);
}

} // verus!
