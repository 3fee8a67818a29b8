//! What goes to the backend, and under whose name: prompts with what is
//! attached to them, decisions of the user, and answers to questions.
use super::prompts::{
    attachment_views, distinct, earlier_attachments, earlier_input, paths_backwards,
    summary_thread_view, thread_start_view, turn_for, turn_input,
};
use super::requests::{answers_view, decision_view, result_view};
use super::responses::{interrupt_pending, interrupt_view};
use super::{
    request_view, turn_start_view, ActionView, ControllerView, Moment, PendingCallView,
    PendingTurnView,
};
use crate::json::{entry_value, lemma_entry_value, JsonView};
use crate::model::{ApprovalChoice, ConversationItemView, ItemKind, SandboxChoice};
use crate::prompt::{
    attachment_view, chat_lines, context_of, prompt_with_context, text_input_view,
};
use crate::protocol::{policy_type, turn_params_view, with_policy};
use crate::state::{AppStateView, QuestionRequestView};
use crate::table::{has_key, lemma_put_lookup, lookup};
use crate::text::{
    begins, blank, ends, has_text, joined, lemma_has_text_within, lemma_joined_has_part, trimmed,
};
use vstd::prelude::*;
use vstd::string::*;

verus! {

/// The message that was asked to be sent last.
pub open spec fn last_sent(c: ControllerView) -> Option<JsonView> {
    if c.outbox.len() == 0 {
        None
    } else {
        match c.outbox.last() {
            ActionView::Send(message) => Some(message),
            _ => None,
        }
    }
}

/// A member of the parameters of a message.
pub open spec fn param(message: JsonView, key: Seq<char>) -> Option<JsonView> {
    message.get2("params"@, key)
}

/// The input of the turn that was asked for last: what went to a thread of the
/// backend, or what waits for such a thread to start.
pub open spec fn asked_input(c: ControllerView) -> Option<Seq<JsonView>> {
    if c.pending.len() == 0 {
        None
    } else {
        match (c.pending.last().call, last_sent(c)) {
            (PendingCallView::ThreadStart { turn, .. }, _) => Some(turn.input),
            (PendingCallView::TurnStart { .. }, Some(message)) => match param(message, "input"@) {
                Some(JsonView::Array(input)) => Some(input),
                _ => None,
            },
            _ => None,
        }
    }
}

pub(crate) proof fn lemma_request_members(method: Seq<char>, id: u64, params: JsonView)
    ensures
        request_view(method, id, params).text_at("method"@) == Some(method),
        request_view(method, id, params).u64_at("id"@) == Some(id),
        request_view(method, id, params).get("params"@) == Some(params),
{
    reveal_strlit("method");
    reveal_strlit("id");
    reveal_strlit("params");
    assert("method"@[0] != "params"@[0]);
    let members = request_view(method, id, params)->Object_0;
    lemma_entry_value(members, "method"@, 0);
    lemma_entry_value(members, "id"@, 1);
    lemma_entry_value(members, "params"@, 2);
}

proof fn lemma_turn_names()
    ensures
        "threadId"@ != "input"@,
        "threadId"@ != "cwd"@,
        "threadId"@ != "approvalPolicy"@,
        "threadId"@ != "sandbox"@,
        "threadId"@ != "sandboxPolicy"@,
        "threadId"@ != "model"@,
        "threadId"@ != "effort"@,
        "input"@ != "cwd"@,
        "input"@ != "approvalPolicy"@,
        "input"@ != "sandbox"@,
        "input"@ != "sandboxPolicy"@,
        "input"@ != "model"@,
        "input"@ != "effort"@,
        "cwd"@ != "approvalPolicy"@,
        "cwd"@ != "sandbox"@,
        "cwd"@ != "sandboxPolicy"@,
        "cwd"@ != "model"@,
        "cwd"@ != "effort"@,
        "approvalPolicy"@ != "sandbox"@,
        "approvalPolicy"@ != "sandboxPolicy"@,
        "approvalPolicy"@ != "model"@,
        "approvalPolicy"@ != "effort"@,
        "sandbox"@ != "model"@,
        "sandbox"@ != "effort"@,
        "sandboxPolicy"@ != "model"@,
        "sandboxPolicy"@ != "effort"@,
        "model"@ != "effort"@,
{
    reveal_strlit("threadId");
    assert("threadId"@.len() == 8);
    reveal_strlit("input");
    assert("input"@.len() == 5);
    reveal_strlit("cwd");
    assert("cwd"@.len() == 3);
    reveal_strlit("approvalPolicy");
    assert("approvalPolicy"@.len() == 14);
    reveal_strlit("sandbox");
    assert("sandbox"@.len() == 7);
    reveal_strlit("sandboxPolicy");
    assert("sandboxPolicy"@.len() == 13);
    reveal_strlit("model");
    assert("model"@.len() == 5);
    reveal_strlit("effort");
    assert("effort"@.len() == 6);
    assert("input"@[0] != "model"@[0]);
}

pub(crate) proof fn lemma_sandbox_names()
    ensures
        "read-only"@ != "workspace-write"@,
        "read-only"@ != "danger-full-access"@,
        "workspace-write"@ != "danger-full-access"@,
{
    reveal_strlit("read-only");
    assert("read-only"@.len() == 9);
    reveal_strlit("workspace-write");
    assert("workspace-write"@.len() == 15);
    reveal_strlit("danger-full-access");
    assert("danger-full-access"@.len() == 18);
}

/// The parameters with which a turn goes out: to the thread it is meant for,
/// with its whole input, in its directory and under its settings.
pub(crate) proof fn lemma_turn_params(thread_id: Seq<char>, turn: PendingTurnView)
    requires
        policy_type(turn.sandbox) is Some,
    ensures
        turn_params_view(turn_start_view(thread_id, turn)) matches Ok(p) && {
            &&& p.text_at("threadId"@) == Some(thread_id)
            &&& p.get("input"@) == Some(JsonView::Array(turn.input))
            &&& p.text_at("cwd"@) == Some(turn.cwd)
            &&& p.text_at("approvalPolicy"@) == Some(turn.approval_policy)
            &&& p.get("sandboxPolicy"@) is Some
            &&& p.get("sandboxPolicy"@)->0.text_at("type"@) == policy_type(turn.sandbox)
            &&& p.text_at("model"@) == Some(turn.model)
            &&& p.text_at("effort"@) == Some(turn.effort)
        },
{
    lemma_turn_names();
    let params = turn_start_view(thread_id, turn);
    let members = params->Object_0;
    lemma_entry_value(members, "sandbox"@, 4);
    let policy = policy_type(turn.sandbox)->0;
    let sent = with_policy(members, policy);
    lemma_entry_value(sent, "threadId"@, 0);
    lemma_entry_value(sent, "input"@, 1);
    lemma_entry_value(sent, "cwd"@, 2);
    lemma_entry_value(sent, "approvalPolicy"@, 3);
    lemma_entry_value(sent, "sandboxPolicy"@, 4);
    lemma_entry_value(sent, "model"@, 5);
    lemma_entry_value(sent, "effort"@, 6);
    let inner = seq![("type"@, JsonView::Text(policy))];
    lemma_entry_value(inner, "type"@, 0);
}

/// A turn goes out once and whole: to the thread it is meant for, with all of
/// its input, in its directory and under its settings. Its call is awaited.
pub proof fn lemma_turn_goes_out_whole(
    c: ControllerView,
    local: Seq<char>,
    thread_id: Seq<char>,
    turn: PendingTurnView,
    now: Moment,
)
    requires
        c.backend,
        turn.sandbox == "read-only"@ || turn.sandbox == "workspace-write"@ || turn.sandbox
            == "danger-full-access"@,
    ensures
        ({
            let r = c.turn_requested(local, thread_id, turn, now);
            &&& r.outbox.drop_last() == c.outbox
            &&& r.pending.len() > 0
            &&& r.pending.last().id == c.next_id
            &&& r.pending.last().call == (PendingCallView::TurnStart {
                local_thread_id: local,
                generation: turn.generation,
            })
            &&& r.state == c.state
            &&& last_sent(r) matches Some(m) && {
                &&& m.text_at("method"@) == Some("turn/start"@)
                &&& m.u64_at("id"@) == Some(c.next_id)
                &&& param(m, "threadId"@) == Some(JsonView::Text(thread_id))
                &&& param(m, "input"@) == Some(JsonView::Array(turn.input))
                &&& param(m, "cwd"@) == Some(JsonView::Text(turn.cwd))
                &&& param(m, "approvalPolicy"@) == Some(JsonView::Text(turn.approval_policy))
                &&& param(m, "model"@) == Some(JsonView::Text(turn.model))
                &&& param(m, "effort"@) == Some(JsonView::Text(turn.effort))
                &&& param(m, "sandboxPolicy"@) matches Some(policy) && policy.text_at("type"@)
                    == Some(
                    if turn.sandbox == "read-only"@ {
                        "readOnly"@
                    } else if turn.sandbox == "workspace-write"@ {
                        "workspaceWrite"@
                    } else {
                        "dangerFullAccess"@
                    },
                )
            }
        }),
{
    reveal(ControllerView::turn_requested);
    reveal(ControllerView::requested);
    reveal(ControllerView::call_opened);
    lemma_sandbox_names();
    lemma_turn_params(thread_id, turn);
    let p = turn_params_view(turn_start_view(thread_id, turn))->Ok_0;
    lemma_request_members("turn/start"@, c.next_id, p);
    let r = c.turn_requested(local, thread_id, turn, now);
    assert(r.outbox.drop_last() =~= c.outbox);
}

pub(crate) proof fn lemma_input_members(path: Seq<char>, text: Seq<char>, windows: bool)
    ensures
        attachment_view(path, windows).text_at("path"@) == Some(path),
        text_input_view(text).text_at("type"@) == Some("text"@),
        text_input_view(text).text_at("text"@) == Some(text),
{
    reveal_strlit("type");
    reveal_strlit("path");
    reveal_strlit("name");
    reveal_strlit("text");
    assert("type"@[0] != "path"@[0]);
    assert("name"@[0] != "path"@[0]);
    assert("type"@[1] != "text"@[1]);
    let members = attachment_view(path, windows)->Object_0;
    lemma_entry_value(members, "path"@, members.len() - 1);
    lemma_entry_value(text_input_view(text)->Object_0, "type"@, 0);
    lemma_entry_value(text_input_view(text)->Object_0, "text"@, 1);
}

/// What a prompt becomes on its way to the backend: its own text ends the first
/// entry of the input, and its attachments are the last entries, in order. A
/// thread that the backend knows gets nothing else.
pub open spec fn prompt_in_input(
    input: Seq<JsonView>,
    text: Seq<char>,
    attachments: Seq<Seq<char>>,
    known: bool,
) -> bool {
    let tail = input.skip(input.len() - attachments.len());
    &&& input.len() >= 1 + attachments.len()
    &&& known ==> input.len() == 1 + attachments.len()
    &&& input[0].text_at("type"@) == Some("text"@)
    &&& input[0].text_at("text"@) matches Some(t) && ends(t, text) && (known ==> t == text)
    &&& forall|i: int|
        0 <= i < attachments.len() ==> (#[trigger] tail[i]).text_at("path"@) == Some(attachments[i])
}

proof fn lemma_turn_input(
    state: AppStateView,
    generation: u64,
    text: Seq<char>,
    attachments: Seq<Seq<char>>,
    existing: Seq<Seq<char>>,
    restore: bool,
)
    ensures
        prompt_in_input(
            turn_for(state, generation, text, attachments, existing, restore).input,
            text,
            attachments,
            !restore,
        ),
{
    reveal(turn_for);
    let windows = state.windows_paths;
    let input = turn_input(state.conversation, windows, text, attachments, existing, restore);
    let own = attachment_views(attachments, windows);
    let tail = input.skip(input.len() - attachments.len());
    assert(tail =~= own);
    let sent = if restore {
        prompt_with_context(text, context_of(state.conversation))
    } else {
        text
    };
    assert(input[0] == text_input_view(sent));
    lemma_input_members(text, sent, windows);
    assert(sent.skip(sent.len() - text.len()) =~= text);
    assert forall|i: int| 0 <= i < attachments.len() implies (#[trigger] tail[i]).text_at("path"@)
        == Some(attachments[i]) by {
        lemma_input_members(attachments[i], text, windows);
    }
}

proof fn lemma_prompt_kept(
    c: ControllerView,
    local: Seq<char>,
    text: Seq<char>,
    attachments: Seq<Seq<char>>,
    first: bool,
    now: Moment,
)
    ensures
        ({
            let k = c.prompt_kept(local, text, attachments, now);
            let r = k.titled_at_first(first, local, text, now);
            &&& k.outbox == c.outbox
            &&& k.state.runtime_threads == c.state.runtime_threads
            &&& k.backend == c.backend
            &&& c.backend ==> r.backend && r.state == k.state && r.outbox.take(
                c.outbox.len() as int,
            ) == c.outbox && r.outbox.len() >= c.outbox.len()
        }),
{
    reveal(ControllerView::prompt_kept);
    reveal(ControllerView::state_with_prompt);
    reveal(AppStateView::with_prompt);
    reveal(AppStateView::thread_stamped);
    reveal(AppStateView::synced);
    reveal(AppStateView::turn_begun);
    reveal(ControllerView::titled_at_first);
    reveal(ControllerView::title_asked);
    reveal(ControllerView::requested);
    reveal(ControllerView::call_opened);
    reveal_strlit("thread/start");
    reveal_strlit("turn/start");
    assert("thread/start"@.len() != "turn/start"@.len());
    let k = c.prompt_kept(local, text, attachments, now);
    let r = k.titled_at_first(first, local, text, now);
    if c.backend {
        assert(r.outbox.take(c.outbox.len() as int) =~= c.outbox);
    }
}

/// Every prompt that is sent reaches the backend whole, whether or not the
/// backend knows its thread: the turn that is asked for holds the text of the
/// prompt and then each of its attachments, in order.
pub proof fn lemma_prompt_reaches_backend(
    c: ControllerView,
    text: Seq<char>,
    attachments: Seq<Seq<char>>,
    existing: Seq<Seq<char>>,
    now: Moment,
)
    requires
        c.backend,
        c.state.connected,
        c.state.active_project is Some,
        c.state.active_local_thread matches Some(local) ==> !has_key(c.state.running_turns, local),
        trimmed(text).len() > 0 || attachments.len() > 0,
    ensures
        ({
            let r = c.prompt_sent(text, attachments, existing, now);
            let runtime = match r.state.active_local_thread {
                Some(local) => lookup(c.state.runtime_threads, local),
                None => None,
            };
            &&& r.state.active_local_thread is Some
            &&& c.state.active_local_thread is Some ==> r.state.active_local_thread
                == c.state.active_local_thread
            &&& r.outbox.len() > c.outbox.len()
            &&& r.outbox.take(c.outbox.len() as int) == c.outbox
            &&& asked_input(r) matches Some(input) && prompt_in_input(
                input,
                trimmed(text),
                attachments,
                runtime is Some,
            )
            &&& last_sent(r) matches Some(m) && {
                &&& m.text_at("method"@) == Some(
                    if runtime is Some {
                        "turn/start"@
                    } else {
                        "thread/start"@
                    },
                )
                &&& runtime is Some ==> param(m, "threadId"@) == Some(JsonView::Text(runtime->0))
            }
        }),
{
    reveal(ControllerView::prompt_sent);
    reveal(ControllerView::thread_ensured);
    reveal(AppStateView::thread_created);
    reveal(AppStateView::synced);
    reveal(AppStateView::logged);
    let e = c.thread_ensured(now);
    assert(e.state.active_local_thread is Some);
    assert(e.state.runtime_threads == c.state.runtime_threads);
    assert(e.outbox == c.outbox && e.backend);
    let local = e.state.active_local_thread->0;
    lemma_prompt_sent_in(e, local, trimmed(text), attachments, existing, now);
}

proof fn lemma_prompt_sent_in(
    c: ControllerView,
    local: Seq<char>,
    text: Seq<char>,
    attachments: Seq<Seq<char>>,
    existing: Seq<Seq<char>>,
    now: Moment,
)
    requires
        c.backend,
        c.state.active_local_thread == Some(local),
    ensures
        ({
            let r = c.prompt_sent_in(local, text, attachments, existing, now);
            let runtime = lookup(c.state.runtime_threads, local);
            &&& r.state.active_local_thread == Some(local)
            &&& r.outbox.len() > c.outbox.len()
            &&& r.outbox.take(c.outbox.len() as int) == c.outbox
            &&& asked_input(r) matches Some(input) && prompt_in_input(
                input,
                text,
                attachments,
                runtime is Some,
            )
            &&& last_sent(r) matches Some(m) && {
                &&& m.text_at("method"@) == Some(
                    if runtime is Some {
                        "turn/start"@
                    } else {
                        "thread/start"@
                    },
                )
                &&& runtime is Some ==> param(m, "threadId"@) == Some(JsonView::Text(runtime->0))
            }
        }),
{
    reveal(ControllerView::prompt_sent_in);
    reveal(ControllerView::turn_dispatched);
    let restore = !has_key(c.state.runtime_threads, local);
    let first = c.state.conversation.len() == 0;
    lemma_prompt_kept(c, local, text, attachments, first, now);
    lemma_kept_thread(c, local, text, attachments, now);
    let t = c.prompt_kept(local, text, attachments, now).titled_at_first(first, local, text, now);
    let turn = turn_for(t.state, c.next_id, text, attachments, existing, restore);
    lemma_turn_input(t.state, c.next_id, text, attachments, existing, restore);
    lemma_turn_settings(t.state, c.next_id, text, attachments, existing, restore);
    let r = c.prompt_sent_in(local, text, attachments, existing, now);
    match lookup(c.state.runtime_threads, local) {
        Some(thread_id) => {
            lemma_turn_goes_out_whole(t, local, thread_id, turn, now);
            assert(r.outbox.take(c.outbox.len() as int) =~= t.outbox.take(c.outbox.len() as int));
        },
        None => {
            reveal(ControllerView::requested);
            reveal(ControllerView::call_opened);
            reveal_strlit("thread/start");
            reveal_strlit("turn/start");
            assert("thread/start"@.len() != "turn/start"@.len());
            lemma_request_members("thread/start"@, t.next_id, thread_start_view(turn));
            assert(r.outbox.take(c.outbox.len() as int) =~= t.outbox.take(c.outbox.len() as int));
        },
    }
}

proof fn lemma_kept_thread(
    c: ControllerView,
    local: Seq<char>,
    text: Seq<char>,
    attachments: Seq<Seq<char>>,
    now: Moment,
)
    ensures
        c.prompt_kept(local, text, attachments, now).state.active_local_thread
            == c.state.active_local_thread,
{
    reveal(ControllerView::prompt_kept);
    reveal(ControllerView::state_with_prompt);
    reveal(AppStateView::with_prompt);
    reveal(AppStateView::thread_stamped);
    reveal(AppStateView::synced);
    reveal(AppStateView::turn_begun);
}

/// A turn runs in the directory of the project, with the model and the effort
/// of the thread, and under its sandbox and approval policy; what the thread
/// leaves open is taken from the preferences.
pub proof fn lemma_turn_settings(
    state: AppStateView,
    generation: u64,
    text: Seq<char>,
    attachments: Seq<Seq<char>>,
    existing: Seq<Seq<char>>,
    restore: bool,
)
    ensures
        ({
            let turn = turn_for(state, generation, text, attachments, existing, restore);
            let sandbox = match state.agent().sandbox {
                Some(s) => s,
                None => state.prefs.sandbox,
            };
            let approval = match state.agent().approval {
                Some(a) => a,
                None => state.prefs.approval,
            };
            &&& turn.generation == generation
            &&& turn.cwd == state.prefs.workspace
            &&& turn.model == state.agent().model
            &&& turn.effort == state.agent().effort
            &&& turn.sandbox == match sandbox {
                SandboxChoice::ReadOnly => "read-only"@,
                SandboxChoice::WorkspaceWrite => "workspace-write"@,
                SandboxChoice::FullAccess => "danger-full-access"@,
            }
            &&& turn.approval_policy == match approval {
                ApprovalChoice::OnRequest => "on-request"@,
                ApprovalChoice::Untrusted => "untrusted"@,
                ApprovalChoice::Never => "never"@,
            }
        }),
{
    reveal(turn_for);
}

/// Once the thread of a turn has started, the turn goes to it as it was asked
/// for, and the thread is the one of its conversation from then on.
pub proof fn lemma_started_thread_gets_its_turn(
    c: ControllerView,
    local: Seq<char>,
    turn: PendingTurnView,
    thread_id: Seq<char>,
    now: Moment,
)
    requires
        c.backend,
        lookup(c.turn_generations, local) == Some(turn.generation),
        !has_key(c.cancelled, local),
        turn.sandbox == "read-only"@ || turn.sandbox == "workspace-write"@ || turn.sandbox
            == "danger-full-access"@,
    ensures
        ({
            let r = c.thread_started(local, turn, Some(thread_id), now);
            &&& lookup(r.state.runtime_threads, local) == Some(thread_id)
            &&& r.outbox.drop_last() == c.outbox
            &&& asked_input(r) == Some(turn.input)
            &&& last_sent(r) matches Some(m) && m.text_at("method"@) == Some("turn/start"@)
                && param(m, "threadId"@) == Some(JsonView::Text(thread_id)) && param(m, "cwd"@)
                == Some(JsonView::Text(turn.cwd))
        }),
{
    reveal(ControllerView::thread_started);
    let b = c.with_state(c.state.with_runtime_thread(local, thread_id));
    lemma_turn_goes_out_whole(b, local, thread_id, turn, now);
    lemma_put_lookup(c.state.runtime_threads, local, thread_id, local);
}

/// The user's decision goes to the request that is shown, under its id, and says
/// what the user said. Where the asking method takes the decision as it is, it
/// is that text and no other; where it takes an approval or a denial, accepting
/// approves and anything else denies.
pub proof fn lemma_decision_is_the_users(c: ControllerView, decision: Seq<char>)
    requires
        c.backend,
        c.state.approval is Some,
    ensures
        ({
            let method = c.state.approval->0.method;
            let r = c.approval_answered(decision);
            let m = last_sent(r)->0;
            let reply = m.get2("result"@, "decision"@);
            &&& r.outbox.drop_last() == c.outbox
            &&& last_sent(r) is Some
            &&& m.get("id"@) == Some(c.state.approval->0.request_id)
            &&& m.get("error"@) is None
            &&& method != "execCommandApproval"@ && method != "applyPatchApproval"@ ==> reply
                == Some(JsonView::Text(decision))
            &&& method == "execCommandApproval"@ || method == "applyPatchApproval"@ ==> {
                &&& decision == "accept"@ ==> reply == Some(JsonView::Text("approved"@))
                &&& decision == "acceptForSession"@ ==> reply == Some(
                    JsonView::Text("approved_for_session"@),
                )
                &&& decision != "accept"@ && decision != "acceptForSession"@ ==> reply is Some
                    && reply->0.as_text() is None && reply->0.get("denied"@) is Some
            }
        }),
{
    reveal(ControllerView::approval_answered);
    reveal(ControllerView::raw_sent);
    reveal(AppStateView::next_approval);
    reveal(AppStateView::logged);
    reveal_strlit("id");
    reveal_strlit("result");
    reveal_strlit("error");
    reveal_strlit("accept");
    reveal_strlit("acceptForSession");
    assert("id"@.len() == 2 && "result"@.len() == 6 && "error"@.len() == 5);
    assert("accept"@.len() != "acceptForSession"@.len());
    let approval = c.state.approval->0;
    let value = decision_view(approval.method, decision);
    let message = result_view(approval.request_id, value);
    lemma_result_members(approval.request_id, value);
    let r = c.approval_answered(decision);
    assert(r.outbox.drop_last() =~= c.outbox);
    assert(last_sent(r) == Some(message));
    lemma_entry_value(value->Object_0, "decision"@, 0);
    let denied = seq![
        (
            "denied"@,
            JsonView::Object(seq![("rejection"@, JsonView::Text("Denied by user"@))]),
        ),
    ];
    lemma_entry_value(denied, "denied"@, 0);
}

/// A refusal never reads like an acceptance: whatever asked, declining and
/// accepting are answered differently, and so is accepting for the session.
pub proof fn lemma_refusal_differs_from_acceptance(
    c: ControllerView,
    accepted: Seq<char>,
    refused: Seq<char>,
)
    requires
        c.backend,
        c.state.approval is Some,
        accepted == "accept"@ || accepted == "acceptForSession"@,
        refused != "accept"@ && refused != "acceptForSession"@,
    ensures
        last_sent(c.approval_answered(accepted)) != last_sent(c.approval_answered(refused)),
{
    lemma_decision_is_the_users(c, accepted);
    lemma_decision_is_the_users(c, refused);
}

proof fn lemma_result_members(id: JsonView, result: JsonView)
    ensures
        result_view(id, result).get("id"@) == Some(id),
        result_view(id, result).get("result"@) == Some(result),
        result_view(id, result).get("error"@) is None,
{
    reveal_strlit("id");
    reveal_strlit("result");
    reveal_strlit("error");
    assert("id"@.len() == 2 && "result"@.len() == 6 && "error"@.len() == 5);
    let members = result_view(id, result)->Object_0;
    lemma_entry_value(members, "id"@, 0);
    lemma_entry_value(members, "result"@, 1);
    reveal_with_fuel(entry_value, 3);
    assert(members.drop_first()[0] == members[1]);
}

/// The answer that is sent under the id of a question.
pub open spec fn sent_answers(message: JsonView, question: Seq<char>) -> Option<JsonView> {
    match message.get2("result"@, "answers"@) {
        Some(answers) => answers.get2(question, "answers"@),
        None => None,
    }
}

proof fn lemma_sent_answer(request: QuestionRequestView, i: int)
    requires
        0 <= i < request.questions.len(),
        forall|j: int, k: int|
            0 <= j < k < request.questions.len() ==> (#[trigger] request.questions[j]).id != (
            #[trigger] request.questions[k]).id,
    ensures
        sent_answers(
            result_view(
                request.request_id,
                JsonView::Object(seq![
                    ("answers"@, JsonView::Object(answers_view(request.questions))),
                ]),
            ),
            request.questions[i].id,
        ) == Some(JsonView::Array(seq![JsonView::Text(request.questions[i].answer)])),
{
    let answers = answers_view(request.questions);
    let outer = seq![("answers"@, JsonView::Object(answers))];
    lemma_result_members(request.request_id, JsonView::Object(outer));
    lemma_entry_value(outer, "answers"@, 0);
    assert forall|j: int| 0 <= j < i implies (#[trigger] answers[j]).0 != request.questions[i].id by {
        assert(request.questions[j].id != request.questions[i].id);
    }
    lemma_entry_value(answers, request.questions[i].id, i);
    let inner = seq![
        ("answers"@, JsonView::Array(seq![JsonView::Text(request.questions[i].answer)])),
    ];
    lemma_entry_value(inner, "answers"@, 0);
}

/// What the user answers is what the backend gets: the answer to a question
/// goes out alone under the id of that question, in the reply to the request
/// that asked it, and the answers to the other questions with it.
pub proof fn lemma_answer_reaches_backend(
    c: ControllerView,
    request: QuestionRequestView,
    i: nat,
    answer: Seq<char>,
    other: int,
)
    requires
        c.backend,
        c.state.user_question == Some(request),
        i < request.questions.len(),
        0 <= other < request.questions.len(),
        forall|j: int, k: int|
            0 <= j < k < request.questions.len() ==> (#[trigger] request.questions[j]).id != (
            #[trigger] request.questions[k]).id,
    ensures
        ({
            let r = c.with_state(c.state.with_answer(i, answer)).questions_answered();
            &&& r.outbox.drop_last() == c.outbox
            &&& last_sent(r) matches Some(m) && {
                &&& m.get("id"@) == Some(request.request_id)
                &&& sent_answers(m, request.questions[i as int].id) == Some(
                    JsonView::Array(seq![JsonView::Text(answer)]),
                )
                &&& other != i ==> sent_answers(m, request.questions[other].id) == Some(
                    JsonView::Array(seq![JsonView::Text(request.questions[other].answer)]),
                )
            }
            &&& r.state.user_question == (if c.state.user_question_queue.len() > 0 {
                Some(c.state.user_question_queue[0])
            } else {
                None
            })
        }),
{
    reveal(AppStateView::with_answer);
    reveal(ControllerView::questions_answered);
    reveal(ControllerView::raw_sent);
    reveal(AppStateView::next_question);
    reveal(AppStateView::logged);
    let b = c.with_state(c.state.with_answer(i, answer));
    let asked = b.state.user_question->0;
    assert forall|j: int, k: int| 0 <= j < k < asked.questions.len() implies (
    #[trigger] asked.questions[j]).id != (#[trigger] asked.questions[k]).id by {
        assert(asked.questions[j].id == request.questions[j].id);
        assert(asked.questions[k].id == request.questions[k].id);
    }
    lemma_sent_answer(asked, i as int);
    lemma_sent_answer(asked, other);
    let result = JsonView::Object(seq![
        ("answers"@, JsonView::Object(answers_view(asked.questions))),
    ]);
    lemma_result_members(asked.request_id, result);
    let r = b.questions_answered();
    assert(r.outbox.drop_last() =~= c.outbox);
}

proof fn lemma_interrupt_members(thread_id: Seq<char>, turn_id: Seq<char>)
    ensures
        interrupt_view(thread_id, turn_id).text_at("threadId"@) == Some(thread_id),
        interrupt_view(thread_id, turn_id).text_at("turnId"@) == Some(turn_id),
{
    reveal_strlit("threadId");
    reveal_strlit("turnId");
    assert("threadId"@.len() != "turnId"@.len());
    let members = interrupt_view(thread_id, turn_id)->Object_0;
    lemma_entry_value(members, "threadId"@, 0);
    lemma_entry_value(members, "turnId"@, 1);
}

proof fn lemma_interrupt_goes_out(
    c: ControllerView,
    local: Seq<char>,
    thread_id: Seq<char>,
    turn_id: Seq<char>,
    now: Moment,
)
    requires
        c.backend,
        lookup(c.state.runtime_threads, local) == Some(thread_id),
        lookup(c.state.running_turns, local) == Some(Some(turn_id)),
        !interrupt_pending(c.pending, local, turn_id),
    ensures
        ({
            let r = c.interrupted_when_ready(local, now);
            &&& r.outbox.drop_last() == c.outbox
            &&& r.state == c.state
            &&& r.cancelled == c.cancelled
            &&& last_sent(r) matches Some(m) && {
                &&& m.text_at("method"@) == Some("turn/interrupt"@)
                &&& param(m, "threadId"@) == Some(JsonView::Text(thread_id))
                &&& param(m, "turnId"@) == Some(JsonView::Text(turn_id))
            }
        }),
{
    reveal(ControllerView::interrupted_when_ready);
    reveal(ControllerView::requested);
    reveal(ControllerView::call_opened);
    reveal_strlit("turn/interrupt");
    reveal_strlit("turn/start");
    assert("turn/interrupt"@.len() != "turn/start"@.len());
    lemma_request_members("turn/interrupt"@, c.next_id, interrupt_view(thread_id, turn_id));
    lemma_interrupt_members(thread_id, turn_id);
    let r = c.interrupted_when_ready(local, now);
    assert(r.outbox.drop_last() =~= c.outbox);
}

/// Stopping asks the backend to interrupt the very turn that runs in the thread
/// on screen.
pub proof fn lemma_stop_reaches_backend(
    c: ControllerView,
    local: Seq<char>,
    thread_id: Seq<char>,
    turn_id: Seq<char>,
    now: Moment,
)
    requires
        c.backend,
        c.state.active_local_thread == Some(local),
        lookup(c.state.runtime_threads, local) == Some(thread_id),
        lookup(c.state.running_turns, local) == Some(Some(turn_id)),
        !interrupt_pending(c.pending, local, turn_id),
    ensures
        ({
            let r = c.interrupted(now);
            &&& r.outbox.drop_last() == c.outbox
            &&& has_key(r.cancelled, local)
            &&& last_sent(r) matches Some(m) && {
                &&& m.text_at("method"@) == Some("turn/interrupt"@)
                &&& param(m, "threadId"@) == Some(JsonView::Text(thread_id))
                &&& param(m, "turnId"@) == Some(JsonView::Text(turn_id))
            }
        }),
{
    reveal(ControllerView::interrupted);
    lemma_interrupt_goes_out(c.cancelling(local), local, thread_id, turn_id, now);
    lemma_put_lookup(c.cancelled, local, (), local);
}

/// A stop that comes before the backend has named the turn is not lost: nothing
/// is sent at first, and the turn is interrupted as soon as it has a name.
pub proof fn lemma_early_stop_is_not_lost(
    c: ControllerView,
    local: Seq<char>,
    thread_id: Seq<char>,
    generation: u64,
    turn_id: Seq<char>,
    now: Moment,
    later: Moment,
)
    requires
        c.backend,
        c.state.active_local_thread == Some(local),
        lookup(c.state.runtime_threads, local) == Some(thread_id),
        lookup(c.state.running_turns, local) == Some(None::<Seq<char>>),
        lookup(c.turn_generations, local) == Some(generation),
        !c.completed_turns.contains((local, turn_id)),
        !interrupt_pending(c.pending, local, turn_id),
    ensures
        c.interrupted(now).outbox == c.outbox,
        ({
            let r = c.interrupted(now).turn_accepted(local, generation, Some(turn_id), later);
            &&& r.outbox.drop_last() == c.outbox
            &&& last_sent(r) matches Some(m) && {
                &&& m.text_at("method"@) == Some("turn/interrupt"@)
                &&& param(m, "threadId"@) == Some(JsonView::Text(thread_id))
                &&& param(m, "turnId"@) == Some(JsonView::Text(turn_id))
            }
        }),
{
    reveal(ControllerView::interrupted);
    reveal(ControllerView::interrupted_when_ready);
    reveal(ControllerView::turn_accepted);
    reveal(ControllerView::turn_running);
    let stopped = c.interrupted(now);
    assert(stopped == c.cancelling(local));
    lemma_put_lookup(c.cancelled, local, (), local);
    lemma_put_lookup(c.state.running_turns, local, Some(turn_id), local);
    let running = stopped.with_state(stopped.state.with_running_turn(local, Some(turn_id)));
    lemma_interrupt_goes_out(running, local, thread_id, turn_id, later);
}

/// What an entry of a conversation adds to what is said of it to the backend.
proof fn lemma_chat_line_said(items: Seq<ConversationItemView>, i: int)
    requires
        0 <= i < items.len(),
        items[i].kind == ItemKind::User || items[i].kind == ItemKind::Assistant,
        !blank(items[i].body),
    ensures
        exists|k: int|
            0 <= k < chat_lines(items).len() && (#[trigger] chat_lines(items)[k]) == (
            if items[i].kind == ItemKind::User {
                "User: "@
            } else {
                "Assistant: "@
            }) + trimmed(items[i].body),
    decreases items.len(),
{
    reveal_strlit("User");
    reveal_strlit("Assistant");
    reveal_strlit(": ");
    reveal_strlit("User: ");
    reveal_strlit("Assistant: ");
    assert("User"@ + ": "@ =~= "User: "@);
    assert("Assistant"@ + ": "@ =~= "Assistant: "@);
    let lines = chat_lines(items);
    let before = chat_lines(items.drop_last());
    let said = (if items[i].kind == ItemKind::User {
        "User: "@
    } else {
        "Assistant: "@
    }) + trimmed(items[i].body);
    if i == items.len() - 1 {
        assert(items.last() == items[i]);
        assert(lines[before.len() as int] == said);
    } else {
        lemma_chat_line_said(items.drop_last(), i);
        let k = choose|k: int| 0 <= k < before.len() && (#[trigger] before[k]) == said;
        assert(lines[k] == said);
    }
}

/// When a thread is started anew, everything that was said in it goes to the
/// backend with the prompt, as long as it fits: each message of the user and
/// each answer, under the name of who said it.
pub proof fn lemma_saved_conversation_goes_along(
    conversation: Seq<ConversationItemView>,
    current: ConversationItemView,
    i: int,
    state: AppStateView,
    generation: u64,
    text: Seq<char>,
    attachments: Seq<Seq<char>>,
    existing: Seq<Seq<char>>,
)
    requires
        0 <= i < conversation.len(),
        conversation[i].kind == ItemKind::User || conversation[i].kind == ItemKind::Assistant,
        !blank(conversation[i].body),
        state.conversation == conversation.push(current),
        context_of(state.conversation).len() < 60_000,
    ensures
        ({
            let input = turn_for(state, generation, text, attachments, existing, true).input;
            input.len() > 0 && (input[0].text_at("text"@) matches Some(t) && has_text(
                t,
                (if conversation[i].kind == ItemKind::User {
                    "User: "@
                } else {
                    "Assistant: "@
                }) + trimmed(conversation[i].body),
            ) && ends(t, text))
        }),
{
    reveal(turn_for);
    let said = (if conversation[i].kind == ItemKind::User {
        "User: "@
    } else {
        "Assistant: "@
    }) + trimmed(conversation[i].body);
    assert(state.conversation.drop_last() =~= conversation);
    lemma_chat_line_said(conversation, i);
    let lines = chat_lines(conversation);
    let k = choose|k: int| 0 <= k < lines.len() && (#[trigger] lines[k]) == said;
    lemma_joined_has_part(lines, "\n\n"@, k);
    let transcript = context_of(state.conversation);
    assert(transcript == joined(lines, "\n\n"@));
    assert(transcript.len() > 0) by {
        let at = choose|at: int| 0 <= at <= transcript.len() && #[trigger] begins(transcript.skip(at), said);
        reveal_strlit("User: ");
        reveal_strlit("Assistant: ");
        assert("User: "@.len() == 6 && "Assistant: "@.len() == 11);
    }
    let sent = prompt_with_context(text, transcript);
    let head = "Continue this locally saved Ferro Code conversation. Use the transcript as context; do not repeat it in your answer.\n\n<conversation_history>\n"@;
    let foot = "\n</conversation_history>\n\nCurrent user request:\n"@;
    lemma_has_text_within(head, transcript, foot + text, said);
    assert(head + transcript + (foot + text) =~= sent);
    lemma_input_members(text, sent, state.windows_paths);
    let input = turn_for(state, generation, text, attachments, existing, true).input;
    assert(input[0] == text_input_view(sent));
    assert(sent.skip(sent.len() - text.len()) =~= text);
}

proof fn lemma_backwards_has(items: Seq<ConversationItemView>, i: int, k: int)
    requires
        0 <= i < items.len(),
        0 <= k < items[i].attachments.len(),
    ensures
        paths_backwards(items).contains(items[i].attachments[k]),
    decreases items.len(),
{
    let last = items.last().attachments;
    let before = paths_backwards(items.drop_last());
    if i == items.len() - 1 {
        assert((last + before)[k] == items[i].attachments[k]);
    } else {
        lemma_backwards_has(items.drop_last(), i, k);
        let j = choose|j: int| 0 <= j < before.len() && before[j] == items[i].attachments[k];
        assert((last + before)[last.len() + j] == before[j]);
    }
}

proof fn lemma_distinct_has(all: Seq<Seq<char>>, path: Seq<char>)
    requires
        all.contains(path),
    ensures
        distinct(all).contains(path),
    decreases all.len(),
{
    let j = choose|j: int| 0 <= j < all.len() && all[j] == path;
    let before = distinct(all.drop_last());
    if j == all.len() - 1 {
        if !before.contains(path) {
            assert(distinct(all)[before.len() as int] == path);
        }
    } else {
        assert(all.drop_last()[j] == path);
        lemma_distinct_has(all.drop_last(), path);
        let k = choose|k: int| 0 <= k < before.len() && before[k] == path;
        assert(distinct(all)[k] == path);
    }
}

/// When a thread is started anew, what was attached to it earlier goes along
/// once more if the file is still there, and is said to be gone if it is not.
pub proof fn lemma_earlier_attachments_go_along(
    conversation: Seq<ConversationItemView>,
    current: ConversationItemView,
    i: int,
    k: int,
    state: AppStateView,
    generation: u64,
    text: Seq<char>,
    attachments: Seq<Seq<char>>,
    existing: Seq<Seq<char>>,
)
    requires
        0 <= i < conversation.len(),
        0 <= k < conversation[i].attachments.len(),
        state.conversation == conversation.push(current),
    ensures
        ({
            let input = turn_for(state, generation, text, attachments, existing, true).input;
            let path = conversation[i].attachments[k];
            exists|j: int|
                0 < j < input.len() - attachments.len() && if existing.contains(path) {
                    (#[trigger] input[j]).text_at("path"@) == Some(path)
                } else {
                    input[j].text_at("text"@) matches Some(t) && ends(t, path)
                }
        }),
{
    reveal(turn_for);
    let path = conversation[i].attachments[k];
    assert(state.conversation.drop_last() =~= conversation);
    lemma_backwards_has(conversation, i, k);
    lemma_distinct_has(paths_backwards(conversation), path);
    let paths = earlier_attachments(state.conversation);
    let at = choose|at: int| 0 <= at < paths.len() && paths[at] == path;
    let input = turn_for(state, generation, text, attachments, existing, true).input;
    assert(input[1 + at] == earlier_input(path, state.windows_paths, existing));
    let gone = "Previously attached file is unavailable: "@ + path;
    lemma_input_members(path, gone, state.windows_paths);
    assert(gone.skip(gone.len() - path.len()) =~= path);
}

proof fn lemma_thread_names()
    ensures
        "cwd"@ != "ephemeral"@,
        "cwd"@ != "approvalPolicy"@,
        "cwd"@ != "sandbox"@,
        "cwd"@ != "serviceName"@,
        "cwd"@ != "model"@,
        "ephemeral"@ != "approvalPolicy"@,
        "ephemeral"@ != "sandbox"@,
        "ephemeral"@ != "serviceName"@,
        "ephemeral"@ != "model"@,
        "approvalPolicy"@ != "sandbox"@,
        "approvalPolicy"@ != "serviceName"@,
        "approvalPolicy"@ != "model"@,
        "sandbox"@ != "serviceName"@,
        "sandbox"@ != "model"@,
        "serviceName"@ != "model"@,
{
    reveal_strlit("cwd");
    assert("cwd"@.len() == 3);
    reveal_strlit("ephemeral");
    assert("ephemeral"@.len() == 9);
    reveal_strlit("approvalPolicy");
    assert("approvalPolicy"@.len() == 14);
    reveal_strlit("sandbox");
    assert("sandbox"@.len() == 7);
    reveal_strlit("serviceName");
    assert("serviceName"@.len() == 11);
    reveal_strlit("model");
    assert("model"@.len() == 5);
}

/// A thread is started for a turn as the turn is to run: in its directory, under
/// its sandbox and approval policy, with its model when it has one, and for this
/// session alone.
pub proof fn lemma_thread_starts_as_its_turn_runs(
    c: ControllerView,
    local: Seq<char>,
    turn: PendingTurnView,
    now: Moment,
)
    requires
        c.backend,
        lookup(c.state.runtime_threads, local) is None,
    ensures
        ({
            let r = c.turn_dispatched(local, turn, now);
            &&& r.outbox.drop_last() == c.outbox
            &&& r.pending.len() > 0
            &&& r.pending.last().call == (PendingCallView::ThreadStart {
                local_thread_id: local,
                turn,
            })
            &&& last_sent(r) matches Some(m) && {
                &&& m.text_at("method"@) == Some("thread/start"@)
                &&& param(m, "cwd"@) == Some(JsonView::Text(turn.cwd))
                &&& param(m, "ephemeral"@) == Some(JsonView::Bool(true))
                &&& param(m, "approvalPolicy"@) == Some(JsonView::Text(turn.approval_policy))
                &&& param(m, "sandbox"@) == Some(JsonView::Text(turn.sandbox))
                &&& turn.model.len() > 0 ==> param(m, "model"@) == Some(JsonView::Text(turn.model))
            }
        }),
{
    reveal(ControllerView::turn_dispatched);
    reveal(ControllerView::requested);
    reveal(ControllerView::call_opened);
    reveal_strlit("thread/start");
    reveal_strlit("turn/start");
    assert("thread/start"@.len() != "turn/start"@.len());
    lemma_thread_names();
    let params = thread_start_view(turn);
    lemma_request_members("thread/start"@, c.next_id, params);
    let members = params->Object_0;
    lemma_entry_value(members, "cwd"@, 0);
    lemma_entry_value(members, "ephemeral"@, 1);
    lemma_entry_value(members, "approvalPolicy"@, 2);
    lemma_entry_value(members, "sandbox"@, 3);
    if turn.model.len() > 0 {
        lemma_entry_value(members, "model"@, 5);
    }
    let r = c.turn_dispatched(local, turn, now);
    assert(r.outbox.drop_last() =~= c.outbox);
}

/// A title is asked for once, in a thread of its own that may read but change
/// nothing.
pub proof fn lemma_title_is_asked_for_once(
    c: ControllerView,
    local: Seq<char>,
    text: Seq<char>,
    now: Moment,
    later: Moment,
)
    requires
        c.backend,
        !has_key(c.summary_pending, "thread-title:"@ + local),
    ensures
        ({
            let r = c.title_asked(local, text, now);
            &&& r.outbox.drop_last() == c.outbox
            &&& last_sent(r) matches Some(m) && {
                &&& m.text_at("method"@) == Some("thread/start"@)
                &&& param(m, "cwd"@) == Some(JsonView::Text(c.state.prefs.workspace))
                &&& param(m, "approvalPolicy"@) == Some(JsonView::Text("never"@))
                &&& param(m, "sandbox"@) == Some(JsonView::Text("read-only"@))
                &&& param(m, "model"@) == Some(JsonView::Text(c.state.prefs.summary_model))
            }
            &&& r.title_asked(local, text, later) == r
        }),
{
    reveal(ControllerView::title_asked);
    reveal(ControllerView::requested);
    reveal(ControllerView::call_opened);
    reveal_strlit("thread/start");
    reveal_strlit("turn/start");
    assert("thread/start"@.len() != "turn/start"@.len());
    lemma_thread_names();
    let key = "thread-title:"@ + local;
    let params = summary_thread_view(c.state.prefs.workspace, c.state.prefs.summary_model);
    lemma_request_members("thread/start"@, c.next_id, params);
    let members = params->Object_0;
    lemma_entry_value(members, "cwd"@, 0);
    lemma_entry_value(members, "approvalPolicy"@, 2);
    lemma_entry_value(members, "sandbox"@, 3);
    lemma_entry_value(members, "model"@, 5);
    lemma_put_lookup(c.summary_pending, key, (), key);
    let r = c.title_asked(local, text, now);
    assert(r.outbox.drop_last() =~= c.outbox);
}

/// The first prompt of a thread asks for a title besides its turn; a later one
/// only for its turn.
pub proof fn lemma_first_prompt_asks_for_a_title(
    c: ControllerView,
    local: Seq<char>,
    text: Seq<char>,
    now: Moment,
)
    ensures
        c.titled_at_first(true, local, text, now) == c.title_asked(local, text, now),
        c.titled_at_first(false, local, text, now) == c,
{
    reveal(ControllerView::titled_at_first);
}

/// However long a conversation is, what was said last goes along in full when it
/// fits.
pub proof fn lemma_last_words_go_along(
    conversation: Seq<ConversationItemView>,
    current: ConversationItemView,
)
    requires
        conversation.len() > 0,
        conversation.last().kind == ItemKind::User || conversation.last().kind
            == ItemKind::Assistant,
        !blank(conversation.last().body),
        trimmed(conversation.last().body).len() + 11 <= 60_000,
    ensures
        ends(
            context_of(conversation.push(current)),
            (if conversation.last().kind == ItemKind::User {
                "User: "@
            } else {
                "Assistant: "@
            }) + trimmed(conversation.last().body),
        ),
        context_of(conversation.push(current)).len() <= 60_000,
{
    reveal_strlit("User");
    reveal_strlit("Assistant");
    reveal_strlit(": ");
    reveal_strlit("User: ");
    reveal_strlit("Assistant: ");
    assert("User"@ + ": "@ =~= "User: "@);
    assert("Assistant"@ + ": "@ =~= "Assistant: "@);
    assert("User: "@.len() == 6 && "Assistant: "@.len() == 11);
    assert(conversation.push(current).drop_last() =~= conversation);
    let said = (if conversation.last().kind == ItemKind::User {
        "User: "@
    } else {
        "Assistant: "@
    }) + trimmed(conversation.last().body);
    let before = chat_lines(conversation.drop_last());
    let lines = chat_lines(conversation);
    assert(lines == before.push(said));
    let whole = joined(lines, "\n\n"@);
    assert(whole.len() >= said.len() && whole.skip(whole.len() - said.len()) =~= said);
    let kept = context_of(conversation.push(current));
    assert(kept.skip(kept.len() - said.len()) =~= said);
}

} // verus!
