//! What becomes of what the backend reports: the entries of a conversation, and
//! the text that streams into them.
use super::laws::lemma_messages_replaced;
use super::requests::{
    bound_to, change_approval, command_approval, local_of, options_of, origin_of, question_of,
    questions_of,
};
use super::{ControllerView, Moment};
use crate::items::{
    body_of_item, change_line, change_lines, delta_appended, entry_for, full_body, id_of_item,
    is_tool_type, item_ingested, kind_of_type, plain_texts, status_of_item, title_of_item,
    tool_part, type_of_item, unconfirmed, updated_item, value_text,
};
use crate::json::JsonView;
use crate::laws::{lemma_approvals_in_order, lemma_questions_in_order};
use crate::model::{text_or, text_or_empty, ConversationItemView, ItemKind};
use crate::state::{
    item_at, item_named, project_at, thread_at, AppStateView, QuestionRequestView,
};
use crate::table::{lemma_first_where, lemma_first_where_is, lemma_last_where_is, lookup};
use crate::text::{
    begins, ends, has_text, joined, lemma_has_itself, lemma_has_text_within, lemma_joined_has_part,
    signed_decimal,
};
use vstd::prelude::*;
use vstd::string::*;

verus! {

/// A notification about a thread of the backend that belongs to a thread here
/// and to no summary.
pub open spec fn notice_for(
    c: ControllerView,
    message: JsonView,
    method: Seq<char>,
    params: JsonView,
    local: Seq<char>,
) -> bool {
    &&& message.get("id"@) is None
    &&& message.text_at("method"@) == Some(method)
    &&& message.get("params"@) == Some(params)
    &&& params.text_at("threadId"@) matches Some(thread) && lookup(c.active_summaries, thread) is None
        && belongs(c.state.runtime_threads, local, thread)
}

/// A thread of the backend belongs to a thread here, and to none before it.
pub open spec fn belongs(
    runtime_threads: Seq<(Seq<char>, Seq<char>)>,
    local: Seq<char>,
    thread: Seq<char>,
) -> bool {
    exists|k: int|
        0 <= k < runtime_threads.len() && #[trigger] runtime_threads[k] == (local, thread)
            && forall|j: int| 0 <= j < k ==> (#[trigger] runtime_threads[j]).1 != thread
}

/// An entry as it is shown.
pub open spec fn shown(
    messages: Seq<ConversationItemView>,
    id: Seq<char>,
    kind: ItemKind,
    title: Seq<char>,
    body: Seq<char>,
    status: Seq<char>,
) -> bool {
    exists|k: int|
        0 <= k < messages.len() && (#[trigger] messages[k]).id == id && messages[k].kind == kind
            && messages[k].title == title && messages[k].body == body && messages[k].status
            == status
}

/// Every entry is still there, and only that with an id may differ; at most one
/// has come.
pub open spec fn others_kept(
    before: Seq<ConversationItemView>,
    after: Seq<ConversationItemView>,
    id: Seq<char>,
) -> bool {
    &&& before.len() <= after.len() <= before.len() + 1
    &&& forall|j: int|
        0 <= j < before.len() && before[j].id != id ==> #[trigger] after[j] == before[j]
}

proof fn lemma_belongs(
    runtime_threads: Seq<(Seq<char>, Seq<char>)>,
    params: JsonView,
    local: Seq<char>,
)
    requires
        params.text_at("threadId"@) is Some,
        belongs(runtime_threads, local, params.text_at("threadId"@)->0),
    ensures
        local_of(runtime_threads, params) == Some(local),
{
    let thread = params.text_at("threadId"@)->0;
    let k = choose|k: int|
        0 <= k < runtime_threads.len() && #[trigger] runtime_threads[k] == (local, thread)
            && forall|j: int| 0 <= j < k ==> (#[trigger] runtime_threads[j]).1 != thread;
    assert forall|j: int| 0 <= j < k implies !bound_to(thread)(#[trigger] runtime_threads[j]) by {
        assert(runtime_threads[j].1 != thread);
    }
    lemma_first_where_is(runtime_threads, bound_to(thread), k);
}

proof fn lemma_item_methods()
    ensures
        "item/started"@ != "backend/exited"@,
        "item/started"@ != "backend/protocolError"@,
        "item/started"@ != "backend/stderr"@,
        "item/completed"@ != "backend/exited"@,
        "item/completed"@ != "backend/protocolError"@,
        "item/completed"@ != "backend/stderr"@,
        "item/completed"@ != "item/started"@,
{
    reveal_strlit("item/started");
    reveal_strlit("item/completed");
    reveal_strlit("backend/exited");
    reveal_strlit("backend/protocolError");
    reveal_strlit("backend/stderr");
    assert("item/started"@[0] == 'i');
    assert("item/completed"@[0] == 'i');
    assert("backend/exited"@[0] == 'b');
    assert("backend/protocolError"@[0] == 'b');
    assert("backend/stderr"@[0] == 'b');
    assert("item/completed"@[5] != "item/started"@[5]);
}

/// The method under which an item is reported.
pub open spec fn item_method(completed: bool) -> Seq<char> {
    if completed {
        "item/completed"@
    } else {
        "item/started"@
    }
}

proof fn lemma_item_taken(
    c: ControllerView,
    message: JsonView,
    params: JsonView,
    item: JsonView,
    local: Seq<char>,
    completed: bool,
    other: Seq<char>,
    now: Moment,
)
    requires
        notice_for(c, message, item_method(completed), params, local),
        params.get("item"@) == Some(item),
        c.state.thread_messages(local) is Some,
    ensures
        ({
            let r = c.message_taken(message, now);
            &&& r.outbox == c.outbox
            &&& r.pending == c.pending
            &&& r.state.thread_messages(local) == Some(
                item_ingested(c.state.thread_messages(local)->0, item, completed),
            )
            &&& other != local ==> r.state.thread_messages(other) == c.state.thread_messages(other)
        }),
{
    reveal(ControllerView::message_taken);
    reveal(ControllerView::notified);
    reveal(ControllerView::plainly_notified);
    reveal(ControllerView::item_reported);
    reveal(AppStateView::item_taken);
    lemma_item_methods();
    lemma_belongs(c.state.runtime_threads, params, local);
    let messages = item_ingested(c.state.thread_messages(local)->0, item, completed);
    lemma_messages_replaced(c.state, local, messages, other);
}

/// What is taken in of an item that is no message of the user.
proof fn lemma_ingested(before: Seq<ConversationItemView>, item: JsonView, completed: bool)
    requires
        kind_of_type(type_of_item(item)) != ItemKind::User,
    ensures
        ({
            let after = item_ingested(before, item, completed);
            let kind = kind_of_type(type_of_item(item));
            let title = title_of_item(item, type_of_item(item));
            &&& others_kept(before, after, id_of_item(item))
            &&& full_body(item).len() > 0 ==> shown(
                after,
                id_of_item(item),
                kind,
                title,
                full_body(item),
                status_of_item(item, completed),
            )
        }),
{
    let after = item_ingested(before, item, completed);
    let id = id_of_item(item);
    lemma_first_where(before, item_named(id));
    match item_at(before, id) {
        Some(i) => {
            assert(after[i].id == id);
        },
        None => {
            assert(after[before.len() as int].id == id);
        },
    }
}

proof fn lemma_item_types()
    ensures
        "commandExecution"@ != "userMessage"@,
        "commandExecution"@ != "agentMessage"@,
        "commandExecution"@ != "reasoning"@,
        "commandExecution"@ != "plan"@,
        "agentMessage"@ != "userMessage"@,
        "agentMessage"@ != "plan"@,
        "reasoning"@ != "userMessage"@,
        "reasoning"@ != "agentMessage"@,
        "reasoning"@ != "plan"@,
        "plan"@ != "userMessage"@,
        "plan"@ != "agentMessage"@,
        "plan"@ != "reasoning"@,
        "fileChange"@ != "userMessage"@,
        "fileChange"@ != "agentMessage"@,
        "fileChange"@ != "reasoning"@,
        "fileChange"@ != "plan"@,
        "fileChange"@ != "commandExecution"@,
        forall|t: Seq<char>| #[trigger]
            is_tool_type(t) ==> t
                != "userMessage"@ && t != "agentMessage"@ && t != "reasoning"@ && t != "plan"@ && t
                != "commandExecution"@ && t != "fileChange"@,
{
    reveal_strlit("userMessage");
    assert("userMessage"@.len() == 11);
    reveal_strlit("agentMessage");
    assert("agentMessage"@.len() == 12);
    reveal_strlit("reasoning");
    assert("reasoning"@.len() == 9);
    reveal_strlit("plan");
    assert("plan"@.len() == 4);
    reveal_strlit("commandExecution");
    assert("commandExecution"@.len() == 16);
    reveal_strlit("fileChange");
    assert("fileChange"@.len() == 10);
    reveal_strlit("mcpToolCall");
    assert("mcpToolCall"@.len() == 11);
    reveal_strlit("dynamicToolCall");
    assert("dynamicToolCall"@.len() == 15);
    reveal_strlit("collabAgentToolCall");
    assert("collabAgentToolCall"@.len() == 19);
    assert("userMessage"@[0] != "mcpToolCall"@[0]);
}

/// How a finished item stands: as it says itself when it failed, was declined or
/// interrupted, as failed after a nonzero exit code or with an error, and else
/// as completed. One that is not finished runs.
pub proof fn lemma_item_status(item: JsonView, completed: bool)
    ensures
        ({
            let status = status_of_item(item, completed);
            let own = item.text_at("status"@);
            &&& !completed ==> status == "running"@
            &&& completed && (own == Some("failed"@) || own == Some("declined"@) || own == Some(
                "interrupted"@,
            )) ==> own == Some(status)
            &&& completed && own is None && item.i64_at("exitCode"@) == Some(0i64) && item.get(
                "error"@,
            ) is None ==> status == "completed"@
            &&& completed && own == Some("completed"@) && item.i64_at("exitCode"@) is None
                && item.get("error"@) is None ==> status == "completed"@
            &&& completed && own is None && (item.i64_at("exitCode"@) matches Some(code) && code
                != 0) ==> status == "failed"@
            &&& completed && own is None && (item.get("error"@) matches Some(e) && !(e is Null))
                ==> status == "failed"@
        }),
{
    reveal_strlit("completed");
    reveal_strlit("failed");
    reveal_strlit("declined");
    reveal_strlit("interrupted");
    assert("completed"@.len() == 9 && "failed"@.len() == 6 && "declined"@.len() == 8
        && "interrupted"@.len() == 11);
}

/// A command is shown by its own text, with its output under it and the exit
/// code behind the output when there is one.
pub proof fn lemma_command_output_is_shown(
    c: ControllerView,
    message: JsonView,
    params: JsonView,
    item: JsonView,
    local: Seq<char>,
    completed: bool,
    id: Seq<char>,
    command: Seq<char>,
    output: Seq<char>,
    now: Moment,
)
    requires
        notice_for(c, message, item_method(completed), params, local),
        params.get("item"@) == Some(item),
        c.state.thread_messages(local) is Some,
        item.text_at("type"@) == Some("commandExecution"@),
        item.text_at("id"@) == Some(id),
        item.text_at("command"@) == Some(command),
        item.text_at("aggregatedOutput"@) == Some(output),
        output.len() > 0,
    ensures
        ({
            let before = c.state.thread_messages(local)->0;
            let after = c.message_taken(message, now).state.thread_messages(local);
            let body = match item.i64_at("exitCode"@) {
                Some(code) => output + "\nExit code: "@ + signed_decimal(code as int),
                None => output,
            };
            &&& after is Some
            &&& others_kept(before, after->0, id)
            &&& shown(
                after->0,
                id,
                ItemKind::Command,
                command,
                body,
                status_of_item(item, completed),
            )
        }),
{
    lemma_item_types();
    lemma_item_taken(c, message, params, item, local, completed, local, now);
    lemma_ingested(c.state.thread_messages(local)->0, item, completed);
}

/// Two commands whose outputs differ are not shown alike.
pub proof fn lemma_outputs_tell_commands_apart(a: JsonView, b: JsonView)
    requires
        a.text_at("type"@) == Some("commandExecution"@),
        b.text_at("type"@) == Some("commandExecution"@),
        a.text_at("aggregatedOutput"@) is Some,
        b.text_at("aggregatedOutput"@) is Some,
        a.text_at("aggregatedOutput"@) != b.text_at("aggregatedOutput"@),
        a.i64_at("exitCode"@) is None,
        b.i64_at("exitCode"@) is None,
    ensures
        full_body(a) != full_body(b),
{
    lemma_item_types();
}

/// A message or a plan is shown with the text that it has.
pub proof fn lemma_message_text_is_shown(
    c: ControllerView,
    message: JsonView,
    params: JsonView,
    item: JsonView,
    local: Seq<char>,
    completed: bool,
    id: Seq<char>,
    text: Seq<char>,
    now: Moment,
)
    requires
        notice_for(c, message, item_method(completed), params, local),
        params.get("item"@) == Some(item),
        c.state.thread_messages(local) is Some,
        item.text_at("type"@) == Some("agentMessage"@) || item.text_at("type"@) == Some("plan"@),
        item.text_at("id"@) == Some(id),
        item.text_at("text"@) == Some(text),
        item.i64_at("exitCode"@) is None,
        text.len() > 0,
    ensures
        ({
            let before = c.state.thread_messages(local)->0;
            let after = c.message_taken(message, now).state.thread_messages(local);
            let plan = item.text_at("type"@) == Some("plan"@);
            &&& after is Some
            &&& others_kept(before, after->0, id)
            &&& shown(
                after->0,
                id,
                if plan {
                    ItemKind::Plan
                } else {
                    ItemKind::Assistant
                },
                if plan {
                    "Plan"@
                } else {
                    "Codex"@
                },
                text,
                status_of_item(item, completed),
            )
        }),
{
    lemma_item_types();
    lemma_item_taken(c, message, params, item, local, completed, local, now);
    lemma_ingested(c.state.thread_messages(local)->0, item, completed);
}

/// Texts as JSON.
pub open spec fn text_values(texts: Seq<Seq<char>>) -> Seq<JsonView> {
    Seq::new(texts.len(), |i: int| JsonView::Text(texts[i]))
}

proof fn lemma_plain_texts(texts: Seq<Seq<char>>)
    ensures
        plain_texts(text_values(texts)) == texts,
    decreases texts.len(),
{
    if texts.len() > 0 {
        lemma_plain_texts(texts.drop_last());
        assert(text_values(texts).drop_last() =~= text_values(texts.drop_last()));
        assert(texts.drop_last().push(texts.last()) =~= texts);
    } else {
        assert(plain_texts(text_values(texts)) =~= texts);
    }
}

/// Reasoning is shown with its summary and then its content, a line for each
/// text.
pub proof fn lemma_reasoning_is_shown(
    c: ControllerView,
    message: JsonView,
    params: JsonView,
    item: JsonView,
    local: Seq<char>,
    completed: bool,
    id: Seq<char>,
    summary: Seq<Seq<char>>,
    content: Seq<Seq<char>>,
    now: Moment,
)
    requires
        notice_for(c, message, item_method(completed), params, local),
        params.get("item"@) == Some(item),
        c.state.thread_messages(local) is Some,
        item.text_at("type"@) == Some("reasoning"@),
        item.text_at("id"@) == Some(id),
        item.get("summary"@) == Some(JsonView::Array(text_values(summary))),
        item.get("content"@) == Some(JsonView::Array(text_values(content))),
        item.i64_at("exitCode"@) is None,
        joined(summary + content, "\n"@).len() > 0,
    ensures
        ({
            let before = c.state.thread_messages(local)->0;
            let after = c.message_taken(message, now).state.thread_messages(local);
            &&& after is Some
            &&& others_kept(before, after->0, id)
            &&& shown(
                after->0,
                id,
                ItemKind::Reasoning,
                "Reasoning"@,
                joined(summary + content, "\n"@),
                status_of_item(item, completed),
            )
        }),
{
    lemma_item_types();
    lemma_plain_texts(summary);
    lemma_plain_texts(content);
    lemma_item_taken(c, message, params, item, local, completed, local, now);
    lemma_ingested(c.state.thread_messages(local)->0, item, completed);
}

/// Every changed file is shown with what happened to it and where it is.
pub proof fn lemma_changed_files_are_shown(
    c: ControllerView,
    message: JsonView,
    params: JsonView,
    item: JsonView,
    local: Seq<char>,
    completed: bool,
    id: Seq<char>,
    changes: Seq<JsonView>,
    i: int,
    kind: Seq<char>,
    path: Seq<char>,
    now: Moment,
)
    requires
        notice_for(c, message, item_method(completed), params, local),
        params.get("item"@) == Some(item),
        c.state.thread_messages(local) is Some,
        item.text_at("type"@) == Some("fileChange"@),
        item.text_at("id"@) == Some(id),
        item.get("changes"@) == Some(JsonView::Array(changes)),
        item.i64_at("exitCode"@) is None,
        0 <= i < changes.len(),
        changes[i].text_at("kind"@) == Some(kind),
        changes[i].text_at("path"@) == Some(path),
        path.len() > 0,
    ensures
        ({
            let before = c.state.thread_messages(local)->0;
            let after = c.message_taken(message, now).state.thread_messages(local);
            &&& after is Some
            &&& others_kept(before, after->0, id)
            &&& exists|body: Seq<char>|
                has_text(body, kind + ": "@ + path) && (changes.len() == 1 ==> body == kind + ": "@
                    + path) && #[trigger] shown(
                    after->0,
                    id,
                    ItemKind::FileChange,
                    "File changes"@,
                    body,
                    status_of_item(item, completed),
                )
        }),
{
    lemma_item_types();
    lemma_item_taken(c, message, params, item, local, completed, local, now);
    lemma_ingested(c.state.thread_messages(local)->0, item, completed);
    let parts = change_lines(changes);
    let body = joined(parts, "\n"@);
    assert(parts[i] == change_line(changes[i]));
    lemma_joined_has_part(parts, "\n"@, i);
    assert(body.len() > 0) by {
        let at = choose|at: int| 0 <= at <= body.len() && #[trigger] begins(body.skip(at), parts[i]);
        assert(parts[i].len() > 0);
    }
    let after = c.message_taken(message, now).state.thread_messages(local)->0;
    assert(shown(
        after,
        id,
        ItemKind::FileChange,
        "File changes"@,
        body,
        status_of_item(item, completed),
    ));
}

/// A tool call is shown under the name of the tool, with what it was given and
/// what came of it: its arguments, its result and its error, when they are
/// there, each under its name.
pub proof fn lemma_tool_call_is_shown(
    c: ControllerView,
    message: JsonView,
    params: JsonView,
    item: JsonView,
    local: Seq<char>,
    completed: bool,
    id: Seq<char>,
    tool: Seq<char>,
    field: Seq<char>,
    text: Seq<char>,
    now: Moment,
)
    requires
        notice_for(c, message, item_method(completed), params, local),
        params.get("item"@) == Some(item),
        c.state.thread_messages(local) is Some,
        item.text_at("type"@) == Some("mcpToolCall"@) || item.text_at("type"@) == Some(
            "dynamicToolCall"@,
        ) || item.text_at("type"@) == Some("collabAgentToolCall"@),
        item.text_at("id"@) == Some(id),
        item.text_at("tool"@) == Some(tool),
        field == "arguments"@ || field == "result"@ || field == "error"@,
        item.get(field) == Some(JsonView::Text(text)),
        item.i64_at("exitCode"@) is None,
    ensures
        ({
            let before = c.state.thread_messages(local)->0;
            let after = c.message_taken(message, now).state.thread_messages(local);
            &&& after is Some
            &&& others_kept(before, after->0, id)
            &&& exists|body: Seq<char>|
                has_text(body, field + ": "@ + text) && #[trigger] shown(
                    after->0,
                    id,
                    ItemKind::Tool,
                    tool,
                    body,
                    status_of_item(item, completed),
                )
        }),
{
    assert(is_tool_type(type_of_item(item)));
    lemma_item_types();
    lemma_item_taken(c, message, params, item, local, completed, local, now);
    lemma_ingested(c.state.thread_messages(local)->0, item, completed);
    let given = tool_part(item, "arguments"@);
    let found = tool_part(item, "result"@);
    let failed = tool_part(item, "error"@);
    let parts = given + found + failed;
    let at = if field == "arguments"@ {
        0int
    } else if field == "result"@ {
        given.len() as int
    } else {
        (given + found).len() as int
    };
    assert(parts[at] == field + ": "@ + text);
    let body = joined(parts, "\n\n"@);
    lemma_joined_has_part(parts, "\n\n"@, at);
    reveal_strlit(": ");
    assert(body.len() > 0) by {
        let k = choose|k: int| 0 <= k <= body.len() && #[trigger] begins(body.skip(k), parts[at]);
        assert(": "@.len() == 2);
        assert(parts[at].len() > 0);
    }
    let after = c.message_taken(message, now).state.thread_messages(local)->0;
    assert(full_body(item) == body);
    assert(shown(after, id, ItemKind::Tool, tool, body, status_of_item(item, completed)));
}

/// A message that the backend reports of the user is the one that was sent last
/// and not yet confirmed: it gets the id of the backend and stays as it was
/// written. No second entry comes of it.
pub proof fn lemma_own_message_is_confirmed(
    c: ControllerView,
    message: JsonView,
    params: JsonView,
    item: JsonView,
    local: Seq<char>,
    completed: bool,
    id: Seq<char>,
    k: int,
    now: Moment,
)
    requires
        notice_for(c, message, item_method(completed), params, local),
        params.get("item"@) == Some(item),
        c.state.thread_messages(local) is Some,
        item.text_at("type"@) == Some("userMessage"@),
        item.text_at("id"@) == Some(id),
        ({
            let before = c.state.thread_messages(local)->0;
            &&& 0 <= k < before.len()
            &&& begins(before[k].id, "local-user-"@)
            &&& forall|j: int| k < j < before.len() ==> !begins((#[trigger] before[j]).id, "local-user-"@)
        }),
    ensures
        ({
            let before = c.state.thread_messages(local)->0;
            let after = c.message_taken(message, now).state.thread_messages(local);
            &&& after is Some
            &&& after->0.len() == before.len()
            &&& after->0[k].id == id
            &&& after->0[k].kind == before[k].kind
            &&& after->0[k].body == before[k].body
            &&& after->0[k].attachments == before[k].attachments
            &&& forall|j: int|
                0 <= j < before.len() && j != k ==> (#[trigger] after->0[j]) == before[j]
        }),
{
    lemma_item_types();
    lemma_item_taken(c, message, params, item, local, completed, local, now);
    let before = c.state.thread_messages(local)->0;
    assert forall|j: int| k < j < before.len() implies !unconfirmed()(#[trigger] before[j]) by {
        assert(!begins(before[j].id, "local-user-"@));
    }
    lemma_last_where_is(before, unconfirmed(), k);
}

/// The methods under which text streams in, by the kind of entry that it is for.
pub open spec fn delta_method(method: Seq<char>) -> Option<ItemKind> {
    if method == "item/agentMessage/delta"@ {
        Some(ItemKind::Assistant)
    } else if method == "item/reasoning/summaryTextDelta"@ || method == "item/reasoning/textDelta"@ {
        Some(ItemKind::Reasoning)
    } else if method == "item/plan/delta"@ {
        Some(ItemKind::Plan)
    } else if method == "item/commandExecution/outputDelta"@ {
        Some(ItemKind::Command)
    } else {
        None
    }
}

proof fn lemma_delta_methods()
    ensures
        forall|m: Seq<char>| #[trigger]
            delta_method(m) is Some ==> m != "backend/exited"@ && m != "backend/protocolError"@ && m
                != "backend/stderr"@ && m != "item/started"@ && m != "item/completed"@,
        "item/agentMessage/delta"@ != "item/reasoning/summaryTextDelta"@,
        "item/agentMessage/delta"@ != "item/reasoning/textDelta"@,
        "item/agentMessage/delta"@ != "item/plan/delta"@,
        "item/agentMessage/delta"@ != "item/commandExecution/outputDelta"@,
        "item/plan/delta"@ != "item/reasoning/summaryTextDelta"@,
        "item/plan/delta"@ != "item/reasoning/textDelta"@,
        "item/plan/delta"@ != "item/commandExecution/outputDelta"@,
        "item/commandExecution/outputDelta"@ != "item/reasoning/summaryTextDelta"@,
        "item/commandExecution/outputDelta"@ != "item/reasoning/textDelta"@,
{
    reveal_strlit("backend/exited");
    assert("backend/exited"@.len() == 14);
    reveal_strlit("backend/protocolError");
    assert("backend/protocolError"@.len() == 21);
    reveal_strlit("backend/stderr");
    assert("backend/stderr"@.len() == 14);
    reveal_strlit("item/started");
    assert("item/started"@.len() == 12);
    reveal_strlit("item/completed");
    assert("item/completed"@.len() == 14);
    reveal_strlit("item/agentMessage/delta");
    assert("item/agentMessage/delta"@.len() == 23);
    reveal_strlit("item/reasoning/summaryTextDelta");
    assert("item/reasoning/summaryTextDelta"@.len() == 31);
    reveal_strlit("item/reasoning/textDelta");
    assert("item/reasoning/textDelta"@.len() == 24);
    reveal_strlit("item/plan/delta");
    assert("item/plan/delta"@.len() == 15);
    reveal_strlit("item/commandExecution/outputDelta");
    assert("item/commandExecution/outputDelta"@.len() == 33);
    assert("item/agentMessage/delta"@[5] != "item/reasoning/textDelta"@[5]);
    assert("item/commandExecution/outputDelta"@[5] != "item/reasoning/summaryTextDelta"@[5]);
}

/// Text that streams in is put behind what the entry holds, and nothing else of
/// the conversation changes. The first piece for an entry begins it.
pub proof fn lemma_streamed_text_is_appended(
    c: ControllerView,
    message: JsonView,
    method: Seq<char>,
    params: JsonView,
    local: Seq<char>,
    id: Seq<char>,
    delta: Seq<char>,
    k: int,
    now: Moment,
)
    requires
        delta_method(method) is Some,
        notice_for(c, message, method, params, local),
        c.state.thread_messages(local) is Some,
        params.text_at("itemId"@) == Some(id),
        params.text_at("delta"@) == Some(delta),
        ({
            let before = c.state.thread_messages(local)->0;
            &&& 0 <= k <= before.len()
            &&& forall|j: int| 0 <= j < k ==> (#[trigger] before[j]).id != id
            &&& k < before.len() ==> before[k].id == id
        }),
    ensures
        ({
            let before = c.state.thread_messages(local)->0;
            let r = c.message_taken(message, now);
            let after = r.state.thread_messages(local)->0;
            &&& r.outbox == c.outbox
            &&& r.state.thread_messages(local) is Some
            &&& others_kept(before, after, id)
            &&& after[k].id == id
            &&& k < before.len() ==> after.len() == before.len() && after[k].body == before[k].body
                + delta && after[k].kind == before[k].kind && after[k].status == before[k].status
            &&& k == before.len() ==> after.len() == k + 1 && after[k].body == delta && Some(
                after[k].kind,
            ) == delta_method(method) && after[k].status == "running"@
        }),
{
    reveal(ControllerView::message_taken);
    reveal(ControllerView::notified);
    reveal(ControllerView::plainly_notified);
    reveal(ControllerView::delta_reported);
    reveal(AppStateView::delta_taken);
    lemma_delta_methods();
    lemma_belongs(c.state.runtime_threads, params, local);
    let before = c.state.thread_messages(local)->0;
    let kind = delta_method(method)->0;
    let title = if kind == ItemKind::Assistant {
        "Codex"@
    } else if kind == ItemKind::Reasoning {
        "Reasoning"@
    } else if kind == ItemKind::Plan {
        "Plan"@
    } else {
        "Command"@
    };
    lemma_first_where(before, item_named(id));
    if k < before.len() {
        assert forall|j: int| 0 <= j < k implies !item_named(id)(#[trigger] before[j]) by {
            assert(before[j].id != id);
        }
        lemma_first_where_is(before, item_named(id), k);
    }
    lemma_messages_replaced(c.state, local, delta_appended(before, params, kind, title), local);
}

/// A request of the backend: it has an id of its own, a method and parameters.
pub open spec fn request_of_backend(
    message: JsonView,
    id: JsonView,
    method: Seq<char>,
    params: JsonView,
) -> bool {
    &&& message.get("id"@) == Some(id)
    &&& message.text_at("method"@) == Some(method)
    &&& message.get("params"@) == Some(params)
}

proof fn lemma_request_methods()
    ensures
        "item/fileChange/requestApproval"@ != "item/commandExecution/requestApproval"@,
        "item/fileChange/requestApproval"@ != "execCommandApproval"@,
        "applyPatchApproval"@ != "item/commandExecution/requestApproval"@,
        "applyPatchApproval"@ != "execCommandApproval"@,
        "item/tool/requestUserInput"@ != "item/commandExecution/requestApproval"@,
        "item/tool/requestUserInput"@ != "execCommandApproval"@,
        "item/tool/requestUserInput"@ != "item/fileChange/requestApproval"@,
        "item/tool/requestUserInput"@ != "applyPatchApproval"@,
{
    reveal_strlit("item/commandExecution/requestApproval");
    assert("item/commandExecution/requestApproval"@.len() == 37);
    reveal_strlit("execCommandApproval");
    assert("execCommandApproval"@.len() == 19);
    reveal_strlit("item/fileChange/requestApproval");
    assert("item/fileChange/requestApproval"@.len() == 31);
    reveal_strlit("applyPatchApproval");
    assert("applyPatchApproval"@.len() == 18);
    reveal_strlit("item/tool/requestUserInput");
    assert("item/tool/requestUserInput"@.len() == 26);
}

/// The user decides on what the backend asked for: a command is shown with its
/// text, its directory and the reason for it, and is to be answered under the id
/// and to the method of the request. It waits behind what is shown already.
pub proof fn lemma_command_request_is_shown(
    c: ControllerView,
    message: JsonView,
    id: JsonView,
    method: Seq<char>,
    params: JsonView,
    command: Seq<char>,
    now: Moment,
)
    requires
        request_of_backend(message, id, method, params),
        method == "item/commandExecution/requestApproval"@ || method == "execCommandApproval"@,
        params.get("command"@) == Some(JsonView::Text(command)),
        c.state.queues_valid(),
    ensures
        ({
            let r = c.message_taken(message, now);
            let waiting = r.state.waiting_approvals();
            let last = waiting.last();
            &&& r.outbox == c.outbox
            &&& waiting.len() == c.state.waiting_approvals().len() + 1
            &&& waiting.drop_last() == c.state.waiting_approvals()
            &&& last.request_id == id
            &&& last.method == method
            &&& last.title == "Run command?"@
            &&& has_text(last.detail, command)
            &&& params.text_at("cwd"@) matches Some(cwd) ==> has_text(last.detail, cwd)
            &&& params.text_at("reason"@) matches Some(reason) ==> ends(last.detail, reason)
            &&& params.text_at("threadId"@) matches Some(thread) ==> forall|local: Seq<char>|
                #[trigger] belongs(c.state.runtime_threads, local, thread) ==> last.local_thread_id
                    == Some(local)
        }),
{
    reveal(ControllerView::message_taken);
    reveal(ControllerView::server_requested);
    reveal(AppStateView::approval_enqueued);
    lemma_approvals_in_order(c.state, command_approval(c.state, method, id, params));
    let last = command_approval(c.state, method, id, params);
    let waiting = c.message_taken(message, now).state.waiting_approvals();
    assert(waiting.drop_last() =~= c.state.waiting_approvals());
    let local = local_of(c.state.runtime_threads, params);
    let origin = origin_of(c.state, local) + "\n\n"@;
    let cwd = text_or_empty(params.text_at("cwd"@));
    let reason = text_or(
        params.text_at("reason"@),
        "Codex needs permission to run this command."@,
    );
    let middle = "\n\nWorking directory: "@;
    lemma_has_itself(command);
    lemma_has_text_within(origin, command, middle + cwd + "\n"@ + reason, command);
    assert(origin + command + (middle + cwd + "\n"@ + reason) =~= last.detail);
    lemma_has_itself(cwd);
    lemma_has_text_within(origin + command + middle, cwd, "\n"@ + reason, cwd);
    assert(origin + command + middle + cwd + ("\n"@ + reason) =~= last.detail);
    assert(last.detail.skip(last.detail.len() - reason.len()) =~= reason);
    if params.text_at("threadId"@) is Some {
        assert forall|local: Seq<char>| #[trigger]
            belongs(
                c.state.runtime_threads,
                local,
                params.text_at("threadId"@)->0,
            ) implies last.local_thread_id == Some(local) by {
            lemma_belongs(c.state.runtime_threads, params, local);
        }
    }
}

/// A change of files that the backend asks for is shown with the reason for it
/// and its target, and is to be answered under the id and to the method of the
/// request.
pub proof fn lemma_change_request_is_shown(
    c: ControllerView,
    message: JsonView,
    id: JsonView,
    method: Seq<char>,
    params: JsonView,
    now: Moment,
)
    requires
        request_of_backend(message, id, method, params),
        method == "item/fileChange/requestApproval"@ || method == "applyPatchApproval"@,
        c.state.queues_valid(),
    ensures
        ({
            let r = c.message_taken(message, now);
            let waiting = r.state.waiting_approvals();
            let last = waiting.last();
            &&& r.outbox == c.outbox
            &&& waiting.len() == c.state.waiting_approvals().len() + 1
            &&& waiting.drop_last() == c.state.waiting_approvals()
            &&& last.request_id == id
            &&& last.method == method
            &&& last.title == "Apply file changes?"@
            &&& params.text_at("reason"@) matches Some(reason) ==> has_text(last.detail, reason)
            &&& params.text_at("grantRoot"@) matches Some(root) ==> ends(last.detail, root)
        }),
{
    reveal(ControllerView::message_taken);
    reveal(ControllerView::server_requested);
    reveal(AppStateView::approval_enqueued);
    lemma_request_methods();
    let last = change_approval(c.state, method, id, params);
    lemma_approvals_in_order(c.state, last);
    let waiting = c.message_taken(message, now).state.waiting_approvals();
    assert(waiting.drop_last() =~= c.state.waiting_approvals());
    let local = local_of(c.state.runtime_threads, params);
    let origin = origin_of(c.state, local) + "\n\n"@;
    let reason = text_or(
        params.text_at("reason"@),
        "Codex wants to edit files in this workspace."@,
    );
    let root = text_or(params.text_at("grantRoot"@), "See requesting workspace above"@);
    lemma_has_itself(reason);
    lemma_has_text_within(origin, reason, "\n\nTarget: "@ + root, reason);
    assert(origin + reason + ("\n\nTarget: "@ + root) =~= last.detail);
    assert(last.detail.skip(last.detail.len() - root.len()) =~= root);
}

proof fn lemma_questions_read(values: Seq<JsonView>)
    requires
        forall|i: int| 0 <= i < values.len() ==> (#[trigger] values[i]).text_at("id"@) is Some,
    ensures
        questions_of(values).len() == values.len(),
        forall|i: int|
            0 <= i < values.len() ==> Some(#[trigger] questions_of(values)[i]) == question_of(
                values[i],
            ),
    decreases values.len(),
{
    if values.len() > 0 {
        let front = values.drop_last();
        assert forall|i: int| 0 <= i < front.len() implies (#[trigger] front[i]).text_at("id"@) is Some by {
            assert(front[i] == values[i]);
        }
        lemma_questions_read(front);
        assert(values.last().text_at("id"@) is Some);
        assert forall|i: int| 0 <= i < values.len() implies Some(
            #[trigger] questions_of(values)[i],
        ) == question_of(values[i]) by {
            if i < front.len() {
                assert(questions_of(values)[i] == questions_of(front)[i]);
                assert(front[i] == values[i]);
            }
        }
    }
}

proof fn lemma_options_read(values: Seq<JsonView>)
    requires
        forall|i: int| 0 <= i < values.len() ==> (#[trigger] values[i]).text_at("label"@) is Some,
    ensures
        options_of(values).len() == values.len(),
        forall|i: int|
            0 <= i < values.len() ==> Some((#[trigger] options_of(values)[i]).0)
                == values[i].text_at("label"@) && options_of(values)[i].1 == text_or_empty(
                values[i].text_at("description"@),
            ),
    decreases values.len(),
{
    if values.len() > 0 {
        let front = values.drop_last();
        assert forall|i: int| 0 <= i < front.len() implies (#[trigger] front[i]).text_at("label"@) is Some by {
            assert(front[i] == values[i]);
        }
        lemma_options_read(front);
        assert(values.last().text_at("label"@) is Some);
        assert forall|i: int| 0 <= i < values.len() implies Some(
            (#[trigger] options_of(values)[i]).0,
        ) == values[i].text_at("label"@) && options_of(values)[i].1 == text_or_empty(
            values[i].text_at("description"@),
        ) by {
            if i < front.len() {
                assert(options_of(values)[i] == options_of(front)[i]);
                assert(front[i] == values[i]);
            }
        }
    }
}

/// Questions of the backend are shown in their order, each with its id, its text
/// and its options, not answered yet, and are to be answered under the id of the
/// request.
pub proof fn lemma_questions_are_shown(
    c: ControllerView,
    message: JsonView,
    id: JsonView,
    params: JsonView,
    values: Seq<JsonView>,
    i: int,
    now: Moment,
)
    requires
        request_of_backend(message, id, "item/tool/requestUserInput"@, params),
        params.get("questions"@) == Some(JsonView::Array(values)),
        forall|j: int| 0 <= j < values.len() ==> (#[trigger] values[j]).text_at("id"@) is Some,
        0 <= i < values.len(),
        c.state.queues_valid(),
    ensures
        ({
            let r = c.message_taken(message, now);
            let waiting = r.state.waiting_questions();
            let last = waiting.last();
            let question = last.questions[i];
            &&& r.outbox == c.outbox
            &&& waiting.len() == c.state.waiting_questions().len() + 1
            &&& waiting.drop_last() == c.state.waiting_questions()
            &&& last.request_id == id
            &&& last.questions.len() == values.len()
            &&& Some(question.id) == values[i].text_at("id"@)
            &&& values[i].text_at("question"@) is Some ==> Some(question.question)
                == values[i].text_at("question"@)
            &&& values[i].text_at("header"@) is Some ==> Some(question.header) == values[i].text_at(
                "header"@,
            )
            &&& question.answer.len() == 0
            &&& question.secret == (values[i].bool_at("isSecret"@) == Some(true))
        }),
        values[i].array_at("options"@) matches Some(options) ==> (forall|j: int|
            0 <= j < options.len() ==> (#[trigger] options[j]).text_at("label"@) is Some) ==> ({
            let shown = c.message_taken(message, now).state.waiting_questions().last().questions[i].options;
            &&& shown.len() == options.len()
            &&& forall|j: int|
                0 <= j < options.len() ==> Some((#[trigger] shown[j]).0) == options[j].text_at(
                    "label"@,
                ) && shown[j].1 == text_or_empty(options[j].text_at("description"@))
        }),
{
    reveal(ControllerView::message_taken);
    reveal(ControllerView::server_requested);
    reveal(AppStateView::question_enqueued);
    lemma_request_methods();
    lemma_questions_read(values);
    let asked = QuestionRequestView {
        request_id: id,
        local_thread_id: local_of(c.state.runtime_threads, params),
        questions: questions_of(values),
    };
    lemma_questions_in_order(c.state, asked);
    let waiting = c.message_taken(message, now).state.waiting_questions();
    assert(waiting.drop_last() =~= c.state.waiting_questions());
    assert(Some(questions_of(values)[i]) == question_of(values[i]));
    if values[i].array_at("options"@) is Some {
        let options = values[i].array_at("options"@)->0;
        if forall|j: int|
            0 <= j < options.len() ==> (#[trigger] options[j]).text_at("label"@) is Some {
            lemma_options_read(options);
        }
    }
}

/// A request tells where it comes from: the project, the thread and the directory
/// of the thread that made it.
pub proof fn lemma_request_tells_where_it_comes_from(
    s: AppStateView,
    local: Seq<char>,
    i: int,
    p: int,
)
    requires
        thread_at(s.threads, local) == Some(i),
        project_at(s.projects, s.threads[i].project_id) == Some(p),
    ensures
        ({
            let told = origin_of(s, Some(local));
            &&& begins(told, s.projects[p].name)
            &&& has_text(told, s.threads[i].title)
            &&& ends(told, s.projects[p].path)
        }),
{
    let name = s.projects[p].name;
    let title = s.threads[i].title;
    let path = s.projects[p].path;
    let told = origin_of(s, Some(local));
    assert(told.take(name.len() as int) =~= name);
    lemma_has_itself(title);
    lemma_has_text_within(name + " — "@, title, "\n"@ + path, title);
    assert(name + " — "@ + title + ("\n"@ + path) =~= told);
    assert(told.skip(told.len() - path.len()) =~= path);
}

/// What ran is folded once it is finished, and what was said is not; an entry
/// that is folded stays so.
pub proof fn lemma_finished_work_is_folded(
    entry: ConversationItemView,
    kind: ItemKind,
    title: Seq<char>,
    body: Seq<char>,
    status: Seq<char>,
    completed: bool,
)
    ensures
        ({
            let ran = kind == ItemKind::Command || kind == ItemKind::Tool || kind
                == ItemKind::FileChange || kind == ItemKind::Plan;
            &&& entry_for(entry.id, kind, title, body, status, completed).collapsed == (completed
                && ran)
            &&& updated_item(entry, kind, title, body, status, completed).collapsed == (
            entry.collapsed || completed && ran)
            &&& entry_for(entry.id, kind, title, body, status, completed).body == body
            &&& entry_for(entry.id, kind, title, body, status, completed).id == entry.id
            &&& updated_item(entry, kind, title, body, status, completed).id == entry.id
            &&& updated_item(entry, kind, title, body, status, completed).attachments
                == entry.attachments
        }),
{
}

/// A search of the web is shown as the use of a tool, and what has a type of its
/// own that is not known is shown all the same.
pub proof fn lemma_other_items_are_shown(item: JsonView, name: Seq<char>)
    requires
        type_of_item(item) == name,
    ensures
        name == "webSearch"@ ==> kind_of_type(name) == ItemKind::Tool && title_of_item(item, name)
            == "Web search"@ && body_of_item(item, name) == value_text(item),
{
    reveal_strlit("webSearch");
    assert("webSearch"@.len() == 9);
    reveal_strlit("userMessage");
    assert("userMessage"@.len() == 11);
    reveal_strlit("agentMessage");
    assert("agentMessage"@.len() == 12);
    reveal_strlit("reasoning");
    assert("reasoning"@.len() == 9);
    reveal_strlit("plan");
    assert("plan"@.len() == 4);
    reveal_strlit("commandExecution");
    assert("commandExecution"@.len() == 16);
    reveal_strlit("fileChange");
    assert("fileChange"@.len() == 10);
    reveal_strlit("mcpToolCall");
    assert("mcpToolCall"@.len() == 11);
    reveal_strlit("dynamicToolCall");
    assert("dynamicToolCall"@.len() == 15);
    reveal_strlit("collabAgentToolCall");
    assert("collabAgentToolCall"@.len() == 19);
    assert("webSearch"@[0] == 'w' && "reasoning"@[0] == 'r');
}

} // verus!
