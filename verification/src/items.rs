//! Conversation entries as the backend reports them.
use crate::formatting::{humanize, words_of};
use crate::json::{Json, JsonView};
use crate::json_text::{canonical, pretty_json, write_json_pretty};
use crate::model::{new_item, owned_or, owned_or_empty, text_or, text_or_empty, ConversationItem, ConversationItemView, ItemKind};
use crate::state::{find_item, folds, item_at, kind_folds};
use crate::table::{last_where, lemma_last_where_is, lemma_last_where_none};
use crate::text::{
    begins, cat3, join, joined, same_text, signed_decimal, signed_decimal_text, starts_with,
};
use vstd::prelude::*;
use vstd::string::*;

verus! {

/// A value as text: a string as it is, anything else as indented JSON.
pub open spec fn value_text(value: JsonView) -> Seq<char> {
    match value {
        JsonView::Text(t) => t,
        _ => pretty_json(canonical(value)),
    }
}

pub fn value_to_text(value: &Json) -> (r: String)
    ensures
        r@ == value_text(value.deep_view()),
{
    match value {
        Json::Text(t) => t.clone(),
        _ => write_json_pretty(value),
    }
}

/// The texts under a key of those values that have one.
pub open spec fn member_texts(values: Seq<JsonView>, key: Seq<char>) -> Seq<Seq<char>>
    decreases values.len(),
{
    if values.len() == 0 {
        Seq::empty()
    } else {
        let before = member_texts(values.drop_last(), key);
        match values.last().text_at(key) {
            Some(t) => before.push(t),
            None => before,
        }
    }
}

pub fn texts_under(values: &Vec<Json>, key: &str) -> (r: Vec<String>)
    ensures
        r.deep_view() == member_texts(values.deep_view(), key@),
{
    let ghost all = values.deep_view();
    let mut out: Vec<String> = Vec::new();
    let mut i: usize = 0;
    assert(out.deep_view() =~= member_texts(all.take(0), key@));
    while i < values.len()
        invariant
            i <= values@.len(),
            all == values.deep_view(),
            out.deep_view() == member_texts(all.take(i as int), key@),
        decreases values@.len() - i,
    {
        assert(all.take(i as int + 1).drop_last() =~= all.take(i as int));
        let ghost before = out.deep_view();
        match values[i].text_at(key) {
            Some(t) => {
                out.push(t.to_owned());
                assert(out.deep_view() =~= before.push(t@));
            },
            None => {},
        }
        i += 1;
    }
    assert(all.take(i as int) =~= all);
    out
}

/// Those of the values that are texts.
pub open spec fn plain_texts(values: Seq<JsonView>) -> Seq<Seq<char>>
    decreases values.len(),
{
    if values.len() == 0 {
        Seq::empty()
    } else {
        let before = plain_texts(values.drop_last());
        match values.last().as_text() {
            Some(t) => before.push(t),
            None => before,
        }
    }
}

fn texts_among(values: &Vec<Json>) -> (r: Vec<String>)
    ensures
        r.deep_view() == plain_texts(values.deep_view()),
{
    let ghost all = values.deep_view();
    let mut out: Vec<String> = Vec::new();
    let mut i: usize = 0;
    assert(out.deep_view() =~= plain_texts(all.take(0)));
    while i < values.len()
        invariant
            i <= values@.len(),
            all == values.deep_view(),
            out.deep_view() == plain_texts(all.take(i as int)),
        decreases values@.len() - i,
    {
        assert(all.take(i as int + 1).drop_last() =~= all.take(i as int));
        let ghost before = out.deep_view();
        match values[i].as_text() {
            Some(t) => {
                out.push(t.to_owned());
                assert(out.deep_view() =~= before.push(t@));
            },
            None => {},
        }
        i += 1;
    }
    assert(all.take(i as int) =~= all);
    out
}

/// The items of an array under a key, none without one.
pub open spec fn values_at(item: JsonView, key: Seq<char>) -> Seq<JsonView> {
    match item.array_at(key) {
        Some(values) => values,
        None => Seq::empty(),
    }
}

/// One changed file: what happened and where.
pub open spec fn change_line(change: JsonView) -> Seq<char> {
    text_or(change.text_at("kind"@), "update"@) + ": "@ + text_or(change.text_at("path"@), "file"@)
}

pub open spec fn change_lines(changes: Seq<JsonView>) -> Seq<Seq<char>> {
    Seq::new(changes.len(), |i: int| change_line(changes[i]))
}

fn lines_of_changes(changes: &Vec<Json>) -> (r: Vec<String>)
    ensures
        r.deep_view() == change_lines(changes.deep_view()),
{
    let mut out: Vec<String> = Vec::new();
    let mut i: usize = 0;
    while i < changes.len()
        invariant
            i <= changes@.len(),
            out@.len() == i,
            forall|j: int| 0 <= j < i ==> (#[trigger] out@[j])@ == change_line(changes@[j].deep_view()),
        decreases changes@.len() - i,
    {
        let kind = owned_or(changes[i].text_at("kind"), "update");
        let path = owned_or(changes[i].text_at("path"), "file");
        out.push(cat3(kind.as_str(), ": ", path.as_str()));
        i += 1;
    }
    assert(out.deep_view() =~= change_lines(changes.deep_view()));
    out
}

/// One part of a tool call, when it is there.
pub open spec fn tool_part(item: JsonView, field: Seq<char>) -> Seq<Seq<char>> {
    match item.present(field) {
        Some(value) => seq![field + ": "@ + value_text(value)],
        None => Seq::empty(),
    }
}

fn push_tool_part(out: Vec<String>, item: &Json, field: &str) -> (r: Vec<String>)
    ensures
        r.deep_view() == out.deep_view() + tool_part(item.deep_view(), field@),
{
    let ghost before = out.deep_view();
    let mut r = out;
    match item.present(field) {
        Some(value) => {
            let text = value_to_text(value);
            r.push(cat3(field, ": ", text.as_str()));
        },
        None => {},
    }
    assert(r.deep_view() =~= before + tool_part(item.deep_view(), field@));
    r
}

/// The kind of entry that a type of item makes.
pub open spec fn kind_of_type(name: Seq<char>) -> ItemKind {
    if name == "userMessage"@ {
        ItemKind::User
    } else if name == "agentMessage"@ {
        ItemKind::Assistant
    } else if name == "reasoning"@ {
        ItemKind::Reasoning
    } else if name == "plan"@ {
        ItemKind::Plan
    } else if name == "commandExecution"@ {
        ItemKind::Command
    } else if name == "fileChange"@ {
        ItemKind::FileChange
    } else if is_tool_type(name) || name == "webSearch"@ {
        ItemKind::Tool
    } else {
        ItemKind::System
    }
}

/// The types of item that call a tool.
pub open spec fn is_tool_type(name: Seq<char>) -> bool {
    name == "mcpToolCall"@ || name == "dynamicToolCall"@ || name == "collabAgentToolCall"@
}

fn is_tool_name(name: &str) -> (r: bool)
    ensures
        r == is_tool_type(name@),
{
    same_text(name, "mcpToolCall") || same_text(name, "dynamicToolCall") || same_text(
        name,
        "collabAgentToolCall",
    )
}

/// The heading of an entry.
pub open spec fn title_of_item(item: JsonView, name: Seq<char>) -> Seq<char> {
    if name == "userMessage"@ {
        "You"@
    } else if name == "agentMessage"@ {
        "Codex"@
    } else if name == "reasoning"@ {
        "Reasoning"@
    } else if name == "plan"@ {
        "Plan"@
    } else if name == "commandExecution"@ {
        text_or(item.text_at("command"@), "Command"@)
    } else if name == "fileChange"@ {
        "File changes"@
    } else if is_tool_type(name) {
        text_or(item.text_at("tool"@), "Tool"@)
    } else if name == "webSearch"@ {
        "Web search"@
    } else {
        words_of(name)
    }
}

/// The content of an entry, before an exit code.
pub open spec fn body_of_item(item: JsonView, name: Seq<char>) -> Seq<char> {
    if name == "userMessage"@ {
        joined(member_texts(values_at(item, "content"@), "text"@), "\n"@)
    } else if name == "agentMessage"@ || name == "plan"@ {
        text_or_empty(item.text_at("text"@))
    } else if name == "reasoning"@ {
        joined(
            plain_texts(values_at(item, "summary"@)) + plain_texts(values_at(item, "content"@)),
            "\n"@,
        )
    } else if name == "commandExecution"@ {
        text_or_empty(item.text_at("aggregatedOutput"@))
    } else if name == "fileChange"@ {
        joined(change_lines(values_at(item, "changes"@)), "\n"@)
    } else if is_tool_type(name) {
        joined(
            tool_part(item, "arguments"@) + tool_part(item, "result"@) + tool_part(item, "error"@),
            "\n\n"@,
        )
    } else {
        value_text(item)
    }
}

fn kind_of(name: &str) -> (r: ItemKind)
    ensures
        r == kind_of_type(name@),
{
    if same_text(name, "userMessage") {
        ItemKind::User
    } else if same_text(name, "agentMessage") {
        ItemKind::Assistant
    } else if same_text(name, "reasoning") {
        ItemKind::Reasoning
    } else if same_text(name, "plan") {
        ItemKind::Plan
    } else if same_text(name, "commandExecution") {
        ItemKind::Command
    } else if same_text(name, "fileChange") {
        ItemKind::FileChange
    } else if is_tool_name(name) || same_text(name, "webSearch") {
        ItemKind::Tool
    } else {
        ItemKind::System
    }
}

fn item_title(item: &Json, name: &str) -> (r: String)
    ensures
        r@ == title_of_item(item.deep_view(), name@),
{
    if same_text(name, "userMessage") {
        "You".to_owned()
    } else if same_text(name, "agentMessage") {
        "Codex".to_owned()
    } else if same_text(name, "reasoning") {
        "Reasoning".to_owned()
    } else if same_text(name, "plan") {
        "Plan".to_owned()
    } else if same_text(name, "commandExecution") {
        owned_or(item.text_at("command"), "Command")
    } else if same_text(name, "fileChange") {
        "File changes".to_owned()
    } else if is_tool_name(name) {
        owned_or(item.text_at("tool"), "Tool")
    } else if same_text(name, "webSearch") {
        "Web search".to_owned()
    } else {
        humanize(name)
    }
}

fn array_under(item: &Json, key: &str) -> (r: Vec<Json>)
    ensures
        r.deep_view() == values_at(item.deep_view(), key@),
{
    match item.array_at(key) {
        Some(values) => {
            let r = values.clone();
            assert(r.deep_view() =~= values.deep_view());
            r
        },
        None => {
            let r: Vec<Json> = Vec::new();
            assert(r.deep_view() =~= Seq::empty());
            r
        },
    }
}

fn item_body(item: &Json, name: &str) -> (r: String)
    ensures
        r@ == body_of_item(item.deep_view(), name@),
{
    if same_text(name, "userMessage") {
        join(&texts_under(&array_under(item, "content"), "text"), "\n")
    } else if same_text(name, "agentMessage") || same_text(name, "plan") {
        owned_or_empty(item.text_at("text"))
    } else if same_text(name, "reasoning") {
        let mut texts = texts_among(&array_under(item, "summary"));
        let ghost first = texts.deep_view();
        let mut more = texts_among(&array_under(item, "content"));
        let ghost second = more.deep_view();
        texts.append(&mut more);
        assert(texts.deep_view() =~= first + second);
        join(&texts, "\n")
    } else if same_text(name, "commandExecution") {
        owned_or_empty(item.text_at("aggregatedOutput"))
    } else if same_text(name, "fileChange") {
        join(&lines_of_changes(&array_under(item, "changes")), "\n")
    } else if is_tool_name(name) {
        let none: Vec<String> = Vec::new();
        assert(none.deep_view() =~= Seq::empty());
        let parts = push_tool_part(none, item, "arguments");
        let parts = push_tool_part(parts, item, "result");
        let parts = push_tool_part(parts, item, "error");
        assert(parts.deep_view() =~= tool_part(item.deep_view(), "arguments"@) + tool_part(
            item.deep_view(),
            "result"@,
        ) + tool_part(item.deep_view(), "error"@));
        join(&parts, "\n\n")
    } else {
        value_to_text(item)
    }
}

/// The body with the exit code of a command behind it.
pub open spec fn with_exit_code(body: Seq<char>, code: Option<i64>) -> Seq<char> {
    match code {
        Some(code) => body + "\nExit code: "@ + signed_decimal(code as int),
        None => body,
    }
}

/// What the entry of an item holds besides its title.
pub open spec fn full_body(item: JsonView) -> Seq<char> {
    with_exit_code(body_of_item(item, type_of_item(item)), item.i64_at("exitCode"@))
}

fn item_full_body(item: &Json) -> (r: String)
    ensures
        r@ == full_body(item.deep_view()),
{
    let name = owned_or(item.text_at("type"), "system");
    let body = item_body(item, name.as_str());
    match item.i64_at("exitCode") {
        Some(code) => cat3(body.as_str(), "\nExit code: ", signed_decimal_text(code).as_str()),
        None => body,
    }
}

/// How an item stands. A finished one that failed, was declined or interrupted
/// says so itself; a nonzero exit code or an error also means that it failed.
pub open spec fn status_of_item(item: JsonView, completed: bool) -> Seq<char> {
    let own = item.text_at("status"@);
    if !completed {
        "running"@
    } else if own == Some("failed"@) || own == Some("declined"@) || own == Some("interrupted"@) {
        own->0
    } else if (item.i64_at("exitCode"@) matches Some(code) && code != 0) || item.present(
        "error"@,
    ) is Some {
        "failed"@
    } else {
        "completed"@
    }
}

fn item_status(item: &Json, completed: bool) -> (r: String)
    ensures
        r@ == status_of_item(item.deep_view(), completed),
{
    if !completed {
        return "running".to_owned();
    }
    match item.text_at("status") {
        Some(own) => if same_text(own, "failed") || same_text(own, "declined") || same_text(
            own,
            "interrupted",
        ) {
            return own.to_owned();
        },
        None => {},
    }
    let nonzero = match item.i64_at("exitCode") {
        Some(code) => code != 0,
        None => false,
    };
    if nonzero || item.present("error").is_some() {
        "failed".to_owned()
    } else {
        "completed".to_owned()
    }
}

/// The type of an item.
pub open spec fn type_of_item(item: JsonView) -> Seq<char> {
    text_or(item.text_at("type"@), "system"@)
}

/// The id of an item.
pub open spec fn id_of_item(item: JsonView) -> Seq<char> {
    text_or(item.text_at("id"@), "unknown-item"@)
}

/// Entries of the user that the backend has not confirmed yet.
pub open spec fn unconfirmed() -> spec_fn(ConversationItemView) -> bool {
    |i: ConversationItemView| begins(i.id, "local-user-"@)
}

/// An entry brought up to date with its item.
pub open spec fn updated_item(
    entry: ConversationItemView,
    kind: ItemKind,
    title: Seq<char>,
    body: Seq<char>,
    status: Seq<char>,
    completed: bool,
) -> ConversationItemView {
    ConversationItemView {
        kind,
        title,
        body: if body.len() > 0 && kind != ItemKind::User {
            body
        } else {
            entry.body
        },
        status,
        collapsed: entry.collapsed || (completed && folds(kind)),
        ..entry
    }
}

/// A new entry for an item.
pub open spec fn entry_for(
    id: Seq<char>,
    kind: ItemKind,
    title: Seq<char>,
    body: Seq<char>,
    status: Seq<char>,
    completed: bool,
) -> ConversationItemView {
    ConversationItemView {
        body,
        status,
        collapsed: completed && folds(kind),
        ..new_item(id, kind, title)
    }
}

/// The messages after an item was reported: a message of the user confirms the
/// last one that was sent, a known item is brought up to date, another one is
/// added.
pub open spec fn item_ingested(
    messages: Seq<ConversationItemView>,
    item: JsonView,
    completed: bool,
) -> Seq<ConversationItemView> {
    let id = id_of_item(item);
    let kind = kind_of_type(type_of_item(item));
    let title = title_of_item(item, type_of_item(item));
    let body = full_body(item);
    let status = status_of_item(item, completed);
    let local = last_where(messages, unconfirmed());
    if kind == ItemKind::User && local is Some {
        messages.update(
            local->0,
            ConversationItemView { id, status, ..messages[local->0] },
        )
    } else {
        match item_at(messages, id) {
            Some(i) => messages.update(
                i,
                updated_item(messages[i], kind, title, body, status, completed),
            ),
            None => messages.push(entry_for(id, kind, title, body, status, completed)),
        }
    }
}

fn find_unconfirmed(messages: &Vec<ConversationItem>) -> (r: Option<usize>)
    ensures
        match r {
            Some(i) => i < messages@.len() && last_where(messages.deep_view(), unconfirmed())
                == Some(i as int),
            None => last_where(messages.deep_view(), unconfirmed()) is None,
        },
{
    let ghost all = messages.deep_view();
    let mut i: usize = messages.len();
    while i > 0
        invariant
            i <= messages@.len(),
            all == messages.deep_view(),
            forall|j: int| i <= j < all.len() ==> !unconfirmed()(#[trigger] all[j]),
        decreases i,
    {
        i -= 1;
        assert(all[i as int] == messages@[i as int].deep_view());
        if starts_with(messages[i].id.as_str(), "local-user-") {
            proof {
                lemma_last_where_is(all, unconfirmed(), i as int);
            }
            return Some(i);
        }
    }
    proof {
        lemma_last_where_none(all, unconfirmed());
    }
    None
}

/// Takes an item that the backend reported into the messages.
pub fn ingest_into(messages: &mut Vec<ConversationItem>, item: &Json, completed: bool)
    ensures
        final(messages).deep_view() == item_ingested(
            old(messages).deep_view(),
            item.deep_view(),
            completed,
        ),
{
    let ghost before = messages.deep_view();
    let id = owned_or(item.text_at("id"), "unknown-item");
    let name = owned_or(item.text_at("type"), "system");
    let kind = kind_of(name.as_str());
    let title = item_title(item, name.as_str());
    let body = item_full_body(item);
    let status = item_status(item, completed);
    if kind == ItemKind::User {
        match find_unconfirmed(messages) {
            Some(i) => {
                messages[i].id = id;
                messages[i].status = status;
                assert(messages.deep_view() =~= item_ingested(before, item.deep_view(), completed));
                return;
            },
            None => {},
        }
    }
    match find_item(messages, id.as_str()) {
        Some(i) => {
            messages[i].kind = kind;
            messages[i].title = title;
            if !body.as_str().is_empty() && kind != ItemKind::User {
                messages[i].body = body;
            }
            messages[i].status = status;
            if completed && kind_folds(kind) {
                messages[i].collapsed = true;
            }
            assert(messages.deep_view() =~= item_ingested(before, item.deep_view(), completed));
        },
        None => {
            let mut entry = ConversationItem::new(id.as_str(), kind, title.as_str());
            entry.body = body;
            entry.status = status;
            entry.collapsed = completed && kind_folds(kind);
            messages.push(entry);
            assert(messages.deep_view() =~= item_ingested(before, item.deep_view(), completed));
        },
    }
}

/// The messages after a piece of an entry's text came in.
pub open spec fn delta_appended(
    messages: Seq<ConversationItemView>,
    params: JsonView,
    kind: ItemKind,
    title: Seq<char>,
) -> Seq<ConversationItemView> {
    let id = text_or(params.text_at("itemId"@), "streaming"@);
    let delta = text_or_empty(params.text_at("delta"@));
    match item_at(messages, id) {
        Some(i) => messages.update(
            i,
            ConversationItemView { body: messages[i].body + delta, ..messages[i] },
        ),
        None => messages.push(ConversationItemView { body: delta, ..new_item(id, kind, title) }),
    }
}

/// Appends a piece of text to the entry it belongs to, or starts that entry.
pub fn append_delta_to(
    messages: &mut Vec<ConversationItem>,
    params: &Json,
    kind: ItemKind,
    title: &str,
)
    ensures
        final(messages).deep_view() == delta_appended(
            old(messages).deep_view(),
            params.deep_view(),
            kind,
            title@,
        ),
{
    let ghost before = messages.deep_view();
    let id = owned_or(params.text_at("itemId"), "streaming");
    let delta = owned_or_empty(params.text_at("delta"));
    match find_item(messages, id.as_str()) {
        Some(i) => {
            messages[i].body.append(delta.as_str());
        },
        None => {
            let mut item = ConversationItem::new(id.as_str(), kind, title);
            item.body = delta;
            messages.push(item);
        },
    }
    assert(messages.deep_view() =~= delta_appended(before, params.deep_view(), kind, title@));
}

} // verus!
