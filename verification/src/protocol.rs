//! Messages to and from the backend: lines of JSON, the parameters of a turn,
//! and the routing of messages to an embedded client.
use crate::json::{object, object1, Json, JsonView};
use crate::json_text::{
    canonical, compact_json, integral, nests_within, parse_json, parsed_json, write_json,
};
use crate::text::{blank, cat, cat3, is_blank, same_text};
use vstd::prelude::*;
use vstd::string::*;

verus! {

/// Writes a message as one line of JSON. The line feed at its end is the only
/// one in it, and what stands before it reads back as the message.
pub fn encode_message(message: &Json) -> (r: Result<Vec<u8>, String>)
    ensures
        r is Ok,
        r->Ok_0@ == compact_json(canonical(message.deep_view())).push(10u8),
        forall|i: int| 0 <= i < r->Ok_0@.len() - 1 ==> r->Ok_0@[i] != 10u8,
        integral(canonical(message.deep_view())) && nests_within(
            canonical(message.deep_view()),
            127,
        ) ==> (parsed_json(r->Ok_0@.drop_last()) matches Ok(v) && v == canonical(
            message.deep_view(),
        )),
{
    let mut bytes = write_json(message);
    let ghost line = bytes@;
    bytes.push(10);
    assert forall|i: int| 0 <= i < line.len() implies line[i] != 10u8 by {
        assert(line.contains(line[i]));
    }
    assert(bytes@.drop_last() =~= line);
    Ok(bytes)
}

/// A notification of the transport itself.
pub open spec fn backend_notice(method: Seq<char>, message: Seq<char>) -> JsonView {
    JsonView::Object(seq![
        ("method"@, JsonView::Text(method)),
        ("params"@, JsonView::Object(seq![("message"@, JsonView::Text(message))])),
    ])
}

pub fn make_backend_notice(method: &str, message: &str) -> (r: Json)
    ensures
        r.deep_view() == backend_notice(method@, message@),
{
    let r = object(
        vec![
            ("method".to_owned(), Json::text(method)),
            ("params".to_owned(), object1("message", Json::text(message))),
        ],
    );
    assert(r.deep_view()->Object_0 =~= backend_notice(method@, message@)->Object_0);
    r
}

/// The message that a line of the backend's output holds: none for a blank
/// line, a protocol error for a line that is no JSON.
pub fn decode_line(line: &str) -> (r: Option<Json>)
    ensures
        r is None <==> blank(line@),
        !blank(line@) ==> (match parsed_json(line.spec_bytes()) {
            Ok(message) => r->0.deep_view() == message,
            Err(error) => r->0.deep_view() == backend_notice(
                "backend/protocolError"@,
                error + ": "@ + line@,
            ),
        }),
{
    if is_blank(line) {
        return None;
    }
    match parse_json(line.as_bytes()) {
        Ok(message) => Some(message),
        Err(error) => {
            let text = cat3(error.as_str(), ": ", line);
            Some(make_backend_notice("backend/protocolError", text.as_str()))
        },
    }
}

/// The policy that a sandbox mode stands for in the parameters of a turn.
pub open spec fn policy_type(sandbox: Seq<char>) -> Option<Seq<char>> {
    if sandbox == "read-only"@ {
        Some("readOnly"@)
    } else if sandbox == "workspace-write"@ {
        Some("workspaceWrite"@)
    } else if sandbox == "danger-full-access"@ {
        Some("dangerFullAccess"@)
    } else {
        None
    }
}

/// The members with the sandbox mode written as a policy.
pub open spec fn with_policy(
    members: Seq<(Seq<char>, JsonView)>,
    policy: Seq<char>,
) -> Seq<(Seq<char>, JsonView)> {
    Seq::new(
        members.len(),
        |i: int|
            if members[i].0 == "sandbox"@ {
                ("sandboxPolicy"@, JsonView::Object(seq![("type"@, JsonView::Text(policy))]))
            } else {
                members[i]
            },
    )
}

/// The parameters of a turn as the backend takes them.
pub open spec fn turn_params_view(params: JsonView) -> Result<JsonView, Seq<char>> {
    match (params, params.text_at("sandbox"@)) {
        (JsonView::Object(members), Some(sandbox)) => match policy_type(sandbox) {
            Some(policy) => Ok(JsonView::Object(with_policy(members, policy))),
            None => Err("Unsupported sandbox mode: "@ + sandbox),
        },
        _ => Ok(params),
    }
}

/// A turn names a sandbox policy where a thread names a sandbox mode.
pub fn turn_params(params: Json) -> (r: Result<Json, String>)
    ensures
        match r {
            Ok(p) => turn_params_view(params.deep_view()) matches Ok(v) && v == p.deep_view(),
            Err(e) => turn_params_view(params.deep_view()) matches Err(v) && v == e@,
        },
{
    let policy = match params.text_at("sandbox") {
        Some(sandbox) => if same_text(sandbox, "read-only") {
            "readOnly"
        } else if same_text(sandbox, "workspace-write") {
            "workspaceWrite"
        } else if same_text(sandbox, "danger-full-access") {
            "dangerFullAccess"
        } else {
            return Err(cat("Unsupported sandbox mode: ", sandbox));
        },
        None => return Ok(params),
    };
    let ghost whole = params.deep_view();
    match params {
        Json::Object(members) => {
            let ghost before = whole->Object_0;
            let mut out: Vec<(String, Json)> = Vec::new();
            let mut i: usize = 0;
            while i < members.len()
                invariant
                    i <= members@.len(),
                    out@.len() == i,
                    before.len() == members@.len(),
                    Json::Object(members).deep_view() == JsonView::Object(before),
                    forall|j: int|
                        0 <= j < i ==> (#[trigger] out@[j]).deep_view() == with_policy(before, policy@)[j],
                decreases members@.len() - i,
            {
                assert(before[i as int] == (members@[i as int].0@, members@[i as int].1.deep_view()));
                if same_text(members[i].0.as_str(), "sandbox") {
                    let value = object1("type", Json::text(policy));
                    assert(value.deep_view() == JsonView::Object(
                        seq![("type"@, JsonView::Text(policy@))],
                    ));
                    out.push(("sandboxPolicy".to_owned(), value));
                } else {
                    out.push((members[i].0.clone(), members[i].1.clone()));
                }
                i += 1;
            }
            let r = object(out);
            assert(r.deep_view()->Object_0 =~= with_policy(before, policy@));
            Ok(r)
        },
        _ => Ok(params),
    }
}

/// What is to be done with a message for the embedded client.
#[derive(Debug, PartialEq)]
pub enum SdkStep {
    /// Answer it at once.
    Reply(Json),
    /// Nothing.
    Skip,
    /// Make the request and answer under this id.
    Request(Json),
    /// Pass the notification on.
    Notify,
    /// Resolve the server's request with this id by this result.
    Resolve(Json, Json),
    /// Reject the server's request with this id by this error.
    Reject(Json, Json),
}

/// A member, or null.
pub open spec fn member_or_null(message: JsonView, key: Seq<char>) -> JsonView {
    match message.get(key) {
        Some(v) => v,
        None => JsonView::Null,
    }
}

fn copy_member(message: &Json, key: &str) -> (r: Json)
    ensures
        r.deep_view() == member_or_null(message.deep_view(), key@),
{
    match message.get(key) {
        Some(v) => v.clone(),
        None => Json::Null,
    }
}

/// The answer to the handshake.
pub open spec fn handshake_reply(id: JsonView, family: Seq<char>, os: Seq<char>) -> JsonView {
    JsonView::Object(seq![
        ("id"@, id),
        (
            "result"@,
            JsonView::Object(seq![
                ("userAgent"@, JsonView::Text("Codex Rust SDK"@)),
                ("codexHome"@, JsonView::Text(""@)),
                ("platformFamily"@, JsonView::Text(family)),
                ("platformOs"@, JsonView::Text(os)),
            ]),
        ),
    ])
}

/// What an [`SdkStep`] holds.
pub enum SdkStepView {
    Reply(JsonView),
    Skip,
    Request(JsonView),
    Notify,
    Resolve(JsonView, JsonView),
    Reject(JsonView, JsonView),
}

impl DeepView for SdkStep {
    type V = SdkStepView;

    open spec fn deep_view(&self) -> SdkStepView {
        match self {
            SdkStep::Reply(message) => SdkStepView::Reply(message.deep_view()),
            SdkStep::Skip => SdkStepView::Skip,
            SdkStep::Request(id) => SdkStepView::Request(id.deep_view()),
            SdkStep::Notify => SdkStepView::Notify,
            SdkStep::Resolve(id, result) => SdkStepView::Resolve(
                id.deep_view(),
                result.deep_view(),
            ),
            SdkStep::Reject(id, error) => SdkStepView::Reject(id.deep_view(), error.deep_view()),
        }
    }
}

/// Where a message goes: the handshake is answered here, a method with an id
/// is a request and one without is a notification, and a message without a
/// method answers a request of the server.
pub open spec fn routed(m: JsonView, family: Seq<char>, os: Seq<char>) -> SdkStepView {
    let method = m.text_at("method"@);
    if method == Some("initialize"@) {
        SdkStepView::Reply(handshake_reply(member_or_null(m, "id"@), family, os))
    } else if method == Some("initialized"@) {
        SdkStepView::Skip
    } else if method is Some {
        match m.get("id"@) {
            Some(id) => SdkStepView::Request(id),
            None => SdkStepView::Notify,
        }
    } else {
        match m.get("result"@) {
            Some(result) => SdkStepView::Resolve(member_or_null(m, "id"@), result),
            None => SdkStepView::Reject(member_or_null(m, "id"@), member_or_null(m, "error"@)),
        }
    }
}

/// Routes a message to the embedded client.
pub fn route_sdk_message(message: &Json, family: &str, os: &str) -> (r: SdkStep)
    ensures
        r.deep_view() == routed(message.deep_view(), family@, os@),
{
    match message.text_at("method") {
        Some(method) => {
            if same_text(method, "initialize") {
                let result = object(
                    vec![
                        ("userAgent".to_owned(), Json::text("Codex Rust SDK")),
                        ("codexHome".to_owned(), Json::text("")),
                        ("platformFamily".to_owned(), Json::text(family)),
                        ("platformOs".to_owned(), Json::text(os)),
                    ],
                );
                assert(result.deep_view()->Object_0 =~= seq![
                    ("userAgent"@, JsonView::Text("Codex Rust SDK"@)),
                    ("codexHome"@, JsonView::Text(""@)),
                    ("platformFamily"@, JsonView::Text(family@)),
                    ("platformOs"@, JsonView::Text(os@)),
                ]);
                let id = copy_member(message, "id");
                let ghost id_view = id.deep_view();
                let reply = object(vec![("id".to_owned(), id), ("result".to_owned(), result)]);
                assert(reply.deep_view()->Object_0 =~= handshake_reply(
                    id_view,
                    family@,
                    os@,
                )->Object_0);
                SdkStep::Reply(reply)
            } else if same_text(method, "initialized") {
                SdkStep::Skip
            } else {
                match message.get("id") {
                    Some(id) => SdkStep::Request(id.clone()),
                    None => SdkStep::Notify,
                }
            }
        },
        None => {
            let id = copy_member(message, "id");
            match message.get("result") {
                Some(result) => SdkStep::Resolve(id, result.clone()),
                None => SdkStep::Reject(id, copy_member(message, "error")),
            }
        },
    }
}

/// How a request of the embedded client came out.
#[derive(Debug, PartialEq)]
pub enum SdkOutcome {
    /// The server's result.
    Result(Json),
    /// The server's error.
    Error(Json),
    /// The client could not make the request.
    Failed(String),
}

/// The answer to a request that the embedded client made.
pub open spec fn sdk_answer(id: JsonView, outcome: SdkOutcome) -> JsonView {
    match outcome {
        SdkOutcome::Result(result) => JsonView::Object(seq![("id"@, id), ("result"@, result.deep_view())]),
        SdkOutcome::Error(error) => JsonView::Object(seq![("id"@, id), ("error"@, error.deep_view())]),
        SdkOutcome::Failed(text) => JsonView::Object(seq![
            ("id"@, id),
            (
                "error"@,
                JsonView::Object(seq![
                    ("code"@, JsonView::Negative(-32000i64)),
                    ("message"@, JsonView::Text("Codex SDK request failed: "@ + text@)),
                ]),
            ),
        ]),
    }
}

pub fn answer_sdk_request(id: Json, outcome: SdkOutcome) -> (r: Json)
    ensures
        r.deep_view() == sdk_answer(id.deep_view(), outcome),
{
    let ghost id_view = id.deep_view();
    match outcome {
        SdkOutcome::Result(result) => {
            let r = object(vec![("id".to_owned(), id), ("result".to_owned(), result)]);
            assert(r.deep_view()->Object_0 =~= sdk_answer(id_view, outcome)->Object_0);
            r
        },
        SdkOutcome::Error(error) => {
            let r = object(vec![("id".to_owned(), id), ("error".to_owned(), error)]);
            assert(r.deep_view()->Object_0 =~= sdk_answer(id_view, outcome)->Object_0);
            r
        },
        SdkOutcome::Failed(text) => {
            let message = cat("Codex SDK request failed: ", text.as_str());
            let error = object(
                vec![
                    ("code".to_owned(), Json::Negative(-32000)),
                    ("message".to_owned(), Json::Text(message)),
                ],
            );
            assert(error.deep_view()->Object_0 =~= seq![
                ("code"@, JsonView::Negative(-32000i64)),
                ("message"@, JsonView::Text("Codex SDK request failed: "@ + text@)),
            ]);
            let r = object(vec![("id".to_owned(), id), ("error".to_owned(), error)]);
            assert(r.deep_view()->Object_0 =~= sdk_answer(id_view, outcome)->Object_0);
            r
        },
    }
}

} // verus!
