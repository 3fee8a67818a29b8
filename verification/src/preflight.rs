//! The requests that an embedded client must be able to make before it is
//! used, and what is said when a backend does not start.
use crate::json::{array, object, object1, Json, JsonView};
use crate::json_text::{canonical, value_of_json, value_view};
use crate::prompt::{text_input, text_input_view};
use crate::protocol::{
    backend_notice, make_backend_notice, route_sdk_message, routed, SdkStep, SdkStepView,
};
use crate::text::{cat, cat3, decimal, decimal_text};
use vstd::prelude::*;
use vstd::string::*;

verus! {

/// A request that only has to be understood.
pub open spec fn trial_view(method: Seq<char>, params: JsonView) -> JsonView {
    JsonView::Object(seq![
        ("method"@, JsonView::Text(method)),
        ("id"@, JsonView::Unsigned(1u64)),
        ("params"@, params),
    ])
}

fn trial(method: &str, params: Json) -> (r: Json)
    ensures
        r.deep_view() == trial_view(method@, params.deep_view()),
{
    let ghost view = params.deep_view();
    let r = object(
        vec![
            ("method".to_owned(), Json::text(method)),
            ("id".to_owned(), Json::Unsigned(1)),
            ("params".to_owned(), params),
        ],
    );
    assert(r.deep_view()->Object_0 =~= trial_view(method@, view)->Object_0);
    r
}

pub open spec fn pair_view(a: Seq<char>, x: JsonView, b: Seq<char>, y: JsonView) -> JsonView {
    JsonView::Object(seq![(a, x), (b, y)])
}

fn pair(a: &str, x: Json, b: &str, y: Json) -> (r: Json)
    ensures
        r.deep_view() == pair_view(a@, x.deep_view(), b@, y.deep_view()),
{
    let ghost (vx, vy) = (x.deep_view(), y.deep_view());
    let r = object(vec![(a.to_owned(), x), (b.to_owned(), y)]);
    assert(r.deep_view()->Object_0 =~= pair_view(a@, vx, b@, vy)->Object_0);
    r
}

/// The requests that are tried.
pub open spec fn trials() -> Seq<JsonView> {
    let preflight = JsonView::Text("preflight"@);
    seq![
        trial_view(
            "account/read"@,
            JsonView::Object(seq![("refreshToken"@, JsonView::Bool(false))]),
        ),
        trial_view("account/rateLimits/read"@, JsonView::Null),
        trial_view(
            "account/rateLimitResetCredit/consume"@,
            pair_view("creditId"@, JsonView::Null, "idempotencyKey"@, preflight),
        ),
        trial_view("model/list"@, JsonView::Object(seq![("limit"@, JsonView::Unsigned(100u64))])),
        trial_view(
            "thread/start"@,
            pair_view("cwd"@, JsonView::Text("."@), "ephemeral"@, JsonView::Bool(true)),
        ),
        trial_view(
            "turn/start"@,
            pair_view(
                "threadId"@,
                preflight,
                "input"@,
                JsonView::Array(seq![text_input_view("preflight"@)]),
            ),
        ),
        trial_view("turn/interrupt"@, pair_view("threadId"@, preflight, "turnId"@, preflight)),
    ]
}

/// The requests that an embedded client must understand.
pub fn required_requests() -> (r: Vec<Json>)
    ensures
        r.deep_view() == trials(),
{
    let text = text_input("preflight");
    let input = array(vec![text]);
    assert(input.deep_view()->Array_0 =~= seq![text_input_view("preflight"@)]);
    let r = vec![
        trial("account/read", object1("refreshToken", Json::Bool(false))),
        trial("account/rateLimits/read", Json::Null),
        trial(
            "account/rateLimitResetCredit/consume",
            pair("creditId", Json::Null, "idempotencyKey", Json::text("preflight")),
        ),
        trial("model/list", object1("limit", Json::Unsigned(100))),
        trial("thread/start", pair("cwd", Json::text("."), "ephemeral", Json::Bool(true))),
        trial("turn/start", pair("threadId", Json::text("preflight"), "input", input)),
        trial(
            "turn/interrupt",
            pair("threadId", Json::text("preflight"), "turnId", Json::text("preflight")),
        ),
    ];
    assert(r.deep_view() =~= trials());
    r
}

/// Why a value is no request that the protocol knows; none where it is one.
pub uninterp spec fn request_refusal(value: JsonView) -> Option<Seq<char>>;

/// `serde_json::from_value` at `codex_app_server_protocol::ClientRequest`: the
/// text of its error, if it fails. Which values it takes is left to the name.
#[verifier::external_body]
fn refuse_request(value: serde_json::Value) -> (r: Option<String>)
    ensures
        r.deep_view() == request_refusal(value_view(value)),
{
    serde_json::from_value::<codex_app_server_protocol::ClientRequest>(value)
        .err()
        .map(|error| error.to_string())
}

/// Why a value is no notification that the protocol knows; none where it is
/// one.
pub uninterp spec fn notification_refusal(value: JsonView) -> Option<Seq<char>>;

/// `serde_json::from_value` at `codex_app_server_protocol::ClientNotification`:
/// the text of its error, if it fails. Which values it takes is left to the
/// name.
#[verifier::external_body]
fn refuse_notification(value: serde_json::Value) -> (r: Option<String>)
    ensures
        r.deep_view() == notification_refusal(value_view(value)),
{
    serde_json::from_value::<codex_app_server_protocol::ClientNotification>(value)
        .err()
        .map(|error| error.to_string())
}

/// Why a value is no id of a request: an id is a text, or an integer that fits
/// 64 bits with a sign.
pub open spec fn id_refusal(value: JsonView) -> Option<Seq<char>> {
    if value is Text || value.as_i64() is Some {
        None
    } else {
        Some("data did not match any variant of untagged enum RequestId"@)
    }
}

/// `serde_json::from_value` at `codex_app_server_protocol::RequestId`, an
/// untagged choice of a text and a 64-bit integer: the text of its error, if it
/// fails.
#[verifier::external_body]
fn refuse_id(value: serde_json::Value) -> (r: Option<String>)
    ensures
        r.deep_view() == id_refusal(value_view(value)),
{
    serde_json::from_value::<codex_app_server_protocol::RequestId>(value)
        .err()
        .map(|error| error.to_string())
}

/// Why a value is no error of a request; none where it is one.
pub uninterp spec fn error_refusal(value: JsonView) -> Option<Seq<char>>;

/// `serde_json::from_value` at `codex_app_server_protocol::JSONRPCErrorError`:
/// the text of its error, if it fails. Which values it takes is left to the
/// name.
#[verifier::external_body]
fn refuse_error(value: serde_json::Value) -> (r: Option<String>)
    ensures
        r.deep_view() == error_refusal(value_view(value)),
{
    serde_json::from_value::<codex_app_server_protocol::JSONRPCErrorError>(value)
        .err()
        .map(|error| error.to_string())
}

/// What is said of the first request that is refused; none where all are
/// understood.
pub open spec fn first_refused(
    requests: Seq<JsonView>,
    refusals: Seq<Option<Seq<char>>>,
) -> Option<Seq<char>>
    decreases requests.len(),
{
    if requests.len() == 0 || refusals.len() == 0 {
        None
    } else {
        match refusals[0] {
            Some(error) => Some(unavailable_view(requests[0], error)),
            None => first_refused(requests.skip(1), refusals.skip(1)),
        }
    }
}

/// Whether an embedded client understands requests, given why each was
/// refused.
pub fn judge_requests(requests: &Vec<Json>, refusals: &Vec<Option<String>>) -> (r: Result<
    (),
    String,
>)
    requires
        requests@.len() == refusals@.len(),
    ensures
        match r {
            Ok(_) => first_refused(requests.deep_view(), refusals.deep_view()) is None,
            Err(text) => first_refused(requests.deep_view(), refusals.deep_view()) == Some(text@),
        },
{
    let ghost all = requests.deep_view();
    let ghost why = refusals.deep_view();
    let mut i: usize = 0;
    proof {
        assert(all.skip(0) =~= all);
        assert(why.skip(0) =~= why);
    }
    while i < requests.len()
        invariant
            i <= requests@.len(),
            requests@.len() == refusals@.len(),
            all == requests.deep_view(),
            why == refusals.deep_view(),
            first_refused(all, why) == first_refused(all.skip(i as int), why.skip(i as int)),
        decreases requests@.len() - i,
    {
        proof {
            assert(all.skip(i as int)[0] == requests@[i as int].deep_view());
            assert(why.skip(i as int)[0] == refusals@[i as int].deep_view());
            assert(all.skip(i as int).skip(1) =~= all.skip(i as int + 1));
            assert(why.skip(i as int).skip(1) =~= why.skip(i as int + 1));
        }
        match &refusals[i] {
            Some(error) => return Err(unavailable_text(&requests[i], error.as_str())),
            None => {},
        }
        i += 1;
    }
    Ok(())
}

/// The refusals of requests, one for each.
pub open spec fn refusals_of(requests: Seq<JsonView>) -> Seq<Option<Seq<char>>> {
    Seq::new(requests.len(), |i: int| request_refusal(canonical(requests[i])))
}

/// Checks that the protocol knows every request that an embedded client must
/// understand.
pub fn ensure_sdk_supports_required_methods() -> (r: Result<(), String>)
    ensures
        match r {
            Ok(_) => first_refused(trials(), refusals_of(trials())) is None,
            Err(text) => first_refused(trials(), refusals_of(trials())) == Some(text@),
        },
{
    let requests = required_requests();
    let mut refusals: Vec<Option<String>> = Vec::new();
    let mut i: usize = 0;
    while i < requests.len()
        invariant
            i <= requests@.len(),
            requests.deep_view() == trials(),
            refusals@.len() == i,
            forall|j: int|
                0 <= j < i ==> (#[trigger] refusals@[j]).deep_view() == refusals_of(trials())[j],
        decreases requests@.len() - i,
    {
        assert(trials()[i as int] == requests@[i as int].deep_view());
        refusals.push(refuse_request(value_of_json(&requests[i])));
        i += 1;
    }
    assert(refusals.deep_view() =~= refusals_of(trials()));
    judge_requests(&requests, &refusals)
}

/// A step as it is carried out, given why its request, notification or id was
/// refused, and why its error was.
pub open spec fn judged(
    step: SdkStepView,
    refused: Option<Seq<char>>,
    bad_error: Option<Seq<char>>,
) -> Result<SdkStepView, Seq<char>> {
    match (step, refused) {
        (SdkStepView::Request(_), Some(error)) => Err(
            "Codex SDK does not support this request: "@ + error,
        ),
        (SdkStepView::Notify, Some(error)) => Err(
            "Codex SDK does not support this notification: "@ + error,
        ),
        (SdkStepView::Resolve(_, _), Some(error)) => Err(
            "Invalid Codex SDK response id: "@ + error,
        ),
        (SdkStepView::Reject(_, _), Some(error)) => Err("Invalid Codex SDK response id: "@ + error),
        (SdkStepView::Reject(_, _), None) => match bad_error {
            Some(error) => Err("Invalid Codex SDK error response: "@ + error),
            None => Ok(step),
        },
        _ => Ok(step),
    }
}

pub fn judge_step(step: SdkStep, refused: Option<String>, bad_error: Option<String>) -> (r: Result<
    SdkStep,
    String,
>)
    ensures
        match r {
            Ok(kept) => judged(step.deep_view(), refused.deep_view(), bad_error.deep_view()) == Ok::<
                _,
                Seq<char>,
            >(kept.deep_view()),
            Err(text) => judged(step.deep_view(), refused.deep_view(), bad_error.deep_view())
                == Err::<SdkStepView, _>(text@),
        },
{
    let start: &str = match &step {
        SdkStep::Request(_) => "Codex SDK does not support this request: ",
        SdkStep::Notify => "Codex SDK does not support this notification: ",
        SdkStep::Resolve(_, _) => "Invalid Codex SDK response id: ",
        SdkStep::Reject(_, _) => "Invalid Codex SDK response id: ",
        _ => return Ok(step),
    };
    if let Some(error) = refused {
        return Err(cat(start, error.as_str()));
    }
    match &step {
        SdkStep::Reject(_, _) => {
            if let Some(error) = bad_error {
                return Err(cat("Invalid Codex SDK error response: ", error.as_str()));
            }
        },
        _ => {},
    }
    Ok(step)
}

/// Why what a step hands to the client is refused.
pub open spec fn step_refusal(step: SdkStepView, message: JsonView) -> Option<Seq<char>> {
    match step {
        SdkStepView::Request(_) => request_refusal(canonical(message)),
        SdkStepView::Notify => notification_refusal(canonical(message)),
        SdkStepView::Resolve(id, _) => id_refusal(canonical(id)),
        SdkStepView::Reject(id, _) => id_refusal(canonical(id)),
        _ => None,
    }
}

pub open spec fn step_error_refusal(step: SdkStepView) -> Option<Seq<char>> {
    match step {
        SdkStepView::Reject(_, error) => error_refusal(canonical(error)),
        _ => None,
    }
}

/// Routes a message to the embedded client and checks that the protocol knows
/// what is handed over.
pub fn accept_sdk_message(message: &Json, family: &str, os: &str) -> (r: Result<SdkStep, String>)
    ensures
        ({
            let step = routed(message.deep_view(), family@, os@);
            let verdict = judged(
                step,
                step_refusal(step, message.deep_view()),
                step_error_refusal(step),
            );
            match r {
                Ok(kept) => verdict == Ok::<_, Seq<char>>(kept.deep_view()),
                Err(text) => verdict == Err::<SdkStepView, _>(text@),
            }
        }),
{
    let step = route_sdk_message(message, family, os);
    let refused: Option<String> = match &step {
        SdkStep::Request(_) => refuse_request(value_of_json(message)),
        SdkStep::Notify => refuse_notification(value_of_json(message)),
        SdkStep::Resolve(id, _) => refuse_id(value_of_json(id)),
        SdkStep::Reject(id, _) => refuse_id(value_of_json(id)),
        _ => None,
    };
    let bad_error: Option<String> = match &step {
        SdkStep::Reject(_, error) => refuse_error(value_of_json(error)),
        _ => None,
    };
    judge_step(step, refused, bad_error)
}

/// What is said of a request that is not understood.
pub open spec fn unavailable_view(request: JsonView, error: Seq<char>) -> Seq<char> {
    "required method "@ + match request.text_at("method"@) {
        Some(method) => method,
        None => "unknown"@,
    } + " is unavailable: "@ + error
}

pub fn unavailable_text(request: &Json, error: &str) -> (r: String)
    ensures
        r@ == unavailable_view(request.deep_view(), error@),
{
    let method = match request.text_at("method") {
        Some(method) => method,
        None => "unknown",
    };
    let start = cat3("required method ", method, " is unavailable: ");
    cat(start.as_str(), error)
}

/// What is said when neither the embedded client nor the command line tool
/// starts.
pub fn backend_failure(embedded: &str, command: &str) -> (r: String)
    ensures
        r@ == "Could not start the Codex Rust SDK ("@ + embedded@
            + "); CLI fallback also failed ("@ + command@ + ")"@,
{
    let start = cat3(
        "Could not start the Codex Rust SDK (",
        embedded,
        "); CLI fallback also failed (",
    );
    cat3(start.as_str(), command, ")")
}

/// The notification of events that an embedded client dropped.
pub fn lag_notice(skipped: u64) -> (r: Json)
    ensures
        r.deep_view() == backend_notice(
            "backend/protocolError"@,
            "Codex SDK event queue dropped "@ + decimal(skipped as nat) + " messages"@,
        ),
{
    let count = decimal_text(skipped as u128);
    let text = cat3("Codex SDK event queue dropped ", count.as_str(), " messages");
    make_backend_notice("backend/protocolError", text.as_str())
}

} // verus!
