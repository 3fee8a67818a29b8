//! What passes between the program, an embedded client and the command line
//! tool.
use crate::json::{lemma_entry_value, JsonView};
use crate::preflight::{first_refused, judged, trial_view, trials};
use crate::protocol::{backend_notice, routed, sdk_answer, SdkOutcome, SdkStepView};
use crate::text::{blank, text_lines, trimmed};
use crate::update::{available_version, command_failure, first_said, said_by};
use vstd::prelude::*;
use vstd::string::*;
use vstd::utf8::{decode_utf8, valid_utf8};

verus! {

/// A message with a method and an id is a request, one without an id is a
/// notification, and one without a method answers a request of the backend: with
/// its result where it has one, else with its error.
pub proof fn lemma_messages_find_their_way(
    m: JsonView,
    family: Seq<char>,
    os: Seq<char>,
    method: Seq<char>,
    id: JsonView,
)
    requires
        method != "initialize"@,
        method != "initialized"@,
    ensures
        m.text_at("method"@) == Some(method) && m.get("id"@) == Some(id) ==> routed(m, family, os)
            == SdkStepView::Request(id),
        m.text_at("method"@) == Some(method) && m.get("id"@) is None ==> routed(m, family, os)
            == SdkStepView::Notify,
        m.text_at("method"@) is None && m.get("id"@) == Some(id) ==> {
            &&& m.get("result"@) is Some ==> routed(m, family, os) == SdkStepView::Resolve(
                id,
                m.get("result"@)->0,
            )
            &&& m.get("result"@) is None && m.get("error"@) is Some ==> routed(m, family, os)
                == SdkStepView::Reject(id, m.get("error"@)->0)
        },
{
}

proof fn lemma_reply_names()
    ensures
        "id"@ != "result"@,
        "id"@ != "error"@,
        "result"@ != "error"@,
        "code"@ != "message"@,
        "method"@ != "params"@,
        "method"@ != "id"@,
        "initialize"@ != "initialized"@,
{
    reveal_strlit("id");
    assert("id"@.len() == 2);
    reveal_strlit("result");
    assert("result"@.len() == 6);
    reveal_strlit("error");
    assert("error"@.len() == 5);
    reveal_strlit("code");
    assert("code"@.len() == 4);
    reveal_strlit("message");
    assert("message"@.len() == 7);
    reveal_strlit("method");
    assert("method"@.len() == 6);
    reveal_strlit("params");
    assert("params"@.len() == 6);
    reveal_strlit("initialize");
    assert("initialize"@.len() == 10);
    reveal_strlit("initialized");
    assert("initialized"@.len() == 11);
    assert("result"@[0] == 'r' && "error"@[0] == 'e');
    assert("method"@[0] == 'm' && "params"@[0] == 'p');
}

/// The handshake is answered at once, under its own id and with a result.
pub proof fn lemma_handshake_is_answered(
    m: JsonView,
    family: Seq<char>,
    os: Seq<char>,
    id: JsonView,
)
    requires
        m.text_at("method"@) == Some("initialize"@),
        m.get("id"@) == Some(id),
    ensures
        routed(m, family, os) matches SdkStepView::Reply(reply) && reply.get("id"@) == Some(id)
            && reply.get("result"@) is Some && reply.get("error"@) is None,
{
    lemma_reply_names();
    let reply = routed(m, family, os)->Reply_0;
    let members = reply->Object_0;
    lemma_entry_value(members, "id"@, 0);
    lemma_entry_value(members, "result"@, 1);
    lemma_missing(members, "error"@);
}

/// A member that is not there is not found.
proof fn lemma_missing(members: Seq<(Seq<char>, JsonView)>, key: Seq<char>)
    requires
        forall|i: int| 0 <= i < members.len() ==> (#[trigger] members[i]).0 != key,
    ensures
        JsonView::Object(members).get(key) is None,
    decreases members.len(),
{
    if members.len() > 0 {
        let rest = members.drop_first();
        assert(members[0].0 != key);
        assert forall|i: int| 0 <= i < rest.len() implies (#[trigger] rest[i]).0 != key by {
            assert(rest[i] == members[i + 1]);
        }
        lemma_missing(rest, key);
    }
}

/// The outcome of a request goes back under the request's id: a result as a
/// result and nothing else, an error as that error, and a failure as an error
/// that says why.
pub proof fn lemma_outcome_goes_to_its_request(id: JsonView, outcome: SdkOutcome)
    ensures
        sdk_answer(id, outcome).get("id"@) == Some(id),
        outcome matches SdkOutcome::Result(result) ==> sdk_answer(id, outcome).get("result"@)
            == Some(result.deep_view()) && sdk_answer(id, outcome).get("error"@) is None,
        outcome matches SdkOutcome::Error(error) ==> sdk_answer(id, outcome).get("error"@) == Some(
            error.deep_view(),
        ) && sdk_answer(id, outcome).get("result"@) is None,
        outcome matches SdkOutcome::Failed(text) ==> {
            &&& sdk_answer(id, outcome).get("result"@) is None
            &&& sdk_answer(id, outcome).get2("error"@, "message"@) == Some(
                JsonView::Text("Codex SDK request failed: "@ + text@),
            )
        },
{
    lemma_reply_names();
    let members = sdk_answer(id, outcome)->Object_0;
    lemma_entry_value(members, "id"@, 0);
    match outcome {
        SdkOutcome::Result(_) => {
            lemma_entry_value(members, "result"@, 1);
            lemma_missing(members, "error"@);
        },
        SdkOutcome::Error(_) => {
            lemma_entry_value(members, "error"@, 1);
            lemma_missing(members, "result"@);
        },
        SdkOutcome::Failed(_) => {
            lemma_entry_value(members, "error"@, 1);
            lemma_entry_value(members[1].1->Object_0, "message"@, 1);
            lemma_missing(members, "result"@);
        },
    }
}

/// What the transport itself tells has its words in it.
pub proof fn lemma_notice_holds_its_words(method: Seq<char>, message: Seq<char>)
    ensures
        backend_notice(method, message).text_at("method"@) == Some(method),
        backend_notice(method, message).get2("params"@, "message"@) == Some(
            JsonView::Text(message),
        ),
        backend_notice(method, message).get("id"@) is None,
{
    lemma_reply_names();
    let members = backend_notice(method, message)->Object_0;
    lemma_entry_value(members, "method"@, 0);
    lemma_entry_value(members, "params"@, 1);
    lemma_entry_value(members[1].1->Object_0, "message"@, 0);
    reveal_strlit("params");
    reveal_strlit("id");
    assert("params"@.len() == 6 && "id"@.len() == 2);
    lemma_missing(members, "id"@);
}

/// The method that a trial is of.
proof fn lemma_trial_method(method: Seq<char>, params: JsonView)
    ensures
        trial_view(method, params).text_at("method"@) == Some(method),
{
    lemma_reply_names();
    lemma_entry_value(trial_view(method, params)->Object_0, "method"@, 0);
}

/// Whether a method is among those that are tried.
pub open spec fn is_tried(method: Seq<char>) -> bool {
    exists|i: int| 0 <= i < trials().len() && #[trigger] trials()[i].text_at("method"@) == Some(method)
}

/// Every request that a session makes is tried before the client is used.
pub proof fn lemma_every_method_is_tried()
    ensures
        is_tried("account/read"@),
        is_tried("account/rateLimits/read"@),
        is_tried("account/rateLimitResetCredit/consume"@),
        is_tried("model/list"@),
        is_tried("thread/start"@),
        is_tried("turn/start"@),
        is_tried("turn/interrupt"@),
{
    let t = trials();
    lemma_trial_method("account/read"@, t[0]->Object_0[2].1);
    lemma_trial_method("account/rateLimits/read"@, t[1]->Object_0[2].1);
    lemma_trial_method("account/rateLimitResetCredit/consume"@, t[2]->Object_0[2].1);
    lemma_trial_method("model/list"@, t[3]->Object_0[2].1);
    lemma_trial_method("thread/start"@, t[4]->Object_0[2].1);
    lemma_trial_method("turn/start"@, t[5]->Object_0[2].1);
    lemma_trial_method("turn/interrupt"@, t[6]->Object_0[2].1);
    assert(t[0].text_at("method"@) == Some("account/read"@));
    assert(t[1].text_at("method"@) == Some("account/rateLimits/read"@));
    assert(t[2].text_at("method"@) == Some("account/rateLimitResetCredit/consume"@));
    assert(t[3].text_at("method"@) == Some("model/list"@));
    assert(t[4].text_at("method"@) == Some("thread/start"@));
    assert(t[5].text_at("method"@) == Some("turn/start"@));
    assert(t[6].text_at("method"@) == Some("turn/interrupt"@));
}

/// The client is refused exactly when one of the tried requests is, and then the
/// first of those is told with its method and the reason.
pub proof fn lemma_first_refusal_is_told(
    requests: Seq<JsonView>,
    refusals: Seq<Option<Seq<char>>>,
    k: int,
    method: Seq<char>,
)
    requires
        requests.len() == refusals.len(),
        0 <= k < refusals.len(),
        refusals[k] is Some,
        requests[k].text_at("method"@) == Some(method),
        forall|i: int| 0 <= i < k ==> (#[trigger] refusals[i]) is None,
    ensures
        first_refused(requests, refusals) == Some(
            "required method "@ + method + " is unavailable: "@ + refusals[k]->0,
        ),
    decreases k,
{
    if k > 0 {
        assert(refusals[0] is None);
        assert(refusals.skip(1)[k - 1] == refusals[k]);
        assert(requests.skip(1)[k - 1] == requests[k]);
        assert forall|i: int| 0 <= i < k - 1 implies (#[trigger] refusals.skip(1)[i]) is None by {
            assert(refusals.skip(1)[i] == refusals[i + 1]);
        }
        lemma_first_refusal_is_told(requests.skip(1), refusals.skip(1), k - 1, method);
    }
}

/// A client that understands every tried request is not refused.
pub proof fn lemma_able_client_is_taken(requests: Seq<JsonView>, refusals: Seq<Option<Seq<char>>>)
    requires
        forall|i: int| 0 <= i < refusals.len() ==> (#[trigger] refusals[i]) is None,
    ensures
        first_refused(requests, refusals) is None,
    decreases requests.len(),
{
    if requests.len() > 0 && refusals.len() > 0 {
        assert(refusals[0] is None);
        assert forall|i: int| 0 <= i < refusals.skip(1).len() implies (#[trigger] refusals.skip(
            1,
        )[i]) is None by {
            assert(refusals.skip(1)[i] == refusals[i + 1]);
        }
        lemma_able_client_is_taken(requests.skip(1), refusals.skip(1));
    }
}

/// A message that the client understands is carried out as it was routed, and
/// one that it does not is refused in the client's words.
pub proof fn lemma_understood_message_is_carried_out(step: SdkStepView, reason: Seq<char>)
    ensures
        judged(step, None, None) == Ok::<SdkStepView, Seq<char>>(step),
        step is Request || step is Notify || step is Resolve || step is Reject ==> (judged(
            step,
            Some(reason),
            None,
        ) matches Err(told) && told.len() >= reason.len() && told.skip(told.len() - reason.len())
            == reason),
        step is Reject ==> judged(step, None, Some(reason)) is Err,
{
    if step is Request || step is Notify || step is Resolve || step is Reject {
        let told = judged(step, Some(reason), None)->Err_0;
        assert(told.skip(told.len() - reason.len()) =~= reason);
    }
}

/// A report that tells of a newer version names it; one that says that the
/// version is current names none.
pub proof fn lemma_newer_version_is_found(
    report: JsonView,
    status: JsonView,
    details: JsonView,
    said: Seq<char>,
    version: Seq<char>,
)
    requires
        report.get2("checks"@, "updates.status"@) == Some(status),
        status.get("details"@) == Some(details),
        details is Object,
        details.text_at("latest version status"@) == Some(said),
        details.text_at("latest version"@) == Some(version),
    ensures
        said == "newer version is available"@ && !blank(version) ==> available_version(report)
            == Ok::<Option<Seq<char>>, Seq<char>>(Some(version)),
        said == "newer version is available"@ && blank(version) ==> available_version(
            report,
        ) is Err,
        said != "newer version is available"@ ==> available_version(report) == Ok::<
            Option<Seq<char>>,
            Seq<char>,
        >(None),
{
}

proof fn lemma_first_said(all: Seq<Seq<char>>, k: int)
    requires
        0 <= k < all.len(),
        !blank(all[k]),
        forall|i: int| 0 <= i < k ==> blank(#[trigger] all[i]),
    ensures
        first_said(all) == Some(trimmed(all[k])),
    decreases k,
{
    if k > 0 {
        assert(blank(all[0]));
        assert(all.skip(1)[k - 1] == all[k]);
        assert forall|i: int| 0 <= i < k - 1 implies blank(#[trigger] all.skip(1)[i]) by {
            assert(all.skip(1)[i] == all[i + 1]);
        }
        lemma_first_said(all.skip(1), k - 1);
    }
}

/// A command that failed is told of with the first line of its error output that
/// says something.
pub proof fn lemma_failed_command_says_why(
    context: Seq<char>,
    stdout: Seq<u8>,
    stderr: Seq<u8>,
    k: int,
)
    requires
        valid_utf8(stderr),
        0 <= k < text_lines(decode_utf8(stderr)).len(),
        !blank(text_lines(decode_utf8(stderr))[k]),
        forall|i: int| 0 <= i < k ==> blank(#[trigger] text_lines(decode_utf8(stderr))[i]),
    ensures
        command_failure(context, stdout, stderr) == context + ": "@ + trimmed(
            text_lines(decode_utf8(stderr))[k],
        ),
{
    lemma_first_said(text_lines(decode_utf8(stderr)), k);
    assert(said_by(stderr) is Some);
}

} // verus!
