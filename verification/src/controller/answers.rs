//! What the answers of the backend change: who is signed in, what models there
//! are, how much is used up, and what summaries are written for.
use super::exchange::{lemma_request_members, last_sent, param};
use super::lifecycle::initialize_view;
use super::prompts::{commit_job, title_job};
use super::responses::{available_credit, consume_view, summary_turn_view};
use super::{
    ActionView, ActiveSummaryView, ControllerView, Moment, PendingCallView, SummaryJobView,
    SummaryTargetView,
};
use crate::json::{lemma_entry_value, JsonView};
use crate::model::{
    member_limits, text_or, text_or_empty, window_of, ContextWindowUsage, ConversationItemView,
    ItemKind, RateLimit, RateLimitView, ResetCreditView,
};
use crate::order::{is_strict_order, lemma_sorted_by, lemma_text_less_strict};
use crate::prompt::{text_input_view, unstopped, unwrapped_end, unwrapped_start};
use crate::session::{efforts_of, model_of, models_of};
use crate::state::{thread_at, thread_named, AppStateView};
use crate::table::{
    has_key, lemma_first_where, lemma_first_where_is, lemma_last_where_is, lemma_put_lookup, lookup,
};
use crate::text::{is_space, text_less, trimmed};
use crate::workspace::{CommitSnapshotView, GitAction};
use vstd::prelude::*;
use vstd::string::*;

verus! {

/// Who is signed in is shown as the backend says it: by the address of the
/// account, else by its name, with its plan. Without an account nobody is.
pub proof fn lemma_account_is_shown(c: ControllerView, result: JsonView, account: JsonView, now: Moment)
    requires
        result.get("account"@) == Some(account),
    ensures
        ({
            let shown = c.responded(PendingCallView::Account, result, now).state.account;
            &&& account is Null ==> !shown.authenticated
            &&& !(account is Null) ==> {
                &&& shown.authenticated
                &&& account.text_at("email"@) is Some ==> Some(shown.label) == account.text_at(
                    "email"@,
                )
                &&& account.get("email"@) is None && account.text_at("name"@) is Some ==> Some(
                    shown.label,
                ) == account.text_at("name"@)
                &&& account.text_at("planType"@) is Some ==> Some(shown.plan) == account.text_at(
                    "planType"@,
                )
            }
        }),
{
    reveal(ControllerView::responded);
    reveal(ControllerView::usage_refreshed);
    reveal(AppStateView::usage_requested);
    let a = c.with_state(c.state.with_account(crate::session::account_of(result)));
    lemma_plain_request_keeps_account(
        a.with_state(a.state.usage_requested()),
        "account/rateLimits/read"@,
        JsonView::Null,
        PendingCallView::RateLimits,
        now,
    );
}

/// What a call that fails at once does to the account: nothing.
proof fn lemma_plain_request_keeps_account(
    c: ControllerView,
    method: Seq<char>,
    params: JsonView,
    call: PendingCallView,
    now: Moment,
)
    requires
        call is RateLimits,
        method == "account/rateLimits/read"@,
    ensures
        c.requested(method, params, call, now).state.account == c.state.account,
{
    reveal(ControllerView::requested);
    reveal(ControllerView::call_opened);
    reveal(ControllerView::call_failed);
    reveal(ControllerView::call_closed);
    reveal(ControllerView::failed);
    reveal(ControllerView::startup_checked);
    reveal(AppStateView::with_error);
    reveal(AppStateView::logged);
    reveal(AppStateView::usage_failed);
    reveal_strlit("account/rateLimits/read");
    reveal_strlit("turn/start");
    assert("account/rateLimits/read"@.len() != "turn/start"@.len());
    super::laws::lemma_call_is_found(c, call, now, c.next_id);
}

proof fn lemma_models_read(values: Seq<JsonView>)
    requires
        forall|i: int| 0 <= i < values.len() ==> model_of(#[trigger] values[i]) is Some,
    ensures
        models_of(values).len() == values.len(),
        forall|i: int|
            0 <= i < values.len() ==> Some(#[trigger] models_of(values)[i]) == model_of(values[i]),
    decreases values.len(),
{
    if values.len() > 0 {
        let front = values.drop_last();
        assert forall|i: int| 0 <= i < front.len() implies model_of(#[trigger] front[i]) is Some by {
            assert(front[i] == values[i]);
        }
        lemma_models_read(front);
        assert(model_of(values[values.len() - 1]) is Some);
        assert forall|i: int| 0 <= i < values.len() implies Some(#[trigger] models_of(values)[i])
            == model_of(values[i]) by {
            if i < front.len() {
                assert(models_of(values)[i] == models_of(front)[i]);
                assert(front[i] == values[i]);
            }
        }
    }
}

proof fn lemma_efforts_read(values: Seq<JsonView>)
    requires
        forall|i: int|
            0 <= i < values.len() ==> (#[trigger] values[i]).text_at("reasoningEffort"@) is Some,
    ensures
        efforts_of(values).len() == values.len(),
        forall|i: int|
            0 <= i < values.len() ==> Some(#[trigger] efforts_of(values)[i]) == values[i].text_at(
                "reasoningEffort"@,
            ),
    decreases values.len(),
{
    if values.len() > 0 {
        let front = values.drop_last();
        assert forall|i: int| 0 <= i < front.len() implies (#[trigger] front[i]).text_at(
            "reasoningEffort"@,
        ) is Some by {
            assert(front[i] == values[i]);
        }
        lemma_efforts_read(front);
        assert(values[values.len() - 1].text_at("reasoningEffort"@) is Some);
        assert forall|i: int| 0 <= i < values.len() implies Some(#[trigger] efforts_of(values)[i])
            == values[i].text_at("reasoningEffort"@) by {
            if i < front.len() {
                assert(efforts_of(values)[i] == efforts_of(front)[i]);
                assert(front[i] == values[i]);
            }
        }
    }
}

/// The models that the backend lists are offered in its order, each under its
/// id with its name and its efforts; a hidden one is not offered.
pub proof fn lemma_models_are_offered(
    c: ControllerView,
    result: JsonView,
    values: Seq<JsonView>,
    i: int,
    now: Moment,
)
    requires
        result.get("data"@) == Some(JsonView::Array(values)),
        forall|j: int|
            0 <= j < values.len() ==> (#[trigger] values[j]).text_at("model"@) is Some
                && values[j].bool_at("hidden"@) != Some(true),
        0 <= i < values.len(),
    ensures
        ({
            let models = c.responded(PendingCallView::Models, result, now).state.models;
            &&& models.len() == values.len()
            &&& Some(models[i].id) == values[i].text_at("model"@)
            &&& values[i].text_at("displayName"@) is Some ==> Some(models[i].display_name)
                == values[i].text_at("displayName"@)
            &&& values[i].text_at("displayName"@) is None ==> models[i].display_name == models[i].id
            &&& values[i].text_at("defaultReasoningEffort"@) is Some ==> Some(
                models[i].default_effort,
            ) == values[i].text_at("defaultReasoningEffort"@)
            &&& models[i].is_default == (values[i].bool_at("isDefault"@) == Some(true))
        }),
        values[i].array_at("supportedReasoningEfforts"@) matches Some(efforts) ==> (forall|j: int|
            0 <= j < efforts.len() ==> (#[trigger] efforts[j]).text_at("reasoningEffort"@) is Some)
            ==> ({
            let offered = c.responded(PendingCallView::Models, result, now).state.models[i].efforts;
            &&& offered.len() == efforts.len()
            &&& forall|j: int|
                0 <= j < efforts.len() ==> Some(#[trigger] offered[j]) == efforts[j].text_at(
                    "reasoningEffort"@,
                )
        }),
{
    reveal(ControllerView::responded);
    reveal(AppStateView::with_models);
    assert forall|j: int| 0 <= j < values.len() implies model_of(#[trigger] values[j]) is Some by {
        assert(values[j].text_at("model"@) is Some);
    }
    lemma_models_read(values);
    assert(Some(models_of(values)[i]) == model_of(values[i]));
    assert(values[i].text_at("model"@) is Some);
    if values[i].array_at("supportedReasoningEfforts"@) is Some {
        let efforts = values[i].array_at("supportedReasoningEfforts"@)->0;
        if forall|j: int|
            0 <= j < efforts.len() ==> (#[trigger] efforts[j]).text_at("reasoningEffort"@) is Some {
            lemma_efforts_read(efforts);
        }
    }
}

/// A hidden model, or one without an id, is not offered.
pub proof fn lemma_hidden_models_are_not_offered(values: Seq<JsonView>, hidden: JsonView)
    requires
        hidden.bool_at("hidden"@) == Some(true) || (hidden.get("model"@) is None && hidden.get(
            "id"@,
        ) is None),
    ensures
        models_of(values.push(hidden)) == models_of(values),
{
    assert(values.push(hidden).drop_last() =~= values);
}

/// A model is chosen for a user who has chosen none: the one that the backend
/// marks as default, else the first. A choice that was made stays.
pub proof fn lemma_default_model_is_taken_once(
    s: AppStateView,
    models: Seq<crate::model::ModelOptionView>,
    k: int,
)
    requires
        0 <= k < models.len(),
        models[k].is_default,
        forall|j: int| 0 <= j < k ==> !(#[trigger] models[j]).is_default,
    ensures
        s.prefs.model.len() == 0 ==> s.with_models(models).prefs.model == models[k].id
            && s.with_models(models).prefs.effort == models[k].default_effort,
        s.prefs.model.len() > 0 ==> s.with_models(models).prefs.model == s.prefs.model
            && s.with_models(models).prefs.effort == s.prefs.effort,
        s.with_models(models).prefs.sandbox == s.prefs.sandbox,
        s.with_models(models).prefs.approval == s.prefs.approval,
{
    reveal(AppStateView::with_models);
    let marked = |m: crate::model::ModelOptionView| m.is_default;
    assert forall|j: int| 0 <= j < k implies !marked(#[trigger] models[j]) by {
        assert(!models[j].is_default);
    }
    lemma_first_where_is(models, marked, k);
}

/// How much of a limit is used is shown as the backend says it, at most the
/// whole, with when it starts anew.
pub proof fn lemma_window_is_shown(value: JsonView, used: u64)
    requires
        value.u64_at("usedPercent"@) == Some(used),
    ensures
        window_of(value) matches Some(w) && {
            &&& used <= 100 ==> w.used_percent == used
            &&& used > 100 ==> w.used_percent == 100
            &&& w.resets_at == value.i64_at("resetsAt"@)
            &&& w.duration_minutes == value.i64_at("windowDurationMins"@)
        },
{
}

proof fn lemma_limits_order()
    ensures
        is_strict_order(RateLimit::listed_before()),
{
    let less = RateLimit::listed_before();
    assert forall|a: RateLimitView, b: RateLimitView| #[trigger] less(a, b) implies !less(b, a) by {
        lemma_text_less_strict(a.name, b.name, a.name);
        lemma_text_less_strict(a.id, b.id, a.id);
    }
    assert forall|a: RateLimitView, b: RateLimitView, c: RateLimitView|
        !(#[trigger] less(b, a)) && !(#[trigger] less(c, b)) implies !less(c, a) by {
        lemma_text_less_strict(a.name, b.name, c.name);
        lemma_text_less_strict(b.name, c.name, a.name);
        lemma_text_less_strict(c.name, a.name, b.name);
        lemma_text_less_strict(b.name, a.name, c.name);
        lemma_text_less_strict(a.id, b.id, c.id);
        lemma_text_less_strict(c.name, b.name, a.name);
    }
}

/// Every limit that the backend reports is shown, under its own id, with what is
/// used of its two windows; limits are listed by name.
pub proof fn lemma_limits_are_shown(
    c: ControllerView,
    result: JsonView,
    entries: Seq<(Seq<char>, JsonView)>,
    i: int,
    primary: JsonView,
    secondary: JsonView,
    now: Moment,
)
    requires
        result.get("rateLimitsByLimitId"@) == Some(JsonView::Object(entries)),
        0 <= i < entries.len(),
        entries[i].1.get("primary"@) == Some(primary) && !(primary is Null),
        entries[i].1.get("secondary"@) == Some(secondary) && !(secondary is Null),
    ensures
        ({
            let r = c.responded(PendingCallView::RateLimits, result, now).state;
            &&& !r.usage_loading
            &&& r.usage_error is None
            &&& r.plan_usage matches Some(usage) && {
                &&& usage.limits.len() == entries.len()
                &&& exists|k: int|
                    0 <= k < usage.limits.len() && (#[trigger] usage.limits[k]).id == text_or(
                        entries[i].1.text_at("limitId"@),
                        entries[i].0,
                    ) && usage.limits[k].primary == window_of(primary) && usage.limits[k].secondary
                        == window_of(secondary) && usage.limits[k].plan == text_or_empty(
                        entries[i].1.text_at("planType"@),
                    )
                &&& forall|j: int, k: int|
                    0 <= j < k < usage.limits.len() ==> !text_less(
                        (#[trigger] usage.limits[k]).name,
                        (#[trigger] usage.limits[j]).name,
                    )
            }
        }),
{
    broadcast use vstd::seq_lib::group_to_multiset_ensures;

    reveal(ControllerView::responded);
    reveal(AppStateView::with_usage);
    let all = member_limits(entries);
    let less = RateLimit::listed_before();
    lemma_limits_order();
    lemma_sorted_by(all, less);
    let listed = crate::order::sorted_by(all, less);
    let own = all[i];
    assert(all.contains(own));
    assert(all.to_multiset().count(own) > 0);
    assert(listed.to_multiset().count(own) > 0);
    assert(listed.contains(own));
    let k = choose|k: int| 0 <= k < listed.len() && listed[k] == own;
    let usage = c.responded(PendingCallView::RateLimits, result, now).state.plan_usage->0;
    assert(usage.limits == listed);
    assert(usage.limits[k].primary == window_of(primary));
    assert forall|j: int, k: int| 0 <= j < k < usage.limits.len() implies !text_less(
        (#[trigger] usage.limits[k]).name,
        (#[trigger] usage.limits[j]).name,
    ) by {
        assert(!less(listed[k], listed[j]));
    }
}

/// How full the context of a thread is, in whole percent: nothing used is none,
/// a full one is all of it, and in between no whole percent too much or too
/// little is told.
pub proof fn lemma_percent_tells_how_full(u: ContextWindowUsage)
    requires
        u.capacity_tokens > 0,
        u.used_tokens * 100 <= u64::MAX,
    ensures
        0 <= u.percent_used() <= 100,
        u.used_tokens >= u.capacity_tokens ==> u.percent_used() == 100,
        u.used_tokens < u.capacity_tokens ==> u.percent_used() * u.capacity_tokens
            <= u.used_tokens * 100 < (u.percent_used() + 1) * u.capacity_tokens,
{
    let used = u.used_tokens as int;
    let capacity = u.capacity_tokens as int;
    let q = (used * 100) / capacity;
    assert(q * capacity <= used * 100 < (q + 1) * capacity) by (nonlinear_arith)
        requires
            capacity > 0,
            q == (used * 100) / capacity,
    ;
    if used >= capacity {
        assert(q >= 100) by (nonlinear_arith)
            requires
                used >= capacity,
                capacity > 0,
                q == (used * 100) / capacity,
        ;
    } else {
        assert(q < 100) by (nonlinear_arith)
            requires
                used < capacity,
                capacity > 0,
                used >= 0,
                q == (used * 100) / capacity,
        ;
        assert(q >= 0) by (nonlinear_arith)
            requires
                capacity > 0,
                used >= 0,
                q == (used * 100) / capacity,
        ;
    }
}

/// What a thread has used of its context is what the backend last told of that
/// thread, and other threads keep theirs.
pub proof fn lemma_context_usage_is_kept(
    c: ControllerView,
    params: JsonView,
    local: Seq<char>,
    i: int,
    used: u64,
    capacity: u64,
    other: int,
)
    requires
        super::requests::local_of(c.state.runtime_threads, params) == Some(local),
        thread_at(c.state.threads, local) == Some(i),
        params.get2("tokenUsage"@, "last"@) matches Some(last) && last.u64_at("totalTokens"@)
            == Some(used),
        params.get2("tokenUsage"@, "modelContextWindow"@) == Some(JsonView::Unsigned(capacity)),
        capacity > 0,
        0 <= other < c.state.threads.len(),
    ensures
        ({
            let r = c.usage_reported(params).state;
            &&& r.threads.len() == c.state.threads.len()
            &&& r.threads[i].context_usage matches Some(u) && u.used_tokens == used
                && u.capacity_tokens == capacity
            &&& other != i ==> r.threads[other] == c.state.threads[other]
            &&& r.threads[i].messages == c.state.threads[i].messages
        }),
{
    reveal(ControllerView::usage_reported);
    reveal(AppStateView::with_thread_usage);
    lemma_first_where(c.state.threads, thread_named(local));
}

/// A call that needs no rewriting goes out as it is made, under a new id.
proof fn lemma_plain_call_goes_out(
    c: ControllerView,
    method: Seq<char>,
    params: JsonView,
    call: PendingCallView,
    now: Moment,
)
    requires
        c.backend,
        method != "turn/start"@,
    ensures
        ({
            let r = c.requested(method, params, call, now);
            &&& r.backend
            &&& r.backend_start == c.backend_start
            &&& r.outbox.len() == c.outbox.len() + 1
            &&& r.state == c.state
            &&& r.outbox.drop_last() == c.outbox
            &&& r.pending.len() > 0
            &&& r.pending.last().call == call
            &&& last_sent(r) matches Some(m) && m.text_at("method"@) == Some(method) && m.get(
                "params"@,
            ) == Some(params) && m.u64_at("id"@) == Some(c.next_id)
        }),
{
    reveal(ControllerView::requested);
    reveal(ControllerView::call_opened);
    lemma_request_members(method, c.next_id, params);
    let r = c.requested(method, params, call, now);
    assert(r.outbox.drop_last() =~= c.outbox);
}

proof fn lemma_session_methods()
    ensures
        "initialize"@ != "turn/start"@,
        "account/read"@ != "turn/start"@,
        "model/list"@ != "turn/start"@,
        "account/rateLimits/read"@ != "turn/start"@,
        "account/rateLimitResetCredit/consume"@ != "turn/start"@,
        "thread/start"@ != "turn/start"@,
{
    reveal_strlit("initialize");
    assert("initialize"@.len() == 10);
    reveal_strlit("account/read");
    assert("account/read"@.len() == 12);
    reveal_strlit("model/list");
    assert("model/list"@.len() == 10);
    reveal_strlit("account/rateLimits/read");
    assert("account/rateLimits/read"@.len() == 23);
    reveal_strlit("account/rateLimitResetCredit/consume");
    assert("account/rateLimitResetCredit/consume"@.len() == 36);
    reveal_strlit("thread/start");
    assert("thread/start"@.len() == 12);
    reveal_strlit("turn/start");
    assert("turn/start"@.len() == 10);
    assert("initialize"@[0] != "turn/start"@[0]);
    assert("model/list"@[0] != "turn/start"@[0]);
}

/// Once there is a backend the handshake goes out, naming this client and its
/// version, and is awaited.
pub proof fn lemma_handshake_goes_out(c: ControllerView, now: Moment)
    ensures
        ({
            let r = c.backend_joined(false, now);
            &&& r.backend && !r.backend_start
            &&& r.outbox.drop_last() == c.outbox
            &&& r.pending.len() > 0 && r.pending.last().call is Initialize
            &&& last_sent(r) matches Some(m) && {
                &&& m.text_at("method"@) == Some("initialize"@)
                &&& param(m, "clientInfo"@) matches Some(client) && client.text_at("name"@) == Some(
                    "ferro-code"@,
                ) && client.text_at("version"@) == Some(c.version)
            }
        }),
{
    reveal(ControllerView::backend_joined);
    lemma_session_methods();
    let b = c.starting_up(c.startup_in_progress, None).launching(false).attached(true);
    let b = b.with_state(b.state.with_connection_text("Connecting…"@));
    lemma_plain_call_goes_out(
        b,
        "initialize"@,
        initialize_view(c.version),
        PendingCallView::Initialize,
        now,
    );
    reveal_strlit("name");
    reveal_strlit("title");
    reveal_strlit("version");
    assert("name"@.len() == 4 && "title"@.len() == 5 && "version"@.len() == 7);
    let members = initialize_view(c.version)->Object_0;
    lemma_entry_value(members, "clientInfo"@, 0);
    lemma_entry_value(members[0].1->Object_0, "name"@, 0);
    lemma_entry_value(members[0].1->Object_0, "version"@, 2);
}

/// When the handshake is answered the connection stands: that is confirmed, and
/// who is signed in and what models there are is asked for, in this order.
pub proof fn lemma_answered_handshake_connects(c: ControllerView, result: JsonView, now: Moment)
    requires
        c.backend,
    ensures
        ({
            let r = c.responded(PendingCallView::Initialize, result, now);
            let n = c.outbox.len() as int;
            &&& r.state.connected
            &&& r.outbox.len() == n + 3
            &&& r.outbox.take(n) == c.outbox
            &&& r.outbox[n] matches ActionView::Send(m) && m.text_at("method"@) == Some(
                "initialized"@,
            ) && m.get("id"@) is None
            &&& r.outbox[n + 1] matches ActionView::Send(m) && m.text_at("method"@) == Some(
                "account/read"@,
            ) && m.u64_at("id"@) is Some
            &&& r.outbox[n + 2] matches ActionView::Send(m) && m.text_at("method"@) == Some(
                "model/list"@,
            ) && m.u64_at("id"@) is Some
            &&& r.pending.len() > 0 && r.pending.last().call is Models
        }),
{
    reveal(ControllerView::responded);
    reveal(ControllerView::initialized);
    reveal(ControllerView::raw_sent);
    reveal(AppStateView::with_connection);
    reveal(AppStateView::logged);
    lemma_session_methods();
    let agent = text_or(result.text_at("userAgent"@), "Codex"@);
    let notice = JsonView::Object(seq![("method"@, JsonView::Text("initialized"@))]);
    let a = c.with_state(
        c.state.with_connection(true, "Connected: "@ + agent).logged("Connected to "@ + agent),
    ).raw_sent(notice);
    lemma_entry_value(notice->Object_0, "method"@, 0);
    reveal_strlit("method");
    reveal_strlit("id");
    assert("method"@.len() != "id"@.len());
    reveal_with_fuel(crate::json::entry_value, 3);
    let account = JsonView::Object(seq![("refreshToken"@, JsonView::Bool(false))]);
    lemma_plain_call_goes_out(a, "account/read"@, account, PendingCallView::Account, now);
    let b = a.requested("account/read"@, account, PendingCallView::Account, now);
    let models = JsonView::Object(seq![("limit"@, JsonView::Unsigned(100))]);
    lemma_plain_call_goes_out(b, "model/list"@, models, PendingCallView::Models, now);
    let d = b.requested("model/list"@, models, PendingCallView::Models, now);
    let n = c.outbox.len() as int;
    assert(a.outbox[n] == ActionView::Send(notice));
    assert(b.outbox[n] == b.outbox.drop_last()[n]);
    assert(d.outbox[n] == d.outbox.drop_last()[n]);
    assert(d.outbox[n + 1] == d.outbox.drop_last()[n + 1]);
    assert(b.outbox.drop_last() =~= a.outbox);
    assert(d.outbox.drop_last() =~= b.outbox);
    assert(d.outbox.take(n) =~= c.outbox) by {
        assert forall|i: int| 0 <= i < n implies d.outbox[i] == c.outbox[i] by {
            assert(d.outbox[i] == d.outbox.drop_last()[i]);
            assert(b.outbox[i] == b.outbox.drop_last()[i]);
        }
    }
}

/// Using a reset asks for the first credit that is available, once at a time.
pub proof fn lemma_reset_uses_an_available_credit(
    c: ControllerView,
    usage: crate::model::PlanUsageView,
    credits: Seq<ResetCreditView>,
    k: int,
    now: Moment,
)
    requires
        c.backend,
        c.state.connected,
        !c.state.reset_in_progress,
        c.state.plan_usage == Some(usage),
        usage.reset_credits == Some(credits),
        0 <= k < credits.len(),
        credits[k].status == "available"@,
        forall|j: int| 0 <= j < k ==> (#[trigger] credits[j]).status != "available"@,
    ensures
        ({
            let r = c.reset_consumed(now);
            &&& r.state.reset_in_progress
            &&& r.outbox.drop_last() == c.outbox
            &&& last_sent(r) matches Some(m) && {
                &&& m.text_at("method"@) == Some("account/rateLimitResetCredit/consume"@)
                &&& param(m, "creditId"@) == Some(JsonView::Text(credits[k].id))
                &&& param(m, "idempotencyKey"@) is Some
            }
            &&& r.reset_consumed(now) == r
        }),
{
    reveal(ControllerView::reset_consumed);
    lemma_session_methods();
    let p = |x: ResetCreditView| x.status == "available"@;
    assert forall|j: int| 0 <= j < k implies !p(#[trigger] credits[j]) by {
        assert(credits[j].status != "available"@);
    }
    lemma_first_where_is(credits, p, k);
    assert(available_credit(c.state) == Some(credits[k].id));
    let params = consume_view(Some(credits[k].id), now, c.next_id);
    lemma_plain_call_goes_out(
        c.with_state(c.state.resetting(true)),
        "account/rateLimitResetCredit/consume"@,
        params,
        PendingCallView::ConsumeReset,
        now,
    );
    reveal_strlit("creditId");
    reveal_strlit("idempotencyKey");
    assert("creditId"@.len() != "idempotencyKey"@.len());
    lemma_entry_value(params->Object_0, "creditId"@, 0);
    lemma_entry_value(params->Object_0, "idempotencyKey"@, 1);
}

/// A summary that is to be written is asked for with its own prompt, in a turn
/// that may read but change nothing and asks for no approval.
pub proof fn lemma_summary_is_asked_for(
    c: ControllerView,
    job: SummaryJobView,
    thread_id: Seq<char>,
    now: Moment,
)
    requires
        c.backend,
    ensures
        ({
            let r = c.summary_started(job, Some(thread_id), now);
            &&& lookup(r.active_summaries, thread_id) matches Some(active) && active.key == job.key
                && active.target == job.target && active.output.len() == 0
            &&& r.outbox.drop_last() == c.outbox
            &&& last_sent(r) matches Some(m) && {
                &&& m.text_at("method"@) == Some("turn/start"@)
                &&& param(m, "threadId"@) == Some(JsonView::Text(thread_id))
                &&& param(m, "approvalPolicy"@) == Some(JsonView::Text("never"@))
                &&& param(m, "sandboxPolicy"@) matches Some(policy) && policy.text_at("type"@)
                    == Some("readOnly"@)
                &&& param(m, "model"@) == Some(JsonView::Text(job.model))
                &&& param(m, "input"@) matches Some(JsonView::Array(input)) && input.len() == 1
                    && input[0].text_at("text"@) == Some(job.prompt)
            }
        }),
{
    reveal(ControllerView::summary_started);
    let turn = super::PendingTurnView {
        generation: 0,
        input: seq![text_input_view(job.prompt)],
        cwd: job.cwd,
        approval_policy: "never"@,
        sandbox: "read-only"@,
        model: job.model,
        effort: job.effort,
    };
    let active = ActiveSummaryView {
        key: job.key,
        target: job.target,
        output: Seq::empty(),
        deadline: super::later(now.ticks, 180_000),
    };
    lemma_put_lookup(c.active_summaries, thread_id, active, thread_id);
    let b = c.with_summary(thread_id, active);
    assert(summary_turn_view(thread_id, job) == super::turn_start_view(thread_id, turn));
    super::exchange::lemma_turn_params(thread_id, turn);
    super::exchange::lemma_sandbox_names();
    super::exchange::lemma_input_members(job.prompt, job.prompt, false);
    reveal(ControllerView::requested);
    reveal(ControllerView::call_opened);
    let p = crate::protocol::turn_params_view(super::turn_start_view(thread_id, turn))->Ok_0;
    lemma_request_members("turn/start"@, b.next_id, p);
    let r = c.summary_started(job, Some(thread_id), now);
    assert(r.outbox.drop_last() =~= c.outbox);
}

/// What a title and a commit subject are asked for: the request of the user, and
/// what is staged.
pub proof fn lemma_summary_prompts_hold_their_subject(
    state: AppStateView,
    local: Seq<char>,
    text: Seq<char>,
    root: Seq<char>,
    snapshot: CommitSnapshotView,
)
    requires
        text.len() <= 2_000,
        snapshot.context.len() <= 24_000,
    ensures
        crate::text::ends(title_job(state, local, text).prompt, text),
        title_job(state, local, text).target == (SummaryTargetView::ThreadTitle {
            local_thread_id: local,
        }),
        title_job(state, local, text).model == state.prefs.summary_model,
        crate::text::ends(commit_job(state, root, snapshot).prompt, snapshot.context),
        commit_job(state, root, snapshot).target == (SummaryTargetView::GitCommit {
            root,
            snapshot,
        }),
        commit_job(state, root, snapshot).cwd == root,
        commit_job(state, root, snapshot).model == state.prefs.summary_model,
{
    let a = title_job(state, local, text).prompt;
    let b = commit_job(state, root, snapshot).prompt;
    assert(a.skip(a.len() - text.len()) =~= text);
    assert(b.skip(b.len() - snapshot.context.len()) =~= snapshot.context);
}

/// A line that a model can well return as a title: not empty, not long, and with
/// neither marks nor space at its ends.
pub open spec fn is_plain_title(line: Seq<char>, max: nat) -> bool {
    &&& 0 < line.len() <= max
    &&& !crate::prompt::is_wrapper(line[0])
    &&& !crate::prompt::is_wrapper(line.last())
    &&& !crate::prompt::is_stop(line.last())
    &&& !is_space(line[0])
    &&& !is_space(line.last())
    &&& forall|i: int| 0 <= i < line.len() ==> (#[trigger] line[i]) != '\n'
}

proof fn lemma_plain_title_is_kept(line: Seq<char>, max: nat)
    requires
        is_plain_title(line, max),
    ensures
        crate::prompt::summary_of(line, max) == line,
{
    crate::text::lemma_first_char(line, '\n');
    crate::text::lemma_trimmed_start(line, 0);
    assert(line.skip(0) =~= line);
    crate::text::lemma_trimmed_end(line, line.len() as int);
    assert(line.take(line.len() as int) =~= line);
    assert(trimmed(line) == line);
    assert(crate::text::text_lines(line) =~= seq![line]);
    assert(unwrapped_start(line) == line);
    assert(unwrapped_end(line) == line);
    assert(unstopped(line) == line);
}

/// The title that was written for a thread is the title of that thread, and of
/// no other.
pub proof fn lemma_written_title_is_shown(
    c: ControllerView,
    summary: ActiveSummaryView,
    local: Seq<char>,
    params: JsonView,
    i: int,
    other: int,
)
    requires
        summary.target == (SummaryTargetView::ThreadTitle { local_thread_id: local }),
        is_plain_title(summary.output, 70),
        thread_at(c.state.threads, local) == Some(i),
        0 <= other < c.state.threads.len(),
    ensures
        ({
            let r = c.summary_done(summary, params).state;
            &&& r.threads.len() == c.state.threads.len()
            &&& r.threads[i].title == summary.output
            &&& r.threads[i].messages == c.state.threads[i].messages
            &&& other != i ==> r.threads[other] == c.state.threads[other]
        }),
{
    reveal(ControllerView::summary_done);
    reveal(ControllerView::title_written);
    reveal(AppStateView::with_thread_title);
    lemma_first_where(c.state.threads, thread_named(local));
    lemma_plain_title_is_kept(summary.output, 70);
}

/// The commit that follows a written subject is of what was staged when the
/// subject was asked for, in the same directory, under that subject.
pub proof fn lemma_commit_has_the_written_subject(
    c: ControllerView,
    summary: ActiveSummaryView,
    root: Seq<char>,
    snapshot: CommitSnapshotView,
    params: JsonView,
)
    requires
        summary.target == (SummaryTargetView::GitCommit { root, snapshot }),
        is_plain_title(summary.output, 72),
    ensures
        ({
            let r = c.summary_done(summary, params);
            let failed = params.text_at2("turn"@, "status"@) == Some("failed"@);
            &&& !failed ==> r.outbox == c.outbox.push(
                ActionView::Commit { root, message: summary.output, snapshot },
            ) && r.git_action_rx
            &&& failed ==> r.outbox == c.outbox && !r.state.git_action_in_progress
        }),
{
    reveal(ControllerView::summary_done);
    reveal(ControllerView::subject_written);
    reveal(ControllerView::commit_started);
    reveal(AppStateView::with_error);
    reveal(AppStateView::logged);
    reveal_strlit("completed");
    reveal_strlit("failed");
    assert("completed"@.len() != "failed"@.len());
    lemma_plain_title_is_kept(summary.output, 72);
}

/// What the button for Git asks for: a repository where there is none, a commit
/// of what has changed, the publication of a repository that has no remote, and
/// a push of commits that the remote lacks.
pub proof fn lemma_git_button_asks_for_the_next_step(c: ControllerView, root: Seq<char>)
    requires
        !c.state.git_action_in_progress,
        c.state.project_path() == Some(root),
        c.state.git_status.installed,
        c.state.connected,
        c.state.git_status.github_configured,
    ensures
        ({
            let git = c.state.git_status;
            let r = c.git_pressed();
            let private = c.state.prefs.github_private_repositories;
            &&& !git.is_repository ==> r.outbox == c.outbox.push(
                ActionView::RunGit {
                    root,
                    action: GitAction::Initialize,
                    private_repository: private,
                },
            )
            &&& git.is_repository && git.has_changes ==> r.outbox == c.outbox.push(
                ActionView::PrepareCommit { root },
            )
            &&& git.is_repository && !git.has_changes && !git.has_github_remote ==> r.outbox
                == c.outbox.push(
                ActionView::RunGit {
                    root,
                    action: GitAction::Publish,
                    private_repository: private,
                },
            )
            &&& git.is_repository && !git.has_changes && git.has_github_remote
                && git.has_unpushed_commits ==> r.outbox == c.outbox.push(
                ActionView::RunGit {
                    root,
                    action: GitAction::Push,
                    private_repository: private,
                },
            )
            &&& git.is_repository && !git.has_changes && git.has_github_remote
                && !git.has_unpushed_commits ==> r.outbox == c.outbox
            &&& r.outbox.len() > c.outbox.len() ==> r.state.git_action_in_progress
                && r.git_pressed() == r
        }),
{
    reveal(ControllerView::git_pressed);
    reveal(ControllerView::git_started);
    reveal(ControllerView::commit_prepared_for);
    reveal(AppStateView::with_info);
}

/// Nothing is asked of Git without a project, without Git, or while it is at
/// work; without GitHub nothing is published or pushed.
pub proof fn lemma_git_button_needs_its_tools(c: ControllerView)
    ensures
        c.state.git_action_in_progress || c.state.project_path() is None
            || !c.state.git_status.installed ==> c.git_pressed().outbox == c.outbox,
        c.state.git_status.is_repository && c.state.git_status.has_changes && !c.state.connected
            ==> c.git_pressed().outbox == c.outbox,
        c.state.git_status.is_repository && !c.state.git_status.has_changes
            && !c.state.git_status.github_configured ==> c.git_pressed().outbox == c.outbox,
{
    reveal(ControllerView::git_pressed);
    reveal(AppStateView::with_info);
}

/// What an inspection of the project on screen found is shown as it was found.
pub proof fn lemma_inspection_is_shown(
    c: ControllerView,
    root: Seq<char>,
    snapshot: crate::workspace::WorkspaceSnapshotView,
)
    requires
        c.state.project_path() == Some(root),
    ensures
        ({
            let r = c.inspected(Some(root), snapshot);
            &&& r.state.files == snapshot.files
            &&& r.state.git_diff == snapshot.diff
            &&& r.state.git_status == snapshot.git
            &&& !r.state.workspace_loading
            &&& !r.workspace_rx
            &&& r.outbox == c.outbox
        }),
{
    reveal(ControllerView::inspected);
    reveal(AppStateView::snapshot_applied);
}

/// The last prompt comes back as a draft: its text and what was attached to it.
pub proof fn lemma_last_prompt_becomes_the_draft(c: ControllerView, k: int)
    requires
        0 <= k < c.state.conversation.len(),
        c.state.conversation[k].kind == ItemKind::User,
        forall|j: int|
            k < j < c.state.conversation.len() ==> (#[trigger] c.state.conversation[j]).kind
                != ItemKind::User,
    ensures
        c.prompt_restored().state.draft().text == c.state.conversation[k].body,
        c.prompt_restored().state.draft().attachments == c.state.conversation[k].attachments,
        c.prompt_restored().state.conversation == c.state.conversation,
        c.prompt_restored().outbox == c.outbox,
{
    reveal(ControllerView::prompt_restored);
    reveal(AppStateView::with_draft_under);
    let own = |i: ConversationItemView| i.kind == ItemKind::User;
    assert forall|j: int| k < j < c.state.conversation.len() implies !own(
        #[trigger] c.state.conversation[j],
    ) by {
        assert(c.state.conversation[j].kind != ItemKind::User);
    }
    lemma_last_where_is(c.state.conversation, own, k);
    crate::laws::lemma_draft_holds_what_was_left(
        c.state,
        crate::model::DraftView {
            text: c.state.conversation[k].body,
            attachments: c.state.conversation[k].attachments,
        },
        Seq::empty(),
        0,
    );
}

/// How much is used up is asked for of a user who is signed in, once at a time.
pub proof fn lemma_usage_is_asked_for(c: ControllerView, now: Moment)
    requires
        c.backend,
    ensures
        ({
            let r = c.usage_refreshed(now);
            let asked = c.state.connected && c.state.account.authenticated
                && !c.state.usage_loading;
            &&& !asked ==> r == c
            &&& asked ==> {
                &&& r.state.usage_loading
                &&& r.outbox.drop_last() == c.outbox
                &&& last_sent(r) matches Some(m) && m.text_at("method"@) == Some(
                    "account/rateLimits/read"@,
                )
                &&& r.usage_refreshed(now) == r
            }
        }),
{
    reveal(ControllerView::usage_refreshed);
    reveal(AppStateView::usage_requested);
    lemma_session_methods();
    let b = c.with_state(c.state.usage_requested());
    lemma_plain_call_goes_out(
        b,
        "account/rateLimits/read"@,
        JsonView::Null,
        PendingCallView::RateLimits,
        now,
    );
}

proof fn lemma_usage_keeps_toast(c: ControllerView, now: Moment)
    requires
        c.backend,
    ensures
        c.usage_refreshed(now).state.toast == c.state.toast,
        c.usage_refreshed(now).state.reset_in_progress == c.state.reset_in_progress,
{
    lemma_usage_is_asked_for(c, now);
    reveal(ControllerView::usage_refreshed);
    reveal(AppStateView::usage_requested);
    lemma_session_methods();
    lemma_plain_call_goes_out(
        c.with_state(c.state.usage_requested()),
        "account/rateLimits/read"@,
        JsonView::Null,
        PendingCallView::RateLimits,
        now,
    );
}

/// What came of using a reset is told: as an error unless the usage was reset,
/// now or before.
pub proof fn lemma_reset_outcome_is_told(c: ControllerView, result: JsonView, outcome: Seq<char>, now: Moment)
    requires
        c.backend,
        result.text_at("outcome"@) == Some(outcome),
    ensures
        ({
            let r = c.responded(PendingCallView::ConsumeReset, result, now).state;
            &&& !r.reset_in_progress
            &&& r.toast matches Some(t) && t.is_error == (outcome != "reset"@ && outcome
                != "alreadyRedeemed"@)
            &&& outcome == "reset"@ ==> r.toast->0.message == "Codex plan usage was reset"@
            &&& outcome == "noCredit"@ ==> r.toast->0.message == "No usage resets are available"@
        }),
{
    reveal(ControllerView::responded);
    reveal(ControllerView::reset_answered);
    reveal(AppStateView::with_info);
    reveal(AppStateView::with_error);
    reveal(AppStateView::logged);
    reveal_strlit("reset");
    reveal_strlit("alreadyRedeemed");
    reveal_strlit("nothingToReset");
    reveal_strlit("noCredit");
    assert("reset"@.len() == 5 && "alreadyRedeemed"@.len() == 15 && "nothingToReset"@.len() == 14
        && "noCredit"@.len() == 8);
    let s = c.state.resetting(false);
    let told = if outcome == "reset"@ {
        s.with_info("Codex plan usage was reset"@)
    } else if outcome == "alreadyRedeemed"@ {
        s.with_info("This reset was already applied"@)
    } else if outcome == "nothingToReset"@ {
        s.with_error("None of the current usage windows can be reset yet"@)
    } else if outcome == "noCredit"@ {
        s.with_error("No usage resets are available"@)
    } else {
        s.with_error("Codex returned an unknown reset result: "@ + outcome)
    };
    lemma_usage_keeps_toast(c.with_state(told), now);
}

/// The credits that the backend lists are kept in their order, each with its id
/// and whether it is available.
pub proof fn lemma_credits_are_kept(values: Seq<JsonView>, i: int)
    requires
        forall|j: int| 0 <= j < values.len() ==> (#[trigger] values[j]).text_at("id"@) is Some,
        0 <= i < values.len(),
    ensures
        ({
            let credits = crate::model::reset_credits_of(values);
            &&& credits.len() == values.len()
            &&& Some(credits[i].id) == values[i].text_at("id"@)
            &&& values[i].text_at("status"@) is Some ==> Some(credits[i].status)
                == values[i].text_at("status"@)
            &&& credits[i].expires_at == values[i].i64_at("expiresAt"@)
        }),
    decreases values.len(),
{
    let front = values.drop_last();
    let credits = crate::model::reset_credits_of(values);
    let before = crate::model::reset_credits_of(front);
    assert(values[values.len() - 1].text_at("id"@) is Some);
    if front.len() > 0 {
        assert forall|j: int| 0 <= j < front.len() implies (#[trigger] front[j]).text_at("id"@) is Some by {
            assert(front[j] == values[j]);
        }
        if i < front.len() {
            lemma_credits_are_kept(front, i);
            assert(credits[i] == before[i]);
            assert(front[i] == values[i]);
        } else {
            lemma_credits_are_kept(front, 0);
        }
    } else {
        assert(before.len() == 0);
    }
}

/// A commit is prepared and then asked a subject for: in the directory that was
/// staged, with what is staged, once; what could not be staged is told.
pub proof fn lemma_prepared_commit_asks_for_a_subject(
    c: ControllerView,
    root: Seq<char>,
    snapshot: CommitSnapshotView,
    error: Seq<char>,
    now: Moment,
)
    requires
        c.backend,
        c.state.connected,
        !has_key(c.summary_pending, "git-commit:"@ + root),
    ensures
        ({
            let r = c.commit_prepared(root, Ok(snapshot), now);
            &&& !r.commit_prepare_rx
            &&& r.state.git_action_in_progress
            &&& r.outbox.drop_last() == c.outbox
            &&& last_sent(r) matches Some(m) && m.text_at("method"@) == Some("thread/start"@)
            &&& r.pending.len() > 0
            &&& r.pending.last().call matches PendingCallView::SummaryThreadStart(job) && job.target
                == (SummaryTargetView::GitCommit { root, snapshot }) && job.cwd == root
        }),
        ({
            let r = c.commit_prepared(root, Err(error), now);
            &&& !r.commit_prepare_rx && !r.state.git_action_in_progress
            &&& r.outbox == c.outbox
            &&& r.state.toast matches Some(t) && t.is_error && t.message == error
        }),
{
    reveal(ControllerView::commit_prepared);
    reveal(ControllerView::subject_asked);
    reveal(AppStateView::with_error);
    reveal(AppStateView::logged);
    lemma_session_methods();
    let b = c.preparing_commit(false);
    let job = commit_job(c.state, root, snapshot);
    let d = b.summary_opened(job.key).git_begun();
    lemma_plain_call_goes_out(
        d,
        "thread/start"@,
        super::prompts::summary_thread_view(job.cwd, job.model),
        PendingCallView::SummaryThreadStart(job),
        now,
    );
    reveal(ControllerView::requested);
    reveal(ControllerView::call_opened);
}

/// Marks round a written title and a stop behind it are taken off.
pub proof fn lemma_marks_are_taken_off(line: Seq<char>, max: nat, mark: char, stop: char)
    requires
        is_plain_title(line, max),
        mark == '"' || mark == '\'' || mark == '`' || mark == '*' || mark == '#',
        stop == '.' || stop == ',' || stop == ':' || stop == ';' || stop == '!' || stop == '?',
    ensures
        crate::prompt::bare_line(line) == line,
        crate::prompt::bare_line(line.push(stop)) == line,
        crate::prompt::bare_line((seq![mark] + line).push(mark)) == line,
        crate::prompt::bare_line((seq![mark] + line.push(stop)).push(mark)) == line,
{
    crate::text::lemma_trimmed_start(line, 0);
    assert(line.skip(0) =~= line);
    crate::text::lemma_trimmed_end(line, line.len() as int);
    assert(line.take(line.len() as int) =~= line);
    assert(unwrapped_start(line) == line);
    assert(unwrapped_end(line) == line);
    assert(unstopped(line) == line);
    let stopped = line.push(stop);
    assert(stopped[0] == line[0]);
    assert(unwrapped_start(stopped) == stopped);
    assert(unwrapped_end(stopped) == stopped);
    assert(stopped.drop_last() =~= line);
    assert(unstopped(stopped) == line);
    let marked = (seq![mark] + line).push(mark);
    assert(marked[0] == mark);
    assert(marked.drop_first() =~= line.push(mark));
    assert(line.push(mark)[0] == line[0]);
    assert(unwrapped_start(line.push(mark)) == line.push(mark));
    assert(unwrapped_start(marked) == line.push(mark));
    assert(line.push(mark).drop_last() =~= line);
    assert(unwrapped_end(line.push(mark)) == line);
    let both = (seq![mark] + stopped).push(mark);
    assert(both[0] == mark);
    assert(both.drop_first() =~= stopped.push(mark));
    assert(stopped.push(mark)[0] == line[0]);
    assert(unwrapped_start(stopped.push(mark)) == stopped.push(mark));
    assert(unwrapped_start(both) == stopped.push(mark));
    assert(stopped.push(mark).drop_last() =~= stopped);
    assert(unwrapped_end(stopped.push(mark)) == stopped);
}

/// A commit for which no subject can be asked is told of as an error, and the
/// next action may come.
pub proof fn lemma_failed_subject_is_told(
    c: ControllerView,
    job: SummaryJobView,
    root: Seq<char>,
    snapshot: CommitSnapshotView,
    now: Moment,
)
    requires
        job.target == (SummaryTargetView::GitCommit { root, snapshot }),
    ensures
        ({
            let r = c.summary_started(job, None, now);
            &&& !r.state.git_action_in_progress
            &&& r.state.toast matches Some(t) && t.is_error
            &&& r.outbox == c.outbox
        }),
{
    reveal(ControllerView::summary_started);
    reveal(AppStateView::with_error);
    reveal(AppStateView::logged);
}

} // verus!
