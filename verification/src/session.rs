//! What the backend's answers and the user's requests do to the state.
use crate::formatting::{find_model, model_at};
use crate::items::values_at;
use crate::json::{Json, JsonView};
use crate::model::{
    agent_filled, owned_or, owned_or_empty, text_or, text_or_empty, AccountInfo, AccountInfoView,
    Approval, ApprovalView, LocalThread, LocalThreadView, ModelOption, ModelOptionView,
    Preferences, PreferencesView, RateLimit, RateLimitView,
};
use crate::state::{contains_text, is_id, QuestionRequest, QuestionRequestView};
use crate::table::{first_where, lemma_first_where_is, lemma_first_where_none};
use crate::text::{contains, has_text, lower_text, to_ascii_lowercase};
use vstd::prelude::*;
use vstd::string::*;

verus! {

/// The efforts that a model lists.
pub open spec fn efforts_of(values: Seq<JsonView>) -> Seq<Seq<char>>
    decreases values.len(),
{
    if values.len() == 0 {
        Seq::empty()
    } else {
        let before = efforts_of(values.drop_last());
        match effort_of(values.last()) {
            Some(e) => before.push(e),
            None => before,
        }
    }
}

/// The name of an effort, under its newer key if that is there.
pub open spec fn effort_of(value: JsonView) -> Option<Seq<char>> {
    match value.get("reasoningEffort"@) {
        Some(v) => v.as_text(),
        None => value.text_at("effort"@),
    }
}

/// The id of a model, under its newer key if that is there.
pub open spec fn model_id_of(value: JsonView) -> Option<Seq<char>> {
    match value.get("model"@) {
        Some(v) => v.as_text(),
        None => value.text_at("id"@),
    }
}

/// The model that a value describes, unless it is hidden or has no id.
pub open spec fn model_of(value: JsonView) -> Option<ModelOptionView> {
    if value.bool_at("hidden"@) == Some(true) {
        None
    } else {
        match model_id_of(value) {
            Some(id) => Some(
                ModelOptionView {
                    id,
                    display_name: text_or(value.text_at("displayName"@), id),
                    description: text_or_empty(value.text_at("description"@)),
                    efforts: efforts_of(values_at(value, "supportedReasoningEfforts"@)),
                    default_effort: text_or(value.text_at("defaultReasoningEffort"@), "high"@),
                    is_default: value.bool_at("isDefault"@) == Some(true),
                },
            ),
            None => None,
        }
    }
}

/// The models among the values.
pub open spec fn models_of(values: Seq<JsonView>) -> Seq<ModelOptionView>
    decreases values.len(),
{
    if values.len() == 0 {
        Seq::empty()
    } else {
        let before = models_of(values.drop_last());
        match model_of(values.last()) {
            Some(m) => before.push(m),
            None => before,
        }
    }
}

fn effort_name(value: &Json) -> (r: Option<&str>)
    ensures
        r.deep_view() == effort_of(value.deep_view()),
{
    match value.get("reasoningEffort") {
        Some(v) => v.as_text(),
        None => value.text_at("effort"),
    }
}

fn read_efforts(value: &Json) -> (r: Vec<String>)
    ensures
        r.deep_view() == efforts_of(values_at(value.deep_view(), "supportedReasoningEfforts"@)),
{
    let mut out: Vec<String> = Vec::new();
    match value.array_at("supportedReasoningEfforts") {
        Some(values) => {
            let ghost all = values.deep_view();
            let mut i: usize = 0;
            assert(out.deep_view() =~= efforts_of(all.take(0)));
            while i < values.len()
                invariant
                    i <= values@.len(),
                    all == values.deep_view(),
                    out.deep_view() == efforts_of(all.take(i as int)),
                decreases values@.len() - i,
            {
                assert(all.take(i as int + 1).drop_last() =~= all.take(i as int));
                let ghost before = out.deep_view();
                match effort_name(&values[i]) {
                    Some(e) => {
                        out.push(e.to_owned());
                        assert(out.deep_view() =~= before.push(e@));
                    },
                    None => {},
                }
                i += 1;
            }
            assert(all.take(i as int) =~= all);
        },
        None => {
            assert(out.deep_view() =~= Seq::empty());
        },
    }
    out
}

fn read_model(value: &Json) -> (r: Option<ModelOption>)
    ensures
        r.deep_view() == model_of(value.deep_view()),
{
    let hidden = match value.bool_at("hidden") {
        Some(b) => b,
        None => false,
    };
    if hidden {
        return None;
    }
    let id = match value.get("model") {
        Some(v) => v.as_text(),
        None => value.text_at("id"),
    };
    match id {
        Some(id) => Some(
            ModelOption {
                id: id.to_owned(),
                display_name: owned_or(value.text_at("displayName"), id),
                description: owned_or_empty(value.text_at("description")),
                efforts: read_efforts(value),
                default_effort: owned_or(value.text_at("defaultReasoningEffort"), "high"),
                is_default: match value.bool_at("isDefault") {
                    Some(b) => b,
                    None => false,
                },
            },
        ),
        None => None,
    }
}

pub fn read_models(result: &Json) -> (r: Vec<ModelOption>)
    ensures
        r.deep_view() == models_of(values_at(result.deep_view(), "data"@)),
{
    let mut out: Vec<ModelOption> = Vec::new();
    match result.array_at("data") {
        Some(values) => {
            let ghost all = values.deep_view();
            let mut i: usize = 0;
            assert(out.deep_view() =~= models_of(all.take(0)));
            while i < values.len()
                invariant
                    i <= values@.len(),
                    all == values.deep_view(),
                    out.deep_view() == models_of(all.take(i as int)),
                decreases values@.len() - i,
            {
                assert(all.take(i as int + 1).drop_last() =~= all.take(i as int));
                let ghost before = out.deep_view();
                match read_model(&values[i]) {
                    Some(m) => {
                        let ghost view = m.deep_view();
                        out.push(m);
                        assert(out.deep_view() =~= before.push(view));
                    },
                    None => {},
                }
                i += 1;
            }
            assert(all.take(i as int) =~= all);
        },
        None => {
            assert(out.deep_view() =~= Seq::empty());
        },
    }
    out
}

/// The model to start with: the one marked as default, else the first.
pub open spec fn starting_model(models: Seq<ModelOptionView>) -> Option<ModelOptionView> {
    match first_where(models, |m: ModelOptionView| m.is_default) {
        Some(i) => Some(models[i]),
        None => if models.len() > 0 {
            Some(models[0])
        } else {
            None
        },
    }
}

/// The model that summaries are made with by default.
pub open spec fn is_luna(m: ModelOptionView) -> bool {
    has_text(lower_text(m.display_name), "5.6-luna"@) || has_text(lower_text(m.id), "5.6-luna"@)
}

/// The model chosen when none was.
pub open spec fn prefs_with_model(p: PreferencesView, models: Seq<ModelOptionView>) -> PreferencesView {
    match starting_model(models) {
        Some(m) => if p.model.len() == 0 {
            PreferencesView { model: m.id, effort: m.default_effort, ..p }
        } else {
            p
        },
        None => p,
    }
}

/// A summary model that is not offered gives way to the default one.
pub open spec fn prefs_with_summary_model(
    p: PreferencesView,
    models: Seq<ModelOptionView>,
) -> PreferencesView {
    match first_where(models, |m: ModelOptionView| is_luna(m)) {
        Some(i) => if model_at(models, p.summary_model) is None {
            PreferencesView { summary_model: models[i].id, ..p }
        } else {
            p
        },
        None => p,
    }
}

/// A summary effort that the summary model does not offer gives way to the low
/// one, else to its default.
pub open spec fn prefs_with_summary_effort(
    p: PreferencesView,
    models: Seq<ModelOptionView>,
) -> PreferencesView {
    match model_at(models, p.summary_model) {
        Some(i) => {
            let m = models[i];
            if m.efforts.len() == 0 || m.efforts.contains(p.summary_effort) {
                p
            } else if m.efforts.contains("low"@) {
                PreferencesView { summary_effort: "low"@, ..p }
            } else {
                PreferencesView { summary_effort: m.default_effort, ..p }
            }
        },
        None => p,
    }
}

/// The preferences once the models are known.
pub open spec fn prefs_with_models(p: PreferencesView, models: Seq<ModelOptionView>) -> PreferencesView {
    prefs_with_summary_effort(prefs_with_summary_model(prefs_with_model(p, models), models), models)
}

pub open spec fn threads_filled(threads: Seq<LocalThreadView>, p: PreferencesView) -> Seq<LocalThreadView> {
    Seq::new(
        threads.len(),
        |i: int| LocalThreadView { agent: agent_filled(threads[i].agent, p), ..threads[i] },
    )
}

fn find_starting_model(models: &Vec<ModelOption>) -> (r: Option<usize>)
    ensures
        match r {
            Some(i) => i < models@.len() && starting_model(models.deep_view()) == Some(
                models@[i as int].deep_view(),
            ),
            None => starting_model(models.deep_view()) is None,
        },
{
    let ghost all = models.deep_view();
    let ghost p = |m: ModelOptionView| m.is_default;
    let mut i: usize = 0;
    while i < models.len()
        invariant
            i <= models@.len(),
            all == models.deep_view(),
            p == (|m: ModelOptionView| m.is_default),
            forall|j: int| 0 <= j < i ==> !p(#[trigger] all[j]),
        decreases models@.len() - i,
    {
        assert(all[i as int] == models@[i as int].deep_view());
        if models[i].is_default {
            proof {
                lemma_first_where_is(all, p, i as int);
            }
            return Some(i);
        }
        i += 1;
    }
    proof {
        lemma_first_where_none(all, p);
    }
    if models.len() > 0 {
        assert(all[0] == models@[0].deep_view());
        Some(0)
    } else {
        None
    }
}

fn find_luna(models: &Vec<ModelOption>) -> (r: Option<usize>)
    ensures
        match r {
            Some(i) => i < models@.len() && first_where(
                models.deep_view(),
                |m: ModelOptionView| is_luna(m),
            ) == Some(i as int),
            None => first_where(models.deep_view(), |m: ModelOptionView| is_luna(m)) is None,
        },
{
    let ghost all = models.deep_view();
    let ghost p = |m: ModelOptionView| is_luna(m);
    let mut i: usize = 0;
    while i < models.len()
        invariant
            i <= models@.len(),
            all == models.deep_view(),
            p == (|m: ModelOptionView| is_luna(m)),
            forall|j: int| 0 <= j < i ==> !p(#[trigger] all[j]),
        decreases models@.len() - i,
    {
        assert(all[i as int] == models@[i as int].deep_view());
        let shown = to_ascii_lowercase(models[i].display_name.as_str());
        let id = to_ascii_lowercase(models[i].id.as_str());
        if contains(shown.as_str(), "5.6-luna") || contains(id.as_str(), "5.6-luna") {
            proof {
                lemma_first_where_is(all, p, i as int);
            }
            return Some(i);
        }
        i += 1;
    }
    proof {
        lemma_first_where_none(all, p);
    }
    None
}

impl Preferences {
    fn choose_model(&mut self, models: &Vec<ModelOption>)
        ensures
            final(self).deep_view() == prefs_with_model(old(self).deep_view(), models.deep_view()),
    {
        if self.model.as_str().is_empty() {
            match find_starting_model(models) {
                Some(i) => {
                    self.model = models[i].id.clone();
                    self.effort = models[i].default_effort.clone();
                },
                None => {},
            }
        }
    }

    fn choose_summary_model(&mut self, models: &Vec<ModelOption>)
        ensures
            final(self).deep_view() == prefs_with_summary_model(
                old(self).deep_view(),
                models.deep_view(),
            ),
    {
        match find_model(models, self.summary_model.as_str()) {
            Some(_) => {},
            None => match find_luna(models) {
                Some(i) => {
                    self.summary_model = models[i].id.clone();
                },
                None => {},
            },
        }
    }

    fn choose_summary_effort(&mut self, models: &Vec<ModelOption>)
        ensures
            final(self).deep_view() == prefs_with_summary_effort(
                old(self).deep_view(),
                models.deep_view(),
            ),
    {
        match find_model(models, self.summary_model.as_str()) {
            Some(i) => {
                let m = &models[i];
                if m.efforts.len() == 0 || contains_text(&m.efforts, self.summary_effort.as_str()) {
                } else if contains_text(&m.efforts, "low") {
                    self.summary_effort = "low".to_owned();
                } else {
                    self.summary_effort = m.default_effort.clone();
                }
            },
            None => {},
        }
    }

    /// Fits the preferences to the models that are offered.
    pub fn fit_models(&mut self, models: &Vec<ModelOption>)
        ensures
            final(self).deep_view() == prefs_with_models(old(self).deep_view(), models.deep_view()),
    {
        self.choose_model(models);
        self.choose_summary_model(models);
        self.choose_summary_effort(models);
    }
}

pub fn fill_agents(threads: &mut Vec<LocalThread>, prefs: &Preferences)
    ensures
        final(threads).deep_view() == threads_filled(old(threads).deep_view(), prefs.deep_view()),
{
    let ghost before = threads.deep_view();
    let mut i: usize = 0;
    while i < threads.len()
        invariant
            i <= threads@.len(),
            threads@.len() == before.len(),
            forall|j: int|
                0 <= j < i ==> (#[trigger] threads@[j]).deep_view() == threads_filled(
                    before,
                    prefs.deep_view(),
                )[j],
            forall|j: int| i <= j < before.len() ==> (#[trigger] threads@[j]).deep_view() == before[j],
        decreases threads@.len() - i,
    {
        threads[i].agent.fill_missing_from(prefs);
        i += 1;
    }
    assert(threads.deep_view() =~= threads_filled(before, prefs.deep_view()));
}

/// The account that the backend reports.
pub open spec fn account_of(result: JsonView) -> AccountInfoView {
    let account = result.present("account"@);
    AccountInfoView {
        authenticated: account is Some,
        label: match account {
            Some(a) => text_or(
                match a.get("email"@) {
                    Some(v) => v.as_text(),
                    None => a.text_at("name"@),
                },
                "ChatGPT account"@,
            ),
            None => "Not signed in"@,
        },
        plan: match account {
            Some(a) => text_or_empty(a.text_at("planType"@)),
            None => Seq::empty(),
        },
    }
}

pub fn read_account(result: &Json) -> (r: AccountInfo)
    ensures
        r.deep_view() == account_of(result.deep_view()),
{
    match result.present("account") {
        Some(account) => {
            let label = match account.get("email") {
                Some(v) => v.as_text(),
                None => account.text_at("name"),
            };
            AccountInfo {
                label: owned_or(label, "ChatGPT account"),
                plan: owned_or_empty(account.text_at("planType")),
                authenticated: true,
            }
        },
        None => AccountInfo {
            label: "Not signed in".to_owned(),
            plan: String::new(),
            authenticated: false,
        },
    }
}

/// The first plan that a limit names, else the one known before.
pub open spec fn plan_of(limits: Seq<RateLimitView>, before: Seq<char>) -> Seq<char> {
    match first_where(limits, |l: RateLimitView| l.plan.len() > 0) {
        Some(i) => limits[i].plan,
        None => before,
    }
}

pub fn plan_named(limits: &Vec<RateLimit>, before: &str) -> (r: String)
    ensures
        r@ == plan_of(limits.deep_view(), before@),
{
    let ghost all = limits.deep_view();
    let ghost p = |l: RateLimitView| l.plan.len() > 0;
    let mut i: usize = 0;
    while i < limits.len()
        invariant
            i <= limits@.len(),
            all == limits.deep_view(),
            p == (|l: RateLimitView| l.plan.len() > 0),
            forall|j: int| 0 <= j < i ==> !p(#[trigger] all[j]),
        decreases limits@.len() - i,
    {
        assert(all[i as int] == limits@[i as int].deep_view());
        if !limits[i].plan.as_str().is_empty() {
            proof {
                lemma_first_where_is(all, p, i as int);
            }
            return limits[i].plan.clone();
        }
        i += 1;
    }
    proof {
        lemma_first_where_none(all, p);
    }
    before.to_owned()
}

/// The approvals that another thread asked for.
pub open spec fn approvals_of_others(queue: Seq<ApprovalView>, id: Seq<char>) -> Seq<ApprovalView>
    decreases queue.len(),
{
    if queue.len() == 0 {
        queue
    } else if queue[0].local_thread_id == Some(id) {
        approvals_of_others(queue.drop_first(), id)
    } else {
        seq![queue[0]] + approvals_of_others(queue.drop_first(), id)
    }
}

/// The questions that another thread asked.
pub open spec fn questions_of_others(queue: Seq<QuestionRequestView>, id: Seq<char>) -> Seq<
    QuestionRequestView,
>
    decreases queue.len(),
{
    if queue.len() == 0 {
        queue
    } else if queue[0].local_thread_id == Some(id) {
        questions_of_others(queue.drop_first(), id)
    } else {
        seq![queue[0]] + questions_of_others(queue.drop_first(), id)
    }
}

pub fn drop_approvals(queue: &mut Vec<Approval>, id: &str)
    ensures
        final(queue).deep_view() == approvals_of_others(old(queue).deep_view(), id@),
{
    let ghost before = queue.deep_view();
    let mut i: usize = 0;
    assert(before.skip(0) =~= before);
    assert(before.take(0) + approvals_of_others(before, id@) =~= approvals_of_others(before, id@));
    while i < queue.len()
        invariant
            i <= queue@.len(),
            approvals_of_others(before, id@) == queue.deep_view().take(i as int)
                + approvals_of_others(queue.deep_view().skip(i as int), id@),
        decreases queue@.len() - i,
    {
        let ghost now = queue.deep_view();
        let ghost rest = now.skip(i as int);
        assert(rest[0] == now[i as int]);
        assert(now[i as int] == queue@[i as int].deep_view());
        if is_id(&queue[i].local_thread_id, id) {
            let _gone = queue.remove(i);
            proof {
                assert(queue.deep_view() =~= now.remove(i as int));
                assert(queue.deep_view().take(i as int) =~= now.take(i as int));
                assert(queue.deep_view().skip(i as int) =~= rest.drop_first());
            }
        } else {
            proof {
                assert(now.skip(i as int + 1) =~= rest.drop_first());
                assert(now.take(i as int) + (seq![rest[0]] + approvals_of_others(
                    rest.drop_first(),
                    id@,
                )) =~= now.take(i as int + 1) + approvals_of_others(now.skip(i as int + 1), id@));
            }
            i += 1;
        }
    }
    proof {
        assert(queue.deep_view().skip(i as int).len() == 0);
        assert(queue.deep_view() =~= approvals_of_others(before, id@));
    }
}

pub fn drop_questions(queue: &mut Vec<QuestionRequest>, id: &str)
    ensures
        final(queue).deep_view() == questions_of_others(old(queue).deep_view(), id@),
{
    let ghost before = queue.deep_view();
    let mut i: usize = 0;
    assert(before.skip(0) =~= before);
    assert(before.take(0) + questions_of_others(before, id@) =~= questions_of_others(before, id@));
    while i < queue.len()
        invariant
            i <= queue@.len(),
            questions_of_others(before, id@) == queue.deep_view().take(i as int)
                + questions_of_others(queue.deep_view().skip(i as int), id@),
        decreases queue@.len() - i,
    {
        let ghost now = queue.deep_view();
        let ghost rest = now.skip(i as int);
        assert(rest[0] == now[i as int]);
        assert(now[i as int] == queue@[i as int].deep_view());
        if is_id(&queue[i].local_thread_id, id) {
            let _gone = queue.remove(i);
            proof {
                assert(queue.deep_view() =~= now.remove(i as int));
                assert(queue.deep_view().take(i as int) =~= now.take(i as int));
                assert(queue.deep_view().skip(i as int) =~= rest.drop_first());
            }
        } else {
            proof {
                assert(now.skip(i as int + 1) =~= rest.drop_first());
                assert(now.take(i as int) + (seq![rest[0]] + questions_of_others(
                    rest.drop_first(),
                    id@,
                )) =~= now.take(i as int + 1) + questions_of_others(now.skip(i as int + 1), id@));
            }
            i += 1;
        }
    }
    proof {
        assert(queue.deep_view().skip(i as int).len() == 0);
        assert(queue.deep_view() =~= questions_of_others(before, id@));
    }
}

} // verus!
