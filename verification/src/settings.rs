//! The settings as the user changes them.
use crate::controller::{Controller, ControllerView};
use crate::model::{
    agent_of_preferences, ApprovalChoice, ModelOption, ModelOptionView, PreferencesView,
    SandboxChoice, ThreadAgentSettingsView,
};
use crate::state::{contains_text, thread_named, AppState, AppStateView};
use crate::table::{first_where, lemma_first_where, lemma_first_where_is, lemma_first_where_none};
use crate::text::same_text;
use vstd::prelude::*;
use vstd::string::*;

verus! {

/// Models with a display name.
pub open spec fn model_shown_as(name: Seq<char>) -> spec_fn(ModelOptionView) -> bool {
    |m: ModelOptionView| m.display_name == name
}

/// The first model with a display name.
pub open spec fn model_by_name(models: Seq<ModelOptionView>, name: Seq<char>) -> Option<ModelOptionView> {
    match first_where(models, model_shown_as(name)) {
        Some(i) => Some(models[i]),
        None => None,
    }
}

fn find_model_by_name(models: &Vec<ModelOption>, name: &str) -> (r: Option<usize>)
    ensures
        match r {
            Some(i) => i < models@.len() && model_by_name(models.deep_view(), name@) == Some(
                models@[i as int].deep_view(),
            ),
            None => model_by_name(models.deep_view(), name@) is None,
        },
{
    let ghost all = models.deep_view();
    let mut i: usize = 0;
    while i < models.len()
        invariant
            i <= models@.len(),
            all == models.deep_view(),
            forall|j: int| 0 <= j < i ==> !model_shown_as(name@)(#[trigger] all[j]),
        decreases models@.len() - i,
    {
        assert(all[i as int] == models@[i as int].deep_view());
        if same_text(models[i].display_name.as_str(), name) {
            proof {
                lemma_first_where_is(all, model_shown_as(name@), i as int);
            }
            return Some(i);
        }
        i += 1;
    }
    proof {
        lemma_first_where_none(all, model_shown_as(name@));
    }
    None
}

/// The sandbox that a label stands for, the workspace for an unknown one.
pub open spec fn sandbox_labelled(label: Seq<char>) -> SandboxChoice {
    match SandboxChoice::of_label(label) {
        Some(choice) => choice,
        None => SandboxChoice::WorkspaceWrite,
    }
}

fn sandbox_of_label(label: &str) -> (r: SandboxChoice)
    ensures
        r == sandbox_labelled(label@),
{
    match SandboxChoice::from_label(label) {
        Some(choice) => choice,
        None => SandboxChoice::WorkspaceWrite,
    }
}

/// The approval policy that a label stands for, on request for an unknown one.
pub open spec fn approval_labelled(label: Seq<char>) -> ApprovalChoice {
    match ApprovalChoice::of_label(label) {
        Some(choice) => choice,
        None => ApprovalChoice::OnRequest,
    }
}

fn approval_of_label(label: &str) -> (r: ApprovalChoice)
    ensures
        r == approval_labelled(label@),
{
    match ApprovalChoice::from_label(label) {
        Some(choice) => choice,
        None => ApprovalChoice::OnRequest,
    }
}

/// The limit that a number from the interface means.
pub open spec fn limit_of_number(n: i32) -> u32 {
    if n < 1 {
        1
    } else if n > 100 {
        100
    } else {
        n as u32
    }
}

impl AppStateView {
    pub open spec fn with_prefs(self, prefs: PreferencesView) -> AppStateView {
        AppStateView { prefs, ..self }
    }

    /// A model is chosen by name for the active thread.
    #[verifier::opaque]
    pub open spec fn named_model_selected(self, name: Seq<char>) -> AppStateView {
        match model_by_name(self.models, name) {
            Some(m) => self.model_selected(m.id, m.default_effort, m.efforts),
            None => self,
        }
    }

    /// A sandbox is chosen for the active thread.
    #[verifier::opaque]
    pub open spec fn sandbox_selected(self, label: Seq<char>) -> AppStateView {
        match self.active_thread_index() {
            Some(i) => self.with_agent(
                i,
                ThreadAgentSettingsView {
                    sandbox: Some(sandbox_labelled(label)),
                    ..self.threads[i].agent
                },
            ).touched(),
            None => self,
        }
    }

    /// A model is chosen for new threads; an effort that it does not offer
    /// gives way to its default.
    #[verifier::opaque]
    pub open spec fn default_model_selected(self, name: Seq<char>) -> AppStateView {
        match model_by_name(self.models, name) {
            Some(m) => self.with_prefs(
                PreferencesView {
                    model: m.id,
                    effort: if m.efforts.contains(self.prefs.effort) {
                        self.prefs.effort
                    } else {
                        m.default_effort
                    },
                    ..self.prefs
                },
            ).touched(),
            None => self,
        }
    }

    #[verifier::opaque]
    pub open spec fn default_effort_selected(self, effort: Seq<char>) -> AppStateView {
        self.with_prefs(PreferencesView { effort, ..self.prefs }).touched()
    }

    #[verifier::opaque]
    pub open spec fn default_sandbox_selected(self, label: Seq<char>) -> AppStateView {
        self.with_prefs(
            PreferencesView { sandbox: sandbox_labelled(label), ..self.prefs },
        ).touched()
    }

    #[verifier::opaque]
    pub open spec fn approval_selected(self, label: Seq<char>) -> AppStateView {
        self.with_prefs(
            PreferencesView { approval: approval_labelled(label), ..self.prefs },
        ).touched()
    }

    /// A model is chosen for summaries; an effort that it does not offer gives
    /// way to the low one, else to its default.
    #[verifier::opaque]
    pub open spec fn summary_model_selected(self, name: Seq<char>) -> AppStateView {
        match model_by_name(self.models, name) {
            Some(m) => self.with_prefs(
                PreferencesView {
                    summary_model: m.id,
                    summary_effort: if m.efforts.contains(self.prefs.summary_effort) {
                        self.prefs.summary_effort
                    } else if m.efforts.contains("low"@) {
                        "low"@
                    } else {
                        m.default_effort
                    },
                    ..self.prefs
                },
            ).touched(),
            None => self,
        }
    }

    #[verifier::opaque]
    pub open spec fn summary_effort_selected(self, effort: Seq<char>) -> AppStateView {
        self.with_prefs(PreferencesView { summary_effort: effort, ..self.prefs }).touched()
    }

    #[verifier::opaque]
    pub open spec fn inspector_set(self, visible: bool) -> AppStateView {
        if self.prefs.show_inspector != visible {
            self.with_prefs(PreferencesView { show_inspector: visible, ..self.prefs }).touched()
        } else {
            self
        }
    }

    pub open spec fn gitignore_set(self, respect: bool) -> AppStateView {
        self.with_prefs(PreferencesView { respect_gitignore: respect, ..self.prefs }).touched()
    }

    #[verifier::opaque]
    pub open spec fn thread_limit_set(self, limit: i32) -> AppStateView {
        if self.prefs.visible_thread_limit != limit_of_number(limit) {
            self.with_prefs(
                PreferencesView { visible_thread_limit: limit_of_number(limit), ..self.prefs },
            ).touched()
        } else {
            self
        }
    }
}

impl ControllerView {
    /// Whether ignored files are listed; a change is followed by an inspection.
    #[verifier::opaque]
    pub open spec fn gitignore_set(self, respect: bool) -> ControllerView {
        if self.state.prefs.respect_gitignore != respect {
            self.with_state(self.state.gitignore_set(respect)).inspection_restarted()
        } else {
            self
        }
    }
}

/// Changing the defaults never changes a thread, and changing a thread never
/// changes the defaults.
pub proof fn lemma_defaults_and_threads_are_independent(
    s: AppStateView,
    name: Seq<char>,
    label: Seq<char>,
)
    ensures
        s.default_model_selected(name).threads == s.threads,
        s.default_effort_selected(name).threads == s.threads,
        s.default_sandbox_selected(label).threads == s.threads,
        s.summary_model_selected(name).threads == s.threads,
        s.named_model_selected(name).prefs == s.prefs,
        s.effort_selected(name).prefs == s.prefs,
        s.sandbox_selected(label).prefs == s.prefs,
{
    reveal(AppStateView::default_model_selected);
    reveal(AppStateView::default_effort_selected);
    reveal(AppStateView::default_sandbox_selected);
    reveal(AppStateView::summary_model_selected);
    reveal(AppStateView::named_model_selected);
    reveal(AppStateView::model_selected);
    reveal(AppStateView::effort_selected);
    reveal(AppStateView::sandbox_selected);
}

/// The settings that a thread has been given are those it has.
proof fn lemma_agent_given(s: AppStateView, i: int, agent: ThreadAgentSettingsView)
    requires
        s.active_thread_index() == Some(i),
    ensures
        s.with_agent(i, agent).agent() == agent,
        s.with_agent(i, agent).threads.len() == s.threads.len(),
        forall|j: int|
            0 <= j < s.threads.len() && j != i ==> (#[trigger] s.with_agent(i, agent).threads[j])
                == s.threads[j],
        s.with_agent(i, agent).threads[i].messages == s.threads[i].messages,
{
    let id = s.active_local_thread->0;
    let r = s.with_agent(i, agent);
    lemma_first_where(s.threads, thread_named(id));
    assert forall|j: int| 0 <= j < i implies !thread_named(id)(#[trigger] r.threads[j]) by {
        assert(!thread_named(id)(s.threads[j]));
    }
    lemma_first_where_is(r.threads, thread_named(id), i);
}

/// What the labels of the controls stand for.
pub open spec fn sandbox_meant(label: Seq<char>, choice: SandboxChoice) -> bool {
    &&& label == "Read only"@ ==> choice == SandboxChoice::ReadOnly
    &&& label == "Workspace"@ ==> choice == SandboxChoice::WorkspaceWrite
    &&& label == "Full access"@ ==> choice == SandboxChoice::FullAccess
}

pub open spec fn approval_meant(label: Seq<char>, choice: ApprovalChoice) -> bool {
    &&& label == "Ask when needed"@ ==> choice == ApprovalChoice::OnRequest
    &&& label == "Ask for risky"@ ==> choice == ApprovalChoice::Untrusted
    &&& label == "Never ask"@ ==> choice == ApprovalChoice::Never
}

proof fn lemma_labels_meant(label: Seq<char>)
    ensures
        sandbox_meant(label, sandbox_labelled(label)),
        approval_meant(label, approval_labelled(label)),
{
    reveal_strlit("Read only");
    reveal_strlit("Workspace");
    reveal_strlit("Full access");
    reveal_strlit("Ask when needed");
    reveal_strlit("Ask for risky");
    reveal_strlit("Never ask");
    assert("Read only"@[0] != "Workspace"@[0]);
    assert("Read only"@.len() == 9 && "Full access"@.len() == 11 && "Workspace"@.len() == 9);
    assert("Ask when needed"@.len() == 15 && "Ask for risky"@.len() == 13 && "Never ask"@.len() == 9);
}

/// What is chosen for the thread on screen is what it has from then on, and
/// nothing else of it changes, nor of any other thread.
pub proof fn lemma_thread_gets_what_is_chosen(
    s: AppStateView,
    i: int,
    label: Seq<char>,
    effort: Seq<char>,
    name: Seq<char>,
    k: int,
)
    requires
        s.active_thread_index() == Some(i),
        0 <= k < s.models.len(),
        s.models[k].display_name == name,
        forall|j: int| 0 <= j < k ==> (#[trigger] s.models[j]).display_name != name,
    ensures
        ({
            let before = s.agent();
            let r = s.sandbox_selected(label).agent();
            &&& r.sandbox is Some && sandbox_meant(label, r.sandbox->0)
            &&& r.model == before.model && r.effort == before.effort && r.approval
                == before.approval
        }),
        ({
            let before = s.agent();
            let r = s.effort_selected(effort).agent();
            &&& r.effort == effort
            &&& r.model == before.model && r.sandbox == before.sandbox && r.approval
                == before.approval
        }),
        ({
            let before = s.agent();
            let m = s.models[k];
            let r = s.named_model_selected(name).agent();
            &&& r.model == m.id
            &&& m.efforts.len() == 0 || m.efforts.contains(before.effort) ==> r.effort
                == before.effort
            &&& m.efforts.len() > 0 && !m.efforts.contains(before.effort) ==> r.effort
                == m.default_effort
            &&& r.sandbox == before.sandbox && r.approval == before.approval
        }),
        forall|j: int|
            0 <= j < s.threads.len() && j != i ==> (#[trigger] s.threads[j]) == s.sandbox_selected(
                label,
            ).threads[j] && s.threads[j] == s.effort_selected(effort).threads[j] && s.threads[j]
                == s.named_model_selected(name).threads[j],
{
    reveal(AppStateView::sandbox_selected);
    reveal(AppStateView::effort_selected);
    reveal(AppStateView::named_model_selected);
    reveal(AppStateView::model_selected);
    lemma_labels_meant(label);
    assert forall|j: int| 0 <= j < k implies !model_shown_as(name)(#[trigger] s.models[j]) by {
        assert(s.models[j].display_name != name);
    }
    lemma_first_where_is(s.models, model_shown_as(name), k);
    lemma_first_where(s.threads, thread_named(s.active_local_thread->0));
    let agent = s.agent();
    lemma_agent_given(
        s,
        i,
        ThreadAgentSettingsView { sandbox: Some(sandbox_labelled(label)), ..agent },
    );
    lemma_agent_given(s, i, ThreadAgentSettingsView { effort, ..agent });
    let m = s.models[k];
    lemma_agent_given(
        s,
        i,
        ThreadAgentSettingsView {
            model: m.id,
            effort: if m.efforts.len() == 0 || m.efforts.contains(agent.effort) {
                agent.effort
            } else {
                m.default_effort
            },
            ..agent
        },
    );
}

/// What is chosen for new threads is what a new thread starts with.
pub proof fn lemma_new_threads_get_the_defaults(
    s: AppStateView,
    label: Seq<char>,
    effort: Seq<char>,
    name: Seq<char>,
    k: int,
)
    requires
        0 <= k < s.models.len(),
        s.models[k].display_name == name,
        forall|j: int| 0 <= j < k ==> (#[trigger] s.models[j]).display_name != name,
    ensures
        sandbox_meant(label, s.default_sandbox_selected(label).prefs.sandbox),
        approval_meant(label, s.approval_selected(label).prefs.approval),
        s.default_effort_selected(effort).prefs.effort == effort,
        s.default_model_selected(name).prefs.model == s.models[k].id,
        s.models[k].efforts.contains(s.prefs.effort) ==> s.default_model_selected(name).prefs.effort
            == s.prefs.effort,
        !s.models[k].efforts.contains(s.prefs.effort) ==> s.default_model_selected(name).prefs.effort
            == s.models[k].default_effort,
        s.summary_model_selected(name).prefs.summary_model == s.models[k].id,
        s.summary_effort_selected(effort).prefs.summary_effort == effort,
        ({
            let agent = agent_of_preferences(s.prefs);
            &&& agent.model == s.prefs.model
            &&& agent.effort == s.prefs.effort
            &&& agent.sandbox == Some(s.prefs.sandbox)
            &&& agent.approval == Some(s.prefs.approval)
        }),
{
    reveal(AppStateView::default_sandbox_selected);
    reveal(AppStateView::approval_selected);
    reveal(AppStateView::default_effort_selected);
    reveal(AppStateView::default_model_selected);
    reveal(AppStateView::summary_model_selected);
    reveal(AppStateView::summary_effort_selected);
    lemma_labels_meant(label);
    assert forall|j: int| 0 <= j < k implies !model_shown_as(name)(#[trigger] s.models[j]) by {
        assert(s.models[j].display_name != name);
    }
    lemma_first_where_is(s.models, model_shown_as(name), k);
}

/// Each default is set by its own control alone.
pub proof fn lemma_controls_change_one_default(s: AppStateView, label: Seq<char>, visible: bool, limit: i32)
    ensures
        s.default_sandbox_selected(label).prefs == (PreferencesView {
            sandbox: s.default_sandbox_selected(label).prefs.sandbox,
            ..s.prefs
        }),
        s.approval_selected(label).prefs == (PreferencesView {
            approval: s.approval_selected(label).prefs.approval,
            ..s.prefs
        }),
        s.default_effort_selected(label).prefs == (PreferencesView {
            effort: s.default_effort_selected(label).prefs.effort,
            ..s.prefs
        }),
        s.inspector_set(visible).prefs == (PreferencesView { show_inspector: visible, ..s.prefs }),
        s.gitignore_set(visible).prefs == (PreferencesView { respect_gitignore: visible, ..s.prefs }),
        1 <= limit <= 100 ==> s.thread_limit_set(limit).prefs.visible_thread_limit == limit,
        limit < 1 ==> s.thread_limit_set(limit).prefs.visible_thread_limit == 1,
        limit > 100 ==> s.thread_limit_set(limit).prefs.visible_thread_limit == 100,
{
    reveal(AppStateView::default_sandbox_selected);
    reveal(AppStateView::approval_selected);
    reveal(AppStateView::default_effort_selected);
    reveal(AppStateView::inspector_set);
    reveal(AppStateView::thread_limit_set);
}

impl AppState {
    /// Chooses a model by its display name for the active thread.
    pub fn select_model_named(&mut self, name: &str)
        ensures
            final(self).deep_view() == old(self).deep_view().named_model_selected(name@),
    {
        proof {
            reveal(AppStateView::named_model_selected);
        }
        match find_model_by_name(&self.models, name) {
            Some(i) => {
                let model = self.models[i].clone();
                self.select_model(model.id.as_str(), model.default_effort.as_str(), &model.efforts);
            },
            None => {},
        }
    }

    /// Chooses a sandbox by its label for the active thread.
    pub fn select_sandbox(&mut self, label: &str)
        ensures
            final(self).deep_view() == old(self).deep_view().sandbox_selected(label@),
    {
        proof {
            reveal(AppStateView::sandbox_selected);
        }
        let ghost before = self.deep_view();
        match self.active_agent_mut() {
            Some(agent) => {
                agent.sandbox = Some(sandbox_of_label(label));
                self.touch();
                assert(self.threads.deep_view() =~= before.sandbox_selected(label@).threads);
            },
            None => {},
        }
    }

    pub fn select_default_model(&mut self, name: &str)
        ensures
            final(self).deep_view() == old(self).deep_view().default_model_selected(name@),
    {
        proof {
            reveal(AppStateView::default_model_selected);
        }
        match find_model_by_name(&self.models, name) {
            Some(i) => {
                let model = self.models[i].clone();
                let effort = if contains_text(&model.efforts, self.prefs.effort.as_str()) {
                    self.prefs.effort.clone()
                } else {
                    model.default_effort
                };
                self.prefs.model = model.id;
                self.prefs.effort = effort;
                self.touch();
            },
            None => {},
        }
    }

    pub fn select_default_effort(&mut self, effort: &str)
        ensures
            final(self).deep_view() == old(self).deep_view().default_effort_selected(effort@),
    {
        proof {
            reveal(AppStateView::default_effort_selected);
        }
        self.prefs.effort = effort.to_owned();
        self.touch();
    }

    pub fn select_default_sandbox(&mut self, label: &str)
        ensures
            final(self).deep_view() == old(self).deep_view().default_sandbox_selected(label@),
    {
        proof {
            reveal(AppStateView::default_sandbox_selected);
        }
        self.prefs.sandbox = sandbox_of_label(label);
        self.touch();
    }

    pub fn select_approval(&mut self, label: &str)
        ensures
            final(self).deep_view() == old(self).deep_view().approval_selected(label@),
    {
        proof {
            reveal(AppStateView::approval_selected);
        }
        self.prefs.approval = approval_of_label(label);
        self.touch();
    }

    pub fn select_summary_model(&mut self, name: &str)
        ensures
            final(self).deep_view() == old(self).deep_view().summary_model_selected(name@),
    {
        proof {
            reveal(AppStateView::summary_model_selected);
        }
        match find_model_by_name(&self.models, name) {
            Some(i) => {
                let model = self.models[i].clone();
                let effort = if contains_text(
                    &model.efforts,
                    self.prefs.summary_effort.as_str(),
                ) {
                    self.prefs.summary_effort.clone()
                } else if contains_text(&model.efforts, "low") {
                    "low".to_owned()
                } else {
                    model.default_effort
                };
                self.prefs.summary_model = model.id;
                self.prefs.summary_effort = effort;
                self.touch();
            },
            None => {},
        }
    }

    pub fn select_summary_effort(&mut self, effort: &str)
        ensures
            final(self).deep_view() == old(self).deep_view().summary_effort_selected(effort@),
    {
        proof {
            reveal(AppStateView::summary_effort_selected);
        }
        self.prefs.summary_effort = effort.to_owned();
        self.touch();
    }

    pub fn set_inspector(&mut self, visible: bool)
        ensures
            final(self).deep_view() == old(self).deep_view().inspector_set(visible),
    {
        proof {
            reveal(AppStateView::inspector_set);
        }
        if self.prefs.show_inspector != visible {
            self.prefs.show_inspector = visible;
            self.touch();
        }
    }

    fn set_gitignore(&mut self, respect: bool)
        ensures
            final(self).deep_view() == old(self).deep_view().gitignore_set(respect),
    {
        self.prefs.respect_gitignore = respect;
        self.touch();
    }

    pub fn set_visible_thread_limit(&mut self, limit: i32)
        ensures
            final(self).deep_view() == old(self).deep_view().thread_limit_set(limit),
    {
        proof {
            reveal(AppStateView::thread_limit_set);
        }
        let limit: u32 = if limit < 1 {
            1
        } else if limit > 100 {
            100
        } else {
            limit as u32
        };
        if self.prefs.visible_thread_limit != limit {
            self.prefs.visible_thread_limit = limit;
            self.touch();
        }
    }
}

impl Controller {
    fn change_gitignore(&mut self, respect: bool)
        ensures
            final(self).deep_view() == old(self).deep_view().with_state(
                old(self).deep_view().state.gitignore_set(respect),
            ).inspection_restarted(),
    {
        self.state.set_gitignore(respect);
        self.restart_workspace_inspection();
    }

    pub fn set_respect_gitignore(&mut self, respect: bool)
        ensures
            final(self).deep_view() == old(self).deep_view().gitignore_set(respect),
    {
        proof {
            reveal(ControllerView::gitignore_set);
        }
        if self.state.prefs.respect_gitignore != respect {
            self.change_gitignore(respect);
        }
    }
}

} // verus!
