//! Sending prompts, and the summaries that are asked for on the side.
use super::{
    Controller, ControllerView, Moment, PendingCall, PendingCallView, PendingTurn, PendingTurnView,
    SummaryJob, SummaryJobView, SummaryTarget, SummaryTargetView,
};
use crate::formatting::{truncate_text, truncated};
use crate::json::{object, Json, JsonView};
use crate::model::{ConversationItem, ConversationItemView};
use crate::prompt::{
    add_context, attachment_input, attachment_view, context_of, conversation_context,
    prompt_with_context, text_input, text_input_view,
};
use crate::state::{contains_text, AppStateView};
use crate::table::{has_key, lookup, put, without};
use crate::text::{cat, decimal, decimal_text, trim, trimmed};
use crate::workspace::{CommitSnapshot, CommitSnapshotView};
use vstd::prelude::*;
use vstd::string::*;

verus! {

/// The attachments of the entries, those of later entries first.
pub open spec fn paths_backwards(items: Seq<ConversationItemView>) -> Seq<Seq<char>>
    decreases items.len(),
{
    if items.len() == 0 {
        Seq::empty()
    } else {
        items.last().attachments + paths_backwards(items.drop_last())
    }
}

/// The texts, each where it first stands.
pub open spec fn distinct(all: Seq<Seq<char>>) -> Seq<Seq<char>>
    decreases all.len(),
{
    if all.len() == 0 {
        Seq::empty()
    } else {
        let before = distinct(all.drop_last());
        if before.contains(all.last()) {
            before
        } else {
            before.push(all.last())
        }
    }
}

/// The attachments of a conversation before its last entry, later ones first.
pub open spec fn earlier_attachments(conversation: Seq<ConversationItemView>) -> Seq<Seq<char>> {
    if conversation.len() == 0 {
        Seq::empty()
    } else {
        distinct(paths_backwards(conversation.drop_last()))
    }
}

/// How an earlier attachment goes into a prompt: again, or as a note that it
/// is gone.
pub open spec fn earlier_input(path: Seq<char>, windows: bool, existing: Seq<Seq<char>>) -> JsonView {
    if existing.contains(path) {
        attachment_view(path, windows)
    } else {
        text_input_view("Previously attached file is unavailable: "@ + path)
    }
}

pub open spec fn earlier_inputs(
    paths: Seq<Seq<char>>,
    windows: bool,
    existing: Seq<Seq<char>>,
) -> Seq<JsonView> {
    Seq::new(paths.len(), |i: int| earlier_input(paths[i], windows, existing))
}

pub open spec fn attachment_views(paths: Seq<Seq<char>>, windows: bool) -> Seq<JsonView> {
    Seq::new(paths.len(), |i: int| attachment_view(paths[i], windows))
}

/// The input of a turn. A thread that the backend does not know yet gets the
/// transcript and the earlier attachments with it.
pub open spec fn turn_input(
    conversation: Seq<ConversationItemView>,
    windows: bool,
    text: Seq<char>,
    attachments: Seq<Seq<char>>,
    existing: Seq<Seq<char>>,
    restore: bool,
) -> Seq<JsonView> {
    if restore {
        seq![text_input_view(prompt_with_context(text, context_of(conversation)))]
            + earlier_inputs(earlier_attachments(conversation), windows, existing)
            + attachment_views(attachments, windows)
    } else {
        seq![text_input_view(text)] + attachment_views(attachments, windows)
    }
}

/// The turn that a prompt asks for.
#[verifier::opaque]
pub open spec fn turn_for(
    state: AppStateView,
    generation: u64,
    text: Seq<char>,
    attachments: Seq<Seq<char>>,
    existing: Seq<Seq<char>>,
    restore: bool,
) -> PendingTurnView {
    let agent = state.agent();
    PendingTurnView {
        generation,
        input: turn_input(
            state.conversation,
            state.windows_paths,
            text,
            attachments,
            existing,
            restore,
        ),
        cwd: state.prefs.workspace,
        approval_policy: (match agent.approval {
            Some(a) => a,
            None => state.prefs.approval,
        }).wire_text(),
        sandbox: (match agent.sandbox {
            Some(s) => s,
            None => state.prefs.sandbox,
        }).wire_text(),
        model: agent.model,
        effort: agent.effort,
    }
}

/// What is asked for to start a thread for a turn.
pub open spec fn thread_start_view(turn: PendingTurnView) -> JsonView {
    let members = seq![
        ("cwd"@, JsonView::Text(turn.cwd)),
        ("ephemeral"@, JsonView::Bool(true)),
        ("approvalPolicy"@, JsonView::Text(turn.approval_policy)),
        ("sandbox"@, JsonView::Text(turn.sandbox)),
        ("serviceName"@, JsonView::Text("ferro-code"@)),
    ];
    if turn.model.len() > 0 {
        JsonView::Object(members.push(("model"@, JsonView::Text(turn.model))))
    } else {
        JsonView::Object(members)
    }
}

/// What is asked for to start a thread for a summary.
pub open spec fn summary_thread_view(cwd: Seq<char>, model: Seq<char>) -> JsonView {
    JsonView::Object(seq![
        ("cwd"@, JsonView::Text(cwd)),
        ("ephemeral"@, JsonView::Bool(true)),
        ("approvalPolicy"@, JsonView::Text("never"@)),
        ("sandbox"@, JsonView::Text("read-only"@)),
        ("serviceName"@, JsonView::Text("ferro-code-summary"@)),
        ("model"@, JsonView::Text(model)),
    ])
}

/// The job of titling a thread.
pub open spec fn title_job(state: AppStateView, local: Seq<char>, text: Seq<char>) -> SummaryJobView {
    SummaryJobView {
        key: "thread-title:"@ + local,
        target: SummaryTargetView::ThreadTitle { local_thread_id: local },
        prompt: "Create a concise 3-7 word sidebar title for this request. Do not call tools. Return only the title, with no quotes, punctuation, or explanation.\n\nRequest:\n"@
            + truncated(text, 2_000),
        cwd: state.prefs.workspace,
        model: state.prefs.summary_model,
        effort: state.prefs.summary_effort,
    }
}

/// The job of writing a commit subject.
pub open spec fn commit_job(
    state: AppStateView,
    root: Seq<char>,
    snapshot: CommitSnapshotView,
) -> SummaryJobView {
    SummaryJobView {
        key: "git-commit:"@ + root,
        target: SummaryTargetView::GitCommit { root, snapshot },
        prompt: "Write a concise Git commit subject for these changes. Use imperative mood, stay under 72 characters, and return only the subject with no quotes or explanation. Do not call tools.\n\n"@
            + truncated(snapshot.context, 24_000),
        cwd: root,
        model: state.prefs.summary_model,
        effort: state.prefs.summary_effort,
    }
}

impl ControllerView {
    pub open spec fn summary_opened(self, key: Seq<char>) -> ControllerView {
        ControllerView { summary_pending: put(self.summary_pending, key, ()), ..self }
    }

    /// A title for a thread is asked for, once at a time.
    #[verifier::opaque]
    pub open spec fn title_asked(self, local: Seq<char>, text: Seq<char>, now: Moment) -> ControllerView {
        let job = title_job(self.state, local, text);
        if has_key(self.summary_pending, job.key) {
            self
        } else {
            self.summary_opened(job.key).requested(
                "thread/start"@,
                summary_thread_view(job.cwd, job.model),
                PendingCallView::SummaryThreadStart(job),
                now,
            )
        }
    }

    pub open spec fn git_begun(self) -> ControllerView {
        self.with_state(self.state.git_busy(true).touched())
    }

    /// A subject for a commit is asked for, once at a time.
    #[verifier::opaque]
    pub open spec fn subject_asked(
        self,
        root: Seq<char>,
        snapshot: CommitSnapshotView,
        now: Moment,
    ) -> ControllerView {
        let job = commit_job(self.state, root, snapshot);
        if has_key(self.summary_pending, job.key) {
            self
        } else {
            self.summary_opened(job.key).git_begun().requested(
                "thread/start"@,
                summary_thread_view(job.cwd, job.model),
                PendingCallView::SummaryThreadStart(job),
                now,
            )
        }
    }

    /// The staged content of a commit is there, or could not be had.
    #[verifier::opaque]
    pub open spec fn commit_prepared(
        self,
        root: Seq<char>,
        result: Result<CommitSnapshotView, Seq<char>>,
        now: Moment,
    ) -> ControllerView {
        let c = self.preparing_commit(false);
        match result {
            Ok(snapshot) => if self.state.connected {
                c.subject_asked(root, snapshot, now)
            } else {
                c.with_state(
                    c.state.git_busy(false).with_error(
                        "Codex disconnected while staging. Your staged changes are retained."@,
                    ),
                )
            },
            Err(error) => c.with_state(c.state.git_busy(false).with_error(error)),
        }
    }

    /// Whether a prompt can be sent: it says something, the thread is idle,
    /// the backend is there and a project is active.
    pub open spec fn can_send(self, text: Seq<char>, attachments: Seq<Seq<char>>) -> bool {
        &&& trimmed(text).len() > 0 || attachments.len() > 0
        &&& !self.state.busy()
        &&& self.state.connected
        &&& self.state.active_project is Some
    }

    /// Without an active thread one is created.
    #[verifier::opaque]
    pub open spec fn thread_ensured(self, now: Moment) -> ControllerView {
        if self.state.active_local_thread is None {
            self.with_state(self.state.thread_created(now.seconds))
        } else {
            self
        }
    }

    /// The state once a prompt is on screen and its turn under way.
    #[verifier::opaque]
    pub open spec fn state_with_prompt(
        self,
        local: Seq<char>,
        text: Seq<char>,
        attachments: Seq<Seq<char>>,
        now: Moment,
    ) -> AppStateView {
        self.state.with_prompt(
            "local-user-"@ + decimal(self.next_id as nat),
            text,
            attachments,
        ).thread_stamped(local, now.seconds, text).synced().turn_begun(local, now.millis).touched()
    }

    /// A prompt is kept and a new generation of turns begins.
    #[verifier::opaque]
    pub open spec fn prompt_kept(
        self,
        local: Seq<char>,
        text: Seq<char>,
        attachments: Seq<Seq<char>>,
        now: Moment,
    ) -> ControllerView {
        ControllerView {
            state: self.state_with_prompt(local, text, attachments, now),
            turn_generations: put(self.turn_generations, local, self.next_id),
            cancelled: without(self.cancelled, local),
            ..self
        }
    }

    /// A turn goes to the thread of the backend, or to one to be started.
    #[verifier::opaque]
    pub open spec fn turn_dispatched(
        self,
        local: Seq<char>,
        turn: PendingTurnView,
        now: Moment,
    ) -> ControllerView {
        match lookup(self.state.runtime_threads, local) {
            Some(thread_id) => self.turn_requested(local, thread_id, turn, now),
            None => self.requested(
                "thread/start"@,
                thread_start_view(turn),
                PendingCallView::ThreadStart { local_thread_id: local, turn },
                now,
            ),
        }
    }

    /// A title is asked for with the first prompt of a thread.
    #[verifier::opaque]
    pub open spec fn titled_at_first(
        self,
        first: bool,
        local: Seq<char>,
        text: Seq<char>,
        now: Moment,
    ) -> ControllerView {
        if first {
            self.title_asked(local, text, now)
        } else {
            self
        }
    }

    /// A prompt is sent in a thread that is active.
    #[verifier::opaque]
    pub open spec fn prompt_sent_in(
        self,
        local: Seq<char>,
        text: Seq<char>,
        attachments: Seq<Seq<char>>,
        existing: Seq<Seq<char>>,
        now: Moment,
    ) -> ControllerView {
        let restore = !has_key(self.state.runtime_threads, local);
        let first = self.state.conversation.len() == 0;
        let c = self.prompt_kept(local, text, attachments, now).titled_at_first(
            first,
            local,
            text,
            now,
        );
        c.turn_dispatched(
            local,
            turn_for(c.state, self.next_id, text, attachments, existing, restore),
            now,
        )
    }

    /// The user sends a prompt.
    #[verifier::opaque]
    pub open spec fn prompt_sent(
        self,
        text: Seq<char>,
        attachments: Seq<Seq<char>>,
        existing: Seq<Seq<char>>,
        now: Moment,
    ) -> ControllerView {
        if self.can_send(text, attachments) {
            let c = self.thread_ensured(now);
            match c.state.active_local_thread {
                Some(local) => c.prompt_sent_in(local, trimmed(text), attachments, existing, now),
                None => c,
            }
        } else {
            self
        }
    }
}

fn collect_paths_backwards(items: &Vec<ConversationItem>, count: usize) -> (r: Vec<String>)
    requires
        count <= items@.len(),
    ensures
        r.deep_view() == paths_backwards(items.deep_view().take(count as int)),
{
    let ghost all = items.deep_view();
    let mut out: Vec<String> = Vec::new();
    let mut i: usize = count;
    let ghost goal = paths_backwards(all.take(count as int));
    assert(out.deep_view() + goal =~= goal);
    while i > 0
        invariant
            i <= count <= items@.len(),
            all == items.deep_view(),
            goal == out.deep_view() + paths_backwards(all.take(i as int)),
        decreases i,
    {
        i -= 1;
        let ghost before = out.deep_view();
        let mut more = items[i].attachments.clone();
        assert(more.deep_view() =~= all[i as int].attachments);
        let ghost added = more.deep_view();
        out.append(&mut more);
        proof {
            assert(out.deep_view() =~= before + added);
            assert(all.take(i as int + 1).drop_last() =~= all.take(i as int));
            assert(before + (added + paths_backwards(all.take(i as int))) =~= out.deep_view()
                + paths_backwards(all.take(i as int)));
        }
    }
    assert(out.deep_view() + paths_backwards(all.take(0)) =~= out.deep_view());
    out
}

fn keep_distinct(all: &Vec<String>) -> (r: Vec<String>)
    ensures
        r.deep_view() == distinct(all.deep_view()),
{
    let ghost views = all.deep_view();
    let mut out: Vec<String> = Vec::new();
    let mut i: usize = 0;
    assert(out.deep_view() =~= distinct(views.take(0)));
    while i < all.len()
        invariant
            i <= all@.len(),
            views == all.deep_view(),
            out.deep_view() == distinct(views.take(i as int)),
        decreases all@.len() - i,
    {
        assert(views.take(i as int + 1).drop_last() =~= views.take(i as int));
        let ghost before = out.deep_view();
        if !contains_text(&out, all[i].as_str()) {
            out.push(all[i].clone());
            assert(out.deep_view() =~= before.push(views[i as int]));
        }
        i += 1;
    }
    assert(views.take(i as int) =~= views);
    out
}

/// The attachments of a conversation before its last entry.
pub fn attachments_before_last(conversation: &Vec<ConversationItem>) -> (r: Vec<String>)
    ensures
        r.deep_view() == earlier_attachments(conversation.deep_view()),
{
    if conversation.len() == 0 {
        let r: Vec<String> = Vec::new();
        assert(r.deep_view() =~= Seq::empty());
        return r;
    }
    let all = collect_paths_backwards(conversation, conversation.len() - 1);
    assert(conversation.deep_view().take(conversation@.len() - 1)
        =~= conversation.deep_view().drop_last());
    keep_distinct(&all)
}

fn make_earlier_inputs(paths: &Vec<String>, windows: bool, existing: &Vec<String>) -> (r: Vec<
    Json,
>)
    ensures
        r.deep_view() == earlier_inputs(paths.deep_view(), windows, existing.deep_view()),
{
    let mut out: Vec<Json> = Vec::new();
    let mut i: usize = 0;
    while i < paths.len()
        invariant
            i <= paths@.len(),
            out@.len() == i,
            forall|j: int|
                0 <= j < i ==> (#[trigger] out@[j]).deep_view() == earlier_input(
                    paths@[j]@,
                    windows,
                    existing.deep_view(),
                ),
        decreases paths@.len() - i,
    {
        let path = paths[i].as_str();
        let input = if contains_text(existing, path) {
            attachment_input(path, windows)
        } else {
            text_input(cat("Previously attached file is unavailable: ", path).as_str())
        };
        out.push(input);
        i += 1;
    }
    assert(out.deep_view() =~= earlier_inputs(paths.deep_view(), windows, existing.deep_view()));
    out
}

fn make_attachment_inputs(paths: &Vec<String>, windows: bool) -> (r: Vec<Json>)
    ensures
        r.deep_view() == attachment_views(paths.deep_view(), windows),
{
    let mut out: Vec<Json> = Vec::new();
    let mut i: usize = 0;
    while i < paths.len()
        invariant
            i <= paths@.len(),
            out@.len() == i,
            forall|j: int| 0 <= j < i ==> (#[trigger] out@[j]).deep_view() == attachment_view(paths@[j]@, windows),
        decreases paths@.len() - i,
    {
        out.push(attachment_input(paths[i].as_str(), windows));
        i += 1;
    }
    assert(out.deep_view() =~= attachment_views(paths.deep_view(), windows));
    out
}

fn make_turn_input(
    conversation: &Vec<ConversationItem>,
    windows: bool,
    text: &str,
    attachments: &Vec<String>,
    existing: &Vec<String>,
    restore: bool,
) -> (r: Vec<Json>)
    ensures
        r.deep_view() == turn_input(
            conversation.deep_view(),
            windows,
            text@,
            attachments.deep_view(),
            existing.deep_view(),
            restore,
        ),
{
    let mut own = make_attachment_inputs(attachments, windows);
    let ghost last = own.deep_view();
    if restore {
        let full = add_context(text, conversation_context(conversation).as_str());
        let mut r: Vec<Json> = vec![text_input(full.as_str())];
        let ghost first = r.deep_view();
        let paths = attachments_before_last(conversation);
        let mut earlier = make_earlier_inputs(&paths, windows, existing);
        let ghost middle = earlier.deep_view();
        r.append(&mut earlier);
        assert(r.deep_view() =~= first + middle);
        r.append(&mut own);
        assert(r.deep_view() =~= first + middle + last);
        assert(first =~= seq![
            text_input_view(prompt_with_context(text@, context_of(conversation.deep_view()))),
        ]);
        r
    } else {
        let mut r: Vec<Json> = vec![text_input(text)];
        let ghost first = r.deep_view();
        r.append(&mut own);
        assert(r.deep_view() =~= first + last);
        assert(first =~= seq![text_input_view(text@)]);
        r
    }
}

fn summary_thread_params(cwd: &str, model: &str) -> (r: Json)
    ensures
        r.deep_view() == summary_thread_view(cwd@, model@),
{
    let r = object(
        vec![
            ("cwd".to_owned(), Json::text(cwd)),
            ("ephemeral".to_owned(), Json::Bool(true)),
            ("approvalPolicy".to_owned(), Json::text("never")),
            ("sandbox".to_owned(), Json::text("read-only")),
            ("serviceName".to_owned(), Json::text("ferro-code-summary")),
            ("model".to_owned(), Json::text(model)),
        ],
    );
    assert(r.deep_view()->Object_0 =~= summary_thread_view(cwd@, model@)->Object_0);
    r
}

fn thread_start_params(turn: &PendingTurn) -> (r: Json)
    ensures
        r.deep_view() == thread_start_view(turn.deep_view()),
{
    let mut members: Vec<(String, Json)> = vec![
        ("cwd".to_owned(), Json::text(turn.cwd.as_str())),
        ("ephemeral".to_owned(), Json::Bool(true)),
        ("approvalPolicy".to_owned(), Json::text(turn.approval_policy.as_str())),
        ("sandbox".to_owned(), Json::text(turn.sandbox.as_str())),
        ("serviceName".to_owned(), Json::text("ferro-code")),
    ];
    if !turn.model.as_str().is_empty() {
        members.push(("model".to_owned(), Json::text(turn.model.as_str())));
    }
    let r = object(members);
    assert(r.deep_view()->Object_0 =~= thread_start_view(turn.deep_view())->Object_0);
    r
}

impl Controller {
    fn make_title_job(&self, local: &str, text: &str) -> (r: SummaryJob)
        ensures
            r.deep_view() == title_job(self.deep_view().state, local@, text@),
    {
        SummaryJob {
            key: cat("thread-title:", local),
            target: SummaryTarget::ThreadTitle { local_thread_id: local.to_owned() },
            prompt: cat(
                "Create a concise 3-7 word sidebar title for this request. Do not call tools. Return only the title, with no quotes, punctuation, or explanation.\n\nRequest:\n",
                truncate_text(text, 2_000).as_str(),
            ),
            cwd: self.state.prefs.workspace.clone(),
            model: self.state.prefs.summary_model.clone(),
            effort: self.state.prefs.summary_effort.clone(),
        }
    }

    fn make_commit_job(&self, root: &str, snapshot: CommitSnapshot) -> (r: SummaryJob)
        ensures
            r.deep_view() == commit_job(self.deep_view().state, root@, snapshot.deep_view()),
    {
        let prompt = cat(
            "Write a concise Git commit subject for these changes. Use imperative mood, stay under 72 characters, and return only the subject with no quotes or explanation. Do not call tools.\n\n",
            truncate_text(snapshot.context.as_str(), 24_000).as_str(),
        );
        SummaryJob {
            key: cat("git-commit:", root),
            target: SummaryTarget::GitCommit { root: root.to_owned(), snapshot },
            prompt,
            cwd: root.to_owned(),
            model: self.state.prefs.summary_model.clone(),
            effort: self.state.prefs.summary_effort.clone(),
        }
    }

    fn open_summary_key(&mut self, key: &str)
        ensures
            final(self).deep_view() == old(self).deep_view().summary_opened(key@),
    {
        self.summary_pending.insert(key.to_owned(), ());
    }

    fn start_title_summary(&mut self, local: &str, text: &str, now: Moment)
        ensures
            final(self).deep_view() == old(self).deep_view().title_asked(local@, text@, now),
    {
        proof {
            reveal(ControllerView::title_asked);
        }
        let job = self.make_title_job(local, text);
        if self.summary_pending.contains_key(job.key.as_str()) {
            return;
        }
        let params = summary_thread_params(job.cwd.as_str(), job.model.as_str());
        self.open_summary_key(job.key.as_str());
        self.request("thread/start", params, PendingCall::SummaryThreadStart(job), now);
    }

    fn begin_git(&mut self)
        ensures
            final(self).deep_view() == old(self).deep_view().git_begun(),
    {
        self.state.git_action_in_progress = true;
        self.state.touch();
    }

    fn start_commit_summary(&mut self, root: &str, snapshot: CommitSnapshot, now: Moment)
        ensures
            final(self).deep_view() == old(self).deep_view().subject_asked(
                root@,
                snapshot.deep_view(),
                now,
            ),
    {
        proof {
            reveal(ControllerView::subject_asked);
        }
        let job = self.make_commit_job(root, snapshot);
        if self.summary_pending.contains_key(job.key.as_str()) {
            return;
        }
        let params = summary_thread_params(job.cwd.as_str(), job.model.as_str());
        self.open_summary_key(job.key.as_str());
        self.begin_git();
        self.request("thread/start", params, PendingCall::SummaryThreadStart(job), now);
    }

    fn end_preparation(&mut self)
        ensures
            final(self).deep_view() == old(self).deep_view().preparing_commit(false),
    {
        self.commit_prepare_rx = false;
    }

    /// Takes the staged content of a commit.
    pub fn commit_prepared(
        &mut self,
        root: String,
        result: Result<CommitSnapshot, String>,
        now: Moment,
    )
        ensures
            final(self).deep_view() == old(self).deep_view().commit_prepared(
                root@,
                match result {
                    Ok(s) => Ok(s.deep_view()),
                    Err(e) => Err(e@),
                },
                now,
            ),
    {
        proof {
            reveal(ControllerView::commit_prepared);
        }
        self.end_preparation();
        match result {
            Ok(snapshot) => {
                if self.state.connected {
                    self.start_commit_summary(root.as_str(), snapshot, now);
                } else {
                    self.fail_commit(
                        "Codex disconnected while staging. Your staged changes are retained.",
                    );
                }
            },
            Err(error) => {
                self.fail_commit(error.as_str());
            },
        }
    }

    fn keep_prompt(&mut self, local: &str, text: &str, attachments: &Vec<String>, now: Moment)
        ensures
            final(self).deep_view() == old(self).deep_view().prompt_kept(
                local@,
                text@,
                attachments.deep_view(),
                now,
            ),
    {
        proof {
            reveal(ControllerView::prompt_kept);
            reveal(ControllerView::state_with_prompt);
        }
        let id = cat("local-user-", decimal_text(self.next_id as u128).as_str());
        self.state.add_prompt(id.as_str(), text, attachments);
        self.state.stamp_thread(local, now.seconds, text);
        self.state.sync_active_conversation();
        self.state.begin_turn(local.to_owned(), now.millis);
        self.state.touch();
        self.turn_generations.insert(local.to_owned(), self.next_id);
        self.cancelled.remove(local);
    }

    fn make_turn(
        &self,
        generation: u64,
        text: &str,
        attachments: &Vec<String>,
        existing: &Vec<String>,
        restore: bool,
    ) -> (r: PendingTurn)
        ensures
            r.deep_view() == turn_for(
                self.deep_view().state,
                generation,
                text@,
                attachments.deep_view(),
                existing.deep_view(),
                restore,
            ),
    {
        proof {
            reveal(turn_for);
        }
        let agent = self.state.active_agent();
        let approval = match agent.approval {
            Some(a) => a,
            None => self.state.prefs.approval,
        };
        let sandbox = match agent.sandbox {
            Some(s) => s,
            None => self.state.prefs.sandbox,
        };
        PendingTurn {
            generation,
            input: make_turn_input(
                &self.state.conversation,
                self.state.windows_paths,
                text,
                attachments,
                existing,
                restore,
            ),
            cwd: self.state.prefs.workspace.clone(),
            approval_policy: approval.wire().to_owned(),
            sandbox: sandbox.wire().to_owned(),
            model: agent.model,
            effort: agent.effort,
        }
    }

    fn dispatch_turn(&mut self, local: &str, turn: PendingTurn, now: Moment)
        ensures
            final(self).deep_view() == old(self).deep_view().turn_dispatched(
                local@,
                turn.deep_view(),
                now,
            ),
    {
        proof {
            reveal(ControllerView::turn_dispatched);
        }
        let thread_id = match self.state.runtime_threads.get(local) {
            Some(thread) => Some(thread.clone()),
            None => None,
        };
        match thread_id {
            Some(thread_id) => {
                self.start_turn(local.to_owned(), thread_id.as_str(), turn, now);
            },
            None => {
                let params = thread_start_params(&turn);
                self.request(
                    "thread/start",
                    params,
                    PendingCall::ThreadStart { local_thread_id: local.to_owned(), turn },
                    now,
                );
            },
        }
    }

    fn title_at_first(&mut self, first: bool, local: &str, text: &str, now: Moment)
        ensures
            final(self).deep_view() == old(self).deep_view().titled_at_first(
                first,
                local@,
                text@,
                now,
            ),
    {
        proof {
            reveal(ControllerView::titled_at_first);
        }
        if first {
            self.start_title_summary(local, text, now);
        }
    }

    fn send_in(
        &mut self,
        local: &str,
        text: &str,
        attachments: &Vec<String>,
        existing: &Vec<String>,
        now: Moment,
    )
        ensures
            final(self).deep_view() == old(self).deep_view().prompt_sent_in(
                local@,
                text@,
                attachments.deep_view(),
                existing.deep_view(),
                now,
            ),
    {
        proof {
            reveal(ControllerView::prompt_sent_in);
        }
        let restore = !self.state.runtime_threads.contains_key(local);
        let first = self.state.conversation.len() == 0;
        let generation: u64 = self.next_id;
        self.keep_prompt(local, text, attachments, now);
        self.title_at_first(first, local, text, now);
        let turn = self.make_turn(generation, text, attachments, existing, restore);
        self.dispatch_turn(local, turn, now);
    }

    fn ensure_thread(&mut self, now: Moment)
        ensures
            final(self).deep_view() == old(self).deep_view().thread_ensured(now),
    {
        proof {
            reveal(ControllerView::thread_ensured);
        }
        if self.state.active_local_thread.is_none() {
            self.new_thread(now);
        }
    }

    fn can_send(&self, text: &str, attachments: &Vec<String>) -> (r: bool)
        requires
            text@ == trimmed(text@),
        ensures
            r == self.deep_view().can_send(text@, attachments.deep_view()),
    {
        !(text.is_empty() && attachments.len() == 0) && !self.state.active_thread_busy()
            && self.state.connected && self.state.active_project.is_some()
    }

    /// The earlier attachments that the next prompt would send again; which of
    /// them exist is for the caller to find out.
    pub fn attachments_to_check(&self) -> (r: Vec<String>)
        ensures
            r.deep_view() == distinct(paths_backwards(self.deep_view().state.conversation)),
    {
        let conversation = &self.state.conversation;
        let all = collect_paths_backwards(conversation, conversation.len());
        assert(conversation.deep_view().take(conversation@.len() as int)
            =~= conversation.deep_view());
        keep_distinct(&all)
    }

    /// Sends a prompt. `existing` are those of the earlier attachments that can
    /// still be read.
    pub fn send_prompt(
        &mut self,
        text: String,
        attachments: Vec<String>,
        existing: &Vec<String>,
        now: Moment,
    ) -> (r: bool)
        ensures
            final(self).deep_view() == old(self).deep_view().prompt_sent(
                text@,
                attachments.deep_view(),
                existing.deep_view(),
                now,
            ),
            r == (old(self).deep_view().can_send(text@, attachments.deep_view()) && old(
                self,
            ).deep_view().thread_ensured(now).state.active_local_thread is Some),
    {
        proof {
            reveal(ControllerView::prompt_sent);
            crate::text::lemma_trimmed_twice(text@);
        }
        let text = trim(text.as_str());
        if !self.can_send(text.as_str(), &attachments) {
            return false;
        }
        self.ensure_thread(now);
        let local = match &self.state.active_local_thread {
            Some(id) => id.clone(),
            None => return false,
        };
        self.send_in(local.as_str(), text.as_str(), &attachments, existing, now);
        true
    }
}

} // verus!
