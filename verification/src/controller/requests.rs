//! Requests of the backend: approvals and questions, and the answers to them.
use super::{Controller, ControllerView};
use crate::items::{value_text, value_to_text, values_at};
use crate::json::{array, object, object1, Json, JsonView};
use crate::model::{owned_or, owned_or_empty, text_or, text_or_empty, Approval, ApprovalView};
use crate::protocol::member_or_null;
use crate::state::{
    find_project, find_thread, project_at, thread_at, AppStateView, Question, QuestionRequest,
    QuestionRequestView, QuestionView,
};
use crate::table::{first_where, lemma_first_where_is, lemma_first_where_none};
use crate::text::{cat, cat3, same_text};
use vstd::prelude::*;
use vstd::string::*;

verus! {

/// Entries with a thread of the backend.
pub open spec fn bound_to(id: Seq<char>) -> spec_fn((Seq<char>, Seq<char>)) -> bool {
    |e: (Seq<char>, Seq<char>)| e.1 == id
}

/// The thread on this side that a thread of the backend belongs to.
pub open spec fn local_of(
    runtime_threads: Seq<(Seq<char>, Seq<char>)>,
    params: JsonView,
) -> Option<Seq<char>> {
    match params.text_at("threadId"@) {
        Some(id) => match first_where(runtime_threads, bound_to(id)) {
            Some(i) => Some(runtime_threads[i].0),
            None => None,
        },
        None => None,
    }
}

/// Where a request comes from: project, thread and directory.
pub open spec fn origin_of(state: AppStateView, local: Option<Seq<char>>) -> Seq<char> {
    let thread = match local {
        Some(id) => thread_at(state.threads, id),
        None => None,
    };
    match thread {
        Some(i) => {
            let t = state.threads[i];
            match project_at(state.projects, t.project_id) {
                Some(p) => state.projects[p].name + " — "@ + t.title + "\n"@
                    + state.projects[p].path,
                None => "Unknown project"@ + " — "@ + t.title + "\n"@ + "Unknown workspace"@,
            }
        },
        None => "Unknown requesting workspace"@,
    }
}

/// The option of a question, if it has a label.
pub open spec fn option_of(value: JsonView) -> Option<(Seq<char>, Seq<char>)> {
    match value.text_at("label"@) {
        Some(label) => Some((label, text_or_empty(value.text_at("description"@)))),
        None => None,
    }
}

pub open spec fn options_of(values: Seq<JsonView>) -> Seq<(Seq<char>, Seq<char>)>
    decreases values.len(),
{
    if values.len() == 0 {
        Seq::empty()
    } else {
        let before = options_of(values.drop_last());
        match option_of(values.last()) {
            Some(o) => before.push(o),
            None => before,
        }
    }
}

/// A question, if it has an id.
pub open spec fn question_of(value: JsonView) -> Option<QuestionView> {
    match value.text_at("id"@) {
        Some(id) => Some(
            QuestionView {
                id,
                header: text_or(value.text_at("header"@), "Question"@),
                question: text_or_empty(value.text_at("question"@)),
                options: options_of(values_at(value, "options"@)),
                answer: Seq::empty(),
                secret: value.bool_at("isSecret"@) == Some(true),
            },
        ),
        None => None,
    }
}

pub open spec fn questions_of(values: Seq<JsonView>) -> Seq<QuestionView>
    decreases values.len(),
{
    if values.len() == 0 {
        Seq::empty()
    } else {
        let before = questions_of(values.drop_last());
        match question_of(values.last()) {
            Some(q) => before.push(q),
            None => before,
        }
    }
}

fn read_options(value: &Json) -> (r: Vec<(String, String)>)
    ensures
        r.deep_view() == options_of(values_at(value.deep_view(), "options"@)),
{
    let mut out: Vec<(String, String)> = Vec::new();
    match value.array_at("options") {
        Some(values) => {
            let ghost all = values.deep_view();
            let mut i: usize = 0;
            assert(out.deep_view() =~= options_of(all.take(0)));
            while i < values.len()
                invariant
                    i <= values@.len(),
                    all == values.deep_view(),
                    out.deep_view() == options_of(all.take(i as int)),
                decreases values@.len() - i,
            {
                assert(all.take(i as int + 1).drop_last() =~= all.take(i as int));
                let ghost before = out.deep_view();
                match values[i].text_at("label") {
                    Some(label) => {
                        let description = owned_or_empty(values[i].text_at("description"));
                        let ghost view = (label@, description@);
                        out.push((label.to_owned(), description));
                        assert(out.deep_view() =~= before.push(view));
                    },
                    None => {},
                }
                i += 1;
            }
            assert(all.take(i as int) =~= all);
        },
        None => {
            assert(out.deep_view() =~= Seq::empty());
        },
    }
    out
}

fn read_question(value: &Json) -> (r: Option<Question>)
    ensures
        r.deep_view() == question_of(value.deep_view()),
{
    match value.text_at("id") {
        Some(id) => Some(
            Question {
                id: id.to_owned(),
                header: owned_or(value.text_at("header"), "Question"),
                question: owned_or_empty(value.text_at("question")),
                options: read_options(value),
                answer: String::new(),
                secret: match value.bool_at("isSecret") {
                    Some(b) => b,
                    None => false,
                },
            },
        ),
        None => None,
    }
}

fn read_questions(params: &Json) -> (r: Vec<Question>)
    ensures
        r.deep_view() == questions_of(values_at(params.deep_view(), "questions"@)),
{
    let mut out: Vec<Question> = Vec::new();
    match params.array_at("questions") {
        Some(values) => {
            let ghost all = values.deep_view();
            let mut i: usize = 0;
            assert(out.deep_view() =~= questions_of(all.take(0)));
            while i < values.len()
                invariant
                    i <= values@.len(),
                    all == values.deep_view(),
                    out.deep_view() == questions_of(all.take(i as int)),
                decreases values@.len() - i,
            {
                assert(all.take(i as int + 1).drop_last() =~= all.take(i as int));
                let ghost before = out.deep_view();
                match read_question(&values[i]) {
                    Some(q) => {
                        let ghost view = q.deep_view();
                        out.push(q);
                        assert(out.deep_view() =~= before.push(view));
                    },
                    None => {},
                }
                i += 1;
            }
            assert(all.take(i as int) =~= all);
        },
        None => {
            assert(out.deep_view() =~= Seq::empty());
        },
    }
    out
}

/// The methods that ask to run a command.
pub open spec fn asks_command(method: Seq<char>) -> bool {
    method == "item/commandExecution/requestApproval"@ || method == "execCommandApproval"@
}

/// The methods that ask to change files.
pub open spec fn asks_change(method: Seq<char>) -> bool {
    method == "item/fileChange/requestApproval"@ || method == "applyPatchApproval"@
}

/// The approval that a command asks for.
pub open spec fn command_approval(
    state: AppStateView,
    method: Seq<char>,
    id: JsonView,
    params: JsonView,
) -> ApprovalView {
    let local = local_of(state.runtime_threads, params);
    ApprovalView {
        request_id: id,
        local_thread_id: local,
        method,
        title: "Run command?"@,
        detail: origin_of(state, local) + "\n\n"@ + (match params.get("command"@) {
            Some(v) => value_text(v),
            None => "Command requested"@,
        }) + "\n\nWorking directory: "@ + text_or_empty(params.text_at("cwd"@)) + "\n"@ + text_or(
            params.text_at("reason"@),
            "Codex needs permission to run this command."@,
        ),
        allow_session: true,
    }
}

/// The approval that a change of files asks for.
pub open spec fn change_approval(
    state: AppStateView,
    method: Seq<char>,
    id: JsonView,
    params: JsonView,
) -> ApprovalView {
    let local = local_of(state.runtime_threads, params);
    ApprovalView {
        request_id: id,
        local_thread_id: local,
        method,
        title: "Apply file changes?"@,
        detail: origin_of(state, local) + "\n\n"@ + text_or(
            params.text_at("reason"@),
            "Codex wants to edit files in this workspace."@,
        ) + "\n\nTarget: "@ + text_or(
            params.text_at("grantRoot"@),
            "See requesting workspace above"@,
        ),
        allow_session: true,
    }
}

/// The answer to a request that this client does not know.
pub open spec fn unsupported_view(id: JsonView, method: Seq<char>) -> JsonView {
    JsonView::Object(seq![
        ("id"@, id),
        (
            "error"@,
            JsonView::Object(seq![
                ("code"@, JsonView::Negative(-32601i64)),
                ("message"@, JsonView::Text("Unsupported request: "@ + method)),
            ]),
        ),
    ])
}

/// The decision on an approval as the asking method takes it.
pub open spec fn decision_view(method: Seq<char>, decision: Seq<char>) -> JsonView {
    let value = if method == "execCommandApproval"@ || method == "applyPatchApproval"@ {
        if decision == "acceptForSession"@ {
            JsonView::Text("approved_for_session"@)
        } else if decision == "accept"@ {
            JsonView::Text("approved"@)
        } else {
            JsonView::Object(seq![
                (
                    "denied"@,
                    JsonView::Object(seq![("rejection"@, JsonView::Text("Denied by user"@))]),
                ),
            ])
        }
    } else {
        JsonView::Text(decision)
    };
    JsonView::Object(seq![("decision"@, value)])
}

/// A result under the id of the request.
pub open spec fn result_view(id: JsonView, result: JsonView) -> JsonView {
    JsonView::Object(seq![("id"@, id), ("result"@, result)])
}

/// The answers to questions, each under the id of its question.
pub open spec fn answers_view(questions: Seq<QuestionView>) -> Seq<(Seq<char>, JsonView)> {
    Seq::new(
        questions.len(),
        |i: int|
            (
                questions[i].id,
                JsonView::Object(seq![
                    ("answers"@, JsonView::Array(seq![JsonView::Text(questions[i].answer)])),
                ]),
            ),
    )
}

impl ControllerView {
    /// A request of the backend: it waits for the user, or is refused.
    #[verifier::opaque]
    pub open spec fn server_requested(self, message: JsonView) -> ControllerView {
        let method = text_or_empty(message.text_at("method"@));
        let id = member_or_null(message, "id"@);
        let params = member_or_null(message, "params"@);
        if asks_command(method) {
            self.with_state(
                self.state.approval_enqueued(command_approval(self.state, method, id, params)),
            )
        } else if asks_change(method) {
            self.with_state(
                self.state.approval_enqueued(change_approval(self.state, method, id, params)),
            )
        } else if method == "item/tool/requestUserInput"@ {
            self.with_state(
                self.state.question_enqueued(
                    QuestionRequestView {
                        request_id: id,
                        local_thread_id: local_of(self.state.runtime_threads, params),
                        questions: questions_of(values_at(params, "questions"@)),
                    },
                ),
            )
        } else {
            self.raw_sent(unsupported_view(id, method))
        }
    }

    /// The user has decided on the approval that is shown.
    #[verifier::opaque]
    pub open spec fn approval_answered(self, decision: Seq<char>) -> ControllerView {
        match self.state.approval {
            Some(approval) => {
                let c = self.raw_sent(
                    result_view(approval.request_id, decision_view(approval.method, decision)),
                );
                c.with_state(
                    c.state.logged("Approval: "@ + decision).next_approval().touched(),
                )
            },
            None => self,
        }
    }

    /// The user has answered the questions that are shown.
    #[verifier::opaque]
    pub open spec fn questions_answered(self) -> ControllerView {
        match self.state.user_question {
            Some(request) => {
                let c = self.raw_sent(
                    result_view(
                        request.request_id,
                        JsonView::Object(seq![
                            ("answers"@, JsonView::Object(answers_view(request.questions))),
                        ]),
                    ),
                );
                c.with_state(
                    c.state.next_question().logged("Answered Codex question"@).touched(),
                )
            },
            None => self,
        }
    }
}

fn make_decision(method: &str, decision: &str) -> (r: Json)
    ensures
        r.deep_view() == decision_view(method@, decision@),
{
    let value = if same_text(method, "execCommandApproval") || same_text(
        method,
        "applyPatchApproval",
    ) {
        if same_text(decision, "acceptForSession") {
            Json::text("approved_for_session")
        } else if same_text(decision, "accept") {
            Json::text("approved")
        } else {
            object1("denied", object1("rejection", Json::text("Denied by user")))
        }
    } else {
        Json::text(decision)
    };
    object1("decision", value)
}

fn make_result(id: Json, result: Json) -> (r: Json)
    ensures
        r.deep_view() == result_view(id.deep_view(), result.deep_view()),
{
    let ghost view = result_view(id.deep_view(), result.deep_view());
    let r = object(vec![("id".to_owned(), id), ("result".to_owned(), result)]);
    assert(r.deep_view()->Object_0 =~= view->Object_0);
    r
}

fn make_answers(questions: &Vec<Question>) -> (r: Json)
    ensures
        r.deep_view() == JsonView::Object(answers_view(questions.deep_view())),
{
    let mut out: Vec<(String, Json)> = Vec::new();
    let mut i: usize = 0;
    while i < questions.len()
        invariant
            i <= questions@.len(),
            out@.len() == i,
            forall|j: int|
                0 <= j < i ==> (#[trigger] out@[j]).deep_view() == answers_view(
                    questions.deep_view(),
                )[j],
        decreases questions@.len() - i,
    {
        let texts: Vec<Json> = vec![Json::text(questions[i].answer.as_str())];
        assert(texts.deep_view() =~= seq![JsonView::Text(questions@[i as int].answer@)]);
        let answer = object1("answers", array(texts));
        out.push((questions[i].id.clone(), answer));
        assert(questions.deep_view()[i as int] == questions@[i as int].deep_view());
        i += 1;
    }
    let r = object(out);
    assert(r.deep_view()->Object_0 =~= answers_view(questions.deep_view()));
    r
}

fn make_unsupported(id: Json, method: &str) -> (r: Json)
    ensures
        r.deep_view() == unsupported_view(id.deep_view(), method@),
{
    let ghost view = unsupported_view(id.deep_view(), method@);
    let text = cat("Unsupported request: ", method);
    let error = object(
        vec![
            ("code".to_owned(), Json::Negative(-32601)),
            ("message".to_owned(), Json::Text(text)),
        ],
    );
    assert(error.deep_view()->Object_0 =~= seq![
        ("code"@, JsonView::Negative(-32601i64)),
        ("message"@, JsonView::Text("Unsupported request: "@ + method@)),
    ]);
    let r = object(vec![("id".to_owned(), id), ("error".to_owned(), error)]);
    assert(r.deep_view()->Object_0 =~= view->Object_0);
    r
}

fn copy_of(message: &Json, key: &str) -> (r: Json)
    ensures
        r.deep_view() == member_or_null(message.deep_view(), key@),
{
    match message.get(key) {
        Some(v) => v.clone(),
        None => Json::Null,
    }
}

impl Controller {
    pub(crate) fn local_thread_id(&self, params: &Json) -> (r: Option<String>)
        ensures
            r.deep_view() == local_of(self.deep_view().state.runtime_threads, params.deep_view()),
    {
        let id = match params.text_at("threadId") {
            Some(id) => id,
            None => return None,
        };
        let entries = &self.state.runtime_threads.entries;
        let ghost all = self.state.runtime_threads.deep_view();
        let ghost p = bound_to(id@);
        let mut i: usize = 0;
        while i < entries.len()
            invariant
                i <= entries@.len(),
                *entries == self.state.runtime_threads.entries,
                all == self.state.runtime_threads.deep_view(),
                all == entries.deep_view(),
                params.deep_view().text_at("threadId"@) == Some(id@),
                p == bound_to(id@),
                forall|j: int| 0 <= j < i ==> !p(#[trigger] all[j]),
            decreases entries@.len() - i,
        {
            assert(all[i as int] == (entries@[i as int].0@, entries@[i as int].1@));
            if same_text(entries[i].1.as_str(), id) {
                proof {
                    lemma_first_where_is(all, p, i as int);
                }
                return Some(entries[i].0.clone());
            }
            i += 1;
        }
        proof {
            lemma_first_where_none(all, p);
        }
        None
    }

    fn origin(&self, local: &Option<String>) -> (r: String)
        ensures
            r@ == origin_of(self.deep_view().state, local.deep_view()),
    {
        let found = match local {
            Some(id) => find_thread(&self.state.threads, id.as_str()),
            None => None,
        };
        match found {
            Some(i) => {
                let thread = &self.state.threads[i];
                assert(self.deep_view().state.threads[i as int] == thread.deep_view());
                match find_project(&self.state.projects, thread.project_id.as_str()) {
                    Some(p) => {
                        let project = &self.state.projects[p];
                        assert(self.deep_view().state.projects[p as int] == project.deep_view());
                        let mut r = cat3(project.name.as_str(), " — ", thread.title.as_str());
                        r.append("\n");
                        r.append(project.path.as_str());
                        r
                    },
                    None => {
                        let mut r = cat3("Unknown project", " — ", thread.title.as_str());
                        r.append("\n");
                        r.append("Unknown workspace");
                        r
                    },
                }
            },
            None => "Unknown requesting workspace".to_owned(),
        }
    }

    fn read_command_approval(&self, method: &str, id: Json, params: &Json) -> (r: Approval)
        ensures
            r.deep_view() == command_approval(
                self.deep_view().state,
                method@,
                id.deep_view(),
                params.deep_view(),
            ),
    {
        let local = self.local_thread_id(params);
        let command = match params.get("command") {
            Some(v) => value_to_text(v),
            None => "Command requested".to_owned(),
        };
        let mut detail = self.origin(&local);
        detail.append("\n\n");
        detail.append(command.as_str());
        detail.append("\n\nWorking directory: ");
        detail.append(owned_or_empty(params.text_at("cwd")).as_str());
        detail.append("\n");
        detail.append(
            owned_or(
                params.text_at("reason"),
                "Codex needs permission to run this command.",
            ).as_str(),
        );
        Approval {
            request_id: id,
            local_thread_id: local,
            method: method.to_owned(),
            title: "Run command?".to_owned(),
            detail,
            allow_session: true,
        }
    }

    fn read_change_approval(&self, method: &str, id: Json, params: &Json) -> (r: Approval)
        ensures
            r.deep_view() == change_approval(
                self.deep_view().state,
                method@,
                id.deep_view(),
                params.deep_view(),
            ),
    {
        let local = self.local_thread_id(params);
        let mut detail = self.origin(&local);
        detail.append("\n\n");
        detail.append(
            owned_or(
                params.text_at("reason"),
                "Codex wants to edit files in this workspace.",
            ).as_str(),
        );
        detail.append("\n\nTarget: ");
        detail.append(
            owned_or(params.text_at("grantRoot"), "See requesting workspace above").as_str(),
        );
        Approval {
            request_id: id,
            local_thread_id: local,
            method: method.to_owned(),
            title: "Apply file changes?".to_owned(),
            detail,
            allow_session: true,
        }
    }

    fn enqueue_approval(&mut self, approval: Approval)
        ensures
            final(self).deep_view() == old(self).deep_view().with_state(
                old(self).deep_view().state.approval_enqueued(approval.deep_view()),
            ),
    {
        self.state.enqueue_approval(approval);
    }

    fn enqueue_question(&mut self, question: QuestionRequest)
        ensures
            final(self).deep_view() == old(self).deep_view().with_state(
                old(self).deep_view().state.question_enqueued(question.deep_view()),
            ),
    {
        self.state.enqueue_question(question);
    }

    /// Takes a request of the backend.
    pub fn handle_server_request(&mut self, message: &Json)
        ensures
            final(self).deep_view() == old(self).deep_view().server_requested(message.deep_view()),
    {
        proof {
            reveal(ControllerView::server_requested);
        }
        let method = owned_or_empty(message.text_at("method"));
        let id = copy_of(message, "id");
        let params = copy_of(message, "params");
        if same_text(method.as_str(), "item/commandExecution/requestApproval") || same_text(
            method.as_str(),
            "execCommandApproval",
        ) {
            let approval = self.read_command_approval(method.as_str(), id, &params);
            self.enqueue_approval(approval);
        } else if same_text(method.as_str(), "item/fileChange/requestApproval") || same_text(
            method.as_str(),
            "applyPatchApproval",
        ) {
            let approval = self.read_change_approval(method.as_str(), id, &params);
            self.enqueue_approval(approval);
        } else if same_text(method.as_str(), "item/tool/requestUserInput") {
            let question = QuestionRequest {
                request_id: id,
                local_thread_id: self.local_thread_id(&params),
                questions: read_questions(&params),
            };
            self.enqueue_question(question);
        } else {
            self.send_raw(make_unsupported(id, method.as_str()));
        }
    }

    fn close_approval(&mut self, decision: &str)
        ensures
            final(self).deep_view() == old(self).deep_view().with_state(
                old(self).deep_view().state.logged(
                    "Approval: "@ + decision@,
                ).next_approval().touched(),
            ),
    {
        self.state.log(cat("Approval: ", decision).as_str());
        self.state.show_next_approval();
        self.state.touch();
    }

    fn approval_reply(&self, decision: &str) -> (r: Option<Json>)
        ensures
            r.deep_view() == match self.deep_view().state.approval {
                Some(a) => Some(result_view(a.request_id, decision_view(a.method, decision@))),
                None => None,
            },
    {
        match &self.state.approval {
            Some(approval) => Some(
                make_result(
                    approval.request_id.clone(),
                    make_decision(approval.method.as_str(), decision),
                ),
            ),
            None => None,
        }
    }

    pub fn answer_approval(&mut self, decision: &str)
        ensures
            final(self).deep_view() == old(self).deep_view().approval_answered(decision@),
    {
        proof {
            reveal(ControllerView::approval_answered);
        }
        match self.approval_reply(decision) {
            Some(reply) => {
                self.send_raw(reply);
                self.close_approval(decision);
            },
            None => {},
        }
    }

    pub fn set_question_answer(&mut self, index: usize, answer: String)
        ensures
            final(self).deep_view() == old(self).deep_view().with_state(
                old(self).deep_view().state.with_answer(index as nat, answer@),
            ),
    {
        self.state.answer_question(index, answer);
    }

    fn close_question(&mut self)
        ensures
            final(self).deep_view() == old(self).deep_view().with_state(
                old(self).deep_view().state.next_question().logged(
                    "Answered Codex question"@,
                ).touched(),
            ),
    {
        self.state.show_next_question();
        self.state.log("Answered Codex question");
        self.state.touch();
    }

    fn question_reply(&self) -> (r: Option<Json>)
        ensures
            r.deep_view() == match self.deep_view().state.user_question {
                Some(q) => Some(
                    result_view(
                        q.request_id,
                        JsonView::Object(seq![
                            ("answers"@, JsonView::Object(answers_view(q.questions))),
                        ]),
                    ),
                ),
                None => None,
            },
    {
        match &self.state.user_question {
            Some(request) => Some(
                make_result(
                    request.request_id.clone(),
                    object1("answers", make_answers(&request.questions)),
                ),
            ),
            None => None,
        }
    }

    pub fn submit_question_answers(&mut self)
        ensures
            final(self).deep_view() == old(self).deep_view().questions_answered(),
    {
        proof {
            reveal(ControllerView::questions_answered);
        }
        match self.question_reply() {
            Some(reply) => {
                self.send_raw(reply);
                self.close_question();
            },
            None => {},
        }
    }
}

} // verus!
