//! The evaluation of one plan level: the record that it builds, the
//! decisions between the upstream calls, and the prompts of the later stages.

use crate::analyzer::{
    analyzer_prompt, analyzer_prompt_text, regex_first_group, reply_temperature,
    temperature_from_reply, temperature_pattern, ANALYZER_CALL_MILLIS,
};
use crate::config::{
    domain_views, effective_timeouts, find_model, model_hints, model_views, url_host, Config,
    DomainOverrides, DomainTimeouts, ModelConfig, ModelView, WorkflowTimeouts,
};
use crate::error::{AppError, ErrorKind, ErrorView};
use crate::llm::{Message, Role};
use crate::plan::{lemma_plan_view, plan_label, worker_label, PlanView, TargetView, WorkerView, WorkflowPlan, WorkflowWorker};
use crate::selector::{candidate_views, parse_selection, reply_object, selection, selector_prompt, selector_prompt_text, text_option_view, Candidate, CandidateView, ChoiceView, SelectorChoice, SelectorError};
use crate::temperature::{
    resolution, resolve_temperature, PlanRole, Resolution, Temperature, TemperatureHints,
};
use crate::text::{contains, decimal, lemma_contains_left, lemma_contains_right, lemma_contains_self, push_decimal, push_str, string_of};
use vstd::prelude::*;

verus! {

/// What is recorded of the analyzer and of the synthesizer.
#[derive(Debug)]
pub struct PhaseDetails {
    pub model: String,
    pub temperature: Temperature,
    /// Whether the temperature was asked of the analyzer model.
    pub auto_temperature_used: bool,
    pub success: bool,
    pub error: Option<String>,
    pub output: Option<String>,
}

/// What is recorded of one worker.
#[derive(Debug)]
pub struct WorkerDetails {
    pub name: String,
    pub effective_temperature: Option<Temperature>,
    pub response: Option<String>,
    pub success: bool,
    pub error: Option<String>,
    /// The record of the nested plan, where the worker is one.
    pub nested: Option<Box<WorkflowExecutionDetails>>,
}

/// What is recorded of the selector.
#[derive(Debug)]
pub struct SelectorDetails {
    pub model: String,
    pub temperature: Temperature,
    pub choice: Option<SelectorChoice>,
    pub success: bool,
    pub error: Option<String>,
    pub raw_output: Option<String>,
}

/// The record of one evaluation of a plan level.
#[derive(Debug)]
pub struct WorkflowExecutionDetails {
    pub workflow_id: String,
    pub total_duration_ms: u128,
    pub analyzer: Option<PhaseDetails>,
    pub workers: Vec<WorkerDetails>,
    pub worker_count: usize,
    pub worker_successful: usize,
    pub worker_failures: usize,
    pub selector: Option<SelectorDetails>,
    pub synthesizer: Option<PhaseDetails>,
}

/// The answer of an evaluation, with its record where one was asked for.
#[derive(Debug)]
pub struct WorkflowResult {
    pub response: String,
    pub details: Option<WorkflowExecutionDetails>,
}

pub struct PhaseView {
    pub model: Seq<char>,
    pub temperature: Temperature,
    pub auto_temperature_used: bool,
    pub success: bool,
    pub error: Option<Seq<char>>,
    pub output: Option<Seq<char>>,
}

pub struct WorkerDetailsView {
    pub name: Seq<char>,
    pub effective_temperature: Option<Temperature>,
    pub response: Option<Seq<char>>,
    pub success: bool,
    pub error: Option<Seq<char>>,
    pub nested: Option<Box<WorkflowExecutionDetails>>,
}

pub struct SelectorView {
    pub model: Seq<char>,
    pub temperature: Temperature,
    pub choice: Option<ChoiceView>,
    pub success: bool,
    pub error: Option<Seq<char>>,
    pub raw_output: Option<Seq<char>>,
}

pub struct DetailsView {
    pub workflow_id: Seq<char>,
    pub total_duration_ms: u128,
    pub analyzer: Option<PhaseView>,
    pub workers: Seq<WorkerDetailsView>,
    pub worker_count: usize,
    pub worker_successful: usize,
    pub worker_failures: usize,
    pub selector: Option<SelectorView>,
    pub synthesizer: Option<PhaseView>,
}

impl View for PhaseDetails {
    type V = PhaseView;

    open spec fn view(&self) -> PhaseView {
        PhaseView {
            model: self.model@,
            temperature: self.temperature,
            auto_temperature_used: self.auto_temperature_used,
            success: self.success,
            error: text_option_view(self.error),
            output: text_option_view(self.output),
        }
    }
}

impl View for WorkerDetails {
    type V = WorkerDetailsView;

    open spec fn view(&self) -> WorkerDetailsView {
        WorkerDetailsView {
            name: self.name@,
            effective_temperature: self.effective_temperature,
            response: text_option_view(self.response),
            success: self.success,
            error: text_option_view(self.error),
            nested: self.nested,
        }
    }
}

pub open spec fn choice_option_view(c: Option<SelectorChoice>) -> Option<ChoiceView> {
    match c {
        Some(x) => Some(x@),
        None => None,
    }
}

impl View for SelectorDetails {
    type V = SelectorView;

    open spec fn view(&self) -> SelectorView {
        SelectorView {
            model: self.model@,
            temperature: self.temperature,
            choice: choice_option_view(self.choice),
            success: self.success,
            error: text_option_view(self.error),
            raw_output: text_option_view(self.raw_output),
        }
    }
}

pub open spec fn phase_option_view(p: Option<PhaseDetails>) -> Option<PhaseView> {
    match p {
        Some(x) => Some(x@),
        None => None,
    }
}

pub open spec fn selector_option_view(s: Option<SelectorDetails>) -> Option<SelectorView> {
    match s {
        Some(x) => Some(x@),
        None => None,
    }
}

pub open spec fn worker_details_views(ws: Seq<WorkerDetails>) -> Seq<WorkerDetailsView> {
    Seq::new(ws.len(), |i: int| ws[i]@)
}

impl View for WorkflowExecutionDetails {
    type V = DetailsView;

    open spec fn view(&self) -> DetailsView {
        DetailsView {
            workflow_id: self.workflow_id@,
            total_duration_ms: self.total_duration_ms,
            analyzer: phase_option_view(self.analyzer),
            workers: worker_details_views(self.workers@),
            worker_count: self.worker_count,
            worker_successful: self.worker_successful,
            worker_failures: self.worker_failures,
            selector: selector_option_view(self.selector),
            synthesizer: phase_option_view(self.synthesizer),
        }
    }
}

/// The record before anything has happened.
pub open spec fn empty_details(workflow_id: Seq<char>) -> DetailsView {
    DetailsView {
        workflow_id,
        total_duration_ms: 0,
        analyzer: None,
        workers: Seq::empty(),
        worker_count: 0,
        worker_successful: 0,
        worker_failures: 0,
        selector: None,
        synthesizer: None,
    }
}

impl WorkflowExecutionDetails {
    /// A record that holds nothing yet.
    pub fn new(workflow_id: String) -> (r: Self)
        ensures
            r@ == empty_details(workflow_id@),
    {
        let r = WorkflowExecutionDetails {
            workflow_id,
            total_duration_ms: 0,
            analyzer: None,
            workers: Vec::new(),
            worker_count: 0,
            worker_successful: 0,
            worker_failures: 0,
            selector: None,
            synthesizer: None,
        };
        assert(worker_details_views(r.workers@) =~= Seq::<WorkerDetailsView>::empty());
        r
    }

    /// The record with the time that the whole evaluation took.
    pub fn finish(self, duration_ms: u128) -> (r: Self)
        ensures
            r@ == (DetailsView { total_duration_ms: duration_ms, ..self@ }),
    {
        let mut r = self;
        r.total_duration_ms = duration_ms;
        r
    }
}

/// What comes back from the work that an action asked for.
#[derive(Debug)]
pub enum Event {
    /// The call, or the nested plan, gave this text; a nested plan gives its
    /// record with it.
    Completed(String, Option<Box<WorkflowExecutionDetails>>),
    /// The call, or the nested plan, failed with this message.
    Failed(String),
    /// The deadline of the call passed.
    TimedOut,
}

pub enum EventView {
    Completed(Seq<char>, Option<Box<WorkflowExecutionDetails>>),
    Failed(Seq<char>),
    TimedOut,
}

impl View for Event {
    type V = EventView;

    open spec fn view(&self) -> EventView {
        match self {
            Event::Completed(t, d) => EventView::Completed(t@, *d),
            Event::Failed(m) => EventView::Failed(m@),
            Event::TimedOut => EventView::TimedOut,
        }
    }
}

/// The word for a role in messages.
pub open spec fn role_text(role: PlanRole) -> Seq<char> {
    match role {
        PlanRole::Analyzer => "analyzer"@,
        PlanRole::Worker => "worker"@,
        PlanRole::Selector => "selector"@,
        PlanRole::Synthesizer => "synthesizer"@,
    }
}

/// The message that records a deadline that passed: the role, the name of
/// the node between quotes, and `timed out`.
pub open spec fn timeout_text(role: PlanRole, name: Seq<char>) -> Seq<char> {
    role_text(role) + " '"@ + name + "' timed out"@
}

/// Builds the message that records a deadline that passed.
pub fn timeout_message(role: PlanRole, name: &str) -> (s: String)
    ensures
        s@ == timeout_text(role, name@),
{
    let mut out: Vec<char> = Vec::new();
    match role {
        PlanRole::Analyzer => push_str(&mut out, "analyzer"),
        PlanRole::Worker => push_str(&mut out, "worker"),
        PlanRole::Selector => push_str(&mut out, "selector"),
        PlanRole::Synthesizer => push_str(&mut out, "synthesizer"),
    }
    push_str(&mut out, " '");
    push_str(&mut out, name);
    push_str(&mut out, "' timed out");
    assert(out@ =~= timeout_text(role, name@));
    string_of(&out)
}

/// The message of a deadline that passed names the node and its role.
pub proof fn law_timeout_names_node_and_role(role: PlanRole, name: Seq<char>)
    ensures
        contains(timeout_text(role, name), name),
        contains(timeout_text(role, name), role_text(role)),
{
    let a = role_text(role) + " '"@;
    let b = "' timed out"@;
    lemma_contains_self(name);
    lemma_contains_right(a, name, name);
    lemma_contains_left(a + name, b, name);
    lemma_contains_self(role_text(role));
    lemma_contains_left(role_text(role), " '"@, role_text(role));
    lemma_contains_left(a, name, role_text(role));
    lemma_contains_left(a + name, b, role_text(role));
}

/// What failed, in words: the message of the failure, or of the deadline.
pub open spec fn failure_text(role: PlanRole, name: Seq<char>, e: EventView) -> Seq<char> {
    match e {
        EventView::Failed(m) => m,
        _ => timeout_text(role, name),
    }
}

/// What is recorded of a worker for what came back: a text is a success,
/// anything else a failure with its message.
pub open spec fn outcome_of(name: Seq<char>, temperature: Option<Temperature>, e: EventView)
    -> WorkerDetailsView {
    match e {
        EventView::Completed(text, nested) => WorkerDetailsView {
            name,
            effective_temperature: temperature,
            response: Some(text),
            success: true,
            error: None,
            nested,
        },
        _ => WorkerDetailsView {
            name,
            effective_temperature: temperature,
            response: None,
            success: false,
            error: Some(failure_text(PlanRole::Worker, name, e)),
            nested: None,
        },
    }
}

/// Records what came back for a worker.
pub fn worker_outcome(name: String, temperature: Option<Temperature>, event: Event) -> (r:
    WorkerDetails)
    ensures
        r@ == outcome_of(name@, temperature, event@),
{
    match event {
        Event::Completed(text, nested) => WorkerDetails {
            name,
            effective_temperature: temperature,
            response: Some(text),
            success: true,
            error: None,
            nested,
        },
        Event::Failed(m) => WorkerDetails {
            name,
            effective_temperature: temperature,
            response: None,
            success: false,
            error: Some(m),
            nested: None,
        },
        Event::TimedOut => {
            let message = timeout_message(PlanRole::Worker, name.as_str());
            WorkerDetails {
                name,
                effective_temperature: temperature,
                response: None,
                success: false,
                error: Some(message),
                nested: None,
            }
        },
    }
}

/// How many of the workers from `i` on succeeded.
pub open spec fn successes_from(ws: Seq<WorkerDetailsView>, i: nat) -> nat
    decreases ws.len() - i,
{
    if i >= ws.len() {
        0
    } else if ws[i as int].success {
        1 + successes_from(ws, i + 1)
    } else {
        successes_from(ws, i + 1)
    }
}

/// Counts the workers that succeeded.
pub fn count_successes(workers: &Vec<WorkerDetails>) -> (n: usize)
    ensures
        n == successes_from(worker_details_views(workers@), 0),
        n <= workers.len(),
{
    let ghost ws = worker_details_views(workers@);
    let mut n: usize = 0;
    let mut i: usize = 0;
    while i < workers.len()
        invariant
            i <= workers.len(),
            n <= i,
            ws == worker_details_views(workers@),
            n + successes_from(ws, i as nat) == successes_from(ws, 0),
        decreases workers.len() - i,
    {
        assert(ws[i as int] == workers@[i as int]@);
        if workers[i].success {
            n = n + 1;
        }
        i = i + 1;
    }
    n
}

/// The answers of the workers from `i` on that succeeded, in order.
pub open spec fn candidates_from(ws: Seq<WorkerDetailsView>, i: nat) -> Seq<CandidateView>
    decreases ws.len() - i,
{
    if i >= ws.len() {
        Seq::empty()
    } else if ws[i as int].success && ws[i as int].response is Some {
        seq![CandidateView { name: ws[i as int].name, response: ws[i as int].response->0 }]
            + candidates_from(ws, i + 1)
    } else {
        candidates_from(ws, i + 1)
    }
}

/// Collects the answers of the workers that succeeded, in order.
pub fn successful_candidates(workers: &Vec<WorkerDetails>) -> (r: Vec<Candidate>)
    ensures
        candidate_views(r@) == candidates_from(worker_details_views(workers@), 0),
{
    let ghost ws = worker_details_views(workers@);
    let mut r: Vec<Candidate> = Vec::new();
    let mut i: usize = 0;
    assert(candidate_views(r@) + candidates_from(ws, 0) =~= candidates_from(ws, 0));
    while i < workers.len()
        invariant
            i <= workers.len(),
            ws == worker_details_views(workers@),
            candidate_views(r@) + candidates_from(ws, i as nat) == candidates_from(ws, 0),
        decreases workers.len() - i,
    {
        assert(ws[i as int] == workers@[i as int]@);
        let ghost before = candidate_views(r@);
        if workers[i].success {
            if let Some(text) = &workers[i].response {
                r.push(Candidate { name: workers[i].name.clone(), response: text.clone() });
                assert(candidate_views(r@) =~= before + seq![
                    CandidateView { name: ws[i as int].name, response: ws[i as int].response->0 },
                ]);
            }
        }
        assert(candidate_views(r@) + candidates_from(ws, (i + 1) as nat) =~= before
            + candidates_from(ws, i as nat));
        i = i + 1;
    }
    assert(candidate_views(r@) + candidates_from(ws, workers@.len() as nat) =~= candidate_views(
        r@,
    ));
    r
}

/// The answer of the first worker from `i` on that succeeded.
pub open spec fn first_success(ws: Seq<WorkerDetailsView>, i: nat) -> Option<Seq<char>>
    decreases ws.len() - i,
{
    if i >= ws.len() {
        None
    } else if ws[i as int].success && ws[i as int].response is Some {
        ws[i as int].response
    } else {
        first_success(ws, i + 1)
    }
}

/// The answer of a level without a synthesizer: the text that the selector's
/// reply itself carried; else the answer of the worker that the selector
/// chose; else the answer of the first worker that succeeded; else none.
pub open spec fn unsynthesized_answer(selector: Option<SelectorView>, ws: Seq<WorkerDetailsView>)
    -> Option<Seq<char>> {
    match selector {
        Some(s) => match s.choice {
            Some(c) => match c.selected_response {
                Some(t) => Some(t),
                None => Some(c.chosen_response),
            },
            None => first_success(ws, 0),
        },
        None => first_success(ws, 0),
    }
}

fn first_successful_answer(workers: &Vec<WorkerDetails>) -> (r: Option<String>)
    ensures
        text_option_view(r) == first_success(worker_details_views(workers@), 0),
{
    let ghost ws = worker_details_views(workers@);
    let mut i: usize = 0;
    while i < workers.len()
        invariant
            i <= workers.len(),
            ws == worker_details_views(workers@),
            first_success(ws, 0) == first_success(ws, i as nat),
        decreases workers.len() - i,
    {
        assert(ws[i as int] == workers@[i as int]@);
        if workers[i].success {
            if let Some(text) = &workers[i].response {
                return Some(text.clone());
            }
        }
        i = i + 1;
    }
    None
}

/// Picks the answer of a level that has no synthesizer.
pub fn final_response(selector: &Option<SelectorDetails>, workers: &Vec<WorkerDetails>) -> (r:
    Option<String>)
    ensures
        text_option_view(r) == unsynthesized_answer(
            selector_option_view(*selector),
            worker_details_views(workers@),
        ),
{
    if let Some(s) = selector {
        if let Some(c) = &s.choice {
            return match &c.selected_response {
                Some(t) => Some(t.clone()),
                None => Some(c.chosen_response.clone()),
            };
        }
    }
    first_successful_answer(workers)
}

pub open spec fn text_or_empty(t: Option<Seq<char>>) -> Seq<char> {
    match t {
        Some(s) => s,
        None => Seq::empty(),
    }
}

/// One bracket for each worker from `i` on: its name and its error.
pub open spec fn failure_lines(ws: Seq<WorkerDetailsView>, i: nat) -> Seq<char>
    decreases ws.len() - i,
{
    if i >= ws.len() {
        Seq::empty()
    } else {
        " ["@ + ws[i as int].name + ": "@ + text_or_empty(ws[i as int].error) + "]"@
            + failure_lines(ws, i + 1)
    }
}

/// The message of a level whose workers all failed.
pub open spec fn all_failed_text(label: Seq<char>, depth: nat, ws: Seq<WorkerDetailsView>) -> Seq<
    char,
> {
    "all workers failed in "@ + label + " at depth "@ + decimal(depth) + ":"@ + failure_lines(
        ws,
        0,
    )
}

/// Builds the message of a level whose workers all failed.
pub fn all_failed_message(label: &str, depth: usize, workers: &Vec<WorkerDetails>) -> (s: String)
    ensures
        s@ == all_failed_text(label@, depth as nat, worker_details_views(workers@)),
{
    let ghost ws = worker_details_views(workers@);
    let mut out: Vec<char> = Vec::new();
    push_str(&mut out, "all workers failed in ");
    push_str(&mut out, label);
    push_str(&mut out, " at depth ");
    push_decimal(&mut out, depth as u64);
    push_str(&mut out, ":");
    let ghost head = out@;
    let mut i: usize = 0;
    while i < workers.len()
        invariant
            i <= workers.len(),
            ws == worker_details_views(workers@),
            out@ + failure_lines(ws, i as nat) == head + failure_lines(ws, 0),
        decreases workers.len() - i,
    {
        assert(ws[i as int] == workers@[i as int]@);
        let ghost before = out@;
        push_str(&mut out, " [");
        push_str(&mut out, workers[i].name.as_str());
        push_str(&mut out, ": ");
        if let Some(e) = &workers[i].error {
            push_str(&mut out, e.as_str());
        }
        push_str(&mut out, "]");
        assert(out@ + failure_lines(ws, (i + 1) as nat) =~= before + failure_lines(ws, i as nat));
        i = i + 1;
    }
    assert(out@ + failure_lines(ws, workers@.len() as nat) =~= out@);
    assert(out@ =~= all_failed_text(label@, depth as nat, ws));
    string_of(&out)
}

proof fn lemma_failure_lines_name(ws: Seq<WorkerDetailsView>, i: nat, j: int)
    requires
        i <= j < ws.len(),
    ensures
        contains(failure_lines(ws, i), ws[j].name),
        contains(failure_lines(ws, i), text_or_empty(ws[j].error)),
    decreases ws.len() - i,
{
    let w = ws[i as int];
    let rest = failure_lines(ws, i + 1);
    let a = " ["@;
    let b = ": "@;
    let e = text_or_empty(w.error);
    let c = "]"@;
    if i == j {
        lemma_contains_self(w.name);
        lemma_contains_right(a, w.name, w.name);
        lemma_contains_left(a + w.name, b, w.name);
        lemma_contains_left(a + w.name + b, e, w.name);
        lemma_contains_left(a + w.name + b + e, c, w.name);
        lemma_contains_left(a + w.name + b + e + c, rest, w.name);
        lemma_contains_self(e);
        lemma_contains_right(a + w.name + b, e, e);
        lemma_contains_left(a + w.name + b + e, c, e);
        lemma_contains_left(a + w.name + b + e + c, rest, e);
    } else {
        lemma_failure_lines_name(ws, i + 1, j);
        lemma_contains_right(a + w.name + b + e + c, rest, ws[j].name);
        lemma_contains_right(a + w.name + b + e + c, rest, text_or_empty(ws[j].error));
    }
}

/// The message of a level whose workers all failed names the plan and, for
/// every worker, its name and its own error.
pub proof fn law_all_failed_names_everything(
    label: Seq<char>,
    depth: nat,
    ws: Seq<WorkerDetailsView>,
    j: int,
)
    requires
        0 <= j < ws.len(),
    ensures
        contains(all_failed_text(label, depth, ws), label),
        contains(all_failed_text(label, depth, ws), ws[j].name),
        contains(all_failed_text(label, depth, ws), text_or_empty(ws[j].error)),
{
    let a = "all workers failed in "@;
    let b = " at depth "@ + decimal(depth) + ":"@;
    let lines = failure_lines(ws, 0);
    assert(all_failed_text(label, depth, ws) =~= a + label + b + lines);
    lemma_contains_self(label);
    lemma_contains_right(a, label, label);
    lemma_contains_left(a + label, b, label);
    lemma_contains_left(a + label + b, lines, label);
    lemma_failure_lines_name(ws, 0, j);
    lemma_contains_right(a + label + b, lines, ws[j].name);
    lemma_contains_right(a + label + b, lines, text_or_empty(ws[j].error));
}

/// The answers of the candidates from `i` on, each under its name.
pub open spec fn answer_lines(cs: Seq<CandidateView>, i: nat) -> Seq<char>
    decreases cs.len() - i,
{
    if i >= cs.len() {
        Seq::empty()
    } else {
        "\n\n["@ + cs[i as int].name + "]\n"@ + cs[i as int].response + answer_lines(cs, i + 1)
    }
}

/// The lines that put the selector's choice before the synthesizer.
pub open spec fn recommendation(choice: Option<ChoiceView>) -> Seq<char> {
    match choice {
        Some(c) => "\n\nRecommended answer: ["@ + c.chosen_worker + "]\n"@ + c.chosen_response
            + match c.reasoning {
            Some(r) => "\nReasoning: "@ + r,
            None => Seq::empty(),
        },
        None => Seq::empty(),
    }
}

/// The prompt of the synthesizer: the question, the answers of the workers
/// under their names, the selector's choice where there is one, and the
/// instruction to write one answer.
pub open spec fn synthesizer_prompt_text(
    prompt: Seq<char>,
    cs: Seq<CandidateView>,
    choice: Option<ChoiceView>,
) -> Seq<char> {
    "Question:\n"@ + prompt + "\n\nAnswers from the workers:"@ + answer_lines(cs, 0)
        + recommendation(choice)
        + "\n\nWrite one consolidated answer to the question. Do not comment on the workers or on this process."@
}

/// Builds the prompt of the synthesizer.
pub fn synthesizer_prompt(prompt: &str, candidates: &Vec<Candidate>, choice: &Option<
    SelectorChoice,
>) -> (s: String)
    ensures
        s@ == synthesizer_prompt_text(
            prompt@,
            candidate_views(candidates@),
            choice_option_view(*choice),
        ),
{
    let ghost cs = candidate_views(candidates@);
    let mut out: Vec<char> = Vec::new();
    push_str(&mut out, "Question:\n");
    push_str(&mut out, prompt);
    push_str(&mut out, "\n\nAnswers from the workers:");
    let ghost head = out@;
    let mut i: usize = 0;
    while i < candidates.len()
        invariant
            i <= candidates.len(),
            cs == candidate_views(candidates@),
            out@ + answer_lines(cs, i as nat) == head + answer_lines(cs, 0),
        decreases candidates.len() - i,
    {
        assert(cs[i as int] == candidates@[i as int]@);
        let ghost before = out@;
        push_str(&mut out, "\n\n[");
        push_str(&mut out, candidates[i].name.as_str());
        push_str(&mut out, "]\n");
        push_str(&mut out, candidates[i].response.as_str());
        assert(out@ + answer_lines(cs, (i + 1) as nat) =~= before + answer_lines(cs, i as nat));
        i = i + 1;
    }
    assert(out@ + answer_lines(cs, candidates@.len() as nat) =~= out@);
    let ghost listed = out@;
    if let Some(c) = choice {
        push_str(&mut out, "\n\nRecommended answer: [");
        push_str(&mut out, c.chosen_worker.as_str());
        push_str(&mut out, "]\n");
        push_str(&mut out, c.chosen_response.as_str());
        if let Some(r) = &c.reasoning {
            push_str(&mut out, "\nReasoning: ");
            push_str(&mut out, r.as_str());
        }
    }
    assert(out@ =~= listed + recommendation(choice_option_view(*choice)));
    push_str(
        &mut out,
        "\n\nWrite one consolidated answer to the question. Do not comment on the workers or on this process.",
    );
    assert(out@ =~= synthesizer_prompt_text(prompt@, cs, choice_option_view(*choice)));
    string_of(&out)
}


/// Where the evaluation of a level stands.
#[derive(Clone, Copy, Debug, PartialEq, Eq, Structural)]
pub enum Phase {
    /// The analyzer was asked for a temperature.
    Analyzer,
    /// The worker of this index is at work.
    Worker(usize),
    /// The selector was asked for its choice.
    Selector,
    /// The synthesizer was asked for the answer.
    Synthesizer,
    /// The level has given its result.
    Finished,
}

/// One call to an upstream endpoint.
#[derive(Debug)]
pub struct UpstreamCall {
    pub role: PlanRole,
    pub model: String,
    pub api_base: String,
    pub api_key: String,
    /// The one user message of the call.
    pub prompt: String,
    pub temperature: Temperature,
    pub timeout_secs: u64,
    /// Whether the text of the reply is handed on as it arrives.
    pub stream: bool,
}

pub struct CallView {
    pub role: PlanRole,
    pub model: Seq<char>,
    pub api_base: Seq<char>,
    pub api_key: Seq<char>,
    pub prompt: Seq<char>,
    pub temperature: Temperature,
    pub timeout_secs: u64,
    pub stream: bool,
}

impl View for UpstreamCall {
    type V = CallView;

    open spec fn view(&self) -> CallView {
        CallView {
            role: self.role,
            model: self.model@,
            api_base: self.api_base@,
            api_key: self.api_key@,
            prompt: self.prompt@,
            temperature: self.temperature,
            timeout_secs: self.timeout_secs,
            stream: self.stream,
        }
    }
}

impl UpstreamCall {
    /// The messages of the call: the prompt, as the one message of the user.
    pub fn messages(&self) -> (r: Vec<Message>)
        ensures
            r@.len() == 1,
            r@[0].role == Role::User,
            r@[0].content@ == self.prompt@,
    {
        let mut r: Vec<Message> = Vec::new();
        r.push(Message { role: Role::User, content: self.prompt.clone() });
        r
    }
}

/// What is to be done next for a level.
#[derive(Debug)]
pub enum Action {
    /// Make this call and come back with what it gave.
    Call(UpstreamCall),
    /// Evaluate the nested plan of the worker of this index, one level
    /// deeper, streaming its answer or not, and come back with its result.
    Descend(usize, bool),
    /// The level is done: this is its result.
    Finish(Result<WorkflowResult, AppError>),
}

pub enum ActionView {
    Call(CallView),
    Descend(int, bool),
    Done(Seq<char>, DetailsView),
    Fail(ErrorView),
}

pub open spec fn details_option_view(d: Option<WorkflowExecutionDetails>) -> DetailsView {
    match d {
        Some(x) => x@,
        None => empty_details(Seq::empty()),
    }
}

impl View for Action {
    type V = ActionView;

    open spec fn view(&self) -> ActionView {
        match self {
            Action::Call(c) => ActionView::Call(c@),
            Action::Descend(i, stream) => ActionView::Descend(*i as int, *stream),
            Action::Finish(Ok(r)) => ActionView::Done(r.response@, details_option_view(r.details)),
            Action::Finish(Err(e)) => ActionView::Fail(e@),
        }
    }
}

/// The state of the evaluation of one level, between two actions.
#[derive(Debug)]
pub struct LevelRun {
    pub depth: usize,
    pub stream: bool,
    pub prompt: String,
    pub phase: Phase,
    pub analyzer_temperature: Temperature,
    pub analyzer_auto: bool,
    /// The temperature of the call that is under way.
    pub pending: Temperature,
    pub details: WorkflowExecutionDetails,
}

pub struct RunView {
    pub depth: usize,
    pub stream: bool,
    pub prompt: Seq<char>,
    pub phase: Phase,
    pub analyzer_temperature: Temperature,
    pub analyzer_auto: bool,
    pub pending: Temperature,
    pub details: DetailsView,
}

impl View for LevelRun {
    type V = RunView;

    open spec fn view(&self) -> RunView {
        RunView {
            depth: self.depth,
            stream: self.stream,
            prompt: self.prompt@,
            phase: self.phase,
            analyzer_temperature: self.analyzer_temperature,
            analyzer_auto: self.analyzer_auto,
            pending: self.pending,
            details: self.details@,
        }
    }
}

/// What the decisions read of the configuration.
pub struct EngineView {
    pub models: Seq<ModelView>,
    pub timeouts: WorkflowTimeouts,
    pub domains: Seq<(Seq<char>, DomainOverrides)>,
}

/// The evaluator of plan levels over one configuration.
#[derive(Debug)]
pub struct WorkflowEngine {
    pub config: Config,
}

impl View for WorkflowEngine {
    type V = EngineView;

    open spec fn view(&self) -> EngineView {
        EngineView {
            models: model_views(self.config.model@),
            timeouts: self.config.workflow.timeouts,
            domains: domain_views(self.config.workflow.domains@),
        }
    }
}

pub open spec fn target_hints(t: TargetView) -> TemperatureHints {
    TemperatureHints { temperature: t.temperature, auto_temperature: t.auto_temperature }
}

/// The temperature of a call that is not the analyzer's own.
pub open spec fn resolved(
    role: PlanRole,
    node: TargetView,
    m: ModelView,
    analyzer_temperature: Temperature,
    analyzer_auto: bool,
) -> Temperature {
    match resolution(role, target_hints(node), model_hints(m), analyzer_temperature, analyzer_auto) {
        Resolution::Fixed(t) => t,
        Resolution::AskAnalyzer => Temperature::default_value(),
    }
}

/// The deadline of a call by its role; the selector runs under the
/// synthesizer's.
pub open spec fn deadline(t: DomainTimeouts, role: PlanRole) -> u64 {
    match role {
        PlanRole::Analyzer => t.analyzer,
        PlanRole::Worker => t.worker,
        PlanRole::Selector => t.synthesizer,
        PlanRole::Synthesizer => t.synthesizer,
    }
}

/// The call to a model in a role.
pub open spec fn call_for(
    e: EngineView,
    role: PlanRole,
    m: ModelView,
    prompt: Seq<char>,
    temperature: Temperature,
    stream: bool,
) -> CallView {
    CallView {
        role,
        model: m.name,
        api_base: m.api_base,
        api_key: m.api_key,
        prompt,
        temperature,
        timeout_secs: deadline(effective_timeouts(e.timeouts, e.domains, url_host(m.api_base)), role),
        stream,
    }
}

/// The record with its counts brought up to date.
pub open spec fn counted(d: DetailsView) -> DetailsView {
    DetailsView {
        worker_count: d.workers.len() as usize,
        worker_successful: successes_from(d.workers, 0) as usize,
        worker_failures: (d.workers.len() - successes_from(d.workers, 0)) as usize,
        ..d
    }
}

pub open spec fn fail(run: RunView, kind: ErrorKind, detail: Seq<char>) -> (RunView, ActionView) {
    (RunView { phase: Phase::Finished, ..run }, ActionView::Fail(ErrorView { kind, detail }))
}

/// The level gives its answer, and its record goes with it.
pub open spec fn done(run: RunView, text: Seq<char>) -> (RunView, ActionView) {
    (
        RunView {
            phase: Phase::Finished,
            details: empty_details(run.details.workflow_id),
            ..run
        },
        ActionView::Done(text, counted(run.details)),
    )
}

pub open spec fn push_worker(run: RunView, w: WorkerDetailsView) -> RunView {
    RunView { details: DetailsView { workers: run.details.workers.push(w), ..run.details }, ..run }
}

pub open spec fn with_selector(run: RunView, s: SelectorView) -> RunView {
    RunView { details: DetailsView { selector: Some(s), ..run.details }, ..run }
}

pub open spec fn with_synthesizer(run: RunView, p: PhaseView) -> RunView {
    RunView { details: DetailsView { synthesizer: Some(p), ..run.details }, ..run }
}

pub open spec fn with_analyzer(run: RunView, p: PhaseView) -> RunView {
    RunView {
        analyzer_temperature: p.temperature,
        analyzer_auto: p.auto_temperature_used,
        details: DetailsView { analyzer: Some(p), ..run.details },
        ..run
    }
}

pub open spec fn not_found_text(name: Seq<char>) -> Seq<char> {
    "Model not found: "@ + name
}

pub open spec fn no_answer_text(label: Seq<char>) -> Seq<char> {
    "no final response in "@ + label
}

pub open spec fn no_workers_text(label: Seq<char>, depth: nat) -> Seq<char> {
    label + " at depth "@ + decimal(depth) + " has no workers"@
}

pub open spec fn selector_choice(s: Option<SelectorView>) -> Option<ChoiceView> {
    match s {
        Some(x) => x.choice,
        None => None,
    }
}

/// After the selector: the call to the synthesizer where the level has one,
/// and the answer of the level where it has none.
pub open spec fn enter_synthesizer(e: EngineView, plan: PlanView, run: RunView) -> (
    RunView,
    ActionView,
) {
    match plan.synthesizer {
        Some(s) => match find_model(e.models, s.model, 0) {
            None => fail(run, ErrorKind::ModelNotFound, s.model),
            Some(m) => {
                let t = resolved(
                    PlanRole::Synthesizer,
                    s,
                    m,
                    run.analyzer_temperature,
                    run.analyzer_auto,
                );
                (
                    RunView { phase: Phase::Synthesizer, pending: t, ..run },
                    ActionView::Call(
                        call_for(
                            e,
                            PlanRole::Synthesizer,
                            m,
                            synthesizer_prompt_text(
                                run.prompt,
                                candidates_from(run.details.workers, 0),
                                selector_choice(run.details.selector),
                            ),
                            t,
                            run.stream,
                        ),
                    ),
                )
            },
        },
        None => match unsynthesized_answer(run.details.selector, run.details.workers) {
            Some(t) => done(run, t),
            None => fail(run, ErrorKind::WorkflowExecution, no_answer_text(plan_label(plan))),
        },
    }
}

pub open spec fn missing_selector(name: Seq<char>) -> SelectorView {
    SelectorView {
        model: name,
        temperature: Temperature::default_value(),
        choice: None,
        success: false,
        error: Some(not_found_text(name)),
        raw_output: None,
    }
}

/// After the workers: the call to the selector where the level has one.
pub open spec fn enter_selector(e: EngineView, plan: PlanView, run: RunView) -> (
    RunView,
    ActionView,
) {
    match plan.selector {
        None => enter_synthesizer(e, plan, run),
        Some(s) => match find_model(e.models, s.model, 0) {
            None => enter_synthesizer(e, plan, with_selector(run, missing_selector(s.model))),
            Some(m) => {
                let t = resolved(
                    PlanRole::Selector,
                    s,
                    m,
                    run.analyzer_temperature,
                    run.analyzer_auto,
                );
                (
                    RunView { phase: Phase::Selector, pending: t, ..run },
                    ActionView::Call(
                        call_for(
                            e,
                            PlanRole::Selector,
                            m,
                            selector_prompt_text(
                                run.prompt,
                                candidates_from(run.details.workers, 0),
                            ),
                            t,
                            false,
                        ),
                    ),
                )
            },
        },
    }
}

/// After the last worker: failure where none succeeded, else the selector.
pub open spec fn close_workers(e: EngineView, plan: PlanView, run: RunView) -> (
    RunView,
    ActionView,
) {
    if successes_from(run.details.workers, 0) == 0 {
        fail(
            run,
            ErrorKind::WorkflowExecution,
            all_failed_text(plan_label(plan), run.depth as nat, run.details.workers),
        )
    } else {
        enter_selector(e, plan, run)
    }
}

pub open spec fn missing_worker(name: Seq<char>) -> WorkerDetailsView {
    WorkerDetailsView {
        name,
        effective_temperature: None,
        response: None,
        success: false,
        error: Some(not_found_text(name)),
        nested: None,
    }
}

/// Whether the workers of a level stream: where the level streams and has
/// no synthesizer to give its answer.
pub open spec fn workers_stream(plan: PlanView, run: RunView) -> bool {
    run.stream && plan.synthesizer is None
}

/// The work for the worker of index `i`, and after the last one what
/// follows the workers. A model worker whose model is not defined is
/// recorded as failed, and the next worker is taken.
pub open spec fn next_worker(e: EngineView, plan: PlanView, run: RunView, i: nat) -> (
    RunView,
    ActionView,
)
    decreases plan.workers.len() - i,
{
    if i >= plan.workers.len() || i > usize::MAX {
        close_workers(e, plan, run)
    } else {
        match plan.workers[i as int] {
            WorkerView::Workflow(q) => (
                RunView { phase: Phase::Worker(i as usize), ..run },
                ActionView::Descend(i as int, workers_stream(plan, run)),
            ),
            WorkerView::Model(t) => match find_model(e.models, t.model, 0) {
                None => next_worker(e, plan, push_worker(run, missing_worker(t.model)), i + 1),
                Some(m) => {
                    let temp = resolved(
                        PlanRole::Worker,
                        t,
                        m,
                        run.analyzer_temperature,
                        run.analyzer_auto,
                    );
                    (
                        RunView { phase: Phase::Worker(i as usize), pending: temp, ..run },
                        ActionView::Call(
                            call_for(
                                e,
                                PlanRole::Worker,
                                m,
                                run.prompt,
                                temp,
                                workers_stream(plan, run),
                            ),
                        ),
                    )
                },
            },
        }
    }
}

/// After the analyzer: failure where the level has no workers, else the
/// first worker.
pub open spec fn start_workers(e: EngineView, plan: PlanView, run: RunView) -> (
    RunView,
    ActionView,
) {
    if plan.workers.len() == 0 {
        fail(
            run,
            ErrorKind::WorkflowExecution,
            no_workers_text(plan_label(plan), run.depth as nat),
        )
    } else {
        next_worker(e, plan, run, 0)
    }
}

pub open spec fn initial_run(prompt: Seq<char>, depth: usize, stream: bool, id: Seq<char>)
    -> RunView {
    RunView {
        depth,
        stream,
        prompt,
        phase: Phase::Analyzer,
        analyzer_temperature: Temperature::default_value(),
        analyzer_auto: false,
        pending: Temperature::default_value(),
        details: empty_details(id),
    }
}

/// The first action of a level: the call that asks the analyzer for a
/// temperature where the rules say so, else what follows the analyzer.
pub open spec fn begin_spec(
    e: EngineView,
    plan: PlanView,
    prompt: Seq<char>,
    depth: usize,
    stream: bool,
    id: Seq<char>,
) -> (RunView, ActionView) {
    let run = initial_run(prompt, depth, stream, id);
    match find_model(e.models, plan.analyzer.model, 0) {
        None => fail(run, ErrorKind::ModelNotFound, plan.analyzer.model),
        Some(m) => match resolution(
            PlanRole::Analyzer,
            target_hints(plan.analyzer),
            model_hints(m),
            Temperature::default_value(),
            false,
        ) {
            Resolution::Fixed(t) => start_workers(
                e,
                plan,
                with_analyzer(
                    run,
                    PhaseView {
                        model: plan.analyzer.model,
                        temperature: t,
                        auto_temperature_used: false,
                        success: true,
                        error: None,
                        output: None,
                    },
                ),
            ),
            Resolution::AskAnalyzer => (
                RunView { pending: Temperature { millis: ANALYZER_CALL_MILLIS }, ..run },
                ActionView::Call(
                    call_for(
                        e,
                        PlanRole::Analyzer,
                        m,
                        analyzer_prompt_text(prompt),
                        Temperature { millis: ANALYZER_CALL_MILLIS },
                        false,
                    ),
                ),
            ),
        },
    }
}

/// What is recorded of the analyzer for what came back: the temperature
/// that its reply asks for, or 1.4 where it gave no reply.
pub open spec fn analyzer_record(model: Seq<char>, ev: EventView) -> PhaseView {
    match ev {
        EventView::Completed(text, _) => PhaseView {
            model,
            temperature: reply_temperature(
                reply_object(text),
                regex_first_group(temperature_pattern(), text),
            ),
            auto_temperature_used: true,
            success: true,
            error: None,
            output: Some(text),
        },
        _ => PhaseView {
            model,
            temperature: Temperature::default_value(),
            auto_temperature_used: true,
            success: false,
            error: Some(failure_text(PlanRole::Analyzer, model, ev)),
            output: None,
        },
    }
}

pub open spec fn selector_error_text(e: SelectorError) -> Seq<char> {
    match e {
        SelectorError::NoCandidates => "no successful worker answer to select from"@,
        SelectorError::Unparseable => "selector reply holds no choice"@,
    }
}

/// What is recorded of the selector for what came back.
pub open spec fn selector_record(
    model: Seq<char>,
    temperature: Temperature,
    cs: Seq<CandidateView>,
    ev: EventView,
) -> SelectorView {
    match ev {
        EventView::Completed(text, _) => match selection(text, reply_object(text), cs) {
            Ok(c) => SelectorView {
                model,
                temperature,
                choice: Some(c),
                success: true,
                error: None,
                raw_output: Some(text),
            },
            Err(e) => SelectorView {
                model,
                temperature,
                choice: None,
                success: false,
                error: Some(selector_error_text(e)),
                raw_output: Some(text),
            },
        },
        _ => SelectorView {
            model,
            temperature,
            choice: None,
            success: false,
            error: Some(failure_text(PlanRole::Selector, model, ev)),
            raw_output: None,
        },
    }
}

pub open spec fn target_model(t: Option<TargetView>) -> Seq<char> {
    match t {
        Some(x) => x.model,
        None => Seq::empty(),
    }
}

/// The temperature that is recorded for a worker: that of its call, and
/// none for a nested plan.
pub open spec fn worker_temperature(w: WorkerView, pending: Temperature) -> Option<Temperature> {
    match w {
        WorkerView::Model(_) => Some(pending),
        WorkerView::Workflow(_) => None,
    }
}

/// The next state and action of a level for what came back from the last
/// action.
pub open spec fn advance_spec(e: EngineView, plan: PlanView, run: RunView, ev: EventView) -> (
    RunView,
    ActionView,
) {
    match run.phase {
        Phase::Analyzer => start_workers(
            e,
            plan,
            with_analyzer(run, analyzer_record(plan.analyzer.model, ev)),
        ),
        Phase::Worker(i) => if i < plan.workers.len() {
            next_worker(
                e,
                plan,
                push_worker(
                    run,
                    outcome_of(
                        worker_label(plan.workers[i as int]),
                        worker_temperature(plan.workers[i as int], run.pending),
                        ev,
                    ),
                ),
                (i + 1) as nat,
            )
        } else {
            fail(run, ErrorKind::WorkflowExecution, "no such worker"@)
        },
        Phase::Selector => enter_synthesizer(
            e,
            plan,
            with_selector(
                run,
                selector_record(
                    target_model(plan.selector),
                    run.pending,
                    candidates_from(run.details.workers, 0),
                    ev,
                ),
            ),
        ),
        Phase::Synthesizer => match ev {
            EventView::Completed(text, _) => done(
                with_synthesizer(
                    run,
                    PhaseView {
                        model: target_model(plan.synthesizer),
                        temperature: run.pending,
                        auto_temperature_used: false,
                        success: true,
                        error: None,
                        output: Some(text),
                    },
                ),
                text,
            ),
            EventView::Failed(m) => fail(
                with_synthesizer(
                    run,
                    PhaseView {
                        model: target_model(plan.synthesizer),
                        temperature: run.pending,
                        auto_temperature_used: false,
                        success: false,
                        error: Some(m),
                        output: None,
                    },
                ),
                ErrorKind::LLMError,
                m,
            ),
            EventView::TimedOut => fail(
                with_synthesizer(
                    run,
                    PhaseView {
                        model: target_model(plan.synthesizer),
                        temperature: run.pending,
                        auto_temperature_used: false,
                        success: false,
                        error: Some(
                            timeout_text(PlanRole::Synthesizer, target_model(plan.synthesizer)),
                        ),
                        output: None,
                    },
                ),
                ErrorKind::Timeout,
                timeout_text(PlanRole::Synthesizer, target_model(plan.synthesizer)),
            ),
        },
        Phase::Finished => fail(run, ErrorKind::WorkflowExecution, "workflow already finished"@),
    }
}


fn fail_with(run: LevelRun, err: AppError) -> (r: (LevelRun, Action))
    ensures
        (r.0@, r.1@) == fail(run@, err@.kind, err@.detail),
{
    let mut run = run;
    run.phase = Phase::Finished;
    (run, Action::Finish(Err(err)))
}

fn done_with(run: LevelRun, text: String) -> (r: (LevelRun, Action))
    ensures
        (r.0@, r.1@) == done(run@, text@),
{
    let LevelRun {
        depth,
        stream,
        prompt,
        phase: _,
        analyzer_temperature,
        analyzer_auto,
        pending,
        details,
    } = run;
    let mut details = details;
    let left = WorkflowExecutionDetails::new(details.workflow_id.clone());
    let n = details.workers.len();
    let ok = count_successes(&details.workers);
    details.worker_count = n;
    details.worker_successful = ok;
    details.worker_failures = n - ok;
    let run = LevelRun {
        depth,
        stream,
        prompt,
        phase: Phase::Finished,
        analyzer_temperature,
        analyzer_auto,
        pending,
        details: left,
    };
    (run, Action::Finish(Ok(WorkflowResult { response: text, details: Some(details) })))
}

fn push_worker_details(run: LevelRun, w: WorkerDetails) -> (r: LevelRun)
    ensures
        r@ == push_worker(run@, w@),
{
    let mut run = run;
    let ghost before = worker_details_views(run.details.workers@);
    run.details.workers.push(w);
    assert(worker_details_views(run.details.workers@) =~= before.push(w@));
    run
}

fn not_found_message(name: &str) -> (s: String)
    ensures
        s@ == not_found_text(name@),
{
    let mut out: Vec<char> = Vec::new();
    push_str(&mut out, "Model not found: ");
    push_str(&mut out, name);
    string_of(&out)
}

fn resolve_for(
    role: PlanRole,
    node: &crate::plan::ModelTarget,
    m: &ModelConfig,
    analyzer_temperature: Temperature,
    analyzer_auto: bool,
) -> (t: Temperature)
    ensures
        t == resolved(role, node@, m@, analyzer_temperature, analyzer_auto),
{
    let node_hints = node.hints();
    let hints = m.hints();
    match resolve_temperature(role, &node_hints, &hints, analyzer_temperature, analyzer_auto) {
        Resolution::Fixed(t) => t,
        Resolution::AskAnalyzer => Temperature::fallback(),
    }
}

impl WorkflowEngine {
    /// An evaluator over a configuration.
    pub fn new(config: Config) -> (r: Result<WorkflowEngine, AppError>)
        ensures
            r is Ok,
            r->Ok_0.config == config,
    {
        Ok(WorkflowEngine { config })
    }

    fn make_call(
        &self,
        role: PlanRole,
        m: &ModelConfig,
        prompt: String,
        temperature: Temperature,
        stream: bool,
    ) -> (c: UpstreamCall)
        ensures
            c@ == call_for(self@, role, m@, prompt@, temperature, stream),
    {
        let t = self.config.timeouts_for_url(m.api_base.as_str());
        let timeout_secs = match role {
            PlanRole::Analyzer => t.analyzer,
            PlanRole::Worker => t.worker,
            PlanRole::Selector => t.synthesizer,
            PlanRole::Synthesizer => t.synthesizer,
        };
        UpstreamCall {
            role,
            model: m.name.clone(),
            api_base: m.api_base.clone(),
            api_key: m.api_key.clone(),
            prompt,
            temperature,
            timeout_secs,
            stream,
        }
    }

    fn enter_synthesizer(&self, plan: &WorkflowPlan, run: LevelRun) -> (r: (LevelRun, Action))
        ensures
            (r.0@, r.1@) == enter_synthesizer(self@, plan@, run@),
    {
        proof {
            lemma_plan_view(*plan);
        }
        match &plan.synthesizer {
            Some(s) => match self.config.get_model(s.model.as_str()) {
                None => fail_with(run, AppError::ModelNotFound(s.model.clone())),
                Some(m) => {
                    let t = resolve_for(
                        PlanRole::Synthesizer,
                        s,
                        m,
                        run.analyzer_temperature,
                        run.analyzer_auto,
                    );
                    let candidates = successful_candidates(&run.details.workers);
                    let prompt = match &run.details.selector {
                        Some(sel) => synthesizer_prompt(
                            run.prompt.as_str(),
                            &candidates,
                            &sel.choice,
                        ),
                        None => synthesizer_prompt(run.prompt.as_str(), &candidates, &None),
                    };
                    let call = self.make_call(PlanRole::Synthesizer, m, prompt, t, run.stream);
                    let mut run = run;
                    run.phase = Phase::Synthesizer;
                    run.pending = t;
                    (run, Action::Call(call))
                },
            },
            None => match final_response(&run.details.selector, &run.details.workers) {
                Some(t) => done_with(run, t),
                None => {
                    let label = plan.label();
                    let mut out: Vec<char> = Vec::new();
                    push_str(&mut out, "no final response in ");
                    push_str(&mut out, label.as_str());
                    let message = string_of(&out);
                    fail_with(run, AppError::WorkflowExecution(message))
                },
            },
        }
    }

    fn enter_selector(&self, plan: &WorkflowPlan, run: LevelRun) -> (r: (LevelRun, Action))
        ensures
            (r.0@, r.1@) == enter_selector(self@, plan@, run@),
    {
        proof {
            lemma_plan_view(*plan);
        }
        match &plan.selector {
            None => self.enter_synthesizer(plan, run),
            Some(s) => match self.config.get_model(s.model.as_str()) {
                None => {
                    let record = SelectorDetails {
                        model: s.model.clone(),
                        temperature: Temperature::fallback(),
                        choice: None,
                        success: false,
                        error: Some(not_found_message(s.model.as_str())),
                        raw_output: None,
                    };
                    let mut run = run;
                    run.details.selector = Some(record);
                    self.enter_synthesizer(plan, run)
                },
                Some(m) => {
                    let t = resolve_for(
                        PlanRole::Selector,
                        s,
                        m,
                        run.analyzer_temperature,
                        run.analyzer_auto,
                    );
                    let candidates = successful_candidates(&run.details.workers);
                    let prompt = selector_prompt(run.prompt.as_str(), &candidates);
                    let call = self.make_call(PlanRole::Selector, m, prompt, t, false);
                    let mut run = run;
                    run.phase = Phase::Selector;
                    run.pending = t;
                    (run, Action::Call(call))
                },
            },
        }
    }

    fn close_workers(&self, plan: &WorkflowPlan, run: LevelRun) -> (r: (LevelRun, Action))
        ensures
            (r.0@, r.1@) == close_workers(self@, plan@, run@),
    {
        if count_successes(&run.details.workers) == 0 {
            let label = plan.label();
            let message = all_failed_message(label.as_str(), run.depth, &run.details.workers);
            fail_with(run, AppError::WorkflowExecution(message))
        } else {
            self.enter_selector(plan, run)
        }
    }

    fn next_worker(&self, plan: &WorkflowPlan, run: LevelRun, i: usize) -> (r: (LevelRun, Action))
        ensures
            (r.0@, r.1@) == next_worker(self@, plan@, run@, i as nat),
        decreases plan.workers.len() - i,
    {
        proof {
            lemma_plan_view(*plan);
        }
        if i >= plan.workers.len() {
            return self.close_workers(plan, run);
        }
        assert(plan@.workers[i as int] == plan.workers@[i as int]@);
        let streams = run.stream && plan.synthesizer.is_none();
        match &plan.workers[i] {
            WorkflowWorker::Workflow(_) => {
                let mut run = run;
                run.phase = Phase::Worker(i);
                (run, Action::Descend(i, streams))
            },
            WorkflowWorker::Model(t) => match self.config.get_model(t.model.as_str()) {
                None => {
                    let w = WorkerDetails {
                        name: t.model.clone(),
                        effective_temperature: None,
                        response: None,
                        success: false,
                        error: Some(not_found_message(t.model.as_str())),
                        nested: None,
                    };
                    let run = push_worker_details(run, w);
                    self.next_worker(plan, run, i + 1)
                },
                Some(m) => {
                    let temp = resolve_for(
                        PlanRole::Worker,
                        t,
                        m,
                        run.analyzer_temperature,
                        run.analyzer_auto,
                    );
                    let call = self.make_call(
                        PlanRole::Worker,
                        m,
                        run.prompt.clone(),
                        temp,
                        streams,
                    );
                    let mut run = run;
                    run.phase = Phase::Worker(i);
                    run.pending = temp;
                    (run, Action::Call(call))
                },
            },
        }
    }

    fn start_workers(&self, plan: &WorkflowPlan, run: LevelRun) -> (r: (LevelRun, Action))
        ensures
            (r.0@, r.1@) == start_workers(self@, plan@, run@),
    {
        proof {
            lemma_plan_view(*plan);
        }
        if plan.workers.len() == 0 {
            let label = plan.label();
            let mut out: Vec<char> = Vec::new();
            push_str(&mut out, label.as_str());
            push_str(&mut out, " at depth ");
            push_decimal(&mut out, run.depth as u64);
            push_str(&mut out, " has no workers");
            assert(out@ =~= no_workers_text(plan_label(plan@), run.depth as nat));
            let message = string_of(&out);
            fail_with(run, AppError::WorkflowExecution(message))
        } else {
            self.next_worker(plan, run, 0)
        }
    }

    /// Starts the evaluation of a plan level: gives its state and its first
    /// action.
    pub fn begin(
        &self,
        plan: &WorkflowPlan,
        prompt: String,
        depth: usize,
        stream: bool,
        workflow_id: String,
    ) -> (r: (LevelRun, Action))
        ensures
            (r.0@, r.1@) == begin_spec(self@, plan@, prompt@, depth, stream, workflow_id@),
    {
        proof {
            lemma_plan_view(*plan);
        }
        let run = LevelRun {
            depth,
            stream,
            prompt,
            phase: Phase::Analyzer,
            analyzer_temperature: Temperature::fallback(),
            analyzer_auto: false,
            pending: Temperature::fallback(),
            details: WorkflowExecutionDetails::new(workflow_id),
        };
        match self.config.get_model(plan.analyzer.model.as_str()) {
            None => fail_with(run, AppError::ModelNotFound(plan.analyzer.model.clone())),
            Some(m) => {
                let node = plan.analyzer.hints();
                let hints = m.hints();
                match resolve_temperature(
                    PlanRole::Analyzer,
                    &node,
                    &hints,
                    Temperature::fallback(),
                    false,
                ) {
                    Resolution::Fixed(t) => {
                        let mut run = run;
                        run.analyzer_temperature = t;
                        run.analyzer_auto = false;
                        run.details.analyzer = Some(
                            PhaseDetails {
                                model: plan.analyzer.model.clone(),
                                temperature: t,
                                auto_temperature_used: false,
                                success: true,
                                error: None,
                                output: None,
                            },
                        );
                        self.start_workers(plan, run)
                    },
                    Resolution::AskAnalyzer => {
                        let t = Temperature { millis: ANALYZER_CALL_MILLIS };
                        let question = analyzer_prompt(run.prompt.as_str());
                        let call = self.make_call(PlanRole::Analyzer, m, question, t, false);
                        let mut run = run;
                        run.pending = t;
                        (run, Action::Call(call))
                    },
                }
            },
        }
    }

    /// Takes what came back from the last action of a level and gives the
    /// next state and action.
    pub fn advance(&self, plan: &WorkflowPlan, run: LevelRun, event: Event) -> (r: (
        LevelRun,
        Action,
    ))
        ensures
            (r.0@, r.1@) == advance_spec(self@, plan@, run@, event@),
    {
        proof {
            lemma_plan_view(*plan);
        }
        match run.phase {
            Phase::Analyzer => {
                let model = plan.analyzer.model.clone();
                let record = match event {
                    Event::Completed(text, _) => {
                        let t = temperature_from_reply(text.as_str());
                        PhaseDetails {
                            model,
                            temperature: t,
                            auto_temperature_used: true,
                            success: true,
                            error: None,
                            output: Some(text),
                        }
                    },
                    Event::Failed(m) => PhaseDetails {
                        model,
                        temperature: Temperature::fallback(),
                        auto_temperature_used: true,
                        success: false,
                        error: Some(m),
                        output: None,
                    },
                    Event::TimedOut => {
                        let message = timeout_message(PlanRole::Analyzer, model.as_str());
                        PhaseDetails {
                            model,
                            temperature: Temperature::fallback(),
                            auto_temperature_used: true,
                            success: false,
                            error: Some(message),
                            output: None,
                        }
                    },
                };
                let mut run = run;
                run.analyzer_temperature = record.temperature;
                run.analyzer_auto = true;
                run.details.analyzer = Some(record);
                self.start_workers(plan, run)
            },
            Phase::Worker(i) => {
                if i < plan.workers.len() {
                    assert(plan@.workers[i as int] == plan.workers@[i as int]@);
                    let name = plan.workers[i].label();
                    let temperature = match &plan.workers[i] {
                        WorkflowWorker::Model(_) => Some(run.pending),
                        WorkflowWorker::Workflow(_) => None,
                    };
                    let w = worker_outcome(name, temperature, event);
                    let run = push_worker_details(run, w);
                    self.next_worker(plan, run, i + 1)
                } else {
                    fail_with(run, AppError::WorkflowExecution("no such worker".to_owned()))
                }
            },
            Phase::Selector => {
                let model = match &plan.selector {
                    Some(s) => s.model.clone(),
                    None => String::new(),
                };
                let temperature = run.pending;
                let record = match event {
                    Event::Completed(text, _) => {
                        let candidates = successful_candidates(&run.details.workers);
                        match parse_selection(text.as_str(), &candidates) {
                            Ok(c) => SelectorDetails {
                                model,
                                temperature,
                                choice: Some(c),
                                success: true,
                                error: None,
                                raw_output: Some(text),
                            },
                            Err(e) => {
                                let message = match e {
                                    SelectorError::NoCandidates => "no successful worker answer to select from".to_owned(),
                                    SelectorError::Unparseable => "selector reply holds no choice".to_owned(),
                                };
                                SelectorDetails {
                                    model,
                                    temperature,
                                    choice: None,
                                    success: false,
                                    error: Some(message),
                                    raw_output: Some(text),
                                }
                            },
                        }
                    },
                    Event::Failed(m) => SelectorDetails {
                        model,
                        temperature,
                        choice: None,
                        success: false,
                        error: Some(m),
                        raw_output: None,
                    },
                    Event::TimedOut => {
                        let message = timeout_message(PlanRole::Selector, model.as_str());
                        SelectorDetails {
                            model,
                            temperature,
                            choice: None,
                            success: false,
                            error: Some(message),
                            raw_output: None,
                        }
                    },
                };
                let mut run = run;
                run.details.selector = Some(record);
                self.enter_synthesizer(plan, run)
            },
            Phase::Synthesizer => {
                let model = match &plan.synthesizer {
                    Some(s) => s.model.clone(),
                    None => String::new(),
                };
                let temperature = run.pending;
                match event {
                    Event::Completed(text, _) => {
                        let mut run = run;
                        run.details.synthesizer = Some(
                            PhaseDetails {
                                model,
                                temperature,
                                auto_temperature_used: false,
                                success: true,
                                error: None,
                                output: Some(text.clone()),
                            },
                        );
                        done_with(run, text)
                    },
                    Event::Failed(m) => {
                        let mut run = run;
                        run.details.synthesizer = Some(
                            PhaseDetails {
                                model,
                                temperature,
                                auto_temperature_used: false,
                                success: false,
                                error: Some(m.clone()),
                                output: None,
                            },
                        );
                        fail_with(run, AppError::LLMError(m))
                    },
                    Event::TimedOut => {
                        let message = timeout_message(PlanRole::Synthesizer, model.as_str());
                        let mut run = run;
                        run.details.synthesizer = Some(
                            PhaseDetails {
                                model,
                                temperature,
                                auto_temperature_used: false,
                                success: false,
                                error: Some(message.clone()),
                                output: None,
                            },
                        );
                        fail_with(run, AppError::Timeout(message))
                    },
                }
            },
            Phase::Finished => fail_with(
                run,
                AppError::WorkflowExecution("workflow already finished".to_owned()),
            ),
        }
    }
}


/// A worker that failed adds no success to the count.
pub proof fn lemma_successes_after_failure(ws: Seq<WorkerDetailsView>, w: WorkerDetailsView, i: nat)
    requires
        !w.success,
        i <= ws.len(),
    ensures
        successes_from(ws.push(w), i) == successes_from(ws, i),
    decreases ws.len() - i,
{
    let after = ws.push(w);
    if i < ws.len() {
        assert(after[i as int] == ws[i as int]);
        lemma_successes_after_failure(ws, w, i + 1);
    } else {
        assert(after[i as int] == w);
        assert(successes_from(after, i + 1) == 0);
    }
}

/// Where the last worker of a level fails and none before it succeeded, the
/// level fails, and its message names the plan and, for every worker, its
/// name and its own error.
pub proof fn law_level_fails_when_no_worker_succeeds(
    e: EngineView,
    plan: PlanView,
    run: RunView,
    ev: EventView,
    j: int,
)
    requires
        0 < plan.workers.len() <= usize::MAX,
        run.phase == Phase::Worker((plan.workers.len() - 1) as usize),
        successes_from(run.details.workers, 0) == 0,
        !(ev is Completed),
        0 <= j <= run.details.workers.len(),
    ensures
        ({
            let last = plan.workers[plan.workers.len() - 1];
            let ws = run.details.workers.push(
                outcome_of(worker_label(last), worker_temperature(last, run.pending), ev),
            );
            let message = all_failed_text(plan_label(plan), run.depth as nat, ws);
            &&& advance_spec(e, plan, run, ev).1 == ActionView::Fail(
                ErrorView { kind: ErrorKind::WorkflowExecution, detail: message },
            )
            &&& contains(message, plan_label(plan))
            &&& contains(message, ws[j].name)
            &&& contains(message, text_or_empty(ws[j].error))
        }),
{
    let last = plan.workers[plan.workers.len() - 1];
    let w = outcome_of(worker_label(last), worker_temperature(last, run.pending), ev);
    let ws = run.details.workers.push(w);
    lemma_successes_after_failure(run.details.workers, w, 0);
    law_all_failed_names_everything(plan_label(plan), run.depth as nat, ws, j);
    let pushed = push_worker(run, w);
    assert(next_worker(e, plan, pushed, plan.workers.len()) == close_workers(e, plan, pushed));
}

/// The answer of a level. Where the level has a synthesizer, the answer is
/// what the synthesizer gave. Where it has none, the answer is the text that
/// the selector's reply carried; else the answer of the worker that the
/// selector chose; else the answer of the first worker that succeeded; and
/// where none of these is there, the level fails.
pub proof fn law_final_response(e: EngineView, plan: PlanView, run: RunView, text: Seq<char>)
    ensures
        run.phase == Phase::Synthesizer ==> (advance_spec(
            e,
            plan,
            run,
            EventView::Completed(text, None),
        ).1 matches ActionView::Done(t, _) && t == text),
        plan.synthesizer is None ==> (match unsynthesized_answer(
            run.details.selector,
            run.details.workers,
        ) {
            Some(t) => enter_synthesizer(e, plan, run).1 == ActionView::Done(
                t,
                counted(run.details),
            ),
            None => enter_synthesizer(e, plan, run).1 == ActionView::Fail(
                ErrorView {
                    kind: ErrorKind::WorkflowExecution,
                    detail: no_answer_text(plan_label(plan)),
                },
            ),
        }),
        selector_choice(run.details.selector) matches Some(c) ==> unsynthesized_answer(
            run.details.selector,
            run.details.workers,
        ) == Some(
            match c.selected_response {
                Some(t) => t,
                None => c.chosen_response,
            },
        ),
        selector_choice(run.details.selector) is None ==> unsynthesized_answer(
            run.details.selector,
            run.details.workers,
        ) == first_success(run.details.workers, 0),
{
}

/// A deadline that passes is recorded as a failure of its stage, with a
/// message that names the node and its role; it ends the level only at the
/// synthesizer, and there as a timeout error with that message.
pub proof fn law_timeout_is_recorded(
    name: Seq<char>,
    temperature: Option<Temperature>,
    pending: Temperature,
    cs: Seq<CandidateView>,
)
    ensures
        !outcome_of(name, temperature, EventView::TimedOut).success,
        outcome_of(name, temperature, EventView::TimedOut).error == Some(
            timeout_text(PlanRole::Worker, name),
        ),
        !analyzer_record(name, EventView::TimedOut).success,
        analyzer_record(name, EventView::TimedOut).error == Some(
            timeout_text(PlanRole::Analyzer, name),
        ),
        !selector_record(name, pending, cs, EventView::TimedOut).success,
        selector_record(name, pending, cs, EventView::TimedOut).error == Some(
            timeout_text(PlanRole::Selector, name),
        ),
        contains(timeout_text(PlanRole::Worker, name), name),
        contains(timeout_text(PlanRole::Worker, name), "worker"@),
        contains(timeout_text(PlanRole::Analyzer, name), name),
        contains(timeout_text(PlanRole::Analyzer, name), "analyzer"@),
        contains(timeout_text(PlanRole::Selector, name), name),
        contains(timeout_text(PlanRole::Selector, name), "selector"@),
        contains(timeout_text(PlanRole::Synthesizer, name), name),
        contains(timeout_text(PlanRole::Synthesizer, name), "synthesizer"@),
{
    law_timeout_names_node_and_role(PlanRole::Worker, name);
    law_timeout_names_node_and_role(PlanRole::Analyzer, name);
    law_timeout_names_node_and_role(PlanRole::Selector, name);
    law_timeout_names_node_and_role(PlanRole::Synthesizer, name);
}

/// Whether an action may hand text on as it arrives: only a call of the
/// synthesizer, or the work of a worker in a level without synthesizer.
pub open spec fn streams_only_the_answer(plan: PlanView, a: ActionView) -> bool {
    match a {
        ActionView::Call(c) => c.stream ==> c.role == PlanRole::Synthesizer || (c.role
            == PlanRole::Worker && plan.synthesizer is None),
        ActionView::Descend(_, stream) => stream ==> plan.synthesizer is None,
        _ => true,
    }
}

proof fn lemma_later_stages_stream(e: EngineView, plan: PlanView, run: RunView)
    ensures
        streams_only_the_answer(plan, enter_synthesizer(e, plan, run).1),
        streams_only_the_answer(plan, enter_selector(e, plan, run).1),
        streams_only_the_answer(plan, close_workers(e, plan, run).1),
{
    match plan.selector {
        Some(s) => {
            let other = with_selector(run, missing_selector(s.model));
            assert(streams_only_the_answer(plan, enter_synthesizer(e, plan, other).1));
        },
        None => {},
    }
}

proof fn lemma_workers_stream(e: EngineView, plan: PlanView, run: RunView, i: nat)
    ensures
        streams_only_the_answer(plan, next_worker(e, plan, run, i).1),
    decreases plan.workers.len() - i,
{
    lemma_later_stages_stream(e, plan, run);
    if i < plan.workers.len() && i <= usize::MAX {
        match plan.workers[i as int] {
            WorkerView::Model(t) => {
                if find_model(e.models, t.model, 0) is None {
                    lemma_workers_stream(e, plan, push_worker(run, missing_worker(t.model)), i + 1);
                }
            },
            WorkerView::Workflow(_) => {},
        }
    }
}

/// In a level with a synthesizer nothing streams but the synthesizer's own
/// call: what has been handed on when the level is done is its answer.
pub proof fn law_streaming_follows_the_answer(
    e: EngineView,
    plan: PlanView,
    run: RunView,
    ev: EventView,
    prompt: Seq<char>,
    depth: usize,
    stream: bool,
    id: Seq<char>,
)
    ensures
        streams_only_the_answer(plan, begin_spec(e, plan, prompt, depth, stream, id).1),
        streams_only_the_answer(plan, advance_spec(e, plan, run, ev).1),
{
    let first = initial_run(prompt, depth, stream, id);
    match find_model(e.models, plan.analyzer.model, 0) {
        Some(m) => {
            match resolution(
                PlanRole::Analyzer,
                target_hints(plan.analyzer),
                model_hints(m),
                Temperature::default_value(),
                false,
            ) {
                Resolution::Fixed(t) => {
                    let next = with_analyzer(
                        first,
                        PhaseView {
                            model: plan.analyzer.model,
                            temperature: t,
                            auto_temperature_used: false,
                            success: true,
                            error: None,
                            output: None,
                        },
                    );
                    lemma_workers_stream(e, plan, next, 0);
                },
                Resolution::AskAnalyzer => {},
            }
        },
        None => {},
    }
    match run.phase {
        Phase::Analyzer => {
            lemma_workers_stream(
                e,
                plan,
                with_analyzer(run, analyzer_record(plan.analyzer.model, ev)),
                0,
            );
        },
        Phase::Worker(i) => {
            if i < plan.workers.len() {
                lemma_workers_stream(
                    e,
                    plan,
                    push_worker(
                        run,
                        outcome_of(
                            worker_label(plan.workers[i as int]),
                            worker_temperature(plan.workers[i as int], run.pending),
                            ev,
                        ),
                    ),
                    (i + 1) as nat,
                );
            }
        },
        Phase::Selector => {
            lemma_later_stages_stream(
                e,
                plan,
                with_selector(
                    run,
                    selector_record(
                        target_model(plan.selector),
                        run.pending,
                        candidates_from(run.details.workers, 0),
                        ev,
                    ),
                ),
            );
        },
        _ => {},
    }
}

} // verus!
