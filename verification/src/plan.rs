//! The plan: a tree of analyzer, workers, optional selector and optional
//! synthesizer, where a worker is a model or a plan of its own.

use crate::json::{
    encoded_json, parse_json, parsed_json, field, lemma_array_view, lemma_object_view, lookup, member_views, render_json,
    rendered_json, text_field, views, Json, JsonValue,
};
use crate::temperature::{
    decimal_millis, law_millis_text_reads_back, millis_text, parse_millis, Temperature,
    TemperatureHints, MILLIS_LIMIT,
};
use crate::text::{chars_of, push_chars, push_str, string_of};
use vstd::prelude::*;

verus! {

/// A reference to a model, with the hints that the plan gives for it.
#[derive(Debug)]
pub struct ModelTarget {
    pub model: String,
    pub temperature: Option<Temperature>,
    pub auto_temperature: Option<bool>,
}

/// One entry of a plan's worker list.
#[derive(Debug)]
pub enum WorkflowWorker {
    Model(ModelTarget),
    Workflow(Box<WorkflowPlan>),
}

/// One level of a plan.
#[derive(Debug)]
pub struct WorkflowPlan {
    pub analyzer: ModelTarget,
    pub workers: Vec<WorkflowWorker>,
    pub synthesizer: Option<ModelTarget>,
    pub selector: Option<ModelTarget>,
}

pub struct TargetView {
    pub model: Seq<char>,
    pub temperature: Option<Temperature>,
    pub auto_temperature: Option<bool>,
}

pub enum WorkerView {
    Model(TargetView),
    Workflow(PlanView),
}

pub struct PlanView {
    pub analyzer: TargetView,
    pub workers: Seq<WorkerView>,
    pub synthesizer: Option<TargetView>,
    pub selector: Option<TargetView>,
}

impl View for ModelTarget {
    type V = TargetView;

    open spec fn view(&self) -> TargetView {
        TargetView {
            model: self.model@,
            temperature: self.temperature,
            auto_temperature: self.auto_temperature,
        }
    }
}

pub open spec fn target_option_view(t: Option<ModelTarget>) -> Option<TargetView> {
    match t {
        Some(x) => Some(x@),
        None => None,
    }
}

pub open spec fn blank_worker() -> WorkerView {
    WorkerView::Model(
        TargetView { model: Seq::<char>::empty(), temperature: None, auto_temperature: None },
    )
}

pub open spec fn worker_view(w: WorkflowWorker) -> WorkerView
    decreases w,
{
    match w {
        WorkflowWorker::Model(t) => WorkerView::Model(t@),
        WorkflowWorker::Workflow(p) => WorkerView::Workflow(plan_view(*p)),
    }
}

pub open spec fn plan_view(p: WorkflowPlan) -> PlanView
    decreases p,
{
    PlanView {
        analyzer: p.analyzer@,
        workers: Seq::new(
            p.workers@.len(),
            |i: int|
                if 0 <= i < p.workers@.len() {
                    worker_view(p.workers@[i])
                } else {
                    blank_worker()
                },
        ),
        synthesizer: target_option_view(p.synthesizer),
        selector: target_option_view(p.selector),
    }
}

impl View for WorkflowWorker {
    type V = WorkerView;

    open spec fn view(&self) -> WorkerView {
        worker_view(*self)
    }
}

impl View for WorkflowPlan {
    type V = PlanView;

    open spec fn view(&self) -> PlanView {
        plan_view(*self)
    }
}

pub open spec fn worker_views(ws: Seq<WorkflowWorker>) -> Seq<WorkerView> {
    Seq::new(ws.len(), |i: int| ws[i]@)
}

pub proof fn lemma_plan_view(p: WorkflowPlan)
    ensures
        p@.workers == worker_views(p.workers@),
        p@.analyzer == p.analyzer@,
        p@.synthesizer == target_option_view(p.synthesizer),
        p@.selector == target_option_view(p.selector),
{
    assert(p@.workers =~= worker_views(p.workers@));
}

/// What is wrong with a plan.
#[derive(Clone, Copy, Debug, PartialEq, Eq, Structural)]
pub enum PlanError {
    /// A plan level without a readable `analyzer`.
    MissingAnalyzer,
    /// A model reference without a `ref` or `name`.
    InvalidTarget,
    /// A `temperature` that is no number from 0 up to the limit.
    InvalidTemperature,
    /// An `auto_temperature` that is no boolean.
    InvalidAutoFlag,
    /// A plan level whose `workers` is missing or no list.
    MissingWorkers,
    /// A plan level with an empty worker list.
    EmptyWorkers,
    /// A plan level that is left with neither selector nor synthesizer.
    MissingAggregator,
    /// A nesting depth of zero.
    ZeroDepth,
    /// A text that is no JSON document.
    InvalidJson,
}

/// The member `key`, where it is there and not null.
pub open spec fn present(j: JsonValue, key: Seq<char>) -> Option<JsonValue> {
    match field(j, key) {
        Some(JsonValue::Null) => None,
        other => other,
    }
}

pub open spec fn temperature_of_json(j: JsonValue) -> Result<Option<Temperature>, PlanError> {
    match present(j, "temperature"@) {
        None => Ok(None),
        Some(JsonValue::Number(t)) => match decimal_millis(t) {
            Some(m) => if 0 <= m < MILLIS_LIMIT {
                Ok(Some(Temperature { millis: m as u32 }))
            } else {
                Err(PlanError::InvalidTemperature)
            },
            None => Err(PlanError::InvalidTemperature),
        },
        Some(_) => Err(PlanError::InvalidTemperature),
    }
}

pub open spec fn auto_flag_of_json(j: JsonValue) -> Result<Option<bool>, PlanError> {
    match present(j, "auto_temperature"@) {
        None => Ok(None),
        Some(JsonValue::Bool(b)) => Ok(Some(b)),
        Some(_) => Err(PlanError::InvalidAutoFlag),
    }
}

/// The name that a model reference gives: its `ref`, else its `name`.
pub open spec fn target_name(j: JsonValue) -> Option<Seq<char>> {
    match text_field(j, "ref"@) {
        Some(n) => Some(n),
        None => text_field(j, "name"@),
    }
}

pub open spec fn target_of_json(j: JsonValue) -> Result<TargetView, PlanError> {
    match target_name(j) {
        None => Err(PlanError::InvalidTarget),
        Some(model) => match temperature_of_json(j) {
            Err(e) => Err(e),
            Ok(temperature) => match auto_flag_of_json(j) {
                Err(e) => Err(e),
                Ok(auto_temperature) => Ok(TargetView { model, temperature, auto_temperature }),
            },
        },
    }
}

pub open spec fn optional_target_of_json(j: JsonValue, key: Seq<char>) -> Result<
    Option<TargetView>,
    PlanError,
> {
    match present(j, key) {
        None => Ok(None),
        Some(t) => match target_of_json(t) {
            Ok(v) => Ok(Some(v)),
            Err(e) => Err(e),
        },
    }
}

/// A worker entry is a plan of its own where it has both `analyzer` and
/// `workers`, and a model reference otherwise.
pub open spec fn is_plan_shaped(j: JsonValue) -> bool {
    field(j, "analyzer"@) is Some && field(j, "workers"@) is Some
}

pub proof fn lemma_lookup_decreases(members: Seq<(Seq<char>, JsonValue)>, key: Seq<char>)
    ensures
        lookup(members, key) matches Some(v) ==> decreases_to!(members => v),
    decreases members.len(),
{
    if members.len() > 0 {
        if members[0].0 == key {
            assert(decreases_to!(members => members[0]));
            assert(decreases_to!(members[0] => members[0].1));
        } else {
            lemma_lookup_decreases(members.drop_first(), key);
            assert(members.drop_first() == members.subrange(1, members.len() as int));
            assert(decreases_to!(members => members.subrange(1, members.len() as int)));
        }
    }
}

pub proof fn lemma_field_decreases(j: JsonValue, key: Seq<char>)
    ensures
        field(j, key) matches Some(v) ==> decreases_to!(j => v),
{
    match j {
        JsonValue::Object(members) => {
            lemma_lookup_decreases(members, key);
            assert(decreases_to!(j => j->Object_0));
        },
        _ => {},
    }
}

/// The plan that a tree describes, as it is written: nothing is inherited
/// or checked beyond the shape.
pub open spec fn plan_of_json(j: JsonValue) -> Result<PlanView, PlanError>
    decreases j, 0nat,
{
    match field(j, "analyzer"@) {
        None => Err(PlanError::MissingAnalyzer),
        Some(a) => match target_of_json(a) {
            Err(e) => Err(e),
            Ok(analyzer) => match field(j, "workers"@) {
                Some(JsonValue::Array(items)) => {
                    proof {
                        lemma_field_decreases(j, "workers"@);
                    }
                    match workers_of_json(items, items.len() as nat) {
                        Err(e) => Err(e),
                        Ok(workers) => match optional_target_of_json(j, "synthesizer"@) {
                            Err(e) => Err(e),
                            Ok(synthesizer) => match optional_target_of_json(j, "selector"@) {
                                Err(e) => Err(e),
                                Ok(selector) => Ok(
                                    PlanView { analyzer, workers, synthesizer, selector },
                                ),
                            },
                        },
                    }
                },
                _ => Err(PlanError::MissingWorkers),
            },
        },
    }
}

pub open spec fn worker_of_json(j: JsonValue) -> Result<WorkerView, PlanError>
    decreases j, 1nat,
{
    if is_plan_shaped(j) {
        match plan_of_json(j) {
            Ok(p) => Ok(WorkerView::Workflow(p)),
            Err(e) => Err(e),
        }
    } else {
        match target_of_json(j) {
            Ok(t) => Ok(WorkerView::Model(t)),
            Err(e) => Err(e),
        }
    }
}

/// The first `n` entries of a worker list, or the error of the first entry
/// among them that has one.
pub open spec fn workers_of_json(items: Seq<JsonValue>, n: nat) -> Result<
    Seq<WorkerView>,
    PlanError,
>
    decreases items, n,
{
    if n == 0 || n > items.len() {
        Ok(Seq::empty())
    } else {
        match workers_of_json(items, (n - 1) as nat) {
            Err(e) => Err(e),
            Ok(ws) => match worker_of_json(items[n - 1]) {
                Err(e) => Err(e),
                Ok(w) => Ok(ws.push(w)),
            },
        }
    }
}


pub proof fn lemma_workers_error(items: Seq<JsonValue>, k: nat, n: nat)
    requires
        k <= n <= items.len(),
        workers_of_json(items, k) is Err,
    ensures
        workers_of_json(items, n) == workers_of_json(items, k),
    decreases n,
{
    if k < n {
        lemma_workers_error(items, k, (n - 1) as nat);
    }
}

impl ModelTarget {
    /// A copy of this reference.
    pub fn duplicate(&self) -> (r: ModelTarget)
        ensures
            r@ == self@,
    {
        ModelTarget {
            model: self.model.clone(),
            temperature: self.temperature,
            auto_temperature: self.auto_temperature,
        }
    }

    /// The hints of this reference, without its name.
    pub fn hints(&self) -> (h: TemperatureHints)
        ensures
            h.temperature == self.temperature,
            h.auto_temperature == self.auto_temperature,
    {
        TemperatureHints { temperature: self.temperature, auto_temperature: self.auto_temperature }
    }
}

fn present_member<'a>(j: &'a Json, key: &str) -> (r: Option<&'a Json>)
    ensures
        match r {
            Some(x) => present(j@, key@) == Some(x@),
            None => present(j@, key@) is None,
        },
{
    match j.get(key) {
        Some(Json::Null) => None,
        other => other,
    }
}

fn read_temperature(j: &Json) -> (r: Result<Option<Temperature>, PlanError>)
    ensures
        r == temperature_of_json(j@),
{
    match present_member(j, "temperature") {
        None => Ok(None),
        Some(Json::Number(t)) => match parse_millis(t.as_str()) {
            Some(m) => if 0 <= m && m < MILLIS_LIMIT {
                Ok(Some(Temperature { millis: m as u32 }))
            } else {
                Err(PlanError::InvalidTemperature)
            },
            None => Err(PlanError::InvalidTemperature),
        },
        Some(_) => Err(PlanError::InvalidTemperature),
    }
}

fn read_auto_flag(j: &Json) -> (r: Result<Option<bool>, PlanError>)
    ensures
        r == auto_flag_of_json(j@),
{
    match present_member(j, "auto_temperature") {
        None => Ok(None),
        Some(Json::Bool(b)) => Ok(Some(*b)),
        Some(_) => Err(PlanError::InvalidAutoFlag),
    }
}

pub open spec fn target_result_view(r: Result<ModelTarget, PlanError>) -> Result<
    TargetView,
    PlanError,
> {
    match r {
        Ok(t) => Ok(t@),
        Err(e) => Err(e),
    }
}

pub open spec fn worker_result_view(r: Result<WorkflowWorker, PlanError>) -> Result<
    WorkerView,
    PlanError,
> {
    match r {
        Ok(w) => Ok(w@),
        Err(e) => Err(e),
    }
}

pub open spec fn plan_result_view(r: Result<WorkflowPlan, PlanError>) -> Result<
    PlanView,
    PlanError,
> {
    match r {
        Ok(p) => Ok(p@),
        Err(e) => Err(e),
    }
}

fn read_target(j: &Json) -> (r: Result<ModelTarget, PlanError>)
    ensures
        target_result_view(r) == target_of_json(j@),
{
    let name = match j.get_text("ref") {
        Some(n) => Some(n),
        None => j.get_text("name"),
    };
    match name {
        None => Err(PlanError::InvalidTarget),
        Some(n) => {
            let temperature = match read_temperature(j) {
                Ok(t) => t,
                Err(e) => {
                    return Err(e);
                },
            };
            let auto_temperature = match read_auto_flag(j) {
                Ok(f) => f,
                Err(e) => {
                    return Err(e);
                },
            };
            Ok(ModelTarget { model: n.clone(), temperature, auto_temperature })
        },
    }
}

pub open spec fn optional_result_view(r: Result<Option<ModelTarget>, PlanError>) -> Result<
    Option<TargetView>,
    PlanError,
> {
    match r {
        Ok(t) => Ok(target_option_view(t)),
        Err(e) => Err(e),
    }
}

fn read_optional_target(j: &Json, key: &str) -> (r: Result<Option<ModelTarget>, PlanError>)
    ensures
        optional_result_view(r) == optional_target_of_json(j@, key@),
{
    match present_member(j, key) {
        None => Ok(None),
        Some(t) => match read_target(t) {
            Ok(v) => Ok(Some(v)),
            Err(e) => Err(e),
        },
    }
}

/// Reads one plan level and what is nested in it.
#[verifier::loop_isolation(false)]
pub fn read_plan(j: &Json) -> (r: Result<WorkflowPlan, PlanError>)
    ensures
        plan_result_view(r) == plan_of_json(j@),
    decreases j@, 0nat,
{
    let analyzer = match j.get("analyzer") {
        None => {
            return Err(PlanError::MissingAnalyzer);
        },
        Some(a) => match read_target(a) {
            Err(e) => {
                return Err(e);
            },
            Ok(t) => t,
        },
    };
    let items = match j.get("workers") {
        Some(Json::Array(items)) => items,
        _ => {
            return Err(PlanError::MissingWorkers);
        },
    };
    let ghost item_views = views(items@);
    proof {
        lemma_array_view(*items);
        lemma_field_decreases(j@, "workers"@);
    }
    let mut workers: Vec<WorkflowWorker> = Vec::new();
    let mut i: usize = 0;
    assert(worker_views(workers@) =~= Seq::<WorkerView>::empty());
    while i < items.len()
        invariant
            i <= items.len(),
            item_views == views(items@),
            field(j@, "workers"@) == Some(JsonValue::Array(item_views)),
            workers_of_json(item_views, i as nat) == Ok::<Seq<WorkerView>, PlanError>(
                worker_views(workers@),
            ),
        decreases items.len() - i,
    {
        proof {
            lemma_field_decreases(j@, "workers"@);
            assert(decreases_to!(j@ => item_views[i as int]));
            assert(item_views[i as int] == items@[i as int]@);
        }
        match read_worker(&items[i]) {
            Err(e) => {
                proof {
                    lemma_workers_error(item_views, (i + 1) as nat, item_views.len());
                }
                return Err(e);
            },
            Ok(w) => {
                let ghost before = worker_views(workers@);
                workers.push(w);
                assert(worker_views(workers@) =~= before.push(w@));
            },
        }
        i = i + 1;
    }
    let synthesizer = match read_optional_target(j, "synthesizer") {
        Err(e) => {
            return Err(e);
        },
        Ok(t) => t,
    };
    let selector = match read_optional_target(j, "selector") {
        Err(e) => {
            return Err(e);
        },
        Ok(t) => t,
    };
    let plan = WorkflowPlan { analyzer, workers, synthesizer, selector };
    proof {
        lemma_plan_view(plan);
    }
    Ok(plan)
}

/// Reads one worker entry: a nested plan or a model reference.
pub fn read_worker(j: &Json) -> (r: Result<WorkflowWorker, PlanError>)
    ensures
        worker_result_view(r) == worker_of_json(j@),
    decreases j@, 1nat,
{
    if j.get("analyzer").is_some() && j.get("workers").is_some() {
        match read_plan(j) {
            Ok(p) => Ok(WorkflowWorker::Workflow(Box::new(p))),
            Err(e) => Err(e),
        }
    } else {
        match read_target(j) {
            Ok(t) => Ok(WorkflowWorker::Model(t)),
            Err(e) => Err(e),
        }
    }
}

/// The synthesizer that the levels below `p` inherit: its own, else the one
/// that `p` itself would inherit.
pub open spec fn nearest_synthesizer(p: PlanView, enclosing: Option<TargetView>) -> Option<
    TargetView,
> {
    match p.synthesizer {
        Some(s) => Some(s),
        None => enclosing,
    }
}

/// The plan after inheritance: a level that names neither selector nor
/// synthesizer takes the nearest synthesizer above it; a level that names a
/// selector takes none.
pub open spec fn inherited(p: PlanView, enclosing: Option<TargetView>) -> PlanView
    decreases p,
{
    PlanView {
        analyzer: p.analyzer,
        workers: Seq::new(
            p.workers.len(),
            |i: int|
                if 0 <= i < p.workers.len() {
                    inherited_worker(p.workers[i], nearest_synthesizer(p, enclosing))
                } else {
                    blank_worker()
                },
        ),
        synthesizer: if p.synthesizer is None && p.selector is None {
            enclosing
        } else {
            p.synthesizer
        },
        selector: p.selector,
    }
}

pub open spec fn inherited_worker(w: WorkerView, enclosing: Option<TargetView>) -> WorkerView
    decreases w,
{
    match w {
        WorkerView::Model(t) => WorkerView::Model(t),
        WorkerView::Workflow(q) => WorkerView::Workflow(inherited(q, enclosing)),
    }
}

fn duplicate_option(t: &Option<ModelTarget>) -> (r: Option<ModelTarget>)
    ensures
        target_option_view(r) == target_option_view(*t),
{
    match t {
        Some(x) => Some(x.duplicate()),
        None => None,
    }
}

/// Hands the nearest enclosing synthesizer down to every level that names
/// neither a selector nor a synthesizer of its own.
pub fn inherit_synthesizers(plan: &WorkflowPlan, enclosing: &Option<ModelTarget>) -> (r:
    WorkflowPlan)
    ensures
        r@ == inherited(plan@, target_option_view(*enclosing)),
    decreases plan,
{
    let nearest = match &plan.synthesizer {
        Some(s) => Some(s.duplicate()),
        None => duplicate_option(enclosing),
    };
    let synthesizer = if plan.synthesizer.is_none() && plan.selector.is_none() {
        duplicate_option(enclosing)
    } else {
        duplicate_option(&plan.synthesizer)
    };
    proof {
        lemma_plan_view(*plan);
    }
    let ghost target = inherited(plan@, target_option_view(*enclosing));
    let mut workers: Vec<WorkflowWorker> = Vec::new();
    let mut i: usize = 0;
    while i < plan.workers.len()
        invariant
            i <= plan.workers.len(),
            plan@.workers == worker_views(plan.workers@),
            target == inherited(plan@, target_option_view(*enclosing)),
            target_option_view(nearest) == nearest_synthesizer(
                plan@,
                target_option_view(*enclosing),
            ),
            workers@.len() == i,
            forall|k: int| 0 <= k < i ==> (#[trigger] workers@[k])@ == target.workers[k],
        decreases plan.workers.len() - i,
    {
        let w = match &plan.workers[i] {
            WorkflowWorker::Model(t) => WorkflowWorker::Model(t.duplicate()),
            WorkflowWorker::Workflow(q) => {
                proof {
                    assert(decreases_to!(plan => plan.workers));
                    assert(decreases_to!(plan.workers => plan.workers@));
                    assert(decreases_to!(plan.workers@ => plan.workers@[i as int]));
                    assert(decreases_to!(plan.workers@[i as int] => plan.workers@[i as int]->Workflow_0));
                }
                WorkflowWorker::Workflow(Box::new(inherit_synthesizers(q, &nearest)))
            },
        };
        assert(w@ == target.workers[i as int]) by {
            assert(plan@.workers[i as int] == plan.workers@[i as int]@);
        }
        workers.push(w);
        i = i + 1;
    }
    let r = WorkflowPlan {
        analyzer: plan.analyzer.duplicate(),
        workers,
        synthesizer,
        selector: duplicate_option(&plan.selector),
    };
    proof {
        lemma_plan_view(r);
        assert(r@.workers =~= target.workers);
    }
    r
}

/// The first thing wrong with a plan, walking each level before the levels
/// nested in it: an empty worker list, or a level with neither selector nor
/// synthesizer.
pub open spec fn plan_defect(p: PlanView) -> Option<PlanError>
    decreases p, 0nat,
{
    if p.workers.len() == 0 {
        Some(PlanError::EmptyWorkers)
    } else if p.synthesizer is None && p.selector is None {
        Some(PlanError::MissingAggregator)
    } else {
        workers_defect(p.workers, p.workers.len())
    }
}

pub open spec fn workers_defect(ws: Seq<WorkerView>, n: nat) -> Option<PlanError>
    decreases ws, n,
{
    if n == 0 || n > ws.len() {
        None
    } else {
        match workers_defect(ws, (n - 1) as nat) {
            Some(e) => Some(e),
            None => match ws[n - 1] {
                WorkerView::Workflow(q) => plan_defect(q),
                WorkerView::Model(_) => None,
            },
        }
    }
}

/// A plan that can be evaluated: every level has workers and at least one
/// of selector and synthesizer.
pub open spec fn valid_plan(p: PlanView) -> bool {
    plan_defect(p) is None
}

pub proof fn lemma_defect_found(ws: Seq<WorkerView>, k: nat, n: nat)
    requires
        k <= n <= ws.len(),
        workers_defect(ws, k) is Some,
    ensures
        workers_defect(ws, n) == workers_defect(ws, k),
    decreases n,
{
    if k < n {
        lemma_defect_found(ws, k, (n - 1) as nat);
    }
}

/// Checks every level of a plan.
#[verifier::loop_isolation(false)]
pub fn validate_plan(plan: &WorkflowPlan) -> (r: Result<(), PlanError>)
    ensures
        r == match plan_defect(plan@) {
            Some(e) => Err::<(), PlanError>(e),
            None => Ok(()),
        },
    decreases plan,
{
    proof {
        lemma_plan_view(*plan);
    }
    if plan.workers.len() == 0 {
        return Err(PlanError::EmptyWorkers);
    }
    if plan.synthesizer.is_none() && plan.selector.is_none() {
        return Err(PlanError::MissingAggregator);
    }
    let ghost ws = plan@.workers;
    let mut i: usize = 0;
    while i < plan.workers.len()
        invariant
            i <= plan.workers.len(),
            ws == worker_views(plan.workers@),
            workers_defect(ws, i as nat) is None,
        decreases plan.workers.len() - i,
    {
        assert(ws[i as int] == plan.workers@[i as int]@);
        match &plan.workers[i] {
            WorkflowWorker::Model(_) => {},
            WorkflowWorker::Workflow(q) => {
                proof {
                    assert(decreases_to!(plan => plan.workers));
                    assert(decreases_to!(plan.workers => plan.workers@));
                    assert(decreases_to!(plan.workers@ => plan.workers@[i as int]));
                    assert(decreases_to!(plan.workers@[i as int] => plan.workers@[i as int]->Workflow_0));
                }
                match validate_plan(q) {
                    Ok(()) => {},
                    Err(e) => {
                        proof {
                            lemma_defect_found(ws, (i + 1) as nat, ws.len());
                        }
                        return Err(e);
                    },
                }
            },
        }
        i = i + 1;
    }
    Ok(())
}


/// A nested plan that names a selector keeps the synthesizer it names, if
/// any, and takes none from above; one that names neither takes the nearest
/// synthesizer above it, which is its parent's own or else the one that the
/// parent would inherit.
pub proof fn law_nested_inheritance(p: PlanView, enclosing: Option<TargetView>, i: int)
    requires
        0 <= i < p.workers.len(),
        p.workers[i] is Workflow,
    ensures
        inherited(p, enclosing).workers[i] == WorkerView::Workflow(
            inherited(p.workers[i]->Workflow_0, nearest_synthesizer(p, enclosing)),
        ),
        p.workers[i]->Workflow_0.selector is Some ==> inherited(
            p,
            enclosing,
        ).workers[i]->Workflow_0.synthesizer == p.workers[i]->Workflow_0.synthesizer,
        p.workers[i]->Workflow_0.selector is None && p.workers[i]->Workflow_0.synthesizer is None
            ==> inherited(p, enclosing).workers[i]->Workflow_0.synthesizer == nearest_synthesizer(
            p,
            enclosing,
        ),
        inherited(p, enclosing).workers[i]->Workflow_0.selector
            == p.workers[i]->Workflow_0.selector,
{
}

/// Inheritance never touches what a level names itself: its analyzer, its
/// selector, the number of its workers, and a synthesizer where it has one.
pub proof fn law_inheritance_keeps_declared(p: PlanView, enclosing: Option<TargetView>)
    ensures
        inherited(p, enclosing).analyzer == p.analyzer,
        inherited(p, enclosing).selector == p.selector,
        inherited(p, enclosing).workers.len() == p.workers.len(),
        p.synthesizer is Some ==> inherited(p, enclosing).synthesizer == p.synthesizer,
        p.selector is Some ==> inherited(p, enclosing).synthesizer == p.synthesizer,
        p.selector is None && p.synthesizer is None ==> inherited(p, enclosing).synthesizer
            == enclosing,
{
}


/// One member where there is a value, none where there is not.
pub open spec fn optional_member(key: Seq<char>, v: Option<JsonValue>) -> Seq<
    (Seq<char>, JsonValue),
> {
    match v {
        Some(x) => seq![(key, x)],
        None => Seq::empty(),
    }
}

pub open spec fn json_of_temperature(t: Option<Temperature>) -> Option<JsonValue> {
    match t {
        Some(x) => Some(JsonValue::Number(millis_text(x.millis as nat))),
        None => None,
    }
}

pub open spec fn json_of_flag(f: Option<bool>) -> Option<JsonValue> {
    match f {
        Some(b) => Some(JsonValue::Bool(b)),
        None => None,
    }
}

/// The tree of a model reference, its name under `key`; a hint that is not
/// there is left out.
pub open spec fn json_of_target(t: TargetView, key: Seq<char>) -> JsonValue {
    JsonValue::Object(
        seq![(key, JsonValue::Text(t.model))] + optional_member(
            "temperature"@,
            json_of_temperature(t.temperature),
        ) + optional_member("auto_temperature"@, json_of_flag(t.auto_temperature)),
    )
}

pub open spec fn json_of_optional_target(t: Option<TargetView>) -> Option<JsonValue> {
    match t {
        Some(x) => Some(json_of_target(x, "ref"@)),
        None => None,
    }
}

/// The tree of a plan: `analyzer`, `workers`, then `synthesizer` and
/// `selector` where the level has them.
pub open spec fn json_of_plan(p: PlanView) -> JsonValue
    decreases p,
{
    JsonValue::Object(
        seq![
            ("analyzer"@, json_of_target(p.analyzer, "ref"@)),
            (
                "workers"@,
                JsonValue::Array(
                    Seq::new(
                        p.workers.len(),
                        |i: int|
                            if 0 <= i < p.workers.len() {
                                json_of_worker(p.workers[i])
                            } else {
                                JsonValue::Null
                            },
                    ),
                ),
            ),
        ] + optional_member("synthesizer"@, json_of_optional_target(p.synthesizer))
            + optional_member("selector"@, json_of_optional_target(p.selector)),
    )
}

pub open spec fn json_of_worker(w: WorkerView) -> JsonValue
    decreases w,
{
    match w {
        WorkerView::Model(t) => json_of_target(t, "name"@),
        WorkerView::Workflow(q) => json_of_plan(q),
    }
}

impl ModelTarget {
    /// The tree of this reference, its name under `key`.
    pub fn to_json(&self, key: &str) -> (j: Json)
        ensures
            j@ == json_of_target(self@, key@),
    {
        let mut members: Vec<(String, Json)> = Vec::new();
        members.push((key.to_owned(), Json::Text(self.model.clone())));
        if let Some(t) = self.temperature {
            members.push(("temperature".to_owned(), Json::Number(t.to_text())));
        }
        if let Some(b) = self.auto_temperature {
            members.push(("auto_temperature".to_owned(), Json::Bool(b)));
        }
        proof {
            lemma_object_view(members);
            assert(member_views(members@) =~= json_of_target(self@, key@)->Object_0);
        }
        Json::Object(members)
    }
}

impl WorkflowPlan {
    /// The tree of this plan.
    pub fn to_json(&self) -> (j: Json)
        ensures
            j@ == json_of_plan(self@),
        decreases self,
    {
        proof {
            lemma_plan_view(*self);
        }
        let ghost target = json_of_plan(self@)->Object_0[1].1->Array_0;
        let mut items: Vec<Json> = Vec::new();
        let mut i: usize = 0;
        while i < self.workers.len()
            invariant
                i <= self.workers.len(),
                self@.workers == worker_views(self.workers@),
                target == json_of_plan(self@)->Object_0[1].1->Array_0,
                items@.len() == i,
                forall|k: int| 0 <= k < i ==> (#[trigger] items@[k])@ == target[k],
            decreases self.workers.len() - i,
        {
            assert(self@.workers[i as int] == self.workers@[i as int]@);
            let item = match &self.workers[i] {
                WorkflowWorker::Model(t) => t.to_json("name"),
                WorkflowWorker::Workflow(q) => {
                    proof {
                        assert(decreases_to!(self => self.workers));
                        assert(decreases_to!(self.workers => self.workers@));
                        assert(decreases_to!(self.workers@ => self.workers@[i as int]));
                        assert(decreases_to!(self.workers@[i as int] => self.workers@[i as int]->Workflow_0));
                    }
                    q.to_json()
                },
            };
            items.push(item);
            i = i + 1;
        }
        let mut members: Vec<(String, Json)> = Vec::new();
        members.push(("analyzer".to_owned(), self.analyzer.to_json("ref")));
        proof {
            lemma_array_view(items);
            assert(views(items@) =~= target);
        }
        members.push(("workers".to_owned(), Json::Array(items)));
        if let Some(s) = &self.synthesizer {
            members.push(("synthesizer".to_owned(), s.to_json("ref")));
        }
        if let Some(s) = &self.selector {
            members.push(("selector".to_owned(), s.to_json("ref")));
        }
        proof {
            lemma_object_view(members);
            assert(member_views(members@) =~= json_of_plan(self@)->Object_0);
        }
        Json::Object(members)
    }

    /// The plan as compact JSON text.
    pub fn to_json_string(&self) -> (s: String)
        ensures
            s@ == rendered_json(encoded_json(json_of_plan(self@))),
    {
        let j = self.to_json();
        render_json(&j)
    }
}

pub proof fn lemma_lookup_concat(
    a: Seq<(Seq<char>, JsonValue)>,
    b: Seq<(Seq<char>, JsonValue)>,
    key: Seq<char>,
)
    ensures
        lookup(a + b, key) == match lookup(a, key) {
            Some(v) => Some(v),
            None => lookup(b, key),
        },
    decreases a.len(),
{
    if a.len() == 0 {
        assert(a + b =~= b);
    } else {
        assert((a + b).drop_first() =~= a.drop_first() + b);
        assert((a + b)[0] == a[0]);
        lemma_lookup_concat(a.drop_first(), b, key);
    }
}

pub proof fn lemma_lookup_one(k: Seq<char>, v: JsonValue, key: Seq<char>)
    ensures
        lookup(seq![(k, v)], key) == if k == key {
            Some(v)
        } else {
            None
        },
{
    let s = seq![(k, v)];
    assert(s[0] == (k, v));
    assert(s.drop_first() =~= Seq::<(Seq<char>, JsonValue)>::empty());
    assert(lookup(s.drop_first(), key) is None);
}

pub proof fn lemma_lookup_optional(k: Seq<char>, v: Option<JsonValue>, key: Seq<char>)
    ensures
        lookup(optional_member(k, v), key) == if k == key {
            v
        } else {
            None
        },
{
    match v {
        Some(x) => lemma_lookup_one(k, x, key),
        None => {},
    }
}

/// The names of the members are eight different texts.
pub proof fn lemma_member_names()
    ensures
        "analyzer"@ != "workers"@,
        "analyzer"@ != "synthesizer"@,
        "analyzer"@ != "selector"@,
        "analyzer"@ != "ref"@,
        "analyzer"@ != "name"@,
        "analyzer"@ != "temperature"@,
        "analyzer"@ != "auto_temperature"@,
        "workers"@ != "synthesizer"@,
        "workers"@ != "selector"@,
        "workers"@ != "ref"@,
        "workers"@ != "name"@,
        "workers"@ != "temperature"@,
        "workers"@ != "auto_temperature"@,
        "synthesizer"@ != "selector"@,
        "ref"@ != "name"@,
        "ref"@ != "temperature"@,
        "ref"@ != "auto_temperature"@,
        "name"@ != "temperature"@,
        "name"@ != "auto_temperature"@,
        "temperature"@ != "auto_temperature"@,
{
    reveal_strlit("analyzer");
    reveal_strlit("workers");
    reveal_strlit("synthesizer");
    reveal_strlit("selector");
    reveal_strlit("ref");
    reveal_strlit("name");
    reveal_strlit("temperature");
    reveal_strlit("auto_temperature");
    assert("analyzer"@.len() == 8 && "workers"@.len() == 7 && "synthesizer"@.len() == 11);
    assert("selector"@.len() == 8 && "ref"@.len() == 3 && "name"@.len() == 4);
    assert("temperature"@.len() == 11 && "auto_temperature"@.len() == 16);
    assert("analyzer"@[0] != "selector"@[0]);
    assert("synthesizer"@[0] != "temperature"@[0]);
}

/// The members of the tree of a model reference, looked up by name.
pub proof fn lemma_target_members(t: TargetView, key: Seq<char>, wanted: Seq<char>)
    requires
        key == "ref"@ || key == "name"@,
    ensures
        field(json_of_target(t, key), wanted) == if wanted == key {
            Some(JsonValue::Text(t.model))
        } else if wanted == "temperature"@ {
            json_of_temperature(t.temperature)
        } else if wanted == "auto_temperature"@ {
            json_of_flag(t.auto_temperature)
        } else {
            None
        },
{
    lemma_member_names();
    let a = seq![(key, JsonValue::Text(t.model))];
    let b = optional_member("temperature"@, json_of_temperature(t.temperature));
    let c = optional_member("auto_temperature"@, json_of_flag(t.auto_temperature));
    lemma_lookup_concat(a + b, c, wanted);
    lemma_lookup_concat(a, b, wanted);
    lemma_lookup_one(key, JsonValue::Text(t.model), wanted);
    lemma_lookup_optional("temperature"@, json_of_temperature(t.temperature), wanted);
    lemma_lookup_optional("auto_temperature"@, json_of_flag(t.auto_temperature), wanted);
}

/// Reading the tree of a model reference gives the reference back.
pub proof fn lemma_target_round_trip(t: TargetView, key: Seq<char>)
    requires
        key == "ref"@ || key == "name"@,
    ensures
        target_of_json(json_of_target(t, key)) == Ok::<TargetView, PlanError>(t),
        !is_plan_shaped(json_of_target(t, key)),
{
    lemma_member_names();
    let j = json_of_target(t, key);
    lemma_target_members(t, key, "ref"@);
    lemma_target_members(t, key, "name"@);
    lemma_target_members(t, key, "temperature"@);
    lemma_target_members(t, key, "auto_temperature"@);
    lemma_target_members(t, key, "analyzer"@);
    assert(target_name(j) == Some(t.model));
    match t.temperature {
        Some(x) => {
            law_millis_text_reads_back(x.millis as nat);
        },
        None => {},
    }
    assert(temperature_of_json(j) == Ok::<Option<Temperature>, PlanError>(t.temperature));
    assert(auto_flag_of_json(j) == Ok::<Option<bool>, PlanError>(t.auto_temperature));
}

/// The members of the tree of a plan, looked up by name.
pub proof fn lemma_plan_members(p: PlanView, wanted: Seq<char>)
    ensures
        field(json_of_plan(p), wanted) == if wanted == "analyzer"@ {
            Some(json_of_target(p.analyzer, "ref"@))
        } else if wanted == "workers"@ {
            Some(json_of_plan(p)->Object_0[1].1)
        } else if wanted == "synthesizer"@ {
            json_of_optional_target(p.synthesizer)
        } else if wanted == "selector"@ {
            json_of_optional_target(p.selector)
        } else {
            None
        },
        json_of_plan(p)->Object_0[1].1 is Array,
        json_of_plan(p)->Object_0[1].1->Array_0.len() == p.workers.len(),
        forall|i: int|
            0 <= i < p.workers.len() ==> (#[trigger] json_of_plan(p)->Object_0[1].1->Array_0[i])
                == json_of_worker(p.workers[i]),
{
    lemma_member_names();
    let first = ("analyzer"@, json_of_target(p.analyzer, "ref"@));
    let second = json_of_plan(p)->Object_0[1];
    let a = seq![first, second];
    let b = optional_member("synthesizer"@, json_of_optional_target(p.synthesizer));
    let c = optional_member("selector"@, json_of_optional_target(p.selector));
    assert(json_of_plan(p)->Object_0 =~= a + b + c);
    assert(second.0 == "workers"@);
    lemma_lookup_concat(a + b, c, wanted);
    lemma_lookup_concat(a, b, wanted);
    assert(a =~= seq![first] + seq![second]);
    lemma_lookup_concat(seq![first], seq![second], wanted);
    lemma_lookup_one(first.0, first.1, wanted);
    lemma_lookup_one(second.0, second.1, wanted);
    lemma_lookup_optional("synthesizer"@, json_of_optional_target(p.synthesizer), wanted);
    lemma_lookup_optional("selector"@, json_of_optional_target(p.selector), wanted);
}

/// Reading the tree of a plan gives the plan back, a level without a
/// selector still without one.
pub proof fn law_plan_round_trip(p: PlanView)
    ensures
        plan_of_json(json_of_plan(p)) == Ok::<PlanView, PlanError>(p),
        is_plan_shaped(json_of_plan(p)),
    decreases p, 0nat,
{
    let j = json_of_plan(p);
    lemma_member_names();
    lemma_plan_members(p, "analyzer"@);
    lemma_plan_members(p, "workers"@);
    lemma_plan_members(p, "synthesizer"@);
    lemma_plan_members(p, "selector"@);
    lemma_target_round_trip(p.analyzer, "ref"@);
    let items = j->Object_0[1].1->Array_0;
    lemma_workers_round_trip(p.workers, items, p.workers.len());
    assert(p.workers.take(p.workers.len() as int) =~= p.workers);
    match p.synthesizer {
        Some(s) => {
            lemma_target_round_trip(s, "ref"@);
        },
        None => {},
    }
    match p.selector {
        Some(s) => {
            lemma_target_round_trip(s, "ref"@);
        },
        None => {},
    }
    assert(optional_target_of_json(j, "synthesizer"@) == Ok::<Option<TargetView>, PlanError>(
        p.synthesizer,
    ));
    assert(optional_target_of_json(j, "selector"@) == Ok::<Option<TargetView>, PlanError>(
        p.selector,
    ));
}

pub proof fn lemma_workers_round_trip(ws: Seq<WorkerView>, items: Seq<JsonValue>, n: nat)
    requires
        n <= ws.len(),
        items.len() == ws.len(),
        forall|i: int| 0 <= i < ws.len() ==> #[trigger] items[i] == json_of_worker(ws[i]),
    ensures
        workers_of_json(items, n) == Ok::<Seq<WorkerView>, PlanError>(ws.take(n as int)),
    decreases ws, n,
{
    if n == 0 {
        assert(ws.take(0) =~= Seq::<WorkerView>::empty());
    } else {
        lemma_workers_round_trip(ws, items, (n - 1) as nat);
        let w = ws[n - 1];
        assert(items[n - 1] == json_of_worker(w));
        match w {
            WorkerView::Model(t) => {
                lemma_target_round_trip(t, "name"@);
            },
            WorkerView::Workflow(q) => {
                law_plan_round_trip(q);
            },
        }
        assert(worker_of_json(items[n - 1]) == Ok::<WorkerView, PlanError>(w));
        assert(ws.take(n as int) =~= ws.take(n - 1).push(w));
    }
}


/// The plan that is loaded from a tree: read as written, then completed by
/// inheritance from the root down, then checked level by level.
pub open spec fn loaded_plan(j: JsonValue) -> Result<PlanView, PlanError> {
    match plan_of_json(j) {
        Err(e) => Err(e),
        Ok(p) => match plan_defect(inherited(p, None)) {
            Some(e) => Err(e),
            None => Ok(inherited(p, None)),
        },
    }
}

/// The plan that is loaded from a JSON text.
pub open spec fn loaded_plan_text(text: Seq<char>) -> Result<PlanView, PlanError> {
    match parsed_json(text) {
        None => Err(PlanError::InvalidJson),
        Some(j) => loaded_plan(j),
    }
}

impl WorkflowPlan {
    /// Loads a plan from a tree: reads it, lets the levels inherit, and
    /// checks the result.
    pub fn from_json(j: &Json) -> (r: Result<WorkflowPlan, PlanError>)
        ensures
            plan_result_view(r) == loaded_plan(j@),
    {
        let raw = match read_plan(j) {
            Err(e) => {
                return Err(e);
            },
            Ok(p) => p,
        };
        let none: Option<ModelTarget> = None;
        let plan = inherit_synthesizers(&raw, &none);
        match validate_plan(&plan) {
            Err(e) => Err(e),
            Ok(()) => Ok(plan),
        }
    }

    /// Loads a plan from a JSON text.
    pub fn from_json_str(text: &str) -> (r: Result<WorkflowPlan, PlanError>)
        ensures
            plan_result_view(r) == loaded_plan_text(text@),
    {
        match parse_json(text) {
            None => Err(PlanError::InvalidJson),
            Some(j) => WorkflowPlan::from_json(&j),
        }
    }

    /// A copy of this plan.
    pub fn duplicate(&self) -> (r: WorkflowPlan)
        ensures
            r@ == self@,
        decreases self,
    {
        proof {
            lemma_plan_view(*self);
        }
        let mut workers: Vec<WorkflowWorker> = Vec::new();
        let mut i: usize = 0;
        while i < self.workers.len()
            invariant
                i <= self.workers.len(),
                workers@.len() == i,
                forall|k: int| 0 <= k < i ==> (#[trigger] workers@[k])@ == self.workers@[k]@,
            decreases self.workers.len() - i,
        {
            let w = match &self.workers[i] {
                WorkflowWorker::Model(t) => WorkflowWorker::Model(t.duplicate()),
                WorkflowWorker::Workflow(q) => {
                    proof {
                        assert(decreases_to!(self => self.workers));
                        assert(decreases_to!(self.workers => self.workers@));
                        assert(decreases_to!(self.workers@ => self.workers@[i as int]));
                        assert(decreases_to!(self.workers@[i as int] => self.workers@[i as int]->Workflow_0));
                    }
                    WorkflowWorker::Workflow(Box::new(q.duplicate()))
                },
            };
            workers.push(w);
            i = i + 1;
        }
        let r = WorkflowPlan {
            analyzer: self.analyzer.duplicate(),
            workers,
            synthesizer: duplicate_option(&self.synthesizer),
            selector: duplicate_option(&self.selector),
        };
        proof {
            lemma_plan_view(r);
            assert(worker_views(r.workers@) =~= worker_views(self.workers@));
        }
        r
    }

    /// The name by which messages speak of this plan level.
    pub fn label(&self) -> (s: String)
        ensures
            s@ == plan_label(self@),
    {
        proof {
            lemma_plan_view(*self);
        }
        let mut out: Vec<char> = Vec::new();
        push_str(&mut out, "workflow[");
        let name = chars_of(self.analyzer.model.as_str());
        push_chars(&mut out, &name);
        out.push(']');
        assert(out@ =~= plan_label(self@));
        string_of(&out)
    }

    /// The labels of the workers of this level, in order.
    pub fn worker_labels(&self) -> (r: Vec<String>)
        ensures
            r@.len() == self@.workers.len(),
            forall|i: int| 0 <= i < r@.len() ==> (#[trigger] r@[i])@ == worker_label(self@.workers[i]),
    {
        proof {
            lemma_plan_view(*self);
        }
        let mut r: Vec<String> = Vec::new();
        let mut i: usize = 0;
        while i < self.workers.len()
            invariant
                i <= self.workers.len(),
                self@.workers == worker_views(self.workers@),
                r@.len() == i,
                forall|k: int| 0 <= k < i ==> (#[trigger] r@[k])@ == worker_label(self@.workers[k]),
            decreases self.workers.len() - i,
        {
            assert(self@.workers[i as int] == self.workers@[i as int]@);
            r.push(self.workers[i].label());
            i = i + 1;
        }
        r
    }
}

impl WorkflowWorker {
    /// The name by which messages and records speak of this worker.
    pub fn label(&self) -> (s: String)
        ensures
            s@ == worker_label(self@),
    {
        match self {
            WorkflowWorker::Model(t) => t.model.clone(),
            WorkflowWorker::Workflow(q) => q.label(),
        }
    }
}

/// The label of a plan level: `workflow[`, the analyzer's model, `]`.
pub open spec fn plan_label(p: PlanView) -> Seq<char> {
    "workflow["@ + p.analyzer.model + seq![']']
}

/// The label of a worker: the model's name, or the label of the nested plan.
pub open spec fn worker_label(w: WorkerView) -> Seq<char> {
    match w {
        WorkerView::Model(t) => t.model,
        WorkerView::Workflow(q) => plan_label(q),
    }
}

/// A worker brought down to `depth` levels. At one level it stays as it
/// is. Deeper, a model becomes a level of its own, with the analyzer,
/// synthesizer and selector of the level around it and two copies of itself
/// as workers, each brought down one level less; a nested plan has its own
/// workers brought down one level less.
pub open spec fn deepened_worker(w: WorkerView, depth: nat, around: PlanView) -> WorkerView
    decreases depth, 0nat,
{
    if depth <= 1 {
        w
    } else {
        match w {
            WorkerView::Model(_) => WorkerView::Workflow(
                PlanView {
                    analyzer: around.analyzer,
                    workers: seq![
                        deepened_worker(w, (depth - 1) as nat, around),
                        deepened_worker(w, (depth - 1) as nat, around),
                    ],
                    synthesizer: around.synthesizer,
                    selector: around.selector,
                },
            ),
            WorkerView::Workflow(q) => WorkerView::Workflow(
                PlanView {
                    analyzer: q.analyzer,
                    workers: deepened_workers(q.workers, (depth - 1) as nat, q),
                    synthesizer: q.synthesizer,
                    selector: q.selector,
                },
            ),
        }
    }
}

/// Each worker of a list brought down to `depth` levels.
pub open spec fn deepened_workers(ws: Seq<WorkerView>, depth: nat, around: PlanView) -> Seq<
    WorkerView,
>
    decreases depth, 1nat,
{
    Seq::new(
        ws.len(),
        |i: int|
            if 0 <= i < ws.len() {
                deepened_worker(ws[i], depth, around)
            } else {
                blank_worker()
            },
    )
}

impl WorkflowWorker {
    /// A copy of this worker.
    pub fn duplicate(&self) -> (r: WorkflowWorker)
        ensures
            r@ == self@,
    {
        match self {
            WorkflowWorker::Model(t) => WorkflowWorker::Model(t.duplicate()),
            WorkflowWorker::Workflow(q) => WorkflowWorker::Workflow(Box::new(q.duplicate())),
        }
    }
}

/// Brings one worker down to `depth` levels.
fn expand_worker(w: &WorkflowWorker, depth: usize, around: &WorkflowPlan) -> (r: WorkflowWorker)
    requires
        depth >= 1,
    ensures
        r@ == deepened_worker(w@, depth as nat, around@),
    decreases depth, 0nat,
{
    if depth == 1 {
        return w.duplicate();
    }
    let plan = match w {
        WorkflowWorker::Model(_) => {
            let mut workers: Vec<WorkflowWorker> = Vec::new();
            workers.push(expand_worker(w, depth - 1, around));
            workers.push(expand_worker(w, depth - 1, around));
            let plan = WorkflowPlan {
                analyzer: around.analyzer.duplicate(),
                workers,
                synthesizer: duplicate_option(&around.synthesizer),
                selector: duplicate_option(&around.selector),
            };
            proof {
                lemma_plan_view(plan);
                lemma_plan_view(*around);
                let d = deepened_worker(w@, (depth - 1) as nat, around@);
                assert(worker_views(plan.workers@) =~= seq![d, d]);
            }
            plan
        },
        WorkflowWorker::Workflow(q) => {
            let plan = WorkflowPlan {
                analyzer: q.analyzer.duplicate(),
                workers: expand_workers(&q.workers, depth - 1, q),
                synthesizer: duplicate_option(&q.synthesizer),
                selector: duplicate_option(&q.selector),
            };
            proof {
                lemma_plan_view(plan);
                lemma_plan_view(**q);
            }
            plan
        },
    };
    WorkflowWorker::Workflow(Box::new(plan))
}

/// Brings a worker list down to `depth` levels, with `around` as the level
/// that holds it. A depth of zero gives an empty list.
pub fn expand_workers(workers: &Vec<WorkflowWorker>, depth: usize, around: &WorkflowPlan) -> (r:
    Vec<WorkflowWorker>)
    ensures
        worker_views(r@) == if depth == 0 {
            Seq::<WorkerView>::empty()
        } else {
            deepened_workers(worker_views(workers@), depth as nat, around@)
        },
    decreases depth, 1nat,
{
    let mut r: Vec<WorkflowWorker> = Vec::new();
    if depth == 0 {
        assert(worker_views(r@) =~= Seq::<WorkerView>::empty());
        return r;
    }
    let ghost ws = worker_views(workers@);
    let mut i: usize = 0;
    while i < workers.len()
        invariant
            i <= workers.len(),
            depth > 0,
            r@.len() == i,
            ws == worker_views(workers@),
            forall|k: int|
                0 <= k < i ==> (#[trigger] r@[k])@ == deepened_worker(
                    ws[k],
                    depth as nat,
                    around@,
                ),
        decreases workers.len() - i,
    {
        assert(ws[i as int] == workers@[i as int]@);
        r.push(expand_worker(&workers[i], depth, around));
        i = i + 1;
    }
    assert(worker_views(r@) =~= deepened_workers(ws, depth as nat, around@));
    r
}

/// A level deeper than one has no model among its workers, and a model
/// that was replaced stands twice in the level that replaced it.
pub proof fn law_depth_replaces_models(t: TargetView, depth: nat, around: PlanView)
    requires
        depth >= 2,
    ensures
        deepened_worker(WorkerView::Model(t), depth, around) is Workflow,
        deepened_worker(WorkerView::Model(t), depth, around)->Workflow_0.workers.len() == 2,
        deepened_worker(WorkerView::Model(t), depth, around)->Workflow_0.workers[0]
            == deepened_worker(WorkerView::Model(t), (depth - 1) as nat, around),
        deepened_worker(WorkerView::Model(t), depth, around)->Workflow_0.workers[1]
            == deepened_worker(WorkerView::Model(t), (depth - 1) as nat, around),
        deepened_worker(WorkerView::Model(t), 1, around) == WorkerView::Model(t),
{
}

/// Inheritance changes nothing in a plan that is already complete.
pub proof fn law_inheritance_fixes_valid_plans(p: PlanView, enclosing: Option<TargetView>)
    requires
        valid_plan(p),
    ensures
        inherited(p, enclosing) == p,
    decreases p,
{
    let q = inherited(p, enclosing);
    assert forall|i: int| 0 <= i < p.workers.len() implies q.workers[i] == p.workers[i] by {
        lemma_defect_covers(p.workers, p.workers.len(), i);
        match p.workers[i] {
            WorkerView::Model(_) => {},
            WorkerView::Workflow(inner) => {
                law_inheritance_fixes_valid_plans(inner, nearest_synthesizer(p, enclosing));
            },
        }
    }
    assert(q.workers =~= p.workers);
}

/// Where the first `n` workers hold no defect, none of them does.
pub proof fn lemma_defect_covers(ws: Seq<WorkerView>, n: nat, i: int)
    requires
        n <= ws.len(),
        0 <= i < n,
        workers_defect(ws, n) is None,
    ensures
        ws[i] is Workflow ==> plan_defect(ws[i]->Workflow_0) is None,
    decreases n,
{
    if i < n - 1 {
        lemma_defect_covers(ws, (n - 1) as nat, i);
    }
}

/// A complete plan that is written as a tree and loaded again is the same
/// plan.
pub proof fn law_valid_plan_round_trip(p: PlanView)
    requires
        valid_plan(p),
    ensures
        loaded_plan(json_of_plan(p)) == Ok::<PlanView, PlanError>(p),
{
    law_plan_round_trip(p);
    law_inheritance_fixes_valid_plans(p, None);
}

impl PlanError {
    /// What is wrong, in words.
    pub fn message(&self) -> (s: String)
        ensures
            s@ == plan_error_text(*self),
    {
        match self {
            PlanError::MissingAnalyzer => "workflow must define an `analyzer`".to_owned(),
            PlanError::InvalidTarget => "model reference must name a model by `ref` or `name`".to_owned(),
            PlanError::InvalidTemperature => "`temperature` must be a number that is not negative".to_owned(),
            PlanError::InvalidAutoFlag => "`auto_temperature` must be true or false".to_owned(),
            PlanError::MissingWorkers => "workflow must define a list of `workers`".to_owned(),
            PlanError::EmptyWorkers => "workflow must define at least one worker".to_owned(),
            PlanError::MissingAggregator => "workflow must define at least one of `synthesizer` or `selector`".to_owned(),
            PlanError::ZeroDepth => "nested_worker_depth must be at least 1".to_owned(),
            PlanError::InvalidJson => "workflow json is not valid JSON".to_owned(),
        }
    }
}

pub open spec fn plan_error_text(e: PlanError) -> Seq<char> {
    match e {
        PlanError::MissingAnalyzer => "workflow must define an `analyzer`"@,
        PlanError::InvalidTarget => "model reference must name a model by `ref` or `name`"@,
        PlanError::InvalidTemperature => "`temperature` must be a number that is not negative"@,
        PlanError::InvalidAutoFlag => "`auto_temperature` must be true or false"@,
        PlanError::MissingWorkers => "workflow must define a list of `workers`"@,
        PlanError::EmptyWorkers => "workflow must define at least one worker"@,
        PlanError::MissingAggregator => "workflow must define at least one of `synthesizer` or `selector`"@,
        PlanError::ZeroDepth => "nested_worker_depth must be at least 1"@,
        PlanError::InvalidJson => "workflow json is not valid JSON"@,
    }
}

} // verus!
