//! The configuration of the service: server address, model definitions, the
//! plan, and the timeouts with their per-host overrides.

use crate::error::AppError;
use crate::error::ErrorKind;
use crate::plan::{lemma_plan_view, ModelTarget, PlanView, TargetView, WorkerView, WorkflowPlan, WorkflowWorker};
use crate::temperature::{Temperature, TemperatureHints};
use crate::text::{chars_of, decimal, join_strings, joined, push_decimal, push_str, string_of, string_of_range, string_views};
use vstd::prelude::*;

verus! {

/// What the command line gives.
#[derive(Debug)]
pub struct Cli {
    /// The path of the configuration file, where one was named.
    pub config: Option<String>,
}

/// Where the service listens.
#[derive(Debug)]
pub struct ServerConfig {
    pub host: String,
    pub port: u16,
}

impl Default for ServerConfig {
    fn default() -> (r: Self)
        ensures
            r.host@ == "127.0.0.1"@,
            r.port == 11435,
    {
        ServerConfig { host: "127.0.0.1".to_owned(), port: 11435 }
    }
}

/// One upstream endpoint.
#[derive(Debug)]
pub struct ModelConfig {
    pub name: String,
    pub api_base: String,
    pub api_key: String,
    pub auto_temperature: Option<bool>,
    pub temperature: Option<Temperature>,
}

pub struct ModelView {
    pub name: Seq<char>,
    pub api_base: Seq<char>,
    pub api_key: Seq<char>,
    pub auto_temperature: Option<bool>,
    pub temperature: Option<Temperature>,
}

impl View for ModelConfig {
    type V = ModelView;

    open spec fn view(&self) -> ModelView {
        ModelView {
            name: self.name@,
            api_base: self.api_base@,
            api_key: self.api_key@,
            auto_temperature: self.auto_temperature,
            temperature: self.temperature,
        }
    }
}

impl ModelConfig {
    /// The hints that the model definition gives.
    pub fn hints(&self) -> (h: TemperatureHints)
        ensures
            h == model_hints(self@),
    {
        TemperatureHints { temperature: self.temperature, auto_temperature: self.auto_temperature }
    }
}

pub open spec fn model_hints(m: ModelView) -> TemperatureHints {
    TemperatureHints { temperature: m.temperature, auto_temperature: m.auto_temperature }
}

/// The plan, and how deep its workers were asked to nest.
#[derive(Debug)]
pub struct WorkflowIntegrationConfig {
    pub nested_worker_depth: usize,
    pub plan: WorkflowPlan,
}

/// The timeouts of the three kinds of call, in seconds.
#[derive(Clone, Copy, Debug, PartialEq, Eq, Structural)]
pub struct WorkflowTimeouts {
    pub analyzer_timeout_secs: u64,
    pub worker_timeout_secs: u64,
    pub synthesizer_timeout_secs: u64,
}

/// The timeouts that one host overrides.
#[derive(Clone, Copy, Debug, PartialEq, Eq, Structural)]
pub struct DomainOverrides {
    pub analyzer_timeout_secs: Option<u64>,
    pub worker_timeout_secs: Option<u64>,
    pub synthesizer_timeout_secs: Option<u64>,
}

/// The timeouts that hold for one host.
#[derive(Clone, Copy, Debug, PartialEq, Eq, Structural)]
pub struct DomainTimeouts {
    pub analyzer: u64,
    pub worker: u64,
    pub synthesizer: u64,
}

/// The global timeouts, and the overrides by host. No host stands twice
/// among the overrides of a well-formed configuration.
#[derive(Debug)]
pub struct WorkflowConfig {
    pub timeouts: WorkflowTimeouts,
    pub domains: Vec<(String, DomainOverrides)>,
}

#[derive(Debug)]
pub struct Config {
    pub server: ServerConfig,
    pub model: Vec<ModelConfig>,
    pub workflow_integration: WorkflowIntegrationConfig,
    pub workflow: WorkflowConfig,
}

pub open spec fn model_views(ms: Seq<ModelConfig>) -> Seq<ModelView> {
    Seq::new(ms.len(), |i: int| ms[i]@)
}

pub open spec fn domain_views(ds: Seq<(String, DomainOverrides)>) -> Seq<
    (Seq<char>, DomainOverrides),
> {
    Seq::new(ds.len(), |i: int| (ds[i].0@, ds[i].1))
}

/// The first model at or after `i` that has the name.
pub open spec fn find_model(ms: Seq<ModelView>, name: Seq<char>, i: nat) -> Option<ModelView>
    decreases ms.len() - i,
{
    if i >= ms.len() {
        None
    } else if ms[i as int].name == name {
        Some(ms[i as int])
    } else {
        find_model(ms, name, i + 1)
    }
}

/// The overrides of the first entry at or after `i` that names the host.
pub open spec fn find_domain(ds: Seq<(Seq<char>, DomainOverrides)>, host: Seq<char>, i: nat)
    -> Option<DomainOverrides>
    decreases ds.len() - i,
{
    if i >= ds.len() {
        None
    } else if ds[i as int].0 == host {
        Some(ds[i as int].1)
    } else {
        find_domain(ds, host, i + 1)
    }
}

pub open spec fn or_default(v: Option<u64>, d: u64) -> u64 {
    match v {
        Some(x) => x,
        None => d,
    }
}

/// The timeouts that hold for a host: each override that is there, and the
/// global value for each that is not.
pub open spec fn effective_timeouts(
    defaults: WorkflowTimeouts,
    ds: Seq<(Seq<char>, DomainOverrides)>,
    host: Seq<char>,
) -> DomainTimeouts {
    match find_domain(ds, host, 0) {
        Some(o) => DomainTimeouts {
            analyzer: or_default(o.analyzer_timeout_secs, defaults.analyzer_timeout_secs),
            worker: or_default(o.worker_timeout_secs, defaults.worker_timeout_secs),
            synthesizer: or_default(o.synthesizer_timeout_secs, defaults.synthesizer_timeout_secs),
        },
        None => DomainTimeouts {
            analyzer: defaults.analyzer_timeout_secs,
            worker: defaults.worker_timeout_secs,
            synthesizer: defaults.synthesizer_timeout_secs,
        },
    }
}

/// Where the host of a URL begins: after the first `://`, or at the start
/// where there is none.
pub open spec fn host_start(url: Seq<char>, i: int) -> int
    decreases url.len() - i,
{
    if i < 0 || i + 3 > url.len() {
        0
    } else if url[i] == ':' && url[i + 1] == '/' && url[i + 2] == '/' {
        i + 3
    } else {
        host_start(url, i + 1)
    }
}

/// A character that ends the host of a URL.
pub open spec fn ends_host(c: char) -> bool {
    c == '/' || c == ':' || c == '?' || c == '#'
}

/// Where the host that begins at `i` ends.
pub open spec fn host_end(url: Seq<char>, i: int) -> int
    decreases url.len() - i,
{
    if 0 <= i < url.len() && !ends_host(url[i]) {
        host_end(url, i + 1)
    } else {
        i
    }
}

/// The host of a URL: what stands between the scheme and the first of
/// `/`, `:`, `?` and `#` after it.
pub open spec fn url_host(url: Seq<char>) -> Seq<char> {
    url.subrange(host_start(url, 0), host_end(url, host_start(url, 0)))
}

/// Cuts the host out of a URL.
pub fn host_of_url(url: &str) -> (r: String)
    ensures
        r@ == url_host(url@),
{
    let v = chars_of(url);
    let mut start: usize = 0;
    let mut i: usize = 0;
    let mut found = false;
    while !found && v.len() >= 3 && i <= v.len() - 3
        invariant
            i <= v.len(),
            !found ==> host_start(v@, 0) == host_start(v@, i as int),
            found ==> start == host_start(v@, 0),
            !found ==> start == 0,
            start <= v.len(),
        decreases v.len() - i + (if found { 0int } else { 1int }),
    {
        if v[i] == ':' && v[i + 1] == '/' && v[i + 2] == '/' {
            start = i + 3;
            found = true;
        } else {
            i = i + 1;
        }
    }
    let mut end: usize = start;
    while end < v.len() && !(v[end] == '/' || v[end] == ':' || v[end] == '?' || v[end] == '#')
        invariant
            start <= end <= v.len(),
            host_end(v@, start as int) == host_end(v@, end as int),
        decreases v.len() - end,
    {
        end = end + 1;
    }
    string_of_range(&v, start, end)
}

impl Config {
    /// Every host stands at most once among the overrides.
    pub open spec fn well_formed(&self) -> bool {
        forall|i: int, j: int|
            0 <= i < j < self.workflow.domains@.len() ==> (#[trigger] self.workflow.domains@[i]).0@
                != (#[trigger] self.workflow.domains@[j]).0@
    }

    /// The first model of that name.
    pub fn get_model(&self, name: &str) -> (r: Option<&ModelConfig>)
        ensures
            match r {
                Some(m) => find_model(model_views(self.model@), name@, 0) == Some(m@),
                None => find_model(model_views(self.model@), name@, 0) is None,
            },
    {
        let ghost ms = model_views(self.model@);
        let mut i: usize = 0;
        while i < self.model.len()
            invariant
                i <= self.model.len(),
                ms == model_views(self.model@),
                find_model(ms, name@, 0) == find_model(ms, name@, i as nat),
            decreases self.model.len() - i,
        {
            assert(ms[i as int] == self.model@[i as int]@);
            if str::eq(self.model[i].name.as_str(), name) {
                return Some(&self.model[i]);
            }
            i = i + 1;
        }
        None
    }

    /// The timeouts that hold for a host.
    pub fn get_domain_timeouts(&self, domain: &str) -> (r: DomainTimeouts)
        ensures
            r == effective_timeouts(
                self.workflow.timeouts,
                domain_views(self.workflow.domains@),
                domain@,
            ),
    {
        let defaults = self.workflow.timeouts;
        let ghost ds = domain_views(self.workflow.domains@);
        let mut i: usize = 0;
        while i < self.workflow.domains.len()
            invariant
                i <= self.workflow.domains.len(),
                ds == domain_views(self.workflow.domains@),
                defaults == self.workflow.timeouts,
                find_domain(ds, domain@, 0) == find_domain(ds, domain@, i as nat),
            decreases self.workflow.domains.len() - i,
        {
            assert(ds[i as int] == (self.workflow.domains@[i as int].0@, self.workflow.domains@[i as int].1));
            if str::eq(self.workflow.domains[i].0.as_str(), domain) {
                let o = self.workflow.domains[i].1;
                return DomainTimeouts {
                    analyzer: match o.analyzer_timeout_secs {
                        Some(x) => x,
                        None => defaults.analyzer_timeout_secs,
                    },
                    worker: match o.worker_timeout_secs {
                        Some(x) => x,
                        None => defaults.worker_timeout_secs,
                    },
                    synthesizer: match o.synthesizer_timeout_secs {
                        Some(x) => x,
                        None => defaults.synthesizer_timeout_secs,
                    },
                };
            }
            i = i + 1;
        }
        DomainTimeouts {
            analyzer: defaults.analyzer_timeout_secs,
            worker: defaults.worker_timeout_secs,
            synthesizer: defaults.synthesizer_timeout_secs,
        }
    }

    /// The timeouts that hold for a host, and the global ones where no host
    /// is given.
    pub fn effective_timeouts_for_domain(&self, domain: Option<&str>) -> (r: WorkflowTimeouts)
        ensures
            r == match domain {
                Some(d) => {
                    let t = effective_timeouts(
                        self.workflow.timeouts,
                        domain_views(self.workflow.domains@),
                        d@,
                    );
                    WorkflowTimeouts {
                        analyzer_timeout_secs: t.analyzer,
                        worker_timeout_secs: t.worker,
                        synthesizer_timeout_secs: t.synthesizer,
                    }
                },
                None => self.workflow.timeouts,
            },
    {
        match domain {
            Some(d) => {
                let t = self.get_domain_timeouts(d);
                WorkflowTimeouts {
                    analyzer_timeout_secs: t.analyzer,
                    worker_timeout_secs: t.worker,
                    synthesizer_timeout_secs: t.synthesizer,
                }
            },
            None => self.workflow.timeouts,
        }
    }

    /// The timeouts that hold for the host of a URL.
    pub fn timeouts_for_url(&self, url: &str) -> (r: DomainTimeouts)
        ensures
            r == effective_timeouts(
                self.workflow.timeouts,
                domain_views(self.workflow.domains@),
                url_host(url@),
            ),
    {
        let host = host_of_url(url);
        self.get_domain_timeouts(host.as_str())
    }

    /// Gives each global timeout that is zero its default: 30 seconds for
    /// the analyzer, 60 for workers and for the synthesizer.
    pub fn apply_defaults(&mut self)
        ensures
            final(self).workflow.timeouts == defaulted(old(self).workflow.timeouts),
            final(self).server == old(self).server,
            final(self).model == old(self).model,
            final(self).workflow_integration == old(self).workflow_integration,
            final(self).workflow.domains == old(self).workflow.domains,
    {
        if self.workflow.timeouts.analyzer_timeout_secs == 0 {
            self.workflow.timeouts.analyzer_timeout_secs = 30;
        }
        if self.workflow.timeouts.worker_timeout_secs == 0 {
            self.workflow.timeouts.worker_timeout_secs = 60;
        }
        if self.workflow.timeouts.synthesizer_timeout_secs == 0 {
            self.workflow.timeouts.synthesizer_timeout_secs = 60;
        }
    }

    /// Sets the overrides of a host, in place of those it had.
    pub fn set_domain(&mut self, host: String, overrides: DomainOverrides)
        requires
            old(self).well_formed(),
        ensures
            final(self).well_formed(),
            find_domain(domain_views(final(self).workflow.domains@), host@, 0) == Some(overrides),
            final(self).workflow.timeouts == old(self).workflow.timeouts,
            final(self).model == old(self).model,
    {
        let ghost before = self.workflow.domains@;
        let mut kept: Vec<(String, DomainOverrides)> = Vec::new();
        let mut i: usize = 0;
        while i < self.workflow.domains.len()
            invariant
                i <= self.workflow.domains.len(),
                self.workflow.domains@ == before,
                self.workflow.timeouts == old(self).workflow.timeouts,
                self.model == old(self).model,
                forall|a: int, b: int|
                    0 <= a < b < before.len() ==> (#[trigger] before[a]).0@ != (
                    #[trigger] before[b]).0@,
                forall|a: int| 0 <= a < kept@.len() ==> (#[trigger] kept@[a]).0@ != host@,
                forall|a: int|
                    0 <= a < kept@.len() ==> exists|b: int|
                        0 <= b < i && before[b].0@ == (#[trigger] kept@[a]).0@,
                forall|a: int, b: int|
                    0 <= a < b < kept@.len() ==> (#[trigger] kept@[a]).0@ != (
                    #[trigger] kept@[b]).0@,
            decreases self.workflow.domains.len() - i,
        {
            if !str::eq(self.workflow.domains[i].0.as_str(), host.as_str()) {
                let entry = (self.workflow.domains[i].0.clone(), self.workflow.domains[i].1);
                proof {
                    assert forall|a: int| 0 <= a < kept@.len() implies (#[trigger] kept@[a]).0@
                        != entry.0@ by {
                        let b = choose|b: int| 0 <= b < i && before[b].0@ == kept@[a].0@;
                        assert(before[b].0@ != before[i as int].0@);
                    }
                }
                kept.push(entry);
                assert(before[i as int].0@ == kept@[kept@.len() - 1].0@);
            }
            i = i + 1;
        }
        kept.push((host, overrides));
        proof {
            let ds = domain_views(kept@);
            let n = (kept@.len() - 1) as nat;
            assert(ds[n as int] == (host@, overrides));
            lemma_find_domain_last(ds, host@, 0);
        }
        self.workflow.domains = kept;
    }
}

/// Where only the last entry names the host, it is the one that is found.
pub proof fn lemma_find_domain_last(ds: Seq<(Seq<char>, DomainOverrides)>, host: Seq<char>, i: nat)
    requires
        ds.len() > 0,
        i < ds.len(),
        ds[ds.len() - 1].0 == host,
        forall|a: int| 0 <= a < ds.len() - 1 ==> (#[trigger] ds[a]).0 != host,
    ensures
        find_domain(ds, host, i) == Some(ds[ds.len() - 1].1),
    decreases ds.len() - i,
{
    if i < ds.len() - 1 {
        lemma_find_domain_last(ds, host, i + 1);
    }
}

/// The timeouts with each zero replaced by its default.
pub open spec fn defaulted(t: WorkflowTimeouts) -> WorkflowTimeouts {
    WorkflowTimeouts {
        analyzer_timeout_secs: if t.analyzer_timeout_secs == 0 {
            30
        } else {
            t.analyzer_timeout_secs
        },
        worker_timeout_secs: if t.worker_timeout_secs == 0 {
            60
        } else {
            t.worker_timeout_secs
        },
        synthesizer_timeout_secs: if t.synthesizer_timeout_secs == 0 {
            60
        } else {
            t.synthesizer_timeout_secs
        },
    }
}

/// Applying the defaults twice is applying them once.
pub proof fn law_defaults_idempotent(t: WorkflowTimeouts)
    ensures
        defaulted(defaulted(t)) == defaulted(t),
{
}


pub open spec fn has_model(ms: Seq<ModelView>, name: Seq<char>) -> bool {
    find_model(ms, name, 0) is Some
}

/// The entry for one reference to a model that is not defined.
pub open spec fn missing_entry(place: Seq<char>, name: Seq<char>) -> Seq<char> {
    place + " '"@ + name + "'"@
}

pub open spec fn missing_target(
    ms: Seq<ModelView>,
    prefix: Seq<char>,
    role: Seq<char>,
    name: Seq<char>,
) -> Seq<Seq<char>> {
    if has_model(ms, name) {
        Seq::empty()
    } else {
        seq![missing_entry(prefix + role, name)]
    }
}

pub open spec fn missing_optional(
    ms: Seq<ModelView>,
    prefix: Seq<char>,
    role: Seq<char>,
    t: Option<TargetView>,
) -> Seq<Seq<char>> {
    match t {
        Some(x) => missing_target(ms, prefix, role, x.model),
        None => Seq::empty(),
    }
}

/// How a worker is named by its place: `worker[`, its index, `]`.
pub open spec fn worker_tag(i: nat) -> Seq<char> {
    "worker["@ + decimal(i) + "]"@
}

/// The references of a plan to models that are not defined, each with its
/// place: the analyzer, the workers in their order, the selector, the
/// synthesizer; the places of a nested plan begin with the place of the
/// worker that holds it and a point.
pub open spec fn missing_in_plan(ms: Seq<ModelView>, p: PlanView, prefix: Seq<char>) -> Seq<
    Seq<char>,
>
    decreases p, 0nat,
{
    missing_target(ms, prefix, "analyzer"@, p.analyzer.model) + missing_in_workers(
        ms,
        p.workers,
        0,
        prefix,
    ) + missing_optional(ms, prefix, "selector"@, p.selector) + missing_optional(
        ms,
        prefix,
        "synthesizer"@,
        p.synthesizer,
    )
}

pub open spec fn missing_in_workers(
    ms: Seq<ModelView>,
    ws: Seq<WorkerView>,
    i: nat,
    prefix: Seq<char>,
) -> Seq<Seq<char>>
    decreases ws, ws.len() - i,
{
    if i >= ws.len() {
        Seq::empty()
    } else {
        (match ws[i as int] {
            WorkerView::Model(t) => missing_target(ms, prefix, worker_tag(i), t.model),
            WorkerView::Workflow(q) => missing_in_plan(ms, q, prefix + worker_tag(i) + "."@),
        }) + missing_in_workers(ms, ws, i + 1, prefix)
    }
}

/// The message that lists the references to models that are not defined.
pub open spec fn validation_text(missing: Seq<Seq<char>>) -> Seq<char> {
    "Workflow configuration references undefined model(s): "@ + joined(
        missing,
        missing.len(),
        ", "@,
    )
}

fn push_missing(models: &Config, prefix: &str, role: &str, name: &str, out: &mut Vec<String>)
    ensures
        string_views(final(out)@) == string_views(old(out)@) + missing_target(
            model_views(models.model@),
            prefix@,
            role@,
            name@,
        ),
{
    let ghost before = string_views(out@);
    if models.get_model(name).is_none() {
        let mut text: Vec<char> = Vec::new();
        push_str(&mut text, prefix);
        push_str(&mut text, role);
        push_str(&mut text, " '");
        push_str(&mut text, name);
        push_str(&mut text, "'");
        assert(text@ =~= missing_entry(prefix@ + role@, name@));
        out.push(string_of(&text));
        assert(string_views(out@) =~= before + seq![missing_entry(prefix@ + role@, name@)]);
    } else {
        assert(string_views(out@) =~= before + Seq::<Seq<char>>::empty());
    }
}

fn push_missing_optional(
    models: &Config,
    prefix: &str,
    role: &str,
    t: &Option<ModelTarget>,
    out: &mut Vec<String>,
)
    ensures
        string_views(final(out)@) == string_views(old(out)@) + missing_optional(
            model_views(models.model@),
            prefix@,
            role@,
            crate::plan::target_option_view(*t),
        ),
{
    match t {
        Some(x) => push_missing(models, prefix, role, x.model.as_str(), out),
        None => {
            assert(string_views(out@) =~= string_views(old(out)@) + Seq::<Seq<char>>::empty());
        },
    }
}

fn tag_of(i: usize) -> (s: String)
    ensures
        s@ == worker_tag(i as nat),
{
    let mut text: Vec<char> = Vec::new();
    push_str(&mut text, "worker[");
    push_decimal(&mut text, i as u64);
    push_str(&mut text, "]");
    assert(text@ =~= worker_tag(i as nat));
    string_of(&text)
}

#[verifier::loop_isolation(false)]
fn collect_missing(models: &Config, plan: &WorkflowPlan, prefix: &str, out: &mut Vec<String>)
    ensures
        string_views(final(out)@) == string_views(old(out)@) + missing_in_plan(
            model_views(models.model@),
            plan@,
            prefix@,
        ),
    decreases plan,
{
    proof {
        lemma_plan_view(*plan);
    }
    let ghost ms = model_views(models.model@);
    let ghost start = string_views(out@);
    push_missing(models, prefix, "analyzer", plan.analyzer.model.as_str(), out);
    let ghost after_analyzer = string_views(out@);
    let ghost ws = plan@.workers;
    let mut i: usize = 0;
    assert(string_views(out@) + missing_in_workers(ms, ws, 0, prefix@) =~= after_analyzer
        + missing_in_workers(ms, ws, 0, prefix@));
    while i < plan.workers.len()
        invariant
            i <= plan.workers.len(),
            string_views(out@) + missing_in_workers(ms, ws, i as nat, prefix@) == after_analyzer
                + missing_in_workers(ms, ws, 0, prefix@),
        decreases plan.workers.len() - i,
    {
        assert(ws[i as int] == plan.workers@[i as int]@);
        let ghost before = string_views(out@);
        let tag = tag_of(i);
        match &plan.workers[i] {
            WorkflowWorker::Model(t) => {
                push_missing(models, prefix, tag.as_str(), t.model.as_str(), out);
            },
            WorkflowWorker::Workflow(q) => {
                proof {
                    assert(decreases_to!(plan => plan.workers));
                    assert(decreases_to!(plan.workers => plan.workers@));
                    assert(decreases_to!(plan.workers@ => plan.workers@[i as int]));
                    assert(decreases_to!(plan.workers@[i as int] => plan.workers@[i as int]->Workflow_0));
                }
                let mut nested: Vec<char> = Vec::new();
                push_str(&mut nested, prefix);
                push_str(&mut nested, tag.as_str());
                push_str(&mut nested, ".");
                assert(nested@ =~= prefix@ + worker_tag(i as nat) + "."@);
                let nested_prefix = string_of(&nested);
                collect_missing(models, q, nested_prefix.as_str(), out);
            },
        }
        assert(string_views(out@) + missing_in_workers(ms, ws, (i + 1) as nat, prefix@) =~= before
            + missing_in_workers(ms, ws, i as nat, prefix@));
        i = i + 1;
    }
    assert(string_views(out@) + missing_in_workers(ms, ws, ws.len(), prefix@) =~= string_views(
        out@,
    ));
    push_missing_optional(models, prefix, "selector", &plan.selector, out);
    push_missing_optional(models, prefix, "synthesizer", &plan.synthesizer, out);
    assert(string_views(out@) =~= start + missing_in_plan(ms, plan@, prefix@));
}

impl Config {
    /// Checks that every model that the plan refers to is defined.
    pub fn validate_workflow(&self) -> (r: Result<(), AppError>)
        ensures
            match r {
                Ok(()) => missing_in_plan(
                    model_views(self.model@),
                    self.workflow_integration.plan@,
                    Seq::empty(),
                ).len() == 0,
                Err(e) => e@.kind == ErrorKind::WorkflowValidation && missing_in_plan(
                    model_views(self.model@),
                    self.workflow_integration.plan@,
                    Seq::empty(),
                ).len() > 0 && e@.detail == validation_text(
                    missing_in_plan(
                        model_views(self.model@),
                        self.workflow_integration.plan@,
                        Seq::empty(),
                    ),
                ),
            },
    {
        let mut missing: Vec<String> = Vec::new();
        assert(string_views(missing@) =~= Seq::<Seq<char>>::empty());
        let empty = String::new();
        collect_missing(self, &self.workflow_integration.plan, empty.as_str(), &mut missing);
        let ghost expected = missing_in_plan(
            model_views(self.model@),
            self.workflow_integration.plan@,
            Seq::empty(),
        );
        assert(string_views(missing@) =~= expected);
        if missing.len() == 0 {
            Ok(())
        } else {
            let list = join_strings(&missing, ", ");
            let mut text: Vec<char> = Vec::new();
            push_str(&mut text, "Workflow configuration references undefined model(s): ");
            push_str(&mut text, list.as_str());
            Err(AppError::WorkflowValidation(string_of(&text)))
        }
    }
}

/// A plan whose every reference names a defined model passes the check:
/// where the analyzer's model is not defined, the check fails.
pub proof fn law_undefined_analyzer_is_reported(ms: Seq<ModelView>, p: PlanView, prefix: Seq<char>)
    requires
        !has_model(ms, p.analyzer.model),
    ensures
        missing_in_plan(ms, p, prefix).len() > 0,
        missing_in_plan(ms, p, prefix)[0] == missing_entry(prefix + "analyzer"@, p.analyzer.model),
{
}


impl Config {
    /// The configuration that is used where no file is found: the default
    /// address, no models, and a plan that names a model `default` for every
    /// stage and has no workers yet.
    pub fn default_config() -> (r: Result<Config, AppError>)
        ensures
            r is Ok,
            r->Ok_0.server.host@ == "127.0.0.1"@,
            r->Ok_0.server.port == 11435,
            r->Ok_0.model@.len() == 0,
            r->Ok_0.workflow.domains@.len() == 0,
            r->Ok_0.workflow.timeouts == (WorkflowTimeouts {
                analyzer_timeout_secs: 30,
                worker_timeout_secs: 60,
                synthesizer_timeout_secs: 60,
            }),
            r->Ok_0.workflow_integration.nested_worker_depth == 1,
            r->Ok_0.workflow_integration.plan.workers@.len() == 0,
            r->Ok_0.workflow_integration.plan.analyzer.model@ == "default"@,
            r->Ok_0.workflow_integration.plan.selector is Some,
            r->Ok_0.workflow_integration.plan.synthesizer is Some,
    {
        let named = ModelTarget {
            model: "default".to_owned(),
            temperature: None,
            auto_temperature: None,
        };
        Ok(
            Config {
                server: ServerConfig { host: "127.0.0.1".to_owned(), port: 11435 },
                model: Vec::new(),
                workflow_integration: WorkflowIntegrationConfig {
                    nested_worker_depth: 1,
                    plan: WorkflowPlan {
                        analyzer: named.duplicate(),
                        workers: Vec::new(),
                        selector: Some(named.duplicate()),
                        synthesizer: Some(named),
                    },
                },
                workflow: WorkflowConfig {
                    timeouts: WorkflowTimeouts {
                        analyzer_timeout_secs: 30,
                        worker_timeout_secs: 60,
                        synthesizer_timeout_secs: 60,
                    },
                    domains: Vec::new(),
                },
            },
        )
    }
}

} // verus!
