//! Reading the configuration from the text of its file.

use crate::config::{
    defaulted, domain_views, missing_in_plan, model_views, validation_text, Config,
    DomainOverrides, ModelConfig, ModelView, ServerConfig, WorkflowConfig,
    WorkflowIntegrationConfig, WorkflowTimeouts,
};
use crate::error::{AppError, ErrorKind};
use crate::json::{
    encoded_json, field, lemma_array_view, lemma_object_view, member_views, rendered_json,
    text_field, views, Json, JsonValue,
};
use crate::llm::nonempty;
use crate::plan::{
    auto_flag_of_json, deepened_workers, expand_workers, is_plan_shaped, json_of_plan, lemma_plan_view, loaded_plan,
    loaded_plan_text, plan_defect, plan_error_text, plan_result_view, temperature_of_json,
    worker_views, ModelTarget, PlanError, PlanView, TargetView, WorkerView, WorkflowPlan,
    WorkflowWorker,
};
use crate::selector::node_option_view;
use crate::temperature::{decimal_millis, parse_millis, Temperature, MILLIS_LIMIT};
use crate::text::{decimal, push_decimal, push_str, string_of};
use vstd::prelude::*;

verus! {

/// `toml::Value`, the document tree of the `toml` crate.
#[verifier::external_type_specification]
#[verifier::external_body]
pub struct ExTomlValue(toml::Value);

/// The tree that a `toml::Value` holds: a table as an object with its
/// members in the order in which the table walks them, an integer and a
/// float as the number that their `Display` prints, a date as the string
/// that its `Display` prints.
pub uninterp spec fn toml_tree(v: toml::Value) -> JsonValue;

/// The tree that `toml` reads from a text, or the message of its error.
pub uninterp spec fn parsed_toml(text: Seq<char>) -> Result<JsonValue, Seq<char>>;

pub open spec fn toml_result_view(r: Result<toml::Value, String>) -> Result<JsonValue, Seq<char>> {
    match r {
        Ok(v) => Ok(toml_tree(v)),
        Err(m) => Err(m@),
    }
}

/// `toml::from_str::<toml::Value>`: reads one TOML document from the
/// text; its error is kept as the message that the error's `Display`
/// prints. The result is the named reading of the text.
#[verifier::external_body]
fn toml_from_str(text: &str) -> (r: Result<toml::Value, String>)
    ensures
        toml_result_view(r) == parsed_toml(text@),
{
    toml::from_str::<toml::Value>(text).map_err(|e| e.to_string())
}

/// Copies a `toml::Value` into a [`Json`], variant by variant.
#[verifier::external_body]
fn json_of_toml(v: &toml::Value) -> (j: Json)
    ensures
        j@ == toml_tree(*v),
{
    match v {
        toml::Value::String(s) => Json::Text(s.clone()),
        toml::Value::Integer(i) => Json::Number(i.to_string()),
        toml::Value::Float(f) => Json::Number(f.to_string()),
        toml::Value::Boolean(b) => Json::Bool(*b),
        toml::Value::Datetime(d) => Json::Text(d.to_string()),
        toml::Value::Array(a) => Json::Array(a.iter().map(json_of_toml).collect()),
        toml::Value::Table(t) => Json::Object(
            t.iter().map(|(k, x)| (k.clone(), json_of_toml(x))).collect(),
        ),
    }
}

pub open spec fn tree_result_view(r: Result<Json, String>) -> Result<JsonValue, Seq<char>> {
    match r {
        Ok(j) => Ok(j@),
        Err(m) => Err(m@),
    }
}

/// Reads a TOML text into a tree.
pub fn parse_toml(text: &str) -> (r: Result<Json, String>)
    ensures
        tree_result_view(r) == parsed_toml(text@),
{
    match toml_from_str(text) {
        Ok(v) => Ok(json_of_toml(&v)),
        Err(m) => Err(m),
    }
}

/// The whole number that a node writes: a number without fraction, from 0
/// up to 4294967.
pub open spec fn whole_of(v: Option<JsonValue>) -> Option<u64> {
    match v {
        Some(JsonValue::Number(t)) => match decimal_millis(t) {
            Some(m) => if 0 <= m < MILLIS_LIMIT && m % 1000 == 0 {
                Some((m / 1000) as u64)
            } else {
                None
            },
            None => None,
        },
        _ => None,
    }
}

fn whole(v: Option<&Json>) -> (r: Option<u64>)
    ensures
        r == whole_of(node_option_view(v)),
        r matches Some(x) ==> x <= 4_294_967,
{
    match v {
        Some(Json::Number(t)) => match parse_millis(t.as_str()) {
            Some(m) => if 0 <= m && m < MILLIS_LIMIT && m % 1000 == 0 {
                Some((m / 1000) as u64)
            } else {
                None
            },
            None => None,
        },
        _ => None,
    }
}

/// What the file says, as the checks read it.
pub struct ConfigView {
    pub host: Seq<char>,
    pub port: u16,
    pub models: Seq<ModelView>,
    pub depth: usize,
    pub plan: PlanView,
    pub timeouts: WorkflowTimeouts,
    pub domains: Seq<(Seq<char>, DomainOverrides)>,
}

impl View for Config {
    type V = ConfigView;

    open spec fn view(&self) -> ConfigView {
        ConfigView {
            host: self.server.host@,
            port: self.server.port,
            models: model_views(self.model@),
            depth: self.workflow_integration.nested_worker_depth,
            plan: self.workflow_integration.plan@,
            timeouts: self.workflow.timeouts,
            domains: domain_views(self.workflow.domains@),
        }
    }
}

pub type Failure = (ErrorKind, Seq<char>);

pub open spec fn config_failure(message: Seq<char>) -> Failure {
    (ErrorKind::Config, message)
}

/// The address of the server: the `host` and the `port` of `[server]`.
pub open spec fn server_of(t: JsonValue) -> Result<(Seq<char>, u16), Failure> {
    match field(t, "server"@) {
        Some(s) => match (text_field(s, "host"@), whole_of(field(s, "port"@))) {
            (Some(h), Some(p)) => if p <= 65535 {
                Ok((h, p as u16))
            } else {
                Err(config_failure("`server.port` must be a port number"@))
            },
            _ => Err(config_failure("`server` needs `host` and `port`"@)),
        },
        None => Err(config_failure("missing `server`"@)),
    }
}

/// One model definition: `name`, `api_base` and `api_key`, and the hints
/// where they are there.
pub open spec fn model_of(j: JsonValue) -> Result<ModelView, Failure> {
    match (text_field(j, "name"@), text_field(j, "api_base"@), text_field(j, "api_key"@)) {
        (Some(name), Some(api_base), Some(api_key)) => match temperature_of_json(j) {
            Err(e) => Err(config_failure(plan_error_text(e))),
            Ok(temperature) => match auto_flag_of_json(j) {
                Err(e) => Err(config_failure(plan_error_text(e))),
                Ok(auto_temperature) => Ok(
                    ModelView { name, api_base, api_key, auto_temperature, temperature },
                ),
            },
        },
        _ => Err(config_failure("`model` needs `name`, `api_base` and `api_key`"@)),
    }
}

pub open spec fn prepend<T>(acc: Seq<T>, r: Result<Seq<T>, Failure>) -> Result<Seq<T>, Failure> {
    match r {
        Ok(rest) => Ok(acc + rest),
        Err(e) => Err(e),
    }
}

/// The model definitions from `i` on, or the failure of the first of them
/// that has one.
pub open spec fn models_from(items: Seq<JsonValue>, i: nat) -> Result<Seq<ModelView>, Failure>
    decreases items.len() - i,
{
    if i >= items.len() {
        Ok(Seq::empty())
    } else {
        match model_of(items[i as int]) {
            Err(e) => Err(e),
            Ok(m) => prepend(seq![m], models_from(items, i + 1)),
        }
    }
}

/// The models of the file: a list of tables, or one table, under `model`.
pub open spec fn models_of(t: JsonValue) -> Result<Seq<ModelView>, Failure> {
    match field(t, "model"@) {
        Some(JsonValue::Array(items)) => models_from(items, 0),
        Some(JsonValue::Object(members)) => prepend(
            Seq::empty(),
            match model_of(JsonValue::Object(members)) {
                Ok(m) => Ok(seq![m]),
                Err(e) => Err(e),
            },
        ),
        Some(_) => Err(config_failure("`model` must be a table or a list of tables"@)),
        None => Ok(Seq::empty()),
    }
}

/// A timeout that may be left out.
pub open spec fn optional_seconds(j: JsonValue, key: Seq<char>) -> Result<Option<u64>, Failure> {
    match field(j, key) {
        None => Ok(None),
        Some(v) => match whole_of(Some(v)) {
            Some(x) => Ok(Some(x)),
            None => Err(config_failure("a timeout must be a whole number of seconds"@)),
        },
    }
}

pub open spec fn seconds_or_zero(v: Option<u64>) -> u64 {
    match v {
        Some(x) => x,
        None => 0,
    }
}

/// The overrides that a table gives.
pub open spec fn overrides_of(j: JsonValue) -> Result<DomainOverrides, Failure> {
    match optional_seconds(j, "analyzer_timeout_secs"@) {
        Err(e) => Err(e),
        Ok(a) => match optional_seconds(j, "worker_timeout_secs"@) {
            Err(e) => Err(e),
            Ok(w) => match optional_seconds(j, "synthesizer_timeout_secs"@) {
                Err(e) => Err(e),
                Ok(s) => Ok(
                    DomainOverrides {
                        analyzer_timeout_secs: a,
                        worker_timeout_secs: w,
                        synthesizer_timeout_secs: s,
                    },
                ),
            },
        },
    }
}

/// The global timeouts: those of `workflow.timeouts`, each zero or left
/// out replaced by its default.
pub open spec fn timeouts_of(t: JsonValue) -> Result<WorkflowTimeouts, Failure> {
    match field(t, "workflow"@) {
        None => Err(config_failure("missing `workflow`"@)),
        Some(w) => match field(w, "timeouts"@) {
            None => Err(config_failure("missing `workflow.timeouts`"@)),
            Some(j) => match overrides_of(j) {
                Err(e) => Err(e),
                Ok(o) => Ok(
                    defaulted(
                        WorkflowTimeouts {
                            analyzer_timeout_secs: seconds_or_zero(o.analyzer_timeout_secs),
                            worker_timeout_secs: seconds_or_zero(o.worker_timeout_secs),
                            synthesizer_timeout_secs: seconds_or_zero(o.synthesizer_timeout_secs),
                        },
                    ),
                ),
            },
        },
    }
}

/// The overrides of the hosts from `i` on, or the first failure among them.
pub open spec fn domains_from(members: Seq<(Seq<char>, JsonValue)>, i: nat) -> Result<
    Seq<(Seq<char>, DomainOverrides)>,
    Failure,
>
    decreases members.len() - i,
{
    if i >= members.len() {
        Ok(Seq::empty())
    } else {
        match overrides_of(members[i as int].1) {
            Err(e) => Err(e),
            Ok(o) => prepend(seq![(members[i as int].0, o)], domains_from(members, i + 1)),
        }
    }
}

/// The overrides by host: the tables of `workflow.domains`.
pub open spec fn domains_of(t: JsonValue) -> Result<Seq<(Seq<char>, DomainOverrides)>, Failure> {
    match field(t, "workflow"@) {
        Some(w) => match field(w, "domains"@) {
            Some(JsonValue::Object(members)) => domains_from(members, 0),
            Some(_) => Err(config_failure("`workflow.domains` must be a table"@)),
            None => Ok(Seq::empty()),
        },
        None => Ok(Seq::empty()),
    }
}

/// How deep the workers nest: `nested_worker_depth`, 1 where it is left
/// out, and never 0.
pub open spec fn depth_of(wi: JsonValue) -> Result<usize, Failure> {
    match field(wi, "nested_worker_depth"@) {
        None => Ok(1),
        Some(v) => match whole_of(Some(v)) {
            Some(d) => if d == 0 {
                Err((ErrorKind::WorkflowValidation, plan_error_text(PlanError::ZeroDepth)))
            } else {
                Ok(d as usize)
            },
            None => Err(
                (ErrorKind::WorkflowValidation, "nested_worker_depth must be a whole number"@),
            ),
        },
    }
}

/// Whether the table still holds the plan in its old flat form.
pub open spec fn has_legacy(wi: JsonValue) -> bool {
    field(wi, "analyzer_model"@) is Some || field(wi, "worker_models"@) is Some || field(
        wi,
        "synthesizer_model"@,
    ) is Some
}

pub open spec fn bare_target(name: Seq<char>) -> TargetView {
    TargetView { model: name, temperature: None, auto_temperature: None }
}

/// One model worker for each string from `i` on.
pub open spec fn legacy_workers(items: Seq<JsonValue>, i: nat) -> Seq<WorkerView>
    decreases items.len() - i,
{
    if i >= items.len() {
        Seq::empty()
    } else {
        match items[i as int] {
            JsonValue::Text(t) => seq![WorkerView::Model(bare_target(t))] + legacy_workers(
                items,
                i + 1,
            ),
            _ => legacy_workers(items, i + 1),
        }
    }
}

/// The plan that the old flat form describes: the analyzer, one worker for
/// each model, and the synthesizer.
pub open spec fn legacy_plan(wi: JsonValue) -> Result<PlanView, PlanError> {
    match text_field(wi, "analyzer_model"@) {
        None => Err(PlanError::MissingAnalyzer),
        Some(a) => match field(wi, "worker_models"@) {
            Some(JsonValue::Array(items)) => {
                let plan = PlanView {
                    analyzer: bare_target(a),
                    workers: legacy_workers(items, 0),
                    synthesizer: match text_field(wi, "synthesizer_model"@) {
                        Some(s) => Some(bare_target(s)),
                        None => None,
                    },
                    selector: None,
                };
                match plan_defect(plan) {
                    Some(e) => Err(e),
                    None => Ok(plan),
                }
            },
            _ => Err(PlanError::MissingWorkers),
        },
    }
}

/// The plan of the file: the JSON text under `json` where there is one;
/// else the table itself where it is shaped like a plan; else the old flat
/// form.
pub open spec fn plan_of_integration(wi: JsonValue) -> Result<PlanView, PlanError> {
    match nonempty(text_field(wi, "json"@)) {
        Some(text) => loaded_plan_text(text),
        None => if is_plan_shaped(wi) || !has_legacy(wi) {
            loaded_plan(wi)
        } else {
            legacy_plan(wi)
        },
    }
}

/// The depth and the plan as the file gives them.
pub open spec fn declared_integration(t: JsonValue) -> Result<(usize, PlanView), Failure> {
    match field(t, "workflow-integration"@) {
        None => Err(config_failure("missing `workflow-integration`"@)),
        Some(wi) => match depth_of(wi) {
            Err(e) => Err(e),
            Ok(d) => match plan_of_integration(wi) {
                Err(e) => Err((ErrorKind::WorkflowValidation, plan_error_text(e))),
                Ok(p) => Ok((d, p)),
            },
        },
    }
}

/// A plan with its workers brought down to `depth` levels.
pub open spec fn deepened_plan(p: PlanView, depth: usize) -> PlanView {
    PlanView {
        analyzer: p.analyzer,
        workers: deepened_workers(p.workers, depth as nat, p),
        synthesizer: p.synthesizer,
        selector: p.selector,
    }
}

/// The depth of the file, and its plan brought down to that depth.
pub open spec fn integration_of(t: JsonValue) -> Result<(usize, PlanView), Failure> {
    match declared_integration(t) {
        Err(e) => Err(e),
        Ok((d, p)) => Ok((d, deepened_plan(p, d))),
    }
}

/// The configuration that a tree describes, checked: every part must be
/// readable, the plan complete, and every model that it names defined.
pub open spec fn config_of_tree(t: JsonValue) -> Result<ConfigView, Failure> {
    match server_of(t) {
        Err(e) => Err(e),
        Ok(server) => match models_of(t) {
            Err(e) => Err(e),
            Ok(models) => match integration_of(t) {
                Err(e) => Err(e),
                Ok(integration) => match timeouts_of(t) {
                    Err(e) => Err(e),
                    Ok(timeouts) => match domains_of(t) {
                        Err(e) => Err(e),
                        Ok(domains) => if missing_in_plan(models, integration.1, Seq::empty()).len()
                            > 0 {
                            Err(
                                (
                                    ErrorKind::WorkflowValidation,
                                    validation_text(
                                        missing_in_plan(models, integration.1, Seq::empty()),
                                    ),
                                ),
                            )
                        } else {
                            Ok(
                                ConfigView {
                                    host: server.0,
                                    port: server.1,
                                    models,
                                    depth: integration.0,
                                    plan: integration.1,
                                    timeouts,
                                    domains,
                                },
                            )
                        },
                    },
                },
            },
        },
    }
}

pub open spec fn failure_of(e: AppError) -> Failure {
    (e@.kind, e@.detail)
}

fn config_error(message: &str) -> (e: AppError)
    ensures
        failure_of(e) == config_failure(message@),
{
    AppError::Config(message.to_owned())
}

pub open spec fn server_result_view(r: Result<ServerConfig, AppError>) -> Result<
    (Seq<char>, u16),
    Failure,
> {
    match r {
        Ok(s) => Ok((s.host@, s.port)),
        Err(e) => Err(failure_of(e)),
    }
}

fn read_server(t: &Json) -> (r: Result<ServerConfig, AppError>)
    ensures
        server_result_view(r) == server_of(t@),
{
    match t.get("server") {
        Some(s) => match (s.get_text("host"), whole(s.get("port"))) {
            (Some(h), Some(p)) => if p <= 65535 {
                Ok(ServerConfig { host: h.clone(), port: p as u16 })
            } else {
                Err(config_error("`server.port` must be a port number"))
            },
            _ => Err(config_error("`server` needs `host` and `port`")),
        },
        None => Err(config_error("missing `server`")),
    }
}

pub open spec fn model_result_view(r: Result<ModelConfig, AppError>) -> Result<ModelView, Failure> {
    match r {
        Ok(m) => Ok(m@),
        Err(e) => Err(failure_of(e)),
    }
}

fn read_hint_temperature(j: &Json) -> (r: Result<Option<Temperature>, PlanError>)
    ensures
        r == temperature_of_json(j@),
{
    match j.get("temperature") {
        None => Ok(None),
        Some(Json::Null) => Ok(None),
        Some(Json::Number(t)) => match parse_millis(t.as_str()) {
            Some(m) => if 0 <= m && m < MILLIS_LIMIT {
                Ok(Some(Temperature { millis: m as u32 }))
            } else {
                Err(PlanError::InvalidTemperature)
            },
            None => Err(PlanError::InvalidTemperature),
        },
        Some(_) => Err(PlanError::InvalidTemperature),
    }
}

fn read_hint_flag(j: &Json) -> (r: Result<Option<bool>, PlanError>)
    ensures
        r == auto_flag_of_json(j@),
{
    match j.get("auto_temperature") {
        None => Ok(None),
        Some(Json::Null) => Ok(None),
        Some(Json::Bool(b)) => Ok(Some(*b)),
        Some(_) => Err(PlanError::InvalidAutoFlag),
    }
}

fn read_model(j: &Json) -> (r: Result<ModelConfig, AppError>)
    ensures
        model_result_view(r) == model_of(j@),
{
    match (j.get_text("name"), j.get_text("api_base"), j.get_text("api_key")) {
        (Some(name), Some(api_base), Some(api_key)) => {
            let temperature = match read_hint_temperature(j) {
                Err(e) => {
                    return Err(AppError::Config(e.message()));
                },
                Ok(t) => t,
            };
            let auto_temperature = match read_hint_flag(j) {
                Err(e) => {
                    return Err(AppError::Config(e.message()));
                },
                Ok(f) => f,
            };
            Ok(
                ModelConfig {
                    name: name.clone(),
                    api_base: api_base.clone(),
                    api_key: api_key.clone(),
                    auto_temperature,
                    temperature,
                },
            )
        },
        _ => Err(config_error("`model` needs `name`, `api_base` and `api_key`")),
    }
}

pub open spec fn models_result_view(r: Result<Vec<ModelConfig>, AppError>) -> Result<
    Seq<ModelView>,
    Failure,
> {
    match r {
        Ok(ms) => Ok(model_views(ms@)),
        Err(e) => Err(failure_of(e)),
    }
}

#[verifier::loop_isolation(false)]
fn read_models(t: &Json) -> (r: Result<Vec<ModelConfig>, AppError>)
    ensures
        models_result_view(r) == models_of(t@),
{
    let mut out: Vec<ModelConfig> = Vec::new();
    match t.get("model") {
        Some(Json::Array(items)) => {
            proof {
                lemma_array_view(*items);
            }
            let ghost iv = views(items@);
            let mut i: usize = 0;
            assert(prepend(model_views(out@), models_from(iv, 0)) == models_from(iv, 0)) by {
                match models_from(iv, 0) {
                    Ok(rest) => {
                        assert(model_views(out@) + rest =~= rest);
                    },
                    Err(_) => {},
                }
            }
            while i < items.len()
                invariant
                    i <= items.len(),
                    iv == views(items@),
                    prepend(model_views(out@), models_from(iv, i as nat)) == models_from(iv, 0),
                decreases items.len() - i,
            {
                assert(iv[i as int] == items@[i as int]@);
                let ghost before = model_views(out@);
                match read_model(&items[i]) {
                    Err(e) => {
                        return Err(e);
                    },
                    Ok(m) => {
                        out.push(m);
                        assert(model_views(out@) =~= before + seq![model_of(iv[i as int])->Ok_0]);
                        proof {
                            match models_from(iv, (i + 1) as nat) {
                                Ok(rest) => {
                                    assert(model_views(out@) + rest =~= before + (seq![
                                        model_of(iv[i as int])->Ok_0,
                                    ] + rest));
                                },
                                Err(_) => {},
                            }
                        }
                    },
                }
                i = i + 1;
            }
            assert(model_views(out@) + Seq::<ModelView>::empty() =~= model_views(out@));
            Ok(out)
        },
        Some(Json::Object(members)) => {
            let ghost mv = model_views(out@);
            assert(mv =~= Seq::<ModelView>::empty());
            match read_model(t.get("model").unwrap()) {
                Err(e) => Err(e),
                Ok(m) => {
                    out.push(m);
                    assert(model_views(out@) =~= Seq::<ModelView>::empty() + seq![
                        model_of(field(t@, "model"@)->0)->Ok_0,
                    ]);
                    Ok(out)
                },
            }
        },
        Some(_) => Err(config_error("`model` must be a table or a list of tables")),
        None => {
            assert(model_views(out@) =~= Seq::<ModelView>::empty());
            Ok(out)
        },
    }
}

pub open spec fn seconds_result_view(r: Result<Option<u64>, AppError>) -> Result<
    Option<u64>,
    Failure,
> {
    match r {
        Ok(v) => Ok(v),
        Err(e) => Err(failure_of(e)),
    }
}

fn read_seconds(j: &Json, key: &str) -> (r: Result<Option<u64>, AppError>)
    ensures
        seconds_result_view(r) == optional_seconds(j@, key@),
{
    match j.get(key) {
        None => Ok(None),
        Some(v) => match whole(Some(v)) {
            Some(x) => Ok(Some(x)),
            None => Err(config_error("a timeout must be a whole number of seconds")),
        },
    }
}

pub open spec fn overrides_result_view(r: Result<DomainOverrides, AppError>) -> Result<
    DomainOverrides,
    Failure,
> {
    match r {
        Ok(v) => Ok(v),
        Err(e) => Err(failure_of(e)),
    }
}

fn read_overrides(j: &Json) -> (r: Result<DomainOverrides, AppError>)
    ensures
        overrides_result_view(r) == overrides_of(j@),
{
    let a = match read_seconds(j, "analyzer_timeout_secs") {
        Err(e) => {
            return Err(e);
        },
        Ok(v) => v,
    };
    let w = match read_seconds(j, "worker_timeout_secs") {
        Err(e) => {
            return Err(e);
        },
        Ok(v) => v,
    };
    let s = match read_seconds(j, "synthesizer_timeout_secs") {
        Err(e) => {
            return Err(e);
        },
        Ok(v) => v,
    };
    Ok(
        DomainOverrides {
            analyzer_timeout_secs: a,
            worker_timeout_secs: w,
            synthesizer_timeout_secs: s,
        },
    )
}

pub open spec fn timeouts_result_view(r: Result<WorkflowTimeouts, AppError>) -> Result<
    WorkflowTimeouts,
    Failure,
> {
    match r {
        Ok(v) => Ok(v),
        Err(e) => Err(failure_of(e)),
    }
}

fn or_zero(v: Option<u64>) -> (r: u64)
    ensures
        r == seconds_or_zero(v),
{
    match v {
        Some(x) => x,
        None => 0,
    }
}

fn read_timeouts(t: &Json) -> (r: Result<WorkflowTimeouts, AppError>)
    ensures
        timeouts_result_view(r) == timeouts_of(t@),
{
    match t.get("workflow") {
        None => Err(config_error("missing `workflow`")),
        Some(w) => match w.get("timeouts") {
            None => Err(config_error("missing `workflow.timeouts`")),
            Some(j) => match read_overrides(j) {
                Err(e) => Err(e),
                Ok(o) => {
                    let a = or_zero(o.analyzer_timeout_secs);
                    let w = or_zero(o.worker_timeout_secs);
                    let s = or_zero(o.synthesizer_timeout_secs);
                    Ok(
                        WorkflowTimeouts {
                            analyzer_timeout_secs: if a == 0 {
                                30
                            } else {
                                a
                            },
                            worker_timeout_secs: if w == 0 {
                                60
                            } else {
                                w
                            },
                            synthesizer_timeout_secs: if s == 0 {
                                60
                            } else {
                                s
                            },
                        },
                    )
                },
            },
        },
    }
}

pub open spec fn domains_result_view(r: Result<Vec<(String, DomainOverrides)>, AppError>) -> Result<
    Seq<(Seq<char>, DomainOverrides)>,
    Failure,
> {
    match r {
        Ok(v) => Ok(domain_views(v@)),
        Err(e) => Err(failure_of(e)),
    }
}

#[verifier::loop_isolation(false)]
fn read_domains(t: &Json) -> (r: Result<Vec<(String, DomainOverrides)>, AppError>)
    ensures
        domains_result_view(r) == domains_of(t@),
{
    let mut out: Vec<(String, DomainOverrides)> = Vec::new();
    assert(domain_views(out@) =~= Seq::<(Seq<char>, DomainOverrides)>::empty());
    let w = match t.get("workflow") {
        Some(w) => w,
        None => {
            return Ok(out);
        },
    };
    match w.get("domains") {
        Some(Json::Object(members)) => {
            proof {
                lemma_object_view(*members);
            }
            let ghost mv = member_views(members@);
            let mut i: usize = 0;
            assert(prepend(domain_views(out@), domains_from(mv, 0)) == domains_from(mv, 0)) by {
                match domains_from(mv, 0) {
                    Ok(rest) => {
                        assert(domain_views(out@) + rest =~= rest);
                    },
                    Err(_) => {},
                }
            }
            while i < members.len()
                invariant
                    i <= members.len(),
                    mv == member_views(members@),
                    prepend(domain_views(out@), domains_from(mv, i as nat)) == domains_from(mv, 0),
                decreases members.len() - i,
            {
                assert(mv[i as int] == (members@[i as int].0@, members@[i as int].1@));
                let ghost before = domain_views(out@);
                match read_overrides(&members[i].1) {
                    Err(e) => {
                        return Err(e);
                    },
                    Ok(o) => {
                        out.push((members[i].0.clone(), o));
                        assert(domain_views(out@) =~= before + seq![(mv[i as int].0, o)]);
                        proof {
                            match domains_from(mv, (i + 1) as nat) {
                                Ok(rest) => {
                                    assert(domain_views(out@) + rest =~= before + (seq![
                                        (mv[i as int].0, o),
                                    ] + rest));
                                },
                                Err(_) => {},
                            }
                        }
                    },
                }
                i = i + 1;
            }
            assert(domain_views(out@) + Seq::<(Seq<char>, DomainOverrides)>::empty()
                =~= domain_views(out@));
            Ok(out)
        },
        Some(_) => Err(config_error("`workflow.domains` must be a table")),
        None => Ok(out),
    }
}

pub open spec fn depth_result_view(r: Result<usize, AppError>) -> Result<usize, Failure> {
    match r {
        Ok(v) => Ok(v),
        Err(e) => Err(failure_of(e)),
    }
}

fn read_depth(wi: &Json) -> (r: Result<usize, AppError>)
    ensures
        depth_result_view(r) == depth_of(wi@),
{
    match wi.get("nested_worker_depth") {
        None => Ok(1),
        Some(v) => match whole(Some(v)) {
            Some(d) => if d == 0 {
                Err(AppError::WorkflowValidation(PlanError::ZeroDepth.message()))
            } else {
                Ok(d as usize)
            },
            None => Err(
                AppError::WorkflowValidation(
                    "nested_worker_depth must be a whole number".to_owned(),
                ),
            ),
        },
    }
}

fn bare(name: &String) -> (t: ModelTarget)
    ensures
        t@ == bare_target(name@),
{
    ModelTarget { model: name.clone(), temperature: None, auto_temperature: None }
}

fn read_legacy_plan(wi: &Json) -> (r: Result<WorkflowPlan, PlanError>)
    ensures
        plan_result_view(r) == legacy_plan(wi@),
{
    let analyzer = match wi.get_text("analyzer_model") {
        None => {
            return Err(PlanError::MissingAnalyzer);
        },
        Some(a) => bare(a),
    };
    let items = match wi.get("worker_models") {
        Some(Json::Array(items)) => items,
        _ => {
            return Err(PlanError::MissingWorkers);
        },
    };
    proof {
        lemma_array_view(*items);
    }
    let ghost iv = views(items@);
    let mut workers: Vec<WorkflowWorker> = Vec::new();
    let mut i: usize = 0;
    assert(worker_views(workers@) + legacy_workers(iv, 0) =~= legacy_workers(iv, 0));
    while i < items.len()
        invariant
            i <= items.len(),
            iv == views(items@),
            worker_views(workers@) + legacy_workers(iv, i as nat) == legacy_workers(iv, 0),
        decreases items.len() - i,
    {
        assert(iv[i as int] == items@[i as int]@);
        let ghost before = worker_views(workers@);
        if let Json::Text(t) = &items[i] {
            workers.push(WorkflowWorker::Model(bare(t)));
            assert(worker_views(workers@) =~= before + seq![WorkerView::Model(bare_target(t@))]);
        }
        assert(worker_views(workers@) + legacy_workers(iv, (i + 1) as nat) =~= before
            + legacy_workers(iv, i as nat));
        i = i + 1;
    }
    assert(worker_views(workers@) + legacy_workers(iv, items@.len() as nat) =~= worker_views(
        workers@,
    ));
    let synthesizer = match wi.get_text("synthesizer_model") {
        Some(s) => Some(bare(s)),
        None => None,
    };
    let plan = WorkflowPlan { analyzer, workers, synthesizer, selector: None };
    proof {
        lemma_plan_view(plan);
    }
    match crate::plan::validate_plan(&plan) {
        Err(e) => Err(e),
        Ok(()) => Ok(plan),
    }
}

fn read_integration_plan(wi: &Json) -> (r: Result<WorkflowPlan, PlanError>)
    ensures
        plan_result_view(r) == plan_of_integration(wi@),
{
    if let Some(text) = wi.get_text("json") {
        if !text.as_str().is_empty() {
            return WorkflowPlan::from_json_str(text.as_str());
        }
    }
    let shaped = wi.get("analyzer").is_some() && wi.get("workers").is_some();
    let legacy = wi.get("analyzer_model").is_some() || wi.get("worker_models").is_some() || wi.get(
        "synthesizer_model",
    ).is_some();
    if shaped || !legacy {
        WorkflowPlan::from_json(wi)
    } else {
        read_legacy_plan(wi)
    }
}

pub open spec fn integration_result_view(r: Result<WorkflowIntegrationConfig, AppError>) -> Result<
    (usize, PlanView),
    Failure,
> {
    match r {
        Ok(v) => Ok((v.nested_worker_depth, v.plan@)),
        Err(e) => Err(failure_of(e)),
    }
}

pub open spec fn declared_result_view(r: Result<(usize, WorkflowPlan), AppError>) -> Result<
    (usize, PlanView),
    Failure,
> {
    match r {
        Ok((d, p)) => Ok((d, p@)),
        Err(e) => Err(failure_of(e)),
    }
}

fn read_declared_integration(t: &Json) -> (r: Result<(usize, WorkflowPlan), AppError>)
    ensures
        declared_result_view(r) == declared_integration(t@),
        r matches Ok((d, _)) ==> d >= 1,
{
    match t.get("workflow-integration") {
        None => Err(config_error("missing `workflow-integration`")),
        Some(wi) => {
            let depth = match read_depth(wi) {
                Err(e) => {
                    return Err(e);
                },
                Ok(d) => d,
            };
            match read_integration_plan(wi) {
                Err(e) => Err(AppError::WorkflowValidation(e.message())),
                Ok(p) => Ok((depth, p)),
            }
        },
    }
}

fn read_integration(t: &Json) -> (r: Result<WorkflowIntegrationConfig, AppError>)
    ensures
        integration_result_view(r) == integration_of(t@),
{
    match read_declared_integration(t) {
        Err(e) => Err(e),
        Ok((depth, p)) => {
            let workers = expand_workers(&p.workers, depth, &p);
            let plan = WorkflowPlan {
                analyzer: p.analyzer,
                workers,
                synthesizer: p.synthesizer,
                selector: p.selector,
            };
            proof {
                lemma_plan_view(plan);
                lemma_plan_view(p);
            }
            Ok(WorkflowIntegrationConfig { nested_worker_depth: depth, plan })
        },
    }
}

pub open spec fn config_result_view(r: Result<Config, AppError>) -> Result<ConfigView, Failure> {
    match r {
        Ok(c) => Ok(c@),
        Err(e) => Err(failure_of(e)),
    }
}

impl Config {
    /// Builds the configuration that a tree describes, and checks it.
    pub fn from_tree(t: &Json) -> (r: Result<Config, AppError>)
        ensures
            config_result_view(r) == config_of_tree(t@),
    {
        let server = match read_server(t) {
            Err(e) => {
                return Err(e);
            },
            Ok(s) => s,
        };
        let model = match read_models(t) {
            Err(e) => {
                return Err(e);
            },
            Ok(m) => m,
        };
        let workflow_integration = match read_integration(t) {
            Err(e) => {
                return Err(e);
            },
            Ok(w) => w,
        };
        let timeouts = match read_timeouts(t) {
            Err(e) => {
                return Err(e);
            },
            Ok(x) => x,
        };
        let domains = match read_domains(t) {
            Err(e) => {
                return Err(e);
            },
            Ok(d) => d,
        };
        let config = Config {
            server,
            model,
            workflow_integration,
            workflow: WorkflowConfig { timeouts, domains },
        };
        match config.validate_workflow() {
            Err(e) => Err(e),
            Ok(()) => Ok(config),
        }
    }

    /// Reads the configuration from the text of its file.
    pub fn from_toml_str(text: &str) -> (r: Result<Config, AppError>)
        ensures
            config_result_view(r) == match parsed_toml(text@) {
                Ok(t) => config_of_tree(t),
                Err(m) => Err::<ConfigView, Failure>((ErrorKind::TomlParse, m)),
            },
    {
        match parse_toml(text) {
            Ok(t) => Config::from_tree(&t),
            Err(m) => Err(AppError::TomlParse(m)),
        }
    }

    /// Whether the file must be written anew: it still holds the plan, or a
    /// part of it, in the old flat form.
    pub fn needs_migration(t: &Json) -> (r: bool)
        ensures
            r == match field(t@, "workflow-integration"@) {
                Some(wi) => has_legacy(wi),
                None => false,
            },
    {
        match t.get("workflow-integration") {
            Some(wi) => wi.get("analyzer_model").is_some() || wi.get("worker_models").is_some()
                || wi.get("synthesizer_model").is_some(),
            None => false,
        }
    }

    /// The table that takes the place of `workflow-integration` when the
    /// file is written anew: the depth, and the plan as the file gives it,
    /// as JSON text.
    pub fn migrated_integration(t: &Json) -> (r: Result<Json, AppError>)
        ensures
            node_result_view(r) == match declared_integration(t@) {
                Ok((d, p)) => Ok::<JsonValue, Failure>(migrated_table(d, p)),
                Err(e) => Err::<JsonValue, Failure>(e),
            },
    {
        match read_declared_integration(t) {
            Err(e) => Err(e),
            Ok((depth, plan)) => {
                let mut members: Vec<(String, Json)> = Vec::new();
                let mut digits: Vec<char> = Vec::new();
                push_decimal(&mut digits, depth as u64);
                assert(digits@ =~= decimal(depth as nat));
                members.push(("nested_worker_depth".to_owned(), Json::Number(string_of(&digits))));
                members.push(("json".to_owned(), Json::Text(plan.to_json_string())));
                proof {
                    lemma_object_view(members);
                    assert(member_views(members@) =~= migrated_table(depth, plan@)->Object_0);
                }
                Ok(Json::Object(members))
            },
        }
    }
}

pub open spec fn node_result_view(r: Result<Json, AppError>) -> Result<JsonValue, Failure> {
    match r {
        Ok(j) => Ok(j@),
        Err(e) => Err(failure_of(e)),
    }
}

/// The table of a file that was written anew.
pub open spec fn migrated_table(depth: usize, plan: PlanView) -> JsonValue {
    JsonValue::Object(
        seq![
            ("nested_worker_depth"@, JsonValue::Number(decimal(depth as nat))),
            ("json"@, JsonValue::Text(rendered_json(encoded_json(json_of_plan(plan))))),
        ],
    )
}

/// A file that was written anew is not written anew again: its table holds
/// nothing of the old flat form.
pub proof fn law_migration_is_idempotent(depth: usize, plan: PlanView)
    ensures
        !has_legacy(migrated_table(depth, plan)),
{
    reveal_strlit("nested_worker_depth");
    reveal_strlit("json");
    reveal_strlit("analyzer_model");
    reveal_strlit("worker_models");
    reveal_strlit("synthesizer_model");
    assert("nested_worker_depth"@.len() == 19 && "json"@.len() == 4);
    assert("analyzer_model"@.len() == 14 && "worker_models"@.len() == 13
        && "synthesizer_model"@.len() == 17);
    let members = migrated_table(depth, plan)->Object_0;
    assert(members.len() == 2);
    lemma_two_members(members, "analyzer_model"@);
    lemma_two_members(members, "worker_models"@);
    lemma_two_members(members, "synthesizer_model"@);
}

proof fn lemma_two_members(members: Seq<(Seq<char>, JsonValue)>, key: Seq<char>)
    requires
        members.len() == 2,
        members[0].0 != key,
        members[1].0 != key,
    ensures
        crate::json::lookup(members, key) is None,
{
    let rest = members.drop_first();
    assert(rest[0] == members[1]);
    assert(rest.drop_first().len() == 0);
    assert(crate::json::lookup(rest.drop_first(), key) is None);
    assert(crate::json::lookup(rest, key) is None);
}

/// The name of the copy that keeps the old file: the path with `.bak`, and
/// with `.bak.` and the time where that name is taken.
pub open spec fn backup_name(path: Seq<char>, taken: bool, unix_time: u64) -> Seq<char> {
    if taken {
        path + ".bak."@ + decimal(unix_time as nat)
    } else {
        path + ".bak"@
    }
}

/// Picks the name of the copy that keeps the old file.
pub fn backup_path(path: &str, taken: bool, unix_time: u64) -> (s: String)
    ensures
        s@ == backup_name(path@, taken, unix_time),
{
    let mut out: Vec<char> = Vec::new();
    push_str(&mut out, path);
    if taken {
        push_str(&mut out, ".bak.");
        push_decimal(&mut out, unix_time);
    } else {
        push_str(&mut out, ".bak");
    }
    assert(out@ =~= backup_name(path@, taken, unix_time));
    string_of(&out)
}

} // verus!
