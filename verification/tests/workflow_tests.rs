use chorus::config::{
    Config, DomainOverrides, ModelConfig, ServerConfig, WorkflowConfig, WorkflowIntegrationConfig,
    WorkflowTimeouts,
};
use chorus::error::AppError;
use chorus::plan::{ModelTarget, WorkflowPlan, WorkflowWorker};
use chorus::selector::{Candidate, SelectorChoice};
use chorus::temperature::{PlanRole, Temperature};
use chorus::workflow::{
    all_failed_message, count_successes, final_response, successful_candidates,
    synthesizer_prompt, timeout_message, worker_outcome, Action, Event, Phase, SelectorDetails,
    UpstreamCall, WorkerDetails, WorkflowEngine, WorkflowExecutionDetails, WorkflowResult,
};

fn target(name: &str) -> ModelTarget {
    ModelTarget { model: name.to_string(), temperature: None, auto_temperature: None }
}

fn model(name: &str) -> ModelConfig {
    ModelConfig {
        name: name.to_string(),
        api_base: format!("https://{}.example.com/v1", name),
        api_key: format!("key-{}", name),
        auto_temperature: None,
        temperature: None,
    }
}

fn plan(workers: &[&str], synthesizer: Option<&str>, selector: Option<&str>) -> WorkflowPlan {
    WorkflowPlan {
        analyzer: target("m"),
        workers: workers.iter().map(|w| WorkflowWorker::Model(target(w))).collect(),
        synthesizer: synthesizer.map(target),
        selector: selector.map(target),
    }
}

fn copy_plan(p: &WorkflowPlan) -> WorkflowPlan {
    p.duplicate()
}

fn engine(models: &[&str], p: &WorkflowPlan) -> WorkflowEngine {
    let config = Config {
        server: ServerConfig { host: "127.0.0.1".to_string(), port: 11435 },
        model: models.iter().map(|m| model(m)).collect(),
        workflow_integration: WorkflowIntegrationConfig {
            nested_worker_depth: 1,
            plan: copy_plan(p),
        },
        workflow: WorkflowConfig {
            timeouts: WorkflowTimeouts {
                analyzer_timeout_secs: 30,
                worker_timeout_secs: 60,
                synthesizer_timeout_secs: 90,
            },
            domains: vec![(
                "B.example.com".to_string(),
                DomainOverrides {
                    analyzer_timeout_secs: None,
                    worker_timeout_secs: Some(7),
                    synthesizer_timeout_secs: None,
                },
            )],
        },
    };
    WorkflowEngine::new(config).unwrap()
}

fn evaluate(
    engine: &WorkflowEngine,
    p: &WorkflowPlan,
    prompt: &str,
    depth: usize,
    stream: bool,
    calls: &mut Vec<UpstreamCall>,
    upstream: &dyn Fn(&UpstreamCall) -> Event,
) -> Result<WorkflowResult, AppError> {
    let (mut run, mut action) =
        engine.begin(p, prompt.to_string(), depth, stream, format!("wf-{}", depth));
    loop {
        let event = match action {
            Action::Finish(result) => {
                assert_eq!(run.phase, Phase::Finished);
                return result;
            }
            Action::Call(call) => {
                let event = upstream(&call);
                calls.push(call);
                event
            }
            Action::Descend(index, nested_stream) => {
                let nested = match &p.workers[index] {
                    WorkflowWorker::Workflow(q) => q,
                    other => panic!("expected a nested plan, got {:?}", other),
                };
                match evaluate(engine, nested, prompt, depth + 1, nested_stream, calls, upstream) {
                    Ok(r) => Event::Completed(r.response, r.details.map(Box::new)),
                    Err(e) => Event::Failed(e.message()),
                }
            }
        };
        let (next_run, next_action) = engine.advance(p, run, event);
        run = next_run;
        action = next_action;
    }
}

fn ok(text: &str) -> Event {
    Event::Completed(text.to_string(), None)
}

#[test]
fn two_workers_and_synthesizer_give_the_synthesizer_text() {
    let p = plan(&["A", "B"], Some("S"), None);
    let e = engine(&["m", "A", "B", "S"], &p);
    let mut calls = Vec::new();
    let result = evaluate(&e, &p, "hello", 0, false, &mut calls, &|call| match call.role {
        PlanRole::Worker => ok(&call.model),
        PlanRole::Synthesizer => ok("AB"),
        other => panic!("unexpected call in role {:?}", other),
    })
    .unwrap();
    assert_eq!(result.response, "AB");
    let details = result.details.unwrap();
    assert_eq!(details.workflow_id, "wf-0");
    assert_eq!(details.workers.len(), 2);
    for (w, name) in details.workers.iter().zip(["A", "B"]) {
        assert_eq!(w.name, name);
        assert!(w.success);
        assert_eq!(w.response.as_deref(), Some(name));
        assert_eq!(w.error, None);
        assert_eq!(w.effective_temperature, Some(Temperature { millis: 1400 }));
    }
    assert_eq!((details.worker_count, details.worker_successful, details.worker_failures), (2, 2, 0));
    assert!(details.selector.is_none());
    let synth = details.synthesizer.unwrap();
    assert_eq!(synth.model, "S");
    assert_eq!(synth.temperature, Temperature { millis: 1400 });
    assert_eq!(synth.output.as_deref(), Some("AB"));
    let analyzer = details.analyzer.unwrap();
    assert_eq!(analyzer.model, "m");
    assert!(!analyzer.auto_temperature_used);
    let roles: Vec<PlanRole> = calls.iter().map(|c| c.role).collect();
    assert_eq!(roles, vec![PlanRole::Worker, PlanRole::Worker, PlanRole::Synthesizer]);
    assert_eq!(calls[0].prompt, "hello");
    assert_eq!(calls[0].api_base, "https://A.example.com/v1");
    assert_eq!(calls[0].api_key, "key-A");
    assert_eq!(calls[0].timeout_secs, 60);
    assert_eq!(calls[1].timeout_secs, 7);
    assert_eq!(calls[2].timeout_secs, 90);
    assert_eq!(
        calls[2].prompt,
        "Question:\nhello\n\nAnswers from the workers:\n\n[A]\nA\n\n[B]\nB\n\nWrite one consolidated answer to the question. Do not comment on the workers or on this process."
    );
}

#[test]
fn selector_only_plan_answers_with_the_chosen_worker() {
    let p = plan(&["x"], None, Some("m"));
    let e = engine(&["m", "x"], &p);
    let mut calls = Vec::new();
    let result = evaluate(&e, &p, "q", 0, false, &mut calls, &|call| match call.role {
        PlanRole::Worker => ok("X"),
        PlanRole::Selector => ok("{\"selected_index\":1,\"reasoning\":\"ok\"}"),
        other => panic!("unexpected call in role {:?}", other),
    })
    .unwrap();
    assert_eq!(result.response, "X");
    let details = result.details.unwrap();
    assert!(details.synthesizer.is_none());
    let selector = details.selector.unwrap();
    assert!(selector.success);
    assert_eq!(selector.model, "m");
    assert_eq!(selector.raw_output.as_deref(), Some("{\"selected_index\":1,\"reasoning\":\"ok\"}"));
    let choice = selector.choice.unwrap();
    assert_eq!(choice.index, 1);
    assert_eq!(choice.chosen_worker, "x");
    assert_eq!(choice.chosen_response, "X");
    assert_eq!(choice.reasoning.as_deref(), Some("ok"));
    assert_eq!(calls[1].timeout_secs, 90);
}

#[test]
fn selector_reply_text_wins_over_the_chosen_worker() {
    let p = plan(&["x", "y"], None, Some("m"));
    let e = engine(&["m", "x", "y"], &p);
    let mut calls = Vec::new();
    let result = evaluate(&e, &p, "q", 0, false, &mut calls, &|call| match call.role {
        PlanRole::Worker => ok(&call.model.to_uppercase()),
        PlanRole::Selector => ok("{\"choice\":2,\"selected_response\":\"Y, polished\"}"),
        other => panic!("unexpected call in role {:?}", other),
    })
    .unwrap();
    assert_eq!(result.response, "Y, polished");
}

#[test]
fn unparseable_selector_falls_back_to_the_first_success() {
    let p = plan(&["x", "y"], None, Some("m"));
    let e = engine(&["m", "x", "y"], &p);
    let mut calls = Vec::new();
    let result = evaluate(&e, &p, "q", 0, false, &mut calls, &|call| match call.role {
        PlanRole::Worker if call.model == "x" => Event::Failed("boom".to_string()),
        PlanRole::Worker => ok("Y"),
        PlanRole::Selector => ok("cannot decide"),
        other => panic!("unexpected call in role {:?}", other),
    })
    .unwrap();
    assert_eq!(result.response, "Y");
    let selector = result.details.unwrap().selector.unwrap();
    assert!(!selector.success);
    assert_eq!(selector.error.as_deref(), Some("selector reply holds no choice"));
    assert_eq!(selector.raw_output.as_deref(), Some("cannot decide"));
}

#[test]
fn failing_selector_does_not_sink_a_plan_with_synthesizer() {
    let p = plan(&["x"], Some("S"), Some("m"));
    let e = engine(&["m", "x", "S"], &p);
    let mut calls = Vec::new();
    let result = evaluate(&e, &p, "q", 0, false, &mut calls, &|call| match call.role {
        PlanRole::Worker => ok("X"),
        PlanRole::Selector => Event::TimedOut,
        PlanRole::Synthesizer => ok("done"),
        other => panic!("unexpected call in role {:?}", other),
    })
    .unwrap();
    assert_eq!(result.response, "done");
    let selector = result.details.unwrap().selector.unwrap();
    assert_eq!(selector.error.as_deref(), Some("selector 'm' timed out"));
}

#[test]
fn partial_worker_failure_keeps_order_and_error() {
    let p = plan(&["A", "B", "C"], Some("S"), None);
    let e = engine(&["m", "A", "B", "C", "S"], &p);
    let mut calls = Vec::new();
    let result = evaluate(&e, &p, "q", 0, false, &mut calls, &|call| match call.role {
        PlanRole::Worker if call.model == "B" => Event::Failed("quota exceeded".to_string()),
        PlanRole::Worker => ok(&call.model),
        PlanRole::Synthesizer => ok("AC"),
        other => panic!("unexpected call in role {:?}", other),
    })
    .unwrap();
    assert_eq!(result.response, "AC");
    let details = result.details.unwrap();
    let names: Vec<&str> = details.workers.iter().map(|w| w.name.as_str()).collect();
    assert_eq!(names, vec!["A", "B", "C"]);
    assert!(details.workers[0].success && details.workers[2].success);
    assert!(!details.workers[1].success);
    assert_eq!(details.workers[1].error.as_deref(), Some("quota exceeded"));
    assert_eq!(details.workers[1].response, None);
    assert_eq!((details.worker_count, details.worker_successful, details.worker_failures), (3, 2, 1));
    assert!(calls[3].prompt.contains("[A]\nA\n\n[C]\nC"));
    assert!(!calls[3].prompt.contains("[B]"));
}

#[test]
fn all_workers_failing_fails_the_level_with_every_name_and_error() {
    let p = plan(&["A", "B"], Some("S"), None);
    let e = engine(&["m", "A", "B", "S"], &p);
    let mut calls = Vec::new();
    let err = evaluate(&e, &p, "q", 0, false, &mut calls, &|call| match call.role {
        PlanRole::Worker if call.model == "A" => Event::Failed("boom".to_string()),
        PlanRole::Worker => Event::TimedOut,
        other => panic!("unexpected call in role {:?}", other),
    })
    .unwrap_err();
    assert_eq!(err.status_code(), 500);
    match &err {
        AppError::WorkflowExecution(message) => assert_eq!(
            message,
            "all workers failed in workflow[m] at depth 0: [A: boom] [B: worker 'B' timed out]"
        ),
        other => panic!("expected a workflow failure, got {:?}", other),
    }
    assert_eq!(calls.len(), 2);
}

#[test]
fn auto_temperature_analyzer_sets_worker_temperature() {
    let mut p = plan(&["A", "B", "C"], Some("S"), None);
    p.analyzer.auto_temperature = Some(true);
    if let WorkflowWorker::Model(t) = &mut p.workers[1] {
        t.temperature = Some(Temperature { millis: 100 });
    }
    if let WorkflowWorker::Model(t) = &mut p.workers[2] {
        t.auto_temperature = Some(false);
    }
    let e = engine(&["m", "A", "B", "C", "S"], &p);
    let mut calls = Vec::new();
    let result = evaluate(&e, &p, "q", 0, false, &mut calls, &|call| match call.role {
        PlanRole::Analyzer => ok("{\"temperature\":\"0.65\"}"),
        PlanRole::Worker => ok("w"),
        PlanRole::Synthesizer => ok("s"),
        other => panic!("unexpected call in role {:?}", other),
    })
    .unwrap();
    let temperatures: Vec<u32> = calls.iter().map(|c| c.temperature.millis).collect();
    assert_eq!(temperatures, vec![300, 650, 100, 1400, 1400]);
    assert_eq!(calls[0].timeout_secs, 30);
    assert!(calls[0].prompt.ends_with("Task:\nq"));
    let details = result.details.unwrap();
    let analyzer = details.analyzer.unwrap();
    assert!(analyzer.auto_temperature_used);
    assert_eq!(analyzer.temperature, Temperature { millis: 650 });
    assert_eq!(details.synthesizer.unwrap().temperature, Temperature { millis: 1400 });
}

#[test]
fn workers_keep_the_default_when_the_analyzer_did_not_use_auto() {
    let p = plan(&["A"], Some("S"), None);
    let e = engine(&["m", "A", "S"], &p);
    let mut calls = Vec::new();
    evaluate(&e, &p, "q", 0, false, &mut calls, &|call| ok(&call.model)).unwrap();
    assert_eq!(calls[0].role, PlanRole::Worker);
    assert_eq!(calls[0].temperature.millis, 1400);
}

#[test]
fn analyzer_failure_falls_back_to_the_default_temperature() {
    let mut p = plan(&["A"], Some("S"), None);
    p.analyzer.auto_temperature = Some(true);
    let e = engine(&["m", "A", "S"], &p);
    let mut calls = Vec::new();
    let result = evaluate(&e, &p, "q", 0, false, &mut calls, &|call| match call.role {
        PlanRole::Analyzer => Event::TimedOut,
        _ => ok("fine"),
    })
    .unwrap();
    assert_eq!(calls[1].temperature.millis, 1400);
    let analyzer = result.details.unwrap().analyzer.unwrap();
    assert!(!analyzer.success);
    assert_eq!(analyzer.error.as_deref(), Some("analyzer 'm' timed out"));
}

#[test]
fn synthesizer_timeout_is_a_timeout_error_naming_node_and_role() {
    let p = plan(&["A"], Some("S"), None);
    let e = engine(&["m", "A", "S"], &p);
    let mut calls = Vec::new();
    let err = evaluate(&e, &p, "q", 0, false, &mut calls, &|call| match call.role {
        PlanRole::Synthesizer => Event::TimedOut,
        _ => ok("fine"),
    })
    .unwrap_err();
    assert_eq!(err.status_code(), 504);
    assert_eq!(err.message(), "Timeout error: synthesizer 'S' timed out");
}

#[test]
fn synthesizer_failure_is_an_upstream_error() {
    let p = plan(&["A"], Some("S"), None);
    let e = engine(&["m", "A", "S"], &p);
    let mut calls = Vec::new();
    let err = evaluate(&e, &p, "q", 0, false, &mut calls, &|call| match call.role {
        PlanRole::Synthesizer => Event::Failed("bad gateway".to_string()),
        _ => ok("fine"),
    })
    .unwrap_err();
    assert_eq!(err.status_code(), 502);
    assert_eq!(err.message(), "LLM API error: bad gateway");
}

#[test]
fn nested_plan_is_evaluated_one_level_deeper_and_recorded() {
    let mut p = plan(&["A"], Some("S"), None);
    p.workers.push(WorkflowWorker::Workflow(Box::new(plan(&["x", "y"], Some("S"), None))));
    let e = engine(&["m", "A", "x", "y", "S"], &p);
    let mut calls = Vec::new();
    let result = evaluate(&e, &p, "q", 0, false, &mut calls, &|call| match call.role {
        PlanRole::Synthesizer if call.prompt.contains("[x]") => ok("xy"),
        PlanRole::Synthesizer => ok("final"),
        _ => ok(&call.model),
    })
    .unwrap();
    assert_eq!(result.response, "final");
    let details = result.details.unwrap();
    assert_eq!(details.workers[1].name, "workflow[m]");
    assert_eq!(details.workers[1].response.as_deref(), Some("xy"));
    assert_eq!(details.workers[1].effective_temperature, None);
    let nested = details.workers[1].nested.as_ref().unwrap();
    assert_eq!(nested.workflow_id, "wf-1");
    assert_eq!(nested.workers.len(), 2);
    assert!(calls.last().unwrap().prompt.contains("[workflow[m]]\nxy"));
}

#[test]
fn nested_failure_is_one_failed_worker() {
    let mut p = plan(&["A"], Some("S"), None);
    p.workers.push(WorkflowWorker::Workflow(Box::new(plan(&["x"], Some("S"), None))));
    let e = engine(&["m", "A", "x", "S"], &p);
    let mut calls = Vec::new();
    let result = evaluate(&e, &p, "q", 0, false, &mut calls, &|call| match call.role {
        PlanRole::Worker if call.model == "x" => Event::Failed("down".to_string()),
        _ => ok("fine"),
    })
    .unwrap();
    let details = result.details.unwrap();
    assert!(!details.workers[1].success);
    assert_eq!(
        details.workers[1].error.as_deref(),
        Some("Workflow execution failed: all workers failed in workflow[m] at depth 1: [x: down]")
    );
}

#[test]
fn only_the_answering_stage_streams() {
    let with_synth = plan(&["A", "B"], Some("S"), Some("m"));
    let e = engine(&["m", "A", "B", "S"], &with_synth);
    let mut calls = Vec::new();
    evaluate(&e, &with_synth, "q", 0, true, &mut calls, &|call| match call.role {
        PlanRole::Selector => ok("1"),
        _ => ok("t"),
    })
    .unwrap();
    let streamed: Vec<PlanRole> = calls.iter().filter(|c| c.stream).map(|c| c.role).collect();
    assert_eq!(streamed, vec![PlanRole::Synthesizer]);

    let selector_only = plan(&["A", "B"], None, Some("m"));
    let mut calls = Vec::new();
    evaluate(&e, &selector_only, "q", 0, true, &mut calls, &|call| match call.role {
        PlanRole::Selector => ok("1"),
        _ => ok("t"),
    })
    .unwrap();
    let streamed: Vec<PlanRole> = calls.iter().filter(|c| c.stream).map(|c| c.role).collect();
    assert_eq!(streamed, vec![PlanRole::Worker, PlanRole::Worker]);

    let mut calls = Vec::new();
    evaluate(&e, &with_synth, "q", 0, false, &mut calls, &|call| match call.role {
        PlanRole::Selector => ok("1"),
        _ => ok("t"),
    })
    .unwrap();
    assert!(calls.iter().all(|c| !c.stream));
}

#[test]
fn undefined_models_fail_or_are_recorded() {
    let p = plan(&["A", "ghost"], Some("S"), None);
    let e = engine(&["m", "A", "S"], &p);
    let mut calls = Vec::new();
    let result = evaluate(&e, &p, "q", 0, false, &mut calls, &|_| ok("t")).unwrap();
    let details = result.details.unwrap();
    assert_eq!(details.workers[1].error.as_deref(), Some("Model not found: ghost"));

    let no_analyzer = engine(&["A", "S"], &p);
    let err = evaluate(&no_analyzer, &p, "q", 0, false, &mut calls, &|_| ok("t")).unwrap_err();
    assert_eq!(err.message(), "Model not found: m");
    assert_eq!(err.status_code(), 400);

    let no_synth = engine(&["m", "A"], &p);
    let err = evaluate(&no_synth, &p, "q", 0, false, &mut calls, &|_| ok("t")).unwrap_err();
    assert_eq!(err.message(), "Model not found: S");
}

#[test]
fn a_level_without_workers_fails_at_once() {
    let p = plan(&[], Some("S"), None);
    let e = engine(&["m", "S"], &p);
    let mut calls = Vec::new();
    let err = evaluate(&e, &p, "q", 3, false, &mut calls, &|_| ok("t")).unwrap_err();
    assert_eq!(
        err.message(),
        "Workflow execution failed: workflow[m] at depth 3 has no workers"
    );
    assert!(calls.is_empty());
}

#[test]
fn a_finished_level_refuses_further_events() {
    let p = plan(&["A"], Some("S"), None);
    let e = engine(&["m", "A", "S"], &p);
    let (run, action) = e.begin(&p, "q".to_string(), 0, false, "id".to_string());
    assert!(matches!(action, Action::Call(_)));
    let (run, _) = e.advance(&p, run, ok("a"));
    let (run, action) = e.advance(&p, run, ok("s"));
    assert!(matches!(action, Action::Finish(Ok(_))));
    let (_, action) = e.advance(&p, run, ok("again"));
    match action {
        Action::Finish(Err(err)) => {
            assert_eq!(err.message(), "Workflow execution failed: workflow already finished")
        }
        other => panic!("expected a failure, got {:?}", other),
    }
}

fn worker(name: &str, response: Option<&str>, error: Option<&str>) -> WorkerDetails {
    WorkerDetails {
        name: name.to_string(),
        effective_temperature: None,
        response: response.map(|s| s.to_string()),
        success: response.is_some(),
        error: error.map(|s| s.to_string()),
        nested: None,
    }
}

fn selector_with(choice: Option<SelectorChoice>) -> SelectorDetails {
    SelectorDetails {
        model: "m".to_string(),
        temperature: Temperature { millis: 1400 },
        success: choice.is_some(),
        choice,
        error: None,
        raw_output: None,
    }
}

#[test]
fn final_response_cascade() {
    let workers = vec![worker("a", None, Some("x")), worker("b", Some("B"), None), worker("c", Some("C"), None)];
    let choice = |selected: Option<&str>| SelectorChoice {
        index: 2,
        chosen_worker: "c".to_string(),
        chosen_response: "C".to_string(),
        selected_response: selected.map(|s| s.to_string()),
        reasoning: None,
    };
    assert_eq!(
        final_response(&Some(selector_with(Some(choice(Some("S"))))), &workers).as_deref(),
        Some("S")
    );
    assert_eq!(
        final_response(&Some(selector_with(Some(choice(None)))), &workers).as_deref(),
        Some("C")
    );
    assert_eq!(final_response(&Some(selector_with(None)), &workers).as_deref(), Some("B"));
    assert_eq!(final_response(&None, &workers).as_deref(), Some("B"));
    assert_eq!(final_response(&None, &vec![worker("a", None, Some("x"))]), None);
    assert_eq!(final_response(&None, &Vec::new()), None);
}

#[test]
fn stage_helpers_count_and_collect() {
    let workers = vec![worker("a", None, Some("x")), worker("b", Some("B"), None), worker("c", Some("C"), None)];
    assert_eq!(count_successes(&workers), 2);
    let cs: Vec<(String, String)> = successful_candidates(&workers)
        .into_iter()
        .map(|c| (c.name, c.response))
        .collect();
    assert_eq!(cs, vec![("b".to_string(), "B".to_string()), ("c".to_string(), "C".to_string())]);
    assert_eq!(
        all_failed_message("workflow[z]", 12, &workers[..1].iter().map(|w| worker(&w.name, None, w.error.as_deref())).collect()),
        "all workers failed in workflow[z] at depth 12: [a: x]"
    );
    assert_eq!(timeout_message(PlanRole::Analyzer, "n"), "analyzer 'n' timed out");
    assert_eq!(timeout_message(PlanRole::Worker, "n"), "worker 'n' timed out");
    assert_eq!(timeout_message(PlanRole::Selector, "n"), "selector 'n' timed out");
    assert_eq!(timeout_message(PlanRole::Synthesizer, "n"), "synthesizer 'n' timed out");
}

#[test]
fn worker_outcome_records_each_event() {
    let t = Some(Temperature { millis: 700 });
    let w = worker_outcome("n".to_string(), t, Event::Completed("text".to_string(), None));
    assert!(w.success);
    assert_eq!(w.response.as_deref(), Some("text"));
    assert_eq!(w.effective_temperature, t);
    let w = worker_outcome("n".to_string(), t, Event::Failed("why".to_string()));
    assert!(!w.success);
    assert_eq!(w.error.as_deref(), Some("why"));
    let w = worker_outcome("n".to_string(), None, Event::TimedOut);
    assert!(!w.success);
    assert_eq!(w.error.as_deref(), Some("worker 'n' timed out"));
    assert_eq!(w.response, None);
}

#[test]
fn synthesizer_prompt_highlights_the_choice() {
    let cs = vec![
        Candidate { name: "a".to_string(), response: "A".to_string() },
        Candidate { name: "b".to_string(), response: "B".to_string() },
    ];
    let choice = Some(SelectorChoice {
        index: 2,
        chosen_worker: "b".to_string(),
        chosen_response: "B".to_string(),
        selected_response: None,
        reasoning: Some("clearer".to_string()),
    });
    assert_eq!(
        synthesizer_prompt("q?", &cs, &choice),
        "Question:\nq?\n\nAnswers from the workers:\n\n[a]\nA\n\n[b]\nB\n\nRecommended answer: [b]\nB\nReasoning: clearer\n\nWrite one consolidated answer to the question. Do not comment on the workers or on this process."
    );
}

#[test]
fn details_start_empty_and_take_the_duration() {
    let d = WorkflowExecutionDetails::new("id-1".to_string());
    assert_eq!(d.workflow_id, "id-1");
    assert_eq!(d.total_duration_ms, 0);
    assert!(d.analyzer.is_none() && d.selector.is_none() && d.synthesizer.is_none());
    assert!(d.workers.is_empty());
    let d = d.finish(1234);
    assert_eq!(d.total_duration_ms, 1234);
    assert_eq!(d.workflow_id, "id-1");
}
