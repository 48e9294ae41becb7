use chorus::json::parse_json;
use chorus::plan::{
    expand_workers, inherit_synthesizers, read_plan, validate_plan, ModelTarget, PlanError,
    WorkflowPlan, WorkflowWorker,
};
use chorus::temperature::Temperature;

fn target(name: &str) -> ModelTarget {
    ModelTarget { model: name.to_string(), temperature: None, auto_temperature: None }
}

fn flat_plan(workers: &[&str], synthesizer: Option<&str>, selector: Option<&str>) -> WorkflowPlan {
    WorkflowPlan {
        analyzer: target("a"),
        workers: workers.iter().map(|w| WorkflowWorker::Model(target(w))).collect(),
        synthesizer: synthesizer.map(target),
        selector: selector.map(target),
    }
}

fn same_target(a: &ModelTarget, b: &ModelTarget) -> bool {
    a.model == b.model && a.temperature == b.temperature && a.auto_temperature == b.auto_temperature
}

fn same_plan(a: &WorkflowPlan, b: &WorkflowPlan) -> bool {
    let same_option = |x: &Option<ModelTarget>, y: &Option<ModelTarget>| match (x, y) {
        (Some(p), Some(q)) => same_target(p, q),
        (None, None) => true,
        _ => false,
    };
    same_target(&a.analyzer, &b.analyzer)
        && same_option(&a.synthesizer, &b.synthesizer)
        && same_option(&a.selector, &b.selector)
        && a.workers.len() == b.workers.len()
        && a.workers.iter().zip(b.workers.iter()).all(|(x, y)| match (x, y) {
            (WorkflowWorker::Model(p), WorkflowWorker::Model(q)) => same_target(p, q),
            (WorkflowWorker::Workflow(p), WorkflowWorker::Workflow(q)) => same_plan(p, q),
            _ => false,
        })
}

fn same_worker(a: &WorkflowWorker, b: &WorkflowWorker) -> bool {
    match (a, b) {
        (WorkflowWorker::Model(p), WorkflowWorker::Model(q)) => same_target(p, q),
        (WorkflowWorker::Workflow(p), WorkflowWorker::Workflow(q)) => same_plan(p, q),
        _ => false,
    }
}

#[test]
fn plan_text_round_trip_keeps_the_plan() {
    let mut nested = flat_plan(&["x", "y"], None, Some("judge"));
    nested.analyzer.auto_temperature = Some(true);
    let mut plan = flat_plan(&["w1"], Some("synth"), None);
    plan.analyzer.temperature = Some(Temperature { millis: 650 });
    plan.workers.push(WorkflowWorker::Workflow(Box::new(nested)));
    if let WorkflowWorker::Model(t) = &mut plan.workers[0] {
        t.temperature = Some(Temperature { millis: 2000 });
        t.auto_temperature = Some(false);
    }
    let text = plan.to_json_string();
    let again = WorkflowPlan::from_json_str(&text).unwrap();
    assert!(same_plan(&plan, &again), "round trip changed the plan: {}", text);
    match &again.workers[1] {
        WorkflowWorker::Workflow(p) => {
            assert!(p.synthesizer.is_none());
            assert_eq!(p.selector.as_ref().map(|s| s.model.as_str()), Some("judge"));
        }
        other => panic!("expected a nested plan, got {:?}", other),
    }
}

#[test]
fn plan_text_has_the_documented_shape() {
    let mut plan = flat_plan(&["m1"], Some("m1"), None);
    if let WorkflowWorker::Model(t) = &mut plan.workers[0] {
        t.temperature = Some(Temperature { millis: 600 });
    }
    assert_eq!(
        plan.to_json_string(),
        "{\"analyzer\":{\"ref\":\"a\"},\"synthesizer\":{\"ref\":\"m1\"},\"workers\":[{\"name\":\"m1\",\"temperature\":0.6}]}"
    );
}

#[test]
fn selector_is_absent_from_text_when_not_specified() {
    let plan = flat_plan(&["m1"], Some("m1"), None);
    let text = plan.to_json_string();
    assert!(!text.contains("selector"));
    let again = WorkflowPlan::from_json_str(&text).unwrap();
    assert!(again.selector.is_none());
}

#[test]
fn nested_plan_without_aggregator_inherits_nearest_synthesizer() {
    let inner = flat_plan(&["leaf"], None, None);
    let mut middle = flat_plan(&[], Some("middle-synth"), None);
    middle.workers.push(WorkflowWorker::Workflow(Box::new(inner)));
    let mut root = flat_plan(&[], Some("root-synth"), None);
    root.workers.push(WorkflowWorker::Workflow(Box::new(middle)));
    let done = inherit_synthesizers(&root, &None);
    let middle = match &done.workers[0] {
        WorkflowWorker::Workflow(p) => p,
        other => panic!("expected a nested plan, got {:?}", other),
    };
    assert_eq!(middle.synthesizer.as_ref().unwrap().model, "middle-synth");
    let inner = match &middle.workers[0] {
        WorkflowWorker::Workflow(p) => p,
        other => panic!("expected a nested plan, got {:?}", other),
    };
    assert_eq!(inner.synthesizer.as_ref().unwrap().model, "middle-synth");
}

#[test]
fn nested_plan_with_selector_takes_no_synthesizer_but_hands_it_on() {
    let inner = flat_plan(&["leaf"], None, None);
    let mut middle = flat_plan(&[], None, Some("judge"));
    middle.workers.push(WorkflowWorker::Workflow(Box::new(inner)));
    let mut root = flat_plan(&[], Some("root-synth"), None);
    root.workers.push(WorkflowWorker::Workflow(Box::new(middle)));
    let done = inherit_synthesizers(&root, &None);
    let middle = match &done.workers[0] {
        WorkflowWorker::Workflow(p) => p,
        other => panic!("expected a nested plan, got {:?}", other),
    };
    assert!(middle.synthesizer.is_none());
    let inner = match &middle.workers[0] {
        WorkflowWorker::Workflow(p) => p,
        other => panic!("expected a nested plan, got {:?}", other),
    };
    assert_eq!(inner.synthesizer.as_ref().unwrap().model, "root-synth");
    assert!(validate_plan(&done).is_ok());
}

#[test]
fn a_level_without_aggregator_is_refused() {
    let plan = flat_plan(&["w"], None, None);
    assert_eq!(validate_plan(&plan), Err(PlanError::MissingAggregator));
    assert_eq!(
        PlanError::MissingAggregator.message(),
        "workflow must define at least one of `synthesizer` or `selector`"
    );
}

#[test]
fn a_level_without_workers_is_refused_before_its_aggregator_is_looked_at() {
    let plan = flat_plan(&[], None, None);
    assert_eq!(validate_plan(&plan), Err(PlanError::EmptyWorkers));
    let mut root = flat_plan(&["w"], Some("s"), None);
    root.workers
        .push(WorkflowWorker::Workflow(Box::new(flat_plan(&[], Some("s"), None))));
    assert_eq!(validate_plan(&root), Err(PlanError::EmptyWorkers));
}

fn load(text: &str) -> Result<WorkflowPlan, PlanError> {
    WorkflowPlan::from_json_str(text)
}

#[test]
fn each_shape_error_has_an_input() {
    assert_eq!(load("{").unwrap_err(), PlanError::InvalidJson);
    assert_eq!(load("{\"workers\":[]}").unwrap_err(), PlanError::MissingAnalyzer);
    assert_eq!(
        load("{\"analyzer\":{},\"workers\":[]}").unwrap_err(),
        PlanError::InvalidTarget
    );
    assert_eq!(
        load("{\"analyzer\":{\"ref\":\"a\",\"temperature\":\"hot\"},\"workers\":[]}").unwrap_err(),
        PlanError::InvalidTemperature
    );
    assert_eq!(
        load("{\"analyzer\":{\"ref\":\"a\",\"temperature\":-1},\"workers\":[]}").unwrap_err(),
        PlanError::InvalidTemperature
    );
    assert_eq!(
        load("{\"analyzer\":{\"ref\":\"a\",\"auto_temperature\":1},\"workers\":[]}").unwrap_err(),
        PlanError::InvalidAutoFlag
    );
    assert_eq!(
        load("{\"analyzer\":{\"ref\":\"a\"},\"workers\":{}}").unwrap_err(),
        PlanError::MissingWorkers
    );
    assert_eq!(
        load("{\"analyzer\":{\"ref\":\"a\"},\"workers\":[],\"synthesizer\":{\"ref\":\"s\"}}")
            .unwrap_err(),
        PlanError::EmptyWorkers
    );
    assert_eq!(
        load("{\"analyzer\":{\"ref\":\"a\"},\"workers\":[{\"name\":\"w\"}]}").unwrap_err(),
        PlanError::MissingAggregator
    );
}

#[test]
fn first_bad_worker_decides_the_error() {
    let text = "{\"analyzer\":{\"ref\":\"a\"},\"workers\":[{\"name\":\"ok\"},{\"temperature\":1},{\"name\":\"w\",\"auto_temperature\":3}],\"synthesizer\":{\"ref\":\"s\"}}";
    assert_eq!(load(text).unwrap_err(), PlanError::InvalidTarget);
}

#[test]
fn worker_with_analyzer_and_workers_is_a_nested_plan() {
    let tree = parse_json(
        "{\"analyzer\":{\"ref\":\"a\"},\"workers\":[{\"analyzer\":{\"ref\":\"b\"},\"workers\":[{\"ref\":\"leaf\",\"temperature\":1.25}]},{\"name\":\"w\"}]}",
    )
    .unwrap();
    let plan = read_plan(&tree).unwrap();
    match &plan.workers[0] {
        WorkflowWorker::Workflow(p) => {
            assert_eq!(p.analyzer.model, "b");
            match &p.workers[0] {
                WorkflowWorker::Model(t) => {
                    assert_eq!(t.model, "leaf");
                    assert_eq!(t.temperature, Some(Temperature { millis: 1250 }));
                }
                other => panic!("expected a model worker, got {:?}", other),
            }
        }
        other => panic!("expected a nested plan, got {:?}", other),
    }
    assert!(matches!(&plan.workers[1], WorkflowWorker::Model(t) if t.model == "w"));
}

#[test]
fn null_members_count_as_absent() {
    let plan = load(
        "{\"analyzer\":{\"ref\":\"a\",\"temperature\":null},\"workers\":[{\"name\":\"w\"}],\"synthesizer\":{\"ref\":\"s\"},\"selector\":null}",
    )
    .unwrap();
    assert!(plan.selector.is_none());
    assert!(plan.analyzer.temperature.is_none());
}

#[test]
fn labels_name_models_and_nested_plans() {
    let mut plan = flat_plan(&["w1"], Some("s"), None);
    plan.workers
        .push(WorkflowWorker::Workflow(Box::new(flat_plan(&["x"], Some("s"), None))));
    assert_eq!(plan.label(), "workflow[a]");
    assert_eq!(plan.worker_labels(), vec!["w1".to_string(), "workflow[a]".to_string()]);
}

#[test]
fn depth_one_copies_the_workers_and_depth_zero_gives_none() {
    let mut plan = flat_plan(&["w1", "w2"], Some("s"), None);
    plan.workers
        .push(WorkflowWorker::Workflow(Box::new(flat_plan(&["x"], Some("s"), None))));
    assert!(expand_workers(&plan.workers, 0, &plan).is_empty());
    let copy = WorkflowPlan {
        analyzer: plan.analyzer.duplicate(),
        workers: expand_workers(&plan.workers, 1, &plan),
        synthesizer: plan.synthesizer.as_ref().map(|s| s.duplicate()),
        selector: None,
    };
    assert!(same_plan(&plan, &copy));
}

#[test]
fn deeper_levels_replace_each_model_by_a_level_of_two() {
    let mut plan = flat_plan(&["w1"], None, Some("pick"));
    plan.workers
        .push(WorkflowWorker::Workflow(Box::new(flat_plan(&["x"], Some("s"), None))));
    let two = expand_workers(&plan.workers, 2, &plan);
    assert_eq!(two.len(), 2);
    let wrapped = WorkflowWorker::Workflow(Box::new(flat_plan(&["w1", "w1"], None, Some("pick"))));
    assert!(same_worker(&two[0], &wrapped));
    assert!(same_worker(&two[1], &plan.workers[1]));

    let three = expand_workers(&plan.workers, 3, &plan);
    let inner = || WorkflowWorker::Workflow(Box::new(flat_plan(&["w1", "w1"], None, Some("pick"))));
    let mut outer = flat_plan(&[], None, Some("pick"));
    outer.workers.push(inner());
    outer.workers.push(inner());
    assert!(same_worker(&three[0], &WorkflowWorker::Workflow(Box::new(outer))));
    let mut nested = flat_plan(&[], Some("s"), None);
    nested
        .workers
        .push(WorkflowWorker::Workflow(Box::new(flat_plan(&["x", "x"], Some("s"), None))));
    assert!(same_worker(&three[1], &WorkflowWorker::Workflow(Box::new(nested))));
}
