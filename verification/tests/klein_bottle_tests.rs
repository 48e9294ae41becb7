use chorus::config::{
    Config, ModelConfig, ServerConfig, WorkflowConfig, WorkflowIntegrationConfig, WorkflowTimeouts,
};
use chorus::error::AppError;
use chorus::klein_bottle::{
    create_demo_config, get_demo_questions, KleinBottleConfig, KleinBottleWorkflow,
    ReflectionDecision,
};
use chorus::plan::{ModelTarget, WorkflowPlan, WorkflowWorker};

fn global_config(models: &[&str]) -> Config {
    let target = |n: &str| ModelTarget { model: n.to_string(), temperature: None, auto_temperature: None };
    Config {
        server: ServerConfig::default(),
        model: models
            .iter()
            .map(|m| ModelConfig {
                name: m.to_string(),
                api_base: "https://example.com".to_string(),
                api_key: "k".to_string(),
                auto_temperature: None,
                temperature: None,
            })
            .collect(),
        workflow_integration: WorkflowIntegrationConfig {
            nested_worker_depth: 1,
            plan: WorkflowPlan {
                analyzer: target("glm-4.6"),
                workers: vec![WorkflowWorker::Model(target("glm-4.6"))],
                synthesizer: Some(target("glm-4.6")),
                selector: None,
            },
        },
        workflow: WorkflowConfig {
            timeouts: WorkflowTimeouts {
                analyzer_timeout_secs: 30,
                worker_timeout_secs: 60,
                synthesizer_timeout_secs: 60,
            },
            domains: Vec::new(),
        },
    }
}

#[test]
fn demo_questions_are_the_five_questions() {
    let questions = get_demo_questions();
    assert_eq!(questions.len(), 5);
    assert_eq!(questions[0], "意识的本质是什么？");
    assert_eq!(questions[4], "数学真理是发现还是发明的？");
}

#[test]
fn demo_config_and_default_agree_but_for_the_evaluation_hint() {
    let demo = create_demo_config();
    let default = KleinBottleConfig::default();
    assert_eq!(demo.max_iterations, 3);
    assert_eq!(demo.convergence_threshold, 800);
    assert_eq!(demo.model_name, "glm-4.6");
    assert_eq!(demo.timeout_secs, 60);
    assert_eq!(demo.reflection_prompt_template, default.reflection_prompt_template);
    assert!(demo.evaluation_prompt_template.ends_with("如：0.85"));
    assert!(default.evaluation_prompt_template.ends_with("只需返回一个数字分数。"));
}

#[test]
fn the_loop_needs_its_model() {
    let ok = KleinBottleWorkflow::new(create_demo_config(), &global_config(&["a", "glm-4.6"])).unwrap();
    assert_eq!(ok.model_config.name, "glm-4.6");
    match KleinBottleWorkflow::new(create_demo_config(), &global_config(&["a"])) {
        Err(AppError::ModelNotFound(m)) => {
            assert_eq!(m, "Model 'glm-4.6' not found in configuration")
        }
        other => panic!("expected a missing model, got {:?}", other),
    }
}

#[test]
fn scores_are_read_and_clamped() {
    assert_eq!(KleinBottleWorkflow::parse_score(" 0.85\n"), 850);
    assert_eq!(KleinBottleWorkflow::parse_score("1"), 1000);
    assert_eq!(KleinBottleWorkflow::parse_score("7.5"), 1000);
    assert_eq!(KleinBottleWorkflow::parse_score("-1"), 0);
    assert_eq!(KleinBottleWorkflow::parse_score("good"), 500);
    assert_eq!(KleinBottleWorkflow::parse_score(""), 500);
}

#[test]
fn rounds_end_on_convergence_or_exhaustion() {
    let w = KleinBottleWorkflow::new(create_demo_config(), &global_config(&["glm-4.6"])).unwrap();
    assert_eq!(w.after_round(1, Some(800)), ReflectionDecision::Converged);
    assert_eq!(w.after_round(3, Some(999)), ReflectionDecision::Converged);
    assert_eq!(w.after_round(1, Some(799)), ReflectionDecision::Continue);
    assert_eq!(w.after_round(2, None), ReflectionDecision::Continue);
    assert_eq!(w.after_round(3, Some(799)), ReflectionDecision::Exhausted);
    assert_eq!(w.after_round(4, None), ReflectionDecision::Exhausted);
}

#[test]
fn prompts_put_the_template_before_the_text() {
    let w = KleinBottleWorkflow::new(create_demo_config(), &global_config(&["glm-4.6"])).unwrap();
    assert_eq!(
        w.reflection_prompt("旧"),
        format!("{}\n\n前文：\n旧", w.config.reflection_prompt_template)
    );
    assert_eq!(
        w.evaluation_prompt("答"),
        format!("{}\n\n回答内容：\n答", w.config.evaluation_prompt_template)
    );
}
