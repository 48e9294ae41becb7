use chorus::config::{host_of_url, Config, DomainOverrides, DomainTimeouts};
use chorus::config_file::{backup_path, parse_toml};
use chorus::error::AppError;
use chorus::plan::WorkflowWorker;
use chorus::json::{render_json, Json};

const BASE: &str = r#"
[server]
host = "0.0.0.0"
port = 8080

[[model]]
name = "m1"
api_base = "https://api.example.com:8443/v1"
api_key = "k"
temperature = 0.6
auto_temperature = true

[workflow.timeouts]
analyzer_timeout_secs = 0
worker_timeout_secs = 5

[workflow.domains."api.example.com"]
worker_timeout_secs = 9
"#;

fn with_integration(integration: &str) -> String {
    format!("{}\n[workflow-integration]\n{}\n", BASE, integration)
}

const FLAT: &str = "analyzer = { ref = \"m1\" }\nworkers = [ { name = \"m1\" } ]\nsynthesizer = { ref = \"m1\" }";

#[test]
fn file_values_are_read_and_defaults_applied() {
    let cfg = Config::from_toml_str(&with_integration(FLAT)).unwrap();
    assert_eq!(cfg.server.host, "0.0.0.0");
    assert_eq!(cfg.server.port, 8080);
    assert_eq!(cfg.model.len(), 1);
    assert_eq!(cfg.model[0].temperature.map(|t| t.millis), Some(600));
    assert_eq!(cfg.model[0].auto_temperature, Some(true));
    assert_eq!(cfg.workflow_integration.nested_worker_depth, 1);
    assert_eq!(cfg.workflow.timeouts.analyzer_timeout_secs, 30);
    assert_eq!(cfg.workflow.timeouts.worker_timeout_secs, 5);
    assert_eq!(cfg.workflow.timeouts.synthesizer_timeout_secs, 60);
    assert_eq!(
        cfg.timeouts_for_url("https://api.example.com:8443/v1"),
        DomainTimeouts { analyzer: 30, worker: 9, synthesizer: 60 }
    );
    assert_eq!(
        cfg.get_domain_timeouts("other.example.com"),
        DomainTimeouts { analyzer: 30, worker: 5, synthesizer: 60 }
    );
    assert_eq!(cfg.effective_timeouts_for_domain(None), cfg.workflow.timeouts);
    assert_eq!(cfg.get_model("m1").map(|m| m.api_key.as_str()), Some("k"));
    assert!(cfg.get_model("m2").is_none());
}

#[test]
fn a_single_model_table_is_accepted() {
    let text = with_integration(FLAT).replace("[[model]]", "[model]");
    let cfg = Config::from_toml_str(&text).unwrap();
    assert_eq!(cfg.model.len(), 1);
    assert_eq!(cfg.model[0].name, "m1");
}

fn failure(text: &str) -> AppError {
    match Config::from_toml_str(text) {
        Err(e) => e,
        Ok(c) => panic!("expected a failure, got {:?}", c),
    }
}

#[test]
fn undefined_models_are_listed_by_place() {
    let integration = "analyzer = { ref = \"a\" }\nworkers = [ { name = \"m1\" }, { name = \"w\" }, { analyzer = { ref = \"m1\" }, workers = [ { name = \"deep\" } ], selector = { ref = \"j\" } } ]\nsynthesizer = { ref = \"s\" }";
    match failure(&with_integration(integration)) {
        AppError::WorkflowValidation(m) => assert_eq!(
            m,
            "Workflow configuration references undefined model(s): analyzer 'a', worker[1] 'w', worker[2].worker[0] 'deep', worker[2].selector 'j', synthesizer 's'"
        ),
        other => panic!("expected a validation failure, got {:?}", other),
    }
}

#[test]
fn each_part_of_the_file_is_checked() {
    assert!(matches!(failure("[server"), AppError::TomlParse(_)));
    let no_server = with_integration(FLAT).replace("[server]", "[servers]");
    assert_eq!(failure(&no_server).message(), "Configuration error: missing `server`");
    let bad_port = with_integration(FLAT).replace("port = 8080", "port = 70000");
    assert_eq!(
        failure(&bad_port).message(),
        "Configuration error: `server.port` must be a port number"
    );
    let no_host = with_integration(FLAT).replace("host = \"0.0.0.0\"", "");
    assert_eq!(
        failure(&no_host).message(),
        "Configuration error: `server` needs `host` and `port`"
    );
    let no_key = with_integration(FLAT).replace("api_key = \"k\"", "");
    assert_eq!(
        failure(&no_key).message(),
        "Configuration error: `model` needs `name`, `api_base` and `api_key`"
    );
    let bad_temperature = with_integration(FLAT).replace("temperature = 0.6", "temperature = -0.6");
    assert_eq!(
        failure(&bad_temperature).message(),
        "Configuration error: `temperature` must be a number that is not negative"
    );
    let bad_timeout = with_integration(FLAT).replace("worker_timeout_secs = 9", "worker_timeout_secs = 1.5");
    assert_eq!(
        failure(&bad_timeout).message(),
        "Configuration error: a timeout must be a whole number of seconds"
    );
    assert_eq!(
        failure(BASE).message(),
        "Configuration error: missing `workflow-integration`"
    );
    let zero = with_integration(&format!("nested_worker_depth = 0\n{}", FLAT));
    assert_eq!(
        failure(&zero).message(),
        "Workflow validation failed: nested_worker_depth must be at least 1"
    );
    let broken_json = with_integration("json = \"{\"");
    assert_eq!(
        failure(&broken_json).message(),
        "Workflow validation failed: workflow json is not valid JSON"
    );
}

#[test]
fn legacy_form_becomes_a_plan_and_asks_for_migration() {
    let legacy = with_integration(
        "analyzer_model = \"m1\"\nworker_models = [\"m1\", \"m1\"]\nsynthesizer_model = \"m1\"",
    );
    let tree = parse_toml(&legacy).unwrap();
    assert!(Config::needs_migration(&tree));
    let cfg = Config::from_tree(&tree).unwrap();
    assert_eq!(cfg.workflow_integration.plan.analyzer.model, "m1");
    assert_eq!(cfg.workflow_integration.plan.workers.len(), 2);
    assert_eq!(
        cfg.workflow_integration.plan.synthesizer.as_ref().map(|s| s.model.as_str()),
        Some("m1")
    );
    let migrated = Config::migrated_integration(&tree).unwrap();
    assert_eq!(
        render_json(&migrated),
        "{\"json\":\"{\\\"analyzer\\\":{\\\"ref\\\":\\\"m1\\\"},\\\"synthesizer\\\":{\\\"ref\\\":\\\"m1\\\"},\\\"workers\\\":[{\\\"name\\\":\\\"m1\\\"},{\\\"name\\\":\\\"m1\\\"}]}\",\"nested_worker_depth\":1}"
    );
    let again = Json::Object(vec![("workflow-integration".to_string(), migrated)]);
    assert!(!Config::needs_migration(&again));
    let modern = parse_toml(&with_integration(FLAT)).unwrap();
    assert!(!Config::needs_migration(&modern));
}

#[test]
fn migration_keeps_the_depth_and_the_plan_as_declared() {
    let legacy = with_integration(
        "nested_worker_depth = 2\nanalyzer_model = \"m1\"\nworker_models = [\"m1\"]\nsynthesizer_model = \"m1\"",
    );
    let tree = parse_toml(&legacy).unwrap();
    let cfg = Config::from_tree(&tree).unwrap();
    assert_eq!(cfg.workflow_integration.nested_worker_depth, 2);
    assert!(matches!(cfg.workflow_integration.plan.workers[0], WorkflowWorker::Workflow(_)));
    assert_eq!(
        render_json(&Config::migrated_integration(&tree).unwrap()),
        "{\"json\":\"{\\\"analyzer\\\":{\\\"ref\\\":\\\"m1\\\"},\\\"synthesizer\\\":{\\\"ref\\\":\\\"m1\\\"},\\\"workers\\\":[{\\\"name\\\":\\\"m1\\\"}]}\",\"nested_worker_depth\":2}"
    );
    let broken = parse_toml(&with_integration("worker_models = [\"m1\"]")).unwrap();
    assert_eq!(
        Config::migrated_integration(&broken).unwrap_err().message(),
        "Workflow validation failed: workflow must define an `analyzer`"
    );
}

#[test]
fn json_plan_wins_over_leftover_legacy_keys() {
    let text = with_integration(
        "worker_models = [\"gone\"]\nsynthesizer_model = \"gone\"\njson = \"\"\"{\"analyzer\":{\"ref\":\"m1\"},\"workers\":[{\"name\":\"m1\"}],\"selector\":{\"ref\":\"m1\"}}\"\"\"",
    );
    let tree = parse_toml(&text).unwrap();
    assert!(Config::needs_migration(&tree));
    let cfg = Config::from_tree(&tree).unwrap();
    assert!(cfg.workflow_integration.plan.synthesizer.is_none());
    assert!(cfg.workflow_integration.plan.selector.is_some());
}

#[test]
fn legacy_form_without_analyzer_is_refused() {
    let text = with_integration("worker_models = [\"m1\"]\nsynthesizer_model = \"m1\"");
    assert_eq!(
        failure(&text).message(),
        "Workflow validation failed: workflow must define an `analyzer`"
    );
}

#[test]
fn backup_never_takes_a_used_name() {
    assert_eq!(backup_path("/c/config.toml", false, 1762015072), "/c/config.toml.bak");
    assert_eq!(backup_path("/c/config.toml", true, 1762015072), "/c/config.toml.bak.1762015072");
}

#[test]
fn host_is_cut_out_of_urls() {
    assert_eq!(host_of_url("https://api.example.com/v1"), "api.example.com");
    assert_eq!(host_of_url("http://localhost:8080"), "localhost");
    assert_eq!(host_of_url("api.example.com/v1?x=1"), "api.example.com");
    assert_eq!(host_of_url("https://h?x#y"), "h");
    assert_eq!(host_of_url("https://"), "");
    assert_eq!(host_of_url(""), "");
    assert_eq!(host_of_url("a:b://c/d"), "c");
}

#[test]
fn domain_overrides_can_be_replaced() {
    let mut cfg = Config::from_toml_str(&with_integration(FLAT)).unwrap();
    let none = DomainOverrides {
        analyzer_timeout_secs: Some(1),
        worker_timeout_secs: None,
        synthesizer_timeout_secs: None,
    };
    cfg.set_domain("api.example.com".to_string(), none);
    cfg.set_domain("new.example.com".to_string(), none);
    assert_eq!(cfg.workflow.domains.len(), 2);
    assert_eq!(
        cfg.get_domain_timeouts("api.example.com"),
        DomainTimeouts { analyzer: 1, worker: 5, synthesizer: 60 }
    );
    cfg.workflow.timeouts.worker_timeout_secs = 0;
    cfg.apply_defaults();
    assert_eq!(cfg.workflow.timeouts.worker_timeout_secs, 60);
}

#[test]
fn default_configuration_has_the_default_address_and_timeouts() {
    let cfg = Config::default_config().unwrap();
    assert_eq!(cfg.server.host, "127.0.0.1");
    assert_eq!(cfg.server.port, 11435);
    assert!(cfg.model.is_empty());
    assert!(cfg.workflow.domains.is_empty());
    assert_eq!(cfg.workflow.timeouts.analyzer_timeout_secs, 30);
    assert_eq!(cfg.workflow.timeouts.worker_timeout_secs, 60);
    assert_eq!(cfg.workflow.timeouts.synthesizer_timeout_secs, 60);
    assert_eq!(cfg.workflow_integration.nested_worker_depth, 1);
    assert_eq!(cfg.workflow_integration.plan.analyzer.model, "default");
    assert!(cfg.workflow_integration.plan.workers.is_empty());
    assert!(cfg.validate_workflow().is_err());
}
