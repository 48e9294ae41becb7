use chorus::error::{AppError, ErrorKind};

fn all_errors() -> Vec<(AppError, ErrorKind, u16, &'static str, &'static str)> {
    let d = || "d".to_string();
    vec![
        (AppError::Config(d()), ErrorKind::Config, 500, "config_error", "Configuration error: d"),
        (AppError::WorkflowValidation(d()), ErrorKind::WorkflowValidation, 400, "workflow_validation_error", "Workflow validation failed: d"),
        (AppError::ModelNotFound(d()), ErrorKind::ModelNotFound, 400, "model_not_found", "Model not found: d"),
        (AppError::LLMError(d()), ErrorKind::LLMError, 502, "llm_error", "LLM API error: d"),
        (AppError::HttpError(d()), ErrorKind::HttpError, 502, "http_error", "HTTP request error: d"),
        (AppError::InvalidRequest(d()), ErrorKind::InvalidRequest, 400, "invalid_request", "Invalid request: d"),
        (AppError::WorkflowExecution(d()), ErrorKind::WorkflowExecution, 500, "workflow_execution_error", "Workflow execution failed: d"),
        (AppError::Timeout(d()), ErrorKind::Timeout, 504, "timeout_error", "Timeout error: d"),
        (AppError::Io(d()), ErrorKind::Io, 500, "io_error", "IO error: d"),
        (AppError::JsonParse(d()), ErrorKind::JsonParse, 400, "json_parse_error", "JSON parse error: d"),
        (AppError::TomlParse(d()), ErrorKind::TomlParse, 400, "toml_parse_error", "TOML parse error: d"),
    ]
}

#[test]
fn every_error_has_its_status_code_and_message() {
    for (err, kind, status, code, message) in all_errors() {
        assert_eq!(err.kind(), kind);
        assert_eq!(err.status_code(), status, "{:?}", kind);
        assert_eq!(err.error_code(), code);
        assert_eq!(err.message(), message);
        assert_eq!(err.detail(), "d");
    }
}
