//! The errors of the service, each with the HTTP status and the code under
//! which it is reported.

use crate::text::{chars_of, push_chars, push_str, string_of};
use vstd::prelude::*;

verus! {

/// What went wrong, with the detail in words.
#[derive(Debug)]
pub enum AppError {
    Config(String),
    WorkflowValidation(String),
    ModelNotFound(String),
    LLMError(String),
    HttpError(String),
    InvalidRequest(String),
    WorkflowExecution(String),
    Timeout(String),
    Io(String),
    JsonParse(String),
    TomlParse(String),
}

/// The kind of an [`AppError`], without its detail.
#[derive(Clone, Copy, Debug, PartialEq, Eq, Structural)]
pub enum ErrorKind {
    Config,
    WorkflowValidation,
    ModelNotFound,
    LLMError,
    HttpError,
    InvalidRequest,
    WorkflowExecution,
    Timeout,
    Io,
    JsonParse,
    TomlParse,
}

pub struct ErrorView {
    pub kind: ErrorKind,
    pub detail: Seq<char>,
}

impl View for AppError {
    type V = ErrorView;

    open spec fn view(&self) -> ErrorView {
        match self {
            AppError::Config(d) => ErrorView { kind: ErrorKind::Config, detail: d@ },
            AppError::WorkflowValidation(d) => ErrorView {
                kind: ErrorKind::WorkflowValidation,
                detail: d@,
            },
            AppError::ModelNotFound(d) => ErrorView { kind: ErrorKind::ModelNotFound, detail: d@ },
            AppError::LLMError(d) => ErrorView { kind: ErrorKind::LLMError, detail: d@ },
            AppError::HttpError(d) => ErrorView { kind: ErrorKind::HttpError, detail: d@ },
            AppError::InvalidRequest(d) => ErrorView { kind: ErrorKind::InvalidRequest, detail: d@ },
            AppError::WorkflowExecution(d) => ErrorView {
                kind: ErrorKind::WorkflowExecution,
                detail: d@,
            },
            AppError::Timeout(d) => ErrorView { kind: ErrorKind::Timeout, detail: d@ },
            AppError::Io(d) => ErrorView { kind: ErrorKind::Io, detail: d@ },
            AppError::JsonParse(d) => ErrorView { kind: ErrorKind::JsonParse, detail: d@ },
            AppError::TomlParse(d) => ErrorView { kind: ErrorKind::TomlParse, detail: d@ },
        }
    }
}

/// The HTTP status under which a kind of error is reported.
pub open spec fn status_of(kind: ErrorKind) -> u16 {
    match kind {
        ErrorKind::Config => 500,
        ErrorKind::WorkflowValidation => 400,
        ErrorKind::ModelNotFound => 400,
        ErrorKind::LLMError => 502,
        ErrorKind::HttpError => 502,
        ErrorKind::InvalidRequest => 400,
        ErrorKind::WorkflowExecution => 500,
        ErrorKind::Timeout => 504,
        ErrorKind::Io => 500,
        ErrorKind::JsonParse => 400,
        ErrorKind::TomlParse => 400,
    }
}

/// The code under which a kind of error is reported.
pub open spec fn code_of(kind: ErrorKind) -> Seq<char> {
    match kind {
        ErrorKind::Config => "config_error"@,
        ErrorKind::WorkflowValidation => "workflow_validation_error"@,
        ErrorKind::ModelNotFound => "model_not_found"@,
        ErrorKind::LLMError => "llm_error"@,
        ErrorKind::HttpError => "http_error"@,
        ErrorKind::InvalidRequest => "invalid_request"@,
        ErrorKind::WorkflowExecution => "workflow_execution_error"@,
        ErrorKind::Timeout => "timeout_error"@,
        ErrorKind::Io => "io_error"@,
        ErrorKind::JsonParse => "json_parse_error"@,
        ErrorKind::TomlParse => "toml_parse_error"@,
    }
}

/// The words that open the message of a kind of error.
pub open spec fn prefix_of(kind: ErrorKind) -> Seq<char> {
    match kind {
        ErrorKind::Config => "Configuration error: "@,
        ErrorKind::WorkflowValidation => "Workflow validation failed: "@,
        ErrorKind::ModelNotFound => "Model not found: "@,
        ErrorKind::LLMError => "LLM API error: "@,
        ErrorKind::HttpError => "HTTP request error: "@,
        ErrorKind::InvalidRequest => "Invalid request: "@,
        ErrorKind::WorkflowExecution => "Workflow execution failed: "@,
        ErrorKind::Timeout => "Timeout error: "@,
        ErrorKind::Io => "IO error: "@,
        ErrorKind::JsonParse => "JSON parse error: "@,
        ErrorKind::TomlParse => "TOML parse error: "@,
    }
}

impl AppError {
    pub fn kind(&self) -> (k: ErrorKind)
        ensures
            k == self@.kind,
    {
        match self {
            AppError::Config(_) => ErrorKind::Config,
            AppError::WorkflowValidation(_) => ErrorKind::WorkflowValidation,
            AppError::ModelNotFound(_) => ErrorKind::ModelNotFound,
            AppError::LLMError(_) => ErrorKind::LLMError,
            AppError::HttpError(_) => ErrorKind::HttpError,
            AppError::InvalidRequest(_) => ErrorKind::InvalidRequest,
            AppError::WorkflowExecution(_) => ErrorKind::WorkflowExecution,
            AppError::Timeout(_) => ErrorKind::Timeout,
            AppError::Io(_) => ErrorKind::Io,
            AppError::JsonParse(_) => ErrorKind::JsonParse,
            AppError::TomlParse(_) => ErrorKind::TomlParse,
        }
    }

    /// The detail of the error, without the words that name its kind.
    pub fn detail(&self) -> (d: &String)
        ensures
            d@ == self@.detail,
    {
        match self {
            AppError::Config(d) => d,
            AppError::WorkflowValidation(d) => d,
            AppError::ModelNotFound(d) => d,
            AppError::LLMError(d) => d,
            AppError::HttpError(d) => d,
            AppError::InvalidRequest(d) => d,
            AppError::WorkflowExecution(d) => d,
            AppError::Timeout(d) => d,
            AppError::Io(d) => d,
            AppError::JsonParse(d) => d,
            AppError::TomlParse(d) => d,
        }
    }

    /// The HTTP status under which the error is reported.
    pub fn status_code(&self) -> (r: u16)
        ensures
            r == status_of(self@.kind),
    {
        match self {
            AppError::Config(_) => 500,
            AppError::WorkflowValidation(_) => 400,
            AppError::ModelNotFound(_) => 400,
            AppError::LLMError(_) => 502,
            AppError::HttpError(_) => 502,
            AppError::InvalidRequest(_) => 400,
            AppError::WorkflowExecution(_) => 500,
            AppError::Timeout(_) => 504,
            AppError::Io(_) => 500,
            AppError::JsonParse(_) => 400,
            AppError::TomlParse(_) => 400,
        }
    }

    /// The code under which the error is reported.
    pub fn error_code(&self) -> (r: &'static str)
        ensures
            r@ == code_of(self@.kind),
    {
        match self {
            AppError::Config(_) => "config_error",
            AppError::WorkflowValidation(_) => "workflow_validation_error",
            AppError::ModelNotFound(_) => "model_not_found",
            AppError::LLMError(_) => "llm_error",
            AppError::HttpError(_) => "http_error",
            AppError::InvalidRequest(_) => "invalid_request",
            AppError::WorkflowExecution(_) => "workflow_execution_error",
            AppError::Timeout(_) => "timeout_error",
            AppError::Io(_) => "io_error",
            AppError::JsonParse(_) => "json_parse_error",
            AppError::TomlParse(_) => "toml_parse_error",
        }
    }

    /// The message of the error: the words of its kind, then its detail.
    pub fn message(&self) -> (s: String)
        ensures
            s@ == prefix_of(self@.kind) + self@.detail,
    {
        let prefix: &str = match self {
            AppError::Config(_) => "Configuration error: ",
            AppError::WorkflowValidation(_) => "Workflow validation failed: ",
            AppError::ModelNotFound(_) => "Model not found: ",
            AppError::LLMError(_) => "LLM API error: ",
            AppError::HttpError(_) => "HTTP request error: ",
            AppError::InvalidRequest(_) => "Invalid request: ",
            AppError::WorkflowExecution(_) => "Workflow execution failed: ",
            AppError::Timeout(_) => "Timeout error: ",
            AppError::Io(_) => "IO error: ",
            AppError::JsonParse(_) => "JSON parse error: ",
            AppError::TomlParse(_) => "TOML parse error: ",
        };
        let mut out: Vec<char> = Vec::new();
        push_str(&mut out, prefix);
        let d = chars_of(self.detail().as_str());
        push_chars(&mut out, &d);
        assert(out@ =~= prefix_of(self@.kind) + self@.detail);
        string_of(&out)
    }
}

} // verus!
