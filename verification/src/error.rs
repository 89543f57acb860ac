//! Errors of the Kubernetes client and of the executor, with the texts
//! that they display.
use vstd::prelude::*;
use vstd::std_specs::convert::FromSpecImpl;
use crate::text::str_eq;
use crate::views::owned;

verus! {

/// Failures of Kubernetes operations.
#[derive(Debug, Clone, PartialEq, Eq)]
pub enum KubernetesError {
    ApiError(String),
    CreateJobError(String),
    GetJobStatusError(String),
    DeleteJobError(String),
    GetPodLogsError(String),
    ConfigError(String),
}

pub open spec fn kubernetes_error_text(e: KubernetesError) -> Seq<char> {
    match e {
        KubernetesError::ApiError(m) => "Kubernetes API error: "@ + m@,
        KubernetesError::CreateJobError(m) => "Failed to create job: "@ + m@,
        KubernetesError::GetJobStatusError(m) => "Failed to get job status: "@ + m@,
        KubernetesError::DeleteJobError(m) => "Failed to delete job: "@ + m@,
        KubernetesError::GetPodLogsError(m) => "Failed to get pod logs: "@ + m@,
        KubernetesError::ConfigError(m) => "Configuration error: "@ + m@,
    }
}

impl KubernetesError {
    /// The text that this error displays.
    pub fn to_string(&self) -> (s: String)
        ensures
            s@ == kubernetes_error_text(*self),
    {
        match self {
            KubernetesError::ApiError(m) => String::from_str("Kubernetes API error: ").concat(m.as_str()),
            KubernetesError::CreateJobError(m) => String::from_str("Failed to create job: ").concat(m.as_str()),
            KubernetesError::GetJobStatusError(m) => String::from_str("Failed to get job status: ").concat(
                m.as_str(),
            ),
            KubernetesError::DeleteJobError(m) => String::from_str("Failed to delete job: ").concat(m.as_str()),
            KubernetesError::GetPodLogsError(m) => String::from_str("Failed to get pod logs: ").concat(m.as_str()),
            KubernetesError::ConfigError(m) => String::from_str("Configuration error: ").concat(m.as_str()),
        }
    }

    /// A copy of the error.
    pub fn duplicate(&self) -> (r: Self)
        ensures
            r == *self,
    {
        match self {
            KubernetesError::ApiError(m) => KubernetesError::ApiError(m.clone()),
            KubernetesError::CreateJobError(m) => KubernetesError::CreateJobError(m.clone()),
            KubernetesError::GetJobStatusError(m) => KubernetesError::GetJobStatusError(m.clone()),
            KubernetesError::DeleteJobError(m) => KubernetesError::DeleteJobError(m.clone()),
            KubernetesError::GetPodLogsError(m) => KubernetesError::GetPodLogsError(m.clone()),
            KubernetesError::ConfigError(m) => KubernetesError::ConfigError(m.clone()),
        }
    }
}

/// Failures of the executor.
#[derive(Debug, Clone, PartialEq, Eq)]
pub enum ExecutorError {
    DatabaseError(String),
    KubernetesError(KubernetesError),
    JobExecutionError { message: String, category: String },
    ConfigError(String),
    NotFound(String),
}

pub open spec fn executor_error_text(e: ExecutorError) -> Seq<char> {
    match e {
        ExecutorError::DatabaseError(m) => "Database error: "@ + m@,
        ExecutorError::KubernetesError(k) => "Kubernetes error: "@ + kubernetes_error_text(k),
        ExecutorError::JobExecutionError { message, category } => "Job execution error: "@ + message@
            + " (category: "@ + category@ + ")"@,
        ExecutorError::ConfigError(m) => "Configuration error: "@ + m@,
        ExecutorError::NotFound(m) => "Not found: "@ + m@,
    }
}

/// An error is permanent when it is a job-execution error whose category
/// is `permanent`.
pub open spec fn spec_is_permanent(e: ExecutorError) -> bool {
    match e {
        ExecutorError::JobExecutionError { category, .. } => category@ == "permanent"@,
        _ => false,
    }
}

pub type Result<T> = core::result::Result<T, ExecutorError>;

impl ExecutorError {
    /// A job-execution error with the given message and category.
    pub fn job_execution_error(message: &str, category: &str) -> (e: Self)
        ensures
            e matches ExecutorError::JobExecutionError { message: m, category: c } && m@ == message@
                && c@ == category@,
    {
        ExecutorError::JobExecutionError { message: owned(message), category: owned(category) }
    }

    /// Whether retrying cannot help: a job-execution error of category
    /// `permanent`.
    pub fn is_permanent(&self) -> (b: bool)
        ensures
            b == spec_is_permanent(*self),
            self is JobExecutionError ==> (b <==> self->category@ == "permanent"@),
            !(self is JobExecutionError) ==> !b,
    {
        match self {
            ExecutorError::JobExecutionError { category, .. } => str_eq(category.as_str(), "permanent"),
            _ => false,
        }
    }

    /// The text that this error displays.
    pub fn to_string(&self) -> (s: String)
        ensures
            s@ == executor_error_text(*self),
    {
        match self {
            ExecutorError::DatabaseError(m) => String::from_str("Database error: ").concat(m.as_str()),
            ExecutorError::KubernetesError(k) => {
                let inner = k.to_string();
                String::from_str("Kubernetes error: ").concat(inner.as_str())
            },
            ExecutorError::JobExecutionError { message, category } => {
                let s = String::from_str("Job execution error: ").concat(message.as_str());
                let s = s.concat(" (category: ");
                let s = s.concat(category.as_str());
                s.concat(")")
            },
            ExecutorError::ConfigError(m) => String::from_str("Configuration error: ").concat(m.as_str()),
            ExecutorError::NotFound(m) => String::from_str("Not found: ").concat(m.as_str()),
        }
    }
}

impl From<KubernetesError> for ExecutorError {
    fn from(e: KubernetesError) -> (r: Self) {
        ExecutorError::KubernetesError(e)
    }
}

impl FromSpecImpl<KubernetesError> for ExecutorError {
    open spec fn obeys_from_spec() -> bool {
        true
    }

    open spec fn from_spec(v: KubernetesError) -> Self {
        ExecutorError::KubernetesError(v)
    }
}

} // verus!
