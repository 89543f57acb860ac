use job_orchestrator::error::{ExecutorError, KubernetesError};

#[test]
fn test_job_execution_error_creation() {
    let error = ExecutorError::job_execution_error("test message", "transient");

    match error {
        ExecutorError::JobExecutionError { message, category } => {
            assert_eq!(message, "test message");
            assert_eq!(category, "transient");
        }
        _ => panic!("Expected JobExecutionError"),
    }
}

#[test]
fn test_error_is_permanent() {
    let permanent = ExecutorError::job_execution_error("error", "permanent");
    assert!(permanent.is_permanent());

    let transient = ExecutorError::job_execution_error("error", "transient");
    assert!(!transient.is_permanent());

    let recoverable = ExecutorError::job_execution_error("error", "recoverable");
    assert!(!recoverable.is_permanent());
}

#[test]
fn test_database_error() {
    let error = ExecutorError::DatabaseError("Connection failed".to_string());

    match &error {
        ExecutorError::DatabaseError(msg) => {
            assert_eq!(msg, "Connection failed");
        }
        _ => panic!("Expected DatabaseError"),
    }

    assert!(!error.is_permanent());
}

#[test]
fn test_kubernetes_error_from() {
    let k8s_error = KubernetesError::ConfigError("Config failed".to_string());
    let executor_error = ExecutorError::from(k8s_error);

    match executor_error {
        ExecutorError::KubernetesError(_) => {}
        _ => panic!("Expected KubernetesError"),
    }
}

#[test]
fn test_error_display() {
    let error = ExecutorError::job_execution_error("Test error", "permanent");
    let error_str = error.to_string();
    assert!(error_str.contains("Test error"));
    assert!(error_str.contains("permanent"));
}

#[test]
fn executor_error_texts() {
    assert_eq!(
        ExecutorError::job_execution_error("Image is not active", "permanent").to_string(),
        "Job execution error: Image is not active (category: permanent)"
    );
    assert_eq!(ExecutorError::DatabaseError("down".to_string()).to_string(), "Database error: down");
    assert_eq!(ExecutorError::ConfigError("bad".to_string()).to_string(), "Configuration error: bad");
    assert_eq!(ExecutorError::NotFound("job-1".to_string()).to_string(), "Not found: job-1");
    assert_eq!(
        ExecutorError::KubernetesError(KubernetesError::DeleteJobError("gone".to_string())).to_string(),
        "Kubernetes error: Failed to delete job: gone"
    );
}

#[test]
fn only_permanent_job_errors_are_permanent() {
    assert!(!ExecutorError::ConfigError("permanent".to_string()).is_permanent());
    assert!(!ExecutorError::NotFound("permanent".to_string()).is_permanent());
    assert!(!ExecutorError::KubernetesError(KubernetesError::ApiError("permanent".to_string())).is_permanent());
    assert!(!ExecutorError::job_execution_error("x", "Permanent").is_permanent());
}

#[test]
fn kubernetes_error_copy_is_equal() {
    let e = KubernetesError::GetPodLogsError("no pod".to_string());
    assert_eq!(e.duplicate(), e);
    assert_eq!(e.to_string(), "Failed to get pod logs: no pod");
}
