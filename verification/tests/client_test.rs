use job_orchestrator::error::KubernetesError;
use job_orchestrator::k8s::{
    build_job_manifest, delete_outcome, first_pod_name, pod_label_selector, DeleteFailure, JobSettings,
};
use job_orchestrator::strmap::StrMap;
use job_orchestrator::types::{JobExecutionSpec, K8sJobCondition, K8sJobStatus, ResourceRequirements};

#[test]
fn test_kubernetes_error_display() {
    let error = KubernetesError::ConfigError("Failed to load config".to_string());
    let error_str = error.to_string();
    assert!(error_str.contains("Failed to load config"));
}

#[test]
fn test_kubernetes_error_types() {
    let config_error = KubernetesError::ConfigError("Config error".to_string());
    match config_error {
        KubernetesError::ConfigError(_) => {}
        _ => panic!("Expected ConfigError"),
    }

    let create_error = KubernetesError::CreateJobError("Create failed".to_string());
    match create_error {
        KubernetesError::CreateJobError(_) => {}
        _ => panic!("Expected CreateJobError"),
    }

    let status_error = KubernetesError::GetJobStatusError("Status failed".to_string());
    match status_error {
        KubernetesError::GetJobStatusError(_) => {}
        _ => panic!("Expected GetJobStatusError"),
    }
}

#[test]
fn test_job_status_completion() {
    let succeeded = K8sJobStatus {
        active: 0,
        succeeded: 1,
        failed: 0,
        start_time: None,
        completion_time: None,
        conditions: None,
    };
    assert_eq!(succeeded.succeeded, 1);

    let failed = K8sJobStatus {
        active: 0,
        succeeded: 0,
        failed: 1,
        start_time: None,
        completion_time: None,
        conditions: None,
    };
    assert_eq!(failed.failed, 1);

    let running = K8sJobStatus {
        active: 1,
        succeeded: 0,
        failed: 0,
        start_time: None,
        completion_time: None,
        conditions: None,
    };
    assert_eq!(running.active, 1);
}

#[test]
fn kubernetes_error_texts() {
    assert_eq!(KubernetesError::ApiError("x".to_string()).to_string(), "Kubernetes API error: x");
    assert_eq!(KubernetesError::CreateJobError("x".to_string()).to_string(), "Failed to create job: x");
    assert_eq!(KubernetesError::GetJobStatusError("x".to_string()).to_string(), "Failed to get job status: x");
    assert_eq!(KubernetesError::DeleteJobError("x".to_string()).to_string(), "Failed to delete job: x");
    assert_eq!(KubernetesError::ConfigError("x".to_string()).to_string(), "Configuration error: x");
}

#[test]
fn reported_counts_default_to_zero() {
    let condition = K8sJobCondition {
        condition_type: "Complete".to_string(),
        status: "True".to_string(),
        last_probe_time: None,
        last_transition_time: Some("2024-01-01T00:00:00+00:00".to_string()),
        reason: None,
        message: None,
    };
    let s = K8sJobStatus::from_reported(None, Some(1), None, Some("2024-01-01T00:00:00+00:00".to_string()), None, Some(vec![condition.clone()]));
    assert_eq!(s.active, 0);
    assert_eq!(s.succeeded, 1);
    assert_eq!(s.failed, 0);
    assert_eq!(s.start_time, Some("2024-01-01T00:00:00+00:00".to_string()));
    assert_eq!(s.completion_time, None);
    assert_eq!(s.conditions, Some(vec![condition]));
}

#[test]
fn deleting_a_missing_job_succeeds() {
    assert_eq!(delete_outcome(Ok(())), Ok(()));
    let gone = DeleteFailure { api_status_code: Some(404), message: "not found".to_string() };
    assert_eq!(delete_outcome(Err(gone)), Ok(()));
    let forbidden = DeleteFailure { api_status_code: Some(403), message: "forbidden".to_string() };
    assert_eq!(delete_outcome(Err(forbidden)), Err(KubernetesError::DeleteJobError("forbidden".to_string())));
    let offline = DeleteFailure { api_status_code: None, message: "connection refused".to_string() };
    assert_eq!(
        delete_outcome(Err(offline)),
        Err(KubernetesError::DeleteJobError("connection refused".to_string()))
    );
}

#[test]
fn pods_are_selected_by_job_name() {
    assert_eq!(pod_label_selector("job-1234abcd"), "job-name=job-1234abcd");
    assert_eq!(first_pod_name(vec![]), None);
    assert_eq!(first_pod_name(vec![None, Some("b".to_string())]), None);
    assert_eq!(first_pod_name(vec![Some("a".to_string()), Some("b".to_string())]), Some("a".to_string()));
}

#[test]
fn job_settings_defaults() {
    let s = JobSettings::from_env_values(None, None, None, None);
    assert_eq!(
        s.output_collector_image,
        "us-docker.pkg.dev/sonic-glazing-475623-j4/job-orchestrator/output-collector:latest"
    );
    assert_eq!(s.api_service_url, "http://job-orchestrator-api");
    assert_eq!(s.ttl_seconds, 3600);
    assert_eq!(s.backoff_limit, 0);

    let s = JobSettings::from_env_values(
        Some("collector:1".to_string()),
        Some("http://api".to_string()),
        Some("120".to_string()),
        Some("2".to_string()),
    );
    assert_eq!(s.output_collector_image, "collector:1");
    assert_eq!(s.api_service_url, "http://api");
    assert_eq!(s.ttl_seconds, 120);
    assert_eq!(s.backoff_limit, 2);

    let s = JobSettings::from_env_values(None, None, Some("soon".to_string()), Some("-1".to_string()));
    assert_eq!(s.ttl_seconds, 3600);
    assert_eq!(s.backoff_limit, -1);
}

fn sample_spec() -> JobExecutionSpec {
    let mut env = StrMap::new();
    env.insert("JOB_ID".to_string(), "job-1".to_string());
    env.insert("MODE".to_string(), "fast".to_string());
    let mut labels = StrMap::new();
    labels.insert("topic".to_string(), "default".to_string());
    labels.insert("app.kubernetes.io/managed-by".to_string(), "someone-else".to_string());
    JobExecutionSpec {
        job_id: "job-1".to_string(),
        image_path: "docker.io/library/alpine:latest".to_string(),
        command: Some(vec!["echo".to_string()]),
        args: Some(vec!["hello".to_string()]),
        environment_variables: env,
        resources: ResourceRequirements::new("250m", "256Mi"),
        labels,
        namespace: "jobs".to_string(),
        job_name: "job-job-1".to_string(),
    }
}

#[test]
fn manifest_of_a_job() {
    let spec = sample_spec();
    let settings = JobSettings::from_env_values(None, Some("http://api".to_string()), None, None);
    let m = build_job_manifest(&spec, &settings);
    assert_eq!(m.name, "job-job-1");
    assert_eq!(m.namespace, "jobs");
    assert_eq!(m.ttl_seconds_after_finished, 3600);
    assert_eq!(m.backoff_limit, 0);
    assert_eq!(m.restart_policy, "Never");
    assert_eq!(m.empty_dir_volumes, vec!["job-output".to_string()]);
    assert_eq!(m.labels.get("job-orchestrator.io/job-id"), Some(&"job-1".to_string()));
    assert_eq!(m.labels.get("topic"), Some(&"default".to_string()));
    assert_eq!(m.labels.get("app.kubernetes.io/managed-by"), Some(&"someone-else".to_string()));
    assert_eq!(m.labels.len(), 3);

    assert_eq!(m.containers.len(), 2);
    let job = &m.containers[0];
    assert_eq!(job.name, "job");
    assert_eq!(job.image, "docker.io/library/alpine:latest");
    assert_eq!(job.image_pull_policy, None);
    assert_eq!(job.command, Some(vec!["echo".to_string()]));
    assert_eq!(job.args, Some(vec!["hello".to_string()]));
    let env: Vec<(String, String)> = job.env.iter().map(|e| (e.name.clone(), e.value.clone())).collect();
    assert_eq!(
        env,
        vec![("JOB_ID".to_string(), "job-1".to_string()), ("MODE".to_string(), "fast".to_string())]
    );
    assert_eq!(job.requests.cpu, "250m");
    assert_eq!(job.requests.memory, "256Mi");
    assert_eq!(job.limits.cpu, "250m");
    assert_eq!(job.limits.memory, "256Mi");
    assert_eq!(job.volume_mounts.len(), 1);
    assert_eq!(job.volume_mounts[0].name, "job-output");
    assert_eq!(job.volume_mounts[0].mount_path, "/output");
    assert_eq!(job.volume_mounts[0].read_only, None);

    let collector = &m.containers[1];
    assert_eq!(collector.name, "output-collector");
    assert_eq!(
        collector.image,
        "us-docker.pkg.dev/sonic-glazing-475623-j4/job-orchestrator/output-collector:latest"
    );
    assert_eq!(collector.image_pull_policy, Some("IfNotPresent".to_string()));
    let env: Vec<(String, String)> = collector.env.iter().map(|e| (e.name.clone(), e.value.clone())).collect();
    assert_eq!(
        env,
        vec![
            ("JOB_ID".to_string(), "job-1".to_string()),
            ("API_URL".to_string(), "http://api".to_string()),
            ("OUTPUT_FILE".to_string(), "/output/result.json".to_string()),
            ("MAX_WAIT_SECONDS".to_string(), "300".to_string()),
            ("POLL_INTERVAL_MS".to_string(), "2000".to_string()),
        ]
    );
    assert_eq!(collector.requests.cpu, "10m");
    assert_eq!(collector.requests.memory, "32Mi");
    assert_eq!(collector.limits.cpu, "50m");
    assert_eq!(collector.limits.memory, "64Mi");
    assert_eq!(collector.volume_mounts[0].read_only, Some(true));
}
