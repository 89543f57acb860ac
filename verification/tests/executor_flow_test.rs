use job_orchestrator::database::ImageInfo;
use job_orchestrator::error::ExecutorError;
use job_orchestrator::executor::{
    build_job_spec, claimed_history, finished_outcome, job_created_history, monitor_decision, reported_outputs,
    running_update, timeout_outcome, truncate_bytes, MonitorDecision,
};
use job_orchestrator::json::JsonValue;
use job_orchestrator::strmap::StrMap;
use job_orchestrator::types::{
    ExecutorConfig, JobStatus, K8sJobCondition, K8sJobStatus, PartialResourceRequirements, QueuedJob,
    ResourceRequirements, Timestamp,
};

fn at() -> Timestamp {
    Timestamp { millis: 1_700_000_000_000 }
}

fn job() -> QueuedJob {
    let mut env = StrMap::new();
    env.insert("LEVEL".to_string(), "debug".to_string());
    env.insert("SHARED".to_string(), "from-job".to_string());
    let mut inputs = StrMap::new();
    inputs.insert("name".to_string(), JsonValue::from_string("world"));
    inputs.insert("count".to_string(), JsonValue::from_i64(3));
    let mut labels = StrMap::new();
    labels.insert("team".to_string(), "data".to_string());
    QueuedJob {
        id: "0123456789abcdef".to_string(),
        topic: "reports".to_string(),
        status: JobStatus::Claimed,
        image_id: "image-1".to_string(),
        job_name: Some("nightly".to_string()),
        k8s_job_name: None,
        k8s_namespace: None,
        claimed_by: Some("exec-1".to_string()),
        claimed_at: Some(at()),
        started_at: None,
        completed_at: None,
        retry_count: 1,
        max_retries: 3,
        priority: 0,
        error_message: None,
        result_data: None,
        created_at: at(),
        updated_at: at(),
        created_by: "tester".to_string(),
        command: Some(vec!["python".to_string(), "run.py".to_string()]),
        args: None,
        environment_variables: Some(env),
        resource_overrides: Some(PartialResourceRequirements { cpu: None, memory: Some("1Gi".to_string()) }),
        labels: Some(labels),
        inputs: Some(inputs),
        outputs: None,
        dag_execution_id: None,
        dag_node_execution_id: None,
    }
}

fn image(active: bool) -> ImageInfo {
    let mut env = StrMap::new();
    env.insert("SHARED".to_string(), "from-image".to_string());
    env.insert("BASE".to_string(), "1".to_string());
    let mut labels = StrMap::new();
    labels.insert("team".to_string(), "platform".to_string());
    labels.insert("tier".to_string(), "batch".to_string());
    ImageInfo::new("image-1".to_string(), "registry/app:1".to_string(), active, env, None, labels)
}

fn config() -> ExecutorConfig {
    ExecutorConfig {
        topics: vec!["reports".to_string()],
        poll_interval: 1000,
        batch_size: 5,
        kubernetes_namespace: "jobs".to_string(),
        instance_id: "exec-1".to_string(),
    }
}

fn status(succeeded: i32, failed: i32) -> K8sJobStatus {
    K8sJobStatus { active: 0, succeeded, failed, start_time: None, completion_time: None, conditions: None }
}

#[test]
fn spec_of_a_claimed_job() {
    let spec = build_job_spec(&job(), &image(true), &config()).unwrap();
    assert_eq!(spec.job_id, "0123456789abcdef");
    assert_eq!(spec.image_path, "registry/app:1");
    assert_eq!(spec.job_name, "job-01234567");
    assert_eq!(spec.namespace, "jobs");
    assert_eq!(spec.command, Some(vec!["python".to_string(), "run.py".to_string()]));
    let env = &spec.environment_variables;
    assert_eq!(env.get("SHARED"), Some(&"from-job".to_string()));
    assert_eq!(env.get("BASE"), Some(&"1".to_string()));
    assert_eq!(env.get("LEVEL"), Some(&"debug".to_string()));
    assert_eq!(env.get("JOB_ID"), Some(&"0123456789abcdef".to_string()));
    assert_eq!(env.get("TOPIC"), Some(&"reports".to_string()));
    assert_eq!(env.get("NAME"), Some(&"world".to_string()));
    assert_eq!(env.get("COUNT"), Some(&"3".to_string()));
    assert_eq!(env.get("name"), None);
    assert_eq!(env.len(), 7);
    assert_eq!(spec.resources, ResourceRequirements::new("100m", "1Gi"));
    assert_eq!(spec.labels.get("team"), Some(&"data".to_string()));
    assert_eq!(spec.labels.get("tier"), Some(&"batch".to_string()));
    assert_eq!(spec.labels.get("topic"), Some(&"reports".to_string()));
}

#[test]
fn inactive_images_fail_permanently() {
    match build_job_spec(&job(), &image(false), &config()) {
        Err(e) => {
            assert!(e.is_permanent());
            assert_eq!(e, ExecutorError::job_execution_error("Image is not active", "permanent"));
        }
        Ok(_) => panic!("inactive image accepted"),
    }
}

#[test]
fn short_ids_and_given_names() {
    let mut j = job();
    j.id = "abc".to_string();
    assert_eq!(build_job_spec(&j, &image(true), &config()).unwrap().job_name, "job-abc");
    j.k8s_job_name = Some("custom".to_string());
    assert_eq!(build_job_spec(&j, &image(true), &config()).unwrap().job_name, "custom");
}

#[test]
fn records_of_the_steps() {
    let j = job();
    let h = claimed_history(&j, "exec-1");
    assert_eq!(h.status, JobStatus::Claimed);
    assert_eq!(h.message, Some("Job claimed by executor exec-1".to_string()));
    assert_eq!(h.metadata.as_ref().unwrap().get("executor_id"), Some(&JsonValue::from_string("exec-1")));

    let u = running_update(&j, "job-01234567", at());
    assert_eq!(u.status, JobStatus::Running);
    assert_eq!(u.k8s_job_name, Some("job-01234567".to_string()));
    assert_eq!(u.started_at, Some(at()));
    assert_eq!(u.completed_at, None);

    let spec = build_job_spec(&j, &image(true), &config()).unwrap();
    let h = job_created_history(&j, &spec);
    assert_eq!(h.status, JobStatus::Running);
    assert_eq!(h.message, Some("Kubernetes Job created: job-01234567".to_string()));
    let meta = h.metadata.as_ref().unwrap();
    assert_eq!(meta.get("namespace"), Some(&JsonValue::from_string("jobs")));
    assert_eq!(meta.get("image_path"), Some(&JsonValue::from_string("registry/app:1")));
}

#[test]
fn decisions_from_kubernetes_status() {
    let mut j = job();
    assert_eq!(monitor_decision(&j, &status(1, 1)), MonitorDecision::Succeeded);
    assert_eq!(monitor_decision(&j, &status(0, 1)), MonitorDecision::Retry);
    assert_eq!(monitor_decision(&j, &status(0, 0)), MonitorDecision::StillRunning);
    j.retry_count = 3;
    assert_eq!(monitor_decision(&j, &status(0, 2)), MonitorDecision::FailedPermanently);
}

#[test]
fn succeeded_outcome() {
    let j = job();
    let mut s = status(1, 0);
    let condition = K8sJobCondition {
        condition_type: "Complete".to_string(),
        status: "True".to_string(),
        last_probe_time: None,
        last_transition_time: None,
        reason: None,
        message: None,
    };
    s.conditions = Some(vec![condition.clone()]);
    let o = finished_outcome(&j, &s, MonitorDecision::Succeeded, "all good", at());
    assert!(!o.requeue);
    assert!(o.report_completion);
    assert_eq!(o.report_failure, None);
    let u = o.update.unwrap();
    assert_eq!(u.status, JobStatus::Completed);
    assert_eq!(u.completed_at, Some(at()));
    assert_eq!(o.history.status, JobStatus::Completed);
    assert_eq!(o.history.message, Some("Job completed successfully".to_string()));
    assert_eq!(o.history.pod_logs, Some("all good".to_string()));
    assert_eq!(o.history.k8s_events, Some(vec![condition]));
}

#[test]
fn retry_outcome() {
    let j = job();
    let o = finished_outcome(&j, &status(0, 1), MonitorDecision::Retry, "oops", at());
    assert!(o.requeue);
    assert!(o.update.is_none());
    assert!(!o.report_completion);
    assert_eq!(o.report_failure, None);
    assert_eq!(o.history.status, JobStatus::Failed);
    assert_eq!(
        o.history.message,
        Some("Kubernetes Job failed, requeuing for retry (attempt 2/3)".to_string())
    );
}

#[test]
fn permanent_failure_outcome() {
    let mut j = job();
    j.retry_count = 3;
    let logs = "x".repeat(60000);
    let o = finished_outcome(&j, &status(0, 1), MonitorDecision::FailedPermanently, &logs, at());
    assert!(!o.requeue);
    assert_eq!(o.report_failure, Some("Kubernetes job failed".to_string()));
    let u = o.update.unwrap();
    assert_eq!(u.status, JobStatus::Failed);
    assert_eq!(u.error_message, Some("Kubernetes job failed".to_string()));
    let data = u.result_data.unwrap();
    assert_eq!(data.text.len(), "{\"logs\":\"\"}".len() + 10000);
    assert_eq!(o.history.message, Some("Kubernetes Job permanently failed".to_string()));
    assert_eq!(o.history.pod_logs.unwrap().len(), 50000);
}

#[test]
fn timeout_outcomes() {
    let j = job();
    let o = timeout_outcome(&j, "", at());
    let u = o.update.unwrap();
    assert_eq!(u.error_message, Some("Job monitoring timeout after 24 hours".to_string()));
    assert_eq!(u.result_data, None);
    assert_eq!(o.history.pod_logs, Some("No logs available".to_string()));

    let o = timeout_outcome(&j, "partial \"log\"", at());
    let u = o.update.unwrap();
    assert_eq!(u.result_data, Some(JsonValue { text: "{\"logs\":\"partial \\\"log\\\"\"}".to_string() }));
    assert_eq!(o.history.pod_logs, Some("partial \"log\"".to_string()));
}

#[test]
fn outputs_once_reported() {
    let mut j = job();
    assert!(reported_outputs(&j).is_none());
    j.outputs = Some(StrMap::new());
    assert!(reported_outputs(&j).is_none());
    let mut outputs = StrMap::new();
    outputs.insert("result".to_string(), JsonValue::from_string("ok"));
    j.outputs = Some(outputs);
    let r = reported_outputs(&j).unwrap();
    assert_eq!(r.get("result"), Some(&JsonValue::from_string("ok")));
}

#[test]
fn cutting_text_by_bytes() {
    assert_eq!(truncate_bytes("hello", 10), "hello");
    assert_eq!(truncate_bytes("hello", 3), "hel");
    assert_eq!(truncate_bytes("héllo", 3), "hé");
}

#[test]
fn json_values_as_environment_text() {
    assert_eq!(JsonValue::from_string("plain").env_text(), "plain");
    assert_eq!(JsonValue::from_string("a\"b").text, "\"a\\\"b\"");
    assert_eq!(JsonValue::from_string("a\"b").env_text(), "a\"b");
    assert_eq!(JsonValue::from_i64(-12).env_text(), "-12");
    assert_eq!(JsonValue { text: "{\"k\":[1,2]}".to_string() }.env_text(), "{\"k\":[1,2]}");
}
