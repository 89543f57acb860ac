use job_orchestrator::json::{object_json, string_object_json, JsonValue};
use job_orchestrator::sql::{enqueue_params, SqlParam};
use job_orchestrator::strmap::StrMap;
use job_orchestrator::types::{job_status_to_string, JobRequest, JobStatus};
use std::collections::HashMap;

fn create_test_job_request() -> JobRequest {
    let mut env = StrMap::new();
    env.insert("KEY".to_string(), "VALUE".to_string());
    JobRequest {
        topic: "test-topic".to_string(),
        image_id: uuid::Uuid::new_v4().to_string(),
        job_name: Some("test-job".to_string()),
        command: Some(vec!["echo".to_string(), "hello".to_string()]),
        args: None,
        environment_variables: Some(env),
        resource_overrides: None,
        priority: Some(10),
        max_retries: Some(3),
        labels: None,
        created_by: "test-user".to_string(),
        inputs: None,
    }
}

fn param_texts(params: &[SqlParam]) -> String {
    let mut all = String::new();
    for p in params {
        match p {
            SqlParam::Text(s) => all.push_str(s),
            SqlParam::OptText(Some(s)) => all.push_str(s),
            SqlParam::OptTextList(Some(v)) => all.push_str(&v.join(" ")),
            _ => {}
        }
        all.push('\n');
    }
    all
}

#[test]
fn test_job_request_serialization() {
    let request = create_test_job_request();

    let stored = param_texts(&enqueue_params(&request));
    assert!(stored.contains("test-topic"));
    assert!(stored.contains("test-job"));
    assert!(stored.contains("KEY"));
}

#[test]
fn test_job_status_variants() {
    assert!(matches!(JobStatus::Pending, JobStatus::Pending));
    assert!(matches!(JobStatus::Claimed, JobStatus::Claimed));
    assert!(matches!(JobStatus::Running, JobStatus::Running));
    assert!(matches!(JobStatus::Completed, JobStatus::Completed));
    assert!(matches!(JobStatus::Failed, JobStatus::Failed));
    assert!(matches!(JobStatus::Cancelled, JobStatus::Cancelled));
}

#[test]
fn test_job_status_serialization() {
    let json = JsonValue::from_string(job_status_to_string(JobStatus::Running)).text;
    assert_eq!(json, "\"running\"");

    let json = JsonValue::from_string(job_status_to_string(JobStatus::Completed)).text;
    assert_eq!(json, "\"completed\"");
}

#[test]
fn test_environment_variables_serialization() {
    let mut env_vars = StrMap::new();
    env_vars.insert("VAR1".to_string(), "value1".to_string());
    env_vars.insert("VAR2".to_string(), "value2".to_string());

    let json = string_object_json(&env_vars);
    assert!(json.contains("VAR1"));
    assert!(json.contains("value1"));

    let deserialized: HashMap<String, String> = serde_json::from_str(&json).unwrap();
    assert_eq!(deserialized.get("VAR1"), Some(&"value1".to_string()));
}

#[test]
fn enqueue_parameters_with_defaults() {
    let request = JobRequest {
        topic: "t".to_string(),
        image_id: "img".to_string(),
        job_name: None,
        command: None,
        args: Some(vec![]),
        environment_variables: None,
        resource_overrides: Some(job_orchestrator::types::PartialResourceRequirements {
            cpu: Some("2".to_string()),
            memory: None,
        }),
        priority: None,
        max_retries: None,
        labels: None,
        created_by: "me".to_string(),
        inputs: None,
    };
    let params = enqueue_params(&request);
    assert_eq!(
        params,
        vec![
            SqlParam::Text("t".to_string()),
            SqlParam::Text("img".to_string()),
            SqlParam::OptText(None),
            SqlParam::OptTextList(None),
            SqlParam::OptTextList(Some(vec![])),
            SqlParam::OptText(None),
            SqlParam::OptText(Some("{\"cpu\":\"2\",\"memory\":null}".to_string())),
            SqlParam::Int(0),
            SqlParam::Int(3),
            SqlParam::Text("me".to_string()),
            SqlParam::OptText(None),
            SqlParam::OptText(None),
        ]
    );
}

#[test]
fn json_objects_match_serde() {
    let mut inputs = StrMap::new();
    inputs.insert("a \"quoted\" key".to_string(), JsonValue::from_string("line\nbreak"));
    inputs.insert("n".to_string(), JsonValue::from_i64(-42));
    let text = object_json(&inputs);
    assert_eq!(text, "{\"a \\\"quoted\\\" key\":\"line\\nbreak\",\"n\":-42}");
    let parsed: serde_json::Value = serde_json::from_str(&text).unwrap();
    assert_eq!(parsed["n"], serde_json::Value::from(-42));
    assert_eq!(object_json(&StrMap::new()), "{}");
    assert_eq!(string_object_json(&StrMap::new()), "{}");
}
