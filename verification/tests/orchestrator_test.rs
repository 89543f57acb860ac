use job_orchestrator::dag::{is_dag_job, resolve_node_inputs, InputMappingSpec, InputSource};
use job_orchestrator::json::JsonValue;
use job_orchestrator::strmap::StrMap;
use job_orchestrator::types::{ExecutionMode, JobStatus, QueuedJob, Timestamp};

fn at() -> Timestamp {
    Timestamp { millis: 1_700_000_000_000 }
}

fn create_dag_job(dag_execution_id: &str, dag_node_execution_id: &str) -> QueuedJob {
    let mut outputs = StrMap::new();
    outputs.insert("result".to_string(), JsonValue::from_string("success"));
    QueuedJob {
        id: "job-1".to_string(),
        topic: "default".to_string(),
        status: JobStatus::Completed,
        image_id: "image-1".to_string(),
        job_name: Some("dag-node-job".to_string()),
        k8s_job_name: None,
        k8s_namespace: Some("default".to_string()),
        claimed_by: Some("executor-1".to_string()),
        claimed_at: Some(at()),
        started_at: Some(at()),
        completed_at: Some(at()),
        retry_count: 0,
        max_retries: 3,
        priority: 0,
        error_message: None,
        result_data: None,
        created_at: at(),
        updated_at: at(),
        created_by: "test-user".to_string(),
        command: Some(vec!["echo".to_string(), "hello".to_string()]),
        args: None,
        environment_variables: None,
        resource_overrides: None,
        labels: None,
        inputs: None,
        outputs: Some(outputs),
        dag_execution_id: Some(dag_execution_id.to_string()),
        dag_node_execution_id: Some(dag_node_execution_id.to_string()),
    }
}

#[test]
fn test_is_dag_job_logic() {
    let job_with_dag = create_dag_job("dag-1", "node-exec-1");
    assert!(is_dag_job(&job_with_dag));

    let mut job_without_dag = create_dag_job("dag-1", "node-exec-1");
    job_without_dag.dag_execution_id = None;
    assert!(!is_dag_job(&job_without_dag));
}

#[test]
fn test_resolve_node_inputs_payload() {
    let mut execution_payload = StrMap::new();
    execution_payload.insert("param1".to_string(), JsonValue::from_string("value1"));
    execution_payload.insert("param2".to_string(), JsonValue::from_i64(42));

    let mut input_mapping = StrMap::new();
    input_mapping.insert(
        "input1".to_string(),
        InputMappingSpec {
            source: InputSource::Payload,
            payload_key: Some("param1".to_string()),
            output_key: None,
            value: None,
        },
    );

    let resolved_inputs = resolve_node_inputs(Some(&input_mapping), &execution_payload, None);

    assert_eq!(resolved_inputs.get("input1"), Some(&JsonValue::from_string("value1")));
}

#[test]
fn test_resolve_node_inputs_parent_output() {
    let mut parent_outputs = StrMap::new();
    parent_outputs.insert("output1".to_string(), JsonValue::from_string("result1"));

    let mut input_mapping = StrMap::new();
    input_mapping.insert(
        "input1".to_string(),
        InputMappingSpec {
            source: InputSource::Parent,
            payload_key: None,
            output_key: Some("output1".to_string()),
            value: None,
        },
    );

    let resolved_inputs = resolve_node_inputs(Some(&input_mapping), &StrMap::new(), Some(&parent_outputs));

    assert_eq!(resolved_inputs.get("input1"), Some(&JsonValue::from_string("result1")));
}

#[test]
fn test_resolve_node_inputs_constant() {
    let mut input_mapping = StrMap::new();
    input_mapping.insert(
        "input1".to_string(),
        InputMappingSpec {
            source: InputSource::Constant,
            payload_key: None,
            output_key: None,
            value: Some(JsonValue::from_string("constant_value")),
        },
    );

    let resolved_inputs = resolve_node_inputs(Some(&input_mapping), &StrMap::new(), None);

    assert_eq!(resolved_inputs.get("input1"), Some(&JsonValue::from_string("constant_value")));
}

#[test]
fn test_execution_mode_to_string() {
    let sequential = ExecutionMode::Sequential;
    assert_eq!(sequential.to_db_string(), "sequential");

    let parallel = ExecutionMode::Parallel;
    assert_eq!(parallel.to_db_string(), "parallel");

    let limited = ExecutionMode::Limited(5);
    assert_eq!(limited.to_db_string(), "limited:5");
}

#[test]
fn test_execution_mode_from_string() {
    let sequential = ExecutionMode::from_db_string("sequential").unwrap();
    assert!(matches!(sequential, ExecutionMode::Sequential));

    let parallel = ExecutionMode::from_db_string("parallel").unwrap();
    assert!(matches!(parallel, ExecutionMode::Parallel));

    let limited = ExecutionMode::from_db_string("limited:10").unwrap();
    match limited {
        ExecutionMode::Limited(n) => assert_eq!(n, 10),
        _ => panic!("Expected Limited(10)"),
    }

    assert!(ExecutionMode::from_db_string("invalid").is_err());
}

#[test]
fn execution_mode_errors_and_defaults() {
    assert_eq!(ExecutionMode::from_db_string("invalid"), Err("Unknown execution mode: invalid".to_string()));
    assert_eq!(
        ExecutionMode::from_db_string("limited:x"),
        Err("Failed to parse limit: invalid digit found in string".to_string())
    );
    assert_eq!(
        ExecutionMode::from_db_string("limited:"),
        Err("Failed to parse limit: cannot parse integer from empty string".to_string())
    );
    assert_eq!(
        ExecutionMode::from_db_string("limited:99999999999"),
        Err("Failed to parse limit: number too large to fit in target type".to_string())
    );
    assert_eq!(ExecutionMode::from_db_string("limited:-3"), Ok(ExecutionMode::Limited(-3)));
    assert_eq!(ExecutionMode::default(), ExecutionMode::Parallel);
    assert_eq!(ExecutionMode::from_stored(None), ExecutionMode::Parallel);
    assert_eq!(ExecutionMode::from_stored(Some("bogus".to_string())), ExecutionMode::Parallel);
    assert_eq!(ExecutionMode::from_stored(Some("limited:4".to_string())), ExecutionMode::Limited(4));
    assert_eq!(ExecutionMode::from_stored(Some("sequential".to_string())), ExecutionMode::Sequential);
}

#[test]
fn execution_mode_text_reads_back() {
    for m in [
        ExecutionMode::Sequential,
        ExecutionMode::Parallel,
        ExecutionMode::Limited(0),
        ExecutionMode::Limited(i32::MAX),
        ExecutionMode::Limited(i32::MIN),
    ] {
        assert_eq!(ExecutionMode::from_db_string(&m.to_db_string()), Ok(m));
    }
}

#[test]
fn missing_keys_leave_inputs_unset() {
    let mut input_mapping = StrMap::new();
    input_mapping.insert(
        "from_payload".to_string(),
        InputMappingSpec {
            source: InputSource::Payload,
            payload_key: Some("absent".to_string()),
            output_key: None,
            value: None,
        },
    );
    input_mapping.insert(
        "from_parent".to_string(),
        InputMappingSpec {
            source: InputSource::Parent,
            payload_key: None,
            output_key: Some("result".to_string()),
            value: None,
        },
    );
    let resolved = resolve_node_inputs(Some(&input_mapping), &StrMap::new(), None);
    assert_eq!(resolved.len(), 0);
    let resolved = resolve_node_inputs(None, &StrMap::new(), None);
    assert!(resolved.is_empty());
}

#[test]
fn input_sources_by_name() {
    assert_eq!(InputSource::from_text("parent"), Some(InputSource::Parent));
    assert_eq!(InputSource::from_text("payload"), Some(InputSource::Payload));
    assert_eq!(InputSource::from_text("constant"), Some(InputSource::Constant));
    assert_eq!(InputSource::from_text("Parent"), None);
}

#[test]
fn string_values_escape_as_json() {
    let v = JsonValue::from_string("a\"\\\n\t\u{1}\u{7f}é");
    assert_eq!(v.text, "\"a\\\"\\\\\\n\\t\\u0001\u{7f}é\"");
}
