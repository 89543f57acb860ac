use job_orchestrator::dag::{DAGNodeStatus, DAGStatus, NodeExecutionUpdate};
use job_orchestrator::database::HistoryEntry;
use job_orchestrator::json::JsonValue;
use job_orchestrator::sql::{
    conditions_json, dag_execution_status_statement, history_params, job_status_update_statement,
    node_execution_status_statement, SqlParam,
};
use job_orchestrator::strmap::StrMap;
use job_orchestrator::types::{JobStatus, JobStatusUpdate, K8sJobCondition, Timestamp};

#[test]
fn job_update_sets_only_what_it_holds() {
    let update = JobStatusUpdate { id: "job-1".to_string(), status: JobStatus::Completed, ..Default::default() };
    let st = job_status_update_statement(&update);
    assert_eq!(st.text, "UPDATE job_queue SET updated_at = NOW(), status = $1 WHERE id = $2");
    assert_eq!(st.params, vec![SqlParam::Text("completed".to_string()), SqlParam::Text("job-1".to_string())]);
}

#[test]
fn job_update_numbers_its_parameters_in_order() {
    let update = JobStatusUpdate {
        id: "job-1".to_string(),
        status: JobStatus::Failed,
        k8s_job_name: Some("job-job-1".to_string()),
        claimed_by: Some("ignored".to_string()),
        started_at: None,
        completed_at: Some(Timestamp { millis: 5 }),
        error_message: Some("boom".to_string()),
        result_data: Some(JsonValue::logs_object("out")),
        ..Default::default()
    };
    let st = job_status_update_statement(&update);
    assert_eq!(
        st.text,
        "UPDATE job_queue SET updated_at = NOW(), status = $1, k8s_job_name = $2, completed_at = $3, \
         error_message = $4, result_data = $5 WHERE id = $6"
    );
    assert_eq!(
        st.params,
        vec![
            SqlParam::Text("failed".to_string()),
            SqlParam::Text("job-job-1".to_string()),
            SqlParam::Time(Timestamp { millis: 5 }),
            SqlParam::Text("boom".to_string()),
            SqlParam::Text("{\"logs\":\"out\"}".to_string()),
            SqlParam::Text("job-1".to_string()),
        ]
    );
}

#[test]
fn dag_execution_updates() {
    let st = dag_execution_status_statement("dag-1", DAGStatus::Running, None);
    assert_eq!(
        st.text,
        "UPDATE dag_executions SET updated_at = NOW(), status = 'running', \
         started_at = COALESCE(started_at, NOW()) WHERE id = $1"
    );
    assert_eq!(st.params, vec![SqlParam::Text("dag-1".to_string())]);

    let st = dag_execution_status_statement("dag-1", DAGStatus::Failed, Some("1 node(s) failed"));
    assert_eq!(
        st.text,
        "UPDATE dag_executions SET updated_at = NOW(), status = 'failed', \
         completed_at = COALESCE(completed_at, NOW()), error_message = $1 WHERE id = $2"
    );
    assert_eq!(
        st.params,
        vec![SqlParam::Text("1 node(s) failed".to_string()), SqlParam::Text("dag-1".to_string())]
    );

    let st = dag_execution_status_statement("dag-2", DAGStatus::Pending, None);
    assert_eq!(st.text, "UPDATE dag_executions SET updated_at = NOW(), status = 'pending' WHERE id = $1");
}

#[test]
fn node_execution_updates() {
    let st = node_execution_status_statement("ne-1", DAGNodeStatus::Skipped, &None);
    assert_eq!(
        st.text,
        "UPDATE dag_node_executions SET updated_at = NOW(), status = 'skipped', \
         completed_at = COALESCE(completed_at, NOW()) WHERE id = $1"
    );
    assert_eq!(st.params, vec![SqlParam::Text("ne-1".to_string())]);

    let mut inputs = StrMap::new();
    inputs.insert("x".to_string(), JsonValue::from_i64(1));
    let data = NodeExecutionUpdate {
        outputs: None,
        error_message: None,
        job_id: Some("job-9".to_string()),
        job_topic: Some("dags".to_string()),
        inputs: Some(inputs),
    };
    let st = node_execution_status_statement("ne-2", DAGNodeStatus::Ready, &Some(data));
    assert_eq!(
        st.text,
        "UPDATE dag_node_executions SET updated_at = NOW(), status = 'ready', job_id = $1, job_topic = $2, \
         inputs = $3 WHERE id = $4"
    );
    assert_eq!(
        st.params,
        vec![
            SqlParam::Text("job-9".to_string()),
            SqlParam::Text("dags".to_string()),
            SqlParam::Text("{\"x\":1}".to_string()),
            SqlParam::Text("ne-2".to_string()),
        ]
    );
}

#[test]
fn history_entries_as_parameters() {
    let mut metadata = StrMap::new();
    metadata.insert("executor_id".to_string(), JsonValue::from_string("exec-1"));
    let entry = HistoryEntry {
        job_id: "job-1".to_string(),
        job_topic: "t".to_string(),
        status: JobStatus::Claimed,
        message: Some("Job claimed by executor exec-1".to_string()),
        pod_logs: None,
        k8s_events: Some(vec![K8sJobCondition {
            condition_type: "Failed".to_string(),
            status: "True".to_string(),
            last_probe_time: None,
            last_transition_time: None,
            reason: Some("BackoffLimitExceeded".to_string()),
            message: None,
        }]),
        metadata: Some(metadata),
    };
    let params = history_params(&entry);
    assert_eq!(params.len(), 8);
    assert_eq!(params[2], SqlParam::Text("claimed".to_string()));
    assert_eq!(params[5], SqlParam::OptText(None));
    assert_eq!(params[6], SqlParam::OptText(None));
    assert_eq!(params[7], SqlParam::OptText(Some("{\"executor_id\":\"exec-1\"}".to_string())));
    match &params[4] {
        SqlParam::OptText(Some(events)) => {
            let v: serde_json::Value = serde_json::from_str(events).unwrap();
            assert_eq!(v[0]["condition_type"], serde_json::Value::from("Failed"));
            assert_eq!(v[0]["reason"], serde_json::Value::from("BackoffLimitExceeded"));
            assert!(v[0]["message"].is_null());
        }
        other => panic!("unexpected {:?}", other),
    }
    assert_eq!(conditions_json(&vec![]), "[]");
}
