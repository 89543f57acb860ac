use job_orchestrator::dag::{
    dag_node_status_to_string, dag_status_action, dag_status_to_string, parse_dag_node_status, parse_dag_status,
    DAGExecution, DAGExecutionStats, DAGNode, DAGNodeExecution, DAGNodeStatus, DAGStatus, DagStatusAction,
    InputMappingSpec, InputSource,
};
use job_orchestrator::dag_store::{DAGExecutionRepository, DAGTemplateRepository};
use job_orchestrator::database::JobQueueRepository;
use job_orchestrator::json::JsonValue;
use job_orchestrator::mocks::{MockDAGExecutionRepository, MockDAGTemplateRepository, MockJobQueueRepository};
use job_orchestrator::orchestrator::DAGOrchestrator;
use job_orchestrator::strmap::StrMap;
use job_orchestrator::types::{ExecutionMode, JobStatus, QueuedJob, Timestamp};

fn at() -> Timestamp {
    Timestamp { millis: 1_700_000_000_000 }
}

fn node(id: &str, mapping: Option<StrMap<InputMappingSpec>>) -> DAGNode {
    DAGNode {
        id: id.to_string(),
        node_name: format!("node-{}", id),
        image_id: "image-1".to_string(),
        command: Some(vec!["run".to_string()]),
        args: None,
        environment_variables: None,
        resource_overrides: None,
        max_retries: 2,
        input_mapping: mapping,
        sibling_group_id: None,
        execution_mode: ExecutionMode::Parallel,
        max_parallel_siblings: None,
    }
}

fn node_execution(id: &str, node_id: &str, status: DAGNodeStatus) -> DAGNodeExecution {
    DAGNodeExecution {
        id: id.to_string(),
        dag_execution_id: "dag-1".to_string(),
        dag_node_id: node_id.to_string(),
        job_id: None,
        job_topic: None,
        status,
        inputs: None,
    }
}

fn dag_job(node_execution_id: &str) -> QueuedJob {
    QueuedJob {
        id: "job-a".to_string(),
        topic: "dags".to_string(),
        status: JobStatus::Running,
        image_id: "image-1".to_string(),
        job_name: Some("node-a".to_string()),
        k8s_job_name: None,
        k8s_namespace: None,
        claimed_by: None,
        claimed_at: None,
        started_at: None,
        completed_at: None,
        retry_count: 0,
        max_retries: 3,
        priority: 0,
        error_message: None,
        result_data: None,
        created_at: at(),
        updated_at: at(),
        created_by: "tester".to_string(),
        command: None,
        args: None,
        environment_variables: None,
        resource_overrides: None,
        labels: None,
        inputs: None,
        outputs: None,
        dag_execution_id: Some("dag-1".to_string()),
        dag_node_execution_id: Some(node_execution_id.to_string()),
    }
}

/// A -> {B, C}, B -> D; B takes A's `result` as its `input`.
fn orchestrator(
    a_status: DAGNodeStatus,
    c_status: DAGNodeStatus,
) -> DAGOrchestrator<MockDAGExecutionRepository, MockDAGTemplateRepository, MockJobQueueRepository> {
    let mut payload = StrMap::new();
    payload.insert("seed".to_string(), JsonValue::from_i64(7));
    let mut executions = MockDAGExecutionRepository::new();
    executions.add_execution(DAGExecution {
        id: "dag-1".to_string(),
        dag_template_id: "template-1".to_string(),
        topic: "dags".to_string(),
        status: DAGStatus::Running,
        priority: 4,
        execution_payload: payload,
        created_by: "tester".to_string(),
    });
    executions.add_node_execution(node_execution("ne-a", "a", a_status));
    executions.add_node_execution(node_execution("ne-b", "b", DAGNodeStatus::Waiting));
    executions.add_node_execution(node_execution("ne-c", "c", c_status));
    executions.add_node_execution(node_execution("ne-d", "d", DAGNodeStatus::Waiting));

    let mut mapping = StrMap::new();
    mapping.insert(
        "input".to_string(),
        InputMappingSpec { source: InputSource::Parent, output_key: Some("result".to_string()), payload_key: None, value: None },
    );
    mapping.insert(
        "seed".to_string(),
        InputMappingSpec { source: InputSource::Payload, output_key: None, payload_key: Some("seed".to_string()), value: None },
    );
    let mut templates = MockDAGTemplateRepository::new();
    templates.add_node(node("a", None));
    templates.add_node(node("b", Some(mapping)));
    templates.add_node(node("c", None));
    templates.add_node(node("d", None));
    templates.add_child_relationship("a".to_string(), "b".to_string());
    templates.add_child_relationship("a".to_string(), "c".to_string());
    templates.add_child_relationship("b".to_string(), "d".to_string());
    DAGOrchestrator::new(executions, templates, MockJobQueueRepository::new())
}

#[test]
fn failure_skips_waiting_descendants() {
    let mut o = orchestrator(DAGNodeStatus::Running, DAGNodeStatus::Completed);
    o.handle_job_failure(&dag_job("ne-a"), "exit code 1").unwrap();
    let repo = &o.dag_execution_repo;
    assert_eq!(repo.get_node_execution("ne-a").unwrap().status, DAGNodeStatus::Failed);
    assert_eq!(repo.get_node_execution("ne-b").unwrap().status, DAGNodeStatus::Skipped);
    assert_eq!(repo.get_node_execution("ne-c").unwrap().status, DAGNodeStatus::Completed);
    assert_eq!(repo.get_node_execution("ne-d").unwrap().status, DAGNodeStatus::Skipped);
    assert_eq!(repo.get_execution("dag-1", false).unwrap().status, DAGStatus::Failed);
    assert_eq!(o.job_repo.get_all_jobs().len(), 0);
}

#[test]
fn completion_enqueues_children_with_resolved_inputs() {
    let mut o = orchestrator(DAGNodeStatus::Running, DAGNodeStatus::Pending);
    let mut outputs = StrMap::new();
    outputs.insert("result".to_string(), JsonValue::from_string("ok"));
    o.handle_job_completion(&dag_job("ne-a"), &Some(outputs)).unwrap();

    let repo = &o.dag_execution_repo;
    assert_eq!(repo.get_node_execution("ne-a").unwrap().status, DAGNodeStatus::Completed);
    assert_eq!(repo.get_node_execution("ne-b").unwrap().status, DAGNodeStatus::Ready);
    assert_eq!(repo.get_node_execution("ne-c").unwrap().status, DAGNodeStatus::Ready);
    assert_eq!(repo.get_node_execution("ne-d").unwrap().status, DAGNodeStatus::Waiting);

    let jobs = o.job_repo.get_all_jobs();
    assert_eq!(jobs.len(), 2);
    let b = jobs.iter().find(|j| j.job_name == Some("node-b".to_string())).unwrap();
    assert_eq!(b.topic, "dags");
    assert_eq!(b.priority, 4);
    assert_eq!(b.max_retries, 2);
    assert_eq!(b.created_by, "tester");
    assert_eq!(b.status, JobStatus::Pending);
    let inputs = b.inputs.as_ref().unwrap();
    assert_eq!(inputs.get("input"), Some(&JsonValue::from_string("ok")));
    assert_eq!(inputs.get("seed"), Some(&JsonValue::from_i64(7)));
    let c = jobs.iter().find(|j| j.job_name == Some("node-c".to_string())).unwrap();
    assert_eq!(c.inputs.as_ref().unwrap().len(), 0);
    assert_eq!(repo.get_execution("dag-1", false).unwrap().status, DAGStatus::Running);
}

#[test]
fn last_completion_completes_the_dag() {
    let mut executions = MockDAGExecutionRepository::new();
    executions.add_execution(DAGExecution {
        id: "dag-1".to_string(),
        dag_template_id: "template-1".to_string(),
        topic: "dags".to_string(),
        status: DAGStatus::Running,
        priority: 0,
        execution_payload: StrMap::new(),
        created_by: "tester".to_string(),
    });
    executions.add_node_execution(node_execution("ne-a", "a", DAGNodeStatus::Running));
    executions.add_node_execution(node_execution("ne-b", "b", DAGNodeStatus::Skipped));
    let mut templates = MockDAGTemplateRepository::new();
    templates.add_node(node("a", None));
    let mut o = DAGOrchestrator::new(executions, templates, MockJobQueueRepository::new());
    o.handle_job_completion(&dag_job("ne-a"), &None).unwrap();
    assert_eq!(o.dag_execution_repo.get_execution("dag-1", false).unwrap().status, DAGStatus::Completed);
}

#[test]
fn jobs_outside_a_dag_are_ignored() {
    let mut o = orchestrator(DAGNodeStatus::Running, DAGNodeStatus::Pending);
    let mut job = dag_job("ne-a");
    job.dag_node_execution_id = None;
    assert!(o.handle_job_failure(&job, "boom").is_ok());
    assert!(o.handle_job_completion(&job, &None).is_ok());
    assert_eq!(o.dag_execution_repo.get_node_execution("ne-a").unwrap().status, DAGNodeStatus::Running);
    assert!(o.is_dag_job(&job));
}

#[test]
fn unknown_node_execution_is_an_error() {
    let mut o = orchestrator(DAGNodeStatus::Running, DAGNodeStatus::Pending);
    assert!(o.handle_job_failure(&dag_job("ne-missing"), "boom").is_err());
    assert_eq!(o.dag_execution_repo.get_execution("dag-1", false).unwrap().status, DAGStatus::Running);
}

fn stats(total: i32, completed: i32, failed: i32, running: i32, pending: i32, waiting: i32, skipped: i32) -> DAGExecutionStats {
    DAGExecutionStats {
        dag_execution_id: "dag-1".to_string(),
        total_nodes: total,
        completed_nodes: completed,
        failed_nodes: failed,
        running_nodes: running,
        pending_nodes: pending,
        waiting_nodes: waiting,
        skipped_nodes: skipped,
    }
}

#[test]
fn dag_status_from_counts() {
    assert_eq!(dag_status_action(&stats(3, 3, 0, 0, 0, 0, 0)), DagStatusAction::MarkCompleted);
    assert_eq!(dag_status_action(&stats(3, 1, 1, 0, 0, 0, 1)), DagStatusAction::MarkFailed);
    assert_eq!(dag_status_action(&stats(3, 1, 0, 1, 0, 1, 0)), DagStatusAction::StartIfPending);
    assert_eq!(dag_status_action(&stats(3, 1, 0, 0, 0, 0, 0)), DagStatusAction::Nothing);
    assert_eq!(dag_status_action(&stats(0, 0, 0, 0, 0, 0, 0)), DagStatusAction::MarkCompleted);
}

#[test]
fn dag_status_texts_read_back() {
    for s in [DAGStatus::Pending, DAGStatus::Running, DAGStatus::Completed, DAGStatus::Failed, DAGStatus::Cancelled] {
        assert_eq!(parse_dag_status(dag_status_to_string(s).to_string()), Ok(s));
    }
    for s in [
        DAGNodeStatus::Pending,
        DAGNodeStatus::Waiting,
        DAGNodeStatus::Ready,
        DAGNodeStatus::Running,
        DAGNodeStatus::Completed,
        DAGNodeStatus::Failed,
        DAGNodeStatus::Skipped,
    ] {
        assert_eq!(parse_dag_node_status(dag_node_status_to_string(s).to_string()), Ok(s));
    }
    assert_eq!(parse_dag_status("done".to_string()), Err("Unknown DAG status: done".to_string()));
    assert_eq!(parse_dag_node_status("RUNNING".to_string()), Err("Unknown DAG node status: RUNNING".to_string()));
}

#[test]
fn enqueue_failure_is_reported_and_leaves_the_node_waiting() {
    let mut o = orchestrator(DAGNodeStatus::Running, DAGNodeStatus::Pending);
    o.job_repo.set_enqueue_result(Err("queue down".to_string()));
    let r = o.handle_job_completion(&dag_job("ne-a"), &None);
    assert_eq!(r, Err("Failed to enqueue job: queue down".to_string()));
    let repo = &o.dag_execution_repo;
    assert_eq!(repo.get_node_execution("ne-a").unwrap().status, DAGNodeStatus::Completed);
    assert_eq!(repo.get_node_execution("ne-b").unwrap().status, DAGNodeStatus::Waiting);
    assert_eq!(o.job_repo.get_all_jobs().len(), 0);
}

#[test]
fn queued_child_ids_have_the_v4_shape() {
    let mut o = orchestrator(DAGNodeStatus::Running, DAGNodeStatus::Pending);
    o.handle_job_completion(&dag_job("ne-a"), &None).unwrap();
    for job in o.job_repo.get_all_jobs() {
        let id: Vec<char> = job.id.chars().collect();
        assert_eq!(id.len(), 36);
        for (i, c) in id.iter().enumerate() {
            if i == 8 || i == 13 || i == 18 || i == 23 {
                assert_eq!(*c, '-');
            } else {
                assert!(c.is_ascii_hexdigit() && !c.is_ascii_uppercase());
            }
        }
        assert_eq!(id[14], '4');
        assert!(matches!(id[19], '8' | '9' | 'a' | 'b'));
    }
}

#[test]
fn failure_leaves_unrelated_waiting_nodes_alone() {
    let mut o = orchestrator(DAGNodeStatus::Running, DAGNodeStatus::Pending);
    o.dag_execution_repo.add_node_execution(node_execution("ne-e", "e", DAGNodeStatus::Waiting));
    o.dag_template_repo.add_node(node("e", None));
    o.dag_template_repo.add_child_relationship("c".to_string(), "e".to_string());
    o.handle_job_failure(&dag_job("ne-b"), "boom").unwrap();
    let repo = &o.dag_execution_repo;
    assert_eq!(repo.get_node_execution("ne-b").unwrap().status, DAGNodeStatus::Failed);
    assert_eq!(repo.get_node_execution("ne-d").unwrap().status, DAGNodeStatus::Skipped);
    assert_eq!(repo.get_node_execution("ne-c").unwrap().status, DAGNodeStatus::Pending);
    assert_eq!(repo.get_node_execution("ne-e").unwrap().status, DAGNodeStatus::Waiting);
}
