use job_orchestrator::database::JobQueueRepository;
use job_orchestrator::error::ExecutorError;
use job_orchestrator::executor::{claim_limit, concurrency_limit, get_effective_topics, should_retry_job, startup_notification, still_monitored, topics_from_answer};
use job_orchestrator::mocks::MockJobQueueRepository;
use job_orchestrator::types::{ExecutorConfig, JobRequest, JobStatus, Priority, QueuedJob, Timestamp};

fn at() -> Timestamp {
    Timestamp { millis: 1_700_000_000_000 }
}

fn create_test_job() -> QueuedJob {
    QueuedJob {
        id: "job-1".to_string(),
        topic: "default".to_string(),
        status: JobStatus::Pending,
        image_id: "image-1".to_string(),
        job_name: Some("test-job".to_string()),
        k8s_job_name: None,
        k8s_namespace: Some("default".to_string()),
        claimed_by: None,
        claimed_at: None,
        started_at: None,
        completed_at: None,
        retry_count: 0,
        max_retries: 3,
        priority: 0,
        error_message: None,
        result_data: None,
        created_at: at(),
        updated_at: at(),
        created_by: "test-user".to_string(),
        command: Some(vec!["echo".to_string(), "hello".to_string()]),
        args: None,
        environment_variables: None,
        resource_overrides: None,
        labels: None,
        inputs: None,
        outputs: None,
        dag_execution_id: None,
        dag_node_execution_id: None,
    }
}

fn request(topic: &str) -> JobRequest {
    JobRequest {
        topic: topic.to_string(),
        image_id: "image-1".to_string(),
        job_name: None,
        command: None,
        args: None,
        environment_variables: None,
        resource_overrides: None,
        priority: None,
        max_retries: None,
        labels: None,
        created_by: "test".to_string(),
        inputs: None,
    }
}

#[test]
fn test_should_retry_job_within_max_retries() {
    let mut job = create_test_job();
    job.retry_count = 1;
    job.max_retries = 3;

    let error = ExecutorError::job_execution_error("transient error", "transient");

    assert!(should_retry_job(&job, &error));
}

#[test]
fn test_should_not_retry_job_at_max_retries() {
    let mut job = create_test_job();
    job.retry_count = 3;
    job.max_retries = 3;

    let error = ExecutorError::job_execution_error("transient error", "transient");

    assert!(!should_retry_job(&job, &error));
}

#[test]
fn test_should_not_retry_permanent_errors() {
    let mut job = create_test_job();
    job.retry_count = 0;
    job.max_retries = 3;

    let error = ExecutorError::job_execution_error("permanent error", "permanent");

    assert!(!should_retry_job(&job, &error));
}

#[test]
fn test_error_permanent_detection() {
    let transient_error = ExecutorError::job_execution_error("error", "transient");
    assert!(!transient_error.is_permanent());

    let permanent_error = ExecutorError::job_execution_error("error", "permanent");
    assert!(permanent_error.is_permanent());

    let db_error = ExecutorError::DatabaseError("db error".to_string());
    assert!(!db_error.is_permanent());
}

#[test]
fn test_get_effective_topics_all() {
    let config = ExecutorConfig {
        topics: vec!["ALL".to_string()],
        poll_interval: 1000,
        batch_size: 5,
        kubernetes_namespace: "default".to_string(),
        instance_id: "test-executor".to_string(),
    };

    let mut job_repo = MockJobQueueRepository::new();
    job_repo.enqueue_job(&request("topic1")).unwrap();
    job_repo.enqueue_job(&request("topic2")).unwrap();
    job_repo.enqueue_job(&request("topic1")).unwrap();

    let effective_topics = get_effective_topics(&config, &job_repo).unwrap();

    assert_eq!(effective_topics, vec!["topic1".to_string(), "topic2".to_string()]);
}

#[test]
fn test_get_effective_topics_specific() {
    let config = ExecutorConfig {
        topics: vec!["topic1".to_string(), "topic2".to_string()],
        poll_interval: 1000,
        batch_size: 5,
        kubernetes_namespace: "default".to_string(),
        instance_id: "test-executor".to_string(),
    };

    let job_repo = MockJobQueueRepository::new();
    let effective_topics = get_effective_topics(&config, &job_repo).unwrap();

    assert_eq!(effective_topics, vec!["topic1".to_string(), "topic2".to_string()]);
}

#[test]
fn test_concurrency_limit_calculation() {
    let config = ExecutorConfig {
        topics: vec!["default".to_string()],
        poll_interval: 1000,
        batch_size: 5,
        kubernetes_namespace: "default".to_string(),
        instance_id: "test-executor".to_string(),
    };

    let max_concurrent = concurrency_limit(config.batch_size);
    assert_eq!(max_concurrent, 50);

    let config_large = ExecutorConfig { batch_size: 10, ..config.clone() };
    let max_concurrent_large = concurrency_limit(config_large.batch_size);
    assert_eq!(max_concurrent_large, 100);
}

#[test]
fn claims_are_capped_by_the_batch() {
    assert_eq!(claim_limit(3, 5), 3);
    assert_eq!(claim_limit(8, 5), 5);
    assert_eq!(claim_limit(0, 5), 0);
}

#[test]
fn retry_boundaries() {
    let mut job = create_test_job();
    job.retry_count = 2;
    job.max_retries = 3;
    let error = ExecutorError::KubernetesError(job_orchestrator::error::KubernetesError::CreateJobError(
        "x".to_string(),
    ));
    assert!(should_retry_job(&job, &error));
    job.retry_count = 4;
    assert!(!should_retry_job(&job, &error));
    job.retry_count = 0;
    job.max_retries = 0;
    assert!(!should_retry_job(&job, &error));
}

#[test]
fn jobs_are_followed_for_a_day() {
    assert!(still_monitored(0));
    assert!(still_monitored(86_399_999));
    assert!(!still_monitored(86_400_000));
}

#[test]
fn startup_announces_a_low_priority_batch_only_when_topics_exist() {
    assert!(startup_notification(&vec![], 5).is_none());
    let n = startup_notification(&vec!["t".to_string()], 5).unwrap();
    assert_eq!(n.job_count, 5);
    assert_eq!(n.priority, Priority::Low);
    assert_eq!(n.sibling_group_id, None);
}

#[test]
fn queue_answers_become_topics_or_database_errors() {
    assert_eq!(topics_from_answer(Ok(vec!["a".to_string(), "b".to_string()])).unwrap(), vec!["a".to_string(), "b".to_string()]);
    match topics_from_answer(Err("down".to_string())) {
        Err(ExecutorError::DatabaseError(m)) => assert_eq!(m, "down"),
        _ => panic!("expected a database error"),
    }
}
