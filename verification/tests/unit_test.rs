use job_orchestrator::database::{
    Database, HistoryEntry, ImageInfo, ImageRegistryRepository, JobExecutionHistoryRepository, JobQueueRepository,
};
use job_orchestrator::mocks::{
    MockDatabase, MockImageRegistryRepository, MockJobExecutionHistoryRepository, MockJobQueueRepository,
};
use job_orchestrator::strmap::StrMap;
use job_orchestrator::types::{JobRequest, JobStatus, JobStatusUpdate, Timestamp};
use uuid::Uuid;

fn now() -> Timestamp {
    Timestamp { millis: chrono::Utc::now().timestamp_millis() }
}

fn plain_request(topic: &str) -> JobRequest {
    JobRequest {
        topic: topic.to_string(),
        image_id: Uuid::new_v4().to_string(),
        job_name: None,
        command: None,
        args: None,
        environment_variables: None,
        resource_overrides: None,
        priority: None,
        max_retries: None,
        labels: None,
        created_by: "test".to_string(),
        inputs: None,
    }
}

#[test]
fn test_mock_database_health_check() {
    let db = MockDatabase::new();
    assert!(db.health_check());
}

#[test]
fn test_mock_database_health_check_failure() {
    let db = MockDatabase::with_failed_health_check();
    assert!(!db.health_check());
}

#[test]
fn test_job_enqueue_and_retrieve() {
    let mut job_repo = MockJobQueueRepository::new();

    let image_id = Uuid::new_v4().to_string();
    let job_request = JobRequest {
        topic: "test-topic".to_string(),
        image_id: image_id.clone(),
        job_name: Some("test-job".to_string()),
        command: Some(vec!["echo".to_string(), "hello".to_string()]),
        args: Some(vec![]),
        environment_variables: None,
        resource_overrides: None,
        priority: Some(5),
        max_retries: Some(3),
        labels: None,
        created_by: "test-user".to_string(),
        inputs: None,
    };

    let job_id = job_repo.enqueue_job(&job_request).expect("Failed to enqueue job");

    assert!(Uuid::parse_str(&job_id).is_ok());

    let job = job_repo.get_job(&job_id).expect("Failed to get job");

    assert_eq!(job.topic, "test-topic");
    assert_eq!(job.status, JobStatus::Pending);
    assert_eq!(job.priority, 5);
    assert_eq!(job.max_retries, 3);
    assert_eq!(job.created_by, "test-user");
    assert_eq!(job.job_name, Some("test-job".to_string()));
}

#[test]
fn test_job_status_update() {
    let mut job_repo = MockJobQueueRepository::new();

    let request = plain_request("test");
    let job_id = job_repo.enqueue_job(&request).unwrap();

    let update = JobStatusUpdate {
        id: job_id.clone(),
        status: JobStatus::Running,
        k8s_job_name: Some("k8s-job-123".to_string()),
        claimed_by: Some("executor-1".to_string()),
        claimed_at: Some(now()),
        started_at: Some(now()),
        completed_at: None,
        error_message: None,
        result_data: None,
        retry_count: None,
    };

    job_repo.update_job_status(&update).unwrap();

    let job = job_repo.get_job(&job_id).unwrap();
    assert_eq!(job.status, JobStatus::Running);
    assert_eq!(job.k8s_job_name, Some("k8s-job-123".to_string()));
    assert_eq!(job.claimed_by, Some("executor-1".to_string()));
}

#[test]
fn test_job_lifecycle_pending_to_completed() {
    let mut job_repo = MockJobQueueRepository::new();

    let request = JobRequest {
        topic: "test".to_string(),
        image_id: Uuid::new_v4().to_string(),
        job_name: Some("lifecycle-test".to_string()),
        command: Some(vec!["echo".to_string()]),
        args: Some(vec!["test".to_string()]),
        environment_variables: None,
        resource_overrides: None,
        priority: Some(0),
        max_retries: Some(3),
        labels: None,
        created_by: "test".to_string(),
        inputs: None,
    };

    let job_id = job_repo.enqueue_job(&request).unwrap();

    let job = job_repo.get_job(&job_id).unwrap();
    assert_eq!(job.status, JobStatus::Pending);

    let update = JobStatusUpdate {
        id: job_id.clone(),
        status: JobStatus::Claimed,
        claimed_by: Some("executor-1".to_string()),
        claimed_at: Some(now()),
        ..Default::default()
    };
    job_repo.update_job_status(&update).unwrap();

    let job = job_repo.get_job(&job_id).unwrap();
    assert_eq!(job.status, JobStatus::Claimed);

    let update = JobStatusUpdate {
        id: job_id.clone(),
        status: JobStatus::Running,
        started_at: Some(now()),
        k8s_job_name: Some("job-123".to_string()),
        ..Default::default()
    };
    job_repo.update_job_status(&update).unwrap();

    let job = job_repo.get_job(&job_id).unwrap();
    assert_eq!(job.status, JobStatus::Running);

    let update = JobStatusUpdate {
        id: job_id.clone(),
        status: JobStatus::Completed,
        completed_at: Some(now()),
        ..Default::default()
    };
    job_repo.update_job_status(&update).unwrap();

    let job = job_repo.get_job(&job_id).unwrap();
    assert_eq!(job.status, JobStatus::Completed);
    assert!(job.completed_at.is_some());
}

#[test]
fn test_job_requeue() {
    let mut job_repo = MockJobQueueRepository::new();

    let request = plain_request("test");
    let job_id = job_repo.enqueue_job(&request).unwrap();

    let update = JobStatusUpdate {
        id: job_id.clone(),
        status: JobStatus::Claimed,
        claimed_by: Some("executor-1".to_string()),
        claimed_at: Some(now()),
        ..Default::default()
    };
    job_repo.update_job_status(&update).unwrap();

    job_repo.requeue_job(&job_id).unwrap();

    let job = job_repo.get_job(&job_id).unwrap();
    assert_eq!(job.status, JobStatus::Pending);
    assert_eq!(job.claimed_by, None);
    assert_eq!(job.claimed_at, None);
}

#[test]
fn test_batch_enqueue() {
    let mut job_repo = MockJobQueueRepository::new();

    let mut first = plain_request("test");
    first.job_name = Some("job-1".to_string());
    let mut second = plain_request("test");
    second.job_name = Some("job-2".to_string());
    let requests = vec![first, second];

    let job_ids = job_repo.enqueue_jobs_batch(&requests).unwrap();

    assert_eq!(job_ids.len(), 2);

    let job1 = job_repo.get_job(&job_ids[0]).unwrap();
    let job2 = job_repo.get_job(&job_ids[1]).unwrap();

    assert_eq!(job1.job_name, Some("job-1".to_string()));
    assert_eq!(job2.job_name, Some("job-2".to_string()));
}

#[test]
fn test_get_distinct_topics() {
    let mut job_repo = MockJobQueueRepository::new();

    for topic in &["topic-a", "topic-b", "topic-a", "topic-c"] {
        let request = plain_request(topic);
        job_repo.enqueue_job(&request).unwrap();
    }

    let topics = job_repo.get_distinct_topics().unwrap();

    assert_eq!(topics.len(), 3);
    assert!(topics.contains(&"topic-a".to_string()));
    assert!(topics.contains(&"topic-b".to_string()));
    assert!(topics.contains(&"topic-c".to_string()));
}

#[test]
fn test_image_registry() {
    let mut repo = MockImageRegistryRepository::new();

    let id = Uuid::new_v4().to_string();
    let image = ImageInfo::new(
        id.clone(),
        "docker.io/library/alpine:latest".to_string(),
        true,
        StrMap::new(),
        None,
        StrMap::new(),
    );

    repo.add_image(image);

    let retrieved = repo.get_image(&id).unwrap();
    assert_eq!(retrieved.full_image_path, "docker.io/library/alpine:latest");
    assert!(retrieved.is_active);
}

#[test]
fn test_image_not_found() {
    let repo = MockImageRegistryRepository::new();

    let result = repo.get_image("non-existent-id");
    assert!(result.is_err());
    assert!(result.unwrap_err().contains("Image not found"));
}

#[test]
fn test_execution_history() {
    let mut repo = MockJobExecutionHistoryRepository::new();

    let job_id = Uuid::new_v4().to_string();

    let entries = vec![
        HistoryEntry {
            job_id: job_id.clone(),
            job_topic: "test".to_string(),
            status: JobStatus::Pending,
            message: Some("Job created".to_string()),
            pod_logs: None,
            k8s_events: None,
            metadata: None,
        },
        HistoryEntry {
            job_id: job_id.clone(),
            job_topic: "test".to_string(),
            status: JobStatus::Running,
            message: Some("Job started".to_string()),
            pod_logs: Some("Starting container...".to_string()),
            k8s_events: None,
            metadata: None,
        },
        HistoryEntry {
            job_id: job_id.clone(),
            job_topic: "test".to_string(),
            status: JobStatus::Completed,
            message: Some("Job completed successfully".to_string()),
            pod_logs: Some("Done!".to_string()),
            k8s_events: None,
            metadata: None,
        },
    ];

    for entry in &entries {
        repo.create_entry(entry).unwrap();
    }

    let history = repo.get_entries_for_job(&job_id);
    assert_eq!(history.len(), 3);
    assert_eq!(history[0].status, JobStatus::Pending);
    assert_eq!(history[1].status, JobStatus::Running);
    assert_eq!(history[2].status, JobStatus::Completed);
}

#[test]
fn test_enqueue_error_handling() {
    let mut repo = MockJobQueueRepository::new();

    repo.set_enqueue_result(Err("Database connection failed".to_string()));

    let request = plain_request("test");

    let result = repo.enqueue_job(&request);
    assert!(result.is_err());
    assert_eq!(result.unwrap_err(), "Database connection failed");
}

#[test]
fn test_job_not_found() {
    let repo = MockJobQueueRepository::new();

    let result = repo.get_job("non-existent-id");
    assert!(result.is_err());
    assert!(result.unwrap_err().contains("Job not found"));
}

#[test]
fn test_update_nonexistent_job() {
    let mut repo = MockJobQueueRepository::new();

    let update = JobStatusUpdate {
        id: "non-existent-id".to_string(),
        status: JobStatus::Running,
        ..Default::default()
    };

    let result = repo.update_job_status(&update);
    assert!(result.is_err());
    assert!(result.unwrap_err().contains("Job not found"));
}

#[test]
fn test_repository_isolation() {
    let mut repo1 = MockJobQueueRepository::new();
    let repo2 = MockJobQueueRepository::new();

    let request = plain_request("test");

    let job_id = repo1.enqueue_job(&request).unwrap();

    assert!(repo1.get_job(&job_id).is_ok());

    assert!(repo2.get_job(&job_id).is_err());
}

#[test]
fn scripted_enqueue_result_is_used_once() {
    let mut repo = MockJobQueueRepository::new();
    repo.set_enqueue_result(Ok("fixed-id".to_string()));
    assert_eq!(repo.enqueue_job(&plain_request("t")), Ok("fixed-id".to_string()));
    assert!(repo.get_job("fixed-id").is_err());
    let id = repo.enqueue_job(&plain_request("t")).unwrap();
    assert_ne!(id, "fixed-id");
    assert!(repo.get_job(&id).is_ok());
}

#[test]
fn requeue_keeps_the_retry_count() {
    let mut repo = MockJobQueueRepository::new();
    let id = repo.enqueue_job(&plain_request("t")).unwrap();
    repo.requeue_job(&id).unwrap();
    repo.requeue_job(&id).unwrap();
    let job = repo.get_job(&id).unwrap();
    assert_eq!(job.retry_count, 0);
    assert_eq!(job.status, JobStatus::Pending);
    assert!(repo.requeue_job("missing").unwrap_err().contains("Job not found: missing"));
}

#[test]
fn enqueue_defaults() {
    let mut repo = MockJobQueueRepository::new();
    let id = repo.enqueue_job(&plain_request("t")).unwrap();
    let job = repo.get_job(&id).unwrap();
    assert_eq!(job.priority, 0);
    assert_eq!(job.max_retries, 3);
    assert_eq!(job.retry_count, 0);
    assert_eq!(job.claimed_by, None);
    assert_eq!(job.outputs.is_none(), true);
}

#[test]
fn cleared_stores_are_empty() {
    let mut repo = MockJobQueueRepository::new();
    let id = repo.enqueue_job(&plain_request("t")).unwrap();
    repo.clear();
    assert!(repo.get_job(&id).is_err());
    assert_eq!(repo.get_all_jobs().len(), 0);

    let mut images = MockImageRegistryRepository::new();
    images.add_image(ImageInfo::new("i".to_string(), "p".to_string(), false, StrMap::new(), None, StrMap::new()));
    assert!(images.get_image("i").is_ok());
    images.clear();
    assert_eq!(images.get_image("i").unwrap_err(), "Image not found: i");
}
