use torc_spec::json::JsonValue;
use torc_spec::models::{
    ClaimActionResponse, DeleteCountResponse, EventModel, ReloadAuthResponse,
    default_false, default_memory, default_num_cpus, default_num_gpus, default_num_nodes,
    default_required_triggers, default_runtime, default_trigger_count, is_valid_env_var_name,
    AccessGroupModel, ClaimJobsBasedOnResources, ComputeNodeSchedule, CreateJobsResponse,
    EventSeverity, IsUninitializedResponse, JobModel, JobStatus, JobStatusMap,
    ListAccessGroupsResponse, ListJobIdsResponse, ListJobsResponse,
    ListUserGroupMembershipsResponse, LocalSchedulerModel, ResetJobStatusResponse,
    ResourceRequirementsModel, SlurmSchedulerModel, TaskModel, TaskStatus,
    UserGroupMembershipModel, VersionResponse,
};
use torc_spec::workflow_spec::{FailureHandlerRuleSpec, ResourceRequirementsSpec, SlurmSchedulerSpec};

const ALL: [JobStatus; 11] = [
    JobStatus::Uninitialized,
    JobStatus::Blocked,
    JobStatus::Ready,
    JobStatus::Pending,
    JobStatus::Running,
    JobStatus::Completed,
    JobStatus::Failed,
    JobStatus::Canceled,
    JobStatus::Terminated,
    JobStatus::Disabled,
    JobStatus::PendingFailed,
];

#[test]
fn env_var_names() {
    assert!(is_valid_env_var_name("PATH"));
    assert!(is_valid_env_var_name("_x1"));
    assert!(!is_valid_env_var_name("1ABC"));
    assert!(!is_valid_env_var_name("BAD-NAME"));
    assert!(!is_valid_env_var_name(""));
}

#[test]
fn job_status_integers_round_trip() {
    for (i, s) in ALL.iter().enumerate() {
        assert_eq!(s.to_int(), i as i32);
        assert_eq!(JobStatus::from_int(i as i32), Ok(*s));
        assert_eq!(JobStatusMap::to_int(s), i as i32);
        assert_eq!(JobStatusMap::from_int(i as i32), Some(*s));
        assert_eq!(JobStatus::from_str(&s.to_display_string()), Ok(*s));
    }
    assert_eq!(JobStatus::from_int(11), Err("Invalid JobStatus integer value: 11".to_string()));
    assert_eq!(JobStatus::from_int(-3), Err("Invalid JobStatus integer value: -3".to_string()));
    assert_eq!(JobStatusMap::from_int(42), None);
    assert_eq!(JobStatus::from_i64(5), Ok(JobStatus::Completed));
    assert_eq!(JobStatusMap::from_i64(4_294_967_298), Some(JobStatus::Ready));
    assert_eq!(JobStatus::from_str("done"), Err("Value not valid: done".to_string()));
    assert_eq!(JobStatus::PendingFailed.to_display_string(), "pending_failed");
    assert_eq!(JobStatusMap::enum_to_int_map().len(), 11);
    assert_eq!(JobStatusMap::int_to_enum_map()[10], (10, JobStatus::PendingFailed));
}

#[test]
fn complete_statuses_are_terminal() {
    for s in ALL.iter() {
        if s.is_complete() {
            assert!(s.is_terminal());
        }
    }
    assert!(JobStatus::PendingFailed.is_terminal());
    assert!(!JobStatus::PendingFailed.is_complete());
    assert!(!JobStatus::Running.is_terminal());
}

#[test]
fn event_severity_parsing() {
    assert_eq!(EventSeverity::from_str("WARNING"), Ok(EventSeverity::Warning));
    assert_eq!(EventSeverity::from_str("info"), Ok(EventSeverity::Info));
    assert_eq!(
        EventSeverity::from_str("loud"),
        Err("Invalid severity level: loud".to_string())
    );
    assert_eq!(EventSeverity::default(), EventSeverity::Info);
    assert_eq!(EventSeverity::Error.to_display_string(), "error");
}

#[test]
fn task_status_parsing() {
    assert_eq!(TaskStatus::from_str("queued"), Ok(TaskStatus::Queued));
    assert_eq!(TaskStatus::from_str("nope"), Err("Unknown task status: nope".to_string()));
    assert_eq!(TaskStatus::Succeeded.to_display_string(), "succeeded");
    let t = TaskModel::new(1, 2, "archive".to_string(), TaskStatus::Running, 99);
    assert_eq!(t.created_at_ms, 99);
    assert!(t.started_at_ms.is_none() && t.finished_at_ms.is_none() && t.error.is_none());
}

#[test]
fn model_defaults() {
    assert_eq!(default_trigger_count(), 0);
    assert_eq!(default_required_triggers(), 1);
    assert!(!default_false());
    assert_eq!(default_num_cpus(), 1);
    assert_eq!(default_num_gpus(), 0);
    assert_eq!(default_num_nodes(), 1);
    assert_eq!(default_memory(), "1m");
    assert_eq!(default_runtime(), "PT1M");

    let rr = ResourceRequirementsModel::new(7, "defaulted".to_string());
    assert_eq!(rr.num_cpus, 1);
    assert_eq!(rr.num_gpus, 0);
    assert_eq!(rr.num_nodes, 1);
    assert_eq!(rr.memory, "1m");
    assert_eq!(rr.runtime, "PT1M");

    let job = JobModel::new(3, "j".to_string(), "echo".to_string());
    assert_eq!(job.status, Some(JobStatus::Uninitialized));
    assert_eq!(job.attempt_id, Some(1));
    assert_eq!(job.cancel_on_blocking_job_failure, Some(true));
    assert_eq!(job.supports_termination, Some(false));

    let sched = SlurmSchedulerModel::new(1, "acct".to_string(), 2, "01:00:00".to_string());
    assert_eq!(sched.qos.as_deref(), Some("normal"));
    assert_eq!(LocalSchedulerModel::new(4).name.as_deref(), Some("default"));
    assert_eq!(UserGroupMembershipModel::new("ann".to_string(), 3).role, "member");
    assert!(CreateJobsResponse::new().jobs.is_none());
    assert!(ClaimJobsBasedOnResources::new().reason.is_none());
    let sched = ComputeNodeSchedule::new(5, 6);
    assert_eq!(sched.start_one_worker_per_node, Some(false));
    assert_eq!(sched.max_parallel_jobs, None);

    assert_eq!(ResourceRequirementsSpec::default_num_nodes(), 1);
    assert_eq!(ResourceRequirementsSpec::default_runtime(), "PT1H");
    assert_eq!(FailureHandlerRuleSpec::default_max_retries(), 3);
    assert_eq!(SlurmSchedulerSpec::default_nodes(), 1);
    assert_eq!(SlurmSchedulerSpec::default_walltime(), "01:00:00");
}

#[test]
fn pages_know_whether_more_follow() {
    let items = vec![AccessGroupModel::new("a".to_string()), AccessGroupModel::new("b".to_string())];
    let page = ListAccessGroupsResponse::new(items, 0, 2, 5);
    assert!(page.has_more);
    let items = vec![AccessGroupModel::new("a".to_string())];
    let page = ListAccessGroupsResponse::new(items, 4, 2, 5);
    assert!(!page.has_more);
    let page = ListUserGroupMembershipsResponse::new(vec![], 0, 10, 0);
    assert!(!page.has_more);

    let ids = ListJobIdsResponse::new(vec![4, 5, 6]);
    assert_eq!(ids.count, 3);

    let empty = ListJobsResponse::new(0, 100, 0, 0, false);
    assert!(empty.items.is_empty());
    assert_eq!(empty.max_limit, 100);
}

#[test]
fn small_response_accessors() {
    let reset = ResetJobStatusResponse::new(1, 2, "ready".to_string());
    assert!(reset.reset_type.is_none());
    let reset = reset.with_reset_type("failed_only".to_string());
    assert_eq!(reset.reset_type.as_deref(), Some("failed_only"));
    assert_eq!(reset.updated_count, 2);

    let v = VersionResponse { version: "1.2".to_string(), api_version: "v3".to_string(), git_hash: None };
    assert!(v.is_object());
    assert_eq!(v.as_str(), Some("1.2"));
    assert_eq!(IsUninitializedResponse { is_uninitialized: true }.as_bool(), Some(true));
}

#[test]
fn responses_read_as_json_objects() {
    let d = DeleteCountResponse { count: 3 };
    assert!(matches!(d.get("count"), Some(JsonValue::Number(n)) if n == "3"));
    assert!(d.get("other").is_none());
    let v = VersionResponse { version: "1.2".to_string(), api_version: "v1".to_string(), git_hash: None };
    assert!(matches!(v.get("api_version"), Some(JsonValue::String(s)) if s == "v1"));
    assert!(v.get("git_hash").is_none());
    let c = ClaimActionResponse { action_id: 8, success: true };
    assert!(matches!(c.get("claimed"), Some(JsonValue::Bool(true))));
    assert!(matches!(c.get("action_id"), Some(JsonValue::Number(n)) if n == "8"));
    let r = ReloadAuthResponse { message: "ok".to_string(), user_count: 2 };
    assert!(matches!(r.get("user_count"), Some(JsonValue::Number(n)) if n == "2"));
}

#[test]
fn event_timestamps_render_in_utc() {
    let e = EventModel { id: None, workflow_id: 1, timestamp: 1_700_000_000_123, data: JsonValue::Null };
    assert_eq!(e.timestamp_as_string(), "2023-11-14T22:13:20.123Z");
    let e = EventModel { id: None, workflow_id: 1, timestamp: 0, data: JsonValue::Null };
    assert_eq!(e.timestamp_as_string(), "1970-01-01T00:00:00.000Z");
    let e = EventModel { id: None, workflow_id: 1, timestamp: i64::MAX, data: JsonValue::Null };
    assert_eq!(e.timestamp_as_string(), "9223372036854775807ms");
    let fresh = EventModel::new(4, JsonValue::Bool(true));
    assert_eq!(fresh.workflow_id, 4);
    assert!(fresh.timestamp > 1_600_000_000_000);
}
