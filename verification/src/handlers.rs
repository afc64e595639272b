//! What the scaffold endpoints of the API answer: access groups, resource
//! requirements, failure handlers, actions and remote workers. The HTTP
//! side (routing, extraction, JSON bodies) lives with the server; these
//! functions take the extracted values and give the response.

use vstd::prelude::*;

use crate::models::{
    AccessCheckResponse, AccessGroupModel, ClaimActionResponse, CreateJobsResponse,
    DeleteCountResponse, DeleteRoCrateEntitiesResponse, FailureHandlerModel, JobsModel,
    ListAccessGroupsResponse, ListFailureHandlersResponse, ListResourceRequirementsResponse,
    ListUserGroupMembershipsResponse, MessageResponse, ReloadAuthResponse, RemoteWorkerModel,
    ResourceRequirementsModel, UserGroupMembershipModel, WorkflowAccessGroupModel,
};
use crate::text::lit;

verus! {

/// Paging of the access-control lists.
#[derive(Debug, Clone, Copy, PartialEq, Eq, Structural)]
pub struct AccessPaginationQuery {
    pub offset: Option<i64>,
    pub limit: Option<i64>,
}

/// Filters of the resource requirements list.
#[derive(Debug, Clone)]
pub struct ResourceRequirementsListQuery {
    pub workflow_id: i64,
    pub offset: Option<i64>,
    pub limit: Option<i64>,
    pub sort_by: Option<String>,
    pub reverse_sort: Option<bool>,
    pub job_id: Option<i64>,
    pub name: Option<String>,
    pub memory: Option<String>,
    pub num_cpus: Option<i64>,
    pub num_gpus: Option<i64>,
    pub num_nodes: Option<i64>,
    pub runtime: Option<i64>,
}

/// Which workflow's resource requirements to delete.
#[derive(Debug, Clone, Copy, PartialEq, Eq, Structural)]
pub struct DeleteResourceRequirementsQuery {
    pub workflow_id: i64,
}

/// Paging of the failure handler list.
#[derive(Debug, Clone, Copy, PartialEq, Eq, Structural)]
pub struct FailureHandlersListQuery {
    pub offset: Option<i64>,
    pub limit: Option<i64>,
}

/// Filters of the Slurm statistics list.
#[derive(Debug, Clone, Copy, PartialEq, Eq, Structural)]
pub struct SlurmStatsListQuery {
    pub workflow_id: i64,
    pub job_id: Option<i64>,
    pub offset: Option<i64>,
    pub limit: Option<i64>,
}

/// Filters of the compute node list.
#[derive(Debug, Clone)]
pub struct ComputeNodesListQuery {
    pub workflow_id: i64,
    pub offset: Option<i64>,
    pub limit: Option<i64>,
    pub sort_by: Option<String>,
    pub reverse_sort: Option<bool>,
    pub hostname: Option<String>,
    pub is_active: Option<bool>,
    pub scheduled_compute_node_id: Option<i64>,
}

/// Which workflow's compute nodes to delete.
#[derive(Debug, Clone, Copy, PartialEq, Eq, Structural)]
pub struct DeleteComputeNodesQuery {
    pub workflow_id: i64,
}

/// Filters of the event list.
#[derive(Debug, Clone)]
pub struct EventsListQuery {
    pub workflow_id: i64,
    pub offset: Option<i64>,
    pub limit: Option<i64>,
    pub sort_by: Option<String>,
    pub reverse_sort: Option<bool>,
    pub category: Option<String>,
    pub after_timestamp: Option<i64>,
}

/// Which workflow's events to delete.
#[derive(Debug, Clone, Copy, PartialEq, Eq, Structural)]
pub struct DeleteEventsQuery {
    pub workflow_id: i64,
}

/// Filters of the file list.
#[derive(Debug, Clone)]
pub struct FilesListQuery {
    pub workflow_id: i64,
    pub produced_by_job_id: Option<i64>,
    pub offset: Option<i64>,
    pub limit: Option<i64>,
    pub sort_by: Option<String>,
    pub reverse_sort: Option<bool>,
    pub name: Option<String>,
    pub path: Option<String>,
    pub is_output: Option<bool>,
}

/// Which workflow's files to delete.
#[derive(Debug, Clone, Copy, PartialEq, Eq, Structural)]
pub struct DeleteFilesQuery {
    pub workflow_id: i64,
}

/// Trigger types of pending actions to list.
#[derive(Debug, Clone)]
pub struct PendingActionsQuery {
    pub trigger_type: Option<Vec<String>>,
}

/// Paging of the RO-Crate entity list.
#[derive(Debug, Clone)]
pub struct RoCrateEntitiesQuery {
    pub offset: Option<i64>,
    pub limit: Option<i64>,
    pub sort_by: Option<String>,
    pub reverse_sort: Option<bool>,
}

/// The time stamp of the example records.
pub open spec fn example_time() -> Seq<char> {
    "2026-03-21T00:00:00Z"@
}

pub open spec fn or_default(o: Option<i64>, d: i64) -> i64 {
    match o {
        Some(v) => v,
        None => d,
    }
}

fn value_or(o: Option<i64>, d: i64) -> (r: i64)
    ensures
        r == or_default(o, d),
{
    match o {
        Some(v) => v,
        None => d,
    }
}

/// `id` when it is set, else 0 (a record not yet stored).
pub open spec fn id_or_zero(id: Option<i64>) -> Option<i64> {
    match id {
        Some(v) => Some(v),
        None => Some(0),
    }
}

// ---------------------------------------------------------------------------
// Access control
// ---------------------------------------------------------------------------

/// The example access group.
pub fn example_access_group(id: Option<i64>) -> (g: AccessGroupModel)
    ensures
        g.id == id,
        g.name@ == "research"@,
        g.description matches Some(d) && d@ == "Shared access group"@,
        g.created_at matches Some(t) && t@ == example_time(),
{
    AccessGroupModel {
        id,
        name: lit("research"),
        description: Some(lit("Shared access group")),
        created_at: Some(lit("2026-03-21T00:00:00Z")),
    }
}

/// The example membership of a group.
pub fn example_membership(group_id: i64) -> (m: UserGroupMembershipModel)
    ensures
        m.id == Some(1i64),
        m.user_name@ == "alice"@,
        m.group_id == group_id,
        m.role@ == "member"@,
        m.created_at matches Some(t) && t@ == example_time(),
{
    UserGroupMembershipModel {
        id: Some(1),
        user_name: lit("alice"),
        group_id,
        role: lit("member"),
        created_at: Some(lit("2026-03-21T00:00:00Z")),
    }
}

/// A created group: the body, stamped when it has no id or time yet.
pub fn create_access_group(body: AccessGroupModel) -> (g: AccessGroupModel)
    ensures
        g.id == id_or_zero(body.id),
        g.name == body.name,
        g.description == body.description,
        body.created_at is Some ==> g.created_at == body.created_at,
        body.created_at is None ==> (g.created_at matches Some(t) && t@ == example_time()),
{
    let mut g = body;
    if g.id.is_none() {
        g.id = Some(0);
    }
    if g.created_at.is_none() {
        g.created_at = Some(lit("2026-03-21T00:00:00Z"));
    }
    g
}

/// A one-group page, paged as asked (offset 0 and limit 100 by default).
pub fn list_access_groups(query: AccessPaginationQuery) -> (r: ListAccessGroupsResponse)
    ensures
        r.items.len() == 1,
        r.items@[0].id == Some(1i64),
        r.offset == or_default(query.offset, 0),
        r.limit == or_default(query.limit, 100),
        r.total_count == 1,
        !r.has_more,
{
    ListAccessGroupsResponse {
        items: vec![example_access_group(Some(1))],
        offset: value_or(query.offset, 0),
        limit: value_or(query.limit, 100),
        total_count: 1,
        has_more: false,
    }
}

/// The group with id `id`.
pub fn get_access_group(id: i64) -> (g: AccessGroupModel)
    ensures
        g.id == Some(id),
        g.name@ == "research"@,
{
    example_access_group(Some(id))
}

/// The deleted group with id `id`.
pub fn delete_access_group(id: i64) -> (g: AccessGroupModel)
    ensures
        g.id == Some(id),
        g.name@ == "research"@,
{
    example_access_group(Some(id))
}

/// A membership added to group `id`.
pub fn add_user_to_group(id: i64, body: UserGroupMembershipModel) -> (m: UserGroupMembershipModel)
    ensures
        m.group_id == id,
        m.id == id_or_zero(body.id),
        m.user_name == body.user_name,
        m.role == body.role,
        m.created_at == body.created_at,
{
    let mut m = body;
    m.group_id = id;
    if m.id.is_none() {
        m.id = Some(0);
    }
    m
}

/// A one-member page of group `id`.
pub fn list_group_members(id: i64, query: AccessPaginationQuery) -> (r: ListUserGroupMembershipsResponse)
    ensures
        r.items.len() == 1,
        r.items@[0].group_id == id,
        r.offset == or_default(query.offset, 0),
        r.limit == or_default(query.limit, 100),
        r.total_count == 1,
        !r.has_more,
{
    ListUserGroupMembershipsResponse {
        items: vec![example_membership(id)],
        offset: value_or(query.offset, 0),
        limit: value_or(query.limit, 100),
        total_count: 1,
        has_more: false,
    }
}

/// The membership of `user_name` removed from group `id`.
pub fn remove_user_from_group(id: i64, user_name: String) -> (m: UserGroupMembershipModel)
    ensures
        m.id == Some(1i64),
        m.user_name == user_name,
        m.group_id == id,
        m.role@ == "member"@,
        m.created_at matches Some(t) && t@ == example_time(),
{
    UserGroupMembershipModel {
        id: Some(1),
        user_name,
        group_id: id,
        role: lit("member"),
        created_at: Some(lit("2026-03-21T00:00:00Z")),
    }
}

/// A one-group page of the groups of a user.
pub fn list_user_groups(user_name: &str, query: AccessPaginationQuery) -> (r: ListAccessGroupsResponse)
    ensures
        r.items.len() == 1,
        r.offset == or_default(query.offset, 0),
        r.limit == or_default(query.limit, 100),
        r.total_count == 1,
        !r.has_more,
{
    list_access_groups(query)
}

/// Workflow `id` shared with group `group_id`.
pub fn add_workflow_to_group(id: i64, group_id: i64) -> (r: WorkflowAccessGroupModel)
    ensures
        r.workflow_id == id,
        r.group_id == group_id,
        r.created_at matches Some(t) && t@ == example_time(),
{
    WorkflowAccessGroupModel {
        workflow_id: id,
        group_id,
        created_at: Some(lit("2026-03-21T00:00:00Z")),
    }
}

/// A one-group page of the groups of a workflow.
pub fn list_workflow_groups(id: i64, query: AccessPaginationQuery) -> (r: ListAccessGroupsResponse)
    ensures
        r.items.len() == 1,
        r.offset == or_default(query.offset, 0),
        r.limit == or_default(query.limit, 100),
        r.total_count == 1,
        !r.has_more,
{
    list_access_groups(query)
}

/// Workflow `id` no longer shared with group `group_id`.
pub fn remove_workflow_from_group(id: i64, group_id: i64) -> (r: WorkflowAccessGroupModel)
    ensures
        r.workflow_id == id,
        r.group_id == group_id,
        r.created_at matches Some(t) && t@ == example_time(),
{
    add_workflow_to_group(id, group_id)
}

/// Access of a user to a workflow: granted.
pub fn check_workflow_access(workflow_id: i64, user_name: String) -> (r: AccessCheckResponse)
    ensures
        r.has_access,
        r.user_name == user_name,
        r.workflow_id == workflow_id,
        r.reason is None,
{
    AccessCheckResponse { has_access: true, user_name, workflow_id, reason: None }
}

/// The answer to reloading the user file.
pub fn reload_auth() -> (r: ReloadAuthResponse)
    ensures
        r.message@ == "Authentication data reloaded"@,
        r.user_count == 1,
{
    ReloadAuthResponse { message: lit("Authentication data reloaded"), user_count: 1 }
}

// ---------------------------------------------------------------------------
// Resource requirements and failure handlers
// ---------------------------------------------------------------------------

/// The example resource requirements.
pub fn example_resource_requirements(id: Option<i64>, workflow_id: i64) -> (r: ResourceRequirementsModel)
    ensures
        r.id == id,
        r.workflow_id == workflow_id,
        r.name@ == "default"@,
        r.num_cpus == 4,
        r.num_gpus == 1,
        r.num_nodes == 1,
        r.memory@ == "16g"@,
        r.runtime@ == "PT2H"@,
{
    ResourceRequirementsModel {
        id,
        workflow_id,
        name: lit("default"),
        num_cpus: 4,
        num_gpus: 1,
        num_nodes: 1,
        memory: lit("16g"),
        runtime: lit("PT2H"),
    }
}

/// The example failure handler: retry any failure three times.
pub fn example_failure_handler(id: Option<i64>, workflow_id: i64) -> (f: FailureHandlerModel)
    ensures
        f.id == id,
        f.workflow_id == workflow_id,
        f.name@ == "simple_retry"@,
        f.rules@ == "[{\"match_all_exit_codes\":true,\"max_retries\":3}]"@,
{
    FailureHandlerModel {
        id,
        workflow_id,
        name: lit("simple_retry"),
        rules: lit("[{\"match_all_exit_codes\":true,\"max_retries\":3}]"),
    }
}

/// The jobs created by a bulk request: those of the request.
pub fn create_jobs(body: JobsModel) -> (r: CreateJobsResponse)
    ensures
        r.jobs == Some(body.jobs),
{
    CreateJobsResponse { jobs: Some(body.jobs) }
}

/// Created requirements: the body, with id 0 when it has none.
pub fn create_resource_requirements(body: ResourceRequirementsModel) -> (r: ResourceRequirementsModel)
    ensures
        r.id == id_or_zero(body.id),
        r.workflow_id == body.workflow_id,
        r.name == body.name,
        r.num_cpus == body.num_cpus,
        r.num_gpus == body.num_gpus,
        r.num_nodes == body.num_nodes,
        r.memory == body.memory,
        r.runtime == body.runtime,
{
    let mut r = body;
    if r.id.is_none() {
        r.id = Some(0);
    }
    r
}

/// Deleting the requirements of a workflow.
pub fn delete_resource_requirements(query: DeleteResourceRequirementsQuery) -> (r: DeleteCountResponse)
    ensures
        r.count == 0,
{
    DeleteCountResponse { count: 0 }
}

/// A one-record page of requirements, at most `max_limit` per page.
pub fn list_resource_requirements(query: &ResourceRequirementsListQuery, max_limit: i64) -> (r: ListResourceRequirementsResponse)
    ensures
        r.items.len() == 1,
        r.items@[0].workflow_id == query.workflow_id,
        r.items@[0].id == Some(1i64),
        r.offset == or_default(query.offset, 0),
        r.max_limit == max_limit,
        r.count == 1,
        r.total_count == 1,
        !r.has_more,
{
    ListResourceRequirementsResponse {
        items: vec![example_resource_requirements(Some(1), query.workflow_id)],
        offset: value_or(query.offset, 0),
        max_limit,
        count: 1,
        total_count: 1,
        has_more: false,
    }
}

/// Updated requirements: the body, with the id of the path.
pub fn update_resource_requirements(id: i64, body: ResourceRequirementsModel) -> (r: ResourceRequirementsModel)
    ensures
        r.id == Some(id),
        r.workflow_id == body.workflow_id,
        r.name == body.name,
        r.memory == body.memory,
        r.runtime == body.runtime,
{
    let mut r = body;
    r.id = Some(id);
    r
}

/// A created failure handler: the body, with id 0 when it has none.
pub fn create_failure_handler(body: FailureHandlerModel) -> (f: FailureHandlerModel)
    ensures
        f.id == id_or_zero(body.id),
        f.workflow_id == body.workflow_id,
        f.name == body.name,
        f.rules == body.rules,
{
    let mut f = body;
    if f.id.is_none() {
        f.id = Some(0);
    }
    f
}

/// A one-handler page of workflow `id`, at most `max_limit` per page.
pub fn list_failure_handlers(id: i64, query: FailureHandlersListQuery, max_limit: i64) -> (r: ListFailureHandlersResponse)
    ensures
        r.items.len() == 1,
        r.items@[0].workflow_id == id,
        r.offset == or_default(query.offset, 0),
        r.max_limit == max_limit,
        r.count == 1,
        r.total_count == 1,
        !r.has_more,
{
    ListFailureHandlersResponse {
        items: vec![example_failure_handler(Some(1), id)],
        offset: value_or(query.offset, 0),
        max_limit,
        count: 1,
        total_count: 1,
        has_more: false,
    }
}

// ---------------------------------------------------------------------------
// Actions, remote workers and RO-Crate entities
// ---------------------------------------------------------------------------

/// Claiming action `action_id`: granted.
pub fn claim_action(action_id: i64) -> (r: ClaimActionResponse)
    ensures
        r.action_id == action_id,
        r.success,
{
    ClaimActionResponse { action_id, success: true }
}

/// One remote worker of workflow `id` per address, in order.
pub fn create_remote_workers(id: i64, workers: Vec<String>) -> (r: Vec<RemoteWorkerModel>)
    ensures
        r.len() == workers.len(),
        forall|i: int|
            0 <= i < r.len() ==> (#[trigger] r@[i]).worker@ == workers@[i]@ && r@[i].workflow_id
                == id,
{
    let mut r: Vec<RemoteWorkerModel> = Vec::new();
    let mut i: usize = 0;
    while i < workers.len()
        invariant
            i <= workers.len(),
            r.len() == i,
            forall|k: int|
                0 <= k < i ==> (#[trigger] r@[k]).worker@ == workers@[k]@ && r@[k].workflow_id
                    == id,
        decreases workers.len() - i,
    {
        r.push(RemoteWorkerModel { worker: crate::text::copy_string(&workers[i]), workflow_id: id });
        i = i + 1;
    }
    r
}

/// The remote workers of workflow `id`.
pub fn list_remote_workers(id: i64) -> (r: Vec<RemoteWorkerModel>)
    ensures
        r.len() == 1,
        r@[0].worker@ == "user@hostname:22"@,
        r@[0].workflow_id == id,
{
    vec![RemoteWorkerModel { worker: lit("user@hostname:22"), workflow_id: id }]
}

/// The deleted remote worker.
pub fn delete_remote_worker(id: i64, worker: String) -> (r: RemoteWorkerModel)
    ensures
        r.worker == worker,
        r.workflow_id == id,
{
    RemoteWorkerModel { worker, workflow_id: id }
}

/// The answer to deleting an RO-Crate entity.
pub fn delete_ro_crate_entity() -> (r: MessageResponse)
    ensures
        r.message@ == "RO-Crate entity deleted"@,
{
    MessageResponse { message: lit("RO-Crate entity deleted") }
}

/// The answer to deleting the RO-Crate entities of a workflow.
pub fn delete_ro_crate_entities() -> (r: DeleteRoCrateEntitiesResponse)
    ensures
        r.message@ == "RO-Crate entities deleted"@,
        r.deleted_count == 1,
{
    DeleteRoCrateEntitiesResponse { message: lit("RO-Crate entities deleted"), deleted_count: 1 }
}

} // verus!
