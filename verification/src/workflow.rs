//! A complete workflow specification, and its expansion: every
//! parameterized job, file and user data record replaced by the records it
//! generates, after inheriting the workflow's shared parameters.

use vstd::prelude::*;

use crate::combinations::{combos_view, combos_well_formed, map_view, opt_view, Combo, ParameterMap};
use crate::execution::{DynamicJobsConfig, ExecutionConfig, ResourceMonitorConfig};
use crate::json::JsonValue;
use crate::parameters::{parse_parameter, parse_parameter_value, ParamVal, ParameterValue};
use crate::templates::{bindings_view, bindings_well_formed, substitute_parameters, Bindings};
use crate::text::{chars_eq, chars_of, concat3, copy_string, lit};
use crate::workflow_spec::{
    files_view, jobs_view, opt_map_view, opt_strs_view, parameter_source_verdict, spec_expand,
    spec_expand_file, strs_view, subst_env, unit_view, user_data_expansion, result_seq_view,
    validate_parameter_source, FailureHandlerSpec, FileSpec, FileSpecView, JobSpec, JobSpecView,
    ResourceRequirementsSpec, SlurmSchedulerSpec, UserDataSpec, WorkflowActionSpec,
};

verus! {

/// A complete workflow specification. Maps keyed by name are lists of
/// name/value pairs with distinct names.
#[derive(Debug)]
pub struct WorkflowSpec {
    pub name: String,
    pub user: Option<String>,
    pub description: Option<String>,
    /// Shared parameters that jobs, files and user data opt into.
    pub parameters: Option<ParameterMap>,
    /// Shared CSV/JSON parameter table.
    pub parameters_file: Option<String>,
    /// Constants substituted into every string of the specification.
    pub variables: Option<ParameterMap>,
    /// Environment exported for every job.
    pub env: Option<ParameterMap>,
    pub compute_node_expiration_buffer_seconds: Option<i64>,
    pub compute_node_wait_for_new_jobs_seconds: Option<i64>,
    pub compute_node_ignore_workflow_completion: Option<bool>,
    pub compute_node_wait_for_healthy_database_minutes: Option<i64>,
    pub jobs: Vec<JobSpec>,
    pub files: Option<Vec<FileSpec>>,
    pub user_data: Option<Vec<UserDataSpec>>,
    pub resource_requirements: Option<Vec<ResourceRequirementsSpec>>,
    pub failure_handlers: Option<Vec<FailureHandlerSpec>>,
    pub slurm_schedulers: Option<Vec<SlurmSchedulerSpec>>,
    /// Default sbatch parameters of every scheduler.
    pub slurm_defaults: Option<Vec<(String, JsonValue)>>,
    pub resource_monitor: Option<ResourceMonitorConfig>,
    pub actions: Option<Vec<WorkflowActionSpec>>,
    pub dynamic_jobs: Option<DynamicJobsConfig>,
    pub use_pending_failed: Option<bool>,
    pub enable_ro_crate: Option<bool>,
    pub project: Option<String>,
    pub metadata: Option<Vec<(String, JsonValue)>>,
    pub execution_config: Option<ExecutionConfig>,
    pub access_groups: Option<Vec<String>>,
}

impl WorkflowSpec {
    /// A workflow with its name, owner, description and jobs.
    pub fn new(name: String, user: String, description: Option<String>, jobs: Vec<JobSpec>) -> (w: WorkflowSpec)
        ensures
            w.name == name,
            w.user == Some(user),
            w.description == description,
            w.jobs == jobs,
            w.parameters is None,
            w.parameters_file is None,
            w.variables is None,
            w.env is None,
            w.files is None,
            w.user_data is None,
            w.resource_requirements is None,
            w.failure_handlers is None,
            w.slurm_schedulers is None,
            w.slurm_defaults is None,
            w.resource_monitor is None,
            w.actions is None,
            w.dynamic_jobs is None,
            w.execution_config is None,
            w.access_groups is None,
    {
        WorkflowSpec {
            name,
            user: Some(user),
            description,
            parameters: None,
            parameters_file: None,
            variables: None,
            env: None,
            compute_node_expiration_buffer_seconds: None,
            compute_node_wait_for_new_jobs_seconds: None,
            compute_node_ignore_workflow_completion: None,
            compute_node_wait_for_healthy_database_minutes: None,
            jobs,
            files: None,
            user_data: None,
            resource_requirements: None,
            failure_handlers: None,
            slurm_schedulers: None,
            slurm_defaults: None,
            resource_monitor: None,
            actions: None,
            dynamic_jobs: None,
            use_pending_failed: None,
            enable_ro_crate: None,
            project: None,
            metadata: None,
            execution_config: None,
            access_groups: None,
        }
    }
}

// ---------------------------------------------------------------------------
// Inheriting the workflow's parameters
// ---------------------------------------------------------------------------

/// The text of the first entry named `k`.
pub open spec fn map_lookup(m: Seq<(Seq<char>, Seq<char>)>, k: Seq<char>) -> Option<Seq<char>>
    decreases m.len(),
{
    if m.len() == 0 {
        None
    } else if m[0].0 == k {
        Some(m[0].1)
    } else {
        map_lookup(m.drop_first(), k)
    }
}

/// The workflow parameters named in `names`, in the order of the names,
/// each once, those the workflow lacks left out.
pub open spec fn select_params(names: Seq<Seq<char>>, wf: Seq<(Seq<char>, Seq<char>)>) -> Seq<
    (Seq<char>, Seq<char>),
>
    decreases names.len(),
{
    if names.len() == 0 {
        Seq::empty()
    } else {
        let prev = select_params(names.drop_last(), wf);
        let n = names.last();
        match map_lookup(wf, n) {
            Some(v) => if map_lookup(prev, n) is Some {
                prev
            } else {
                prev.push((n, v))
            },
            None => prev,
        }
    }
}

/// The parameters a job, file or user data record expands over: its own,
/// else the workflow parameters it names in `use_parameters` (`None` when
/// it names none that the workflow has).
pub open spec fn spec_resolve_parameters(
    local: Option<Seq<(Seq<char>, Seq<char>)>>,
    use_params: Option<Seq<Seq<char>>>,
    wf: Option<Seq<(Seq<char>, Seq<char>)>>,
) -> Option<Seq<(Seq<char>, Seq<char>)>> {
    if local is Some {
        local
    } else {
        match use_params {
            None => None,
            Some(names) => match wf {
                None => None,
                Some(w) => {
                    let f = select_params(names, w);
                    if f.len() == 0 {
                        None
                    } else {
                        Some(f)
                    }
                },
            },
        }
    }
}

/// The table a record expands over: its own, else the workflow's when it
/// opts into it.
pub open spec fn spec_resolve_parameters_file(
    local: Option<Seq<char>>,
    use_file: Option<bool>,
    wf_file: Option<Seq<char>>,
) -> Option<Seq<char>> {
    if local is Some {
        local
    } else if use_file == Some(true) {
        wf_file
    } else {
        None
    }
}

fn map_lookup_exec(m: &ParameterMap, k: &String) -> (r: Option<usize>)
    ensures
        match r {
            Some(i) => i < m.len() && map_lookup(map_view(m@), k@) == Some(m@[i as int].1@),
            None => map_lookup(map_view(m@), k@) is None,
        },
{
    let kv = chars_of(k.as_str());
    let mut i: usize = 0;
    proof {
        assert(map_view(m@).skip(0) =~= map_view(m@));
    }
    while i < m.len()
        invariant
            i <= m.len(),
            kv@ == k@,
            map_lookup(map_view(m@), k@) == map_lookup(map_view(m@).skip(i as int), k@),
        decreases m.len() - i,
    {
        proof {
            assert(map_view(m@).skip(i as int)[0] == (m@[i as int].0@, m@[i as int].1@));
            assert(map_view(m@).skip(i as int).drop_first() =~= map_view(m@).skip(i + 1));
        }
        let name = chars_of(m[i].0.as_str());
        if chars_eq(&name, &kv) {
            return Some(i);
        }
        i = i + 1;
    }
    None
}

/// The effective parameters of a record.
pub fn resolve_parameters(
    local_params: &Option<ParameterMap>,
    use_params: &Option<Vec<String>>,
    workflow_params: &Option<ParameterMap>,
) -> (r: Option<ParameterMap>)
    ensures
        opt_map_view(r) == spec_resolve_parameters(
            opt_map_view(*local_params),
            opt_strs_view(*use_params),
            opt_map_view(*workflow_params),
        ),
{
    if let Some(local) = local_params {
        let mut copy: ParameterMap = Vec::new();
        let mut i: usize = 0;
        while i < local.len()
            invariant
                i <= local.len(),
                copy.len() == i,
                forall|k: int|
                    0 <= k < i ==> (#[trigger] copy@[k]).0@ == local@[k].0@ && copy@[k].1@
                        == local@[k].1@,
            decreases local.len() - i,
        {
            copy.push((copy_string(&local[i].0), copy_string(&local[i].1)));
            i = i + 1;
        }
        proof {
            assert(map_view(copy@) =~= map_view(local@));
        }
        return Some(copy);
    }
    let names = match use_params {
        None => {
            return None;
        },
        Some(n) => n,
    };
    let wf = match workflow_params {
        None => {
            return None;
        },
        Some(w) => w,
    };
    let mut filtered: ParameterMap = Vec::new();
    let mut i: usize = 0;
    proof {
        assert(strs_view(names@).take(0) =~= Seq::<Seq<char>>::empty());
        assert(map_view(filtered@) =~= Seq::<(Seq<char>, Seq<char>)>::empty());
    }
    while i < names.len()
        invariant
            i <= names.len(),
            map_view(filtered@) == select_params(strs_view(names@).take(i as int), map_view(wf@)),
        decreases names.len() - i,
    {
        proof {
            assert(strs_view(names@).take(i + 1).drop_last() =~= strs_view(names@).take(i as int));
        }
        let ghost before = map_view(filtered@);
        match map_lookup_exec(wf, &names[i]) {
            Some(j) => {
                match map_lookup_exec(&filtered, &names[i]) {
                    Some(_) => {},
                    None => {
                        filtered.push((copy_string(&names[i]), copy_string(&wf[j].1)));
                        proof {
                            assert(map_view(filtered@) =~= before.push(
                                (names@[i as int]@, wf@[j as int].1@),
                            ));
                        }
                    },
                }
            },
            None => {},
        }
        i = i + 1;
    }
    proof {
        assert(strs_view(names@).take(names.len() as int) =~= strs_view(names@));
    }
    if filtered.len() == 0 {
        None
    } else {
        Some(filtered)
    }
}

/// The effective table of a record.
pub fn resolve_parameters_file(
    local_file: &Option<String>,
    use_parameters_file: Option<bool>,
    workflow_file: &Option<String>,
) -> (r: Option<String>)
    ensures
        opt_view(r) == spec_resolve_parameters_file(
            opt_view(*local_file),
            use_parameters_file,
            opt_view(*workflow_file),
        ),
{
    if let Some(f) = local_file {
        return Some(copy_string(f));
    }
    if use_parameters_file == Some(true) {
        return match workflow_file {
            Some(f) => Some(copy_string(f)),
            None => None,
        };
    }
    None
}

// ---------------------------------------------------------------------------
// Tables of parameter rows
// ---------------------------------------------------------------------------

/// Parameter tables by path: the rows read from each `parameters_file`.
pub type ParameterTables = Vec<(String, Vec<Bindings>)>;

pub open spec fn tables_view(t: Seq<(String, Vec<Bindings>)>) -> Seq<(Seq<char>, Seq<Combo>)> {
    t.map_values(|e: (String, Vec<Bindings>)| (e.0@, combos_view(e.1@)))
}

pub open spec fn tables_well_formed(t: Seq<(String, Vec<Bindings>)>) -> bool {
    forall|i: int| 0 <= i < t.len() ==> combos_well_formed((#[trigger] t[i]).1@)
}

/// The rows read from `path`, if that table was read.
pub open spec fn table_for(t: Seq<(Seq<char>, Seq<Combo>)>, path: Option<Seq<char>>) -> Option<Seq<Combo>>
    decreases t.len(),
{
    match path {
        None => None,
        Some(p) => if t.len() == 0 {
            None
        } else if t[0].0 == p {
            Some(t[0].1)
        } else {
            table_for(t.drop_first(), path)
        },
    }
}

fn table_for_exec<'a>(tables: &'a ParameterTables, path: &Option<String>) -> (r: Option<&'a Vec<Bindings>>)
    requires
        tables_well_formed(tables@),
    ensures
        match r {
            Some(rows) => table_for(tables_view(tables@), opt_view(*path)) == Some(combos_view(rows@))
                && combos_well_formed(rows@),
            None => table_for(tables_view(tables@), opt_view(*path)) is None,
        },
{
    let p = match path {
        None => {
            return None;
        },
        Some(p) => p,
    };
    let pv = chars_of(p.as_str());
    let mut i: usize = 0;
    proof {
        assert(tables_view(tables@).skip(0) =~= tables_view(tables@));
    }
    while i < tables.len()
        invariant
            i <= tables.len(),
            pv@ == p@,
            *path == Some(*p),
            tables_well_formed(tables@),
            table_for(tables_view(tables@), opt_view(*path)) == table_for(
                tables_view(tables@).skip(i as int),
                opt_view(*path),
            ),
        decreases tables.len() - i,
    {
        proof {
            assert(tables_view(tables@).skip(i as int)[0] == (
                tables@[i as int].0@,
                combos_view(tables@[i as int].1@),
            ));
            assert(tables_view(tables@).skip(i as int).drop_first() =~= tables_view(tables@).skip(
                i + 1,
            ));
        }
        let name = chars_of(tables[i].0.as_str());
        if chars_eq(&name, &pv) {
            return Some(&tables[i].1);
        }
        i = i + 1;
    }
    None
}

// ---------------------------------------------------------------------------
// Workflow parameters in the environment
// ---------------------------------------------------------------------------

/// A workflow parameter's value as an environment sees it: its single
/// value, or its text when it has none or several.
pub open spec fn single_value(v: Seq<char>) -> ParamVal {
    match parse_parameter(v) {
        Ok(vs) => if vs.len() == 1 {
            vs[0]
        } else {
            ParamVal::Str(v)
        },
        Err(_) => ParamVal::Str(v),
    }
}

pub open spec fn env_params(m: Seq<(Seq<char>, Seq<char>)>) -> Combo {
    m.map_values(|p: (Seq<char>, Seq<char>)| (p.0, single_value(p.1)))
}

fn env_bindings(m: &ParameterMap) -> (r: Bindings)
    ensures
        bindings_view(r@) == env_params(map_view(m@)),
        bindings_well_formed(r@),
{
    let mut r: Bindings = Vec::new();
    let mut i: usize = 0;
    while i < m.len()
        invariant
            i <= m.len(),
            r.len() == i,
            bindings_well_formed(r@),
            forall|k: int|
                0 <= k < i ==> (#[trigger] r@[k]).0@ == m@[k].0@ && r@[k].1@ == single_value(
                    m@[k].1@,
                ),
        decreases m.len() - i,
    {
        let v = match parse_parameter_value(m[i].1.as_str()) {
            Ok(vals) => {
                if vals.len() == 1 {
                    proof {
                        assert(vals@[0].well_formed());
                    }
                    vals[0].copy()
                } else {
                    ParameterValue::String(copy_string(&m[i].1))
                }
            },
            Err(_) => ParameterValue::String(copy_string(&m[i].1)),
        };
        r.push((copy_string(&m[i].0), v));
        i = i + 1;
    }
    proof {
        assert(bindings_view(r@) =~= env_params(map_view(m@)));
    }
    r
}

// ---------------------------------------------------------------------------
// Expanding the records of a workflow
// ---------------------------------------------------------------------------

/// A job after inheriting the workflow's parameters and table.
pub open spec fn resolve_job(j: JobSpecView, wfp: Option<Seq<(Seq<char>, Seq<char>)>>, wff: Option<Seq<char>>) -> JobSpecView {
    JobSpecView {
        parameters: spec_resolve_parameters(j.parameters, j.use_parameters, wfp),
        parameters_file: spec_resolve_parameters_file(j.parameters_file, j.use_parameters_file, wff),
        use_parameters: None,
        use_parameters_file: None,
        ..j
    }
}

pub open spec fn quoted_label(prefix: Seq<char>, name: Seq<char>) -> Seq<char> {
    prefix + name + "'"@
}

pub open spec fn expand_failure(kind: Seq<char>, name: Seq<char>, e: Seq<char>) -> Seq<char> {
    "Failed to expand "@ + kind + " '"@ + name + "': "@ + e
}

/// The jobs a workflow's jobs expand to, or the first failure.
pub open spec fn expand_jobs(
    js: Seq<JobSpecView>,
    wfp: Option<Seq<(Seq<char>, Seq<char>)>>,
    wff: Option<Seq<char>>,
    tables: Seq<(Seq<char>, Seq<Combo>)>,
) -> Result<Seq<JobSpecView>, Seq<char>>
    decreases js.len(),
{
    if js.len() == 0 {
        Ok(Seq::empty())
    } else {
        match expand_jobs(js.drop_last(), wfp, wff, tables) {
            Err(e) => Err(e),
            Ok(prev) => {
                let j = js.last();
                match parameter_source_verdict(
                    quoted_label("Job '"@, j.name),
                    j.parameters is Some,
                    j.parameter_mode is Some,
                    j.use_parameters is Some,
                    j.parameters_file is Some,
                    j.use_parameters_file,
                    wff is Some,
                ) {
                    Err(e) => Err(e),
                    Ok(()) => {
                        let rj = resolve_job(j, wfp, wff);
                        match spec_expand(rj, table_for(tables, rj.parameters_file)) {
                            Err(e) => Err(expand_failure("job"@, j.name, e)),
                            Ok(v) => Ok(prev + v),
                        }
                    },
                }
            },
        }
    }
}

/// A file after inheriting the workflow's parameters and table.
pub open spec fn resolve_file(f: FileSpecView, wfp: Option<Seq<(Seq<char>, Seq<char>)>>, wff: Option<Seq<char>>) -> FileSpecView {
    FileSpecView {
        parameters: spec_resolve_parameters(f.parameters, f.use_parameters, wfp),
        parameters_file: spec_resolve_parameters_file(f.parameters_file, f.use_parameters_file, wff),
        use_parameters: None,
        use_parameters_file: None,
        ..f
    }
}

/// The files a workflow's files expand to, or the first failure.
pub open spec fn expand_files(
    fs: Seq<FileSpecView>,
    wfp: Option<Seq<(Seq<char>, Seq<char>)>>,
    wff: Option<Seq<char>>,
    tables: Seq<(Seq<char>, Seq<Combo>)>,
) -> Result<Seq<FileSpecView>, Seq<char>>
    decreases fs.len(),
{
    if fs.len() == 0 {
        Ok(Seq::empty())
    } else {
        match expand_files(fs.drop_last(), wfp, wff, tables) {
            Err(e) => Err(e),
            Ok(prev) => {
                let f = fs.last();
                match parameter_source_verdict(
                    quoted_label("File '"@, f.name),
                    f.parameters is Some,
                    f.parameter_mode is Some,
                    f.use_parameters is Some,
                    f.parameters_file is Some,
                    f.use_parameters_file,
                    wff is Some,
                ) {
                    Err(e) => Err(e),
                    Ok(()) => {
                        let rf = resolve_file(f, wfp, wff);
                        match spec_expand_file(rf, table_for(tables, rf.parameters_file)) {
                            Err(e) => Err(expand_failure("file"@, f.name, e)),
                            Ok(v) => Ok(prev + v),
                        }
                    },
                }
            },
        }
    }
}

/// The name a user data record is known by in messages.
pub open spec fn user_data_label(u: UserDataSpec) -> Seq<char> {
    match u.name {
        Some(n) => n@,
        None => "<unnamed>"@,
    }
}

pub open spec fn ud_params(u: UserDataSpec, wfp: Option<Seq<(Seq<char>, Seq<char>)>>) -> Option<Seq<(Seq<char>, Seq<char>)>> {
    spec_resolve_parameters(opt_map_view(u.parameters), opt_strs_view(u.use_parameters), wfp)
}

pub open spec fn ud_file(u: UserDataSpec, wff: Option<Seq<char>>) -> Option<Seq<char>> {
    spec_resolve_parameters_file(opt_view(u.parameters_file), u.use_parameters_file, wff)
}

/// The combinations a user data record expands over, once it inherited.
pub open spec fn ud_combinations(
    u: UserDataSpec,
    wfp: Option<Seq<(Seq<char>, Seq<char>)>>,
    wff: Option<Seq<char>>,
    tables: Seq<(Seq<char>, Seq<Combo>)>,
) -> Result<Option<Seq<Combo>>, Seq<char>> {
    crate::workflow_spec::spec_build_combinations(
        ud_params(u, wfp),
        opt_view(u.parameter_mode),
        false,
        ud_file(u, wff),
        table_for(tables, ud_file(u, wff)),
    )
}

/// Why a user data record cannot be expanded, if it cannot.
pub open spec fn ud_failure(
    u: UserDataSpec,
    wfp: Option<Seq<(Seq<char>, Seq<char>)>>,
    wff: Option<Seq<char>>,
    tables: Seq<(Seq<char>, Seq<Combo>)>,
) -> Option<Seq<char>> {
    match parameter_source_verdict(
        quoted_label("User data '"@, user_data_label(u)),
        u.parameters is Some,
        u.parameter_mode is Some,
        u.use_parameters is Some,
        u.parameters_file is Some,
        u.use_parameters_file,
        wff is Some,
    ) {
        Err(e) => Some(e),
        Ok(()) => match ud_combinations(u, wfp, wff, tables) {
            Err(e) => Some(expand_failure("user_data"@, user_data_label(u), e)),
            Ok(_) => None,
        },
    }
}

/// The first failure among user data records.
pub open spec fn uds_failure(
    us: Seq<UserDataSpec>,
    wfp: Option<Seq<(Seq<char>, Seq<char>)>>,
    wff: Option<Seq<char>>,
    tables: Seq<(Seq<char>, Seq<Combo>)>,
) -> Option<Seq<char>>
    decreases us.len(),
{
    if us.len() == 0 {
        None
    } else {
        match uds_failure(us.drop_last(), wfp, wff, tables) {
            Some(e) => Some(e),
            None => ud_failure(us.last(), wfp, wff, tables),
        }
    }
}

/// `b` is the record generated from `a` (which inherited) for `c`.
pub open spec fn ud_generated(a: UserDataSpec, c: Combo, b: UserDataSpec) -> bool {
    &&& b.is_ephemeral == a.is_ephemeral
    &&& opt_view(b.name) == crate::workflow_spec::subst_opt(opt_view(a.name), c)
    &&& match a.data {
        None => b.data is None,
        Some(d) => (b.data matches Some(e) && crate::json::strings_substituted(d, e, c)),
    }
    &&& b.parameters is None
    &&& b.parameter_mode is None
    &&& b.use_parameters is None
    &&& b.parameters_file is None
    &&& b.use_parameters_file is None
}

/// `b` is `a` left unexpanded, its inheritance settings cleared.
pub open spec fn ud_kept(a: UserDataSpec, b: UserDataSpec) -> bool {
    &&& b.is_ephemeral == a.is_ephemeral
    &&& opt_view(b.name) == opt_view(a.name)
    &&& match a.data {
        None => b.data is None,
        Some(d) => (b.data matches Some(e) && crate::json::json_same(d, e)),
    }
    &&& b.parameters is None
    &&& opt_view(b.parameter_mode) == opt_view(a.parameter_mode)
    &&& b.use_parameters is None
    &&& b.parameters_file is None
    &&& b.use_parameters_file is None
}

/// `piece` is what user data record `u` expands to.
pub open spec fn ud_piece(
    u: UserDataSpec,
    wfp: Option<Seq<(Seq<char>, Seq<char>)>>,
    wff: Option<Seq<char>>,
    tables: Seq<(Seq<char>, Seq<Combo>)>,
    piece: Seq<UserDataSpec>,
) -> bool {
    match ud_combinations(u, wfp, wff, tables) {
        Err(_) => false,
        Ok(None) => piece.len() == 1 && ud_kept(u, piece[0]),
        Ok(Some(cs)) => piece.len() == cs.len() && forall|i: int|
            0 <= i < cs.len() ==> ud_generated(u, #[trigger] cs[i], piece[i]),
    }
}

/// `out` is what the records `us` expand to, in order.
pub open spec fn uds_expanded(
    us: Seq<UserDataSpec>,
    wfp: Option<Seq<(Seq<char>, Seq<char>)>>,
    wff: Option<Seq<char>>,
    tables: Seq<(Seq<char>, Seq<Combo>)>,
    out: Seq<UserDataSpec>,
) -> bool
    decreases us.len(),
{
    if us.len() == 0 {
        out.len() == 0
    } else {
        exists|k: int|
            0 <= k <= out.len() && uds_expanded(us.drop_last(), wfp, wff, tables, #[trigger] out.take(k))
                && ud_piece(us.last(), wfp, wff, tables, out.skip(k))
    }
}

pub open spec fn workflow_sources_message() -> Seq<char> {
    "Workflow-level `parameters` and `parameters_file` are mutually exclusive; use one shared parameter source per workflow"@
}

/// The environment after the workflow's parameters are substituted in it.
pub open spec fn env_after(w: WorkflowSpec) -> Option<Seq<(Seq<char>, Seq<char>)>> {
    match (w.env, w.parameters) {
        (Some(e), Some(p)) => Some(subst_env(map_view(e@), env_params(map_view(p@)))),
        _ => opt_map_view(w.env),
    }
}

/// The fields expansion does not touch are equal.
pub open spec fn untouched(a: WorkflowSpec, b: WorkflowSpec) -> bool {
    &&& b.name == a.name
    &&& b.user == a.user
    &&& b.description == a.description
    &&& b.parameters == a.parameters
    &&& b.parameters_file == a.parameters_file
    &&& b.variables == a.variables
    &&& b.compute_node_expiration_buffer_seconds == a.compute_node_expiration_buffer_seconds
    &&& b.compute_node_wait_for_new_jobs_seconds == a.compute_node_wait_for_new_jobs_seconds
    &&& b.compute_node_ignore_workflow_completion == a.compute_node_ignore_workflow_completion
    &&& b.compute_node_wait_for_healthy_database_minutes == a.compute_node_wait_for_healthy_database_minutes
    &&& b.resource_requirements == a.resource_requirements
    &&& b.failure_handlers == a.failure_handlers
    &&& b.slurm_schedulers == a.slurm_schedulers
    &&& b.slurm_defaults == a.slurm_defaults
    &&& b.resource_monitor == a.resource_monitor
    &&& b.actions == a.actions
    &&& b.dynamic_jobs == a.dynamic_jobs
    &&& b.use_pending_failed == a.use_pending_failed
    &&& b.enable_ro_crate == a.enable_ro_crate
    &&& b.project == a.project
    &&& b.metadata == a.metadata
    &&& b.execution_config == a.execution_config
    &&& b.access_groups == a.access_groups
}

proof fn lemma_expand_jobs_error_persists(
    js: Seq<JobSpecView>,
    k: int,
    wfp: Option<Seq<(Seq<char>, Seq<char>)>>,
    wff: Option<Seq<char>>,
    tables: Seq<(Seq<char>, Seq<Combo>)>,
)
    requires
        0 <= k <= js.len(),
        expand_jobs(js.take(k), wfp, wff, tables) is Err,
    ensures
        expand_jobs(js, wfp, wff, tables) == expand_jobs(js.take(k), wfp, wff, tables),
    decreases js.len() - k,
{
    if k < js.len() {
        assert(js.take(k + 1).drop_last() =~= js.take(k));
        lemma_expand_jobs_error_persists(js, k + 1, wfp, wff, tables);
    } else {
        assert(js.take(k) =~= js);
    }
}

proof fn lemma_expand_files_error_persists(
    fs: Seq<FileSpecView>,
    k: int,
    wfp: Option<Seq<(Seq<char>, Seq<char>)>>,
    wff: Option<Seq<char>>,
    tables: Seq<(Seq<char>, Seq<Combo>)>,
)
    requires
        0 <= k <= fs.len(),
        expand_files(fs.take(k), wfp, wff, tables) is Err,
    ensures
        expand_files(fs, wfp, wff, tables) == expand_files(fs.take(k), wfp, wff, tables),
    decreases fs.len() - k,
{
    if k < fs.len() {
        assert(fs.take(k + 1).drop_last() =~= fs.take(k));
        lemma_expand_files_error_persists(fs, k + 1, wfp, wff, tables);
    } else {
        assert(fs.take(k) =~= fs);
    }
}

proof fn lemma_uds_failure_persists(
    us: Seq<UserDataSpec>,
    k: int,
    wfp: Option<Seq<(Seq<char>, Seq<char>)>>,
    wff: Option<Seq<char>>,
    tables: Seq<(Seq<char>, Seq<Combo>)>,
)
    requires
        0 <= k <= us.len(),
        uds_failure(us.take(k), wfp, wff, tables) is Some,
    ensures
        uds_failure(us, wfp, wff, tables) == uds_failure(us.take(k), wfp, wff, tables),
    decreases us.len() - k,
{
    if k < us.len() {
        assert(us.take(k + 1).drop_last() =~= us.take(k));
        lemma_uds_failure_persists(us, k + 1, wfp, wff, tables);
    } else {
        assert(us.take(k) =~= us);
    }
}

fn resolved_job(job: &JobSpec, wfp: &Option<ParameterMap>, wff: &Option<String>) -> (r: JobSpec)
    ensures
        r@ == resolve_job(job@, opt_map_view(*wfp), opt_view(*wff)),
{
    let mut r = job.copy();
    r.parameters = resolve_parameters(&job.parameters, &job.use_parameters, wfp);
    r.parameters_file = resolve_parameters_file(&job.parameters_file, job.use_parameters_file, wff);
    r.use_parameters = None;
    r.use_parameters_file = None;
    r
}

fn resolved_file(file: &FileSpec, wfp: &Option<ParameterMap>, wff: &Option<String>) -> (r: FileSpec)
    ensures
        r@ == resolve_file(file@, opt_map_view(*wfp), opt_view(*wff)),
{
    let mut r = file.copy();
    r.parameters = resolve_parameters(&file.parameters, &file.use_parameters, wfp);
    r.parameters_file = resolve_parameters_file(&file.parameters_file, file.use_parameters_file, wff);
    r.use_parameters = None;
    r.use_parameters_file = None;
    r
}

fn failure_message(kind: &str, name: &str, e: &String) -> (m: String)
    ensures
        m@ == expand_failure(kind@, name@, e@),
{
    let mut v = chars_of("Failed to expand ");
    crate::text::extend_str(&mut v, kind);
    crate::text::extend_str(&mut v, " '");
    crate::text::extend_str(&mut v, name);
    crate::text::extend_str(&mut v, "': ");
    crate::text::extend_str(&mut v, e.as_str());
    crate::text::string_of(&v)
}

/// Expands a workflow's jobs.
fn expand_all_jobs(
    jobs: &Vec<JobSpec>,
    wfp: &Option<ParameterMap>,
    wff: &Option<String>,
    tables: &ParameterTables,
) -> (r: Result<Vec<JobSpec>, String>)
    requires
        tables_well_formed(tables@),
    ensures
        match r {
            Ok(v) => expand_jobs(jobs_view(jobs@), opt_map_view(*wfp), opt_view(*wff), tables_view(tables@))
                == Ok::<_, Seq<char>>(jobs_view(v@)),
            Err(e) => expand_jobs(jobs_view(jobs@), opt_map_view(*wfp), opt_view(*wff), tables_view(tables@))
                == Err::<Seq<JobSpecView>, _>(e@),
        },
{
    let ghost js = jobs_view(jobs@);
    let ghost p = opt_map_view(*wfp);
    let ghost f = opt_view(*wff);
    let ghost t = tables_view(tables@);
    let mut out: Vec<JobSpec> = Vec::new();
    let mut i: usize = 0;
    proof {
        assert(js.take(0) =~= Seq::<JobSpecView>::empty());
        assert(jobs_view(out@) =~= Seq::<JobSpecView>::empty());
    }
    while i < jobs.len()
        invariant
            i <= jobs.len(),
            js == jobs_view(jobs@),
            p == opt_map_view(*wfp),
            f == opt_view(*wff),
            t == tables_view(tables@),
            tables_well_formed(tables@),
            expand_jobs(js.take(i as int), p, f, t) == Ok::<_, Seq<char>>(jobs_view(out@)),
        decreases jobs.len() - i,
    {
        let job = &jobs[i];
        proof {
            assert(js.take(i + 1).drop_last() =~= js.take(i as int));
            assert(js.take(i + 1).last() == job@);
        }
        let label = concat3("Job '", job.name.as_str(), "'");
        match validate_parameter_source(
            label.as_str(),
            &job.parameters,
            &job.parameter_mode,
            &job.use_parameters,
            &job.parameters_file,
            job.use_parameters_file,
            wff,
        ) {
            Err(e) => {
                proof {
                    assert(expand_jobs(js.take(i + 1), p, f, t) == Err::<Seq<JobSpecView>, _>(e@));
                    lemma_expand_jobs_error_persists(js, i + 1, p, f, t);
                }
                return Err(e);
            },
            Ok(()) => {},
        }
        let rj = resolved_job(job, wfp, wff);
        let table = table_for_exec(tables, &rj.parameters_file);
        match rj.expand_with_table(table) {
            Err(e) => {
                let m = failure_message("job", job.name.as_str(), &e);
                proof {
                    assert(expand_jobs(js.take(i + 1), p, f, t) == Err::<Seq<JobSpecView>, _>(m@));
                    lemma_expand_jobs_error_persists(js, i + 1, p, f, t);
                }
                return Err(m);
            },
            Ok(v) => {
                let mut v = v;
                let ghost before = out@;
                let ghost added = v@;
                out.append(&mut v);
                proof {
                    assert(jobs_view(out@) =~= jobs_view(before) + jobs_view(added));
                }
            },
        }
        i = i + 1;
    }
    proof {
        assert(js.take(jobs.len() as int) =~= js);
    }
    Ok(out)
}

/// Expands a workflow's files.
fn expand_all_files(
    files: &Vec<FileSpec>,
    wfp: &Option<ParameterMap>,
    wff: &Option<String>,
    tables: &ParameterTables,
) -> (r: Result<Vec<FileSpec>, String>)
    requires
        tables_well_formed(tables@),
    ensures
        match r {
            Ok(v) => expand_files(files_view(files@), opt_map_view(*wfp), opt_view(*wff), tables_view(tables@))
                == Ok::<_, Seq<char>>(files_view(v@)),
            Err(e) => expand_files(files_view(files@), opt_map_view(*wfp), opt_view(*wff), tables_view(tables@))
                == Err::<Seq<FileSpecView>, _>(e@),
        },
{
    let ghost fs = files_view(files@);
    let ghost p = opt_map_view(*wfp);
    let ghost f = opt_view(*wff);
    let ghost t = tables_view(tables@);
    let mut out: Vec<FileSpec> = Vec::new();
    let mut i: usize = 0;
    proof {
        assert(fs.take(0) =~= Seq::<FileSpecView>::empty());
        assert(files_view(out@) =~= Seq::<FileSpecView>::empty());
    }
    while i < files.len()
        invariant
            i <= files.len(),
            fs == files_view(files@),
            p == opt_map_view(*wfp),
            f == opt_view(*wff),
            t == tables_view(tables@),
            tables_well_formed(tables@),
            expand_files(fs.take(i as int), p, f, t) == Ok::<_, Seq<char>>(files_view(out@)),
        decreases files.len() - i,
    {
        let file = &files[i];
        proof {
            assert(fs.take(i + 1).drop_last() =~= fs.take(i as int));
            assert(fs.take(i + 1).last() == file@);
        }
        let label = concat3("File '", file.name.as_str(), "'");
        match validate_parameter_source(
            label.as_str(),
            &file.parameters,
            &file.parameter_mode,
            &file.use_parameters,
            &file.parameters_file,
            file.use_parameters_file,
            wff,
        ) {
            Err(e) => {
                proof {
                    assert(expand_files(fs.take(i + 1), p, f, t) == Err::<Seq<FileSpecView>, _>(e@));
                    lemma_expand_files_error_persists(fs, i + 1, p, f, t);
                }
                return Err(e);
            },
            Ok(()) => {},
        }
        let rf = resolved_file(file, wfp, wff);
        let table = table_for_exec(tables, &rf.parameters_file);
        match rf.expand_with_table(table) {
            Err(e) => {
                let m = failure_message("file", file.name.as_str(), &e);
                proof {
                    assert(expand_files(fs.take(i + 1), p, f, t) == Err::<Seq<FileSpecView>, _>(m@));
                    lemma_expand_files_error_persists(fs, i + 1, p, f, t);
                }
                return Err(m);
            },
            Ok(v) => {
                let mut v = v;
                let ghost before = out@;
                let ghost added = v@;
                out.append(&mut v);
                proof {
                    assert(files_view(out@) =~= files_view(before) + files_view(added));
                }
            },
        }
        i = i + 1;
    }
    proof {
        assert(fs.take(files.len() as int) =~= fs);
    }
    Ok(out)
}

fn resolved_user_data(u: &UserDataSpec, wfp: &Option<ParameterMap>, wff: &Option<String>) -> (r: UserDataSpec)
    ensures
        r.is_ephemeral == u.is_ephemeral,
        opt_view(r.name) == opt_view(u.name),
        match u.data {
            None => r.data is None,
            Some(d) => (r.data matches Some(e) && crate::json::json_same(d, e)),
        },
        opt_map_view(r.parameters) == ud_params(*u, opt_map_view(*wfp)),
        opt_view(r.parameter_mode) == opt_view(u.parameter_mode),
        r.use_parameters is None,
        opt_view(r.parameters_file) == ud_file(*u, opt_view(*wff)),
        r.use_parameters_file is None,
{
    let data = match &u.data {
        Some(d) => Some(d.copy()),
        None => None,
    };
    let name = match &u.name {
        Some(n) => Some(copy_string(n)),
        None => None,
    };
    let mode = match &u.parameter_mode {
        Some(m) => Some(copy_string(m)),
        None => None,
    };
    UserDataSpec {
        is_ephemeral: u.is_ephemeral,
        name,
        data,
        parameters: resolve_parameters(&u.parameters, &u.use_parameters, wfp),
        parameter_mode: mode,
        use_parameters: None,
        parameters_file: resolve_parameters_file(&u.parameters_file, u.use_parameters_file, wff),
        use_parameters_file: None,
    }
}

fn user_data_label_exec(u: &UserDataSpec) -> (r: String)
    ensures
        r@ == user_data_label(*u),
{
    match &u.name {
        Some(n) => copy_string(n),
        None => lit("<unnamed>"),
    }
}

/// Expands a workflow's user data records.
fn expand_all_user_data(
    uds: &Vec<UserDataSpec>,
    wfp: &Option<ParameterMap>,
    wff: &Option<String>,
    tables: &ParameterTables,
) -> (r: Result<Vec<UserDataSpec>, String>)
    requires
        tables_well_formed(tables@),
    ensures
        match r {
            Ok(v) => uds_failure(uds@, opt_map_view(*wfp), opt_view(*wff), tables_view(tables@)) is None
                && uds_expanded(uds@, opt_map_view(*wfp), opt_view(*wff), tables_view(tables@), v@),
            Err(e) => uds_failure(uds@, opt_map_view(*wfp), opt_view(*wff), tables_view(tables@))
                == Some(e@),
        },
{
    let ghost p = opt_map_view(*wfp);
    let ghost f = opt_view(*wff);
    let ghost t = tables_view(tables@);
    let mut out: Vec<UserDataSpec> = Vec::new();
    let mut i: usize = 0;
    proof {
        assert(uds@.take(0) =~= Seq::<UserDataSpec>::empty());
    }
    while i < uds.len()
        invariant
            i <= uds.len(),
            p == opt_map_view(*wfp),
            f == opt_view(*wff),
            t == tables_view(tables@),
            tables_well_formed(tables@),
            uds_failure(uds@.take(i as int), p, f, t) is None,
            uds_expanded(uds@.take(i as int), p, f, t, out@),
        decreases uds.len() - i,
    {
        let u = &uds[i];
        proof {
            assert(uds@.take(i + 1).drop_last() =~= uds@.take(i as int));
            assert(uds@.take(i + 1).last() == *u);
        }
        let name = user_data_label_exec(u);
        let label = concat3("User data '", name.as_str(), "'");
        match validate_parameter_source(
            label.as_str(),
            &u.parameters,
            &u.parameter_mode,
            &u.use_parameters,
            &u.parameters_file,
            u.use_parameters_file,
            wff,
        ) {
            Err(e) => {
                proof {
                    assert(uds_failure(uds@.take(i + 1), p, f, t) == Some(e@));
                    lemma_uds_failure_persists(uds@, i + 1, p, f, t);
                }
                return Err(e);
            },
            Ok(()) => {},
        }
        let ru = resolved_user_data(u, wfp, wff);
        let table = table_for_exec(tables, &ru.parameters_file);
        let ghost cs = ud_combinations(*u, p, f, t);
        match ru.expand_with_table(table) {
            Err(e) => {
                let m = failure_message("user_data", name.as_str(), &e);
                proof {
                    assert(ud_failure(*u, p, f, t) == Some(m@));
                    assert(uds_failure(uds@.take(i + 1), p, f, t) == Some(m@));
                    lemma_uds_failure_persists(uds@, i + 1, p, f, t);
                }
                return Err(m);
            },
            Ok(v) => {
                proof {
                    match cs {
                        Ok(None) => {
                            assert(crate::workflow_spec::user_data_same(ru, v@[0]));
                            if u.data is Some {
                                crate::json::lemma_json_same_trans(
                                    u.data->Some_0,
                                    ru.data->Some_0,
                                    v@[0].data->Some_0,
                                );
                            }
                            assert(ud_kept(*u, v@[0]));
                        },
                        Ok(Some(c)) => {
                            assert forall|k: int| 0 <= k < c.len() implies ud_generated(
                                *u,
                                #[trigger] c[k],
                                v@[k],
                            ) by {
                                assert(crate::workflow_spec::user_data_expanded(ru, c[k], v@[k]));
                                if u.data is Some {
                                    crate::json::lemma_substituted_through_same(
                                        u.data->Some_0,
                                        ru.data->Some_0,
                                        v@[k].data->Some_0,
                                        c[k],
                                    );
                                }
                            }
                        },
                        Err(_) => {},
                    }
                    assert(ud_piece(*u, p, f, t, v@));
                    assert(ud_failure(*u, p, f, t) is None);
                }
                let mut v = v;
                let ghost before = out@;
                let ghost piece = v@;
                out.append(&mut v);
                proof {
                    assert(out@.take(before.len() as int) =~= before);
                    assert(out@.skip(before.len() as int) =~= piece);
                    assert(uds_expanded(uds@.take(i + 1), p, f, t, out@));
                }
            },
        }
        i = i + 1;
    }
    proof {
        assert(uds@.take(uds.len() as int) =~= uds@);
    }
    Ok(out)
}

/// `after` is `before` with its jobs, files and user data expanded over
/// their parameters, and `r` the outcome (see `expand_parameters_with_tables`).
pub open spec fn expanded_as(
    before: WorkflowSpec,
    after: WorkflowSpec,
    tables: Seq<(String, Vec<Bindings>)>,
    r: Result<(), String>,
) -> bool {
    &&& untouched(before, after)
    &&& (before.parameters is Some && before.parameters_file is Some) ==> (r matches Err(e) && e@
        == workflow_sources_message() && after.env == before.env && after.jobs == before.jobs
        && after.files == before.files && after.user_data == before.user_data)
    &&& !(before.parameters is Some && before.parameters_file is Some) ==> {
        let p = opt_map_view(before.parameters);
        let f = opt_view(before.parameters_file);
        let t = tables_view(tables);
        &&& opt_map_view(after.env) == env_after(before)
        &&& match expand_jobs(jobs_view(before.jobs@), p, f, t) {
            Err(e) => (r matches Err(m) && m@ == e) && after.jobs == before.jobs && after.files
                == before.files && after.user_data == before.user_data,
            Ok(js) => jobs_view(after.jobs@) == js && match before.files {
                Some(fs) => match expand_files(files_view(fs@), p, f, t) {
                    Err(e) => (r matches Err(m) && m@ == e) && after.files == before.files
                        && after.user_data == before.user_data,
                    Ok(v) => (after.files matches Some(nf) && files_view(nf@) == v)
                        && user_data_stage(before, after, p, f, t, r),
                },
                None => after.files is None && user_data_stage(before, after, p, f, t, r),
            },
        }
    }
}

impl WorkflowSpec {
    /// Expands every parameterized job, file and user data record, in that
    /// order, replacing each by the records it generates. A record inherits
    /// the workflow parameters it names in `use_parameters`, or the
    /// workflow's table when `use_parameters_file` is true; `tables` holds
    /// the rows read from each `parameters_file`. The workflow parameters are
    /// substituted into the workflow environment first. On an error the
    /// records of the stages before it are already replaced.
    pub fn expand_parameters_with_tables(&mut self, tables: &ParameterTables) -> (r: Result<(), String>)
        requires
            tables_well_formed(tables@),
        ensures
            expanded_as(*old(self), *final(self), tables@, r),
    {
        if self.parameters.is_some() && self.parameters_file.is_some() {
            return Err(lit(
                "Workflow-level `parameters` and `parameters_file` are mutually exclusive; use one shared parameter source per workflow",
            ));
        }
        let ghost start = *self;
        if self.env.is_some() && self.parameters.is_some() {
            let params = env_bindings(self.parameters.as_ref().unwrap());
            let new_env = crate::workflow_spec::subst_env_map(self.env.as_ref().unwrap(), &params);
            self.env = Some(new_env);
        }
        let jobs = match expand_all_jobs(&self.jobs, &self.parameters, &self.parameters_file, tables) {
            Err(e) => {
                return Err(e);
            },
            Ok(j) => j,
        };
        self.jobs = jobs;
        if self.files.is_some() {
            let files = match expand_all_files(
                self.files.as_ref().unwrap(),
                &self.parameters,
                &self.parameters_file,
                tables,
            ) {
                Err(e) => {
                    return Err(e);
                },
                Ok(v) => v,
            };
            self.files = Some(files);
        }
        if self.user_data.is_some() {
            let uds = match expand_all_user_data(
                self.user_data.as_ref().unwrap(),
                &self.parameters,
                &self.parameters_file,
                tables,
            ) {
                Err(e) => {
                    return Err(e);
                },
                Ok(v) => v,
            };
            self.user_data = Some(uds);
        }
        Ok(())
    }
}

/// The user data stage of an expansion: no records, or the records'
/// expansion, or the first failure (the records then left as they were).
pub open spec fn user_data_stage(
    before: WorkflowSpec,
    after: WorkflowSpec,
    p: Option<Seq<(Seq<char>, Seq<char>)>>,
    f: Option<Seq<char>>,
    t: Seq<(Seq<char>, Seq<Combo>)>,
    r: Result<(), String>,
) -> bool {
    match before.user_data {
        None => after.user_data is None && r is Ok,
        Some(us) => match uds_failure(us@, p, f, t) {
            Some(e) => (r matches Err(m) && m@ == e) && after.user_data == before.user_data,
            None => r is Ok && (after.user_data matches Some(o) && uds_expanded(us@, p, f, t, o@)),
        },
    }
}

impl WorkflowSpec {
    /// Expands every parameterized record, as
    /// [`WorkflowSpec::expand_parameters_with_tables`] does with no table read.
    pub fn expand_parameters(&mut self) -> (r: Result<(), String>)
        ensures
            expanded_as(*old(self), *final(self), Seq::empty(), r),
    {
        let tables: ParameterTables = Vec::new();
        proof {
            assert(tables_view(tables@) =~= Seq::<(Seq<char>, Seq<Combo>)>::empty());
        }
        self.expand_parameters_with_tables(&tables)
    }
}

} // verus!
