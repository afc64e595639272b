//! Workflow specification records and the rules that check and expand them:
//! parameter sources, parameterized jobs, environment names and Slurm MPI
//! modes.

use vstd::prelude::*;

use crate::combinations::{
    combinations, combine_parameters, combos_view, combos_well_formed, map_view, opt_view,
    Combo, ParameterMap,
};
use crate::execution::StdioConfig;
use crate::json::{json_same, strings_substituted, JsonValue};
use crate::models::is_valid_env_var_name;
use crate::patterns::{compile_regex, regex_compiles, regex_is_match, regex_matches};
use crate::templates::{
    bindings_view, bindings_well_formed, substitute, substitute_parameters, Bindings,
};
use crate::text::{chars_eq, chars_of, concat2, concat3, copy_string, lit, spec_is_identifier, trim, trim_str};

verus! {

/// A unit result seen through the views of its error text.
pub open spec fn unit_view(r: Result<(), String>) -> Result<(), Seq<char>> {
    match r {
        Ok(()) => Ok(()),
        Err(e) => Err(e@),
    }
}

// ---------------------------------------------------------------------------
// Slurm MPI mode and environment variable names
// ---------------------------------------------------------------------------

/// The tokens accepted as an MPI mode.
pub open spec fn srun_mpi_pattern() -> Seq<char> {
    "^[A-Za-z0-9+_.-]+$"@
}

pub open spec fn srun_mpi_empty_message() -> Seq<char> {
    "srun_mpi must not be empty when provided. Set a non-empty Slurm MPI mode such as 'pmix' or omit the field."@
}

pub open spec fn srun_mpi_token_message() -> Seq<char> {
    "srun_mpi must be a single safe token matching [A-Za-z0-9+_.-]+ (for example 'none' or 'pmix')."@
}

/// The verdict on an MPI mode, given whether its trimmed text matches the
/// token pattern: empty after trimming, surrounded by whitespace, or not a
/// single token are refused.
pub open spec fn srun_mpi_verdict(value: Seq<char>, trimmed_matches: bool) -> Result<
    (),
    Seq<char>,
> {
    if trim(value).len() == 0 {
        Err(srun_mpi_empty_message())
    } else if trim(value) != value || !trimmed_matches {
        Err(srun_mpi_token_message())
    } else {
        Ok(())
    }
}

/// Decides on an MPI mode, given whether its trimmed text matches the token
/// pattern.
pub fn srun_mpi_decision(value: &str, trimmed_matches: bool) -> (r: Result<(), String>)
    ensures
        unit_view(r) == srun_mpi_verdict(value@, trimmed_matches),
{
    let t = trim_str(value);
    let tv = chars_of(t.as_str());
    if tv.len() == 0 {
        return Err(lit(
            "srun_mpi must not be empty when provided. Set a non-empty Slurm MPI mode such as 'pmix' or omit the field.",
        ));
    }
    let vv = chars_of(value);
    if !chars_eq(&tv, &vv) || !trimmed_matches {
        return Err(lit(
            "srun_mpi must be a single safe token matching [A-Za-z0-9+_.-]+ (for example 'none' or 'pmix').",
        ));
    }
    Ok(())
}

/// Checks a Slurm MPI mode: a single token of letters, digits and `+_.-`,
/// without surrounding whitespace. The token test is the `regex` crate's
/// match of `^[A-Za-z0-9+_.-]+$`; should that pattern not compile, no value
/// passes it.
pub fn validate_srun_mpi_value(value: &str) -> (r: Result<(), String>)
    ensures
        regex_compiles(srun_mpi_pattern()) ==> unit_view(r) == srun_mpi_verdict(
            value@,
            regex_matches(srun_mpi_pattern(), trim(value@)),
        ),
        !regex_compiles(srun_mpi_pattern()) ==> unit_view(r) == srun_mpi_verdict(value@, false),
{
    let t = trim_str(value);
    let matches = match compile_regex("^[A-Za-z0-9+_.-]+$") {
        Ok(re) => regex_is_match(&re, t.as_str()),
        Err(_) => false,
    };
    srun_mpi_decision(value, matches)
}

pub open spec fn env_name_message(name: Seq<char>) -> Seq<char> {
    "invalid environment variable name '"@ + name + "'; expected [A-Za-z_][A-Za-z0-9_]*"@
}

/// Checks an environment variable name: a letter or underscore, then letters,
/// digits or underscores.
pub fn validate_env_var_name(name: &str) -> (r: Result<(), String>)
    ensures
        unit_view(r) == (if spec_is_identifier(name@) {
            Ok::<(), Seq<char>>(())
        } else {
            Err(env_name_message(name@))
        }),
{
    if is_valid_env_var_name(name) {
        Ok(())
    } else {
        Err(concat3(
            "invalid environment variable name '",
            name,
            "'; expected [A-Za-z_][A-Za-z0-9_]*",
        ))
    }
}

// ---------------------------------------------------------------------------
// Parameter sources
// ---------------------------------------------------------------------------

pub open spec fn table_conflict_message(label: Seq<char>) -> Seq<char> {
    label
        + ": a CSV/JSON parameter table (`parameters_file`/`use_parameters_file`) cannot be combined with `parameters`, `parameter_mode`, or `use_parameters`"@
}

pub open spec fn both_tables_message(label: Seq<char>) -> Seq<char> {
    label + ": set either a local `parameters_file` or `use_parameters_file: true`, not both"@
}

pub open spec fn missing_workflow_table_message(label: Seq<char>) -> Seq<char> {
    label + ": `use_parameters_file: true` requires a workflow-level `parameters_file`"@
}

/// Whether a spec takes one parameter source at most: a table (its own
/// `parameters_file` or the workflow's, by `use_parameters_file: true`) is
/// never combined with inline parameters, a local table never with the
/// workflow's, and the workflow's table must exist when it is asked for.
pub open spec fn parameter_source_verdict(
    label: Seq<char>,
    has_parameters: bool,
    has_mode: bool,
    has_use_parameters: bool,
    has_file: bool,
    use_parameters_file: Option<bool>,
    has_workflow_file: bool,
) -> Result<(), Seq<char>> {
    let opts_in = use_parameters_file == Some(true);
    let table = has_file || opts_in;
    let inline = has_parameters || has_use_parameters || has_mode;
    if table && inline {
        Err(table_conflict_message(label))
    } else if has_file && opts_in {
        Err(both_tables_message(label))
    } else if opts_in && !has_workflow_file {
        Err(missing_workflow_table_message(label))
    } else {
        Ok(())
    }
}

/// Checks that a parameterized spec uses only one parameter source.
pub fn validate_parameter_source(
    label: &str,
    parameters: &Option<ParameterMap>,
    parameter_mode: &Option<String>,
    use_parameters: &Option<Vec<String>>,
    parameters_file: &Option<String>,
    use_parameters_file: Option<bool>,
    workflow_parameters_file: &Option<String>,
) -> (r: Result<(), String>)
    ensures
        unit_view(r) == parameter_source_verdict(
            label@,
            parameters is Some,
            parameter_mode is Some,
            use_parameters is Some,
            parameters_file is Some,
            use_parameters_file,
            workflow_parameters_file is Some,
        ),
{
    let opts_in = match use_parameters_file {
        Some(b) => b,
        None => false,
    };
    let table = parameters_file.is_some() || opts_in;
    let inline = parameters.is_some() || use_parameters.is_some() || parameter_mode.is_some();
    if table && inline {
        return Err(concat2(
            label,
            ": a CSV/JSON parameter table (`parameters_file`/`use_parameters_file`) cannot be combined with `parameters`, `parameter_mode`, or `use_parameters`",
        ));
    }
    if parameters_file.is_some() && opts_in {
        return Err(concat2(
            label,
            ": set either a local `parameters_file` or `use_parameters_file: true`, not both",
        ));
    }
    if opts_in && workflow_parameters_file.is_none() {
        return Err(concat2(
            label,
            ": `use_parameters_file: true` requires a workflow-level `parameters_file`",
        ));
    }
    Ok(())
}

pub open spec fn file_conflict_message() -> Seq<char> {
    "`parameters_file` cannot be combined with `parameters`, `parameter_mode`, or `use_parameters`"@
}

pub open spec fn table_not_loaded_message(path: Seq<char>) -> Seq<char> {
    "parameter table '"@ + path + "' was not loaded"@
}

/// The combinations a spec expands over: the rows of its table, the
/// combinations of its inline parameters, or `None` when it has neither.
pub open spec fn spec_build_combinations(
    parameters: Option<Seq<(Seq<char>, Seq<char>)>>,
    mode: Option<Seq<char>>,
    has_use_parameters: bool,
    file: Option<Seq<char>>,
    table: Option<Seq<Combo>>,
) -> Result<Option<Seq<Combo>>, Seq<char>> {
    match file {
        Some(path) => if parameters is Some || mode is Some || has_use_parameters {
            Err(file_conflict_message())
        } else {
            match table {
                Some(t) => Ok(Some(t)),
                None => Err(table_not_loaded_message(path)),
            }
        },
        None => match parameters {
            None => Ok(None),
            Some(m) => match combinations(m, mode) {
                Ok(cs) => Ok(Some(cs)),
                Err(e) => Err(e),
            },
        },
    }
}

pub open spec fn opt_map_view(o: Option<ParameterMap>) -> Option<Seq<(Seq<char>, Seq<char>)>> {
    match o {
        Some(m) => Some(map_view(m@)),
        None => None,
    }
}

pub open spec fn opt_table_view(t: Option<&Vec<Bindings>>) -> Option<Seq<Combo>> {
    match t {
        Some(rows) => Some(combos_view(rows@)),
        None => None,
    }
}

pub open spec fn opt_table_well_formed(t: Option<&Vec<Bindings>>) -> bool {
    match t {
        Some(rows) => combos_well_formed(rows@),
        None => true,
    }
}

fn copy_bindings(b: &Bindings) -> (r: Bindings)
    requires
        bindings_well_formed(b@),
    ensures
        bindings_view(r@) == bindings_view(b@),
        bindings_well_formed(r@),
{
    let mut r: Bindings = Vec::new();
    let mut i: usize = 0;
    while i < b.len()
        invariant
            i <= b.len(),
            bindings_well_formed(b@),
            bindings_well_formed(r@),
            r.len() == i,
            bindings_view(r@) == bindings_view(b@.take(i as int)),
        decreases b.len() - i,
    {
        let name = copy_string(&b[i].0);
        let v = b[i].1.copy();
        let ghost old_r = r@;
        r.push((name, v));
        proof {
            assert(b@.take(i + 1) =~= b@.take(i as int).push(b@[i as int]));
            assert forall|k: int| 0 <= k < i + 1 implies #[trigger] bindings_view(r@)[k]
                == bindings_view(b@.take(i + 1))[k] by {
                if k < i {
                    assert(r@[k] == old_r[k]);
                    assert(bindings_view(old_r)[k] == bindings_view(b@.take(i as int))[k]);
                }
            }
            assert(bindings_view(r@) =~= bindings_view(b@.take(i + 1)));
        }
        i = i + 1;
    }
    proof {
        assert(b@.take(b.len() as int) =~= b@);
    }
    r
}

fn copy_table(t: &Vec<Bindings>) -> (r: Vec<Bindings>)
    requires
        combos_well_formed(t@),
    ensures
        combos_view(r@) == combos_view(t@),
        combos_well_formed(r@),
{
    let mut r: Vec<Bindings> = Vec::new();
    let mut i: usize = 0;
    while i < t.len()
        invariant
            i <= t.len(),
            combos_well_formed(t@),
            combos_well_formed(r@),
            r.len() == i,
            combos_view(r@) == combos_view(t@.take(i as int)),
        decreases t.len() - i,
    {
        let row = copy_bindings(&t[i]);
        let ghost old_r = r@;
        r.push(row);
        proof {
            assert(t@.take(i + 1) =~= t@.take(i as int).push(t@[i as int]));
            assert forall|k: int| 0 <= k < i + 1 implies #[trigger] combos_view(r@)[k]
                == combos_view(t@.take(i + 1))[k] by {
                if k < i {
                    assert(r@[k] == old_r[k]);
                    assert(combos_view(old_r)[k] == combos_view(t@.take(i as int))[k]);
                }
            }
            assert(combos_view(r@) =~= combos_view(t@.take(i + 1)));
        }
        i = i + 1;
    }
    proof {
        assert(t@.take(t.len() as int) =~= t@);
    }
    r
}

/// The combinations a spec expands over. A table (`parameters_file`, whose
/// rows the caller has read into `table`) excludes inline parameters; inline
/// parameters combine by `parameter_mode` (`zip`, else the product). `None`
/// when the spec is not parameterized.
pub fn build_parameter_combinations(
    parameters: &Option<ParameterMap>,
    parameter_mode: &Option<String>,
    use_parameters: &Option<Vec<String>>,
    parameters_file: &Option<String>,
    table: Option<&Vec<Bindings>>,
) -> (r: Result<Option<Vec<Bindings>>, String>)
    requires
        opt_table_well_formed(table),
    ensures
        match r {
            Ok(Some(cs)) => combos_well_formed(cs@) && spec_build_combinations(
                opt_map_view(*parameters),
                opt_view(*parameter_mode),
                use_parameters is Some,
                opt_view(*parameters_file),
                opt_table_view(table),
            ) == Ok::<_, Seq<char>>(Some(combos_view(cs@))),
            Ok(None) => spec_build_combinations(
                opt_map_view(*parameters),
                opt_view(*parameter_mode),
                use_parameters is Some,
                opt_view(*parameters_file),
                opt_table_view(table),
            ) == Ok::<_, Seq<char>>(None::<Seq<Combo>>),
            Err(e) => spec_build_combinations(
                opt_map_view(*parameters),
                opt_view(*parameter_mode),
                use_parameters is Some,
                opt_view(*parameters_file),
                opt_table_view(table),
            ) == Err::<Option<Seq<Combo>>, _>(e@),
        },
{
    if let Some(path) = parameters_file {
        if parameters.is_some() || parameter_mode.is_some() || use_parameters.is_some() {
            return Err(lit(
                "`parameters_file` cannot be combined with `parameters`, `parameter_mode`, or `use_parameters`",
            ));
        }
        return match table {
            Some(rows) => Ok(Some(copy_table(rows))),
            None => Err(concat3("parameter table '", path.as_str(), "' was not loaded")),
        };
    }
    match parameters {
        None => Ok(None),
        Some(m) => match combine_parameters(m, parameter_mode) {
            Ok(cs) => Ok(Some(cs)),
            Err(e) => Err(e),
        },
    }
}

// ---------------------------------------------------------------------------
// Views of optional strings, lists and maps
// ---------------------------------------------------------------------------

pub open spec fn strs_view(v: Seq<String>) -> Seq<Seq<char>> {
    v.map_values(|s: String| s@)
}

pub open spec fn opt_strs_view(o: Option<Vec<String>>) -> Option<Seq<Seq<char>>> {
    match o {
        Some(v) => Some(strs_view(v@)),
        None => None,
    }
}

/// `s` with its parameter tokens substituted.
pub open spec fn subst(s: Seq<char>, b: Combo) -> Seq<char> {
    substitute(s, b, false)
}

pub open spec fn subst_opt(o: Option<Seq<char>>, b: Combo) -> Option<Seq<char>> {
    match o {
        Some(s) => Some(subst(s, b)),
        None => None,
    }
}

pub open spec fn subst_all(v: Seq<Seq<char>>, b: Combo) -> Seq<Seq<char>> {
    v.map_values(|s: Seq<char>| subst(s, b))
}

pub open spec fn subst_opt_all(o: Option<Seq<Seq<char>>>, b: Combo) -> Option<Seq<Seq<char>>> {
    match o {
        Some(v) => Some(subst_all(v, b)),
        None => None,
    }
}

/// An environment with its values substituted (its names are kept).
pub open spec fn subst_env(m: Seq<(Seq<char>, Seq<char>)>, b: Combo) -> Seq<(Seq<char>, Seq<char>)> {
    m.map_values(|p: (Seq<char>, Seq<char>)| (p.0, subst(p.1, b)))
}

pub open spec fn subst_opt_env(o: Option<Seq<(Seq<char>, Seq<char>)>>, b: Combo) -> Option<
    Seq<(Seq<char>, Seq<char>)>,
> {
    match o {
        Some(m) => Some(subst_env(m, b)),
        None => None,
    }
}

pub(crate) fn copy_opt_string(o: &Option<String>) -> (r: Option<String>)
    ensures
        opt_view(r) == opt_view(*o),
{
    match o {
        Some(s) => Some(copy_string(s)),
        None => None,
    }
}

pub(crate) fn copy_strings(v: &Vec<String>) -> (r: Vec<String>)
    ensures
        strs_view(r@) == strs_view(v@),
{
    let mut r: Vec<String> = Vec::new();
    let mut i: usize = 0;
    while i < v.len()
        invariant
            i <= v.len(),
            r.len() == i,
            forall|k: int| 0 <= k < i ==> (#[trigger] r@[k])@ == v@[k]@,
        decreases v.len() - i,
    {
        r.push(copy_string(&v[i]));
        i = i + 1;
    }
    proof {
        assert(strs_view(r@) =~= strs_view(v@));
    }
    r
}

pub(crate) fn copy_opt_strings(o: &Option<Vec<String>>) -> (r: Option<Vec<String>>)
    ensures
        opt_strs_view(r) == opt_strs_view(*o),
{
    match o {
        Some(v) => Some(copy_strings(v)),
        None => None,
    }
}

pub(crate) fn copy_map(m: &ParameterMap) -> (r: ParameterMap)
    ensures
        map_view(r@) == map_view(m@),
{
    let mut r: ParameterMap = Vec::new();
    let mut i: usize = 0;
    while i < m.len()
        invariant
            i <= m.len(),
            r.len() == i,
            forall|k: int| 0 <= k < i ==> (#[trigger] r@[k]).0@ == m@[k].0@ && r@[k].1@ == m@[k].1@,
        decreases m.len() - i,
    {
        r.push((copy_string(&m[i].0), copy_string(&m[i].1)));
        i = i + 1;
    }
    proof {
        assert(map_view(r@) =~= map_view(m@));
    }
    r
}

pub(crate) fn copy_opt_map(o: &Option<ParameterMap>) -> (r: Option<ParameterMap>)
    ensures
        opt_map_view(r) == opt_map_view(*o),
{
    match o {
        Some(m) => Some(copy_map(m)),
        None => None,
    }
}

fn subst_opt_string(o: &Option<String>, combo: &Bindings) -> (r: Option<String>)
    requires
        bindings_well_formed(combo@),
    ensures
        opt_view(r) == subst_opt(opt_view(*o), bindings_view(combo@)),
{
    match o {
        Some(s) => Some(substitute_parameters(s.as_str(), combo)),
        None => None,
    }
}

fn subst_strings(v: &Vec<String>, combo: &Bindings) -> (r: Vec<String>)
    requires
        bindings_well_formed(combo@),
    ensures
        strs_view(r@) == subst_all(strs_view(v@), bindings_view(combo@)),
{
    let mut r: Vec<String> = Vec::new();
    let mut i: usize = 0;
    while i < v.len()
        invariant
            i <= v.len(),
            r.len() == i,
            bindings_well_formed(combo@),
            forall|k: int|
                0 <= k < i ==> (#[trigger] r@[k])@ == subst(v@[k]@, bindings_view(combo@)),
        decreases v.len() - i,
    {
        r.push(substitute_parameters(v[i].as_str(), combo));
        i = i + 1;
    }
    proof {
        assert(strs_view(r@) =~= subst_all(strs_view(v@), bindings_view(combo@)));
    }
    r
}

fn subst_opt_strings(o: &Option<Vec<String>>, combo: &Bindings) -> (r: Option<Vec<String>>)
    requires
        bindings_well_formed(combo@),
    ensures
        opt_strs_view(r) == subst_opt_all(opt_strs_view(*o), bindings_view(combo@)),
{
    match o {
        Some(v) => Some(subst_strings(v, combo)),
        None => None,
    }
}

pub(crate) fn subst_env_map(m: &ParameterMap, combo: &Bindings) -> (r: ParameterMap)
    requires
        bindings_well_formed(combo@),
    ensures
        map_view(r@) == subst_env(map_view(m@), bindings_view(combo@)),
{
    let mut r: ParameterMap = Vec::new();
    let mut i: usize = 0;
    while i < m.len()
        invariant
            i <= m.len(),
            r.len() == i,
            bindings_well_formed(combo@),
            forall|k: int|
                0 <= k < i ==> (#[trigger] r@[k]).0@ == m@[k].0@ && r@[k].1@ == subst(
                    m@[k].1@,
                    bindings_view(combo@),
                ),
        decreases m.len() - i,
    {
        r.push((copy_string(&m[i].0), substitute_parameters(m[i].1.as_str(), combo)));
        i = i + 1;
    }
    proof {
        assert(map_view(r@) =~= subst_env(map_view(m@), bindings_view(combo@)));
    }
    r
}

fn subst_opt_env_map(o: &Option<ParameterMap>, combo: &Bindings) -> (r: Option<ParameterMap>)
    requires
        bindings_well_formed(combo@),
    ensures
        opt_map_view(r) == subst_opt_env(opt_map_view(*o), bindings_view(combo@)),
{
    match o {
        Some(m) => Some(subst_env_map(m, combo)),
        None => None,
    }
}

// ---------------------------------------------------------------------------
// Jobs
// ---------------------------------------------------------------------------

/// Specification of a job within a workflow. Its environment and its
/// parameters are lists of name/value pairs with distinct names.
#[derive(Debug)]
pub struct JobSpec {
    pub name: String,
    pub command: String,
    pub invocation_script: Option<String>,
    pub env: Option<ParameterMap>,
    pub cancel_on_blocking_job_failure: Option<bool>,
    pub supports_termination: Option<bool>,
    pub resource_requirements: Option<String>,
    pub failure_handler: Option<String>,
    pub depends_on: Option<Vec<String>>,
    pub depends_on_regexes: Option<Vec<String>>,
    pub input_files: Option<Vec<String>>,
    pub input_file_regexes: Option<Vec<String>>,
    pub output_files: Option<Vec<String>>,
    pub output_file_regexes: Option<Vec<String>>,
    pub input_user_data: Option<Vec<String>>,
    pub input_user_data_regexes: Option<Vec<String>>,
    pub output_user_data: Option<Vec<String>>,
    pub output_user_data_regexes: Option<Vec<String>>,
    pub scheduler: Option<String>,
    /// Parameters by name, each with its text (`"1:5"`, `"[a,b]"`, ...).
    pub parameters: Option<ParameterMap>,
    /// `product` (the default) or `zip`.
    pub parameter_mode: Option<String>,
    pub use_parameters: Option<Vec<String>>,
    /// A CSV/JSON table whose rows are the combinations.
    pub parameters_file: Option<String>,
    pub use_parameters_file: Option<bool>,
    pub stdio: Option<StdioConfig>,
    pub priority: Option<i64>,
}

/// The mathematical value of a [`JobSpec`].
pub struct JobSpecView {
    pub name: Seq<char>,
    pub command: Seq<char>,
    pub invocation_script: Option<Seq<char>>,
    pub env: Option<Seq<(Seq<char>, Seq<char>)>>,
    pub cancel_on_blocking_job_failure: Option<bool>,
    pub supports_termination: Option<bool>,
    pub resource_requirements: Option<Seq<char>>,
    pub failure_handler: Option<Seq<char>>,
    pub depends_on: Option<Seq<Seq<char>>>,
    pub depends_on_regexes: Option<Seq<Seq<char>>>,
    pub input_files: Option<Seq<Seq<char>>>,
    pub input_file_regexes: Option<Seq<Seq<char>>>,
    pub output_files: Option<Seq<Seq<char>>>,
    pub output_file_regexes: Option<Seq<Seq<char>>>,
    pub input_user_data: Option<Seq<Seq<char>>>,
    pub input_user_data_regexes: Option<Seq<Seq<char>>>,
    pub output_user_data: Option<Seq<Seq<char>>>,
    pub output_user_data_regexes: Option<Seq<Seq<char>>>,
    pub scheduler: Option<Seq<char>>,
    pub parameters: Option<Seq<(Seq<char>, Seq<char>)>>,
    pub parameter_mode: Option<Seq<char>>,
    pub use_parameters: Option<Seq<Seq<char>>>,
    pub parameters_file: Option<Seq<char>>,
    pub use_parameters_file: Option<bool>,
    pub stdio: Option<StdioConfig>,
    pub priority: Option<i64>,
}

impl View for JobSpec {
    type V = JobSpecView;

    open spec fn view(&self) -> JobSpecView {
        JobSpecView {
            name: self.name@,
            command: self.command@,
            invocation_script: opt_view(self.invocation_script),
            env: opt_map_view(self.env),
            cancel_on_blocking_job_failure: self.cancel_on_blocking_job_failure,
            supports_termination: self.supports_termination,
            resource_requirements: opt_view(self.resource_requirements),
            failure_handler: opt_view(self.failure_handler),
            depends_on: opt_strs_view(self.depends_on),
            depends_on_regexes: opt_strs_view(self.depends_on_regexes),
            input_files: opt_strs_view(self.input_files),
            input_file_regexes: opt_strs_view(self.input_file_regexes),
            output_files: opt_strs_view(self.output_files),
            output_file_regexes: opt_strs_view(self.output_file_regexes),
            input_user_data: opt_strs_view(self.input_user_data),
            input_user_data_regexes: opt_strs_view(self.input_user_data_regexes),
            output_user_data: opt_strs_view(self.output_user_data),
            output_user_data_regexes: opt_strs_view(self.output_user_data_regexes),
            scheduler: opt_view(self.scheduler),
            parameters: opt_map_view(self.parameters),
            parameter_mode: opt_view(self.parameter_mode),
            use_parameters: opt_strs_view(self.use_parameters),
            parameters_file: opt_view(self.parameters_file),
            use_parameters_file: self.use_parameters_file,
            stdio: self.stdio,
            priority: self.priority,
        }
    }
}

/// The job generated for one combination: every name, command, script,
/// environment value, reference and reference pattern substituted (the
/// failure handler is kept as written), and the parameter sources dropped.
pub open spec fn expand_one(j: JobSpecView, b: Combo) -> JobSpecView {
    JobSpecView {
        name: subst(j.name, b),
        command: subst(j.command, b),
        invocation_script: subst_opt(j.invocation_script, b),
        env: subst_opt_env(j.env, b),
        cancel_on_blocking_job_failure: j.cancel_on_blocking_job_failure,
        supports_termination: j.supports_termination,
        resource_requirements: subst_opt(j.resource_requirements, b),
        failure_handler: j.failure_handler,
        depends_on: subst_opt_all(j.depends_on, b),
        depends_on_regexes: subst_opt_all(j.depends_on_regexes, b),
        input_files: subst_opt_all(j.input_files, b),
        input_file_regexes: subst_opt_all(j.input_file_regexes, b),
        output_files: subst_opt_all(j.output_files, b),
        output_file_regexes: subst_opt_all(j.output_file_regexes, b),
        input_user_data: subst_opt_all(j.input_user_data, b),
        input_user_data_regexes: subst_opt_all(j.input_user_data_regexes, b),
        output_user_data: subst_opt_all(j.output_user_data, b),
        output_user_data_regexes: subst_opt_all(j.output_user_data_regexes, b),
        scheduler: subst_opt(j.scheduler, b),
        parameters: None,
        parameter_mode: None,
        use_parameters: j.use_parameters,
        parameters_file: None,
        use_parameters_file: j.use_parameters_file,
        stdio: j.stdio,
        priority: j.priority,
    }
}

/// The jobs a job expands to: itself when it is not parameterized, else one
/// job per combination, in the order of the combinations.
pub open spec fn spec_expand(j: JobSpecView, table: Option<Seq<Combo>>) -> Result<
    Seq<JobSpecView>,
    Seq<char>,
> {
    match spec_build_combinations(
        j.parameters,
        j.parameter_mode,
        j.use_parameters is Some,
        j.parameters_file,
        table,
    ) {
        Err(e) => Err(e),
        Ok(None) => Ok(seq![j]),
        Ok(Some(cs)) => Ok(cs.map_values(|c: Combo| expand_one(j, c))),
    }
}

pub open spec fn jobs_view(v: Seq<JobSpec>) -> Seq<JobSpecView> {
    v.map_values(|j: JobSpec| j@)
}

impl JobSpec {
    /// A job with only its name and command; it is not canceled when a
    /// blocking job fails and does not support termination.
    pub fn new(name: String, command: String) -> (j: JobSpec)
        ensures
            j@ == (JobSpecView {
                name: name@,
                command: command@,
                invocation_script: None,
                env: None,
                cancel_on_blocking_job_failure: Some(false),
                supports_termination: Some(false),
                resource_requirements: None,
                failure_handler: None,
                depends_on: None,
                depends_on_regexes: None,
                input_files: None,
                input_file_regexes: None,
                output_files: None,
                output_file_regexes: None,
                input_user_data: None,
                input_user_data_regexes: None,
                output_user_data: None,
                output_user_data_regexes: None,
                scheduler: None,
                parameters: None,
                parameter_mode: None,
                use_parameters: None,
                parameters_file: None,
                use_parameters_file: None,
                stdio: None,
                priority: None,
            }),
    {
        JobSpec {
            name,
            command,
            invocation_script: None,
            env: None,
            cancel_on_blocking_job_failure: Some(false),
            supports_termination: Some(false),
            resource_requirements: None,
            failure_handler: None,
            depends_on: None,
            depends_on_regexes: None,
            input_files: None,
            input_file_regexes: None,
            output_files: None,
            output_file_regexes: None,
            input_user_data: None,
            input_user_data_regexes: None,
            output_user_data: None,
            output_user_data_regexes: None,
            scheduler: None,
            parameters: None,
            parameter_mode: None,
            use_parameters: None,
            parameters_file: None,
            use_parameters_file: None,
            stdio: None,
            priority: None,
        }
    }

    /// A copy of the job.
    pub fn copy(&self) -> (r: JobSpec)
        ensures
            r@ == self@,
    {
        JobSpec {
            name: copy_string(&self.name),
            command: copy_string(&self.command),
            invocation_script: copy_opt_string(&self.invocation_script),
            env: copy_opt_map(&self.env),
            cancel_on_blocking_job_failure: self.cancel_on_blocking_job_failure,
            supports_termination: self.supports_termination,
            resource_requirements: copy_opt_string(&self.resource_requirements),
            failure_handler: copy_opt_string(&self.failure_handler),
            depends_on: copy_opt_strings(&self.depends_on),
            depends_on_regexes: copy_opt_strings(&self.depends_on_regexes),
            input_files: copy_opt_strings(&self.input_files),
            input_file_regexes: copy_opt_strings(&self.input_file_regexes),
            output_files: copy_opt_strings(&self.output_files),
            output_file_regexes: copy_opt_strings(&self.output_file_regexes),
            input_user_data: copy_opt_strings(&self.input_user_data),
            input_user_data_regexes: copy_opt_strings(&self.input_user_data_regexes),
            output_user_data: copy_opt_strings(&self.output_user_data),
            output_user_data_regexes: copy_opt_strings(&self.output_user_data_regexes),
            scheduler: copy_opt_string(&self.scheduler),
            parameters: copy_opt_map(&self.parameters),
            parameter_mode: copy_opt_string(&self.parameter_mode),
            use_parameters: copy_opt_strings(&self.use_parameters),
            parameters_file: copy_opt_string(&self.parameters_file),
            use_parameters_file: self.use_parameters_file,
            stdio: self.stdio,
            priority: self.priority,
        }
    }

    /// The job generated for one combination of parameter values.
    pub fn expand_combination(&self, combo: &Bindings) -> (r: JobSpec)
        requires
            bindings_well_formed(combo@),
        ensures
            r@ == expand_one(self@, bindings_view(combo@)),
    {
        JobSpec {
            name: substitute_parameters(self.name.as_str(), combo),
            command: substitute_parameters(self.command.as_str(), combo),
            invocation_script: subst_opt_string(&self.invocation_script, combo),
            env: subst_opt_env_map(&self.env, combo),
            cancel_on_blocking_job_failure: self.cancel_on_blocking_job_failure,
            supports_termination: self.supports_termination,
            resource_requirements: subst_opt_string(&self.resource_requirements, combo),
            failure_handler: copy_opt_string(&self.failure_handler),
            depends_on: subst_opt_strings(&self.depends_on, combo),
            depends_on_regexes: subst_opt_strings(&self.depends_on_regexes, combo),
            input_files: subst_opt_strings(&self.input_files, combo),
            input_file_regexes: subst_opt_strings(&self.input_file_regexes, combo),
            output_files: subst_opt_strings(&self.output_files, combo),
            output_file_regexes: subst_opt_strings(&self.output_file_regexes, combo),
            input_user_data: subst_opt_strings(&self.input_user_data, combo),
            input_user_data_regexes: subst_opt_strings(&self.input_user_data_regexes, combo),
            output_user_data: subst_opt_strings(&self.output_user_data, combo),
            output_user_data_regexes: subst_opt_strings(&self.output_user_data_regexes, combo),
            scheduler: subst_opt_string(&self.scheduler, combo),
            parameters: None,
            parameter_mode: None,
            use_parameters: copy_opt_strings(&self.use_parameters),
            parameters_file: None,
            use_parameters_file: self.use_parameters_file,
            stdio: self.stdio,
            priority: self.priority,
        }
    }

    /// Expands the job over its parameters, reading the combinations of a
    /// `parameters_file` from `table` (the rows the caller read from it).
    pub fn expand_with_table(&self, table: Option<&Vec<Bindings>>) -> (r: Result<
        Vec<JobSpec>,
        String,
    >)
        requires
            opt_table_well_formed(table),
        ensures
            match r {
                Ok(v) => spec_expand(self@, opt_table_view(table)) == Ok::<_, Seq<char>>(
                    jobs_view(v@),
                ),
                Err(e) => spec_expand(self@, opt_table_view(table)) == Err::<
                    Seq<JobSpecView>,
                    _,
                >(e@),
            },
    {
        let combos = match build_parameter_combinations(
            &self.parameters,
            &self.parameter_mode,
            &self.use_parameters,
            &self.parameters_file,
            table,
        ) {
            Err(e) => {
                return Err(e);
            },
            Ok(None) => {
                let mut out: Vec<JobSpec> = Vec::new();
                out.push(self.copy());
                proof {
                    assert(jobs_view(out@) =~= seq![self@]);
                }
                return Ok(out);
            },
            Ok(Some(cs)) => cs,
        };
        let ghost b = combos_view(combos@);
        let mut out: Vec<JobSpec> = Vec::new();
        let mut i: usize = 0;
        while i < combos.len()
            invariant
                i <= combos.len(),
                out.len() == i,
                combos_well_formed(combos@),
                b == combos_view(combos@),
                forall|k: int| 0 <= k < i ==> (#[trigger] out@[k])@ == expand_one(self@, b[k]),
            decreases combos.len() - i,
        {
            let job = self.expand_combination(&combos[i]);
            out.push(job);
            i = i + 1;
        }
        proof {
            assert(jobs_view(out@) =~= b.map_values(|c: Combo| expand_one(self@, c)));
        }
        Ok(out)
    }

    /// Expands the job over its inline parameters: one job per combination,
    /// or the job itself when it has none. A job that names a
    /// `parameters_file` needs the table's rows: see [`JobSpec::expand_with_table`].
    pub fn expand(&self) -> (r: Result<Vec<JobSpec>, String>)
        ensures
            match r {
                Ok(v) => spec_expand(self@, None) == Ok::<_, Seq<char>>(jobs_view(v@)),
                Err(e) => spec_expand(self@, None) == Err::<Seq<JobSpecView>, _>(e@),
            },
    {
        self.expand_with_table(None)
    }
}

// ---------------------------------------------------------------------------
// Other specification records
// ---------------------------------------------------------------------------

/// Result of validating a workflow specification without creating it.
#[derive(Clone, Debug)]
pub struct ValidationResult {
    /// Whether no error was found.
    pub valid: bool,
    /// Errors that would prevent creation.
    pub errors: Vec<String>,
    /// Findings that do not prevent creation.
    pub warnings: Vec<String>,
    /// What would be created.
    pub summary: ValidationSummary,
}

/// Counts and names of what a workflow would create.
#[derive(Clone, Debug)]
pub struct ValidationSummary {
    pub workflow_name: String,
    pub workflow_description: Option<String>,
    pub job_count: usize,
    pub job_count_before_expansion: usize,
    pub file_count: usize,
    pub file_count_before_expansion: usize,
    pub user_data_count: usize,
    pub resource_requirements_count: usize,
    pub slurm_scheduler_count: usize,
    pub action_count: usize,
    /// Whether a node-scheduling action would fire on submission.
    pub has_schedule_nodes_action: bool,
    pub job_names: Vec<String>,
    pub scheduler_names: Vec<String>,
}

/// A conditional action of a workflow.
#[derive(Clone, Debug)]
pub struct WorkflowActionSpec {
    /// `on_workflow_start`, `on_workflow_complete`, `on_jobs_ready` or `on_jobs_complete`.
    pub trigger_type: String,
    /// `run_commands` or `schedule_nodes`.
    pub action_type: String,
    pub jobs: Option<Vec<String>>,
    pub job_name_regexes: Option<Vec<String>>,
    pub commands: Option<Vec<String>>,
    pub scheduler: Option<String>,
    pub scheduler_type: Option<String>,
    pub num_allocations: Option<i64>,
    pub start_one_worker_per_node: Option<bool>,
    pub max_parallel_jobs: Option<i32>,
    pub persistent: Option<bool>,
}

/// Resource requirements of jobs.
#[derive(Clone, Debug)]
pub struct ResourceRequirementsSpec {
    pub name: String,
    pub num_cpus: i64,
    pub num_gpus: i64,
    /// Defaults to 1.
    pub num_nodes: i64,
    pub memory: String,
    /// Defaults to one hour.
    pub runtime: String,
}

impl ResourceRequirementsSpec {
    pub fn default_num_nodes() -> (r: i64)
        ensures
            r == 1,
    {
        1
    }

    pub fn default_runtime() -> (r: String)
        ensures
            r@ == "PT1H"@,
    {
        lit("PT1H")
    }
}

/// A rule of a failure handler: which exit codes it matches and how often
/// to retry.
#[derive(Clone, Debug)]
pub struct FailureHandlerRuleSpec {
    pub exit_codes: Vec<i32>,
    /// Matches every non-zero exit code.
    pub match_all_exit_codes: bool,
    /// Run before retrying.
    pub recovery_script: Option<String>,
    /// Defaults to 3.
    pub max_retries: i32,
}

impl FailureHandlerRuleSpec {
    pub fn default_max_retries() -> (r: i32)
        ensures
            r == 3,
    {
        3
    }
}

/// A named failure handler.
#[derive(Clone, Debug)]
pub struct FailureHandlerSpec {
    pub name: String,
    pub rules: Vec<FailureHandlerRuleSpec>,
}

/// A Slurm scheduler of a workflow.
#[derive(Clone, Debug)]
pub struct SlurmSchedulerSpec {
    pub name: Option<String>,
    pub account: String,
    pub gres: Option<String>,
    pub mem: Option<String>,
    /// Defaults to 1.
    pub nodes: i64,
    pub ntasks_per_node: Option<i64>,
    pub partition: Option<String>,
    pub qos: Option<String>,
    pub tmp: Option<String>,
    /// Defaults to `01:00:00`.
    pub walltime: String,
    pub extra: Option<String>,
    /// Run the allocations one after another.
    pub serialize_allocations: Option<bool>,
}

impl SlurmSchedulerSpec {
    pub fn default_nodes() -> (r: i64)
        ensures
            r == 1,
    {
        1
    }

    pub fn default_walltime() -> (r: String)
        ensures
            r@ == "01:00:00"@,
    {
        lit("01:00:00")
    }
}

// ---------------------------------------------------------------------------
// Files
// ---------------------------------------------------------------------------

/// Specification of a file of a workflow.
#[derive(Debug)]
pub struct FileSpec {
    pub name: String,
    pub path: String,
    /// A stable identifier (DOI, PURL, URN) used in place of the path.
    pub identifier: Option<String>,
    /// Modification time in seconds since the epoch, as the bits of an IEEE
    /// double (`f64::to_bits`).
    pub st_mtime_bits: Option<u64>,
    pub parameters: Option<ParameterMap>,
    pub parameter_mode: Option<String>,
    pub use_parameters: Option<Vec<String>>,
    pub parameters_file: Option<String>,
    pub use_parameters_file: Option<bool>,
}

pub struct FileSpecView {
    pub name: Seq<char>,
    pub path: Seq<char>,
    pub identifier: Option<Seq<char>>,
    pub st_mtime_bits: Option<u64>,
    pub parameters: Option<Seq<(Seq<char>, Seq<char>)>>,
    pub parameter_mode: Option<Seq<char>>,
    pub use_parameters: Option<Seq<Seq<char>>>,
    pub parameters_file: Option<Seq<char>>,
    pub use_parameters_file: Option<bool>,
}

impl View for FileSpec {
    type V = FileSpecView;

    open spec fn view(&self) -> FileSpecView {
        FileSpecView {
            name: self.name@,
            path: self.path@,
            identifier: opt_view(self.identifier),
            st_mtime_bits: self.st_mtime_bits,
            parameters: opt_map_view(self.parameters),
            parameter_mode: opt_view(self.parameter_mode),
            use_parameters: opt_strs_view(self.use_parameters),
            parameters_file: opt_view(self.parameters_file),
            use_parameters_file: self.use_parameters_file,
        }
    }
}

/// The file generated for one combination: name, path and identifier
/// substituted, parameter sources dropped.
pub open spec fn expand_file_one(f: FileSpecView, b: Combo) -> FileSpecView {
    FileSpecView {
        name: subst(f.name, b),
        path: subst(f.path, b),
        identifier: subst_opt(f.identifier, b),
        st_mtime_bits: f.st_mtime_bits,
        parameters: None,
        parameter_mode: None,
        use_parameters: f.use_parameters,
        parameters_file: None,
        use_parameters_file: f.use_parameters_file,
    }
}

/// The files a file expands to.
pub open spec fn spec_expand_file(f: FileSpecView, table: Option<Seq<Combo>>) -> Result<
    Seq<FileSpecView>,
    Seq<char>,
> {
    match spec_build_combinations(
        f.parameters,
        f.parameter_mode,
        f.use_parameters is Some,
        f.parameters_file,
        table,
    ) {
        Err(e) => Err(e),
        Ok(None) => Ok(seq![f]),
        Ok(Some(cs)) => Ok(cs.map_values(|c: Combo| expand_file_one(f, c))),
    }
}

pub open spec fn files_view(v: Seq<FileSpec>) -> Seq<FileSpecView> {
    v.map_values(|f: FileSpec| f@)
}

impl FileSpec {
    /// A file with only its name and path.
    pub fn new(name: String, path: String) -> (f: FileSpec)
        ensures
            f@ == (FileSpecView {
                name: name@,
                path: path@,
                identifier: None,
                st_mtime_bits: None,
                parameters: None,
                parameter_mode: None,
                use_parameters: None,
                parameters_file: None,
                use_parameters_file: None,
            }),
    {
        FileSpec {
            name,
            path,
            identifier: None,
            st_mtime_bits: None,
            parameters: None,
            parameter_mode: None,
            use_parameters: None,
            parameters_file: None,
            use_parameters_file: None,
        }
    }

    /// A copy of the file.
    pub fn copy(&self) -> (r: FileSpec)
        ensures
            r@ == self@,
    {
        FileSpec {
            name: copy_string(&self.name),
            path: copy_string(&self.path),
            identifier: copy_opt_string(&self.identifier),
            st_mtime_bits: self.st_mtime_bits,
            parameters: copy_opt_map(&self.parameters),
            parameter_mode: copy_opt_string(&self.parameter_mode),
            use_parameters: copy_opt_strings(&self.use_parameters),
            parameters_file: copy_opt_string(&self.parameters_file),
            use_parameters_file: self.use_parameters_file,
        }
    }

    /// The file generated for one combination of parameter values.
    pub fn expand_combination(&self, combo: &Bindings) -> (r: FileSpec)
        requires
            bindings_well_formed(combo@),
        ensures
            r@ == expand_file_one(self@, bindings_view(combo@)),
    {
        FileSpec {
            name: substitute_parameters(self.name.as_str(), combo),
            path: substitute_parameters(self.path.as_str(), combo),
            identifier: subst_opt_string(&self.identifier, combo),
            st_mtime_bits: self.st_mtime_bits,
            parameters: None,
            parameter_mode: None,
            use_parameters: copy_opt_strings(&self.use_parameters),
            parameters_file: None,
            use_parameters_file: self.use_parameters_file,
        }
    }

    /// Expands the file over its parameters, reading the combinations of a
    /// `parameters_file` from `table`.
    pub fn expand_with_table(&self, table: Option<&Vec<Bindings>>) -> (r: Result<
        Vec<FileSpec>,
        String,
    >)
        requires
            opt_table_well_formed(table),
        ensures
            match r {
                Ok(v) => spec_expand_file(self@, opt_table_view(table)) == Ok::<_, Seq<char>>(
                    files_view(v@),
                ),
                Err(e) => spec_expand_file(self@, opt_table_view(table)) == Err::<
                    Seq<FileSpecView>,
                    _,
                >(e@),
            },
    {
        let combos = match build_parameter_combinations(
            &self.parameters,
            &self.parameter_mode,
            &self.use_parameters,
            &self.parameters_file,
            table,
        ) {
            Err(e) => {
                return Err(e);
            },
            Ok(None) => {
                let mut out: Vec<FileSpec> = Vec::new();
                out.push(self.copy());
                proof {
                    assert(files_view(out@) =~= seq![self@]);
                }
                return Ok(out);
            },
            Ok(Some(cs)) => cs,
        };
        let ghost b = combos_view(combos@);
        let mut out: Vec<FileSpec> = Vec::new();
        let mut i: usize = 0;
        while i < combos.len()
            invariant
                i <= combos.len(),
                out.len() == i,
                combos_well_formed(combos@),
                b == combos_view(combos@),
                forall|k: int| 0 <= k < i ==> (#[trigger] out@[k])@ == expand_file_one(self@, b[k]),
            decreases combos.len() - i,
        {
            out.push(self.expand_combination(&combos[i]));
            i = i + 1;
        }
        proof {
            assert(files_view(out@) =~= b.map_values(|c: Combo| expand_file_one(self@, c)));
        }
        Ok(out)
    }

    /// Expands the file over its inline parameters.
    pub fn expand(&self) -> (r: Result<Vec<FileSpec>, String>)
        ensures
            match r {
                Ok(v) => spec_expand_file(self@, None) == Ok::<_, Seq<char>>(files_view(v@)),
                Err(e) => spec_expand_file(self@, None) == Err::<Seq<FileSpecView>, _>(e@),
            },
    {
        self.expand_with_table(None)
    }
}

// ---------------------------------------------------------------------------
// User data
// ---------------------------------------------------------------------------

/// Specification of a user data record of a workflow.
#[derive(Debug)]
pub struct UserDataSpec {
    pub is_ephemeral: Option<bool>,
    pub name: Option<String>,
    pub data: Option<JsonValue>,
    pub parameters: Option<ParameterMap>,
    pub parameter_mode: Option<String>,
    pub use_parameters: Option<Vec<String>>,
    pub parameters_file: Option<String>,
    pub use_parameters_file: Option<bool>,
}

/// `b` holds the same record as `a`.
pub open spec fn user_data_same(a: UserDataSpec, b: UserDataSpec) -> bool {
    &&& b.is_ephemeral == a.is_ephemeral
    &&& opt_view(b.name) == opt_view(a.name)
    &&& match a.data {
        None => b.data is None,
        Some(d) => (b.data matches Some(e) && json_same(d, e)),
    }
    &&& opt_map_view(b.parameters) == opt_map_view(a.parameters)
    &&& opt_view(b.parameter_mode) == opt_view(a.parameter_mode)
    &&& opt_strs_view(b.use_parameters) == opt_strs_view(a.use_parameters)
    &&& opt_view(b.parameters_file) == opt_view(a.parameters_file)
    &&& b.use_parameters_file == a.use_parameters_file
}

/// `b` is the record generated from `a` for combination `c`: its name and
/// every string of its data substituted, parameter sources dropped.
pub open spec fn user_data_expanded(a: UserDataSpec, c: Combo, b: UserDataSpec) -> bool {
    &&& b.is_ephemeral == a.is_ephemeral
    &&& opt_view(b.name) == subst_opt(opt_view(a.name), c)
    &&& match a.data {
        None => b.data is None,
        Some(d) => (b.data matches Some(e) && strings_substituted(d, e, c)),
    }
    &&& b.parameters is None
    &&& b.parameter_mode is None
    &&& opt_strs_view(b.use_parameters) == opt_strs_view(a.use_parameters)
    &&& b.parameters_file is None
    &&& b.use_parameters_file == a.use_parameters_file
}

/// What a user data record expands to: itself, one record per combination,
/// or the error of its combinations.
pub open spec fn user_data_expansion(
    a: UserDataSpec,
    table: Option<Seq<Combo>>,
    r: Result<Seq<UserDataSpec>, Seq<char>>,
) -> bool {
    match spec_build_combinations(
        opt_map_view(a.parameters),
        opt_view(a.parameter_mode),
        a.use_parameters is Some,
        opt_view(a.parameters_file),
        table,
    ) {
        Err(e) => r == Err::<Seq<UserDataSpec>, _>(e),
        Ok(None) => (r matches Ok(v) && v.len() == 1 && user_data_same(a, v[0])),
        Ok(Some(cs)) => (r matches Ok(v) && v.len() == cs.len() && forall|i: int|
            0 <= i < cs.len() ==> user_data_expanded(a, #[trigger] cs[i], v[i])),
    }
}

pub open spec fn result_seq_view<T>(r: Result<Vec<T>, String>) -> Result<Seq<T>, Seq<char>> {
    match r {
        Ok(v) => Ok(v@),
        Err(e) => Err(e@),
    }
}

impl UserDataSpec {
    /// A copy of the record.
    pub fn copy(&self) -> (r: UserDataSpec)
        ensures
            user_data_same(*self, r),
    {
        let data = match &self.data {
            Some(d) => Some(d.copy()),
            None => None,
        };
        UserDataSpec {
            is_ephemeral: self.is_ephemeral,
            name: copy_opt_string(&self.name),
            data,
            parameters: copy_opt_map(&self.parameters),
            parameter_mode: copy_opt_string(&self.parameter_mode),
            use_parameters: copy_opt_strings(&self.use_parameters),
            parameters_file: copy_opt_string(&self.parameters_file),
            use_parameters_file: self.use_parameters_file,
        }
    }

    /// The record generated for one combination of parameter values.
    pub fn expand_combination(&self, combo: &Bindings) -> (r: UserDataSpec)
        requires
            bindings_well_formed(combo@),
        ensures
            user_data_expanded(*self, bindings_view(combo@), r),
    {
        let data = match &self.data {
            Some(d) => Some(d.substitute_parameters(combo)),
            None => None,
        };
        UserDataSpec {
            is_ephemeral: self.is_ephemeral,
            name: subst_opt_string(&self.name, combo),
            data,
            parameters: None,
            parameter_mode: None,
            use_parameters: copy_opt_strings(&self.use_parameters),
            parameters_file: None,
            use_parameters_file: self.use_parameters_file,
        }
    }

    /// Expands the record over its parameters, reading the combinations of
    /// a `parameters_file` from `table`.
    pub fn expand_with_table(&self, table: Option<&Vec<Bindings>>) -> (r: Result<
        Vec<UserDataSpec>,
        String,
    >)
        requires
            opt_table_well_formed(table),
        ensures
            user_data_expansion(*self, opt_table_view(table), result_seq_view(r)),
    {
        let combos = match build_parameter_combinations(
            &self.parameters,
            &self.parameter_mode,
            &self.use_parameters,
            &self.parameters_file,
            table,
        ) {
            Err(e) => {
                return Err(e);
            },
            Ok(None) => {
                let mut out: Vec<UserDataSpec> = Vec::new();
                out.push(self.copy());
                return Ok(out);
            },
            Ok(Some(cs)) => cs,
        };
        let ghost b = combos_view(combos@);
        let mut out: Vec<UserDataSpec> = Vec::new();
        let mut i: usize = 0;
        while i < combos.len()
            invariant
                i <= combos.len(),
                out.len() == i,
                combos_well_formed(combos@),
                b == combos_view(combos@),
                forall|k: int| 0 <= k < i ==> user_data_expanded(*self, b[k], #[trigger] out@[k]),
            decreases combos.len() - i,
        {
            out.push(self.expand_combination(&combos[i]));
            i = i + 1;
        }
        Ok(out)
    }

    /// Expands the record over its inline parameters.
    pub fn expand(&self) -> (r: Result<Vec<UserDataSpec>, String>)
        ensures
            user_data_expansion(*self, None, result_seq_view(r)),
    {
        self.expand_with_table(None)
    }
}

} // verus!
