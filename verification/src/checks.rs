//! Checks a workflow must pass before it is created: unique names after
//! expansion, RO-Crate identifiers on files, and the node counts of jobs on
//! multi-node schedulers.

use vstd::prelude::*;

use crate::patterns::{compile_regex, regex_compiles, regex_is_match, regex_matches};
use crate::references::{last_lookup, last_lookup_exec};
use crate::text::{chars_eq, chars_of, concat2, concat3, concat5, copy_string, extend_str, i64_to_string, int_text, join, join_strings, string_of, trim, trim_chars};
use crate::workflow::WorkflowSpec;
use crate::workflow_spec::{strs_view, FileSpec, JobSpec, ResourceRequirementsSpec, SlurmSchedulerSpec, UserDataSpec, WorkflowActionSpec};

verus! {

// ---------------------------------------------------------------------------
// Unique names
// ---------------------------------------------------------------------------

/// The first position, from `i` on, whose name occurs earlier in the list.
pub open spec fn first_repeat_from(names: Seq<Seq<char>>, i: int) -> Option<int>
    decreases names.len() - i,
{
    if i < 0 || i >= names.len() {
        None
    } else if names.take(i).contains(names[i]) {
        Some(i)
    } else {
        first_repeat_from(names, i + 1)
    }
}

pub open spec fn job_names(js: Seq<JobSpec>) -> Seq<Seq<char>> {
    js.map_values(|j: JobSpec| j.name@)
}

pub open spec fn file_names(fs: Seq<FileSpec>) -> Seq<Seq<char>> {
    fs.map_values(|f: FileSpec| f.name@)
}

/// The names of the user data records that have one.
pub open spec fn user_data_names(uds: Seq<UserDataSpec>) -> Seq<Seq<char>>
    decreases uds.len(),
{
    if uds.len() == 0 {
        Seq::empty()
    } else {
        match uds.last().name {
            Some(n) => user_data_names(uds.drop_last()).push(n@),
            None => user_data_names(uds.drop_last()),
        }
    }
}

/// The last file that carries identifier `id`.
pub open spec fn last_with_identifier(fs: Seq<FileSpec>, id: Seq<char>) -> Option<int>
    decreases fs.len(),
{
    if fs.len() == 0 {
        None
    } else if fs.last().identifier matches Some(x) && x@ == id {
        Some(fs.len() - 1)
    } else {
        last_with_identifier(fs.drop_last(), id)
    }
}

pub open spec fn duplicate_job_message(name: Seq<char>) -> Seq<char> {
    "Duplicate job name '"@ + name + "' after parameter expansion. A parameterized job's name template must include a placeholder for every parameter in `parameters` / `use_parameters`, otherwise expansion produces multiple jobs with identical names. For fan-in patterns (a single consumer of many parameterized producers), use `depends_on_regexes` and `input_file_regexes` instead of parameterizing the consumer."@
}

pub open spec fn duplicate_file_message(name: Seq<char>) -> Seq<char> {
    "Duplicate file name '"@ + name + "' after parameter expansion. A parameterized file's name template must include a placeholder for every parameter in `parameters` / `use_parameters`."@
}

pub open spec fn duplicate_identifier_message(id: Seq<char>, prior: Seq<char>, name: Seq<char>) -> Seq<char> {
    "Duplicate file identifier '"@ + id + "' after parameter expansion (used by files '"@ + prior + "' and '"@
        + name
        + "'). Identifiers must be unique within a workflow; for parameterized files, the identifier template must include a placeholder for every parameter in `parameters` / `use_parameters`."@
}

pub open spec fn duplicate_user_data_message(name: Seq<char>) -> Seq<char> {
    "Duplicate user_data name '"@ + name + "' after parameter expansion. A parameterized user_data's name template must include a placeholder for every parameter in `parameters` / `use_parameters`."@
}

/// The first file, from `i` on, whose name or identifier an earlier file
/// already has, with the message that reports it.
pub open spec fn file_repeat_from(fs: Seq<FileSpec>, i: int) -> Option<Seq<char>>
    decreases fs.len() - i,
{
    if i < 0 || i >= fs.len() {
        None
    } else if file_names(fs).take(i).contains(fs[i].name@) {
        Some(duplicate_file_message(fs[i].name@))
    } else {
        match fs[i].identifier {
            Some(id) => match last_with_identifier(fs.take(i), id@) {
                Some(k) => Some(duplicate_identifier_message(id@, fs[k].name@, fs[i].name@)),
                None => file_repeat_from(fs, i + 1),
            },
            None => file_repeat_from(fs, i + 1),
        }
    }
}

/// What the check of unique names says of a workflow.
pub open spec fn unique_names_verdict(w: WorkflowSpec) -> Result<(), Seq<char>> {
    match first_repeat_from(job_names(w.jobs@), 0) {
        Some(i) => Err(duplicate_job_message(w.jobs@[i].name@)),
        None => {
            let files = match w.files {
                Some(fs) => file_repeat_from(fs@, 0),
                None => None,
            };
            match files {
                Some(m) => Err(m),
                None => {
                    let uds = match w.user_data {
                        Some(u) => user_data_names(u@),
                        None => Seq::empty(),
                    };
                    match first_repeat_from(uds, 0) {
                        Some(i) => Err(duplicate_user_data_message(uds[i])),
                        None => Ok(()),
                    }
                },
            }
        },
    }
}

/// Whether `n` is among the first `k` names.
fn in_prefix(names: &Vec<String>, k: usize, n: &String) -> (b: bool)
    requires
        k <= names.len(),
    ensures
        b == strs_view(names@).take(k as int).contains(n@),
{
    let nv = chars_of(n.as_str());
    let mut i: usize = 0;
    while i < k
        invariant
            i <= k <= names.len(),
            nv@ == n@,
            forall|m: int| 0 <= m < i ==> names@[m]@ != n@,
        decreases k - i,
    {
        if chars_eq(&chars_of(names[i].as_str()), &nv) {
            proof {
                assert(strs_view(names@).take(k as int)[i as int] == n@);
            }
            return true;
        }
        i = i + 1;
    }
    proof {
        if strs_view(names@).take(k as int).contains(n@) {
            let m = choose|m: int| 0 <= m < k && strs_view(names@).take(k as int)[m] == n@;
            assert(names@[m]@ == n@);
        }
    }
    false
}

/// The first position whose name occurs earlier in the list.
pub(crate) fn first_repeat(names: &Vec<String>) -> (r: Option<usize>)
    ensures
        match r {
            Some(i) => i < names.len() && first_repeat_from(strs_view(names@), 0) == Some(i as int),
            None => first_repeat_from(strs_view(names@), 0) is None,
        },
{
    let mut i: usize = 0;
    while i < names.len()
        invariant
            i <= names.len(),
            first_repeat_from(strs_view(names@), 0) == first_repeat_from(strs_view(names@), i as int),
        decreases names.len() - i,
    {
        if in_prefix(names, i, &names[i]) {
            return Some(i);
        }
        i = i + 1;
    }
    None
}

fn names_of_jobs(js: &Vec<JobSpec>) -> (r: Vec<String>)
    ensures
        strs_view(r@) == job_names(js@),
{
    let mut r: Vec<String> = Vec::new();
    let mut i: usize = 0;
    while i < js.len()
        invariant
            i <= js.len(),
            strs_view(r@) == job_names(js@).take(i as int),
        decreases js.len() - i,
    {
        let c = copy_string(&js[i].name);
        let ghost prev = r@;
        r.push(c);
        proof {
            assert(r@ == prev.push(c));
            assert(strs_view(r@) =~= strs_view(prev).push(c@));
            assert(strs_view(r@) =~= job_names(js@).take(i + 1));
        }
        i = i + 1;
    }
    proof {
        assert(job_names(js@).take(js.len() as int) =~= job_names(js@));
    }
    r
}

pub(crate) fn names_of_files(fs: &Vec<FileSpec>) -> (r: Vec<String>)
    ensures
        strs_view(r@) == file_names(fs@),
{
    let mut r: Vec<String> = Vec::new();
    let mut i: usize = 0;
    while i < fs.len()
        invariant
            i <= fs.len(),
            strs_view(r@) == file_names(fs@).take(i as int),
        decreases fs.len() - i,
    {
        let c = copy_string(&fs[i].name);
        let ghost prev = r@;
        r.push(c);
        proof {
            assert(r@ == prev.push(c));
            assert(strs_view(r@) =~= strs_view(prev).push(c@));
            assert(strs_view(r@) =~= file_names(fs@).take(i + 1));
        }
        i = i + 1;
    }
    proof {
        assert(file_names(fs@).take(fs.len() as int) =~= file_names(fs@));
    }
    r
}

pub(crate) fn names_of_user_data(uds: &Vec<UserDataSpec>) -> (r: Vec<String>)
    ensures
        strs_view(r@) == user_data_names(uds@),
{
    let mut r: Vec<String> = Vec::new();
    let mut i: usize = 0;
    proof {
        assert(strs_view(r@) =~= user_data_names(uds@.take(0)));
    }
    while i < uds.len()
        invariant
            i <= uds.len(),
            strs_view(r@) == user_data_names(uds@.take(i as int)),
        decreases uds.len() - i,
    {
        proof {
            assert(uds@.take(i + 1).drop_last() =~= uds@.take(i as int));
        }
        match &uds[i].name {
            Some(n) => {
                let c = copy_string(n);
                let ghost prev = r@;
                r.push(c);
                proof {
                    assert(r@ == prev.push(c));
                    assert(strs_view(r@) =~= strs_view(prev).push(c@));
                }
            },
            None => {},
        }
        i = i + 1;
    }
    proof {
        assert(uds@.take(uds.len() as int) =~= uds@);
    }
    r
}

/// The last of the first `k` files that carries identifier `id`.
fn last_with_identifier_exec(fs: &Vec<FileSpec>, k: usize, id: &String) -> (r: Option<usize>)
    requires
        k <= fs.len(),
    ensures
        match r {
            Some(m) => m < k && last_with_identifier(fs@.take(k as int), id@) == Some(m as int),
            None => last_with_identifier(fs@.take(k as int), id@) is None,
        },
{
    let idv = chars_of(id.as_str());
    let mut i: usize = k;
    while i > 0
        invariant
            i <= k <= fs.len(),
            idv@ == id@,
            last_with_identifier(fs@.take(k as int), id@) == last_with_identifier(fs@.take(i as int), id@),
        decreases i,
    {
        proof {
            assert(fs@.take(i as int).drop_last() =~= fs@.take(i - 1));
            assert(fs@.take(i as int).last() == fs@[i - 1]);
        }
        match &fs[i - 1].identifier {
            Some(x) => {
                if chars_eq(&chars_of(x.as_str()), &idv) {
                    return Some(i - 1);
                }
            },
            None => {},
        }
        i = i - 1;
    }
    None
}

fn file_repeat(fs: &Vec<FileSpec>) -> (r: Option<String>)
    ensures
        match r {
            Some(m) => file_repeat_from(fs@, 0) == Some(m@),
            None => file_repeat_from(fs@, 0) is None,
        },
{
    let names = names_of_files(fs);
    proof {
        assert(strs_view(names@).len() == names@.len());
    }
    let mut i: usize = 0;
    while i < fs.len()
        invariant
            i <= fs.len(),
            names.len() == fs.len(),
            strs_view(names@) == file_names(fs@),
            file_repeat_from(fs@, 0) == file_repeat_from(fs@, i as int),
        decreases fs.len() - i,
    {
        proof {
            assert(strs_view(names@)[i as int] == fs@[i as int].name@);
        }
        if in_prefix(&names, i, &fs[i].name) {
            return Some(concat3("Duplicate file name '", fs[i].name.as_str(), "' after parameter expansion. A parameterized file's name template must include a placeholder for every parameter in `parameters` / `use_parameters`."));
        }
        match &fs[i].identifier {
            Some(id) => {
                match last_with_identifier_exec(fs, i, id) {
                    Some(k) => {
                        proof {
                            assert(fs@.take(i as int)[k as int] == fs@[k as int]);
                        }
                        let head = concat5("Duplicate file identifier '", id.as_str(), "' after parameter expansion (used by files '", fs[k].name.as_str(), "' and '");
                        return Some(concat3(head.as_str(), fs[i].name.as_str(), "'). Identifiers must be unique within a workflow; for parameterized files, the identifier template must include a placeholder for every parameter in `parameters` / `use_parameters`."));
                    },
                    None => {},
                }
            },
            None => {},
        }
        i = i + 1;
    }
    None
}

impl WorkflowSpec {
    /// Checks, after parameter expansion, that no two jobs, no two files and
    /// no two named user data records share a name, and that no two files
    /// share an identifier; reports the first clash found.
    pub fn validate_unique_names_after_expansion(&self) -> (r: Result<(), String>)
        ensures
            match r {
                Ok(()) => unique_names_verdict(*self) is Ok,
                Err(m) => unique_names_verdict(*self) == Err::<(), Seq<char>>(m@),
            },
    {
        let jn = names_of_jobs(&self.jobs);
        match first_repeat(&jn) {
            Some(i) => {
                proof {
                    assert(strs_view(jn@)[i as int] == self.jobs@[i as int].name@);
                }
                return Err(concat3("Duplicate job name '", self.jobs[i].name.as_str(), "' after parameter expansion. A parameterized job's name template must include a placeholder for every parameter in `parameters` / `use_parameters`, otherwise expansion produces multiple jobs with identical names. For fan-in patterns (a single consumer of many parameterized producers), use `depends_on_regexes` and `input_file_regexes` instead of parameterizing the consumer."));
            },
            None => {},
        }
        match &self.files {
            Some(fs) => match file_repeat(fs) {
                Some(m) => {
                    return Err(m);
                },
                None => {},
            },
            None => {},
        }
        match &self.user_data {
            Some(uds) => {
                let un = names_of_user_data(uds);
                match first_repeat(&un) {
                    Some(i) => {
                        return Err(concat3("Duplicate user_data name '", un[i].as_str(), "' after parameter expansion. A parameterized user_data's name template must include a placeholder for every parameter in `parameters` / `use_parameters`."));
                    },
                    None => {},
                }
            },
            None => {},
        }
        Ok(())
    }
}

// ---------------------------------------------------------------------------
// RO-Crate identifiers on files
// ---------------------------------------------------------------------------

pub open spec fn has_prefix(s: Seq<char>, p: Seq<char>) -> bool {
    p.len() <= s.len() && s.take(p.len() as int) == p
}

/// Identifiers kept for the entities the RO-Crate export makes itself.
pub open spec fn is_reserved_entity_id(id: Seq<char>) -> bool {
    has_prefix(id, "#torc-"@) || has_prefix(id, "#software-"@) || has_prefix(id, "#job-"@)
        || id == "ro-crate-metadata.json"@ || id == "./"@
}

pub open spec fn names_in(list: Option<Vec<String>>, name: Seq<char>) -> bool {
    match list {
        Some(v) => strs_view(v@).contains(name),
        None => false,
    }
}

/// Whether `pattern` compiles and matches `name`.
pub open spec fn pattern_hits(pattern: Seq<char>, name: Seq<char>) -> bool {
    regex_compiles(pattern) && regex_matches(pattern, name)
}

/// Whether one of the patterns compiles and matches `name`.
pub open spec fn some_pattern_matches(patterns: Option<Vec<String>>, name: Seq<char>) -> bool {
    match patterns {
        Some(v) => exists|k: int| 0 <= k < v.len() && #[trigger] pattern_hits(v@[k]@, name),
        None => false,
    }
}

/// Whether some job names the file among its outputs, exactly or by pattern.
pub open spec fn referenced_as_output(js: Seq<JobSpec>, name: Seq<char>) -> bool {
    exists|j: int|
        0 <= j < js.len() && (names_in(#[trigger] js[j].output_files, name) || some_pattern_matches(
            js[j].output_file_regexes,
            name,
        ))
}

/// Whether some job names the file among its inputs, exactly or by pattern.
pub open spec fn referenced_as_input(js: Seq<JobSpec>, name: Seq<char>) -> bool {
    exists|j: int|
        0 <= j < js.len() && (names_in(#[trigger] js[j].input_files, name) || some_pattern_matches(
            js[j].input_file_regexes,
            name,
        ))
}

/// The name of each file by its path.
pub open spec fn path_pairs(fs: Seq<FileSpec>) -> Seq<(Seq<char>, Seq<char>)> {
    fs.map_values(|f: FileSpec| (f.path@, f.name@))
}

/// The first file, from `i` on, that carries an identifier.
pub open spec fn first_identified_from(fs: Seq<FileSpec>, i: int) -> Option<int>
    decreases fs.len() - i,
{
    if i < 0 || i >= fs.len() {
        None
    } else if fs[i].identifier is Some {
        Some(i)
    } else {
        first_identified_from(fs, i + 1)
    }
}

pub open spec fn ro_crate_required_message(name: Seq<char>) -> Seq<char> {
    "File '"@ + name
        + "' sets `identifier` but the workflow does not have `enable_ro_crate: true`. Stable RO-Crate identifiers only have effect when automatic RO-Crate provenance is enabled; set `enable_ro_crate: true` at the workflow level or remove the identifier."@
}

pub open spec fn blank_identifier_message(name: Seq<char>) -> Seq<char> {
    "File '"@ + name
        + "' has an empty or whitespace-only `identifier`. Identifiers must be non-blank strings; remove the field or set it to a stable @id value (DOI, PURL, URN, \u{2026})."@
}

pub open spec fn reserved_identifier_message(name: Seq<char>, id: Seq<char>) -> Seq<char> {
    "File '"@ + name + "' uses identifier '"@ + id
        + "', which matches a reserved value or prefix (`#torc-`, `#software-`, `#job-`, `ro-crate-metadata.json`, or `./`). Those are used by Torc's own provenance entities or the synthetic export root and would collide at export time."@
}

pub open spec fn path_clash_message(name: Seq<char>, id: Seq<char>, other: Seq<char>) -> Seq<char> {
    "File '"@ + name + "' uses identifier '"@ + id + "', which is also the path of file '"@ + other
        + "'. Both would map to the same `entity_id`; workflow-wide RO-Crate entity IDs must be unique. Pick a distinct identifier."@
}

pub open spec fn output_identifier_message(name: Seq<char>) -> Seq<char> {
    "File '"@ + name
        + "' sets `identifier` but is referenced as an output of some job. RO-Crate identifiers are only honored for input files; the output completion path always resets `entity_id` to the file path and would silently overwrite the identifier. Remove the identifier, or restructure so this file is only an input."@
}

pub open spec fn orphan_identifier_message(name: Seq<char>) -> Seq<char> {
    "File '"@ + name
        + "' sets `identifier` but is not referenced by any job's `input_files` / `input_file_regexes` and has no pre-existing `st_mtime`. Identifiers attach to input entities, so this would create a dangling RO-Crate row. Either reference it as a job input or remove the identifier."@
}

/// What is wrong with the identifier of file `f`, if anything.
pub open spec fn identifier_issue(js: Seq<JobSpec>, fs: Seq<FileSpec>, f: FileSpec) -> Option<Seq<char>> {
    match f.identifier {
        None => None,
        Some(id) => {
            let name = f.name@;
            if trim(id@).len() == 0 {
                Some(blank_identifier_message(name))
            } else if is_reserved_entity_id(id@) {
                Some(reserved_identifier_message(name, id@))
            } else {
                match last_lookup(path_pairs(fs), id@) {
                    Some(other) if other != name => Some(path_clash_message(name, id@, other)),
                    _ => if referenced_as_output(js, name) {
                        Some(output_identifier_message(name))
                    } else if !(f.st_mtime_bits is Some || referenced_as_input(js, name)) {
                        Some(orphan_identifier_message(name))
                    } else {
                        None
                    },
                }
            }
        },
    }
}

/// The first issue with an identifier, from file `i` on.
pub open spec fn identifier_issue_from(js: Seq<JobSpec>, fs: Seq<FileSpec>, i: int) -> Option<Seq<char>>
    decreases fs.len() - i,
{
    if i < 0 || i >= fs.len() {
        None
    } else {
        match identifier_issue(js, fs, fs[i]) {
            Some(m) => Some(m),
            None => identifier_issue_from(js, fs, i + 1),
        }
    }
}

/// What the check of file identifiers says of a workflow.
pub open spec fn identifiers_verdict(w: WorkflowSpec) -> Result<(), Seq<char>> {
    match w.files {
        None => Ok(()),
        Some(fs) => match first_identified_from(fs@, 0) {
            None => Ok(()),
            Some(k) => if w.enable_ro_crate != Some(true) {
                Err(ro_crate_required_message(fs@[k].name@))
            } else {
                match identifier_issue_from(w.jobs@, fs@, 0) {
                    Some(m) => Err(m),
                    None => Ok(()),
                }
            },
        },
    }
}

fn has_prefix_exec(s: &Vec<char>, p: &str) -> (b: bool)
    ensures
        b == has_prefix(s@, p@),
{
    let pv = chars_of(p);
    if pv.len() > s.len() {
        return false;
    }
    let mut i: usize = 0;
    while i < pv.len()
        invariant
            i <= pv.len() <= s.len(),
            pv@ == p@,
            forall|k: int| 0 <= k < i ==> s@[k] == pv@[k],
        decreases pv.len() - i,
    {
        if s[i] != pv[i] {
            proof {
                assert(s@.take(pv.len() as int)[i as int] != p@[i as int]);
            }
            return false;
        }
        i = i + 1;
    }
    proof {
        assert(s@.take(pv.len() as int) =~= p@);
    }
    true
}

fn is_reserved_entity_id_exec(id: &String) -> (b: bool)
    ensures
        b == is_reserved_entity_id(id@),
{
    let v = chars_of(id.as_str());
    has_prefix_exec(&v, "#torc-") || has_prefix_exec(&v, "#software-") || has_prefix_exec(&v, "#job-")
        || chars_eq(&v, &chars_of("ro-crate-metadata.json")) || chars_eq(&v, &chars_of("./"))
}

fn names_in_exec(list: &Option<Vec<String>>, name: &String) -> (b: bool)
    ensures
        b == names_in(*list, name@),
{
    match list {
        Some(v) => {
            let b = in_prefix(v, v.len(), name);
            proof {
                assert(strs_view(v@).take(v.len() as int) =~= strs_view(v@));
            }
            b
        },
        None => false,
    }
}

fn any_pattern_hits(v: &Vec<String>, name: &String) -> (b: bool)
    ensures
        b == exists|k: int| 0 <= k < v.len() && #[trigger] pattern_hits(v@[k]@, name@),
{
    let mut k: usize = 0;
    while k < v.len()
        invariant
            k <= v.len(),
            forall|m: int| 0 <= m < k ==> !#[trigger] pattern_hits(v@[m]@, name@),
        decreases v.len() - k,
    {
        match compile_regex(v[k].as_str()) {
            Ok(re) => {
                if regex_is_match(&re, name.as_str()) {
                    proof {
                        assert(pattern_hits(v@[k as int]@, name@));
                    }
                    return true;
                }
            },
            Err(_) => {},
        }
        k = k + 1;
    }
    false
}

fn some_pattern_matches_exec(patterns: &Option<Vec<String>>, name: &String) -> (b: bool)
    ensures
        b == some_pattern_matches(*patterns, name@),
{
    match patterns {
        Some(v) => any_pattern_hits(v, name),
        None => false,
    }
}

/// Whether some job references the file as an output (else: as an input).
pub(crate) fn referenced_as_exec(js: &Vec<JobSpec>, name: &String, output: bool) -> (b: bool)
    ensures
        output ==> b == referenced_as_output(js@, name@),
        !output ==> b == referenced_as_input(js@, name@),
{
    let mut j: usize = 0;
    while j < js.len()
        invariant
            j <= js.len(),
            output ==> forall|m: int|
                0 <= m < j ==> !(names_in(#[trigger] js@[m].output_files, name@) || some_pattern_matches(
                    js@[m].output_file_regexes,
                    name@,
                )),
            !output ==> forall|m: int|
                0 <= m < j ==> !(names_in(#[trigger] js@[m].input_files, name@) || some_pattern_matches(
                    js@[m].input_file_regexes,
                    name@,
                )),
        decreases js.len() - j,
    {
        let hit = if output {
            names_in_exec(&js[j].output_files, name) || some_pattern_matches_exec(&js[j].output_file_regexes, name)
        } else {
            names_in_exec(&js[j].input_files, name) || some_pattern_matches_exec(&js[j].input_file_regexes, name)
        };
        if hit {
            return true;
        }
        j = j + 1;
    }
    false
}

fn path_pairs_exec(fs: &Vec<FileSpec>) -> (r: Vec<(String, String)>)
    ensures
        r@.map_values(|p: (String, String)| (p.0@, p.1@)) == path_pairs(fs@),
{
    let mut r: Vec<(String, String)> = Vec::new();
    let mut i: usize = 0;
    while i < fs.len()
        invariant
            i <= fs.len(),
            r@.map_values(|p: (String, String)| (p.0@, p.1@)) == path_pairs(fs@).take(i as int),
        decreases fs.len() - i,
    {
        let pair = (copy_string(&fs[i].path), copy_string(&fs[i].name));
        let ghost prev = r@;
        r.push(pair);
        proof {
            assert(r@ == prev.push(pair));
            assert(r@.map_values(|p: (String, String)| (p.0@, p.1@)) =~= prev.map_values(
                |p: (String, String)| (p.0@, p.1@),
            ).push((pair.0@, pair.1@)));
            assert(r@.map_values(|p: (String, String)| (p.0@, p.1@)) =~= path_pairs(fs@).take(i + 1));
        }
        i = i + 1;
    }
    proof {
        assert(path_pairs(fs@).take(fs.len() as int) =~= path_pairs(fs@));
    }
    r
}

fn identifier_issue_exec(js: &Vec<JobSpec>, fs: &Vec<FileSpec>, paths: &Vec<(String, String)>, f: &FileSpec) -> (r: Option<String>)
    requires
        paths@.map_values(|p: (String, String)| (p.0@, p.1@)) == path_pairs(fs@),
    ensures
        match r {
            Some(m) => identifier_issue(js@, fs@, *f) == Some(m@),
            None => identifier_issue(js@, fs@, *f) is None,
        },
{
    match &f.identifier {
        None => None,
        Some(id) => {
            let name = f.name.as_str();
            let t = trim_chars(&chars_of(id.as_str()));
            if t.len() == 0 {
                return Some(concat3("File '", name, "' has an empty or whitespace-only `identifier`. Identifiers must be non-blank strings; remove the field or set it to a stable @id value (DOI, PURL, URN, \u{2026})."));
            }
            if is_reserved_entity_id_exec(id) {
                return Some(concat5("File '", name, "' uses identifier '", id.as_str(), "', which matches a reserved value or prefix (`#torc-`, `#software-`, `#job-`, `ro-crate-metadata.json`, or `./`). Those are used by Torc's own provenance entities or the synthetic export root and would collide at export time."));
            }
            match last_lookup_exec(paths, &chars_of(id.as_str())) {
                Some(k) => {
                    let other = &paths[k].1;
                    if !chars_eq(&chars_of(other.as_str()), &chars_of(name)) {
                        let head = concat5("File '", name, "' uses identifier '", id.as_str(), "', which is also the path of file '");
                        return Some(concat3(head.as_str(), other.as_str(), "'. Both would map to the same `entity_id`; workflow-wide RO-Crate entity IDs must be unique. Pick a distinct identifier."));
                    }
                },
                None => {},
            }
            if referenced_as_exec(js, &f.name, true) {
                return Some(concat3("File '", name, "' sets `identifier` but is referenced as an output of some job. RO-Crate identifiers are only honored for input files; the output completion path always resets `entity_id` to the file path and would silently overwrite the identifier. Remove the identifier, or restructure so this file is only an input."));
            }
            let is_input = f.st_mtime_bits.is_some() || referenced_as_exec(js, &f.name, false);
            if !is_input {
                return Some(concat3("File '", name, "' sets `identifier` but is not referenced by any job's `input_files` / `input_file_regexes` and has no pre-existing `st_mtime`. Identifiers attach to input entities, so this would create a dangling RO-Crate row. Either reference it as a job input or remove the identifier."));
            }
            None
        },
    }
}

impl WorkflowSpec {
    /// Checks the RO-Crate identifiers of the files: they need
    /// `enable_ro_crate: true`, must not be blank, reserved, or another
    /// file's path, and may only stand on files that jobs read and none
    /// writes (or that exist already). Reports the first problem found.
    pub fn validate_file_identifiers(&self) -> (r: Result<(), String>)
        ensures
            match r {
                Ok(()) => identifiers_verdict(*self) is Ok,
                Err(m) => identifiers_verdict(*self) == Err::<(), Seq<char>>(m@),
            },
    {
        let fs = match &self.files {
            Some(fs) => fs,
            None => {
                return Ok(());
            },
        };
        let mut k: usize = 0;
        while k < fs.len() && fs[k].identifier.is_none()
            invariant
                k <= fs.len(),
                first_identified_from(fs@, 0) == first_identified_from(fs@, k as int),
            decreases fs.len() - k,
        {
            k = k + 1;
        }
        if k == fs.len() {
            return Ok(());
        }
        let enabled = match self.enable_ro_crate {
            Some(b) => b,
            None => false,
        };
        if !enabled {
            return Err(concat3("File '", fs[k].name.as_str(), "' sets `identifier` but the workflow does not have `enable_ro_crate: true`. Stable RO-Crate identifiers only have effect when automatic RO-Crate provenance is enabled; set `enable_ro_crate: true` at the workflow level or remove the identifier."));
        }
        let paths = path_pairs_exec(fs);
        let mut i: usize = 0;
        while i < fs.len()
            invariant
                i <= fs.len(),
                paths@.map_values(|p: (String, String)| (p.0@, p.1@)) == path_pairs(fs@),
                identifier_issue_from(self.jobs@, fs@, 0) == identifier_issue_from(self.jobs@, fs@, i as int),
                self.files == Some(*fs),
                self.enable_ro_crate == Some(true),
                first_identified_from(fs@, 0) is Some,
            decreases fs.len() - i,
        {
            match identifier_issue_exec(&self.jobs, fs, &paths, &fs[i]) {
                Some(m) => {
                    return Err(m);
                },
                None => {},
            }
            i = i + 1;
        }
        Ok(())
    }
}

// ---------------------------------------------------------------------------
// Node counts on multi-node schedulers
// ---------------------------------------------------------------------------

/// The node count of the last resource requirements named `name`.
pub open spec fn requirement_nodes(rrs: Seq<ResourceRequirementsSpec>, name: Seq<char>) -> Option<i64>
    decreases rrs.len(),
{
    if rrs.len() == 0 {
        None
    } else if rrs.last().name@ == name {
        Some(rrs.last().num_nodes)
    } else {
        requirement_nodes(rrs.drop_last(), name)
    }
}

/// The node count of the last scheduler named `name`.
pub open spec fn scheduler_nodes(ss: Seq<SlurmSchedulerSpec>, name: Seq<char>) -> Option<i64>
    decreases ss.len(),
{
    if ss.len() == 0 {
        None
    } else if ss.last().name matches Some(n) && n@ == name {
        Some(ss.last().nodes)
    } else {
        scheduler_nodes(ss.drop_last(), name)
    }
}

pub open spec fn has_named_scheduler(ss: Seq<SlurmSchedulerSpec>) -> bool {
    exists|k: int| 0 <= k < ss.len() && (#[trigger] ss[k]).name is Some
}

/// The nodes a job asks for: those of its resource requirements, else one.
pub open spec fn job_node_count(rrs: Seq<ResourceRequirementsSpec>, j: JobSpec) -> int {
    match j.resource_requirements {
        Some(r) => match requirement_nodes(rrs, r@) {
            Some(n) => n as int,
            None => 1,
        },
        None => 1,
    }
}

pub open spec fn runs_on(j: JobSpec, scheduler: Seq<char>) -> bool {
    j.scheduler matches Some(s) && s@ == scheduler
}

/// The jobs on `scheduler` that ask for more than one node, but not `nodes`.
pub open spec fn mismatched_jobs(
    js: Seq<JobSpec>,
    rrs: Seq<ResourceRequirementsSpec>,
    scheduler: Seq<char>,
    nodes: int,
) -> Seq<Seq<char>>
    decreases js.len(),
{
    if js.len() == 0 {
        Seq::empty()
    } else {
        let rest = mismatched_jobs(js.drop_last(), rrs, scheduler, nodes);
        let j = js.last();
        let n = job_node_count(rrs, j);
        if runs_on(j, scheduler) && n > 1 && n != nodes {
            rest.push(j.name@)
        } else {
            rest
        }
    }
}

pub open spec fn node_mismatch_message(scheduler: Seq<char>, nodes: int, jobs: Seq<Seq<char>>) -> Seq<char> {
    "Scheduler '"@ + scheduler + "' allocates "@ + int_text(nodes) + " nodes but jobs ("@ + join(jobs, ", "@)
        + ") request a different multi-node count in their resource requirements. Set num_nodes="@
        + int_text(nodes)
        + " on job resource requirements to match the scheduler, or use num_nodes=1 for single-node jobs."@
}

pub open spec fn rrs_of(w: WorkflowSpec) -> Seq<ResourceRequirementsSpec> {
    match w.resource_requirements {
        Some(v) => v@,
        None => Seq::empty(),
    }
}

pub open spec fn schedulers_of(w: WorkflowSpec) -> Seq<SlurmSchedulerSpec> {
    match w.slurm_schedulers {
        Some(v) => v@,
        None => Seq::empty(),
    }
}

/// What the node check reports of one action.
pub open spec fn action_node_error(w: WorkflowSpec, a: WorkflowActionSpec) -> Option<Seq<char>> {
    if a.action_type@ != "schedule_nodes"@ {
        None
    } else {
        match a.scheduler {
            None => None,
            Some(sn) => {
                let slurm = a.scheduler_type matches Some(t) && t@ == "slurm"@;
                if !slurm {
                    None
                } else {
                    match scheduler_nodes(schedulers_of(w), sn@) {
                        None => None,
                        Some(nodes) => {
                            let mm = mismatched_jobs(w.jobs@, rrs_of(w), sn@, nodes as int);
                            if nodes <= 1 || mm.len() == 0 {
                                None
                            } else {
                                Some(node_mismatch_message(sn@, nodes as int, mm))
                            }
                        },
                    }
                }
            },
        }
    }
}

/// What the node check reports of each action, in order.
pub open spec fn node_errors(w: WorkflowSpec, acts: Seq<WorkflowActionSpec>) -> Seq<Seq<char>>
    decreases acts.len(),
{
    if acts.len() == 0 {
        Seq::empty()
    } else {
        let rest = node_errors(w, acts.drop_last());
        match action_node_error(w, acts.last()) {
            Some(m) => rest.push(m),
            None => rest,
        }
    }
}

/// What the check of scheduler node requirements says of a workflow.
pub open spec fn node_verdict(w: WorkflowSpec) -> Result<(), Seq<char>> {
    if !has_named_scheduler(schedulers_of(w)) {
        Ok(())
    } else {
        match w.actions {
            None => Ok(()),
            Some(acts) => {
                let errs = node_errors(w, acts@);
                if errs.len() == 0 {
                    Ok(())
                } else {
                    Err("Scheduler node validation failed:\n  - "@ + join(errs, "\n  - "@))
                }
            },
        }
    }
}

fn requirement_nodes_exec(rrs: &Vec<ResourceRequirementsSpec>, name: &String) -> (r: Option<i64>)
    ensures
        r == requirement_nodes(rrs@, name@),
{
    let nv = chars_of(name.as_str());
    let mut i: usize = rrs.len();
    proof {
        assert(rrs@.take(rrs.len() as int) =~= rrs@);
    }
    while i > 0
        invariant
            i <= rrs.len(),
            nv@ == name@,
            requirement_nodes(rrs@, name@) == requirement_nodes(rrs@.take(i as int), name@),
        decreases i,
    {
        proof {
            assert(rrs@.take(i as int).drop_last() =~= rrs@.take(i - 1));
            assert(rrs@.take(i as int).last() == rrs@[i - 1]);
        }
        if chars_eq(&chars_of(rrs[i - 1].name.as_str()), &nv) {
            return Some(rrs[i - 1].num_nodes);
        }
        i = i - 1;
    }
    None
}

fn scheduler_nodes_exec(ss: &Vec<SlurmSchedulerSpec>, name: &String) -> (r: Option<i64>)
    ensures
        r == scheduler_nodes(ss@, name@),
{
    let nv = chars_of(name.as_str());
    let mut i: usize = ss.len();
    proof {
        assert(ss@.take(ss.len() as int) =~= ss@);
    }
    while i > 0
        invariant
            i <= ss.len(),
            nv@ == name@,
            scheduler_nodes(ss@, name@) == scheduler_nodes(ss@.take(i as int), name@),
        decreases i,
    {
        proof {
            assert(ss@.take(i as int).drop_last() =~= ss@.take(i - 1));
            assert(ss@.take(i as int).last() == ss@[i - 1]);
        }
        match &ss[i - 1].name {
            Some(n) => {
                if chars_eq(&chars_of(n.as_str()), &nv) {
                    return Some(ss[i - 1].nodes);
                }
            },
            None => {},
        }
        i = i - 1;
    }
    None
}

fn opt_str_is(o: &Option<String>, lit: &str) -> (b: bool)
    ensures
        b == (o matches Some(t) && t@ == lit@),
{
    match o {
        Some(t) => chars_eq(&chars_of(t.as_str()), &chars_of(lit)),
        None => false,
    }
}

fn mismatched_jobs_exec(js: &Vec<JobSpec>, rrs: &Vec<ResourceRequirementsSpec>, scheduler: &String, nodes: i64) -> (r: Vec<String>)
    ensures
        strs_view(r@) == mismatched_jobs(js@, rrs@, scheduler@, nodes as int),
{
    let mut r: Vec<String> = Vec::new();
    let mut i: usize = 0;
    proof {
        assert(strs_view(r@) =~= mismatched_jobs(js@.take(0), rrs@, scheduler@, nodes as int));
    }
    while i < js.len()
        invariant
            i <= js.len(),
            strs_view(r@) == mismatched_jobs(js@.take(i as int), rrs@, scheduler@, nodes as int),
        decreases js.len() - i,
    {
        proof {
            assert(js@.take(i + 1).drop_last() =~= js@.take(i as int));
            assert(js@.take(i + 1).last() == js@[i as int]);
        }
        let j = &js[i];
        if opt_str_is(&j.scheduler, scheduler.as_str()) {
            let n: i64 = match &j.resource_requirements {
                Some(rn) => match requirement_nodes_exec(rrs, rn) {
                    Some(k) => k,
                    None => 1,
                },
                None => 1,
            };
            if n > 1 && n != nodes {
                let c = copy_string(&j.name);
                let ghost prev = r@;
                r.push(c);
                proof {
                    assert(r@ == prev.push(c));
                    assert(strs_view(r@) =~= strs_view(prev).push(c@));
                }
            }
        }
        i = i + 1;
    }
    proof {
        assert(js@.take(js.len() as int) =~= js@);
    }
    r
}

fn action_node_error_exec(w: &WorkflowSpec, a: &WorkflowActionSpec) -> (r: Option<String>)
    ensures
        match r {
            Some(m) => action_node_error(*w, *a) == Some(m@),
            None => action_node_error(*w, *a) is None,
        },
{
    if !chars_eq(&chars_of(a.action_type.as_str()), &chars_of("schedule_nodes")) {
        return None;
    }
    let sn = match &a.scheduler {
        Some(sn) => sn,
        None => {
            return None;
        },
    };
    if !opt_str_is(&a.scheduler_type, "slurm") {
        return None;
    }
    let empty_ss: Vec<SlurmSchedulerSpec> = Vec::new();
    let ss = match &w.slurm_schedulers {
        Some(v) => v,
        None => &empty_ss,
    };
    let nodes = match scheduler_nodes_exec(ss, sn) {
        Some(n) => n,
        None => {
            return None;
        },
    };
    let empty_rrs: Vec<ResourceRequirementsSpec> = Vec::new();
    let rrs = match &w.resource_requirements {
        Some(v) => v,
        None => &empty_rrs,
    };
    let mm = mismatched_jobs_exec(&w.jobs, rrs, sn, nodes);
    if nodes <= 1 || mm.len() == 0 {
        proof {
            assert(strs_view(mm@).len() == mm@.len());
        }
        return None;
    }
    let nt = i64_to_string(nodes);
    let listed = join_strings(&mm, ", ");
    let mut out = chars_of("Scheduler '");
    extend_str(&mut out, sn.as_str());
    extend_str(&mut out, "' allocates ");
    extend_str(&mut out, nt.as_str());
    extend_str(&mut out, " nodes but jobs (");
    extend_str(&mut out, listed.as_str());
    extend_str(&mut out, ") request a different multi-node count in their resource requirements. Set num_nodes=");
    extend_str(&mut out, nt.as_str());
    extend_str(&mut out, " on job resource requirements to match the scheduler, or use num_nodes=1 for single-node jobs.");
    proof {
        assert(mm@.map_values(|s: String| s@) =~= strs_view(mm@));
        assert(out@ =~= node_mismatch_message(sn@, nodes as int, strs_view(mm@)));
    }
    Some(string_of(&out))
}

impl WorkflowSpec {
    /// Checks that the jobs on each multi-node Slurm scheduler that a
    /// `schedule_nodes` action submits ask either for one node or for all of
    /// the scheduler's nodes; lists every scheduler where some job does not.
    pub fn validate_scheduler_node_requirements(&self) -> (r: Result<(), String>)
        ensures
            match r {
                Ok(()) => node_verdict(*self) is Ok,
                Err(m) => node_verdict(*self) == Err::<(), Seq<char>>(m@),
            },
    {
        let mut named = false;
        match &self.slurm_schedulers {
            Some(ss) => {
                let mut k: usize = 0;
                while k < ss.len() && ss[k].name.is_none()
                    invariant
                        k <= ss.len(),
                        forall|m: int| 0 <= m < k ==> (#[trigger] ss@[m]).name is None,
                    decreases ss.len() - k,
                {
                    k = k + 1;
                }
                named = k < ss.len();
                proof {
                    if !named {
                        assert(!has_named_scheduler(ss@));
                    } else {
                        assert(ss@[k as int].name is Some);
                        assert(has_named_scheduler(ss@));
                    }
                    assert(named == has_named_scheduler(schedulers_of(*self)));
                }
            },
            None => {
                proof {
                    assert(!has_named_scheduler(schedulers_of(*self)));
                }
            },
        }
        if !named {
            return Ok(());
        }
        let acts = match &self.actions {
            Some(a) => a,
            None => {
                return Ok(());
            },
        };
        let mut errs: Vec<String> = Vec::new();
        let mut i: usize = 0;
        proof {
            assert(strs_view(errs@) =~= node_errors(*self, acts@.take(0)));
        }
        while i < acts.len()
            invariant
                i <= acts.len(),
                strs_view(errs@) == node_errors(*self, acts@.take(i as int)),
                self.actions == Some(*acts),
                has_named_scheduler(schedulers_of(*self)),
            decreases acts.len() - i,
        {
            proof {
                assert(acts@.take(i + 1).drop_last() =~= acts@.take(i as int));
                assert(acts@.take(i + 1).last() == acts@[i as int]);
            }
            match action_node_error_exec(self, &acts[i]) {
                Some(m) => {
                    let ghost prev = errs@;
                    errs.push(m);
                    proof {
                        assert(errs@ == prev.push(m));
                        assert(strs_view(errs@) =~= strs_view(prev).push(m@));
                    }
                },
                None => {},
            }
            i = i + 1;
        }
        proof {
            assert(acts@.take(acts.len() as int) =~= acts@);
            assert(strs_view(errs@).len() == errs@.len());
        }
        if errs.len() == 0 {
            return Ok(());
        }
        let body = join_strings(&errs, "\n  - ");
        proof {
            assert(errs@.map_values(|s: String| s@) =~= strs_view(errs@));
        }
        Err(concat2("Scheduler node validation failed:\n  - ", body.as_str()))
    }
}

} // verus!
