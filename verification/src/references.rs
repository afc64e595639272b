//! References to files and user data in job commands:
//! `${files.input.NAME}`, `${files.output.NAME}`, `${user_data.input.NAME}`
//! and `${user_data.output.NAME}`.
//!
//! A reference to a file becomes the file's path, one to user data becomes
//! the data as compact JSON; the names referenced are collected, each once,
//! as the job's inputs and outputs. A reference to an unknown name is left
//! as written.

use vstd::prelude::*;

use crate::json::{json_text, to_json_text};
use crate::sorted::{insert_sorted_exec, sorted_unique};
use crate::templates::{close_index, lemma_close_index};
use crate::text::{chars_eq, chars_of, copy_string, extend_chars, slice_chars, string_of};
use crate::workflow::WorkflowSpec;
use crate::workflow_spec::{opt_strs_view, strs_view, FileSpec, JobSpec, JobSpecView, UserDataSpec};
use crate::parameters::{first_index_exec, lemma_first_index};

verus! {

/// Whether `p` occurs in `s` at position `i`.
pub open spec fn starts_with_at(s: Seq<char>, i: int, p: Seq<char>) -> bool {
    0 <= i && i + p.len() <= s.len() && s.subrange(i, i + p.len()) == p
}

/// A reference found in a text.
pub struct Reference {
    /// A file (else user data).
    pub is_file: bool,
    /// An input (else an output).
    pub is_input: bool,
    pub name: Seq<char>,
    /// Where the text after the reference starts.
    pub end: int,
}

/// The reference that starts at position `i`, if one does.
pub open spec fn reference_at(s: Seq<char>, i: int) -> Option<Reference> {
    if !starts_with_at(s, i, "${"@) {
        None
    } else {
        let j = i + "${"@.len();
        let ns: Option<(bool, int)> = if starts_with_at(s, j, "files."@) {
            Some((true, j + "files."@.len()))
        } else if starts_with_at(s, j, "user_data."@) {
            Some((false, j + "user_data."@.len()))
        } else {
            None
        };
        match ns {
            None => None,
            Some((is_file, k)) => {
                let d: Option<(bool, int)> = if starts_with_at(s, k, "input."@) {
                    Some((true, k + "input."@.len()))
                } else if starts_with_at(s, k, "output."@) {
                    Some((false, k + "output."@.len()))
                } else {
                    None
                };
                match d {
                    None => None,
                    Some((is_input, n)) => {
                        let e = close_index(s, n);
                        if n < e && e < s.len() {
                            Some(Reference { is_file, is_input, name: s.subrange(n, e), end: e + 1 })
                        } else {
                            None
                        }
                    },
                }
            },
        }
    }
}

/// The value bound to the last entry named `k`.
pub open spec fn last_lookup(m: Seq<(Seq<char>, Seq<char>)>, k: Seq<char>) -> Option<Seq<char>>
    decreases m.len(),
{
    if m.len() == 0 {
        None
    } else if m.last().0 == k {
        Some(m.last().1)
    } else {
        last_lookup(m.drop_last(), k)
    }
}

pub open spec fn push_unique(v: Seq<Seq<char>>, n: Seq<char>) -> Seq<Seq<char>> {
    if v.contains(n) {
        v
    } else {
        v.push(n)
    }
}

/// A text with its references resolved, and the names referenced.
pub struct Extraction {
    pub text: Seq<char>,
    pub input_files: Seq<Seq<char>>,
    pub output_files: Seq<Seq<char>>,
    pub input_user_data: Seq<Seq<char>>,
    pub output_user_data: Seq<Seq<char>>,
}

/// `acc` continued with the text of `s` from position `i`.
pub open spec fn extract_from(
    s: Seq<char>,
    i: int,
    files: Seq<(Seq<char>, Seq<char>)>,
    data: Seq<(Seq<char>, Seq<char>)>,
    acc: Extraction,
) -> Extraction
    decreases s.len() - i,
{
    if i < 0 || i >= s.len() {
        acc
    } else {
        match reference_at(s, i) {
            None => extract_from(s, i + 1, files, data, Extraction { text: acc.text.push(s[i]), ..acc }),
            Some(r) => if r.end <= i {
                acc
            } else {
                let raw = s.subrange(i, r.end);
                if r.is_file {
                    match last_lookup(files, r.name) {
                        Some(path) => extract_from(
                            s,
                            r.end,
                            files,
                            data,
                            if r.is_input {
                                Extraction {
                                    text: acc.text + path,
                                    input_files: push_unique(acc.input_files, r.name),
                                    ..acc
                                }
                            } else {
                                Extraction {
                                    text: acc.text + path,
                                    output_files: push_unique(acc.output_files, r.name),
                                    ..acc
                                }
                            },
                        ),
                        None => extract_from(s, r.end, files, data, Extraction { text: acc.text + raw, ..acc }),
                    }
                } else {
                    match last_lookup(data, r.name) {
                        Some(t) => extract_from(
                            s,
                            r.end,
                            files,
                            data,
                            if r.is_input {
                                Extraction {
                                    text: acc.text + t,
                                    input_user_data: push_unique(acc.input_user_data, r.name),
                                    ..acc
                                }
                            } else {
                                Extraction {
                                    text: acc.text + t,
                                    output_user_data: push_unique(acc.output_user_data, r.name),
                                    ..acc
                                }
                            },
                        ),
                        None => extract_from(s, r.end, files, data, Extraction { text: acc.text + raw, ..acc }),
                    }
                }
            },
        }
    }
}

pub open spec fn empty_extraction() -> Extraction {
    Extraction {
        text: Seq::empty(),
        input_files: Seq::empty(),
        output_files: Seq::empty(),
        input_user_data: Seq::empty(),
        output_user_data: Seq::empty(),
    }
}

/// A text with its references resolved against the file paths and the
/// user data texts, and the names it references.
pub open spec fn extract(
    s: Seq<char>,
    files: Seq<(Seq<char>, Seq<char>)>,
    data: Seq<(Seq<char>, Seq<char>)>,
) -> Extraction {
    extract_from(s, 0, files, data, empty_extraction())
}

pub proof fn lemma_reference_end(s: Seq<char>, i: int)
    requires
        0 <= i < s.len(),
    ensures
        reference_at(s, i) matches Some(r) ==> i < r.end <= s.len(),
{
    if let Some(r) = reference_at(s, i) {
        let j = i + "${"@.len();
        assert(starts_with_at(s, i, "${"@));
        let k: int = if starts_with_at(s, j, "files."@) {
            j + "files."@.len()
        } else {
            j + "user_data."@.len()
        };
        let n: int = if starts_with_at(s, k, "input."@) {
            k + "input."@.len()
        } else {
            k + "output."@.len()
        };
        assert(n <= s.len());
        lemma_close_index(s, n);
    }
}

// ---------------------------------------------------------------------------
// Scanning
// ---------------------------------------------------------------------------

fn starts_with_at_exec(s: &Vec<char>, i: usize, p: &Vec<char>) -> (b: bool)
    ensures
        b == starts_with_at(s@, i as int, p@),
{
    if p.len() > s.len() || i > s.len() - p.len() {
        return false;
    }
    let seg = slice_chars(s, i, i + p.len());
    chars_eq(&seg, p)
}

/// The exec form of a reference: namespace, direction, name, end.
fn reference_at_exec(s: &Vec<char>, i: usize) -> (r: Option<(bool, bool, Vec<char>, usize)>)
    requires
        i < s.len(),
    ensures
        match r {
            Some((f, inp, name, end)) => reference_at(s@, i as int) == Some(
                Reference { is_file: f, is_input: inp, name: name@, end: end as int },
            ),
            None => reference_at(s@, i as int) is None,
        },
{
    let open = chars_of("${");
    if !starts_with_at_exec(s, i, &open) {
        return None;
    }
    let j = i + open.len();
    let files = chars_of("files.");
    let uds = chars_of("user_data.");
    let (is_file, k) = if starts_with_at_exec(s, j, &files) {
        (true, j + files.len())
    } else if starts_with_at_exec(s, j, &uds) {
        (false, j + uds.len())
    } else {
        return None;
    };
    let inp = chars_of("input.");
    let outp = chars_of("output.");
    let (is_input, n) = if starts_with_at_exec(s, k, &inp) {
        (true, k + inp.len())
    } else if starts_with_at_exec(s, k, &outp) {
        (false, k + outp.len())
    } else {
        return None;
    };
    let rest = slice_chars(s, n, s.len());
    let rel = first_index_exec(&rest, '}');
    proof {
        assert(rest@ =~= s@.skip(n as int));
        lemma_close_index(s@, n as int);
    }
    let e = n + rel;
    if n < e && e < s.len() {
        let name = slice_chars(s, n, e);
        Some((is_file, is_input, name, e + 1))
    } else {
        None
    }
}

/// The position of the last entry named `k`.
pub(crate) fn last_lookup_exec(m: &Vec<(String, String)>, k: &Vec<char>) -> (r: Option<usize>)
    ensures
        match r {
            Some(i) => i < m.len() && last_lookup(
                m@.map_values(|p: (String, String)| (p.0@, p.1@)),
                k@,
            ) == Some(m@[i as int].1@),
            None => last_lookup(m@.map_values(|p: (String, String)| (p.0@, p.1@)), k@) is None,
        },
{
    let ghost mv = m@.map_values(|p: (String, String)| (p.0@, p.1@));
    let mut i: usize = m.len();
    proof {
        assert(mv.take(m.len() as int) =~= mv);
    }
    while i > 0
        invariant
            i <= m.len(),
            mv == m@.map_values(|p: (String, String)| (p.0@, p.1@)),
            last_lookup(mv, k@) == last_lookup(mv.take(i as int), k@),
        decreases i,
    {
        let name = chars_of(m[i - 1].0.as_str());
        proof {
            assert(mv.take(i as int).last() == (m@[i - 1].0@, m@[i - 1].1@));
            assert(mv.take(i as int).drop_last() =~= mv.take(i - 1));
        }
        if chars_eq(&name, k) {
            return Some(i - 1);
        }
        i = i - 1;
    }
    None
}

fn push_unique_exec(v: &mut Vec<String>, n: &Vec<char>)
    ensures
        strs_view(final(v)@) == push_unique(strs_view(old(v)@), n@),
{
    let mut i: usize = 0;
    while i < v.len()
        invariant
            i <= v.len(),
            forall|k: int| 0 <= k < i ==> v@[k]@ != n@,
        decreases v.len() - i,
    {
        if chars_eq(&chars_of(v[i].as_str()), n) {
            proof {
                assert(strs_view(v@)[i as int] == n@);
            }
            return;
        }
        i = i + 1;
    }
    proof {
        assert(!strs_view(v@).contains(n@)) by {
            if strs_view(v@).contains(n@) {
                let k = choose|k: int| 0 <= k < strs_view(v@).len() && strs_view(v@)[k] == n@;
                assert(v@[k]@ == n@);
            }
        }
    }
    let ghost before = strs_view(v@);
    v.push(string_of(n));
    proof {
        assert(strs_view(v@) =~= before.push(n@));
    }
}

pub open spec fn pairs_view(m: Seq<(String, String)>) -> Seq<(Seq<char>, Seq<char>)> {
    m.map_values(|p: (String, String)| (p.0@, p.1@))
}

/// The text of `input` with its references resolved, and the names it
/// references, each once, in the order first referenced: input files,
/// output files, input user data, output user data.
pub fn substitute_and_extract(
    input: &str,
    file_paths: &Vec<(String, String)>,
    user_data_texts: &Vec<(String, String)>,
) -> (r: (String, Vec<String>, Vec<String>, Vec<String>, Vec<String>))
    ensures
        r.0@ == extract(input@, pairs_view(file_paths@), pairs_view(user_data_texts@)).text,
        strs_view(r.1@) == extract(input@, pairs_view(file_paths@), pairs_view(user_data_texts@)).input_files,
        strs_view(r.2@) == extract(input@, pairs_view(file_paths@), pairs_view(user_data_texts@)).output_files,
        strs_view(r.3@) == extract(input@, pairs_view(file_paths@), pairs_view(user_data_texts@)).input_user_data,
        strs_view(r.4@) == extract(input@, pairs_view(file_paths@), pairs_view(user_data_texts@)).output_user_data,
{
    let s = chars_of(input);
    let ghost fv = pairs_view(file_paths@);
    let ghost dv = pairs_view(user_data_texts@);
    let mut text: Vec<char> = Vec::new();
    let mut in_f: Vec<String> = Vec::new();
    let mut out_f: Vec<String> = Vec::new();
    let mut in_d: Vec<String> = Vec::new();
    let mut out_d: Vec<String> = Vec::new();
    let mut i: usize = 0;
    proof {
        assert(strs_view(in_f@) =~= Seq::<Seq<char>>::empty());
        assert(strs_view(out_f@) =~= Seq::<Seq<char>>::empty());
        assert(strs_view(in_d@) =~= Seq::<Seq<char>>::empty());
        assert(strs_view(out_d@) =~= Seq::<Seq<char>>::empty());
        assert(text@ =~= Seq::<char>::empty());
    }
    while i < s.len()
        invariant
            i <= s.len(),
            s@ == input@,
            fv == pairs_view(file_paths@),
            dv == pairs_view(user_data_texts@),
            extract(input@, fv, dv) == extract_from(
                s@,
                i as int,
                fv,
                dv,
                Extraction {
                    text: text@,
                    input_files: strs_view(in_f@),
                    output_files: strs_view(out_f@),
                    input_user_data: strs_view(in_d@),
                    output_user_data: strs_view(out_d@),
                },
            ),
        decreases s.len() - i,
    {
        proof {
            lemma_reference_end(s@, i as int);
        }
        match reference_at_exec(&s, i) {
            None => {
                text.push(s[i]);
                i = i + 1;
            },
            Some((is_file, is_input, name, end)) => {
                let raw = slice_chars(&s, i, end);
                if is_file {
                    match last_lookup_exec(file_paths, &name) {
                        Some(k) => {
                            let path = chars_of(file_paths[k].1.as_str());
                            extend_chars(&mut text, &path);
                            if is_input {
                                push_unique_exec(&mut in_f, &name);
                            } else {
                                push_unique_exec(&mut out_f, &name);
                            }
                        },
                        None => {
                            extend_chars(&mut text, &raw);
                        },
                    }
                } else {
                    match last_lookup_exec(user_data_texts, &name) {
                        Some(k) => {
                            let t = chars_of(user_data_texts[k].1.as_str());
                            extend_chars(&mut text, &t);
                            if is_input {
                                push_unique_exec(&mut in_d, &name);
                            } else {
                                push_unique_exec(&mut out_d, &name);
                            }
                        },
                        None => {
                            extend_chars(&mut text, &raw);
                        },
                    }
                }
                i = end;
            },
        }
    }
    (string_of(&text), in_f, out_f, in_d, out_d)
}

// ---------------------------------------------------------------------------
// Resolving the references of a workflow's jobs
// ---------------------------------------------------------------------------

/// The path of each file by name, in the order of the files.
pub open spec fn file_paths_of(files: Option<Vec<FileSpec>>) -> Seq<(Seq<char>, Seq<char>)> {
    match files {
        Some(v) => v@.map_values(|f: FileSpec| (f.name@, f.path@)),
        None => Seq::empty(),
    }
}

/// The compact JSON text of each named user data record that has data.
pub open spec fn data_texts(uds: Seq<UserDataSpec>) -> Seq<(Seq<char>, Seq<char>)>
    decreases uds.len(),
{
    if uds.len() == 0 {
        Seq::empty()
    } else {
        let rest = data_texts(uds.drop_last());
        let u = uds.last();
        match (u.name, u.data) {
            (Some(n), Some(d)) => rest.push((n@, json_text(d))),
            _ => rest,
        }
    }
}

pub open spec fn data_texts_of(uds: Option<Vec<UserDataSpec>>) -> Seq<(Seq<char>, Seq<char>)> {
    match uds {
        Some(v) => data_texts(v@),
        None => Seq::empty(),
    }
}

/// The names found, where there are any; else the list as it was.
pub open spec fn set_if_any(existing: Option<Seq<Seq<char>>>, found: Seq<Seq<char>>) -> Option<Seq<Seq<char>>> {
    if found.len() == 0 {
        existing
    } else {
        Some(found)
    }
}

/// The list joined with the names found, sorted, each name once, where
/// any were found; else the list as it was.
pub open spec fn merged(existing: Option<Seq<Seq<char>>>, found: Seq<Seq<char>>) -> Option<Seq<Seq<char>>> {
    if found.len() == 0 {
        existing
    } else {
        Some(
            sorted_unique(
                match existing {
                    Some(e) => e,
                    None => Seq::empty(),
                } + found,
            ),
        )
    }
}

/// A job with the references of its command resolved and recorded.
pub open spec fn command_resolved(
    j: JobSpecView,
    files: Seq<(Seq<char>, Seq<char>)>,
    data: Seq<(Seq<char>, Seq<char>)>,
) -> JobSpecView {
    let c = extract(j.command, files, data);
    JobSpecView {
        command: c.text,
        input_files: set_if_any(j.input_files, c.input_files),
        output_files: set_if_any(j.output_files, c.output_files),
        input_user_data: set_if_any(j.input_user_data, c.input_user_data),
        output_user_data: set_if_any(j.output_user_data, c.output_user_data),
        ..j
    }
}

/// A job with the references of its command, then of its invocation
/// script, resolved and recorded.
pub open spec fn job_resolved(
    j: JobSpecView,
    files: Seq<(Seq<char>, Seq<char>)>,
    data: Seq<(Seq<char>, Seq<char>)>,
) -> JobSpecView {
    let a = command_resolved(j, files, data);
    match j.invocation_script {
        None => a,
        Some(script) => {
            let e = extract(script, files, data);
            JobSpecView {
                invocation_script: Some(e.text),
                input_files: merged(a.input_files, e.input_files),
                output_files: merged(a.output_files, e.output_files),
                input_user_data: merged(a.input_user_data, e.input_user_data),
                output_user_data: merged(a.output_user_data, e.output_user_data),
                ..a
            }
        },
    }
}

fn set_found(slot: &mut Option<Vec<String>>, found: Vec<String>)
    ensures
        opt_strs_view(*final(slot)) == set_if_any(opt_strs_view(*old(slot)), strs_view(found@)),
{
    if found.len() > 0 {
        *slot = Some(found);
    }
}

fn merge_found(slot: &mut Option<Vec<String>>, found: Vec<String>)
    ensures
        opt_strs_view(*final(slot)) == merged(opt_strs_view(*old(slot)), strs_view(found@)),
{
    if found.len() == 0 {
        return;
    }
    let mut all: Vec<String> = Vec::new();
    match slot {
        Some(v) => {
            let mut i: usize = 0;
            while i < v.len()
                invariant
                    i <= v.len(),
                    strs_view(all@) == strs_view(v@).take(i as int),
                decreases v.len() - i,
            {
                let c = copy_string(&v[i]);
                let ghost prev = all@;
                all.push(c);
                proof {
                    assert(all@ == prev.push(c));
                    assert(strs_view(all@) =~= strs_view(prev).push(c@));
                    assert(strs_view(all@) =~= strs_view(v@).take(i + 1));
                }
                i = i + 1;
            }
        },
        None => {},
    }
    let ghost base = strs_view(all@);
    proof {
        assert(base =~= match opt_strs_view(*slot) {
            Some(e) => e,
            None => Seq::<Seq<char>>::empty(),
        });
    }
    let mut j: usize = 0;
    while j < found.len()
        invariant
            j <= found.len(),
            strs_view(all@) == base + strs_view(found@).take(j as int),
        decreases found.len() - j,
    {
        let c = copy_string(&found[j]);
        let ghost prev = all@;
        all.push(c);
        proof {
            assert(all@ == prev.push(c));
            assert(strs_view(all@) =~= strs_view(prev).push(c@));
            assert(strs_view(all@) =~= base + strs_view(found@).take(j + 1));
        }
        j = j + 1;
    }
    proof {
        assert(strs_view(found@).take(found.len() as int) =~= strs_view(found@));
    }
    let ghost everything = strs_view(all@);
    let mut out: Vec<String> = Vec::new();
    let mut k: usize = 0;
    proof {
        assert(strs_view(out@) =~= sorted_unique(everything.take(0)));
    }
    while k < all.len()
        invariant
            k <= all.len(),
            everything == strs_view(all@),
            strs_view(out@) == sorted_unique(everything.take(k as int)),
        decreases all.len() - k,
    {
        proof {
            assert(everything.take(k + 1).drop_last() =~= everything.take(k as int));
        }
        insert_sorted_exec(&mut out, copy_string(&all[k]));
        k = k + 1;
    }
    proof {
        assert(everything.take(all.len() as int) =~= everything);
    }
    *slot = Some(out);
}

/// Resolves the references of one job.
fn resolve_job_references(
    job: &mut JobSpec,
    file_paths: &Vec<(String, String)>,
    user_data_texts: &Vec<(String, String)>,
)
    ensures
        final(job)@ == job_resolved(old(job)@, pairs_view(file_paths@), pairs_view(user_data_texts@)),
{
    let ghost j0 = job@;
    let (cmd, inf, outf, ind, outd) = substitute_and_extract(job.command.as_str(), file_paths, user_data_texts);
    job.command = cmd;
    set_found(&mut job.input_files, inf);
    set_found(&mut job.output_files, outf);
    set_found(&mut job.input_user_data, ind);
    set_found(&mut job.output_user_data, outd);
    proof {
        assert(job@ == command_resolved(j0, pairs_view(file_paths@), pairs_view(user_data_texts@)));
    }
    let script = match &job.invocation_script {
        Some(s) => Some(copy_string(s)),
        None => None,
    };
    match script {
        Some(s) => {
            let (text, sinf, soutf, sind, soutd) = substitute_and_extract(s.as_str(), file_paths, user_data_texts);
            job.invocation_script = Some(text);
            merge_found(&mut job.input_files, sinf);
            merge_found(&mut job.output_files, soutf);
            merge_found(&mut job.input_user_data, sind);
            merge_found(&mut job.output_user_data, soutd);
        },
        None => {},
    }
}

/// `after` is `before` with the references of every job resolved.
pub open spec fn substituted_as(before: WorkflowSpec, after: WorkflowSpec) -> bool {
    &&& after.jobs.len() == before.jobs.len()
    &&& forall|k: int|
        0 <= k < before.jobs.len() ==> #[trigger] after.jobs@[k]@ == job_resolved(
            before.jobs@[k]@,
            file_paths_of(before.files),
            data_texts_of(before.user_data),
        )
    &&& (WorkflowSpec { jobs: before.jobs, ..after }) == before
}

impl WorkflowSpec {
    /// Resolves `${files.input.NAME}`, `${files.output.NAME}`,
    /// `${user_data.input.NAME}` and `${user_data.output.NAME}` in every
    /// job's command and invocation script: a file becomes its path, user
    /// data its data as compact JSON, and the names referenced become the
    /// job's input and output files and user data. Names referenced by the
    /// command replace the job's lists; those of the invocation script are
    /// joined to them, sorted, each once.
    pub fn substitute_variables(&mut self) -> (r: Result<(), String>)
        ensures
            r is Ok,
            substituted_as(*old(self), *final(self)),
    {
        let mut file_paths: Vec<(String, String)> = Vec::new();
        match &self.files {
            Some(files) => {
                let mut i: usize = 0;
                while i < files.len()
                    invariant
                        i <= files.len(),
                        pairs_view(file_paths@) == files@.map_values(|f: FileSpec| (f.name@, f.path@)).take(i as int),
                    decreases files.len() - i,
                {
                    let pair = (copy_string(&files[i].name), copy_string(&files[i].path));
                    let ghost prev = file_paths@;
                    file_paths.push(pair);
                    proof {
                        assert(file_paths@ == prev.push(pair));
                        assert(pairs_view(file_paths@) =~= pairs_view(prev).push((pair.0@, pair.1@)));
                        assert(pairs_view(file_paths@) =~= files@.map_values(|f: FileSpec| (f.name@, f.path@)).take(i + 1));
                    }
                    i = i + 1;
                }
                proof {
                    assert(files@.map_values(|f: FileSpec| (f.name@, f.path@)).take(files.len() as int)
                        =~= files@.map_values(|f: FileSpec| (f.name@, f.path@)));
                }
            },
            None => {
                proof {
                    assert(pairs_view(file_paths@) =~= Seq::<(Seq<char>, Seq<char>)>::empty());
                }
            },
        }
        let mut data: Vec<(String, String)> = Vec::new();
        match &self.user_data {
            Some(uds) => {
                let mut i: usize = 0;
                proof {
                    assert(pairs_view(data@) =~= data_texts(uds@.take(0)));
                }
                while i < uds.len()
                    invariant
                        i <= uds.len(),
                        pairs_view(data@) == data_texts(uds@.take(i as int)),
                    decreases uds.len() - i,
                {
                    proof {
                        assert(uds@.take(i + 1).drop_last() =~= uds@.take(i as int));
                    }
                    let ghost before = pairs_view(data@);
                    match (&uds[i].name, &uds[i].data) {
                        (Some(n), Some(d)) => {
                            data.push((copy_string(n), to_json_text(d)));
                            proof {
                                assert(pairs_view(data@) =~= before.push((n@, json_text(*d))));
                            }
                        },
                        _ => {},
                    }
                    i = i + 1;
                }
                proof {
                    assert(uds@.take(uds.len() as int) =~= uds@);
                }
            },
            None => {
                proof {
                    assert(pairs_view(data@) =~= Seq::<(Seq<char>, Seq<char>)>::empty());
                }
            },
        }
        let ghost old_jobs = self.jobs@;
        let mut jobs: Vec<JobSpec> = Vec::new();
        let mut k: usize = 0;
        while k < self.jobs.len()
            invariant
                k <= self.jobs.len(),
                self.jobs@ == old_jobs,
                jobs.len() == k,
                pairs_view(file_paths@) == file_paths_of(self.files),
                pairs_view(data@) == data_texts_of(self.user_data),
                forall|m: int|
                    0 <= m < k ==> #[trigger] jobs@[m]@ == job_resolved(
                        old_jobs[m]@,
                        file_paths_of(self.files),
                        data_texts_of(self.user_data),
                    ),
            decreases self.jobs.len() - k,
        {
            let mut job = self.jobs[k].copy();
            resolve_job_references(&mut job, &file_paths, &data);
            jobs.push(job);
            k = k + 1;
        }
        self.jobs = jobs;
        Ok(())
    }
}

} // verus!
