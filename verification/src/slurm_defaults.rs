//! Default Slurm parameters applied to every scheduler of a workflow.

use vstd::prelude::*;

use crate::creation::lower;
use crate::json::JsonValue;
use crate::text::{chars_eq, chars_of, concat3, copy_string, join, join_strings, lit};
use crate::workflow_spec::{strs_view, unit_view};

verus! {

/// Whether a parameter (compared in ASCII lower case) is one that torc
/// manages itself and a default may not set.
pub open spec fn is_excluded_param(key: Seq<char>) -> bool {
    let k = lower(key);
    k == "partition"@ || k == "nodes"@ || k == "walltime"@ || k == "time"@ || k == "mem"@ || k == "gres"@
        || k == "name"@ || k == "job-name"@
}

/// The keys of the entries that are excluded parameters, in order.
pub open spec fn excluded_keys(entries: Seq<(String, JsonValue)>) -> Seq<Seq<char>>
    decreases entries.len(),
{
    if entries.len() == 0 {
        Seq::empty()
    } else if is_excluded_param(entries.last().0@) {
        excluded_keys(entries.drop_last()).push(entries.last().0@)
    } else {
        excluded_keys(entries.drop_last())
    }
}

/// A value as a Slurm parameter: strings, numbers and booleans only.
pub open spec fn param_text(v: JsonValue) -> Option<Seq<char>> {
    match v {
        JsonValue::String(s) => Some(s@),
        JsonValue::Number(n) => Some(n@),
        JsonValue::Bool(b) => Some(
            if b {
                "true"@
            } else {
                "false"@
            },
        ),
        _ => None,
    }
}

/// The entries whose values are Slurm parameters, as text.
pub open spec fn param_texts(entries: Seq<(String, JsonValue)>) -> Seq<(Seq<char>, Seq<char>)>
    decreases entries.len(),
{
    if entries.len() == 0 {
        Seq::empty()
    } else {
        match param_text(entries.last().1) {
            Some(t) => param_texts(entries.drop_last()).push((entries.last().0@, t)),
            None => param_texts(entries.drop_last()),
        }
    }
}

/// Default Slurm parameters, by name.
pub struct SlurmDefaultsSpec(pub Vec<(String, JsonValue)>);

fn is_excluded_exec(key: &String) -> (b: bool)
    ensures
        b == is_excluded_param(key@),
{
    let v = chars_of(key.as_str());
    let mut k: Vec<char> = Vec::new();
    let mut i: usize = 0;
    while i < v.len()
        invariant
            i <= v.len(),
            v@ == key@,
            k@ == lower(v@).take(i as int),
        decreases v.len() - i,
    {
        k.push(crate::models::lower_char(v[i]));
        proof {
            assert(k@ =~= lower(v@).take(i + 1));
        }
        i = i + 1;
    }
    proof {
        assert(lower(v@).take(v.len() as int) =~= lower(v@));
    }
    chars_eq(&k, &chars_of("partition")) || chars_eq(&k, &chars_of("nodes")) || chars_eq(&k, &chars_of("walltime"))
        || chars_eq(&k, &chars_of("time")) || chars_eq(&k, &chars_of("mem")) || chars_eq(&k, &chars_of("gres"))
        || chars_eq(&k, &chars_of("name")) || chars_eq(&k, &chars_of("job-name"))
}

/// The verdict on default Slurm parameters: refused when any is one that
/// torc manages itself, naming them all.
pub open spec fn slurm_defaults_verdict(entries: Seq<(String, JsonValue)>) -> Result<(), Seq<char>> {
    if excluded_keys(entries).len() == 0 {
        Ok(())
    } else {
        Err("slurm_defaults contains excluded parameters managed by torc: "@ + join(excluded_keys(entries), ", "@)
            + ". These cannot be set as defaults."@)
    }
}

/// Checks default Slurm parameters (see `slurm_defaults_verdict`).
pub fn check_slurm_defaults(entries: &Vec<(String, JsonValue)>) -> (r: Result<(), String>)
    ensures
        unit_view(r) == slurm_defaults_verdict(entries@),
{
    let mut found: Vec<String> = Vec::new();
    let mut i: usize = 0;
    proof {
        assert(strs_view(found@) =~= excluded_keys(entries@.take(0)));
    }
    while i < entries.len()
        invariant
            i <= entries.len(),
            strs_view(found@) == excluded_keys(entries@.take(i as int)),
        decreases entries.len() - i,
    {
        proof {
            assert(entries@.take(i + 1).drop_last() =~= entries@.take(i as int));
            assert(entries@.take(i + 1).last() == entries@[i as int]);
        }
        if is_excluded_exec(&entries[i].0) {
            let c = copy_string(&entries[i].0);
            let ghost prev = found@;
            found.push(c);
            proof {
                assert(found@ == prev.push(c));
                assert(strs_view(found@) =~= strs_view(prev).push(c@));
            }
        }
        i = i + 1;
    }
    proof {
        assert(entries@.take(entries.len() as int) =~= entries@);
        assert(strs_view(found@).len() == found@.len());
        assert(found@.map_values(|s: String| s@) =~= strs_view(found@));
    }
    if found.len() == 0 {
        Ok(())
    } else {
        let listed = join_strings(&found, ", ");
        Err(
            concat3(
                "slurm_defaults contains excluded parameters managed by torc: ",
                listed.as_str(),
                ". These cannot be set as defaults.",
            ),
        )
    }
}

impl SlurmDefaultsSpec {
    /// Refuses defaults for the parameters torc manages itself (partition,
    /// nodes, walltime, time, mem, gres, name, job-name), naming them all.
    pub fn validate(&self) -> (r: Result<(), String>)
        ensures
            excluded_keys(self.0@).len() == 0 ==> r is Ok,
            excluded_keys(self.0@).len() > 0 ==> (r matches Err(e) && e@
                == "slurm_defaults contains excluded parameters managed by torc: "@ + join(excluded_keys(self.0@), ", "@)
                + ". These cannot be set as defaults."@),
    {
        check_slurm_defaults(&self.0)
    }

    /// The defaults whose values are strings, numbers or booleans, as text;
    /// arrays, objects and nulls are left out.
    pub fn to_string_map(&self) -> (r: Vec<(String, String)>)
        ensures
            r@.map_values(|p: (String, String)| (p.0@, p.1@)) == param_texts(self.0@),
    {
        let mut r: Vec<(String, String)> = Vec::new();
        let mut i: usize = 0;
        proof {
            assert(r@.map_values(|p: (String, String)| (p.0@, p.1@)) =~= param_texts(self.0@.take(0)));
        }
        while i < self.0.len()
            invariant
                i <= self.0.len(),
                r@.map_values(|p: (String, String)| (p.0@, p.1@)) == param_texts(self.0@.take(i as int)),
            decreases self.0.len() - i,
        {
            proof {
                assert(self.0@.take(i + 1).drop_last() =~= self.0@.take(i as int));
                assert(self.0@.take(i + 1).last() == self.0@[i as int]);
            }
            let text: Option<String> = match &self.0[i].1 {
                JsonValue::String(s) => Some(copy_string(s)),
                JsonValue::Number(n) => Some(copy_string(n)),
                JsonValue::Bool(b) => Some(
                    if *b {
                        lit("true")
                    } else {
                        lit("false")
                    },
                ),
                _ => None,
            };
            match text {
                Some(t) => {
                    let e = (copy_string(&self.0[i].0), t);
                    let ghost prev = r@;
                    r.push(e);
                    proof {
                        assert(r@ == prev.push(e));
                        assert(r@.map_values(|p: (String, String)| (p.0@, p.1@)) =~= prev.map_values(
                            |p: (String, String)| (p.0@, p.1@),
                        ).push((e.0@, e.1@)));
                    }
                },
                None => {},
            }
            i = i + 1;
        }
        proof {
            assert(self.0@.take(self.0.len() as int) =~= self.0@);
        }
        r
    }
}

} // verus!
