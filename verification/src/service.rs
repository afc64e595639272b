//! The state the service's HTTP surface is built with.

use vstd::prelude::*;

use crate::text::{chars_of, extend_str, lit, string_of};

verus! {

/// What the service reports of its build and configuration.
#[derive(Debug, Clone)]
pub struct OpenApiAppState {
    /// The package version with the git hash it was built from, and the
    /// mark of a dirty tree: `1.2.3 (abc123-dirty)`.
    pub version: String,
    pub api_version: String,
    pub git_hash: String,
    pub access_control_enabled: bool,
}

pub open spec fn known_or_unknown(o: Option<&str>) -> Seq<char> {
    match o {
        Some(s) => s@,
        None => "unknown"@,
    }
}

pub open spec fn or_nothing(o: Option<&str>) -> Seq<char> {
    match o {
        Some(s) => s@,
        None => Seq::empty(),
    }
}

impl OpenApiAppState {
    /// The state of a build of `package_version` from `git_hash` (`unknown`
    /// when not known), `git_dirty` marking a dirty tree, serving API
    /// version `api_version`; access control is off.
    pub fn for_build(package_version: &str, git_hash: Option<&str>, git_dirty: Option<&str>, api_version: &str) -> (s:
        Self)
        ensures
            s.version@ == package_version@ + " ("@ + known_or_unknown(git_hash) + or_nothing(git_dirty) + ")"@,
            s.git_hash@ == known_or_unknown(git_hash),
            s.api_version@ == api_version@,
            !s.access_control_enabled,
    {
        let hash = match git_hash {
            Some(h) => lit(h),
            None => lit("unknown"),
        };
        let mut v = chars_of(package_version);
        extend_str(&mut v, " (");
        extend_str(&mut v, hash.as_str());
        match git_dirty {
            Some(d) => extend_str(&mut v, d),
            None => {},
        }
        extend_str(&mut v, ")");
        proof {
            let dirty = or_nothing(git_dirty);
            assert(v@ =~= package_version@ + " ("@ + known_or_unknown(git_hash) + dirty + ")"@);
        }
        OpenApiAppState { version: string_of(&v), api_version: lit(api_version), git_hash: hash, access_control_enabled: false }
    }
}

} // verus!
