//! The parity report: checks that a hand-written OpenAPI document (`source`,
//! YAML text) and the document the server emits (`emitted`, JSON) agree on
//! operation ids and on the properties of response and component schemas.
//!
//! Each check appends messages to the list of issues; an empty list means
//! the two documents agree.

use vstd::prelude::*;

use crate::json::{
    contains_key, has_key, json_get, opt_get, opt_object, opt_str, JsonValue,
};
use crate::text::{chars_eq, chars_of, extend_chars, extend_str, lit, slice_chars, string_of, trim, trim_chars};
use crate::workflow_spec::strs_view;

verus! {

// ---------------------------------------------------------------------------
// Reading an operation id from the YAML source
// ---------------------------------------------------------------------------

/// Whether `pat` occurs in `s` at position `k`.
pub open spec fn occurs_at(s: Seq<char>, pat: Seq<char>, k: int) -> bool {
    0 <= k && k + pat.len() <= s.len() && s.subrange(k, k + pat.len()) == pat
}

/// The first position at or after `i` where `pat` occurs in `s`.
pub open spec fn find_from(s: Seq<char>, pat: Seq<char>, i: int) -> Option<int>
    decreases s.len() + 1 - i,
{
    if i < 0 || i + pat.len() > s.len() {
        None
    } else if occurs_at(s, pat, i) {
        Some(i)
    } else {
        find_from(s, pat, i + 1)
    }
}

/// The end of the line that starts at `i`: its `\n`, or the end of `s`.
pub open spec fn line_end(s: Seq<char>, i: int) -> int
    decreases s.len() - i,
{
    if i < 0 || i >= s.len() || s[i] == '\n' {
        i
    } else {
        line_end(s, i + 1)
    }
}

/// The line from `i` to `e`, without the `\r` of a `\r\n` ending.
pub open spec fn line_text(s: Seq<char>, i: int, e: int) -> Seq<char> {
    let raw = s.subrange(i, e);
    if e < s.len() && raw.len() > 0 && raw.last() == '\r' {
        raw.drop_last()
    } else {
        raw
    }
}

pub open spec fn is_http_method(m: Seq<char>) -> bool {
    m == "get"@ || m == "post"@ || m == "put"@ || m == "delete"@ || m == "patch"@
}

/// The method a line opens (`    get:` and the like), if any.
pub open spec fn method_header(line: Seq<char>) -> Option<Seq<char>> {
    if line.len() >= 5 && line.take(4) == "    "@ && line.last() == ':' && is_http_method(
        line.subrange(4, line.len() - 1),
    ) {
        Some(line.subrange(4, line.len() - 1))
    } else {
        None
    }
}

pub open spec fn operation_id_prefix() -> Seq<char> {
    "operationId: "@
}

/// The operation id given in the lines of `sec` from position `i` on, while
/// the lines belong to `method` (`cur` is the method of the lines before).
pub open spec fn operation_in_lines(sec: Seq<char>, i: int, cur: Option<Seq<char>>, method: Seq<char>) -> Option<Seq<char>>
    decreases sec.len() + 1 - i,
{
    if i < 0 || i >= sec.len() {
        None
    } else {
        let e = line_end(sec, i);
        let line = line_text(sec, i, e);
        if e < i || e > sec.len() {
            None
        } else {
            match method_header(line) {
                Some(m) => operation_in_lines(sec, e + 1, Some(m), method),
                None => {
                    let t = trim(line);
                    if cur == Some(method) && t.len() >= 13 && t.take(13) == operation_id_prefix() {
                        Some(trim(t.skip(13)))
                    } else {
                        operation_in_lines(sec, e + 1, cur, method)
                    }
                },
            }
        }
    }
}

/// The operation id that the YAML source gives to `method` on `path`: in
/// the section of the first line `  <path>:` up to the next top-level path.
pub open spec fn spec_source_operation_id(source: Seq<char>, path: Seq<char>, method: Seq<char>) -> Option<Seq<char>> {
    match find_from(source, "  "@ + path + ":"@, 0) {
        None => None,
        Some(start) => {
            let remaining = source.skip(start);
            let end = if remaining.len() == 0 {
                0
            } else {
                match find_from(remaining.skip(1), "\n  /"@, 0) {
                    Some(k) => k + 1,
                    None => remaining.len() as int,
                }
            };
            operation_in_lines(remaining.take(end), 0, None, method)
        },
    }
}

proof fn lemma_find_from(s: Seq<char>, pat: Seq<char>, i: int)
    requires
        0 <= i,
    ensures
        match find_from(s, pat, i) {
            Some(k) => i <= k && occurs_at(s, pat, k),
            None => true,
        },
    decreases s.len() + 1 - i,
{
    if i + pat.len() <= s.len() && !occurs_at(s, pat, i) {
        lemma_find_from(s, pat, i + 1);
    }
}

fn occurs_at_exec(s: &Vec<char>, pat: &Vec<char>, k: usize) -> (b: bool)
    ensures
        b == occurs_at(s@, pat@, k as int),
{
    if pat.len() > s.len() || k > s.len() - pat.len() {
        return false;
    }
    let mut j: usize = 0;
    while j < pat.len()
        invariant
            j <= pat.len(),
            k + pat.len() <= s.len(),
            forall|t: int| 0 <= t < j ==> s@[k + t] == pat@[t],
        decreases pat.len() - j,
    {
        if s[k + j] != pat[j] {
            proof {
                assert(s@.subrange(k as int, k + pat.len())[j as int] != pat@[j as int]);
            }
            return false;
        }
        j = j + 1;
    }
    proof {
        assert(s@.subrange(k as int, k + pat.len()) =~= pat@);
    }
    true
}

fn find_from_exec(s: &Vec<char>, pat: &Vec<char>, i: usize) -> (r: Option<usize>)
    ensures
        match r {
            Some(k) => find_from(s@, pat@, i as int) == Some(k as int),
            None => find_from(s@, pat@, i as int) is None,
        },
{
    if pat.len() > s.len() {
        return None;
    }
    let last = s.len() - pat.len();
    let mut k: usize = i;
    while k <= last
        invariant
            i <= k,
            last == s.len() - pat.len(),
            find_from(s@, pat@, i as int) == find_from(s@, pat@, k as int),
        decreases last + 1 - k,
    {
        if occurs_at_exec(s, pat, k) {
            return Some(k);
        }
        if k == last {
            proof {
                assert(find_from(s@, pat@, k + 1) is None);
            }
            return None;
        }
        k = k + 1;
    }
    None
}

fn line_end_exec(s: &Vec<char>, i: usize) -> (e: usize)
    requires
        i <= s.len(),
    ensures
        e == line_end(s@, i as int),
        i <= e <= s.len(),
{
    let mut e: usize = i;
    while e < s.len() && s[e] != '\n'
        invariant
            i <= e <= s.len(),
            line_end(s@, i as int) == line_end(s@, e as int),
        decreases s.len() - e,
    {
        e = e + 1;
    }
    e
}

fn is_http_method_exec(m: &Vec<char>) -> (b: bool)
    ensures
        b == is_http_method(m@),
{
    chars_eq(m, &chars_of("get")) || chars_eq(m, &chars_of("post")) || chars_eq(
        m,
        &chars_of("put"),
    ) || chars_eq(m, &chars_of("delete")) || chars_eq(m, &chars_of("patch"))
}

fn method_header_exec(line: &Vec<char>) -> (r: Option<Vec<char>>)
    ensures
        method_header(line@) == match r {
            Some(m) => Some(m@),
            None => None,
        },
{
    if line.len() < 5 {
        return None;
    }
    let head = slice_chars(line, 0, 4);
    proof {
        assert(head@ =~= line@.take(4));
    }
    if !chars_eq(&head, &chars_of("    ")) || line[line.len() - 1] != ':' {
        return None;
    }
    let mid = slice_chars(line, 4, line.len() - 1);
    if is_http_method_exec(&mid) {
        Some(mid)
    } else {
        None
    }
}

pub open spec fn opt_chars(o: Option<Vec<char>>) -> Option<Seq<char>> {
    match o {
        Some(c) => Some(c@),
        None => None,
    }
}

/// The operation id that the YAML `source` gives to `method` on `path`.
pub fn source_operation_id(source: &str, path: &str, method: &str) -> (r: Option<String>)
    ensures
        match r {
            Some(v) => spec_source_operation_id(source@, path@, method@) == Some(v@),
            None => spec_source_operation_id(source@, path@, method@) is None,
        },
{
    let s = chars_of(source);
    let mut pl = chars_of("  ");
    extend_str(&mut pl, path);
    extend_str(&mut pl, ":");
    proof {
        assert(pl@ == "  "@ + path@ + ":"@);
    }
    let start = match find_from_exec(&s, &pl, 0) {
        None => {
            return None;
        },
        Some(k) => k,
    };
    proof {
        lemma_find_from(s@, pl@, 0);
    }
    let remaining = slice_chars(&s, start, s.len());
    proof {
        assert(remaining@ =~= s@.skip(start as int));
    }
    let end: usize = if remaining.len() == 0 {
        0
    } else {
        let tail = slice_chars(&remaining, 1, remaining.len());
        let marker = chars_of("\n  /");
        proof {
            assert(tail@ =~= remaining@.skip(1));
        }
        match find_from_exec(&tail, &marker, 0) {
            Some(k) => {
                proof {
                    lemma_find_from(tail@, marker@, 0);
                }
                k + 1
            },
            None => remaining.len(),
        }
    };
    let sec = slice_chars(&remaining, 0, end);
    proof {
        assert(sec@ =~= remaining@.take(end as int));
        assert(spec_source_operation_id(source@, path@, method@) == operation_in_lines(
            sec@,
            0,
            None,
            method@,
        ));
    }
    let ghost m = method@;
    let mv = chars_of(method);
    let mut cur: Option<Vec<char>> = None;
    let mut i: usize = 0;
    while i < sec.len()
        invariant
            i <= sec.len(),
            mv@ == m,
            m == method@,
            spec_source_operation_id(source@, path@, method@) == operation_in_lines(
                sec@,
                0,
                None,
                m,
            ),
            operation_in_lines(sec@, 0, None, m) == operation_in_lines(
                sec@,
                i as int,
                opt_chars(cur),
                m,
            ),
        decreases sec.len() - i,
    {
        let e = line_end_exec(&sec, i);
        let raw = slice_chars(&sec, i, e);
        let line = if e < sec.len() && raw.len() > 0 && raw[raw.len() - 1] == '\r' {
            slice_chars(&raw, 0, raw.len() - 1)
        } else {
            raw
        };
        proof {
            let r = sec@.subrange(i as int, e as int);
            if e < sec.len() && r.len() > 0 && r.last() == '\r' {
                assert(line@ =~= r.drop_last());
            }
            assert(line@ == line_text(sec@, i as int, e as int));
        }
        let ghost cur_before = opt_chars(cur);
        proof {
            assert(line_end(sec@, i as int) == e);
        }
        match method_header_exec(&line) {
            Some(mh) => {
                cur = Some(mh);
            },
            None => {
                let t = trim_chars(&line);
                let is_cur = match &cur {
                    Some(c) => chars_eq(c, &mv),
                    None => false,
                };
                if is_cur && t.len() >= 13 {
                    let head = slice_chars(&t, 0, 13);
                    proof {
                        assert(head@ =~= t@.take(13));
                    }
                    if chars_eq(&head, &chars_of("operationId: ")) {
                        let rest = slice_chars(&t, 13, t.len());
                        proof {
                            assert(rest@ =~= t@.skip(13));
                        }
                        let v = trim_chars(&rest);
                        proof {
                            assert(cur_before == Some(m));
                            assert(trim(line@) == t@);
                            assert(operation_in_lines(sec@, i as int, cur_before, m) == Some(
                                trim(t@.skip(13)),
                            ));
                        }
                        return Some(string_of(&v));
                    }
                }
            },
        }
        if e >= sec.len() {
            proof {
                assert(operation_in_lines(sec@, e + 1, opt_chars(cur), m) is None);
            }
            return None;
        }
        i = e + 1;
    }
    None
}

// ---------------------------------------------------------------------------
// Messages
// ---------------------------------------------------------------------------

/// The text `{:?}` gives a string: quoted, with its special characters escaped.
pub uninterp spec fn debug_text(s: Seq<char>) -> Seq<char>;

/// Quotes a string as `format!("{:?}", s)` does. The contract claims only
/// that the text depends on the string alone.
#[verifier::external_body]
fn debug_quote(s: &str) -> (r: String)
    ensures
        r@ == debug_text(s@),
{
    format!("{:?}", s)
}

/// How an optional operation id is shown: `None` or `Some("...")`.
pub open spec fn found_text(o: Option<Seq<char>>) -> Seq<char> {
    match o {
        None => "None"@,
        Some(v) => "Some("@ + debug_text(v) + ")"@,
    }
}

pub open spec fn mismatch_message(
    side: Seq<char>,
    method: Seq<char>,
    path: Seq<char>,
    expected: Seq<char>,
    found: Option<Seq<char>>,
) -> Seq<char> {
    side + " operationId mismatch for "@ + method + " "@ + path + ": expected "@ + expected
        + ", found "@ + found_text(found)
}

/// The operation id the emitted document gives to `method` on `path`.
pub open spec fn emitted_operation_id(emitted: JsonValue, path: Seq<char>, method: Seq<char>) -> Option<Seq<char>> {
    opt_str(opt_get(opt_get(opt_get(json_get(emitted, "paths"@), path), method), "operationId"@))
}

/// The issues of an operation-id check: one per document that does not give
/// the expected id.
pub open spec fn operation_issues(
    source: Seq<char>,
    emitted: JsonValue,
    path: Seq<char>,
    method: Seq<char>,
    expected: Seq<char>,
) -> Seq<Seq<char>> {
    let s = spec_source_operation_id(source, path, method);
    let e = emitted_operation_id(emitted, path, method);
    (if s != Some(expected) {
        seq![mismatch_message("source"@, method, path, expected, s)]
    } else {
        Seq::empty()
    }) + (if e != Some(expected) {
        seq![mismatch_message("emitted"@, method, path, expected, e)]
    } else {
        Seq::empty()
    })
}

/// The schema of the `200` JSON response of `method` on `path`.
pub open spec fn response_schema(emitted: JsonValue, path: Seq<char>, method: Seq<char>) -> Option<JsonValue> {
    opt_get(
        opt_get(
            opt_get(
                opt_get(
                    opt_get(opt_get(opt_get(json_get(emitted, "paths"@), path), method), "responses"@),
                    "200"@,
                ),
                "content"@,
            ),
            "application/json"@,
        ),
        "schema"@,
    )
}

/// The last `/`-separated segment of a reference.
pub open spec fn last_segment(r: Seq<char>) -> Seq<char>
    decreases r.len(),
{
    if r.len() == 0 {
        r
    } else if r.last() == '/' {
        Seq::empty()
    } else {
        last_segment(r.drop_last()).push(r.last())
    }
}

/// The properties of a named component schema.
pub open spec fn component_properties(document: JsonValue, name: Seq<char>) -> Option<Seq<(String, JsonValue)>> {
    opt_object(
        opt_get(opt_get(opt_get(json_get(document, "components"@), "schemas"@), name), "properties"@),
    )
}

/// The properties of a schema: through its `$ref` when it has one.
pub open spec fn schema_properties(document: JsonValue, schema: JsonValue) -> Option<Seq<(String, JsonValue)>> {
    match opt_str(json_get(schema, "$ref"@)) {
        Some(r) => component_properties(document, last_segment(r)),
        None => opt_object(json_get(schema, "properties"@)),
    }
}

/// One message for each expected property that `props` lacks, in order.
pub open spec fn missing_property_messages(
    props: Seq<(String, JsonValue)>,
    expected: Seq<Seq<char>>,
    prefix: Seq<char>,
) -> Seq<Seq<char>>
    decreases expected.len(),
{
    if expected.len() == 0 {
        Seq::empty()
    } else {
        missing_property_messages(props, expected.drop_last(), prefix) + if has_key(
            props,
            expected.last(),
        ) {
            Seq::empty()
        } else {
            seq![prefix + expected.last()]
        }
    }
}

/// The issues of a response-schema check.
pub open spec fn schema_issues(
    emitted: JsonValue,
    path: Seq<char>,
    method: Seq<char>,
    expected: Seq<Seq<char>>,
) -> Seq<Seq<char>> {
    match response_schema(emitted, path, method) {
        None => seq!["emitted schema missing for "@ + method + " "@ + path + " 200 response"@],
        Some(schema) => match schema_properties(emitted, schema) {
            None => seq!["unable to resolve emitted properties for "@ + method + " "@ + path],
            Some(props) => missing_property_messages(
                props,
                expected,
                "emitted schema for "@ + method + " "@ + path + " missing property "@,
            ),
        },
    }
}

/// The issues of a component check.
pub open spec fn component_issues(document: JsonValue, name: Seq<char>, expected: Seq<Seq<char>>) -> Seq<Seq<char>> {
    match component_properties(document, name) {
        None => seq!["emitted component schema missing: "@ + name],
        Some(props) => missing_property_messages(
            props,
            expected,
            "emitted component "@ + name + " missing property "@,
        ),
    }
}

/// A check of the report.
pub enum CheckSpec {
    Operation(Seq<char>, Seq<char>, Seq<char>),
    ResponseSchema(Seq<char>, Seq<char>, Seq<Seq<char>>),
    Component(Seq<char>, Seq<Seq<char>>),
}

/// A check of the parity report.
#[derive(Debug)]
pub enum ParityCheck {
    /// Both documents give `expected` as the id of `method` on `path`.
    Operation { path: String, method: String, expected: String },
    /// The emitted `200` response of `method` on `path` has the properties.
    ResponseSchema { path: String, method: String, properties: Vec<String> },
    /// The emitted component schema has the properties.
    Component { schema: String, properties: Vec<String> },
}

impl View for ParityCheck {
    type V = CheckSpec;

    open spec fn view(&self) -> CheckSpec {
        match self {
            ParityCheck::Operation { path, method, expected } => CheckSpec::Operation(
                path@,
                method@,
                expected@,
            ),
            ParityCheck::ResponseSchema { path, method, properties } => CheckSpec::ResponseSchema(
                path@,
                method@,
                strs_view(properties@),
            ),
            ParityCheck::Component { schema, properties } => CheckSpec::Component(
                schema@,
                strs_view(properties@),
            ),
        }
    }
}

pub open spec fn checks_view(v: Seq<ParityCheck>) -> Seq<CheckSpec> {
    v.map_values(|c: ParityCheck| c@)
}

/// The issues of one check.
pub open spec fn check_issues(source: Seq<char>, emitted: JsonValue, c: CheckSpec) -> Seq<Seq<char>> {
    match c {
        CheckSpec::Operation(p, m, e) => operation_issues(source, emitted, p, m, e),
        CheckSpec::ResponseSchema(p, m, props) => schema_issues(emitted, p, m, props),
        CheckSpec::Component(n, props) => component_issues(emitted, n, props),
    }
}

/// The issues of a list of checks, in order.
pub open spec fn all_issues(source: Seq<char>, emitted: JsonValue, cs: Seq<CheckSpec>) -> Seq<Seq<char>>
    decreases cs.len(),
{
    if cs.len() == 0 {
        Seq::empty()
    } else {
        all_issues(source, emitted, cs.drop_last()) + check_issues(source, emitted, cs.last())
    }
}

// ---------------------------------------------------------------------------
// The checks
// ---------------------------------------------------------------------------

fn push_message(issues: &mut Vec<String>, m: Vec<char>)
    ensures
        strs_view(final(issues)@) == strs_view(old(issues)@).push(m@),
{
    issues.push(string_of(&m));
    proof {
        assert(strs_view(issues@) =~= strs_view(old(issues)@).push(m@));
    }
}

fn found_chars(o: &Option<String>) -> (r: Vec<char>)
    ensures
        r@ == found_text(
            match o {
                Some(v) => Some(v@),
                None => None,
            },
        ),
{
    match o {
        None => chars_of("None"),
        Some(v) => {
            let mut r = chars_of("Some(");
            let q = debug_quote(v.as_str());
            extend_str(&mut r, q.as_str());
            extend_str(&mut r, ")");
            r
        },
    }
}

fn mismatch_chars(side: &str, method: &str, path: &str, expected: &str, found: &Option<String>) -> (r: Vec<char>)
    ensures
        r@ == mismatch_message(
            side@,
            method@,
            path@,
            expected@,
            match found {
                Some(v) => Some(v@),
                None => None,
            },
        ),
{
    let mut r = chars_of(side);
    extend_str(&mut r, " operationId mismatch for ");
    extend_str(&mut r, method);
    extend_str(&mut r, " ");
    extend_str(&mut r, path);
    extend_str(&mut r, ": expected ");
    extend_str(&mut r, expected);
    extend_str(&mut r, ", found ");
    let f = found_chars(found);
    extend_chars(&mut r, &f);
    r
}

fn opt_string_eq(o: &Option<String>, e: &str) -> (b: bool)
    ensures
        b == (match o {
            Some(v) => Some(v@),
            None => None,
        } == Some(e@)),
{
    match o {
        Some(v) => chars_eq(&chars_of(v.as_str()), &chars_of(e)),
        None => false,
    }
}

/// Checks that both documents give `expected` as the operation id of
/// `method` on `path`, appending an issue for each that does not.
pub fn check_operation_id(
    source: &str,
    emitted: &JsonValue,
    path: &str,
    method: &str,
    expected: &str,
    issues: &mut Vec<String>,
)
    ensures
        strs_view(final(issues)@) == strs_view(old(issues)@) + operation_issues(
            source@,
            *emitted,
            path@,
            method@,
            expected@,
        ),
{
    let s = source_operation_id(source, path, method);
    let e: Option<String> = match emitted.get("paths") {
        None => None,
        Some(ps) => match ps.get(path) {
            None => None,
            Some(item) => match item.get(method) {
                None => None,
                Some(op) => match op.get("operationId") {
                    None => None,
                    Some(id) => match id.as_str() {
                        Some(t) => Some(lit(t)),
                        None => None,
                    },
                },
            },
        },
    };
    let ghost before = strs_view(issues@);
    if !opt_string_eq(&s, expected) {
        let m = mismatch_chars("source", method, path, expected, &s);
        push_message(issues, m);
    }
    let ghost mid = strs_view(issues@);
    if !opt_string_eq(&e, expected) {
        let m = mismatch_chars("emitted", method, path, expected, &e);
        push_message(issues, m);
    }
    proof {
        assert(strs_view(issues@) =~= before + operation_issues(
            source@,
            *emitted,
            path@,
            method@,
            expected@,
        ));
    }
}

fn append_missing(
    props: &Vec<(String, JsonValue)>,
    expected: &Vec<String>,
    prefix: &Vec<char>,
    issues: &mut Vec<String>,
)
    ensures
        strs_view(final(issues)@) == strs_view(old(issues)@) + missing_property_messages(
            props@,
            strs_view(expected@),
            prefix@,
        ),
{
    let ghost start = strs_view(issues@);
    let mut i: usize = 0;
    while i < expected.len()
        invariant
            i <= expected.len(),
            strs_view(issues@) == start + missing_property_messages(
                props@,
                strs_view(expected@).take(i as int),
                prefix@,
            ),
        decreases expected.len() - i,
    {
        proof {
            assert(strs_view(expected@).take(i + 1).drop_last() =~= strs_view(expected@).take(
                i as int,
            ));
            assert(strs_view(expected@).take(i + 1).last() == expected@[i as int]@);
        }
        let ghost before = strs_view(issues@);
        if !contains_key(props, expected[i].as_str()) {
            let mut m = slice_chars(prefix, 0, prefix.len());
            extend_str(&mut m, expected[i].as_str());
            proof {
                assert(m@ =~= prefix@ + expected@[i as int]@);
            }
            push_message(issues, m);
            proof {
                assert(strs_view(issues@) =~= before + seq![prefix@ + expected@[i as int]@]);
            }
        } else {
            proof {
                assert(before + Seq::<Seq<char>>::empty() =~= before);
            }
        }
        i = i + 1;
    }
    proof {
        assert(strs_view(expected@).take(expected.len() as int) =~= strs_view(expected@));
    }
}

fn last_segment_exec(r: &Vec<char>) -> (s: Vec<char>)
    ensures
        s@ == last_segment(r@),
{
    let mut k: usize = r.len();
    proof {
        assert(r@.take(r.len() as int) =~= r@);
        assert(r@.subrange(r.len() as int, r.len() as int) =~= Seq::<char>::empty());
        assert(r@ + Seq::<char>::empty() =~= r@);
    }
    while k > 0 && r[k - 1] != '/'
        invariant
            k <= r.len(),
            last_segment(r@) == last_segment(r@.take(k as int)) + r@.subrange(k as int, r.len() as int),
        decreases k,
    {
        proof {
            let t = r@.take(k as int);
            assert(t.drop_last() =~= r@.take(k - 1));
            assert(r@.subrange(k - 1, r.len() as int) =~= seq![t.last()] + r@.subrange(
                k as int,
                r.len() as int,
            ));
            assert(last_segment(t) == last_segment(t.drop_last()).push(t.last()));
            assert(last_segment(r@.take(k - 1)).push(t.last()) + r@.subrange(k as int, r.len() as int)
                =~= last_segment(r@.take(k - 1)) + r@.subrange(k - 1, r.len() as int));
        }
        k = k - 1;
    }
    proof {
        assert(last_segment(r@.take(k as int)) =~= Seq::<char>::empty());
    }
    slice_chars(r, k, r.len())
}

fn component_properties_exec<'a>(document: &'a JsonValue, name: &str) -> (r: Option<&'a Vec<(String, JsonValue)>>)
    ensures
        match r {
            Some(m) => component_properties(*document, name@) == Some(m@),
            None => component_properties(*document, name@) is None,
        },
{
    match document.get("components") {
        None => None,
        Some(c) => match c.get("schemas") {
            None => None,
            Some(s) => match s.get(name) {
                None => None,
                Some(sch) => match sch.get("properties") {
                    None => None,
                    Some(p) => p.as_object(),
                },
            },
        },
    }
}

fn schema_properties_exec<'a>(document: &'a JsonValue, schema: &'a JsonValue) -> (r: Option<&'a Vec<(String, JsonValue)>>)
    ensures
        match r {
            Some(m) => schema_properties(*document, *schema) == Some(m@),
            None => schema_properties(*document, *schema) is None,
        },
{
    let reference = match schema.get("$ref") {
        Some(v) => v.as_str(),
        None => None,
    };
    match reference {
        Some(r) => {
            let rv = chars_of(r);
            let seg = last_segment_exec(&rv);
            let name = string_of(&seg);
            component_properties_exec(document, name.as_str())
        },
        None => match schema.get("properties") {
            None => None,
            Some(p) => p.as_object(),
        },
    }
}

/// Checks that the emitted `200` JSON response of `method` on `path` has
/// every expected property.
pub fn check_schema_properties(
    emitted: &JsonValue,
    path: &str,
    method: &str,
    expected_properties: &Vec<String>,
    issues: &mut Vec<String>,
)
    ensures
        strs_view(final(issues)@) == strs_view(old(issues)@) + schema_issues(
            *emitted,
            path@,
            method@,
            strs_view(expected_properties@),
        ),
{
    let schema = match emitted.get("paths") {
        None => None,
        Some(ps) => match ps.get(path) {
            None => None,
            Some(item) => match item.get(method) {
                None => None,
                Some(op) => match op.get("responses") {
                    None => None,
                    Some(rs) => match rs.get("200") {
                        None => None,
                        Some(r) => match r.get("content") {
                            None => None,
                            Some(c) => match c.get("application/json") {
                                None => None,
                                Some(j) => j.get("schema"),
                            },
                        },
                    },
                },
            },
        },
    };
    let ghost before = strs_view(issues@);
    match schema {
        None => {
            let mut m = chars_of("emitted schema missing for ");
            extend_str(&mut m, method);
            extend_str(&mut m, " ");
            extend_str(&mut m, path);
            extend_str(&mut m, " 200 response");
            push_message(issues, m);
            proof {
                assert(strs_view(issues@) =~= before + schema_issues(
                    *emitted,
                    path@,
                    method@,
                    strs_view(expected_properties@),
                ));
            }
        },
        Some(sch) => match schema_properties_exec(emitted, sch) {
            None => {
                let mut m = chars_of("unable to resolve emitted properties for ");
                extend_str(&mut m, method);
                extend_str(&mut m, " ");
                extend_str(&mut m, path);
                push_message(issues, m);
                proof {
                    assert(strs_view(issues@) =~= before + schema_issues(
                        *emitted,
                        path@,
                        method@,
                        strs_view(expected_properties@),
                    ));
                }
            },
            Some(props) => {
                let mut prefix = chars_of("emitted schema for ");
                extend_str(&mut prefix, method);
                extend_str(&mut prefix, " ");
                extend_str(&mut prefix, path);
                extend_str(&mut prefix, " missing property ");
                append_missing(props, expected_properties, &prefix, issues);
            },
        },
    }
}

/// Checks that the emitted component schema `schema_name` has every
/// expected property.
pub fn check_component_properties(
    document: &JsonValue,
    schema_name: &str,
    expected_properties: &Vec<String>,
    issues: &mut Vec<String>,
)
    ensures
        strs_view(final(issues)@) == strs_view(old(issues)@) + component_issues(
            *document,
            schema_name@,
            strs_view(expected_properties@),
        ),
{
    let ghost before = strs_view(issues@);
    match component_properties_exec(document, schema_name) {
        None => {
            let mut m = chars_of("emitted component schema missing: ");
            extend_str(&mut m, schema_name);
            push_message(issues, m);
            proof {
                assert(strs_view(issues@) =~= before + component_issues(
                    *document,
                    schema_name@,
                    strs_view(expected_properties@),
                ));
            }
        },
        Some(props) => {
            let mut prefix = chars_of("emitted component ");
            extend_str(&mut prefix, schema_name);
            extend_str(&mut prefix, " missing property ");
            append_missing(props, expected_properties, &prefix, issues);
        },
    }
}

/// Runs a list of checks, in order.
pub fn run_parity_checks(source: &str, emitted: &JsonValue, checks: &Vec<ParityCheck>) -> (issues: Vec<String>)
    ensures
        strs_view(issues@) == all_issues(source@, *emitted, checks_view(checks@)),
{
    let mut issues: Vec<String> = Vec::new();
    let mut i: usize = 0;
    proof {
        assert(strs_view(issues@) =~= Seq::<Seq<char>>::empty());
        assert(checks_view(checks@).take(0) =~= Seq::<CheckSpec>::empty());
    }
    while i < checks.len()
        invariant
            i <= checks.len(),
            strs_view(issues@) == all_issues(source@, *emitted, checks_view(checks@).take(i as int)),
        decreases checks.len() - i,
    {
        proof {
            assert(checks_view(checks@).take(i + 1).drop_last() =~= checks_view(checks@).take(
                i as int,
            ));
        }
        match &checks[i] {
            ParityCheck::Operation { path, method, expected } => {
                check_operation_id(
                    source,
                    emitted,
                    path.as_str(),
                    method.as_str(),
                    expected.as_str(),
                    &mut issues,
                );
            },
            ParityCheck::ResponseSchema { path, method, properties } => {
                check_schema_properties(
                    emitted,
                    path.as_str(),
                    method.as_str(),
                    properties,
                    &mut issues,
                );
            },
            ParityCheck::Component { schema, properties } => {
                check_component_properties(emitted, schema.as_str(), properties, &mut issues);
            },
        }
        i = i + 1;
    }
    proof {
        assert(checks_view(checks@).take(checks.len() as int) =~= checks_view(checks@));
    }
    issues
}

/// The parity report of the YAML `source` against the `emitted` document:
/// the issues of every check of [`parity_checks`], in order; empty when the
/// documents agree.
pub fn parity_report(source: &str, emitted: &JsonValue) -> (issues: Vec<String>)
    ensures
        strs_view(issues@) == all_issues(source@, *emitted, parity_table()),
{
    let checks = parity_checks();
    run_parity_checks(source, emitted, &checks)
}

// ---------------------------------------------------------------------------
// The table of checks
// ---------------------------------------------------------------------------

pub open spec fn parity_table_0() -> Seq<CheckSpec> {
    seq![
        CheckSpec::Operation("/ping"@, "get"@, "ping"@),
        CheckSpec::Operation("/version"@, "get"@, "get_version"@),
        CheckSpec::ResponseSchema("/ping"@, "get"@, seq!["status"@]),
        CheckSpec::ResponseSchema("/version"@, "get"@, seq!["version"@, "api_version"@, "git_hash"@]),
        CheckSpec::Operation("/bulk_jobs"@, "post"@, "create_jobs"@),
        CheckSpec::Component("JobsModel"@, seq!["jobs"@]),
        CheckSpec::Component("CreateJobsResponse"@, seq!["jobs"@]),
        CheckSpec::Operation("/access_groups"@, "post"@, "create_access_group"@),
        CheckSpec::Operation("/access_groups"@, "get"@, "list_access_groups"@),
        CheckSpec::Operation("/access_groups/{id}"@, "get"@, "get_access_group"@),
        CheckSpec::Operation("/access_groups/{id}"@, "delete"@, "delete_access_group"@),
        CheckSpec::Operation("/access_groups/{id}/members"@, "post"@, "add_user_to_group"@),
    ]
}

fn push_checks_0(v: &mut Vec<ParityCheck>)
    ensures
        checks_view(final(v)@) == checks_view(old(v)@) + parity_table_0(),
{
    let ghost start = v@;
    v.push(ParityCheck::Operation { path: lit("/ping"), method: lit("get"), expected: lit("ping") });
    v.push(ParityCheck::Operation { path: lit("/version"), method: lit("get"), expected: lit("get_version") });
    let p2 = vec![lit("status")];
    proof {
        assert(strs_view(p2@) =~= seq!["status"@]);
    }
    v.push(ParityCheck::ResponseSchema { path: lit("/ping"), method: lit("get"), properties: p2 });
    let p3 = vec![lit("version"), lit("api_version"), lit("git_hash")];
    proof {
        assert(strs_view(p3@) =~= seq!["version"@, "api_version"@, "git_hash"@]);
    }
    v.push(ParityCheck::ResponseSchema { path: lit("/version"), method: lit("get"), properties: p3 });
    v.push(ParityCheck::Operation { path: lit("/bulk_jobs"), method: lit("post"), expected: lit("create_jobs") });
    let p5 = vec![lit("jobs")];
    proof {
        assert(strs_view(p5@) =~= seq!["jobs"@]);
    }
    v.push(ParityCheck::Component { schema: lit("JobsModel"), properties: p5 });
    let p6 = vec![lit("jobs")];
    proof {
        assert(strs_view(p6@) =~= seq!["jobs"@]);
    }
    v.push(ParityCheck::Component { schema: lit("CreateJobsResponse"), properties: p6 });
    v.push(ParityCheck::Operation { path: lit("/access_groups"), method: lit("post"), expected: lit("create_access_group") });
    v.push(ParityCheck::Operation { path: lit("/access_groups"), method: lit("get"), expected: lit("list_access_groups") });
    v.push(ParityCheck::Operation { path: lit("/access_groups/{id}"), method: lit("get"), expected: lit("get_access_group") });
    v.push(ParityCheck::Operation { path: lit("/access_groups/{id}"), method: lit("delete"), expected: lit("delete_access_group") });
    v.push(ParityCheck::Operation { path: lit("/access_groups/{id}/members"), method: lit("post"), expected: lit("add_user_to_group") });
    proof {
        assert(checks_view(v@) =~= checks_view(start) + parity_table_0());
    }
}

pub open spec fn parity_table_1() -> Seq<CheckSpec> {
    seq![
        CheckSpec::Operation("/access_groups/{id}/members"@, "get"@, "list_group_members"@),
        CheckSpec::Operation("/access_groups/{id}/members/{user_name}"@, "delete"@, "remove_user_from_group"@),
        CheckSpec::Operation("/users/{user_name}/groups"@, "get"@, "list_user_groups"@),
        CheckSpec::Operation("/workflows/{id}/access_groups"@, "post"@, "add_workflow_to_group"@),
        CheckSpec::Operation("/workflows/{id}/access_groups"@, "get"@, "list_workflow_groups"@),
        CheckSpec::Operation("/workflows/{id}/access_groups/{group_id}"@, "delete"@, "remove_workflow_from_group"@),
        CheckSpec::Operation("/access_check/{workflow_id}/{user_name}"@, "get"@, "check_workflow_access"@),
        CheckSpec::Component("AccessGroupModel"@, seq!["id"@, "name"@, "description"@, "created_at"@]),
        CheckSpec::Component("UserGroupMembershipModel"@, seq!["id"@, "user_name"@, "group_id"@, "role"@, "created_at"@]),
        CheckSpec::Component("WorkflowAccessGroupModel"@, seq!["workflow_id"@, "group_id"@, "created_at"@]),
        CheckSpec::Component("ListAccessGroupsResponse"@, seq!["items"@, "offset"@, "limit"@, "total_count"@, "has_more"@]),
        CheckSpec::Component("ListUserGroupMembershipsResponse"@, seq!["items"@, "offset"@, "limit"@, "total_count"@, "has_more"@]),
    ]
}

fn push_checks_1(v: &mut Vec<ParityCheck>)
    ensures
        checks_view(final(v)@) == checks_view(old(v)@) + parity_table_1(),
{
    let ghost start = v@;
    v.push(ParityCheck::Operation { path: lit("/access_groups/{id}/members"), method: lit("get"), expected: lit("list_group_members") });
    v.push(ParityCheck::Operation { path: lit("/access_groups/{id}/members/{user_name}"), method: lit("delete"), expected: lit("remove_user_from_group") });
    v.push(ParityCheck::Operation { path: lit("/users/{user_name}/groups"), method: lit("get"), expected: lit("list_user_groups") });
    v.push(ParityCheck::Operation { path: lit("/workflows/{id}/access_groups"), method: lit("post"), expected: lit("add_workflow_to_group") });
    v.push(ParityCheck::Operation { path: lit("/workflows/{id}/access_groups"), method: lit("get"), expected: lit("list_workflow_groups") });
    v.push(ParityCheck::Operation { path: lit("/workflows/{id}/access_groups/{group_id}"), method: lit("delete"), expected: lit("remove_workflow_from_group") });
    v.push(ParityCheck::Operation { path: lit("/access_check/{workflow_id}/{user_name}"), method: lit("get"), expected: lit("check_workflow_access") });
    let p7 = vec![lit("id"), lit("name"), lit("description"), lit("created_at")];
    proof {
        assert(strs_view(p7@) =~= seq!["id"@, "name"@, "description"@, "created_at"@]);
    }
    v.push(ParityCheck::Component { schema: lit("AccessGroupModel"), properties: p7 });
    let p8 = vec![lit("id"), lit("user_name"), lit("group_id"), lit("role"), lit("created_at")];
    proof {
        assert(strs_view(p8@) =~= seq!["id"@, "user_name"@, "group_id"@, "role"@, "created_at"@]);
    }
    v.push(ParityCheck::Component { schema: lit("UserGroupMembershipModel"), properties: p8 });
    let p9 = vec![lit("workflow_id"), lit("group_id"), lit("created_at")];
    proof {
        assert(strs_view(p9@) =~= seq!["workflow_id"@, "group_id"@, "created_at"@]);
    }
    v.push(ParityCheck::Component { schema: lit("WorkflowAccessGroupModel"), properties: p9 });
    let p10 = vec![lit("items"), lit("offset"), lit("limit"), lit("total_count"), lit("has_more")];
    proof {
        assert(strs_view(p10@) =~= seq!["items"@, "offset"@, "limit"@, "total_count"@, "has_more"@]);
    }
    v.push(ParityCheck::Component { schema: lit("ListAccessGroupsResponse"), properties: p10 });
    let p11 = vec![lit("items"), lit("offset"), lit("limit"), lit("total_count"), lit("has_more")];
    proof {
        assert(strs_view(p11@) =~= seq!["items"@, "offset"@, "limit"@, "total_count"@, "has_more"@]);
    }
    v.push(ParityCheck::Component { schema: lit("ListUserGroupMembershipsResponse"), properties: p11 });
    proof {
        assert(checks_view(v@) =~= checks_view(start) + parity_table_1());
    }
}

pub open spec fn parity_table_2() -> Seq<CheckSpec> {
    seq![
        CheckSpec::Component("AccessCheckResponse"@, seq!["has_access"@, "user_name"@, "workflow_id"@, "reason"@]),
        CheckSpec::Operation("/compute_nodes"@, "post"@, "create_compute_node"@),
        CheckSpec::Operation("/compute_nodes"@, "delete"@, "delete_compute_nodes"@),
        CheckSpec::Operation("/compute_nodes"@, "get"@, "list_compute_nodes"@),
        CheckSpec::Operation("/compute_nodes/{id}"@, "delete"@, "delete_compute_node"@),
        CheckSpec::Operation("/compute_nodes/{id}"@, "get"@, "get_compute_node"@),
        CheckSpec::Operation("/compute_nodes/{id}"@, "put"@, "update_compute_node"@),
        CheckSpec::Component("ComputeNodeModel"@, seq!["id"@, "workflow_id"@, "hostname"@, "pid"@, "start_time"@, "duration_seconds"@, "is_active"@, "num_cpus"@, "memory_gb"@, "num_gpus"@, "num_nodes"@, "time_limit"@, "scheduler_config_id"@, "compute_node_type"@, "scheduler"@]),
        CheckSpec::Component("ListComputeNodesResponse"@, seq!["items"@, "offset"@, "max_limit"@, "count"@, "total_count"@, "has_more"@]),
        CheckSpec::Operation("/events"@, "post"@, "create_event"@),
        CheckSpec::Operation("/events"@, "delete"@, "delete_events"@),
        CheckSpec::Operation("/events"@, "get"@, "list_events"@),
    ]
}

fn push_checks_2(v: &mut Vec<ParityCheck>)
    ensures
        checks_view(final(v)@) == checks_view(old(v)@) + parity_table_2(),
{
    let ghost start = v@;
    let p0 = vec![lit("has_access"), lit("user_name"), lit("workflow_id"), lit("reason")];
    proof {
        assert(strs_view(p0@) =~= seq!["has_access"@, "user_name"@, "workflow_id"@, "reason"@]);
    }
    v.push(ParityCheck::Component { schema: lit("AccessCheckResponse"), properties: p0 });
    v.push(ParityCheck::Operation { path: lit("/compute_nodes"), method: lit("post"), expected: lit("create_compute_node") });
    v.push(ParityCheck::Operation { path: lit("/compute_nodes"), method: lit("delete"), expected: lit("delete_compute_nodes") });
    v.push(ParityCheck::Operation { path: lit("/compute_nodes"), method: lit("get"), expected: lit("list_compute_nodes") });
    v.push(ParityCheck::Operation { path: lit("/compute_nodes/{id}"), method: lit("delete"), expected: lit("delete_compute_node") });
    v.push(ParityCheck::Operation { path: lit("/compute_nodes/{id}"), method: lit("get"), expected: lit("get_compute_node") });
    v.push(ParityCheck::Operation { path: lit("/compute_nodes/{id}"), method: lit("put"), expected: lit("update_compute_node") });
    let p7 = vec![lit("id"), lit("workflow_id"), lit("hostname"), lit("pid"), lit("start_time"), lit("duration_seconds"), lit("is_active"), lit("num_cpus"), lit("memory_gb"), lit("num_gpus"), lit("num_nodes"), lit("time_limit"), lit("scheduler_config_id"), lit("compute_node_type"), lit("scheduler")];
    proof {
        assert(strs_view(p7@) =~= seq!["id"@, "workflow_id"@, "hostname"@, "pid"@, "start_time"@, "duration_seconds"@, "is_active"@, "num_cpus"@, "memory_gb"@, "num_gpus"@, "num_nodes"@, "time_limit"@, "scheduler_config_id"@, "compute_node_type"@, "scheduler"@]);
    }
    v.push(ParityCheck::Component { schema: lit("ComputeNodeModel"), properties: p7 });
    let p8 = vec![lit("items"), lit("offset"), lit("max_limit"), lit("count"), lit("total_count"), lit("has_more")];
    proof {
        assert(strs_view(p8@) =~= seq!["items"@, "offset"@, "max_limit"@, "count"@, "total_count"@, "has_more"@]);
    }
    v.push(ParityCheck::Component { schema: lit("ListComputeNodesResponse"), properties: p8 });
    v.push(ParityCheck::Operation { path: lit("/events"), method: lit("post"), expected: lit("create_event") });
    v.push(ParityCheck::Operation { path: lit("/events"), method: lit("delete"), expected: lit("delete_events") });
    v.push(ParityCheck::Operation { path: lit("/events"), method: lit("get"), expected: lit("list_events") });
    proof {
        assert(checks_view(v@) =~= checks_view(start) + parity_table_2());
    }
}

pub open spec fn parity_table_3() -> Seq<CheckSpec> {
    seq![
        CheckSpec::Operation("/events/{id}"@, "delete"@, "delete_event"@),
        CheckSpec::Operation("/events/{id}"@, "get"@, "get_event"@),
        CheckSpec::Operation("/events/{id}"@, "put"@, "update_event"@),
        CheckSpec::Component("EventModel"@, seq!["id"@, "workflow_id"@, "timestamp"@, "data"@]),
        CheckSpec::Component("ListEventsResponse"@, seq!["items"@, "offset"@, "max_limit"@, "count"@, "total_count"@, "has_more"@]),
        CheckSpec::Operation("/files"@, "post"@, "create_file"@),
        CheckSpec::Operation("/files"@, "delete"@, "delete_files"@),
        CheckSpec::Operation("/files"@, "get"@, "list_files"@),
        CheckSpec::Operation("/files/{id}"@, "delete"@, "delete_file"@),
        CheckSpec::Operation("/files/{id}"@, "get"@, "get_file"@),
        CheckSpec::Operation("/files/{id}"@, "put"@, "update_file"@),
        CheckSpec::Component("FileModel"@, seq!["id"@, "workflow_id"@, "name"@, "path"@, "st_mtime"@]),
    ]
}

fn push_checks_3(v: &mut Vec<ParityCheck>)
    ensures
        checks_view(final(v)@) == checks_view(old(v)@) + parity_table_3(),
{
    let ghost start = v@;
    v.push(ParityCheck::Operation { path: lit("/events/{id}"), method: lit("delete"), expected: lit("delete_event") });
    v.push(ParityCheck::Operation { path: lit("/events/{id}"), method: lit("get"), expected: lit("get_event") });
    v.push(ParityCheck::Operation { path: lit("/events/{id}"), method: lit("put"), expected: lit("update_event") });
    let p3 = vec![lit("id"), lit("workflow_id"), lit("timestamp"), lit("data")];
    proof {
        assert(strs_view(p3@) =~= seq!["id"@, "workflow_id"@, "timestamp"@, "data"@]);
    }
    v.push(ParityCheck::Component { schema: lit("EventModel"), properties: p3 });
    let p4 = vec![lit("items"), lit("offset"), lit("max_limit"), lit("count"), lit("total_count"), lit("has_more")];
    proof {
        assert(strs_view(p4@) =~= seq!["items"@, "offset"@, "max_limit"@, "count"@, "total_count"@, "has_more"@]);
    }
    v.push(ParityCheck::Component { schema: lit("ListEventsResponse"), properties: p4 });
    v.push(ParityCheck::Operation { path: lit("/files"), method: lit("post"), expected: lit("create_file") });
    v.push(ParityCheck::Operation { path: lit("/files"), method: lit("delete"), expected: lit("delete_files") });
    v.push(ParityCheck::Operation { path: lit("/files"), method: lit("get"), expected: lit("list_files") });
    v.push(ParityCheck::Operation { path: lit("/files/{id}"), method: lit("delete"), expected: lit("delete_file") });
    v.push(ParityCheck::Operation { path: lit("/files/{id}"), method: lit("get"), expected: lit("get_file") });
    v.push(ParityCheck::Operation { path: lit("/files/{id}"), method: lit("put"), expected: lit("update_file") });
    let p11 = vec![lit("id"), lit("workflow_id"), lit("name"), lit("path"), lit("st_mtime")];
    proof {
        assert(strs_view(p11@) =~= seq!["id"@, "workflow_id"@, "name"@, "path"@, "st_mtime"@]);
    }
    v.push(ParityCheck::Component { schema: lit("FileModel"), properties: p11 });
    proof {
        assert(checks_view(v@) =~= checks_view(start) + parity_table_3());
    }
}

pub open spec fn parity_table_4() -> Seq<CheckSpec> {
    seq![
        CheckSpec::Component("ListFilesResponse"@, seq!["items"@, "offset"@, "max_limit"@, "count"@, "total_count"@, "has_more"@]),
        CheckSpec::Operation("/jobs"@, "post"@, "create_job"@),
        CheckSpec::Operation("/jobs"@, "delete"@, "delete_jobs"@),
        CheckSpec::Operation("/jobs"@, "get"@, "list_jobs"@),
        CheckSpec::Operation("/jobs/{id}"@, "delete"@, "delete_job"@),
        CheckSpec::Operation("/jobs/{id}"@, "get"@, "get_job"@),
        CheckSpec::Operation("/jobs/{id}"@, "put"@, "update_job"@),
        CheckSpec::Operation("/jobs/{id}/complete_job/{status}/{run_id}"@, "post"@, "complete_job"@),
        CheckSpec::Operation("/jobs/{id}/manage_status_change/{status}/{run_id}"@, "put"@, "manage_status_change"@),
        CheckSpec::Operation("/jobs/{id}/start_job/{run_id}/{compute_node_id}"@, "put"@, "start_job"@),
        CheckSpec::Operation("/jobs/{id}/retry/{run_id}"@, "post"@, "retry_job"@),
        CheckSpec::Component("JobModel"@, seq!["id"@, "workflow_id"@, "name"@, "command"@, "invocation_script"@, "status"@, "cancel_on_blocking_job_failure"@, "supports_termination"@, "depends_on_job_ids"@, "input_file_ids"@, "output_file_ids"@, "input_user_data_ids"@, "output_user_data_ids"@, "resource_requirements_id"@, "scheduler_id"@, "failure_handler_id"@, "attempt_id"@]),
    ]
}

fn push_checks_4(v: &mut Vec<ParityCheck>)
    ensures
        checks_view(final(v)@) == checks_view(old(v)@) + parity_table_4(),
{
    let ghost start = v@;
    let p0 = vec![lit("items"), lit("offset"), lit("max_limit"), lit("count"), lit("total_count"), lit("has_more")];
    proof {
        assert(strs_view(p0@) =~= seq!["items"@, "offset"@, "max_limit"@, "count"@, "total_count"@, "has_more"@]);
    }
    v.push(ParityCheck::Component { schema: lit("ListFilesResponse"), properties: p0 });
    v.push(ParityCheck::Operation { path: lit("/jobs"), method: lit("post"), expected: lit("create_job") });
    v.push(ParityCheck::Operation { path: lit("/jobs"), method: lit("delete"), expected: lit("delete_jobs") });
    v.push(ParityCheck::Operation { path: lit("/jobs"), method: lit("get"), expected: lit("list_jobs") });
    v.push(ParityCheck::Operation { path: lit("/jobs/{id}"), method: lit("delete"), expected: lit("delete_job") });
    v.push(ParityCheck::Operation { path: lit("/jobs/{id}"), method: lit("get"), expected: lit("get_job") });
    v.push(ParityCheck::Operation { path: lit("/jobs/{id}"), method: lit("put"), expected: lit("update_job") });
    v.push(ParityCheck::Operation { path: lit("/jobs/{id}/complete_job/{status}/{run_id}"), method: lit("post"), expected: lit("complete_job") });
    v.push(ParityCheck::Operation { path: lit("/jobs/{id}/manage_status_change/{status}/{run_id}"), method: lit("put"), expected: lit("manage_status_change") });
    v.push(ParityCheck::Operation { path: lit("/jobs/{id}/start_job/{run_id}/{compute_node_id}"), method: lit("put"), expected: lit("start_job") });
    v.push(ParityCheck::Operation { path: lit("/jobs/{id}/retry/{run_id}"), method: lit("post"), expected: lit("retry_job") });
    let p11 = vec![lit("id"), lit("workflow_id"), lit("name"), lit("command"), lit("invocation_script"), lit("status"), lit("cancel_on_blocking_job_failure"), lit("supports_termination"), lit("depends_on_job_ids"), lit("input_file_ids"), lit("output_file_ids"), lit("input_user_data_ids"), lit("output_user_data_ids"), lit("resource_requirements_id"), lit("scheduler_id"), lit("failure_handler_id"), lit("attempt_id")];
    proof {
        assert(strs_view(p11@) =~= seq!["id"@, "workflow_id"@, "name"@, "command"@, "invocation_script"@, "status"@, "cancel_on_blocking_job_failure"@, "supports_termination"@, "depends_on_job_ids"@, "input_file_ids"@, "output_file_ids"@, "input_user_data_ids"@, "output_user_data_ids"@, "resource_requirements_id"@, "scheduler_id"@, "failure_handler_id"@, "attempt_id"@]);
    }
    v.push(ParityCheck::Component { schema: lit("JobModel"), properties: p11 });
    proof {
        assert(checks_view(v@) =~= checks_view(start) + parity_table_4());
    }
}

pub open spec fn parity_table_5() -> Seq<CheckSpec> {
    seq![
        CheckSpec::Component("ListJobsResponse"@, seq!["items"@, "offset"@, "max_limit"@, "count"@, "total_count"@, "has_more"@]),
        CheckSpec::Operation("/local_schedulers"@, "post"@, "create_local_scheduler"@),
        CheckSpec::Operation("/local_schedulers"@, "delete"@, "delete_local_schedulers"@),
        CheckSpec::Operation("/local_schedulers"@, "get"@, "list_local_schedulers"@),
        CheckSpec::Operation("/local_schedulers/{id}"@, "delete"@, "delete_local_scheduler"@),
        CheckSpec::Operation("/local_schedulers/{id}"@, "get"@, "get_local_scheduler"@),
        CheckSpec::Operation("/local_schedulers/{id}"@, "put"@, "update_local_scheduler"@),
        CheckSpec::Component("LocalSchedulerModel"@, seq!["id"@, "workflow_id"@, "name"@, "memory"@, "num_cpus"@]),
        CheckSpec::Component("ListLocalSchedulersResponse"@, seq!["items"@, "offset"@, "max_limit"@, "count"@, "total_count"@, "has_more"@]),
        CheckSpec::Operation("/resource_requirements"@, "post"@, "create_resource_requirements"@),
        CheckSpec::Operation("/resource_requirements"@, "delete"@, "delete_resource_requirements"@),
        CheckSpec::Operation("/resource_requirements"@, "get"@, "list_resource_requirements"@),
    ]
}

fn push_checks_5(v: &mut Vec<ParityCheck>)
    ensures
        checks_view(final(v)@) == checks_view(old(v)@) + parity_table_5(),
{
    let ghost start = v@;
    let p0 = vec![lit("items"), lit("offset"), lit("max_limit"), lit("count"), lit("total_count"), lit("has_more")];
    proof {
        assert(strs_view(p0@) =~= seq!["items"@, "offset"@, "max_limit"@, "count"@, "total_count"@, "has_more"@]);
    }
    v.push(ParityCheck::Component { schema: lit("ListJobsResponse"), properties: p0 });
    v.push(ParityCheck::Operation { path: lit("/local_schedulers"), method: lit("post"), expected: lit("create_local_scheduler") });
    v.push(ParityCheck::Operation { path: lit("/local_schedulers"), method: lit("delete"), expected: lit("delete_local_schedulers") });
    v.push(ParityCheck::Operation { path: lit("/local_schedulers"), method: lit("get"), expected: lit("list_local_schedulers") });
    v.push(ParityCheck::Operation { path: lit("/local_schedulers/{id}"), method: lit("delete"), expected: lit("delete_local_scheduler") });
    v.push(ParityCheck::Operation { path: lit("/local_schedulers/{id}"), method: lit("get"), expected: lit("get_local_scheduler") });
    v.push(ParityCheck::Operation { path: lit("/local_schedulers/{id}"), method: lit("put"), expected: lit("update_local_scheduler") });
    let p7 = vec![lit("id"), lit("workflow_id"), lit("name"), lit("memory"), lit("num_cpus")];
    proof {
        assert(strs_view(p7@) =~= seq!["id"@, "workflow_id"@, "name"@, "memory"@, "num_cpus"@]);
    }
    v.push(ParityCheck::Component { schema: lit("LocalSchedulerModel"), properties: p7 });
    let p8 = vec![lit("items"), lit("offset"), lit("max_limit"), lit("count"), lit("total_count"), lit("has_more")];
    proof {
        assert(strs_view(p8@) =~= seq!["items"@, "offset"@, "max_limit"@, "count"@, "total_count"@, "has_more"@]);
    }
    v.push(ParityCheck::Component { schema: lit("ListLocalSchedulersResponse"), properties: p8 });
    v.push(ParityCheck::Operation { path: lit("/resource_requirements"), method: lit("post"), expected: lit("create_resource_requirements") });
    v.push(ParityCheck::Operation { path: lit("/resource_requirements"), method: lit("delete"), expected: lit("delete_resource_requirements") });
    v.push(ParityCheck::Operation { path: lit("/resource_requirements"), method: lit("get"), expected: lit("list_resource_requirements") });
    proof {
        assert(checks_view(v@) =~= checks_view(start) + parity_table_5());
    }
}

pub open spec fn parity_table_6() -> Seq<CheckSpec> {
    seq![
        CheckSpec::Operation("/resource_requirements/{id}"@, "delete"@, "delete_resource_requirement"@),
        CheckSpec::Operation("/resource_requirements/{id}"@, "get"@, "get_resource_requirements"@),
        CheckSpec::Operation("/resource_requirements/{id}"@, "put"@, "update_resource_requirements"@),
        CheckSpec::Component("ResourceRequirementsModel"@, seq!["id"@, "workflow_id"@, "name"@, "num_cpus"@, "num_gpus"@, "num_nodes"@, "memory"@, "runtime"@]),
        CheckSpec::Component("ListResourceRequirementsResponse"@, seq!["items"@, "offset"@, "max_limit"@, "count"@, "total_count"@, "has_more"@]),
        CheckSpec::Operation("/failure_handlers"@, "post"@, "create_failure_handler"@),
        CheckSpec::Operation("/failure_handlers/{id}"@, "get"@, "get_failure_handler"@),
        CheckSpec::Operation("/failure_handlers/{id}"@, "delete"@, "delete_failure_handler"@),
        CheckSpec::Operation("/workflows/{id}/failure_handlers"@, "get"@, "list_failure_handlers"@),
        CheckSpec::Component("FailureHandlerModel"@, seq!["id"@, "workflow_id"@, "name"@, "rules"@]),
        CheckSpec::Component("ListFailureHandlersResponse"@, seq!["items"@, "offset"@, "max_limit"@, "count"@, "total_count"@, "has_more"@]),
        CheckSpec::Operation("/results"@, "post"@, "create_result"@),
    ]
}

fn push_checks_6(v: &mut Vec<ParityCheck>)
    ensures
        checks_view(final(v)@) == checks_view(old(v)@) + parity_table_6(),
{
    let ghost start = v@;
    v.push(ParityCheck::Operation { path: lit("/resource_requirements/{id}"), method: lit("delete"), expected: lit("delete_resource_requirement") });
    v.push(ParityCheck::Operation { path: lit("/resource_requirements/{id}"), method: lit("get"), expected: lit("get_resource_requirements") });
    v.push(ParityCheck::Operation { path: lit("/resource_requirements/{id}"), method: lit("put"), expected: lit("update_resource_requirements") });
    let p3 = vec![lit("id"), lit("workflow_id"), lit("name"), lit("num_cpus"), lit("num_gpus"), lit("num_nodes"), lit("memory"), lit("runtime")];
    proof {
        assert(strs_view(p3@) =~= seq!["id"@, "workflow_id"@, "name"@, "num_cpus"@, "num_gpus"@, "num_nodes"@, "memory"@, "runtime"@]);
    }
    v.push(ParityCheck::Component { schema: lit("ResourceRequirementsModel"), properties: p3 });
    let p4 = vec![lit("items"), lit("offset"), lit("max_limit"), lit("count"), lit("total_count"), lit("has_more")];
    proof {
        assert(strs_view(p4@) =~= seq!["items"@, "offset"@, "max_limit"@, "count"@, "total_count"@, "has_more"@]);
    }
    v.push(ParityCheck::Component { schema: lit("ListResourceRequirementsResponse"), properties: p4 });
    v.push(ParityCheck::Operation { path: lit("/failure_handlers"), method: lit("post"), expected: lit("create_failure_handler") });
    v.push(ParityCheck::Operation { path: lit("/failure_handlers/{id}"), method: lit("get"), expected: lit("get_failure_handler") });
    v.push(ParityCheck::Operation { path: lit("/failure_handlers/{id}"), method: lit("delete"), expected: lit("delete_failure_handler") });
    v.push(ParityCheck::Operation { path: lit("/workflows/{id}/failure_handlers"), method: lit("get"), expected: lit("list_failure_handlers") });
    let p9 = vec![lit("id"), lit("workflow_id"), lit("name"), lit("rules")];
    proof {
        assert(strs_view(p9@) =~= seq!["id"@, "workflow_id"@, "name"@, "rules"@]);
    }
    v.push(ParityCheck::Component { schema: lit("FailureHandlerModel"), properties: p9 });
    let p10 = vec![lit("items"), lit("offset"), lit("max_limit"), lit("count"), lit("total_count"), lit("has_more")];
    proof {
        assert(strs_view(p10@) =~= seq!["items"@, "offset"@, "max_limit"@, "count"@, "total_count"@, "has_more"@]);
    }
    v.push(ParityCheck::Component { schema: lit("ListFailureHandlersResponse"), properties: p10 });
    v.push(ParityCheck::Operation { path: lit("/results"), method: lit("post"), expected: lit("create_result") });
    proof {
        assert(checks_view(v@) =~= checks_view(start) + parity_table_6());
    }
}

pub open spec fn parity_table_7() -> Seq<CheckSpec> {
    seq![
        CheckSpec::Operation("/results"@, "delete"@, "delete_results"@),
        CheckSpec::Operation("/results"@, "get"@, "list_results"@),
        CheckSpec::Operation("/results/{id}"@, "delete"@, "delete_result"@),
        CheckSpec::Operation("/results/{id}"@, "get"@, "get_result"@),
        CheckSpec::Operation("/results/{id}"@, "put"@, "update_result"@),
        CheckSpec::Component("ResultModel"@, seq!["id"@, "job_id"@, "workflow_id"@, "run_id"@, "attempt_id"@, "compute_node_id"@, "return_code"@, "exec_time_minutes"@, "completion_time"@, "peak_memory_bytes"@, "avg_memory_bytes"@, "peak_cpu_percent"@, "avg_cpu_percent"@, "status"@]),
        CheckSpec::Component("ListResultsResponse"@, seq!["items"@, "offset"@, "max_limit"@, "count"@, "total_count"@, "has_more"@]),
        CheckSpec::Operation("/scheduled_compute_nodes"@, "post"@, "create_scheduled_compute_node"@),
        CheckSpec::Operation("/scheduled_compute_nodes"@, "delete"@, "delete_scheduled_compute_nodes"@),
        CheckSpec::Operation("/scheduled_compute_nodes"@, "get"@, "list_scheduled_compute_nodes"@),
        CheckSpec::Operation("/scheduled_compute_nodes/{id}"@, "delete"@, "delete_scheduled_compute_node"@),
        CheckSpec::Operation("/scheduled_compute_nodes/{id}"@, "get"@, "get_scheduled_compute_node"@),
    ]
}

fn push_checks_7(v: &mut Vec<ParityCheck>)
    ensures
        checks_view(final(v)@) == checks_view(old(v)@) + parity_table_7(),
{
    let ghost start = v@;
    v.push(ParityCheck::Operation { path: lit("/results"), method: lit("delete"), expected: lit("delete_results") });
    v.push(ParityCheck::Operation { path: lit("/results"), method: lit("get"), expected: lit("list_results") });
    v.push(ParityCheck::Operation { path: lit("/results/{id}"), method: lit("delete"), expected: lit("delete_result") });
    v.push(ParityCheck::Operation { path: lit("/results/{id}"), method: lit("get"), expected: lit("get_result") });
    v.push(ParityCheck::Operation { path: lit("/results/{id}"), method: lit("put"), expected: lit("update_result") });
    let p5 = vec![lit("id"), lit("job_id"), lit("workflow_id"), lit("run_id"), lit("attempt_id"), lit("compute_node_id"), lit("return_code"), lit("exec_time_minutes"), lit("completion_time"), lit("peak_memory_bytes"), lit("avg_memory_bytes"), lit("peak_cpu_percent"), lit("avg_cpu_percent"), lit("status")];
    proof {
        assert(strs_view(p5@) =~= seq!["id"@, "job_id"@, "workflow_id"@, "run_id"@, "attempt_id"@, "compute_node_id"@, "return_code"@, "exec_time_minutes"@, "completion_time"@, "peak_memory_bytes"@, "avg_memory_bytes"@, "peak_cpu_percent"@, "avg_cpu_percent"@, "status"@]);
    }
    v.push(ParityCheck::Component { schema: lit("ResultModel"), properties: p5 });
    let p6 = vec![lit("items"), lit("offset"), lit("max_limit"), lit("count"), lit("total_count"), lit("has_more")];
    proof {
        assert(strs_view(p6@) =~= seq!["items"@, "offset"@, "max_limit"@, "count"@, "total_count"@, "has_more"@]);
    }
    v.push(ParityCheck::Component { schema: lit("ListResultsResponse"), properties: p6 });
    v.push(ParityCheck::Operation { path: lit("/scheduled_compute_nodes"), method: lit("post"), expected: lit("create_scheduled_compute_node") });
    v.push(ParityCheck::Operation { path: lit("/scheduled_compute_nodes"), method: lit("delete"), expected: lit("delete_scheduled_compute_nodes") });
    v.push(ParityCheck::Operation { path: lit("/scheduled_compute_nodes"), method: lit("get"), expected: lit("list_scheduled_compute_nodes") });
    v.push(ParityCheck::Operation { path: lit("/scheduled_compute_nodes/{id}"), method: lit("delete"), expected: lit("delete_scheduled_compute_node") });
    v.push(ParityCheck::Operation { path: lit("/scheduled_compute_nodes/{id}"), method: lit("get"), expected: lit("get_scheduled_compute_node") });
    proof {
        assert(checks_view(v@) =~= checks_view(start) + parity_table_7());
    }
}

pub open spec fn parity_table_8() -> Seq<CheckSpec> {
    seq![
        CheckSpec::Operation("/scheduled_compute_nodes/{id}"@, "put"@, "update_scheduled_compute_node"@),
        CheckSpec::Component("ScheduledComputeNodesModel"@, seq!["id"@, "workflow_id"@, "scheduler_id"@, "scheduler_config_id"@, "scheduler_type"@, "status"@]),
        CheckSpec::Component("ListScheduledComputeNodesResponse"@, seq!["items"@, "offset"@, "max_limit"@, "count"@, "total_count"@, "has_more"@]),
        CheckSpec::Operation("/slurm_schedulers"@, "post"@, "create_slurm_scheduler"@),
        CheckSpec::Operation("/slurm_schedulers"@, "delete"@, "delete_slurm_schedulers"@),
        CheckSpec::Operation("/slurm_schedulers"@, "get"@, "list_slurm_schedulers"@),
        CheckSpec::Operation("/slurm_schedulers/{id}"@, "delete"@, "delete_slurm_scheduler"@),
        CheckSpec::Operation("/slurm_schedulers/{id}"@, "get"@, "get_slurm_scheduler"@),
        CheckSpec::Operation("/slurm_schedulers/{id}"@, "put"@, "update_slurm_scheduler"@),
        CheckSpec::Component("SlurmSchedulerModel"@, seq!["id"@, "workflow_id"@, "name"@, "account"@, "gres"@, "mem"@, "nodes"@, "ntasks_per_node"@, "partition"@, "qos"@, "tmp"@, "walltime"@, "extra"@]),
        CheckSpec::Component("ListSlurmSchedulersResponse"@, seq!["items"@, "offset"@, "max_limit"@, "count"@, "total_count"@, "has_more"@]),
        CheckSpec::Operation("/slurm_stats"@, "post"@, "create_slurm_stats"@),
    ]
}

fn push_checks_8(v: &mut Vec<ParityCheck>)
    ensures
        checks_view(final(v)@) == checks_view(old(v)@) + parity_table_8(),
{
    let ghost start = v@;
    v.push(ParityCheck::Operation { path: lit("/scheduled_compute_nodes/{id}"), method: lit("put"), expected: lit("update_scheduled_compute_node") });
    let p1 = vec![lit("id"), lit("workflow_id"), lit("scheduler_id"), lit("scheduler_config_id"), lit("scheduler_type"), lit("status")];
    proof {
        assert(strs_view(p1@) =~= seq!["id"@, "workflow_id"@, "scheduler_id"@, "scheduler_config_id"@, "scheduler_type"@, "status"@]);
    }
    v.push(ParityCheck::Component { schema: lit("ScheduledComputeNodesModel"), properties: p1 });
    let p2 = vec![lit("items"), lit("offset"), lit("max_limit"), lit("count"), lit("total_count"), lit("has_more")];
    proof {
        assert(strs_view(p2@) =~= seq!["items"@, "offset"@, "max_limit"@, "count"@, "total_count"@, "has_more"@]);
    }
    v.push(ParityCheck::Component { schema: lit("ListScheduledComputeNodesResponse"), properties: p2 });
    v.push(ParityCheck::Operation { path: lit("/slurm_schedulers"), method: lit("post"), expected: lit("create_slurm_scheduler") });
    v.push(ParityCheck::Operation { path: lit("/slurm_schedulers"), method: lit("delete"), expected: lit("delete_slurm_schedulers") });
    v.push(ParityCheck::Operation { path: lit("/slurm_schedulers"), method: lit("get"), expected: lit("list_slurm_schedulers") });
    v.push(ParityCheck::Operation { path: lit("/slurm_schedulers/{id}"), method: lit("delete"), expected: lit("delete_slurm_scheduler") });
    v.push(ParityCheck::Operation { path: lit("/slurm_schedulers/{id}"), method: lit("get"), expected: lit("get_slurm_scheduler") });
    v.push(ParityCheck::Operation { path: lit("/slurm_schedulers/{id}"), method: lit("put"), expected: lit("update_slurm_scheduler") });
    let p9 = vec![lit("id"), lit("workflow_id"), lit("name"), lit("account"), lit("gres"), lit("mem"), lit("nodes"), lit("ntasks_per_node"), lit("partition"), lit("qos"), lit("tmp"), lit("walltime"), lit("extra")];
    proof {
        assert(strs_view(p9@) =~= seq!["id"@, "workflow_id"@, "name"@, "account"@, "gres"@, "mem"@, "nodes"@, "ntasks_per_node"@, "partition"@, "qos"@, "tmp"@, "walltime"@, "extra"@]);
    }
    v.push(ParityCheck::Component { schema: lit("SlurmSchedulerModel"), properties: p9 });
    let p10 = vec![lit("items"), lit("offset"), lit("max_limit"), lit("count"), lit("total_count"), lit("has_more")];
    proof {
        assert(strs_view(p10@) =~= seq!["items"@, "offset"@, "max_limit"@, "count"@, "total_count"@, "has_more"@]);
    }
    v.push(ParityCheck::Component { schema: lit("ListSlurmSchedulersResponse"), properties: p10 });
    v.push(ParityCheck::Operation { path: lit("/slurm_stats"), method: lit("post"), expected: lit("create_slurm_stats") });
    proof {
        assert(checks_view(v@) =~= checks_view(start) + parity_table_8());
    }
}

pub open spec fn parity_table_9() -> Seq<CheckSpec> {
    seq![
        CheckSpec::Operation("/slurm_stats"@, "get"@, "list_slurm_stats"@),
        CheckSpec::Component("SlurmStatsModel"@, seq!["id"@, "workflow_id"@, "job_id"@, "run_id"@, "attempt_id"@, "slurm_job_id"@, "max_rss_bytes"@, "max_vm_size_bytes"@, "max_disk_read_bytes"@, "max_disk_write_bytes"@, "ave_cpu_seconds"@, "node_list"@]),
        CheckSpec::Component("ListSlurmStatsResponse"@, seq!["items"@, "offset"@, "max_limit"@, "count"@, "total_count"@, "has_more"@]),
        CheckSpec::Operation("/workflows/{id}/actions"@, "post"@, "create_workflow_action"@),
        CheckSpec::Operation("/workflows/{id}/actions"@, "get"@, "get_workflow_actions"@),
        CheckSpec::Operation("/workflows/{id}/actions/pending"@, "get"@, "get_pending_actions"@),
        CheckSpec::Operation("/workflows/{id}/actions/{action_id}/claim"@, "post"@, "claim_action"@),
        CheckSpec::Component("WorkflowActionModel"@, seq!["id"@, "workflow_id"@, "trigger_type"@, "action_type"@, "action_config"@, "job_ids"@, "trigger_count"@, "required_triggers"@, "executed"@, "executed_at"@, "executed_by"@, "persistent"@, "is_recovery"@]),
        CheckSpec::Component("ClaimActionRequest"@, seq!["compute_node_id"@]),
        CheckSpec::Component("ClaimActionResponse"@, seq!["action_id"@, "success"@]),
        CheckSpec::Operation("/workflows/{id}/remote_workers"@, "post"@, "create_remote_workers"@),
        CheckSpec::Operation("/workflows/{id}/remote_workers"@, "get"@, "list_remote_workers"@),
    ]
}

fn push_checks_9(v: &mut Vec<ParityCheck>)
    ensures
        checks_view(final(v)@) == checks_view(old(v)@) + parity_table_9(),
{
    let ghost start = v@;
    v.push(ParityCheck::Operation { path: lit("/slurm_stats"), method: lit("get"), expected: lit("list_slurm_stats") });
    let p1 = vec![lit("id"), lit("workflow_id"), lit("job_id"), lit("run_id"), lit("attempt_id"), lit("slurm_job_id"), lit("max_rss_bytes"), lit("max_vm_size_bytes"), lit("max_disk_read_bytes"), lit("max_disk_write_bytes"), lit("ave_cpu_seconds"), lit("node_list")];
    proof {
        assert(strs_view(p1@) =~= seq!["id"@, "workflow_id"@, "job_id"@, "run_id"@, "attempt_id"@, "slurm_job_id"@, "max_rss_bytes"@, "max_vm_size_bytes"@, "max_disk_read_bytes"@, "max_disk_write_bytes"@, "ave_cpu_seconds"@, "node_list"@]);
    }
    v.push(ParityCheck::Component { schema: lit("SlurmStatsModel"), properties: p1 });
    let p2 = vec![lit("items"), lit("offset"), lit("max_limit"), lit("count"), lit("total_count"), lit("has_more")];
    proof {
        assert(strs_view(p2@) =~= seq!["items"@, "offset"@, "max_limit"@, "count"@, "total_count"@, "has_more"@]);
    }
    v.push(ParityCheck::Component { schema: lit("ListSlurmStatsResponse"), properties: p2 });
    v.push(ParityCheck::Operation { path: lit("/workflows/{id}/actions"), method: lit("post"), expected: lit("create_workflow_action") });
    v.push(ParityCheck::Operation { path: lit("/workflows/{id}/actions"), method: lit("get"), expected: lit("get_workflow_actions") });
    v.push(ParityCheck::Operation { path: lit("/workflows/{id}/actions/pending"), method: lit("get"), expected: lit("get_pending_actions") });
    v.push(ParityCheck::Operation { path: lit("/workflows/{id}/actions/{action_id}/claim"), method: lit("post"), expected: lit("claim_action") });
    let p7 = vec![lit("id"), lit("workflow_id"), lit("trigger_type"), lit("action_type"), lit("action_config"), lit("job_ids"), lit("trigger_count"), lit("required_triggers"), lit("executed"), lit("executed_at"), lit("executed_by"), lit("persistent"), lit("is_recovery")];
    proof {
        assert(strs_view(p7@) =~= seq!["id"@, "workflow_id"@, "trigger_type"@, "action_type"@, "action_config"@, "job_ids"@, "trigger_count"@, "required_triggers"@, "executed"@, "executed_at"@, "executed_by"@, "persistent"@, "is_recovery"@]);
    }
    v.push(ParityCheck::Component { schema: lit("WorkflowActionModel"), properties: p7 });
    let p8 = vec![lit("compute_node_id")];
    proof {
        assert(strs_view(p8@) =~= seq!["compute_node_id"@]);
    }
    v.push(ParityCheck::Component { schema: lit("ClaimActionRequest"), properties: p8 });
    let p9 = vec![lit("action_id"), lit("success")];
    proof {
        assert(strs_view(p9@) =~= seq!["action_id"@, "success"@]);
    }
    v.push(ParityCheck::Component { schema: lit("ClaimActionResponse"), properties: p9 });
    v.push(ParityCheck::Operation { path: lit("/workflows/{id}/remote_workers"), method: lit("post"), expected: lit("create_remote_workers") });
    v.push(ParityCheck::Operation { path: lit("/workflows/{id}/remote_workers"), method: lit("get"), expected: lit("list_remote_workers") });
    proof {
        assert(checks_view(v@) =~= checks_view(start) + parity_table_9());
    }
}

pub open spec fn parity_table_10() -> Seq<CheckSpec> {
    seq![
        CheckSpec::Operation("/workflows/{id}/remote_workers/{worker}"@, "delete"@, "delete_remote_worker"@),
        CheckSpec::Component("RemoteWorkerModel"@, seq!["worker"@, "workflow_id"@]),
        CheckSpec::Operation("/ro_crate_entities"@, "post"@, "create_ro_crate_entity"@),
        CheckSpec::Operation("/ro_crate_entities/{id}"@, "get"@, "get_ro_crate_entity"@),
        CheckSpec::Operation("/ro_crate_entities/{id}"@, "put"@, "update_ro_crate_entity"@),
        CheckSpec::Operation("/ro_crate_entities/{id}"@, "delete"@, "delete_ro_crate_entity"@),
        CheckSpec::Operation("/workflows/{id}/ro_crate_entities"@, "get"@, "list_ro_crate_entities"@),
        CheckSpec::Operation("/workflows/{id}/ro_crate_entities"@, "delete"@, "delete_ro_crate_entities"@),
        CheckSpec::Component("RoCrateEntityModel"@, seq!["id"@, "workflow_id"@, "file_id"@, "entity_id"@, "entity_type"@, "metadata"@]),
        CheckSpec::Component("ListRoCrateEntitiesResponse"@, seq!["items"@, "offset"@, "max_limit"@, "count"@, "total_count"@, "has_more"@]),
        CheckSpec::Component("MessageResponse"@, seq!["message"@]),
        CheckSpec::Component("DeleteRoCrateEntitiesResponse"@, seq!["message"@, "deleted_count"@]),
    ]
}

fn push_checks_10(v: &mut Vec<ParityCheck>)
    ensures
        checks_view(final(v)@) == checks_view(old(v)@) + parity_table_10(),
{
    let ghost start = v@;
    v.push(ParityCheck::Operation { path: lit("/workflows/{id}/remote_workers/{worker}"), method: lit("delete"), expected: lit("delete_remote_worker") });
    let p1 = vec![lit("worker"), lit("workflow_id")];
    proof {
        assert(strs_view(p1@) =~= seq!["worker"@, "workflow_id"@]);
    }
    v.push(ParityCheck::Component { schema: lit("RemoteWorkerModel"), properties: p1 });
    v.push(ParityCheck::Operation { path: lit("/ro_crate_entities"), method: lit("post"), expected: lit("create_ro_crate_entity") });
    v.push(ParityCheck::Operation { path: lit("/ro_crate_entities/{id}"), method: lit("get"), expected: lit("get_ro_crate_entity") });
    v.push(ParityCheck::Operation { path: lit("/ro_crate_entities/{id}"), method: lit("put"), expected: lit("update_ro_crate_entity") });
    v.push(ParityCheck::Operation { path: lit("/ro_crate_entities/{id}"), method: lit("delete"), expected: lit("delete_ro_crate_entity") });
    v.push(ParityCheck::Operation { path: lit("/workflows/{id}/ro_crate_entities"), method: lit("get"), expected: lit("list_ro_crate_entities") });
    v.push(ParityCheck::Operation { path: lit("/workflows/{id}/ro_crate_entities"), method: lit("delete"), expected: lit("delete_ro_crate_entities") });
    let p8 = vec![lit("id"), lit("workflow_id"), lit("file_id"), lit("entity_id"), lit("entity_type"), lit("metadata")];
    proof {
        assert(strs_view(p8@) =~= seq!["id"@, "workflow_id"@, "file_id"@, "entity_id"@, "entity_type"@, "metadata"@]);
    }
    v.push(ParityCheck::Component { schema: lit("RoCrateEntityModel"), properties: p8 });
    let p9 = vec![lit("items"), lit("offset"), lit("max_limit"), lit("count"), lit("total_count"), lit("has_more")];
    proof {
        assert(strs_view(p9@) =~= seq!["items"@, "offset"@, "max_limit"@, "count"@, "total_count"@, "has_more"@]);
    }
    v.push(ParityCheck::Component { schema: lit("ListRoCrateEntitiesResponse"), properties: p9 });
    let p10 = vec![lit("message")];
    proof {
        assert(strs_view(p10@) =~= seq!["message"@]);
    }
    v.push(ParityCheck::Component { schema: lit("MessageResponse"), properties: p10 });
    let p11 = vec![lit("message"), lit("deleted_count")];
    proof {
        assert(strs_view(p11@) =~= seq!["message"@, "deleted_count"@]);
    }
    v.push(ParityCheck::Component { schema: lit("DeleteRoCrateEntitiesResponse"), properties: p11 });
    proof {
        assert(checks_view(v@) =~= checks_view(start) + parity_table_10());
    }
}

pub open spec fn parity_table_11() -> Seq<CheckSpec> {
    seq![
        CheckSpec::Operation("/admin/reload-auth"@, "post"@, "reload_auth"@),
        CheckSpec::Component("ReloadAuthResponse"@, seq!["message"@, "user_count"@]),
        CheckSpec::Operation("/workflows"@, "get"@, "list_workflows"@),
        CheckSpec::Operation("/workflows"@, "post"@, "create_workflow"@),
        CheckSpec::Operation("/workflows/{id}"@, "delete"@, "delete_workflow"@),
        CheckSpec::Operation("/workflows/{id}"@, "get"@, "get_workflow"@),
        CheckSpec::Operation("/workflows/{id}"@, "put"@, "update_workflow"@),
        CheckSpec::Operation("/workflows/{id}/cancel"@, "put"@, "cancel_workflow"@),
        CheckSpec::Operation("/workflows/{id}/initialize_jobs"@, "post"@, "initialize_jobs"@),
        CheckSpec::Operation("/workflows/{id}/is_complete"@, "get"@, "is_workflow_complete"@),
        CheckSpec::Operation("/workflows/{id}/is_uninitialized"@, "get"@, "is_workflow_uninitialized"@),
        CheckSpec::Operation("/workflows/{id}/reset_status"@, "post"@, "reset_workflow_status"@),
    ]
}

fn push_checks_11(v: &mut Vec<ParityCheck>)
    ensures
        checks_view(final(v)@) == checks_view(old(v)@) + parity_table_11(),
{
    let ghost start = v@;
    v.push(ParityCheck::Operation { path: lit("/admin/reload-auth"), method: lit("post"), expected: lit("reload_auth") });
    let p1 = vec![lit("message"), lit("user_count")];
    proof {
        assert(strs_view(p1@) =~= seq!["message"@, "user_count"@]);
    }
    v.push(ParityCheck::Component { schema: lit("ReloadAuthResponse"), properties: p1 });
    v.push(ParityCheck::Operation { path: lit("/workflows"), method: lit("get"), expected: lit("list_workflows") });
    v.push(ParityCheck::Operation { path: lit("/workflows"), method: lit("post"), expected: lit("create_workflow") });
    v.push(ParityCheck::Operation { path: lit("/workflows/{id}"), method: lit("delete"), expected: lit("delete_workflow") });
    v.push(ParityCheck::Operation { path: lit("/workflows/{id}"), method: lit("get"), expected: lit("get_workflow") });
    v.push(ParityCheck::Operation { path: lit("/workflows/{id}"), method: lit("put"), expected: lit("update_workflow") });
    v.push(ParityCheck::Operation { path: lit("/workflows/{id}/cancel"), method: lit("put"), expected: lit("cancel_workflow") });
    v.push(ParityCheck::Operation { path: lit("/workflows/{id}/initialize_jobs"), method: lit("post"), expected: lit("initialize_jobs") });
    v.push(ParityCheck::Operation { path: lit("/workflows/{id}/is_complete"), method: lit("get"), expected: lit("is_workflow_complete") });
    v.push(ParityCheck::Operation { path: lit("/workflows/{id}/is_uninitialized"), method: lit("get"), expected: lit("is_workflow_uninitialized") });
    v.push(ParityCheck::Operation { path: lit("/workflows/{id}/reset_status"), method: lit("post"), expected: lit("reset_workflow_status") });
    proof {
        assert(checks_view(v@) =~= checks_view(start) + parity_table_11());
    }
}

pub open spec fn parity_table_12() -> Seq<CheckSpec> {
    seq![
        CheckSpec::Operation("/workflows/{id}/reset_job_status"@, "post"@, "reset_job_status"@),
        CheckSpec::Operation("/workflows/{id}/status"@, "get"@, "get_workflow_status"@),
        CheckSpec::Operation("/workflows/{id}/status"@, "put"@, "update_workflow_status"@),
        CheckSpec::Operation("/workflows/{id}/claim_jobs_based_on_resources/{limit}"@, "post"@, "claim_jobs_based_on_resources"@),
        CheckSpec::Operation("/workflows/{id}/claim_next_jobs"@, "post"@, "claim_next_jobs"@),
        CheckSpec::Operation("/workflows/{id}/job_dependencies"@, "get"@, "list_job_dependencies"@),
        CheckSpec::Operation("/workflows/{id}/job_file_relationships"@, "get"@, "list_job_file_relationships"@),
        CheckSpec::Operation("/workflows/{id}/job_user_data_relationships"@, "get"@, "list_job_user_data_relationships"@),
        CheckSpec::Operation("/workflows/{id}/job_ids"@, "get"@, "list_job_ids"@),
        CheckSpec::Operation("/workflows/{id}/missing_user_data"@, "get"@, "list_missing_user_data"@),
        CheckSpec::Operation("/workflows/{id}/process_changed_job_inputs"@, "post"@, "process_changed_job_inputs"@),
        CheckSpec::Operation("/workflows/{id}/ready_job_requirements"@, "get"@, "get_ready_job_requirements"@),
    ]
}

fn push_checks_12(v: &mut Vec<ParityCheck>)
    ensures
        checks_view(final(v)@) == checks_view(old(v)@) + parity_table_12(),
{
    let ghost start = v@;
    v.push(ParityCheck::Operation { path: lit("/workflows/{id}/reset_job_status"), method: lit("post"), expected: lit("reset_job_status") });
    v.push(ParityCheck::Operation { path: lit("/workflows/{id}/status"), method: lit("get"), expected: lit("get_workflow_status") });
    v.push(ParityCheck::Operation { path: lit("/workflows/{id}/status"), method: lit("put"), expected: lit("update_workflow_status") });
    v.push(ParityCheck::Operation { path: lit("/workflows/{id}/claim_jobs_based_on_resources/{limit}"), method: lit("post"), expected: lit("claim_jobs_based_on_resources") });
    v.push(ParityCheck::Operation { path: lit("/workflows/{id}/claim_next_jobs"), method: lit("post"), expected: lit("claim_next_jobs") });
    v.push(ParityCheck::Operation { path: lit("/workflows/{id}/job_dependencies"), method: lit("get"), expected: lit("list_job_dependencies") });
    v.push(ParityCheck::Operation { path: lit("/workflows/{id}/job_file_relationships"), method: lit("get"), expected: lit("list_job_file_relationships") });
    v.push(ParityCheck::Operation { path: lit("/workflows/{id}/job_user_data_relationships"), method: lit("get"), expected: lit("list_job_user_data_relationships") });
    v.push(ParityCheck::Operation { path: lit("/workflows/{id}/job_ids"), method: lit("get"), expected: lit("list_job_ids") });
    v.push(ParityCheck::Operation { path: lit("/workflows/{id}/missing_user_data"), method: lit("get"), expected: lit("list_missing_user_data") });
    v.push(ParityCheck::Operation { path: lit("/workflows/{id}/process_changed_job_inputs"), method: lit("post"), expected: lit("process_changed_job_inputs") });
    v.push(ParityCheck::Operation { path: lit("/workflows/{id}/ready_job_requirements"), method: lit("get"), expected: lit("get_ready_job_requirements") });
    proof {
        assert(checks_view(v@) =~= checks_view(start) + parity_table_12());
    }
}

pub open spec fn parity_table_13() -> Seq<CheckSpec> {
    seq![
        CheckSpec::Operation("/workflows/{id}/required_existing_files"@, "get"@, "list_required_existing_files"@),
        CheckSpec::Component("WorkflowModel"@, seq!["id"@, "name"@, "user"@, "description"@, "timestamp"@, "project"@, "metadata"@, "compute_node_expiration_buffer_seconds"@, "compute_node_wait_for_new_jobs_seconds"@, "compute_node_ignore_workflow_completion"@, "compute_node_wait_for_healthy_database_minutes"@, "compute_node_min_time_for_new_jobs_seconds"@, "resource_monitor_config"@, "slurm_defaults"@, "use_pending_failed"@, "enable_ro_crate"@, "status_id"@, "slurm_config"@, "execution_config"@]),
        CheckSpec::Component("ListWorkflowsResponse"@, seq!["items"@, "offset"@, "max_limit"@, "count"@, "total_count"@, "has_more"@]),
        CheckSpec::Component("WorkflowStatusModel"@, seq!["id"@, "is_canceled"@, "is_archived"@, "run_id"@, "has_detected_need_to_run_completion_script"@]),
        CheckSpec::Component("IsCompleteResponse"@, seq!["is_canceled"@, "is_complete"@, "needs_to_run_completion_script"@]),
        CheckSpec::Component("IsUninitializedResponse"@, seq!["is_uninitialized"@]),
        CheckSpec::Component("ResetJobStatusResponse"@, seq!["workflow_id"@, "updated_count"@, "status"@, "reset_type"@]),
        CheckSpec::Component("ComputeNodesResources"@, seq!["id"@, "num_cpus"@, "memory_gb"@, "num_gpus"@, "num_nodes"@, "time_limit"@, "scheduler_config_id"@]),
        CheckSpec::Component("ClaimJobsBasedOnResources"@, seq!["jobs"@, "reason"@]),
        CheckSpec::Component("ClaimNextJobsResponse"@, seq!["jobs"@]),
        CheckSpec::Component("JobDependencyModel"@, seq!["job_id"@, "job_name"@, "depends_on_job_id"@, "depends_on_job_name"@, "workflow_id"@]),
        CheckSpec::Component("ListJobDependenciesResponse"@, seq!["items"@, "offset"@, "max_limit"@, "count"@, "total_count"@, "has_more"@]),
    ]
}

fn push_checks_13(v: &mut Vec<ParityCheck>)
    ensures
        checks_view(final(v)@) == checks_view(old(v)@) + parity_table_13(),
{
    let ghost start = v@;
    v.push(ParityCheck::Operation { path: lit("/workflows/{id}/required_existing_files"), method: lit("get"), expected: lit("list_required_existing_files") });
    let p1 = vec![lit("id"), lit("name"), lit("user"), lit("description"), lit("timestamp"), lit("project"), lit("metadata"), lit("compute_node_expiration_buffer_seconds"), lit("compute_node_wait_for_new_jobs_seconds"), lit("compute_node_ignore_workflow_completion"), lit("compute_node_wait_for_healthy_database_minutes"), lit("compute_node_min_time_for_new_jobs_seconds"), lit("resource_monitor_config"), lit("slurm_defaults"), lit("use_pending_failed"), lit("enable_ro_crate"), lit("status_id"), lit("slurm_config"), lit("execution_config")];
    proof {
        assert(strs_view(p1@) =~= seq!["id"@, "name"@, "user"@, "description"@, "timestamp"@, "project"@, "metadata"@, "compute_node_expiration_buffer_seconds"@, "compute_node_wait_for_new_jobs_seconds"@, "compute_node_ignore_workflow_completion"@, "compute_node_wait_for_healthy_database_minutes"@, "compute_node_min_time_for_new_jobs_seconds"@, "resource_monitor_config"@, "slurm_defaults"@, "use_pending_failed"@, "enable_ro_crate"@, "status_id"@, "slurm_config"@, "execution_config"@]);
    }
    v.push(ParityCheck::Component { schema: lit("WorkflowModel"), properties: p1 });
    let p2 = vec![lit("items"), lit("offset"), lit("max_limit"), lit("count"), lit("total_count"), lit("has_more")];
    proof {
        assert(strs_view(p2@) =~= seq!["items"@, "offset"@, "max_limit"@, "count"@, "total_count"@, "has_more"@]);
    }
    v.push(ParityCheck::Component { schema: lit("ListWorkflowsResponse"), properties: p2 });
    let p3 = vec![lit("id"), lit("is_canceled"), lit("is_archived"), lit("run_id"), lit("has_detected_need_to_run_completion_script")];
    proof {
        assert(strs_view(p3@) =~= seq!["id"@, "is_canceled"@, "is_archived"@, "run_id"@, "has_detected_need_to_run_completion_script"@]);
    }
    v.push(ParityCheck::Component { schema: lit("WorkflowStatusModel"), properties: p3 });
    let p4 = vec![lit("is_canceled"), lit("is_complete"), lit("needs_to_run_completion_script")];
    proof {
        assert(strs_view(p4@) =~= seq!["is_canceled"@, "is_complete"@, "needs_to_run_completion_script"@]);
    }
    v.push(ParityCheck::Component { schema: lit("IsCompleteResponse"), properties: p4 });
    let p5 = vec![lit("is_uninitialized")];
    proof {
        assert(strs_view(p5@) =~= seq!["is_uninitialized"@]);
    }
    v.push(ParityCheck::Component { schema: lit("IsUninitializedResponse"), properties: p5 });
    let p6 = vec![lit("workflow_id"), lit("updated_count"), lit("status"), lit("reset_type")];
    proof {
        assert(strs_view(p6@) =~= seq!["workflow_id"@, "updated_count"@, "status"@, "reset_type"@]);
    }
    v.push(ParityCheck::Component { schema: lit("ResetJobStatusResponse"), properties: p6 });
    let p7 = vec![lit("id"), lit("num_cpus"), lit("memory_gb"), lit("num_gpus"), lit("num_nodes"), lit("time_limit"), lit("scheduler_config_id")];
    proof {
        assert(strs_view(p7@) =~= seq!["id"@, "num_cpus"@, "memory_gb"@, "num_gpus"@, "num_nodes"@, "time_limit"@, "scheduler_config_id"@]);
    }
    v.push(ParityCheck::Component { schema: lit("ComputeNodesResources"), properties: p7 });
    let p8 = vec![lit("jobs"), lit("reason")];
    proof {
        assert(strs_view(p8@) =~= seq!["jobs"@, "reason"@]);
    }
    v.push(ParityCheck::Component { schema: lit("ClaimJobsBasedOnResources"), properties: p8 });
    let p9 = vec![lit("jobs")];
    proof {
        assert(strs_view(p9@) =~= seq!["jobs"@]);
    }
    v.push(ParityCheck::Component { schema: lit("ClaimNextJobsResponse"), properties: p9 });
    let p10 = vec![lit("job_id"), lit("job_name"), lit("depends_on_job_id"), lit("depends_on_job_name"), lit("workflow_id")];
    proof {
        assert(strs_view(p10@) =~= seq!["job_id"@, "job_name"@, "depends_on_job_id"@, "depends_on_job_name"@, "workflow_id"@]);
    }
    v.push(ParityCheck::Component { schema: lit("JobDependencyModel"), properties: p10 });
    let p11 = vec![lit("items"), lit("offset"), lit("max_limit"), lit("count"), lit("total_count"), lit("has_more")];
    proof {
        assert(strs_view(p11@) =~= seq!["items"@, "offset"@, "max_limit"@, "count"@, "total_count"@, "has_more"@]);
    }
    v.push(ParityCheck::Component { schema: lit("ListJobDependenciesResponse"), properties: p11 });
    proof {
        assert(checks_view(v@) =~= checks_view(start) + parity_table_13());
    }
}

pub open spec fn parity_table_14() -> Seq<CheckSpec> {
    seq![
        CheckSpec::Component("JobFileRelationshipModel"@, seq!["file_id"@, "file_name"@, "file_path"@, "producer_job_id"@, "producer_job_name"@, "consumer_job_id"@, "consumer_job_name"@, "workflow_id"@]),
        CheckSpec::Component("ListJobFileRelationshipsResponse"@, seq!["items"@, "offset"@, "max_limit"@, "count"@, "total_count"@, "has_more"@]),
        CheckSpec::Component("JobUserDataRelationshipModel"@, seq!["user_data_id"@, "user_data_name"@, "producer_job_id"@, "producer_job_name"@, "consumer_job_id"@, "consumer_job_name"@, "workflow_id"@]),
        CheckSpec::Component("ListJobUserDataRelationshipsResponse"@, seq!["items"@, "offset"@, "max_limit"@, "count"@, "total_count"@, "has_more"@]),
        CheckSpec::Component("ListJobIdsResponse"@, seq!["job_ids"@, "count"@]),
        CheckSpec::Component("ListMissingUserDataResponse"@, seq!["user_data"@]),
        CheckSpec::Component("ProcessChangedJobInputsResponse"@, seq!["reinitialized_jobs"@]),
        CheckSpec::Component("GetReadyJobRequirementsResponse"@, seq!["num_jobs"@, "num_cpus"@, "num_gpus"@, "memory_gb"@, "max_num_nodes"@, "max_runtime"@]),
        CheckSpec::Component("ListRequiredExistingFilesResponse"@, seq!["files"@]),
        CheckSpec::Operation("/user_data"@, "post"@, "create_user_data"@),
        CheckSpec::Operation("/user_data"@, "delete"@, "delete_all_user_data"@),
        CheckSpec::Operation("/user_data"@, "get"@, "list_user_data"@),
    ]
}

fn push_checks_14(v: &mut Vec<ParityCheck>)
    ensures
        checks_view(final(v)@) == checks_view(old(v)@) + parity_table_14(),
{
    let ghost start = v@;
    let p0 = vec![lit("file_id"), lit("file_name"), lit("file_path"), lit("producer_job_id"), lit("producer_job_name"), lit("consumer_job_id"), lit("consumer_job_name"), lit("workflow_id")];
    proof {
        assert(strs_view(p0@) =~= seq!["file_id"@, "file_name"@, "file_path"@, "producer_job_id"@, "producer_job_name"@, "consumer_job_id"@, "consumer_job_name"@, "workflow_id"@]);
    }
    v.push(ParityCheck::Component { schema: lit("JobFileRelationshipModel"), properties: p0 });
    let p1 = vec![lit("items"), lit("offset"), lit("max_limit"), lit("count"), lit("total_count"), lit("has_more")];
    proof {
        assert(strs_view(p1@) =~= seq!["items"@, "offset"@, "max_limit"@, "count"@, "total_count"@, "has_more"@]);
    }
    v.push(ParityCheck::Component { schema: lit("ListJobFileRelationshipsResponse"), properties: p1 });
    let p2 = vec![lit("user_data_id"), lit("user_data_name"), lit("producer_job_id"), lit("producer_job_name"), lit("consumer_job_id"), lit("consumer_job_name"), lit("workflow_id")];
    proof {
        assert(strs_view(p2@) =~= seq!["user_data_id"@, "user_data_name"@, "producer_job_id"@, "producer_job_name"@, "consumer_job_id"@, "consumer_job_name"@, "workflow_id"@]);
    }
    v.push(ParityCheck::Component { schema: lit("JobUserDataRelationshipModel"), properties: p2 });
    let p3 = vec![lit("items"), lit("offset"), lit("max_limit"), lit("count"), lit("total_count"), lit("has_more")];
    proof {
        assert(strs_view(p3@) =~= seq!["items"@, "offset"@, "max_limit"@, "count"@, "total_count"@, "has_more"@]);
    }
    v.push(ParityCheck::Component { schema: lit("ListJobUserDataRelationshipsResponse"), properties: p3 });
    let p4 = vec![lit("job_ids"), lit("count")];
    proof {
        assert(strs_view(p4@) =~= seq!["job_ids"@, "count"@]);
    }
    v.push(ParityCheck::Component { schema: lit("ListJobIdsResponse"), properties: p4 });
    let p5 = vec![lit("user_data")];
    proof {
        assert(strs_view(p5@) =~= seq!["user_data"@]);
    }
    v.push(ParityCheck::Component { schema: lit("ListMissingUserDataResponse"), properties: p5 });
    let p6 = vec![lit("reinitialized_jobs")];
    proof {
        assert(strs_view(p6@) =~= seq!["reinitialized_jobs"@]);
    }
    v.push(ParityCheck::Component { schema: lit("ProcessChangedJobInputsResponse"), properties: p6 });
    let p7 = vec![lit("num_jobs"), lit("num_cpus"), lit("num_gpus"), lit("memory_gb"), lit("max_num_nodes"), lit("max_runtime")];
    proof {
        assert(strs_view(p7@) =~= seq!["num_jobs"@, "num_cpus"@, "num_gpus"@, "memory_gb"@, "max_num_nodes"@, "max_runtime"@]);
    }
    v.push(ParityCheck::Component { schema: lit("GetReadyJobRequirementsResponse"), properties: p7 });
    let p8 = vec![lit("files")];
    proof {
        assert(strs_view(p8@) =~= seq!["files"@]);
    }
    v.push(ParityCheck::Component { schema: lit("ListRequiredExistingFilesResponse"), properties: p8 });
    v.push(ParityCheck::Operation { path: lit("/user_data"), method: lit("post"), expected: lit("create_user_data") });
    v.push(ParityCheck::Operation { path: lit("/user_data"), method: lit("delete"), expected: lit("delete_all_user_data") });
    v.push(ParityCheck::Operation { path: lit("/user_data"), method: lit("get"), expected: lit("list_user_data") });
    proof {
        assert(checks_view(v@) =~= checks_view(start) + parity_table_14());
    }
}

pub open spec fn parity_table_15() -> Seq<CheckSpec> {
    seq![
        CheckSpec::Operation("/user_data/{id}"@, "delete"@, "delete_user_data"@),
        CheckSpec::Operation("/user_data/{id}"@, "get"@, "get_user_data"@),
        CheckSpec::Operation("/user_data/{id}"@, "put"@, "update_user_data"@),
        CheckSpec::Component("UserDataModel"@, seq!["id"@, "workflow_id"@, "is_ephemeral"@, "name"@, "data"@]),
        CheckSpec::Component("ListUserDataResponse"@, seq!["items"@, "offset"@, "max_limit"@, "count"@, "total_count"@, "has_more"@]),
    ]
}

fn push_checks_15(v: &mut Vec<ParityCheck>)
    ensures
        checks_view(final(v)@) == checks_view(old(v)@) + parity_table_15(),
{
    let ghost start = v@;
    v.push(ParityCheck::Operation { path: lit("/user_data/{id}"), method: lit("delete"), expected: lit("delete_user_data") });
    v.push(ParityCheck::Operation { path: lit("/user_data/{id}"), method: lit("get"), expected: lit("get_user_data") });
    v.push(ParityCheck::Operation { path: lit("/user_data/{id}"), method: lit("put"), expected: lit("update_user_data") });
    let p3 = vec![lit("id"), lit("workflow_id"), lit("is_ephemeral"), lit("name"), lit("data")];
    proof {
        assert(strs_view(p3@) =~= seq!["id"@, "workflow_id"@, "is_ephemeral"@, "name"@, "data"@]);
    }
    v.push(ParityCheck::Component { schema: lit("UserDataModel"), properties: p3 });
    let p4 = vec![lit("items"), lit("offset"), lit("max_limit"), lit("count"), lit("total_count"), lit("has_more")];
    proof {
        assert(strs_view(p4@) =~= seq!["items"@, "offset"@, "max_limit"@, "count"@, "total_count"@, "has_more"@]);
    }
    v.push(ParityCheck::Component { schema: lit("ListUserDataResponse"), properties: p4 });
    proof {
        assert(checks_view(v@) =~= checks_view(start) + parity_table_15());
    }
}

/// Every check of the report, in order.
pub open spec fn parity_table() -> Seq<CheckSpec> {
    parity_table_0() + parity_table_1() + parity_table_2() + parity_table_3() + parity_table_4() + parity_table_5() + parity_table_6() + parity_table_7() + parity_table_8() + parity_table_9() + parity_table_10() + parity_table_11() + parity_table_12() + parity_table_13() + parity_table_14() + parity_table_15()
}

/// The checks the parity report makes, in order.
pub fn parity_checks() -> (r: Vec<ParityCheck>)
    ensures
        checks_view(r@) == parity_table(),
{
    let mut v: Vec<ParityCheck> = Vec::new();
    proof {
        assert(checks_view(v@) =~= Seq::<CheckSpec>::empty());
    }
    push_checks_0(&mut v);
    push_checks_1(&mut v);
    push_checks_2(&mut v);
    push_checks_3(&mut v);
    push_checks_4(&mut v);
    push_checks_5(&mut v);
    push_checks_6(&mut v);
    push_checks_7(&mut v);
    push_checks_8(&mut v);
    push_checks_9(&mut v);
    push_checks_10(&mut v);
    push_checks_11(&mut v);
    push_checks_12(&mut v);
    push_checks_13(&mut v);
    push_checks_14(&mut v);
    push_checks_15(&mut v);
    proof {
        assert(checks_view(v@) =~= parity_table());
    }
    v
}

} // verus!
