//! Reading specification text into the JSON value shared by all formats:
//! JSON, JSON5 and YAML through their parsers, KDL through the KDL reader,
//! with the format named or found by trying each in turn.

use vstd::prelude::*;

use crate::json::JsonValue;
use crate::json_view::{entry_views, find_key, insert_entry, jv, lemma_jv_array, lemma_jv_object, obj_insert, push_item, views, JsonView};
use crate::models::{ascii_lower, lower_char};
use crate::kdl_read::{kdl_read_as, kdl_to_json_value, Converted, KdlJson};
use crate::text::{chars_eq, chars_of, concat2, lit, str_eq, trim, trim_chars};

verus! {

#[verifier::external_type_specification]
#[verifier::external_body]
pub struct ExSerdeValue(serde_json::Value);

/// What `serde_json::from_str` makes of a text: a value, or its error's message.
pub uninterp spec fn serde_json_parse(content: Seq<char>) -> Result<serde_json::Value, Seq<char>>;

/// What `json5::from_str` makes of a text.
pub uninterp spec fn json5_parse(content: Seq<char>) -> Result<serde_json::Value, Seq<char>>;

/// What `serde_yaml::from_str` makes of a text.
pub uninterp spec fn yaml_parse(content: Seq<char>) -> Result<serde_json::Value, Seq<char>>;

/// What a `serde_json::Value` holds, as a JSON value of the library.
pub uninterp spec fn serde_value_json(v: serde_json::Value) -> JsonView;

/// `serde_json::from_str` into a `serde_json::Value`; the error as its message.
#[verifier::external_body]
fn serde_json_from_str(content: &str) -> (r: Result<serde_json::Value, String>)
    ensures
        match r {
            Ok(v) => serde_json_parse(content@) == Ok::<serde_json::Value, Seq<char>>(v),
            Err(e) => serde_json_parse(content@) == Err::<serde_json::Value, Seq<char>>(e@),
        },
{
    serde_json::from_str::<serde_json::Value>(content).map_err(|e| e.to_string())
}

/// `json5::from_str` into a `serde_json::Value`; the error as its message.
#[verifier::external_body]
fn json5_from_str(content: &str) -> (r: Result<serde_json::Value, String>)
    ensures
        match r {
            Ok(v) => json5_parse(content@) == Ok::<serde_json::Value, Seq<char>>(v),
            Err(e) => json5_parse(content@) == Err::<serde_json::Value, Seq<char>>(e@),
        },
{
    json5::from_str::<serde_json::Value>(content).map_err(|e| e.to_string())
}

/// `serde_yaml::from_str` into a `serde_json::Value`; the error as its message.
#[verifier::external_body]
fn yaml_from_str(content: &str) -> (r: Result<serde_json::Value, String>)
    ensures
        match r {
            Ok(v) => yaml_parse(content@) == Ok::<serde_json::Value, Seq<char>>(v),
            Err(e) => yaml_parse(content@) == Err::<serde_json::Value, Seq<char>>(e@),
        },
{
    serde_yaml::from_str::<serde_json::Value>(content).map_err(|e| e.to_string())
}

/// A `serde_json::Value` as the library's value, variant for variant; a
/// number keeps its text (`serde_json::Number`'s `Display`).
#[verifier::external_body]
fn json_of_serde(v: serde_json::Value) -> (r: JsonValue)
    ensures
        jv(r) == serde_value_json(v),
{
    match v {
        serde_json::Value::Null => JsonValue::Null,
        serde_json::Value::Bool(b) => JsonValue::Bool(b),
        serde_json::Value::Number(n) => JsonValue::Number(n.to_string()),
        serde_json::Value::String(s) => JsonValue::String(s),
        serde_json::Value::Array(a) => JsonValue::Array(a.into_iter().map(json_of_serde).collect()),
        serde_json::Value::Object(m) => JsonValue::Object(m.into_iter().map(|(k, x)| (k, json_of_serde(x))).collect()),
    }
}

pub open spec fn parsed_view(p: Result<serde_json::Value, Seq<char>>) -> Result<JsonView, Seq<char>> {
    match p {
        Ok(v) => Ok(serde_value_json(v)),
        Err(e) => Err(e),
    }
}

/// The JSON, JSON5 and YAML readings of a text.
pub open spec fn json_text_parse(c: Seq<char>) -> Result<JsonView, Seq<char>> {
    parsed_view(serde_json_parse(c))
}

pub open spec fn json5_text_parse(c: Seq<char>) -> Result<JsonView, Seq<char>> {
    parsed_view(json5_parse(c))
}

pub open spec fn yaml_text_parse(c: Seq<char>) -> Result<JsonView, Seq<char>> {
    parsed_view(yaml_parse(c))
}

pub open spec fn result_view(r: Result<JsonValue, String>) -> Result<JsonView, Seq<char>> {
    match r {
        Ok(v) => Ok(jv(v)),
        Err(e) => Err(e@),
    }
}

fn convert_parsed(p: Result<serde_json::Value, String>) -> (r: Result<JsonValue, String>)
    ensures
        match p {
            Ok(v) => r matches Ok(x) && jv(x) == serde_value_json(v),
            Err(e) => r matches Err(x) && x@ == e@,
        },
{
    match p {
        Ok(v) => Ok(json_of_serde(v)),
        Err(e) => Err(e),
    }
}

/// Reads JSON text.
pub fn parse_json_text(content: &str) -> (r: Result<JsonValue, String>)
    ensures
        result_view(r) == json_text_parse(content@),
{
    convert_parsed(serde_json_from_str(content))
}

/// Reads JSON5 text.
pub fn parse_json5_text(content: &str) -> (r: Result<JsonValue, String>)
    ensures
        result_view(r) == json5_text_parse(content@),
{
    convert_parsed(json5_from_str(content))
}

/// Reads YAML text.
pub fn parse_yaml_text(content: &str) -> (r: Result<JsonValue, String>)
    ensures
        result_view(r) == yaml_text_parse(content@),
{
    convert_parsed(yaml_from_str(content))
}

// ---------------------------------------------------------------------------
// KDL: the user data texts parsed as JSON and put in place
// ---------------------------------------------------------------------------

/// The first of `texts` that does not read as JSON, by its error.
pub open spec fn first_text_failure(texts: Seq<Seq<char>>) -> Option<Seq<char>>
    decreases texts.len(),
{
    if texts.len() == 0 {
        None
    } else {
        match first_text_failure(texts.drop_last()) {
            Some(e) => Some(e),
            None => match json_text_parse(texts.last()) {
                Err(e) => Some(e),
                Ok(_) => None,
            },
        }
    }
}

/// The JSON readings of `texts`, where every one reads.
pub open spec fn texts_parsed(texts: Seq<Seq<char>>) -> Seq<JsonView> {
    texts.map_values(|t: Seq<char>| json_text_parse(t)->Ok_0)
}

/// The user data items with the `data` of the `i`-th set to `ds[i]`.
pub open spec fn splice_items(items: Seq<JsonView>, ds: Seq<JsonView>) -> Seq<JsonView> {
    Seq::new(
        items.len(),
        |i: int|
            if i < ds.len() {
                match items[i] {
                    JsonView::Object(m) => JsonView::Object(obj_insert(m, "data"@, ds[i])),
                    other => other,
                }
            } else {
                items[i]
            },
    )
}

/// A specification value with the `data` of its user data set to `ds`,
/// item by item.
pub open spec fn with_user_data(j: JsonView, ds: Seq<JsonView>) -> JsonView {
    match j {
        JsonView::Object(m) => match find_key(m, "user_data"@, 0) {
            Some(k) => match m[k as int].1 {
                JsonView::Array(items) => JsonView::Object(
                    m.update(k as int, (m[k as int].0, JsonView::Array(splice_items(items, ds)))),
                ),
                _ => j,
            },
            None => j,
        },
        _ => j,
    }
}

/// What a KDL reading `c` comes to: the first user data text that does not
/// read as JSON is the error; else the reading's error, or its value with
/// each user data text read as JSON in place of the text.
pub open spec fn kdl_outcome(c: Converted) -> Result<JsonView, Seq<char>> {
    match first_text_failure(c.texts) {
        Some(e) => Err(e),
        None => match c.json {
            Err(e) => Err(e),
            Ok(j) => Ok(with_user_data(j, texts_parsed(c.texts))),
        },
    }
}

fn splice_items_exec(items: Vec<JsonValue>, ds: Vec<JsonValue>) -> (r: Vec<JsonValue>)
    ensures
        views(r@) == splice_items(views(items@), views(ds@)),
{
    let ghost oi = views(items@);
    let ghost od = views(ds@);
    let ghost target = splice_items(oi, od);
    let mut items = items;
    let mut ds = ds;
    let n: usize = items.len();
    proof {
        assert(target.len() == oi.len());
        assert(oi.len() == items@.len());
    }
    let mut out: Vec<JsonValue> = Vec::new();
    let mut i: usize = 0;
    while items.len() > 0
        invariant
            oi.len() == n,
            target == splice_items(oi, od),
            target.len() == oi.len(),
            i + items@.len() == oi.len(),
            views(items@) == oi.skip(i as int),
            i <= od.len() ==> views(ds@) == od.skip(i as int),
            i > od.len() ==> ds@.len() == 0,
            out@.len() == i,
            forall|k: int| 0 <= k < i ==> #[trigger] views(out@)[k] == target[k],
        decreases items@.len(),
    {
        let ghost old_items = items@;
        proof {
            assert(views(old_items) == oi.skip(i as int));
            assert(i < oi.len());
        }
        let item = items.remove(0);
        proof {
            assert(item == old_items[0]);
            assert(views(old_items)[0] == oi.skip(i as int)[0]);
            assert(jv(item) == oi[i as int]);
            assert(items@ =~= old_items.subrange(1, old_items.len() as int));
            assert forall|j: int| 0 <= j < items@.len() implies #[trigger] views(items@)[j] == oi.skip(i + 1)[j] by {
                assert(items@[j] == old_items[j + 1]);
                assert(views(old_items)[j + 1] == oi[i + 1 + j]);
            }
            assert(views(items@) =~= oi.skip(i + 1));
        }
        let next = if ds.len() > 0 {
            let ghost old_ds = ds@;
            let d = ds.remove(0);
            proof {
                assert(i < od.len());
                assert(d == old_ds[0]);
                assert(views(old_ds)[0] == od.skip(i as int)[0]);
                assert(jv(d) == od[i as int]);
                assert(ds@ =~= old_ds.subrange(1, old_ds.len() as int));
                assert forall|j: int| 0 <= j < ds@.len() implies #[trigger] views(ds@)[j] == od.skip(i + 1)[j] by {
                    assert(ds@[j] == old_ds[j + 1]);
                    assert(views(old_ds)[j + 1] == od[i + 1 + j]);
                }
                assert(views(ds@) =~= od.skip(i + 1));
            }
            match item {
                JsonValue::Object(m) => {
                    let mut m = m;
                    proof {
                        lemma_jv_object(m);
                    }
                    let ghost mv0 = entry_views(m@);
                    proof {
                        assert(oi[i as int] == JsonView::Object(mv0));
                    }
                    insert_entry(&mut m, lit("data"), d);
                    proof {
                        lemma_jv_object(m);
                        assert(jv(JsonValue::Object(m)) == JsonView::Object(obj_insert(mv0, "data"@, od[i as int])));
                        assert(target[i as int] == JsonView::Object(obj_insert(mv0, "data"@, od[i as int])));
                    }
                    JsonValue::Object(m)
                },
                other => {
                    proof {
                        assert(target[i as int] == jv(other));
                    }
                    other
                },
            }
        } else {
            proof {
                assert(!(i < od.len()));
                assert(target[i as int] == jv(item));
            }
            item
        };
        let ghost before = views(out@);
        push_item(&mut out, next);
        proof {
            assert(views(out@).len() == out@.len());
            assert(views(out@)[i as int] == target[i as int]);
            assert forall|k: int| 0 <= k < i + 1 implies #[trigger] views(out@)[k] == target[k] by {
                if k < i {
                    assert(views(out@)[k] == before[k]);
                }
            }
        }
        i = i + 1;
    }
    proof {
        assert(views(out@) =~= target);
    }
    out
}

/// The index of the first entry named `key`.
fn find_entry(m: &Vec<(String, JsonValue)>, key: &str) -> (r: Option<usize>)
    ensures
        match r {
            Some(k) => find_key(entry_views(m@), key@, 0) == Some(k as nat) && k < m@.len(),
            None => find_key(entry_views(m@), key@, 0) is None,
        },
{
    let ghost mv = entry_views(m@);
    let mut k: usize = 0;
    while k < m.len()
        invariant
            k <= m@.len(),
            mv == entry_views(m@),
            find_key(mv, key@, 0) == find_key(mv, key@, k as nat),
        decreases m@.len() - k,
    {
        if str_eq(m[k].0.as_str(), key) {
            proof {
                assert(mv[k as int].0 == key@);
            }
            return Some(k);
        }
        proof {
            assert(mv[k as int].0 != key@);
        }
        k = k + 1;
    }
    None
}

fn with_user_data_exec(j: JsonValue, ds: Vec<JsonValue>) -> (r: JsonValue)
    ensures
        jv(r) == with_user_data(jv(j), views(ds@)),
{
    match j {
        JsonValue::Object(m) => {
            let mut m = m;
            proof {
                lemma_jv_object(m);
            }
            let ghost mv = entry_views(m@);
            let k = match find_entry(&m, "user_data") {
                None => {
                    return JsonValue::Object(m);
                },
                Some(k) => k,
            };
            let (key, value) = m.remove(k);
            match value {
                JsonValue::Array(items) => {
                    proof {
                        lemma_jv_array(items);
                    }
                    let spliced = splice_items_exec(items, ds);
                    proof {
                        lemma_jv_array(spliced);
                    }
                    m.insert(k, (key, JsonValue::Array(spliced)));
                    proof {
                        assert(entry_views(m@) =~= mv.update(
                            k as int,
                            (mv[k as int].0, JsonView::Array(splice_items(views(items@), views(ds@)))),
                        ));
                        lemma_jv_object(m);
                    }
                    JsonValue::Object(m)
                },
                other => {
                    let ghost ov = jv(other);
                    m.insert(k, (key, other));
                    proof {
                        assert(entry_views(m@) =~= mv);
                        lemma_jv_object(m);
                    }
                    JsonValue::Object(m)
                },
            }
        },
        other => other,
    }
}

/// Reads KDL text as a specification value: the KDL reader's value, with
/// every user data text read as JSON (see `kdl_outcome`).
pub fn kdl_spec_value(content: &str) -> (r: Result<JsonValue, String>)
    ensures
        exists|c: Converted| kdl_read_as(content@, c) && #[trigger] kdl_outcome(c) == result_view(r),
{
    let read = kdl_to_json_value(content);
    let ghost c = crate::kdl_read::kdl_json_view(read);
    let KdlJson { json, texts } = read;
    let ghost tv = c.texts;
    let mut parsed: Vec<JsonValue> = Vec::new();
    let mut i: usize = 0;
    while i < texts.len()
        invariant
            i <= texts@.len(),
            tv == crate::kdl_read::strings_view(texts@),
            tv == c.texts,
            kdl_read_as(content@, c),
            first_text_failure(tv.take(i as int)) is None,
            views(parsed@) == texts_parsed(tv.take(i as int)),
        decreases texts@.len() - i,
    {
        proof {
            assert(tv.take(i + 1).drop_last() =~= tv.take(i as int));
            assert(tv[i as int] == texts@[i as int]@);
        }
        match parse_json_text(texts[i].as_str()) {
            Err(e) => {
                proof {
                    assert(tv.take(i + 1).last() == tv[i as int]);
                    assert(json_text_parse(tv[i as int]) == Err::<JsonView, Seq<char>>(e@));
                    assert(first_text_failure(tv.take(i + 1)) == Some(e@));
                    lemma_failure_prefix(tv, (i + 1) as nat);
                    assert(first_text_failure(tv) == Some(e@));
                    assert(c.texts == tv);
                    assert(kdl_outcome(c) == result_view(Err::<JsonValue, String>(e)));
                }
                return Err(e);
            },
            Ok(v) => {
                let ghost before = views(parsed@);
                push_item(&mut parsed, v);
                proof {
                    assert(views(parsed@) =~= texts_parsed(tv.take(i + 1)));
                }
            },
        }
        i = i + 1;
    }
    proof {
        assert(tv.take(texts@.len() as int) =~= tv);
    }
    match json {
        Err(e) => {
            proof {
                assert(kdl_outcome(c) == result_view(Err::<JsonValue, String>(e)));
            }
            Err(e)
        },
        Ok(j) => {
            let ghost pv = views(parsed@);
            let out = with_user_data_exec(j, parsed);
            proof {
                assert(kdl_outcome(c) == result_view(Ok::<JsonValue, String>(out)));
            }
            Ok(out)
        },
    }
}

/// Once a prefix of the texts fails, so do all of them.
proof fn lemma_failure_prefix(t: Seq<Seq<char>>, k: nat)
    requires
        k <= t.len(),
        first_text_failure(t.take(k as int)) is Some,
    ensures
        first_text_failure(t) == first_text_failure(t.take(k as int)),
    decreases t.len() - k,
{
    if k < t.len() {
        assert(t.take(k + 1 as int).drop_last() =~= t.take(k as int));
        lemma_failure_prefix(t, k + 1);
    } else {
        assert(t.take(k as int) =~= t);
    }
}

// ---------------------------------------------------------------------------
// Formats
// ---------------------------------------------------------------------------

/// A character of a format name as `to_lowercase` gives it for the names
/// compared here: ASCII capitals and the Kelvin sign (lowered to `k`) are
/// lowered, and no other character lowers to an ASCII letter.
pub open spec fn format_char(c: char) -> char {
    if 'A' <= c && c <= 'Z' {
        ascii_lower(c)
    } else if c == '\u{212A}' {
        'k'
    } else {
        c
    }
}

pub open spec fn format_key(f: Seq<char>) -> Seq<char> {
    f.map_values(|c: char| format_char(c))
}

fn lower_format(f: &str) -> (r: Vec<char>)
    ensures
        r@ == format_key(f@),
{
    let v = chars_of(f);
    let mut out: Vec<char> = Vec::new();
    let mut i: usize = 0;
    while i < v.len()
        invariant
            i <= v@.len(),
            v@ == f@,
            out@ == format_key(f@).take(i as int),
        decreases v@.len() - i,
    {
        let c = v[i];
        let l = if 'A' <= c && c <= 'Z' {
            lower_char(c)
        } else if c == '\u{212A}' {
            'k'
        } else {
            c
        };
        out.push(l);
        proof {
            assert(out@ =~= format_key(f@).take(i + 1));
        }
        i = i + 1;
    }
    proof {
        assert(out@ =~= format_key(f@));
    }
    out
}

pub open spec fn is_object(r: Result<JsonView, Seq<char>>) -> bool {
    r matches Ok(JsonView::Object(_))
}

pub open spec fn opt_str_view(r: Option<&str>) -> Option<Seq<char>> {
    match r {
        Some(s) => Some(s@),
        None => None,
    }
}

/// The first of JSON, JSON5 and YAML that reads `content` as an object.
pub open spec fn format_by_parsers(content: Seq<char>) -> Option<Seq<char>> {
    if is_object(json_text_parse(content)) {
        Some("json"@)
    } else if is_object(json5_text_parse(content)) {
        Some("json5"@)
    } else if is_object(yaml_text_parse(content)) {
        Some("yaml"@)
    } else {
        None
    }
}

/// `kdl` when the KDL reading `c` succeeds (`kdl_outcome`).
pub open spec fn format_by_kdl(c: Converted) -> Option<Seq<char>> {
    if kdl_outcome(c) is Ok {
        Some("kdl"@)
    } else {
        None
    }
}

fn object_read(r: &Result<JsonValue, String>) -> (b: bool)
    ensures
        b == is_object(result_view(*r)),
{
    match r {
        Ok(JsonValue::Object(m)) => {
            proof {
                lemma_jv_object(*m);
            }
            true
        },
        Ok(_) => false,
        Err(_) => false,
    }
}

/// The format of specification text: `json`, `json5` or `yaml` for the
/// first of them that reads it as an object, tried in that order; else
/// `kdl` when it reads as a KDL specification; else none.
pub fn detect_spec_format(content: &str) -> (r: Option<&'static str>)
    ensures
        format_by_parsers(content@) is Some ==> opt_str_view(r) == format_by_parsers(content@),
        format_by_parsers(content@) is None ==> exists|c: Converted|
            kdl_read_as(content@, c) && #[trigger] format_by_kdl(c) == opt_str_view(r),
{
    if object_read(&parse_json_text(content)) {
        return Some("json");
    }
    if object_read(&parse_json5_text(content)) {
        return Some("json5");
    }
    if object_read(&parse_yaml_text(content)) {
        return Some("yaml");
    }
    let k = kdl_spec_value(content);
    proof {
        let c = choose|c: Converted| kdl_read_as(content@, c) && #[trigger] kdl_outcome(c) == result_view(k);
        assert(kdl_read_as(content@, c) && kdl_outcome(c) == result_view(k));
        assert(format_by_kdl(c) == (if k is Ok { Some("kdl"@) } else { None::<Seq<char>> }));
    }
    match k {
        Ok(_) => Some("kdl"),
        Err(_) => None,
    }
}

/// Reads specification text in a named format (`json`, `json5`, `yaml` or
/// `yml`, `kdl`, in any case), or refuses an unknown format.
pub fn spec_value_from_text(content: &str, format: &str) -> (r: Result<JsonValue, String>)
    ensures
        format_key(format@) == "json"@ ==> result_view(r) == json_text_parse(content@),
        format_key(format@) == "json5"@ ==> result_view(r) == json5_text_parse(content@),
        (format_key(format@) == "yaml"@ || format_key(format@) == "yml"@) ==> result_view(r) == yaml_text_parse(
            content@,
        ),
        format_key(format@) == "kdl"@ ==> exists|c: Converted|
            kdl_read_as(content@, c) && #[trigger] kdl_outcome(c) == result_view(r),
        !(format_key(format@) == "json"@ || format_key(format@) == "json5"@ || format_key(format@) == "yaml"@
            || format_key(format@) == "yml"@ || format_key(format@) == "kdl"@) ==> (r matches Err(e) && e@
            == "Unknown format: "@ + format@),
{
    proof {
        reveal_strlit("json");
        reveal_strlit("json5");
        reveal_strlit("yaml");
        reveal_strlit("yml");
        reveal_strlit("kdl");
        assert("json"@.len() == 4 && "json"@[0] == 'j');
        assert("json5"@.len() == 5);
        assert("yaml"@.len() == 4 && "yaml"@[0] == 'y');
        assert("yml"@.len() == 3 && "yml"@[0] == 'y');
        assert("kdl"@.len() == 3 && "kdl"@[0] == 'k');
        assert("json"@ != "json5"@ && "json"@ != "yaml"@ && "json"@ != "yml"@ && "json"@ != "kdl"@);
        assert("json5"@ != "yaml"@ && "json5"@ != "yml"@ && "json5"@ != "kdl"@);
        assert("yaml"@ != "yml"@ && "yaml"@ != "kdl"@ && "yml"@ != "kdl"@);
    }
    let k = lower_format(format);
    if chars_eq(&k, &chars_of("json")) {
        parse_json_text(content)
    } else if chars_eq(&k, &chars_of("json5")) {
        parse_json5_text(content)
    } else if chars_eq(&k, &chars_of("yaml")) || chars_eq(&k, &chars_of("yml")) {
        parse_yaml_text(content)
    } else if chars_eq(&k, &chars_of("kdl")) {
        kdl_spec_value(content)
    } else {
        Err(concat2("Unknown format: ", format))
    }
}

/// Reads specification text of no named format: the first of JSON, JSON5
/// and YAML that reads it, else the KDL reading, with its error.
pub fn spec_value_any_format(content: &str) -> (r: Result<JsonValue, String>)
    ensures
        json_text_parse(content@) is Ok ==> result_view(r) == json_text_parse(content@),
        json_text_parse(content@) is Err && json5_text_parse(content@) is Ok ==> result_view(r)
            == json5_text_parse(content@),
        json_text_parse(content@) is Err && json5_text_parse(content@) is Err && yaml_text_parse(content@) is Ok
            ==> result_view(r) == yaml_text_parse(content@),
        json_text_parse(content@) is Err && json5_text_parse(content@) is Err && yaml_text_parse(content@) is Err
            ==> exists|c: Converted| kdl_read_as(content@, c) && #[trigger] kdl_outcome(c) == result_view(r),
{
    let j = parse_json_text(content);
    if j.is_ok() {
        return j;
    }
    let j5 = parse_json5_text(content);
    if j5.is_ok() {
        return j5;
    }
    let y = parse_yaml_text(content);
    if y.is_ok() {
        return y;
    }
    kdl_spec_value(content)
}

pub open spec fn empty_stdin_message() -> Seq<char> {
    "workflow spec read from stdin is empty"@
}

pub open spec fn undetected_stdin_message() -> Seq<char> {
    "unable to detect the format of the workflow spec read from stdin (expected JSON, JSON5, YAML, or KDL)"@
}

/// The file extension for specification text read from standard input:
/// an error when the text is blank, else its format (`detect_spec_format`),
/// or an error when no format reads it.
pub fn stdin_spec_extension(content: &str) -> (r: Result<&'static str, String>)
    ensures
        trim(content@).len() == 0 ==> (r matches Err(e) && e@ == empty_stdin_message()),
        trim(content@).len() > 0 && format_by_parsers(content@) is Some ==> (r matches Ok(x) && Some(x@)
            == format_by_parsers(content@)),
        trim(content@).len() > 0 && format_by_parsers(content@) is None ==> exists|c: Converted|
            kdl_read_as(content@, c) && match #[trigger] format_by_kdl(c) {
                Some(f) => r matches Ok(x) && x@ == f,
                None => r matches Err(e) && e@ == undetected_stdin_message(),
            },
{
    let t = trim_chars(&chars_of(content));
    if t.len() == 0 {
        return Err(lit("workflow spec read from stdin is empty"));
    }
    match detect_spec_format(content) {
        Some(f) => Ok(f),
        None => Err(
            lit("unable to detect the format of the workflow spec read from stdin (expected JSON, JSON5, YAML, or KDL)"),
        ),
    }
}

} // verus!
