//! Reading a workflow specification written in KDL.
//!
//! The `kdl` crate parses the text. Its document is copied into plain data
//! (`KdlNodeData`) as far down as the workflow format reaches, and that data
//! is turned into the JSON value that every specification format shares.

use vstd::prelude::*;

use kdl::{KdlDiagnostic, KdlDocument, KdlEntry, KdlError, KdlIdentifier, KdlNode, KdlValue};

use crate::execution::opt_text_view;
use crate::json::JsonValue;
use crate::json_view::{
    entry_views, has_entry, has_entry_of, insert_entry, jv, lemma_jv_array, lemma_jv_object, obj_insert,
    push_item, views, JsonView,
};
use crate::text::{
    chars_of, concat2, concat3, copy_string, extend_chars, extend_str, i64_to_string, int_text, lit,
    nat_digits, slice_chars, str_eq, string_of, u128_digits,
};

verus! {

#[verifier::external_type_specification]
#[verifier::external_body]
pub struct ExKdlDocument(kdl::KdlDocument);

#[verifier::external_type_specification]
#[verifier::external_body]
pub struct ExKdlNode(kdl::KdlNode);

#[verifier::external_type_specification]
#[verifier::external_body]
pub struct ExKdlEntry(kdl::KdlEntry);

#[verifier::external_type_specification]
#[verifier::external_body]
pub struct ExKdlIdentifier(kdl::KdlIdentifier);

#[verifier::external_type_specification]
#[verifier::external_body]
pub struct ExKdlValue(kdl::KdlValue);

#[verifier::external_type_specification]
#[verifier::external_body]
pub struct ExKdlError(kdl::KdlError);

#[verifier::external_type_specification]
#[verifier::external_body]
pub struct ExKdlDiagnostic(kdl::KdlDiagnostic);

/// A KDL value as plain data. The value of a float is not kept: the
/// workflow format reads no setting from a float.
#[derive(Debug)]
pub enum KdlValueData {
    String(String),
    Integer(i128),
    Float,
    Bool(bool),
    Null,
}

/// An argument (no name) or a property (`name=value`) of a node.
#[derive(Debug)]
pub struct KdlEntryData {
    pub name: Option<String>,
    pub value: KdlValueData,
}

/// A node: its name, its entries in order, and its children block.
#[derive(Debug)]
pub struct KdlNodeData {
    pub name: String,
    pub entries: Vec<KdlEntryData>,
    pub children: Option<Vec<KdlNodeData>>,
}

/// What the parser reported of one problem in the text.
#[derive(Debug)]
pub struct KdlProblem {
    /// Byte offset of the problem in the text.
    pub offset: usize,
    pub message: Option<String>,
    pub label: Option<String>,
    pub help: Option<String>,
}

/// The nodes that a document holds (its field `nodes`), in order.
pub uninterp spec fn kdl_document_nodes(doc: KdlDocument) -> Seq<KdlNode>;

/// The name that a node holds (its field `name`).
pub uninterp spec fn kdl_node_name(node: KdlNode) -> KdlIdentifier;

/// The text that an identifier holds (its field `value`).
pub uninterp spec fn kdl_identifier_value(id: KdlIdentifier) -> Seq<char>;

/// The entries that a node holds (its field `entries`), in order.
pub uninterp spec fn kdl_node_entries(node: KdlNode) -> Seq<KdlEntry>;

/// The children block that a node holds (its field `children`).
pub uninterp spec fn kdl_node_children(node: KdlNode) -> Option<KdlDocument>;

/// The name that an entry holds (its field `name`); `None` for an argument.
pub uninterp spec fn kdl_entry_name(entry: KdlEntry) -> Option<KdlIdentifier>;

/// The value that an entry holds (its field `value`).
pub uninterp spec fn kdl_entry_value(entry: KdlEntry) -> KdlValue;

/// What a value holds, as plain data (a float's payload left out).
pub uninterp spec fn kdl_value_data(value: KdlValue) -> KdlValueData;

/// The problems that a parse error holds (its field `diagnostics`), in order.
pub uninterp spec fn kdl_error_diagnostics(e: KdlError) -> Seq<KdlDiagnostic>;

/// The byte offset of a problem's span.
pub uninterp spec fn kdl_diagnostic_offset(d: KdlDiagnostic) -> usize;

/// The message, label and help texts that a problem holds.
pub uninterp spec fn kdl_diagnostic_texts(d: KdlDiagnostic) -> (
    Option<Seq<char>>,
    Option<Seq<char>>,
    Option<Seq<char>>,
);

/// What the KDL parser makes of a text: the document, or its error.
pub uninterp spec fn kdl_parse(content: Seq<char>) -> Result<KdlDocument, KdlError>;

/// `kdl::KdlDocument::parse`: the document that `content` holds, or the
/// parser's error, which depend on the text alone. What they hold is read
/// out by the accessors below.
#[verifier::external_body]
fn parse_document(content: &str) -> (r: Result<KdlDocument, KdlError>)
    ensures
        r == kdl_parse(content@),
{
    KdlDocument::parse(content)
}

/// `kdl::KdlDocument::nodes`: the nodes of a document, in order (the
/// method hands out the field as it is).
#[verifier::external_body]
fn document_nodes(doc: &KdlDocument) -> (r: &[KdlNode])
    ensures
        r@ == kdl_document_nodes(*doc),
{
    doc.nodes()
}

/// `kdl::KdlNode::name`: the node's name field as it is.
#[verifier::external_body]
fn node_name(node: &KdlNode) -> (r: &KdlIdentifier)
    ensures
        *r == kdl_node_name(*node),
{
    node.name()
}

/// `kdl::KdlIdentifier::value`: the text of an identifier.
#[verifier::external_body]
fn identifier_text(id: &KdlIdentifier) -> (r: &str)
    ensures
        r@ == kdl_identifier_value(*id),
{
    id.value()
}

/// `kdl::KdlNode::entries`: arguments and properties, in order.
#[verifier::external_body]
fn node_entries(node: &KdlNode) -> (r: &[KdlEntry])
    ensures
        r@ == kdl_node_entries(*node),
{
    node.entries()
}

/// `kdl::KdlNode::children`: the children block, if the node has one.
#[verifier::external_body]
fn node_children(node: &KdlNode) -> (r: Option<&KdlDocument>)
    ensures
        match r {
            Some(d) => kdl_node_children(*node) == Some(*d),
            None => kdl_node_children(*node) is None,
        },
{
    node.children()
}

/// `kdl::KdlEntry::name`: the name of a property; `None` for an argument.
#[verifier::external_body]
fn entry_name(entry: &KdlEntry) -> (r: Option<&KdlIdentifier>)
    ensures
        match r {
            Some(id) => kdl_entry_name(*entry) == Some(*id),
            None => kdl_entry_name(*entry) is None,
        },
{
    entry.name()
}

/// `kdl::KdlEntry::value`: the entry's value field as it is.
#[verifier::external_body]
fn entry_value(entry: &KdlEntry) -> (r: &KdlValue)
    ensures
        *r == kdl_entry_value(*entry),
{
    entry.value()
}

/// The variant of a `kdl::KdlValue`, with its payload (a float's is left out).
#[verifier::external_body]
fn value_data(value: &KdlValue) -> (r: KdlValueData)
    ensures
        r == kdl_value_data(*value),
{
    match value {
        KdlValue::String(s) => KdlValueData::String(s.clone()),
        KdlValue::Integer(i) => KdlValueData::Integer(*i),
        KdlValue::Float(_) => KdlValueData::Float,
        KdlValue::Bool(b) => KdlValueData::Bool(*b),
        KdlValue::Null => KdlValueData::Null,
    }
}

/// The field `diagnostics` of a `kdl::KdlError`: the problems found.
#[verifier::external_body]
fn error_diagnostics(e: &KdlError) -> (r: &Vec<KdlDiagnostic>)
    ensures
        r@ == kdl_error_diagnostics(*e),
{
    &e.diagnostics
}

/// The span offset (`miette::SourceSpan::offset`) of a `kdl::KdlDiagnostic`.
#[verifier::external_body]
fn diagnostic_offset(d: &KdlDiagnostic) -> (r: usize)
    ensures
        r == kdl_diagnostic_offset(*d),
{
    d.span.offset()
}

/// The fields `message`, `label` and `help` of a `kdl::KdlDiagnostic`.
#[verifier::external_body]
fn diagnostic_texts(d: &KdlDiagnostic) -> (r: (Option<String>, Option<String>, Option<String>))
    ensures
        (opt_text_view(r.0), opt_text_view(r.1), opt_text_view(r.2)) == kdl_diagnostic_texts(*d),
{
    (d.message.clone(), d.label.clone(), d.help.clone())
}

/// How many levels of nodes the workflow format reads: top-level settings,
/// their blocks, and the blocks inside those (such as a job's `stdio`).
pub const READ_DEPTH: usize = 3;

/// `x` is a plain copy of the entry `e`: the same name, if any, and value.
pub open spec fn copies_entry(x: KdlEntryData, e: KdlEntry) -> bool {
    &&& match kdl_entry_name(e) {
        Some(id) => x.name matches Some(s) && s@ == kdl_identifier_value(id),
        None => x.name is None,
    }
    &&& x.value == kdl_value_data(kdl_entry_value(e))
}

/// `xs` copies the entries `es` one for one, in order.
pub open spec fn copies_entries(xs: Seq<KdlEntryData>, es: Seq<KdlEntry>) -> bool {
    &&& xs.len() == es.len()
    &&& forall|i: int| 0 <= i < xs.len() ==> #[trigger] copies_entry(xs[i], es[i])
}

/// `x` copies the node `n`, its name and its entries; `children` says
/// whether its children block was copied as the format asks.
pub open spec fn copies_node_with(x: KdlNodeData, n: KdlNode, children: bool) -> bool {
    &&& x.name@ == kdl_identifier_value(kdl_node_name(n))
    &&& copies_entries(x.entries@, kdl_node_entries(n))
    &&& children
}

/// `xs` copies the nodes of `doc` one for one, in order, `depth` levels
/// down: each node's name and entries, and, when `depth` is above one, its
/// children block `depth - 1` levels down; on the last level no children
/// are copied.
pub open spec fn copies_nodes(xs: Seq<KdlNodeData>, doc: KdlDocument, depth: nat) -> bool
    decreases depth,
{
    &&& xs.len() == kdl_document_nodes(doc).len()
    &&& forall|i: int|
        0 <= i < xs.len() ==> copies_node_with(
            #[trigger] xs[i],
            kdl_document_nodes(doc)[i],
            if depth > 1 {
                match (xs[i].children, kdl_node_children(kdl_document_nodes(doc)[i])) {
                    (Some(c), Some(d)) => copies_nodes(c@, d, (depth - 1) as nat),
                    (None, None) => true,
                    _ => false,
                }
            } else {
                xs[i].children is None
            },
        )
}

/// `x` copies the node `n` as `copies_nodes` asks of each node.
pub open spec fn copies_node(x: KdlNodeData, n: KdlNode, depth: nat) -> bool {
    copies_node_with(
        x,
        n,
        if depth > 1 {
            match (x.children, kdl_node_children(n)) {
                (Some(c), Some(d)) => copies_nodes(c@, d, (depth - 1) as nat),
                (None, None) => true,
                _ => false,
            }
        } else {
            x.children is None
        },
    )
}

/// `xs` copies the problems of `e` one for one, in order.
pub open spec fn copies_problems(xs: Seq<KdlProblem>, e: KdlError) -> bool {
    &&& xs.len() == kdl_error_diagnostics(e).len()
    &&& forall|i: int|
        0 <= i < xs.len() ==> {
            let d = #[trigger] kdl_error_diagnostics(e)[i];
            &&& xs[i].offset == kdl_diagnostic_offset(d)
            &&& (opt_text_view(xs[i].message), opt_text_view(xs[i].label), opt_text_view(xs[i].help))
                == kdl_diagnostic_texts(d)
        }
}

/// Plain copies of the entries of a node.
fn entries_data(node: &KdlNode) -> (r: Vec<KdlEntryData>)
    ensures
        copies_entries(r@, kdl_node_entries(*node)),
{
    let entries = node_entries(node);
    let mut out: Vec<KdlEntryData> = Vec::new();
    let mut i: usize = 0;
    while i < entries.len()
        invariant
            i <= entries@.len(),
            entries@ == kdl_node_entries(*node),
            out@.len() == i,
            forall|j: int| 0 <= j < i ==> #[trigger] copies_entry(out@[j], entries@[j]),
        decreases entries@.len() - i,
    {
        let entry = &entries[i];
        let name = match entry_name(entry) {
            Some(id) => Some(lit(identifier_text(id))),
            None => None,
        };
        out.push(KdlEntryData { name, value: value_data(entry_value(entry)) });
        i = i + 1;
    }
    out
}

/// Plain copies of the nodes of a document, `depth` levels down; the
/// children of nodes on the last level are not copied.
fn nodes_data(doc: &KdlDocument, depth: usize) -> (r: Vec<KdlNodeData>)
    ensures
        copies_nodes(r@, *doc, depth as nat),
    decreases depth,
{
    let nodes = document_nodes(doc);
    let mut out: Vec<KdlNodeData> = Vec::new();
    let mut i: usize = 0;
    while i < nodes.len()
        invariant
            i <= nodes@.len(),
            nodes@ == kdl_document_nodes(*doc),
            out@.len() == i,
            forall|j: int| 0 <= j < i ==> copies_node(#[trigger] out@[j], nodes@[j], depth as nat),
        decreases nodes@.len() - i,
    {
        let node = &nodes[i];
        let children = if depth > 1 {
            match node_children(node) {
                Some(d) => Some(nodes_data(d, depth - 1)),
                None => None,
            }
        } else {
            None
        };
        out.push(
            KdlNodeData {
                name: lit(identifier_text(node_name(node))),
                entries: entries_data(node),
                children,
            },
        );
        i = i + 1;
    }
    out
}

/// Plain copies of the problems of a parse error.
fn problems_of(e: &KdlError) -> (r: Vec<KdlProblem>)
    ensures
        copies_problems(r@, *e),
{
    let diagnostics = error_diagnostics(e);
    let mut out: Vec<KdlProblem> = Vec::new();
    let mut i: usize = 0;
    while i < diagnostics.len()
        invariant
            i <= diagnostics@.len(),
            diagnostics@ == kdl_error_diagnostics(*e),
            out@.len() == i,
            forall|j: int|
                0 <= j < i ==> {
                    let d = #[trigger] diagnostics@[j];
                    &&& out@[j].offset == kdl_diagnostic_offset(d)
                    &&& (opt_text_view(out@[j].message), opt_text_view(out@[j].label), opt_text_view(
                        out@[j].help,
                    )) == kdl_diagnostic_texts(d)
                },
        decreases diagnostics@.len() - i,
    {
        let d = &diagnostics[i];
        let (message, label, help) = diagnostic_texts(d);
        out.push(KdlProblem { offset: diagnostic_offset(d), message, label, help });
        i = i + 1;
    }
    out
}

// ---------------------------------------------------------------------------
// From KDL nodes to the shared JSON value
// ---------------------------------------------------------------------------

/// The kinds of node that the format gives a meaning to.
#[derive(Clone, Copy, Debug, PartialEq, Eq, Structural)]
pub enum NodeKind {
    Document,
    Job,
    File,
    UserData,
    ResourceRequirements,
    SlurmScheduler,
    Action,
    FailureHandler,
    FailureRule,
    ResourceMonitor,
    MonitorPart,
    ExecutionConfig,
    Stdio,
    SlurmDefaults,
}

/// What the entries of a string map are called in its error message.
#[derive(Clone, Copy, Debug, PartialEq, Eq, Structural)]
pub enum MapLabel {
    Parameter,
    Variable,
    EnvironmentKey,
}

/// What a child node contributes to the object of its parent. Settings are
/// stored under the child's own name; the lists (`Push`, `PushAll`,
/// `PushObject`) are gathered in numbered slots and stored at the end.
#[derive(Clone, Copy, Debug, PartialEq, Eq, Structural)]
pub enum Rule {
    /// Ignored.
    Skip,
    /// The first entry, when a string.
    Text,
    /// The first entry, when an integer (as a 64-bit number).
    Integer,
    /// The first entry, when a boolean.
    Boolean,
    /// The first entry, when a string, an integer or a boolean.
    Scalar,
    /// The string entries, as an array, when there is one.
    Texts,
    /// The integer entries, as an array, when there is one.
    Integers,
    /// The children as an object of strings; each must have a string entry.
    StringMap(MapLabel),
    /// The child read as an object of the given kind.
    Object(NodeKind),
    /// The first entry, when a string, appended to a slot.
    Push(usize),
    /// The string entries, appended to a slot.
    PushAll(usize),
    /// The child read as an object of the given kind, appended to a slot.
    PushObject(usize, NodeKind),
    /// The user data's text (the last `data` child's first entry, when a string).
    Data,
}

/// Whether a node of a kind has a name as its first entry.
#[derive(Clone, Copy, Debug, PartialEq, Eq, Structural)]
pub enum NameRule {
    Unnamed,
    Optional,
    Required,
}

/// Nesting of the kinds: a kind reads only kinds of a lower level.
pub open spec fn level(k: NodeKind) -> nat {
    match k {
        NodeKind::Document => 3,
        NodeKind::FailureRule | NodeKind::MonitorPart | NodeKind::Stdio => 1,
        _ => 2,
    }
}

pub open spec fn document_rule(n: Seq<char>) -> Rule {
    if n == "name"@ || n == "user"@ || n == "description"@ {
        Rule::Text
    } else if n == "compute_node_expiration_buffer_seconds"@ || n
        == "compute_node_wait_for_new_jobs_seconds"@ || n
        == "compute_node_wait_for_healthy_database_minutes"@ {
        Rule::Integer
    } else if n == "compute_node_ignore_workflow_completion"@ || n == "use_pending_failed"@ {
        Rule::Boolean
    } else if n == "parameters"@ {
        Rule::StringMap(MapLabel::Parameter)
    } else if n == "variables"@ {
        Rule::StringMap(MapLabel::Variable)
    } else if n == "env"@ {
        Rule::StringMap(MapLabel::EnvironmentKey)
    } else if n == "job"@ {
        Rule::PushObject(0, NodeKind::Job)
    } else if n == "file"@ {
        Rule::PushObject(1, NodeKind::File)
    } else if n == "user_data"@ {
        Rule::PushObject(2, NodeKind::UserData)
    } else if n == "resource_requirements"@ {
        Rule::PushObject(3, NodeKind::ResourceRequirements)
    } else if n == "failure_handler"@ {
        Rule::PushObject(4, NodeKind::FailureHandler)
    } else if n == "slurm_scheduler"@ {
        Rule::PushObject(5, NodeKind::SlurmScheduler)
    } else if n == "action"@ {
        Rule::PushObject(6, NodeKind::Action)
    } else if n == "resource_monitor"@ {
        Rule::Object(NodeKind::ResourceMonitor)
    } else if n == "slurm_defaults"@ {
        Rule::Object(NodeKind::SlurmDefaults)
    } else if n == "execution_config"@ {
        Rule::Object(NodeKind::ExecutionConfig)
    } else {
        Rule::Skip
    }
}

pub open spec fn job_rule(n: Seq<char>) -> Rule {
    if n == "command"@ || n == "invocation_script"@ || n == "resource_requirements"@ || n
        == "failure_handler"@ || n == "scheduler"@ || n == "parameter_mode"@ {
        Rule::Text
    } else if n == "cancel_on_blocking_job_failure"@ || n == "supports_termination"@ {
        Rule::Boolean
    } else if n == "env"@ {
        Rule::StringMap(MapLabel::EnvironmentKey)
    } else if n == "parameters"@ {
        Rule::StringMap(MapLabel::Parameter)
    } else if n == "use_parameters"@ {
        Rule::Texts
    } else if n == "stdio"@ {
        Rule::Object(NodeKind::Stdio)
    } else if n == "depends_on"@ {
        Rule::Push(0)
    } else if n == "depends_on_regexes"@ {
        Rule::Push(1)
    } else if n == "input_file"@ {
        Rule::Push(2)
    } else if n == "output_file"@ {
        Rule::Push(3)
    } else if n == "input_user_data"@ {
        Rule::Push(4)
    } else if n == "output_user_data"@ {
        Rule::Push(5)
    } else {
        Rule::Skip
    }
}

pub open spec fn file_rule(n: Seq<char>) -> Rule {
    if n == "path"@ || n == "identifier"@ || n == "parameter_mode"@ {
        Rule::Text
    } else if n == "parameters"@ {
        Rule::StringMap(MapLabel::Parameter)
    } else if n == "use_parameters"@ {
        Rule::Texts
    } else {
        Rule::Skip
    }
}

pub open spec fn user_data_rule(n: Seq<char>) -> Rule {
    if n == "is_ephemeral"@ {
        Rule::Boolean
    } else if n == "data"@ {
        Rule::Data
    } else {
        Rule::Skip
    }
}

pub open spec fn resource_requirements_rule(n: Seq<char>) -> Rule {
    if n == "num_cpus"@ || n == "num_gpus"@ || n == "num_nodes"@ {
        Rule::Integer
    } else if n == "memory"@ || n == "runtime"@ {
        Rule::Text
    } else {
        Rule::Skip
    }
}

pub open spec fn slurm_scheduler_rule(n: Seq<char>) -> Rule {
    if n == "account"@ || n == "gres"@ || n == "mem"@ || n == "partition"@ || n == "qos"@ || n
        == "tmp"@ || n == "walltime"@ || n == "extra"@ {
        Rule::Text
    } else if n == "nodes"@ || n == "ntasks_per_node"@ {
        Rule::Integer
    } else if n == "serialize_allocations"@ {
        Rule::Boolean
    } else {
        Rule::Skip
    }
}

pub open spec fn action_rule(n: Seq<char>) -> Rule {
    if n == "trigger_type"@ || n == "action_type"@ || n == "scheduler"@ || n
        == "scheduler_type"@ {
        Rule::Text
    } else if n == "num_allocations"@ || n == "max_parallel_jobs"@ {
        Rule::Integer
    } else if n == "start_one_worker_per_node"@ || n == "persistent"@ {
        Rule::Boolean
    } else if n == "job"@ {
        Rule::Push(0)
    } else if n == "jobs"@ {
        Rule::PushAll(0)
    } else if n == "job_name_regexes"@ {
        Rule::Push(1)
    } else if n == "command"@ {
        Rule::Push(2)
    } else {
        Rule::Skip
    }
}

pub open spec fn failure_handler_rule(n: Seq<char>) -> Rule {
    if n == "rule"@ {
        Rule::PushObject(0, NodeKind::FailureRule)
    } else {
        Rule::Skip
    }
}

pub open spec fn failure_rule_rule(n: Seq<char>) -> Rule {
    if n == "exit_codes"@ {
        Rule::Integers
    } else if n == "match_all_exit_codes"@ {
        Rule::Boolean
    } else if n == "recovery_script"@ {
        Rule::Text
    } else if n == "max_retries"@ {
        Rule::Integer
    } else {
        Rule::Skip
    }
}

pub open spec fn resource_monitor_rule(n: Seq<char>) -> Rule {
    if n == "enabled"@ || n == "generate_plots"@ {
        Rule::Boolean
    } else if n == "granularity"@ {
        Rule::Text
    } else if n == "sample_interval_seconds"@ || n == "flush_interval_seconds"@ {
        Rule::Integer
    } else if n == "jobs"@ || n == "compute_node"@ {
        Rule::Object(NodeKind::MonitorPart)
    } else {
        Rule::Skip
    }
}

pub open spec fn monitor_part_rule(n: Seq<char>) -> Rule {
    if n == "enabled"@ || n == "cpu"@ || n == "memory"@ {
        Rule::Boolean
    } else if n == "granularity"@ {
        Rule::Text
    } else {
        Rule::Skip
    }
}

pub open spec fn execution_config_rule(n: Seq<char>) -> Rule {
    if n == "stdio"@ {
        Rule::Object(NodeKind::Stdio)
    } else if n == "mode"@ || n == "termination_signal"@ || n == "srun_termination_signal"@ || n
        == "srun_mpi"@ {
        Rule::Text
    } else if n == "limit_resources"@ || n == "enable_cpu_bind"@ {
        Rule::Boolean
    } else if n == "sigterm_lead_seconds"@ || n == "sigkill_headroom_seconds"@ || n
        == "timeout_exit_code"@ || n == "oom_exit_code"@ {
        Rule::Integer
    } else {
        Rule::Skip
    }
}

pub open spec fn stdio_rule(n: Seq<char>) -> Rule {
    if n == "mode"@ {
        Rule::Text
    } else if n == "delete_on_success"@ {
        Rule::Boolean
    } else {
        Rule::Skip
    }
}

/// What a child named `n` contributes to a node of kind `k`.
pub open spec fn rule_of(k: NodeKind, n: Seq<char>) -> Rule {
    match k {
        NodeKind::Document => document_rule(n),
        NodeKind::Job => job_rule(n),
        NodeKind::File => file_rule(n),
        NodeKind::UserData => user_data_rule(n),
        NodeKind::ResourceRequirements => resource_requirements_rule(n),
        NodeKind::SlurmScheduler => slurm_scheduler_rule(n),
        NodeKind::Action => action_rule(n),
        NodeKind::FailureHandler => failure_handler_rule(n),
        NodeKind::FailureRule => failure_rule_rule(n),
        NodeKind::ResourceMonitor => resource_monitor_rule(n),
        NodeKind::MonitorPart => monitor_part_rule(n),
        NodeKind::ExecutionConfig => execution_config_rule(n),
        NodeKind::Stdio => stdio_rule(n),
        NodeKind::SlurmDefaults => Rule::Scalar,
    }
}

/// The number of list slots of a kind.
pub open spec fn slot_count(k: NodeKind) -> nat {
    match k {
        NodeKind::Document => 7,
        NodeKind::Job => 6,
        NodeKind::Action => 3,
        NodeKind::FailureHandler => 1,
        _ => 0,
    }
}

/// The key a slot is stored under.
pub open spec fn slot_key(k: NodeKind, i: int) -> Seq<char> {
    match k {
        NodeKind::Document => if i == 0 {
            "jobs"@
        } else if i == 1 {
            "files"@
        } else if i == 2 {
            "user_data"@
        } else if i == 3 {
            "resource_requirements"@
        } else if i == 4 {
            "failure_handlers"@
        } else if i == 5 {
            "slurm_schedulers"@
        } else {
            "actions"@
        },
        NodeKind::Job => if i == 0 {
            "depends_on"@
        } else if i == 1 {
            "depends_on_regexes"@
        } else if i == 2 {
            "input_files"@
        } else if i == 3 {
            "output_files"@
        } else if i == 4 {
            "input_user_data"@
        } else {
            "output_user_data"@
        },
        NodeKind::Action => if i == 0 {
            "jobs"@
        } else if i == 1 {
            "job_name_regexes"@
        } else {
            "commands"@
        },
        _ => "rules"@,
    }
}

/// Whether a slot is stored even when empty (the document's jobs and a
/// failure handler's rules); the others only when they hold an item.
pub open spec fn slot_always(k: NodeKind, i: int) -> bool {
    i == 0 && (k == NodeKind::Document || k == NodeKind::FailureHandler)
}

pub open spec fn name_rule(k: NodeKind) -> NameRule {
    match k {
        NodeKind::Job | NodeKind::File | NodeKind::ResourceRequirements
        | NodeKind::FailureHandler => NameRule::Required,
        NodeKind::UserData | NodeKind::SlurmScheduler => NameRule::Optional,
        _ => NameRule::Unnamed,
    }
}

/// The error of a node whose required name is missing.
pub open spec fn name_error(k: NodeKind) -> Seq<char> {
    match k {
        NodeKind::Job => "job must have a name"@,
        NodeKind::File => "file must have a name"@,
        NodeKind::ResourceRequirements => "resource_requirements must have a name"@,
        _ => "failure_handler must have a name"@,
    }
}

pub open spec fn label_text(l: MapLabel) -> Seq<char> {
    match l {
        MapLabel::Parameter => "Parameter"@,
        MapLabel::Variable => "Variable"@,
        MapLabel::EnvironmentKey => "Environment key"@,
    }
}

pub open spec fn text_of(v: KdlValueData) -> Option<Seq<char>> {
    match v {
        KdlValueData::String(s) => Some(s@),
        _ => None,
    }
}

pub open spec fn integer_of(v: KdlValueData) -> Option<i128> {
    match v {
        KdlValueData::Integer(i) => Some(i),
        _ => None,
    }
}

pub open spec fn bool_of(v: KdlValueData) -> Option<bool> {
    match v {
        KdlValueData::Bool(b) => Some(b),
        _ => None,
    }
}

pub open spec fn first_value(node: KdlNodeData) -> Option<KdlValueData> {
    if node.entries@.len() > 0 {
        Some(node.entries@[0].value)
    } else {
        None
    }
}

pub open spec fn first_text(node: KdlNodeData) -> Option<Seq<char>> {
    match first_value(node) {
        Some(v) => text_of(v),
        None => None,
    }
}

pub open spec fn first_integer(node: KdlNodeData) -> Option<i128> {
    match first_value(node) {
        Some(v) => integer_of(v),
        None => None,
    }
}

pub open spec fn first_bool(node: KdlNodeData) -> Option<bool> {
    match first_value(node) {
        Some(v) => bool_of(v),
        None => None,
    }
}

/// A KDL integer as a JSON number: the integer taken to 64 bits.
pub open spec fn number(i: i128) -> JsonView {
    JsonView::Number(int_text((i as i64) as int))
}

/// The string entries, in order.
pub open spec fn strings_in(e: Seq<KdlEntryData>) -> Seq<JsonView>
    decreases e.len(),
{
    if e.len() == 0 {
        Seq::empty()
    } else {
        match text_of(e.last().value) {
            Some(t) => strings_in(e.drop_last()).push(JsonView::Str(t)),
            None => strings_in(e.drop_last()),
        }
    }
}

/// The integer entries, in order, as numbers.
pub open spec fn integers_in(e: Seq<KdlEntryData>) -> Seq<JsonView>
    decreases e.len(),
{
    if e.len() == 0 {
        Seq::empty()
    } else {
        match integer_of(e.last().value) {
            Some(i) => integers_in(e.drop_last()).push(number(i)),
            None => integers_in(e.drop_last()),
        }
    }
}

/// The value of the last property named `key` (as `KdlNode::get` finds it).
pub open spec fn property(e: Seq<KdlEntryData>, key: Seq<char>) -> Option<KdlValueData>
    decreases e.len(),
{
    if e.len() == 0 {
        None
    } else {
        match e.last().name {
            Some(n) => if n@ == key {
                Some(e.last().value)
            } else {
                property(e.drop_last(), key)
            },
            None => property(e.drop_last(), key),
        }
    }
}

pub open spec fn children_of(node: KdlNodeData) -> Seq<KdlNodeData> {
    match node.children {
        Some(c) => c@,
        None => Seq::empty(),
    }
}

pub open spec fn map_entry_error(l: MapLabel, name: Seq<char>) -> Seq<char> {
    label_text(l) + " '"@ + name + "' must have a string value"@
}

/// The first `k` children as an object of strings.
pub open spec fn string_map_upto(ch: Seq<KdlNodeData>, l: MapLabel, k: nat) -> Result<
    Seq<(Seq<char>, JsonView)>,
    Seq<char>,
>
    decreases k,
{
    if k == 0 || k > ch.len() {
        Ok(Seq::empty())
    } else {
        match string_map_upto(ch, l, (k - 1) as nat) {
            Err(e) => Err(e),
            Ok(m) => match first_text(ch[k - 1]) {
                Some(t) => Ok(obj_insert(m, ch[k - 1].name@, JsonView::Str(t))),
                None => Err(map_entry_error(l, ch[k - 1].name@)),
            },
        }
    }
}

/// A block of `name "value"` lines as an object; `None` when it has no line.
pub open spec fn string_map(node: KdlNodeData, l: MapLabel) -> Result<
    Option<Seq<(Seq<char>, JsonView)>>,
    Seq<char>,
> {
    match node.children {
        None => Ok(None),
        Some(c) => match string_map_upto(c@, l, c@.len()) {
            Err(e) => Err(e),
            Ok(m) => if m.len() == 0 {
                Ok(None)
            } else {
                Ok(Some(m))
            },
        },
    }
}

/// The state of reading the children of a node.
pub struct Acc {
    pub obj: Seq<(Seq<char>, JsonView)>,
    pub slots: Seq<Seq<JsonView>>,
    pub data: Option<Seq<char>>,
    /// The user data texts read so far, in document order.
    pub texts: Seq<Seq<char>>,
    pub error: Option<Seq<char>>,
}

/// A node read as JSON, with the user data texts met, in document order.
/// A user data entry holds its `data` text as a string, which the caller
/// parses as JSON.
pub struct Converted {
    pub json: Result<JsonView, Seq<char>>,
    pub texts: Seq<Seq<char>>,
}

pub open spec fn acc_put(a: Acc, key: Seq<char>, v: JsonView) -> Acc {
    Acc { obj: obj_insert(a.obj, key, v), ..a }
}

pub open spec fn acc_push(a: Acc, s: int, v: JsonView) -> Acc {
    Acc { slots: a.slots.update(s, a.slots[s].push(v)), ..a }
}

/// Taking in what reading a child gave: its texts, then its value or error.
pub open spec fn acc_take(a: Acc, r: Converted, slot: Option<int>, key: Seq<char>) -> Acc {
    let a1 = Acc { texts: a.texts + r.texts, ..a };
    match r.json {
        Err(e) => Acc { error: Some(e), ..a1 },
        Ok(v) => match slot {
            Some(s) => acc_push(a1, s, v),
            None => acc_put(a1, key, v),
        },
    }
}

/// Reading one more child `c` of a node of kind `k`.
pub open spec fn step(k: NodeKind, a: Acc, c: KdlNodeData) -> Acc
    decreases level(k), 0nat,
{
    let key = c.name@;
    match rule_of(k, key) {
        Rule::Skip => a,
        Rule::Text => match first_text(c) {
            Some(t) => acc_put(a, key, JsonView::Str(t)),
            None => a,
        },
        Rule::Integer => match first_integer(c) {
            Some(i) => acc_put(a, key, number(i)),
            None => a,
        },
        Rule::Boolean => match first_bool(c) {
            Some(b) => acc_put(a, key, JsonView::Bool(b)),
            None => a,
        },
        Rule::Scalar => match first_value(c) {
            Some(KdlValueData::String(s)) => acc_put(a, key, JsonView::Str(s@)),
            Some(KdlValueData::Integer(i)) => acc_put(a, key, number(i)),
            Some(KdlValueData::Bool(b)) => acc_put(a, key, JsonView::Bool(b)),
            _ => a,
        },
        Rule::Texts => if strings_in(c.entries@).len() > 0 {
            acc_put(a, key, JsonView::Array(strings_in(c.entries@)))
        } else {
            a
        },
        Rule::Integers => if integers_in(c.entries@).len() > 0 {
            acc_put(a, key, JsonView::Array(integers_in(c.entries@)))
        } else {
            a
        },
        Rule::StringMap(l) => match string_map(c, l) {
            Err(e) => Acc { error: Some(e), ..a },
            Ok(None) => a,
            Ok(Some(m)) => acc_put(a, key, JsonView::Object(m)),
        },
        Rule::Object(sub) => if level(sub) < level(k) {
            acc_take(a, convert(sub, c), None, key)
        } else {
            a
        },
        Rule::Push(s) => if s < a.slots.len() {
            match first_text(c) {
                Some(t) => acc_push(a, s as int, JsonView::Str(t)),
                None => a,
            }
        } else {
            a
        },
        Rule::PushAll(s) => if s < a.slots.len() {
            Acc { slots: a.slots.update(s as int, a.slots[s as int] + strings_in(c.entries@)), ..a }
        } else {
            a
        },
        Rule::PushObject(s, sub) => if s < a.slots.len() && level(sub) < level(k) {
            acc_take(a, convert(sub, c), Some(s as int), key)
        } else {
            a
        },
        Rule::Data => Acc { data: first_text(c), ..a },
    }
}

/// Reading the first `i` children, stopping at the first error.
pub open spec fn fold(k: NodeKind, init: Acc, ch: Seq<KdlNodeData>, i: nat) -> Acc
    decreases level(k), i + 1,
{
    if i == 0 || i > ch.len() {
        init
    } else {
        let a = fold(k, init, ch, (i - 1) as nat);
        if a.error is Some {
            a
        } else {
            step(k, a, ch[i - 1])
        }
    }
}

/// The entries a node of kind `k` starts with: its name, and for a file
/// the `path` and `identifier` properties.
pub open spec fn head(k: NodeKind, node: KdlNodeData) -> Result<Seq<(Seq<char>, JsonView)>, Seq<char>> {
    let named: Result<Seq<(Seq<char>, JsonView)>, Seq<char>> = match name_rule(k) {
        NameRule::Unnamed => Ok(Seq::empty()),
        NameRule::Optional => match first_text(node) {
            Some(t) => Ok(seq![("name"@, JsonView::Str(t))]),
            None => Ok(Seq::empty()),
        },
        NameRule::Required => match first_text(node) {
            Some(t) => Ok(seq![("name"@, JsonView::Str(t))]),
            None => Err(name_error(k)),
        },
    };
    match named {
        Err(e) => Err(e),
        Ok(m) => if k == NodeKind::File {
            Ok(with_property(with_property(m, node, "path"@), node, "identifier"@))
        } else {
            Ok(m)
        },
    }
}

/// `m` with the string property `key` of `node`, when it has one.
pub open spec fn with_property(m: Seq<(Seq<char>, JsonView)>, node: KdlNodeData, key: Seq<char>) -> Seq<
    (Seq<char>, JsonView),
> {
    match property(node.entries@, key) {
        Some(v) => match text_of(v) {
            Some(t) => obj_insert(m, key, JsonView::Str(t)),
            None => m,
        },
        None => m,
    }
}

pub open spec fn init_acc(k: NodeKind, obj: Seq<(Seq<char>, JsonView)>) -> Acc {
    Acc {
        obj,
        slots: Seq::new(slot_count(k), |i: int| Seq::<JsonView>::empty()),
        data: None,
        texts: Seq::empty(),
        error: None,
    }
}

/// `obj` with the first `n` slots stored.
pub open spec fn with_slots(k: NodeKind, obj: Seq<(Seq<char>, JsonView)>, slots: Seq<Seq<JsonView>>, n: nat) -> Seq<
    (Seq<char>, JsonView),
>
    decreases n,
{
    if n == 0 {
        obj
    } else {
        let o = with_slots(k, obj, slots, (n - 1) as nat);
        if slot_always(k, n - 1) || slots[n - 1].len() > 0 {
            obj_insert(o, slot_key(k, n - 1), JsonView::Array(slots[n - 1]))
        } else {
            o
        }
    }
}

/// The object of a node once its children are read.
pub open spec fn finish(k: NodeKind, a: Acc) -> Converted {
    let obj = with_slots(k, a.obj, a.slots, slot_count(k));
    if k == NodeKind::File && !has_entry(obj, "path"@) {
        Converted { json: Err("file must have a path property"@), texts: a.texts }
    } else if k == NodeKind::UserData {
        match a.data {
            None => Converted { json: Err("user_data must have a data property"@), texts: a.texts },
            Some(t) => Converted {
                json: Ok(JsonView::Object(obj_insert(obj, "data"@, JsonView::Str(t)))),
                texts: a.texts.push(t),
            },
        }
    } else {
        Converted { json: Ok(JsonView::Object(obj)), texts: a.texts }
    }
}

/// Reading the children `ch` of a node of kind `k` that starts with `obj`.
pub open spec fn convert_children(k: NodeKind, obj: Seq<(Seq<char>, JsonView)>, ch: Seq<KdlNodeData>) -> Converted
    decreases level(k), ch.len() + 2,
{
    let a = fold(k, init_acc(k, obj), ch, ch.len());
    match a.error {
        Some(e) => Converted { json: Err(e), texts: a.texts },
        None => finish(k, a),
    }
}

/// A node read as an object of kind `k`.
pub open spec fn convert(k: NodeKind, node: KdlNodeData) -> Converted
    decreases level(k), children_of(node).len() + 3,
{
    match head(k, node) {
        Err(e) => Converted { json: Err(e), texts: Seq::empty() },
        Ok(obj) => convert_children(k, obj, children_of(node)),
    }
}

/// A whole document read as the specification's JSON value.
pub open spec fn document_json(nodes: Seq<KdlNodeData>) -> Converted {
    convert_children(NodeKind::Document, Seq::empty(), nodes)
}

// Reading, as executable code

fn document_rule_of(n: &str) -> (r: Rule)
    ensures
        r == document_rule(n@),
{
    if str_eq(n, "name") || str_eq(n, "user") || str_eq(n, "description") {
        Rule::Text
    } else if str_eq(n, "compute_node_expiration_buffer_seconds") || str_eq(n, "compute_node_wait_for_new_jobs_seconds") || str_eq(n, "compute_node_wait_for_healthy_database_minutes") {
        Rule::Integer
    } else if str_eq(n, "compute_node_ignore_workflow_completion") || str_eq(n, "use_pending_failed") {
        Rule::Boolean
    } else if str_eq(n, "parameters") {
        Rule::StringMap(MapLabel::Parameter)
    } else if str_eq(n, "variables") {
        Rule::StringMap(MapLabel::Variable)
    } else if str_eq(n, "env") {
        Rule::StringMap(MapLabel::EnvironmentKey)
    } else if str_eq(n, "job") {
        Rule::PushObject(0, NodeKind::Job)
    } else if str_eq(n, "file") {
        Rule::PushObject(1, NodeKind::File)
    } else if str_eq(n, "user_data") {
        Rule::PushObject(2, NodeKind::UserData)
    } else if str_eq(n, "resource_requirements") {
        Rule::PushObject(3, NodeKind::ResourceRequirements)
    } else if str_eq(n, "failure_handler") {
        Rule::PushObject(4, NodeKind::FailureHandler)
    } else if str_eq(n, "slurm_scheduler") {
        Rule::PushObject(5, NodeKind::SlurmScheduler)
    } else if str_eq(n, "action") {
        Rule::PushObject(6, NodeKind::Action)
    } else if str_eq(n, "resource_monitor") {
        Rule::Object(NodeKind::ResourceMonitor)
    } else if str_eq(n, "slurm_defaults") {
        Rule::Object(NodeKind::SlurmDefaults)
    } else if str_eq(n, "execution_config") {
        Rule::Object(NodeKind::ExecutionConfig)
    } else {
        Rule::Skip
    }
}

fn job_rule_of(n: &str) -> (r: Rule)
    ensures
        r == job_rule(n@),
{
    if str_eq(n, "command") || str_eq(n, "invocation_script") || str_eq(n, "resource_requirements") || str_eq(n, "failure_handler") || str_eq(n, "scheduler") || str_eq(n, "parameter_mode") {
        Rule::Text
    } else if str_eq(n, "cancel_on_blocking_job_failure") || str_eq(n, "supports_termination") {
        Rule::Boolean
    } else if str_eq(n, "env") {
        Rule::StringMap(MapLabel::EnvironmentKey)
    } else if str_eq(n, "parameters") {
        Rule::StringMap(MapLabel::Parameter)
    } else if str_eq(n, "use_parameters") {
        Rule::Texts
    } else if str_eq(n, "stdio") {
        Rule::Object(NodeKind::Stdio)
    } else if str_eq(n, "depends_on") {
        Rule::Push(0)
    } else if str_eq(n, "depends_on_regexes") {
        Rule::Push(1)
    } else if str_eq(n, "input_file") {
        Rule::Push(2)
    } else if str_eq(n, "output_file") {
        Rule::Push(3)
    } else if str_eq(n, "input_user_data") {
        Rule::Push(4)
    } else if str_eq(n, "output_user_data") {
        Rule::Push(5)
    } else {
        Rule::Skip
    }
}

fn file_rule_of(n: &str) -> (r: Rule)
    ensures
        r == file_rule(n@),
{
    if str_eq(n, "path") || str_eq(n, "identifier") || str_eq(n, "parameter_mode") {
        Rule::Text
    } else if str_eq(n, "parameters") {
        Rule::StringMap(MapLabel::Parameter)
    } else if str_eq(n, "use_parameters") {
        Rule::Texts
    } else {
        Rule::Skip
    }
}

fn user_data_rule_of(n: &str) -> (r: Rule)
    ensures
        r == user_data_rule(n@),
{
    if str_eq(n, "is_ephemeral") {
        Rule::Boolean
    } else if str_eq(n, "data") {
        Rule::Data
    } else {
        Rule::Skip
    }
}

fn resource_requirements_rule_of(n: &str) -> (r: Rule)
    ensures
        r == resource_requirements_rule(n@),
{
    if str_eq(n, "num_cpus") || str_eq(n, "num_gpus") || str_eq(n, "num_nodes") {
        Rule::Integer
    } else if str_eq(n, "memory") || str_eq(n, "runtime") {
        Rule::Text
    } else {
        Rule::Skip
    }
}

fn slurm_scheduler_rule_of(n: &str) -> (r: Rule)
    ensures
        r == slurm_scheduler_rule(n@),
{
    if str_eq(n, "account") || str_eq(n, "gres") || str_eq(n, "mem") || str_eq(n, "partition") || str_eq(n, "qos") || str_eq(n, "tmp") || str_eq(n, "walltime") || str_eq(n, "extra") {
        Rule::Text
    } else if str_eq(n, "nodes") || str_eq(n, "ntasks_per_node") {
        Rule::Integer
    } else if str_eq(n, "serialize_allocations") {
        Rule::Boolean
    } else {
        Rule::Skip
    }
}

fn action_rule_of(n: &str) -> (r: Rule)
    ensures
        r == action_rule(n@),
{
    if str_eq(n, "trigger_type") || str_eq(n, "action_type") || str_eq(n, "scheduler") || str_eq(n, "scheduler_type") {
        Rule::Text
    } else if str_eq(n, "num_allocations") || str_eq(n, "max_parallel_jobs") {
        Rule::Integer
    } else if str_eq(n, "start_one_worker_per_node") || str_eq(n, "persistent") {
        Rule::Boolean
    } else if str_eq(n, "job") {
        Rule::Push(0)
    } else if str_eq(n, "jobs") {
        Rule::PushAll(0)
    } else if str_eq(n, "job_name_regexes") {
        Rule::Push(1)
    } else if str_eq(n, "command") {
        Rule::Push(2)
    } else {
        Rule::Skip
    }
}

fn failure_handler_rule_of(n: &str) -> (r: Rule)
    ensures
        r == failure_handler_rule(n@),
{
    if str_eq(n, "rule") {
        Rule::PushObject(0, NodeKind::FailureRule)
    } else {
        Rule::Skip
    }
}

fn failure_rule_rule_of(n: &str) -> (r: Rule)
    ensures
        r == failure_rule_rule(n@),
{
    if str_eq(n, "exit_codes") {
        Rule::Integers
    } else if str_eq(n, "match_all_exit_codes") {
        Rule::Boolean
    } else if str_eq(n, "recovery_script") {
        Rule::Text
    } else if str_eq(n, "max_retries") {
        Rule::Integer
    } else {
        Rule::Skip
    }
}

fn resource_monitor_rule_of(n: &str) -> (r: Rule)
    ensures
        r == resource_monitor_rule(n@),
{
    if str_eq(n, "enabled") || str_eq(n, "generate_plots") {
        Rule::Boolean
    } else if str_eq(n, "granularity") {
        Rule::Text
    } else if str_eq(n, "sample_interval_seconds") || str_eq(n, "flush_interval_seconds") {
        Rule::Integer
    } else if str_eq(n, "jobs") || str_eq(n, "compute_node") {
        Rule::Object(NodeKind::MonitorPart)
    } else {
        Rule::Skip
    }
}

fn monitor_part_rule_of(n: &str) -> (r: Rule)
    ensures
        r == monitor_part_rule(n@),
{
    if str_eq(n, "enabled") || str_eq(n, "cpu") || str_eq(n, "memory") {
        Rule::Boolean
    } else if str_eq(n, "granularity") {
        Rule::Text
    } else {
        Rule::Skip
    }
}

fn execution_config_rule_of(n: &str) -> (r: Rule)
    ensures
        r == execution_config_rule(n@),
{
    if str_eq(n, "stdio") {
        Rule::Object(NodeKind::Stdio)
    } else if str_eq(n, "mode") || str_eq(n, "termination_signal") || str_eq(n, "srun_termination_signal") || str_eq(n, "srun_mpi") {
        Rule::Text
    } else if str_eq(n, "limit_resources") || str_eq(n, "enable_cpu_bind") {
        Rule::Boolean
    } else if str_eq(n, "sigterm_lead_seconds") || str_eq(n, "sigkill_headroom_seconds") || str_eq(n, "timeout_exit_code") || str_eq(n, "oom_exit_code") {
        Rule::Integer
    } else {
        Rule::Skip
    }
}

fn stdio_rule_of(n: &str) -> (r: Rule)
    ensures
        r == stdio_rule(n@),
{
    if str_eq(n, "mode") {
        Rule::Text
    } else if str_eq(n, "delete_on_success") {
        Rule::Boolean
    } else {
        Rule::Skip
    }
}

fn rule_for(k: NodeKind, n: &str) -> (r: Rule)
    ensures
        r == rule_of(k, n@),
{
    match k {
        NodeKind::Document => document_rule_of(n),
        NodeKind::Job => job_rule_of(n),
        NodeKind::File => file_rule_of(n),
        NodeKind::UserData => user_data_rule_of(n),
        NodeKind::ResourceRequirements => resource_requirements_rule_of(n),
        NodeKind::SlurmScheduler => slurm_scheduler_rule_of(n),
        NodeKind::Action => action_rule_of(n),
        NodeKind::FailureHandler => failure_handler_rule_of(n),
        NodeKind::FailureRule => failure_rule_rule_of(n),
        NodeKind::ResourceMonitor => resource_monitor_rule_of(n),
        NodeKind::MonitorPart => monitor_part_rule_of(n),
        NodeKind::ExecutionConfig => execution_config_rule_of(n),
        NodeKind::Stdio => stdio_rule_of(n),
        NodeKind::SlurmDefaults => Rule::Scalar,
    }
}

fn level_of(k: NodeKind) -> (r: u8)
    ensures
        r as nat == level(k),
{
    match k {
        NodeKind::Document => 3,
        NodeKind::FailureRule | NodeKind::MonitorPart | NodeKind::Stdio => 1,
        _ => 2,
    }
}

fn slot_count_of(k: NodeKind) -> (r: usize)
    ensures
        r == slot_count(k),
{
    match k {
        NodeKind::Document => 7,
        NodeKind::Job => 6,
        NodeKind::Action => 3,
        NodeKind::FailureHandler => 1,
        _ => 0,
    }
}

fn slot_key_of(k: NodeKind, i: usize) -> (r: String)
    ensures
        r@ == slot_key(k, i as int),
{
    match k {
        NodeKind::Document => if i == 0 {
            lit("jobs")
        } else if i == 1 {
            lit("files")
        } else if i == 2 {
            lit("user_data")
        } else if i == 3 {
            lit("resource_requirements")
        } else if i == 4 {
            lit("failure_handlers")
        } else if i == 5 {
            lit("slurm_schedulers")
        } else {
            lit("actions")
        },
        NodeKind::Job => if i == 0 {
            lit("depends_on")
        } else if i == 1 {
            lit("depends_on_regexes")
        } else if i == 2 {
            lit("input_files")
        } else if i == 3 {
            lit("output_files")
        } else if i == 4 {
            lit("input_user_data")
        } else {
            lit("output_user_data")
        },
        NodeKind::Action => if i == 0 {
            lit("jobs")
        } else if i == 1 {
            lit("job_name_regexes")
        } else {
            lit("commands")
        },
        _ => lit("rules"),
    }
}

fn slot_always_of(k: NodeKind, i: usize) -> (r: bool)
    ensures
        r == slot_always(k, i as int),
{
    i == 0 && (k == NodeKind::Document || k == NodeKind::FailureHandler)
}

fn name_rule_of(k: NodeKind) -> (r: NameRule)
    ensures
        r == name_rule(k),
{
    match k {
        NodeKind::Job | NodeKind::File | NodeKind::ResourceRequirements
        | NodeKind::FailureHandler => NameRule::Required,
        NodeKind::UserData | NodeKind::SlurmScheduler => NameRule::Optional,
        _ => NameRule::Unnamed,
    }
}

fn name_error_of(k: NodeKind) -> (r: String)
    ensures
        r@ == name_error(k),
{
    match k {
        NodeKind::Job => lit("job must have a name"),
        NodeKind::File => lit("file must have a name"),
        NodeKind::ResourceRequirements => lit("resource_requirements must have a name"),
        _ => lit("failure_handler must have a name"),
    }
}

fn label_of(l: MapLabel) -> (r: &'static str)
    ensures
        r@ == label_text(l),
{
    match l {
        MapLabel::Parameter => "Parameter",
        MapLabel::Variable => "Variable",
        MapLabel::EnvironmentKey => "Environment key",
    }
}

pub open spec fn opt_text(o: Option<String>) -> Option<Seq<char>> {
    match o {
        Some(s) => Some(s@),
        None => None,
    }
}

pub open spec fn strings_view(v: Seq<String>) -> Seq<Seq<char>> {
    v.map_values(|s: String| s@)
}

fn first_text_of(node: &KdlNodeData) -> (r: Option<String>)
    ensures
        opt_text(r) == first_text(*node),
{
    if node.entries.len() > 0 {
        match &node.entries[0].value {
            KdlValueData::String(s) => Some(copy_string(s)),
            _ => None,
        }
    } else {
        None
    }
}

fn first_integer_of(node: &KdlNodeData) -> (r: Option<i128>)
    ensures
        r == first_integer(*node),
{
    if node.entries.len() > 0 {
        match &node.entries[0].value {
            KdlValueData::Integer(i) => Some(*i),
            _ => None,
        }
    } else {
        None
    }
}

fn first_bool_of(node: &KdlNodeData) -> (r: Option<bool>)
    ensures
        r == first_bool(*node),
{
    if node.entries.len() > 0 {
        match &node.entries[0].value {
            KdlValueData::Bool(b) => Some(*b),
            _ => None,
        }
    } else {
        None
    }
}

fn number_value(i: i128) -> (r: JsonValue)
    ensures
        jv(r) == number(i),
{
    JsonValue::Number(i64_to_string(i as i64))
}

fn strings_of(e: &Vec<KdlEntryData>) -> (r: Vec<JsonValue>)
    ensures
        views(r@) == strings_in(e@),
{
    let mut out: Vec<JsonValue> = Vec::new();
    let mut i: usize = 0;
    while i < e.len()
        invariant
            i <= e.len(),
            views(out@) == strings_in(e@.take(i as int)),
        decreases e.len() - i,
    {
        proof {
            assert(e@.take(i + 1).drop_last() =~= e@.take(i as int));
        }
        match &e[i].value {
            KdlValueData::String(s) => {
                push_item(&mut out, JsonValue::String(copy_string(s)));
            },
            _ => {},
        }
        i = i + 1;
    }
    proof {
        assert(e@.take(e.len() as int) =~= e@);
    }
    out
}

fn integers_of(e: &Vec<KdlEntryData>) -> (r: Vec<JsonValue>)
    ensures
        views(r@) == integers_in(e@),
{
    let mut out: Vec<JsonValue> = Vec::new();
    let mut i: usize = 0;
    while i < e.len()
        invariant
            i <= e.len(),
            views(out@) == integers_in(e@.take(i as int)),
        decreases e.len() - i,
    {
        proof {
            assert(e@.take(i + 1).drop_last() =~= e@.take(i as int));
        }
        match &e[i].value {
            KdlValueData::Integer(n) => {
                push_item(&mut out, number_value(*n));
            },
            _ => {},
        }
        i = i + 1;
    }
    proof {
        assert(e@.take(e.len() as int) =~= e@);
    }
    out
}

pub open spec fn property_text(e: Seq<KdlEntryData>, key: Seq<char>) -> Option<Seq<char>> {
    match property(e, key) {
        Some(v) => text_of(v),
        None => None,
    }
}

/// The string property `key` of a node.
fn property_text_of(e: &Vec<KdlEntryData>, key: &str) -> (r: Option<String>)
    ensures
        opt_text(r) == property_text(e@, key@),
{
    let mut i: usize = e.len();
    proof {
        assert(e@.take(e.len() as int) =~= e@);
    }
    while i > 0
        invariant
            i <= e.len(),
            property(e@, key@) == property(e@.take(i as int), key@),
        decreases i,
    {
        proof {
            assert(e@.take(i as int).drop_last() =~= e@.take(i - 1));
        }
        let hit = match &e[i - 1].name {
            Some(n) => str_eq(n.as_str(), key),
            None => false,
        };
        if hit {
            return match &e[i - 1].value {
                KdlValueData::String(s) => Some(copy_string(s)),
                _ => None,
            };
        }
        i = i - 1;
    }
    None
}

proof fn lemma_map_error_stays(ch: Seq<KdlNodeData>, l: MapLabel, k: nat, j: nat)
    requires
        k <= j <= ch.len(),
        string_map_upto(ch, l, k) is Err,
    ensures
        string_map_upto(ch, l, j) == string_map_upto(ch, l, k),
    decreases j - k,
{
    if j > k {
        lemma_map_error_stays(ch, l, k, (j - 1) as nat);
    }
}

pub open spec fn string_map_view(r: Result<Option<Vec<(String, JsonValue)>>, String>) -> Result<
    Option<Seq<(Seq<char>, JsonView)>>,
    Seq<char>,
> {
    match r {
        Err(e) => Err(e@),
        Ok(None) => Ok(None),
        Ok(Some(m)) => Ok(Some(entry_views(m@))),
    }
}

fn string_map_of(node: &KdlNodeData, l: MapLabel) -> (r: Result<Option<Vec<(String, JsonValue)>>, String>)
    ensures
        string_map_view(r) == string_map(*node, l),
{
    match &node.children {
        None => Ok(None),
        Some(c) => {
            let mut m: Vec<(String, JsonValue)> = Vec::new();
            let mut i: usize = 0;
            proof {
                assert(entry_views(m@) =~= Seq::empty());
            }
            while i < c.len()
                invariant
                    i <= c.len(),
                    node.children is Some,
                    children_of(*node) == c@,
                    string_map_upto(c@, l, i as nat) == Ok::<Seq<(Seq<char>, JsonView)>, Seq<char>>(entry_views(m@)),
                decreases c.len() - i,
            {
                match first_text_of(&c[i]) {
                    Some(t) => {
                        insert_entry(&mut m, copy_string(&c[i].name), JsonValue::String(t));
                    },
                    None => {
                        let e = concat3(label_of(l), " '", c[i].name.as_str());
                        let e = concat2(e.as_str(), "' must have a string value");
                        proof {
                            assert(e@ == map_entry_error(l, c@[i as int].name@));
                            assert(string_map_upto(c@, l, (i + 1) as nat) == Err::<Seq<(Seq<char>, JsonView)>, Seq<char>>(e@));
                            lemma_map_error_stays(c@, l, (i + 1) as nat, c@.len());
                        }
                        return Err(e);
                    },
                }
                i = i + 1;
            }
            if m.len() == 0 {
                Ok(None)
            } else {
                Ok(Some(m))
            }
        },
    }
}

/// The state of reading the children of a node.
struct Reading {
    obj: Vec<(String, JsonValue)>,
    slots: Vec<Vec<JsonValue>>,
    data: Option<String>,
    texts: Vec<String>,
    error: Option<String>,
}

spec fn slots_view(s: Seq<Vec<JsonValue>>) -> Seq<Seq<JsonView>> {
    s.map_values(|v: Vec<JsonValue>| views(v@))
}

spec fn reading_view(r: Reading) -> Acc {
    Acc {
        obj: entry_views(r.obj@),
        slots: slots_view(r.slots@),
        data: opt_text(r.data),
        texts: strings_view(r.texts@),
        error: opt_text(r.error),
    }
}

/// A node (or a document) read as JSON, with the user data texts met, in
/// document order. The `data` of a user data entry holds its text as a
/// string: the caller parses it as JSON.
#[derive(Debug)]
pub struct KdlJson {
    pub json: Result<JsonValue, String>,
    pub texts: Vec<String>,
}

pub open spec fn kdl_json_view(r: KdlJson) -> Converted {
    Converted {
        json: match r.json {
            Ok(v) => Ok(jv(v)),
            Err(e) => Err(e@),
        },
        texts: strings_view(r.texts@),
    }
}

pub open spec fn head_view(r: Result<Vec<(String, JsonValue)>, String>) -> Result<
    Seq<(Seq<char>, JsonView)>,
    Seq<char>,
> {
    match r {
        Ok(m) => Ok(entry_views(m@)),
        Err(e) => Err(e@),
    }
}

fn add_property(m: &mut Vec<(String, JsonValue)>, node: &KdlNodeData, key: &str)
    ensures
        entry_views(final(m)@) == with_property(entry_views(old(m)@), *node, key@),
{
    match property_text_of(&node.entries, key) {
        Some(t) => {
            insert_entry(m, lit(key), JsonValue::String(t));
        },
        None => {},
    }
}

fn head_of(k: NodeKind, node: &KdlNodeData) -> (r: Result<Vec<(String, JsonValue)>, String>)
    ensures
        head_view(r) == head(k, *node),
{
    let mut m: Vec<(String, JsonValue)> = Vec::new();
    match name_rule_of(k) {
        NameRule::Unnamed => {},
        NameRule::Optional => {
            match first_text_of(node) {
                Some(t) => {
                    m.push((lit("name"), JsonValue::String(t)));
                },
                None => {},
            }
        },
        NameRule::Required => {
            match first_text_of(node) {
                Some(t) => {
                    m.push((lit("name"), JsonValue::String(t)));
                },
                None => {
                    return Err(name_error_of(k));
                },
            }
        },
    }
    proof {
        match first_text(*node) {
            Some(t) => {
                if name_rule(k) != NameRule::Unnamed {
                    assert(entry_views(m@) =~= seq![("name"@, JsonView::Str(t))]);
                } else {
                    assert(entry_views(m@) =~= Seq::empty());
                }
            },
            None => {
                assert(entry_views(m@) =~= Seq::empty());
            },
        }
    }
    if k == NodeKind::File {
        add_property(&mut m, node, "path");
        add_property(&mut m, node, "identifier");
    }
    Ok(m)
}

fn init_reading(k: NodeKind, obj: Vec<(String, JsonValue)>) -> (r: Reading)
    ensures
        reading_view(r) == init_acc(k, entry_views(obj@)),
        r.slots@.len() == slot_count(k),
{
    let n = slot_count_of(k);
    let mut slots: Vec<Vec<JsonValue>> = Vec::new();
    let mut i: usize = 0;
    while i < n
        invariant
            i <= n,
            n == slot_count(k),
            slots_view(slots@) =~= Seq::new(i as nat, |j: int| Seq::<JsonView>::empty()),
        decreases n - i,
    {
        let empty: Vec<JsonValue> = Vec::new();
        proof {
            assert(views(empty@) =~= Seq::<JsonView>::empty());
        }
        let ghost prev = slots@;
        slots.push(empty);
        proof {
            assert(slots@ == prev.push(empty));
            assert(slots_view(slots@) =~= slots_view(prev).push(Seq::<JsonView>::empty()));
        }
        i = i + 1;
    }
    let r = Reading { obj, slots, data: None, texts: Vec::new(), error: None };
    proof {
        assert(strings_view(r.texts@) =~= Seq::empty());
    }
    r
}

/// Appends a value to slot `s`.
fn push_slot(a: &mut Reading, s: usize, v: JsonValue)
    requires
        s < old(a).slots@.len(),
    ensures
        reading_view(*final(a)) == acc_push(reading_view(*old(a)), s as int, jv(v)),
        final(a).slots@.len() == old(a).slots@.len(),
{
    let ghost before = slots_view(a.slots@);
    let mut inner: Vec<JsonValue> = Vec::new();
    std::mem::swap(&mut inner, &mut a.slots[s]);
    push_item(&mut inner, v);
    a.slots[s] = inner;
    proof {
        assert(slots_view(a.slots@) =~= before.update(s as int, before[s as int].push(jv(v))));
    }
}

/// Appends values to slot `s`.
fn extend_slot(a: &mut Reading, s: usize, items: Vec<JsonValue>)
    requires
        s < old(a).slots@.len(),
    ensures
        reading_view(*final(a)) == (Acc {
            slots: reading_view(*old(a)).slots.update(
                s as int,
                reading_view(*old(a)).slots[s as int] + views(items@),
            ),
            ..reading_view(*old(a))
        }),
        final(a).slots@.len() == old(a).slots@.len(),
{
    let ghost before = slots_view(a.slots@);
    let ghost added = views(items@);
    let mut items = items;
    let mut inner: Vec<JsonValue> = Vec::new();
    std::mem::swap(&mut inner, &mut a.slots[s]);
    let ghost old_inner = inner@;
    inner.append(&mut items);
    proof {
        assert(views(inner@) =~= views(old_inner) + added);
    }
    a.slots[s] = inner;
    proof {
        assert(slots_view(a.slots@) =~= before.update(s as int, before[s as int] + added));
    }
}

/// Takes in what reading a child gave.
fn take_result(a: &mut Reading, r: KdlJson, slot: Option<usize>, key: &String)
    requires
        slot matches Some(s) ==> s < old(a).slots@.len(),
    ensures
        reading_view(*final(a)) == acc_take(
            reading_view(*old(a)),
            kdl_json_view(r),
            match slot {
                Some(s) => Some(s as int),
                None => None,
            },
            key@,
        ),
        final(a).slots@.len() == old(a).slots@.len(),
{
    let ghost before = reading_view(*a);
    let KdlJson { json, texts } = r;
    let mut texts = texts;
    let ghost t = strings_view(texts@);
    a.texts.append(&mut texts);
    proof {
        assert(strings_view(a.texts@) =~= before.texts + t);
    }
    match json {
        Err(e) => {
            a.error = Some(e);
        },
        Ok(v) => match slot {
            Some(s) => {
                push_slot(a, s, v);
            },
            None => {
                insert_entry(&mut a.obj, copy_string(key), v);
            },
        },
    }
}

/// Reads one more child `c` of a node of kind `k`.
fn step_of(k: NodeKind, a: &mut Reading, c: &KdlNodeData)
    ensures
        reading_view(*final(a)) == step(k, reading_view(*old(a)), *c),
        final(a).slots@.len() == old(a).slots@.len(),
    decreases level(k), 0nat,
{
    let rule = rule_for(k, c.name.as_str());
    match rule {
        Rule::Skip => {},
        Rule::Text => {
            match first_text_of(c) {
                Some(t) => {
                    insert_entry(&mut a.obj, copy_string(&c.name), JsonValue::String(t));
                },
                None => {},
            }
        },
        Rule::Integer => {
            match first_integer_of(c) {
                Some(i) => {
                    insert_entry(&mut a.obj, copy_string(&c.name), number_value(i));
                },
                None => {},
            }
        },
        Rule::Boolean => {
            match first_bool_of(c) {
                Some(b) => {
                    insert_entry(&mut a.obj, copy_string(&c.name), JsonValue::Bool(b));
                },
                None => {},
            }
        },
        Rule::Scalar => {
            if c.entries.len() > 0 {
                match &c.entries[0].value {
                    KdlValueData::String(s) => {
                        insert_entry(
                            &mut a.obj,
                            copy_string(&c.name),
                            JsonValue::String(copy_string(s)),
                        );
                    },
                    KdlValueData::Integer(i) => {
                        insert_entry(&mut a.obj, copy_string(&c.name), number_value(*i));
                    },
                    KdlValueData::Bool(b) => {
                        insert_entry(&mut a.obj, copy_string(&c.name), JsonValue::Bool(*b));
                    },
                    _ => {},
                }
            }
        },
        Rule::Texts => {
            let items = strings_of(&c.entries);
            if items.len() > 0 {
                proof {
                    lemma_jv_array(items);
                }
                insert_entry(&mut a.obj, copy_string(&c.name), JsonValue::Array(items));
            }
        },
        Rule::Integers => {
            let items = integers_of(&c.entries);
            if items.len() > 0 {
                proof {
                    lemma_jv_array(items);
                }
                insert_entry(&mut a.obj, copy_string(&c.name), JsonValue::Array(items));
            }
        },
        Rule::StringMap(l) => {
            match string_map_of(c, l) {
                Err(e) => {
                    a.error = Some(e);
                },
                Ok(None) => {},
                Ok(Some(m)) => {
                    proof {
                        lemma_jv_object(m);
                    }
                    insert_entry(&mut a.obj, copy_string(&c.name), JsonValue::Object(m));
                },
            }
        },
        Rule::Object(sub) => {
            if level_of(sub) < level_of(k) {
                let r = convert_node(sub, c);
                take_result(a, r, None, &c.name);
            }
        },
        Rule::Push(s) => {
            if s < a.slots.len() {
                match first_text_of(c) {
                    Some(t) => {
                        push_slot(a, s, JsonValue::String(t));
                    },
                    None => {},
                }
            }
        },
        Rule::PushAll(s) => {
            if s < a.slots.len() {
                let items = strings_of(&c.entries);
                extend_slot(a, s, items);
            }
        },
        Rule::PushObject(s, sub) => {
            if s < a.slots.len() && level_of(sub) < level_of(k) {
                let r = convert_node(sub, c);
                take_result(a, r, Some(s), &c.name);
            }
        },
        Rule::Data => {
            a.data = first_text_of(c);
        },
    }
}

/// The object of a node once its children are read.
fn finish_of(
    k: NodeKind,
    obj: Vec<(String, JsonValue)>,
    slots: Vec<Vec<JsonValue>>,
    data: Option<String>,
    texts: Vec<String>,
) -> (r: KdlJson)
    requires
        slots@.len() == slot_count(k),
    ensures
        kdl_json_view(r) == finish(
            k,
            Acc {
                obj: entry_views(obj@),
                slots: slots_view(slots@),
                data: opt_text(data),
                texts: strings_view(texts@),
                error: None,
            },
        ),
{
    let ghost obj0 = entry_views(obj@);
    let ghost sv = slots_view(slots@);
    let mut obj = obj;
    let mut slots = slots;
    let mut texts = texts;
    let n = slot_count_of(k);
    let mut i: usize = 0;
    while i < n
        invariant
            i <= n,
            n == slot_count(k),
            slots@.len() == n,
            sv.len() == n,
            forall|j: int| i <= j < n ==> views((#[trigger] slots@[j])@) == sv[j],
            entry_views(obj@) == with_slots(k, obj0, sv, i as nat),
        decreases n - i,
    {
        if slot_always_of(k, i) || slots[i].len() > 0 {
            let mut items: Vec<JsonValue> = Vec::new();
            std::mem::swap(&mut items, &mut slots[i]);
            proof {
                assert(views(items@) == sv[i as int]);
                lemma_jv_array(items);
            }
            insert_entry(&mut obj, slot_key_of(k, i), JsonValue::Array(items));
        }
        i = i + 1;
    }
    if k == NodeKind::File && !has_entry_of(&obj, "path") {
        return KdlJson { json: Err(lit("file must have a path property")), texts };
    }
    if k == NodeKind::UserData {
        match data {
            None => {
                return KdlJson { json: Err(lit("user_data must have a data property")), texts };
            },
            Some(t) => {
                insert_entry(&mut obj, lit("data"), JsonValue::String(copy_string(&t)));
                let ghost before = strings_view(texts@);
                texts.push(t);
                proof {
                    assert(strings_view(texts@) =~= before.push(t@));
                    lemma_jv_object(obj);
                }
                return KdlJson { json: Ok(JsonValue::Object(obj)), texts };
            },
        }
    }
    proof {
        lemma_jv_object(obj);
    }
    KdlJson { json: Ok(JsonValue::Object(obj)), texts }
}

/// Reads the children `ch` of a node of kind `k` that starts with `obj`.
fn convert_children_of(k: NodeKind, obj: Vec<(String, JsonValue)>, ch: &Vec<KdlNodeData>) -> (r: KdlJson)
    ensures
        kdl_json_view(r) == convert_children(k, entry_views(obj@), ch@),
    decreases level(k), 1nat,
{
    let ghost init = init_acc(k, entry_views(obj@));
    let mut a = init_reading(k, obj);
    let mut i: usize = 0;
    while i < ch.len()
        invariant
            i <= ch.len(),
            a.slots@.len() == slot_count(k),
            reading_view(a) == fold(k, init, ch@, i as nat),
        decreases ch.len() - i,
    {
        if a.error.is_none() {
            step_of(k, &mut a, &ch[i]);
        }
        i = i + 1;
    }
    let Reading { obj, slots, data, texts, error } = a;
    match error {
        Some(e) => KdlJson { json: Err(e), texts },
        None => finish_of(k, obj, slots, data, texts),
    }
}

/// Reads a node as an object of kind `k`.
fn convert_node(k: NodeKind, node: &KdlNodeData) -> (r: KdlJson)
    ensures
        kdl_json_view(r) == convert(k, *node),
    decreases level(k), 2nat,
{
    match head_of(k, node) {
        Err(e) => {
            let r = KdlJson { json: Err(e), texts: Vec::new() };
            proof {
                assert(strings_view(r.texts@) =~= Seq::empty());
            }
            r
        },
        Ok(obj) => match &node.children {
            Some(c) => convert_children_of(k, obj, c),
            None => {
                let empty: Vec<KdlNodeData> = Vec::new();
                proof {
                    assert(empty@ =~= children_of(*node));
                }
                convert_children_of(k, obj, &empty)
            },
        },
    }
}

/// Reads the nodes of a document as the specification's JSON value.
pub fn document_to_json(nodes: &Vec<KdlNodeData>) -> (r: KdlJson)
    ensures
        kdl_json_view(r) == document_json(nodes@),
{
    let obj: Vec<(String, JsonValue)> = Vec::new();
    proof {
        assert(entry_views(obj@) =~= Seq::empty());
    }
    convert_children_of(NodeKind::Document, obj, nodes)
}

// ---------------------------------------------------------------------------
// Reporting a parse error
// ---------------------------------------------------------------------------

/// The number of bytes of a character in UTF-8.
pub open spec fn utf8_len(c: char) -> nat {
    if (c as u32) < 0x80 {
        1
    } else if (c as u32) < 0x800 {
        2
    } else if (c as u32) < 0x10000 {
        3
    } else {
        4
    }
}

/// The byte offset of character `i` of `s`.
pub open spec fn byte_pos(s: Seq<char>, i: nat) -> nat
    decreases i,
{
    if i == 0 || i > s.len() {
        0
    } else {
        byte_pos(s, (i - 1) as nat) + utf8_len(s[i - 1])
    }
}

/// Line and column (both from 1) after the first `k` characters, counting
/// only the characters that start before byte `offset`.
pub open spec fn line_col_upto(s: Seq<char>, offset: nat, k: nat) -> (nat, nat)
    decreases k,
{
    if k == 0 || k > s.len() {
        (1, 1)
    } else {
        let (l, c) = line_col_upto(s, offset, (k - 1) as nat);
        if byte_pos(s, (k - 1) as nat) >= offset {
            (l, c)
        } else if s[k - 1] == '\n' {
            (l + 1, 1)
        } else {
            (l, c + 1)
        }
    }
}

/// The line and column (both from 1) of byte `offset` of `s`.
pub open spec fn line_col(s: Seq<char>, offset: nat) -> (nat, nat) {
    line_col_upto(s, offset, s.len())
}

fn char_bytes(c: char) -> (r: u128)
    ensures
        r == utf8_len(c),
{
    let n = c as u32;
    if n < 0x80 {
        1
    } else if n < 0x800 {
        2
    } else if n < 0x10000 {
        3
    } else {
        4
    }
}

proof fn lemma_line_col_positive(s: Seq<char>, offset: nat, k: nat)
    ensures
        line_col_upto(s, offset, k).0 >= 1,
        line_col_upto(s, offset, k).1 >= 1,
    decreases k,
{
    if k > 0 && k <= s.len() {
        lemma_line_col_positive(s, offset, (k - 1) as nat);
    }
}

proof fn lemma_byte_pos_bound(s: Seq<char>, i: nat)
    ensures
        byte_pos(s, i) <= 4 * i,
    decreases i,
{
    if i > 0 && i <= s.len() {
        lemma_byte_pos_bound(s, (i - 1) as nat);
    }
}

/// The line and column (both from 1) of a byte offset of `content`.
pub fn offset_to_line_col(content: &str, offset: usize) -> (r: (u128, u128))
    ensures
        r.0 as nat == line_col(content@, offset as nat).0,
        r.1 as nat == line_col(content@, offset as nat).1,
        r.0 >= 1,
        r.1 >= 1,
{
    proof {
        lemma_line_col_positive(content@, offset as nat, content@.len());
    }
    let chars = chars_of(content);
    let mut line: u128 = 1;
    let mut col: u128 = 1;
    let mut pos: u128 = 0;
    let mut i: usize = 0;
    while i < chars.len()
        invariant
            i <= chars.len(),
            chars@ == content@,
            pos as nat == byte_pos(content@, i as nat),
            (line as nat, col as nat) == line_col_upto(content@, offset as nat, i as nat),
            line <= i + 1,
            col <= i + 1,
        decreases chars.len() - i,
    {
        proof {
            lemma_byte_pos_bound(content@, (i + 1) as nat);
        }
        if pos < offset as u128 {
            if chars[i] == '\n' {
                line = line + 1;
                col = 1;
            } else {
                col = col + 1;
            }
        }
        pos = pos + char_bytes(chars[i]);
        i = i + 1;
    }
    (line, col)
}

/// The index of the first newline of `s`.
pub open spec fn first_newline(s: Seq<char>) -> Option<nat>
    decreases s.len(),
{
    if s.len() == 0 {
        None
    } else if s[0] == '\n' {
        Some(0)
    } else {
        match first_newline(s.drop_first()) {
            Some(j) => Some(j + 1),
            None => None,
        }
    }
}

/// The lines of a text, as `str::lines` gives them: split at each newline,
/// a carriage return before the newline removed, and no empty last line
/// after a final newline.
pub open spec fn text_lines(s: Seq<char>) -> Seq<Seq<char>>
    decreases s.len(),
{
    if s.len() == 0 {
        Seq::empty()
    } else {
        match first_newline(s) {
            None => seq![s],
            Some(j) => {
                let line = s.take(j as int);
                let line = if line.len() > 0 && line.last() == '\r' {
                    line.drop_last()
                } else {
                    line
                };
                if j + 1 <= s.len() {
                    seq![line] + text_lines(s.skip((j + 1) as int))
                } else {
                    seq![line]
                }
            },
        }
    }
}

proof fn lemma_first_newline_at(s: Seq<char>, start: nat, j: nat)
    requires
        start <= j < s.len(),
        s[j as int] == '\n',
        forall|m: int| start <= m < j ==> s[m] != '\n',
    ensures
        first_newline(s.skip(start as int)) == Some((j - start) as nat),
    decreases j - start,
{
    if start < j {
        lemma_first_newline_at(s, start + 1, j);
        assert(s.skip(start as int).drop_first() =~= s.skip((start + 1) as int));
    }
}

proof fn lemma_no_newline(s: Seq<char>, start: nat)
    requires
        start <= s.len(),
        forall|m: int| start <= m < s.len() ==> s[m] != '\n',
    ensures
        first_newline(s.skip(start as int)) is None,
    decreases s.len() - start,
{
    if start < s.len() {
        lemma_no_newline(s, start + 1);
        assert(s.skip(start as int).drop_first() =~= s.skip((start + 1) as int));
    }
}

/// Line `k` (from 0) of a text, as `str::lines` gives it.
fn nth_line(text: &Vec<char>, k: u128) -> (r: Option<Vec<char>>)
    ensures
        match r {
            Some(l) => k < text_lines(text@).len() && l@ == text_lines(text@)[k as int],
            None => k >= text_lines(text@).len(),
        },
{
    let mut start: usize = 0;
    let mut left: u128 = k;
    proof {
        assert(text@.skip(0) =~= text@);
    }
    while start < text.len()
        invariant
            start <= text.len(),
            left <= k,
            k < text_lines(text@).len() <==> left < text_lines(text@.skip(start as int)).len(),
            k < text_lines(text@).len() ==> text_lines(text@)[k as int] == text_lines(
                text@.skip(start as int),
            )[left as int],
        decreases text.len() - start,
    {
        let mut j: usize = start;
        while j < text.len() && text[j] != '\n'
            invariant
                start <= j <= text.len(),
                forall|m: int| start <= m < j ==> text@[m] != '\n',
            decreases text.len() - j,
        {
            j = j + 1;
        }
        let ghost rest = text@.skip(start as int);
        if j < text.len() {
            proof {
                lemma_first_newline_at(text@, start as nat, j as nat);
                assert(rest.skip((j - start) + 1) =~= text@.skip(j + 1));
                assert(rest.take((j - start) as int) =~= text@.subrange(start as int, j as int));
            }
            if left == 0 {
                let mut end: usize = j;
                if end > start && text[end - 1] == '\r' {
                    end = end - 1;
                }
                let line = slice_chars(text, start, end);
                proof {
                    let t = text@.subrange(start as int, j as int);
                    if end < j {
                        assert(t.drop_last() =~= text@.subrange(start as int, end as int));
                    }
                }
                return Some(line);
            }
            left = left - 1;
            start = j + 1;
        } else {
            proof {
                lemma_no_newline(text@, start as nat);
            }
            if left == 0 {
                let line = slice_chars(text, start, text.len());
                proof {
                    assert(rest =~= text@.subrange(start as int, text.len() as int));
                }
                return Some(line);
            }
            return None;
        }
    }
    proof {
        assert(text@.skip(start as int) =~= Seq::<char>::empty());
    }
    None
}

/// `n` spaces.
pub open spec fn spaces(n: nat) -> Seq<char> {
    Seq::new(n, |i: int| ' ')
}

fn push_spaces(out: &mut Vec<char>, n: u128)
    ensures
        final(out)@ == old(out)@ + spaces(n as nat),
{
    let mut i: u128 = 0;
    while i < n
        invariant
            i <= n,
            out@ == old(out)@ + spaces(i as nat),
        decreases n - i,
    {
        out.push(' ');
        i = i + 1;
        proof {
            assert(old(out)@ + spaces(i as nat) =~= (old(out)@ + spaces((i - 1) as nat)).push(' '));
        }
    }
}

pub open spec fn opt_part(o: Option<String>, before: Seq<char>, after: Seq<char>, absent: Seq<char>) -> Seq<char> {
    match o {
        Some(t) => before + t@ + after,
        None => absent,
    }
}

/// The report of one problem.
pub open spec fn problem_text(content: Seq<char>, p: KdlProblem) -> Seq<char> {
    let (l, c) = line_col(content, p.offset as nat);
    "  Line "@ + nat_digits(l) + ", column "@ + nat_digits(c) + ": "@ + opt_part(
        p.message,
        Seq::empty(),
        Seq::empty(),
        "syntax error"@,
    ) + opt_part(p.label, " ("@, ")"@, Seq::empty()) + "\n"@ + opt_part(
        p.help,
        "    Help: "@,
        "\n"@,
        Seq::empty(),
    )
}

/// The reports of the first `k` problems.
pub open spec fn problems_text(content: Seq<char>, ps: Seq<KdlProblem>, k: nat) -> Seq<char>
    decreases k,
{
    if k == 0 || k > ps.len() {
        Seq::empty()
    } else {
        problems_text(content, ps, (k - 1) as nat) + problem_text(content, ps[k - 1])
    }
}

/// The line of the first problem, with a caret under its column.
pub open spec fn excerpt(content: Seq<char>, ps: Seq<KdlProblem>) -> Seq<char> {
    if ps.len() == 0 {
        Seq::empty()
    } else {
        let (l, c) = line_col(content, ps[0].offset as nat);
        let lines = text_lines(content);
        if 0 < l && l - 1 < lines.len() {
            "\n  "@ + nat_digits(l) + " | "@ + lines[l - 1] + "\n  "@ + spaces(nat_digits(l).len())
                + " | "@ + spaces((c - 1) as nat) + "^\n"@
        } else {
            Seq::empty()
        }
    }
}

/// The message of a KDL parse error: each problem with its line and column,
/// then the line of the first problem.
pub open spec fn parse_error_text(content: Seq<char>, ps: Seq<KdlProblem>) -> Seq<char> {
    "Failed to parse KDL document:\n"@ + problems_text(content, ps, ps.len()) + excerpt(content, ps)
}

fn push_opt(out: &mut Vec<char>, o: &Option<String>, before: &str, after: &str, absent: &str)
    ensures
        final(out)@ == old(out)@ + opt_part(*o, before@, after@, absent@),
{
    match o {
        Some(t) => {
            extend_str(out, before);
            extend_str(out, t.as_str());
            extend_str(out, after);
        },
        None => {
            extend_str(out, absent);
        },
    }
}

#[verifier::spinoff_prover]
#[verifier::rlimit(40)]
fn push_problem(out: &mut Vec<char>, content: &str, p: &KdlProblem)
    ensures
        final(out)@ == old(out)@ + problem_text(content@, *p),
{
    let (l, c) = offset_to_line_col(content, p.offset);
    extend_str(out, "  Line ");
    extend_chars(out, &u128_digits(l));
    extend_str(out, ", column ");
    extend_chars(out, &u128_digits(c));
    extend_str(out, ": ");
    push_opt(out, &p.message, "", "", "syntax error");
    push_opt(out, &p.label, " (", ")", "");
    extend_str(out, "\n");
    push_opt(out, &p.help, "    Help: ", "\n", "");
    proof {
        reveal_strlit("");
        assert(final(out)@ =~= old(out)@ + problem_text(content@, *p));
    }
}

/// The message of a KDL parse error with these problems.
pub fn kdl_error_text(content: &str, problems: &Vec<KdlProblem>) -> (r: String)
    ensures
        r@ == parse_error_text(content@, problems@),
{
    let mut out: Vec<char> = Vec::new();
    extend_str(&mut out, "Failed to parse KDL document:\n");
    let ghost head = out@;
    let mut i: usize = 0;
    while i < problems.len()
        invariant
            i <= problems.len(),
            out@ == head + problems_text(content@, problems@, i as nat),
        decreases problems.len() - i,
    {
        push_problem(&mut out, content, &problems[i]);
        proof {
            assert(out@ =~= head + problems_text(content@, problems@, (i + 1) as nat));
        }
        i = i + 1;
    }
    if problems.len() > 0 {
        let (l, c) = offset_to_line_col(content, problems[0].offset);
        let text = chars_of(content);
        if l > 0 {
            match nth_line(&text, l - 1) {
                Some(line) => {
                    let digits = u128_digits(l);
                    extend_str(&mut out, "\n  ");
                    extend_chars(&mut out, &digits);
                    extend_str(&mut out, " | ");
                    extend_chars(&mut out, &line);
                    extend_str(&mut out, "\n  ");
                    push_spaces(&mut out, digits.len() as u128);
                    extend_str(&mut out, " | ");
                    push_spaces(&mut out, c - 1);
                    extend_str(&mut out, "^\n");
                },
                None => {},
            }
        }
    }
    proof {
        assert(out@ =~= parse_error_text(content@, problems@));
    }
    string_of(&out)
}

/// `c` is what reading the KDL text `content` gives: when it parses, the
/// JSON of its nodes copied `READ_DEPTH` levels down; else the error text
/// of the parser's problems, with no user data text.
pub open spec fn kdl_read_as(content: Seq<char>, c: Converted) -> bool {
    match kdl_parse(content) {
        Ok(doc) => exists|nodes: Seq<KdlNodeData>|
            copies_nodes(nodes, doc, READ_DEPTH as nat) && c == #[trigger] document_json(nodes),
        Err(err) => exists|ps: Seq<KdlProblem>|
            copies_problems(ps, err) && c.texts.len() == 0 && c.json == Err::<JsonView, Seq<char>>(
                #[trigger] parse_error_text(content, ps),
            ),
    }
}

/// Reads a KDL workflow specification as the JSON value shared by all
/// formats. When the text does not parse, the error holds the parser's
/// problems (`kdl_error_text`); else the document is read by
/// `document_to_json` from its nodes, copied `READ_DEPTH` levels down.
pub fn kdl_to_json_value(content: &str) -> (r: KdlJson)
    ensures
        kdl_read_as(content@, kdl_json_view(r)),
{
    match parse_document(content) {
        Ok(doc) => {
            let nodes = nodes_data(&doc, READ_DEPTH);
            document_to_json(&nodes)
        },
        Err(e) => {
            let problems = problems_of(&e);
            let text = kdl_error_text(content, &problems);
            KdlJson { json: Err(text), texts: Vec::new() }
        },
    }
}

} // verus!
