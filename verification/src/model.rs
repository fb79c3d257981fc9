//! What the app knows of an open estate, as plain data: its file's params and their
//! values, its pack report, its schema and raw HCL blocks, the compile's diagnostics,
//! the HCL directory and git's answer about the work tree.

use vstd::prelude::*;
use std::collections::BTreeMap;
use crate::json::{Json, JsonV};
use crate::reports::{PacksReport, QuestionRow, QuestionV, opt_str};

verus! {

/// Whether git holds the estate file's directory in a work tree: inside one, outside
/// one with git's own words, or no git to ask, with the error.
#[derive(Debug, Clone, PartialEq, Eq)]
pub enum WorkTree {
    Inside,
    Outside(String),
    NoGit(String),
}

/// What the HCL directory holds: whether a `main.tf` was emitted, and whether the
/// directory was initialised.
#[derive(Debug, Clone, Copy, PartialEq, Eq, Default)]
pub struct HclState {
    pub transpiled: bool,
    pub initialised: bool,
}

/// The provider schema: loaded, with its providers and resource count, or missing from
/// the directory named.
#[derive(Debug, Clone, PartialEq, Eq)]
pub enum SchemaStatus {
    Loaded { providers: Vec<String>, resources: usize },
    Missing(String),
}

/// A raw `hcl { … }` block of the estate file: its line, and whether it carries a reason.
#[derive(Debug, Clone, Copy, PartialEq, Eq)]
pub struct HclBlock {
    pub line: u32,
    pub trusted: bool,
}

/// How grave a diagnostic is.
#[derive(Debug, Clone, Copy, PartialEq, Eq, Structural)]
pub enum Severity {
    Error,
    Warning,
    Info,
}

/// What raised a diagnostic: the check, the load, the parser, a tool call, or a
/// command the app ran.
#[derive(Debug, Clone, PartialEq, Eq)]
pub enum DiagSource {
    Check,
    Load,
    Parse,
    Tool(String),
    Command(String),
}

/// One diagnostic of the compile: how grave, what raised it, its kind where satz names
/// one, what it says, and where.
#[derive(Debug, Clone, PartialEq)]
pub struct Diagnostic {
    pub severity: Severity,
    pub source: DiagSource,
    pub kind: Option<String>,
    pub message: String,
    pub file: Option<String>,
    pub line: Option<u32>,
}

impl Diagnostic {
    /// An error that says `message`, with no kind and no place.
    pub fn error(message: &str, source: DiagSource) -> (r: Diagnostic)
        ensures
            r.severity == Severity::Error,
            r.source == source,
            r.kind is None,
            r.message@ == message@,
            r.file is None,
            r.line is None,
    {
        Diagnostic {
            severity: Severity::Error,
            source,
            kind: None,
            message: String::from_str(message),
            file: None,
            line: None,
        }
    }

    /// The diagnostic placed at `line` of `file`.
    pub fn at(self, file: &str, line: u32) -> (r: Diagnostic)
        ensures
            r.severity == self.severity,
            r.source == self.source,
            r.kind == self.kind,
            r.message == self.message,
            opt_str(r.file) == Some(file@),
            r.line == Some(line),
    {
        Diagnostic { file: Some(String::from_str(file)), line: Some(line), ..self }
    }
}

/// A part of a string value: literal text, a Terraform reference, or an interpolated
/// param with what it resolves to.
#[derive(Debug, PartialEq)]
pub enum StrPart {
    Lit(String),
    TfRef(String),
    Param { name: String, resolved: Option<Json> },
}

/// A param's value as the file writes it.
#[derive(Debug, PartialEq)]
pub enum SourceValue {
    Str { raw: String, parts: Vec<StrPart> },
    Num(String),
    Bool(bool),
    Ref { param: String, resolved: Option<Json> },
    List(Vec<SourceValue>),
    Obj,
}

pub enum PartV {
    Lit(Seq<char>),
    TfRef(Seq<char>),
    Param { name: Seq<char>, resolved: Option<JsonV> },
}

pub enum SourceV {
    Str { raw: Seq<char>, parts: Seq<PartV> },
    Num(Seq<char>),
    Bool(bool),
    Ref { param: Seq<char>, resolved: Option<JsonV> },
    List(Seq<SourceV>),
    Obj,
}

pub open spec fn opt_json(v: Option<Json>) -> Option<JsonV> {
    match v {
        Some(j) => Some(j@),
        None => None,
    }
}

impl View for StrPart {
    type V = PartV;

    open spec fn view(&self) -> PartV {
        match self {
            StrPart::Lit(t) => PartV::Lit(t@),
            StrPart::TfRef(t) => PartV::TfRef(t@),
            StrPart::Param { name, resolved } => PartV::Param {
                name: name@,
                resolved: opt_json(*resolved),
            },
        }
    }
}

fn copy_opt_json(v: &Option<Json>) -> (r: Option<Json>)
    ensures
        opt_json(r) == opt_json(*v),
{
    match v {
        Some(j) => Some(j.clone()),
        None => None,
    }
}

impl Clone for StrPart {
    fn clone(&self) -> (r: Self)
        ensures
            r@ == self@,
    {
        match self {
            StrPart::Lit(t) => StrPart::Lit(t.clone()),
            StrPart::TfRef(t) => StrPart::TfRef(t.clone()),
            StrPart::Param { name, resolved } => StrPart::Param {
                name: name.clone(),
                resolved: copy_opt_json(resolved),
            },
        }
    }
}

pub open spec fn part_views(v: Seq<StrPart>) -> Seq<PartV> {
    Seq::new(v.len(), |i: int| v[i]@)
}

pub open spec fn source_view(v: SourceValue) -> SourceV
    decreases v,
{
    match v {
        SourceValue::Str { raw, parts } => SourceV::Str { raw: raw@, parts: part_views(parts@) },
        SourceValue::Num(n) => SourceV::Num(n@),
        SourceValue::Bool(b) => SourceV::Bool(b),
        SourceValue::Ref { param, resolved } => SourceV::Ref {
            param: param@,
            resolved: opt_json(resolved),
        },
        SourceValue::List(items) => SourceV::List(
            Seq::new(
                items.len() as nat,
                |i: int|
                    if 0 <= i < items.len() {
                        proof {
                            assert(decreases_to!(items => items@));
                            assert(decreases_to!(items@ => items@[i]));
                        }
                        source_view(items@[i])
                    } else {
                        SourceV::Obj
                    },
            ),
        ),
        SourceValue::Obj => SourceV::Obj,
    }
}

impl View for SourceValue {
    type V = SourceV;

    open spec fn view(&self) -> SourceV {
        source_view(*self)
    }
}

impl Clone for SourceValue {
    #[verifier::loop_isolation(false)]
    fn clone(&self) -> (r: Self)
        ensures
            r@ == self@,
        decreases self,
    {
        match self {
            SourceValue::Str { raw, parts } => {
                let mut out: Vec<StrPart> = Vec::new();
                for i in 0..parts.len()
                    invariant
                        out.len() == i,
                        forall|k: int| 0 <= k < i ==> #[trigger] out@[k]@ == parts@[k]@,
                {
                    out.push(parts[i].clone());
                }
                assert(part_views(out@) =~= part_views(parts@));
                SourceValue::Str { raw: raw.clone(), parts: out }
            },
            SourceValue::Num(n) => SourceValue::Num(n.clone()),
            SourceValue::Bool(b) => SourceValue::Bool(*b),
            SourceValue::Ref { param, resolved } => SourceValue::Ref {
                param: param.clone(),
                resolved: copy_opt_json(resolved),
            },
            SourceValue::List(items) => {
                let mut out: Vec<SourceValue> = Vec::new();
                for i in 0..items.len()
                    invariant
                        out.len() == i,
                        forall|k: int| 0 <= k < i ==> #[trigger] out@[k]@ == items@[k]@,
                {
                    proof {
                        assert(decreases_to!(items => items@));
                        assert(decreases_to!(items@ => items@[i as int]));
                    }
                    out.push(items[i].clone());
                }
                let r = SourceValue::List(out);
                assert forall|k: int| 0 <= k < items.len() implies r@->List_0[k]
                    == self@->List_0[k] by {
                    assert(out@[k]@ == items@[k]@);
                }
                assert(r@->List_0 =~= self@->List_0);
                r
            },
            SourceValue::Obj => SourceValue::Obj,
        }
    }
}

/// One param of the file's `params { }` block: its name, its value, the question that
/// asks for it, whether changing it is a one-way door, and its line.
#[derive(Debug)]
pub struct ParamRow {
    pub id: usize,
    pub name: String,
    pub value: SourceValue,
    pub question: Option<QuestionRow>,
    pub one_way_door: bool,
    pub line: u32,
}

pub struct ParamV {
    pub id: usize,
    pub name: Seq<char>,
    pub value: SourceV,
    pub question: Option<QuestionV>,
    pub one_way_door: bool,
    pub line: u32,
}

impl View for ParamRow {
    type V = ParamV;

    open spec fn view(&self) -> ParamV {
        ParamV {
            id: self.id,
            name: self.name@,
            value: self.value@,
            question: match self.question {
                Some(q) => Some(q@),
                None => None,
            },
            one_way_door: self.one_way_door,
            line: self.line,
        }
    }
}

impl Clone for ParamRow {
    fn clone(&self) -> (r: Self)
        ensures
            r@ == self@,
    {
        ParamRow {
            id: self.id,
            name: self.name.clone(),
            value: self.value.clone(),
            question: match &self.question {
                Some(q) => Some(q.clone()),
                None => None,
            },
            one_way_door: self.one_way_door,
            line: self.line,
        }
    }
}

pub open spec fn param_views(v: Seq<ParamRow>) -> Seq<ParamV> {
    Seq::new(v.len(), |i: int| v[i]@)
}

/// The estate model a reload builds: the file's outline and params, the pack report,
/// the phase comments by line, the raw HCL blocks and the schema.
#[derive(Debug)]
pub struct EstateModel {
    pub outline: Vec<ResourceNode>,
    pub params: Vec<ParamRow>,
    pub packs: PacksReport,
    pub phases: BTreeMap<u32, String>,
    pub hcl: Vec<HclBlock>,
    pub schema: SchemaStatus,
}

/// An attribute's type as the provider schema declares it.
#[derive(Debug, PartialEq)]
pub enum AttrType {
    Str,
    Number,
    Bool,
    ListOf(Box<AttrType>),
    SetOf(Box<AttrType>),
    MapOf(Box<AttrType>),
    Object,
    Unknown,
}

/// One attribute row of a block: its key and value, its schema type, what the schema
/// says of it, whether it can be edited, and its line.
#[derive(Debug, PartialEq)]
pub struct AttrRow {
    pub id: usize,
    pub key: String,
    pub value: SourceValue,
    pub typed: AttrType,
    pub required: bool,
    pub optional: bool,
    pub computed: bool,
    pub editable: bool,
    pub line: u32,
}

/// What a block of the outline is, as the schema reads it.
#[derive(Debug, Clone, Copy, PartialEq, Eq, Structural)]
pub enum ResourceKind {
    Config,
    ResourceMap,
    Resource,
    NestedBlock,
    MemberGrant,
    Unknown,
}

/// One block of the estate file's outline: its id, kind, key and label, the Terraform
/// type it stands for, its line, its attributes and the blocks inside it.
#[derive(Debug, PartialEq)]
pub struct ResourceNode {
    pub id: usize,
    pub kind: ResourceKind,
    pub key: String,
    pub label: Option<String>,
    pub tf_type: Option<String>,
    pub line: u32,
    pub attrs: Vec<AttrRow>,
    pub children: Vec<ResourceNode>,
}

/// The name a node goes by: a resource's label; every other node has none.
pub open spec fn name_of(n: ResourceNode) -> Option<Seq<char>> {
    if n.kind == ResourceKind::Resource {
        opt_str(n.label)
    } else {
        None
    }
}

impl ResourceNode {
    /// The name the node goes by: a resource's label; every other node has none.
    pub fn name(&self) -> (r: Option<&str>)
        ensures
            match r {
                Some(s) => name_of(*self) == Some(s@),
                None => name_of(*self) is None,
            },
    {
        if self.kind == ResourceKind::Resource {
            match &self.label {
                Some(l) => Some(l.as_str()),
                None => None,
            }
        } else {
            None
        }
    }
}

} // verus!
