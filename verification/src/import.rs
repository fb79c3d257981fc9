//! The Import form's words: the shapes satz imports from, and what the source field asks
//! for in each.

use vstd::prelude::*;
use crate::text::{chars_of, str_eq, trim, trimmed};

verus! {

/// The shape of what is imported: a `tofu show -json` document, a live scope, or
/// Terraform HCL.
#[derive(Debug, Clone, Copy, PartialEq, Eq, Structural)]
pub enum ImportShape {
    State,
    Live,
    Hcl,
}

/// The value `--from` takes for a shape.
pub open spec fn shape_word(s: ImportShape) -> &'static str {
    match s {
        ImportShape::State => "state",
        ImportShape::Live => "live",
        ImportShape::Hcl => "hcl",
    }
}

impl ImportShape {
    /// The value `--from` takes for the shape.
    pub fn as_str(self) -> (r: &'static str)
        ensures
            r == shape_word(self),
    {
        match self {
            ImportShape::State => "state",
            ImportShape::Live => "live",
            ImportShape::Hcl => "hcl",
        }
    }

    /// The shape a `--from` value names, `None` for a value that names none.
    pub fn parse(value: &str) -> (r: Option<ImportShape>)
        ensures
            r == if value@ == "state"@ {
                Some(ImportShape::State)
            } else if value@ == "live"@ {
                Some(ImportShape::Live)
            } else if value@ == "hcl"@ {
                Some(ImportShape::Hcl)
            } else {
                None
            },
    {
        if str_eq(value, "state") {
            Some(ImportShape::State)
        } else if str_eq(value, "live") {
            Some(ImportShape::Live)
        } else if str_eq(value, "hcl") {
            Some(ImportShape::Hcl)
        } else {
            None
        }
    }
}

/// Every shape a shape's `--from` value parses back as itself.
pub proof fn law_a_shape_parses_back(s: ImportShape)
    ensures
        (if shape_word(s)@ == "state"@ {
            Some(ImportShape::State)
        } else if shape_word(s)@ == "live"@ {
            Some(ImportShape::Live)
        } else if shape_word(s)@ == "hcl"@ {
            Some(ImportShape::Hcl)
        } else {
            None
        }) == Some(s),
{
    reveal_strlit("state");
    reveal_strlit("live");
    reveal_strlit("hcl");
    assert("live"@.len() != "state"@.len());
    assert("hcl"@.len() != "state"@.len());
    assert("hcl"@[0] != "live"@[0]);
}

/// Every shape satz has, in the order the form offers them.
pub fn all_shapes() -> (r: Vec<ImportShape>)
    ensures
        r@ == seq![ImportShape::State, ImportShape::Live, ImportShape::Hcl],
{
    let mut v: Vec<ImportShape> = Vec::new();
    v.push(ImportShape::State);
    v.push(ImportShape::Live);
    v.push(ImportShape::Hcl);
    v
}

/// What the source field asks for, per shape.
pub fn source_label(shape: ImportShape) -> (r: &'static str)
    ensures
        r == match shape {
            ImportShape::State => "State document",
            ImportShape::Live => "Scope",
            ImportShape::Hcl => "Terraform file or directory",
        },
{
    match shape {
        ImportShape::State => "State document",
        ImportShape::Live => "Scope",
        ImportShape::Hcl => "Terraform file or directory",
    }
}

/// What the source must be, per shape.
pub fn source_supporting(shape: ImportShape) -> (r: &'static str)
    ensures
        r == match shape {
            ImportShape::State => "The JSON `tofu show -json` writes — not a raw .tfstate, whatever it is named. Run `tofu show -json > state.json` first; satz tells the two apart by `values.root_module` and refuses the raw form.",
            ImportShape::Live => "organizations/<number>, folders/<number> or projects/<id>. Left blank, satz takes the `root` of its import config. This reads Google with your Application Default Credentials.",
            ImportShape::Hcl => "A .tf file, or the directory holding them. What satz cannot express as Satz it carries verbatim inside `hcl trust` and says why, per block.",
        },
{
    match shape {
        ImportShape::State => "The JSON `tofu show -json` writes — not a raw .tfstate, whatever it is named. Run `tofu show -json > state.json` first; satz tells the two apart by `values.root_module` and refuses the raw form.",
        ImportShape::Live => "organizations/<number>, folders/<number> or projects/<id>. Left blank, satz takes the `root` of its import config. This reads Google with your Application Default Credentials.",
        ImportShape::Hcl => "A .tf file, or the directory holding them. What satz cannot express as Satz it carries verbatim inside `hcl trust` and says why, per block.",
    }
}

/// The row of shapes the form offers: each shape's `--from` value and its label.
pub fn shape_segments() -> (r: Vec<(&'static str, &'static str)>)
    ensures
        r@ == seq![("state", "State document"), ("live", "Live scope"), ("hcl", "Terraform HCL")],
{
    let mut v: Vec<(&'static str, &'static str)> = Vec::new();
    v.push((ImportShape::State.as_str(), "State document"));
    v.push((ImportShape::Live.as_str(), "Live scope"));
    v.push((ImportShape::Hcl.as_str(), "Terraform HCL"));
    v
}


/// What the source field's picker opens.
#[derive(Debug, Clone, Copy, PartialEq, Eq, Structural)]
pub enum SourcePicker {
    /// one `tofu show -json` document
    JsonFile,
    /// a directory
    Folder,
}

/// The picker a shape's source opens: the state document as a JSON file, and for
/// Terraform the directory holding the files, the usual source, though a file is one
/// too; a live scope is typed, so it opens none.
pub fn source_picker(shape: ImportShape) -> (r: Option<SourcePicker>)
    ensures
        r == match shape {
            ImportShape::State => Some(SourcePicker::JsonFile),
            ImportShape::Hcl => Some(SourcePicker::Folder),
            ImportShape::Live => None::<SourcePicker>,
        },
{
    match shape {
        ImportShape::State => Some(SourcePicker::JsonFile),
        ImportShape::Hcl => Some(SourcePicker::Folder),
        ImportShape::Live => None,
    }
}


/// Whether the import form can run: a folder is chosen and neither it nor the source
/// has a problem, a shape that reads a source has one, and nothing runs.
pub fn import_ready(
    dir: &str,
    dir_problem: bool,
    source_problem: bool,
    shape: ImportShape,
    source: &str,
    running: bool,
) -> (r: bool)
    ensures
        r == (trim(dir@).len() > 0 && !dir_problem && !source_problem && !(shape != ImportShape::Live
            && trim(source@).len() == 0) && !running),
{
    let d = trimmed(chars_of(dir).as_slice());
    let s = trimmed(chars_of(source).as_slice());
    d.len() > 0 && !dir_problem && !source_problem && !(shape != ImportShape::Live && s.len() == 0)
        && !running
}

} // verus!
