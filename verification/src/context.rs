//! The estate context the chat's engine is given with each turn: the estate's path,
//! whom it runs as and in what mode, the questions report in one line, the compile's
//! diagnostics one line each, and the outline of its resources.

use vstd::prelude::*;
use crate::model::{Diagnostic, EstateModel, ResourceKind, ResourceNode, Severity, name_of};
use crate::reports::{QuestionsReport, QuestionsSummary, opt_str, strs};
use crate::text::{chars_of, dec, dec_string, first_line, first_line_of, string_of};

verus! {

/// The estate context, as the engine's system prompt renders it.
#[derive(Debug, Clone, PartialEq, Eq)]
pub struct EstateContext {
    pub path: String,
    pub runs_as: Option<String>,
    pub deployment_mode: Option<String>,
    pub questions_summary: Option<String>,
    pub diagnostics: Vec<String>,
    pub outline: Vec<String>,
}

/// What the estate context is rendered from: the estate file's path and its directory,
/// as the app displays them, and what the estate store holds.
pub struct ContextInput<'a> {
    pub main: &'a str,
    /// the estate directory, which diagnostics are shown relative to
    pub dir: &'a str,
    pub runs_as: Option<&'a str>,
    pub deployment_mode: Option<&'a str>,
    pub model: Option<&'a EstateModel>,
    pub questions: Option<&'a QuestionsReport>,
    pub diagnostics: &'a [Diagnostic],
}

/// The questions report's counts in one line.
pub open spec fn questions_line_spec(s: QuestionsSummary) -> Seq<char> {
    dec(s.answered as nat) + " of "@ + dec(s.total as nat) + " answered, "@ + dec(
        s.unanswered as nat,
    ) + " unanswered ("@ + dec(s.blocking as nat) + " blocking), "@ + dec(
        s.not_applicable as nat,
    ) + " not applicable; "@ + if s.complete {
        "complete"@
    } else {
        "incomplete"@
    }
}

fn push_num(out: &mut String, n: usize)
    ensures
        final(out)@ == old(out)@ + dec(n as nat),
{
    let d = dec_string(n as u128);
    out.append(d.as_str());
}

/// The questions report's counts in one line.
pub fn questions_line(s: &QuestionsSummary) -> (r: String)
    ensures
        r@ == questions_line_spec(*s),
{
    let mut out = String::new();
    push_num(&mut out, s.answered);
    out.append(" of ");
    push_num(&mut out, s.total);
    out.append(" answered, ");
    push_num(&mut out, s.unanswered);
    out.append(" unanswered (");
    push_num(&mut out, s.blocking);
    out.append(" blocking), ");
    push_num(&mut out, s.not_applicable);
    out.append(" not applicable; ");
    out.append(
        if s.complete {
            "complete"
        } else {
            "incomplete"
        },
    );
    out
}

/// What `std::path::Path::strip_prefix` leaves of `path` once `base` is taken off its
/// front, shown as the app shows a path; `None` where `base` is not a prefix of it. How
/// a path splits into components is the platform's the library is built for (on Windows
/// `\` separates too, and a drive prefix counts), so within one build the result is a
/// function of the two texts alone.
pub uninterp spec fn path_after(path: Seq<char>, base: Seq<char>) -> Option<Seq<char>>;

/// `Path::new(path).strip_prefix(base)`, shown with `display`: the rest of `path` after
/// the components of `base`, or `None` where `base` is not a prefix of `path`. Which
/// paths are prefixes of which is std's, and is left to the name [`path_after`].
#[verifier::external_body]
fn strip_base(path: &str, base: &str) -> (r: Option<String>)
    ensures
        match r {
            Some(s) => path_after(path@, base@) == Some(s@),
            None => path_after(path@, base@) is None,
        },
{
    std::path::Path::new(path).strip_prefix(base).ok().map(|p| p.display().to_string())
}

/// How grave a diagnostic is, in a word.
pub open spec fn severity_word(s: Severity) -> Seq<char> {
    match s {
        Severity::Error => "error"@,
        Severity::Warning => "warning"@,
        Severity::Info => "info"@,
    }
}

/// A diagnostic's file as the context shows it: relative to the estate directory where
/// it lies under it, else as it is.
pub open spec fn shown_file(file: Seq<char>, base: Seq<char>) -> Seq<char> {
    match path_after(file, base) {
        Some(rest) => rest,
        None => file,
    }
}

/// `severity: file:line: message` — the first line of the message, the file relative to
/// the estate directory, each part there where the diagnostic has it.
pub open spec fn diagnostic_line_spec(d: Diagnostic, base: Seq<char>) -> Seq<char> {
    let severity = severity_word(d.severity);
    let message = first_line(d.message@);
    match (opt_str(d.file), d.line) {
        (Some(f), Some(l)) => severity + ": "@ + shown_file(f, base) + ":"@ + dec(l as nat) + ": "@
            + message,
        (Some(f), None) => severity + ": "@ + shown_file(f, base) + ": "@ + message,
        (None, Some(l)) => severity + ": line "@ + dec(l as nat) + ": "@ + message,
        (None, None) => severity + ": "@ + message,
    }
}

/// `severity: file:line: message` — the first line of the message, the file relative
/// to the estate directory.
pub fn diagnostic_line(d: &Diagnostic, base: &str) -> (r: String)
    ensures
        r@ == diagnostic_line_spec(*d, base@),
{
    let mut out = String::from_str(
        match d.severity {
            Severity::Error => "error",
            Severity::Warning => "warning",
            Severity::Info => "info",
        },
    );
    let cs = chars_of(d.message.as_str());
    let first = first_line_of(cs.as_slice());
    let message = string_of(first.as_slice());
    let file = match &d.file {
        Some(f) => Some(
            match strip_base(f.as_str(), base) {
                Some(rest) => rest,
                None => f.clone(),
            },
        ),
        None => None,
    };
    match (file, d.line) {
        (Some(f), Some(l)) => {
            out.append(": ");
            out.append(f.as_str());
            out.append(":");
            let n = dec_string(l as u128);
            out.append(n.as_str());
            out.append(": ");
        },
        (Some(f), None) => {
            out.append(": ");
            out.append(f.as_str());
            out.append(": ");
        },
        (None, Some(l)) => {
            out.append(": line ");
            let n = dec_string(l as u128);
            out.append(n.as_str());
            out.append(": ");
        },
        (None, None) => {
            out.append(": ");
        },
    }
    out.append(message.as_str());
    out
}

/// `depth` levels of indentation, two spaces each.
pub open spec fn indent(depth: nat) -> Seq<char>
    decreases depth,
{
    if depth == 0 {
        seq![]
    } else {
        indent((depth - 1) as nat) + "  "@
    }
}

/// A node's line in the outline, before its indentation.
pub open spec fn node_line(n: ResourceNode) -> Seq<char> {
    let name = match name_of(n) {
        Some(s) => s,
        None => n.key@,
    };
    let ty = match n.tf_type {
        Some(t) => t@,
        None => n.key@,
    };
    match n.kind {
        ResourceKind::ResourceMap => ty,
        ResourceKind::Resource => ty + " \""@ + name + "\""@,
        ResourceKind::Unknown => match n.label {
            Some(l) => n.key@ + " \""@ + l@ + "\""@,
            None => n.key@,
        },
        _ => n.key@,
    }
}

/// One level deeper, where there is a deeper level to count.
pub open spec fn deeper(depth: nat) -> nat {
    if depth < usize::MAX {
        depth + 1
    } else {
        depth
    }
}

/// The outline as `type "label"` lines, nested resources indented under their parent.
/// Configuration blocks are named and not descended into; nested blocks and member
/// grants are attributes of their resource and stay out.
pub open spec fn outline_spec(nodes: Seq<ResourceNode>, depth: nat) -> Seq<Seq<char>>
    decreases nodes,
{
    if nodes.len() == 0 {
        seq![]
    } else {
        let k = nodes.len() - 1;
        let n = nodes[k];
        proof {
            assert(decreases_to!(nodes => nodes.subrange(0, k)));
            assert(decreases_to!(nodes => nodes[k]));
            assert(decreases_to!(nodes[k] => nodes[k].children));
            assert(decreases_to!(nodes[k].children => nodes[k].children@));
        }
        outline_spec(nodes.subrange(0, k), depth) + match n.kind {
            ResourceKind::Config => seq![indent(depth) + n.key@],
            ResourceKind::NestedBlock | ResourceKind::MemberGrant => seq![],
            _ => seq![indent(depth) + node_line(n)] + outline_spec(n.children@, deeper(depth)),
        }
    }
}

fn indent_text(depth: usize) -> (r: String)
    ensures
        r@ == indent(depth as nat),
{
    let mut out = String::new();
    for i in 0..depth
        invariant
            out@ == indent(i as nat),
    {
        out.append("  ");
    }
    out
}

fn node_text(n: &ResourceNode) -> (r: String)
    ensures
        r@ == node_line(*n),
{
    let name = match n.name() {
        Some(s) => String::from_str(s),
        None => n.key.clone(),
    };
    let ty = match &n.tf_type {
        Some(t) => t.clone(),
        None => n.key.clone(),
    };
    match n.kind {
        ResourceKind::ResourceMap => ty,
        ResourceKind::Resource => {
            let mut s = ty;
            s.append(" \"");
            s.append(name.as_str());
            s.append("\"");
            s
        },
        ResourceKind::Unknown => match &n.label {
            Some(l) => {
                let mut s = n.key.clone();
                s.append(" \"");
                s.append(l.as_str());
                s.append("\"");
                s
            },
            None => n.key.clone(),
        },
        _ => n.key.clone(),
    }
}


/// Appends the outline of `nodes` at `depth` to `out`.
pub fn outline_lines(nodes: &Vec<ResourceNode>, depth: usize, out: &mut Vec<String>)
    ensures
        strs(final(out)@) == strs(old(out)@) + outline_spec(nodes@, depth as nat),
    decreases nodes@,
{
    let ghost start = strs(out@);
    assert(nodes@.take(0) =~= Seq::<ResourceNode>::empty());
    for i in 0..nodes.len()
        invariant
            strs(out@) == start + outline_spec(nodes@.take(i as int), depth as nat),
    {
        let n = &nodes[i];
        let ghost before = strs(out@);
        assert(nodes@.take(i + 1).subrange(0, i as int) =~= nodes@.take(i as int));
        assert(nodes@.take(i + 1)[i as int] == *n);
        match n.kind {
            ResourceKind::Config => {
                let mut l = indent_text(depth);
                l.append(n.key.as_str());
                out.push(l);
                assert(strs(out@) =~= before + seq![indent(depth as nat) + n.key@]);
            },
            ResourceKind::NestedBlock | ResourceKind::MemberGrant => {
                assert(before =~= before + Seq::<Seq<char>>::empty());
            },
            _ => {
                let mut l = indent_text(depth);
                let t = node_text(n);
                l.append(t.as_str());
                out.push(l);
                assert(strs(out@) =~= before + seq![indent(depth as nat) + node_line(*n)]);
                proof {
                    assert(decreases_to!(nodes@ => nodes@[i as int]));
                    assert(decreases_to!(nodes@[i as int] => nodes@[i as int].children));
                }
                let next = if depth < usize::MAX {
                    depth + 1
                } else {
                    depth
                };
                outline_lines(&n.children, next, out);
            },
        }
        assert(strs(out@) =~= start + outline_spec(nodes@.take(i + 1), depth as nat));
    }
    assert(nodes@.take(nodes.len() as int) =~= nodes@);
}

pub open spec fn opt_ref_str(s: Option<&str>) -> Option<Seq<char>> {
    match s {
        Some(t) => Some(t@),
        None => None,
    }
}

/// The estate context as plain values: the path, whom the calls run as, the mode, the
/// questions report's counts in one line, the diagnostics one line each, the outline.
pub struct ContextV {
    pub path: Seq<char>,
    pub runs_as: Option<Seq<char>>,
    pub deployment_mode: Option<Seq<char>>,
    pub questions_summary: Option<Seq<char>>,
    pub diagnostics: Seq<Seq<char>>,
    pub outline: Seq<Seq<char>>,
}

impl View for EstateContext {
    type V = ContextV;

    open spec fn view(&self) -> ContextV {
        ContextV {
            path: self.path@,
            runs_as: opt_str(self.runs_as),
            deployment_mode: opt_str(self.deployment_mode),
            questions_summary: opt_str(self.questions_summary),
            diagnostics: strs(self.diagnostics@),
            outline: strs(self.outline@),
        }
    }
}

/// The estate context rendered from what the estate store holds.
pub open spec fn estate_context_spec(input: ContextInput) -> ContextV {
    ContextV {
        path: input.main@,
        runs_as: opt_ref_str(input.runs_as),
        deployment_mode: opt_ref_str(input.deployment_mode),
        questions_summary: match input.questions {
            Some(q) => Some(questions_line_spec(q.summary)),
            None => None,
        },
        diagnostics: Seq::new(
            input.diagnostics@.len(),
            |i: int| diagnostic_line_spec(input.diagnostics@[i], input.dir@),
        ),
        outline: match input.model {
            Some(m) => outline_spec(m.outline@, 0),
            None => seq![],
        },
    }
}

fn opt_string(s: Option<&str>) -> (r: Option<String>)
    ensures
        opt_str(r) == opt_ref_str(s),
{
    match s {
        Some(t) => Some(String::from_str(t)),
        None => None,
    }
}

/// The volatile half of the engine's instructions, from what the estate store holds.
pub fn estate_context(input: &ContextInput) -> (r: EstateContext)
    ensures
        r@ == estate_context_spec(*input),
{
    let mut diagnostics: Vec<String> = Vec::new();
    for i in 0..input.diagnostics.len()
        invariant
            diagnostics.len() == i,
            forall|k: int|
                0 <= k < i ==> #[trigger] diagnostics@[k]@ == diagnostic_line_spec(
                    input.diagnostics@[k],
                    input.dir@,
                ),
    {
        diagnostics.push(diagnostic_line(&input.diagnostics[i], input.dir));
    }
    assert(strs(diagnostics@) =~= Seq::new(
        input.diagnostics@.len(),
        |i: int| diagnostic_line_spec(input.diagnostics@[i], input.dir@),
    ));
    let mut outline: Vec<String> = Vec::new();
    match input.model {
        Some(m) => {
            assert(strs(outline@) =~= Seq::<Seq<char>>::empty());
            outline_lines(&m.outline, 0, &mut outline);
            assert(strs(outline@) =~= outline_spec(m.outline@, 0));
        },
        None => {
            assert(strs(outline@) =~= Seq::<Seq<char>>::empty());
        },
    }
    EstateContext {
        path: String::from_str(input.main),
        runs_as: opt_string(input.runs_as),
        deployment_mode: opt_string(input.deployment_mode),
        questions_summary: match input.questions {
            Some(q) => Some(questions_line(&q.summary)),
            None => None,
        },
        diagnostics,
        outline,
    }
}

} // verus!
