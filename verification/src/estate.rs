//! What the Estate destination and the pack review read off the estate file: the params
//! grouped by the pack that asks for them, a line of the file, and the line a selected
//! finding marks.

use vstd::prelude::*;
use crate::model::{Diagnostic, ParamRow, ParamV, param_views};
use crate::reports::opt_str;
use crate::text::{chars_of, lines, str_eq, string_of};

verus! {

/// The group a row belongs to: the pack whose question asks for it, else the estate.
pub const ESTATE_GROUP: &'static str = "estate";

/// The group a row belongs to.
pub open spec fn group_of(p: ParamV) -> Seq<char> {
    match p.question {
        Some(q) => q.pack,
        None => ESTATE_GROUP@,
    }
}

/// The first group from `k` on named `g`.
pub open spec fn group_from(gs: Seq<(Seq<char>, Seq<ParamV>)>, g: Seq<char>, k: int) -> Option<int>
    decreases gs.len() - k,
{
    if k < 0 || k >= gs.len() {
        None
    } else if gs[k].0 == g {
        Some(k)
    } else {
        group_from(gs, g, k + 1)
    }
}

proof fn lemma_group_from(gs: Seq<(Seq<char>, Seq<ParamV>)>, g: Seq<char>, k: int)
    requires
        0 <= k,
    ensures
        group_from(gs, g, k) matches Some(i) ==> k <= i < gs.len() && gs[i].0 == g,
    decreases gs.len() - k,
{
    if k < gs.len() && gs[k].0 != g {
        lemma_group_from(gs, g, k + 1);
    }
}

/// The rows by group in order of first appearance.
pub open spec fn grouped_spec(rows: Seq<ParamV>) -> Seq<(Seq<char>, Seq<ParamV>)>
    decreases rows.len(),
{
    if rows.len() == 0 {
        seq![]
    } else {
        let gs = grouped_spec(rows.drop_last());
        let r = rows.last();
        match group_from(gs, group_of(r), 0) {
            Some(i) => gs.update(i, (gs[i].0, gs[i].1.push(r))),
            None => gs.push((group_of(r), seq![r])),
        }
    }
}

pub open spec fn group_views(v: Seq<(String, Vec<ParamRow>)>) -> Seq<(Seq<char>, Seq<ParamV>)> {
    Seq::new(v.len(), |i: int| (v[i].0@, param_views(v[i].1@)))
}

/// The rows by group in order of first appearance: a row with a question under its
/// pack, one without under [`ESTATE_GROUP`].
pub fn grouped(rows: &[ParamRow]) -> (r: Vec<(String, Vec<ParamRow>)>)
    ensures
        group_views(r@) == grouped_spec(param_views(rows@)),
{
    let ghost v = param_views(rows@);
    let mut out: Vec<(String, Vec<ParamRow>)> = Vec::new();
    assert(group_views(out@) =~= grouped_spec(v.take(0)));
    for i in 0..rows.len()
        invariant
            v == param_views(rows@),
            group_views(out@) == grouped_spec(v.take(i as int)),
    {
        let row = &rows[i];
        assert(v.take(i + 1).drop_last() =~= v.take(i as int));
        assert(v.take(i + 1).last() == row@);
        let group = match &row.question {
            Some(q) => q.pack.clone(),
            None => String::from_str(ESTATE_GROUP),
        };
        let ghost gs = group_views(out@);
        proof {
            lemma_group_from(gs, group@, 0);
        }
        let mut k: usize = 0;
        let mut found = false;
        while k < out.len() && !found
            invariant
                gs == group_views(out@),
                k <= out.len(),
                !found ==> group_from(gs, group@, 0) == group_from(gs, group@, k as int),
                found ==> k < out.len() && group_from(gs, group@, 0) == Some(k as int),
            decreases (out.len() - k) + (if found {
                0int
            } else {
                1int
            }),
        {
            if str_eq(out[k].0.as_str(), group.as_str()) {
                found = true;
            } else {
                k = k + 1;
            }
        }
        let copy = row.clone();
        if found {
            let (g, mut rs) = out.remove(k);
            let ghost before = param_views(rs@);
            rs.push(copy);
            assert(param_views(rs@) =~= before.push(row@));
            out.insert(k, (g, rs));
            assert(group_views(out@) =~= gs.update(k as int, (gs[k as int].0, gs[k as int].1.push(row@))));
        } else {
            let mut rs: Vec<ParamRow> = Vec::new();
            rs.push(copy);
            assert(param_views(rs@) =~= seq![row@]);
            let ghost gv = group@;
            out.push((group, rs));
            assert(group_views(out@) =~= gs.push((gv, seq![row@])));
        }
    }
    assert(v.take(rows.len() as int) =~= v);
    out
}

/// Line `line` of a text, 1-based as satz counts, without its line end; nothing for a
/// line the text does not have.
pub open spec fn line_text_spec(text: Seq<char>, line: u32) -> Seq<char> {
    let i = if line == 0 {
        0
    } else {
        line - 1
    };
    if i < lines(text).len() {
        lines(text)[i]
    } else {
        seq![]
    }
}

/// Line `line` of the file's text, 1-based as satz counts, without its newline.
pub fn line_text(text: &str, line: u32) -> (r: String)
    ensures
        r@ == line_text_spec(text@, line),
{
    let cs = chars_of(text);
    let all = crate::text::lines_of(cs.as_slice());
    let i: usize = if line == 0 {
        0
    } else {
        (line - 1) as usize
    };
    if i < all.len() {
        assert(all.deep_view()[i as int] == all@[i as int]@);
        string_of(all[i].as_slice())
    } else {
        String::new()
    }
}

/// Whether two paths are one path, as `std::path::Path`'s `==` compares them: by
/// their components. How a path splits into components is the platform's the library is
/// built for (on Windows `\` separates too, and a drive prefix counts), so within one
/// build the answer is a function of the two texts alone.
pub uninterp spec fn same_path(a: Seq<char>, b: Seq<char>) -> bool;

/// `Path::new(a) == Path::new(b)`: equal by components, so a path is the same as itself.
/// Which other spellings of a path are the same is std's, and is left to the name
/// [`same_path`].
#[verifier::external_body]
fn path_eq(a: &str, b: &str) -> (r: bool)
    ensures
        r == same_path(a@, b@),
        a@ == b@ ==> r,
{
    std::path::Path::new(a) == std::path::Path::new(b)
}

/// The line the drawer's selection marks in the pack's text: the selected diagnostic's
/// line, when it is a finding about this pack.
pub open spec fn marked_line_spec(selected: Option<Diagnostic>, pack: Seq<char>) -> Option<u32> {
    match selected {
        Some(d) => match opt_str(d.file) {
            Some(f) => if same_path(f, pack) {
                d.line
            } else {
                None
            },
            None => None,
        },
        None => None,
    }
}

/// The line the drawer's selection marks in the pack's text: the selected diagnostic's
/// line, when it is a finding about this pack.
pub fn marked_line(selected: Option<&Diagnostic>, pack: &str) -> (r: Option<u32>)
    ensures
        r == marked_line_spec(
            match selected {
                Some(d) => Some(*d),
                None => None,
            },
            pack@,
        ),
{
    match selected {
        Some(d) => match &d.file {
            Some(f) => if path_eq(f.as_str(), pack) {
                d.line
            } else {
                None
            },
            None => None,
        },
        None => None,
    }
}

} // verus!
