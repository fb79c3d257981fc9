//! The Packs destination: satz's pack report as sections of cards. First every pack whose
//! line the file carries, under the phase that line stands under; then the packs the file
//! has no line for. A pack that another needs — and that meets that need alone — is a
//! tree: its card, and the cards of the packs that need it hung below.

use vstd::prelude::*;
use std::collections::BTreeMap;
use crate::reports::{
    Finding, FindingV, PackLine, PackRole, PackRow, PackV, PacksReport, QuestionV,
    QuestionsReport, ReqV, Requirement, RequirementKind, finding_views, lemma_map_from, lemma_path_from, map_from,
    opt_str, pack_views, path_from, req_eq, req_views, rows,
};
use crate::text::{
    chars_of, dec, dec_string, first_line, first_line_of, join, join_strings, str_eq, string_of, trim,
    trimmed,
};

verus! {

/// The header of the section for packs the file has no line for.
pub const ABSENT_HEADER: &'static str = "Not in this file";

/// The header of the section for lines above which no phase comment stands.
pub const NO_PHASE_HEADER: &'static str = "No phase";

/// The phase a comment block names: its first line, trimmed.
pub open spec fn phase_header_spec(phase: Seq<char>) -> Seq<char> {
    trim(first_line(phase))
}

/// The phase a comment block names: its first line.
pub fn phase_header(phase: &str) -> (r: String)
    ensures
        r@ == phase_header_spec(phase@),
{
    let cs = chars_of(phase);
    let line = first_line_of(cs.as_slice());
    let t = trimmed(line.as_slice());
    string_of(t.as_slice())
}

/// Whether the pack at `path` is a pack of the menu among `rows`.
pub open spec fn is_menu_pack(rows: Seq<PackV>, path: Seq<char>) -> bool {
    exists|j: int| 0 <= j < rows.len() && #[trigger] rows[j].path == path && rows[j].role
        == PackRole::Pack
}

/// A requirement exactly one pack meets, where that pack is a pack of the menu.
pub open spec fn hangs_on(r: ReqV, rows: Seq<PackV>) -> bool {
    r.any_of.len() == 1 && is_menu_pack(rows, r.any_of[0])
}

/// The first of `reqs` from `k` on that [`hangs_on`] a pack of `rows`.
pub open spec fn hanging_from(reqs: Seq<ReqV>, rows: Seq<PackV>, k: int) -> Option<int>
    decreases reqs.len() - k,
{
    if k < 0 || k >= reqs.len() {
        None
    } else if hangs_on(reqs[k], rows) {
        Some(k)
    } else {
        hanging_from(reqs, rows, k + 1)
    }
}

/// Which requirement of `row` hangs it below another pack: the first of its
/// requirements, in satz's order, that exactly one pack meets, where that pack is a menu
/// pack.
pub open spec fn parent_req(row: PackV, rows: Seq<PackV>) -> Option<int> {
    hanging_from(row.requires, rows, 0)
}

pub proof fn lemma_hanging_from(reqs: Seq<ReqV>, rows: Seq<PackV>, k: int)
    requires
        0 <= k,
    ensures
        hanging_from(reqs, rows, k) matches Some(i) ==> k <= i < reqs.len() && hangs_on(
            reqs[i],
            rows,
        ),
        hanging_from(reqs, rows, k) is None ==> forall|j: int|
            k <= j < reqs.len() ==> !hangs_on(#[trigger] reqs[j], rows),
    decreases reqs.len() - k,
{
    if k < reqs.len() && !hangs_on(reqs[k], rows) {
        lemma_hanging_from(reqs, rows, k + 1);
    }
}

fn menu_pack(rows: &[PackRow], path: &str) -> (r: bool)
    ensures
        r == is_menu_pack(pack_views(rows@), path@),
{
    let ghost v = pack_views(rows@);
    let mut j: usize = 0;
    while j < rows.len()
        invariant
            v == pack_views(rows@),
            j <= rows.len(),
            forall|k: int|
                0 <= k < j ==> !(#[trigger] v[k].path == path@ && v[k].role == PackRole::Pack),
        decreases rows.len() - j,
    {
        if str_eq(rows[j].path.as_str(), path) && rows[j].role == PackRole::Pack {
            assert(v[j as int].path == path@);
            return true;
        }
        j = j + 1;
    }
    false
}

/// The pack `row` hangs from and the requirement that makes it: the first of its
/// requirements, in satz's order, that exactly one pack meets, where that pack is a menu
/// pack. A requirement several packs can meet is the operator's choice between them and
/// hangs the card under none.
pub fn parent_of<'a>(row: &'a PackRow, rows: &[PackRow]) -> (r: Option<(&'a str, &'a Requirement)>)
    ensures
        match parent_req(row@, pack_views(rows@)) {
            Some(k) => r matches Some((p, q)) && q@ == row@.requires[k] && p@
                == row@.requires[k].any_of[0],
            None => r is None,
        },
{
    let ghost v = pack_views(rows@);
    proof {
        lemma_hanging_from(row@.requires, v, 0);
    }
    let mut k: usize = 0;
    while k < row.requires.len()
        invariant
            v == pack_views(rows@),
            k <= row.requires.len(),
            parent_req(row@, v) == hanging_from(row@.requires, v, k as int),
        decreases row.requires.len() - k,
    {
        let r = &row.requires[k];
        assert(row@.requires[k as int] == r@);
        if r.any_of.len() == 1 {
            assert(r@.any_of[0] == r.any_of@[0]@);
            if menu_pack(rows, r.any_of[0].as_str()) {
                return Some((r.any_of[0].as_str(), r));
            }
        }
        k = k + 1;
    }
    None
}

/// A pack whose line the file carries: every one but the map that has a line.
pub open spec fn is_lined(p: PackV) -> bool {
    p.role != PackRole::EstateMap && p.at_line is Some
}

/// A pack the file has no line for: every one but the map without a line.
pub open spec fn is_absent(p: PackV) -> bool {
    p.role != PackRole::EstateMap && p.at_line is None
}

/// The packs of `rows` that `lined` says, in the report's order: the lined ones, or
/// the absent ones.
pub open spec fn keep(rows: Seq<PackV>, lined: bool) -> Seq<PackV>
    decreases rows.len(),
{
    if rows.len() == 0 {
        seq![]
    } else {
        let rest = keep(rows.drop_last(), lined);
        if (lined && is_lined(rows.last())) || (!lined && is_absent(rows.last())) {
            rest.push(rows.last())
        } else {
            rest
        }
    }
}

/// The line a pack stands at, as the sort reads it.
pub open spec fn line_key(p: PackV) -> int {
    match p.at_line {
        Some(l) => l as int,
        None => -1,
    }
}

/// `x` put into `s` after every pack whose line is not below its own: one step of a
/// stable sort by line.
pub open spec fn insert_by_line(s: Seq<PackV>, x: PackV) -> Seq<PackV>
    decreases s.len(),
{
    if s.len() == 0 || line_key(s.last()) <= line_key(x) {
        s.push(x)
    } else {
        insert_by_line(s.drop_last(), x).push(s.last())
    }
}

/// `s` sorted by line, packs on one line in the order `s` has them.
pub open spec fn sort_by_line(s: Seq<PackV>) -> Seq<PackV>
    decreases s.len(),
{
    if s.len() == 0 {
        seq![]
    } else {
        insert_by_line(sort_by_line(s.drop_last()), s.last())
    }
}

/// Whether a phase comment stands above `r`'s line.
pub open spec fn has_phase(r: PackV, phases: Map<u32, String>) -> bool {
    match r.at_line {
        Some(l) => phases.dom().contains(l),
        None => false,
    }
}

/// The phase comment above `r`'s line.
pub open spec fn phase_of(r: PackV, phases: Map<u32, String>) -> Seq<char> {
    match r.at_line {
        Some(l) => phases[l]@,
        None => seq![],
    }
}

/// A section before any card is hung below another: a header and its packs.
pub open spec fn group_lines(s: Seq<PackV>, phases: Map<u32, String>) -> Seq<(Seq<char>, Seq<PackV>)>
    decreases s.len(),
{
    if s.len() == 0 {
        seq![]
    } else {
        let g = group_lines(s.drop_last(), phases);
        let r = s.last();
        if has_phase(r, phases) {
            g.push((phase_header_spec(phase_of(r, phases)), seq![r]))
        } else if g.len() == 0 {
            seq![(NO_PHASE_HEADER@, seq![r])]
        } else {
            g.update(g.len() - 1, (g.last().0, g.last().1.push(r)))
        }
    }
}

/// The sections before any card is hung below another: the packs whose line the file
/// carries, in the file's order — a line with a phase comment opens the section that
/// comment's first line names, a line without one joins the section open at that point
/// (or [`NO_PHASE_HEADER`] when none is) — then every pack the file has no line for, in
/// the graph's order, under [`ABSENT_HEADER`]. The map is in no section.
pub open spec fn flat_spec(rows: Seq<PackV>, phases: Map<u32, String>) -> Seq<(Seq<char>, Seq<PackV>)> {
    let absent = keep(rows, false);
    group_lines(sort_by_line(keep(rows, true)), phases) + if absent.len() > 0 {
        seq![(ABSENT_HEADER@, absent)]
    } else {
        seq![]
    }
}

fn keep_rows(rows: &[PackRow], lined: bool) -> (r: Vec<PackRow>)
    ensures
        pack_views(r@) == keep(pack_views(rows@), lined),
{
    let ghost v = pack_views(rows@);
    let mut out: Vec<PackRow> = Vec::new();
    for i in 0..rows.len()
        invariant
            v == pack_views(rows@),
            pack_views(out@) == keep(v.take(i as int), lined),
    {
        assert(v.take(i + 1).drop_last() =~= v.take(i as int));
        assert(v.take(i + 1).last() == rows@[i as int]@);
        let r = &rows[i];
        let take = if lined {
            r.role != PackRole::EstateMap && r.at_line.is_some()
        } else {
            r.role != PackRole::EstateMap && r.at_line.is_none()
        };
        if take {
            let ghost before = pack_views(out@);
            out.push(r.clone());
            assert(pack_views(out@) =~= before.push(r@));
        }
    }
    assert(v.take(rows.len() as int) =~= v);
    out
}

fn line_le(a: &PackRow, b: &PackRow) -> (r: bool)
    ensures
        r == (line_key(a@) <= line_key(b@)),
{
    match (a.at_line, b.at_line) {
        (Some(x), Some(y)) => x <= y,
        (None, _) => true,
        (Some(_), None) => false,
    }
}

proof fn lemma_insert_step(s: Seq<PackV>, x: PackV, j: int)
    requires
        0 < j <= s.len(),
        line_key(s[j - 1]) > line_key(x),
    ensures
        insert_by_line(s.take(j), x) + s.skip(j) == insert_by_line(s.take(j - 1), x) + s.skip(
            j - 1,
        ),
{
    assert(s.take(j).drop_last() =~= s.take(j - 1));
    assert(s.take(j).last() == s[j - 1]);
    let a = insert_by_line(s.take(j - 1), x);
    assert(a.push(s[j - 1]) + s.skip(j) =~= a + s.skip(j - 1));
}

/// `rows` sorted by line, stably, one insertion at a time.
fn sort_lines(rows: &Vec<PackRow>) -> (r: Vec<PackRow>)
    ensures
        pack_views(r@) == sort_by_line(pack_views(rows@)),
{
    let ghost v = pack_views(rows@);
    let mut out: Vec<PackRow> = Vec::new();
    let mut i: usize = 0;
    assert(pack_views(out@) =~= sort_by_line(v.take(0)));
    while i < rows.len()
        invariant
            v == pack_views(rows@),
            i <= v.len(),
            pack_views(out@) == sort_by_line(v.take(i as int)),
        decreases rows.len() - i,
    {
        let x = rows[i].clone();
        assert(x@ == v[i as int]);
        let ghost s = pack_views(out@);
        let mut j = out.len();
        assert(s.take(j as int) =~= s);
        assert(s.skip(j as int) =~= seq![]);
        while j > 0 && !line_le(&out[j - 1], &x)
            invariant
                j <= out.len(),
                s == pack_views(out@),
                insert_by_line(s, x@) == insert_by_line(s.take(j as int), x@) + s.skip(j as int),
            decreases j,
        {
            proof {
                lemma_insert_step(s, x@, j as int);
            }
            j = j - 1;
        }
        assert(insert_by_line(s.take(j as int), x@) == s.take(j as int).push(x@));
        out.insert(j, x);
        assert(pack_views(out@) =~= s.take(j as int).push(x@) + s.skip(j as int));
        assert(v.take(i + 1).drop_last() =~= v.take(i as int));
        i = i + 1;
    }
    assert(v.take(v.len() as int) =~= v);
    out
}

/// The views of sections before any card is hung: headers and packs.
pub open spec fn flat_views(v: Seq<(String, Vec<PackRow>)>) -> Seq<(Seq<char>, Seq<PackV>)> {
    Seq::new(v.len(), |i: int| (v[i].0@, pack_views(v[i].1@)))
}

fn group_rows(sorted: &Vec<PackRow>, phases: &BTreeMap<u32, String>) -> (r: Vec<(String, Vec<PackRow>)>)
    ensures
        flat_views(r@) == group_lines(pack_views(sorted@), phases@),
{
    broadcast use vstd::std_specs::btree::group_btree_axioms;

    let ghost v = pack_views(sorted@);
    let mut out: Vec<(String, Vec<PackRow>)> = Vec::new();
    assert(flat_views(out@) =~= group_lines(v.take(0), phases@));
    for i in 0..sorted.len()
        invariant
            v == pack_views(sorted@),
            flat_views(out@) == group_lines(v.take(i as int), phases@),
    {
        assert(v.take(i + 1).drop_last() =~= v.take(i as int));
        assert(v.take(i + 1).last() == sorted@[i as int]@);
        let row = sorted[i].clone();
        let ghost g = flat_views(out@);
        let phase = match row.at_line {
            Some(l) => phases.get(&l),
            None => None,
        };
        match phase {
            Some(phase) => {
                assert(has_phase(row@, phases@) && phase_of(row@, phases@) == phase@);
                let ghost rv = row@;
                let mut rs: Vec<PackRow> = Vec::new();
                rs.push(row);
                assert(pack_views(rs@) =~= seq![rv]);
                out.push((phase_header(phase.as_str()), rs));
                assert(flat_views(out@) =~= g.push((phase_header_spec(phase@), seq![row@])));
            },
            None => {
                assert(!has_phase(row@, phases@));
                if out.len() == 0 {
                    let ghost rv = row@;
                    let mut rs: Vec<PackRow> = Vec::new();
                    rs.push(row);
                    assert(pack_views(rs@) =~= seq![rv]);
                    out.push((String::from_str(NO_PHASE_HEADER), rs));
                    assert(flat_views(out@) =~= seq![(NO_PHASE_HEADER@, seq![row@])]);
                } else {
                    let (h, mut rs) = out.pop().unwrap();
                    let ghost before = pack_views(rs@);
                    rs.push(row);
                    assert(pack_views(rs@) =~= before.push(row@));
                    out.push((h, rs));
                    assert(flat_views(out@) =~= g.update(
                        g.len() - 1,
                        (g.last().0, g.last().1.push(row@)),
                    ));
                }
            },
        }
    }
    assert(v.take(sorted.len() as int) =~= v);
    out
}

/// The sections before any card is hung below another: a header and its packs.
fn flat_sections(rows: &[PackRow], phases: &BTreeMap<u32, String>) -> (r: Vec<(String, Vec<PackRow>)>)
    ensures
        flat_views(r@) == flat_spec(pack_views(rows@), phases@),
{
    let lined = keep_rows(rows, true);
    let sorted = sort_lines(&lined);
    let mut out = group_rows(&sorted, phases);
    let absent = keep_rows(rows, false);
    let ghost g = flat_views(out@);
    if absent.len() > 0 {
        out.push((String::from_str(ABSENT_HEADER), absent));
        assert(flat_views(out@) =~= g + seq![(ABSENT_HEADER@, keep(pack_views(rows@), false))]);
    } else {
        assert(g =~= g + seq![]);
    }
    out
}

/// The packs of the flat sections in section order, each with its section's index.
pub open spec fn entries_spec(flat: Seq<(Seq<char>, Seq<PackV>)>) -> Seq<(int, PackV)>
    decreases flat.len(),
{
    if flat.len() == 0 {
        seq![]
    } else {
        let s = flat.len() - 1;
        entries_spec(flat.drop_last()) + Seq::new(flat.last().1.len(), |k: int| (s, flat.last().1[k]))
    }
}

/// The first entry from `k` on whose pack is at `path`.
pub open spec fn entry_from(e: Seq<(int, PackV)>, path: Seq<char>, k: int) -> Option<int>
    decreases e.len() - k,
{
    if k < 0 || k >= e.len() {
        None
    } else if e[k].1.path == path {
        Some(k)
    } else {
        entry_from(e, path, k + 1)
    }
}

pub proof fn lemma_entry_from(e: Seq<(int, PackV)>, path: Seq<char>, k: int)
    requires
        0 <= k,
    ensures
        entry_from(e, path, k) matches Some(i) ==> k <= i < e.len() && e[i].1.path == path,
    decreases e.len() - k,
{
    if k < e.len() && e[k].1.path != path {
        lemma_entry_from(e, path, k + 1);
    }
}

/// Each entry's parent before any loop is cut: the entry of the pack [`parent_req`] names
/// and that requirement, where that pack has an entry.
pub open spec fn link_spec(e: Seq<(int, PackV)>, rows: Seq<PackV>) -> Seq<Option<(int, ReqV)>> {
    Seq::new(
        e.len(),
        |i: int|
            match parent_req(e[i].1, rows) {
                Some(k) => match entry_from(e, e[i].1.requires[k].any_of[0], 0) {
                    Some(p) => Some((p, e[i].1.requires[k])),
                    None => None,
                },
                None => None,
            },
    )
}

/// The entry a link points at.
pub open spec fn up(o: Option<(int, ReqV)>) -> Option<int> {
    match o {
        Some((p, _)) => Some(p),
        None => None,
    }
}

/// Whether climbing from `cur` through `par` reaches `target` within `fuel` steps.
pub open spec fn reaches(par: Seq<Option<(int, ReqV)>>, cur: Option<int>, target: int, fuel: nat) -> bool
    decreases fuel,
{
    if fuel == 0 {
        false
    } else {
        match cur {
            None => false,
            Some(p) => p == target || (0 <= p < par.len() && reaches(
                par,
                up(par[p]),
                target,
                (fuel - 1) as nat,
            )),
        }
    }
}

/// The links after the first `k` entries are visited in order, each cut where climbing
/// from it returns to it within as many steps as there are entries: the pack where a
/// loop closes stays at the top.
pub open spec fn cut_loops(par: Seq<Option<(int, ReqV)>>, k: nat) -> Seq<Option<(int, ReqV)>>
    decreases k,
{
    if k == 0 {
        par
    } else {
        let p = cut_loops(par, (k - 1) as nat);
        let i = k - 1;
        if reaches(p, up(p[i]), i, par.len()) {
            p.update(i, None)
        } else {
            p
        }
    }
}

/// The links every card hangs by, loops cut.
pub open spec fn hung(e: Seq<(int, PackV)>, rows: Seq<PackV>) -> Seq<Option<(int, ReqV)>> {
    cut_loops(link_spec(e, rows), e.len())
}

/// The entries among the first `m` that hang from entry `i`, in order.
pub open spec fn kids(par: Seq<Option<(int, ReqV)>>, i: int, m: int) -> Seq<int>
    decreases m,
{
    if m <= 0 {
        seq![]
    } else {
        let r = kids(par, i, m - 1);
        if up(par[m - 1]) == Some(i) {
            r.push(m - 1)
        } else {
            r
        }
    }
}

/// The requirement a link carries.
pub open spec fn req_of(o: Option<(int, ReqV)>) -> ReqV {
    match o {
        Some((_, r)) => r,
        None => ReqV { kind: crate::reports::RequirementKind::Gate, any_of: seq![], params: seq![], met: true },
    }
}

/// The child deploys while the requirement it hangs by is not met.
pub open spec fn warns(e: Seq<(int, PackV)>, par: Seq<Option<(int, ReqV)>>, c: int) -> bool {
    e[c].1.deploys && !req_of(par[c]).met
}

/// The section a child would be listed in on its own, where it is not its parent's and
/// not the absent packs'.
pub open spec fn phase_caption(
    e: Seq<(int, PackV)>,
    flat: Seq<(Seq<char>, Seq<PackV>)>,
    i: int,
    c: int,
) -> Option<Seq<char>> {
    let h = flat[e[c].0].0;
    if e[c].0 != e[i].0 && h != ABSENT_HEADER@ {
        Some(h)
    } else {
        None
    }
}

/// A card and the branches that hang from it.
pub struct NodeV {
    pub row: PackV,
    pub children: Seq<BranchV>,
}

/// One connector and the card it leads to.
pub struct BranchV {
    pub requirement: ReqV,
    pub warn: bool,
    pub trunk_warn: bool,
    pub phase: Option<Seq<char>>,
    pub node: NodeV,
}

/// The card of entry `i` with the cards hung below it, `fuel` levels deep.
pub open spec fn node_spec(
    e: Seq<(int, PackV)>,
    par: Seq<Option<(int, ReqV)>>,
    flat: Seq<(Seq<char>, Seq<PackV>)>,
    i: int,
    fuel: nat,
) -> NodeV
    decreases fuel, 1nat,
{
    let ks = kids(par, i, e.len() as int);
    NodeV {
        row: e[i].1,
        children: if fuel == 0 {
            seq![]
        } else {
            Seq::new(ks.len(), |j: int| branch_spec(e, par, flat, i, ks, j, fuel))
        },
    }
}

/// The `j`-th branch below entry `i`, whose children are `ks`.
pub open spec fn branch_spec(
    e: Seq<(int, PackV)>,
    par: Seq<Option<(int, ReqV)>>,
    flat: Seq<(Seq<char>, Seq<PackV>)>,
    i: int,
    ks: Seq<int>,
    j: int,
    fuel: nat,
) -> BranchV
    decreases fuel, 0nat,
{
    let c = ks[j];
    BranchV {
        requirement: req_of(par[c]),
        warn: warns(e, par, c),
        trunk_warn: exists|k: int| j < k < ks.len() && #[trigger] warns(e, par, ks[k]),
        phase: phase_caption(e, flat, i, c),
        node: if fuel == 0 {
            NodeV { row: e[c].1, children: seq![] }
        } else {
            node_spec(e, par, flat, c, (fuel - 1) as nat)
        },
    }
}

/// A card and the branches that hang from it.
#[derive(Debug, PartialEq)]
pub struct Node {
    pub row: PackRow,
    pub children: Vec<Branch>,
}

/// One connector and the card it leads to.
#[derive(Debug, PartialEq)]
pub struct Branch {
    /// the child's requirement the parent meets: satz's own, `met` included
    pub requirement: Requirement,
    /// the child deploys while its requirement is not met
    pub warn: bool,
    /// a later sibling's connector warns, so the trunk past this branch leads to it
    pub trunk_warn: bool,
    /// the phase the child's line stands under, when that is not its parent's: the
    /// section the child would be listed in on its own
    pub phase: Option<String>,
    pub node: Node,
}

pub open spec fn node_view(n: Node) -> NodeV
    decreases n,
{
    NodeV {
        row: n.row@,
        children: Seq::new(
            n.children.len() as nat,
            |j: int|
                if 0 <= j < n.children.len() {
                    proof {
                        assert(decreases_to!(n => n.children));
                        assert(decreases_to!(n.children => n.children@));
                        assert(decreases_to!(n.children@ => n.children@[j]));
                        assert(decreases_to!(n.children@[j] => n.children@[j].node));
                    }
                    let b = n.children@[j];
                    BranchV {
                        requirement: b.requirement@,
                        warn: b.warn,
                        trunk_warn: b.trunk_warn,
                        phase: crate::reports::opt_str(b.phase),
                        node: node_view(b.node),
                    }
                } else {
                    BranchV {
                        requirement: req_of(None),
                        warn: false,
                        trunk_warn: false,
                        phase: None,
                        node: NodeV { row: n.row@, children: seq![] },
                    }
                },
        ),
    }
}

impl View for Node {
    type V = NodeV;

    open spec fn view(&self) -> NodeV {
        node_view(*self)
    }
}

/// What a section's grid holds: a card in a cell, or a tree across the whole row.
#[derive(Debug, PartialEq)]
pub enum Item {
    /// a pack no other card hangs from and that hangs from none
    Cell(PackRow),
    /// a pack others need, with them below it
    Tree(Node),
}

pub enum ItemV {
    Cell(PackV),
    Tree(NodeV),
}

impl View for Item {
    type V = ItemV;

    open spec fn view(&self) -> ItemV {
        match self {
            Item::Cell(r) => ItemV::Cell(r@),
            Item::Tree(n) => ItemV::Tree(n@),
        }
    }
}

/// A header and what its grid holds.
#[derive(Debug, PartialEq)]
pub struct Section {
    pub header: String,
    pub items: Vec<Item>,
}

pub struct SectionV {
    pub header: Seq<char>,
    pub items: Seq<ItemV>,
}

pub open spec fn item_views(v: Seq<Item>) -> Seq<ItemV> {
    Seq::new(v.len(), |i: int| v[i]@)
}

impl View for Section {
    type V = SectionV;

    open spec fn view(&self) -> SectionV {
        SectionV { header: self.header@, items: item_views(self.items@) }
    }
}

pub open spec fn section_views(v: Seq<Section>) -> Seq<SectionV> {
    Seq::new(v.len(), |i: int| v[i]@)
}

/// The entries among the first `m` in section `s` that hang from nothing, in order.
pub open spec fn roots(e: Seq<(int, PackV)>, par: Seq<Option<(int, ReqV)>>, s: int, m: int) -> Seq<int>
    decreases m,
{
    if m <= 0 {
        seq![]
    } else {
        let r = roots(e, par, s, m - 1);
        if e[m - 1].0 == s && par[m - 1] is None {
            r.push(m - 1)
        } else {
            r
        }
    }
}

/// Entry `i` as its section's grid holds it: a cell where nothing hangs from it, else
/// the tree it heads.
pub open spec fn item_spec(
    e: Seq<(int, PackV)>,
    par: Seq<Option<(int, ReqV)>>,
    flat: Seq<(Seq<char>, Seq<PackV>)>,
    i: int,
) -> ItemV {
    let n = node_spec(e, par, flat, i, e.len());
    if n.children.len() == 0 {
        ItemV::Cell(e[i].1)
    } else {
        ItemV::Tree(n)
    }
}

/// The sections of `secs` that hold something, in order.
pub open spec fn drop_empty(secs: Seq<SectionV>) -> Seq<SectionV>
    decreases secs.len(),
{
    if secs.len() == 0 {
        seq![]
    } else {
        let r = drop_empty(secs.drop_last());
        if secs.last().items.len() > 0 {
            r.push(secs.last())
        } else {
            r
        }
    }
}

/// The packs in sections, with the packs that need another hung below it: the flat
/// sections, each holding its entries that hang from nothing, as cells or as the trees
/// they head; a section left with nothing is dropped.
pub open spec fn sections_spec(rows: Seq<PackV>, phases: Map<u32, String>) -> Seq<SectionV> {
    let flat = flat_spec(rows, phases);
    let e = entries_spec(flat);
    let par = hung(e, rows);
    drop_empty(
        Seq::new(
            flat.len(),
            |s: int|
                SectionV {
                    header: flat[s].0,
                    items: Seq::new(
                        roots(e, par, s, e.len() as int).len(),
                        |j: int| item_spec(e, par, flat, roots(e, par, s, e.len() as int)[j]),
                    ),
                },
        ),
    )
}

pub open spec fn entry_views(e: Seq<(usize, &PackRow)>) -> Seq<(int, PackV)> {
    Seq::new(e.len(), |i: int| (e[i].0 as int, e[i].1@))
}

/// A link that points at one of the first `n` entries, or at none.
pub open spec fn below(o: Option<(int, ReqV)>, n: int) -> bool {
    match o {
        Some((p, _)) => 0 <= p < n,
        None => true,
    }
}

/// Every link points at an entry.
pub open spec fn in_range(par: Seq<Option<(int, ReqV)>>) -> bool {
    forall|i: int| 0 <= i < par.len() ==> below(#[trigger] par[i], par.len() as int)
}

pub open spec fn link_views(par: Seq<Option<(usize, &Requirement)>>) -> Seq<Option<(int, ReqV)>> {
    Seq::new(
        par.len(),
        |i: int|
            match par[i] {
                Some((p, r)) => Some((p as int, r@)),
                None => None,
            },
    )
}

proof fn lemma_entries_take(fv: Seq<(Seq<char>, Seq<PackV>)>, s: int)
    requires
        0 <= s < fv.len(),
    ensures
        entries_spec(fv.take(s + 1)) == entries_spec(fv.take(s)) + Seq::new(
            fv[s].1.len(),
            |k: int| (s, fv[s].1[k]),
        ),
{
    assert(fv.take(s + 1).drop_last() =~= fv.take(s));
    assert(fv.take(s + 1).last() == fv[s]);
}

proof fn lemma_entries_sections(fv: Seq<(Seq<char>, Seq<PackV>)>)
    ensures
        forall|i: int|
            0 <= i < entries_spec(fv).len() ==> 0 <= #[trigger] entries_spec(fv)[i].0 < fv.len(),
    decreases fv.len(),
{
    if fv.len() > 0 {
        let p = fv.drop_last();
        lemma_entries_sections(p);
        let e = entries_spec(fv);
        let a = entries_spec(p);
        assert forall|i: int| 0 <= i < e.len() implies 0 <= #[trigger] e[i].0 < fv.len() by {
            if i < a.len() {
                assert(e[i] == a[i]);
            }
        }
    }
}

fn entries_of<'a>(flat: &'a Vec<(String, Vec<PackRow>)>) -> (r: Vec<(usize, &'a PackRow)>)
    ensures
        entry_views(r@) == entries_spec(flat_views(flat@)),
{
    let ghost fv = flat_views(flat@);
    let mut out: Vec<(usize, &'a PackRow)> = Vec::new();
    assert(entry_views(out@) =~= entries_spec(fv.take(0)));
    for s in 0..flat.len()
        invariant
            fv == flat_views(flat@),
            entry_views(out@) == entries_spec(fv.take(s as int)),
    {
        let rows = &flat[s].1;
        let ghost start = entry_views(out@);
        for k in 0..rows.len()
            invariant
                fv == flat_views(flat@),
                rows == &flat@[s as int].1,
                s < flat.len(),
                entry_views(out@) == start + Seq::new(k as nat, |j: int| (s as int, fv[s as int].1[j])),
        {
            let ghost before = entry_views(out@);
            out.push((s, &rows[k]));
            assert(fv[s as int].1[k as int] == rows@[k as int]@);
            assert(entry_views(out@) =~= before.push((s as int, rows@[k as int]@)));
            assert(entry_views(out@) =~= start + Seq::new(
                (k + 1) as nat,
                |j: int| (s as int, fv[s as int].1[j]),
            ));
        }
        proof {
            lemma_entries_take(fv, s as int);
        }
        assert(Seq::new(rows.len() as nat, |j: int| (s as int, fv[s as int].1[j])) =~= Seq::new(
            fv[s as int].1.len(),
            |k: int| (s as int, fv[s as int].1[k]),
        ));
    }
    assert(fv.take(flat.len() as int) =~= fv);
    out
}

fn entry_pos(entries: &Vec<(usize, &PackRow)>, path: &str) -> (r: Option<usize>)
    ensures
        match r {
            Some(p) => entry_from(entry_views(entries@), path@, 0) == Some(p as int) && p
                < entries.len(),
            None => entry_from(entry_views(entries@), path@, 0) is None,
        },
{
    let ghost ev = entry_views(entries@);
    proof {
        lemma_entry_from(ev, path@, 0);
    }
    let mut k: usize = 0;
    while k < entries.len()
        invariant
            ev == entry_views(entries@),
            k <= entries.len(),
            entry_from(ev, path@, 0) == entry_from(ev, path@, k as int),
        decreases entries.len() - k,
    {
        if str_eq(entries[k].1.path.as_str(), path) {
            return Some(k);
        }
        k = k + 1;
    }
    None
}

fn links<'a>(entries: &Vec<(usize, &'a PackRow)>, rows: &[PackRow]) -> (r: Vec<Option<(usize, &'a Requirement)>>)
    ensures
        link_views(r@) == link_spec(entry_views(entries@), pack_views(rows@)),
        in_range(link_views(r@)),
{
    let ghost ev = entry_views(entries@);
    let ghost target = link_spec(ev, pack_views(rows@));
    let mut out: Vec<Option<(usize, &'a Requirement)>> = Vec::new();
    for i in 0..entries.len()
        invariant
            ev == entry_views(entries@),
            target == link_spec(ev, pack_views(rows@)),
            out.len() == i,
            forall|k: int| 0 <= k < i ==> #[trigger] link_views(out@)[k] == target[k],
            forall|k: int| 0 <= k < i ==> below(#[trigger] link_views(out@)[k], entries.len() as int),
    {
        let row = entries[i].1;
        let link = match parent_of(row, rows) {
            Some((path, req)) => match entry_pos(entries, path) {
                Some(p) => Some((p, req)),
                None => None,
            },
            None => None,
        };
        let ghost before = link_views(out@);
        out.push(link);
        assert(link_views(out@) =~= before.push(link_views(out@)[i as int]));
    }
    assert(link_views(out@) =~= target);
    out
}

proof fn lemma_cut_keeps_range(par: Seq<Option<(int, ReqV)>>, k: nat)
    requires
        in_range(par),
        k <= par.len(),
    ensures
        in_range(cut_loops(par, k)),
        cut_loops(par, k).len() == par.len(),
    decreases k,
{
    if k > 0 {
        lemma_cut_keeps_range(par, (k - 1) as nat);
        let p = cut_loops(par, (k - 1) as nat);
        let i = k - 1;
        if reaches(p, up(p[i]), i, par.len()) {
            let q = p.update(i, None);
            assert forall|j: int| 0 <= j < q.len() implies below(#[trigger] q[j], q.len() as int) by {
                if j != i {
                    assert(below(p[j], p.len() as int));
                }
            }
        }
    }
}

/// Cuts, in entry order, each link whose climb returns to its own entry.
fn cut_loops_exec(parent: &mut Vec<Option<(usize, &Requirement)>>)
    requires
        in_range(link_views(old(parent)@)),
    ensures
        link_views(final(parent)@) == cut_loops(link_views(old(parent)@), old(parent)@.len()),
        in_range(link_views(final(parent)@)),
        final(parent).len() == old(parent).len(),
{
    let ghost start = link_views(parent@);
    let n = parent.len();
    proof {
        lemma_cut_keeps_range(start, 0);
    }
    for i in 0..n
        invariant
            n == start.len(),
            parent.len() == n,
            link_views(parent@) == cut_loops(start, i as nat),
            in_range(link_views(parent@)),
            in_range(start),
    {
        let ghost p = link_views(parent@);
        let mut cur: Option<usize> = match parent[i] {
            Some((q, _)) => Some(q),
            None => None,
        };
        let mut found = false;
        let mut done = false;
        let mut step: usize = 0;
        while step < n && !done
            invariant
                p == link_views(parent@),
                in_range(p),
                p.len() == n,
                i < n,
                step <= n,
                cur matches Some(c) ==> c < n,
                !done ==> reaches(p, up(p[i as int]), i as int, n as nat) == reaches(
                    p,
                    match cur {
                        Some(c) => Some(c as int),
                        None => None,
                    },
                    i as int,
                    (n - step) as nat,
                ),
                done ==> found == reaches(p, up(p[i as int]), i as int, n as nat),
                !done ==> !found,
            decreases (n - step) + (if done {
                0int
            } else {
                1int
            }),
        {
            match cur {
                None => {
                    assert(!reaches(p, None, i as int, (n - step) as nat));
                    done = true;
                },
                Some(c) => {
                    assert(reaches(p, Some(c as int), i as int, (n - step) as nat) == (c == i || (0
                        <= c < p.len() && reaches(p, up(p[c as int]), i as int, (n - step - 1) as nat))));
                    if c == i {
                        found = true;
                        done = true;
                    } else {
                        assert(below(p[c as int], n as int));
                        cur = match parent[c] {
                            Some((q, _)) => Some(q),
                            None => None,
                        };
                        step = step + 1;
                    }
                },
            }
        }
        if !done {
            assert(step == n);
            assert(!reaches(
                p,
                match cur {
                    Some(c) => Some(c as int),
                    None => None,
                },
                i as int,
                0,
            ));
        }
        assert(found == reaches(p, up(p[i as int]), i as int, n as nat));
        proof {
            lemma_cut_keeps_range(start, (i + 1) as nat);
        }
        if found {
            let ghost before = link_views(parent@);
            parent.set(i, None);
            assert(link_views(parent@) =~= before.update(i as int, None));
        }
    }
}

/// The entries, links and flat sections a tree is built from fit together.
pub open spec fn tree_wf(
    e: Seq<(int, PackV)>,
    par: Seq<Option<(int, ReqV)>>,
    flat: Seq<(Seq<char>, Seq<PackV>)>,
) -> bool {
    &&& par.len() == e.len()
    &&& in_range(par)
    &&& forall|i: int| 0 <= i < e.len() ==> 0 <= #[trigger] e[i].0 < flat.len()
}

pub open spec fn ints(v: Seq<usize>) -> Seq<int> {
    Seq::new(v.len(), |j: int| v[j] as int)
}

fn kids_of(parent: &Vec<Option<(usize, &Requirement)>>, i: usize) -> (r: Vec<usize>)
    ensures
        ints(r@) == kids(link_views(parent@), i as int, parent.len() as int),
        forall|j: int| 0 <= j < r.len() ==> #[trigger] r@[j] < parent.len() && up(
            link_views(parent@)[r@[j] as int],
        ) == Some(i as int),
{
    let ghost par = link_views(parent@);
    let mut out: Vec<usize> = Vec::new();
    for c in 0..parent.len()
        invariant
            par == link_views(parent@),
            ints(out@) == kids(par, i as int, c as int),
            forall|j: int| 0 <= j < out.len() ==> #[trigger] out@[j] < c && up(par[out@[j] as int])
                == Some(i as int),
    {
        let hangs = match parent[c] {
            Some((p, _)) => p == i,
            None => false,
        };
        if hangs {
            let ghost before = ints(out@);
            out.push(c);
            assert(ints(out@) =~= before.push(c as int));
        }
    }
    out
}

fn warns_exec(entries: &Vec<(usize, &PackRow)>, parent: &Vec<Option<(usize, &Requirement)>>, c: usize) -> (r: bool)
    requires
        c < entries.len(),
        parent.len() == entries.len(),
    ensures
        r == warns(entry_views(entries@), link_views(parent@), c as int),
{
    match parent[c] {
        Some((_, req)) => entries[c].1.deploys && !req.met,
        None => entries[c].1.deploys && !true,
    }
}

pub open spec fn branch_view(b: Branch) -> BranchV {
    BranchV {
        requirement: b.requirement@,
        warn: b.warn,
        trunk_warn: b.trunk_warn,
        phase: crate::reports::opt_str(b.phase),
        node: node_view(b.node),
    }
}

/// The card of entry `i` with the cards hung below it, `fuel` levels deep.
fn build_node(
    i: usize,
    entries: &Vec<(usize, &PackRow)>,
    parent: &Vec<Option<(usize, &Requirement)>>,
    flat: &Vec<(String, Vec<PackRow>)>,
    fuel: usize,
) -> (r: Node)
    requires
        i < entries.len(),
        tree_wf(entry_views(entries@), link_views(parent@), flat_views(flat@)),
    ensures
        r@ == node_spec(
            entry_views(entries@),
            link_views(parent@),
            flat_views(flat@),
            i as int,
            fuel as nat,
        ),
    decreases fuel,
{
    let ghost e = entry_views(entries@);
    let ghost par = link_views(parent@);
    let ghost fv = flat_views(flat@);
    let row = entries[i].1.clone();
    if fuel == 0 {
        let r = Node { row, children: Vec::new() };
        assert(node_view(r).children =~= seq![]);
        return r;
    }
    let ks = kids_of(parent, i);
    let ghost kv = ints(ks@);
    let mut children: Vec<Branch> = Vec::new();
    for j in 0..ks.len()
        invariant
            e == entry_views(entries@),
            par == link_views(parent@),
            fv == flat_views(flat@),
            tree_wf(e, par, fv),
            i < entries.len(),
            fuel > 0,
            kv == ints(ks@),
            kv == kids(par, i as int, parent.len() as int),
            forall|k: int| 0 <= k < ks.len() ==> #[trigger] ks@[k] < parent.len() && up(par[ks@[k] as int])
                == Some(i as int),
            children.len() == j,
            forall|k: int|
                0 <= k < j ==> #[trigger] branch_view(children@[k]) == branch_spec(
                    e,
                    par,
                    fv,
                    i as int,
                    kv,
                    k,
                    fuel as nat,
                ),
    {
        let c = ks[j];
        assert(kv[j as int] == c as int);
        let req = match parent[c] {
            Some((_, req)) => req,
            None => {
                assert(false);
                return Node { row, children: Vec::new() };
            },
        };
        assert(req_of(par[c as int]) == req@);
        let warn = warns_exec(entries, parent, c);
        let mut trunk_warn = false;
        let mut k = j + 1;
        while k < ks.len()
            invariant
                e == entry_views(entries@),
                par == link_views(parent@),
                kv == ints(ks@),
                j < k <= ks.len(),
                parent.len() == entries.len(),
                forall|m: int| 0 <= m < ks.len() ==> #[trigger] ks@[m] < parent.len(),
                trunk_warn == exists|m: int| j < m < k && #[trigger] warns(e, par, kv[m]),
            decreases ks.len() - k,
        {
            assert(kv[k as int] == ks@[k as int] as int);
            if warns_exec(entries, parent, ks[k]) {
                trunk_warn = true;
            }
            k = k + 1;
        }
        let cs = entries[c].0;
        let own = entries[i].0;
        assert(0 <= cs < fv.len());
        let h = &flat[cs].0;
        let phase = if cs != own && !str_eq(h.as_str(), ABSENT_HEADER) {
            Some(h.clone())
        } else {
            None
        };
        let node = build_node(c, entries, parent, flat, fuel - 1);
        let b = Branch { requirement: req.clone(), warn, trunk_warn, phase, node };
        assert(branch_view(b) == branch_spec(e, par, fv, i as int, kv, j as int, fuel as nat));
        children.push(b);
    }
    let r = Node { row, children };
    assert forall|j: int| 0 <= j < ks.len() implies #[trigger] node_view(r).children[j]
        == branch_spec(e, par, fv, i as int, kv, j, fuel as nat) by {
        assert(node_view(r).children[j] == branch_view(r.children@[j]));
    }
    assert(node_view(r).children =~= node_spec(e, par, fv, i as int, fuel as nat).children);
    r
}

/// The sections as they stand before the empty ones are dropped.
pub open spec fn all_sections(
    e: Seq<(int, PackV)>,
    par: Seq<Option<(int, ReqV)>>,
    flat: Seq<(Seq<char>, Seq<PackV>)>,
) -> Seq<SectionV> {
    Seq::new(
        flat.len(),
        |s: int|
            SectionV {
                header: flat[s].0,
                items: Seq::new(
                    roots(e, par, s, e.len() as int).len(),
                    |j: int| item_spec(e, par, flat, roots(e, par, s, e.len() as int)[j]),
                ),
            },
    )
}

/// The packs in sections, with the packs that need another hung below it.
///
/// First the flat sections: the packs whose line the file carries, in the file's order —
/// a line with a phase comment opens the section that comment's first line names, a line
/// without one joins the section open at that point (or [`NO_PHASE_HEADER`] when none
/// is) — then every pack the file has no line for, in the graph's order, under
/// [`ABSENT_HEADER`]. The map is the page's head and in no section.
///
/// Then the edges: a pack hangs below the pack [`parent_of`] names, wherever that one
/// stands, and leaves its own section. A pack nothing hangs from and that hangs from
/// nothing stays an [`Item::Cell`]; one with children is an [`Item::Tree`] in its own
/// section, its children in section order. A section left with nothing is dropped.
/// Should the requirements loop, the pack where the loop closes stays at the top.
pub fn sections(report: &PacksReport, phases: &BTreeMap<u32, String>) -> (r: Vec<Section>)
    ensures
        section_views(r@) == sections_spec(pack_views(report.packs@), phases@),
{
    let flat = flat_sections(report.packs.as_slice(), phases);
    let entries = entries_of(&flat);
    let mut parent = links(&entries, report.packs.as_slice());
    cut_loops_exec(&mut parent);
    let ghost fv = flat_views(flat@);
    let ghost e = entry_views(entries@);
    let ghost par = link_views(parent@);
    proof {
        lemma_entries_sections(fv);
    }
    assert(tree_wf(e, par, fv));
    let ghost all = all_sections(e, par, fv);
    let n = entries.len();
    let mut out: Vec<Section> = Vec::new();
    assert(section_views(out@) =~= drop_empty(all.take(0)));
    for s in 0..flat.len()
        invariant
            fv == flat_views(flat@),
            e == entry_views(entries@),
            par == link_views(parent@),
            n == entries.len(),
            tree_wf(e, par, fv),
            all == all_sections(e, par, fv),
            section_views(out@) == drop_empty(all.take(s as int)),
    {
        let mut items: Vec<Item> = Vec::new();
        for i in 0..n
            invariant
                fv == flat_views(flat@),
                e == entry_views(entries@),
                par == link_views(parent@),
                n == entries.len(),
                tree_wf(e, par, fv),
                item_views(items@) == Seq::new(
                    roots(e, par, s as int, i as int).len(),
                    |j: int| item_spec(e, par, fv, roots(e, par, s as int, i as int)[j]),
                ),
        {
            let ghost before = item_views(items@);
            if entries[i].0 == s && parent[i].is_none() {
                let node = build_node(i, &entries, &parent, &flat, n);
                if node.children.len() == 0 {
                    items.push(Item::Cell(entries[i].1.clone()));
                } else {
                    items.push(Item::Tree(node));
                }
                assert(item_views(items@) =~= before.push(item_spec(e, par, fv, i as int)));
            }
            assert(item_views(items@) =~= Seq::new(
                roots(e, par, s as int, i + 1).len(),
                |j: int| item_spec(e, par, fv, roots(e, par, s as int, i + 1)[j]),
            ));
        }
        assert(all.take(s + 1).drop_last() =~= all.take(s as int));
        assert(all.take(s + 1).last() == all[s as int]);
        let ghost before = section_views(out@);
        if items.len() > 0 {
            out.push(Section { header: flat[s].0.clone(), items });
            assert(section_views(out@) =~= before.push(all[s as int]));
        }
    }
    assert(all.take(flat.len() as int) =~= all);
    out
}

/// The first finding of `fs` from `k` on about the pack at `path` that says `message`.
pub open spec fn finding_from(fs: Seq<FindingV>, path: Seq<char>, message: Seq<char>, k: int) -> Option<int>
    decreases fs.len() - k,
{
    if k < 0 || k >= fs.len() {
        None
    } else if fs[k].subject == Some(path) && fs[k].message == message {
        Some(k)
    } else {
        finding_from(fs, path, message, k + 1)
    }
}

proof fn lemma_finding_from(fs: Seq<FindingV>, path: Seq<char>, message: Seq<char>, k: int)
    requires
        0 <= k,
    ensures
        finding_from(fs, path, message, k) matches Some(i) ==> k <= i < fs.len(),
    decreases fs.len() - k,
{
    if k < fs.len() && !(fs[k].subject == Some(path) && fs[k].message == message) {
        lemma_finding_from(fs, path, message, k + 1);
    }
}

/// The command that answers a sentence of the pack at `path`: the fix of the report's
/// first finding about that pack that says it.
pub open spec fn fix_for(fs: Seq<FindingV>, path: Seq<char>, message: Seq<char>) -> Option<Seq<char>> {
    match finding_from(fs, path, message, 0) {
        Some(i) => fs[i].fix,
        None => None,
    }
}

pub open spec fn message_views(v: Seq<(String, Option<String>)>) -> Seq<(Seq<char>, Option<Seq<char>>)> {
    Seq::new(v.len(), |i: int| (v[i].0@, opt_str(v[i].1)))
}

/// Each of the compile's findings about `row`, with the command that answers it where
/// satz names one: the sentences are the row's, the commands the report's findings whose
/// subject is the pack.
pub fn row_findings(report: &PacksReport, row: &PackRow) -> (r: Vec<(String, Option<String>)>)
    ensures
        message_views(r@) == Seq::new(
            row@.findings.len(),
            |k: int|
                (
                    row@.findings[k],
                    fix_for(finding_views(report.findings@), row@.path, row@.findings[k]),
                ),
        ),
{
    let ghost fs = finding_views(report.findings@);
    let mut out: Vec<(String, Option<String>)> = Vec::new();
    for m in 0..row.findings.len()
        invariant
            fs == finding_views(report.findings@),
            out.len() == m,
            forall|k: int|
                0 <= k < m ==> #[trigger] message_views(out@)[k] == (
                    row@.findings[k],
                    fix_for(fs, row@.path, row@.findings[k]),
                ),
    {
        let message = &row.findings[m];
        assert(row@.findings[m as int] == message@);
        proof {
            lemma_finding_from(fs, row@.path, message@, 0);
        }
        let mut fix: Option<String> = None;
        let mut k: usize = 0;
        let mut done = false;
        while k < report.findings.len() && !done
            invariant
                fs == finding_views(report.findings@),
                k <= report.findings.len(),
                !done ==> finding_from(fs, row@.path, message@, 0) == finding_from(
                    fs,
                    row@.path,
                    message@,
                    k as int,
                ),
                !done ==> fix is None,
                done ==> opt_str(fix) == fix_for(fs, row@.path, message@),
            decreases (report.findings.len() - k) + (if done {
                0int
            } else {
                1int
            }),
        {
            let f = &report.findings[k];
            let about = match &f.subject {
                Some(sub) => str_eq(sub.as_str(), row.path.as_str()),
                None => false,
            };
            if about && str_eq(f.message.as_str(), message.as_str()) {
                fix = crate::reports::copy_opt_str(&f.fix);
                done = true;
            } else {
                k = k + 1;
            }
        }
        let ghost before = message_views(out@);
        out.push((message.clone(), fix));
        assert(message_views(out@) =~= before.push(message_views(out@)[m as int]));
    }
    assert(message_views(out@) =~= Seq::new(
        row@.findings.len(),
        |k: int| (row@.findings[k], fix_for(fs, row@.path, row@.findings[k])),
    ));
    out
}

/// A finding with no card to stand on: about no pack, or about one the report has no
/// row for.
pub open spec fn is_loose(f: FindingV, packs: Seq<PackV>) -> bool {
    match f.subject {
        None => true,
        Some(s) => path_from(packs, s, 0) is None,
    }
}

/// The findings of `fs` that [`is_loose`], in order.
pub open spec fn loose_spec(fs: Seq<FindingV>, packs: Seq<PackV>) -> Seq<FindingV>
    decreases fs.len(),
{
    if fs.len() == 0 {
        seq![]
    } else {
        let r = loose_spec(fs.drop_last(), packs);
        if is_loose(fs.last(), packs) {
            r.push(fs.last())
        } else {
            r
        }
    }
}

/// The report's findings about no pack it has a row for: they have no card to stand on.
pub fn loose_findings(report: &PacksReport) -> (r: Vec<Finding>)
    ensures
        finding_views(r@) == loose_spec(finding_views(report.findings@), pack_views(report.packs@)),
{
    let ghost fs = finding_views(report.findings@);
    let ghost packs = pack_views(report.packs@);
    let mut out: Vec<Finding> = Vec::new();
    for i in 0..report.findings.len()
        invariant
            fs == finding_views(report.findings@),
            packs == pack_views(report.packs@),
            finding_views(out@) == loose_spec(fs.take(i as int), packs),
    {
        assert(fs.take(i + 1).drop_last() =~= fs.take(i as int));
        assert(fs.take(i + 1).last() == report.findings@[i as int]@);
        let f = &report.findings[i];
        let loose = match &f.subject {
            None => true,
            Some(sub) => report.row(sub.as_str()).is_none(),
        };
        if loose {
            let ghost before = finding_views(out@);
            out.push(f.clone());
            assert(finding_views(out@) =~= before.push(f@));
        }
    }
    assert(fs.take(report.findings.len() as int) =~= fs);
    out
}

/// The first option of `q` from `m` on that binds `gate`.
pub open spec fn option_from(q: QuestionV, gate: Seq<char>, m: int) -> Option<int>
    decreases q.options.len() - m,
{
    if m < 0 || m >= q.options.len() {
        None
    } else if q.options[m].param == gate {
        Some(m)
    } else {
        option_from(q, gate, m + 1)
    }
}

proof fn lemma_option_from(q: QuestionV, gate: Seq<char>, m: int)
    requires
        0 <= m,
    ensures
        option_from(q, gate, m) matches Some(i) ==> m <= i < q.options.len(),
    decreases q.options.len() - m,
{
    if m < q.options.len() && q.options[m].param != gate {
        lemma_option_from(q, gate, m + 1);
    }
}

/// The question from the `k`-th on that asks `gate`, as the interview puts it: its
/// prompt and `why` where it asks it itself; where an option binds it, the prompt and
/// that option's label, and the option's `why`, else the question's.
pub open spec fn prompt_from(qs: Seq<QuestionV>, gate: Seq<char>, k: int) -> Option<(Seq<char>, Option<Seq<char>>)>
    decreases qs.len() - k,
{
    if k < 0 || k >= qs.len() {
        None
    } else if qs[k].subject == gate {
        Some((qs[k].prompt, qs[k].why))
    } else {
        match option_from(qs[k], gate, 0) {
            Some(m) => Some(
                (
                    qs[k].prompt + " — "@ + qs[k].options[m].label,
                    if qs[k].options[m].why is Some {
                        qs[k].options[m].why
                    } else {
                        qs[k].why
                    },
                ),
            ),
            None => prompt_from(qs, gate, k + 1),
        }
    }
}

/// The question that asks `gate`, as the interview puts it: its prompt, and the
/// option's or the question's `why`. `None` while no pack the estate uses asks it.
pub fn prompt_of(questions: &QuestionsReport, gate: &str) -> (r: Option<(String, Option<String>)>)
    ensures
        match r {
            Some((p, w)) => prompt_from(rows(questions.questions@), gate@, 0) == Some(
                (p@, opt_str(w)),
            ),
            None => prompt_from(rows(questions.questions@), gate@, 0) is None,
        },
{
    let ghost qs = rows(questions.questions@);
    let mut k: usize = 0;
    while k < questions.questions.len()
        invariant
            qs == rows(questions.questions@),
            k <= questions.questions.len(),
            prompt_from(qs, gate@, 0) == prompt_from(qs, gate@, k as int),
        decreases questions.questions.len() - k,
    {
        let q = &questions.questions[k];
        assert(qs[k as int] == q@);
        if str_eq(q.subject.as_str(), gate) {
            return Some((q.prompt.clone(), crate::reports::copy_opt_str(&q.why)));
        }
        proof {
            lemma_option_from(q@, gate@, 0);
        }
        let mut m: usize = 0;
        while m < q.options.len()
            invariant
                k < questions.questions.len(),
                qs == rows(questions.questions@),
                qs[k as int] == q@,
                q@.subject != gate@,
                prompt_from(qs, gate@, 0) == prompt_from(qs, gate@, k as int),
                m <= q.options.len(),
                option_from(q@, gate@, 0) == option_from(q@, gate@, m as int),
            decreases q.options.len() - m,
        {
            let o = &q.options[m];
            assert(q@.options[m as int] == o@);
            if str_eq(o.param.as_str(), gate) {
                let mut text = q.prompt.clone();
                text.append(" — ");
                text.append(o.label.as_str());
                let why = if o.why.is_some() {
                    crate::reports::copy_opt_str(&o.why)
                } else {
                    crate::reports::copy_opt_str(&q.why)
                };
                assert(option_from(q@, gate@, m as int) == Some(m as int));
                assert(o.why.is_some() == (q@.options[m as int].why is Some));
                assert(prompt_from(qs, gate@, k as int) == Some((text@, opt_str(why))));
                return Some((text, why));
            }
            m = m + 1;
        }
        k = k + 1;
    }
    None
}

/// Whether a card lists requirement `r`: every one that is not met, and a met one the
/// tree does not already draw — neither the parent's connector (`drawn`) nor the map
/// every menu pack needs (`map`, the map's path).
pub open spec fn lists(r: ReqV, drawn: Option<ReqV>, map: Option<Seq<char>>) -> bool {
    !r.met || !(drawn == Some(r) || (r.any_of.len() == 1 && Some(r.any_of[0]) == map))
}

/// The requirements of `reqs` a card [`lists`], in order.
pub open spec fn listed_spec(reqs: Seq<ReqV>, drawn: Option<ReqV>, map: Option<Seq<char>>) -> Seq<ReqV>
    decreases reqs.len(),
{
    if reqs.len() == 0 {
        seq![]
    } else {
        let r = listed_spec(reqs.drop_last(), drawn, map);
        if lists(reqs.last(), drawn, map) {
            r.push(reqs.last())
        } else {
            r
        }
    }
}

/// The requirement the tree draws as `row`'s connector.
pub open spec fn drawn_req(row: PackV, packs: Seq<PackV>) -> Option<ReqV> {
    match parent_req(row, packs) {
        Some(k) => Some(row.requires[k]),
        None => None,
    }
}

/// The map's path.
pub open spec fn map_path(packs: Seq<PackV>) -> Option<Seq<char>> {
    match map_from(packs, 0) {
        Some(i) => Some(packs[i].path),
        None => None,
    }
}

pub open spec fn ref_views(v: Seq<&Requirement>) -> Seq<ReqV> {
    Seq::new(v.len(), |i: int| v[i]@)
}

/// The requirements a card lists: every one that is not met, and the met ones the tree
/// does not already draw — neither its parent's connector nor the map every menu pack
/// needs.
pub fn listed_requirements<'a>(row: &'a PackRow, report: &PacksReport) -> (r: Vec<&'a Requirement>)
    ensures
        ref_views(r@) == listed_spec(
            row@.requires,
            drawn_req(row@, pack_views(report.packs@)),
            map_path(pack_views(report.packs@)),
        ),
{
    let ghost packs = pack_views(report.packs@);
    let drawn = match parent_of(row, report.packs.as_slice()) {
        Some((_, r)) => Some(r),
        None => None,
    };
    let map = match report.map() {
        Some(m) => Some(m.path.as_str()),
        None => None,
    };
    let ghost dv = drawn_req(row@, packs);
    let ghost mv = map_path(packs);
    assert(match drawn {
        Some(d) => dv == Some(d@),
        None => dv is None,
    });
    proof {
        lemma_map_from(packs, 0);
    }
    assert(match map {
        Some(m) => mv == Some(m@),
        None => mv is None,
    });
    let mut out: Vec<&'a Requirement> = Vec::new();
    for i in 0..row.requires.len()
        invariant
            ref_views(out@) == listed_spec(row@.requires.take(i as int), dv, mv),
            match drawn {
                Some(d) => dv == Some(d@),
                None => dv is None,
            },
            match map {
                Some(m) => mv == Some(m@),
                None => mv is None,
            },
    {
        let r = &row.requires[i];
        assert(row@.requires.take(i + 1).drop_last() =~= row@.requires.take(i as int));
        assert(row@.requires.take(i + 1).last() == r@);
        let is_drawn = match drawn {
            Some(d) => req_eq(d, r),
            None => false,
        };
        let is_map = r.any_of.len() == 1 && match map {
            Some(m) => str_eq(r.any_of[0].as_str(), m),
            None => false,
        };
        proof {
            if r.any_of.len() == 1 {
                assert(r@.any_of[0] == r.any_of@[0]@);
            }
        }
        if !r.met || !(is_drawn || is_map) {
            let ghost before = ref_views(out@);
            out.push(r);
            assert(ref_views(out@) =~= before.push(r@));
        }
    }
    assert(row@.requires.take(row.requires.len() as int) =~= row@.requires);
    out
}

/// The word a line state reads as on a chip and in a sentence.
pub open spec fn word_of(line: PackLine) -> &'static str {
    match line {
        PackLine::Active => "active",
        PackLine::Ungated => "ungated",
        PackLine::Commented => "commented out",
        PackLine::Absent => "absent",
        PackLine::Forked => "forked",
        PackLine::Misplaced => "misplaced",
    }
}

/// The word a line state reads as on a chip and in a sentence.
pub fn line_word(line: PackLine) -> (r: &'static str)
    ensures
        r == word_of(line),
        r == match line {
            PackLine::Active => "active",
            PackLine::Ungated => "ungated",
            PackLine::Commented => "commented out",
            PackLine::Absent => "absent",
            PackLine::Forked => "forked",
            PackLine::Misplaced => "misplaced",
        },
{
    match line {
        PackLine::Active => "active",
        PackLine::Ungated => "ungated",
        PackLine::Commented => "commented out",
        PackLine::Absent => "absent",
        PackLine::Forked => "forked",
        PackLine::Misplaced => "misplaced",
    }
}

/// The chip a card shows for its line: its icon, whether it is in the error colour, and
/// its words — the line state, and the line where the file carries one.
pub fn line_chip_face(row: &PackRow) -> (r: (&'static str, bool, String))
    ensures
        r.0 == if row.deploys {
            "check_circle"
        } else {
            "radio_button_unchecked"
        },
        r.1 == (row.line == PackLine::Ungated || row.line == PackLine::Misplaced),
        r.2@ == match row.at_line {
            Some(at) => word_of(row.line)@ + " · line "@ + dec(at as nat),
            None => word_of(row.line)@,
        },
{
    let icon = if row.deploys {
        "check_circle"
    } else {
        "radio_button_unchecked"
    };
    let error = row.line == PackLine::Ungated || row.line == PackLine::Misplaced;
    let mut label = String::from_str(line_word(row.line));
    match row.at_line {
        Some(at) => {
            label.append(" · line ");
            label.append(dec_string(at as u128).as_str());
        },
        None => {},
    }
    (icon, error, label)
}

/// What an ungated line with gate `g` means and the edit that answers it.
pub open spec fn ungated_note(g: Seq<char>) -> Seq<char> {
    "No gate: this line carries no `when "@ + g + "`, so a no to `"@ + g
        + "` does not switch the pack off. Write `when "@ + g
        + "` on it so the choice decides the pack, or comment the line out to take the pack off."@
}

/// What a line state the chip marks in the error colour means, and the edit that answers
/// it: a sentence for `ungated` and for `misplaced`, `None` for every other state, which
/// the chip says in full, and `None` on a row that carries a finding of its own, because
/// satz's wording wins wherever satz speaks.
pub open spec fn line_note_spec(row: PackV) -> Option<Seq<char>> {
    if row.findings.len() > 0 {
        None
    } else {
        match (row.line, row.gate) {
            (PackLine::Ungated, Some(g)) => Some(ungated_note(g)),
            (PackLine::Ungated, None) => Some(
                "No gate: this line carries no `when`, so the file decides the pack and no question does. Write a `when <param>` on it to make it a choice, or comment the line out to take the pack off."@,
            ),
            (PackLine::Misplaced, _) => Some(
                "Out of place: this line stands outside the block the pack graph places the pack in. Move it into that block, or take the line out and switch the pack on here — satz then writes it where the graph places it."@,
            ),
            _ => None,
        }
    }
}

/// What a line state the chip marks in the error colour means, and the edit that answers
/// it: a sentence for `ungated` and for `misplaced`, `None` for every other state.
pub fn line_note(row: &PackRow) -> (r: Option<String>)
    ensures
        opt_str(r) == line_note_spec(row@),
{
    if row.findings.len() > 0 {
        return None;
    }
    match (row.line, &row.gate) {
        (PackLine::Ungated, Some(g)) => {
            let mut s = String::from_str("No gate: this line carries no `when ");
            s.append(g.as_str());
            s.append("`, so a no to `");
            s.append(g.as_str());
            s.append("` does not switch the pack off. Write `when ");
            s.append(g.as_str());
            s.append(
                "` on it so the choice decides the pack, or comment the line out to take the pack off.",
            );
            Some(s)
        },
        (PackLine::Ungated, None) => Some(
            String::from_str(
                "No gate: this line carries no `when`, so the file decides the pack and no question does. Write a `when <param>` on it to make it a choice, or comment the line out to take the pack off.",
            ),
        ),
        (PackLine::Misplaced, _) => Some(
            String::from_str(
                "Out of place: this line stands outside the block the pack graph places the pack in. Move it into that block, or take the line out and switch the pack on here — satz then writes it where the graph places it.",
            ),
        ),
        _ => None,
    }
}

/// What `gate` is in this estate, as satz reports it: its value, or `unset`, and
/// whether the estate answered it or the library's default gives it.
pub open spec fn gate_text_spec(row: PackV, gate: Seq<char>) -> Seq<char> {
    let value = match row.value {
        Some(true) => "true"@,
        Some(false) => "false"@,
        None => "unset"@,
    };
    match (row.answer, row.default) {
        (Some(a), _) => gate + " = "@ + value + " (answered "@ + a + ")"@,
        (None, Some(d)) => gate + " = "@ + value + " (default "@ + d + ")"@,
        (None, None) => gate + " = "@ + value,
    }
}

/// What `gate` is in this estate, as satz reports it: the value, and whether the estate
/// answered it or the library's default gives it.
pub fn gate_text(row: &PackRow, gate: &str) -> (r: String)
    ensures
        r@ == gate_text_spec(row@, gate@),
{
    let value = match row.value {
        Some(true) => "true",
        Some(false) => "false",
        None => "unset",
    };
    let mut s = String::from_str(gate);
    s.append(" = ");
    s.append(value);
    match (&row.answer, &row.default) {
        (Some(a), _) => {
            s.append(" (answered ");
            s.append(a.as_str());
            s.append(")");
        },
        (None, Some(d)) => {
            s.append(" (default ");
            s.append(d.as_str());
            s.append(")");
        },
        (None, None) => {},
    }
    s
}

/// Cutting links only shortens climbs: a climb through `q`, whose links are `p`'s with
/// some cut, is one through `p`.
proof fn lemma_reaches_after_cut(
    p: Seq<Option<(int, ReqV)>>,
    q: Seq<Option<(int, ReqV)>>,
    cur: Option<int>,
    t: int,
    f: nat,
)
    requires
        p.len() == q.len(),
        forall|j: int| 0 <= j < q.len() ==> #[trigger] q[j] == p[j] || q[j] is None,
    ensures
        reaches(q, cur, t, f) ==> reaches(p, cur, t, f),
    decreases f,
{
    if f > 0 {
        if let Some(c) = cur {
            if c != t && 0 <= c < q.len() {
                if q[c] == p[c] {
                    lemma_reaches_after_cut(p, q, up(p[c]), t, (f - 1) as nat);
                } else {
                    assert(!reaches(q, None, t, (f - 1) as nat));
                }
            }
        }
    }
}

proof fn lemma_no_loop_before(par: Seq<Option<(int, ReqV)>>, k: nat)
    requires
        k <= par.len(),
    ensures
        cut_loops(par, k).len() == par.len(),
        forall|i: int|
            0 <= i < k ==> !reaches(
                cut_loops(par, k),
                up(#[trigger] cut_loops(par, k)[i]),
                i,
                par.len(),
            ),
    decreases k,
{
    if k > 0 {
        lemma_no_loop_before(par, (k - 1) as nat);
        let p = cut_loops(par, (k - 1) as nat);
        let q = cut_loops(par, k);
        let last = k - 1;
        assert(forall|j: int| 0 <= j < q.len() ==> #[trigger] q[j] == p[j] || q[j] is None);
        assert forall|i: int| 0 <= i < k implies !reaches(q, up(#[trigger] q[i]), i, par.len()) by {
            if i == last {
                if reaches(p, up(p[i]), i, par.len()) {
                    assert(q[i] is None);
                    assert(!reaches(q, None, i, par.len()));
                }
            } else {
                assert(q[i] == p[i]);
                lemma_reaches_after_cut(p, q, up(p[i]), i, par.len());
            }
        }
    }
}

/// Once the loops are cut, climbing from any card through the cards it hangs from never
/// comes back to it: packs that need each other stay at the top where the loop closes,
/// and no card hangs below itself.
pub proof fn law_cut_links_have_no_loop(par: Seq<Option<(int, ReqV)>>, i: int)
    requires
        0 <= i < par.len(),
    ensures
        !reaches(cut_loops(par, par.len()), up(cut_loops(par, par.len())[i]), i, par.len()),
{
    lemma_no_loop_before(par, par.len());
}


/// A pack that is not the estate's map.
pub open spec fn not_map(p: PackV) -> bool {
    p.role != PackRole::EstateMap
}

/// A card, and every card hung below it at any depth, that is not the map.
pub open spec fn tree_avoids_map(n: NodeV) -> bool
    decreases n,
{
    &&& not_map(n.row)
    &&& forall|j: int|
        0 <= j < n.children.len() ==> {
            proof {
                assert(decreases_to!(n => n.children));
                assert(decreases_to!(n.children => n.children[j]));
                assert(decreases_to!(n.children[j] => n.children[j].node));
            }
            tree_avoids_map(#[trigger] n.children[j].node)
        }
}

/// What a section's grid holds at one place, with nothing of it the map.
pub open spec fn item_avoids_map(i: ItemV) -> bool {
    match i {
        ItemV::Cell(p) => not_map(p),
        ItemV::Tree(n) => tree_avoids_map(n),
    }
}

proof fn lemma_keep_avoids_map(rows: Seq<PackV>, lined: bool)
    ensures
        forall|k: int| 0 <= k < keep(rows, lined).len() ==> not_map(#[trigger] keep(rows, lined)[k]),
    decreases rows.len(),
{
    if rows.len() > 0 {
        let rest = keep(rows.drop_last(), lined);
        lemma_keep_avoids_map(rows.drop_last(), lined);
        let out = keep(rows, lined);
        assert forall|k: int| 0 <= k < out.len() implies not_map(#[trigger] out[k]) by {
            if k < rest.len() {
                assert(out[k] == rest[k]);
            }
        }
    }
}

proof fn lemma_insert_avoids_map(s: Seq<PackV>, x: PackV)
    requires
        forall|k: int| 0 <= k < s.len() ==> not_map(#[trigger] s[k]),
        not_map(x),
    ensures
        forall|k: int| 0 <= k < insert_by_line(s, x).len() ==> not_map(#[trigger] insert_by_line(s, x)[k]),
    decreases s.len(),
{
    if !(s.len() == 0 || line_key(s.last()) <= line_key(x)) {
        let p = s.drop_last();
        assert forall|k: int| 0 <= k < p.len() implies not_map(#[trigger] p[k]) by {
            assert(p[k] == s[k]);
        }
        lemma_insert_avoids_map(p, x);
        assert(not_map(s[s.len() - 1]));
        let q = insert_by_line(p, x);
        let out = insert_by_line(s, x);
        assert forall|k: int| 0 <= k < out.len() implies not_map(#[trigger] out[k]) by {
            if k < q.len() {
                assert(out[k] == q[k]);
            }
        }
    } else {
        let out = insert_by_line(s, x);
        assert forall|k: int| 0 <= k < out.len() implies not_map(#[trigger] out[k]) by {
            if k < s.len() {
                assert(out[k] == s[k]);
            }
        }
    }
}

proof fn lemma_sort_avoids_map(s: Seq<PackV>)
    requires
        forall|k: int| 0 <= k < s.len() ==> not_map(#[trigger] s[k]),
    ensures
        forall|k: int| 0 <= k < sort_by_line(s).len() ==> not_map(#[trigger] sort_by_line(s)[k]),
    decreases s.len(),
{
    if s.len() > 0 {
        let p = s.drop_last();
        assert forall|k: int| 0 <= k < p.len() implies not_map(#[trigger] p[k]) by {
            assert(p[k] == s[k]);
        }
        lemma_sort_avoids_map(p);
        assert(not_map(s[s.len() - 1]));
        lemma_insert_avoids_map(sort_by_line(p), s.last());
    }
}

/// Every pack of every section of `flat` is not the map.
pub open spec fn flat_avoids_map(flat: Seq<(Seq<char>, Seq<PackV>)>) -> bool {
    forall|g: int, k: int| 0 <= g < flat.len() && 0 <= k < flat[g].1.len() ==> not_map(#[trigger] flat[g].1[k])
}

proof fn lemma_group_avoids_map(s: Seq<PackV>, phases: Map<u32, String>)
    requires
        forall|k: int| 0 <= k < s.len() ==> not_map(#[trigger] s[k]),
    ensures
        flat_avoids_map(group_lines(s, phases)),
    decreases s.len(),
{
    if s.len() > 0 {
        let p = s.drop_last();
        assert forall|k: int| 0 <= k < p.len() implies not_map(#[trigger] p[k]) by {
            assert(p[k] == s[k]);
        }
        lemma_group_avoids_map(p, phases);
        let g = group_lines(p, phases);
        let r = s.last();
        assert(not_map(s[s.len() - 1]));
        let out = group_lines(s, phases);
        assert forall|a: int, k: int| 0 <= a < out.len() && 0 <= k < out[a].1.len() implies not_map(
            #[trigger] out[a].1[k],
        ) by {
            if has_phase(r, phases) {
                if a < g.len() {
                    assert(out[a] == g[a]);
                }
            } else if g.len() == 0 {
            } else if a < g.len() - 1 {
                assert(out[a] == g[a]);
            } else {
                assert(out[a].1 == g[a].1.push(r));
                if k < g[a].1.len() {
                    assert(out[a].1[k] == g[a].1[k]);
                }
            }
        }
    }
}

proof fn lemma_flat_avoids_map(rows: Seq<PackV>, phases: Map<u32, String>)
    ensures
        flat_avoids_map(flat_spec(rows, phases)),
{
    lemma_keep_avoids_map(rows, true);
    lemma_keep_avoids_map(rows, false);
    let lined = keep(rows, true);
    let absent = keep(rows, false);
    lemma_sort_avoids_map(lined);
    lemma_group_avoids_map(sort_by_line(lined), phases);
    let g = group_lines(sort_by_line(lined), phases);
    let f = flat_spec(rows, phases);
    assert forall|a: int, k: int| 0 <= a < f.len() && 0 <= k < f[a].1.len() implies not_map(
        #[trigger] f[a].1[k],
    ) by {
        if a < g.len() {
            assert(f[a] == g[a]);
        } else {
            assert(f[a].1 == absent);
        }
    }
}

proof fn lemma_entries_avoid_map(flat: Seq<(Seq<char>, Seq<PackV>)>)
    requires
        flat_avoids_map(flat),
    ensures
        forall|i: int| 0 <= i < entries_spec(flat).len() ==> not_map(#[trigger] entries_spec(flat)[i].1),
    decreases flat.len(),
{
    if flat.len() > 0 {
        let p = flat.drop_last();
        assert forall|a: int, k: int| 0 <= a < p.len() && 0 <= k < p[a].1.len() implies not_map(
            #[trigger] p[a].1[k],
        ) by {
            assert(p[a] == flat[a]);
        }
        lemma_entries_avoid_map(p);
        let e = entries_spec(flat);
        let a = entries_spec(p);
        let last = flat.len() - 1;
        assert forall|i: int| 0 <= i < e.len() implies not_map(#[trigger] e[i].1) by {
            if i < a.len() {
                assert(e[i] == a[i]);
            } else {
                assert(e[i].1 == flat[last].1[i - a.len()]);
            }
        }
    }
}

proof fn lemma_kids_in_range(par: Seq<Option<(int, ReqV)>>, i: int, m: int)
    ensures
        forall|j: int| 0 <= j < kids(par, i, m).len() ==> 0 <= #[trigger] kids(par, i, m)[j] < m,
    decreases m,
{
    if m > 0 {
        lemma_kids_in_range(par, i, m - 1);
        let r = kids(par, i, m - 1);
        let out = kids(par, i, m);
        assert forall|j: int| 0 <= j < out.len() implies 0 <= #[trigger] out[j] < m by {
            if j < r.len() {
                assert(out[j] == r[j]);
            }
        }
    }
}

proof fn lemma_roots_in_range(e: Seq<(int, PackV)>, par: Seq<Option<(int, ReqV)>>, s: int, m: int)
    ensures
        forall|j: int| 0 <= j < roots(e, par, s, m).len() ==> 0 <= #[trigger] roots(e, par, s, m)[j] < m,
    decreases m,
{
    if m > 0 {
        lemma_roots_in_range(e, par, s, m - 1);
        let r = roots(e, par, s, m - 1);
        let out = roots(e, par, s, m);
        assert forall|j: int| 0 <= j < out.len() implies 0 <= #[trigger] out[j] < m by {
            if j < r.len() {
                assert(out[j] == r[j]);
            }
        }
    }
}

proof fn lemma_node_avoids_map(
    e: Seq<(int, PackV)>,
    par: Seq<Option<(int, ReqV)>>,
    flat: Seq<(Seq<char>, Seq<PackV>)>,
    i: int,
    fuel: nat,
)
    requires
        0 <= i < e.len(),
        forall|k: int| 0 <= k < e.len() ==> not_map(#[trigger] e[k].1),
    ensures
        tree_avoids_map(node_spec(e, par, flat, i, fuel)),
    decreases fuel,
{
    let n = node_spec(e, par, flat, i, fuel);
    let ks = kids(par, i, e.len() as int);
    lemma_kids_in_range(par, i, e.len() as int);
    assert forall|j: int| 0 <= j < n.children.len() implies tree_avoids_map(
        #[trigger] n.children[j].node,
    ) by {
        let c = ks[j];
        assert(n.children[j] == branch_spec(e, par, flat, i, ks, j, fuel));
        lemma_node_avoids_map(e, par, flat, c, (fuel - 1) as nat);
    }
}

proof fn lemma_drop_empty_keeps(secs: Seq<SectionV>)
    requires
        forall|s: int, j: int|
            0 <= s < secs.len() && 0 <= j < secs[s].items.len() ==> item_avoids_map(
                #[trigger] secs[s].items[j],
            ),
    ensures
        ({
            let d = drop_empty(secs);
            forall|s: int, j: int|
                0 <= s < d.len() && 0 <= j < d[s].items.len() ==> item_avoids_map(#[trigger] d[s].items[j])
        }),
    decreases secs.len(),
{
    if secs.len() > 0 {
        let p = secs.drop_last();
        assert forall|s: int, j: int| 0 <= s < p.len() && 0 <= j < p[s].items.len() implies item_avoids_map(
            #[trigger] p[s].items[j],
        ) by {
            assert(p[s] == secs[s]);
        }
        lemma_drop_empty_keeps(p);
        let d = drop_empty(secs);
        let dp = drop_empty(p);
        assert forall|s: int, j: int| 0 <= s < d.len() && 0 <= j < d[s].items.len() implies item_avoids_map(
            #[trigger] d[s].items[j],
        ) by {
            if s < dp.len() {
                assert(d[s] == dp[s]);
            } else {
                assert(d[s] == secs[secs.len() - 1]);
            }
        }
    }
}

/// The estate's map heads the page and is in no section: no card of any section, nor
/// any card hung below one, is the map.
pub proof fn law_the_map_is_in_no_section(rows: Seq<PackV>, phases: Map<u32, String>)
    ensures
        ({
            let secs = sections_spec(rows, phases);
            forall|s: int, j: int|
                0 <= s < secs.len() && 0 <= j < secs[s].items.len() ==> item_avoids_map(
                    #[trigger] secs[s].items[j],
                )
        }),
{
    let flat = flat_spec(rows, phases);
    let e = entries_spec(flat);
    let par = hung(e, rows);
    lemma_flat_avoids_map(rows, phases);
    lemma_entries_avoid_map(flat);
    let all = Seq::new(
        flat.len(),
        |s: int|
            SectionV {
                header: flat[s].0,
                items: Seq::new(
                    roots(e, par, s, e.len() as int).len(),
                    |j: int| item_spec(e, par, flat, roots(e, par, s, e.len() as int)[j]),
                ),
            },
    );
    assert forall|s: int, j: int| 0 <= s < all.len() && 0 <= j < all[s].items.len() implies item_avoids_map(
        #[trigger] all[s].items[j],
    ) by {
        let rs = roots(e, par, s, e.len() as int);
        lemma_roots_in_range(e, par, s, e.len() as int);
        let i = rs[j];
        assert(all[s].items[j] == item_spec(e, par, flat, i));
        lemma_node_avoids_map(e, par, flat, i, e.len());
    }
    lemma_drop_empty_keeps(all);
    assert(sections_spec(rows, phases) == drop_empty(all));
}


/// What a card's requirement line says: whether it is met, the packs any of which meets
/// it joined with `or`, the params a data requirement reads, and, for an unmet
/// requirement one pack meets, that pack, whose switch the line offers.
pub fn requirement_line(req: &Requirement) -> (r: (bool, String, Option<String>, Option<String>))
    ensures
        r.0 == req.met,
        r.1@ == join(req@.any_of, " or "@),
        match r.2 {
            Some(p) => req.kind == RequirementKind::Data && req@.params.len() > 0 && p@ == join(
                req@.params,
                ", "@,
            ),
            None => !(req.kind == RequirementKind::Data && req@.params.len() > 0),
        },
        match r.3 {
            Some(one) => !req.met && req@.any_of.len() == 1 && one@ == req@.any_of[0],
            None => !(!req.met && req@.any_of.len() == 1),
        },
{
    assert(req.any_of.deep_view() =~= req@.any_of);
    assert(req.params.deep_view() =~= req@.params);
    let packs = join_strings(&req.any_of, " or ");
    let params = if req.kind == RequirementKind::Data && req.params.len() > 0 {
        Some(join_strings(&req.params, ", "))
    } else {
        None
    };
    let one = if !req.met && req.any_of.len() == 1 {
        Some(req.any_of[0].clone())
    } else {
        None
    };
    (req.met, packs, params, one)
}

proof fn lemma_drop_empty_nonempty(secs: Seq<SectionV>)
    ensures
        forall|s: int| 0 <= s < drop_empty(secs).len() ==> (#[trigger] drop_empty(secs)[s]).items.len() > 0,
    decreases secs.len(),
{
    if secs.len() > 0 {
        lemma_drop_empty_nonempty(secs.drop_last());
        let d = drop_empty(secs);
        let dp = drop_empty(secs.drop_last());
        assert forall|s: int| 0 <= s < d.len() implies (#[trigger] d[s]).items.len() > 0 by {
            if s < dp.len() {
                assert(d[s] == dp[s]);
            }
        }
    }
}

/// No section of the page is empty: a section left with nothing is dropped.
pub proof fn law_every_section_holds_a_card(rows: Seq<PackV>, phases: Map<u32, String>)
    ensures
        forall|s: int|
            0 <= s < sections_spec(rows, phases).len() ==> (#[trigger] sections_spec(rows, phases)[s]).items.len()
                > 0,
{
    let flat = flat_spec(rows, phases);
    let e = entries_spec(flat);
    let par = hung(e, rows);
    let all = Seq::new(
        flat.len(),
        |s: int|
            SectionV {
                header: flat[s].0,
                items: Seq::new(
                    roots(e, par, s, e.len() as int).len(),
                    |j: int| item_spec(e, par, flat, roots(e, par, s, e.len() as int)[j]),
                ),
            },
    );
    assert(sections_spec(rows, phases) == drop_empty(all));
    lemma_drop_empty_nonempty(all);
}

/// A finding that no row of `packs` can carry: it names no pack, or a pack no row is for.
pub open spec fn on_no_card(f: FindingV, packs: Seq<PackV>) -> bool {
    match f.subject {
        None => true,
        Some(s) => forall|k: int| 0 <= k < packs.len() ==> (#[trigger] packs[k]).path != s,
    }
}

proof fn lemma_loose_is_filter(fs: Seq<FindingV>, packs: Seq<PackV>)
    ensures
        loose_spec(fs, packs) == fs.filter(|f: FindingV| on_no_card(f, packs)),
    decreases fs.len(),
{
    reveal(Seq::filter);
    if fs.len() > 0 {
        lemma_loose_is_filter(fs.drop_last(), packs);
        let f = fs.last();
        match f.subject {
            None => {},
            Some(s) => {
                lemma_path_from(packs, s, 0);
                if on_no_card(f, packs) {
                    if let Some(i) = path_from(packs, s, 0) {
                        assert(packs[i].path == s);
                    }
                }
            },
        }
        assert(is_loose(f, packs) == on_no_card(f, packs));
    }
}

/// The loose findings are exactly the report's findings that no card can carry, in the
/// report's order: every finding about no pack, or about a pack the report has no row
/// for, is listed loose, and no finding about a pack with a row is.
pub proof fn law_a_finding_without_a_card_is_loose(fs: Seq<FindingV>, packs: Seq<PackV>)
    ensures
        loose_spec(fs, packs) == fs.filter(|f: FindingV| on_no_card(f, packs)),
        forall|i: int|
            0 <= i < fs.len() && on_no_card(#[trigger] fs[i], packs) ==> loose_spec(fs, packs).contains(fs[i]),
        forall|f: FindingV| #[trigger] loose_spec(fs, packs).contains(f) ==> on_no_card(f, packs) && fs.contains(f),
{
    lemma_loose_is_filter(fs, packs);
    let p = |f: FindingV| on_no_card(f, packs);
    assert forall|i: int| 0 <= i < fs.len() && on_no_card(#[trigger] fs[i], packs) implies loose_spec(
        fs,
        packs,
    ).contains(fs[i]) by {
        fs.lemma_filter_contains(p, i);
    }
    assert forall|f: FindingV| #[trigger] loose_spec(fs, packs).contains(f) implies on_no_card(f, packs)
        && fs.contains(f) by {
        let j = choose|j: int| 0 <= j < fs.filter(p).len() && fs.filter(p)[j] == f;
        fs.lemma_filter_pred(p, j);
        fs.lemma_filter_contains_rev(p, f);
    }
}

} // verus!
