//! The reports satz writes about an estate, as the views read them: the questions its
//! packs declare. Each row is plain data with a view of the same shape.

use vstd::prelude::*;
use crate::json::{Json, JsonV, compact};

verus! {

/// What a choice that is not required binds when it takes none of its options.
pub const NO_BRANCH: &'static str = "none";

/// The label of the chip that binds [`NO_BRANCH`].
pub const NONE_LABEL: &'static str = "None";

/// A question asks for a param's value, or for one of a choice's options.
#[derive(Debug, Clone, Copy, PartialEq, Eq, Structural)]
pub enum QuestionKind {
    Param,
    Oneof,
}

/// Where a question stands in the estate.
#[derive(Debug, Clone, Copy, PartialEq, Eq, Structural)]
pub enum QuestionState {
    Unanswered,
    Answered,
    /// its `ask_when` is false: the estate is not asked it
    NotApplicable,
}

/// What changing an answer later takes.
#[derive(Debug, Clone, Copy, PartialEq, Eq, Structural)]
pub enum Reversal {
    Edit,
    StateSurgery,
    Recreate,
}

/// How far a wrong answer reaches.
#[derive(Debug, Clone, Copy, PartialEq, Eq, Structural)]
pub enum Blast {
    /// none: a wrong answer reaches nothing deployed
    Nothing,
    Low,
    High,
}

/// One option of a choice: the param it binds true, its label, whether the estate binds
/// it, and why a customer would take it.
#[derive(Debug)]
pub struct QuestionOption {
    pub param: String,
    pub label: String,
    pub selected: bool,
    pub why: Option<String>,
}

pub struct OptionV {
    pub param: Seq<char>,
    pub label: Seq<char>,
    pub selected: bool,
    pub why: Option<Seq<char>>,
}

pub open spec fn opt_str(s: Option<String>) -> Option<Seq<char>> {
    match s {
        Some(t) => Some(t@),
        None => None,
    }
}

pub open spec fn opt_json(v: Option<Json>) -> Option<JsonV> {
    match v {
        Some(j) => Some(j@),
        None => None,
    }
}

/// A copy of an optional string.
pub fn copy_opt_str(s: &Option<String>) -> (r: Option<String>)
    ensures
        opt_str(r) == opt_str(*s),
{
    match s {
        Some(t) => Some(t.clone()),
        None => None,
    }
}

impl View for QuestionOption {
    type V = OptionV;

    open spec fn view(&self) -> OptionV {
        OptionV {
            param: self.param@,
            label: self.label@,
            selected: self.selected,
            why: opt_str(self.why),
        }
    }
}

impl Clone for QuestionOption {
    fn clone(&self) -> (r: Self)
        ensures
            r@ == self@,
    {
        QuestionOption {
            param: self.param.clone(),
            label: self.label.clone(),
            selected: self.selected,
            why: copy_opt_str(&self.why),
        }
    }
}

/// One question of the questions report. `default` is the value the pack offers,
/// `current` the one the estate holds; `empty` says what an empty string means where the
/// question says so.
#[derive(Debug)]
pub struct QuestionRow {
    pub subject: String,
    pub kind: QuestionKind,
    pub prompt: String,
    pub why: Option<String>,
    pub reversal: Reversal,
    pub blast: Blast,
    pub state: QuestionState,
    pub blocking: bool,
    pub required: bool,
    pub default: Option<Json>,
    pub current: Option<Json>,
    pub recommend: Option<String>,
    pub empty: Option<String>,
    pub options: Vec<QuestionOption>,
    pub pack: String,
    pub pack_description: String,
    pub from: String,
}

pub struct QuestionV {
    pub subject: Seq<char>,
    pub kind: QuestionKind,
    pub prompt: Seq<char>,
    pub why: Option<Seq<char>>,
    pub reversal: Reversal,
    pub blast: Blast,
    pub state: QuestionState,
    pub blocking: bool,
    pub required: bool,
    pub default: Option<JsonV>,
    pub current: Option<JsonV>,
    pub recommend: Option<Seq<char>>,
    pub empty: Option<Seq<char>>,
    pub options: Seq<OptionV>,
    pub pack: Seq<char>,
    pub pack_description: Seq<char>,
    pub from: Seq<char>,
}

pub open spec fn option_views(opts: Seq<QuestionOption>) -> Seq<OptionV> {
    Seq::new(opts.len(), |i: int| opts[i]@)
}

impl View for QuestionRow {
    type V = QuestionV;

    open spec fn view(&self) -> QuestionV {
        QuestionV {
            subject: self.subject@,
            kind: self.kind,
            prompt: self.prompt@,
            why: opt_str(self.why),
            reversal: self.reversal,
            blast: self.blast,
            state: self.state,
            blocking: self.blocking,
            required: self.required,
            default: opt_json(self.default),
            current: opt_json(self.current),
            recommend: opt_str(self.recommend),
            empty: opt_str(self.empty),
            options: option_views(self.options@),
            pack: self.pack@,
            pack_description: self.pack_description@,
            from: self.from@,
        }
    }
}

fn copy_opt_json(v: &Option<Json>) -> (r: Option<Json>)
    ensures
        opt_json(r) == opt_json(*v),
{
    match v {
        Some(j) => Some(j.clone()),
        None => None,
    }
}

impl Clone for QuestionRow {
    fn clone(&self) -> (r: Self)
        ensures
            r@ == self@,
    {
        let mut options: Vec<QuestionOption> = Vec::new();
        for i in 0..self.options.len()
            invariant
                options.len() == i,
                forall|k: int| 0 <= k < i ==> #[trigger] options@[k]@ == self.options@[k]@,
        {
            options.push(self.options[i].clone());
        }
        assert(option_views(options@) =~= option_views(self.options@));
        QuestionRow {
            subject: self.subject.clone(),
            kind: self.kind,
            prompt: self.prompt.clone(),
            why: copy_opt_str(&self.why),
            reversal: self.reversal,
            blast: self.blast,
            state: self.state,
            blocking: self.blocking,
            required: self.required,
            default: copy_opt_json(&self.default),
            current: copy_opt_json(&self.current),
            recommend: copy_opt_str(&self.recommend),
            empty: copy_opt_str(&self.empty),
            options,
            pack: self.pack.clone(),
            pack_description: self.pack_description.clone(),
            from: self.from.clone(),
        }
    }
}

/// The views of `rows`, in order.
pub open spec fn rows(qs: Seq<QuestionRow>) -> Seq<QuestionV> {
    Seq::new(qs.len(), |i: int| qs[i]@)
}

/// A choice that is not required offers [`NO_BRANCH`] beside its options.
pub open spec fn offers_none(q: QuestionV) -> bool {
    q.kind == QuestionKind::Oneof && !q.required
}

/// The first of `opts` from `k` on that the estate binds.
pub open spec fn selected_from(opts: Seq<OptionV>, k: int) -> Option<int>
    decreases opts.len() - k,
{
    if k < 0 || k >= opts.len() {
        None
    } else if opts[k].selected {
        Some(k)
    } else {
        selected_from(opts, k + 1)
    }
}

pub proof fn lemma_selected_from(opts: Seq<OptionV>, k: int)
    ensures
        selected_from(opts, k) matches Some(i) ==> k <= i < opts.len() && opts[i].selected,
    decreases opts.len() - k,
{
    if 0 <= k < opts.len() && !opts[k].selected {
        lemma_selected_from(opts, k + 1);
    }
}

/// The option the estate binds: the first option it binds true, else — for a choice
/// that is not required and is answered — [`NO_BRANCH`].
pub open spec fn bound_option_spec(q: QuestionV) -> Option<Seq<char>> {
    match selected_from(q.options, 0) {
        Some(k) => Some(q.options[k].param),
        None => if offers_none(q) && q.state == QuestionState::Answered {
            Some(NO_BRANCH@)
        } else {
            None
        },
    }
}

/// The label of the option the estate binds, [`NONE_LABEL`] for [`NO_BRANCH`].
pub open spec fn bound_label_spec(q: QuestionV) -> Option<Seq<char>> {
    match selected_from(q.options, 0) {
        Some(k) => Some(q.options[k].label),
        None => if offers_none(q) && q.state == QuestionState::Answered {
            Some(NONE_LABEL@)
        } else {
            None
        },
    }
}

/// The value the report offers: the estate's own, else the pack's default.
pub open spec fn offered_spec(q: QuestionV) -> Option<JsonV> {
    match q.current {
        Some(v) => Some(v),
        None => q.default,
    }
}

/// A value as a question shows it: a string as its text — an empty one quoted, with
/// what the question says it means — anything else as compact JSON.
pub open spec fn row_shown(q: QuestionV, v: JsonV) -> Seq<char> {
    match v {
        JsonV::Str(s) => if s.len() == 0 {
            match q.empty {
                Some(m) => seq!['"', '"', ' ', '('] + m + seq![')'],
                None => seq!['"', '"'],
            }
        } else {
            s
        },
        _ => crate::json::json_compact(v),
    }
}

impl QuestionRow {
    /// Whether the question offers [`NO_BRANCH`]: a choice that is not required.
    pub fn offers_none(&self) -> (r: bool)
        ensures
            r == offers_none(self@),
    {
        self.kind == QuestionKind::Oneof && !self.required
    }

    fn selected_index(&self) -> (r: Option<usize>)
        ensures
            match r {
                Some(k) => selected_from(self@.options, 0) == Some(k as int) && k
                    < self.options.len(),
                None => selected_from(self@.options, 0) is None,
            },
    {
        proof {
            lemma_selected_from(self@.options, 0);
        }
        let mut k: usize = 0;
        while k < self.options.len()
            invariant
                k <= self.options.len(),
                selected_from(self@.options, 0) == selected_from(self@.options, k as int),
            decreases self.options.len() - k,
        {
            if self.options[k].selected {
                return Some(k);
            }
            k = k + 1;
        }
        None
    }

    /// The option the estate binds, [`NO_BRANCH`] for a choice answered with none.
    pub fn bound_option(&self) -> (r: Option<&str>)
        ensures
            match r {
                Some(s) => bound_option_spec(self@) == Some(s@),
                None => bound_option_spec(self@) is None,
            },
    {
        match self.selected_index() {
            Some(k) => Some(self.options[k].param.as_str()),
            None => if self.offers_none() && self.state == QuestionState::Answered {
                Some(NO_BRANCH)
            } else {
                None
            },
        }
    }

    /// The label of the option the estate binds.
    pub fn bound_label(&self) -> (r: Option<String>)
        ensures
            opt_str(r) == bound_label_spec(self@),
    {
        match self.selected_index() {
            Some(k) => Some(self.options[k].label.clone()),
            None => if self.offers_none() && self.state == QuestionState::Answered {
                Some(String::from_str(NONE_LABEL))
            } else {
                None
            },
        }
    }

    /// The value the report offers: the estate's own, else the pack's default.
    pub fn offered(&self) -> (r: Option<&Json>)
        ensures
            opt_json(match r {
                Some(j) => Some(*j),
                None => None,
            }) == offered_spec(self@),
    {
        match &self.current {
            Some(v) => Some(v),
            None => match &self.default {
                Some(v) => Some(v),
                None => None,
            },
        }
    }

    /// `v` as the question shows it.
    pub fn shown(&self, v: &Json) -> (r: String)
        ensures
            r@ == row_shown(self@, v@),
    {
        match v {
            Json::Str(s) => {
                if s.as_str().is_empty() {
                    let mut out = String::new();
                    out.push('"');
                    out.push('"');
                    match &self.empty {
                        Some(m) => {
                            out.push(' ');
                            out.push('(');
                            out.append(m.as_str());
                            out.push(')');
                        },
                        None => {},
                    }
                    out
                } else {
                    s.clone()
                }
            },
            _ => compact(v),
        }
    }
}

/// The counts the questions report closes with.
#[derive(Debug, Clone, Copy, PartialEq, Eq, Default)]
pub struct QuestionsSummary {
    pub total: usize,
    pub answered: usize,
    pub unanswered: usize,
    pub not_applicable: usize,
    pub blocking: usize,
    pub one_way_doors: usize,
    pub complete: bool,
}

/// `satz_questions`: the estate's questions and their counts.
#[derive(Debug)]
pub struct QuestionsReport {
    pub estate: String,
    pub questions: Vec<QuestionRow>,
    pub summary: QuestionsSummary,
}

/// What a pack is to the estate: the estate map, the core pack, or a pack of the menu.
#[derive(Debug, Clone, Copy, PartialEq, Eq, Structural)]
pub enum PackRole {
    EstateMap,
    Core,
    Pack,
}

/// How the estate file carries a pack's `use` line.
#[derive(Debug, Clone, Copy, PartialEq, Eq, Structural)]
pub enum PackLine {
    Active,
    Ungated,
    Commented,
    Absent,
    Forked,
    Misplaced,
}

/// What a requirement of a pack rests on.
#[derive(Debug, Clone, Copy, PartialEq, Eq, Structural)]
pub enum RequirementKind {
    Gate,
    Data,
    Requires,
}

/// How grave a finding is.
#[derive(Debug, Clone, Copy, PartialEq, Eq, Structural)]
pub enum FindingSeverity {
    Error,
    Warning,
    Info,
}

/// One requirement of a pack: the packs any one of which meets it, the params it reads,
/// and whether the estate meets it.
#[derive(Debug, PartialEq)]
pub struct Requirement {
    pub kind: RequirementKind,
    pub any_of: Vec<String>,
    pub params: Vec<String>,
    pub met: bool,
}

pub struct ReqV {
    pub kind: RequirementKind,
    pub any_of: Seq<Seq<char>>,
    pub params: Seq<Seq<char>>,
    pub met: bool,
}

/// The characters of each string of `v`.
pub open spec fn strs(v: Seq<String>) -> Seq<Seq<char>> {
    Seq::new(v.len(), |i: int| v[i]@)
}

/// A copy of a list of strings.
pub fn copy_strs(v: &Vec<String>) -> (r: Vec<String>)
    ensures
        strs(r@) == strs(v@),
{
    let mut out: Vec<String> = Vec::new();
    for i in 0..v.len()
        invariant
            out.len() == i,
            forall|k: int| 0 <= k < i ==> #[trigger] out@[k]@ == v@[k]@,
    {
        out.push(v[i].clone());
    }
    assert(strs(out@) =~= strs(v@));
    out
}

/// Whether two lists hold the same strings in the same order.
pub fn strs_eq(a: &Vec<String>, b: &Vec<String>) -> (r: bool)
    ensures
        r == (strs(a@) == strs(b@)),
{
    if a.len() != b.len() {
        assert(strs(a@).len() != strs(b@).len());
        return false;
    }
    for i in 0..a.len()
        invariant
            a.len() == b.len(),
            forall|k: int| 0 <= k < i ==> #[trigger] a@[k]@ == b@[k]@,
    {
        if a[i] != b[i] {
            assert(strs(a@)[i as int] != strs(b@)[i as int]);
            return false;
        }
    }
    assert(strs(a@) =~= strs(b@));
    true
}

impl View for Requirement {
    type V = ReqV;

    open spec fn view(&self) -> ReqV {
        ReqV {
            kind: self.kind,
            any_of: strs(self.any_of@),
            params: strs(self.params@),
            met: self.met,
        }
    }
}

impl Clone for Requirement {
    fn clone(&self) -> (r: Self)
        ensures
            r@ == self@,
    {
        Requirement {
            kind: self.kind,
            any_of: copy_strs(&self.any_of),
            params: copy_strs(&self.params),
            met: self.met,
        }
    }
}

/// Whether two requirements are the same requirement.
pub fn req_eq(a: &Requirement, b: &Requirement) -> (r: bool)
    ensures
        r == (a@ == b@),
{
    a.kind == b.kind && a.met == b.met && strs_eq(&a.any_of, &b.any_of) && strs_eq(
        &a.params,
        &b.params,
    )
}

/// One pack of the pack report: its path, what it is to the estate, its gate and that
/// gate's value, how the file carries its line and where, whether it deploys, what it
/// requires, and the compile's findings about it.
#[derive(Debug, PartialEq)]
pub struct PackRow {
    pub path: String,
    pub role: PackRole,
    pub gate: Option<String>,
    pub gate_declared_in: Option<String>,
    pub answer: Option<String>,
    pub default: Option<String>,
    pub value: Option<bool>,
    pub line: PackLine,
    pub at_line: Option<u32>,
    /// the `use` line as the file writes it, where it differs from the path
    pub written: Option<String>,
    pub gated_on: Option<String>,
    pub deploys: bool,
    pub requires: Vec<Requirement>,
    /// the packs that need this one
    pub required_by: Vec<String>,
    /// the packs this one excludes
    pub excludes: Vec<String>,
    /// why the line is written by hand and never by satz
    pub by_hand: Option<String>,
    pub findings: Vec<String>,
}

pub struct PackV {
    pub path: Seq<char>,
    pub role: PackRole,
    pub gate: Option<Seq<char>>,
    pub gate_declared_in: Option<Seq<char>>,
    pub answer: Option<Seq<char>>,
    pub default: Option<Seq<char>>,
    pub value: Option<bool>,
    pub line: PackLine,
    pub at_line: Option<u32>,
    pub written: Option<Seq<char>>,
    pub gated_on: Option<Seq<char>>,
    pub deploys: bool,
    pub requires: Seq<ReqV>,
    pub required_by: Seq<Seq<char>>,
    pub excludes: Seq<Seq<char>>,
    pub by_hand: Option<Seq<char>>,
    pub findings: Seq<Seq<char>>,
}

pub open spec fn req_views(v: Seq<Requirement>) -> Seq<ReqV> {
    Seq::new(v.len(), |i: int| v[i]@)
}

impl View for PackRow {
    type V = PackV;

    open spec fn view(&self) -> PackV {
        PackV {
            path: self.path@,
            role: self.role,
            gate: opt_str(self.gate),
            gate_declared_in: opt_str(self.gate_declared_in),
            answer: opt_str(self.answer),
            default: opt_str(self.default),
            value: self.value,
            line: self.line,
            at_line: self.at_line,
            written: opt_str(self.written),
            gated_on: opt_str(self.gated_on),
            deploys: self.deploys,
            requires: req_views(self.requires@),
            required_by: strs(self.required_by@),
            excludes: strs(self.excludes@),
            by_hand: opt_str(self.by_hand),
            findings: strs(self.findings@),
        }
    }
}

impl Clone for PackRow {
    fn clone(&self) -> (r: Self)
        ensures
            r@ == self@,
    {
        let mut reqs: Vec<Requirement> = Vec::new();
        for i in 0..self.requires.len()
            invariant
                reqs.len() == i,
                forall|k: int| 0 <= k < i ==> #[trigger] reqs@[k]@ == self.requires@[k]@,
        {
            reqs.push(self.requires[i].clone());
        }
        assert(req_views(reqs@) =~= req_views(self.requires@));
        PackRow {
            path: self.path.clone(),
            role: self.role,
            gate: copy_opt_str(&self.gate),
            gate_declared_in: copy_opt_str(&self.gate_declared_in),
            answer: copy_opt_str(&self.answer),
            default: copy_opt_str(&self.default),
            value: self.value,
            line: self.line,
            at_line: self.at_line,
            written: copy_opt_str(&self.written),
            gated_on: copy_opt_str(&self.gated_on),
            deploys: self.deploys,
            requires: reqs,
            required_by: copy_strs(&self.required_by),
            excludes: copy_strs(&self.excludes),
            by_hand: copy_opt_str(&self.by_hand),
            findings: copy_strs(&self.findings),
        }
    }
}

/// The views of `rows`, in order.
pub open spec fn pack_views(rows: Seq<PackRow>) -> Seq<PackV> {
    Seq::new(rows.len(), |i: int| rows[i]@)
}

/// One finding of the compile: how grave it is, its kind, where it stands, the pack it is
/// about, what it says, and the command that answers it where satz names one.
#[derive(Debug, PartialEq)]
pub struct Finding {
    pub severity: FindingSeverity,
    pub kind: String,
    pub group: Option<String>,
    pub file: Option<String>,
    pub line: Option<u32>,
    pub subject: Option<String>,
    pub message: String,
    pub fix: Option<String>,
}

pub struct FindingV {
    pub severity: FindingSeverity,
    pub kind: Seq<char>,
    pub group: Option<Seq<char>>,
    pub file: Option<Seq<char>>,
    pub line: Option<u32>,
    pub subject: Option<Seq<char>>,
    pub message: Seq<char>,
    pub fix: Option<Seq<char>>,
}

impl View for Finding {
    type V = FindingV;

    open spec fn view(&self) -> FindingV {
        FindingV {
            severity: self.severity,
            kind: self.kind@,
            group: opt_str(self.group),
            file: opt_str(self.file),
            line: self.line,
            subject: opt_str(self.subject),
            message: self.message@,
            fix: opt_str(self.fix),
        }
    }
}

impl Clone for Finding {
    fn clone(&self) -> (r: Self)
        ensures
            r@ == self@,
    {
        Finding {
            severity: self.severity,
            kind: self.kind.clone(),
            group: copy_opt_str(&self.group),
            file: copy_opt_str(&self.file),
            line: self.line,
            subject: copy_opt_str(&self.subject),
            message: self.message.clone(),
            fix: copy_opt_str(&self.fix),
        }
    }
}

pub open spec fn finding_views(v: Seq<Finding>) -> Seq<FindingV> {
    Seq::new(v.len(), |i: int| v[i]@)
}

/// `satz_packs`: the estate's packs, the `use` lines the graph does not know, and the
/// compile's findings.
#[derive(Debug)]
pub struct PacksReport {
    pub estate: String,
    pub note: Option<String>,
    pub packs: Vec<PackRow>,
    pub unmanaged: Vec<String>,
    pub findings: Vec<Finding>,
}

/// The first of `rows` from `k` on that is the estate map.
pub open spec fn map_from(rows: Seq<PackV>, k: int) -> Option<int>
    decreases rows.len() - k,
{
    if k < 0 || k >= rows.len() {
        None
    } else if rows[k].role == PackRole::EstateMap {
        Some(k)
    } else {
        map_from(rows, k + 1)
    }
}

/// The first of `rows` from `k` on whose path is `path`.
pub open spec fn path_from(rows: Seq<PackV>, path: Seq<char>, k: int) -> Option<int>
    decreases rows.len() - k,
{
    if k < 0 || k >= rows.len() {
        None
    } else if rows[k].path == path {
        Some(k)
    } else {
        path_from(rows, path, k + 1)
    }
}

pub proof fn lemma_map_from(rows: Seq<PackV>, k: int)
    requires
        0 <= k,
    ensures
        map_from(rows, k) matches Some(i) ==> k <= i < rows.len() && rows[i].role
            == PackRole::EstateMap,
        map_from(rows, k) is None ==> forall|j: int|
            k <= j < rows.len() ==> #[trigger] rows[j].role != PackRole::EstateMap,
    decreases rows.len() - k,
{
    if k < rows.len() && rows[k].role != PackRole::EstateMap {
        lemma_map_from(rows, k + 1);
    }
}

pub proof fn lemma_path_from(rows: Seq<PackV>, path: Seq<char>, k: int)
    requires
        0 <= k,
    ensures
        path_from(rows, path, k) matches Some(i) ==> k <= i < rows.len() && rows[i].path == path,
        path_from(rows, path, k) is None ==> forall|j: int|
            k <= j < rows.len() ==> #[trigger] rows[j].path != path,
    decreases rows.len() - k,
{
    if k < rows.len() && rows[k].path != path {
        lemma_path_from(rows, path, k + 1);
    }
}

impl PacksReport {
    /// The estate map's row.
    pub fn map(&self) -> (r: Option<&PackRow>)
        ensures
            match map_from(pack_views(self.packs@), 0) {
                Some(i) => r matches Some(m) && m@ == self.packs@[i]@,
                None => r is None,
            },
    {
        proof {
            lemma_map_from(pack_views(self.packs@), 0);
        }
        let mut k: usize = 0;
        while k < self.packs.len()
            invariant
                k <= self.packs.len(),
                map_from(pack_views(self.packs@), 0) == map_from(
                    pack_views(self.packs@),
                    k as int,
                ),
            decreases self.packs.len() - k,
        {
            if self.packs[k].role == PackRole::EstateMap {
                return Some(&self.packs[k]);
            }
            k = k + 1;
        }
        None
    }

    /// The row of the pack at `path`.
    pub fn row(&self, path: &str) -> (r: Option<&PackRow>)
        ensures
            match path_from(pack_views(self.packs@), path@, 0) {
                Some(i) => r matches Some(m) && m@ == self.packs@[i]@,
                None => r is None,
            },
    {
        proof {
            lemma_path_from(pack_views(self.packs@), path@, 0);
        }
        let mut k: usize = 0;
        while k < self.packs.len()
            invariant
                k <= self.packs.len(),
                path_from(pack_views(self.packs@), path@, 0) == path_from(
                    pack_views(self.packs@),
                    path@,
                    k as int,
                ),
            decreases self.packs.len() - k,
        {
            if crate::text::str_eq(self.packs[k].path.as_str(), path) {
                return Some(&self.packs[k]);
            }
            k = k + 1;
        }
        None
    }
}

} // verus!
