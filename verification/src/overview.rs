//! The Overview: which estate this is, and what it still has to do. The card of owed
//! items is derived from the estate's own state every time it is drawn — the questions
//! report, the pack rows, the schema, the compile's findings, the HCL directory and git's
//! answer — so it cannot drift from the estate, and it is empty when nothing is owed.

use vstd::prelude::*;
use crate::json::{Json, JsonV, compact, json_compact};
use crate::model::{
    Diagnostic, EstateModel, HclBlock, HclState, ParamRow, ParamV, PartV, SchemaStatus,
    SourceV, SourceValue, StrPart, WorkTree, param_views,
};
use crate::reports::{
    PackLine, PackV, QuestionRow, QuestionState, QuestionV, QuestionsReport, lemma_map_from,
    map_from, opt_str, pack_views, rows,
};
use crate::text::{dec, dec_string, join, str_eq};

verus! {

/// The destinations of the window a row can send the operator to.
#[derive(Debug, Clone, Copy, PartialEq, Eq, Structural)]
pub enum Destination {
    Overview,
    Packs,
    Decisions,
    Estate,
    Checks,
    Deploy,
    Chat,
    Commands,
    Settings,
}

/// What a row offers to do about itself.
#[derive(Debug, Clone, PartialEq, Eq)]
pub enum Remedy {
    /// the destination where the work is done
    Go(Destination),
    /// a satz command, run in the app and streamed into the log below
    Run { label: &'static str, icon: &'static str, args: Vec<String> },
    /// a satz command handed to the OS terminal
    Terminal { label: &'static str, icon: &'static str, args: Vec<String> },
    /// `git init -b main`, `git add -A` and one commit in the estate directory, run when
    /// the operator presses it and never on the app's own account
    InitRepository,
    /// raise the notice dialog again, for the notices this session is holding
    ShowNotices,
}

pub enum RemedyV {
    Go(Destination),
    Run { label: &'static str, icon: &'static str, args: Seq<Seq<char>> },
    Terminal { label: &'static str, icon: &'static str, args: Seq<Seq<char>> },
    InitRepository,
    ShowNotices,
}

impl View for Remedy {
    type V = RemedyV;

    open spec fn view(&self) -> RemedyV {
        match self {
            Remedy::Go(d) => RemedyV::Go(*d),
            Remedy::Run { label, icon, args } => RemedyV::Run {
                label: *label,
                icon: *icon,
                args: crate::reports::strs(args@),
            },
            Remedy::Terminal { label, icon, args } => RemedyV::Terminal {
                label: *label,
                icon: *icon,
                args: crate::reports::strs(args@),
            },
            Remedy::InitRepository => RemedyV::InitRepository,
            Remedy::ShowNotices => RemedyV::ShowNotices,
        }
    }
}

/// One thing the estate still owes.
#[derive(Debug, Clone, PartialEq, Eq)]
pub struct Owed {
    /// stable, so a test names a row without matching its prose
    pub id: &'static str,
    pub icon: &'static str,
    pub title: String,
    pub detail: String,
    pub remedies: Vec<Remedy>,
}

pub struct OwedV {
    pub id: &'static str,
    pub icon: &'static str,
    pub title: Seq<char>,
    pub detail: Seq<char>,
    pub remedies: Seq<RemedyV>,
}

pub open spec fn remedy_views(v: Seq<Remedy>) -> Seq<RemedyV> {
    Seq::new(v.len(), |i: int| v[i]@)
}

impl View for Owed {
    type V = OwedV;

    open spec fn view(&self) -> OwedV {
        OwedV {
            id: self.id,
            icon: self.icon,
            title: self.title@,
            detail: self.detail@,
            remedies: remedy_views(self.remedies@),
        }
    }
}

pub open spec fn owed_views(v: Seq<Owed>) -> Seq<OwedV> {
    Seq::new(v.len(), |i: int| v[i]@)
}

/// What the estate is, as the Overview reads it.
pub struct Facts<'a> {
    /// the main file's name, as a satz command takes it
    pub estate: &'a str,
    pub deployment_mode: Option<&'a str>,
    pub hcl: HclState,
    /// whether git holds the estate file's directory in a work tree; `None` until the
    /// first reload has asked
    pub work_tree: Option<&'a WorkTree>,
    pub questions: Option<&'a QuestionsReport>,
    pub model: Option<&'a EstateModel>,
    pub diagnostics: &'a [Diagnostic],
    /// how many of the open notices the window is holding — the ones a write of this
    /// session opened, which its dialog can raise again
    pub held_notices: usize,
}

pub const OUTSIDE_HEAD: &'static str = "`satz merge-presets` edits the estate in place and uses git as the undo of that edit, so outside a repository it refuses and the estate cannot take preset updates. git says: ";

pub const OUTSIDE_TAIL: &'static str = "\nThe button runs `git init -b main`, `git add -A` and one commit in the estate directory, with the identity git is configured with. `git add -A` commits everything the directory's `.gitignore` does not exclude, which is why it refuses a directory without one.";

pub const NO_GIT_HEAD: &'static str = "`satz merge-presets` uses git as the undo of its edit to the estate and refuses without it, so the estate cannot take preset updates until git is installed and on the PATH. ";

pub const BOOTSTRAP_HEAD: &'static str = "This estate keeps its state in a bucket that `satz bootstrap` creates, together with the folder, the infrastructure project and the billing link. Nothing has been initialised against that bucket from this checkout, so day 0 is either still owed or was done elsewhere. The dry run answers it: it prints the plan, resolves the identity your credentials give and runs the permission pre-flight, and creates nothing. The real run creates that infrastructure as you — the IaC service account does not exist yet — so it stays in your terminal.\nsatz bootstrap ";

pub const ALL_DEFAULTS: &'static str = "Every one of them offers a default, so they can be bound in one pass.";

pub const BLOCKING_TAIL: &'static str = " of them have no usable default: a value has to be typed before the estate compiles.";

pub const MAP_OFF: &'static str = "`use \"presets/estate-map.satz\"` is commented out, so no pack asks this estate anything. Switching it on is what opens the questions the library declares.";

pub const MAP_ABSENT: &'static str = "The file carries no line for `presets/estate-map.satz`, the map of pack choices every other question hangs from. Switching it on in Packs writes the line where the pack graph places it.";

pub const UNGATED: &'static str = "A `use` line without its `when <gate>` deploys the pack whatever this estate answers, so no question switches it off. Packs names each line's missing gate.";

pub const SCHEMA_TAIL: &'static str = " holds none, so every attribute is untyped and locked: the app cannot tell a required argument from a typo. `satz update-schema` fetches the provider's own.";

pub const HCL_TRUST: &'static str = "An `hcl { … }` block is emitted verbatim and is opaque to the compliance plane: no claim can cover it, and the compile warns on every transpile. Reading it and writing `hcl trust \"<reason>\" { … }` around it settles the debt — the warning becomes a note carrying the reason. Counted here are this estate file's own blocks; the drawer carries the compile's finding for every one in the estate, packs included.";

pub const NOTICES: &'static str = "A pack that goes into an estate can name the command to run once it is on — `satz adopt` for the CIS org-policy packs, so every policy that is already live is in the state before the apply. The estate acknowledges each by binding the notice's param, and apply and bootstrap refuse while one that holds them up is open. The drawer carries each notice with its command and its param.";

pub const PREREQUISITES: &'static str = "The compile found roles this estate's own resource types need and its IaC service account is not granted, or APIs its infrastructure project does not enable. The drawer carries each of them; `satz update-prerequisites` writes them into the file.";

pub const NOT_TRANSPILED: &'static str = "There is no `main.tf` in the HCL directory: nothing has been emitted from this checkout, so nothing has been planned against it either. `satz transpile` writes it, `hcl-init` prepares the directory and `plan` is what reads it back.";

pub const NOT_PLANNED: &'static str = "The HCL is written and the directory is not initialised, and a plan needs an initialised directory — so nothing here has been through one. Whatever the estate says about the live organisation is still a claim. `hcl-init`, then `plan`.";

/// A row with nothing to offer but a destination.
pub open spec fn go_row(
    id: &'static str,
    icon: &'static str,
    title: Seq<char>,
    detail: Seq<char>,
    to: Destination,
) -> Seq<OwedV> {
    seq![OwedV { id, icon, title, detail, remedies: seq![RemedyV::Go(to)] }]
}

/// The repository row: owed outside a work tree, with git's words and the button that
/// makes one, or without git, with its error and nothing to press.
pub open spec fn repository_rows(f: Facts) -> Seq<OwedV> {
    match f.work_tree {
        Some(WorkTree::Outside(said)) => seq![
            OwedV {
                id: "repository",
                icon: "commit",
                title: "The estate is not in a git repository"@,
                detail: OUTSIDE_HEAD@ + said@ + OUTSIDE_TAIL@,
                remedies: seq![RemedyV::InitRepository],
            },
        ],
        Some(WorkTree::NoGit(error)) => seq![
            OwedV {
                id: "repository",
                icon: "commit",
                title: "git is not available"@,
                detail: NO_GIT_HEAD@ + error@,
                remedies: seq![],
            },
        ],
        _ => seq![],
    }
}

/// Whether the estate's deployment mode is `cloud`.
pub open spec fn is_cloud(f: Facts) -> bool {
    match f.deployment_mode {
        Some(m) => m@ == "cloud"@,
        None => false,
    }
}

/// Day 0: owed by a cloud estate whose HCL directory was never initialised, with the
/// dry run to check it and the real run handed to the terminal.
pub open spec fn bootstrap_rows(f: Facts) -> Seq<OwedV> {
    if is_cloud(f) && !f.hcl.initialised {
        seq![
            OwedV {
                id: "bootstrap",
                icon: "foundation",
                title: "Day 0 is not confirmed"@,
                detail: BOOTSTRAP_HEAD@ + f.estate@ + " --dry-run"@,
                remedies: seq![
                    RemedyV::Run {
                        label: "Check day 0",
                        icon: "fact_check",
                        args: seq!["bootstrap"@, f.estate@, "--dry-run"@],
                    },
                    RemedyV::Terminal {
                        label: "Bootstrap in your terminal",
                        icon: "open_in_new",
                        args: seq!["bootstrap"@, f.estate@],
                    },
                ],
            },
        ]
    } else {
        seq![]
    }
}

/// `n` things said in the singular or the plural: `one`, else the number between
/// `before` and `after`.
pub open spec fn counted(n: nat, one: Seq<char>, before: Seq<char>, after: Seq<char>) -> Seq<char> {
    if n == 1 {
        one
    } else {
        before + dec(n) + after
    }
}

/// The questions row: owed while the report counts unanswered questions, naming the
/// blocking ones.
pub open spec fn questions_rows(f: Facts) -> Seq<OwedV> {
    match f.questions {
        Some(q) => if q.summary.unanswered > 0 {
            go_row(
                "questions",
                "quiz",
                counted(
                    q.summary.unanswered as nat,
                    "1 question is unanswered"@,
                    ""@,
                    " questions are unanswered"@,
                ),
                if q.summary.blocking == 0 {
                    ALL_DEFAULTS@
                } else {
                    dec(q.summary.blocking as nat) + BLOCKING_TAIL@
                },
                Destination::Decisions,
            )
        } else {
            seq![]
        },
        None => seq![],
    }
}

/// How many of `rows` carry a line without its gate that satz says nothing about.
pub open spec fn ungated_count(rows: Seq<PackV>) -> nat
    decreases rows.len(),
{
    if rows.len() == 0 {
        0
    } else {
        ungated_count(rows.drop_last()) + if rows.last().line == PackLine::Ungated
            && rows.last().findings.len() == 0 {
            1nat
        } else {
            0nat
        }
    }
}

/// How many of `blocks` carry no reason.
pub open spec fn untrusted_count(blocks: Seq<HclBlock>) -> nat
    decreases blocks.len(),
{
    if blocks.len() == 0 {
        0
    } else {
        untrusted_count(blocks.drop_last()) + if !blocks.last().trusted {
            1nat
        } else {
            0nat
        }
    }
}

/// The rows the estate model answers: the map switched off or absent, the pack graph's
/// findings, the lines without their gate, a missing schema, and raw HCL not reviewed.
pub open spec fn model_rows(m: EstateModel) -> Seq<OwedV> {
    let packs = pack_views(m.packs.packs@);
    let map_row = match map_from(packs, 0) {
        Some(i) => if packs[i].line == PackLine::Commented {
            go_row(
                "map-off",
                "inventory_2",
                "The pack map is switched off"@,
                MAP_OFF@,
                Destination::Packs,
            )
        } else if packs[i].line == PackLine::Absent {
            go_row(
                "map-absent",
                "inventory_2",
                "The estate has no pack map"@,
                MAP_ABSENT@,
                Destination::Packs,
            )
        } else {
            seq![]
        },
        None => seq![],
    };
    let findings = m.packs.findings@;
    let findings_row = if findings.len() > 0 {
        go_row(
            "pack-findings",
            "account_tree",
            counted(
                findings.len(),
                "The pack graph has 1 finding"@,
                "The pack graph has "@,
                " findings"@,
            ),
            findings[0].message@,
            Destination::Packs,
        )
    } else {
        seq![]
    };
    let ungated = ungated_count(packs);
    let ungated_row = if ungated > 0 {
        go_row(
            "ungated-lines",
            "link_off",
            counted(ungated, "1 pack line has no gate"@, ""@, " pack lines have no gate"@),
            UNGATED@,
            Destination::Packs,
        )
    } else {
        seq![]
    };
    let schema_row = match m.schema {
        SchemaStatus::Missing(dir) => seq![
            OwedV {
                id: "schema",
                icon: "schema",
                title: "There is no provider schema"@,
                detail: dir@ + SCHEMA_TAIL@,
                remedies: seq![
                    RemedyV::Run {
                        label: "Run update-schema",
                        icon: "download",
                        args: seq!["update-schema"@],
                    },
                ],
            },
        ],
        _ => seq![],
    };
    let untrusted = untrusted_count(m.hcl@);
    let trust_row = if untrusted > 0 {
        go_row(
            "hcl-trust",
            "code_off",
            counted(
                untrusted,
                "1 raw HCL block has not been reviewed"@,
                ""@,
                " raw HCL blocks have not been reviewed"@,
            ),
            HCL_TRUST@,
            Destination::Estate,
        )
    } else {
        seq![]
    };
    map_row + findings_row + ungated_row + schema_row + trust_row
}

/// Whether a diagnostic is of kind `kind`.
pub open spec fn of_kind(d: Diagnostic, kind: Seq<char>) -> bool {
    opt_str(d.kind) == Some(kind)
}

/// How many of `ds` are of kind `kind`.
pub open spec fn kind_count(ds: Seq<Diagnostic>, kind: Seq<char>) -> nat
    decreases ds.len(),
{
    if ds.len() == 0 {
        0
    } else {
        kind_count(ds.drop_last(), kind) + if of_kind(ds.last(), kind) {
            1nat
        } else {
            0nat
        }
    }
}

/// The notices row: the compile's open notices, counted, with the dialog where this
/// session holds one of them.
pub open spec fn notices_rows(f: Facts) -> Seq<OwedV> {
    let n = kind_count(f.diagnostics@, "notice"@);
    if n > 0 {
        seq![
            OwedV {
                id: "notices",
                icon: "assignment_late",
                title: counted(
                    n,
                    "1 pack asks for a command to be run"@,
                    ""@,
                    " packs ask for a command to be run"@,
                ),
                detail: NOTICES@,
                remedies: if f.held_notices > 0 {
                    seq![RemedyV::ShowNotices]
                } else {
                    seq![]
                },
            },
        ]
    } else {
        seq![]
    }
}

/// The prerequisites row: the compile's finding that roles or APIs are not declared.
pub open spec fn prerequisites_rows(f: Facts) -> Seq<OwedV> {
    if kind_count(f.diagnostics@, "prerequisites"@) > 0 {
        go_row(
            "prerequisites",
            "admin_panel_settings",
            "The prerequisites are not declared"@,
            PREREQUISITES@,
            Destination::Checks,
        )
    } else {
        seq![]
    }
}

/// What proves a plan: nothing emitted, or emitted and never initialised.
pub open spec fn hcl_rows(f: Facts) -> Seq<OwedV> {
    if !f.hcl.transpiled {
        go_row(
            "not-transpiled",
            "build",
            "The estate has not been compiled here"@,
            NOT_TRANSPILED@,
            Destination::Deploy,
        )
    } else if !f.hcl.initialised {
        go_row(
            "not-planned",
            "preview",
            "Not verified by a plan"@,
            NOT_PLANNED@,
            Destination::Deploy,
        )
    } else {
        seq![]
    }
}

/// Everything the estate owes, in the order the work happens.
pub open spec fn owed_spec(f: Facts) -> Seq<OwedV> {
    repository_rows(f) + bootstrap_rows(f) + questions_rows(f) + match f.model {
        Some(m) => model_rows(*m),
        None => seq![],
    } + notices_rows(f) + prerequisites_rows(f) + hcl_rows(f)
}

fn extend(out: &mut Vec<Owed>, more: Vec<Owed>)
    ensures
        owed_views(final(out)@) == owed_views(old(out)@) + owed_views(more@),
{
    let mut more = more;
    let ghost a = out@;
    let ghost b = more@;
    out.append(&mut more);
    assert(owed_views(out@) =~= owed_views(a) + owed_views(b));
}

fn one(row: Owed) -> (r: Vec<Owed>)
    ensures
        owed_views(r@) == seq![row@],
{
    let mut v: Vec<Owed> = Vec::new();
    let ghost rv = row@;
    v.push(row);
    assert(owed_views(v@) =~= seq![rv]);
    v
}

fn none() -> (r: Vec<Owed>)
    ensures
        owed_views(r@) == Seq::<OwedV>::empty(),
{
    let v: Vec<Owed> = Vec::new();
    assert(owed_views(v@) =~= Seq::<OwedV>::empty());
    v
}

fn go(id: &'static str, icon: &'static str, title: String, detail: String, to: Destination) -> (r: Vec<Owed>)
    ensures
        owed_views(r@) == go_row(id, icon, title@, detail@, to),
{
    let mut remedies: Vec<Remedy> = Vec::new();
    remedies.push(Remedy::Go(to));
    assert(remedy_views(remedies@) =~= seq![RemedyV::Go(to)]);
    one(Owed { id, icon, title, detail, remedies })
}

fn strings(parts: &[&str]) -> (r: Vec<String>)
    ensures
        crate::reports::strs(r@) == Seq::new(parts@.len(), |i: int| parts@[i]@),
{
    let mut out: Vec<String> = Vec::new();
    for i in 0..parts.len()
        invariant
            crate::reports::strs(out@) == Seq::new(i as nat, |k: int| parts@[k]@),
    {
        let ghost before = crate::reports::strs(out@);
        out.push(String::from_str(parts[i]));
        assert(crate::reports::strs(out@) =~= before.push(parts@[i as int]@));
        assert(crate::reports::strs(out@) =~= Seq::new((i + 1) as nat, |k: int| parts@[k]@));
    }
    out
}

/// `n` things said in the singular or the plural.
fn counted_text(n: usize, one: &str, before: &str, after: &str) -> (r: String)
    ensures
        r@ == counted(n as nat, one@, before@, after@),
{
    if n == 1 {
        String::from_str(one)
    } else {
        let mut s = String::from_str(before);
        let d = dec_string(n as u128);
        s.append(d.as_str());
        s.append(after);
        s
    }
}

fn repository_owed(f: &Facts) -> (r: Vec<Owed>)
    ensures
        owed_views(r@) == repository_rows(*f),
{
    match f.work_tree {
        Some(WorkTree::Outside(said)) => {
            let mut d = String::from_str(OUTSIDE_HEAD);
            d.append(said.as_str());
            d.append(OUTSIDE_TAIL);
            let mut remedies: Vec<Remedy> = Vec::new();
            remedies.push(Remedy::InitRepository);
            assert(remedy_views(remedies@) =~= seq![RemedyV::InitRepository]);
            one(
                Owed {
                    id: "repository",
                    icon: "commit",
                    title: String::from_str("The estate is not in a git repository"),
                    detail: d,
                    remedies,
                },
            )
        },
        Some(WorkTree::NoGit(error)) => {
            let mut d = String::from_str(NO_GIT_HEAD);
            d.append(error.as_str());
            let remedies: Vec<Remedy> = Vec::new();
            assert(remedy_views(remedies@) =~= Seq::<RemedyV>::empty());
            one(
                Owed {
                    id: "repository",
                    icon: "commit",
                    title: String::from_str("git is not available"),
                    detail: d,
                    remedies,
                },
            )
        },
        _ => none(),
    }
}

fn bootstrap_owed(f: &Facts) -> (r: Vec<Owed>)
    ensures
        owed_views(r@) == bootstrap_rows(*f),
{
    let cloud = match f.deployment_mode {
        Some(m) => str_eq(m, "cloud"),
        None => false,
    };
    if !(cloud && !f.hcl.initialised) {
        return none();
    }
    let mut d = String::from_str(BOOTSTRAP_HEAD);
    d.append(f.estate);
    d.append(" --dry-run");
    let mut remedies: Vec<Remedy> = Vec::new();
    let check = ["bootstrap", f.estate, "--dry-run"];
    let hand = ["bootstrap", f.estate];
    let check_args = strings(&check);
    let hand_args = strings(&hand);
    assert(Seq::new(check@.len(), |i: int| check@[i]@) =~= seq!["bootstrap"@, f.estate@, "--dry-run"@]);
    assert(Seq::new(hand@.len(), |i: int| hand@[i]@) =~= seq!["bootstrap"@, f.estate@]);
    remedies.push(Remedy::Run { label: "Check day 0", icon: "fact_check", args: check_args });
    remedies.push(
        Remedy::Terminal { label: "Bootstrap in your terminal", icon: "open_in_new", args: hand_args },
    );
    assert(remedy_views(remedies@) =~= seq![
        RemedyV::Run {
            label: "Check day 0",
            icon: "fact_check",
            args: seq!["bootstrap"@, f.estate@, "--dry-run"@],
        },
        RemedyV::Terminal {
            label: "Bootstrap in your terminal",
            icon: "open_in_new",
            args: seq!["bootstrap"@, f.estate@],
        },
    ]);
    one(
        Owed {
            id: "bootstrap",
            icon: "foundation",
            title: String::from_str("Day 0 is not confirmed"),
            detail: d,
            remedies,
        },
    )
}

fn questions_owed(f: &Facts) -> (r: Vec<Owed>)
    ensures
        owed_views(r@) == questions_rows(*f),
{
    match f.questions {
        Some(q) => if q.summary.unanswered > 0 {
            let title = counted_text(
                q.summary.unanswered,
                "1 question is unanswered",
                "",
                " questions are unanswered",
            );
            let detail = if q.summary.blocking == 0 {
                String::from_str(ALL_DEFAULTS)
            } else {
                let mut d = dec_string(q.summary.blocking as u128);
                d.append(BLOCKING_TAIL);
                d
            };
            go("questions", "quiz", title, detail, Destination::Decisions)
        } else {
            none()
        },
        None => none(),
    }
}

fn ungated_in(rows: &Vec<crate::reports::PackRow>) -> (n: usize)
    ensures
        n as nat == ungated_count(pack_views(rows@)),
{
    let ghost v = pack_views(rows@);
    let mut n: usize = 0;
    for i in 0..rows.len()
        invariant
            v == pack_views(rows@),
            n as nat == ungated_count(v.take(i as int)),
            n <= i,
    {
        assert(v.take(i + 1).drop_last() =~= v.take(i as int));
        assert(v.take(i + 1).last() == rows@[i as int]@);
        if rows[i].line == PackLine::Ungated && rows[i].findings.len() == 0 {
            n = n + 1;
        }
    }
    assert(v.take(rows.len() as int) =~= v);
    n
}

fn untrusted_in(blocks: &Vec<HclBlock>) -> (n: usize)
    ensures
        n as nat == untrusted_count(blocks@),
{
    let mut n: usize = 0;
    for i in 0..blocks.len()
        invariant
            n as nat == untrusted_count(blocks@.take(i as int)),
            n <= i,
    {
        assert(blocks@.take(i + 1).drop_last() =~= blocks@.take(i as int));
        if !blocks[i].trusted {
            n = n + 1;
        }
    }
    assert(blocks@.take(blocks.len() as int) =~= blocks@);
    n
}

fn kind_in(ds: &[Diagnostic], kind: &str) -> (n: usize)
    ensures
        n as nat == kind_count(ds@, kind@),
{
    let mut n: usize = 0;
    for i in 0..ds.len()
        invariant
            n as nat == kind_count(ds@.take(i as int), kind@),
            n <= i,
    {
        assert(ds@.take(i + 1).drop_last() =~= ds@.take(i as int));
        let hit = match &ds[i].kind {
            Some(k) => str_eq(k.as_str(), kind),
            None => false,
        };
        if hit {
            n = n + 1;
        }
    }
    assert(ds@.take(ds.len() as int) =~= ds@);
    n
}

fn model_owed(m: &EstateModel) -> (r: Vec<Owed>)
    ensures
        owed_views(r@) == model_rows(*m),
{
    let ghost packs = pack_views(m.packs.packs@);
    proof {
        lemma_map_from(packs, 0);
    }
    let mut out = match m.packs.map() {
        Some(map) => if map.line == PackLine::Commented {
            go(
                "map-off",
                "inventory_2",
                String::from_str("The pack map is switched off"),
                String::from_str(MAP_OFF),
                Destination::Packs,
            )
        } else if map.line == PackLine::Absent {
            go(
                "map-absent",
                "inventory_2",
                String::from_str("The estate has no pack map"),
                String::from_str(MAP_ABSENT),
                Destination::Packs,
            )
        } else {
            none()
        },
        None => none(),
    };
    let findings = &m.packs.findings;
    if findings.len() > 0 {
        let title = counted_text(
            findings.len(),
            "The pack graph has 1 finding",
            "The pack graph has ",
            " findings",
        );
        extend(
            &mut out,
            go("pack-findings", "account_tree", title, findings[0].message.clone(), Destination::Packs),
        );
    } else {
        extend(&mut out, none());
    }
    let ungated = ungated_in(&m.packs.packs);
    if ungated > 0 {
        let title = counted_text(ungated, "1 pack line has no gate", "", " pack lines have no gate");
        extend(
            &mut out,
            go("ungated-lines", "link_off", title, String::from_str(UNGATED), Destination::Packs),
        );
    } else {
        extend(&mut out, none());
    }
    match &m.schema {
        SchemaStatus::Missing(dir) => {
            let mut d = dir.clone();
            d.append(SCHEMA_TAIL);
            let mut remedies: Vec<Remedy> = Vec::new();
            let args_list = ["update-schema"];
            let args = strings(&args_list);
            assert(Seq::new(args_list@.len(), |i: int| args_list@[i]@) =~= seq!["update-schema"@]);
            remedies.push(Remedy::Run { label: "Run update-schema", icon: "download", args });
            assert(remedy_views(remedies@) =~= seq![
                RemedyV::Run {
                    label: "Run update-schema",
                    icon: "download",
                    args: seq!["update-schema"@],
                },
            ]);
            extend(
                &mut out,
                one(
                    Owed {
                        id: "schema",
                        icon: "schema",
                        title: String::from_str("There is no provider schema"),
                        detail: d,
                        remedies,
                    },
                ),
            );
        },
        _ => extend(&mut out, none()),
    }
    let untrusted = untrusted_in(&m.hcl);
    if untrusted > 0 {
        let title = counted_text(
            untrusted,
            "1 raw HCL block has not been reviewed",
            "",
            " raw HCL blocks have not been reviewed",
        );
        extend(&mut out, go("hcl-trust", "code_off", title, String::from_str(HCL_TRUST), Destination::Estate));
    } else {
        extend(&mut out, none());
    }
    out
}

fn notices_owed(f: &Facts) -> (r: Vec<Owed>)
    ensures
        owed_views(r@) == notices_rows(*f),
{
    let n = kind_in(f.diagnostics, "notice");
    if n == 0 {
        return none();
    }
    let mut remedies: Vec<Remedy> = Vec::new();
    if f.held_notices > 0 {
        remedies.push(Remedy::ShowNotices);
        assert(remedy_views(remedies@) =~= seq![RemedyV::ShowNotices]);
    } else {
        assert(remedy_views(remedies@) =~= Seq::<RemedyV>::empty());
    }
    let title = counted_text(
        n,
        "1 pack asks for a command to be run",
        "",
        " packs ask for a command to be run",
    );
    one(Owed { id: "notices", icon: "assignment_late", title, detail: String::from_str(NOTICES), remedies })
}

fn prerequisites_owed(f: &Facts) -> (r: Vec<Owed>)
    ensures
        owed_views(r@) == prerequisites_rows(*f),
{
    if kind_in(f.diagnostics, "prerequisites") > 0 {
        go(
            "prerequisites",
            "admin_panel_settings",
            String::from_str("The prerequisites are not declared"),
            String::from_str(PREREQUISITES),
            Destination::Checks,
        )
    } else {
        none()
    }
}

fn hcl_owed(f: &Facts) -> (r: Vec<Owed>)
    ensures
        owed_views(r@) == hcl_rows(*f),
{
    if !f.hcl.transpiled {
        go(
            "not-transpiled",
            "build",
            String::from_str("The estate has not been compiled here"),
            String::from_str(NOT_TRANSPILED),
            Destination::Deploy,
        )
    } else if !f.hcl.initialised {
        go(
            "not-planned",
            "preview",
            String::from_str("Not verified by a plan"),
            String::from_str(NOT_PLANNED),
            Destination::Deploy,
        )
    } else {
        none()
    }
}

/// Everything the estate owes, in the order the work happens. Each row rests on a fact
/// that is read, never on a mode the app remembers.
pub fn owed(f: &Facts) -> (r: Vec<Owed>)
    ensures
        owed_views(r@) == owed_spec(*f),
{
    let mut out = repository_owed(f);
    extend(&mut out, bootstrap_owed(f));
    extend(&mut out, questions_owed(f));
    match f.model {
        Some(m) => extend(&mut out, model_owed(m)),
        None => extend(&mut out, none()),
    }
    extend(&mut out, notices_owed(f));
    extend(&mut out, prerequisites_owed(f));
    extend(&mut out, hcl_owed(f));
    out
}

/// The pack that declares the estate's own questions.
pub const CORE_PACK: &'static str = "estate_core";

/// Whose estate this is, read from the file's own `params { }` block: each param's
/// name and the label its row carries, in the card's order.
pub open spec fn file_order() -> Seq<(Seq<char>, Seq<char>)> {
    seq![
        ("customer_shortname"@, "Short name"@),
        ("customer_longname"@, "Customer"@),
        ("customer_id"@, "Customer ID"@),
        ("customer_organization_id"@, "Organisation ID"@),
    ]
}

/// The rest of the estate's own answers, in reading order: each core subject and its
/// label.
pub open spec fn core_order() -> Seq<(Seq<char>, Seq<char>)> {
    seq![
        ("customer_domain"@, "Domain"@),
        ("first_admin"@, "First admin"@),
        ("billing_account_infra"@, "Billing account"@),
        ("infra_folder_name"@, "Infrastructure folder"@),
        ("infra_project_name"@, "Infrastructure project"@),
        ("infra_bucket_name"@, "State bucket"@),
        ("svc_iac_account"@, "IaC service account"@),
        ("svc_iac_users_group"@, "IaC users group"@),
        ("deployment_engine"@, "Engine"@),
        ("default_region"@, "Region"@),
        ("default_zone"@, "Zone"@),
    ]
}

fn table(names: &[&'static str], labels: &[&'static str]) -> (r: Vec<(&'static str, &'static str)>)
    requires
        names.len() == labels.len(),
    ensures
        pair_views(r@) == Seq::new(names@.len(), |i: int| (names@[i]@, labels@[i]@)),
{
    let mut out: Vec<(&'static str, &'static str)> = Vec::new();
    for i in 0..names.len()
        invariant
            names.len() == labels.len(),
            pair_views(out@) == Seq::new(i as nat, |k: int| (names@[k]@, labels@[k]@)),
    {
        let ghost before = pair_views(out@);
        out.push((names[i], labels[i]));
        assert(pair_views(out@) =~= before.push((names@[i as int]@, labels@[i as int]@)));
        assert(pair_views(out@) =~= Seq::new((i + 1) as nat, |k: int| (names@[k]@, labels@[k]@)));
    }
    out
}

pub open spec fn pair_views(v: Seq<(&'static str, &'static str)>) -> Seq<(Seq<char>, Seq<char>)> {
    Seq::new(v.len(), |i: int| (v[i].0@, v[i].1@))
}

fn file_order_table() -> (r: Vec<(&'static str, &'static str)>)
    ensures
        pair_views(r@) == file_order(),
{
    let names = ["customer_shortname", "customer_longname", "customer_id", "customer_organization_id"];
    let labels = ["Short name", "Customer", "Customer ID", "Organisation ID"];
    let r = table(&names, &labels);
    assert(pair_views(r@) =~= file_order());
    r
}

fn core_order_table() -> (r: Vec<(&'static str, &'static str)>)
    ensures
        pair_views(r@) == core_order(),
{
    let names = [
        "customer_domain",
        "first_admin",
        "billing_account_infra",
        "infra_folder_name",
        "infra_project_name",
        "infra_bucket_name",
        "svc_iac_account",
        "svc_iac_users_group",
        "deployment_engine",
        "default_region",
        "default_zone",
    ];
    let labels = [
        "Domain",
        "First admin",
        "Billing account",
        "Infrastructure folder",
        "Infrastructure project",
        "State bucket",
        "IaC service account",
        "IaC users group",
        "Engine",
        "Region",
        "Zone",
    ];
    let r = table(&names, &labels);
    assert(pair_views(r@) =~= core_order());
    r
}

/// What one row of the card says.
#[derive(Debug, Clone, PartialEq, Eq)]
pub enum Reading {
    /// what the estate carries, as one line
    Value(String),
    /// a core question the report has unanswered; the pack's default is what an
    /// interview offers, not what this estate states, so it is never shown here
    NotAnswered,
    /// a param of the file's rows the `params { }` block does not set
    NotSet,
    /// a param of the file's rows set to `""`, as `satz init` writes the ones it could
    /// not derive
    Empty,
    /// a param of the file's rows before the model is built
    NotRead,
}

pub enum ReadingV {
    Value(Seq<char>),
    NotAnswered,
    NotSet,
    Empty,
    NotRead,
}

impl View for Reading {
    type V = ReadingV;

    open spec fn view(&self) -> ReadingV {
        match self {
            Reading::Value(s) => ReadingV::Value(s@),
            Reading::NotAnswered => ReadingV::NotAnswered,
            Reading::NotSet => ReadingV::NotSet,
            Reading::Empty => ReadingV::Empty,
            Reading::NotRead => ReadingV::NotRead,
        }
    }
}

/// One row of the card: a label, and what the estate says under it.
#[derive(Debug, Clone, PartialEq, Eq)]
pub struct Fact {
    pub label: String,
    pub reading: Reading,
}

pub struct FactV {
    pub label: Seq<char>,
    pub reading: ReadingV,
}

impl View for Fact {
    type V = FactV;

    open spec fn view(&self) -> FactV {
        FactV { label: self.label@, reading: self.reading@ }
    }
}

pub open spec fn fact_views(v: Seq<Fact>) -> Seq<FactV> {
    Seq::new(v.len(), |i: int| v[i]@)
}

/// A yes or a no.
pub open spec fn word(b: bool) -> Seq<char> {
    if b {
        "yes"@
    } else {
        "no"@
    }
}

/// An item of a list as one line: a string as itself, anything else as compact JSON.
pub open spec fn item_line(v: JsonV) -> Seq<char> {
    match v {
        JsonV::Str(s) => s,
        _ => json_compact(v),
    }
}

/// A JSON value as one line: a string as itself, a boolean as a word, a list joined with
/// commas, anything else as compact JSON.
pub open spec fn json_line_spec(v: JsonV) -> Seq<char> {
    match v {
        JsonV::Str(s) => s,
        JsonV::Bool(b) => word(b),
        JsonV::Array(items) => join(Seq::new(items.len(), |i: int| item_line(items[i])), ", "@),
        _ => json_compact(v),
    }
}

fn yes_no(b: bool) -> (r: String)
    ensures
        r@ == word(b),
{
    if b {
        String::from_str("yes")
    } else {
        String::from_str("no")
    }
}

fn join_lines(parts: Vec<String>) -> (r: String)
    ensures
        r@ == join(crate::reports::strs(parts@), ", "@),
{
    let r = crate::text::join_strings(&parts, ", ");
    assert(parts.deep_view() =~= crate::reports::strs(parts@));
    r
}

/// A JSON value as one line.
pub fn json_line(v: &Json) -> (r: String)
    ensures
        r@ == json_line_spec(v@),
{
    match v {
        Json::Str(s) => s.clone(),
        Json::Bool(b) => yes_no(*b),
        Json::Array(items) => {
            let ghost vs = v@->Array_0;
            let mut parts: Vec<String> = Vec::new();
            for i in 0..items.len()
                invariant
                    vs == v@->Array_0,
                    *v == Json::Array(*items),
                    vs.len() == items.len(),
                    forall|k: int| 0 <= k < items.len() ==> vs[k] == #[trigger] items@[k]@,
                    parts.len() == i,
                    forall|k: int| 0 <= k < i ==> #[trigger] parts@[k]@ == item_line(vs[k]),
            {
                let line = match &items[i] {
                    Json::Str(s) => s.clone(),
                    other => compact(other),
                };
                assert(line@ == item_line(items@[i as int]@));
                parts.push(line);
            }
            assert(crate::reports::strs(parts@) =~= Seq::new(vs.len(), |i: int| item_line(vs[i])));
            join_lines(parts)
        },
        _ => compact(v),
    }
}

/// The pieces of a string value, each as one line.
pub open spec fn part_line(p: PartV) -> Seq<char> {
    match p {
        PartV::Lit(t) => t,
        PartV::TfRef(t) => "${"@ + t + "}"@,
        PartV::Param { name, resolved } => match resolved {
            Some(v) => json_line_spec(v),
            None => "{"@ + name + "}"@,
        },
    }
}

/// The pieces of `ps` run together.
pub open spec fn parts_line(ps: Seq<PartV>) -> Seq<char>
    decreases ps.len(),
{
    if ps.len() == 0 {
        seq![]
    } else {
        parts_line(ps.drop_last()) + part_line(ps.last())
    }
}

/// A value as the file has it, as one line: a string as satz reads it, each `{param}` in
/// it replaced by what the param resolves to; a reference by its resolved value; a list
/// joined with commas.
pub open spec fn source_line_spec(v: SourceV) -> Seq<char>
    decreases v, 0int,
{
    match v {
        SourceV::Str { parts, .. } => parts_line(parts),
        SourceV::Num(n) => n,
        SourceV::Bool(b) => word(b),
        SourceV::Ref { param, resolved } => match resolved {
            Some(j) => json_line_spec(j),
            None => param,
        },
        SourceV::List(items) => join(list_lines(items, items.len() as int), ", "@),
        SourceV::Obj => "an object"@,
    }
}

/// The first `n` items of a list, each as one line.
pub open spec fn list_lines(items: Seq<SourceV>, n: int) -> Seq<Seq<char>>
    decreases items, n,
{
    if n <= 0 || n > items.len() {
        seq![]
    } else {
        proof {
            assert(decreases_to!(items => items[n - 1]));
        }
        list_lines(items, n - 1).push(source_line_spec(items[n - 1]))
    }
}

fn parts_text(parts: &Vec<StrPart>) -> (r: String)
    ensures
        r@ == parts_line(crate::model::part_views(parts@)),
{
    let ghost pv = crate::model::part_views(parts@);
    let mut out = String::new();
    assert(pv.take(0) =~= Seq::<PartV>::empty());
    for i in 0..parts.len()
        invariant
            pv == crate::model::part_views(parts@),
            out@ == parts_line(pv.take(i as int)),
    {
        assert(pv.take(i + 1).drop_last() =~= pv.take(i as int));
        assert(pv.take(i + 1).last() == parts@[i as int]@);
        match &parts[i] {
            StrPart::Lit(t) => out.append(t.as_str()),
            StrPart::TfRef(t) => {
                out.append("${");
                out.append(t.as_str());
                out.append("}");
            },
            StrPart::Param { name, resolved } => match resolved {
                Some(v) => {
                    let l = json_line(v);
                    out.append(l.as_str());
                },
                None => {
                    out.append("{");
                    out.append(name.as_str());
                    out.append("}");
                },
            },
        }
    }
    assert(pv.take(parts.len() as int) =~= pv);
    out
}

/// A value as the file has it, as one line.
pub fn source_line(value: &SourceValue) -> (r: String)
    ensures
        r@ == source_line_spec(value@),
    decreases value,
{
    match value {
        SourceValue::Str { raw, parts } => {
            assert(value@ == SourceV::Str { raw: raw@, parts: crate::model::part_views(parts@) });
            parts_text(parts)
        },
        SourceValue::Num(n) => n.clone(),
        SourceValue::Bool(b) => yes_no(*b),
        SourceValue::Ref { param, resolved } => match resolved {
            Some(j) => json_line(j),
            None => param.clone(),
        },
        SourceValue::List(items) => {
            let ghost vs = value@->List_0;
            let mut parts: Vec<String> = Vec::new();
            for i in 0..items.len()
                invariant
                    vs == value@->List_0,
                    *value == SourceValue::List(*items),
                    vs.len() == items.len(),
                    forall|k: int| 0 <= k < items.len() ==> vs[k] == #[trigger] items@[k]@,
                    crate::reports::strs(parts@) == list_lines(vs, i as int),
            {
                proof {
                    assert(decreases_to!(items => items@));
                    assert(decreases_to!(items@ => items@[i as int]));
                }
                let ghost before = crate::reports::strs(parts@);
                let l = source_line(&items[i]);
                parts.push(l);
                assert(crate::reports::strs(parts@) =~= before.push(source_line_spec(vs[i as int])));
            }
            join_lines(parts)
        },
        SourceValue::Obj => String::from_str("an object"),
    }
}

/// The answer as the card says it: an answered question's current value as one line —
/// or `answered` where the report carries none — and any other as not answered.
pub open spec fn answer_spec(q: QuestionV) -> ReadingV {
    match q.state {
        QuestionState::Answered => ReadingV::Value(
            match q.current {
                Some(v) => json_line_spec(v),
                None => "answered"@,
            },
        ),
        _ => ReadingV::NotAnswered,
    }
}

fn answer(q: &QuestionRow) -> (r: Reading)
    ensures
        r@ == answer_spec(q@),
{
    match q.state {
        QuestionState::Answered => Reading::Value(
            match &q.current {
                Some(v) => json_line(v),
                None => String::from_str("answered"),
            },
        ),
        _ => Reading::NotAnswered,
    }
}

/// The characters `char::to_uppercase` yields for `c`.
pub uninterp spec fn upper_chars(c: char) -> Seq<char>;

/// `char::to_uppercase`, collected: Unicode's uppercase mapping of `c`, `c` itself where
/// it has none. Which characters it yields is Unicode's, and is left to the name
/// [`upper_chars`].
#[verifier::external_body]
fn to_upper(c: char) -> (r: String)
    ensures
        r@ == upper_chars(c),
{
    c.to_uppercase().collect()
}

/// `s` with each `_` a space.
pub open spec fn spaced(s: Seq<char>) -> Seq<char> {
    Seq::new(
        s.len(),
        |i: int|
            if s[i] == '_' {
                ' '
            } else {
                s[i]
            },
    )
}

/// A label for a core subject the card does not name: its words, the first one
/// capitalised.
pub open spec fn label_for_spec(subject: Seq<char>) -> Seq<char> {
    let sp = spaced(subject);
    if sp.len() == 0 {
        sp
    } else {
        upper_chars(sp[0]) + sp.skip(1)
    }
}

/// A label for a core subject the list does not name: `svc_iac_users_group` reads
/// "Svc iac users group".
pub fn label_for(subject: &str) -> (r: String)
    ensures
        r@ == label_for_spec(subject@),
{
    let cs = crate::text::chars_of(subject);
    let mut sp: Vec<char> = Vec::new();
    for i in 0..cs.len()
        invariant
            cs@ == subject@,
            sp@ == spaced(subject@).take(i as int),
    {
        let c = if cs[i] == '_' {
            ' '
        } else {
            cs[i]
        };
        sp.push(c);
        assert(sp@ =~= spaced(subject@).take(i + 1));
    }
    assert(sp@ =~= spaced(subject@));
    if sp.len() == 0 {
        return String::new();
    }
    let mut out = to_upper(sp[0]);
    for i in 1..sp.len()
        invariant
            sp@ == spaced(subject@),
            sp.len() > 0,
            out@ == upper_chars(sp@[0]) + sp@.subrange(1, i as int),
    {
        out.push(sp[i]);
        assert(sp@.subrange(1, i + 1) =~= sp@.subrange(1, i as int).push(sp@[i as int]));
    }
    assert(sp@.subrange(1, sp.len() as int) =~= sp@.skip(1));
    out
}

/// The first of `ps` from `k` on named `name`.
pub open spec fn param_from(ps: Seq<ParamV>, name: Seq<char>, k: int) -> Option<int>
    decreases ps.len() - k,
{
    if k < 0 || k >= ps.len() {
        None
    } else if ps[k].name == name {
        Some(k)
    } else {
        param_from(ps, name, k + 1)
    }
}

proof fn lemma_param_from(ps: Seq<ParamV>, name: Seq<char>, k: int)
    requires
        0 <= k,
    ensures
        param_from(ps, name, k) matches Some(i) ==> k <= i < ps.len(),
    decreases ps.len() - k,
{
    if k < ps.len() && ps[k].name != name {
        lemma_param_from(ps, name, k + 1);
    }
}

/// A row of the file's own: not read before the model is built, not set where the
/// `params { }` block has no such param, empty where it is `""`, else its value.
pub open spec fn file_reading(params: Option<Seq<ParamV>>, name: Seq<char>) -> ReadingV {
    match params {
        None => ReadingV::NotRead,
        Some(ps) => match param_from(ps, name, 0) {
            None => ReadingV::NotSet,
            Some(j) => if source_line_spec(ps[j].value).len() == 0 {
                ReadingV::Empty
            } else {
                ReadingV::Value(source_line_spec(ps[j].value))
            },
        },
    }
}

/// Whether `s` is a subject of table `t`.
pub open spec fn names_in(t: Seq<(Seq<char>, Seq<char>)>, s: Seq<char>) -> bool {
    exists|k: int| 0 <= k < t.len() && #[trigger] t[k].0 == s
}

/// A question of the estate's own: asked by the core pack, not `deployment_mode`, and
/// not one of the file's rows.
pub open spec fn is_core(q: QuestionV) -> bool {
    q.pack == CORE_PACK@ && q.subject != "deployment_mode"@ && !names_in(file_order(), q.subject)
}

/// The questions of `qs` that are the estate's own, in the report's order.
pub open spec fn core_of(qs: Seq<QuestionV>) -> Seq<QuestionV>
    decreases qs.len(),
{
    if qs.len() == 0 {
        seq![]
    } else {
        let r = core_of(qs.drop_last());
        if is_core(qs.last()) {
            r.push(qs.last())
        } else {
            r
        }
    }
}

/// The rows of table `t` that `core` answers, in the table's order.
pub open spec fn named_rows(core: Seq<QuestionV>, t: Seq<(Seq<char>, Seq<char>)>) -> Seq<FactV>
    decreases t.len(),
{
    if t.len() == 0 {
        seq![]
    } else {
        named_rows(core, t.drop_last()) + match crate::interview::find_subject(core, t.last().0) {
            Some(i) => seq![FactV { label: t.last().1, reading: answer_spec(core[i]) }],
            None => seq![],
        }
    }
}

/// The questions of `core` the table does not name, under labels made from their
/// subjects.
pub open spec fn other_rows(core: Seq<QuestionV>) -> Seq<FactV>
    decreases core.len(),
{
    if core.len() == 0 {
        seq![]
    } else {
        let q = core.last();
        other_rows(core.drop_last()) + if !names_in(core_order(), q.subject) {
            seq![FactV { label: label_for_spec(q.subject), reading: answer_spec(q) }]
        } else {
            seq![]
        }
    }
}

/// The card's rows: the four the file's params answer, then — with a questions report —
/// the core answers the table names, in its order, then the core answers it does not.
pub open spec fn identity_spec(params: Option<Seq<ParamV>>, questions: Option<Seq<QuestionV>>) -> Seq<FactV> {
    let file = Seq::new(
        file_order().len(),
        |k: int| FactV { label: file_order()[k].1, reading: file_reading(params, file_order()[k].0) },
    );
    match questions {
        None => file,
        Some(qs) => file + named_rows(core_of(qs), core_order()) + other_rows(core_of(qs)),
    }
}

pub open spec fn qref_views(v: Seq<&QuestionRow>) -> Seq<QuestionV> {
    Seq::new(v.len(), |i: int| v[i]@)
}

fn in_table(t: &Vec<(&'static str, &'static str)>, s: &str) -> (r: bool)
    ensures
        r == names_in(pair_views(t@), s@),
{
    let ghost tv = pair_views(t@);
    for k in 0..t.len()
        invariant
            tv == pair_views(t@),
            forall|j: int| 0 <= j < k ==> #[trigger] tv[j].0 != s@,
    {
        if str_eq(t[k].0, s) {
            assert(tv[k as int].0 == s@);
            return true;
        }
    }
    false
}

fn find_core<'a>(core: &Vec<&'a QuestionRow>, s: &str) -> (r: Option<&'a QuestionRow>)
    ensures
        match crate::interview::find_subject(qref_views(core@), s@) {
            Some(i) => r matches Some(q) && q@ == qref_views(core@)[i],
            None => r is None,
        },
{
    let ghost v = qref_views(core@);
    proof {
        crate::interview::lemma_find_from(v, s@, 0);
    }
    let mut k: usize = 0;
    while k < core.len()
        invariant
            v == qref_views(core@),
            k <= core.len(),
            crate::interview::find_subject(v, s@) == crate::interview::find_from(v, s@, k as int),
        decreases core.len() - k,
    {
        if str_eq(core[k].subject.as_str(), s) {
            return Some(core[k]);
        }
        k = k + 1;
    }
    None
}

/// The card's rows: the four the file's params answer (`params` is the model's, `None`
/// until the model is built), then the other core answers from the questions report —
/// none until the first report has arrived, and none for an estate whose packs do not
/// include the core one.
pub fn identity(params: Option<&[ParamRow]>, questions: Option<&QuestionsReport>) -> (r: Vec<Fact>)
    ensures
        fact_views(r@) == identity_spec(
            match params {
                Some(ps) => Some(param_views(ps@)),
                None => None,
            },
            match questions {
                Some(q) => Some(rows(q.questions@)),
                None => None,
            },
        ),
{
    let ghost pv = match params {
        Some(ps) => Some(param_views(ps@)),
        None => None,
    };
    let file = file_order_table();
    let mut out: Vec<Fact> = Vec::new();
    for k in 0..file.len()
        invariant
            pair_views(file@) == file_order(),
            pv == match params {
                Some(ps) => Some(param_views(ps@)),
                None => None::<Seq<ParamV>>,
            },
            fact_views(out@) == Seq::new(
                k as nat,
                |j: int| FactV { label: file_order()[j].1, reading: file_reading(pv, file_order()[j].0) },
            ),
    {
        let (name, label) = file[k];
        assert(file_order()[k as int] == (name@, label@));
        let reading = match params {
            None => Reading::NotRead,
            Some(ps) => {
                proof {
                    lemma_param_from(param_views(ps@), name@, 0);
                }
                let mut j: usize = 0;
                let mut hit = false;
                while j < ps.len() && !hit
                    invariant
                        j <= ps.len(),
                        !hit ==> param_from(param_views(ps@), name@, 0) == param_from(
                            param_views(ps@),
                            name@,
                            j as int,
                        ),
                        hit ==> j < ps.len() && param_from(param_views(ps@), name@, 0) == Some(
                            j as int,
                        ),
                    decreases (ps.len() - j) + (if hit {
                        0int
                    } else {
                        1int
                    }),
                {
                    if str_eq(ps[j].name.as_str(), name) {
                        hit = true;
                    } else {
                        j = j + 1;
                    }
                }
                if hit {
                    let line = source_line(&ps[j].value);
                    if line.as_str().is_empty() {
                        Reading::Empty
                    } else {
                        Reading::Value(line)
                    }
                } else {
                    Reading::NotSet
                }
            },
        };
        let ghost before = fact_views(out@);
        let ghost rv = reading@;
        assert(rv == file_reading(pv, name@));
        out.push(Fact { label: String::from_str(label), reading });
        assert(fact_views(out@) =~= before.push(FactV { label: label@, reading: rv }));
        assert(fact_views(out@) =~= Seq::new(
            (k + 1) as nat,
            |j: int| FactV { label: file_order()[j].1, reading: file_reading(pv, file_order()[j].0) },
        ));
    }
    let report = match questions {
        Some(q) => q,
        None => return out,
    };
    let ghost qs = rows(report.questions@);
    let mut core: Vec<&QuestionRow> = Vec::new();
    for i in 0..report.questions.len()
        invariant
            qs == rows(report.questions@),
            pair_views(file@) == file_order(),
            qref_views(core@) == core_of(qs.take(i as int)),
    {
        assert(qs.take(i + 1).drop_last() =~= qs.take(i as int));
        assert(qs.take(i + 1).last() == report.questions@[i as int]@);
        let q = &report.questions[i];
        if str_eq(q.pack.as_str(), CORE_PACK) && !str_eq(q.subject.as_str(), "deployment_mode")
            && !in_table(&file, q.subject.as_str()) {
            let ghost before = qref_views(core@);
            core.push(q);
            assert(qref_views(core@) =~= before.push(q@));
        }
    }
    assert(qs.take(report.questions.len() as int) =~= qs);
    let ghost cv = qref_views(core@);
    let ghost head = fact_views(out@);
    let table = core_order_table();
    for k in 0..table.len()
        invariant
            pair_views(table@) == core_order(),
            cv == qref_views(core@),
            fact_views(out@) == head + named_rows(cv, core_order().take(k as int)),
    {
        let (subject, label) = table[k];
        let ghost t = core_order().take(k + 1);
        assert(t.drop_last() =~= core_order().take(k as int));
        assert(t.last() == (subject@, label@));
        let ghost before = fact_views(out@);
        match find_core(&core, subject) {
            Some(q) => {
                out.push(Fact { label: String::from_str(label), reading: answer(q) });
                assert(fact_views(out@) =~= before + seq![
                    FactV { label: label@, reading: answer_spec(q@) },
                ]);
            },
            None => {
                assert(before =~= before + Seq::<FactV>::empty());
            },
        }
    }
    assert(core_order().take(table.len() as int) =~= core_order());
    let ghost mid = fact_views(out@);
    for i in 0..core.len()
        invariant
            pair_views(table@) == core_order(),
            cv == qref_views(core@),
            fact_views(out@) == mid + other_rows(cv.take(i as int)),
    {
        let q = core[i];
        assert(cv.take(i + 1).drop_last() =~= cv.take(i as int));
        assert(cv.take(i + 1).last() == q@);
        let ghost before = fact_views(out@);
        if !in_table(&table, q.subject.as_str()) {
            out.push(Fact { label: label_for(q.subject.as_str()), reading: answer(q) });
            assert(fact_views(out@) =~= before + seq![
                FactV { label: label_for_spec(q@.subject), reading: answer_spec(q@) },
            ]);
        } else {
            assert(before =~= before + Seq::<FactV>::empty());
        }
    }
    assert(cv.take(core.len() as int) =~= cv);
    out
}

/// Whom the estate's live calls run as: the IaC service account the estate declares,
/// impersonated by the ADC identity, or the ADC identity itself, and why nothing is
/// impersonated.
#[derive(Debug, Clone, PartialEq, Eq)]
pub enum RunsAs<'a> {
    Impersonated(&'a str),
    Credentials(String),
}

pub const NO_ACCOUNT: &'static str = "the estate declares no IaC service account (svc_iac_account, infra_project_name), so nothing is impersonated";

pub const MODE_TAIL: &'static str = " mode; `satz migrate --mode cloud` makes every run impersonate the IaC service account the estate declares";

/// `runs_as` is what opening the estate reported, null whenever the calls impersonate
/// nothing; the mode is the estate's `deployment_mode`, `local` when it binds none. In
/// cloud mode a null `runs_as` means the estate declares no account to impersonate.
pub fn runs_as_row<'a>(runs_as: Option<&'a str>, deployment_mode: Option<&str>) -> (r: RunsAs<'a>)
    ensures
        match runs_as {
            Some(account) => r == RunsAs::Impersonated(account),
            None => {
                let mode = match deployment_mode {
                    Some(m) => m@,
                    None => "local"@,
                };
                r matches RunsAs::Credentials(why) && why@ == if mode == "cloud"@ {
                    NO_ACCOUNT@
                } else {
                    mode + MODE_TAIL@
                }
            },
        },
{
    match runs_as {
        Some(account) => RunsAs::Impersonated(account),
        None => {
            let mode = match deployment_mode {
                Some(m) => m,
                None => "local",
            };
            if str_eq(mode, "cloud") {
                RunsAs::Credentials(String::from_str(NO_ACCOUNT))
            } else {
                let mut why = String::from_str(mode);
                why.append(MODE_TAIL);
                RunsAs::Credentials(why)
            }
        },
    }
}


/// Where a row stands in the order the work happens: the repository, day 0, the
/// questions, the pack map, the pack graph's findings, the lines without their gate,
/// the schema, raw HCL, the notices, the prerequisites, and what proves a plan.
pub open spec fn owed_rank(id: Seq<char>) -> int {
    if id == "repository"@ {
        0
    } else if id == "bootstrap"@ {
        1
    } else if id == "questions"@ {
        2
    } else if id == "map-off"@ || id == "map-absent"@ {
        3
    } else if id == "pack-findings"@ {
        4
    } else if id == "ungated-lines"@ {
        5
    } else if id == "schema"@ {
        6
    } else if id == "hcl-trust"@ {
        7
    } else if id == "notices"@ {
        8
    } else if id == "prerequisites"@ {
        9
    } else if id == "not-transpiled"@ || id == "not-planned"@ {
        10
    } else {
        11
    }
}

/// The rows of `s` stand in strictly rising rank, each from `lo` up to `hi`.
#[verifier::opaque]
pub open spec fn ranked(s: Seq<OwedV>, lo: int, hi: int) -> bool {
    &&& forall|i: int| 0 <= i < s.len() ==> lo <= #[trigger] owed_rank(s[i].id@) < hi
    &&& forall|i: int, j: int|
        0 <= i < j < s.len() ==> owed_rank(#[trigger] s[i].id@) < owed_rank(#[trigger] s[j].id@)
}

proof fn lemma_ranked_concat(a: Seq<OwedV>, b: Seq<OwedV>, lo: int, mid: int, hi: int)
    requires
        lo <= mid <= hi,
        ranked(a, lo, mid),
        ranked(b, mid, hi),
    ensures
        ranked(a + b, lo, hi),
{
    reveal(ranked);
    let c = a + b;
    assert forall|i: int| 0 <= i < c.len() implies lo <= #[trigger] owed_rank(c[i].id@) < hi by {
        if i < a.len() {
            assert(c[i] == a[i]);
            assert(lo <= owed_rank(a[i].id@) < mid);
        } else {
            assert(c[i] == b[i - a.len()]);
            assert(mid <= owed_rank(b[i - a.len()].id@) < hi);
        }
    }
    assert forall|i: int, j: int| 0 <= i < j < c.len() implies owed_rank(#[trigger] c[i].id@) < owed_rank(
        #[trigger] c[j].id@,
    ) by {
        if j < a.len() {
            assert(c[i] == a[i] && c[j] == a[j]);
        } else if i < a.len() {
            assert(c[i] == a[i] && c[j] == b[j - a.len()]);
            assert(owed_rank(a[i].id@) < mid);
            assert(mid <= owed_rank(b[j - a.len()].id@));
        } else {
            assert(c[i] == b[i - a.len()] && c[j] == b[j - a.len()]);
        }
    }
}

proof fn lemma_ids_revealed()
    ensures
        owed_rank("repository"@) == 0,
        owed_rank("bootstrap"@) == 1,
        owed_rank("questions"@) == 2,
        owed_rank("map-off"@) == 3,
        owed_rank("map-absent"@) == 3,
        owed_rank("pack-findings"@) == 4,
        owed_rank("ungated-lines"@) == 5,
        owed_rank("schema"@) == 6,
        owed_rank("hcl-trust"@) == 7,
        owed_rank("notices"@) == 8,
        owed_rank("prerequisites"@) == 9,
        owed_rank("not-transpiled"@) == 10,
        owed_rank("not-planned"@) == 10,
        "not-transpiled"@ != "not-planned"@,
        "map-off"@ != "map-absent"@,
{
    reveal_strlit("repository");
    reveal_strlit("bootstrap");
    reveal_strlit("questions");
    reveal_strlit("map-off");
    reveal_strlit("map-absent");
    reveal_strlit("pack-findings");
    reveal_strlit("ungated-lines");
    reveal_strlit("schema");
    reveal_strlit("hcl-trust");
    reveal_strlit("notices");
    reveal_strlit("prerequisites");
    reveal_strlit("not-transpiled");
    reveal_strlit("not-planned");
    assert("bootstrap"@.len() != "repository"@.len());
    assert("questions"@.len() != "repository"@.len());
    assert("questions"@[0] != "bootstrap"@[0]);
    assert("map-off"@.len() != "repository"@.len());
    assert("map-off"@.len() != "bootstrap"@.len());
    assert("map-off"@.len() != "questions"@.len());
    assert("map-absent"@[0] != "repository"@[0]);
    assert("map-absent"@.len() != "bootstrap"@.len());
    assert("map-absent"@.len() != "questions"@.len());
    assert("map-absent"@.len() != "map-off"@.len());
    assert("pack-findings"@.len() != "repository"@.len());
    assert("pack-findings"@.len() != "bootstrap"@.len());
    assert("pack-findings"@.len() != "questions"@.len());
    assert("pack-findings"@.len() != "map-off"@.len());
    assert("pack-findings"@.len() != "map-absent"@.len());
    assert("ungated-lines"@.len() != "repository"@.len());
    assert("ungated-lines"@.len() != "bootstrap"@.len());
    assert("ungated-lines"@.len() != "questions"@.len());
    assert("ungated-lines"@.len() != "map-off"@.len());
    assert("ungated-lines"@.len() != "map-absent"@.len());
    assert("ungated-lines"@[0] != "pack-findings"@[0]);
    assert("schema"@.len() != "repository"@.len());
    assert("schema"@.len() != "bootstrap"@.len());
    assert("schema"@.len() != "questions"@.len());
    assert("schema"@.len() != "map-off"@.len());
    assert("schema"@.len() != "map-absent"@.len());
    assert("schema"@.len() != "pack-findings"@.len());
    assert("schema"@.len() != "ungated-lines"@.len());
    assert("hcl-trust"@.len() != "repository"@.len());
    assert("hcl-trust"@[0] != "bootstrap"@[0]);
    assert("hcl-trust"@[0] != "questions"@[0]);
    assert("hcl-trust"@.len() != "map-off"@.len());
    assert("hcl-trust"@.len() != "map-absent"@.len());
    assert("hcl-trust"@.len() != "pack-findings"@.len());
    assert("hcl-trust"@.len() != "ungated-lines"@.len());
    assert("hcl-trust"@.len() != "schema"@.len());
    assert("notices"@.len() != "repository"@.len());
    assert("notices"@.len() != "bootstrap"@.len());
    assert("notices"@.len() != "questions"@.len());
    assert("notices"@[0] != "map-off"@[0]);
    assert("notices"@.len() != "map-absent"@.len());
    assert("notices"@.len() != "pack-findings"@.len());
    assert("notices"@.len() != "ungated-lines"@.len());
    assert("notices"@.len() != "schema"@.len());
    assert("notices"@.len() != "hcl-trust"@.len());
    assert("prerequisites"@.len() != "repository"@.len());
    assert("prerequisites"@.len() != "bootstrap"@.len());
    assert("prerequisites"@.len() != "questions"@.len());
    assert("prerequisites"@.len() != "map-off"@.len());
    assert("prerequisites"@.len() != "map-absent"@.len());
    assert("prerequisites"@[1] != "pack-findings"@[1]);
    assert("prerequisites"@[0] != "ungated-lines"@[0]);
    assert("prerequisites"@.len() != "schema"@.len());
    assert("prerequisites"@.len() != "hcl-trust"@.len());
    assert("prerequisites"@.len() != "notices"@.len());
    assert("not-transpiled"@.len() != "repository"@.len());
    assert("not-transpiled"@.len() != "bootstrap"@.len());
    assert("not-transpiled"@.len() != "questions"@.len());
    assert("not-transpiled"@.len() != "map-off"@.len());
    assert("not-transpiled"@.len() != "map-absent"@.len());
    assert("not-transpiled"@.len() != "pack-findings"@.len());
    assert("not-transpiled"@.len() != "ungated-lines"@.len());
    assert("not-transpiled"@.len() != "schema"@.len());
    assert("not-transpiled"@.len() != "hcl-trust"@.len());
    assert("not-transpiled"@.len() != "notices"@.len());
    assert("not-transpiled"@.len() != "prerequisites"@.len());
    assert("not-planned"@.len() != "repository"@.len());
    assert("not-planned"@.len() != "bootstrap"@.len());
    assert("not-planned"@.len() != "questions"@.len());
    assert("not-planned"@.len() != "map-off"@.len());
    assert("not-planned"@.len() != "map-absent"@.len());
    assert("not-planned"@.len() != "pack-findings"@.len());
    assert("not-planned"@.len() != "ungated-lines"@.len());
    assert("not-planned"@.len() != "schema"@.len());
    assert("not-planned"@.len() != "hcl-trust"@.len());
    assert("not-planned"@.len() != "notices"@.len());
    assert("not-planned"@.len() != "prerequisites"@.len());
    assert("not-planned"@.len() != "not-transpiled"@.len());
}

proof fn lemma_one_ranked(row: OwedV, k: int)
    requires
        owed_rank(row.id@) == k,
    ensures
        ranked(seq![row], k, k + 1),
{
    reveal(ranked);
    assert(seq![row][0] == row);
}

proof fn lemma_none_ranked(lo: int, hi: int)
    ensures
        ranked(Seq::<OwedV>::empty(), lo, hi),
{
    reveal(ranked);
}

proof fn lemma_ranked_at(s: Seq<OwedV>, lo: int, hi: int, i: int)
    requires
        ranked(s, lo, hi),
        0 <= i < s.len(),
    ensures
        lo <= owed_rank(s[i].id@) < hi,
{
    reveal(ranked);
}

proof fn lemma_ranked_lt(s: Seq<OwedV>, lo: int, hi: int, i: int, j: int)
    requires
        ranked(s, lo, hi),
        0 <= i < j < s.len(),
    ensures
        owed_rank(s[i].id@) < owed_rank(s[j].id@),
{
    reveal(ranked);
}

proof fn lemma_model_ranked(m: EstateModel)
    ensures
        ranked(model_rows(m), 3, 8),
{
    lemma_ids_revealed();
    let packs = pack_views(m.packs.packs@);
    let map_row = match map_from(packs, 0) {
        Some(i) => if packs[i].line == PackLine::Commented {
            go_row("map-off", "inventory_2", "The pack map is switched off"@, MAP_OFF@, Destination::Packs)
        } else if packs[i].line == PackLine::Absent {
            go_row("map-absent", "inventory_2", "The estate has no pack map"@, MAP_ABSENT@, Destination::Packs)
        } else {
            seq![]
        },
        None => seq![],
    };
    lemma_single_or_none(map_row, 3);
    let findings = m.packs.findings@;
    let findings_row = if findings.len() > 0 {
        go_row(
            "pack-findings",
            "account_tree",
            counted(findings.len(), "The pack graph has 1 finding"@, "The pack graph has "@, " findings"@),
            findings[0].message@,
            Destination::Packs,
        )
    } else {
        seq![]
    };
    lemma_single_or_none(findings_row, 4);
    let ungated = ungated_count(packs);
    let ungated_row = if ungated > 0 {
        go_row(
            "ungated-lines",
            "link_off",
            counted(ungated, "1 pack line has no gate"@, ""@, " pack lines have no gate"@),
            UNGATED@,
            Destination::Packs,
        )
    } else {
        seq![]
    };
    lemma_single_or_none(ungated_row, 5);
    let schema_row = match m.schema {
        SchemaStatus::Missing(dir) => seq![
            OwedV {
                id: "schema",
                icon: "schema",
                title: "There is no provider schema"@,
                detail: dir@ + SCHEMA_TAIL@,
                remedies: seq![
                    RemedyV::Run { label: "Run update-schema", icon: "download", args: seq!["update-schema"@] },
                ],
            },
        ],
        _ => seq![],
    };
    lemma_single_or_none(schema_row, 6);
    let untrusted = untrusted_count(m.hcl@);
    let trust_row = if untrusted > 0 {
        go_row(
            "hcl-trust",
            "code_off",
            counted(
                untrusted,
                "1 raw HCL block has not been reviewed"@,
                ""@,
                " raw HCL blocks have not been reviewed"@,
            ),
            HCL_TRUST@,
            Destination::Estate,
        )
    } else {
        seq![]
    };
    lemma_single_or_none(trust_row, 7);
    lemma_ranked_concat(map_row, findings_row, 3, 4, 5);
    lemma_ranked_concat(map_row + findings_row, ungated_row, 3, 5, 6);
    lemma_ranked_concat(map_row + findings_row + ungated_row, schema_row, 3, 6, 7);
    lemma_ranked_concat(map_row + findings_row + ungated_row + schema_row, trust_row, 3, 7, 8);
    assert(model_rows(m) == map_row + findings_row + ungated_row + schema_row + trust_row);
}

proof fn lemma_single_or_none(s: Seq<OwedV>, k: int)
    requires
        s.len() <= 1,
        s.len() == 1 ==> owed_rank(s[0].id@) == k,
    ensures
        ranked(s, k, k + 1),
{
    if s.len() == 1 {
        lemma_one_ranked(s[0], k);
        assert(s == seq![s[0]]);
    } else {
        assert(s == Seq::<OwedV>::empty());
        lemma_none_ranked(k, k + 1);
    }
}

proof fn lemma_parts_ranked(f: Facts)
    ensures
        ranked(repository_rows(f), 0, 1),
        ranked(bootstrap_rows(f), 1, 2),
        ranked(questions_rows(f), 2, 3),
        ranked(match f.model {
            Some(m) => model_rows(*m),
            None => seq![],
        }, 3, 8),
        ranked(notices_rows(f), 8, 9),
        ranked(prerequisites_rows(f), 9, 10),
        ranked(hcl_rows(f), 10, 11),
{
    lemma_ids_revealed();
    lemma_single_or_none(repository_rows(f), 0);
    lemma_single_or_none(bootstrap_rows(f), 1);
    lemma_single_or_none(questions_rows(f), 2);
    match f.model {
        Some(mm) => lemma_model_ranked(*mm),
        None => lemma_none_ranked(3, 8),
    }
    lemma_single_or_none(notices_rows(f), 8);
    lemma_single_or_none(prerequisites_rows(f), 9);
    lemma_single_or_none(hcl_rows(f), 10);
}

proof fn lemma_seven(
    r: Seq<OwedV>,
    b: Seq<OwedV>,
    q: Seq<OwedV>,
    m: Seq<OwedV>,
    n: Seq<OwedV>,
    p: Seq<OwedV>,
    h: Seq<OwedV>,
)
    requires
        ranked(r, 0, 1),
        ranked(b, 1, 2),
        ranked(q, 2, 3),
        ranked(m, 3, 8),
        ranked(n, 8, 9),
        ranked(p, 9, 10),
        ranked(h, 10, 11),
    ensures
        ({
            let rows = r + b + q + m + n + p + h;
            &&& ranked(rows, 0, 11)
            &&& forall|i: int|
                0 <= i < rows.len() && owed_rank((#[trigger] rows[i]).id@) == 0 ==> 0 <= i < r.len()
                    && rows[i] == r[i]
            &&& forall|i: int|
                0 <= i < rows.len() && owed_rank((#[trigger] rows[i]).id@) == 1 ==> r.len() <= i < r.len()
                    + b.len() && rows[i] == b[i - r.len()]
            &&& forall|i: int|
                0 <= i < rows.len() && owed_rank((#[trigger] rows[i]).id@) == 10 ==> rows.len() - h.len()
                    <= i && rows[i] == h[i - (rows.len() - h.len())]
            &&& r.len() > 0 ==> rows[0] == r[0]
            &&& b.len() > 0 ==> rows[r.len() as int] == b[0]
            &&& h.len() > 0 ==> rows[rows.len() - 1] == h[h.len() - 1]
        }),
{
    let rows = r + b + q + m + n + p + h;
    let rb = r + b;
    let tail = q + m + n + p + h;
    let pre = r + b + q + m + n + p;
    lemma_ranked_concat(r, b, 0, 1, 2);
    lemma_ranked_concat(rb, q, 0, 2, 3);
    lemma_ranked_concat(rb + q, m, 0, 3, 8);
    lemma_ranked_concat(rb + q + m, n, 0, 8, 9);
    lemma_ranked_concat(rb + q + m + n, p, 0, 9, 10);
    lemma_ranked_concat(pre, h, 0, 10, 11);
    lemma_ranked_concat(q, m, 2, 3, 8);
    lemma_ranked_concat(q + m, n, 2, 8, 9);
    lemma_ranked_concat(q + m + n, p, 2, 9, 10);
    lemma_ranked_concat(q + m + n + p, h, 2, 10, 11);
    assert(rows =~= rb + tail);
    assert forall|i: int| 0 <= i < rows.len() && owed_rank((#[trigger] rows[i]).id@) == 0 implies 0 <= i
        < r.len() && rows[i] == r[i] by {
        if i >= r.len() + b.len() {
            assert(rows[i] == tail[i - rb.len()]);
            lemma_ranked_at(tail, 2, 11, i - rb.len());
        } else if i >= r.len() {
            assert(rows[i] == b[i - r.len()]);
            lemma_ranked_at(b, 1, 2, i - r.len());
        }
    }
    assert forall|i: int| 0 <= i < rows.len() && owed_rank((#[trigger] rows[i]).id@) == 1 implies r.len()
        <= i < r.len() + b.len() && rows[i] == b[i - r.len()] by {
        if i >= r.len() + b.len() {
            assert(rows[i] == tail[i - rb.len()]);
            lemma_ranked_at(tail, 2, 11, i - rb.len());
        } else if i < r.len() {
            assert(rows[i] == r[i]);
            lemma_ranked_at(r, 0, 1, i);
        }
    }
    assert forall|i: int| 0 <= i < rows.len() && owed_rank((#[trigger] rows[i]).id@) == 10 implies rows.len()
        - h.len() <= i && rows[i] == h[i - (rows.len() - h.len())] by {
        if i < pre.len() {
            assert(rows[i] == pre[i]);
            lemma_ranked_at(pre, 0, 10, i);
        }
    }
    if r.len() > 0 {
        assert(rows[0] == rb[0]);
    }
    if b.len() > 0 {
        assert(rows[r.len() as int] == rb[r.len() as int]);
    }
}

/// Everything the estate owes comes in the order the work happens, and no row comes
/// twice: the repository, day 0, the questions, the pack map, the pack graph's findings,
/// the lines without their gate, the schema, raw HCL, the notices, the prerequisites,
/// and last what proves a plan. A compile is owed exactly while the HCL is not emitted,
/// a plan exactly while it is emitted and never initialised, and day 0 exactly for a
/// cloud estate whose HCL directory was never initialised.
pub proof fn law_owed_rows_follow_the_work(f: Facts)
    ensures
        ranked(owed_spec(f), 0, 11),
        forall|i: int, j: int|
            0 <= i < j < owed_spec(f).len() ==> (#[trigger] owed_spec(f)[i]).id@ != (
            #[trigger] owed_spec(f)[j]).id@,
        (exists|i: int| 0 <= i < owed_spec(f).len() && (#[trigger] owed_spec(f)[i]).id@ == "not-transpiled"@)
            <==> !f.hcl.transpiled,
        (exists|i: int| 0 <= i < owed_spec(f).len() && (#[trigger] owed_spec(f)[i]).id@ == "not-planned"@)
            <==> f.hcl.transpiled && !f.hcl.initialised,
        (exists|i: int| 0 <= i < owed_spec(f).len() && (#[trigger] owed_spec(f)[i]).id@ == "bootstrap"@)
            <==> is_cloud(f) && !f.hcl.initialised,
{
    lemma_parts_ranked(f);
    let r = repository_rows(f);
    let b = bootstrap_rows(f);
    let q = questions_rows(f);
    let m = match f.model {
        Some(m) => model_rows(*m),
        None => seq![],
    };
    let n = notices_rows(f);
    let p = prerequisites_rows(f);
    let h = hcl_rows(f);
    lemma_seven(r, b, q, m, n, p, h);
    let rows = owed_spec(f);
    assert(rows == r + b + q + m + n + p + h);
    lemma_ids_revealed();
    assert forall|i: int, j: int| 0 <= i < j < rows.len() implies (#[trigger] rows[i]).id@ != (
    #[trigger] rows[j]).id@ by {
        lemma_ranked_lt(rows, 0, 11, i, j);
    }
    if h.len() > 0 {
        assert(rows[rows.len() - 1] == h[0]);
    }
    if b.len() > 0 {
        assert(rows[r.len() as int] == b[0]);
    }
}

/// An estate outside a work tree owes the repository first, with git's own words and
/// the button that makes one; without git it owes it first with git's error and nothing
/// to press; inside a work tree, or before git was asked, it owes no repository.
pub proof fn law_the_repository_row(f: Facts)
    ensures
        f.work_tree matches Some(WorkTree::Outside(said)) ==> {
            &&& owed_spec(f).len() > 0
            &&& owed_spec(f)[0].id@ == "repository"@
            &&& owed_spec(f)[0].remedies == seq![RemedyV::InitRepository]
            &&& owed_spec(f)[0].detail == OUTSIDE_HEAD@ + said@ + OUTSIDE_TAIL@
        },
        f.work_tree matches Some(WorkTree::NoGit(error)) ==> {
            &&& owed_spec(f).len() > 0
            &&& owed_spec(f)[0].id@ == "repository"@
            &&& owed_spec(f)[0].title == "git is not available"@
            &&& owed_spec(f)[0].remedies.len() == 0
            &&& owed_spec(f)[0].detail == NO_GIT_HEAD@ + error@
        },
        !(f.work_tree matches Some(WorkTree::Outside(_))) && !(f.work_tree matches Some(WorkTree::NoGit(_)))
            ==> forall|i: int| 0 <= i < owed_spec(f).len() ==> (#[trigger] owed_spec(f)[i]).id@ != "repository"@,
{
    lemma_parts_ranked(f);
    let r = repository_rows(f);
    let b = bootstrap_rows(f);
    let q = questions_rows(f);
    let m = match f.model {
        Some(m) => model_rows(*m),
        None => seq![],
    };
    let n = notices_rows(f);
    let p = prerequisites_rows(f);
    let h = hcl_rows(f);
    lemma_seven(r, b, q, m, n, p, h);
    let rows = owed_spec(f);
    assert(rows == r + b + q + m + n + p + h);
    lemma_ids_revealed();
    if r.len() > 0 {
        assert(rows[0] == r[0]);
    }
}

/// The identity card opens with the four rows the file's own params answer — short
/// name, customer, customer ID, organisation ID — read as not read where the file's
/// params were not read; without a questions report it holds those four alone, and with
/// one the rest follow them.
pub proof fn law_identity_opens_with_the_file(
    params: Option<Seq<ParamV>>,
    questions: Option<Seq<QuestionV>>,
)
    ensures
        identity_spec(params, questions).len() >= 4,
        identity_spec(params, questions)[0].label == "Short name"@,
        identity_spec(params, questions)[1].label == "Customer"@,
        identity_spec(params, questions)[2].label == "Customer ID"@,
        identity_spec(params, questions)[3].label == "Organisation ID"@,
        params is None ==> forall|k: int|
            0 <= k < 4 ==> (#[trigger] identity_spec(params, questions)[k]).reading == ReadingV::NotRead,
        questions is None ==> identity_spec(params, questions).len() == 4,
{
    let file = Seq::new(
        file_order().len(),
        |k: int| FactV { label: file_order()[k].1, reading: file_reading(params, file_order()[k].0) },
    );
    let r = identity_spec(params, questions);
    assert forall|k: int| 0 <= k < 4 implies #[trigger] r[k] == file[k] by {
        match questions {
            None => {},
            Some(qs) => {
                let rest = named_rows(core_of(qs), core_order()) + other_rows(core_of(qs));
                assert(r == file + named_rows(core_of(qs), core_order()) + other_rows(core_of(qs)));
                assert(r =~= file + rest);
                assert(r[k] == (file + rest)[k]);
            },
        }
    }
    assert(r[0] == file[0]);
    assert(r[1] == file[1]);
    assert(r[2] == file[2]);
    assert(r[3] == file[3]);
}

/// The count of raw HCL blocks not reviewed is the number of blocks that carry no
/// reason: every block without `trust` counts, once, whatever stands around it.
pub proof fn law_every_unreviewed_block_counts(blocks: Seq<HclBlock>)
    ensures
        untrusted_count(blocks) == blocks.filter(|b: HclBlock| !b.trusted).len(),
        forall|a: Seq<HclBlock>, b: Seq<HclBlock>|
            #![trigger untrusted_count(a + b)]
            untrusted_count(a + b) == untrusted_count(a) + untrusted_count(b),
    decreases blocks.len(),
{
    lemma_untrusted_is_filter(blocks);
    assert forall|a: Seq<HclBlock>, b: Seq<HclBlock>|
        #![trigger untrusted_count(a + b)]
        untrusted_count(a + b) == untrusted_count(a) + untrusted_count(b) by {
        lemma_untrusted_is_filter(a);
        lemma_untrusted_is_filter(b);
        lemma_untrusted_is_filter(a + b);
        Seq::filter_distributes_over_add(a, b, |x: HclBlock| !x.trusted);
    }
}

proof fn lemma_untrusted_is_filter(blocks: Seq<HclBlock>)
    ensures
        untrusted_count(blocks) == blocks.filter(|b: HclBlock| !b.trusted).len(),
    decreases blocks.len(),
{
    reveal(Seq::filter);
    if blocks.len() > 0 {
        lemma_untrusted_is_filter(blocks.drop_last());
    }
}

proof fn lemma_ungated_is_filter(rows: Seq<PackV>)
    ensures
        ungated_count(rows) == rows.filter(|r: PackV| r.line == PackLine::Ungated && r.findings.len() == 0).len(),
    decreases rows.len(),
{
    reveal(Seq::filter);
    if rows.len() > 0 {
        lemma_ungated_is_filter(rows.drop_last());
    }
}

proof fn lemma_kind_is_filter(ds: Seq<Diagnostic>, kind: Seq<char>)
    ensures
        kind_count(ds, kind) == ds.filter(|d: Diagnostic| of_kind(d, kind)).len(),
    decreases ds.len(),
{
    reveal(Seq::filter);
    if ds.len() > 0 {
        lemma_kind_is_filter(ds.drop_last(), kind);
    }
}

/// The counts the overview's rows give are counts of everything they count: the lines
/// without their gate that satz says nothing about, and the compile's diagnostics of a
/// kind — each such line or diagnostic once, whatever stands around it.
pub proof fn law_the_overview_counts_every_one(rows: Seq<PackV>, ds: Seq<Diagnostic>, kind: Seq<char>)
    ensures
        ungated_count(rows) == rows.filter(|r: PackV| r.line == PackLine::Ungated && r.findings.len() == 0).len(),
        kind_count(ds, kind) == ds.filter(|d: Diagnostic| of_kind(d, kind)).len(),
{
    lemma_ungated_is_filter(rows);
    lemma_kind_is_filter(ds, kind);
}

} // verus!
