use std::collections::BTreeMap;

use satz_studio::packs::{
    ABSENT_HEADER, Item, NO_PHASE_HEADER, Node, Section, gate_text, line_chip_face, line_note,
    line_word, listed_requirements, loose_findings, parent_of, phase_header, prompt_of,
    requirement_line, row_findings, sections,
};
use satz_studio::reports::{
    Blast, Finding, FindingSeverity, PackLine, PackRole, PackRow, PacksReport, QuestionKind,
    QuestionOption, QuestionRow, QuestionState, QuestionsReport, QuestionsSummary, Requirement,
    RequirementKind, Reversal,
};

fn need(kind: RequirementKind, any_of: &[&str], met: bool) -> Requirement {
    Requirement { kind, any_of: any_of.iter().map(|p| p.to_string()).collect(), params: Vec::new(), met }
}

fn row(path: &str, at_line: Option<u32>) -> PackRow {
    PackRow {
        path: path.to_string(),
        role: PackRole::Pack,
        gate: Some(format!("use_{}", path.trim_end_matches(".satz"))),
        gate_declared_in: Some("presets/estate-map.satz".to_string()),
        answer: None,
        default: None,
        value: None,
        line: if at_line.is_some() { PackLine::Commented } else { PackLine::Absent },
        at_line,
        written: None,
        gated_on: None,
        deploys: false,
        requires: vec![need(RequirementKind::Gate, &["presets/estate-map.satz"], true)],
        required_by: Vec::new(),
        excludes: Vec::new(),
        by_hand: None,
        findings: Vec::new(),
    }
}

/// `child` needs `parent`, and whether that is met.
fn needs(mut child: PackRow, parent: &str, met: bool) -> PackRow {
    child.requires.push(need(RequirementKind::Data, &[parent], met));
    child
}

fn report(mut packs: Vec<PackRow>) -> PacksReport {
    let mut map = row("presets/estate-map.satz", Some(1));
    map.role = PackRole::EstateMap;
    map.gate = None;
    map.requires = Vec::new();
    map.line = PackLine::Active;
    map.deploys = true;
    packs.insert(0, map);
    PacksReport {
        estate: "C0example.satz".to_string(),
        note: None,
        packs,
        unmanaged: Vec::new(),
        findings: Vec::new(),
    }
}

fn phases(v: &[(u32, &str)]) -> BTreeMap<u32, String> {
    v.iter().map(|(l, p)| (*l, p.to_string())).collect()
}

fn node(n: &Node) -> String {
    if n.children.is_empty() {
        return n.row.path.clone();
    }
    let children: Vec<String> = n.children.iter().map(|b| node(&b.node)).collect();
    format!("{}[{}]", n.row.path, children.join(", "))
}

/// `a[b[d, e], c]` for a tree, `a` for a cell.
fn outline(item: &Item) -> String {
    match item {
        Item::Cell(r) => r.path.clone(),
        Item::Tree(n) => node(n),
    }
}

fn shape(sections: &[Section]) -> Vec<(String, Vec<String>)> {
    sections
        .iter()
        .map(|s| (s.header.clone(), s.items.iter().map(outline).collect()))
        .collect()
}

fn tree<'a>(sections: &'a [Section], root: &str) -> &'a Node {
    sections
        .iter()
        .flat_map(|s| s.items.iter())
        .find_map(|i| match i {
            Item::Tree(n) if n.row.path == root => Some(n),
            _ => None,
        })
        .unwrap_or_else(|| panic!("no tree rooted at {root}: {:?}", shape(sections)))
}

fn owned(v: &[(&str, &[&str])]) -> Vec<(String, Vec<String>)> {
    v.iter()
        .map(|(h, items)| (h.to_string(), items.iter().map(|i| i.to_string()).collect()))
        .collect()
}

#[test]
fn the_header_is_the_phase_comment_s_first_line() {
    assert_eq!(
        phase_header("once the estate runs as the service account — these three stand alone\nmore"),
        "once the estate runs as the service account — these three stand alone"
    );
    assert_eq!(phase_header(""), "");
}

#[test]
fn lines_go_in_file_order_under_their_phase_and_packs_without_one_go_last() {
    let r = report(vec![
        row("c.satz", Some(30)),
        row("z.satz", None),
        row("a.satz", Some(10)),
        row("b.satz", Some(20)),
        row("y.satz", None),
    ]);
    let p = phases(&[(10, "once A\ndetail"), (30, "once C")]);
    assert_eq!(
        shape(&sections(&r, &p)),
        owned(&[
            ("once A", &["a.satz", "b.satz"]),
            ("once C", &["c.satz"]),
            (ABSENT_HEADER, &["z.satz", "y.satz"]),
        ])
    );
}

#[test]
fn a_line_before_any_phase_opens_the_no_phase_section() {
    let r = report(vec![row("a.satz", Some(3))]);
    assert_eq!(sections(&r, &BTreeMap::new())[0].header, NO_PHASE_HEADER);
}

fn scc() -> (PacksReport, BTreeMap<u32, String>) {
    let r = report(vec![
        row("budget.satz", Some(10)),
        row("archive.satz", Some(11)),
        needs(row("alerts.satz", Some(12)), "archive.satz", false),
        row("notify.satz", Some(20)),
        needs(row("siem.satz", Some(30)), "notify.satz", false),
        needs(needs(row("mail.satz", Some(40)), "alerts.satz", false), "notify.satz", false),
        needs(row("sentinel.satz", Some(50)), "archive.satz", false),
    ]);
    let p = phases(&[
        (10, "once alone"),
        (20, "once SCC is on"),
        (30, "once the topic exists"),
        (40, "once the alerts are in"),
        (50, "once the archive"),
    ]);
    (r, p)
}

#[test]
fn a_pack_another_needs_is_a_tree_the_rest_stay_cells_and_children_leave_their_phase() {
    let (r, p) = scc();
    let s = sections(&r, &p);
    assert_eq!(
        shape(&s),
        owned(&[
            ("once alone", &["budget.satz", "archive.satz[alerts.satz[mail.satz], sentinel.satz]"]),
            ("once SCC is on", &["notify.satz[siem.satz]"]),
        ]),
        "the mail hangs from its first requirement; the emptied phases are gone"
    );
    let archive = tree(&s, "archive.satz");
    assert_eq!(archive.children[0].phase, None, "the alerts share its phase");
    assert_eq!(archive.children[1].phase.as_deref(), Some("once the archive"));
    assert_eq!(
        archive.children[0].node.children[0].phase.as_deref(),
        Some("once the alerts are in")
    );
    assert_eq!(
        archive.children[0].requirement.kind,
        RequirementKind::Data,
        "the branch carries satz's requirement"
    );
}

#[test]
fn a_requirement_several_packs_meet_and_the_map_s_hang_a_card_nowhere() {
    let mut billing = row("billing.satz", Some(12));
    billing.requires.insert(0, need(RequirementKind::Requires, &["s1.satz", "s2.satz"], true));
    let r = report(vec![row("s1.satz", Some(10)), row("s2.satz", Some(11)), billing]);
    assert_eq!(
        shape(&sections(&r, &BTreeMap::new())),
        owned(&[(NO_PHASE_HEADER, &["s1.satz", "s2.satz", "billing.satz"])])
    );
}

#[test]
fn a_child_that_deploys_while_its_requirement_is_off_warns_and_the_trunk_leads_to_it() {
    let mut deploys = needs(row("extra.satz", Some(13)), "scc.satz", false);
    deploys.deploys = true;
    let mut met = needs(row("export.satz", Some(12)), "scc.satz", true);
    met.deploys = true;
    let r = report(vec![
        row("scc.satz", Some(10)),
        needs(row("notify.satz", Some(11)), "scc.satz", false),
        met,
        deploys,
    ]);
    let s = sections(&r, &BTreeMap::new());
    let warns: Vec<(bool, bool)> =
        tree(&s, "scc.satz").children.iter().map(|b| (b.warn, b.trunk_warn)).collect();
    assert_eq!(warns, [(false, true), (false, true), (true, false)]);
}

#[test]
fn packs_that_need_each_other_stay_at_the_top_where_the_loop_closes() {
    let r = report(vec![
        needs(row("a.satz", Some(10)), "b.satz", false),
        needs(row("b.satz", Some(11)), "a.satz", false),
    ]);
    assert_eq!(
        shape(&sections(&r, &BTreeMap::new())),
        owned(&[(NO_PHASE_HEADER, &["a.satz[b.satz]"])])
    );
}

#[test]
fn an_absent_child_hangs_under_its_parent_without_a_phase_caption() {
    let r = report(vec![
        row("scc.satz", Some(10)),
        needs(row("notify.satz", None), "scc.satz", false),
    ]);
    let s = sections(&r, &phases(&[(10, "once alone")]));
    assert_eq!(shape(&s), owned(&[("once alone", &["scc.satz[notify.satz]"])]));
    assert_eq!(tree(&s, "scc.satz").children[0].phase, None);
}

#[test]
fn a_card_lists_what_is_off_and_what_the_tree_does_not_draw() {
    let mut mail = needs(row("mail.satz", Some(12)), "alerts.satz", true);
    mail.requires.push(need(RequirementKind::Data, &["notify.satz"], false));
    mail.requires.push(need(RequirementKind::Requires, &["s1.satz", "s2.satz"], true));
    let r = report(vec![row("alerts.satz", Some(10)), mail.clone()]);
    let listed: Vec<Vec<String>> =
        listed_requirements(&mail, &r).into_iter().map(|q| q.any_of.clone()).collect();
    assert_eq!(
        listed,
        [vec!["notify.satz".to_string()], vec!["s1.satz".to_string(), "s2.satz".to_string()]],
        "the map and the drawn parent are not listed while they are met"
    );
    let mut off = mail;
    off.requires[0].met = false;
    assert_eq!(listed_requirements(&off, &r).len(), 3, "the map is listed once off");
}

#[test]
fn an_ungated_line_says_what_it_means_and_names_its_gate() {
    let mut budget = row("presets/organization-budget.satz", Some(12));
    budget.line = PackLine::Ungated;
    let gate = budget.gate.clone().unwrap();
    let note = line_note(&budget).expect("an ungated line carries a note");
    assert!(note.contains(&format!("when {gate}")), "{note}");
    assert!(note.contains("comment the line out"), "{note}");

    let mut misplaced = budget.clone();
    misplaced.line = PackLine::Misplaced;
    assert!(
        line_note(&misplaced).is_some_and(|n| n.contains("outside the block the pack graph places")),
        "a misplaced line carries a note"
    );

    budget.line = PackLine::Active;
    assert_eq!(line_note(&budget), None);

    budget.line = PackLine::Ungated;
    budget.findings =
        vec!["`presets/organization-budget.satz` is used without `when use_budget`".to_string()];
    assert_eq!(line_note(&budget), None);
}

#[test]
fn a_finding_carries_the_command_satz_names_for_it() {
    let mut logsink = row("presets/monitoring/organization-audit-logsink.satz", Some(9));
    logsink.findings = vec!["needs the map".to_string(), "another".to_string()];
    let mut r = report(vec![logsink.clone()]);
    let finding = |subject: &str, message: &str, fix: Option<&str>| Finding {
        severity: FindingSeverity::Warning,
        kind: "pack-requirement".to_string(),
        group: None,
        file: None,
        line: Some(9),
        subject: Some(subject.to_string()),
        message: message.to_string(),
        fix: fix.map(str::to_string),
    };
    r.findings = vec![
        finding(
            &logsink.path,
            "needs the map",
            Some("satz add-pack C0example.satz presets/estate-map.satz"),
        ),
        finding("presets/gone.satz", "a pack the graph has no row for", None),
    ];
    assert_eq!(
        row_findings(&r, &logsink),
        [
            (
                "needs the map".to_string(),
                Some("satz add-pack C0example.satz presets/estate-map.satz".to_string())
            ),
            ("another".to_string(), None),
        ]
    );
    let loose = loose_findings(&r);
    assert_eq!(loose.len(), 1);
    assert_eq!(loose[0].message, "a pack the graph has no row for");
}

#[test]
fn a_single_menu_pack_requirement_names_the_parent() {
    let child = needs(row("b.satz", Some(2)), "a.satz", false);
    let r = report(vec![row("a.satz", Some(1)), child.clone()]);
    let (path, req) = parent_of(&child, &r.packs).unwrap();
    assert_eq!(path, "a.satz");
    assert_eq!(req.kind, RequirementKind::Data);
    // the map is no menu pack: its requirement hangs nothing
    assert!(parent_of(&row("c.satz", Some(3)), &r.packs).is_none());
}

#[test]
fn the_gate_reads_its_value_and_where_it_comes_from() {
    let mut budget = row("budget.satz", Some(4));
    assert_eq!(gate_text(&budget, "use_budget"), "use_budget = unset");
    budget.value = Some(true);
    budget.default = Some("false".into());
    assert_eq!(gate_text(&budget, "use_budget"), "use_budget = true (default false)");
    budget.answer = Some("true".into());
    assert_eq!(gate_text(&budget, "use_budget"), "use_budget = true (answered true)");
}

#[test]
fn a_line_chip_names_its_state_and_line() {
    let mut r = row("a.satz", Some(12));
    assert_eq!(line_chip_face(&r), ("radio_button_unchecked", false, "commented out · line 12".to_string()));
    r.line = PackLine::Ungated;
    r.deploys = true;
    assert_eq!(line_chip_face(&r), ("check_circle", true, "ungated · line 12".to_string()));
    r.at_line = None;
    r.line = PackLine::Absent;
    assert_eq!(line_chip_face(&r).2, "absent");
    assert_eq!(line_word(PackLine::Forked), "forked");
}

#[test]
fn a_gate_question_gives_its_prompt() {
    let mut q = QuestionRow {
        subject: "security_model".into(),
        kind: QuestionKind::Oneof,
        prompt: "Which model?".into(),
        why: Some("it decides the groups".into()),
        reversal: Reversal::Edit,
        blast: Blast::Low,
        state: QuestionState::Unanswered,
        blocking: false,
        required: true,
        default: None,
        current: None,
        recommend: None,
        empty: None,
        options: vec![QuestionOption {
            param: "security_model_s1".into(),
            label: "S1".into(),
            selected: false,
            why: None,
        }],
        pack: "estate_map".into(),
        pack_description: "d".into(),
        from: "f".into(),
    };
    let mut report = QuestionsReport {
        estate: "C0example.satz".into(),
        questions: vec![q.clone()],
        summary: QuestionsSummary::default(),
    };
    assert_eq!(
        prompt_of(&report, "security_model_s1"),
        Some(("Which model? — S1".to_string(), Some("it decides the groups".to_string())))
    );
    assert_eq!(
        prompt_of(&report, "security_model"),
        Some(("Which model?".to_string(), Some("it decides the groups".to_string())))
    );
    assert_eq!(prompt_of(&report, "use_budget"), None);
    q.options[0].why = Some("the smaller one".into());
    report.questions = vec![q];
    assert_eq!(prompt_of(&report, "security_model_s1").unwrap().1.as_deref(), Some("the smaller one"));
}

#[test]
fn the_map_heads_the_page_and_is_in_no_section() {
    let r = report(vec![
        row("a.satz", Some(10)),
        needs(row("b.satz", Some(20)), "a.satz", true),
        needs(row("c.satz", None), "presets/estate-map.satz", false),
    ]);
    let s = sections(&r, &phases(&[(10, "one")]));
    let all: Vec<String> = s.iter().flat_map(|s| s.items.iter().map(outline)).collect();
    assert!(all.iter().all(|i| !i.contains("estate-map")), "{all:?}");
    assert!(s.iter().all(|s| s.items.iter().all(|i| match i {
        Item::Cell(row) => row.role != PackRole::EstateMap,
        Item::Tree(n) => n.row.role != PackRole::EstateMap,
    })));
}

#[test]
fn a_requirement_line_names_its_packs_its_params_and_the_one_switch() {
    let mut data = need(RequirementKind::Data, &["a.satz", "b.satz"], false);
    data.params = vec!["x".to_string(), "y".to_string()];
    assert_eq!(
        requirement_line(&data),
        (false, "a.satz or b.satz".to_string(), Some("x, y".to_string()), None)
    );
    let one = need(RequirementKind::Gate, &["a.satz"], false);
    assert_eq!(requirement_line(&one), (false, "a.satz".to_string(), None, Some("a.satz".to_string())));
    let met = need(RequirementKind::Data, &["a.satz"], true);
    assert_eq!(requirement_line(&met), (true, "a.satz".to_string(), None, None));
}
