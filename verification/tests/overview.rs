use std::collections::BTreeMap;

use satz_studio::json::Json;
use satz_studio::model::{
    DiagSource, Diagnostic, EstateModel, HclBlock, HclState, ParamRow, SchemaStatus, SourceValue,
    StrPart, WorkTree,
};
use satz_studio::overview::{
    CORE_PACK, Destination, Fact, Facts, Owed, Reading, Remedy, RunsAs, identity, label_for,
    owed, runs_as_row, source_line,
};
use satz_studio::reports::{
    Blast, Finding, FindingSeverity, PackLine, PackRole, PackRow, PacksReport, QuestionKind,
    QuestionRow, QuestionState, QuestionsReport, QuestionsSummary, Reversal,
};

fn s(v: &str) -> Json {
    Json::Str(v.to_string())
}

/// One report row: `current` is the estate's own answer and is absent while the
/// question is unanswered.
fn row(subject: &str, pack: &str, current: Option<Json>) -> QuestionRow {
    QuestionRow {
        subject: subject.to_string(),
        kind: QuestionKind::Param,
        prompt: "p".to_string(),
        why: None,
        reversal: Reversal::Edit,
        blast: Blast::Low,
        state: if current.is_some() { QuestionState::Answered } else { QuestionState::Unanswered },
        blocking: false,
        required: false,
        default: None,
        current,
        recommend: None,
        empty: None,
        options: vec![],
        pack: pack.to_string(),
        pack_description: "d".to_string(),
        from: "presets/estate-core.satz".to_string(),
    }
}

fn report(questions: Vec<QuestionRow>) -> QuestionsReport {
    QuestionsReport {
        estate: "C0example.satz".to_string(),
        questions,
        summary: QuestionsSummary::default(),
    }
}

fn labels(facts: &[Fact]) -> Vec<&str> {
    facts.iter().map(|f| f.label.as_str()).collect()
}

/// The rows that follow the four the file answers: the questions report's.
fn answered_rows(facts: &[Fact]) -> &[Fact] {
    &facts[4..]
}

fn value(text: &str) -> Reading {
    Reading::Value(text.to_string())
}

fn param(name: &str, text: &str) -> ParamRow {
    ParamRow {
        id: 0,
        name: name.to_string(),
        value: SourceValue::Str { raw: text.to_string(), parts: vec![StrPart::Lit(text.to_string())] },
        question: None,
        one_way_door: false,
        line: 1,
    }
}

fn whose() -> Vec<ParamRow> {
    let mut org = param("customer_organization_id", "");
    org.value = SourceValue::Num("123456789012".to_string());
    vec![
        param("customer_id", "C0example"),
        param("customer_longname", "Acme Corp."),
        param("default_region", "europe-west3"),
        org,
        param("customer_shortname", "acme"),
    ]
}

#[test]
fn the_file_s_own_params_say_whose_estate_it_is_without_a_questions_report() {
    let facts = identity(Some(&whose()), None);
    assert_eq!(
        facts,
        [
            Fact { label: "Short name".to_string(), reading: value("acme") },
            Fact { label: "Customer".to_string(), reading: value("Acme Corp.") },
            Fact { label: "Customer ID".to_string(), reading: value("C0example") },
            Fact { label: "Organisation ID".to_string(), reading: value("123456789012") },
        ]
    );
}

#[test]
fn with_the_core_report_each_subject_still_shows_once() {
    let r = report(vec![
        row("default_region", CORE_PACK, Some(s("europe-west3"))),
        row("customer_id", CORE_PACK, Some(s("C0example"))),
        row("customer_longname", CORE_PACK, Some(s("Acme Corp."))),
        row("customer_shortname", CORE_PACK, Some(s("acme"))),
        row("customer_organization_id", CORE_PACK, Some(s("123456789012"))),
    ]);
    let facts = identity(Some(&whose()), Some(&r));
    assert_eq!(labels(&facts), ["Short name", "Customer", "Customer ID", "Organisation ID", "Region"]);
    assert_eq!(facts[0].reading, value("acme"));
    assert_eq!(facts[4].reading, value("europe-west3"));
}

#[test]
fn a_param_the_file_does_not_set_reads_not_set_and_an_unread_file_says_so() {
    let mut offered = row("customer_longname", CORE_PACK, None);
    offered.default = Some(s("Acme Corp."));
    let r = report(vec![offered]);
    let facts = identity(Some(&[param("customer_shortname", "acme"), param("customer_id", "")]), Some(&r));
    assert_eq!(
        facts.iter().map(|f| &f.reading).collect::<Vec<_>>(),
        [&value("acme"), &Reading::NotSet, &Reading::Empty, &Reading::NotSet]
    );
    assert!(identity(None, Some(&r)).iter().all(|f| f.reading == Reading::NotRead));
}

#[test]
fn a_file_value_reads_as_one_line() {
    let mut long = param("customer_longname", "");
    long.value = SourceValue::Str {
        raw: "{customer_shortname} at ${var.site}".to_string(),
        parts: vec![
            StrPart::Param { name: "customer_shortname".to_string(), resolved: Some(s("acme")) },
            StrPart::Lit(" at ".to_string()),
            StrPart::TfRef("var.site".to_string()),
        ],
    };
    let mut id = param("customer_id", "");
    id.value = SourceValue::List(vec![
        SourceValue::Str { raw: "C0example".to_string(), parts: vec![StrPart::Lit("C0example".to_string())] },
        SourceValue::Bool(true),
    ]);
    let facts = identity(Some(&[long, id]), None);
    assert_eq!(facts[1].reading, value("acme at ${var.site}"));
    assert_eq!(facts[2].reading, value("C0example, yes"));
}

#[test]
fn an_unanswered_question_carries_no_value() {
    let r = report(vec![row("customer_domain", CORE_PACK, None)]);
    let facts = identity(Some(&[]), Some(&r));
    assert_eq!(labels(answered_rows(&facts)), ["Domain"]);
    assert_eq!(answered_rows(&facts)[0].reading, Reading::NotAnswered);
}

#[test]
fn pack_questions_and_deployment_mode_are_not_rows() {
    let r = report(vec![
        row("use_budget", "organization-budget", Some(Json::Bool(true))),
        row("deployment_mode", CORE_PACK, Some(s("cloud"))),
        row("customer_domain", CORE_PACK, Some(s("example.com"))),
    ]);
    assert_eq!(labels(answered_rows(&identity(Some(&[]), Some(&r)))), ["Domain"]);
}

#[test]
fn a_core_question_without_a_written_label_still_shows() {
    let r = report(vec![
        row("default_zone", CORE_PACK, Some(s("europe-west3-a"))),
        row("customer_second_domain", CORE_PACK, Some(s("example.net"))),
    ]);
    let facts = identity(Some(&[]), Some(&r));
    assert_eq!(labels(answered_rows(&facts)), ["Zone", "Customer second domain"]);
}

#[test]
fn no_report_and_no_core_pack_leave_only_the_file_s_rows() {
    assert!(answered_rows(&identity(Some(&[]), None)).is_empty());
    let r = report(vec![row("use_budget", "organization-budget", None)]);
    assert!(answered_rows(&identity(Some(&[]), Some(&r))).is_empty());
}

#[test]
fn a_value_reads_as_one_line() {
    let r = report(vec![
        row("first_admin", CORE_PACK, Some(Json::Array(vec![s("a@example.com"), s("b@example.com")]))),
        row("customer_domain", CORE_PACK, Some(Json::Bool(true))),
    ]);
    let facts = identity(Some(&[]), Some(&r));
    let rows = answered_rows(&facts);
    assert_eq!(labels(rows), ["Domain", "First admin"]);
    assert_eq!(rows[0].reading, value("yes"));
    assert_eq!(rows[1].reading, value("a@example.com, b@example.com"));
}

fn model(packs: PacksReport, schema: SchemaStatus) -> EstateModel {
    EstateModel { outline: Vec::new(), params: Vec::new(), packs, phases: BTreeMap::new(), hcl: Vec::new(), schema }
}

fn loaded() -> SchemaStatus {
    SchemaStatus::Loaded { providers: vec!["google".to_string()], resources: 45 }
}

fn map_row(map: PackLine) -> PackRow {
    PackRow {
        path: "presets/estate-map.satz".to_string(),
        role: PackRole::EstateMap,
        gate: None,
        gate_declared_in: None,
        answer: None,
        default: None,
        value: None,
        line: map,
        at_line: if map != PackLine::Absent { Some(4) } else { None },
        written: None,
        gated_on: None,
        deploys: map == PackLine::Active,
        requires: Vec::new(),
        required_by: Vec::new(),
        excludes: Vec::new(),
        by_hand: None,
        findings: Vec::new(),
    }
}

/// A report whose map line stands as `map` and that carries `findings` pack findings.
fn packs(map: PackLine, findings: usize) -> PacksReport {
    PacksReport {
        estate: "C0example.satz".to_string(),
        note: None,
        packs: vec![map_row(map)],
        unmanaged: Vec::new(),
        findings: (0..findings)
            .map(|i| Finding {
                severity: FindingSeverity::Warning,
                kind: "unadopted-pack".to_string(),
                group: None,
                file: None,
                line: None,
                subject: Some("presets/organization-budget.satz".to_string()),
                message: format!("finding {i}"),
                fix: None,
            })
            .collect(),
    }
}

fn questions(unanswered: usize, blocking: usize) -> QuestionsReport {
    QuestionsReport {
        estate: "C0example.satz".to_string(),
        questions: Vec::new(),
        summary: QuestionsSummary {
            total: 16,
            answered: 16 - unanswered,
            unanswered,
            not_applicable: 0,
            blocking,
            one_way_doors: 0,
            complete: unanswered == 0,
        },
    }
}

fn facts<'a>(
    mode: Option<&'a str>,
    hcl: HclState,
    q: Option<&'a QuestionsReport>,
    m: Option<&'a EstateModel>,
    d: &'a [Diagnostic],
) -> Facts<'a> {
    Facts {
        estate: "C0example.satz",
        deployment_mode: mode,
        hcl,
        work_tree: Some(&WorkTree::Inside),
        questions: q,
        model: m,
        diagnostics: d,
        held_notices: 0,
    }
}

fn ids(rows: &[Owed]) -> Vec<&'static str> {
    rows.iter().map(|r| r.id).collect()
}

fn done() -> HclState {
    HclState { transpiled: true, initialised: true }
}

#[test]
fn an_estate_that_owes_nothing_has_no_rows() {
    let m = model(packs(PackLine::Active, 0), loaded());
    let q = questions(0, 0);
    let rows = owed(&facts(Some("cloud"), done(), Some(&q), Some(&m), &[]));
    assert!(rows.is_empty(), "{:?}", ids(&rows));
}

#[test]
fn day_zero_is_owed_by_a_cloud_estate_whose_hcl_was_never_initialised_and_by_no_local_one() {
    let m = model(packs(PackLine::Active, 0), loaded());
    let q = questions(0, 0);
    let fresh = HclState::default();
    let rows = owed(&facts(Some("cloud"), fresh, Some(&q), Some(&m), &[]));
    assert_eq!(ids(&rows), ["bootstrap", "not-transpiled"]);
    let day_zero = &rows[0];
    assert_eq!(day_zero.remedies.len(), 2, "a check and a hand-off");
    assert!(matches!(day_zero.remedies[0], Remedy::Run { .. }));
    assert!(matches!(day_zero.remedies[1], Remedy::Terminal { .. }));
    let rows = owed(&facts(Some("local"), fresh, Some(&q), Some(&m), &[]));
    assert_eq!(ids(&rows), ["not-transpiled"]);
}

#[test]
fn a_directory_that_was_never_initialised_is_the_only_proof_that_no_plan_has_run() {
    let m = model(packs(PackLine::Active, 0), loaded());
    let q = questions(0, 0);
    let emitted = HclState { transpiled: true, initialised: false };
    assert_eq!(ids(&owed(&facts(Some("local"), emitted, Some(&q), Some(&m), &[]))), ["not-planned"]);
    assert!(owed(&facts(Some("local"), done(), Some(&q), Some(&m), &[])).is_empty());
}

#[test]
fn the_questions_row_counts_the_unanswered_and_names_the_blocking() {
    let m = model(packs(PackLine::Active, 0), loaded());
    let q = questions(4, 2);
    let rows = owed(&facts(Some("local"), done(), Some(&q), Some(&m), &[]));
    assert_eq!(ids(&rows), ["questions"]);
    assert_eq!(rows[0].title, "4 questions are unanswered");
    assert!(rows[0].detail.starts_with("2 of them"));
    assert_eq!(rows[0].remedies, [Remedy::Go(Destination::Decisions)]);
}

#[test]
fn a_map_that_is_off_one_that_is_absent_and_the_pack_findings_are_three_rows() {
    let q = questions(0, 0);
    let hcl = done();
    let m = model(packs(PackLine::Commented, 0), loaded());
    assert_eq!(ids(&owed(&facts(None, hcl, Some(&q), Some(&m), &[]))), ["map-off"]);
    let m = model(packs(PackLine::Absent, 0), loaded());
    assert_eq!(ids(&owed(&facts(None, hcl, Some(&q), Some(&m), &[]))), ["map-absent"]);
    let m = model(packs(PackLine::Active, 2), loaded());
    let rows = owed(&facts(None, hcl, Some(&q), Some(&m), &[]));
    assert_eq!(ids(&rows), ["pack-findings"]);
    assert_eq!(rows[0].title, "The pack graph has 2 findings");
    assert_eq!(rows[0].detail, "finding 0");
    assert_eq!(rows[0].remedies, [Remedy::Go(Destination::Packs)]);
}

fn ungated_report(findings: Vec<String>) -> PacksReport {
    let mut report = packs(PackLine::Commented, 0);
    report.packs.push(PackRow {
        path: "presets/organization-budget.satz".to_string(),
        role: PackRole::Pack,
        gate: Some("use_budget".to_string()),
        gate_declared_in: Some("presets/estate-map.satz".to_string()),
        answer: None,
        default: None,
        value: None,
        line: PackLine::Ungated,
        at_line: Some(12),
        written: None,
        gated_on: None,
        deploys: true,
        requires: Vec::new(),
        required_by: Vec::new(),
        excludes: Vec::new(),
        by_hand: None,
        findings,
    });
    report
}

#[test]
fn a_line_without_its_gate_is_a_row_of_its_own_until_satz_says_it() {
    let q = questions(0, 0);
    let hcl = done();
    let m = model(ungated_report(Vec::new()), loaded());
    let rows = owed(&facts(None, hcl, Some(&q), Some(&m), &[]));
    assert_eq!(ids(&rows), ["map-off", "ungated-lines"]);
    assert_eq!(rows[1].title, "1 pack line has no gate");
    assert_eq!(rows[1].remedies, [Remedy::Go(Destination::Packs)]);

    let m = model(ungated_report(vec!["is used without `when use_budget`".to_string()]), loaded());
    assert_eq!(ids(&owed(&facts(None, hcl, Some(&q), Some(&m), &[]))), ["map-off"]);
}

#[test]
fn a_missing_schema_names_the_directory_and_offers_the_command_that_fills_it() {
    let q = questions(0, 0);
    let m = model(packs(PackLine::Active, 0), SchemaStatus::Missing("/estates/acme/schema".to_string()));
    let rows = owed(&facts(None, done(), Some(&q), Some(&m), &[]));
    assert_eq!(ids(&rows), ["schema"]);
    assert!(rows[0].detail.contains("/estates/acme/schema"));
    assert!(matches!(
        &rows[0].remedies[0],
        Remedy::Run { args, .. } if args == &["update-schema".to_string()]
    ));
}

#[test]
fn raw_hcl_is_owed_until_it_carries_a_reason() {
    let q = questions(0, 0);
    let hcl = done();
    let mut m = model(packs(PackLine::Active, 0), loaded());
    m.hcl = vec![HclBlock { line: 12, trusted: false }, HclBlock { line: 40, trusted: true }];
    let rows = owed(&facts(None, hcl, Some(&q), Some(&m), &[]));
    assert_eq!(ids(&rows), ["hcl-trust"]);
    assert_eq!(rows[0].title, "1 raw HCL block has not been reviewed");
    m.hcl = vec![HclBlock { line: 12, trusted: true }];
    assert!(owed(&facts(None, hcl, Some(&q), Some(&m), &[])).is_empty());
}

#[test]
fn the_notices_row_counts_the_compiles_own_findings_and_offers_the_dialog_it_holds() {
    let q = questions(0, 0);
    let m = model(packs(PackLine::Active, 0), loaded());
    let hcl = done();
    let notice = |message: &str| {
        let mut d = Diagnostic::error(message, DiagSource::Check);
        d.kind = Some("notice".to_string());
        d
    };
    let two = [notice("the baseline asks for adopt"), notice("so does the SSH pack")];
    let rows = owed(&facts(None, hcl, Some(&q), Some(&m), &two));
    assert_eq!(ids(&rows), ["notices"]);
    assert_eq!(rows[0].title, "2 packs ask for a command to be run");
    assert_eq!(rows[0].remedies, [], "this session opened neither of them");
    let mut held = facts(None, hcl, Some(&q), Some(&m), &two);
    held.held_notices = 1;
    assert_eq!(owed(&held)[0].remedies, [Remedy::ShowNotices]);
    let none: [Diagnostic; 0] = [];
    assert!(owed(&facts(None, hcl, Some(&q), Some(&m), &none)).is_empty());
}

#[test]
fn the_prerequisites_row_comes_from_the_compiles_own_finding() {
    let q = questions(0, 0);
    let m = model(packs(PackLine::Active, 0), loaded());
    let hcl = done();
    let mut d = Diagnostic::error("the IaC service account lacks roles", DiagSource::Check);
    d.kind = Some("prerequisites".to_string());
    let rows = owed(&facts(None, hcl, Some(&q), Some(&m), std::slice::from_ref(&d)));
    assert_eq!(ids(&rows), ["prerequisites"]);
    assert_eq!(rows[0].remedies, [Remedy::Go(Destination::Checks)]);
    d.kind = Some("missing-required".to_string());
    assert!(owed(&facts(None, hcl, Some(&q), Some(&m), std::slice::from_ref(&d))).is_empty());
}

#[test]
fn an_estate_outside_a_repository_owes_one_with_the_fix_offered_and_git_s_own_words() {
    let q = questions(0, 0);
    let m = model(packs(PackLine::Active, 0), loaded());
    let outside = WorkTree::Outside(
        "fatal: not a git repository (or any of the parent directories): .git".to_string(),
    );
    let mut f = facts(None, done(), Some(&q), Some(&m), &[]);
    f.work_tree = Some(&outside);
    let rows = owed(&f);
    assert_eq!(ids(&rows), ["repository"]);
    assert_eq!(rows[0].remedies, [Remedy::InitRepository]);
    assert!(rows[0].detail.contains("fatal: not a git repository"));
    assert!(rows[0].detail.contains("merge-presets"));
}

#[test]
fn without_git_the_row_names_git_and_offers_nothing_to_press() {
    let q = questions(0, 0);
    let m = model(packs(PackLine::Active, 0), loaded());
    let missing = WorkTree::NoGit("running git: No such file or directory".to_string());
    let mut f = facts(None, done(), Some(&q), Some(&m), &[]);
    f.work_tree = Some(&missing);
    let rows = owed(&f);
    assert_eq!(ids(&rows), ["repository"]);
    assert_eq!(rows[0].title, "git is not available");
    assert!(rows[0].remedies.is_empty());
    assert!(rows[0].detail.contains("No such file or directory"));
}

#[test]
fn a_repository_or_a_fact_not_yet_read_owes_nothing() {
    let q = questions(0, 0);
    let m = model(packs(PackLine::Active, 0), loaded());
    let mut f = facts(None, done(), Some(&q), Some(&m), &[]);
    assert!(owed(&f).is_empty());
    f.work_tree = None;
    assert!(owed(&f).is_empty());
}

const ACCOUNT: &str = "svc-iac-001@acme-infra-001.iam.gserviceaccount.com";

#[test]
fn an_account_satz_open_names_is_impersonated() {
    assert_eq!(runs_as_row(Some(ACCOUNT), Some("cloud")), RunsAs::Impersonated(ACCOUNT));
}

#[test]
fn local_mode_runs_as_the_credentials_and_names_the_switch() {
    for mode in [Some("local"), None] {
        let RunsAs::Credentials(why) = runs_as_row(None, mode) else {
            panic!("local mode impersonates nothing");
        };
        assert!(why.starts_with("local mode;"), "{why}");
        assert!(why.contains("`satz migrate --mode cloud`"), "{why}");
        assert!(!why.contains("declares no"), "{why}");
    }
}

#[test]
fn cloud_mode_without_an_account_says_the_estate_declares_none() {
    let RunsAs::Credentials(why) = runs_as_row(None, Some("cloud")) else {
        panic!("nothing is impersonated");
    };
    assert!(why.contains("declares no IaC service account"), "{why}");
    assert!(!why.contains("migrate"), "{why}");
}

#[test]
fn a_bootstrap_row_names_the_dry_run_of_its_estate() {
    let m = model(packs(PackLine::Active, 0), loaded());
    let q = questions(0, 0);
    let rows = owed(&facts(Some("cloud"), HclState::default(), Some(&q), Some(&m), &[]));
    assert!(rows[0].detail.ends_with("satz bootstrap C0example.satz --dry-run"));
    assert_eq!(
        rows[0].remedies[0],
        Remedy::Run {
            label: "Check day 0",
            icon: "fact_check",
            args: vec!["bootstrap".into(), "C0example.satz".into(), "--dry-run".into()],
        }
    );
}

#[test]
fn one_unanswered_question_with_defaults_reads_in_the_singular() {
    let q = questions(1, 0);
    let rows = owed(&facts(Some("local"), done(), Some(&q), None, &[]));
    assert_eq!(ids(&rows), ["questions"]);
    assert_eq!(rows[0].title, "1 question is unanswered");
    assert!(rows[0].detail.starts_with("Every one of them offers a default"));
}

#[test]
fn labels_capitalise_the_first_word() {
    assert_eq!(label_for("svc_iac_users_group"), "Svc iac users group");
    assert_eq!(label_for(""), "");
    assert_eq!(label_for("é_x"), "É x");
}

#[test]
fn a_reference_and_an_object_read_as_one_line() {
    assert_eq!(source_line(&SourceValue::Ref { param: "region".into(), resolved: None }), "region");
    assert_eq!(
        source_line(&SourceValue::Ref { param: "region".into(), resolved: Some(s("europe-west3")) }),
        "europe-west3"
    );
    assert_eq!(source_line(&SourceValue::Obj), "an object");
    assert_eq!(
        source_line(&SourceValue::Str {
            raw: "{x}".into(),
            parts: vec![StrPart::Param { name: "x".into(), resolved: None }]
        }),
        "{x}"
    );
    assert_eq!(source_line(&SourceValue::Num("3".into())), "3");
}
