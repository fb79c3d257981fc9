use std::collections::BTreeMap;

use satz_studio::context::{ContextInput, diagnostic_line, estate_context, questions_line};
use satz_studio::model::{
    DiagSource, Diagnostic, EstateModel, ResourceKind, ResourceNode, SchemaStatus, Severity,
};
use satz_studio::reports::{PacksReport, QuestionsReport, QuestionsSummary};

fn node(kind: ResourceKind, key: &str, tf_type: Option<&str>, label: Option<&str>) -> ResourceNode {
    ResourceNode {
        id: 0,
        kind,
        key: key.to_string(),
        label: label.map(str::to_string),
        tf_type: tf_type.map(str::to_string),
        line: 1,
        attrs: Vec::new(),
        children: Vec::new(),
    }
}

#[test]
fn the_context_renders_the_outline_the_questions_and_the_diagnostics() {
    let mut map = node(ResourceKind::ResourceMap, "google_folder", Some("google_folder"), None);
    let mut infra = node(ResourceKind::Resource, "infra", Some("google_folder"), None);
    infra.children.push(node(ResourceKind::NestedBlock, "lifecycle", None, None));
    infra.children.push(node(ResourceKind::Resource, "google_project", Some("google_project"), Some("acme-infra")));
    map.children.push(infra);
    let model = EstateModel {
        outline: vec![
            node(ResourceKind::Config, "terraform", None, None),
            map,
            node(ResourceKind::Unknown, "mystery", None, Some("x")),
        ],
        params: Vec::new(),
        packs: PacksReport {
            estate: "C0example.satz".into(),
            note: None,
            packs: Vec::new(),
            unmanaged: Vec::new(),
            findings: Vec::new(),
        },
        phases: BTreeMap::new(),
        hcl: Vec::new(),
        schema: SchemaStatus::Missing("/estates/acme/schema".into()),
    };
    let questions = QuestionsReport {
        estate: "C0example.satz".into(),
        questions: Vec::new(),
        summary: QuestionsSummary {
            total: 16,
            answered: 12,
            unanswered: 4,
            not_applicable: 0,
            blocking: 1,
            one_way_doors: 2,
            complete: false,
        },
    };
    let diagnostics = vec![
        Diagnostic::error("unknown key `foo`\n  in block bar", DiagSource::Parse)
            .at("/estates/acme/C0example.satz", 12),
        Diagnostic::error("questions failed", DiagSource::Tool("satz_questions".into())),
    ];
    let context = estate_context(&ContextInput {
        main: "/estates/acme/C0example.satz",
        dir: "/estates/acme",
        runs_as: Some("svc-iac@acme-infra.iam.gserviceaccount.com"),
        deployment_mode: Some("cloud"),
        model: Some(&model),
        questions: Some(&questions),
        diagnostics: &diagnostics,
    });
    assert_eq!(
        context.outline,
        vec![
            "terraform",
            "google_folder",
            "  google_folder \"infra\"",
            "    google_project \"acme-infra\"",
            "mystery \"x\"",
        ]
    );
    assert_eq!(
        context.questions_summary.as_deref(),
        Some("12 of 16 answered, 4 unanswered (1 blocking), 0 not applicable; incomplete")
    );
    assert_eq!(context.diagnostics, vec!["error: C0example.satz:12: unknown key `foo`", "error: questions failed"]);
    assert_eq!(context.path, "/estates/acme/C0example.satz");
    assert_eq!(context.runs_as.as_deref(), Some("svc-iac@acme-infra.iam.gserviceaccount.com"));
    assert_eq!(context.deployment_mode.as_deref(), Some("cloud"));
}

#[test]
fn an_estate_without_a_model_renders_the_path_alone() {
    let context = estate_context(&ContextInput {
        main: "/estates/acme/C0example.satz",
        dir: "/estates/acme",
        runs_as: None,
        deployment_mode: None,
        model: None,
        questions: None,
        diagnostics: &[],
    });
    assert_eq!(context.path, "/estates/acme/C0example.satz");
    assert_eq!(context.runs_as, None);
    assert_eq!(context.deployment_mode, None);
    assert_eq!(context.questions_summary, None);
    assert!(context.diagnostics.is_empty());
    assert!(context.outline.is_empty());
}

#[test]
fn a_diagnostic_line_names_what_it_has() {
    let mut d = Diagnostic::error("m", DiagSource::Check);
    d.severity = Severity::Warning;
    assert_eq!(diagnostic_line(&d, "/e"), "warning: m");
    d.line = Some(3);
    assert_eq!(diagnostic_line(&d, "/e"), "warning: line 3: m");
    d.file = Some("/elsewhere/x.satz".into());
    d.line = None;
    assert_eq!(diagnostic_line(&d, "/e"), "warning: /elsewhere/x.satz: m");
    d.severity = Severity::Info;
    d.file = Some("/e/sub/y.satz".into());
    d.line = Some(9);
    assert_eq!(diagnostic_line(&d, "/e"), "info: sub/y.satz:9: m");
}

#[test]
fn a_complete_report_reads_complete() {
    let s = QuestionsSummary { total: 2, answered: 2, unanswered: 0, not_applicable: 0, blocking: 0, one_way_doors: 0, complete: true };
    assert_eq!(questions_line(&s), "2 of 2 answered, 0 unanswered (0 blocking), 0 not applicable; complete");
}
