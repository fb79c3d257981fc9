use satz_studio::json::{Json, parse};
use satz_studio::summary::{approval_text, summary_line};

/// A questions report of the shape `satz_questions` answers with.
fn questions_report() -> String {
    let mut questions = Vec::new();
    for i in 0..28 {
        questions.push(format!(
            "{{\"subject\": \"q{i}\", \"kind\": \"param\", \"state\": \"unanswered\"}}"
        ));
    }
    format!(
        "{{\"estate\": \"C0example.satz\", \"questions\": [{}], \"summary\": {{\"total\": 28}}}}",
        questions.join(", ")
    )
}

fn json(text: &str) -> Json {
    parse(text).expect("the test's JSON parses")
}

#[test]
fn a_result_object_is_summed_up_by_its_top_level_counts() {
    let questions = questions_report();
    let count = match json(&questions) {
        Json::Object(members) => members
            .iter()
            .find_map(|(k, v)| match v {
                Json::Array(items) if k == "questions" => Some(items.len()),
                _ => None,
            })
            .unwrap(),
        _ => panic!("an object"),
    };
    assert_eq!(summary_line(&questions, false), format!("questions: {count}"));
    let check = r#"{"estate": "C0example.satz", "addresses": ["google_folder.infra"], "written": [], "findings": []}"#;
    let line = summary_line(check, false);
    assert!(line.contains("addresses: 1"), "{line}");
    assert!(line.contains("findings: 0"), "{line}");
    assert!(!line.contains("C0example"), "{line}");
}

#[test]
fn a_result_without_an_array_is_its_short_fields_and_prose_is_its_first_line() {
    assert_eq!(summary_line("{\"written\": true}", false), "written: true");
    assert_eq!(summary_line("{}", false), "an empty result");
    assert_eq!(
        summary_line("{\"a\": {\"b\": 1}}", false),
        "1 fields",
        "a nested object is counted, never shown"
    );
    assert_eq!(summary_line("[1, 2]", false), "2 items");
    assert_eq!(summary_line("\n  compiled\nmore", false), "compiled");
    assert_eq!(summary_line("", false), "no output");
}

#[test]
fn a_refusal_is_its_first_line_of_prose() {
    let refused = "the estate does not compile\n\n{\n  \"findings\": []\n}";
    assert_eq!(summary_line(refused, true), "the estate does not compile");
    assert_eq!(summary_line("{\"findings\": []}", true), "the call was refused");
    let long = "x".repeat(100);
    assert_eq!(
        summary_line(&long, true).chars().count(),
        60 + 1,
        "a long line is cut, with an ellipsis"
    );
}

#[test]
fn the_approval_card_says_no_arguments_for_an_empty_object() {
    let text = approval_text("satz_transpile", "C0example.satz", &json("{}"));
    assert_eq!(
        text.sentence,
        "Run satz_transpile on C0example.satz with no arguments."
    );
    assert!(text.arguments.is_empty());
    assert!(!text.sentence.contains("{}"));
}

#[test]
fn the_approval_card_lists_the_arguments_in_words() {
    let text = approval_text(
        "satz_interview",
        "C0example.satz",
        &json(
            r#"{
                "answers": {"deployment_mode": "cloud"},
                "estate": "acme.satz",
                "dry_run": false,
                "packs": ["org-baseline", "logging"],
                "many": [1, 2, 3, 4, 5],
                "nested": {"a": {"b": 1}}
            }"#,
        ),
    );
    assert_eq!(text.sentence, "Run satz_interview on acme.satz with:");
    let mut arguments = text.arguments.clone();
    arguments.sort();
    assert_eq!(
        arguments,
        vec![
            "answers: deployment_mode = cloud",
            "dry_run: false",
            "many: 5 items",
            "nested: 1 entries",
            "packs: org-baseline, logging",
        ]
    );
    for line in &text.arguments {
        assert!(!line.contains('{'), "{line}");
    }
}

#[test]
fn arguments_that_are_not_an_object_are_left_to_the_debug_log() {
    let text = approval_text("satz_packs", "C0example.satz", &json("[1]"));
    assert_eq!(
        text.sentence,
        "Run satz_packs on C0example.satz with arguments that are not a JSON object; the debug log shows them."
    );
    assert!(text.arguments.is_empty());
}

#[test]
fn a_scalar_result_and_a_long_string_value() {
    assert_eq!(summary_line("42", false), "42");
    assert_eq!(summary_line("null", false), "none");
    let long = format!("{{\"note\": \"{}\"}}", "y".repeat(70));
    assert_eq!(summary_line(&long, false), format!("note: {}…", "y".repeat(60)));
    let five = r#"{"a": [], "b": [1], "c": [], "d": [], "e": []}"#;
    assert_eq!(summary_line(five, false), "a: 0, b: 1, c: 0, d: 0");
}
