use satz_studio::agent::{Client, Located, agent_status, blurb, icon, open_sentence};
use satz_studio::chat::{Effort, Usage};
use satz_studio::chat_view::{
    effort_from, effort_key, entry_id, reported, stem_label, transcript_label, usage_text,
};
use satz_studio::settings::{SatzState, satz_line};
use satz_studio::estate::{ESTATE_GROUP, grouped, line_text, marked_line};
use satz_studio::export::{Moment, QuestionsFormat, initial_format};
use satz_studio::import::{
    ImportShape, SourcePicker, all_shapes, import_ready, shape_segments, source_label, source_picker, source_supporting,
};
use satz_studio::interfaces::{
    Draft, ExportHow, ExportRow, InterfaceRow, InterfacesReport, carriable, how_icon, how_label, usable,
};
use satz_studio::model::{DiagSource, Diagnostic, ParamRow, SourceValue, StrPart};
use satz_studio::reports::{Blast, QuestionKind, QuestionRow, QuestionState, Reversal};

#[test]
fn every_effort_has_a_key_that_reads_back() {
    let efforts = [
        (Effort::Low, "low"),
        (Effort::Medium, "medium"),
        (Effort::High, "high"),
        (Effort::Xhigh, "xhigh"),
        (Effort::Max, "max"),
    ];
    for (effort, key) in efforts {
        assert_eq!(effort_key(effort), key);
        assert_eq!(effort_from(key), Some(effort));
    }
    assert_eq!(effort_from("ultra"), None);
}

#[test]
fn an_entry_id_keeps_only_what_an_element_id_and_a_selector_can_carry() {
    assert_eq!(entry_id("toolu_01AbC-9"), "chat-debug-toolu_01AbC-9");
    assert_eq!(entry_id("cc'1\"<x>"), "chat-debug-cc1x");
}

#[test]
fn a_zero_cache_read_is_shown_as_a_zero_and_an_unreported_one_as_na() {
    let api = Usage {
        input_tokens: 1200,
        output_tokens: 80,
        cache_creation_input_tokens: Some(900),
        cache_read_input_tokens: Some(0),
    };
    assert_eq!(usage_text(&api), "in 1200 · out 80 · cache read 0 · cache write 900");
    let ollama = Usage {
        input_tokens: 5,
        output_tokens: 2,
        cache_creation_input_tokens: None,
        cache_read_input_tokens: None,
    };
    assert_eq!(usage_text(&ollama), "in 5 · out 2 · cache read n/a · cache write n/a");
    assert_eq!(reported(Some(7)), "7");
}

#[test]
fn the_label_reads_the_instant_from_the_file_name() {
    assert_eq!(transcript_label("/t/2026-09-13T21-56-00.123456Z.jsonl"), "2026-09-13 21:56:00 UTC");
    assert_eq!(transcript_label("/t/notes.jsonl"), "notes");
    assert_eq!(transcript_label("/t/2026-09-13T21-56-00.jsonl"), "2026-09-13T21-56-00");
}

fn question(subject: &str, pack: &str) -> QuestionRow {
    QuestionRow {
        subject: subject.to_string(),
        kind: QuestionKind::Param,
        prompt: "p".to_string(),
        why: None,
        reversal: Reversal::Edit,
        blast: Blast::Low,
        state: QuestionState::Answered,
        blocking: false,
        required: false,
        default: None,
        current: None,
        recommend: None,
        empty: None,
        options: vec![],
        pack: pack.to_string(),
        pack_description: "d".to_string(),
        from: "f".to_string(),
    }
}

fn row(name: &str, pack: Option<&str>) -> ParamRow {
    ParamRow {
        id: 0,
        name: name.to_string(),
        value: SourceValue::Str { raw: String::new(), parts: vec![StrPart::Lit(String::new())] },
        question: pack.map(|p| question(name, p)),
        one_way_door: false,
        line: 1,
    }
}

#[test]
fn rows_group_by_their_question_s_pack_in_order_of_first_appearance() {
    let rows = vec![
        row("a", Some("core")),
        row("b", None),
        row("c", Some("cis")),
        row("d", Some("core")),
        row("e", None),
    ];
    let g = grouped(&rows);
    let shape: Vec<(String, Vec<String>)> =
        g.into_iter().map(|(k, v)| (k, v.into_iter().map(|r| r.name).collect())).collect();
    assert_eq!(
        shape,
        vec![
            ("core".to_string(), vec!["a".to_string(), "d".to_string()]),
            (ESTATE_GROUP.to_string(), vec!["b".to_string(), "e".to_string()]),
            ("cis".to_string(), vec!["c".to_string()]),
        ]
    );
}

/// The line of the file, as satz counts it.
#[test]
fn a_param_entry_and_an_attribute_slice_their_value_and_a_block_has_none() {
    let text = "estate e\n\nparams {\n  region = \"europe-west3\"\n}\n\ngoogle_folder {\n  x {\n    display_name = [ \"a\",\n      \"b\" ]\n  }\n}\n";
    assert_eq!(line_text(text, 4), "  region = \"europe-west3\"");
    assert_eq!(line_text(text, 99), "");
    assert_eq!(line_text(text, 0), "estate e");
}

#[test]
fn the_marked_line_is_the_selected_finding_about_this_pack() {
    let pack = "/home/packs/team-access.satz";
    let about_pack = Diagnostic::error("m", DiagSource::Command("review-pack".to_string()))
        .at("/home/packs/team-access.satz", 17);
    let elsewhere = Diagnostic::error("m", DiagSource::Check).at("/e/yaml/C0example.satz", 17);
    assert_eq!(marked_line(Some(&about_pack), pack), Some(17));
    assert_eq!(marked_line(Some(&elsewhere), pack), None);
    assert_eq!(marked_line(None, pack), None);
}

fn format(name: &str) -> QuestionsFormat {
    QuestionsFormat { name: name.to_string(), description: None }
}

#[test]
fn the_card_starts_on_the_decisions_sheet_when_satz_offers_it() {
    let offered: Vec<QuestionsFormat> =
        ["text", "markdown", "pdf", "json", "xlsx"].into_iter().map(format).collect();
    assert_eq!(initial_format(&offered).as_deref(), Some("markdown"));
    assert_eq!(initial_format(&[format("xlsx")]), None);
}

#[test]
fn each_moment_has_its_own_card() {
    assert_eq!(Moment::SignOff.title(), "Sign-off sheet");
    assert_eq!(Moment::Handover.title(), "Handover record");
    assert_eq!(Moment::SignOff.icon(), "assignment_turned_in");
    assert!(Moment::Handover.text().contains("export it again"));
}

#[test]
fn the_row_offers_every_shape_and_each_asks_for_its_own_source() {
    let segments = shape_segments();
    assert_eq!(
        segments.iter().map(|s| s.0).collect::<Vec<_>>(),
        all_shapes().iter().map(|s| s.as_str()).collect::<Vec<_>>()
    );
    for segment in &segments {
        assert!(ImportShape::parse(segment.0).is_some(), "{segment:?}");
    }
    let labels: Vec<&str> = all_shapes().iter().map(|s| source_label(*s)).collect();
    assert_eq!(labels.len(), 3);
    assert!(labels.iter().all(|l| !l.is_empty()));
}

#[test]
fn the_state_shape_says_what_it_reads_before_anything_runs() {
    let said = source_supporting(ImportShape::State);
    assert!(said.contains("tofu show -json > state.json"), "{said}");
    assert!(said.contains(".tfstate"), "{said}");
}

fn report() -> InterfacesReport {
    InterfacesReport {
        interfaces: vec![InterfaceRow { name: "audit".into() }, InterfaceRow { name: "archive".into() }],
        exports: vec![ExportRow {
            interface: Some("archive".into()),
            name: "archive_project_number".into(),
            how: ExportHow::Keyed,
            all: Some("google_project".into()),
        }],
    }
}

#[test]
fn the_wizard_offers_every_other_interface_and_no_core_export() {
    let r = report();
    let all: Vec<&str> = usable(&r, "").iter().map(|i| i.name.as_str()).collect();
    assert!(all.contains(&"audit") && all.contains(&"archive"), "{all:?}");
    assert_eq!(all, ["audit", "archive"]);
    let without: Vec<&str> = usable(&r, "archive").iter().map(|i| i.name.as_str()).collect();
    assert!(!without.contains(&"archive"), "{without:?}");
    assert_eq!(without, ["audit"]);
    for (i, rows) in carriable(&r, "") {
        assert!(rows.iter().all(|x| x.interface.as_deref() == Some(i.name.as_str())), "{}", i.name);
    }
    assert!(
        carriable(&r, "")
            .iter()
            .flat_map(|(_, rows)| rows)
            .any(|x| x.qualified().as_deref() == Some("archive.archive_project_number"))
    );
}

#[test]
fn a_core_export_and_the_new_interface_itself_carry_nothing() {
    let mut r = report();
    r.exports.push(ExportRow {
        interface: None,
        name: "org_id".into(),
        how: ExportHow::Static,
        all: None,
    });
    let groups = carriable(&r, "");
    assert_eq!(groups.len(), 1);
    assert_eq!(groups[0].0.name, "archive");
    assert_eq!(groups[0].1.len(), 1);
    assert!(carriable(&r, " archive ").is_empty());
    assert_eq!(r.of("archive").len(), 1);
    assert!(r.of("audit").is_empty());
    assert_eq!(r.exports[1].qualified(), None);
}

#[test]
fn the_draft_sends_what_the_chosen_shape_takes() {
    let d = Draft {
        name: "archive".to_string(),
        owner_group: "  ".to_string(),
        uses: vec!["audit".to_string(), "archive".to_string()],
        exports: vec!["archive.archive_project_id".to_string(), "audit.x".to_string()],
        ..Default::default()
    };
    let args = d.args();
    assert_eq!(args.uses, ["audit"]);
    assert_eq!(args.exports, ["audit.x"]);
    assert_eq!(args.owner_group, None);
    let only = Draft { interface_only: true, owner_group: "g@example.com".to_string(), ..d.clone() };
    assert_eq!(only.args().owner_group, None);
    let project = Draft { owner_group: " g@example.com ".to_string(), ..d };
    assert_eq!(project.args().owner_group.as_deref(), Some("g@example.com"));
}

#[test]
fn a_map_names_its_type() {
    let r = report();
    let map = r.exports.iter().find(|e| e.how == ExportHow::Keyed).expect("the report exports a map");
    assert!(how_label(map).starts_with("map · "), "{}", how_label(map));
    assert_eq!(how_icon(ExportHow::Lookup), "search");
}

#[test]
fn each_client_has_its_icon_and_its_blurb() {
    assert_eq!(icon(Client::ClaudeCode), "terminal");
    assert_eq!(icon(Client::ClaudeDesktop), "desktop_windows");
    assert!(blurb(Client::ClaudeCode).contains(".mcp.json"));
    assert!(blurb(Client::ClaudeDesktop).contains("leaves every other server"));
}

#[test]
fn open_in_names_the_program_or_says_there_is_none() {
    assert_eq!(
        open_sentence(Some("agent-cli")),
        "\"Open in agent-cli\" runs that command in this estate's directory, in your terminal. Settings names the client."
    );
    assert_eq!(
        open_sentence(None),
        "Settings names the agentic client to start; until one is named, there is nothing to open."
    );
}

#[test]
fn a_found_command_is_its_path_and_anything_else_is_a_fault() {
    assert_eq!(
        agent_status(Located::Found("/usr/local/bin/agent".into())),
        ("/usr/local/bin/agent".to_string(), false)
    );
    assert_eq!(
        agent_status(Located::NoCommand),
        ("no client named; the Agent destination has nothing to start".to_string(), true)
    );
    assert_eq!(
        agent_status(Located::Fault("satz-studio-no-such-agent: not found".into())),
        ("satz-studio-no-such-agent: not found".to_string(), true)
    );
}

#[test]
fn a_state_source_picks_a_file_terraform_a_folder_and_a_live_scope_nothing() {
    assert_eq!(source_picker(ImportShape::State), Some(SourcePicker::JsonFile));
    assert_eq!(source_picker(ImportShape::Hcl), Some(SourcePicker::Folder));
    assert_eq!(source_picker(ImportShape::Live), None);
}

#[test]
fn the_import_runs_once_the_folder_and_the_source_are_there() {
    assert!(import_ready("/e", false, false, ImportShape::State, "state.json", false));
    assert!(!import_ready(" ", false, false, ImportShape::Live, "", false));
    assert!(import_ready("/e", false, false, ImportShape::Live, " ", false));
    assert!(!import_ready("/e", false, false, ImportShape::Hcl, "  ", false));
    assert!(!import_ready("/e", true, false, ImportShape::Live, "", false));
    assert!(!import_ready("/e", false, true, ImportShape::State, "s", false));
    assert!(!import_ready("/e", false, false, ImportShape::State, "s", true));
}

#[test]
fn a_stem_in_the_app_s_shape_reads_as_its_instant() {
    assert_eq!(stem_label("2026-09-13T21-56-00.123456Z"), "2026-09-13 21:56:00 UTC");
    assert_eq!(stem_label("notes"), "notes");
    assert_eq!(stem_label("2026-09-13X21-56-00.123456Z"), "2026-09-13X21-56-00.123456Z");
}

#[test]
fn the_satz_line_says_where_satz_is_or_why_it_is_not() {
    assert_eq!(satz_line(&SatzState::Unknown), ("locating satz".to_string(), false));
    let at = SatzState::Located { version: "0.63.0".into(), path: "/bin/satz".into(), ahead: None };
    assert_eq!(satz_line(&at), ("satz 0.63.0 at /bin/satz".to_string(), false));
    let ahead = SatzState::Located {
        version: "0.64.0".into(),
        path: "/bin/satz".into(),
        ahead: Some(("0.63.0".into(), "A minor may mean edits.".into())),
    };
    assert_eq!(
        satz_line(&ahead).0,
        "satz 0.64.0 at /bin/satz; this satz-studio was built and tested against satz 0.63.0. A minor may mean edits."
    );
    assert_eq!(
        satz_line(&SatzState::TooOld { found: "0.60.0".into(), required: "0.62.0".into() }),
        ("satz 0.60.0 found; 0.62.0 or newer is needed".to_string(), true)
    );
    assert_eq!(satz_line(&SatzState::Missing("no satz".into())), ("no satz".to_string(), true));
    assert_eq!(satz_line(&SatzState::Unusable("broken".into())), ("broken".to_string(), true));
}
