use satz_studio::commands::{
    CommandSpec, Field, build_args, clipboard_script, defaults, palette, session_tools, set_value,
    value_of,
};

fn spec(id: &str) -> CommandSpec {
    palette().into_iter().find(|s| s.id == id).unwrap()
}

#[test]
fn every_id_is_unique_and_every_field_key_is_unique_within_its_spec() {
    let all = palette();
    let mut ids: Vec<&str> = all.iter().map(|s| s.id).collect();
    ids.sort_unstable();
    ids.dedup();
    assert_eq!(ids.len(), all.len());
    for s in &all {
        let mut keys: Vec<&str> = s.fields.iter().map(Field::key).collect();
        keys.sort_unstable();
        keys.dedup();
        assert_eq!(keys.len(), s.fields.len(), "{}", s.id);
    }
}

#[test]
fn a_check_puts_the_estate_before_the_tail() {
    let args = build_args(&spec("transpile-check"), "C0example.satz", &Vec::new()).unwrap();
    assert_eq!(args, ["transpile", "C0example.satz", "--check"]);
}

#[test]
fn flags_and_options_follow_the_fixed_words_in_field_order() {
    let s = spec("report-compliance");
    let mut v = defaults(&s);
    set_value(&mut v, "checkov", "true");
    set_value(&mut v, "prowler", " /tmp/prowler.json ");
    let args = build_args(&s, "C0example.satz", &v).unwrap();
    assert_eq!(
        args,
        ["report-compliance", "cis-gcp-5.0", "C0example.satz", "--checkov", "--prowler", "/tmp/prowler.json"]
    );
}

#[test]
fn an_empty_positional_is_refused_by_name() {
    let s = spec("require");
    let mut v = defaults(&s);
    set_value(&mut v, "framework", "  ");
    assert_eq!(build_args(&s, "x.satz", &v).unwrap_err(), "Catalog is required");
}

#[test]
fn the_estate_flag_and_trailing_words() {
    let s = spec("merge-presets");
    let mut v = defaults(&s);
    set_value(&mut v, "report_only", "true");
    assert_eq!(
        build_args(&s, "C0example.satz", &v).unwrap(),
        ["merge-presets", "--estate", "C0example.satz", "--report-only"]
    );
    let s = spec("plan");
    let mut v = defaults(&s);
    set_value(&mut v, "args", "-target=google_folder.x  -out=p.tfplan");
    assert_eq!(
        build_args(&s, "C0example.satz", &v).unwrap(),
        ["plan", "-target=google_folder.x", "-out=p.tfplan"]
    );
}

#[test]
fn a_flag_that_is_off_or_an_empty_option_adds_nothing() {
    let s = spec("transpile");
    let v = defaults(&s);
    assert_eq!(build_args(&s, "C0example.satz", &v).unwrap(), ["transpile", "C0example.satz"]);
    let s = spec("update-schema");
    let v = defaults(&s);
    assert_eq!(build_args(&s, "C0example.satz", &v).unwrap(), ["update-schema"]);
}

#[test]
fn only_apply_and_bootstrap_run_outside_the_app() {
    let external: Vec<&str> = palette().iter().filter(|s| s.external).map(|s| s.id).collect();
    assert_eq!(external, ["apply", "bootstrap"]);
}

#[test]
fn a_value_set_reads_back_and_leaves_the_others() {
    let s = spec("report-compliance");
    let mut v = defaults(&s);
    assert_eq!(value_of(&v, "framework"), "cis-gcp-5.0");
    assert_eq!(value_of(&v, "checkov"), "");
    set_value(&mut v, "checkov", "true");
    assert_eq!(value_of(&v, "checkov"), "true");
    assert_eq!(value_of(&v, "framework"), "cis-gcp-5.0");
    assert_eq!(v.len(), s.fields.len(), "a set replaces the entry it names");
    set_value(&mut v, "missing", "x");
    assert_eq!(value_of(&v, "missing"), "x");
    assert_eq!(value_of(&v, "nothing"), "");
}

#[test]
fn trailing_words_split_on_any_whitespace() {
    let s = spec("apply");
    let mut v = defaults(&s);
    set_value(&mut v, "args", "\t a  b\nc ");
    assert_eq!(build_args(&s, "C0example.satz", &v).unwrap(), ["apply", "a", "b", "c"]);
}

#[test]
fn the_session_tools_are_three() {
    let tools: Vec<&str> = session_tools().iter().map(|t| t.0).collect();
    assert_eq!(tools, ["satz_whoami", "satz_transpile_check", "satz_questions"]);
}

#[test]
fn the_clipboard_gets_the_text_as_a_string_literal() {
    assert_eq!(clipboard_script("a \"b\"\n"), "navigator.clipboard.writeText(\"a \\\"b\\\"\\n\")");
}
