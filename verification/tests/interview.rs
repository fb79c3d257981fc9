use satz_studio::interview::{
    Primary, PrimaryAction, Walk, blast_label, card_key, choices, field_hint, held_oneof, held_param, initial_option, offered_defaults,
    listed, ordered, primary, recommends_otherwise, reversal_label, state_of, text_forward,
};
use satz_studio::json::Json;
use satz_studio::reports::{
    Blast, NO_BRANCH, QuestionKind, QuestionOption, QuestionRow, QuestionState, Reversal,
};

fn q(subject: &str, state: QuestionState) -> QuestionRow {
    QuestionRow {
        subject: subject.to_string(),
        kind: QuestionKind::Param,
        prompt: "p".to_string(),
        why: None,
        reversal: Reversal::Edit,
        blast: Blast::Low,
        state,
        blocking: false,
        required: false,
        default: None,
        current: None,
        recommend: None,
        empty: None,
        options: vec![],
        pack: "p".to_string(),
        pack_description: "d".to_string(),
        from: "f".to_string(),
    }
}

fn option(param: &str, label: &str) -> QuestionOption {
    QuestionOption { param: param.to_string(), label: label.to_string(), selected: false, why: None }
}

fn s(v: &str) -> Json {
    Json::Str(v.to_string())
}

fn names(v: &[QuestionRow]) -> Vec<&str> {
    v.iter().map(|q| q.subject.as_str()).collect()
}

fn subject_at(walk: &Walk, list: &[QuestionRow]) -> String {
    list[walk.position(list)].subject.clone()
}

fn button(p: Primary) -> (&'static str, &'static str, PrimaryAction, bool) {
    (p.label, p.icon, p.action, p.enabled)
}

const ACCEPT: (&str, &str, PrimaryAction) = ("Accept", "check", PrimaryAction::Accept);
const NEXT: (&str, &str, PrimaryAction, bool) = ("Next", "arrow_forward", PrimaryAction::Next, true);

fn accept(enabled: bool) -> (&'static str, &'static str, PrimaryAction, bool) {
    (ACCEPT.0, ACCEPT.1, ACCEPT.2, enabled)
}

#[test]
fn an_unanswered_question_reads_accept_changed_or_not() {
    let u = QuestionState::Unanswered;
    assert_eq!(button(primary(u, false, true, false)), accept(true));
    assert_eq!(button(primary(u, true, true, false)), accept(true));
    assert_eq!(button(primary(u, false, false, false)), accept(false));
    assert_eq!(button(primary(u, true, false, false)), accept(false));
    assert_eq!(button(primary(u, false, true, true)), accept(false));
}

#[test]
fn an_answered_question_reads_next_until_its_value_differs() {
    let a = QuestionState::Answered;
    assert_eq!(button(primary(a, false, true, false)), NEXT);
    assert_eq!(button(primary(a, false, true, true)), NEXT);
    assert_eq!(button(primary(a, true, true, false)), accept(true));
    assert_eq!(button(primary(a, true, false, false)), accept(false));
    assert_eq!(button(primary(a, true, true, true)), accept(false));
    assert_eq!(button(primary(QuestionState::NotApplicable, false, true, false)), NEXT);
}

/// A question whose `empty` says what `""` means shows the meaning beside the value.
#[test]
fn an_empty_field_answers_a_question_that_says_what_empty_means() {
    let mut folder = q("workload_folder_name", QuestionState::Answered);
    folder.empty = Some("the organisation".into());
    folder.current = Some(s(""));
    assert_eq!(listed(&folder), "workload_folder_name · answered: \"\" (the organisation)");
}

#[test]
fn a_choice_that_is_not_required_offers_none() {
    let mut c = q("interface_notice", QuestionState::Unanswered);
    c.kind = QuestionKind::Oneof;
    c.default = Some(s("none"));
    c.options = vec![option("interface_notice_pubsub", "Pub/Sub")];
    c.pack = "estate_map".into();
    let params: Vec<String> = choices(&c).into_iter().map(|(p, _)| p).collect();
    assert_eq!(params, ["interface_notice_pubsub", NO_BRANCH]);
    assert_eq!(initial_option(&c).as_deref(), Some(NO_BRANCH));
    let h = held_oneof(Some(NO_BRANCH), c.bound_option());
    assert!(h.valid && h.changed);
    assert_eq!(h.value, s("none"));
    c.state = QuestionState::Answered;
    c.default = None;
    assert_eq!(initial_option(&c).as_deref(), Some(NO_BRANCH));
    let h = held_oneof(Some(NO_BRANCH), c.bound_option());
    assert_eq!(button(primary(c.state, h.changed, h.valid, false)), NEXT);
    assert_eq!(listed(&c), "interface_notice · answered: None");
    c.required = true;
    c.state = QuestionState::Unanswered;
    assert_eq!(choices(&c).len(), 1, "a required choice has no None chip");
}

#[test]
fn a_oneof_reads_next_on_its_bound_option_and_accept_on_another() {
    let s1 = Some("security_model_s1");
    let s2 = Some("security_model_s2");
    let on = |state, chosen, bound| {
        let h = held_oneof(chosen, bound);
        button(primary(state, h.changed, h.valid, false))
    };
    let a = QuestionState::Answered;
    let u = QuestionState::Unanswered;
    assert_eq!(on(a, s1, s1), NEXT);
    assert_eq!(on(a, s2, s1), accept(true));
    assert_eq!(on(u, s1, None), accept(true));
    assert_eq!(on(u, None, None), accept(false));
    assert_eq!(held_oneof(s2, s1).value, s("security_model_s2"));
}

#[test]
fn skip_shows_only_on_a_question_not_answered() {
    assert_eq!(text_forward(QuestionState::Unanswered, true), Some("Skip"));
    assert_eq!(text_forward(QuestionState::Unanswered, false), Some("Skip"));
    assert_eq!(text_forward(QuestionState::Answered, true), None);
    assert_eq!(text_forward(QuestionState::NotApplicable, true), None);
    assert_eq!(text_forward(QuestionState::Answered, false), Some("Next"));
    assert_eq!(text_forward(QuestionState::NotApplicable, false), Some("Next"));
}

#[test]
fn unanswered_come_first_and_the_rest_only_when_asked_for() {
    let all = vec![
        q("a", QuestionState::Answered),
        q("b", QuestionState::Unanswered),
        q("c", QuestionState::NotApplicable),
        q("d", QuestionState::Unanswered),
    ];
    assert_eq!(names(&ordered(&all, false)), ["b", "d"]);
    assert_eq!(names(&ordered(&all, true)), ["b", "d", "a", "c"]);
}

#[test]
fn accept_advances_and_the_reload_keeps_the_card_on_the_next_question() {
    let mut questions = vec![
        q("region", QuestionState::Unanswered),
        q("billing", QuestionState::Unanswered),
        q("domain", QuestionState::Unanswered),
    ];
    let mut walk = Walk::default();
    walk.accept(&questions, false);
    assert_eq!(subject_at(&walk, &ordered(&questions, false)), "billing");
    questions[0].state = QuestionState::Answered;
    let list = ordered(&questions, false);
    assert_eq!(names(&list), ["billing", "domain"]);
    assert_eq!(subject_at(&walk, &list), "billing");
    walk.accept(&questions, false);
    questions[1].state = QuestionState::Answered;
    assert_eq!(subject_at(&walk, &ordered(&questions, false)), "domain");
    assert_eq!(walk.back(&questions, false), Some(true));
    assert_eq!(subject_at(&walk, &ordered(&questions, true)), "billing");
    assert_eq!(walk.back(&questions, true), Some(true));
    assert_eq!(subject_at(&walk, &ordered(&questions, true)), "region");
    assert_eq!(walk.back(&questions, true), None);
}

#[test]
fn accept_with_answered_shown_lands_on_the_question_that_followed() {
    let mut questions = vec![
        q("region", QuestionState::Unanswered),
        q("billing", QuestionState::Unanswered),
        q("domain", QuestionState::Answered),
    ];
    let mut walk = Walk::default();
    walk.accept(&questions, true);
    questions[0].state = QuestionState::Answered;
    let list = ordered(&questions, true);
    assert_eq!(names(&list), ["billing", "region", "domain"]);
    assert_eq!(subject_at(&walk, &list), "billing");
}

#[test]
fn accept_whose_write_also_drops_the_next_question_shows_the_one_after() {
    let mut questions = vec![
        q("region", QuestionState::Unanswered),
        q("billing", QuestionState::Unanswered),
        q("domain", QuestionState::Unanswered),
    ];
    let mut walk = Walk::default();
    walk.accept(&questions, false);
    questions[0].state = QuestionState::Answered;
    questions[1].state = QuestionState::NotApplicable;
    assert_eq!(subject_at(&walk, &ordered(&questions, false)), "domain");
}

#[test]
fn accept_on_the_last_open_question_empties_the_walk() {
    let mut questions = vec![q("region", QuestionState::Unanswered)];
    let mut walk = Walk::default();
    walk.accept(&questions, false);
    questions[0].state = QuestionState::Answered;
    assert!(ordered(&questions, false).is_empty());
    assert!(walk.can_go_back());
    assert_eq!(walk.back(&questions, false), Some(true));
    assert_eq!(subject_at(&walk, &ordered(&questions, true)), "region");
}

#[test]
fn next_on_an_answered_question_advances() {
    let questions = vec![
        q("region", QuestionState::Unanswered),
        q("billing", QuestionState::Answered),
        q("domain", QuestionState::Answered),
    ];
    let list = ordered(&questions, true);
    let mut walk = Walk::default();
    walk.open(&questions, true, 1);
    walk.next(&questions, true);
    assert_eq!(subject_at(&walk, &list), "domain");
    assert_eq!(walk.back(&questions, true), Some(true));
    assert_eq!(subject_at(&walk, &list), "billing");
}

#[test]
fn skip_wraps_and_back_retraces_the_questions_left() {
    let questions = vec![
        q("region", QuestionState::Unanswered),
        q("billing", QuestionState::Unanswered),
    ];
    let list = ordered(&questions, false);
    let mut walk = Walk::default();
    walk.next(&questions, false);
    assert_eq!(subject_at(&walk, &list), "billing");
    walk.next(&questions, false);
    assert_eq!(subject_at(&walk, &list), "region");
    assert_eq!(walk.back(&questions, false), Some(false));
    assert_eq!(subject_at(&walk, &list), "billing");
    assert_eq!(walk.back(&questions, false), Some(false));
    assert_eq!(subject_at(&walk, &list), "region");
    assert_eq!(walk.back(&questions, false), None);
}

#[test]
fn skipping_the_only_open_question_stays_on_it() {
    let questions = vec![q("region", QuestionState::Unanswered)];
    let mut walk = Walk::default();
    walk.next(&questions, false);
    assert_eq!(subject_at(&walk, &ordered(&questions, false)), "region");
    assert!(!walk.can_go_back());
}

#[test]
fn a_question_opened_from_the_list_is_left_for_back() {
    let questions = vec![
        q("region", QuestionState::Unanswered),
        q("billing", QuestionState::Answered),
        q("domain", QuestionState::Answered),
    ];
    let list = ordered(&questions, true);
    let mut walk = Walk::default();
    walk.open(&questions, true, 2);
    assert_eq!(subject_at(&walk, &list), "domain");
    walk.open(&questions, true, 2);
    assert_eq!(walk.back(&questions, true), Some(true));
    assert_eq!(subject_at(&walk, &list), "region");
    assert!(!walk.can_go_back());
}

#[test]
fn switching_show_answered_keeps_the_card_on_its_question_when_it_can() {
    let questions = vec![
        q("region", QuestionState::Answered),
        q("billing", QuestionState::Unanswered),
        q("domain", QuestionState::Unanswered),
    ];
    let mut walk = Walk::default();
    walk.next(&questions, false);
    walk.switched(&questions, false, true);
    assert_eq!(subject_at(&walk, &ordered(&questions, true)), "domain");
    walk.switched(&questions, true, false);
    assert_eq!(subject_at(&walk, &ordered(&questions, false)), "domain");
    walk.open(&questions, true, 2);
    walk.switched(&questions, true, false);
    assert_eq!(subject_at(&walk, &ordered(&questions, false)), "billing");
}

#[test]
fn the_list_says_each_question_s_subject_and_its_answer() {
    let mut region = q("region", QuestionState::Answered);
    region.current = Some(s("europe-west3"));
    assert_eq!(listed(&region), "region · answered: europe-west3");
    let mut billing = q("billing", QuestionState::Unanswered);
    billing.blocking = true;
    assert_eq!(listed(&billing), "billing · needs a value");
    assert_eq!(
        listed(&q("domain", QuestionState::NotApplicable)),
        "domain · not asked: its ask_when is false"
    );
}

#[test]
fn the_first_option_is_the_bound_one_then_the_default_then_none() {
    let mut o = q("security_model", QuestionState::Unanswered);
    o.kind = QuestionKind::Oneof;
    o.reversal = Reversal::StateSurgery;
    o.default = Some(s("security_model_s1"));
    o.options = vec![option("security_model_s1", "S1"), option("security_model_s2", "S2")];
    o.pack = "estate_map".into();
    assert_eq!(initial_option(&o).as_deref(), Some("security_model_s1"));
    o.options[1].selected = true;
    assert_eq!(initial_option(&o).as_deref(), Some("security_model_s2"));
    o.options[1].selected = false;
    o.default = None;
    assert_eq!(initial_option(&o), None);
}

#[test]
fn a_card_is_new_when_the_value_it_starts_on_changes() {
    let mut region = q("region", QuestionState::Unanswered);
    region.default = Some(s("europe-west3"));
    let before = card_key(&region, "Some(Text)");
    assert_eq!(before, card_key(&region.clone(), "Some(Text)"));
    region.default = Some(s("europe-west4"));
    assert_ne!(before, card_key(&region, "Some(Text)"));
}

#[test]
fn a_recommendation_shows_only_when_it_differs_from_the_offer() {
    let mut r = q("paid", QuestionState::Unanswered);
    r.default = Some(Json::Bool(false));
    r.recommend = Some("true".to_string());
    assert_eq!(recommends_otherwise(&r), Some("true"));
    r.recommend = Some("false".to_string());
    assert_eq!(recommends_otherwise(&r), None);
    r.default = Some(s("europe-west3"));
    r.recommend = Some("europe-west3".to_string());
    assert_eq!(recommends_otherwise(&r), None);
    r.default = None;
    assert_eq!(recommends_otherwise(&r), Some("europe-west3"));
}

#[test]
fn a_card_key_joins_subject_shape_offer_and_option() {
    let mut region = q("region", QuestionState::Unanswered);
    region.default = Some(Json::Number("3".into()));
    assert_eq!(card_key(&region, "None"), "region|None|3|");
}

#[test]
fn a_state_chip_has_an_icon_for_each_state() {
    let mut u = q("u", QuestionState::Unanswered);
    assert_eq!(state_of(&u), ("radio_button_unchecked", "open".to_string()));
    u.blocking = true;
    assert_eq!(state_of(&u).0, "priority_high");
    assert_eq!(state_of(&q("a", QuestionState::Answered)), ("check_circle", "answered: ".to_string()));
    assert_eq!(state_of(&q("n", QuestionState::NotApplicable)).0, "block");
}

#[test]
fn a_number_answer_is_shown_as_json() {
    let mut n = q("count", QuestionState::Answered);
    n.current = Some(Json::Number("3".into()));
    assert_eq!(listed(&n), "count · answered: 3");
    n.current = Some(Json::Array(vec![s("a"), s("b")]));
    assert_eq!(listed(&n), "count · answered: [\"a\",\"b\"]");
}

#[test]
fn the_labels_name_the_reversal_and_the_blast() {
    assert_eq!(reversal_label(Reversal::Edit), "changing it later: an edit");
    assert_eq!(reversal_label(Reversal::StateSurgery), "changing it later: state surgery");
    assert_eq!(reversal_label(Reversal::Recreate), "changing it later: a recreate");
    assert_eq!(blast_label(Blast::Nothing), "blast: none");
    assert_eq!(blast_label(Blast::Low), "blast: low");
    assert_eq!(blast_label(Blast::High), "blast: high");
}

#[test]
fn open_then_back_returns_to_the_card_s_question() {
    let questions = vec![
        q("a", QuestionState::Unanswered),
        q("b", QuestionState::Unanswered),
        q("c", QuestionState::Answered),
    ];
    let mut walk = Walk::default();
    walk.open(&questions, false, 1);
    assert_eq!(walk.back(&questions, false), Some(false));
    assert_eq!(subject_at(&walk, &ordered(&questions, false)), "a");
}

/// The field put back to the written value is unchanged again, so the button returns
/// to Next. A text field's draft differs from the written value when its text does.
#[test]
fn an_answered_field_changed_and_changed_back_reads_next_again() {
    let written = s("europe-west3");
    let held = |typed: &str| {
        held_param(typed != "europe-west3", None, typed.is_empty(), s(typed), Some(&written), false)
    };
    let open = held("europe-west3");
    assert!(!open.changed && open.valid);
    let typed = held("europe-west4");
    assert!(typed.changed);
    assert_eq!(typed.value, s("europe-west4"));
    let a = QuestionState::Answered;
    assert_eq!(button(primary(a, typed.changed, typed.valid, false)), accept(true));
    let back = held("europe-west3");
    assert_eq!(button(primary(a, back.changed, back.valid, false)), NEXT);
}

/// A list field that starts empty on a question that offers nothing: the empty list is
/// no answer; one address is.
#[test]
fn an_empty_field_on_a_question_that_offers_nothing_cannot_be_accepted() {
    let h = held_param(false, None, true, Json::Array(vec![]), None, false);
    assert!(!h.valid);
    assert_eq!(button(primary(QuestionState::Unanswered, h.changed, h.valid, false)), accept(false));
    let one = held_param(true, None, false, Json::Array(vec![s("a@example.com")]), None, false);
    assert!(one.valid);
    assert_eq!(one.value, Json::Array(vec![s("a@example.com")]));
    let said = held_param(false, None, true, s(""), None, true);
    assert!(said.valid);
    let wrong = held_param(true, Some("not an address"), false, s("x"), Some(&s("y")), false);
    assert!(!wrong.valid);
}

#[test]
fn accept_defaults_counts_the_unanswered_questions_that_offer_one() {
    let mut a = q("a", QuestionState::Unanswered);
    a.default = Some(s("x"));
    let b = q("b", QuestionState::Unanswered);
    let mut c = q("c", QuestionState::Answered);
    c.default = Some(s("y"));
    assert_eq!(offered_defaults(&[a.clone(), b, c]), 1);
    assert_eq!(offered_defaults(&[]), 0);
    assert_eq!(offered_defaults(&[a.clone(), a]), 2);
}

#[test]
fn the_field_hint_says_where_the_value_comes_from_and_what_empty_means() {
    let mut blocking = q("emails", QuestionState::Unanswered);
    blocking.blocking = true;
    assert_eq!(field_hint(&blocking, true), "no default — at least one value is needed");
    assert_eq!(field_hint(&blocking, false), "no default — a value is needed");
    let open = q("x", QuestionState::Unanswered);
    assert_eq!(field_hint(&open, false), "");
    let mut answered = q("region", QuestionState::Answered);
    answered.current = Some(s("europe-west3"));
    assert_eq!(field_hint(&answered, false), "the estate's own value: europe-west3");
    let mut default = q("region", QuestionState::Unanswered);
    default.default = Some(s("europe-west3"));
    default.empty = Some("the provider's own".to_string());
    assert_eq!(
        field_hint(&default, false),
        "the pack's default: europe-west3; empty means the provider's own"
    );
    let mut nothing = q("zone", QuestionState::Unanswered);
    nothing.empty = Some("any zone".to_string());
    assert_eq!(field_hint(&nothing, false), "empty means any zone");
    let mut quoted = q("zone", QuestionState::Unanswered);
    quoted.default = Some(s(""));
    quoted.empty = Some("any zone".to_string());
    assert_eq!(field_hint(&quoted, false), "the pack's default: \"\" (any zone)");
}
