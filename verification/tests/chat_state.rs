use satz_studio::chat::{
    AgentEvent, AssistantTurn, Block, CLAUDE_CODE_STDERR, ChatStore, Effort, EngineKind, Notice,
    PendingCall, Replayed, StderrLines, StopReason, ToolCard, TurnView, Usage, UsageTotals,
    apply_delta, is_delta,
};
use satz_studio::json::{Json, parse, pretty};

fn store() -> ChatStore {
    ChatStore::new("opus-5".to_string(), Effort::High, EngineKind::Api)
}

fn started(store: &mut ChatStore, text: &str) {
    store.begin_turn(text.to_string());
    store.apply(AgentEvent::Started { model: "opus-5".into() });
}

fn usage(input: u64, output: u64, cache_read: Option<u64>) -> Usage {
    Usage {
        input_tokens: input,
        output_tokens: output,
        cache_creation_input_tokens: Some(0),
        cache_read_input_tokens: cache_read,
    }
}

fn json(text: &str) -> Json {
    parse(text).expect("the test's JSON parses")
}

fn card(s: &ChatStore, i: usize) -> ToolCard {
    match &s.streaming.as_ref().unwrap().blocks[i] {
        Block::Tool(c) => c.clone(),
        other => panic!("not a tool card: {other:?}"),
    }
}

/// The text the model reads of a successful call with a structured result.
fn structured_body(text: &str) -> String {
    pretty(&json(text))
}

#[test]
fn text_deltas_append_to_the_open_text_block_and_a_tool_call_opens_a_new_one() {
    let mut s = store();
    started(&mut s, "hello");
    s.apply(AgentEvent::TextDelta("Hel".into()));
    s.apply(AgentEvent::TextDelta("lo".into()));
    s.apply(AgentEvent::ThinkingDelta("hm".into()));
    s.apply(AgentEvent::ThinkingDelta("m".into()));
    s.apply(AgentEvent::ToolUseStarted { id: "t1".into(), name: "satz_questions".into() });
    s.apply(AgentEvent::TextDelta("after".into()));
    let turn = s.streaming.as_ref().unwrap();
    assert_eq!(turn.requests, 1);
    assert_eq!(turn.blocks.len(), 4);
    assert_eq!(turn.blocks[0], Block::Text("Hello".into()));
    assert_eq!(turn.blocks[1], Block::Thinking("hmm".into()));
    assert!(matches!(&turn.blocks[2], Block::Tool(c) if c.name == "satz_questions"));
    assert_eq!(turn.blocks[3], Block::Text("after".into()));
    assert!(s.busy);
    assert_eq!(s.turns, vec![TurnView::User { text: "hello".into() }]);
    assert_eq!(s.error, None);
}

#[test]
fn a_tool_card_carries_one_line_and_the_debug_log_carries_the_json() {
    let mut s = store();
    started(&mut s, "check");
    s.apply(AgentEvent::ToolUseStarted { id: "t1".into(), name: "satz_transpile_check".into() });
    s.apply(AgentEvent::ToolInputDelta { id: "t1".into(), partial_json: "{\"estate\": ".into() });
    s.apply(AgentEvent::ToolInputDelta {
        id: "t1".into(),
        partial_json: "\"C0example.satz\"}".into(),
    });
    assert!(card(&s, 0).result.is_none());
    let open = s.debug_entry("t1").unwrap();
    assert_eq!(open.input, None, "the input is logged once it is whole");
    assert_eq!(open.result, None);

    s.apply(AgentEvent::ToolResult {
        id: "t1".into(),
        name: "satz_transpile_check".into(),
        body: structured_body(r#"{"addresses": ["google_folder.infra"]}"#),
        is_error: false,
        millis: 42,
    });
    let closed = card(&s, 0);
    let result = closed.result.as_ref().unwrap();
    assert!(!result.is_error);
    assert_eq!(result.summary, "addresses: 1");
    assert_eq!(closed.shown().duration.as_deref(), Some("42 ms"));

    let entry = s.debug_entry("t1").unwrap();
    assert_eq!(entry.name, "satz_transpile_check");
    let input = parse(entry.input.as_deref().unwrap()).unwrap();
    assert_eq!(input, json(r#"{"estate": "C0example.satz"}"#));
    let logged = entry.result.as_ref().unwrap();
    assert!(logged.body.contains("google_folder.infra"));
    assert!(!logged.is_error);
    assert_eq!(logged.millis, Some(42));
    assert_eq!(s.error, None);
}

#[test]
fn a_call_with_no_input_logs_the_empty_object_and_its_card_shows_none() {
    let mut s = store();
    started(&mut s, "who");
    s.apply(AgentEvent::ToolUseStarted { id: "t1".into(), name: "satz_whoami".into() });
    s.apply(AgentEvent::ToolResult {
        id: "t1".into(),
        name: "satz_whoami".into(),
        body: "refused".into(),
        is_error: true,
        millis: 1,
    });
    let card = card(&s, 0);
    assert!(card.result.as_ref().unwrap().is_error);
    assert_eq!(card.result.as_ref().unwrap().summary, "refused");
    assert!(card.texts().iter().all(|t| !t.contains("{}")));
    let entry = s.debug_entry("t1").unwrap();
    assert_eq!(entry.input.as_deref(), Some("{}"));
    assert_eq!(entry.result.as_ref().unwrap().body, "refused");
}

#[test]
fn a_refused_call_shows_its_sentence_and_the_log_keeps_what_it_carries() {
    let mut s = store();
    started(&mut s, "check");
    s.apply(AgentEvent::ToolUseStarted { id: "t1".into(), name: "satz_transpile_check".into() });
    let body = format!(
        "the estate does not compile\n\n{}",
        structured_body(r#"{"findings": [{"kind": "parse"}]}"#)
    );
    s.apply(AgentEvent::ToolResult {
        id: "t1".into(),
        name: "satz_transpile_check".into(),
        body,
        is_error: true,
        millis: 3,
    });
    let summary = card(&s, 0).result.unwrap().summary;
    assert_eq!(summary, "the estate does not compile");
    let body = &s.debug_entry("t1").unwrap().result.as_ref().unwrap().body;
    assert!(body.starts_with("the estate does not compile\n\n{"), "{body}");
    assert!(body.contains("\"kind\": \"parse\""), "{body}");
}

#[test]
fn a_pending_call_parks_its_sender_and_logs_the_input() {
    let mut s = store();
    started(&mut s, "write");
    s.apply(AgentEvent::ToolUseStarted { id: "t1".into(), name: "satz_interview".into() });
    let parked = s.apply(AgentEvent::ToolCallPending {
        id: "t1".into(),
        name: "satz_interview".into(),
        input: json(r#"{"answers": {"x": true}}"#),
    });
    assert!(parked, "the sender is the caller's to park");
    assert_eq!(
        s.pending,
        Some(PendingCall {
            id: "t1".into(),
            name: "satz_interview".into(),
            input: json(r#"{"answers": {"x": true}}"#),
        })
    );
    let logged = s.debug_entry("t1").unwrap().input.clone().unwrap();
    assert_eq!(parse(&logged).unwrap(), json(r#"{"answers": {"x": true}}"#));
}

#[test]
fn a_questions_turn_puts_no_json_on_any_card_and_the_whole_call_in_the_log() {
    let mut items = Vec::new();
    for i in 0..28 {
        items.push(format!("{{\"subject\": \"q{i}\"}}"));
    }
    let questions_text = format!("{{\"questions\": [{}], \"estate\": \"C0example.satz\"}}", items.join(", "));
    let questions = json(&questions_text);
    let mut s = store();
    started(&mut s, "which questions are open?");
    s.apply(AgentEvent::ToolUseStarted { id: "toolu_q".into(), name: "satz_questions".into() });
    s.apply(AgentEvent::ToolInputDelta { id: "toolu_q".into(), partial_json: String::new() });
    s.apply(AgentEvent::ToolResult {
        id: "toolu_q".into(),
        name: "satz_questions".into(),
        body: pretty(&questions),
        is_error: false,
        millis: 120,
    });
    s.apply(AgentEvent::TextDelta("Some are open.".into()));
    s.apply(AgentEvent::TurnDone { stop_reason: StopReason::EndTurn, usage: usage(1, 1, None) });
    let TurnView::Assistant(turn) = &s.turns[1] else {
        panic!("the assistant turn");
    };
    let cards: Vec<&ToolCard> = turn
        .blocks
        .iter()
        .filter_map(|b| match b {
            Block::Tool(c) => Some(c),
            _ => None,
        })
        .collect();
    assert_eq!(cards.len(), 1);
    for text in cards.iter().flat_map(|c| c.texts()) {
        assert!(!text.contains('{') && !text.contains('['), "a card renders JSON: {text}");
    }
    assert_eq!(cards[0].result.as_ref().unwrap().summary, "questions: 28");

    let entry = s.debug_entry("toolu_q").expect("the call is logged under its id");
    assert_eq!(entry.input.as_deref(), Some("{}"));
    let logged = parse(&entry.result.as_ref().unwrap().body).unwrap();
    assert_eq!(logged, questions);
    assert_eq!(entry.result.as_ref().unwrap().millis, Some(120));
}

#[test]
fn stderr_lines_belong_to_the_open_call_of_the_running_turn_only() {
    let mut s = store();
    s.debug_stderr("before any turn".into());
    started(&mut s, "one");
    s.apply(AgentEvent::ToolUseStarted { id: "t1".into(), name: "satz_questions".into() });
    s.apply(AgentEvent::ToolUseStarted { id: "t2".into(), name: "satz_packs".into() });
    assert!(s.has_open_call());
    s.debug_stderr("reading the estate".into());
    s.apply(AgentEvent::ToolResult {
        id: "t1".into(),
        name: "satz_questions".into(),
        body: "ok".into(),
        is_error: false,
        millis: 1,
    });
    s.debug_stderr("reading the packs".into());
    s.apply(AgentEvent::Cancelled);
    assert!(!s.has_open_call(), "a call of an ended turn takes no line");
    s.debug_stderr("after the turn".into());
    assert_eq!(
        s.debug_entry("t1").unwrap().stderr,
        StderrLines::Lines(vec!["reading the estate".into()])
    );
    assert_eq!(
        s.debug_entry("t2").unwrap().stderr,
        StderrLines::Lines(vec!["reading the packs".into()])
    );

    let mut cc = ChatStore::new(String::new(), Effort::High, EngineKind::ClaudeCode);
    started(&mut cc, "one");
    cc.apply(AgentEvent::ToolUseStarted { id: "t1".into(), name: "satz_questions".into() });
    assert!(!cc.has_open_call());
    cc.debug_stderr("a line".into());
    assert_eq!(cc.debug_entry("t1").unwrap().stderr, StderrLines::Unseen(CLAUDE_CODE_STDERR));
}

#[test]
fn a_turn_names_its_model_and_adds_up_every_request() {
    let mut s = store();
    started(&mut s, "one");
    s.apply(AgentEvent::RequestDone { usage: usage(100, 10, Some(0)) });
    s.apply(AgentEvent::Started { model: "sonnet-5".into() });
    s.apply(AgentEvent::RequestDone { usage: usage(200, 20, Some(90)) });
    let live = s.streaming.as_ref().unwrap();
    assert_eq!(live.requests, 2);
    assert_eq!(live.model.as_deref(), Some("sonnet-5"));
    assert_eq!(live.usage, Some(usage(100, 10, Some(0)).plus(usage(200, 20, Some(90)))));
    assert_eq!(s.model, "opus-5", "the API engine keeps the model it was asked for");

    let mut cc = ChatStore::new("the CLI default".into(), Effort::High, EngineKind::ClaudeCode);
    started(&mut cc, "one");
    assert_eq!(cc.model, "opus-5", "the CLI engine's model shows as the turn starts");
}

#[test]
fn turn_done_moves_streaming_into_turns_and_adds_the_usage() {
    let mut s = store();
    started(&mut s, "one");
    s.apply(AgentEvent::TextDelta("answer".into()));
    s.apply(AgentEvent::TurnDone { stop_reason: StopReason::EndTurn, usage: usage(100, 10, None) });
    assert!(s.streaming.is_none());
    assert!(!s.busy);
    assert_eq!(s.turns.len(), 2);
    let TurnView::Assistant(turn) = &s.turns[1] else {
        panic!("the second turn is the assistant's");
    };
    assert_eq!(turn.blocks, vec![Block::Text("answer".into())]);
    assert_eq!(turn.stop_reason, Some(StopReason::EndTurn));
    assert_eq!(turn.usage, Some(usage(100, 10, None)));

    started(&mut s, "two");
    s.apply(AgentEvent::TurnDone { stop_reason: StopReason::MaxTokens, usage: usage(200, 20, Some(0)) });
    assert_eq!(s.usage.turns, 2);
    assert_eq!(s.usage.turn, usage(200, 20, Some(0)));
    assert_eq!(s.usage.session.input_tokens, 300);
    assert_eq!(s.usage.session.output_tokens, 30);
    assert_eq!(s.usage.session.cache_read_input_tokens, Some(0));
    assert_eq!(s.usage.session.cache_creation_input_tokens, Some(0));
}

#[test]
fn a_provider_that_never_reports_cache_figures_leaves_them_unreported() {
    let mut totals = UsageTotals::default();
    totals.add(Usage {
        input_tokens: 5,
        output_tokens: 1,
        cache_creation_input_tokens: None,
        cache_read_input_tokens: None,
    });
    assert_eq!(totals.session.cache_read_input_tokens, None);
    totals.add(Usage {
        input_tokens: 5,
        output_tokens: 1,
        cache_creation_input_tokens: None,
        cache_read_input_tokens: Some(3),
    });
    assert_eq!(totals.session.cache_read_input_tokens, Some(3));
    assert_eq!(totals.session.input_tokens, 10);
}

#[test]
fn refused_and_failed_and_cancelled_leave_turns_as_before() {
    let mut s = store();
    started(&mut s, "one");
    s.apply(AgentEvent::TurnDone { stop_reason: StopReason::EndTurn, usage: usage(1, 1, None) });
    let before = s.turns.clone();

    started(&mut s, "two");
    s.apply(AgentEvent::TextDelta("partial".into()));
    s.apply(AgentEvent::Refused {
        category: Some("c".into()),
        explanation: Some("e".into()),
        recommended_model: Some("sonnet-5".into()),
    });
    assert_eq!(s.turns, before);
    assert!(s.streaming.is_none());
    assert!(!s.busy);
    assert_eq!(
        s.notice,
        Some(Notice::Refused {
            user_text: "two".into(),
            category: Some("c".into()),
            explanation: Some("e".into()),
            recommended_model: Some("sonnet-5".into()),
        })
    );

    started(&mut s, "three");
    s.apply(AgentEvent::Failed("authentication failed: bad key".into()));
    assert_eq!(s.turns, before);
    assert_eq!(
        s.notice,
        Some(Notice::Failed {
            user_text: "three".into(),
            error: "authentication failed: bad key".into(),
        })
    );

    started(&mut s, "four");
    s.apply(AgentEvent::Cancelled);
    assert_eq!(s.turns, before);
    assert_eq!(s.notice, Some(Notice::Cancelled { user_text: "four".into() }));
    assert_eq!(s.notice.as_ref().unwrap().user_text(), "four");
    assert_eq!(s.usage.turns, 1);
    assert_eq!(s.error, None);
}

#[test]
fn a_notice_reaches_the_footer_and_leaves_the_turn_alone() {
    let mut s = store();
    started(&mut s, "one");
    s.apply(AgentEvent::TextDelta("partial".into()));
    s.apply(AgentEvent::Notice("Plan: 51% of the seven-day limit used".into()));
    assert_eq!(s.engine_notice.as_deref(), Some("Plan: 51% of the seven-day limit used"));
    assert!(s.busy);
    assert_eq!(s.error, None);
    assert_eq!(s.streaming.as_ref().unwrap().blocks, vec![Block::Text("partial".into())]);
}

#[test]
fn a_delta_or_an_end_outside_a_turn_is_an_error_not_a_panic() {
    let mut s = store();
    s.apply(AgentEvent::TextDelta("x".into()));
    assert_eq!(s.error.as_deref(), Some("TextDelta arrived outside a turn"));
    let mut s = store();
    s.apply(AgentEvent::Cancelled);
    assert_eq!(s.error.as_deref(), Some("the turn ended before it began"));
    let mut s = store();
    s.begin_turn("x".into());
    s.turn_closed();
    assert!(!s.busy);
    assert!(matches!(s.notice, Some(Notice::Failed { .. })));
}

#[test]
fn the_delta_fast_path_matches_the_reducer() {
    let mut streaming = Some(AssistantTurn::default());
    assert!(is_delta(&AgentEvent::TextDelta("a".into())));
    assert!(!is_delta(&AgentEvent::Started { model: "opus-5".into() }));
    apply_delta(&mut streaming, AgentEvent::TextDelta("a".into())).unwrap();
    apply_delta(&mut streaming, AgentEvent::TextDelta("b".into())).unwrap();
    assert_eq!(streaming.as_ref().unwrap().blocks, vec![Block::Text("ab".into())]);
    assert_eq!(
        apply_delta(&mut streaming, AgentEvent::Started { model: "opus-5".into() })
            .unwrap_err(),
        "Started is not a delta"
    );
    assert_eq!(
        apply_delta(&mut None, AgentEvent::TextDelta("a".into())).unwrap_err(),
        "TextDelta arrived outside a turn"
    );
}

#[test]
fn a_new_or_resumed_conversation_replaces_everything() {
    let mut s = store();
    started(&mut s, "one");
    s.apply(AgentEvent::TurnDone { stop_reason: StopReason::EndTurn, usage: usage(1, 1, None) });
    s.error = Some("stale".into());
    s.load_conversation(
        Replayed { turns: vec![TurnView::User { text: "old".into() }], debug: Vec::new() },
        "/t/1.jsonl".to_string(),
        "sonnet-5".into(),
    );
    assert_eq!(s.turns, vec![TurnView::User { text: "old".into() }]);
    assert_eq!(s.transcript, Some("/t/1.jsonl".to_string()));
    assert_eq!(s.model, "sonnet-5");
    assert_eq!(s.usage, UsageTotals::default());
    assert_eq!(s.error, None);
    s.reset_conversation("opus-5".into());
    assert!(s.turns.is_empty());
    assert_eq!(s.transcript, None);
}

#[test]
fn an_input_delta_without_its_card_and_a_result_without_its_card_are_errors() {
    let mut s = store();
    started(&mut s, "one");
    s.apply(AgentEvent::ToolInputDelta { id: "t9".into(), partial_json: "{".into() });
    assert_eq!(s.error.as_deref(), Some("an input delta for t9 arrived without its card"));
    let mut s = store();
    started(&mut s, "one");
    s.apply(AgentEvent::ToolResult {
        id: "t9".into(),
        name: "satz_packs".into(),
        body: "ok".into(),
        is_error: false,
        millis: 5,
    });
    assert_eq!(s.error.as_deref(), Some("a result for satz_packs (t9) arrived without its card"));
    assert_eq!(s.debug.len(), 1, "the result is logged under an entry of its own");
}
