use satz_studio::chat::{Block, DebugResult, REPLAYED_STDERR, Replayed, StderrLines, ToolResultView, TurnView};
use satz_studio::json::{Json, parse};
use satz_studio::replay::{ContentBlock, Message, Role, replay};

fn json(text: &str) -> Json {
    parse(text).expect("the test's JSON parses")
}

fn user(content: Vec<ContentBlock>) -> Message {
    Message { role: Role::User, content }
}

fn assistant(content: Vec<ContentBlock>) -> Message {
    Message { role: Role::Assistant, content }
}

fn text(t: &str) -> ContentBlock {
    ContentBlock::Text { text: t.to_string() }
}

#[test]
fn replay_folds_a_tool_loop_into_one_assistant_turn() {
    let messages = vec![
        user(vec![text("check the estate")]),
        assistant(vec![
            ContentBlock::Thinking { thinking: "I should compile".into(), signature: "sig".into() },
            text("Compiling."),
            ContentBlock::ToolUse {
                id: "t1".into(),
                name: "satz_transpile_check".into(),
                input: json("{}"),
            },
        ]),
        user(vec![ContentBlock::ToolResult {
            tool_use_id: "t1".into(),
            content: "{\n  \"addresses\": []\n}".into(),
            is_error: false,
        }]),
        assistant(vec![
            ContentBlock::Other(json(
                r#"{"type": "fallback", "from": "opus-5", "to": "sonnet-5"}"#,
            )),
            text("It compiles."),
            ContentBlock::Other(json(r#"{"type": "citation"}"#)),
        ]),
        user(vec![text("thanks")]),
        assistant(vec![ContentBlock::RedactedThinking { data: "x".into() }, text("Welcome.")]),
    ];
    let Replayed { turns, debug } = replay(&messages).unwrap();
    assert_eq!(turns.len(), 4);
    assert_eq!(turns[0], TurnView::User { text: "check the estate".into() });
    let TurnView::Assistant(first) = &turns[1] else {
        panic!("an assistant turn");
    };
    assert_eq!(first.requests, 2);
    assert_eq!(first.usage, None);
    assert_eq!(first.blocks.len(), 6);
    assert_eq!(first.blocks[0], Block::Thinking("I should compile".into()));
    assert_eq!(first.blocks[1], Block::Text("Compiling.".into()));
    let Block::Tool(card) = &first.blocks[2] else {
        panic!("a tool card");
    };
    assert_eq!(
        card.result,
        Some(ToolResultView { summary: "addresses: 0".into(), is_error: false, millis: None })
    );
    assert!(card.texts().iter().all(|t| !t.contains('{')));
    assert_eq!(debug.len(), 1);
    let entry = &debug[0];
    assert_eq!(entry.id, "t1");
    assert_eq!(entry.name, "satz_transpile_check");
    assert_eq!(entry.input.as_deref(), Some("{}"));
    assert_eq!(
        entry.result,
        Some(DebugResult {
            body: "{\n  \"addresses\": []\n}".into(),
            is_error: false,
            millis: None,
        })
    );
    assert_eq!(entry.stderr, StderrLines::Unseen(REPLAYED_STDERR));
    assert_eq!(
        first.blocks[3],
        Block::Fallback { from: "opus-5".into(), to: "sonnet-5".into() }
    );
    assert_eq!(first.blocks[4], Block::Text("It compiles.".into()));
    assert_eq!(first.blocks[5], Block::Other("citation".into()));
    assert_eq!(turns[2], TurnView::User { text: "thanks".into() });
    let TurnView::Assistant(second) = &turns[3] else {
        panic!("an assistant turn");
    };
    assert_eq!(second.blocks, vec![Block::RedactedThinking, Block::Text("Welcome.".into())]);
}

#[test]
fn replay_refuses_what_it_cannot_show_by_message_number() {
    let orphan = vec![user(vec![ContentBlock::ToolResult {
        tool_use_id: "t9".into(),
        content: String::new(),
        is_error: false,
    }])];
    assert_eq!(replay(&orphan).unwrap_err(), "message 1: a result for t9 without its call");
    let image = vec![user(vec![ContentBlock::Other(json(r#"{"type": "image"}"#))])];
    assert_eq!(replay(&image).unwrap_err(), "message 1: a image block in a user message");
}

#[test]
fn a_tool_result_in_an_assistant_message_is_refused_and_user_texts_join() {
    let messages = vec![
        user(vec![text("one"), text("two")]),
        assistant(vec![ContentBlock::ToolResult {
            tool_use_id: "t1".into(),
            content: String::new(),
            is_error: false,
        }]),
    ];
    assert_eq!(replay(&messages).unwrap_err(), "message 2: a tool result in an assistant message");
    let joined = replay(&vec![user(vec![text("one"), text("two")])]).unwrap();
    assert_eq!(joined.turns, vec![TurnView::User { text: "one\n\ntwo".into() }]);
}
