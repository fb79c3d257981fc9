use satz_studio::actions::{
    Approval, ChatAction, Driver, NO_DATA_DIR, StderrRead, Step, TranscriptPlan, cli_gate, cli_model,
    decide, engine_capabilities, log_dir_failed, model_problem, not_created, not_written,
    resume_loaded, stderr_text, task_lost, transcript_plan,
};
use satz_studio::chat::{AgentStatus, Capabilities, Effort, EngineKind, TurnView};
use satz_studio::replay::{ContentBlock, Message, Role};

fn idle(engine: Option<EngineKind>) -> Driver {
    Driver { running: false, engine, engine_model: "opus-5".into(), approval: false }
}

fn running() -> Driver {
    Driver { running: true, engine: None, engine_model: "opus-5".into(), approval: true }
}

fn refused(step: Step) -> String {
    match step {
        Step::Refuse(m) => m,
        other => panic!("not refused: {other:?}"),
    }
}

#[test]
fn one_turn_at_a_time_and_nothing_else_needs_the_engine_while_it_runs() {
    let d = running();
    assert_eq!(refused(decide(&d, ChatAction::Send("hi".into()))), "a turn is already running");
    for action in [
        ChatAction::NewTranscript,
        ChatAction::Resume("/t/1.jsonl".into()),
        ChatAction::Restart,
        ChatAction::UseClaudeCode,
    ] {
        assert_eq!(refused(decide(&d, action)), "wait for the turn to end");
    }
    assert_eq!(
        refused(decide(&d, ChatAction::SetModel("sonnet-5".into()))),
        "wait for the turn to end before changing the model"
    );
    assert_eq!(
        refused(decide(&d, ChatAction::SetEffort(Effort::High))),
        "wait for the turn to end before changing the effort"
    );
    assert_eq!(decide(&d, ChatAction::Cancel), Step::CancelTurn);
    assert_eq!(decide(&d, ChatAction::Approve(Approval::Deny)), Step::Answer(Approval::Deny));
    assert_eq!(decide(&d, ChatAction::SetDebugLog(true)), Step::SaveDebugLog(true));
}

#[test]
fn a_message_is_sent_trimmed_and_an_empty_one_is_nothing() {
    let api = idle(Some(EngineKind::Api));
    assert_eq!(
        decide(&api, ChatAction::Send("  check the estate \n".into())),
        Step::StartTurn { text: "check the estate".into(), keeps_transcript: true }
    );
    assert_eq!(decide(&api, ChatAction::Send(" \t ".into())), Step::Nothing);
    let cli = idle(Some(EngineKind::ClaudeCode));
    assert_eq!(
        decide(&cli, ChatAction::Send("hi".into())),
        Step::StartTurn { text: "hi".into(), keeps_transcript: false }
    );
    assert_eq!(refused(decide(&idle(None), ChatAction::Send("hi".into()))), "no engine: see the card above");
}

#[test]
fn cancel_and_approve_need_something_to_act_on() {
    let d = idle(Some(EngineKind::Api));
    assert_eq!(refused(decide(&d, ChatAction::Cancel)), "no turn is running");
    assert_eq!(refused(decide(&d, ChatAction::Approve(Approval::Once))), "no approval is pending");
    let parked = Driver { approval: true, ..d };
    assert_eq!(decide(&parked, ChatAction::Approve(Approval::ForSession)), Step::Answer(Approval::ForSession));
}

#[test]
fn a_new_conversation_is_a_new_process_on_the_cli_and_a_reset_on_the_api() {
    assert_eq!(decide(&idle(Some(EngineKind::ClaudeCode)), ChatAction::NewTranscript), Step::Rebuild);
    assert_eq!(
        decide(&idle(Some(EngineKind::Api)), ChatAction::NewTranscript),
        Step::Fresh { model: "opus-5".into() }
    );
    assert_eq!(refused(decide(&idle(None), ChatAction::NewTranscript)), "no engine");
    assert_eq!(decide(&idle(None), ChatAction::Restart), Step::Rebuild);
    assert_eq!(decide(&idle(None), ChatAction::UseClaudeCode), Step::SelectCliEngine);
    assert_eq!(
        decide(&idle(None), ChatAction::Resume("/t/1.jsonl".into())),
        Step::Load("/t/1.jsonl".into())
    );
}

#[test]
fn a_model_switch_is_trimmed_and_only_the_api_engine_takes_one() {
    let api = idle(Some(EngineKind::Api));
    assert_eq!(decide(&api, ChatAction::SetModel(" sonnet-5 ".into())), Step::SwitchModel("sonnet-5".into()));
    assert_eq!(decide(&api, ChatAction::SetModel("opus-5".into())), Step::Nothing);
    assert_eq!(refused(decide(&api, ChatAction::SetModel("  ".into()))), "the model name is empty");
    assert!(refused(decide(&idle(Some(EngineKind::ClaudeCode)), ChatAction::SetModel("x".into())))
        .contains("takes its model from Settings"));
    assert_eq!(refused(decide(&idle(None), ChatAction::SetModel("x".into()))), "no engine");
    assert_eq!(decide(&api, ChatAction::SetEffort(Effort::Max)), Step::SetEffort(Effort::Max));
    assert_eq!(
        refused(decide(&idle(Some(EngineKind::ClaudeCode)), ChatAction::SetEffort(Effort::Low))),
        "the CLI engine sets its own effort"
    );
}

#[test]
fn the_transcript_follows_the_setting_at_each_turn() {
    assert_eq!(transcript_plan(true, false), TranscriptPlan::Create);
    assert_eq!(transcript_plan(true, true), TranscriptPlan::Keep);
    assert_eq!(transcript_plan(false, true), TranscriptPlan::Close);
    assert_eq!(transcript_plan(false, false), TranscriptPlan::Keep);
    assert_eq!(
        not_created(NO_DATA_DIR),
        "transcript not created: the app's data directory is unavailable (switch persistence off in Settings to chat without one)"
    );
    assert_eq!(
        not_written("disk full"),
        "transcript not written: disk full; the rest of this conversation is not kept"
    );
}

#[test]
fn a_transcript_resumes_on_the_model_that_wrote_it() {
    let messages = vec![Message {
        role: Role::User,
        content: vec![ContentBlock::Text { text: "old".into() }],
    }];
    let plan = resume_loaded(Some(EngineKind::Api), "opus-5", "/t/1.jsonl", "sonnet-5".into(), &messages)
        .expect("it resumes");
    assert_eq!(plan.replayed.turns, vec![TurnView::User { text: "old".into() }]);
    assert_eq!(plan.model, "sonnet-5");
    assert!(plan.switch_model);
    let same = resume_loaded(Some(EngineKind::Api), "sonnet-5", "/t/1.jsonl", "sonnet-5".into(), &messages)
        .expect("it resumes");
    assert!(!same.switch_model);
    let Err(e) = resume_loaded(Some(EngineKind::ClaudeCode), "x", "/t/1.jsonl", "y".into(), &messages) else {
        panic!("the CLI engine does not resume");
    };
    assert!(e.starts_with("only the Messages API engine resumes a transcript"), "{e}");
    let orphan = vec![Message {
        role: Role::User,
        content: vec![ContentBlock::ToolResult { tool_use_id: "t9".into(), content: "x".into(), is_error: false }],
    }];
    let Err(e) = resume_loaded(Some(EngineKind::Api), "x", "/t/2.jsonl", "y".into(), &orphan) else {
        panic!("a broken transcript does not resume");
    };
    assert_eq!(e, "/t/2.jsonl: message 1: a result for t9 without its call");
}

#[test]
fn a_lagging_stderr_log_says_how_many_lines_it_lost() {
    assert_eq!(stderr_text(StderrRead::Line("warn: x".into())), Some("warn: x".to_string()));
    assert_eq!(
        stderr_text(StderrRead::Lagged(12)),
        Some("[12 stderr lines lost: the log fell behind]".to_string())
    );
    assert_eq!(stderr_text(StderrRead::Closed), None);
}

#[test]
fn the_engine_says_what_it_runs_on_and_what_stops_it() {
    assert_eq!(cli_model(Some("opus-5")), "opus-5");
    assert_eq!(cli_model(None), "the CLI's own default");
    let provider = Capabilities { tools: true, thinking: false, effort: true, cache_control: false };
    assert_eq!(engine_capabilities(EngineKind::Api, provider), provider);
    assert_eq!(
        engine_capabilities(EngineKind::ClaudeCode, provider),
        Capabilities { tools: true, thinking: true, effort: false, cache_control: true }
    );
    assert_eq!(
        model_problem("  "),
        Some(AgentStatus::Failed("the model is not set: name it in Settings".into()))
    );
    assert_eq!(model_problem("opus-5"), None);
    assert_eq!(
        cli_gate(false, "agent-cli auth login".into(), Some("/bin/satz".into())),
        Err(AgentStatus::NotSignedIn { login: "agent-cli auth login".into() })
    );
    assert!(matches!(cli_gate(true, "l".into(), None), Err(AgentStatus::Failed(m)) if m.starts_with("satz is not available")));
    assert_eq!(cli_gate(true, "l".into(), Some("/bin/satz".into())), Ok("/bin/satz".to_string()));
    assert_eq!(
        log_dir_failed("no home"),
        AgentStatus::Failed("the CLI log is on and has nowhere to go: no home; switch it off in Settings to chat without it".into())
    );
    assert_eq!(
        task_lost("panicked"),
        AgentStatus::Failed("the turn task ended abnormally: panicked; close and reopen the estate".into())
    );
}
