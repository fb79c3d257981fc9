//! What the chat does with each of the operator's actions, decided from what it holds
//! when the action arrives: the engine, a running turn, a parked approval. One turn at a
//! time; an action that needs the engine while a turn runs is refused with a visible
//! error. Whoever runs the chat performs the step decided here and reports back.

use vstd::prelude::*;
use crate::chat::{AgentStatus, Capabilities, Effort, EngineKind, Replayed, debug_view, turns_view};
use crate::replay::{Message, replay, replay_spec};
use crate::text::{chars_of, dec, push_dec, str_eq, string_of, trim, trimmed};

verus! {

/// The operator's answer to the approval card.
#[derive(Debug, Clone, Copy, PartialEq, Eq, Structural)]
pub enum Approval {
    Once,
    ForSession,
    Deny,
}

/// What the operator asked the chat to do.
#[derive(Debug, Clone, PartialEq, Eq)]
pub enum ChatAction {
    Send(String),
    Cancel,
    /// the operator's answer to the approval card
    Approve(Approval),
    NewTranscript,
    /// the transcript file to resume
    Resume(String),
    /// a model switch starts a new transcript
    SetModel(String),
    SetEffort(Effort),
    /// build the engine again — after a sign-in, or a failed start
    Restart,
    /// the empty state's button: select the CLI engine in the settings, save them, and
    /// build the engine again
    UseClaudeCode,
    /// the footer's switch: show or hide the debug panel, kept in the settings
    SetDebugLog(bool),
}

/// What the chat holds when an action arrives.
#[derive(Debug, Clone, PartialEq, Eq)]
pub struct Driver {
    /// a turn is in flight
    pub running: bool,
    /// the engine, when it is at hand: none while it could not be built, and none
    /// while a running turn's task holds it
    pub engine: Option<EngineKind>,
    /// the model the app's own engine asks for
    pub engine_model: String,
    /// an approval card's answer channel is parked, waiting for the operator
    pub approval: bool,
}

/// The step an action comes to.
#[derive(Debug, Clone, PartialEq, Eq)]
pub enum Step {
    /// nothing happens but this error, shown
    Refuse(String),
    /// nothing happens at all
    Nothing,
    /// run a turn on this message; `keeps_transcript` is the app's own engine, whose
    /// conversation is appended to a transcript of the app's
    StartTurn { text: String, keeps_transcript: bool },
    /// cancel the running turn
    CancelTurn,
    /// hand the parked approval channel this answer, and clear the card
    Answer(Approval),
    /// close the engine and build it again, on a new conversation
    Rebuild,
    /// the app's own engine starts a new conversation on `model`: its messages and the
    /// transcript go
    Fresh { model: String },
    /// load the transcript at this path; [`resume_loaded`] says what comes of it
    Load(String),
    /// the app's own engine moves to this model, on a new conversation
    SwitchModel(String),
    /// the app's own engine thinks this hard from now on
    SetEffort(Effort),
    /// select the CLI engine in the settings, save them, and build the engine again
    SelectCliEngine,
    /// keep the debug panel's switch in the settings
    SaveDebugLog(bool),
}

/// Whether an action needs the engine, which a running turn holds.
pub open spec fn needs_engine(a: ChatAction) -> bool {
    !(a is Cancel || a is Approve || a is SetDebugLog)
}

/// What `action` comes to for a chat that holds `d`.
pub fn decide(d: &Driver, action: ChatAction) -> (r: Step)
    ensures
        d.running && needs_engine(action) ==> r is Refuse,
        match action {
            ChatAction::Send(text) => if d.running {
                r matches Step::Refuse(m) && m@ == "a turn is already running"@
            } else if d.engine is None {
                r matches Step::Refuse(m) && m@ == "no engine: see the card above"@
            } else if trim(text@).len() == 0 {
                r is Nothing
            } else {
                r matches Step::StartTurn { text: t, keeps_transcript: k } && t@ == trim(text@)
                    && k == (d.engine == Some(EngineKind::Api))
            },
            ChatAction::Cancel => if d.running {
                r is CancelTurn
            } else {
                r matches Step::Refuse(m) && m@ == "no turn is running"@
            },
            ChatAction::Approve(a) => if d.approval {
                r == Step::Answer(a)
            } else {
                r matches Step::Refuse(m) && m@ == "no approval is pending"@
            },
            ChatAction::NewTranscript => if d.running {
                r matches Step::Refuse(m) && m@ == "wait for the turn to end"@
            } else {
                match d.engine {
                    Some(EngineKind::ClaudeCode) => r is Rebuild,
                    Some(EngineKind::Api) => r matches Step::Fresh { model } && model@
                        == d.engine_model@,
                    None => r matches Step::Refuse(m) && m@ == "no engine"@,
                }
            },
            ChatAction::Resume(path) => if d.running {
                r matches Step::Refuse(m) && m@ == "wait for the turn to end"@
            } else {
                r matches Step::Load(p) && p@ == path@
            },
            ChatAction::SetModel(model) => if d.running {
                r matches Step::Refuse(m) && m@
                    == "wait for the turn to end before changing the model"@
            } else if trim(model@).len() == 0 {
                r matches Step::Refuse(m) && m@ == "the model name is empty"@
            } else {
                match d.engine {
                    Some(EngineKind::ClaudeCode) => r matches Step::Refuse(m) && m@
                        == "the CLI engine takes its model from Settings; change it there and use New to start a session on it"@,
                    Some(EngineKind::Api) => if d.engine_model@ == trim(model@) {
                        r is Nothing
                    } else {
                        r matches Step::SwitchModel(m) && m@ == trim(model@)
                    },
                    None => r matches Step::Refuse(m) && m@ == "no engine"@,
                }
            },
            ChatAction::SetEffort(e) => if d.running {
                r matches Step::Refuse(m) && m@
                    == "wait for the turn to end before changing the effort"@
            } else {
                match d.engine {
                    Some(EngineKind::ClaudeCode) => r matches Step::Refuse(m) && m@
                        == "the CLI engine sets its own effort"@,
                    Some(EngineKind::Api) => r == Step::SetEffort(e),
                    None => r matches Step::Refuse(m) && m@ == "no engine"@,
                }
            },
            ChatAction::Restart => if d.running {
                r matches Step::Refuse(m) && m@ == "wait for the turn to end"@
            } else {
                r is Rebuild
            },
            ChatAction::UseClaudeCode => if d.running {
                r matches Step::Refuse(m) && m@ == "wait for the turn to end"@
            } else {
                r is SelectCliEngine
            },
            ChatAction::SetDebugLog(on) => r == Step::SaveDebugLog(on),
        },
{
    match action {
        ChatAction::Send(text) => {
            if d.running {
                return Step::Refuse(String::from_str("a turn is already running"));
            }
            let kind = match d.engine {
                Some(k) => k,
                None => {
                    return Step::Refuse(String::from_str("no engine: see the card above"));
                },
            };
            let cs = chars_of(text.as_str());
            let t = trimmed(cs.as_slice());
            if t.len() == 0 {
                return Step::Nothing;
            }
            let keeps = match kind {
                EngineKind::Api => true,
                EngineKind::ClaudeCode => false,
            };
            Step::StartTurn { text: string_of(t.as_slice()), keeps_transcript: keeps }
        },
        ChatAction::Cancel => {
            if d.running {
                Step::CancelTurn
            } else {
                Step::Refuse(String::from_str("no turn is running"))
            }
        },
        ChatAction::Approve(a) => {
            if d.approval {
                Step::Answer(a)
            } else {
                Step::Refuse(String::from_str("no approval is pending"))
            }
        },
        ChatAction::NewTranscript => {
            if d.running {
                return Step::Refuse(String::from_str("wait for the turn to end"));
            }
            match d.engine {
                Some(EngineKind::ClaudeCode) => Step::Rebuild,
                Some(EngineKind::Api) => Step::Fresh { model: d.engine_model.clone() },
                None => Step::Refuse(String::from_str("no engine")),
            }
        },
        ChatAction::Resume(path) => {
            if d.running {
                return Step::Refuse(String::from_str("wait for the turn to end"));
            }
            Step::Load(path)
        },
        ChatAction::SetModel(model) => {
            if d.running {
                return Step::Refuse(
                    String::from_str("wait for the turn to end before changing the model"),
                );
            }
            let cs = chars_of(model.as_str());
            let t = trimmed(cs.as_slice());
            if t.len() == 0 {
                return Step::Refuse(String::from_str("the model name is empty"));
            }
            let model = string_of(t.as_slice());
            match d.engine {
                Some(EngineKind::ClaudeCode) => Step::Refuse(
                    String::from_str(
                        "the CLI engine takes its model from Settings; change it there and use New to start a session on it",
                    ),
                ),
                Some(EngineKind::Api) => {
                    if str_eq(d.engine_model.as_str(), model.as_str()) {
                        Step::Nothing
                    } else {
                        Step::SwitchModel(model)
                    }
                },
                None => Step::Refuse(String::from_str("no engine")),
            }
        },
        ChatAction::SetEffort(e) => {
            if d.running {
                return Step::Refuse(
                    String::from_str("wait for the turn to end before changing the effort"),
                );
            }
            match d.engine {
                Some(EngineKind::ClaudeCode) => Step::Refuse(
                    String::from_str("the CLI engine sets its own effort"),
                ),
                Some(EngineKind::Api) => Step::SetEffort(e),
                None => Step::Refuse(String::from_str("no engine")),
            }
        },
        ChatAction::Restart => {
            if d.running {
                Step::Refuse(String::from_str("wait for the turn to end"))
            } else {
                Step::Rebuild
            }
        },
        ChatAction::UseClaudeCode => {
            if d.running {
                Step::Refuse(String::from_str("wait for the turn to end"))
            } else {
                Step::SelectCliEngine
            }
        },
        ChatAction::SetDebugLog(on) => Step::SaveDebugLog(on),
    }
}


/// What becomes of the transcript when a turn is sent on the app's own engine.
#[derive(Debug, Clone, Copy, PartialEq, Eq, Structural)]
pub enum TranscriptPlan {
    /// go on with the transcript as it is, or with none
    Keep,
    /// persistence was switched off: the open transcript goes, and the turn runs
    /// without one
    Close,
    /// persistence is on and no transcript is open: create one before the turn runs
    Create,
}

/// What becomes of the transcript for the next turn, from the persistence setting at
/// the time of the turn and whether one is open.
pub fn transcript_plan(persist: bool, open: bool) -> (r: TranscriptPlan)
    ensures
        r == (if !persist && open {
            TranscriptPlan::Close
        } else if persist && !open {
            TranscriptPlan::Create
        } else {
            TranscriptPlan::Keep
        }),
{
    if !persist && open {
        TranscriptPlan::Close
    } else if persist && !open {
        TranscriptPlan::Create
    } else {
        TranscriptPlan::Keep
    }
}

/// Why a transcript cannot be made or read where the app has no data directory.
pub const NO_DATA_DIR: &'static str = "the app's data directory is unavailable";

/// The error a transcript that could not be created shows: Send does not go on, since
/// the operator asked for a transcript and there is none.
pub fn not_created(why: &str) -> (r: String)
    ensures
        r@ == "transcript not created: "@ + why@
            + " (switch persistence off in Settings to chat without one)"@,
{
    let mut s = String::from_str("transcript not created: ");
    s.append(why);
    s.append(" (switch persistence off in Settings to chat without one)");
    s
}

/// The error a message that could not be appended shows: the transcript is dropped.
pub fn not_written(why: &str) -> (r: String)
    ensures
        r@ == "transcript not written: "@ + why@ + "; the rest of this conversation is not kept"@,
{
    let mut s = String::from_str("transcript not written: ");
    s.append(why);
    s.append("; the rest of this conversation is not kept");
    s
}

/// What a resumed transcript comes to: its turns and debug log, the model that wrote
/// it, and whether the engine moves to that model.
pub struct ResumePlan {
    pub replayed: Replayed,
    pub model: String,
    pub switch_model: bool,
}

/// A transcript loaded from `path`, written on `model`, replayed into the view for an
/// engine that holds `engine` on `engine_model`. A transcript that does not replay is
/// an error naming the file; only the app's own engine resumes one, since the CLI keeps
/// its own conversation.
pub fn resume_loaded(
    engine: Option<EngineKind>,
    engine_model: &str,
    path: &str,
    model: String,
    messages: &Vec<Message>,
) -> (r: Result<ResumePlan, String>)
    ensures
        match replay_spec(messages@) {
            Err(e) => r matches Err(m) && m@ == path@ + ": "@ + e,
            Ok((turns, debug)) => if engine != Some(EngineKind::Api) {
                r matches Err(m) && m@
                    == "only the Messages API engine resumes a transcript; the CLI engine keeps its own conversation"@
            } else {
                r matches Ok(p) && turns_view(p.replayed.turns@) == turns && debug_view(
                    p.replayed.debug@,
                ) == debug && p.model@ == model@ && p.switch_model == (engine_model@ != model@)
            },
        },
{
    let replayed = match replay(messages) {
        Ok(r) => r,
        Err(e) => {
            let mut m = String::from_str(path);
            m.append(": ");
            m.append(e.as_str());
            return Err(m);
        },
    };
    match engine {
        Some(EngineKind::Api) => {},
        _ => {
            return Err(
                String::from_str(
                    "only the Messages API engine resumes a transcript; the CLI engine keeps its own conversation",
                ),
            );
        },
    }
    let switch_model = !str_eq(engine_model, model.as_str());
    Ok(ResumePlan { replayed, model, switch_model })
}

/// What reading the estate's `satz mcp` stderr came to.
#[derive(Debug, Clone, PartialEq, Eq)]
pub enum StderrRead {
    Line(String),
    /// the log fell behind and lost this many lines
    Lagged(u64),
    /// the stream closed
    Closed,
}

/// The line the debug log's open call gets: the line itself, or how many lines a log
/// that fell behind lost; nothing once the stream closed.
pub fn stderr_text(read: StderrRead) -> (r: Option<String>)
    ensures
        match read {
            StderrRead::Line(l) => r matches Some(t) && t@ == l@,
            StderrRead::Lagged(n) => r matches Some(t) && t@ == "["@ + dec(n as nat)
                + " stderr lines lost: the log fell behind]"@,
            StderrRead::Closed => r is None,
        },
{
    match read {
        StderrRead::Line(l) => Some(l),
        StderrRead::Lagged(n) => {
            let mut t = String::from_str("[");
            push_dec(&mut t, n as u128);
            t.append(" stderr lines lost: the log fell behind]");
            Some(t)
        },
        StderrRead::Closed => None,
    }
}

/// The model the footer names for the CLI engine: the one it named at its first turn,
/// or the one Settings asked for; until then, the CLI's own default.
pub fn cli_model(named: Option<&str>) -> (r: String)
    ensures
        r@ == match named {
            Some(m) => m@,
            None => "the CLI's own default"@,
        },
{
    match named {
        Some(m) => String::from_str(m),
        None => String::from_str("the CLI's own default"),
    }
}

/// What the engine can do: the provider's answer on the app's own engine; on the CLI,
/// the estate's tools either way, with an effort that is the CLI's own.
pub fn engine_capabilities(kind: EngineKind, provider: Capabilities) -> (r: Capabilities)
    ensures
        r == match kind {
            EngineKind::Api => provider,
            EngineKind::ClaudeCode => Capabilities {
                tools: true,
                thinking: true,
                effort: false,
                cache_control: true,
            },
        },
{
    match kind {
        EngineKind::Api => provider,
        EngineKind::ClaudeCode => Capabilities {
            tools: true,
            thinking: true,
            effort: false,
            cache_control: true,
        },
    }
}

/// Why the app's own engine cannot be built on `model`: a model that names nothing.
pub fn model_problem(model: &str) -> (r: Option<AgentStatus>)
    ensures
        trim(model@).len() == 0 ==> (r matches Some(AgentStatus::Failed(m)) && m@
            == "the model is not set: name it in Settings"@),
        trim(model@).len() != 0 ==> r is None,
{
    let cs = chars_of(model);
    let t = trimmed(cs.as_slice());
    if t.len() == 0 {
        Some(AgentStatus::Failed(String::from_str("the model is not set: name it in Settings")))
    } else {
        None
    }
}

/// Whether the CLI engine can start, once the CLI is found and asked about its login:
/// signed out, it says how to sign in; without satz, whose MCP server it is given, it
/// cannot start; otherwise it starts on that satz.
pub fn cli_gate(logged_in: bool, login: String, satz: Option<String>) -> (r: Result<
    String,
    AgentStatus,
>)
    ensures
        !logged_in ==> (r matches Err(AgentStatus::NotSignedIn { login: l }) && l@ == login@),
        logged_in && satz is None ==> (r matches Err(AgentStatus::Failed(m)) && m@
            == "satz is not available, and the CLI engine is given the estate's satz MCP server — see the banner"@),
        logged_in ==> (satz matches Some(s) ==> (r matches Ok(p) && p@ == s@)),
{
    if !logged_in {
        return Err(AgentStatus::NotSignedIn { login });
    }
    match satz {
        Some(s) => Ok(s),
        None => Err(
            AgentStatus::Failed(
                String::from_str(
                    "satz is not available, and the CLI engine is given the estate's satz MCP server — see the banner",
                ),
            ),
        ),
    }
}

/// The status of a CLI engine whose session log is on and has no directory to go to.
pub fn log_dir_failed(why: &str) -> (r: AgentStatus)
    ensures
        r matches AgentStatus::Failed(m) && m@ == "the CLI log is on and has nowhere to go: "@
            + why@ + "; switch it off in Settings to chat without it"@,
{
    let mut m = String::from_str("the CLI log is on and has nowhere to go: ");
    m.append(why);
    m.append("; switch it off in Settings to chat without it");
    AgentStatus::Failed(m)
}

/// The status once a turn's task ended without handing the engine back.
pub fn task_lost(why: &str) -> (r: AgentStatus)
    ensures
        r matches AgentStatus::Failed(m) && m@ == "the turn task ended abnormally: "@ + why@
            + "; close and reopen the estate"@,
{
    let mut m = String::from_str("the turn task ended abnormally: ");
    m.append(why);
    m.append("; close and reopen the estate");
    AgentStatus::Failed(m)
}

/// The error when the event channel closes and no turn was running.
pub const NO_TURN_ENDED: &'static str = "the turn ended, but none was running";

} // verus!
