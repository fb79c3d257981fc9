//! The Chat view's store and the pure parts under it: the reduction of every agent event
//! into what the list shows, the usage totals, and the debug log of every tool call.
//! Nothing here touches the agent or the disk: whoever runs the agent hands each event
//! to [`ChatStore::apply`] and does what the store cannot, such as parking the sender
//! that answers a call waiting for the operator.

use vstd::prelude::*;
use crate::json::{Json, JsonV, json_pretty, json_read, parse, pretty};
use crate::summary::{summary_line, summary_spec};
use crate::text::{chars_of, push_dec, string_of, trim, trimmed};

verus! {

/// Whether the agent behind the view exists, and why not.
#[derive(Debug, Clone, PartialEq, Eq)]
pub enum AgentStatus {
    /// the provider is being resolved
    Starting,
    Ready,
    /// no API credential; `tried` is what each of the four sources answered
    NoCredential { tried: Vec<String> },
    /// the CLI engine, with a CLI that is signed out; `login` is the shell
    /// line the Sign in button runs in the user's terminal
    NotSignedIn { login: String },
    Failed(String),
}

/// Which engine serves the chat: the app's own loop over the Messages API, or the
/// installed coding-agent CLI on the user's subscription.
#[derive(Debug, Clone, Copy, PartialEq, Eq, Structural)]
pub enum EngineKind {
    Api,
    ClaudeCode,
}

impl EngineKind {
    pub fn is_claude_code(self) -> (r: bool)
        ensures
            r == (self is ClaudeCode),
    {
        match self {
            EngineKind::ClaudeCode => true,
            EngineKind::Api => false,
        }
    }
}

/// How hard the model thinks.
#[derive(Debug, Clone, Copy, PartialEq, Eq, Structural)]
pub enum Effort {
    Low,
    Medium,
    High,
    Xhigh,
    Max,
}

/// What the provider behind the chat can do.
#[derive(Debug, Clone, Copy, PartialEq, Eq, Structural)]
pub struct Capabilities {
    pub tools: bool,
    pub thinking: bool,
    pub effort: bool,
    pub cache_control: bool,
}

/// Why the model stopped.
#[derive(Debug, Clone, Copy, PartialEq, Eq, Structural)]
pub enum StopReason {
    EndTurn,
    MaxTokens,
    StopSequence,
    ToolUse,
    PauseTurn,
    Refusal,
}

/// The token figures of one request or a sum of them. A cache figure is `None` where
/// the provider never reported it.
#[derive(Debug, Clone, Copy, PartialEq, Eq, Structural)]
pub struct Usage {
    pub input_tokens: u64,
    pub output_tokens: u64,
    pub cache_creation_input_tokens: Option<u64>,
    pub cache_read_input_tokens: Option<u64>,
}

/// `a + b`, held at `u64::MAX`.
pub open spec fn sat_add(a: u64, b: u64) -> u64 {
    if a + b > u64::MAX {
        u64::MAX
    } else {
        (a + b) as u64
    }
}

/// A cache figure summed: reported when either part reports it, a reported zero
/// included.
pub open spec fn plus_reported(a: Option<u64>, b: Option<u64>) -> Option<u64> {
    match (a, b) {
        (None, None) => None,
        (Some(x), None) => Some(x),
        (None, Some(y)) => Some(y),
        (Some(x), Some(y)) => Some(sat_add(x, y)),
    }
}

/// The usage that nothing has used.
pub open spec fn no_usage() -> Usage {
    Usage {
        input_tokens: 0,
        output_tokens: 0,
        cache_creation_input_tokens: None,
        cache_read_input_tokens: None,
    }
}

/// Two usages summed, figure by figure.
pub open spec fn plus_spec(a: Usage, b: Usage) -> Usage {
    Usage {
        input_tokens: sat_add(a.input_tokens, b.input_tokens),
        output_tokens: sat_add(a.output_tokens, b.output_tokens),
        cache_creation_input_tokens: plus_reported(
            a.cache_creation_input_tokens,
            b.cache_creation_input_tokens,
        ),
        cache_read_input_tokens: plus_reported(a.cache_read_input_tokens, b.cache_read_input_tokens),
    }
}

fn add_sat(a: u64, b: u64) -> (r: u64)
    ensures
        r == sat_add(a, b),
{
    if a > u64::MAX - b {
        u64::MAX
    } else {
        a + b
    }
}

fn plus_opt(a: Option<u64>, b: Option<u64>) -> (r: Option<u64>)
    ensures
        r == plus_reported(a, b),
{
    match (a, b) {
        (None, None) => None,
        (Some(x), None) => Some(x),
        (None, Some(y)) => Some(y),
        (Some(x), Some(y)) => Some(add_sat(x, y)),
    }
}

impl Usage {
    /// The two usages summed: every figure added, held at `u64::MAX`; a cache figure is
    /// reported when either side reports it.
    pub fn plus(self, other: Usage) -> (r: Usage)
        ensures
            r == plus_spec(self, other),
    {
        Usage {
            input_tokens: add_sat(self.input_tokens, other.input_tokens),
            output_tokens: add_sat(self.output_tokens, other.output_tokens),
            cache_creation_input_tokens: plus_opt(
                self.cache_creation_input_tokens,
                other.cache_creation_input_tokens,
            ),
            cache_read_input_tokens: plus_opt(
                self.cache_read_input_tokens,
                other.cache_read_input_tokens,
            ),
        }
    }
}

impl Default for Usage {
    fn default() -> (r: Usage)
        ensures
            r == no_usage(),
    {
        Usage {
            input_tokens: 0,
            output_tokens: 0,
            cache_creation_input_tokens: None,
            cache_read_input_tokens: None,
        }
    }
}

/// The usage figures the footer shows: the last turn's and the session's.
#[derive(Debug, Clone, Copy, PartialEq, Eq, Structural)]
pub struct UsageTotals {
    /// the last completed turn, every request of it
    pub turn: Usage,
    /// every completed turn summed
    pub session: Usage,
    pub turns: usize,
}

/// No turn counted yet.
pub open spec fn no_totals() -> UsageTotals {
    UsageTotals { turn: no_usage(), session: no_usage(), turns: 0 }
}

/// The totals once a turn that used `usage` is counted. The count of turns is held at
/// `usize::MAX`.
pub open spec fn totals_add(t: UsageTotals, usage: Usage) -> UsageTotals {
    UsageTotals {
        turn: usage,
        session: plus_spec(t.session, usage),
        turns: if t.turns < usize::MAX { (t.turns + 1) as usize } else { usize::MAX },
    }
}

impl Default for UsageTotals {
    fn default() -> (r: UsageTotals)
        ensures
            r == no_totals(),
    {
        UsageTotals { turn: Usage::default(), session: Usage::default(), turns: 0 }
    }
}

impl UsageTotals {
    /// A turn completed with `usage`: it is the last turn's usage, and the session's
    /// sum takes it in.
    pub fn add(&mut self, usage: Usage)
        ensures
            *final(self) == totals_add(*old(self), usage),
    {
        self.turn = usage;
        if self.turns < usize::MAX {
            self.turns = self.turns + 1;
        }
        self.session = self.session.plus(usage);
    }
}

pub open spec fn opt_view(o: Option<String>) -> Option<Seq<char>> {
    match o {
        Some(s) => Some(s@),
        None => None,
    }
}

/// The result of a tool call as its card shows it.
#[derive(Debug, Clone, PartialEq)]
pub struct ToolResultView {
    /// the one line [`summary_line`] makes of what the model read
    pub summary: String,
    pub is_error: bool,
    /// `None` for a replayed result, whose duration was not kept
    pub millis: Option<u128>,
}

pub struct ResultV {
    pub summary: Seq<char>,
    pub is_error: bool,
    pub millis: Option<u128>,
}

impl View for ToolResultView {
    type V = ResultV;

    open spec fn view(&self) -> ResultV {
        ResultV { summary: self.summary@, is_error: self.is_error, millis: self.millis }
    }
}

/// One tool call as the conversation shows it: its name, its status, its duration and
/// one line about its result. The input and the result themselves are the debug log's
/// ([`DebugEvent`], under the same id).
#[derive(Debug, Clone, PartialEq)]
pub struct ToolCard {
    pub id: String,
    pub name: String,
    /// the input JSON as it streamed, partial until the block stops; kept for the debug
    /// log, never shown on the card
    pub input_json: String,
    /// `None` while the call runs
    pub result: Option<ToolResultView>,
}

pub struct CardV {
    pub id: Seq<char>,
    pub name: Seq<char>,
    pub input_json: Seq<char>,
    pub result: Option<ResultV>,
}

impl View for ToolCard {
    type V = CardV;

    open spec fn view(&self) -> CardV {
        CardV {
            id: self.id@,
            name: self.name@,
            input_json: self.input_json@,
            result: match self.result {
                Some(r) => Some(r@),
                None => None,
            },
        }
    }
}

/// The texts of a tool card: the name, the summary line once the call is done, and
/// `42 ms` once its duration is known.
#[derive(Debug, Clone, PartialEq, Eq)]
pub struct CardText {
    pub name: String,
    pub summary: Option<String>,
    pub duration: Option<String>,
}

/// A fresh card for a call that has just started.
pub open spec fn open_card(id: Seq<char>, name: Seq<char>) -> CardV {
    CardV { id, name, input_json: seq![], result: None }
}

/// The input a card's stream carried, as the debug log keeps it: pretty-printed when it
/// parses, `{}` when nothing streamed, the raw text when it does not parse.
pub open spec fn streamed_input_spec(input_json: Seq<char>) -> Seq<char> {
    let raw = trim(input_json);
    if raw.len() == 0 {
        "{}"@
    } else {
        match json_read(raw) {
            Some(v) => json_pretty(v),
            None => input_json,
        }
    }
}

/// The texts a card renders: its name, its summary once done, its duration once known.
pub open spec fn card_texts(c: CardV) -> Seq<Seq<char>> {
    seq![c.name] + match c.result {
        Some(res) => seq![res.summary],
        None => seq![],
    } + match c.result {
        Some(res) => match res.millis {
            Some(ms) => seq![crate::text::dec(ms as nat) + " ms"@],
            None => seq![],
        },
        None => seq![],
    }
}

impl ToolCard {
    pub(crate) fn open(id: String, name: String) -> (r: ToolCard)
        ensures
            r@ == open_card(id@, name@),
    {
        ToolCard { id, name, input_json: String::new(), result: None }
    }

    /// What the card renders, and nothing else: its name, the summary once the call is
    /// done, and its duration in milliseconds once that is known.
    pub fn shown(&self) -> (r: CardText)
        ensures
            r.name@ == self.name@,
            opt_view(r.summary) == match self.result {
                Some(res) => Some(res.summary@),
                None => None,
            },
            opt_view(r.duration) == match self.result {
                Some(res) => match res.millis {
                    Some(ms) => Some(crate::text::dec(ms as nat) + " ms"@),
                    None => None,
                },
                None => None,
            },
    {
        let summary = match &self.result {
            Some(r) => Some(r.summary.clone()),
            None => None,
        };
        let duration = match &self.result {
            Some(r) => match r.millis {
                Some(ms) => {
                    let mut s = String::new();
                    push_dec(&mut s, ms);
                    s.append(" ms");
                    Some(s)
                },
                None => None,
            },
            None => None,
        };
        CardText { name: self.name.clone(), summary, duration }
    }

    /// Every text the card renders, in order.
    pub fn texts(&self) -> (r: Vec<String>)
        ensures
            r.deep_view() == card_texts(self@),
    {
        let shown = self.shown();
        let mut texts: Vec<String> = Vec::new();
        texts.push(shown.name);
        match shown.summary {
            Some(s) => texts.push(s),
            None => {},
        }
        match shown.duration {
            Some(d) => texts.push(d),
            None => {},
        }
        assert(texts.deep_view() =~= card_texts(self@));
        texts
    }

    /// The input the stream carried, as the debug log keeps it.
    fn streamed_input(&self) -> (r: String)
        ensures
            r@ == streamed_input_spec(self.input_json@),
    {
        let chars = chars_of(self.input_json.as_str());
        let raw = trimmed(chars.as_slice());
        if raw.len() == 0 {
            return String::from_str("{}");
        }
        let raw = string_of(raw.as_slice());
        match parse(raw.as_str()) {
            Some(value) => pretty(&value),
            None => self.input_json.clone(),
        }
    }
}

/// What the debug log holds of the satz stderr lines of a call.
#[derive(Debug, Clone, PartialEq, Eq)]
pub enum StderrLines {
    /// the lines the estate's `satz mcp` wrote while the call was open
    Lines(Vec<String>),
    /// this call's stderr does not reach the app, and why
    Unseen(&'static str),
}

pub enum StderrV {
    Lines(Seq<Seq<char>>),
    Unseen(Seq<char>),
}

impl View for StderrLines {
    type V = StderrV;

    open spec fn view(&self) -> StderrV {
        match self {
            StderrLines::Lines(v) => StderrV::Lines(v.deep_view()),
            StderrLines::Unseen(s) => StderrV::Unseen(s@),
        }
    }
}

/// Why a CLI-engine call has no stderr in the log.
pub const CLAUDE_CODE_STDERR: &'static str =
    "The CLI runs its own satz mcp; that process's stderr does not reach the app";

/// Why a replayed call has no stderr in the log.
pub const REPLAYED_STDERR: &'static str = "a transcript does not keep satz's stderr";

#[derive(Debug, Clone, PartialEq)]
pub struct DebugResult {
    /// what the model read, which a replayed transcript carries as it was sent
    pub body: String,
    pub is_error: bool,
    /// `None` for a replayed result, whose duration was not kept
    pub millis: Option<u128>,
}

pub struct DebugResultV {
    pub body: Seq<char>,
    pub is_error: bool,
    pub millis: Option<u128>,
}

impl View for DebugResult {
    type V = DebugResultV;

    open spec fn view(&self) -> DebugResultV {
        DebugResultV { body: self.body@, is_error: self.is_error, millis: self.millis }
    }
}

/// One tool call in the debug log, under its call id: the input and the result JSON,
/// whether it was an error, how long it took, and what satz wrote to stderr meanwhile.
#[derive(Debug, Clone, PartialEq)]
pub struct DebugEvent {
    pub id: String,
    pub name: String,
    /// the whole input, pretty-printed; `None` until it is known
    pub input: Option<String>,
    /// `None` while the call runs
    pub result: Option<DebugResult>,
    pub stderr: StderrLines,
}

pub struct DebugV {
    pub id: Seq<char>,
    pub name: Seq<char>,
    pub input: Option<Seq<char>>,
    pub result: Option<DebugResultV>,
    pub stderr: StderrV,
}

impl View for DebugEvent {
    type V = DebugV;

    open spec fn view(&self) -> DebugV {
        DebugV {
            id: self.id@,
            name: self.name@,
            input: opt_view(self.input),
            result: match self.result {
                Some(r) => Some(r@),
                None => None,
            },
            stderr: self.stderr@,
        }
    }
}

/// A debug entry for a call that has just started.
pub open spec fn open_debug(id: Seq<char>, name: Seq<char>, stderr: StderrV) -> DebugV {
    DebugV { id, name, input: None, result: None, stderr }
}

impl DebugEvent {
    pub(crate) fn open(id: String, name: String, stderr: StderrLines) -> (r: DebugEvent)
        ensures
            r@ == open_debug(id@, name@, stderr@),
    {
        DebugEvent { id, name, input: None, result: None, stderr }
    }
}

#[derive(Debug, Clone, PartialEq)]
pub enum Block {
    Text(String),
    /// the summarised thinking
    Thinking(String),
    /// a thinking block the API redacted
    RedactedThinking,
    Tool(ToolCard),
    /// the request was re-run on another model (a `fallback` block in the transcript)
    Fallback { from: String, to: String },
    /// a block kind this view does not read, carried by the transcript verbatim
    Other(String),
}

pub enum BlockV {
    Text(Seq<char>),
    Thinking(Seq<char>),
    RedactedThinking,
    Tool(CardV),
    Fallback(Seq<char>, Seq<char>),
    Other(Seq<char>),
}

impl View for Block {
    type V = BlockV;

    open spec fn view(&self) -> BlockV {
        match self {
            Block::Text(t) => BlockV::Text(t@),
            Block::Thinking(t) => BlockV::Thinking(t@),
            Block::RedactedThinking => BlockV::RedactedThinking,
            Block::Tool(c) => BlockV::Tool(c@),
            Block::Fallback { from, to } => BlockV::Fallback(from@, to@),
            Block::Other(k) => BlockV::Other(k@),
        }
    }
}

/// The model's side of one turn: its blocks in stream order — text, thinking, one
/// card per tool call — across every request the turn took.
#[derive(Debug, Clone, PartialEq)]
pub struct AssistantTurn {
    pub blocks: Vec<Block>,
    /// how many requests the turn took: one, plus one per tool loop
    pub requests: usize,
    /// the model the server named at the start of the turn's latest request; `None` for
    /// a replayed turn, whose transcript does not keep it
    pub model: Option<String>,
    pub stop_reason: Option<StopReason>,
    /// the turn's usage: the requests that ended so far while it streams, the engine's
    /// total for the turn once it is done; `None` for a replayed turn, which has none
    pub usage: Option<Usage>,
}

pub struct AssistantV {
    pub blocks: Seq<BlockV>,
    pub requests: usize,
    pub model: Option<Seq<char>>,
    pub stop_reason: Option<StopReason>,
    pub usage: Option<Usage>,
}

pub open spec fn blocks_view(b: Seq<Block>) -> Seq<BlockV> {
    b.map_values(|x: Block| x@)
}

impl View for AssistantTurn {
    type V = AssistantV;

    open spec fn view(&self) -> AssistantV {
        AssistantV {
            blocks: blocks_view(self.blocks@),
            requests: self.requests,
            model: opt_view(self.model),
            stop_reason: self.stop_reason,
            usage: self.usage,
        }
    }
}

/// A turn with nothing in it yet.
pub open spec fn empty_turn() -> AssistantV {
    AssistantV { blocks: seq![], requests: 0, model: None, stop_reason: None, usage: None }
}

impl Default for AssistantTurn {
    fn default() -> (r: AssistantTurn)
        ensures
            r@ == empty_turn(),
    {
        let r = AssistantTurn {
            blocks: Vec::new(),
            requests: 0,
            model: None,
            stop_reason: None,
            usage: None,
        };
        assert(r@.blocks =~= Seq::<BlockV>::empty());
        r
    }
}

/// The blocks once `piece` of text streamed in: it extends the text block that is last,
/// or opens one.
pub open spec fn push_text_spec(blocks: Seq<BlockV>, piece: Seq<char>) -> Seq<BlockV> {
    if blocks.len() > 0 && blocks.last() is Text {
        blocks.update(blocks.len() - 1, BlockV::Text(blocks.last()->Text_0 + piece))
    } else {
        blocks.push(BlockV::Text(piece))
    }
}

/// The blocks once `piece` of thinking streamed in.
pub open spec fn push_thinking_spec(blocks: Seq<BlockV>, piece: Seq<char>) -> Seq<BlockV> {
    if blocks.len() > 0 && blocks.last() is Thinking {
        blocks.update(blocks.len() - 1, BlockV::Thinking(blocks.last()->Thinking_0 + piece))
    } else {
        blocks.push(BlockV::Thinking(piece))
    }
}

/// The index of the last card among the first `n` blocks whose call id is `id`.
pub open spec fn last_card(blocks: Seq<BlockV>, id: Seq<char>, n: int) -> Option<int>
    decreases n,
{
    if n <= 0 {
        None
    } else if blocks[n - 1] is Tool && blocks[n - 1]->Tool_0.id == id {
        Some(n - 1)
    } else {
        last_card(blocks, id, n - 1)
    }
}

/// The index of the last card of the turn whose call id is `id`.
pub open spec fn card_of(blocks: Seq<BlockV>, id: Seq<char>) -> Option<int> {
    last_card(blocks, id, blocks.len() as int)
}

pub proof fn lemma_last_card(blocks: Seq<BlockV>, id: Seq<char>, n: int)
    requires
        n <= blocks.len(),
    ensures
        last_card(blocks, id, n) matches Some(i) ==> 0 <= i < n && blocks[i] is Tool
            && blocks[i]->Tool_0.id == id,
    decreases n,
{
    if n > 0 {
        lemma_last_card(blocks, id, n - 1);
    }
}

impl AssistantTurn {
    pub(crate) fn push_text(&mut self, piece: &str)
        ensures
            final(self)@ == (AssistantV { blocks: push_text_spec(old(self)@.blocks, piece@), ..old(self)@ }),
    {
        let ghost before = self@.blocks;
        let n = self.blocks.len();
        if n > 0 {
            let last = self.blocks.pop().unwrap();
            assert(blocks_view(self.blocks@) =~= before.drop_last());
            match last {
                Block::Text(mut text) => {
                    text.append(piece);
                    self.blocks.push(Block::Text(text));
                    assert(self@.blocks =~= push_text_spec(before, piece@));
                },
                other => {
                    self.blocks.push(other);
                    assert(self@.blocks =~= before);
                    self.blocks.push(Block::Text(String::from_str(piece)));
                    assert(self@.blocks =~= push_text_spec(before, piece@));
                },
            }
        } else {
            self.blocks.push(Block::Text(String::from_str(piece)));
            assert(self@.blocks =~= push_text_spec(before, piece@));
        }
    }

    fn push_thinking(&mut self, piece: &str)
        ensures
            final(self)@ == (AssistantV { blocks: push_thinking_spec(old(self)@.blocks, piece@), ..old(self)@ }),
    {
        let ghost before = self@.blocks;
        let n = self.blocks.len();
        if n > 0 {
            let last = self.blocks.pop().unwrap();
            assert(blocks_view(self.blocks@) =~= before.drop_last());
            match last {
                Block::Thinking(mut text) => {
                    text.append(piece);
                    self.blocks.push(Block::Thinking(text));
                    assert(self@.blocks =~= push_thinking_spec(before, piece@));
                },
                other => {
                    self.blocks.push(other);
                    assert(self@.blocks =~= before);
                    self.blocks.push(Block::Thinking(String::from_str(piece)));
                    assert(self@.blocks =~= push_thinking_spec(before, piece@));
                },
            }
        } else {
            self.blocks.push(Block::Thinking(String::from_str(piece)));
            assert(self@.blocks =~= push_thinking_spec(before, piece@));
        }
    }

    /// The index of the last card whose call id is `id`.
    pub(crate) fn card_index(&self, id: &str) -> (r: Option<usize>)
        ensures
            match r {
                Some(i) => card_of(self@.blocks, id@) == Some(i as int),
                None => card_of(self@.blocks, id@) is None,
            },
    {
        let ghost bs = self@.blocks;
        let mut n = self.blocks.len();
        while n > 0
            invariant
                n <= self.blocks.len() == bs.len(),
                bs == self@.blocks,
                card_of(bs, id@) == last_card(bs, id@, n as int),
            decreases n,
        {
            assert(bs[n - 1] == self.blocks@[n - 1]@);
            match &self.blocks[n - 1] {
                Block::Tool(card) => {
                    if crate::text::str_eq(card.id.as_str(), id) {
                        return Some(n - 1);
                    }
                },
                _ => {},
            }
            n = n - 1;
        }
        None
    }
}

/// One turn of the conversation as the list shows it. Only these two mirror the
/// agent's transcript; a refused, failed or cancelled turn becomes a [`Notice`].
#[derive(Debug, Clone, PartialEq)]
pub enum TurnView {
    User { text: String },
    Assistant(AssistantTurn),
}

pub enum TurnV {
    User(Seq<char>),
    Assistant(AssistantV),
}

impl View for TurnView {
    type V = TurnV;

    open spec fn view(&self) -> TurnV {
        match self {
            TurnView::User { text } => TurnV::User(text@),
            TurnView::Assistant(t) => TurnV::Assistant(t@),
        }
    }
}

pub open spec fn turns_view(t: Seq<TurnView>) -> Seq<TurnV> {
    t.map_values(|x: TurnView| x@)
}

pub open spec fn debug_view(d: Seq<DebugEvent>) -> Seq<DebugV> {
    d.map_values(|x: DebugEvent| x@)
}

/// A write tool waiting for the operator. The sender that answers it stays with whoever
/// runs the agent, since the store cannot hold it.
#[derive(Debug, Clone, PartialEq)]
pub struct PendingCall {
    pub id: String,
    pub name: String,
    pub input: Json,
}

pub struct PendingV {
    pub id: Seq<char>,
    pub name: Seq<char>,
    pub input: JsonV,
}

impl View for PendingCall {
    type V = PendingV;

    open spec fn view(&self) -> PendingV {
        PendingV { id: self.id@, name: self.name@, input: self.input@ }
    }
}

/// How a turn ended without reaching the transcript. The message that began it is
/// kept so it can be sent again.
#[derive(Debug, Clone, PartialEq, Eq)]
pub enum Notice {
    Refused {
        user_text: String,
        category: Option<String>,
        explanation: Option<String>,
        recommended_model: Option<String>,
    },
    Failed { user_text: String, error: String },
    Cancelled { user_text: String },
}

pub enum NoticeV {
    Refused {
        user_text: Seq<char>,
        category: Option<Seq<char>>,
        explanation: Option<Seq<char>>,
        recommended_model: Option<Seq<char>>,
    },
    Failed { user_text: Seq<char>, error: Seq<char> },
    Cancelled { user_text: Seq<char> },
}

impl View for Notice {
    type V = NoticeV;

    open spec fn view(&self) -> NoticeV {
        match self {
            Notice::Refused { user_text, category, explanation, recommended_model } =>
                NoticeV::Refused {
                user_text: user_text@,
                category: opt_view(*category),
                explanation: opt_view(*explanation),
                recommended_model: opt_view(*recommended_model),
            },
            Notice::Failed { user_text, error } => NoticeV::Failed {
                user_text: user_text@,
                error: error@,
            },
            Notice::Cancelled { user_text } => NoticeV::Cancelled { user_text: user_text@ },
        }
    }
}

impl Notice {
    /// The message the turn began with.
    pub fn user_text(&self) -> (r: &str)
        ensures
            r@ == match self@ {
                NoticeV::Refused { user_text, .. } => user_text,
                NoticeV::Failed { user_text, .. } => user_text,
                NoticeV::Cancelled { user_text } => user_text,
            },
    {
        match self {
            Notice::Refused { user_text, .. } => user_text.as_str(),
            Notice::Failed { user_text, .. } => user_text.as_str(),
            Notice::Cancelled { user_text } => user_text.as_str(),
        }
    }
}

/// One event of a turn, as the agent emits it. A tool result carries the text the
/// model read of the outcome; a failure carries its message.
#[derive(Debug, Clone, PartialEq)]
pub enum AgentEvent {
    /// a request began on `model`
    Started { model: String },
    /// a request ended, having used `usage`
    RequestDone { usage: Usage },
    TextDelta(String),
    ThinkingDelta(String),
    ToolUseStarted { id: String, name: String },
    ToolInputDelta { id: String, partial_json: String },
    /// a write tool waits for the operator's approval
    ToolCallPending { id: String, name: String, input: Json },
    ToolResult { id: String, name: String, body: String, is_error: bool, millis: u128 },
    /// what the engine says about the turn that is not the answer
    Notice(String),
    TurnDone { stop_reason: StopReason, usage: Usage },
    Refused {
        category: Option<String>,
        explanation: Option<String>,
        recommended_model: Option<String>,
    },
    Failed(String),
    Cancelled,
}

pub enum EventV {
    Started(Seq<char>),
    RequestDone(Usage),
    TextDelta(Seq<char>),
    ThinkingDelta(Seq<char>),
    ToolUseStarted(Seq<char>, Seq<char>),
    ToolInputDelta(Seq<char>, Seq<char>),
    ToolCallPending(Seq<char>, Seq<char>, JsonV),
    ToolResult(Seq<char>, Seq<char>, Seq<char>, bool, u128),
    Notice(Seq<char>),
    TurnDone(StopReason, Usage),
    Refused(Option<Seq<char>>, Option<Seq<char>>, Option<Seq<char>>),
    Failed(Seq<char>),
    Cancelled,
}

impl View for AgentEvent {
    type V = EventV;

    open spec fn view(&self) -> EventV {
        match self {
            AgentEvent::Started { model } => EventV::Started(model@),
            AgentEvent::RequestDone { usage } => EventV::RequestDone(*usage),
            AgentEvent::TextDelta(p) => EventV::TextDelta(p@),
            AgentEvent::ThinkingDelta(p) => EventV::ThinkingDelta(p@),
            AgentEvent::ToolUseStarted { id, name } => EventV::ToolUseStarted(id@, name@),
            AgentEvent::ToolInputDelta { id, partial_json } => EventV::ToolInputDelta(
                id@,
                partial_json@,
            ),
            AgentEvent::ToolCallPending { id, name, input } => EventV::ToolCallPending(
                id@,
                name@,
                input@,
            ),
            AgentEvent::ToolResult { id, name, body, is_error, millis } => EventV::ToolResult(
                id@,
                name@,
                body@,
                *is_error,
                *millis,
            ),
            AgentEvent::Notice(t) => EventV::Notice(t@),
            AgentEvent::TurnDone { stop_reason, usage } => EventV::TurnDone(*stop_reason, *usage),
            AgentEvent::Refused { category, explanation, recommended_model } => EventV::Refused(
                opt_view(*category),
                opt_view(*explanation),
                opt_view(*recommended_model),
            ),
            AgentEvent::Failed(e) => EventV::Failed(e@),
            AgentEvent::Cancelled => EventV::Cancelled,
        }
    }
}

/// The name an event goes by in an error message.
pub open spec fn event_name_spec(e: EventV) -> Seq<char> {
    match e {
        EventV::Started(..) => "Started"@,
        EventV::RequestDone(..) => "RequestDone"@,
        EventV::TextDelta(..) => "TextDelta"@,
        EventV::ThinkingDelta(..) => "ThinkingDelta"@,
        EventV::ToolUseStarted(..) => "ToolUseStarted"@,
        EventV::ToolInputDelta(..) => "ToolInputDelta"@,
        EventV::ToolCallPending(..) => "ToolCallPending"@,
        EventV::ToolResult(..) => "ToolResult"@,
        EventV::Notice(..) => "Notice"@,
        EventV::TurnDone(..) => "TurnDone"@,
        EventV::Refused(..) => "Refused"@,
        EventV::Failed(..) => "Failed"@,
        EventV::Cancelled => "Cancelled"@,
    }
}

fn event_name(event: &AgentEvent) -> (r: &'static str)
    ensures
        r@ == event_name_spec(event@),
{
    match event {
        AgentEvent::Started { .. } => "Started",
        AgentEvent::RequestDone { .. } => "RequestDone",
        AgentEvent::TextDelta(_) => "TextDelta",
        AgentEvent::ThinkingDelta(_) => "ThinkingDelta",
        AgentEvent::ToolUseStarted { .. } => "ToolUseStarted",
        AgentEvent::ToolInputDelta { .. } => "ToolInputDelta",
        AgentEvent::ToolCallPending { .. } => "ToolCallPending",
        AgentEvent::ToolResult { .. } => "ToolResult",
        AgentEvent::Notice(_) => "Notice",
        AgentEvent::TurnDone { .. } => "TurnDone",
        AgentEvent::Refused { .. } => "Refused",
        AgentEvent::Failed(_) => "Failed",
        AgentEvent::Cancelled => "Cancelled",
    }
}

/// The events that arrive many times a second: text, thinking and tool input deltas.
pub open spec fn is_delta_spec(e: EventV) -> bool {
    e is TextDelta || e is ThinkingDelta || e is ToolInputDelta
}

/// The events that arrive many times a second; whoever runs the agent can write them to
/// the `streaming` field alone so the rest of the view stays still.
pub fn is_delta(event: &AgentEvent) -> (r: bool)
    ensures
        r == is_delta_spec(event@),
{
    match event {
        AgentEvent::TextDelta(_) | AgentEvent::ThinkingDelta(_) | AgentEvent::ToolInputDelta {
            ..
        } => true,
        _ => false,
    }
}

/// What appending a delta makes of the streaming turn: the new turn, or the error
/// that leaves it as it was.
pub open spec fn apply_delta_spec(streaming: Option<AssistantV>, e: EventV) -> Result<
    Option<AssistantV>,
    Seq<char>,
> {
    match streaming {
        None => Err(event_name_spec(e) + " arrived outside a turn"@),
        Some(t) => match e {
            EventV::TextDelta(p) => Ok(
                Some(AssistantV { blocks: push_text_spec(t.blocks, p), ..t }),
            ),
            EventV::ThinkingDelta(p) => Ok(
                Some(AssistantV { blocks: push_thinking_spec(t.blocks, p), ..t }),
            ),
            EventV::ToolInputDelta(id, partial) => match card_of(t.blocks, id) {
                Some(i) => Ok(
                    Some(
                        AssistantV {
                            blocks: t.blocks.update(
                                i,
                                BlockV::Tool(
                                    CardV {
                                        input_json: t.blocks[i]->Tool_0.input_json + partial,
                                        ..t.blocks[i]->Tool_0
                                    },
                                ),
                            ),
                            ..t
                        },
                    ),
                ),
                None => Err("an input delta for "@ + id + " arrived without its card"@),
            },
            _ => Err(event_name_spec(e) + " is not a delta"@),
        },
    }
}

pub open spec fn opt_turn_view(o: Option<AssistantTurn>) -> Option<AssistantV> {
    match o {
        Some(t) => Some(t@),
        None => None,
    }
}

/// Append a delta to the streaming turn. Outside a turn, for an input delta whose card
/// is not there, and for an event that is not a delta, it is an error that names it,
/// and the turn is left as it was.
pub fn apply_delta(streaming: &mut Option<AssistantTurn>, event: AgentEvent) -> (r: Result<
    (),
    String,
>)
    ensures
        match apply_delta_spec(opt_turn_view(*old(streaming)), event@) {
            Ok(t) => r is Ok && opt_turn_view(*final(streaming)) == t,
            Err(m) => r matches Err(e) && e@ == m && *final(streaming) == *old(streaming),
        },
{
    if streaming.is_none() {
        let mut m = String::from_str(event_name(&event));
        m.append(" arrived outside a turn");
        return Err(m);
    }
    let mut turn = streaming.take().unwrap();
    let ghost t = turn@;
    match event {
        AgentEvent::TextDelta(piece) => {
            turn.push_text(piece.as_str());
            *streaming = Some(turn);
            Ok(())
        },
        AgentEvent::ThinkingDelta(piece) => {
            turn.push_thinking(piece.as_str());
            *streaming = Some(turn);
            Ok(())
        },
        AgentEvent::ToolInputDelta { id, partial_json } => match turn.card_index(id.as_str()) {
            Some(i) => {
                proof {
                    lemma_last_card(t.blocks, id@, t.blocks.len() as int);
                }
                let mut block = Block::RedactedThinking;
                turn.blocks.set_and_swap(i, &mut block);
                assert(block@ == t.blocks[i as int]);
                match block {
                    Block::Tool(mut card) => {
                        card.input_json.append(partial_json.as_str());
                        turn.blocks.set(i, Block::Tool(card));
                    },
                    other => {
                        turn.blocks.set(i, other);
                    },
                }
                assert(turn@.blocks =~= t.blocks.update(
                    i as int,
                    BlockV::Tool(
                        CardV {
                            input_json: t.blocks[i as int]->Tool_0.input_json + partial_json@,
                            ..t.blocks[i as int]->Tool_0
                        },
                    ),
                ));
                *streaming = Some(turn);
                Ok(())
            },
            None => {
                *streaming = Some(turn);
                let mut m = String::from_str("an input delta for ");
                m.append(id.as_str());
                m.append(" arrived without its card");
                Err(m)
            },
        },
        other => {
            *streaming = Some(turn);
            let mut m = String::from_str(event_name(&other));
            m.append(" is not a delta");
            Err(m)
        },
    }
}

/// The Chat view's store.
pub struct ChatStore {
    pub agent: AgentStatus,
    /// the completed turns, mirroring the agent's transcript
    pub turns: Vec<TurnView>,
    /// every tool call of the conversation, in order, with its JSON: what the debug
    /// panel shows, kept whether the panel is on or not
    pub debug: Vec<DebugEvent>,
    /// the call a tool card's link asked the debug panel to show
    pub debug_focus: Option<String>,
    /// where the running turn's calls begin in `debug`: a call before it that has no
    /// result belongs to a turn that ended first, and no stderr line is its
    pub debug_turn: usize,
    /// the assistant turn being streamed
    pub streaming: Option<AssistantTurn>,
    pub pending: Option<PendingCall>,
    /// how the last turn ended when it did not reach the transcript
    pub notice: Option<Notice>,
    pub usage: UsageTotals,
    /// the transcript file the conversation is appended to
    pub transcript: Option<String>,
    /// this estate's transcripts, newest first
    pub transcripts: Vec<String>,
    pub model: String,
    pub effort: Effort,
    pub engine: EngineKind,
    pub capabilities: Capabilities,
    /// the last thing the engine said about the turn that is not the answer: the
    /// subscription's usage against the plan, a retry, a tool the engine denied itself
    pub engine_notice: Option<String>,
    /// a turn is running: Send is off, Cancel is on
    pub busy: bool,
    /// something outside a turn went wrong: a transcript not written, an action refused
    pub error: Option<String>,
}

pub struct ChatV {
    pub agent: AgentStatus,
    pub turns: Seq<TurnV>,
    pub debug: Seq<DebugV>,
    pub debug_focus: Option<Seq<char>>,
    pub debug_turn: usize,
    pub streaming: Option<AssistantV>,
    pub pending: Option<PendingV>,
    pub notice: Option<NoticeV>,
    pub usage: UsageTotals,
    pub transcript: Option<Seq<char>>,
    pub transcripts: Seq<Seq<char>>,
    pub model: Seq<char>,
    pub effort: Effort,
    pub engine: EngineKind,
    pub capabilities: Capabilities,
    pub engine_notice: Option<Seq<char>>,
    pub busy: bool,
    pub error: Option<Seq<char>>,
}

impl View for ChatStore {
    type V = ChatV;

    open spec fn view(&self) -> ChatV {
        ChatV {
            agent: self.agent,
            turns: turns_view(self.turns@),
            debug: debug_view(self.debug@),
            debug_focus: opt_view(self.debug_focus),
            debug_turn: self.debug_turn,
            streaming: opt_turn_view(self.streaming),
            pending: match self.pending {
                Some(p) => Some(p@),
                None => None,
            },
            notice: match self.notice {
                Some(n) => Some(n@),
                None => None,
            },
            usage: self.usage,
            transcript: opt_view(self.transcript),
            transcripts: self.transcripts.deep_view(),
            model: self.model@,
            effort: self.effort,
            engine: self.engine,
            capabilities: self.capabilities,
            engine_notice: opt_view(self.engine_notice),
            busy: self.busy,
            error: opt_view(self.error),
        }
    }
}

/// A store with nothing in it, on `model` at `effort`, served by `engine`.
pub open spec fn new_store(model: Seq<char>, effort: Effort, engine: EngineKind) -> ChatV {
    ChatV {
        agent: AgentStatus::Starting,
        turns: seq![],
        debug: seq![],
        debug_focus: None,
        debug_turn: 0,
        streaming: None,
        pending: None,
        notice: None,
        usage: no_totals(),
        transcript: None,
        transcripts: seq![],
        model,
        effort,
        engine,
        capabilities: Capabilities { tools: true, thinking: true, effort: true, cache_control: true },
        engine_notice: None,
        busy: false,
        error: None,
    }
}

/// The stderr a new call's debug entry starts with: none on the CLI engine, whose calls
/// run on its own satz, and an empty list on the app's own engine.
pub open spec fn fresh_stderr_spec(engine: EngineKind) -> StderrV {
    if engine is ClaudeCode {
        StderrV::Unseen(CLAUDE_CODE_STDERR@)
    } else {
        StderrV::Lines(seq![])
    }
}

/// The index of the first debug entry from `i` on for call `id`.
pub open spec fn entry_from(debug: Seq<DebugV>, id: Seq<char>, i: int) -> Option<int>
    decreases debug.len() - i,
{
    if i < 0 || i >= debug.len() {
        None
    } else if debug[i].id == id {
        Some(i)
    } else {
        entry_from(debug, id, i + 1)
    }
}

/// The debug log with an entry for call `id`, and where it is: the first entry of
/// that id, or one opened at the end when the stream never announced the call.
pub open spec fn entry_for(debug: Seq<DebugV>, id: Seq<char>, name: Seq<char>, engine: EngineKind) -> (
    Seq<DebugV>,
    int,
) {
    match entry_from(debug, id, 0) {
        Some(i) => (debug, i),
        None => (debug.push(open_debug(id, name, fresh_stderr_spec(engine))), debug.len() as int),
    }
}

/// The store once `what` arrived outside a turn.
pub open spec fn outside_turn(s: ChatV, what: Seq<char>) -> ChatV {
    ChatV { error: Some(what + " arrived outside a turn"@), ..s }
}

/// The turn did not reach the transcript: the partial answer goes, and the message that
/// began it comes back out of `turns` into the notice `mk` makes of it.
pub open spec fn discard_spec(s: ChatV, mk: spec_fn(Seq<char>) -> NoticeV) -> ChatV {
    let s1 = ChatV { streaming: None, pending: None, busy: false, ..s };
    if s.turns.len() == 0 {
        ChatV { error: Some("the turn ended before it began"@), ..s1 }
    } else {
        match s.turns.last() {
            TurnV::User(text) => ChatV { turns: s.turns.drop_last(), notice: Some(mk(text)), ..s1 },
            _ => ChatV {
                error: Some(
                    "the turn ended, but the last turn is not the message it began with"@,
                ),
                ..s1
            },
        }
    }
}

/// The card `i` of turn `t` with its result.
pub open spec fn card_done(t: AssistantV, i: int, result: ResultV) -> AssistantV {
    AssistantV {
        blocks: t.blocks.update(i, BlockV::Tool(CardV { result: Some(result), ..t.blocks[i]->Tool_0 })),
        ..t
    }
}

/// What a tool result makes of the store.
pub open spec fn tool_result_spec(
    s: ChatV,
    id: Seq<char>,
    name: Seq<char>,
    body: Seq<char>,
    is_error: bool,
    millis: u128,
) -> ChatV {
    let shown = ResultV { summary: summary_spec(body, is_error), is_error, millis: Some(millis) };
    let (s1, streamed) = match s.streaming {
        None => (outside_turn(s, "ToolResult"@), None),
        Some(t) => match card_of(t.blocks, id) {
            Some(i) => (
                ChatV { streaming: Some(card_done(t, i, shown)), ..s },
                Some(streamed_input_spec(t.blocks[i]->Tool_0.input_json)),
            ),
            None => (s, None),
        },
    };
    let s2 = if streamed is None && s1.error is None {
        ChatV {
            error: Some("a result for "@ + name + " ("@ + id + ") arrived without its card"@),
            ..s1
        }
    } else {
        s1
    };
    let (debug, k) = entry_for(s2.debug, id, name, s2.engine);
    let entry = debug[k];
    let logged = DebugV {
        input: if entry.input is None { streamed } else { entry.input },
        result: Some(DebugResultV { body, is_error, millis: Some(millis) }),
        ..entry
    };
    ChatV { debug: debug.update(k, logged), pending: None, ..s2 }
}

/// What one event makes of the store.
pub open spec fn apply_spec(s: ChatV, e: EventV) -> ChatV {
    match e {
        EventV::Started(model) => {
            let s1 = if s.engine is ClaudeCode { ChatV { model, ..s } } else { s };
            match s1.streaming {
                Some(t) => ChatV {
                    streaming: Some(
                        AssistantV {
                            requests: if t.requests < usize::MAX { (t.requests + 1) as usize } else { usize::MAX },
                            model: Some(model),
                            ..t
                        },
                    ),
                    ..s1
                },
                None => outside_turn(s1, "Started"@),
            }
        },
        EventV::RequestDone(usage) => match s.streaming {
            Some(t) => ChatV {
                streaming: Some(
                    AssistantV {
                        usage: Some(
                            plus_spec(
                                match t.usage {
                                    Some(u) => u,
                                    None => no_usage(),
                                },
                                usage,
                            ),
                        ),
                        ..t
                    },
                ),
                ..s
            },
            None => outside_turn(s, "RequestDone"@),
        },
        EventV::TextDelta(..) | EventV::ThinkingDelta(..) | EventV::ToolInputDelta(..) => match apply_delta_spec(
            s.streaming,
            e,
        ) {
            Ok(t) => ChatV { streaming: t, ..s },
            Err(m) => ChatV { error: Some(m), ..s },
        },
        EventV::ToolUseStarted(id, name) => {
            let entry = open_debug(id, name, fresh_stderr_spec(s.engine));
            let s1 = match s.streaming {
                Some(t) => ChatV {
                    streaming: Some(
                        AssistantV { blocks: t.blocks.push(BlockV::Tool(open_card(id, name))), ..t },
                    ),
                    ..s
                },
                None => outside_turn(s, "ToolUseStarted"@),
            };
            ChatV { debug: s1.debug.push(entry), ..s1 }
        },
        EventV::ToolCallPending(id, name, input) => {
            let (debug, k) = entry_for(s.debug, id, name, s.engine);
            ChatV {
                debug: debug.update(k, DebugV { input: Some(json_pretty(input)), ..debug[k] }),
                pending: Some(PendingV { id, name, input }),
                ..s
            }
        },
        EventV::ToolResult(id, name, body, is_error, millis) => tool_result_spec(
            s,
            id,
            name,
            body,
            is_error,
            millis,
        ),
        EventV::Notice(text) => ChatV { engine_notice: Some(text), ..s },
        EventV::TurnDone(stop_reason, usage) => {
            let s1 = match s.streaming {
                Some(t) => ChatV {
                    streaming: None,
                    turns: s.turns.push(
                        TurnV::Assistant(
                            AssistantV { stop_reason: Some(stop_reason), usage: Some(usage), ..t },
                        ),
                    ),
                    usage: totals_add(s.usage, usage),
                    ..s
                },
                None => ChatV { error: Some("TurnDone arrived outside a turn"@), ..s },
            };
            ChatV { pending: None, busy: false, ..s1 }
        },
        EventV::Refused(category, explanation, recommended_model) => discard_spec(
            s,
            |user_text: Seq<char>|
                NoticeV::Refused { user_text, category, explanation, recommended_model },
        ),
        EventV::Failed(error) => discard_spec(
            s,
            |user_text: Seq<char>| NoticeV::Failed { user_text, error },
        ),
        EventV::Cancelled => discard_spec(
            s,
            |user_text: Seq<char>| NoticeV::Cancelled { user_text },
        ),
    }
}

/// The store once the operator sent `text`: it shows at once, and the assistant turn
/// opens.
pub open spec fn begin_turn_spec(s: ChatV, text: Seq<char>) -> ChatV {
    ChatV {
        notice: None,
        error: None,
        turns: s.turns.push(TurnV::User(text)),
        debug_turn: if s.debug.len() <= usize::MAX { s.debug.len() as usize } else { s.debug_turn },
        streaming: Some(empty_turn()),
        busy: true,
        ..s
    }
}

/// Whether a call is open for a stderr line to belong to: a turn runs on the app's own
/// engine, and one of its calls has no result yet.
pub open spec fn has_open_call_spec(s: ChatV) -> bool {
    &&& s.busy
    &&& !(s.engine is ClaudeCode)
    &&& s.debug_turn <= s.debug.len()
    &&& exists|k: int| s.debug_turn <= k < s.debug.len() && (#[trigger] s.debug[k]).result is None
}

/// The index of the first entry from `i` on that has no result.
pub open spec fn open_from(debug: Seq<DebugV>, i: int) -> Option<int>
    decreases debug.len() - i,
{
    if i < 0 || i >= debug.len() {
        None
    } else if debug[i].result is None {
        Some(i)
    } else {
        open_from(debug, i + 1)
    }
}

/// The store once satz wrote `line` to stderr: the line goes to the running turn's
/// first call still without its result, when that call keeps lines.
pub open spec fn stderr_spec(s: ChatV, line: Seq<char>) -> ChatV {
    if !has_open_call_spec(s) {
        s
    } else {
        match open_from(s.debug, s.debug_turn as int) {
            Some(k) => match s.debug[k].stderr {
                StderrV::Lines(lines) => ChatV {
                    debug: s.debug.update(k, DebugV { stderr: StderrV::Lines(lines.push(line)), ..s.debug[k] }),
                    ..s
                },
                _ => s,
            },
            None => s,
        }
    }
}

/// A new conversation on `model`: everything of the old one goes.
pub open spec fn reset_spec(s: ChatV, model: Seq<char>) -> ChatV {
    ChatV {
        turns: seq![],
        debug: seq![],
        debug_focus: None,
        debug_turn: 0,
        streaming: None,
        pending: None,
        notice: None,
        usage: no_totals(),
        transcript: None,
        model,
        error: None,
        ..s
    }
}

/// How a turn ended without reaching the transcript, before the message that began it
/// is known.
enum Ending {
    Refused {
        category: Option<String>,
        explanation: Option<String>,
        recommended_model: Option<String>,
    },
    Failed(String),
    Cancelled,
}

impl ChatStore {
    /// A store with nothing in it, on `model` at `effort`, served by `engine`.
    pub fn new(model: String, effort: Effort, engine: EngineKind) -> (r: ChatStore)
        ensures
            r@ == new_store(model@, effort, engine),
    {
        let r = ChatStore {
            agent: AgentStatus::Starting,
            turns: Vec::new(),
            debug: Vec::new(),
            debug_focus: None,
            debug_turn: 0,
            streaming: None,
            pending: None,
            notice: None,
            usage: UsageTotals::default(),
            transcript: None,
            transcripts: Vec::new(),
            model,
            effort,
            engine,
            capabilities: Capabilities { tools: true, thinking: true, effort: true, cache_control: true },
            engine_notice: None,
            busy: false,
            error: None,
        };
        assert(r@.turns =~= Seq::<TurnV>::empty());
        assert(r@.debug =~= Seq::<DebugV>::empty());
        assert(r@.transcripts =~= Seq::<Seq<char>>::empty());
        r
    }

    /// The operator sent a message: it shows at once, and the assistant turn opens.
    pub fn begin_turn(&mut self, text: String)
        ensures
            final(self)@ == begin_turn_spec(old(self)@, text@),
    {
        let ghost before = self@;
        self.notice = None;
        self.error = None;
        let ghost t = text@;
        self.turns.push(TurnView::User { text });
        assert(self@.turns =~= before.turns.push(TurnV::User(t)));
        self.debug_turn = self.debug.len();
        self.streaming = Some(AssistantTurn::default());
        self.busy = true;
    }

    fn fresh_stderr(&self) -> (r: StderrLines)
        ensures
            r@ == fresh_stderr_spec(self.engine),
    {
        if self.engine.is_claude_code() {
            StderrLines::Unseen(CLAUDE_CODE_STDERR)
        } else {
            let r = StderrLines::Lines(Vec::new());
            assert(r@->Lines_0 =~= Seq::<Seq<char>>::empty());
            r
        }
    }

    /// Where the entry for `id` is, opened at the end when the stream never announced
    /// the call — a CLI-engine approval for a call its stream did not carry.
    fn debug_entry_index(&mut self, id: &str, name: &str) -> (k: usize)
        ensures
            entry_for(old(self)@.debug, id@, name@, old(self)@.engine) == (final(self)@.debug, k as int),
            final(self)@ == (ChatV { debug: final(self)@.debug, ..old(self)@ }),
            k < final(self).debug.len(),
    {
        let ghost ds = self@.debug;
        let mut i: usize = 0;
        while i < self.debug.len()
            invariant
                i <= self.debug.len(),
                ds == self@.debug,
                ds.len() == self.debug.len(),
                entry_from(ds, id@, 0) == entry_from(ds, id@, i as int),
            decreases self.debug.len() - i,
        {
            assert(ds[i as int] == self.debug@[i as int]@);
            if crate::text::str_eq(self.debug[i].id.as_str(), id) {
                return i;
            }
            i = i + 1;
        }
        let stderr = self.fresh_stderr();
        let entry = DebugEvent::open(String::from_str(id), String::from_str(name), stderr);
        let ghost ev = entry@;
        self.debug.push(entry);
        assert(self@.debug =~= ds.push(ev));
        self.debug.len() - 1
    }

    /// The turn did not reach the transcript: the partial answer goes, and the message
    /// that began it comes back out of `turns` into the notice.
    fn end_discarded(&mut self, ending: Ending)
        ensures
            final(self)@ == discard_spec(
                old(self)@,
                match ending {
                    Ending::Refused { category, explanation, recommended_model } => |
                        user_text: Seq<char>,
                    |
                        NoticeV::Refused {
                            user_text,
                            category: opt_view(category),
                            explanation: opt_view(explanation),
                            recommended_model: opt_view(recommended_model),
                        },
                    Ending::Failed(error) => |user_text: Seq<char>|
                        NoticeV::Failed { user_text, error: error@ },
                    Ending::Cancelled => |user_text: Seq<char>| NoticeV::Cancelled { user_text },
                },
            ),
    {
        let ghost before = self@;
        self.streaming = None;
        self.pending = None;
        self.busy = false;
        match self.turns.pop() {
            Some(TurnView::User { text }) => {
                assert(self@.turns =~= before.turns.drop_last());
                let notice = match ending {
                    Ending::Refused { category, explanation, recommended_model } => Notice::Refused {
                        user_text: text,
                        category,
                        explanation,
                        recommended_model,
                    },
                    Ending::Failed(error) => Notice::Failed { user_text: text, error },
                    Ending::Cancelled => Notice::Cancelled { user_text: text },
                };
                self.notice = Some(notice);
            },
            Some(other) => {
                self.turns.push(other);
                assert(self@.turns =~= before.turns);
                self.error = Some(
                    String::from_str(
                        "the turn ended, but the last turn is not the message it began with",
                    ),
                );
            },
            None => {
                self.error = Some(String::from_str("the turn ended before it began"));
            },
        }
    }

    fn outside_turn(&mut self, what: &str)
        ensures
            final(self)@ == outside_turn(old(self)@, what@),
    {
        let mut m = String::from_str(what);
        m.append(" arrived outside a turn");
        self.error = Some(m);
    }

    /// Reduce one event. A `ToolCallPending` is the one event whose sender the store
    /// cannot hold: the result says so, and the caller parks that sender until the
    /// operator answers.
    pub fn apply(&mut self, event: AgentEvent) -> (parked: bool)
        ensures
            final(self)@ == apply_spec(old(self)@, event@),
            parked == (event@ is ToolCallPending),
    {
        match event {
            AgentEvent::Started { model } => self.started(model),
            AgentEvent::RequestDone { usage } => self.request_done(usage),
            AgentEvent::TextDelta(piece) => self.delta(AgentEvent::TextDelta(piece)),
            AgentEvent::ThinkingDelta(piece) => self.delta(AgentEvent::ThinkingDelta(piece)),
            AgentEvent::ToolInputDelta { id, partial_json } => self.delta(
                AgentEvent::ToolInputDelta { id, partial_json },
            ),
            AgentEvent::ToolUseStarted { id, name } => self.tool_use_started(id, name),
            AgentEvent::ToolCallPending { id, name, input } => {
                self.tool_call_pending(id, name, input);
                return true;
            },
            AgentEvent::ToolResult { id, name, body, is_error, millis } => {
                self.tool_result(id, name, body, is_error, millis);
            },
            AgentEvent::Notice(text) => self.engine_notice = Some(text),
            AgentEvent::TurnDone { stop_reason, usage } => self.turn_done(stop_reason, usage),
            AgentEvent::Refused { category, explanation, recommended_model } => {
                self.end_discarded(Ending::Refused { category, explanation, recommended_model });
            },
            AgentEvent::Failed(error) => self.end_discarded(Ending::Failed(error)),
            AgentEvent::Cancelled => self.end_discarded(Ending::Cancelled),
        }
        false
    }

    fn started(&mut self, model: String)
        ensures
            final(self)@ == apply_spec(old(self)@, EventV::Started(model@)),
    {
        if self.engine.is_claude_code() {
            self.model = model.clone();
        }
        match self.streaming.take() {
            Some(mut turn) => {
                if turn.requests < usize::MAX {
                    turn.requests = turn.requests + 1;
                }
                turn.model = Some(model);
                self.streaming = Some(turn);
            },
            None => self.outside_turn("Started"),
        }
    }

    fn request_done(&mut self, usage: Usage)
        ensures
            final(self)@ == apply_spec(old(self)@, EventV::RequestDone(usage)),
    {
        match self.streaming.take() {
            Some(mut turn) => {
                let so_far = match turn.usage {
                    Some(u) => u,
                    None => Usage::default(),
                };
                turn.usage = Some(so_far.plus(usage));
                self.streaming = Some(turn);
            },
            None => self.outside_turn("RequestDone"),
        }
    }

    fn delta(&mut self, event: AgentEvent)
        requires
            is_delta_spec(event@),
        ensures
            final(self)@ == apply_spec(old(self)@, event@),
    {
        match apply_delta(&mut self.streaming, event) {
            Ok(()) => {},
            Err(m) => self.error = Some(m),
        }
    }

    fn tool_use_started(&mut self, id: String, name: String)
        ensures
            final(self)@ == apply_spec(old(self)@, EventV::ToolUseStarted(id@, name@)),
    {
        let stderr = self.fresh_stderr();
        let entry = DebugEvent::open(id.clone(), name.clone(), stderr);
        match self.streaming.take() {
            Some(mut turn) => {
                let ghost b = turn@.blocks;
                let card = ToolCard::open(id, name);
                let ghost c = card@;
                turn.blocks.push(Block::Tool(card));
                assert(turn@.blocks =~= b.push(BlockV::Tool(c)));
                self.streaming = Some(turn);
            },
            None => self.outside_turn("ToolUseStarted"),
        }
        let ghost d = self@.debug;
        let ghost ev = entry@;
        self.debug.push(entry);
        assert(self@.debug =~= d.push(ev));
    }

    fn tool_call_pending(&mut self, id: String, name: String, input: Json)
        ensures
            final(self)@ == apply_spec(old(self)@, EventV::ToolCallPending(id@, name@, input@)),
    {
        let k = self.debug_entry_index(id.as_str(), name.as_str());
        let ghost d = self@.debug;
        self.debug[k].input = Some(pretty(&input));
        assert(self@.debug =~= d.update(
            k as int,
            DebugV { input: Some(json_pretty(input@)), ..d[k as int] },
        ));
        self.pending = Some(PendingCall { id, name, input });
    }

    fn turn_done(&mut self, stop_reason: StopReason, usage: Usage)
        ensures
            final(self)@ == apply_spec(old(self)@, EventV::TurnDone(stop_reason, usage)),
    {
        match self.streaming.take() {
            Some(mut turn) => {
                turn.stop_reason = Some(stop_reason);
                turn.usage = Some(usage);
                let ghost ts = self@.turns;
                let ghost tv = turn@;
                self.turns.push(TurnView::Assistant(turn));
                assert(self@.turns =~= ts.push(TurnV::Assistant(tv)));
                self.usage.add(usage);
            },
            None => {
                self.error = Some(String::from_str("TurnDone arrived outside a turn"));
            },
        }
        self.pending = None;
        self.busy = false;
    }

    fn tool_result(&mut self, id: String, name: String, body: String, is_error: bool, millis: u128)
        ensures
            final(self)@ == tool_result_spec(old(self)@, id@, name@, body@, is_error, millis),
    {
        let ghost s = self@;
        let mut streamed: Option<String> = None;
        match self.streaming.take() {
            Some(mut turn) => {
                let ghost t = turn@;
                match turn.card_index(id.as_str()) {
                    Some(i) => {
                        proof {
                            lemma_last_card(t.blocks, id@, t.blocks.len() as int);
                        }
                        let mut block = Block::RedactedThinking;
                        turn.blocks.set_and_swap(i, &mut block);
                        assert(block@ == t.blocks[i as int]);
                        match block {
                            Block::Tool(mut card) => {
                                streamed = Some(card.streamed_input());
                                card.result = Some(
                                    ToolResultView {
                                        summary: summary_line(body.as_str(), is_error),
                                        is_error,
                                        millis: Some(millis),
                                    },
                                );
                                turn.blocks.set(i, Block::Tool(card));
                            },
                            other => {
                                turn.blocks.set(i, other);
                            },
                        }
                        assert(turn@.blocks =~= card_done(
                            t,
                            i as int,
                            ResultV {
                                summary: summary_spec(body@, is_error),
                                is_error,
                                millis: Some(millis),
                            },
                        ).blocks);
                    },
                    None => {},
                }
                self.streaming = Some(turn);
            },
            None => self.outside_turn("ToolResult"),
        }
        if streamed.is_none() && self.error.is_none() {
            let mut m = String::from_str("a result for ");
            m.append(name.as_str());
            m.append(" (");
            m.append(id.as_str());
            m.append(") arrived without its card");
            self.error = Some(m);
        }
        let k = self.debug_entry_index(id.as_str(), name.as_str());
        let ghost d = self@.debug;
        if self.debug[k].input.is_none() {
            self.debug[k].input = streamed;
        }
        self.debug[k].result = Some(DebugResult { body, is_error, millis: Some(millis) });
        assert(self@.debug =~= d.update(
            k as int,
            DebugV {
                input: if d[k as int].input is None { opt_view(streamed) } else { d[k as int].input },
                result: Some(DebugResultV { body: body@, is_error, millis: Some(millis) }),
                ..d[k as int]
            },
        ));
        self.pending = None;
    }
}

/// A saved transcript as the view shows it: the turns, and the debug log of every call
/// in them.
#[derive(Debug, Clone, PartialEq)]
pub struct Replayed {
    pub turns: Vec<TurnView>,
    pub debug: Vec<DebugEvent>,
}

/// The store once the event channel closed: a turn still open ended without its
/// terminal event and is closed here as a failure, so the view never stays busy.
pub open spec fn closed_spec(s: ChatV) -> ChatV {
    if s.busy {
        discard_spec(
            s,
            |user_text: Seq<char>|
                NoticeV::Failed { user_text, error: "the turn ended without a result"@ },
        )
    } else {
        s
    }
}

impl ChatStore {
    /// The event channel closed. A turn that is still open ended without its terminal
    /// event, which the agent never does; it is closed here as a failure so the view
    /// never stays busy.
    pub fn turn_closed(&mut self)
        ensures
            final(self)@ == closed_spec(old(self)@),
    {
        if self.busy {
            self.end_discarded(
                Ending::Failed(String::from_str("the turn ended without a result")),
            );
        }
    }

    /// Whether a call is open for a stderr line to belong to.
    pub fn has_open_call(&self) -> (r: bool)
        ensures
            r == has_open_call_spec(self@),
    {
        if !self.busy || self.engine.is_claude_code() || self.debug_turn > self.debug.len() {
            return false;
        }
        let ghost d = self@.debug;
        let mut k = self.debug_turn;
        while k < self.debug.len()
            invariant
                self.debug_turn <= k <= self.debug.len() == d.len(),
                d == self@.debug,
                self.busy,
                !(self.engine is ClaudeCode),
                forall|j: int| self.debug_turn <= j < k ==> (#[trigger] d[j]).result is Some,
            decreases self.debug.len() - k,
        {
            assert(d[k as int] == self.debug@[k as int]@);
            if self.debug[k].result.is_none() {
                assert(self@.debug[k as int].result is None);
                return true;
            }
            k = k + 1;
        }
        false
    }

    /// A line the estate's `satz mcp` wrote to stderr. It belongs to the running turn's
    /// first call still without its result — the API engine runs a response's calls one
    /// after another, in order — and to nothing when no call is open. On the CLI
    /// engine the estate's server does not run the chat's calls, so no line is theirs.
    pub fn debug_stderr(&mut self, line: String)
        ensures
            final(self)@ == stderr_spec(old(self)@, line@),
    {
        if !self.has_open_call() {
            return;
        }
        let ghost d = self@.debug;
        let mut k = self.debug_turn;
        while k < self.debug.len()
            invariant
                self.debug_turn <= k <= self.debug.len() == d.len(),
                d == self@.debug,
                self@ == old(self)@,
                has_open_call_spec(old(self)@),
                open_from(d, self.debug_turn as int) == open_from(d, k as int),
            decreases self.debug.len() - k,
        {
            assert(d[k as int] == self.debug@[k as int]@);
            if self.debug[k].result.is_none() {
                assert(open_from(d, k as int) == Some(k as int));
                let ghost before = d[k as int];
                let mut stderr = StderrLines::Unseen("");
                std::mem::swap(&mut stderr, &mut self.debug[k].stderr);
                match stderr {
                    StderrLines::Lines(mut lines) => {
                        let ghost ls = lines.deep_view();
                        let ghost l = line@;
                        lines.push(line);
                        assert(lines.deep_view() =~= ls.push(l));
                        self.debug[k].stderr = StderrLines::Lines(lines);
                        assert(self@.debug =~= d.update(
                            k as int,
                            DebugV { stderr: StderrV::Lines(ls.push(l)), ..before },
                        ));
                    },
                    other => {
                        self.debug[k].stderr = other;
                        assert(self@.debug =~= d);
                    },
                }
                return;
            }
            k = k + 1;
        }
    }

    /// The debug log's entry for a call id, the first one.
    pub fn debug_entry(&self, id: &str) -> (r: Option<&DebugEvent>)
        ensures
            match r {
                Some(e) => entry_from(self@.debug, id@, 0) matches Some(k) && self@.debug[k]
                    == e@,
                None => entry_from(self@.debug, id@, 0) is None,
            },
    {
        let ghost ds = self@.debug;
        let mut i: usize = 0;
        while i < self.debug.len()
            invariant
                i <= self.debug.len() == ds.len(),
                ds == self@.debug,
                entry_from(ds, id@, 0) == entry_from(ds, id@, i as int),
            decreases self.debug.len() - i,
        {
            assert(ds[i as int] == self.debug@[i as int]@);
            if crate::text::str_eq(self.debug[i].id.as_str(), id) {
                return Some(&self.debug[i]);
            }
            i = i + 1;
        }
        None
    }

    /// A new conversation on `model`: everything of the old one goes.
    pub fn reset_conversation(&mut self, model: String)
        ensures
            final(self)@ == reset_spec(old(self)@, model@),
    {
        self.turns.clear();
        self.debug.clear();
        assert(self@.turns =~= Seq::<TurnV>::empty());
        assert(self@.debug =~= Seq::<DebugV>::empty());
        self.debug_focus = None;
        self.debug_turn = 0;
        self.streaming = None;
        self.pending = None;
        self.notice = None;
        self.usage = UsageTotals::default();
        self.transcript = None;
        self.model = model;
        self.error = None;
    }

    /// A transcript resumed: its turns and its calls' debug log, its file, its model.
    pub fn load_conversation(&mut self, replayed: Replayed, path: String, model: String)
        ensures
            final(self)@ == (ChatV {
                turns: turns_view(replayed.turns@),
                debug: debug_view(replayed.debug@),
                transcript: Some(path@),
                ..reset_spec(old(self)@, model@)
            }),
    {
        self.reset_conversation(model);
        self.turns = replayed.turns;
        self.debug = replayed.debug;
        self.transcript = Some(path);
    }
}


/// The events after which a turn is over: its answer reached the transcript, or it
/// did not.
pub open spec fn ends_turn(e: EventV) -> bool {
    e is TurnDone || e is Refused || e is Failed || e is Cancelled
}

/// The store once each of `es` arrived, in order.
pub open spec fn apply_all(s: ChatV, es: Seq<EventV>) -> ChatV
    decreases es.len(),
{
    if es.len() == 0 {
        s
    } else {
        apply_spec(apply_all(s, es.drop_last()), es.last())
    }
}

/// The message a notice hands back to the composer.
pub open spec fn notice_text(n: NoticeV) -> Seq<char> {
    match n {
        NoticeV::Refused { user_text, .. } => user_text,
        NoticeV::Failed { user_text, .. } => user_text,
        NoticeV::Cancelled { user_text } => user_text,
    }
}

/// Writing a delta to the streaming turn alone does what the whole store's reducer
/// does with it: where the delta lands, the store differs only in its streaming turn;
/// where it does not, only in the error that names it.
pub proof fn law_delta_fast_path_matches_reducer(s: ChatV, e: EventV)
    requires
        is_delta_spec(e),
    ensures
        match apply_delta_spec(s.streaming, e) {
            Ok(t) => apply_spec(s, e) == ChatV { streaming: t, ..s },
            Err(m) => apply_spec(s, e) == ChatV { error: Some(m), ..s },
        },
{
}

proof fn lemma_in_turn_keeps_turns(s: ChatV, es: Seq<EventV>)
    requires
        s.streaming is Some,
        forall|i: int| 0 <= i < es.len() ==> !ends_turn(#[trigger] es[i]),
    ensures
        apply_all(s, es).turns == s.turns,
        apply_all(s, es).streaming is Some,
    decreases es.len(),
{
    if es.len() > 0 {
        let rest = es.drop_last();
        assert forall|i: int| 0 <= i < rest.len() implies !ends_turn(#[trigger] rest[i]) by {
            assert(rest[i] == es[i]);
        }
        lemma_in_turn_keeps_turns(s, rest);
        assert(!ends_turn(es[es.len() - 1]));
    }
}

/// A turn that is refused, fails or is cancelled leaves the conversation as it was
/// before the message was sent, whatever arrived in between: the partial answer goes,
/// nothing runs, and the message comes back in the notice.
pub proof fn law_a_discarded_turn_leaves_turns_as_before(
    s: ChatV,
    text: Seq<char>,
    es: Seq<EventV>,
    end: EventV,
)
    requires
        forall|i: int| 0 <= i < es.len() ==> !ends_turn(#[trigger] es[i]),
        end is Refused || end is Failed || end is Cancelled,
    ensures
        ({
            let r = apply_all(begin_turn_spec(s, text), es.push(end));
            &&& r.turns == s.turns
            &&& r.streaming is None
            &&& r.pending is None
            &&& !r.busy
            &&& r.notice matches Some(n) && notice_text(n) == text
        }),
{
    let b = begin_turn_spec(s, text);
    lemma_in_turn_keeps_turns(b, es);
    assert(es.push(end).drop_last() == es);
    let m = apply_all(b, es);
    assert(m.turns.last() == TurnV::User(text));
    assert(m.turns.drop_last() == s.turns);
}

/// A new conversation keeps nothing of the one before it, a resumed one included:
/// starting over after a resume is starting over.
pub proof fn law_a_reset_forgets_a_resumed_conversation(
    s: ChatV,
    turns: Seq<TurnV>,
    debug: Seq<DebugV>,
    path: Seq<char>,
    resumed_on: Seq<char>,
    model: Seq<char>,
)
    ensures
        reset_spec(
            ChatV { turns, debug, transcript: Some(path), ..reset_spec(s, resumed_on) },
            model,
        ) == reset_spec(s, model),
        ({
            let r = reset_spec(s, model);
            let n = new_store(model, s.effort, s.engine);
            &&& r.turns == n.turns
            &&& r.debug == n.debug
            &&& r.streaming == n.streaming
            &&& r.pending == n.pending
            &&& r.notice == n.notice
            &&& r.usage == n.usage
            &&& r.transcript == n.transcript
            &&& r.error == n.error
        }),
{
}


/// A figure held at `u64::MAX`.
pub open spec fn capped(n: int) -> int {
    if n > u64::MAX { u64::MAX as int } else { n }
}

/// Summing two usages adds every figure, held at `u64::MAX`: the token counts always,
/// and a cache figure over the sides that report it — both sides' figures added where
/// both report one, the one side's where only it does, and none where neither does.
pub proof fn law_usages_add_up(a: Usage, b: Usage)
    ensures
        plus_spec(a, b).input_tokens == capped(a.input_tokens + b.input_tokens),
        plus_spec(a, b).output_tokens == capped(a.output_tokens + b.output_tokens),
        a.cache_read_input_tokens matches Some(x) ==> (b.cache_read_input_tokens matches Some(y) ==> (plus_spec(
            a,
            b,
        ).cache_read_input_tokens matches Some(z) && z == capped(x + y))),
        a.cache_creation_input_tokens matches Some(x) ==> (b.cache_creation_input_tokens matches Some(y) ==> (plus_spec(
            a,
            b,
        ).cache_creation_input_tokens matches Some(z) && z == capped(x + y))),
        a.cache_read_input_tokens is None ==> plus_spec(a, b).cache_read_input_tokens
            == b.cache_read_input_tokens,
        b.cache_read_input_tokens is None ==> plus_spec(a, b).cache_read_input_tokens
            == a.cache_read_input_tokens,
        a.cache_creation_input_tokens is None ==> plus_spec(a, b).cache_creation_input_tokens
            == b.cache_creation_input_tokens,
        b.cache_creation_input_tokens is None ==> plus_spec(a, b).cache_creation_input_tokens
            == a.cache_creation_input_tokens,
{
}

/// The totals once each of `us` completed a turn, in order, from none.
pub open spec fn totals_after(us: Seq<Usage>) -> UsageTotals
    decreases us.len(),
{
    if us.len() == 0 {
        no_totals()
    } else {
        totals_add(totals_after(us.drop_last()), us.last())
    }
}

/// The sum of the figures `fig` picks out of `us`, over those that report one; none
/// where none does.
pub open spec fn reported_sum(us: Seq<Usage>, fig: spec_fn(Usage) -> Option<u64>) -> Option<int>
    decreases us.len(),
{
    if us.len() == 0 {
        None
    } else {
        match (reported_sum(us.drop_last(), fig), fig(us.last())) {
            (None, None) => None,
            (Some(t), None) => Some(t),
            (None, Some(y)) => Some(y as int),
            (Some(t), Some(y)) => Some(t + y),
        }
    }
}

/// The sum of the token counts `fig` picks out of `us`.
pub open spec fn token_sum(us: Seq<Usage>, fig: spec_fn(Usage) -> u64) -> int
    decreases us.len(),
{
    if us.len() == 0 {
        0
    } else {
        token_sum(us.drop_last(), fig) + fig(us.last())
    }
}

pub open spec fn capped_opt(o: Option<int>) -> Option<int> {
    match o {
        Some(t) => Some(capped(t)),
        None => None,
    }
}

pub open spec fn as_int(o: Option<u64>) -> Option<int> {
    match o {
        Some(x) => Some(x as int),
        None => None,
    }
}

proof fn lemma_reported_nonneg(us: Seq<Usage>, fig: spec_fn(Usage) -> Option<u64>)
    ensures
        reported_sum(us, fig) matches Some(t) ==> t >= 0,
    decreases us.len(),
{
    if us.len() > 0 {
        lemma_reported_nonneg(us.drop_last(), fig);
    }
}

proof fn lemma_token_nonneg(us: Seq<Usage>, fig: spec_fn(Usage) -> u64)
    ensures
        token_sum(us, fig) >= 0,
    decreases us.len(),
{
    if us.len() > 0 {
        lemma_token_nonneg(us.drop_last(), fig);
    }
}

/// The session's totals are every completed turn summed: each token count is the sum
/// of the turns' counts and each cache figure the sum of the figures the turns report,
/// held at `u64::MAX`; the last turn's usage is the last one counted.
pub proof fn law_the_session_sums_every_turn(us: Seq<Usage>)
    ensures
        totals_after(us).session.input_tokens == capped(token_sum(us, |u: Usage| u.input_tokens)),
        totals_after(us).session.output_tokens == capped(token_sum(us, |u: Usage| u.output_tokens)),
        as_int(totals_after(us).session.cache_read_input_tokens) == capped_opt(
            reported_sum(us, |u: Usage| u.cache_read_input_tokens),
        ),
        as_int(totals_after(us).session.cache_creation_input_tokens) == capped_opt(
            reported_sum(us, |u: Usage| u.cache_creation_input_tokens),
        ),
        us.len() > 0 ==> totals_after(us).turn == us.last(),
    decreases us.len(),
{
    if us.len() > 0 {
        let p = us.drop_last();
        law_the_session_sums_every_turn(p);
        lemma_token_nonneg(p, |u: Usage| u.input_tokens);
        lemma_token_nonneg(p, |u: Usage| u.output_tokens);
        lemma_reported_nonneg(p, |u: Usage| u.cache_read_input_tokens);
        lemma_reported_nonneg(p, |u: Usage| u.cache_creation_input_tokens);
        law_usages_add_up(totals_after(p).session, us.last());
    }
}
} // verus!
