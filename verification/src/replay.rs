//! A saved transcript replayed into the turns the Chat view shows and the debug log of
//! every call in them, as a live turn would have left them.

use vstd::prelude::*;
use crate::chat::{
    AssistantTurn, AssistantV, Block, BlockV, CardV, DebugEvent, DebugResult, DebugResultV,
    DebugV, REPLAYED_STDERR, Replayed, ResultV, StderrLines, StderrV, ToolCard,
    ToolResultView, TurnV, TurnView, blocks_view, card_of, debug_view, empty_turn,
    lemma_last_card, open_card, open_debug, push_text_spec, turns_view,
};
use crate::json::{Json, JsonV, get, json_pretty, member, pretty};
use crate::summary::{summary_line, summary_spec};
use crate::text::{dec, push_dec};

verus! {

/// Who wrote a message.
#[derive(Debug, Clone, Copy, PartialEq, Eq, Structural)]
pub enum Role {
    User,
    Assistant,
}

/// One block of a saved message.
#[derive(Debug, Clone, PartialEq)]
pub enum ContentBlock {
    Text { text: String },
    Thinking { thinking: String, signature: String },
    RedactedThinking { data: String },
    ToolUse { id: String, name: String, input: Json },
    ToolResult { tool_use_id: String, content: String, is_error: bool },
    /// a block of a kind this library does not read, as its JSON
    Other(Json),
}

pub enum ContentV {
    Text(Seq<char>),
    Thinking(Seq<char>),
    RedactedThinking,
    ToolUse(Seq<char>, Seq<char>, JsonV),
    ToolResult(Seq<char>, Seq<char>, bool),
    Other(JsonV),
}

impl View for ContentBlock {
    type V = ContentV;

    open spec fn view(&self) -> ContentV {
        match self {
            ContentBlock::Text { text } => ContentV::Text(text@),
            ContentBlock::Thinking { thinking, .. } => ContentV::Thinking(thinking@),
            ContentBlock::RedactedThinking { .. } => ContentV::RedactedThinking,
            ContentBlock::ToolUse { id, name, input } => ContentV::ToolUse(id@, name@, input@),
            ContentBlock::ToolResult { tool_use_id, content, is_error } => ContentV::ToolResult(
                tool_use_id@,
                content@,
                *is_error,
            ),
            ContentBlock::Other(v) => ContentV::Other(v@),
        }
    }
}

/// The kind a block goes by: the API's name for it, and for another block the `type`
/// its JSON names (`unknown` where it names none).
pub open spec fn kind_spec(b: ContentV) -> Seq<char> {
    match b {
        ContentV::Text(..) => "text"@,
        ContentV::Thinking(..) => "thinking"@,
        ContentV::RedactedThinking => "redacted_thinking"@,
        ContentV::ToolUse(..) => "tool_use"@,
        ContentV::ToolResult(..) => "tool_result"@,
        ContentV::Other(v) => match member(v, "type"@) {
            Some(JsonV::Str(t)) => t,
            _ => "unknown"@,
        },
    }
}

impl ContentBlock {
    /// The kind the block goes by.
    pub fn kind(&self) -> (r: String)
        ensures
            r@ == kind_spec(self@),
    {
        match self {
            ContentBlock::Text { .. } => String::from_str("text"),
            ContentBlock::Thinking { .. } => String::from_str("thinking"),
            ContentBlock::RedactedThinking { .. } => String::from_str("redacted_thinking"),
            ContentBlock::ToolUse { .. } => String::from_str("tool_use"),
            ContentBlock::ToolResult { .. } => String::from_str("tool_result"),
            ContentBlock::Other(v) => match get(v, "type") {
                Some(Json::Str(t)) => t.clone(),
                _ => String::from_str("unknown"),
            },
        }
    }
}

/// One saved message.
#[derive(Debug, Clone, PartialEq)]
pub struct Message {
    pub role: Role,
    pub content: Vec<ContentBlock>,
}

pub open spec fn content_view(c: Seq<ContentBlock>) -> Seq<ContentV> {
    c.map_values(|b: ContentBlock| b@)
}

/// How far a replay has come: the turns so far, the debug log, and the assistant turn
/// still open.
pub struct ReplayState {
    pub turns: Seq<TurnV>,
    pub debug: Seq<DebugV>,
    pub open: Option<AssistantV>,
}

/// `message N: ` for the message at index `i`.
pub open spec fn at_message(i: int) -> Seq<char> {
    "message "@ + dec((i + 1) as nat) + ": "@
}

/// The index of the last debug entry among the first `n` for call `id`.
pub open spec fn last_entry(debug: Seq<DebugV>, id: Seq<char>, n: int) -> Option<int>
    decreases n,
{
    if n <= 0 {
        None
    } else if debug[n - 1].id == id {
        Some(n - 1)
    } else {
        last_entry(debug, id, n - 1)
    }
}

/// The replay of a user message's blocks from index `j` on, with the text gathered so
/// far: the state and the text, or the error naming the message.
pub open spec fn user_from(
    st: ReplayState,
    text: Seq<char>,
    blocks: Seq<ContentV>,
    j: int,
    i: int,
) -> Result<(ReplayState, Seq<char>), Seq<char>>
    decreases blocks.len() - j,
{
    if j < 0 || j >= blocks.len() {
        Ok((st, text))
    } else {
        match blocks[j] {
            ContentV::Text(piece) => user_from(
                st,
                if text.len() == 0 { piece } else { text + "\n\n"@ + piece },
                blocks,
                j + 1,
                i,
            ),
            ContentV::ToolResult(id, content, is_error) => match st.open {
                Some(t) => match card_of(t.blocks, id) {
                    Some(c) => {
                        let shown = ResultV {
                            summary: summary_spec(content, is_error),
                            is_error,
                            millis: None,
                        };
                        let t2 = AssistantV {
                            blocks: t.blocks.update(
                                c,
                                BlockV::Tool(CardV { result: Some(shown), ..t.blocks[c]->Tool_0 }),
                            ),
                            ..t
                        };
                        let debug2 = match last_entry(st.debug, id, st.debug.len() as int) {
                            Some(k) => st.debug.update(
                                k,
                                DebugV {
                                    result: Some(
                                        DebugResultV { body: content, is_error, millis: None },
                                    ),
                                    ..st.debug[k]
                                },
                            ),
                            None => st.debug,
                        };
                        user_from(
                            ReplayState { open: Some(t2), debug: debug2, ..st },
                            text,
                            blocks,
                            j + 1,
                            i,
                        )
                    },
                    None => Err(at_message(i) + "a result for "@ + id + " without its call"@),
                },
                None => Err(at_message(i) + "a result for "@ + id + " without its call"@),
            },
            other => Err(at_message(i) + "a "@ + kind_spec(other) + " block in a user message"@),
        }
    }
}

/// The text of field `k` of a fallback block, `?` where it is not a string.
pub open spec fn fallback_field(v: JsonV, k: Seq<char>) -> Seq<char> {
    match member(v, k) {
        Some(JsonV::Str(s)) => s,
        _ => "?"@,
    }
}

/// The replay of an assistant message's blocks from index `j` on into turn `t`.
pub open spec fn assistant_from(
    t: AssistantV,
    debug: Seq<DebugV>,
    blocks: Seq<ContentV>,
    j: int,
    i: int,
) -> Result<(AssistantV, Seq<DebugV>), Seq<char>>
    decreases blocks.len() - j,
{
    if j < 0 || j >= blocks.len() {
        Ok((t, debug))
    } else {
        match blocks[j] {
            ContentV::Text(piece) => assistant_from(
                AssistantV { blocks: push_text_spec(t.blocks, piece), ..t },
                debug,
                blocks,
                j + 1,
                i,
            ),
            ContentV::Thinking(th) => assistant_from(
                AssistantV { blocks: t.blocks.push(BlockV::Thinking(th)), ..t },
                debug,
                blocks,
                j + 1,
                i,
            ),
            ContentV::RedactedThinking => assistant_from(
                AssistantV { blocks: t.blocks.push(BlockV::RedactedThinking), ..t },
                debug,
                blocks,
                j + 1,
                i,
            ),
            ContentV::ToolUse(id, name, input) => assistant_from(
                AssistantV { blocks: t.blocks.push(BlockV::Tool(open_card(id, name))), ..t },
                debug.push(
                    DebugV {
                        input: Some(json_pretty(input)),
                        ..open_debug(id, name, StderrV::Unseen(REPLAYED_STDERR@))
                    },
                ),
                blocks,
                j + 1,
                i,
            ),
            ContentV::ToolResult(..) => Err(at_message(i) + "a tool result in an assistant message"@),
            ContentV::Other(v) => {
                let b = if member(v, "type"@) == Some(JsonV::Str("fallback"@)) {
                    BlockV::Fallback(fallback_field(v, "from"@), fallback_field(v, "to"@))
                } else {
                    BlockV::Other(kind_spec(ContentV::Other(v)))
                };
                assistant_from(AssistantV { blocks: t.blocks.push(b), ..t }, debug, blocks, j + 1, i)
            },
        }
    }
}

/// The replay of one message, the one at index `i`.
pub open spec fn message_step(st: ReplayState, role: Role, blocks: Seq<ContentV>, i: int) -> Result<
    ReplayState,
    Seq<char>,
> {
    match role {
        Role::User => match user_from(st, seq![], blocks, 0, i) {
            Ok((st2, text)) => if text.len() > 0 {
                let turns = match st2.open {
                    Some(t) => st2.turns.push(TurnV::Assistant(t)),
                    None => st2.turns,
                };
                Ok(ReplayState { turns: turns.push(TurnV::User(text)), open: None, ..st2 })
            } else {
                Ok(st2)
            },
            Err(e) => Err(e),
        },
        Role::Assistant => {
            let t0 = match st.open {
                Some(t) => t,
                None => empty_turn(),
            };
            let t1 = AssistantV {
                requests: if t0.requests < usize::MAX { (t0.requests + 1) as usize } else { usize::MAX },
                ..t0
            };
            match assistant_from(t1, st.debug, blocks, 0, i) {
                Ok((t2, debug)) => Ok(ReplayState { open: Some(t2), debug, ..st }),
                Err(e) => Err(e),
            }
        },
    }
}

/// The replay of the messages from index `i` on.
pub open spec fn replay_from(st: ReplayState, roles: Seq<Role>, contents: Seq<Seq<ContentV>>, i: int) -> Result<
    ReplayState,
    Seq<char>,
>
    decreases roles.len() - i,
{
    if i < 0 || i >= roles.len() || i >= contents.len() {
        Ok(st)
    } else {
        match message_step(st, roles[i], contents[i], i) {
            Ok(st2) => replay_from(st2, roles, contents, i + 1),
            Err(e) => Err(e),
        }
    }
}

pub open spec fn roles_of(m: Seq<Message>) -> Seq<Role> {
    m.map_values(|x: Message| x.role)
}

pub open spec fn contents_of(m: Seq<Message>) -> Seq<Seq<ContentV>> {
    m.map_values(|x: Message| content_view(x.content@))
}

/// A saved transcript as turns and their calls' debug log: the turns, the turn still
/// open at the end closing it, or the error that names the message.
pub open spec fn replay_spec(m: Seq<Message>) -> Result<(Seq<TurnV>, Seq<DebugV>), Seq<char>> {
    match replay_from(
        ReplayState { turns: seq![], debug: seq![], open: None },
        roles_of(m),
        contents_of(m),
        0,
    ) {
        Ok(st) => Ok(
            (
                match st.open {
                    Some(t) => st.turns.push(TurnV::Assistant(t)),
                    None => st.turns,
                },
                st.debug,
            ),
        ),
        Err(e) => Err(e),
    }
}

pub open spec fn state_of(turns: Seq<TurnView>, debug: Seq<DebugEvent>, open: Option<AssistantTurn>) -> ReplayState {
    ReplayState {
        turns: turns_view(turns),
        debug: debug_view(debug),
        open: match open {
            Some(t) => Some(t@),
            None => None,
        },
    }
}

/// `message N: ` for the message at index `i`.
fn at_message_text(i: usize) -> (r: String)
    ensures
        r@ == at_message(i as int),
{
    let mut s = String::from_str("message ");
    push_dec(&mut s, (i as u128) + 1);
    s.append(": ");
    s
}

/// The replay of one user message: the text it carries, or the error naming it.
fn replay_user(
    turns: &Vec<TurnView>,
    debug: &mut Vec<DebugEvent>,
    open: &mut Option<AssistantTurn>,
    blocks: &Vec<ContentBlock>,
    i: usize,
) -> (r: Result<String, String>)
    ensures
        match user_from(state_of(turns@, old(debug)@, *old(open)), seq![], content_view(blocks@), 0, i as int) {
            Ok((st, text)) => r matches Ok(t) && t@ == text && state_of(turns@, final(debug)@, *final(open)) == st,
            Err(e) => r matches Err(m) && m@ == e,
        },
{
    let ghost bs = content_view(blocks@);
    let ghost st0 = state_of(turns@, debug@, *open);
    let mut text = String::new();
    let mut j: usize = 0;
    while j < blocks.len()
        invariant
            j <= blocks.len() == bs.len(),
            bs == content_view(blocks@),
            st0 == state_of(turns@, old(debug)@, *old(open)),
            user_from(st0, seq![], bs, 0, i as int) == user_from(
                state_of(turns@, debug@, *open),
                text@,
                bs,
                j as int,
                i as int,
            ),
        decreases blocks.len() - j,
    {
        let ghost cur = state_of(turns@, debug@, *open);
        assert(bs[j as int] == blocks@[j as int]@);
        match &blocks[j] {
            ContentBlock::Text { text: piece } => {
                if !text.as_str().is_empty() {
                    text.append("\n\n");
                }
                text.append(piece.as_str());
            },
            ContentBlock::ToolResult { tool_use_id, content, is_error } => {
                if open.is_none() {
                    let mut m = at_message_text(i);
                    m.append("a result for ");
                    m.append(tool_use_id.as_str());
                    m.append(" without its call");
                    assert(bs[j as int] == ContentV::ToolResult(tool_use_id@, content@, *is_error));
                    assert(user_from(cur, text@, bs, j as int, i as int) == Err::<(ReplayState, Seq<char>), Seq<char>>(m@));
                    return Err(m);
                }
                let mut turn = open.take().unwrap();
                let ghost t = turn@;
                let c = match turn.card_index(tool_use_id.as_str()) {
                    Some(c) => c,
                    None => {
                        let mut m = at_message_text(i);
                        m.append("a result for ");
                        m.append(tool_use_id.as_str());
                        m.append(" without its call");
                        assert(bs[j as int] == ContentV::ToolResult(tool_use_id@, content@, *is_error));
                        assert(user_from(cur, text@, bs, j as int, i as int) == Err::<(ReplayState, Seq<char>), Seq<char>>(m@));
                        return Err(m);
                    },
                };
                proof {
                    lemma_last_card(t.blocks, tool_use_id@, t.blocks.len() as int);
                }
                let mut block = Block::RedactedThinking;
                turn.blocks.set_and_swap(c, &mut block);
                assert(block@ == t.blocks[c as int]);
                match block {
                    Block::Tool(mut card) => {
                        card.result = Some(
                            ToolResultView {
                                summary: summary_line(content.as_str(), *is_error),
                                is_error: *is_error,
                                millis: None,
                            },
                        );
                        turn.blocks.set(c, Block::Tool(card));
                    },
                    other => {
                        turn.blocks.set(c, other);
                    },
                }
                let ghost shown = ResultV {
                    summary: summary_spec(content@, *is_error),
                    is_error: *is_error,
                    millis: None,
                };
                assert(turn@.blocks =~= t.blocks.update(
                    c as int,
                    BlockV::Tool(CardV { result: Some(shown), ..t.blocks[c as int]->Tool_0 }),
                ));
                *open = Some(turn);
                let ghost d = debug_view(debug@);
                let mut k = debug.len();
                let mut found = false;
                while k > 0 && !found
                    invariant
                        k <= debug.len() == d.len(),
                        d == debug_view(debug@),
                        found ==> k > 0 && d[k - 1].id == tool_use_id@,
                        last_entry(d, tool_use_id@, d.len() as int) == if found {
                            Some(k - 1)
                        } else {
                            last_entry(d, tool_use_id@, k as int)
                        },
                    decreases k, if found { 0int } else { 1int },
                {
                    assert(d[k - 1] == debug@[k - 1]@);
                    if crate::text::str_eq(debug[k - 1].id.as_str(), tool_use_id.as_str()) {
                        found = true;
                    } else {
                        k = k - 1;
                    }
                }
                if found {
                    debug[k - 1].result = Some(
                        DebugResult { body: content.clone(), is_error: *is_error, millis: None },
                    );
                    assert(debug_view(debug@) =~= d.update(
                        k - 1,
                        DebugV {
                            result: Some(DebugResultV { body: content@, is_error: *is_error, millis: None }),
                            ..d[k - 1]
                        },
                    ));
                }
            },
            other => {
                let mut m = at_message_text(i);
                m.append("a ");
                m.append(other.kind().as_str());
                m.append(" block in a user message");
                return Err(m);
            },
        }
        j = j + 1;
    }
    Ok(text)
}

/// The replay of one assistant message into `turn`: the turn and the debug log grow, or
/// the error names the message.
fn replay_assistant(
    turn: &mut AssistantTurn,
    debug: &mut Vec<DebugEvent>,
    blocks: &Vec<ContentBlock>,
    i: usize,
) -> (r: Result<(), String>)
    ensures
        match assistant_from(old(turn)@, debug_view(old(debug)@), content_view(blocks@), 0, i as int) {
            Ok((t, d)) => r is Ok && final(turn)@ == t && debug_view(final(debug)@) == d,
            Err(e) => r matches Err(m) && m@ == e,
        },
{
    let ghost bs = content_view(blocks@);
    let mut j: usize = 0;
    while j < blocks.len()
        invariant
            j <= blocks.len() == bs.len(),
            bs == content_view(blocks@),
            assistant_from(old(turn)@, debug_view(old(debug)@), bs, 0, i as int) == assistant_from(
                turn@,
                debug_view(debug@),
                bs,
                j as int,
                i as int,
            ),
        decreases blocks.len() - j,
    {
        assert(bs[j as int] == blocks@[j as int]@);
        let ghost b0 = turn@.blocks;
        match &blocks[j] {
            ContentBlock::Text { text } => turn.push_text(text.as_str()),
            ContentBlock::Thinking { thinking, .. } => {
                turn.blocks.push(Block::Thinking(thinking.clone()));
                assert(turn@.blocks =~= b0.push(BlockV::Thinking(thinking@)));
            },
            ContentBlock::RedactedThinking { .. } => {
                turn.blocks.push(Block::RedactedThinking);
                assert(turn@.blocks =~= b0.push(BlockV::RedactedThinking));
            },
            ContentBlock::ToolUse { id, name, input } => {
                let card = ToolCard::open(id.clone(), name.clone());
                let ghost c = card@;
                turn.blocks.push(Block::Tool(card));
                assert(turn@.blocks =~= b0.push(BlockV::Tool(c)));
                let mut entry = DebugEvent::open(
                    id.clone(),
                    name.clone(),
                    StderrLines::Unseen(REPLAYED_STDERR),
                );
                entry.input = Some(pretty(input));
                let ghost d0 = debug_view(debug@);
                let ghost ev = entry@;
                debug.push(entry);
                assert(debug_view(debug@) =~= d0.push(ev));
            },
            ContentBlock::ToolResult { .. } => {
                let mut m = at_message_text(i);
                m.append("a tool result in an assistant message");
                return Err(m);
            },
            ContentBlock::Other(value) => {
                let is_fallback = match get(value, "type") {
                    Some(Json::Str(t)) => crate::text::str_eq(t.as_str(), "fallback"),
                    _ => false,
                };
                let block = if is_fallback {
                    let from = match get(value, "from") {
                        Some(Json::Str(s)) => s.clone(),
                        _ => String::from_str("?"),
                    };
                    let to = match get(value, "to") {
                        Some(Json::Str(s)) => s.clone(),
                        _ => String::from_str("?"),
                    };
                    Block::Fallback { from, to }
                } else {
                    Block::Other(blocks[j].kind())
                };
                let ghost bv = block@;
                turn.blocks.push(block);
                assert(turn@.blocks =~= b0.push(bv));
            },
        }
        j = j + 1;
    }
    Ok(())
}

/// A saved transcript as turns and their calls' debug log. A user message with text
/// opens a user turn; one carrying only tool results answers the cards of the assistant
/// turn before it; the assistant messages between two user texts fold into one
/// assistant turn, as the stream showed them. Each call's input and result go to the
/// debug log under its id, as a live turn puts them there. A user block this view
/// cannot show is an error naming the message.
pub fn replay(messages: &Vec<Message>) -> (r: Result<Replayed, String>)
    ensures
        match replay_spec(messages@) {
            Ok((turns, debug)) => r matches Ok(rep) && turns_view(rep.turns@) == turns
                && debug_view(rep.debug@) == debug,
            Err(e) => r matches Err(m) && m@ == e,
        },
{
    let ghost roles = roles_of(messages@);
    let ghost contents = contents_of(messages@);
    let mut turns: Vec<TurnView> = Vec::new();
    let mut debug: Vec<DebugEvent> = Vec::new();
    let mut open: Option<AssistantTurn> = None;
    assert(turns_view(turns@) =~= Seq::<TurnV>::empty());
    assert(debug_view(debug@) =~= Seq::<DebugV>::empty());
    assert(state_of(turns@, debug@, open) == ReplayState { turns: seq![], debug: seq![], open: None });
    let mut i: usize = 0;
    while i < messages.len()
        invariant
            i <= messages.len() == roles.len() == contents.len(),
            roles == roles_of(messages@),
            contents == contents_of(messages@),
            replay_from(ReplayState { turns: seq![], debug: seq![], open: None }, roles, contents, 0)
                == replay_from(state_of(turns@, debug@, open), roles, contents, i as int),
        decreases messages.len() - i,
    {
        let ghost cur = state_of(turns@, debug@, open);
        let message = &messages[i];
        assert(roles[i as int] == message.role);
        assert(contents[i as int] == content_view(message.content@));
        match message.role {
            Role::User => {
                match replay_user(&turns, &mut debug, &mut open, &message.content, i) {
                    Ok(text) => {
                        if !text.as_str().is_empty() {
                            let ghost t0 = turns_view(turns@);
                            match open.take() {
                                Some(t) => {
                                    let ghost tv = t@;
                                    turns.push(TurnView::Assistant(t));
                                    assert(turns_view(turns@) =~= t0.push(TurnV::Assistant(tv)));
                                },
                                None => {},
                            }
                            let ghost t1 = turns_view(turns@);
                            let ghost tx = text@;
                            turns.push(TurnView::User { text });
                            assert(turns_view(turns@) =~= t1.push(TurnV::User(tx)));
                        }
                    },
                    Err(m) => {
                        return Err(m);
                    },
                }
            },
            Role::Assistant => {
                let mut turn = match open.take() {
                    Some(t) => t,
                    None => AssistantTurn::default(),
                };
                if turn.requests < usize::MAX {
                    turn.requests = turn.requests + 1;
                }
                match replay_assistant(&mut turn, &mut debug, &message.content, i) {
                    Ok(()) => {
                        open = Some(turn);
                    },
                    Err(m) => {
                        return Err(m);
                    },
                }
            },
        }
        i = i + 1;
    }
    match open.take() {
        Some(t) => {
            let ghost t0 = turns_view(turns@);
            let ghost tv = t@;
            turns.push(TurnView::Assistant(t));
            assert(turns_view(turns@) =~= t0.push(TurnV::Assistant(tv)));
        },
        None => {},
    }
    Ok(Replayed { turns, debug })
}


/// An assistant turn as a transcript holds it: no model, no usage and no stop reason,
/// which only a live turn reports.
pub open spec fn bare(t: AssistantV) -> bool {
    t.model is None && t.usage is None && t.stop_reason is None
}

/// Every assistant turn of `turns` is bare, and no two assistant turns stand side by side.
pub open spec fn turns_alternate(turns: Seq<TurnV>) -> bool {
    &&& forall|k: int| 0 <= k < turns.len() ==> ((#[trigger] turns[k]) matches TurnV::Assistant(t) ==> bare(t))
    &&& forall|k: int|
        0 <= k < turns.len() - 1 ==> !((#[trigger] turns[k]) is Assistant && turns[k + 1] is Assistant)
}

/// The requests of the assistant turns of `turns`, summed.
pub open spec fn sum_requests(turns: Seq<TurnV>) -> int
    decreases turns.len(),
{
    if turns.len() == 0 {
        0
    } else {
        sum_requests(turns.drop_last()) + match turns.last() {
            TurnV::Assistant(t) => t.requests as int,
            _ => 0,
        }
    }
}

/// How many of the first `i` roles are the assistant's.
pub open spec fn assistants(roles: Seq<Role>, i: int) -> int
    decreases i,
{
    if i <= 0 {
        0
    } else {
        assistants(roles, i - 1) + if roles[i - 1] == Role::Assistant { 1int } else { 0int }
    }
}

/// The requests the replay has counted so far, the open turn's included.
pub open spec fn counted_requests(st: ReplayState) -> int {
    sum_requests(st.turns) + match st.open {
        Some(t) => t.requests as int,
        None => 0,
    }
}

pub open spec fn replay_inv(st: ReplayState) -> bool {
    &&& turns_alternate(st.turns)
    &&& st.turns.len() > 0 ==> st.turns.last() is User
    &&& st.open matches Some(t) ==> bare(t)
}

proof fn lemma_assistant_from_keeps(t: AssistantV, debug: Seq<DebugV>, blocks: Seq<ContentV>, j: int, i: int)
    ensures
        assistant_from(t, debug, blocks, j, i) matches Ok((t2, _)) ==> t2.model == t.model && t2.usage
            == t.usage && t2.stop_reason == t.stop_reason && t2.requests == t.requests,
    decreases blocks.len() - j,
{
    if 0 <= j < blocks.len() {
        match blocks[j] {
            ContentV::Text(piece) => lemma_assistant_from_keeps(
                AssistantV { blocks: push_text_spec(t.blocks, piece), ..t },
                debug,
                blocks,
                j + 1,
                i,
            ),
            ContentV::Thinking(th) => lemma_assistant_from_keeps(
                AssistantV { blocks: t.blocks.push(BlockV::Thinking(th)), ..t },
                debug,
                blocks,
                j + 1,
                i,
            ),
            ContentV::RedactedThinking => lemma_assistant_from_keeps(
                AssistantV { blocks: t.blocks.push(BlockV::RedactedThinking), ..t },
                debug,
                blocks,
                j + 1,
                i,
            ),
            ContentV::ToolUse(id, name, input) => lemma_assistant_from_keeps(
                AssistantV { blocks: t.blocks.push(BlockV::Tool(open_card(id, name))), ..t },
                debug.push(
                    DebugV {
                        input: Some(json_pretty(input)),
                        ..open_debug(id, name, StderrV::Unseen(REPLAYED_STDERR@))
                    },
                ),
                blocks,
                j + 1,
                i,
            ),
            ContentV::ToolResult(..) => {},
            ContentV::Other(v) => {
                let b = if member(v, "type"@) == Some(JsonV::Str("fallback"@)) {
                    BlockV::Fallback(fallback_field(v, "from"@), fallback_field(v, "to"@))
                } else {
                    BlockV::Other(kind_spec(ContentV::Other(v)))
                };
                lemma_assistant_from_keeps(AssistantV { blocks: t.blocks.push(b), ..t }, debug, blocks, j + 1, i);
            },
        }
    }
}

proof fn lemma_user_from_keeps(st: ReplayState, text: Seq<char>, blocks: Seq<ContentV>, j: int, i: int)
    ensures
        user_from(st, text, blocks, j, i) matches Ok((st2, _)) ==> {
            &&& st2.turns == st.turns
            &&& st.open is None ==> st2.open is None
            &&& st.open matches Some(t) ==> (st2.open matches Some(t2) && t2.model == t.model && t2.usage
                == t.usage && t2.stop_reason == t.stop_reason && t2.requests == t.requests)
        },
    decreases blocks.len() - j,
{
    if 0 <= j < blocks.len() {
        match blocks[j] {
            ContentV::Text(piece) => lemma_user_from_keeps(
                st,
                if text.len() == 0 { piece } else { text + "\n\n"@ + piece },
                blocks,
                j + 1,
                i,
            ),
            ContentV::ToolResult(id, content, is_error) => match st.open {
                Some(t) => match card_of(t.blocks, id) {
                    Some(c) => {
                        let shown = ResultV { summary: summary_spec(content, is_error), is_error, millis: None };
                        let t2 = AssistantV {
                            blocks: t.blocks.update(
                                c,
                                BlockV::Tool(CardV { result: Some(shown), ..t.blocks[c]->Tool_0 }),
                            ),
                            ..t
                        };
                        let debug2 = match last_entry(st.debug, id, st.debug.len() as int) {
                            Some(k) => st.debug.update(
                                k,
                                DebugV {
                                    result: Some(DebugResultV { body: content, is_error, millis: None }),
                                    ..st.debug[k]
                                },
                            ),
                            None => st.debug,
                        };
                        lemma_user_from_keeps(
                            ReplayState { open: Some(t2), debug: debug2, ..st },
                            text,
                            blocks,
                            j + 1,
                            i,
                        );
                    },
                    None => {},
                },
                None => {},
            },
            _ => {},
        }
    }
}

proof fn lemma_sum_push(turns: Seq<TurnV>, x: TurnV)
    ensures
        sum_requests(turns.push(x)) == sum_requests(turns) + match x {
            TurnV::Assistant(t) => t.requests as int,
            _ => 0,
        },
{
    assert(turns.push(x).drop_last() =~= turns);
}

proof fn lemma_alternate_push(turns: Seq<TurnV>, x: TurnV)
    requires
        turns_alternate(turns),
        x matches TurnV::Assistant(t) ==> bare(t) && (turns.len() == 0 || turns.last() is User),
    ensures
        turns_alternate(turns.push(x)),
{
    let s = turns.push(x);
    assert forall|k: int| 0 <= k < s.len() implies ((#[trigger] s[k]) matches TurnV::Assistant(t) ==> bare(t)) by {
        if k < turns.len() {
            assert(s[k] == turns[k]);
        }
    }
    assert forall|k: int| 0 <= k < s.len() - 1 implies !((#[trigger] s[k]) is Assistant && s[k + 1] is Assistant) by {
        assert(s[k] == turns[k]);
        if k + 1 < turns.len() {
            assert(s[k + 1] == turns[k + 1]);
        }
    }
}

proof fn lemma_step(st: ReplayState, role: Role, blocks: Seq<ContentV>, i: int)
    requires
        replay_inv(st),
        counted_requests(st) < usize::MAX,
    ensures
        message_step(st, role, blocks, i) matches Ok(st2) ==> replay_inv(st2) && counted_requests(st2)
            == counted_requests(st) + if role == Role::Assistant { 1int } else { 0int },
{
    match role {
        Role::User => {
            lemma_user_from_keeps(st, seq![], blocks, 0, i);
            match user_from(st, seq![], blocks, 0, i) {
                Ok((st2, text)) => {
                    if text.len() > 0 {
                        let turns = match st2.open {
                            Some(t) => st2.turns.push(TurnV::Assistant(t)),
                            None => st2.turns,
                        };
                        match st2.open {
                            Some(t) => {
                                lemma_alternate_push(st2.turns, TurnV::Assistant(t));
                                lemma_sum_push(st2.turns, TurnV::Assistant(t));
                            },
                            None => {},
                        }
                        lemma_alternate_push(turns, TurnV::User(text));
                        lemma_sum_push(turns, TurnV::User(text));
                    }
                },
                Err(_) => {},
            }
        },
        Role::Assistant => {
            let t0 = match st.open {
                Some(t) => t,
                None => empty_turn(),
            };
            assert(t0.requests as int <= counted_requests(st)) by {
                lemma_sum_nonneg(st.turns);
            }
            let t1 = AssistantV {
                requests: if t0.requests < usize::MAX { (t0.requests + 1) as usize } else { usize::MAX },
                ..t0
            };
            lemma_assistant_from_keeps(t1, st.debug, blocks, 0, i);
        },
    }
}

proof fn lemma_sum_nonneg(turns: Seq<TurnV>)
    ensures
        sum_requests(turns) >= 0,
    decreases turns.len(),
{
    if turns.len() > 0 {
        lemma_sum_nonneg(turns.drop_last());
    }
}

proof fn lemma_replay_from(st: ReplayState, roles: Seq<Role>, contents: Seq<Seq<ContentV>>, i: int)
    requires
        0 <= i <= roles.len(),
        roles.len() == contents.len(),
        roles.len() < usize::MAX,
        replay_inv(st),
        counted_requests(st) == assistants(roles, i),
        assistants(roles, i) <= i,
    ensures
        replay_from(st, roles, contents, i) matches Ok(st2) ==> replay_inv(st2) && counted_requests(st2)
            == assistants(roles, roles.len() as int),
    decreases roles.len() - i,
{
    if i < roles.len() {
        lemma_step(st, roles[i], contents[i], i);
        match message_step(st, roles[i], contents[i], i) {
            Ok(st2) => lemma_replay_from(st2, roles, contents, i + 1),
            Err(_) => {},
        }
    }
}

/// A saved transcript replays to turns whose assistant turns carry no model, usage or
/// stop reason — only a live turn reports those — with no two assistant turns side by
/// side, and with as many requests among them as the transcript has assistant messages.
pub proof fn law_a_replayed_transcript_alternates(m: Seq<Message>)
    requires
        m.len() < usize::MAX,
    ensures
        replay_spec(m) matches Ok((turns, _)) ==> turns_alternate(turns) && sum_requests(turns)
            == assistants(roles_of(m), m.len() as int),
{
    let st0 = ReplayState { turns: seq![], debug: seq![], open: None };
    lemma_replay_from(st0, roles_of(m), contents_of(m), 0);
    match replay_from(st0, roles_of(m), contents_of(m), 0) {
        Ok(st) => {
            match st.open {
                Some(t) => {
                    lemma_alternate_push(st.turns, TurnV::Assistant(t));
                    lemma_sum_push(st.turns, TurnV::Assistant(t));
                },
                None => {},
            }
        },
        Err(_) => {},
    }
}

/// How many of `blocks` from index `j` on are calls.
pub open spec fn calls_from(blocks: Seq<ContentV>, j: int) -> int
    decreases blocks.len() - j,
{
    if j < 0 || j >= blocks.len() {
        0
    } else {
        calls_from(blocks, j + 1) + if blocks[j] is ToolUse { 1int } else { 0int }
    }
}

/// How many calls the first `i` messages make: the calls of the assistant's messages.
pub open spec fn calls(roles: Seq<Role>, contents: Seq<Seq<ContentV>>, i: int) -> int
    decreases i,
{
    if i <= 0 {
        0
    } else {
        calls(roles, contents, i - 1) + if roles[i - 1] == Role::Assistant {
            calls_from(contents[i - 1], 0)
        } else {
            0int
        }
    }
}

/// Every entry of a replayed debug log carries its call's input, and the mark that a
/// transcript keeps no stderr.
pub open spec fn replayed_entries(debug: Seq<DebugV>) -> bool {
    forall|k: int|
        0 <= k < debug.len() ==> (#[trigger] debug[k]).input is Some && debug[k].stderr == StderrV::Unseen(
            REPLAYED_STDERR@,
        )
}

proof fn lemma_last_entry_range(debug: Seq<DebugV>, id: Seq<char>, n: int)
    ensures
        last_entry(debug, id, n) matches Some(k) ==> 0 <= k < n,
    decreases n,
{
    if n > 0 {
        lemma_last_entry_range(debug, id, n - 1);
    }
}

proof fn lemma_assistant_from_calls(t: AssistantV, debug: Seq<DebugV>, blocks: Seq<ContentV>, j: int, i: int)
    requires
        0 <= j,
    ensures
        assistant_from(t, debug, blocks, j, i) matches Ok((_, d2)) ==> d2.len() == debug.len() + calls_from(
            blocks,
            j,
        ) && (replayed_entries(debug) ==> replayed_entries(d2)),
    decreases blocks.len() - j,
{
    if j < blocks.len() {
        match blocks[j] {
            ContentV::Text(piece) => lemma_assistant_from_calls(
                AssistantV { blocks: push_text_spec(t.blocks, piece), ..t },
                debug,
                blocks,
                j + 1,
                i,
            ),
            ContentV::Thinking(th) => lemma_assistant_from_calls(
                AssistantV { blocks: t.blocks.push(BlockV::Thinking(th)), ..t },
                debug,
                blocks,
                j + 1,
                i,
            ),
            ContentV::RedactedThinking => lemma_assistant_from_calls(
                AssistantV { blocks: t.blocks.push(BlockV::RedactedThinking), ..t },
                debug,
                blocks,
                j + 1,
                i,
            ),
            ContentV::ToolUse(id, name, input) => {
                let entry = DebugV {
                    input: Some(json_pretty(input)),
                    ..open_debug(id, name, StderrV::Unseen(REPLAYED_STDERR@))
                };
                let d1 = debug.push(entry);
                assert(replayed_entries(debug) ==> replayed_entries(d1)) by {
                    if replayed_entries(debug) {
                        assert forall|k: int| 0 <= k < d1.len() implies (#[trigger] d1[k]).input is Some
                            && d1[k].stderr == StderrV::Unseen(REPLAYED_STDERR@) by {
                            if k < debug.len() {
                                assert(d1[k] == debug[k]);
                            }
                        }
                    }
                }
                lemma_assistant_from_calls(
                    AssistantV { blocks: t.blocks.push(BlockV::Tool(open_card(id, name))), ..t },
                    d1,
                    blocks,
                    j + 1,
                    i,
                );
            },
            ContentV::ToolResult(..) => {},
            ContentV::Other(v) => {
                let b = if member(v, "type"@) == Some(JsonV::Str("fallback"@)) {
                    BlockV::Fallback(fallback_field(v, "from"@), fallback_field(v, "to"@))
                } else {
                    BlockV::Other(kind_spec(ContentV::Other(v)))
                };
                lemma_assistant_from_calls(AssistantV { blocks: t.blocks.push(b), ..t }, debug, blocks, j + 1, i);
            },
        }
    }
}

proof fn lemma_user_from_calls(st: ReplayState, text: Seq<char>, blocks: Seq<ContentV>, j: int, i: int)
    ensures
        user_from(st, text, blocks, j, i) matches Ok((st2, _)) ==> st2.debug.len() == st.debug.len() && (
        replayed_entries(st.debug) ==> replayed_entries(st2.debug)),
    decreases blocks.len() - j,
{
    if 0 <= j < blocks.len() {
        match blocks[j] {
            ContentV::Text(piece) => lemma_user_from_calls(
                st,
                if text.len() == 0 { piece } else { text + "\n\n"@ + piece },
                blocks,
                j + 1,
                i,
            ),
            ContentV::ToolResult(id, content, is_error) => match st.open {
                Some(t) => match card_of(t.blocks, id) {
                    Some(c) => {
                        let shown = ResultV { summary: summary_spec(content, is_error), is_error, millis: None };
                        let t2 = AssistantV {
                            blocks: t.blocks.update(
                                c,
                                BlockV::Tool(CardV { result: Some(shown), ..t.blocks[c]->Tool_0 }),
                            ),
                            ..t
                        };
                        lemma_last_entry_range(st.debug, id, st.debug.len() as int);
                        let debug2 = match last_entry(st.debug, id, st.debug.len() as int) {
                            Some(k) => st.debug.update(
                                k,
                                DebugV {
                                    result: Some(DebugResultV { body: content, is_error, millis: None }),
                                    ..st.debug[k]
                                },
                            ),
                            None => st.debug,
                        };
                        assert(replayed_entries(st.debug) ==> replayed_entries(debug2)) by {
                            if replayed_entries(st.debug) {
                                assert forall|k: int| 0 <= k < debug2.len() implies (#[trigger] debug2[k]).input
                                    is Some && debug2[k].stderr == StderrV::Unseen(REPLAYED_STDERR@) by {
                                    assert(st.debug[k].input is Some);
                                }
                            }
                        }
                        lemma_user_from_calls(
                            ReplayState { open: Some(t2), debug: debug2, ..st },
                            text,
                            blocks,
                            j + 1,
                            i,
                        );
                    },
                    None => {},
                },
                None => {},
            },
            _ => {},
        }
    }
}

proof fn lemma_replay_calls(st: ReplayState, roles: Seq<Role>, contents: Seq<Seq<ContentV>>, i: int)
    requires
        0 <= i <= roles.len(),
        roles.len() == contents.len(),
        st.debug.len() == calls(roles, contents, i),
        replayed_entries(st.debug),
    ensures
        replay_from(st, roles, contents, i) matches Ok(st2) ==> st2.debug.len() == calls(
            roles,
            contents,
            roles.len() as int,
        ) && replayed_entries(st2.debug),
    decreases roles.len() - i,
{
    if i < roles.len() {
        match roles[i] {
            Role::User => lemma_user_from_calls(st, seq![], contents[i], 0, i),
            Role::Assistant => {
                let t0 = match st.open {
                    Some(t) => t,
                    None => empty_turn(),
                };
                let t1 = AssistantV {
                    requests: if t0.requests < usize::MAX { (t0.requests + 1) as usize } else { usize::MAX },
                    ..t0
                };
                lemma_assistant_from_calls(t1, st.debug, contents[i], 0, i);
            },
        }
        match message_step(st, roles[i], contents[i], i) {
            Ok(st2) => lemma_replay_calls(st2, roles, contents, i + 1),
            Err(_) => {},
        }
    }
}

/// A saved transcript replays to a debug log with one entry per call its assistant
/// messages make, each carrying the call's input and the mark that a transcript keeps
/// no stderr.
pub proof fn law_a_replayed_log_has_an_entry_per_call(m: Seq<Message>)
    ensures
        replay_spec(m) matches Ok((_, debug)) ==> debug.len() == calls(roles_of(m), contents_of(m), m.len() as int)
            && replayed_entries(debug),
{
    let st0 = ReplayState { turns: seq![], debug: seq![], open: None };
    lemma_replay_calls(st0, roles_of(m), contents_of(m), 0);
}

} // verus!
