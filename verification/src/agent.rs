//! The Agent destination's words: which client a card is about, what writing its
//! configuration does, what "Open in …" runs, and where the agent command is.

use vstd::prelude::*;

verus! {

/// The agentic clients satz writes a configuration for.
#[derive(Debug, Clone, Copy, PartialEq, Eq, Structural)]
pub enum Client {
    ClaudeCode,
    ClaudeDesktop,
}

/// The icon of a client's card.
pub fn icon(client: Client) -> (r: &'static str)
    ensures
        r@ == match client {
            Client::ClaudeCode => "terminal"@,
            Client::ClaudeDesktop => "desktop_windows"@,
        },
{
    match client {
        Client::ClaudeCode => "terminal",
        Client::ClaudeDesktop => "desktop_windows",
    }
}

/// What the client reads, and what writing it does to what is already there.
pub fn blurb(client: Client) -> (r: &'static str)
    ensures
        r@ == match client {
            Client::ClaudeCode =>
                "The command-line client reads .mcp.json in the directory it starts in. Written into the estate's directory, it gives every session in that folder this estate's satz tools and nothing else."@,
            Client::ClaudeDesktop =>
                "The desktop client keeps every server on the machine in one configuration file, and reads it when it starts. satz writes its own key into that file and leaves every other server in it as it is."@,
        },
{
    match client {
        Client::ClaudeCode => {
            "The command-line client reads .mcp.json in the directory it starts in. Written into the estate's directory, it gives every session in that folder this estate's satz tools and nothing else."
        },
        Client::ClaudeDesktop => {
            "The desktop client keeps every server on the machine in one configuration file, and reads it when it starts. satz writes its own key into that file and leaves every other server in it as it is."
        },
    }
}

/// The sentence under "Open in …", from the program the agent command starts, or
/// nothing where no command is named.
pub fn open_sentence(program: Option<&str>) -> (r: String)
    ensures
        r@ == match program {
            Some(p) => "\"Open in "@ + p@
                + "\" runs that command in this estate's directory, in your terminal. Settings names the client."@,
            None => "Settings names the agentic client to start; until one is named, there is nothing to open."@,
        },
{
    match program {
        Some(p) => {
            let mut s = String::from_str("\"Open in ");
            s.append(p);
            s.append(
                "\" runs that command in this estate's directory, in your terminal. Settings names the client.",
            );
            s
        },
        None => String::from_str(
            "Settings names the agentic client to start; until one is named, there is nothing to open.",
        ),
    }
}

/// Where looking up the agent command on this machine came to: the path it runs, no
/// command named at all, or the reason it cannot run.
#[derive(Debug, Clone, PartialEq, Eq)]
pub enum Located {
    Found(String),
    NoCommand,
    Fault(String),
}

/// The line under the agent command, and whether it is a fault: where that client is,
/// or why there is none. A command that is not installed is a fault — "Open in …"
/// would have nothing to run.
pub fn agent_status(located: Located) -> (r: (String, bool))
    ensures
        match located {
            Located::Found(path) => r.0@ == path@ && !r.1,
            Located::NoCommand => r.0@ == "no client named; the Agent destination has nothing to start"@
                && r.1,
            Located::Fault(why) => r.0@ == why@ && r.1,
        },
{
    match located {
        Located::Found(path) => (path, false),
        Located::NoCommand => (
            String::from_str("no client named; the Agent destination has nothing to start"),
            true,
        ),
        Located::Fault(why) => (why, true),
    }
}

} // verus!
