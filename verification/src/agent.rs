//! The management agent's WebSocket session as a state machine: whether a
//! connecting agent is admitted, which device it is, and what the server
//! does for each event of the session.
use vstd::prelude::*;

use crate::text::{chars_of, has_prefix, owned, push_text, same_text, starts_with_chars, string_of, sub_chars};

verus! {

/// What happens to an agent that connects.
#[derive(Debug, Clone, PartialEq, Eq)]
pub enum Admission {
    /// No client id: the connection is dropped.
    Reject,
    /// The agent feature is off: tell the agent to disable itself, mark its
    /// device offline, and drop the connection.
    Disable(u128),
    /// The session runs for this client.
    Accept(u128),
}

/// `handle_agent` (start): an agent without a client id is rejected; while
/// the agent feature is off it is told to disable itself.
pub fn admission(tenant_id: Option<u128>, agent_enabled: bool) -> (r: Admission)
    ensures
        r == match tenant_id {
            None => Admission::Reject,
            Some(t) => if agent_enabled {
                Admission::Accept(t)
            } else {
                Admission::Disable(t)
            },
        },
{
    match tenant_id {
        None => Admission::Reject,
        Some(t) => if agent_enabled {
            Admission::Accept(t)
        } else {
            Admission::Disable(t)
        },
    }
}

/// The text after `host-` when `s` starts with it.
pub open spec fn host_name_of(s: Seq<char>) -> Option<Seq<char>> {
    if has_prefix(s, "host-"@) {
        Some(s.skip(5))
    } else {
        None
    }
}

/// `str::strip_prefix("host-")`.
fn strip_host(s: &str) -> (r: Option<String>)
    ensures
        match host_name_of(s@) {
            Some(h) => r matches Some(t) && t@ == h,
            None => r is None,
        },
{
    let c = chars_of(s);
    let p = chars_of("host-");
    proof {
        reveal_strlit("host-");
    }
    if starts_with_chars(&c, &p) {
        let rest = sub_chars(&c, 5, c.len());
        assert(rest@ == s@.skip(5));
        Some(string_of(&rest))
    } else {
        None
    }
}

/// Who an agent says it is.
#[derive(Debug, Clone, PartialEq, Eq)]
pub struct AgentIdentity {
    /// The host name, from the agent or from an id of the form `host-<name>`.
    pub hostname: Option<String>,
    /// The RustDesk id the agent reported, when not empty.
    pub rustdesk_id: Option<String>,
    /// The RustDesk id a new device row gets: the reported one, else
    /// `agent:<host name>` (or `agent:<agent id>` without a host name).
    pub fallback_id: String,
}

/// `ensure_agent_device` (identity): what the device row of a connecting
/// agent is matched and registered by.
pub fn agent_identity(uuid: &str, hostname: Option<String>, rustdesk_id: Option<String>) -> (r:
    AgentIdentity)
    ensures
        match hostname {
            Some(h) => r.hostname == Some(h),
            None => match host_name_of(uuid@) {
                Some(h) => r.hostname matches Some(t) && t@ == h,
                None => r.hostname is None,
            },
        },
        match rustdesk_id {
            Some(id) => if id@.len() == 0 {
                r.rustdesk_id is None
            } else {
                r.rustdesk_id == Some(id)
            },
            None => r.rustdesk_id is None,
        },
        match r.rustdesk_id {
            Some(id) => r.fallback_id@ == id@,
            None => r.fallback_id@ == "agent:"@ + match r.hostname {
                Some(h) => h@,
                None => uuid@,
            },
        },
{
    let host = match hostname {
        Some(h) => Some(h),
        None => strip_host(uuid),
    };
    let reported = match rustdesk_id {
        Some(id) => if id.as_str().is_empty() {
            None
        } else {
            Some(id)
        },
        None => None,
    };
    let fallback = match &reported {
        Some(id) => id.clone(),
        None => {
            let mut f = owned("agent:");
            match &host {
                Some(h) => push_text(&mut f, h.as_str()),
                None => push_text(&mut f, uuid),
            }
            f
        },
    };
    AgentIdentity { hostname: host, rustdesk_id: reported, fallback_id: fallback }
}

/// `handle_agent` (registration): the device id the session is filed
/// under: the registered device, else the one found for the agent's id,
/// else the agent's own id.
pub fn registered_uuid(ensured: Option<String>, resolved: Option<String>, uuid: String) -> (r: String)
    ensures
        r == match ensured {
            Some(u) => u,
            None => match resolved {
                Some(u) => u,
                None => uuid,
            },
        },
{
    match ensured {
        Some(u) => u,
        None => match resolved {
            Some(u) => u,
            None => uuid,
        },
    }
}

/// How the device of an agent id is looked up.
#[derive(Debug, Clone, PartialEq, Eq)]
pub enum DeviceLookup {
    /// By host name (case-insensitive), most recently seen first.
    ByHostname(String),
    /// By device id.
    ByUuid(String),
}

/// `resolve_device_uuid`: an id of the form `host-<name>` is looked up by
/// host name, any other by device id.
pub fn device_lookup(agent_id: &str) -> (r: DeviceLookup)
    ensures
        match host_name_of(agent_id@) {
            Some(h) => r matches DeviceLookup::ByHostname(t) && t@ == h,
            None => r matches DeviceLookup::ByUuid(t) && t@ == agent_id@,
        },
{
    match strip_host(agent_id) {
        Some(h) => DeviceLookup::ByHostname(h),
        None => DeviceLookup::ByUuid(owned(agent_id)),
    }
}

/// A message received from the agent.
#[derive(Debug, Clone, PartialEq, Eq)]
pub enum AgentMessage {
    /// A text frame; `kind` is the `type` field when the text is a JSON
    /// object with a text `type`, and `json` whether it is JSON at all.
    Text { json: bool, kind: Option<String> },
    /// A ping with its payload.
    Ping(Vec<u8>),
    /// Anything else: a binary frame, a close, an error or the end of the stream.
    Other,
}

/// An event of an agent session.
#[derive(Debug, Clone, PartialEq, Eq)]
pub enum AgentEvent {
    /// The presence timer fired; the agent feature is on or off now.
    Tick { agent_enabled: bool },
    /// A command queued for the agent, or `None` when the queue closed.
    Command(Option<String>),
    /// A message from the agent.
    Received(AgentMessage),
}

/// What the server does for an event.
#[derive(Debug, Clone, PartialEq, Eq)]
pub enum AgentAction {
    /// Tell the agent to disable itself and end the session.
    DisableAndStop,
    /// Mark the device online and seen now.
    RefreshPresence,
    /// Send the command to the agent.
    Forward(String),
    /// Store the reported progress of a script step.
    StoreScriptProgress,
    /// Store the reported output of a command.
    StoreCommandResult,
    /// Answer the ping.
    Pong(Vec<u8>),
    /// Nothing to do.
    Ignore,
    /// End the session.
    Stop,
}

/// `handle_agent` (one event): switching the feature off ends the session
/// within one tick; queued commands are forwarded; JSON texts are stored
/// as script progress when their type says so and as command output
/// otherwise; pings are answered; anything else ends the session.
pub fn agent_step(event: AgentEvent) -> (r: AgentAction)
    ensures
        match event {
            AgentEvent::Tick { agent_enabled } => r == if agent_enabled {
                AgentAction::RefreshPresence
            } else {
                AgentAction::DisableAndStop
            },
            AgentEvent::Command(Some(m)) => r == AgentAction::Forward(m),
            AgentEvent::Command(None) => r == AgentAction::Stop,
            AgentEvent::Received(AgentMessage::Text { json, kind }) => r == if !json {
                AgentAction::Ignore
            } else if kind matches Some(k) && k@ == "script_progress"@ {
                AgentAction::StoreScriptProgress
            } else {
                AgentAction::StoreCommandResult
            },
            AgentEvent::Received(AgentMessage::Ping(p)) => r == AgentAction::Pong(p),
            AgentEvent::Received(AgentMessage::Other) => r == AgentAction::Stop,
        },
{
    match event {
        AgentEvent::Tick { agent_enabled } => if agent_enabled {
            AgentAction::RefreshPresence
        } else {
            AgentAction::DisableAndStop
        },
        AgentEvent::Command(Some(m)) => AgentAction::Forward(m),
        AgentEvent::Command(None) => AgentAction::Stop,
        AgentEvent::Received(AgentMessage::Text { json, kind }) => {
            if !json {
                return AgentAction::Ignore;
            }
            match kind {
                Some(k) => if same_text(k.as_str(), "script_progress") {
                    AgentAction::StoreScriptProgress
                } else {
                    AgentAction::StoreCommandResult
                },
                None => AgentAction::StoreCommandResult,
            }
        },
        AgentEvent::Received(AgentMessage::Ping(p)) => AgentAction::Pong(p),
        AgentEvent::Received(AgentMessage::Other) => AgentAction::Stop,
    }
}

} // verus!
