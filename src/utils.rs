use vstd::prelude::*;

use crate::agents::AgentName;

verus! {

/// The role a message carries on the provider's wire.
#[derive(Clone, Copy, Debug, PartialEq, Eq, Structural)]
pub enum ProviderRole {
    System,
    User,
    Assistant,
}

/// One entry of the conversation handed to a language-model provider.
#[derive(Clone, Debug, PartialEq, Eq)]
pub struct ChatMsg {
    pub role: ProviderRole,
    pub content: String,
    pub name: Option<String>,
}

/// The wire name of an agent: a given name is sent, a default one is left out.
pub open spec fn wire_name(name: AgentName) -> Option<String> {
    match name {
        AgentName::Named(n) => Some(n),
        _ => None,
    }
}

/// A system message without a name.
pub fn sys_msg(string: String) -> (r: ChatMsg)
    ensures
        r.role == ProviderRole::System,
        r.content == string,
        r.name is None,
{
    ChatMsg { role: ProviderRole::System, content: string, name: None }
}

/// A user message; a user cannot go by the assistants' default name.
pub fn user_msg(string: String, name: AgentName) -> (r: ChatMsg)
    requires
        !(name is AssistantDefault),
    ensures
        r.role == ProviderRole::User,
        r.content == string,
        r.name == wire_name(name),
{
    let name = match name {
        AgentName::Named(n) => Some(n),
        _ => None,
    };
    ChatMsg { role: ProviderRole::User, content: string, name }
}

/// An assistant message; an assistant cannot go by the user's default name.
pub fn assistant_msg(string: String, name: AgentName) -> (r: ChatMsg)
    requires
        !(name is UserDefault),
    ensures
        r.role == ProviderRole::Assistant,
        r.content == string,
        r.name == wire_name(name),
{
    let name = match name {
        AgentName::Named(n) => Some(n),
        _ => None,
    };
    ChatMsg { role: ProviderRole::Assistant, content: string, name }
}

/// The instructions configured for one agent.
#[derive(Clone, Debug, PartialEq)]
pub struct AgentInstructions {
    pub name: String,
    pub instructions: String,
}

/// The instructions of every configured agent.
#[derive(Clone, Debug, PartialEq)]
pub struct Instructions {
    pub agent_config: Vec<AgentInstructions>,
}

} // verus!
