use vstd::prelude::*;

verus! {

/// The role an agent plays in a chat.
#[derive(Clone, Copy, Debug, PartialEq, Eq, Structural)]
pub enum Role {
    User,
    Assistant,
}

/// How an agent is named towards the language-model provider.
#[derive(Clone, Debug, PartialEq, Eq)]
pub enum AgentName {
    Named(String),
    UserDefault,
    AssistantDefault,
}

impl AgentName {
    /// A name that may stand for an agent of the given role: the default of
    /// the other role may not.
    pub open spec fn fits(&self, role: Role) -> bool {
        match role {
            Role::User => !(*self is AssistantDefault),
            Role::Assistant => !(*self is UserDefault),
        }
    }

    /// An equal copy of this name.
    pub fn cloned(&self) -> (r: AgentName)
        ensures
            r == *self,
    {
        match self {
            AgentName::Named(n) => AgentName::Named(n.clone()),
            AgentName::UserDefault => AgentName::UserDefault,
            AgentName::AssistantDefault => AgentName::AssistantDefault,
        }
    }
}

/// A participant of a chat, with the ordered ids of the messages it has seen.
#[derive(Debug)]
pub struct Agent {
    pub id: u64,
    pub role: Role,
    pub name: AgentName,
    pub history: Vec<u64>,
}

impl Agent {
    /// A new agent with an empty history.
    pub fn new(id: u64, role: Role, name: AgentName) -> (r: Agent)
        ensures
            r.id == id,
            r.role == role,
            r.name == name,
            r.history@ == Seq::<u64>::empty(),
    {
        Agent { id, role, name, history: Vec::new() }
    }
}

} // verus!
