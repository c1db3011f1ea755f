use vstd::prelude::*;
use vstd::string::*;

use crate::agents::{Agent, AgentName, Role};

verus! {

/// One unit of conversation content; `partial` marks a reply still streaming.
#[derive(Debug)]
pub struct Message {
    pub id: u64,
    pub sender: u64,
    pub content: String,
    pub partial: bool,
}

/// A conversation: its agents and the pool of its messages, in order of arrival.
#[derive(Debug)]
pub struct Chat {
    pub id: u64,
    pub agents: Vec<Agent>,
    pub pool: Vec<Message>,
}

/// Everything the application keeps: its chats, how often it was started,
/// and the id the next message will get.
#[derive(Debug)]
pub struct ApplicationState {
    pub chats: Vec<Chat>,
    pub run_count: u64,
    pub next_message_id: u64,
}

/// Why a transcript operation was refused.
#[derive(Clone, Copy, Debug, PartialEq, Eq, Structural)]
pub enum StoreError {
    UnknownChat,
    UnknownAgent,
    UnknownMessage,
    AlreadyFinal,
    IdsExhausted,
    DuplicateChat,
    InvalidAgents,
}

/// Some message of the pool has this id.
pub open spec fn in_pool(pool: Seq<Message>, id: u64) -> bool {
    exists|j: int| 0 <= j < pool.len() && (#[trigger] pool[j]).id == id
}

/// Some agent has this id.
pub open spec fn has_agent(agents: Seq<Agent>, id: u64) -> bool {
    exists|k: int| 0 <= k < agents.len() && (#[trigger] agents[k]).id == id
}

/// The number of user-role agents.
pub open spec fn user_count(agents: Seq<Agent>) -> nat
    decreases agents.len(),
{
    if agents.len() == 0 {
        0
    } else {
        user_count(agents.drop_last()) + if agents.last().role == Role::User {
            1nat
        } else {
            0nat
        }
    }
}

/// Some agent plays the assistant.
pub open spec fn has_assistant(agents: Seq<Agent>) -> bool {
    exists|k: int| 0 <= k < agents.len() && (#[trigger] agents[k]).role == Role::Assistant
}

/// Agents that may form a new chat: distinct ids, fitting names, empty
/// histories, exactly one user and at least one assistant.
pub open spec fn valid_agents(agents: Seq<Agent>) -> bool {
    &&& forall|a: int, b: int|
        0 <= a < agents.len() && 0 <= b < agents.len() && a != b ==> (#[trigger] agents[a]).id
            != (#[trigger] agents[b]).id
    &&& forall|a: int| 0 <= a < agents.len() ==> (#[trigger] agents[a]).name.fits(agents[a].role)
    &&& forall|a: int| 0 <= a < agents.len() ==> (#[trigger] agents[a]).history@.len() == 0
    &&& user_count(agents) == 1
    &&& has_assistant(agents)
}

/// `new` is `old` with message `m` added to the pool and to every history.
pub open spec fn appended(old: Chat, new: Chat, m: Message) -> bool {
    &&& new.id == old.id
    &&& new.pool@ == old.pool@.push(m)
    &&& new.agents@.len() == old.agents@.len()
    &&& forall|k: int|
        0 <= k < old.agents@.len() ==> {
            &&& (#[trigger] new.agents@[k]).id == old.agents@[k].id
            &&& new.agents@[k].role == old.agents@[k].role
            &&& new.agents@[k].name == old.agents@[k].name
            &&& new.agents@[k].history@ == old.agents@[k].history@.push(m.id)
        }
}

/// `new` is `old` with the message at `p` changed as `content_ok` and
/// `partial` say, and nothing else.
pub open spec fn message_changed(old: Chat, new: Chat, p: int, partial: bool) -> bool {
    &&& new.id == old.id
    &&& new.agents == old.agents
    &&& new.pool@.len() == old.pool@.len()
    &&& forall|j: int| 0 <= j < old.pool@.len() && j != p ==> #[trigger] new.pool@[j] == old.pool@[j]
    &&& new.pool@[p].id == old.pool@[p].id
    &&& new.pool@[p].sender == old.pool@[p].sender
    &&& new.pool@[p].partial == partial
}

impl Chat {
    /// No dangling references: distinct agent ids, names that fit the roles,
    /// senders that are agents of the chat, histories that resolve in the pool.
    pub open spec fn wf(&self) -> bool {
        &&& forall|a: int, b: int|
            0 <= a < self.agents@.len() && 0 <= b < self.agents@.len() && a != b
                ==> (#[trigger] self.agents@[a]).id != (#[trigger] self.agents@[b]).id
        &&& forall|a: int|
            0 <= a < self.agents@.len() ==> (#[trigger] self.agents@[a]).name.fits(
                self.agents@[a].role,
            )
        &&& forall|j: int|
            0 <= j < self.pool@.len() ==> has_agent(self.agents@, (#[trigger] self.pool@[j]).sender)
        &&& forall|a: int, h: int|
            0 <= a < self.agents@.len() && 0 <= h < self.agents@[a].history@.len() ==> in_pool(
                self.pool@,
                #[trigger] self.agents@[a].history@[h],
            )
    }

    /// A chat with no messages yet, if the agents may form one (see
    /// `valid_agents`).
    pub fn new(id: u64, agents: Vec<Agent>) -> (r: Result<Chat, StoreError>)
        ensures
            r is Ok <==> valid_agents(agents@),
            r matches Err(e) ==> e == StoreError::InvalidAgents,
            r matches Ok(chat) ==> {
                &&& chat.id == id
                &&& chat.agents@ == agents@
                &&& chat.pool@.len() == 0
                &&& chat.wf()
            },
    {
        let mut users: usize = 0;
        let mut assistant = false;
        let mut a: usize = 0;
        while a < agents.len()
            invariant
                a <= agents@.len(),
                users <= a,
                users as nat == user_count(agents@.take(a as int)),
                assistant ==> has_assistant(agents@),
                !assistant ==> forall|i: int| 0 <= i < a ==> (#[trigger] agents@[i]).role != Role::Assistant,
                forall|i: int, k: int|
                    0 <= i < a && 0 <= k < a && i != k ==> (#[trigger] agents@[i]).id
                        != (#[trigger] agents@[k]).id,
                forall|i: int| 0 <= i < a ==> (#[trigger] agents@[i]).name.fits(agents@[i].role),
                forall|i: int| 0 <= i < a ==> (#[trigger] agents@[i]).history@.len() == 0,
            decreases agents@.len() - a,
        {
            let agent = &agents[a];
            let fits = match agent.name {
                AgentName::AssistantDefault => agent.role == Role::Assistant,
                AgentName::UserDefault => agent.role == Role::User,
                AgentName::Named(_) => true,
            };
            if !fits || agent.history.len() != 0 {
                return Err(StoreError::InvalidAgents);
            }
            let agent_id = agent.id;
            let mut b: usize = 0;
            while b < a
                invariant
                    b <= a < agents@.len(),
                    agent_id == agents@[a as int].id,
                    forall|k: int| 0 <= k < b ==> (#[trigger] agents@[k]).id != agents@[a as int].id,
                decreases a - b,
            {
                if agents[b].id == agent_id {
                    assert(agents@[b as int].id == agents@[a as int].id);
                    return Err(StoreError::InvalidAgents);
                }
                b += 1;
            }
            assert(agents@.take(a + 1).drop_last() =~= agents@.take(a as int));
            if agent.role == Role::User {
                users += 1;
            } else {
                assistant = true;
            }
            a += 1;
        }
        assert(agents@.take(a as int) =~= agents@);
        if users != 1 || !assistant {
            return Err(StoreError::InvalidAgents);
        }
        Ok(Chat { id, agents, pool: Vec::new() })
    }

    /// The index of the agent with this id, if there is one.
    pub fn find_agent(&self, id: u64) -> (r: Option<usize>)
        ensures
            match r {
                Some(k) => k < self.agents@.len() && self.agents@[k as int].id == id,
                None => !has_agent(self.agents@, id),
            },
    {
        let mut k: usize = 0;
        while k < self.agents.len()
            invariant
                k <= self.agents@.len(),
                forall|i: int| 0 <= i < k ==> (#[trigger] self.agents@[i]).id != id,
            decreases self.agents@.len() - k,
        {
            if self.agents[k].id == id {
                return Some(k);
            }
            k += 1;
        }
        None
    }

    /// The index in the pool of the message with this id, if there is one.
    pub fn find_message(&self, id: u64) -> (r: Option<usize>)
        ensures
            match r {
                Some(j) => j < self.pool@.len() && self.pool@[j as int].id == id,
                None => !in_pool(self.pool@, id),
            },
    {
        let mut j: usize = 0;
        while j < self.pool.len()
            invariant
                j <= self.pool@.len(),
                forall|i: int| 0 <= i < j ==> (#[trigger] self.pool@[i]).id != id,
            decreases self.pool@.len() - j,
        {
            if self.pool[j].id == id {
                return Some(j);
            }
            j += 1;
        }
        None
    }

    /// Adds `m` to the pool and its id to every agent's history.
    fn push_message(&mut self, m: Message)
        ensures
            appended(*old(self), *final(self), m),
    {
        let ghost id = m.id;
        let mut k: usize = 0;
        while k < self.agents.len()
            invariant
                k <= self.agents@.len(),
                self.agents@.len() == old(self).agents@.len(),
                self.id == old(self).id,
                self.pool@ == old(self).pool@,
                m.id == id,
                forall|i: int|
                    0 <= i < k ==> {
                        &&& (#[trigger] self.agents@[i]).id == old(self).agents@[i].id
                        &&& self.agents@[i].role == old(self).agents@[i].role
                        &&& self.agents@[i].name == old(self).agents@[i].name
                        &&& self.agents@[i].history@ == old(self).agents@[i].history@.push(id)
                    },
                forall|i: int|
                    k <= i < self.agents@.len() ==> #[trigger] self.agents@[i]
                        == old(self).agents@[i],
            decreases self.agents@.len() - k,
        {
            self.agents[k].history.push(m.id);
            k += 1;
        }
        self.pool.push(m);
    }
}

/// Adding a message from an agent of the chat keeps every reference resolved.
proof fn lemma_appended_wf(old: Chat, new: Chat, m: Message)
    requires
        old.wf(),
        appended(old, new, m),
        has_agent(old.agents@, m.sender),
    ensures
        new.wf(),
{
    assert forall|x: u64| has_agent(old.agents@, x) implies has_agent(new.agents@, x) by {
        let k = choose|k: int| 0 <= k < old.agents@.len() && (#[trigger] old.agents@[k]).id == x;
        assert(new.agents@[k].id == x);
    }
    assert forall|x: u64| in_pool(old.pool@, x) implies in_pool(new.pool@, x) by {
        let j = choose|j: int| 0 <= j < old.pool@.len() && (#[trigger] old.pool@[j]).id == x;
        assert(new.pool@[j] == old.pool@[j]);
    }
    assert(new.pool@[old.pool@.len() as int] == m);
    assert(in_pool(new.pool@, m.id));
    assert forall|j: int| 0 <= j < new.pool@.len() implies has_agent(
        new.agents@,
        (#[trigger] new.pool@[j]).sender,
    ) by {
        if j < old.pool@.len() {
            assert(new.pool@[j] == old.pool@[j]);
        }
    }
    assert forall|a: int, h: int|
        0 <= a < new.agents@.len() && 0 <= h < new.agents@[a].history@.len() implies in_pool(
        new.pool@,
        #[trigger] new.agents@[a].history@[h],
    ) by {
        if h < old.agents@[a].history@.len() {
            assert(new.agents@[a].history@[h] == old.agents@[a].history@[h]);
        }
    }
    assert forall|a: int, b: int|
        0 <= a < new.agents@.len() && 0 <= b < new.agents@.len() && a != b implies (
        #[trigger] new.agents@[a]).id != (#[trigger] new.agents@[b]).id by {
        assert(old.agents@[a].id != old.agents@[b].id);
    }
    assert forall|a: int| 0 <= a < new.agents@.len() implies (
    #[trigger] new.agents@[a]).name.fits(new.agents@[a].role) by {
        assert(old.agents@[a].name.fits(old.agents@[a].role));
    }
}

/// Changing one message in place, keeping its id and sender, and making it
/// final or keeping it partial, keeps the store well formed.
proof fn lemma_message_changed(o: ApplicationState, n: ApplicationState, c: int, p: int, partial: bool)
    requires
        o.wf(),
        o.valid_pos(c, p),
        partial ==> o.msg(c, p).partial,
        n.next_message_id == o.next_message_id,
        n.run_count == o.run_count,
        n.chats@.len() == o.chats@.len(),
        forall|d: int| 0 <= d < o.chats@.len() && d != c ==> #[trigger] n.chats@[d] == o.chats@[d],
        message_changed(o.chats@[c], n.chats@[c], p, partial),
    ensures
        n.wf(),
{
    let oc = o.chats@[c];
    let nc = n.chats@[c];
    assert forall|d: int, j: int| n.valid_pos(d, j) implies o.valid_pos(d, j) && (#[trigger] n.msg(
        d,
        j,
    )).id == o.msg(d, j).id && n.msg(d, j).sender == o.msg(d, j).sender && (n.msg(d, j).partial
        ==> o.msg(d, j).partial) by {
        if d == c && j != p {
            assert(nc.pool@[j] == oc.pool@[j]);
        }
    }
    assert forall|x: u64| in_pool(oc.pool@, x) implies in_pool(nc.pool@, x) by {
        let j = choose|j: int| 0 <= j < oc.pool@.len() && (#[trigger] oc.pool@[j]).id == x;
        assert(n.msg(c, j).id == x);
    }
    assert forall|j: int| 0 <= j < nc.pool@.len() implies has_agent(
        nc.agents@,
        (#[trigger] nc.pool@[j]).sender,
    ) by {
        assert(n.msg(c, j).sender == oc.pool@[j].sender);
    }
    assert forall|a: int, h: int|
        0 <= a < nc.agents@.len() && 0 <= h < nc.agents@[a].history@.len() implies in_pool(
        nc.pool@,
        #[trigger] nc.agents@[a].history@[h],
    ) by {
        assert(in_pool(oc.pool@, oc.agents@[a].history@[h]));
    }
    assert(nc.wf());
    assert forall|d: int| 0 <= d < n.chats@.len() implies (#[trigger] n.chats@[d]).wf() by {
        if d != c {
            assert(o.chats@[d].wf());
        }
    }
    assert forall|d: int, e: int|
        0 <= d < n.chats@.len() && 0 <= e < n.chats@.len() && d != e implies (
        #[trigger] n.chats@[d]).id != (#[trigger] n.chats@[e]).id by {
        assert(o.chats@[d].id != o.chats@[e].id);
    }
}

impl ApplicationState {
    /// `(c, j)` is the place of a message: chat `c`, pool index `j`.
    pub open spec fn valid_pos(&self, c: int, j: int) -> bool {
        0 <= c < self.chats@.len() && 0 <= j < self.chats@[c].pool@.len()
    }

    /// The message at place `(c, j)`.
    pub open spec fn msg(&self, c: int, j: int) -> Message {
        self.chats@[c].pool@[j]
    }

    /// Every chat is well formed, chat ids are distinct, message ids are
    /// distinct over the whole store and below `next_message_id`, and at
    /// most one message of the whole store is partial.
    pub open spec fn wf(&self) -> bool {
        &&& forall|c: int| 0 <= c < self.chats@.len() ==> (#[trigger] self.chats@[c]).wf()
        &&& forall|c: int, d: int|
            0 <= c < self.chats@.len() && 0 <= d < self.chats@.len() && c != d
                ==> (#[trigger] self.chats@[c]).id != (#[trigger] self.chats@[d]).id
        &&& forall|c: int, j: int|
            self.valid_pos(c, j) ==> (#[trigger] self.msg(c, j)).id < self.next_message_id
        &&& forall|c1: int, j1: int, c2: int, j2: int|
            self.valid_pos(c1, j1) && self.valid_pos(c2, j2) && (#[trigger] self.msg(c1, j1)).id
                == (#[trigger] self.msg(c2, j2)).id ==> c1 == c2 && j1 == j2
        &&& forall|c1: int, j1: int, c2: int, j2: int|
            self.valid_pos(c1, j1) && self.valid_pos(c2, j2) && (#[trigger] self.msg(
                c1,
                j1,
            )).partial && (#[trigger] self.msg(c2, j2)).partial ==> c1 == c2 && j1 == j2
    }

    /// No message of the store is partial.
    pub open spec fn no_partial(&self) -> bool {
        forall|c: int, j: int| self.valid_pos(c, j) ==> !(#[trigger] self.msg(c, j)).partial
    }

    /// The place of the only partial message.
    pub open spec fn only_partial_at(&self, c: int, j: int) -> bool {
        &&& self.valid_pos(c, j)
        &&& self.msg(c, j).partial
        &&& forall|d: int, i: int|
            self.valid_pos(d, i) && (#[trigger] self.msg(d, i)).partial ==> d == c && i == j
    }

    /// An empty store, never run.
    pub fn new() -> (r: ApplicationState)
        ensures
            r.wf(),
            r.chats@.len() == 0,
            r.run_count == 0,
            r.next_message_id == 0,
    {
        ApplicationState { chats: Vec::new(), run_count: 0, next_message_id: 0 }
    }

    /// The index of the chat with this id, if there is one.
    pub fn get_chat(&self, id: u64) -> (r: Option<usize>)
        ensures
            match r {
                Some(c) => c < self.chats@.len() && self.chats@[c as int].id == id,
                None => forall|c: int| 0 <= c < self.chats@.len() ==> (#[trigger] self.chats@[c]).id != id,
            },
    {
        let mut c: usize = 0;
        while c < self.chats.len()
            invariant
                c <= self.chats@.len(),
                forall|i: int| 0 <= i < c ==> (#[trigger] self.chats@[i]).id != id,
            decreases self.chats@.len() - c,
        {
            if self.chats[c].id == id {
                return Some(c);
            }
            c += 1;
        }
        None
    }

    /// The pool index of the message with this id in chat `c`, if there is one.
    pub fn get_message(&self, c: usize, id: u64) -> (r: Option<usize>)
        requires
            c < self.chats@.len(),
        ensures
            match r {
                Some(j) => self.valid_pos(c as int, j as int) && self.msg(c as int, j as int).id == id,
                None => !in_pool(self.chats@[c as int].pool@, id),
            },
    {
        self.chats[c].find_message(id)
    }

    /// Appends a message from agent `sender` to chat `c`, under the next free
    /// id, and adds that id to the history of every agent of the chat.
    pub fn append_message(&mut self, c: usize, sender: u64, content: String, partial: bool) -> (r:
        Result<u64, StoreError>)
        requires
            old(self).wf(),
            c < old(self).chats@.len(),
            partial ==> old(self).no_partial(),
        ensures
            final(self).wf(),
            final(self).run_count == old(self).run_count,
            r is Err <==> !has_agent(old(self).chats@[c as int].agents@, sender)
                || old(self).next_message_id == u64::MAX,
            r == Err::<u64, StoreError>(StoreError::UnknownAgent) <==> !has_agent(
                old(self).chats@[c as int].agents@,
                sender,
            ),
            r matches Err(e) ==> e == StoreError::UnknownAgent || e == StoreError::IdsExhausted,
            r is Err ==> *final(self) == *old(self),
            r matches Ok(id) ==> {
                &&& id == old(self).next_message_id
                &&& final(self).next_message_id == id + 1
                &&& final(self).chats@.len() == old(self).chats@.len()
                &&& forall|d: int|
                    0 <= d < old(self).chats@.len() && d != c ==> #[trigger] final(self).chats@[d]
                        == old(self).chats@[d]
                &&& appended(
                    old(self).chats@[c as int],
                    final(self).chats@[c as int],
                    Message { id, sender, content, partial },
                )
            },
    {
        if self.chats[c].find_agent(sender).is_none() {
            return Err(StoreError::UnknownAgent);
        }
        if self.next_message_id == u64::MAX {
            return Err(StoreError::IdsExhausted);
        }
        let id = self.next_message_id;
        let ghost m = Message { id, sender, content, partial };
        self.chats[c].push_message(Message { id, sender, content, partial });
        self.next_message_id = id + 1;
        proof {
            let o = *old(self);
            lemma_appended_wf(o.chats@[c as int], self.chats@[c as int], m);
            let n = o.chats@[c as int].pool@.len() as int;
            assert(self.msg(c as int, n) == m);
            assert forall|d: int, j: int| self.valid_pos(d, j) && (d != c || j != n) implies (
            #[trigger] self.msg(d, j)) == o.msg(d, j) && o.valid_pos(d, j) by {
                if d == c {
                    assert(self.chats@[c as int].pool@[j] == o.chats@[c as int].pool@[j]);
                }
            }
            assert forall|d: int, e: int|
                0 <= d < self.chats@.len() && 0 <= e < self.chats@.len() && d != e implies (
                #[trigger] self.chats@[d]).id != (#[trigger] self.chats@[e]).id by {
                assert(o.chats@[d].id != o.chats@[e].id);
            }
            assert forall|d: int| 0 <= d < self.chats@.len() implies (
            #[trigger] self.chats@[d]).wf() by {
                if d != c {
                    assert(o.chats@[d].wf());
                }
            }
        }
        Ok(id)
    }

    /// Appends `text` to the content of the partial message `id` of chat `c`;
    /// the message keeps its id and stays partial.
    pub fn append_fragment(&mut self, c: usize, id: u64, text: &str) -> (r: Result<(), StoreError>)
        requires
            old(self).wf(),
            c < old(self).chats@.len(),
        ensures
            final(self).wf(),
            r is Ok <==> exists|j: int|
                old(self).valid_pos(c as int, j) && (#[trigger] old(self).msg(c as int, j)).id == id
                    && old(self).msg(c as int, j).partial,
            r is Err ==> r == Err::<(), StoreError>(StoreError::UnknownMessage) && *final(self)
                == *old(self),
            r is Ok ==> {
                &&& final(self).run_count == old(self).run_count
                &&& final(self).next_message_id == old(self).next_message_id
                &&& final(self).chats@.len() == old(self).chats@.len()
                &&& forall|d: int|
                    0 <= d < old(self).chats@.len() && d != c ==> #[trigger] final(self).chats@[d]
                        == old(self).chats@[d]
                &&& forall|j: int|
                    old(self).valid_pos(c as int, j) && (#[trigger] old(self).msg(c as int, j)).id
                        == id ==> {
                        &&& message_changed(
                            old(self).chats@[c as int],
                            final(self).chats@[c as int],
                            j,
                            true,
                        )
                        &&& final(self).msg(c as int, j).content@ == old(self).msg(
                            c as int,
                            j,
                        ).content@ + text@
                    }
            },
    {
        let j = match self.chats[c].find_message(id) {
            Some(j) => j,
            None => {
                return Err(StoreError::UnknownMessage);
            },
        };
        if !self.chats[c].pool[j].partial {
            proof {
                let o = *old(self);
                assert forall|i: int|
                    o.valid_pos(c as int, i) && (#[trigger] o.msg(c as int, i)).id == id implies !o.msg(
                    c as int,
                    i,
                ).partial by {
                    assert(o.msg(c as int, i).id == o.msg(c as int, j as int).id);
                }
            }
            return Err(StoreError::UnknownMessage);
        }
        self.chats[c].pool[j].content.append(text);
        proof {
            lemma_message_changed(*old(self), *self, c as int, j as int, true);
            assert(old(self).msg(c as int, j as int).id == id);
        }
        Ok(())
    }

    /// Marks the partial message `id` of chat `c` as final; its id and
    /// content stay.
    pub fn finalize(&mut self, c: usize, id: u64) -> (r: Result<(), StoreError>)
        requires
            old(self).wf(),
            c < old(self).chats@.len(),
        ensures
            final(self).wf(),
            r == Err::<(), StoreError>(StoreError::UnknownMessage) <==> !in_pool(
                old(self).chats@[c as int].pool@,
                id,
            ),
            r == Err::<(), StoreError>(StoreError::AlreadyFinal) <==> exists|j: int|
                old(self).valid_pos(c as int, j) && (#[trigger] old(self).msg(c as int, j)).id == id
                    && !old(self).msg(c as int, j).partial,
            r matches Err(e) ==> e == StoreError::UnknownMessage || e == StoreError::AlreadyFinal,
            r is Err ==> *final(self) == *old(self),
            r is Ok ==> {
                &&& final(self).run_count == old(self).run_count
                &&& final(self).next_message_id == old(self).next_message_id
                &&& final(self).chats@.len() == old(self).chats@.len()
                &&& forall|d: int|
                    0 <= d < old(self).chats@.len() && d != c ==> #[trigger] final(self).chats@[d]
                        == old(self).chats@[d]
                &&& forall|j: int|
                    old(self).valid_pos(c as int, j) && (#[trigger] old(self).msg(c as int, j)).id
                        == id ==> {
                        &&& message_changed(
                            old(self).chats@[c as int],
                            final(self).chats@[c as int],
                            j,
                            false,
                        )
                        &&& final(self).msg(c as int, j).content == old(self).msg(
                            c as int,
                            j,
                        ).content
                    }
            },
    {
        let j = match self.chats[c].find_message(id) {
            Some(j) => j,
            None => {
                return Err(StoreError::UnknownMessage);
            },
        };
        proof {
            let o = *old(self);
            assert forall|i: int|
                o.valid_pos(c as int, i) && (#[trigger] o.msg(c as int, i)).id == id implies i
                == j by {
                assert(o.msg(c as int, i).id == o.msg(c as int, j as int).id);
            }
            assert(in_pool(o.chats@[c as int].pool@, id)) by {
                assert(o.chats@[c as int].pool@[j as int].id == id);
            }
        }
        if !self.chats[c].pool[j].partial {
            assert(old(self).msg(c as int, j as int).id == id);
            return Err(StoreError::AlreadyFinal);
        }
        self.chats[c].pool[j].partial = false;
        proof {
            lemma_message_changed(*old(self), *self, c as int, j as int, false);
        }
        Ok(())
    }

    /// Adds a chat with no messages, unless one with its id is already there.
    pub fn add_chat(&mut self, chat: Chat) -> (r: Result<usize, StoreError>)
        requires
            old(self).wf(),
            chat.wf(),
            chat.pool@.len() == 0,
        ensures
            final(self).wf(),
            r is Err <==> exists|d: int|
                0 <= d < old(self).chats@.len() && (#[trigger] old(self).chats@[d]).id == chat.id,
            r matches Err(e) ==> e == StoreError::DuplicateChat && *final(self) == *old(self),
            r matches Ok(c) ==> {
                &&& c == old(self).chats@.len()
                &&& final(self).chats@ == old(self).chats@.push(chat)
                &&& final(self).run_count == old(self).run_count
                &&& final(self).next_message_id == old(self).next_message_id
            },
    {
        match self.get_chat(chat.id) {
            Some(_) => Err(StoreError::DuplicateChat),
            None => {
                let c = self.chats.len();
                self.chats.push(chat);
                proof {
                    let o = *old(self);
                    assert forall|d: int, j: int| self.valid_pos(d, j) implies o.valid_pos(d, j)
                        && #[trigger] self.msg(d, j) == o.msg(d, j) by {
                        assert(self.chats@[d] == o.chats@[d]);
                    }
                    assert forall|d: int| 0 <= d < self.chats@.len() implies (
                    #[trigger] self.chats@[d]).wf() by {
                        if d < c {
                            assert(o.chats@[d].wf());
                        }
                    }
                    assert forall|d: int, e: int|
                        0 <= d < self.chats@.len() && 0 <= e < self.chats@.len() && d != e implies (
                        #[trigger] self.chats@[d]).id != (#[trigger] self.chats@[e]).id by {
                        if d < c && e < c {
                            assert(o.chats@[d].id != o.chats@[e].id);
                        }
                    }
                }
                Ok(c)
            },
        }
    }

    /// Counts one more start of the application; nothing else changes.
    pub fn start_run(&mut self)
        requires
            old(self).wf(),
            old(self).run_count < u64::MAX,
        ensures
            final(self).wf(),
            final(self).run_count == old(self).run_count + 1,
            final(self).chats == old(self).chats,
            final(self).next_message_id == old(self).next_message_id,
    {
        self.run_count = self.run_count + 1;
        proof {
            let o = *old(self);
            assert forall|d: int, j: int| self.valid_pos(d, j) implies o.valid_pos(d, j)
                && #[trigger] self.msg(d, j) == o.msg(d, j) by {}
        }
    }
}

} // verus!
