use vstd::prelude::*;

use crate::agents::{AgentName, Role};
use crate::session::{ChatId, StreamingReply};
use crate::transcript::{
    appended, has_agent, in_pool, has_assistant, message_changed, user_count, ApplicationState, Chat, Message,
};
use crate::utils::{assistant_msg, user_msg, wire_name, ChatMsg, ProviderRole};

verus! {

/// Where the dispatcher stands in the life of a request. A provider error
/// passes through to `Idle` within the step that reports it.
#[derive(Clone, Copy, Debug, PartialEq, Eq, Structural)]
pub enum Phase {
    Idle,
    Dispatching,
    Streaming,
    Finalizing,
}

/// How a provider call failed.
#[derive(Clone, Copy, Debug, PartialEq, Eq, Structural)]
pub enum ProviderError {
    NetworkError,
    AuthError,
    RateLimited,
    MalformedResponse,
}

/// What the dispatcher is told: a user submission, a piece of the provider's
/// stream, a provider failure, or that the state was saved.
#[derive(Debug)]
pub enum Event {
    Request(String),
    Content(String),
    End,
    Failed(ProviderError),
    Saved,
}

/// What the dispatcher asks its host to do next.
#[derive(Debug)]
pub enum Action {
    /// Nothing to do.
    Nothing,
    /// The request was refused: another one is in flight.
    Rejected,
    /// The request was accepted: submit this conversation to the provider.
    Submit(Vec<ChatMsg>),
    /// The reply is complete: save the application state, then report `Saved`.
    Persist,
}

/// The request state machine: the sole writer of the transcript and of the
/// busy signal while a request is in flight.
#[derive(Debug)]
pub struct Dispatcher {
    /// The transcript and everything else that is saved.
    pub state: ApplicationState,
    pub phase: Phase,
    /// Raised while a request is in flight.
    pub busy: bool,
    /// The chat that new requests go to.
    pub chat_id: u64,
    /// The index of the chat of the request in flight.
    pub active: usize,
    /// The agent that answers the request in flight.
    pub replier: u64,
    /// The id and pool index of the reply being streamed.
    pub reply: u64,
    pub reply_pos: usize,
    /// Provider failures, in the order they were reported.
    pub notes: Vec<ProviderError>,
}

/// Agent `u` is a user of the chat.
pub open spec fn is_user(agents: Seq<crate::agents::Agent>, u: u64) -> bool {
    exists|k: int| 0 <= k < agents.len() && (#[trigger] agents[k]).id == u && agents[k].role == Role::User
}

/// Agent `a` is an assistant of the chat.
pub open spec fn is_assistant(agents: Seq<crate::agents::Agent>, a: u64) -> bool {
    exists|k: int|
        0 <= k < agents.len() && (#[trigger] agents[k]).id == a && agents[k].role == Role::Assistant
}

/// The chat with id `chat_id` stands at index `c`.
pub open spec fn chat_at(s: ApplicationState, chat_id: u64, c: int) -> bool {
    0 <= c < s.chats@.len() && s.chats@[c].id == chat_id
}

/// A request with this text to this chat is served: the text is not empty,
/// the chat exists with exactly one user and some assistant, and two message
/// ids are left.
pub open spec fn request_ok(s: ApplicationState, chat_id: u64, text: Seq<char>) -> bool {
    &&& text.len() > 0
    &&& s.next_message_id < u64::MAX - 1
    &&& exists|c: int|
        chat_at(s, chat_id, c) && user_count(s.chats@[c].agents@) == 1 && has_assistant(
            #[trigger] s.chats@[c].agents@,
        )
}

/// `n` keeps the run count and every chat of `o` but chat `c`.
pub open spec fn other_chats_kept(o: ApplicationState, n: ApplicationState, c: int) -> bool {
    &&& n.run_count == o.run_count
    &&& n.chats@.len() == o.chats@.len()
    &&& forall|d: int| 0 <= d < o.chats@.len() && d != c ==> #[trigger] n.chats@[d] == o.chats@[d]
}

/// `n` is `o` after a new request with `text`, and `r` what it asks for.
pub open spec fn request_step(o: Dispatcher, n: Dispatcher, text: String, r: Action) -> bool {
    if !(o.phase is Idle) {
        r is Rejected && n == o
    } else if !request_ok(o.state, o.chat_id, text@) {
        r is Nothing && n == o
    } else {
        &&& n.phase is Dispatching
        &&& n.busy
        &&& n.chat_id == o.chat_id
        &&& n.notes == o.notes
        &&& chat_at(o.state, o.chat_id, n.active as int)
        &&& is_assistant(o.state.chats@[n.active as int].agents@, n.replier)
        &&& other_chats_kept(o.state, n.state, n.active as int)
        &&& n.state.next_message_id == o.state.next_message_id + 1
        &&& exists|u: u64|
            is_user(o.state.chats@[n.active as int].agents@, u) && #[trigger] appended(
                o.state.chats@[n.active as int],
                n.state.chats@[n.active as int],
                Message { id: o.state.next_message_id, sender: u, content: text, partial: false },
            )
        &&& r matches Action::Submit(msgs) && msgs@.len() == n.state.chats@[n.active as int].pool@.len()
            && forall|i: int|
            0 <= i < msgs@.len() ==> wire_entry(
                n.state.chats@[n.active as int].agents@,
                n.state.chats@[n.active as int].pool@[i],
                #[trigger] msgs@[i],
            )
    }
}

/// `n` is `o` after the provider sent `text`, and `r` what it asks for.
pub open spec fn content_step(o: Dispatcher, n: Dispatcher, text: String, r: Action) -> bool {
    &&& r is Nothing
    &&& match o.phase {
        Phase::Dispatching => {
            &&& n.phase is Streaming
            &&& n.busy
            &&& n.chat_id == o.chat_id
            &&& n.notes == o.notes
            &&& n.active == o.active
            &&& n.reply == o.state.next_message_id
            &&& n.reply_pos == o.state.chats@[o.active as int].pool@.len()
            &&& n.state.next_message_id == o.state.next_message_id + 1
            &&& other_chats_kept(o.state, n.state, o.active as int)
            &&& appended(
                o.state.chats@[o.active as int],
                n.state.chats@[o.active as int],
                Message { id: o.state.next_message_id, sender: o.replier, content: text, partial: true },
            )
        },
        Phase::Streaming => {
            &&& n.phase is Streaming
            &&& n.busy
            &&& n.chat_id == o.chat_id
            &&& n.notes == o.notes
            &&& n.active == o.active
            &&& n.reply == o.reply
            &&& n.reply_pos == o.reply_pos
            &&& n.state.next_message_id == o.state.next_message_id
            &&& other_chats_kept(o.state, n.state, o.active as int)
            &&& message_changed(
                o.state.chats@[o.active as int],
                n.state.chats@[o.active as int],
                o.reply_pos as int,
                true,
            )
            &&& n.state.msg(o.active as int, o.reply_pos as int).content@ == o.state.msg(
                o.active as int,
                o.reply_pos as int,
            ).content@ + text@
        },
        _ => n == o,
    }
}

/// `n` is `o` after the provider ended its stream, and `r` what it asks for.
pub open spec fn end_step(o: Dispatcher, n: Dispatcher, r: Action) -> bool {
    match o.phase {
        Phase::Dispatching => r is Persist && n == Dispatcher { phase: Phase::Finalizing, ..o },
        Phase::Streaming => {
            &&& r is Persist
            &&& n.phase is Finalizing
            &&& n.busy
            &&& n.chat_id == o.chat_id
            &&& n.notes == o.notes
            &&& n.active == o.active
            &&& n.state.next_message_id == o.state.next_message_id
            &&& other_chats_kept(o.state, n.state, o.active as int)
            &&& message_changed(
                o.state.chats@[o.active as int],
                n.state.chats@[o.active as int],
                o.reply_pos as int,
                false,
            )
            &&& n.state.msg(o.active as int, o.reply_pos as int).content == o.state.msg(
                o.active as int,
                o.reply_pos as int,
            ).content
        },
        _ => r is Nothing && n == o,
    }
}

/// `n` is `o` after the provider failed with `e`, and `r` what it asks for:
/// the failure is noted and the dispatcher is idle again; a reply that was
/// streaming keeps what arrived and is made final.
pub open spec fn failed_step(o: Dispatcher, n: Dispatcher, e: ProviderError, r: Action) -> bool {
    &&& r is Nothing
    &&& match o.phase {
        Phase::Dispatching => n == Dispatcher { phase: Phase::Idle, busy: false, notes: n.notes, ..o }
            && n.notes@ == o.notes@.push(e),
        Phase::Streaming => {
            &&& n.phase is Idle
            &&& !n.busy
            &&& n.chat_id == o.chat_id
            &&& n.notes@ == o.notes@.push(e)
            &&& n.state.next_message_id == o.state.next_message_id
            &&& other_chats_kept(o.state, n.state, o.active as int)
            &&& message_changed(
                o.state.chats@[o.active as int],
                n.state.chats@[o.active as int],
                o.reply_pos as int,
                false,
            )
            &&& n.state.msg(o.active as int, o.reply_pos as int).content == o.state.msg(
                o.active as int,
                o.reply_pos as int,
            ).content
        },
        _ => n == o,
    }
}

/// `n` is `o` after the state was saved, and `r` what it asks for.
pub open spec fn saved_step(o: Dispatcher, n: Dispatcher, r: Action) -> bool {
    &&& r is Nothing
    &&& if o.phase is Finalizing {
        n == Dispatcher { phase: Phase::Idle, busy: false, ..o }
    } else {
        n == o
    }
}

/// `n` is `o` after `event`, and `r` what it asks for.
pub open spec fn step(o: Dispatcher, n: Dispatcher, event: Event, r: Action) -> bool {
    match event {
        Event::Request(text) => request_step(o, n, text, r),
        Event::Content(text) => content_step(o, n, text, r),
        Event::End => end_step(o, n, r),
        Event::Failed(e) => failed_step(o, n, e, r),
        Event::Saved => saved_step(o, n, r),
    }
}

/// The wire role of an agent's messages.
pub open spec fn wire_role(role: Role) -> ProviderRole {
    match role {
        Role::User => ProviderRole::User,
        Role::Assistant => ProviderRole::Assistant,
    }
}

/// `e` is how message `m`, sent by one of `agents`, goes on the wire.
pub open spec fn wire_entry(agents: Seq<crate::agents::Agent>, m: crate::transcript::Message, e: ChatMsg) -> bool {
    exists|k: int|
        0 <= k < agents.len() && (#[trigger] agents[k]).id == m.sender && e.role == wire_role(
            agents[k].role,
        ) && e.content == m.content && e.name == wire_name(agents[k].name)
}

/// The conversation of a chat as the provider takes it: every message of
/// the pool, in order, with its sender's role and name.
pub fn conversation(chat: &Chat) -> (r: Vec<ChatMsg>)
    requires
        chat.wf(),
    ensures
        r@.len() == chat.pool@.len(),
        forall|i: int| 0 <= i < r@.len() ==> wire_entry(chat.agents@, chat.pool@[i], #[trigger] r@[i]),
{
    let mut r: Vec<ChatMsg> = Vec::new();
    let mut j: usize = 0;
    while j < chat.pool.len()
        invariant
            chat.wf(),
            j <= chat.pool@.len(),
            r@.len() == j,
            forall|i: int| 0 <= i < j ==> wire_entry(chat.agents@, chat.pool@[i], #[trigger] r@[i]),
        decreases chat.pool@.len() - j,
    {
        let m = &chat.pool[j];
        assert(has_agent(chat.agents@, chat.pool@[j as int].sender));
        let k = match chat.find_agent(m.sender) {
            Some(k) => k,
            None => {
                return r;
            },
        };
        let agent = &chat.agents[k];
        assert(agent.name.fits(agent.role));
        let entry = match agent.role {
            Role::User => user_msg(m.content.clone(), agent.name.cloned()),
            Role::Assistant => assistant_msg(m.content.clone(), agent.name.cloned()),
        };
        let ghost prev = r@;
        r.push(entry);
        proof {
            assert(wire_entry(chat.agents@, chat.pool@[j as int], r@[j as int]));
            assert forall|i: int| 0 <= i < j + 1 implies wire_entry(
                chat.agents@,
                chat.pool@[i],
                #[trigger] r@[i],
            ) by {
                if i < j {
                    assert(r@[i] == prev[i]);
                }
            }
        }
        j += 1;
    }
    r
}

/// The user and an assistant of a chat that has exactly one user and some
/// assistant.
fn participants(chat: &Chat) -> (r: Option<(u64, u64)>)
    ensures
        r is Some <==> user_count(chat.agents@) == 1 && has_assistant(chat.agents@),
        r matches Some((u, a)) ==> is_user(chat.agents@, u) && is_assistant(chat.agents@, a),
{
    let mut users: usize = 0;
    let mut user: u64 = 0;
    let mut assistant: Option<u64> = None;
    let mut k: usize = 0;
    while k < chat.agents.len()
        invariant
            k <= chat.agents@.len(),
            users <= k,
            users as nat == user_count(chat.agents@.take(k as int)),
            users > 0 ==> is_user(chat.agents@, user),
            assistant matches Some(a) ==> is_assistant(chat.agents@, a),
            assistant is None ==> forall|i: int|
                0 <= i < k ==> (#[trigger] chat.agents@[i]).role != Role::Assistant,
        decreases chat.agents@.len() - k,
    {
        assert(chat.agents@.take(k + 1).drop_last() =~= chat.agents@.take(k as int));
        let agent = &chat.agents[k];
        match agent.role {
            Role::User => {
                users += 1;
                user = agent.id;
                assert(chat.agents@[k as int].id == user);
            },
            Role::Assistant => {
                if assistant.is_none() {
                    assistant = Some(agent.id);
                    assert(chat.agents@[k as int].id == agent.id);
                }
            },
        }
        k += 1;
    }
    assert(chat.agents@.take(k as int) =~= chat.agents@);
    match assistant {
        Some(a) => {
            assert(has_assistant(chat.agents@)) by {
                let i = choose|i: int|
                    0 <= i < chat.agents@.len() && (#[trigger] chat.agents@[i]).id == a
                        && chat.agents@[i].role == Role::Assistant;
            }
            if users == 1 {
                Some((user, a))
            } else {
                None
            }
        },
        None => None,
    }
}

impl Dispatcher {
    /// The state and the phase agree: busy exactly while a request is in
    /// flight; the chat and the replier of that request exist; while
    /// streaming, the reply is the only partial message, and otherwise there
    /// is none.
    pub open spec fn wf(&self) -> bool {
        &&& self.state.wf()
        &&& self.busy == !(self.phase is Idle)
        &&& !(self.phase is Idle) ==> self.active < self.state.chats@.len() && has_agent(
            self.state.chats@[self.active as int].agents@,
            self.replier,
        )
        &&& self.phase is Dispatching ==> self.state.next_message_id < u64::MAX
        &&& !(self.phase is Streaming) ==> self.state.no_partial()
        &&& self.phase is Streaming ==> self.state.only_partial_at(
            self.active as int,
            self.reply_pos as int,
        ) && self.state.msg(self.active as int, self.reply_pos as int).id == self.reply
    }

    /// An idle dispatcher over a state with no partial message, sending new
    /// requests to chat `chat_id`.
    pub fn new(state: ApplicationState, chat_id: u64) -> (r: Dispatcher)
        requires
            state.wf(),
            state.no_partial(),
        ensures
            r.wf(),
            r.state == state,
            r.phase is Idle,
            !r.busy,
            r.chat_id == chat_id,
            r.notes@.len() == 0,
    {
        Dispatcher {
            state,
            phase: Phase::Idle,
            busy: false,
            chat_id,
            active: 0,
            replier: 0,
            reply: 0,
            reply_pos: 0,
            notes: Vec::new(),
        }
    }

    /// The busy signal as the interface reads it.
    pub fn streaming_reply(&self) -> (r: StreamingReply)
        ensures
            r.0 == self.busy,
    {
        StreamingReply(self.busy)
    }

    /// The chat that new requests go to.
    pub fn chat_id(&self) -> (r: ChatId)
        ensures
            r.0 == self.chat_id,
    {
        ChatId(self.chat_id)
    }

    /// Sends new requests to another chat; only while idle, so that a
    /// request in flight keeps its chat.
    pub fn select_chat(&mut self, id: ChatId) -> (r: bool)
        requires
            old(self).wf(),
        ensures
            final(self).wf(),
            r == (old(self).phase is Idle),
            r ==> *final(self) == (Dispatcher { chat_id: id.0, ..*old(self) }),
            !r ==> *final(self) == *old(self),
    {
        if self.phase == Phase::Idle {
            self.chat_id = id.0;
            true
        } else {
            false
        }
    }

    /// Takes a user submission: while idle, a request that passes the guard
    /// adds the user's message and raises the busy signal; any other request
    /// is dropped; while busy, it is rejected and nothing changes.
    pub fn request(&mut self, text: String) -> (r: Action)
        requires
            old(self).wf(),
        ensures
            final(self).wf(),
            request_step(*old(self), *final(self), text, r),
    {
        if self.phase != Phase::Idle {
            return Action::Rejected;
        }
        if text.as_str().is_empty() || self.state.next_message_id >= u64::MAX - 1 {
            return Action::Nothing;
        }
        let c = match self.state.get_chat(self.chat_id) {
            Some(c) => c,
            None => {
                return Action::Nothing;
            },
        };
        proof {
            assert forall|d: int| chat_at(self.state, self.chat_id, d) implies d == c by {
                if d != c {
                    assert(self.state.chats@[d].id != self.state.chats@[c as int].id);
                }
            }
        }
        let (user, replier) = match participants(&self.state.chats[c]) {
            Some(p) => p,
            None => {
                return Action::Nothing;
            },
        };
        assert(has_agent(self.state.chats@[c as int].agents@, user));
        let ghost o = *old(self);
        let res = self.state.append_message(c, user, text, false);
        let ghost m = Message { id: o.state.next_message_id, sender: user, content: text, partial: false };
        assert(has_agent(o.state.chats@[c as int].agents@, replier));
        match res {
            Ok(_) => {},
            Err(_) => {
                return Action::Nothing;
            },
        }
        proof {
            assert(is_user(o.state.chats@[c as int].agents@, user));
            assert(appended(o.state.chats@[c as int], self.state.chats@[c as int], m));
            let k = choose|k: int|
                0 <= k < o.state.chats@[c as int].agents@.len() && (#[trigger] o.state.chats@[c as int].agents@[k]).id == replier;
            assert(self.state.chats@[c as int].agents@[k].id == replier);
            assert forall|d: int, j: int| self.state.valid_pos(d, j) implies !(
            #[trigger] self.state.msg(d, j)).partial by {
                if d != c || j < o.state.chats@[c as int].pool@.len() {
                    if d == c {
                        assert(self.state.chats@[c as int].pool@[j] == o.state.chats@[c as int].pool@[j]);
                    }
                    assert(!o.state.msg(d, j).partial);
                }
            }
        }
        self.phase = Phase::Dispatching;
        self.busy = true;
        self.active = c;
        self.replier = replier;
        let msgs = conversation(&self.state.chats[c]);
        proof {
            assert(self.state.chats@[c as int].wf());
        }
        Action::Submit(msgs)
    }

    /// Takes a piece of the provider's reply: the first one creates the
    /// assistant's partial message, later ones are appended to it in order.
    pub fn on_content(&mut self, text: String) -> (r: Action)
        requires
            old(self).wf(),
        ensures
            final(self).wf(),
            content_step(*old(self), *final(self), text, r),
    {
        let ghost o = *old(self);
        match self.phase {
            Phase::Dispatching => {
                let c = self.active;
                let res = self.state.append_message(c, self.replier, text, true);
                let id = match res {
                    Ok(id) => id,
                    Err(_) => {
                        return Action::Nothing;
                    },
                };
                let ghost n = o.state.chats@[c as int].pool@.len() as int;
                self.phase = Phase::Streaming;
                self.reply = id;
                self.reply_pos = self.state.chats[c].pool.len() - 1;
                proof {
                    let oc = o.state.chats@[c as int];
                    let nc = self.state.chats@[c as int];
                    assert(self.reply_pos == n);
                    assert(nc.pool@[n].partial && nc.pool@[n].id == id);
                    assert forall|d: int, j: int|
                        self.state.valid_pos(d, j) && (#[trigger] self.state.msg(d, j)).partial implies d
                        == c && j == n by {
                        if d != c || j < n {
                            if d == c {
                                assert(nc.pool@[j] == oc.pool@[j]);
                            }
                            assert(!o.state.msg(d, j).partial);
                        }
                    }
                    let k = choose|k: int|
                        0 <= k < oc.agents@.len() && (#[trigger] oc.agents@[k]).id == o.replier;
                    assert(nc.agents@[k].id == o.replier);
                }
                Action::Nothing
            },
            Phase::Streaming => {
                let res = self.state.append_fragment(self.active, self.reply, text.as_str());
                proof {
                    let c = o.active as int;
                    let p = o.reply_pos as int;
                    assert(o.state.msg(c, p).id == o.reply && o.state.msg(c, p).partial);
                    assert forall|j: int|
                        o.state.valid_pos(c, j) && (#[trigger] o.state.msg(c, j)).id == o.reply implies j
                        == p by {
                        assert(o.state.msg(c, j).id == o.state.msg(c, p).id);
                    }
                }
                match res {
                    Ok(()) => {},
                    Err(_) => {
                        return Action::Nothing;
                    },
                }
                proof {
                    let c = o.active as int;
                    let p = o.reply_pos as int;
                    assert forall|d: int, j: int|
                        self.state.valid_pos(d, j) && (#[trigger] self.state.msg(d, j)).partial implies d
                        == c && j == p by {
                        if d != c || j != p {
                            if d == c {
                                assert(self.state.chats@[c].pool@[j] == o.state.chats@[c].pool@[j]);
                            }
                            assert(o.state.msg(d, j).partial);
                        }
                    }
                }
                Action::Nothing
            },
            _ => Action::Nothing,
        }
    }

    /// Makes the streaming reply final, keeping what arrived of it.
    fn finish_reply(&mut self)
        requires
            old(self).wf(),
            old(self).phase is Streaming,
        ensures
            final(self).state.no_partial(),
            final(self).state.wf(),
            final(self).state.next_message_id == old(self).state.next_message_id,
            other_chats_kept(old(self).state, final(self).state, old(self).active as int),
            message_changed(
                old(self).state.chats@[old(self).active as int],
                final(self).state.chats@[old(self).active as int],
                old(self).reply_pos as int,
                false,
            ),
            final(self).state.msg(old(self).active as int, old(self).reply_pos as int).content
                == old(self).state.msg(old(self).active as int, old(self).reply_pos as int).content,
            *final(self) == (Dispatcher { state: final(self).state, ..*old(self) }),
    {
        let ghost o = *old(self);
        let res = self.state.finalize(self.active, self.reply);
        proof {
            let c = o.active as int;
            let p = o.reply_pos as int;
            assert(o.state.msg(c, p).id == o.reply && o.state.msg(c, p).partial);
            assert(in_pool(o.state.chats@[c].pool@, o.reply));
            assert forall|j: int|
                o.state.valid_pos(c, j) && (#[trigger] o.state.msg(c, j)).id == o.reply implies j
                == p by {
                assert(o.state.msg(c, j).id == o.state.msg(c, p).id);
            }
            assert(res is Ok);
            assert forall|d: int, j: int| self.state.valid_pos(d, j) implies !(
            #[trigger] self.state.msg(d, j)).partial by {
                if d != c || j != p {
                    if d == c {
                        assert(self.state.chats@[c].pool@[j] == o.state.chats@[c].pool@[j]);
                    }
                    assert(o.state.msg(d, j).partial ==> d == c && j == p);
                }
            }
        }
    }

    /// Takes the end of the provider's stream: the reply is made final and
    /// the state is to be saved.
    pub fn on_end(&mut self) -> (r: Action)
        requires
            old(self).wf(),
        ensures
            final(self).wf(),
            end_step(*old(self), *final(self), r),
    {
        match self.phase {
            Phase::Dispatching => {
                self.phase = Phase::Finalizing;
                Action::Persist
            },
            Phase::Streaming => {
                self.finish_reply();
                self.phase = Phase::Finalizing;
                Action::Persist
            },
            _ => Action::Nothing,
        }
    }

    /// Takes a provider failure: it is noted, a streaming reply is made
    /// final, and the dispatcher is idle again.
    pub fn on_failed(&mut self, e: ProviderError) -> (r: Action)
        requires
            old(self).wf(),
        ensures
            final(self).wf(),
            failed_step(*old(self), *final(self), e, r),
    {
        match self.phase {
            Phase::Dispatching => {
                self.notes.push(e);
                self.phase = Phase::Idle;
                self.busy = false;
                Action::Nothing
            },
            Phase::Streaming => {
                self.finish_reply();
                self.notes.push(e);
                self.phase = Phase::Idle;
                self.busy = false;
                Action::Nothing
            },
            _ => Action::Nothing,
        }
    }

    /// Takes the news that the state was saved, or failed to be: either way
    /// the request is over and the busy signal drops.
    pub fn on_saved(&mut self) -> (r: Action)
        requires
            old(self).wf(),
        ensures
            final(self).wf(),
            saved_step(*old(self), *final(self), r),
    {
        if self.phase == Phase::Finalizing {
            self.phase = Phase::Idle;
            self.busy = false;
        }
        Action::Nothing
    }

    /// Takes one event.
    pub fn handle(&mut self, event: Event) -> (r: Action)
        requires
            old(self).wf(),
        ensures
            final(self).wf(),
            step(*old(self), *final(self), event, r),
    {
        match event {
            Event::Request(text) => self.request(text),
            Event::Content(text) => self.on_content(text),
            Event::End => self.on_end(),
            Event::Failed(e) => self.on_failed(e),
            Event::Saved => self.on_saved(),
        }
    }
}

/// No event changes how often the application was started.
pub proof fn lemma_step_keeps_run_count(o: Dispatcher, n: Dispatcher, event: Event, r: Action)
    requires
        o.wf(),
        step(o, n, event, r),
    ensures
        n.state.run_count == o.state.run_count,
{
}

/// Any two messages of the store have distinct ids.
pub proof fn lemma_message_ids_distinct(d: Dispatcher)
    requires
        d.wf(),
    ensures
        forall|c1: int, j1: int, c2: int, j2: int|
            d.state.valid_pos(c1, j1) && d.state.valid_pos(c2, j2) && (c1 != c2 || j1 != j2) ==> (
            #[trigger] d.state.msg(c1, j1)).id != (#[trigger] d.state.msg(c2, j2)).id,
{
}

/// At most one message of the whole store is partial, and none is unless a
/// reply is streaming.
pub proof fn lemma_at_most_one_partial(d: Dispatcher)
    requires
        d.wf(),
    ensures
        forall|c1: int, j1: int, c2: int, j2: int|
            d.state.valid_pos(c1, j1) && d.state.valid_pos(c2, j2) && (#[trigger] d.state.msg(
                c1,
                j1,
            )).partial && (#[trigger] d.state.msg(c2, j2)).partial ==> c1 == c2 && j1 == j2,
        !(d.phase is Streaming) ==> d.state.no_partial(),
{
}

/// A request that arrives while another is dispatching or streaming adds no
/// message and leaves the busy signal raised.
pub proof fn lemma_busy_rejects(o: Dispatcher, n: Dispatcher, text: String, r: Action)
    requires
        o.wf(),
        o.phase is Dispatching || o.phase is Streaming,
        step(o, n, Event::Request(text), r),
    ensures
        r is Rejected,
        n.state == o.state,
        n.busy,
{
}

/// A provider failure before any reply leaves the transcript as it was,
/// holding the user's message and no reply, and the next valid request is
/// accepted.
pub proof fn lemma_failure_then_accepts(
    o: Dispatcher,
    n: Dispatcher,
    m: Dispatcher,
    e: ProviderError,
    text: String,
    r1: Action,
    r2: Action,
)
    requires
        o.wf(),
        o.phase is Dispatching,
        step(o, n, Event::Failed(e), r1),
        request_ok(n.state, n.chat_id, text@),
        step(n, m, Event::Request(text), r2),
    ensures
        n.state == o.state,
        n.phase is Idle,
        !n.busy,
        m.phase is Dispatching,
        r2 is Submit,
{
}

/// One request cycle with no failure (request, first piece of the reply, end
/// of the stream, state saved) adds exactly two messages to the chat, the
/// user's and then the final reply, under the next two ids, and ends idle.
pub proof fn lemma_request_cycle(
    d0: Dispatcher,
    d1: Dispatcher,
    d2: Dispatcher,
    d3: Dispatcher,
    d4: Dispatcher,
    text: String,
    piece: String,
    r1: Action,
    r2: Action,
    r3: Action,
    r4: Action,
)
    requires
        d0.wf(),
        d0.phase is Idle,
        request_ok(d0.state, d0.chat_id, text@),
        step(d0, d1, Event::Request(text), r1),
        step(d1, d2, Event::Content(piece), r2),
        step(d2, d3, Event::End, r3),
        step(d3, d4, Event::Saved, r4),
    ensures
        d4.phase is Idle,
        !d4.busy,
        d4.state.next_message_id == d0.state.next_message_id + 2,
        d4.state.chats@.len() == d0.state.chats@.len(),
        d4.chat_id == d0.chat_id,
        chat_at(d0.state, d0.chat_id, d1.active as int),
        d4.state.chats@[d1.active as int].id == d0.state.chats@[d1.active as int].id,
        forall|c: int|
            0 <= c < d0.state.chats@.len() && c != d1.active ==> #[trigger] d4.state.chats@[c]
                == d0.state.chats@[c],
        exists|u: u64|
            is_user(d0.state.chats@[d1.active as int].agents@, u) && #[trigger] d4.state.chats@[d1.active as int].pool@
                == d0.state.chats@[d1.active as int].pool@.push(
                Message { id: d0.state.next_message_id, sender: u, content: text, partial: false },
            ).push(
                Message {
                    id: (d0.state.next_message_id + 1) as u64,
                    sender: d1.replier,
                    content: piece,
                    partial: false,
                },
            ),
{
    let c = d1.active as int;
    let p = d2.reply_pos as int;
    let u = choose|u: u64|
        is_user(d0.state.chats@[c].agents@, u) && #[trigger] appended(
            d0.state.chats@[c],
            d1.state.chats@[c],
            Message { id: d0.state.next_message_id, sender: u, content: text, partial: false },
        );
    let n1 = d1.state.chats@[c].pool@.len() as int;
    assert(d1.phase is Dispatching);
    assert(d2.phase is Streaming);
    assert(p == n1);
    assert(d3.phase is Finalizing);
    assert(d4.state == d3.state);
    assert(d2.state.chats@[c].pool@.len() == n1 + 1);
    assert forall|j: int| 0 <= j < n1 + 1 && j != n1 implies d4.state.chats@[c].pool@[j]
        == d2.state.chats@[c].pool@[j] by {
        assert(d3.state.chats@[c].pool@[j] == d2.state.chats@[c].pool@[j]);
    }
    assert(d4.state.chats@[c].pool@[n1] == Message {
        id: (d0.state.next_message_id + 1) as u64,
        sender: d1.replier,
        content: piece,
        partial: false,
    });
    assert(d4.state.chats@[c].pool@ =~= d0.state.chats@[c].pool@.push(
        Message { id: d0.state.next_message_id, sender: u, content: text, partial: false },
    ).push(
        Message {
            id: (d0.state.next_message_id + 1) as u64,
            sender: d1.replier,
            content: piece,
            partial: false,
        },
    ));
}

/// `ds` and `rs` are the states and answers of failure-free request cycles
/// with these user texts and one-piece replies: each request passes the
/// guard, the provider sends its piece and ends, and the state is saved.
pub open spec fn served_run(
    ds: Seq<Dispatcher>,
    rs: Seq<Action>,
    texts: Seq<String>,
    pieces: Seq<String>,
) -> bool
    decreases texts.len(),
{
    if texts.len() == 0 {
        ds.len() == 1 && rs.len() == 0 && pieces.len() == 0
    } else {
        &&& ds.len() >= 5
        &&& rs.len() >= 4
        &&& pieces.len() == texts.len()
        &&& request_ok(ds[0].state, ds[0].chat_id, texts[0]@)
        &&& step(ds[0], ds[1], Event::Request(texts[0]), rs[0])
        &&& step(ds[1], ds[2], Event::Content(pieces[0]), rs[1])
        &&& step(ds[2], ds[3], Event::End, rs[2])
        &&& step(ds[3], ds[4], Event::Saved, rs[3])
        &&& served_run(
            ds.subrange(4, ds.len() as int),
            rs.subrange(4, rs.len() as int),
            texts.drop_first(),
            pieces.drop_first(),
        )
    }
}

/// At `pos` of `pool` stand the final user message `text` under id `id` and
/// right after it the final reply `piece` under the next id.
pub open spec fn served_pair(pool: Seq<Message>, pos: int, id: int, text: String, piece: String) -> bool {
    &&& pool[pos].id == id
    &&& pool[pos].content == text
    &&& !pool[pos].partial
    &&& pool[pos + 1].id == id + 1
    &&& pool[pos + 1].content == piece
    &&& !pool[pos + 1].partial
}

/// N requests served while idle with no provider failure add exactly 2N
/// messages to the chat, the user's text and its reply alternating in the
/// order of submission, under fresh consecutive ids; all else stays.
pub proof fn lemma_requests_add_two_each(
    ds: Seq<Dispatcher>,
    rs: Seq<Action>,
    texts: Seq<String>,
    pieces: Seq<String>,
    c: int,
)
    requires
        ds.len() > 0,
        ds[0].phase is Idle,
        chat_at(ds[0].state, ds[0].chat_id, c),
        forall|i: int| 0 <= i < ds.len() ==> (#[trigger] ds[i]).wf(),
        served_run(ds, rs, texts, pieces),
    ensures
        ds.last().phase is Idle,
        ds.last().chat_id == ds[0].chat_id,
        ds.last().state.chats@.len() == ds[0].state.chats@.len(),
        ds.last().state.chats@[c].id == ds[0].state.chats@[c].id,
        forall|d: int|
            0 <= d < ds[0].state.chats@.len() && d != c ==> #[trigger] ds.last().state.chats@[d]
                == ds[0].state.chats@[d],
        ds.last().state.next_message_id == ds[0].state.next_message_id + 2 * texts.len(),
        ds.last().state.chats@[c].pool@.len() == ds[0].state.chats@[c].pool@.len() + 2
            * texts.len(),
        forall|j: int|
            0 <= j < ds[0].state.chats@[c].pool@.len() ==> #[trigger] ds.last().state.chats@[c].pool@[j]
                == ds[0].state.chats@[c].pool@[j],
        forall|k: int|
            0 <= k < texts.len() ==> #[trigger] served_pair(
                ds.last().state.chats@[c].pool@,
                ds[0].state.chats@[c].pool@.len() + 2 * k,
                ds[0].state.next_message_id + 2 * k,
                texts[k],
                pieces[k],
            ),
    decreases texts.len(),
{
    if texts.len() > 0 {
        let d0 = ds[0];
        lemma_request_cycle(
            ds[0],
            ds[1],
            ds[2],
            ds[3],
            ds[4],
            texts[0],
            pieces[0],
            rs[0],
            rs[1],
            rs[2],
            rs[3],
        );
        let a = ds[1].active as int;
        if a != c {
            assert(d0.state.chats@[a].id != d0.state.chats@[c].id);
        }
        let rest = ds.subrange(4, ds.len() as int);
        assert(rest[0] == ds[4]);
        assert forall|i: int| 0 <= i < rest.len() implies (#[trigger] rest[i]).wf() by {
            assert(rest[i] == ds[i + 4]);
        }
        lemma_requests_add_two_each(
            rest,
            rs.subrange(4, rs.len() as int),
            texts.drop_first(),
            pieces.drop_first(),
            c,
        );
        assert(rest.last() == ds.last());
        let base = d0.state.chats@[c].pool@.len() as int;
        let u = choose|u: u64|
            is_user(d0.state.chats@[c].agents@, u) && #[trigger] ds[4].state.chats@[c].pool@
                == d0.state.chats@[c].pool@.push(
                Message { id: d0.state.next_message_id, sender: u, content: texts[0], partial: false },
            ).push(
                Message {
                    id: (d0.state.next_message_id + 1) as u64,
                    sender: ds[1].replier,
                    content: pieces[0],
                    partial: false,
                },
            );
        let mid_pool = ds[4].state.chats@[c].pool@;
        let pl = ds.last().state.chats@[c].pool@;
        assert forall|j: int| 0 <= j < base implies #[trigger] pl[j] == d0.state.chats@[c].pool@[j] by {
            assert(pl[j] == mid_pool[j]);
        }
        assert forall|k: int| 0 <= k < texts.len() implies #[trigger] served_pair(
            pl,
            base + 2 * k,
            d0.state.next_message_id + 2 * k,
            texts[k],
            pieces[k],
        ) by {
            if k == 0 {
                assert(pl[base] == mid_pool[base]);
                assert(pl[base + 1] == mid_pool[base + 1]);
            } else {
                let k1 = k - 1;
                assert(texts.drop_first()[k1] == texts[k]);
                assert(pieces.drop_first()[k1] == pieces[k]);
                assert(served_pair(
                    pl,
                    (base + 2) + 2 * k1,
                    ds[4].state.next_message_id + 2 * k1,
                    texts.drop_first()[k1],
                    pieces.drop_first()[k1],
                ));
            }
        }
    }
}

} // verus!
