use chitchai::agents::{Agent, AgentName, Role};
use chitchai::session::{ChatId, StreamingReply};
use chitchai::dispatcher::{conversation, Action, Dispatcher, Event, Phase, ProviderError};
use chitchai::transcript::{ApplicationState, Chat, Message};
use chitchai::utils::ProviderRole;

const CHAT: u64 = 7;
const USER: u64 = 1;
const BOT: u64 = 2;

fn two_agents() -> Vec<Agent> {
    vec![
        Agent::new(USER, Role::User, AgentName::UserDefault),
        Agent::new(BOT, Role::Assistant, AgentName::Named("helper".to_string())),
    ]
}

fn dispatcher() -> Dispatcher {
    let mut state = ApplicationState::new();
    let chat = Chat::new(CHAT, two_agents()).unwrap();
    assert_eq!(state.add_chat(chat), Ok(0));
    Dispatcher::new(state, CHAT)
}

fn pool(d: &Dispatcher) -> &Vec<Message> {
    &d.state.chats[0].pool
}

fn partial_count(d: &Dispatcher) -> usize {
    d.state
        .chats
        .iter()
        .map(|c| c.pool.iter().filter(|m| m.partial).count())
        .sum()
}

fn content(s: &str) -> Event {
    Event::Content(s.to_string())
}

fn request(s: &str) -> Event {
    Event::Request(s.to_string())
}

#[test]
fn fragments_join_into_one_final_message() {
    let mut d = dispatcher();
    assert!(matches!(d.handle(request("hi")), Action::Submit(_)));
    d.handle(content("Hel"));
    let id = pool(&d)[1].id;
    assert_eq!(pool(&d)[1].content, "Hel");
    assert!(pool(&d)[1].partial);
    d.handle(content("lo"));
    assert_eq!(pool(&d)[1].id, id);
    assert_eq!(pool(&d)[1].content, "Hello");
    assert!(matches!(d.handle(Event::End), Action::Persist));
    assert_eq!(pool(&d)[1].id, id);
    assert_eq!(pool(&d)[1].content, "Hello");
    assert!(!pool(&d)[1].partial);
    assert_eq!(d.phase, Phase::Finalizing);
    assert!(d.busy);
    assert!(matches!(d.handle(Event::Saved), Action::Nothing));
    assert_eq!(d.phase, Phase::Idle);
    assert!(!d.busy);
}

#[test]
fn requests_while_idle_add_two_messages_each() {
    let mut d = dispatcher();
    let texts = ["one", "two", "three"];
    for t in texts.iter() {
        assert!(matches!(d.handle(request(t)), Action::Submit(_)));
        d.handle(content("re: "));
        d.handle(content(t));
        d.handle(Event::End);
        d.handle(Event::Saved);
    }
    let p = pool(&d);
    assert_eq!(p.len(), 2 * texts.len());
    for (i, t) in texts.iter().enumerate() {
        assert_eq!(p[2 * i].sender, USER);
        assert_eq!(p[2 * i].content, *t);
        assert_eq!(p[2 * i + 1].sender, BOT);
        assert_eq!(p[2 * i + 1].content, format!("re: {}", t));
    }
    for i in 0..p.len() {
        for j in 0..p.len() {
            if i != j {
                assert_ne!(p[i].id, p[j].id);
            }
        }
    }
    let history: Vec<u64> = p.iter().map(|m| m.id).collect();
    for agent in d.state.chats[0].agents.iter() {
        assert_eq!(agent.history, history);
    }
}

#[test]
fn request_while_dispatching_is_rejected() {
    let mut d = dispatcher();
    d.handle(request("first"));
    assert_eq!(d.phase, Phase::Dispatching);
    assert!(matches!(d.handle(request("second")), Action::Rejected));
    assert_eq!(pool(&d).len(), 1);
    assert!(d.busy);
    assert_eq!(d.phase, Phase::Dispatching);
}

#[test]
fn request_while_streaming_is_rejected() {
    let mut d = dispatcher();
    d.handle(request("first"));
    d.handle(content("par"));
    assert!(matches!(d.handle(request("second")), Action::Rejected));
    assert_eq!(pool(&d).len(), 2);
    assert_eq!(pool(&d)[1].content, "par");
    assert!(d.busy);
    assert_eq!(d.phase, Phase::Streaming);
}

#[test]
fn run_count_grows_by_one_per_start() {
    let mut state = ApplicationState::new();
    state.add_chat(Chat::new(CHAT, two_agents()).unwrap()).unwrap();
    state.start_run();
    assert_eq!(state.run_count, 1);
    let mut d = Dispatcher::new(state, CHAT);
    for t in ["a", "b"].iter() {
        d.handle(request(t));
        d.handle(content("x"));
        d.handle(Event::End);
        d.handle(Event::Saved);
    }
    d.handle(request("c"));
    d.handle(Event::Failed(ProviderError::RateLimited));
    assert_eq!(d.state.run_count, 1);
    let mut state = d.state;
    state.start_run();
    assert_eq!(state.run_count, 2);
}

#[test]
fn failure_before_reply_keeps_user_message_only() {
    let mut d = dispatcher();
    d.handle(request("hello"));
    assert!(matches!(d.handle(Event::Failed(ProviderError::NetworkError)), Action::Nothing));
    assert_eq!(pool(&d).len(), 1);
    assert_eq!(pool(&d)[0].sender, USER);
    assert_eq!(pool(&d)[0].content, "hello");
    assert_eq!(d.phase, Phase::Idle);
    assert!(!d.busy);
    assert_eq!(d.notes, vec![ProviderError::NetworkError]);
    assert!(matches!(d.handle(request("again")), Action::Submit(_)));
    assert_eq!(d.phase, Phase::Dispatching);
    assert_eq!(pool(&d).len(), 2);
}

#[test]
fn failure_mid_stream_keeps_what_arrived() {
    let mut d = dispatcher();
    d.handle(request("hello"));
    d.handle(content("half"));
    d.handle(Event::Failed(ProviderError::MalformedResponse));
    assert_eq!(pool(&d).len(), 2);
    assert_eq!(pool(&d)[1].content, "half");
    assert!(!pool(&d)[1].partial);
    assert_eq!(d.phase, Phase::Idle);
    assert!(!d.busy);
    assert_eq!(d.notes, vec![ProviderError::MalformedResponse]);
}

#[test]
fn at_most_one_partial_message() {
    let mut d = dispatcher();
    let events = vec![
        request("a"),
        content("1"),
        request("rejected"),
        content("2"),
        Event::End,
        request("rejected too"),
        Event::Saved,
        request("b"),
        content("3"),
        Event::Failed(ProviderError::AuthError),
        request("c"),
        content("4"),
        Event::End,
        Event::Saved,
    ];
    for e in events {
        d.handle(e);
        assert!(partial_count(&d) <= 1);
        assert_eq!(partial_count(&d) == 1, d.phase == Phase::Streaming);
    }
    assert_eq!(partial_count(&d), 0);
}

#[test]
fn empty_request_is_dropped() {
    let mut d = dispatcher();
    assert!(matches!(d.handle(request("")), Action::Nothing));
    assert_eq!(pool(&d).len(), 0);
    assert_eq!(d.phase, Phase::Idle);
    assert!(!d.busy);
}

#[test]
fn request_to_unknown_chat_is_dropped() {
    let mut state = ApplicationState::new();
    state.add_chat(Chat::new(CHAT, two_agents()).unwrap()).unwrap();
    let mut d = Dispatcher::new(state, CHAT + 1);
    assert!(matches!(d.handle(request("hi")), Action::Nothing));
    assert_eq!(pool(&d).len(), 0);
    assert!(!d.busy);
}

#[test]
fn request_to_chat_with_two_users_is_dropped() {
    let mut state = ApplicationState::new();
    let mut agents = two_agents();
    agents.push(Agent::new(3, Role::User, AgentName::Named("other".to_string())));
    state.chats.push(Chat { id: CHAT, agents, pool: Vec::new() });
    let mut d = Dispatcher::new(state, CHAT);
    assert!(matches!(d.handle(request("hi")), Action::Nothing));
    assert_eq!(pool(&d).len(), 0);
    assert_eq!(d.phase, Phase::Idle);
}

#[test]
fn stray_provider_events_while_idle_change_nothing() {
    let mut d = dispatcher();
    assert!(matches!(d.handle(content("x")), Action::Nothing));
    assert!(matches!(d.handle(Event::End), Action::Nothing));
    assert!(matches!(d.handle(Event::Failed(ProviderError::NetworkError)), Action::Nothing));
    assert!(matches!(d.handle(Event::Saved), Action::Nothing));
    assert_eq!(pool(&d).len(), 0);
    assert_eq!(d.phase, Phase::Idle);
    assert!(d.notes.is_empty());
}

#[test]
fn empty_reply_goes_to_finalizing() {
    let mut d = dispatcher();
    d.handle(request("hi"));
    assert!(matches!(d.handle(Event::End), Action::Persist));
    assert_eq!(d.phase, Phase::Finalizing);
    assert_eq!(pool(&d).len(), 1);
    d.handle(Event::Saved);
    assert!(!d.busy);
}

#[test]
fn submitted_conversation_follows_the_pool() {
    let mut d = dispatcher();
    d.handle(request("q1"));
    d.handle(content("a1"));
    d.handle(Event::End);
    d.handle(Event::Saved);
    match d.handle(request("q2")) {
        Action::Submit(msgs) => {
            assert_eq!(msgs.len(), 3);
            assert_eq!(msgs[0].role, ProviderRole::User);
            assert_eq!(msgs[0].content, "q1");
            assert_eq!(msgs[0].name, None);
            assert_eq!(msgs[1].role, ProviderRole::Assistant);
            assert_eq!(msgs[1].content, "a1");
            assert_eq!(msgs[1].name, Some("helper".to_string()));
            assert_eq!(msgs[2].role, ProviderRole::User);
            assert_eq!(msgs[2].content, "q2");
        }
        _ => panic!("request not accepted"),
    }
    assert_eq!(conversation(&d.state.chats[0]).len(), 3);
}

#[test]
fn chat_can_be_switched_only_while_idle() {
    let mut state = ApplicationState::new();
    state.add_chat(Chat::new(CHAT, two_agents()).unwrap()).unwrap();
    state.add_chat(Chat::new(CHAT + 1, two_agents()).unwrap()).unwrap();
    let mut d = Dispatcher::new(state, CHAT);
    assert_eq!(d.chat_id(), ChatId(CHAT));
    assert_eq!(d.streaming_reply(), StreamingReply(false));
    assert!(d.select_chat(ChatId(CHAT + 1)));
    d.handle(request("to the second chat"));
    assert_eq!(d.streaming_reply(), StreamingReply(true));
    assert!(!d.select_chat(ChatId(CHAT)));
    assert_eq!(d.chat_id(), ChatId(CHAT + 1));
    d.handle(content("ok"));
    d.handle(Event::End);
    d.handle(Event::Saved);
    assert_eq!(d.state.chats[0].pool.len(), 0);
    assert_eq!(d.state.chats[1].pool.len(), 2);
    assert!(d.select_chat(ChatId(CHAT)));
}
