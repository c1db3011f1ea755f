use chitchai::agents::{Agent, AgentName, Role};
use chitchai::transcript::{ApplicationState, Chat, StoreError};
use chitchai::utils::{assistant_msg, sys_msg, user_msg, ProviderRole};

fn agents() -> Vec<Agent> {
    vec![
        Agent::new(10, Role::User, AgentName::Named("me".to_string())),
        Agent::new(20, Role::Assistant, AgentName::AssistantDefault),
    ]
}

fn store() -> ApplicationState {
    let mut s = ApplicationState::new();
    s.add_chat(Chat::new(1, agents()).unwrap()).unwrap();
    s.add_chat(Chat::new(2, agents()).unwrap()).unwrap();
    s
}

#[test]
fn new_store_is_empty() {
    let s = ApplicationState::new();
    assert!(s.chats.is_empty());
    assert_eq!(s.run_count, 0);
    assert_eq!(s.next_message_id, 0);
}

#[test]
fn chat_needs_exactly_one_user() {
    let mut a = agents();
    a.push(Agent::new(30, Role::User, AgentName::UserDefault));
    assert_eq!(Chat::new(1, a).unwrap_err(), StoreError::InvalidAgents);
    let only_bot = vec![Agent::new(20, Role::Assistant, AgentName::AssistantDefault)];
    assert_eq!(Chat::new(1, only_bot).unwrap_err(), StoreError::InvalidAgents);
}

#[test]
fn chat_needs_an_assistant() {
    let only_user = vec![Agent::new(10, Role::User, AgentName::UserDefault)];
    assert_eq!(Chat::new(1, only_user).unwrap_err(), StoreError::InvalidAgents);
}

#[test]
fn chat_refuses_repeated_agent_ids_and_misfit_names() {
    let repeated = vec![
        Agent::new(10, Role::User, AgentName::UserDefault),
        Agent::new(10, Role::Assistant, AgentName::AssistantDefault),
    ];
    assert_eq!(Chat::new(1, repeated).unwrap_err(), StoreError::InvalidAgents);
    let misfit = vec![
        Agent::new(10, Role::User, AgentName::AssistantDefault),
        Agent::new(20, Role::Assistant, AgentName::AssistantDefault),
    ];
    assert_eq!(Chat::new(1, misfit).unwrap_err(), StoreError::InvalidAgents);
}

#[test]
fn duplicate_chat_is_refused() {
    let mut s = store();
    assert_eq!(s.add_chat(Chat::new(1, agents()).unwrap()), Err(StoreError::DuplicateChat));
    assert_eq!(s.chats.len(), 2);
    assert_eq!(s.get_chat(2), Some(1));
    assert_eq!(s.get_chat(3), None);
}

#[test]
fn append_message_uses_fresh_ids_across_chats() {
    let mut s = store();
    assert_eq!(s.append_message(0, 10, "a".to_string(), false), Ok(0));
    assert_eq!(s.append_message(1, 10, "b".to_string(), false), Ok(1));
    assert_eq!(s.append_message(0, 20, "c".to_string(), false), Ok(2));
    assert_eq!(s.next_message_id, 3);
    assert_eq!(s.chats[0].pool.len(), 2);
    assert_eq!(s.chats[1].pool.len(), 1);
    assert_eq!(s.chats[0].agents[0].history, vec![0, 2]);
    assert_eq!(s.chats[0].agents[1].history, vec![0, 2]);
    assert_eq!(s.chats[1].agents[0].history, vec![1]);
    assert_eq!(s.get_message(0, 2), Some(1));
    assert_eq!(s.get_message(1, 2), None);
}

#[test]
fn append_message_from_unknown_agent_is_refused() {
    let mut s = store();
    assert_eq!(s.append_message(0, 99, "a".to_string(), false), Err(StoreError::UnknownAgent));
    assert!(s.chats[0].pool.is_empty());
    assert_eq!(s.next_message_id, 0);
}

#[test]
fn append_message_without_ids_left_is_refused() {
    let mut s = store();
    s.next_message_id = u64::MAX;
    assert_eq!(s.append_message(0, 10, "a".to_string(), false), Err(StoreError::IdsExhausted));
    assert!(s.chats[0].pool.is_empty());
}

#[test]
fn fragments_append_then_finalize() {
    let mut s = store();
    let id = s.append_message(0, 20, "Hel".to_string(), true).unwrap();
    assert_eq!(s.append_fragment(0, id, "lo"), Ok(()));
    assert_eq!(s.chats[0].pool[0].content, "Hello");
    assert_eq!(s.finalize(0, id), Ok(()));
    assert!(!s.chats[0].pool[0].partial);
    assert_eq!(s.chats[0].pool[0].id, id);
    assert_eq!(s.chats[0].pool[0].content, "Hello");
}

#[test]
fn fragment_for_final_or_unknown_message_is_refused() {
    let mut s = store();
    let id = s.append_message(0, 20, "done".to_string(), false).unwrap();
    assert_eq!(s.append_fragment(0, id, "more"), Err(StoreError::UnknownMessage));
    assert_eq!(s.append_fragment(0, 77, "more"), Err(StoreError::UnknownMessage));
    assert_eq!(s.append_fragment(1, id, "more"), Err(StoreError::UnknownMessage));
    assert_eq!(s.chats[0].pool[0].content, "done");
}

#[test]
fn finalize_twice_is_refused() {
    let mut s = store();
    let id = s.append_message(0, 20, "x".to_string(), true).unwrap();
    assert_eq!(s.finalize(0, id), Ok(()));
    assert_eq!(s.finalize(0, id), Err(StoreError::AlreadyFinal));
    assert_eq!(s.finalize(0, 55), Err(StoreError::UnknownMessage));
}

#[test]
fn start_run_counts_starts() {
    let mut s = store();
    s.start_run();
    s.start_run();
    assert_eq!(s.run_count, 2);
    assert_eq!(s.chats.len(), 2);
}

#[test]
fn provider_messages_carry_role_and_name() {
    let m = sys_msg("be brief".to_string());
    assert_eq!(m.role, ProviderRole::System);
    assert_eq!(m.content, "be brief");
    assert_eq!(m.name, None);
    let m = user_msg("hi".to_string(), AgentName::Named("ann".to_string()));
    assert_eq!(m.role, ProviderRole::User);
    assert_eq!(m.name, Some("ann".to_string()));
    let m = user_msg("hi".to_string(), AgentName::UserDefault);
    assert_eq!(m.name, None);
    let m = assistant_msg("yo".to_string(), AgentName::AssistantDefault);
    assert_eq!(m.role, ProviderRole::Assistant);
    assert_eq!(m.content, "yo");
    assert_eq!(m.name, None);
}
