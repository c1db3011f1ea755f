//! Request orchestration core of a multi-agent chat client: the transcript
//! model, the request dispatcher state machine, and the provider message model.

pub mod agents;
pub mod dispatcher;
pub mod session;
pub mod transcript;
pub mod utils;
