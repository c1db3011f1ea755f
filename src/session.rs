use vstd::prelude::*;

use crate::transcript::ApplicationState;

verus! {

/// The id of the chat that the user is looking at.
#[derive(Clone, Copy, Debug, PartialEq, Eq, Structural)]
pub struct ChatId(pub u64);

/// The busy signal: raised while a reply is being requested or streamed.
#[derive(Clone, Copy, Debug, PartialEq, Eq, Structural)]
pub struct StreamingReply(pub bool);

/// Events of the application shell that do not touch the transcript.
#[non_exhaustive]
#[derive(Clone, Copy, Debug, PartialEq, Eq, Structural)]
pub enum AppEvents {
    ToggleSettingsSidebar,
}

/// What the application shell starts from.
#[derive(Debug)]
pub struct AppProps {
    pub stored_states: ApplicationState,
}

} // verus!
