//! The message types of the backend: inbound commands, outbound relay
//! messages, mailbox items, dispatch actions and the error taxonomy.

use vstd::prelude::*;

verus! {

/// Who authored a memory entry.
#[derive(Clone, Copy, Debug, PartialEq, Eq, Structural)]
pub enum Role {
    System,
    User,
    Assistant,
}

/// One entry of a session's accumulated message history.
#[derive(Debug)]
pub struct Message {
    pub role: Role,
    pub content: String,
}

impl Clone for Message {
    /// An equal copy.
    fn clone(&self) -> (r: Message)
        ensures
            r == *self,
    {
        Message { role: self.role, content: self.content.clone() }
    }
}

/// Mathematical value of a `Message`.
pub struct MessageView {
    pub role: Role,
    pub content: Seq<char>,
}

impl View for Message {
    type V = MessageView;

    open spec fn view(&self) -> MessageView {
        MessageView { role: self.role, content: self.content@ }
    }
}

/// The configuration a session is built from. The model session itself is an
/// external collaborator; all the backend reads of its configuration is the
/// initial prompt it is seeded with.
#[derive(Debug)]
pub struct SessionConfig {
    pub init_prompt: String,
}

impl Clone for SessionConfig {
    /// An equal copy.
    fn clone(&self) -> (r: SessionConfig)
        ensures
            r == *self,
    {
        SessionConfig { init_prompt: self.init_prompt.clone() }
    }
}

/// Mathematical value of a `SessionConfig`.
pub struct ConfigView {
    pub init_prompt: Seq<char>,
}

impl View for SessionConfig {
    type V = ConfigView;

    open spec fn view(&self) -> ConfigView {
        ConfigView { init_prompt: self.init_prompt@ }
    }
}

/// A command from the client to the backend. `session_name` must reference an
/// existing, live session for `StartStreamedCompletion` and `PushMemory`,
/// else dispatch reports a routing error.
#[derive(Clone, Debug)]
pub enum BackendCommand {
    StartStreamedCompletion { session_name: String, prompt: String },
    CreateSession { name: String, config: SessionConfig },
    RemoveSession { name: String },
    PushMemory { session_name: String, message: Message },
}

/// A tagged message from the backend to the consumer, carried on the
/// outbound relay. For a given session, all `StreamToken` messages of one
/// completion precede its `StreamDone`, in the order the fragments were
/// emitted.
#[derive(Clone, Debug)]
pub enum FrontendRequest {
    StreamToken { session_name: String, token: String },
    StreamDone { session_name: String },
    SessionCreated { session_name: String },
}

/// Mathematical value of a `FrontendRequest`.
pub enum FrontendRequestView {
    StreamToken { session_name: Seq<char>, token: Seq<char> },
    StreamDone { session_name: Seq<char> },
    SessionCreated { session_name: Seq<char> },
}

impl View for FrontendRequest {
    type V = FrontendRequestView;

    open spec fn view(&self) -> FrontendRequestView {
        match self {
            FrontendRequest::StreamToken { session_name, token } => {
                FrontendRequestView::StreamToken { session_name: session_name@, token: token@ }
            },
            FrontendRequest::StreamDone { session_name } => {
                FrontendRequestView::StreamDone { session_name: session_name@ }
            },
            FrontendRequest::SessionCreated { session_name } => {
                FrontendRequestView::SessionCreated { session_name: session_name@ }
            },
        }
    }
}

/// What can go wrong in the backend.
///
/// `Recoverable`: one completion failed; the worker stays up and serves the
/// next prompt. `UnknownSession`: a command addressed a name that is not
/// registered and live. `NameTaken`: a session with that name already exists.
/// `Construction`: a session failed to build; the registry keeps the entry
/// and retries on a later reconciliation pass. A mailbox disconnect is a
/// clean shutdown signal, not an error.
#[derive(Clone, Copy, Debug, PartialEq, Eq, Structural)]
pub enum BackendError {
    Recoverable,
    UnknownSession,
    NameTaken,
    Construction,
}

impl BackendError {
    /// A short human-readable account of the error.
    pub fn describe(&self) -> (s: &'static str)
        ensures
            self is Recoverable ==> s@ == "recoverable backend error"@,
            self is UnknownSession ==> s@ == "unknown session"@,
            self is NameTaken ==> s@ == "session name already taken"@,
            self is Construction ==> s@ == "session failed to build"@,
    {
        match self {
            BackendError::Recoverable => "recoverable backend error",
            BackendError::UnknownSession => "unknown session",
            BackendError::NameTaken => "session name already taken",
            BackendError::Construction => "session failed to build",
        }
    }
}

/// One item of a worker's private mailbox: a prompt to stream a completion
/// for, or a memory entry to append without a model call.
#[derive(Clone, Debug)]
pub enum MailboxItem {
    Prompt(String),
    PushMemory(Message),
}

/// An effect the dispatch step asks the surrounding runtime to perform:
/// emit a message on the outbound relay, forward an item into the named
/// worker's mailbox, or tear a removed worker down (drop its mailbox sender
/// and task handle).
#[derive(Clone, Debug)]
pub enum DispatchAction {
    Emit(FrontendRequest),
    Forward { session_name: String, item: MailboxItem },
    Teardown { session_name: String },
}

} // verus!
