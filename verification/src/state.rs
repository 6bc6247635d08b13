//! Which page the main window shows.

use vstd::prelude::*;

verus! {

/// The page the main window is on.
#[derive(Clone, Copy, Debug, PartialEq, Eq, Structural)]
pub enum State {
    Chat,
    Settings,
}

impl Default for State {
    /// The window opens on the chat page.
    fn default() -> (r: State)
        ensures
            r == State::Chat,
    {
        State::Chat
    }
}

impl State {
    /// Every page, in display order.
    pub fn all() -> (r: Vec<State>)
        ensures
            r@ == seq![State::Chat, State::Settings],
    {
        let mut v: Vec<State> = Vec::new();
        v.push(State::Chat);
        v.push(State::Settings);
        proof {
            assert(v@ =~= seq![State::Chat, State::Settings]);
        }
        v
    }

    /// The page's label in the top bar.
    pub fn label(&self) -> (s: &'static str)
        ensures
            self is Chat ==> s@ == "Chat"@,
            self is Settings ==> s@ == "Settings"@,
    {
        match self {
            State::Chat => "Chat",
            State::Settings => "Settings",
        }
    }
}

} // verus!
