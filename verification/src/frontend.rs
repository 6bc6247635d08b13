//! The consumer side of the outbound relay: the chat page drains tagged
//! messages and demultiplexes them by session name into per-chat panes,
//! assembling each session's streamed tokens into the text the transcript
//! finally shows.

use vstd::prelude::*;

use crate::protocol::{BackendCommand, FrontendRequest, Message, MessageView, Role};
use crate::worker::{assistant_message, concat_frags, user_message};

verus! {

/// The in-flight part of one chat pane: what the user has typed so far and
/// the partial response streamed so far (`None` while no token of the
/// current completion has arrived yet).
#[derive(Debug)]
pub struct CurrentExchange {
    pub user_input: String,
    pub stream_buffer: Option<String>,
}

/// The text a stream buffer holds, if it was started.
pub open spec fn buffer_of(b: Option<String>) -> Option<Seq<char>> {
    match b {
        Option::None => Option::None,
        Option::Some(s) => Option::Some(s@),
    }
}

/// One token appended to a stream buffer: it starts the buffer or extends
/// it at the end.
pub open spec fn push_buffer_spec(b: Option<Seq<char>>, tok: Seq<char>) -> Option<Seq<char>> {
    match b {
        Option::None => Option::Some(tok),
        Option::Some(text) => Option::Some(text + tok),
    }
}

/// A stream buffer after receiving a completion's fragments in order.
pub open spec fn fold_tokens(b: Option<Seq<char>>, toks: Seq<Seq<char>>) -> Option<Seq<char>>
    decreases toks.len(),
{
    if toks.len() == 0 {
        b
    } else {
        push_buffer_spec(fold_tokens(b, toks.drop_last()), toks.last())
    }
}

/// Consumer assembly law: a pane whose stream buffer is fresh and that
/// receives one completion's fragments in emission order ends up holding
/// exactly their concatenation — the same text the worker records as the
/// session's assistant entry. With no fragments the buffer is never started.
pub proof fn lemma_consumer_assembles_concat(toks: Seq<Seq<char>>)
    ensures
        toks.len() == 0 ==> fold_tokens(Option::None, toks) is None,
        toks.len() > 0 ==> fold_tokens(Option::None, toks) == Option::Some(concat_frags(toks)),
    decreases toks.len(),
{
    if toks.len() > 0 {
        lemma_consumer_assembles_concat(toks.drop_last());
        if toks.len() == 1 {
            assert(Seq::<char>::empty() + toks.last() =~= toks.last());
        }
    }
}

impl Default for CurrentExchange {
    /// Nothing typed, no stream under way.
    fn default() -> (r: CurrentExchange)
        ensures
            r.user_input@ == Seq::<char>::empty(),
            r.stream_buffer is None,
    {
        CurrentExchange { user_input: String::new(), stream_buffer: Option::None }
    }
}

impl CurrentExchange {
    /// Appends one streamed token to the partial response: the first token
    /// of a completion starts the buffer, later ones extend it at the end.
    pub fn push_to_stream_buffer(&mut self, token: &str)
        ensures
            buffer_of(final(self).stream_buffer) == push_buffer_spec(
                buffer_of(old(self).stream_buffer),
                token@,
            ),
            final(self).user_input == old(self).user_input,
    {
        match &mut self.stream_buffer {
            Option::Some(buffer) => {
                buffer.append(token);
            },
            Option::None => {
                self.stream_buffer = Option::Some(token.to_owned());
            },
        }
    }
}

/// One chat pane: the session it mirrors, the transcript shown so far, the
/// exchange under way, whether a response is still being processed, and a
/// message shown when input is refused.
#[derive(Debug)]
pub struct Chat {
    pub name: String,
    pub chat_buffer: Vec<Message>,
    pub current_exchange: CurrentExchange,
    pub processing_response: bool,
    pub error_message: Option<String>,
}

/// The transcript a chat pane shows.
pub open spec fn transcript(chat_buffer: Seq<Message>) -> Seq<MessageView> {
    chat_buffer.map_values(|m: Message| m@)
}

/// A pane as it looks right after its session was announced.
pub open spec fn fresh_chat(c: Chat, name: Seq<char>) -> bool {
    &&& c.name@ == name
    &&& c.chat_buffer@.len() == 0
    &&& c.current_exchange.user_input@.len() == 0
    &&& c.current_exchange.stream_buffer is None
    &&& !c.processing_response
    &&& c.error_message is None
}

impl Chat {
    /// A fresh pane for a newly announced session.
    pub fn init(name: &str) -> (c: Chat)
        ensures
            fresh_chat(c, name@),
    {
        Chat {
            name: name.to_owned(),
            chat_buffer: Vec::new(),
            current_exchange: CurrentExchange::default(),
            processing_response: false,
            error_message: None,
        }
    }

    /// The submit decision of the input box. While a response is still being
    /// processed the input is refused with a visible message and nothing is
    /// sent. Otherwise the typed text joins the transcript as a user entry,
    /// the input box is cleared, the pane starts waiting for the response,
    /// and the command that asks the backend for the streamed completion is
    /// handed back.
    pub fn submit_user_input(&mut self) -> (r: Option<BackendCommand>)
        ensures
            old(self).processing_response ==> {
                &&& r is None
                &&& final(self).error_message matches Some(e) && e@
                    == "please wait until the current response is processed"@
                &&& final(self).name == old(self).name
                &&& final(self).chat_buffer == old(self).chat_buffer
                &&& final(self).current_exchange.user_input == old(
                    self,
                ).current_exchange.user_input
                &&& final(self).current_exchange.stream_buffer == old(
                    self,
                ).current_exchange.stream_buffer
                &&& final(self).processing_response
            },
            !old(self).processing_response ==> {
                &&& (r matches Some(cmd) && cmd matches
                    BackendCommand::StartStreamedCompletion { session_name, prompt }
                    && session_name@ == old(self).name@ && prompt@ == old(
                    self,
                ).current_exchange.user_input@)
                &&& transcript(final(self).chat_buffer@) == transcript(
                    old(self).chat_buffer@,
                ).push(user_message(old(self).current_exchange.user_input@))
                &&& final(self).current_exchange.user_input@ == Seq::<char>::empty()
                &&& final(self).current_exchange.stream_buffer == old(
                    self,
                ).current_exchange.stream_buffer
                &&& final(self).processing_response
                &&& final(self).name == old(self).name
                &&& final(self).error_message == old(self).error_message
            },
    {
        if self.processing_response {
            self.error_message = Some(
                "please wait until the current response is processed".to_owned(),
            );
            None
        } else {
            let ghost b0 = self.chat_buffer@;
            let prompt = self.current_exchange.user_input.clone();
            self.chat_buffer.push(Message { role: Role::User, content: prompt.clone() });
            self.current_exchange.user_input = String::new();
            self.processing_response = true;
            proof {
                assert(transcript(self.chat_buffer@) =~= transcript(b0).push(
                    user_message(prompt@),
                ));
            }
            Some(
                BackendCommand::StartStreamedCompletion {
                    session_name: self.name.clone(),
                    prompt: prompt,
                },
            )
        }
    }
}

/// Whether some pane mirrors this session.
pub open spec fn has_chat(chats: Seq<Chat>, name: Seq<char>) -> bool {
    exists|i: int| 0 <= i < chats.len() && chats[i].name@ == name
}

/// The names of the panes, in display order.
pub open spec fn chat_names(chats: Seq<Chat>) -> Seq<Seq<char>> {
    chats.map_values(|c: Chat| c.name@)
}

/// One pane after one streamed token for it: only the stream buffer moved.
pub open spec fn token_applied(old_c: Chat, new_c: Chat, tok: Seq<char>) -> bool {
    &&& new_c.name == old_c.name
    &&& new_c.chat_buffer == old_c.chat_buffer
    &&& new_c.processing_response == old_c.processing_response
    &&& new_c.error_message == old_c.error_message
    &&& new_c.current_exchange.user_input == old_c.current_exchange.user_input
    &&& buffer_of(new_c.current_exchange.stream_buffer) == push_buffer_spec(
        buffer_of(old_c.current_exchange.stream_buffer),
        tok,
    )
}

/// One pane after its completion's `StreamDone`: it stops waiting, and the
/// assembled response — if any token arrived — moves from the stream buffer
/// to the transcript as one assistant entry.
pub open spec fn done_applied(old_c: Chat, new_c: Chat) -> bool {
    &&& new_c.name == old_c.name
    &&& new_c.error_message == old_c.error_message
    &&& new_c.current_exchange.user_input == old_c.current_exchange.user_input
    &&& !new_c.processing_response
    &&& new_c.current_exchange.stream_buffer is None
    &&& match buffer_of(old_c.current_exchange.stream_buffer) {
        Option::Some(text) => transcript(new_c.chat_buffer@) == transcript(
            old_c.chat_buffer@,
        ).push(assistant_message(text)),
        Option::None => new_c.chat_buffer == old_c.chat_buffer,
    }
}

/// The panes after a tagged token: exactly the first pane of that session
/// took it, every other pane is untouched.
pub open spec fn token_step(
    old_chats: Seq<Chat>,
    new_chats: Seq<Chat>,
    name: Seq<char>,
    tok: Seq<char>,
) -> bool {
    exists|i: int|
        {
            &&& 0 <= i < old_chats.len()
            &&& old_chats[i].name@ == name
            &&& (forall|j: int| 0 <= j < i ==> old_chats[j].name@ != name)
            &&& new_chats.len() == old_chats.len()
            &&& (forall|j: int|
                0 <= j < old_chats.len() && j != i ==> new_chats[j] == old_chats[j])
            &&& token_applied(old_chats[i], new_chats[i], tok)
        }
}

/// The panes after a tagged `StreamDone`: exactly the first pane of that
/// session finished, every other pane is untouched.
pub open spec fn done_step(old_chats: Seq<Chat>, new_chats: Seq<Chat>, name: Seq<char>) -> bool {
    exists|i: int|
        {
            &&& 0 <= i < old_chats.len()
            &&& old_chats[i].name@ == name
            &&& (forall|j: int| 0 <= j < i ==> old_chats[j].name@ != name)
            &&& new_chats.len() == old_chats.len()
            &&& (forall|j: int|
                0 <= j < old_chats.len() && j != i ==> new_chats[j] == old_chats[j])
            &&& done_applied(old_chats[i], new_chats[i])
        }
}

/// The chat page: which session is selected and one pane per announced
/// session, in announcement order.
#[derive(Debug)]
pub struct ChatPage {
    pub current_chat_name: Option<String>,
    pub chats: Vec<Chat>,
}

impl ChatPage {
    /// A page with no sessions yet.
    pub fn init() -> (p: ChatPage)
        ensures
            p.current_chat_name is None,
            p.chats@.len() == 0,
    {
        ChatPage { current_chat_name: None, chats: Vec::new() }
    }

    /// The names of the panes, in display order.
    pub fn all_chat_names(&self) -> (names: Vec<String>)
        ensures
            names@.map_values(|n: String| n@) == chat_names(self.chats@),
    {
        let mut names: Vec<String> = Vec::new();
        proof {
            assert(names@.map_values(|n: String| n@) =~= chat_names(self.chats@.take(0)));
        }
        let mut i: usize = 0;
        while i < self.chats.len()
            invariant
                i <= self.chats.len(),
                names@.map_values(|n: String| n@) == chat_names(self.chats@.take(i as int)),
            decreases self.chats.len() - i,
        {
            let nm = self.chats[i].name.clone();
            let ghost pre_names = names@;
            names.push(nm);
            proof {
                let lhs = names@.map_values(|n: String| n@);
                let rhs = chat_names(self.chats@.take(i + 1));
                assert(pre_names.map_values(|n: String| n@).len() == chat_names(
                    self.chats@.take(i as int),
                ).len());
                assert(pre_names.len() == i as int);
                assert(names@.len() == i + 1);
                assert forall|k: int| 0 <= k < i + 1 implies lhs[k] == rhs[k] by {
                    assert(rhs[k] == self.chats@.take(i + 1)[k].name@);
                    assert(self.chats@.take(i + 1)[k] == self.chats@[k]);
                    assert(lhs[k] == names@[k]@);
                    if k < i {
                        assert(names@[k] == pre_names[k]);
                        assert(pre_names.map_values(|n: String| n@)[k] == pre_names[k]@);
                        assert(chat_names(self.chats@.take(i as int))[k] == self.chats@.take(
                            i as int,
                        )[k].name@);
                        assert(self.chats@.take(i as int)[k] == self.chats@[k]);
                    } else {
                        assert(names@[k] == nm);
                    }
                }
                assert(lhs =~= rhs);
            }
            i = i + 1;
        }
        proof {
            assert(self.chats@.take(self.chats@.len() as int) =~= self.chats@);
        }
        names
    }

    /// The first pane of this session, if the page has one.
    fn find_chat(&self, name: &String) -> (r: Option<usize>)
        ensures
            match r {
                Some(i) => i < self.chats@.len() && self.chats@[i as int].name@ == name@ && (
                forall|j: int| 0 <= j < i ==> self.chats@[j].name@ != name@),
                None => !has_chat(self.chats@, name@),
            },
    {
        let mut i: usize = 0;
        while i < self.chats.len()
            invariant
                i <= self.chats.len(),
                forall|j: int| 0 <= j < i ==> self.chats@[j].name@ != name@,
            decreases self.chats.len() - i,
        {
            if self.chats[i].name == *name {
                return Some(i);
            }
            i = i + 1;
        }
        None
    }

    /// Applies one drained relay message to the page.
    ///
    /// `SessionCreated` opens a fresh pane at the end and selects it if
    /// nothing was selected. `StreamToken` extends the addressed pane's
    /// stream buffer. `StreamDone` finishes the addressed pane's exchange,
    /// moving the assembled response into its transcript. A message tagged
    /// with a session the page does not know is dropped without effect.
    pub fn handle_update(&mut self, msg: FrontendRequest)
        ensures
            msg matches FrontendRequest::SessionCreated { session_name } ==> {
                &&& final(self).chats@.len() == old(self).chats@.len() + 1
                &&& (forall|j: int|
                    0 <= j < old(self).chats@.len() ==> final(self).chats@[j] == old(
                        self,
                    ).chats@[j])
                &&& fresh_chat(final(self).chats@.last(), session_name@)
                &&& (old(self).current_chat_name is None ==> final(self).current_chat_name
                    == Some(session_name))
                &&& (old(self).current_chat_name is Some ==> final(self).current_chat_name
                    == old(self).current_chat_name)
            },
            msg matches FrontendRequest::StreamToken { session_name, token } ==> {
                &&& final(self).current_chat_name == old(self).current_chat_name
                &&& (!has_chat(old(self).chats@, session_name@) ==> *final(self) == *old(self))
                &&& (has_chat(old(self).chats@, session_name@) ==> token_step(
                    old(self).chats@,
                    final(self).chats@,
                    session_name@,
                    token@,
                ))
            },
            msg matches FrontendRequest::StreamDone { session_name } ==> {
                &&& final(self).current_chat_name == old(self).current_chat_name
                &&& (!has_chat(old(self).chats@, session_name@) ==> *final(self) == *old(self))
                &&& (has_chat(old(self).chats@, session_name@) ==> done_step(
                    old(self).chats@,
                    final(self).chats@,
                    session_name@,
                ))
            },
    {
        match msg {
            FrontendRequest::SessionCreated { session_name } => {
                let fresh = Chat::init(session_name.as_str());
                if self.current_chat_name.is_none() {
                    self.current_chat_name = Some(session_name);
                }
                self.chats.push(fresh);
            },
            FrontendRequest::StreamToken { session_name, token } => {
                match self.find_chat(&session_name) {
                    Some(i) => {
                        let ghost pre = self.chats@;
                        let c = &mut self.chats[i];
                        c.current_exchange.push_to_stream_buffer(token.as_str());
                        proof {
                            assert(token_applied(pre[i as int], self.chats@[i as int], token@));
                            assert(token_step(pre, self.chats@, session_name@, token@));
                        }
                    },
                    None => {},
                }
            },
            FrontendRequest::StreamDone { session_name } => {
                match self.find_chat(&session_name) {
                    Some(i) => {
                        let ghost pre = self.chats@;
                        let c = &mut self.chats[i];
                        c.processing_response = false;
                        let finished: Option<String> = match &c.current_exchange.stream_buffer {
                            Some(s) => Some(s.clone()),
                            None => None,
                        };
                        c.current_exchange.stream_buffer = None;
                        match finished {
                            Some(text) => {
                                let ghost b0 = c.chat_buffer@;
                                c.chat_buffer.push(
                                    Message { role: Role::Assistant, content: text },
                                );
                                proof {
                                    assert(transcript(self.chats@[i as int].chat_buffer@)
                                        =~= transcript(b0).push(
                                        assistant_message(
                                            buffer_of(
                                                pre[i as int].current_exchange.stream_buffer,
                                            ).unwrap(),
                                        ),
                                    ));
                                }
                            },
                            None => {},
                        }
                        proof {
                            assert(done_applied(pre[i as int], self.chats@[i as int]));
                            assert(done_step(pre, self.chats@, session_name@));
                        }
                    },
                    None => {},
                }
            },
        }
    }
}

} // verus!
