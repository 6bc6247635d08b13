//! The session worker: the state machine that drives one session. The
//! surrounding runtime owns the task, the mailbox and the model session; it
//! feeds each mailbox item and each streamed fragment into these step
//! functions and performs what they return. Each worker exclusively owns its
//! session memory, so a failure in one session cannot touch another.

use vstd::prelude::*;

use crate::protocol::{
    BackendError, ConfigView, FrontendRequest, FrontendRequestView, Message, MessageView, Role,
    SessionConfig,
};

verus! {

/// The state one session worker owns: the session's name, its accumulated
/// message history, and — while a completion is in flight — the fragments
/// received so far, in arrival order. `stream` is `None` between
/// completions; a worker accepts a new prompt only then, which serializes
/// completions within one session.
pub struct SessionWorker {
    pub name: String,
    pub memory: Vec<Message>,
    pub stream_acc: Option<Vec<String>>,
}

/// Mathematical value of a `SessionWorker`.
pub struct WorkerView {
    pub name: Seq<char>,
    pub memory: Seq<MessageView>,
    pub stream: Option<Seq<Seq<char>>>,
}

impl View for SessionWorker {
    type V = WorkerView;

    open spec fn view(&self) -> WorkerView {
        WorkerView {
            name: self.name@,
            memory: self.memory@.map_values(|m: Message| m@),
            stream: match self.stream_acc {
                Option::None => Option::None,
                Option::Some(v) => Option::Some(v@.map_values(|t: String| t@)),
            },
        }
    }
}

/// The user entry a prompt adds to the session memory.
pub open spec fn user_message(prompt: Seq<char>) -> MessageView {
    MessageView { role: Role::User, content: prompt }
}

/// The assistant entry a finished completion adds to the session memory.
pub open spec fn assistant_message(content: Seq<char>) -> MessageView {
    MessageView { role: Role::Assistant, content: content }
}

/// The memory a fresh worker starts from: empty, or seeded with the
/// configuration's initial prompt as a system entry.
pub open spec fn initial_memory(config: ConfigView) -> Seq<MessageView> {
    if config.init_prompt.len() == 0 {
        Seq::empty()
    } else {
        seq![MessageView { role: Role::System, content: config.init_prompt }]
    }
}

/// A freshly built worker, idle, with its seeded memory.
pub open spec fn init_worker(name: Seq<char>, config: ConfigView) -> WorkerView {
    WorkerView { name: name, memory: initial_memory(config), stream: Option::None }
}

/// Accepting a prompt: the user entry joins the memory and fragment
/// accumulation starts empty.
pub open spec fn begin_spec(w: WorkerView, prompt: Seq<char>) -> WorkerView {
    WorkerView {
        memory: w.memory.push(user_message(prompt)),
        stream: Option::Some(Seq::empty()),
        ..w
    }
}

/// One streamed fragment: recorded at the end of the accumulation.
pub open spec fn fragment_spec(w: WorkerView, tok: Seq<char>) -> WorkerView
    recommends
        w.stream is Some,
{
    WorkerView { stream: Option::Some(w.stream.unwrap().push(tok)), ..w }
}

/// The fragments of one completion joined in arrival order.
pub open spec fn concat_frags(toks: Seq<Seq<char>>) -> Seq<char>
    decreases toks.len(),
{
    if toks.len() == 0 {
        Seq::empty()
    } else {
        concat_frags(toks.drop_last()) + toks.last()
    }
}

/// End of the stream: the accumulated fragments become one assistant entry
/// and the worker is idle again.
pub open spec fn finish_spec(w: WorkerView) -> WorkerView
    recommends
        w.stream is Some,
{
    WorkerView {
        memory: w.memory.push(assistant_message(concat_frags(w.stream.unwrap()))),
        stream: Option::None,
        ..w
    }
}

/// A failed completion: the in-flight accumulation is dropped, the memory
/// is untouched, and the worker is idle again, ready for the next prompt.
pub open spec fn fail_spec(w: WorkerView) -> WorkerView {
    WorkerView { stream: Option::None, ..w }
}

/// A direct memory mutation: appended, no model call involved.
pub open spec fn push_memory_spec(w: WorkerView, m: MessageView) -> WorkerView {
    WorkerView { memory: w.memory.push(m), ..w }
}

/// The relay message one fragment produces.
pub open spec fn token_message(name: Seq<char>, tok: Seq<char>) -> FrontendRequestView {
    FrontendRequestView::StreamToken { session_name: name, token: tok }
}

/// The relay message the end of a completion produces.
pub open spec fn done_message(name: Seq<char>) -> FrontendRequestView {
    FrontendRequestView::StreamDone { session_name: name }
}

impl SessionWorker {
    /// A fresh worker for a session, built from its configuration.
    pub fn new(name: String, config: &SessionConfig) -> (w: SessionWorker)
        ensures
            w@ == init_worker(name@, config@),
    {
        let mut memory: Vec<Message> = Vec::new();
        if !config.init_prompt.as_str().is_empty() {
            memory.push(Message { role: Role::System, content: config.init_prompt.clone() });
        }
        let w = SessionWorker { name: name, memory: memory, stream_acc: Option::None };
        proof {
            assert(w@.memory =~= initial_memory(config@));
        }
        w
    }

    /// Accepts one prompt from the mailbox. A worker pulls one mailbox item
    /// at a time, so no completion is in flight when it does.
    pub fn begin_completion(&mut self, prompt: String)
        requires
            old(self)@.stream is None,
        ensures
            final(self)@ == begin_spec(old(self)@, prompt@),
    {
        let ghost w0 = self@;
        self.memory.push(Message { role: Role::User, content: prompt });
        self.stream_acc = Option::Some(Vec::new());
        proof {
            assert(self@.memory =~= begin_spec(w0, prompt@).memory);
            assert(self@.stream.unwrap() =~= Seq::<Seq<char>>::empty());
        }
    }

    /// One fragment streamed by the model session: it is recorded in arrival
    /// order, and the tagged relay message for the consumer is returned.
    pub fn on_fragment(&mut self, token: String) -> (m: FrontendRequest)
        requires
            old(self)@.stream is Some,
        ensures
            final(self)@ == fragment_spec(old(self)@, token@),
            m@ == token_message(old(self)@.name, token@),
    {
        let ghost w0 = self@;
        let m = FrontendRequest::StreamToken {
            session_name: self.name.clone(),
            token: token.clone(),
        };
        match &mut self.stream_acc {
            Option::Some(acc) => {
                acc.push(token);
            },
            Option::None => {
                proof {
                    assert(false);
                }
            },
        }
        proof {
            assert(self@.stream.unwrap() =~= fragment_spec(w0, token@).stream.unwrap());
        }
        m
    }

    /// The end of a completion's fragment stream: the fragments are joined in
    /// arrival order into one assistant entry of the session memory, and the
    /// one `StreamDone` of this completion is returned.
    pub fn finish_completion(&mut self) -> (m: FrontendRequest)
        requires
            old(self)@.stream is Some,
        ensures
            final(self)@ == finish_spec(old(self)@),
            m@ == done_message(old(self)@.name),
    {
        let ghost w0 = self@;
        let mut content = String::new();
        match &self.stream_acc {
            Option::Some(acc) => {
                let ghost toks = acc@.map_values(|t: String| t@);
                let mut i: usize = 0;
                while i < acc.len()
                    invariant
                        i <= acc.len(),
                        toks == acc@.map_values(|t: String| t@),
                        toks.len() == acc@.len(),
                        content@ == concat_frags(toks.take(i as int)),
                    decreases acc.len() - i,
                {
                    content.append(acc[i].as_str());
                    proof {
                        assert(toks.take(i + 1).drop_last() =~= toks.take(i as int));
                        assert(toks.take(i + 1).last() == toks[i as int]);
                    }
                    i = i + 1;
                }
                proof {
                    assert(toks.take(acc@.len() as int) =~= toks);
                    assert(content@ == concat_frags(w0.stream.unwrap()));
                }
            },
            Option::None => {
                proof {
                    assert(false);
                }
            },
        }
        self.memory.push(Message { role: Role::Assistant, content: content });
        self.stream_acc = Option::None;
        proof {
            assert(self@.memory =~= finish_spec(w0).memory);
        }
        FrontendRequest::StreamDone { session_name: self.name.clone() }
    }

    /// A completion-stream failure: fatal to this completion alone. What was
    /// accumulated is discarded, nothing reaches the session memory, no
    /// `StreamDone` is produced, and the worker stays up for the next
    /// prompt. The recoverable error is handed back to be surfaced, not
    /// silently lost.
    pub fn fail_completion(&mut self) -> (e: BackendError)
        ensures
            final(self)@ == fail_spec(old(self)@),
            e == BackendError::Recoverable,
    {
        self.stream_acc = Option::None;
        BackendError::Recoverable
    }

    /// A memory mutation from the mailbox: appended directly to the session
    /// memory; it never triggers a model call.
    pub fn push_memory(&mut self, message: Message)
        ensures
            final(self)@ == push_memory_spec(old(self)@, message@),
    {
        let ghost w0 = self@;
        self.memory.push(message);
        proof {
            assert(self@.memory =~= push_memory_spec(w0, message@).memory);
        }
    }
}

/// The worker after receiving a sequence of fragments, in order.
pub open spec fn run_fragments(w: WorkerView, toks: Seq<Seq<char>>) -> WorkerView
    decreases toks.len(),
{
    if toks.len() == 0 {
        w
    } else {
        fragment_spec(run_fragments(w, toks.drop_last()), toks.last())
    }
}

/// The relay messages one completion of fragments `toks` sends for session
/// `name`: one tagged token per fragment, in emission order, then exactly
/// one tagged `StreamDone`.
pub open spec fn completion_outputs(name: Seq<char>, toks: Seq<Seq<char>>) -> Seq<
    FrontendRequestView,
> {
    toks.map_values(|t: Seq<char>| token_message(name, t)).push(done_message(name))
}

proof fn lemma_run_fragments(w: WorkerView, toks: Seq<Seq<char>>)
    requires
        w.stream is Some,
    ensures
        run_fragments(w, toks).name == w.name,
        run_fragments(w, toks).memory == w.memory,
        run_fragments(w, toks).stream == Option::Some(w.stream.unwrap() + toks),
    decreases toks.len(),
{
    if toks.len() == 0 {
        assert(w.stream.unwrap() + toks =~= w.stream.unwrap());
        assert(run_fragments(w, toks) == w);
    } else {
        lemma_run_fragments(w, toks.drop_last());
        assert((w.stream.unwrap() + toks.drop_last()).push(toks.last()) =~= w.stream.unwrap()
            + toks);
    }
}

/// Ordering law: one completion of fragments `toks`, taken by an idle
/// worker, accumulates exactly `toks` in emission order; the messages it
/// relays are the fragments as tagged tokens, in that exact order, followed
/// by exactly one `StreamDone` for that session; and the session memory
/// afterwards has gained one user entry holding the prompt and one assistant
/// entry equal to the concatenation of the fragments, nothing else.
pub proof fn lemma_completion_ordering(w: WorkerView, prompt: Seq<char>, toks: Seq<Seq<char>>)
    requires
        w.stream is None,
    ensures
        ({
            let mid = run_fragments(begin_spec(w, prompt), toks);
            let done = finish_spec(mid);
            let outs = completion_outputs(w.name, toks);
            &&& mid.name == w.name
            &&& mid.stream == Option::Some(toks)
            &&& outs.len() == toks.len() + 1
            &&& forall|i: int| 0 <= i < toks.len() ==> outs[i] == token_message(w.name, #[trigger] toks[i])
            &&& outs.last() == done_message(w.name)
            &&& done.name == w.name
            &&& done.stream is None
            &&& done.memory == w.memory.push(user_message(prompt)).push(
                assistant_message(concat_frags(toks)),
            )
        }),
{
    let w1 = begin_spec(w, prompt);
    lemma_run_fragments(w1, toks);
    assert(Seq::<Seq<char>>::empty() + toks =~= toks);
}

/// The worker states of the whole backend, one per session name. Each worker
/// owns its state exclusively; a step of one session's worker replaces that
/// session's entry and no other.
pub struct SystemView {
    pub workers: Map<Seq<char>, WorkerView>,
}

/// Session `a`'s worker fails its in-flight completion.
pub open spec fn sys_fail(sys: SystemView, a: Seq<char>) -> SystemView
    recommends
        sys.workers.dom().contains(a),
{
    SystemView { workers: sys.workers.insert(a, fail_spec(sys.workers[a])) }
}

/// Session `b`'s worker runs one whole completion.
pub open spec fn sys_completion(
    sys: SystemView,
    b: Seq<char>,
    prompt: Seq<char>,
    toks: Seq<Seq<char>>,
) -> SystemView
    recommends
        sys.workers.dom().contains(b),
{
    SystemView {
        workers: sys.workers.insert(
            b,
            finish_spec(run_fragments(begin_spec(sys.workers[b], prompt), toks)),
        ),
    }
}

/// Isolation law: a fatal streaming error in session `a`'s worker leaves
/// every other session's worker untouched, and a later completion in session
/// `b` produces exactly the state and the ordered messages it would have
/// produced had `a` never failed.
pub proof fn lemma_error_isolation(
    sys: SystemView,
    a: Seq<char>,
    b: Seq<char>,
    prompt: Seq<char>,
    toks: Seq<Seq<char>>,
)
    requires
        a != b,
        sys.workers.dom().contains(a),
        sys.workers.dom().contains(b),
        sys.workers[b].stream is None,
    ensures
        sys_fail(sys, a).workers.dom().contains(b),
        sys_fail(sys, a).workers[b] == sys.workers[b],
        sys_completion(sys_fail(sys, a), b, prompt, toks).workers[b] == sys_completion(
            sys,
            b,
            prompt,
            toks,
        ).workers[b],
        completion_outputs(sys_fail(sys, a).workers[b].name, toks) == completion_outputs(
            sys.workers[b].name,
            toks,
        ),
{
    lemma_completion_ordering(sys.workers[b], prompt, toks);
}

/// The session a relay message is tagged with: what the consumer
/// demultiplexes by.
pub open spec fn tag_of(m: FrontendRequestView) -> Seq<char> {
    match m {
        FrontendRequestView::StreamToken { session_name, .. } => session_name,
        FrontendRequestView::StreamDone { session_name } => session_name,
        FrontendRequestView::SessionCreated { session_name } => session_name,
    }
}

/// The subsequence of the relay that one session's consumer sees: the
/// messages tagged with its name, in relay order.
pub open spec fn project_session(msgs: Seq<FrontendRequestView>, name: Seq<char>) -> Seq<
    FrontendRequestView,
>
    decreases msgs.len(),
{
    if msgs.len() == 0 {
        Seq::empty()
    } else if tag_of(msgs.last()) == name {
        project_session(msgs.drop_last(), name).push(msgs.last())
    } else {
        project_session(msgs.drop_last(), name)
    }
}

proof fn lemma_project_none(msgs: Seq<FrontendRequestView>, name: Seq<char>)
    requires
        forall|i: int| 0 <= i < msgs.len() ==> tag_of(#[trigger] msgs[i]) != name,
    ensures
        project_session(msgs, name) == Seq::<FrontendRequestView>::empty(),
    decreases msgs.len(),
{
    if msgs.len() == 0 {
        assert(project_session(msgs, name) =~= Seq::<FrontendRequestView>::empty());
    } else {
        let d = msgs.drop_last();
        assert forall|i: int| 0 <= i < d.len() implies tag_of(#[trigger] d[i]) != name by {
            assert(d[i] == msgs[i]);
        }
        lemma_project_none(d, name);
        assert(tag_of(msgs[msgs.len() - 1]) != name);
    }
}

proof fn lemma_project_all(msgs: Seq<FrontendRequestView>, name: Seq<char>)
    requires
        forall|i: int| 0 <= i < msgs.len() ==> tag_of(#[trigger] msgs[i]) == name,
    ensures
        project_session(msgs, name) == msgs,
    decreases msgs.len(),
{
    if msgs.len() == 0 {
        assert(project_session(msgs, name) =~= msgs);
    } else {
        let d = msgs.drop_last();
        assert forall|i: int| 0 <= i < d.len() implies tag_of(#[trigger] d[i]) == name by {
            assert(d[i] == msgs[i]);
        }
        lemma_project_all(d, name);
        assert(tag_of(msgs[msgs.len() - 1]) == name);
        assert(d.push(msgs.last()) =~= msgs);
    }
}

proof fn lemma_project_distributes(
    xs: Seq<FrontendRequestView>,
    ys: Seq<FrontendRequestView>,
    name: Seq<char>,
)
    ensures
        project_session(xs + ys, name) == project_session(xs, name) + project_session(ys, name),
    decreases ys.len(),
{
    if ys.len() == 0 {
        assert(xs + ys =~= xs);
        assert(project_session(xs, name) + project_session(ys, name) =~= project_session(
            xs,
            name,
        ));
    } else {
        assert((xs + ys).drop_last() =~= xs + ys.drop_last());
        assert((xs + ys).last() == ys.last());
        lemma_project_distributes(xs, ys.drop_last(), name);
        if tag_of(ys.last()) == name {
            assert((project_session(xs, name) + project_session(ys.drop_last(), name)).push(
                ys.last(),
            ) =~= project_session(xs, name) + project_session(ys.drop_last(), name).push(
                ys.last(),
            ));
        }
    }
}

/// Relay demultiplexing law: the consumer of session `b` sees exactly `b`'s
/// own completion messages, in their emission order, however the rest of the
/// relay traffic surrounds them: projecting `b` out of any relay segment
/// that embeds `b`'s completion between messages of other sessions yields
/// precisely that completion's tokens followed by its one `StreamDone`.
pub proof fn lemma_relay_demux(
    before: Seq<FrontendRequestView>,
    b: Seq<char>,
    toks: Seq<Seq<char>>,
    after: Seq<FrontendRequestView>,
)
    requires
        forall|i: int| 0 <= i < before.len() ==> tag_of(#[trigger] before[i]) != b,
        forall|i: int| 0 <= i < after.len() ==> tag_of(#[trigger] after[i]) != b,
    ensures
        project_session(before + completion_outputs(b, toks) + after, b) == completion_outputs(
            b,
            toks,
        ),
{
    let outs = completion_outputs(b, toks);
    assert forall|i: int| 0 <= i < outs.len() implies tag_of(#[trigger] outs[i]) == b by {
        if i < toks.len() {
            assert(outs[i] == token_message(b, toks[i]));
        } else {
            assert(outs[i] == done_message(b));
        }
    }
    lemma_project_none(before, b);
    lemma_project_all(outs, b);
    lemma_project_none(after, b);
    lemma_project_distributes(before, outs, b);
    lemma_project_distributes(before + outs, after, b);
    assert(project_session(before + outs + after, b) =~= outs);
}

} // verus!
