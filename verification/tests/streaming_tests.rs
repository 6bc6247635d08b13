use chat_backend::dispatch::dispatch_command;
use chat_backend::protocol::{
    BackendCommand, BackendError, DispatchAction, FrontendRequest, MailboxItem, Message, Role,
    SessionConfig,
};
use chat_backend::registry::Registry;
use chat_backend::worker::SessionWorker;

fn cfg() -> SessionConfig {
    SessionConfig {
        init_prompt: String::new(),
    }
}

fn token_of(msg: &FrontendRequest, expected_session: &str) -> String {
    match msg {
        FrontendRequest::StreamToken {
            session_name,
            token,
        } => {
            assert_eq!(session_name, expected_session);
            token.clone()
        }
        other => panic!("expected a StreamToken, got {:?}", other),
    }
}

#[test]
fn worker_streams_fragments_in_order_then_one_done() {
    let mut w = SessionWorker::new("A".to_string(), &cfg());
    assert!(w.memory.is_empty());

    w.begin_completion("hi".to_string());
    let fragments = ["a", "b", "c", "d"];
    let mut seen: Vec<FrontendRequest> = Vec::new();
    for f in fragments {
        seen.push(w.on_fragment(f.to_string()));
    }
    seen.push(w.finish_completion());

    assert_eq!(seen.len(), fragments.len() + 1);
    for (i, f) in fragments.iter().enumerate() {
        assert_eq!(token_of(&seen[i], "A"), *f);
    }
    match &seen[fragments.len()] {
        FrontendRequest::StreamDone { session_name } => assert_eq!(session_name, "A"),
        other => panic!("expected the StreamDone last, got {:?}", other),
    }
    // exactly one StreamDone among everything emitted
    let dones = seen
        .iter()
        .filter(|m| matches!(m, FrontendRequest::StreamDone { .. }))
        .count();
    assert_eq!(dones, 1);
}

#[test]
fn finished_completion_lands_in_memory_as_user_then_assistant() {
    let mut w = SessionWorker::new("Chat Agent".to_string(), &cfg());
    w.begin_completion("hello".to_string());
    w.on_fragment("Hel".to_string());
    w.on_fragment("lo ".to_string());
    w.on_fragment("there".to_string());
    w.finish_completion();

    assert_eq!(w.memory.len(), 2);
    assert!(matches!(w.memory[0].role, Role::User));
    assert_eq!(w.memory[0].content, "hello");
    assert!(matches!(w.memory[1].role, Role::Assistant));
    assert_eq!(w.memory[1].content, "Hello there");
    assert!(w.stream_acc.is_none());
}

#[test]
fn worker_seeds_memory_from_its_configuration() {
    let w = SessionWorker::new(
        "A".to_string(),
        &SessionConfig {
            init_prompt: "be brief".to_string(),
        },
    );
    assert_eq!(w.memory.len(), 1);
    assert!(matches!(w.memory[0].role, Role::System));
    assert_eq!(w.memory[0].content, "be brief");
}

#[test]
fn failed_completion_is_dropped_and_worker_stays_usable() {
    let mut w = SessionWorker::new("A".to_string(), &cfg());

    w.begin_completion("first".to_string());
    w.on_fragment("par".to_string());
    let err = w.fail_completion();
    assert_eq!(err, BackendError::Recoverable);
    // the failed completion left no assistant entry and no done marker
    assert_eq!(w.memory.len(), 1);
    assert_eq!(w.memory[0].content, "first");
    assert!(w.stream_acc.is_none());

    // the worker serves the next prompt as if nothing happened
    w.begin_completion("second".to_string());
    let m = w.on_fragment("ok".to_string());
    assert_eq!(token_of(&m, "A"), "ok");
    w.finish_completion();
    assert_eq!(w.memory.len(), 3);
    assert_eq!(w.memory[2].content, "ok");
}

#[test]
fn error_in_one_worker_does_not_affect_another() {
    let mut a = SessionWorker::new("A".to_string(), &cfg());
    let mut b = SessionWorker::new("B".to_string(), &cfg());

    a.begin_completion("will fail".to_string());
    b.begin_completion("will succeed".to_string());

    a.on_fragment("junk".to_string());
    let t1 = b.on_fragment("to".to_string());
    assert_eq!(a.fail_completion(), BackendError::Recoverable);
    let t2 = b.on_fragment("kens".to_string());
    let done = b.finish_completion();

    assert_eq!(token_of(&t1, "B"), "to");
    assert_eq!(token_of(&t2, "B"), "kens");
    assert!(matches!(
        done,
        FrontendRequest::StreamDone { ref session_name } if session_name == "B"
    ));
    assert_eq!(b.memory.len(), 2);
    assert_eq!(b.memory[1].content, "tokens");
    // the failed session recorded only its user prompt
    assert_eq!(a.memory.len(), 1);
}

#[test]
fn push_memory_appends_without_a_model_call() {
    let mut w = SessionWorker::new("A".to_string(), &cfg());
    w.push_memory(Message {
        role: Role::User,
        content: "from a file".to_string(),
    });
    assert_eq!(w.memory.len(), 1);
    assert_eq!(w.memory[0].content, "from a file");
    assert!(w.stream_acc.is_none());
}

#[test]
fn end_to_end_create_stream_and_memory() {
    // create session "Chat Agent" and observe its announcement
    let mut reg = Registry::new();
    let (actions, result) = dispatch_command(
        &mut reg,
        BackendCommand::CreateSession {
            name: "Chat Agent".to_string(),
            config: cfg(),
        },
    );
    assert!(result.is_ok());
    assert!(matches!(
        &actions[0],
        DispatchAction::Emit(FrontendRequest::SessionCreated { session_name })
            if session_name == "Chat Agent"
    ));

    // the reconciliation pass starts the one worker
    let spawned = reg.reconcile();
    assert_eq!(spawned, vec!["Chat Agent".to_string()]);
    let i = reg.lookup(&"Chat Agent".to_string()).unwrap();
    let mut worker = SessionWorker::new("Chat Agent".to_string(), reg.config_at(i));

    // the prompt is routed into the worker's mailbox
    let (actions, result) = dispatch_command(
        &mut reg,
        BackendCommand::StartStreamedCompletion {
            session_name: "Chat Agent".to_string(),
            prompt: "hello".to_string(),
        },
    );
    assert!(result.is_ok());
    let prompt = match actions.into_iter().next().unwrap() {
        DispatchAction::Forward {
            session_name,
            item: MailboxItem::Prompt(p),
        } => {
            assert_eq!(session_name, "Chat Agent");
            p
        }
        other => panic!("expected a forwarded prompt, got {:?}", other),
    };

    // the worker streams a non-empty ordered sequence of tokens, then done
    worker.begin_completion(prompt);
    let mut relayed = Vec::new();
    for f in ["Hi", " the", "re!"] {
        relayed.push(worker.on_fragment(f.to_string()));
    }
    relayed.push(worker.finish_completion());

    assert_eq!(relayed.len(), 4);
    let expected = ["Hi", " the", "re!"];
    for (i, m) in relayed.iter().take(3).enumerate() {
        assert_eq!(token_of(m, "Chat Agent"), expected[i]);
    }
    assert!(matches!(
        &relayed[3],
        FrontendRequest::StreamDone { session_name } if session_name == "Chat Agent"
    ));

    // session memory: one user entry, one assistant entry, concatenated
    assert_eq!(worker.memory.len(), 2);
    assert!(matches!(worker.memory[0].role, Role::User));
    assert_eq!(worker.memory[0].content, "hello");
    assert!(matches!(worker.memory[1].role, Role::Assistant));
    assert_eq!(worker.memory[1].content, "Hi there!");
}
