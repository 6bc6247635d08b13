use chat_backend::frontend::{Chat, ChatPage, CurrentExchange};
use chat_backend::protocol::{BackendCommand, FrontendRequest, Role};
use chat_backend::state::State;

fn created(name: &str) -> FrontendRequest {
    FrontendRequest::SessionCreated {
        session_name: name.to_string(),
    }
}

fn token(name: &str, tok: &str) -> FrontendRequest {
    FrontendRequest::StreamToken {
        session_name: name.to_string(),
        token: tok.to_string(),
    }
}

fn done(name: &str) -> FrontendRequest {
    FrontendRequest::StreamDone {
        session_name: name.to_string(),
    }
}

#[test]
fn stream_buffer_starts_then_extends() {
    let mut ex = CurrentExchange::default();
    assert!(ex.stream_buffer.is_none());
    ex.push_to_stream_buffer("He");
    assert_eq!(ex.stream_buffer.as_deref(), Some("He"));
    ex.push_to_stream_buffer("llo");
    assert_eq!(ex.stream_buffer.as_deref(), Some("Hello"));
    assert_eq!(ex.user_input, "");
}

#[test]
fn page_opens_a_pane_per_announced_session_and_selects_the_first() {
    let mut page = ChatPage::init();
    assert!(page.current_chat_name.is_none());

    page.handle_update(created("Chat Agent"));
    page.handle_update(created("Long Term Agent"));

    assert_eq!(page.current_chat_name.as_deref(), Some("Chat Agent"));
    assert_eq!(
        page.all_chat_names(),
        vec!["Chat Agent".to_string(), "Long Term Agent".to_string()]
    );
    assert!(page.chats.iter().all(|c| c.chat_buffer.is_empty()
        && c.current_exchange.stream_buffer.is_none()
        && !c.processing_response));
}

#[test]
fn page_routes_tokens_to_the_addressed_pane_only() {
    let mut page = ChatPage::init();
    page.handle_update(created("A"));
    page.handle_update(created("B"));

    page.handle_update(token("B", "only"));
    page.handle_update(token("B", " for B"));

    assert!(page.chats[0].current_exchange.stream_buffer.is_none());
    assert_eq!(
        page.chats[1].current_exchange.stream_buffer.as_deref(),
        Some("only for B")
    );
}

#[test]
fn done_moves_the_assembled_response_into_the_transcript() {
    let mut page = ChatPage::init();
    page.handle_update(created("A"));
    page.chats[0].processing_response = true;

    page.handle_update(token("A", "Hel"));
    page.handle_update(token("A", "lo"));
    page.handle_update(done("A"));

    let pane = &page.chats[0];
    assert!(!pane.processing_response);
    assert!(pane.current_exchange.stream_buffer.is_none());
    assert_eq!(pane.chat_buffer.len(), 1);
    assert!(matches!(pane.chat_buffer[0].role, Role::Assistant));
    assert_eq!(pane.chat_buffer[0].content, "Hello");
}

#[test]
fn done_without_any_token_leaves_the_transcript_alone() {
    let mut page = ChatPage::init();
    page.handle_update(created("A"));
    page.chats[0].processing_response = true;
    page.handle_update(done("A"));
    assert!(!page.chats[0].processing_response);
    assert!(page.chats[0].chat_buffer.is_empty());
}

#[test]
fn messages_for_unknown_sessions_are_dropped() {
    let mut page = ChatPage::init();
    page.handle_update(created("A"));
    page.handle_update(token("Ghost", "lost"));
    page.handle_update(done("Ghost"));
    assert_eq!(page.all_chat_names(), vec!["A".to_string()]);
    assert!(page.chats[0].current_exchange.stream_buffer.is_none());
    assert!(page.chats[0].chat_buffer.is_empty());
}

#[test]
fn submit_builds_the_completion_command_and_clears_the_input() {
    let mut chat = Chat::init("Chat Agent");
    chat.current_exchange.user_input = "hello".to_string();

    let cmd = chat.submit_user_input();
    match cmd {
        Some(BackendCommand::StartStreamedCompletion {
            session_name,
            prompt,
        }) => {
            assert_eq!(session_name, "Chat Agent");
            assert_eq!(prompt, "hello");
        }
        other => panic!("expected a streamed-completion command, got {:?}", other),
    }
    assert_eq!(chat.current_exchange.user_input, "");
    assert!(chat.processing_response);
    assert_eq!(chat.chat_buffer.len(), 1);
    assert!(matches!(chat.chat_buffer[0].role, Role::User));
    assert_eq!(chat.chat_buffer[0].content, "hello");
}

#[test]
fn submit_while_processing_is_refused_with_a_message() {
    let mut chat = Chat::init("A");
    chat.current_exchange.user_input = "impatient".to_string();
    chat.processing_response = true;

    let cmd = chat.submit_user_input();
    assert!(cmd.is_none());
    assert_eq!(
        chat.error_message.as_deref(),
        Some("please wait until the current response is processed")
    );
    assert_eq!(chat.current_exchange.user_input, "impatient");
    assert!(chat.chat_buffer.is_empty());
}

#[test]
fn the_window_pages_are_chat_then_settings() {
    let all = State::all();
    assert_eq!(all, vec![State::Chat, State::Settings]);
    assert_eq!(State::default(), State::Chat);
    assert_eq!(State::Chat.label(), "Chat");
    assert_eq!(State::Settings.label(), "Settings");
}

#[test]
fn interleaved_streams_are_demultiplexed_per_session() {
    let mut page = ChatPage::init();
    page.handle_update(created("A"));
    page.handle_update(created("B"));

    // two completions interleaved on the shared relay
    page.handle_update(token("A", "al"));
    page.handle_update(token("B", "be"));
    page.handle_update(token("A", "pha"));
    page.handle_update(token("B", "ta"));
    page.handle_update(done("B"));
    page.handle_update(done("A"));

    assert_eq!(page.chats[0].chat_buffer.len(), 1);
    assert_eq!(page.chats[0].chat_buffer[0].content, "alpha");
    assert_eq!(page.chats[1].chat_buffer.len(), 1);
    assert_eq!(page.chats[1].chat_buffer[0].content, "beta");
}

#[test]
fn full_exchange_reaches_the_transcript_in_order() {
    let mut page = ChatPage::init();
    page.handle_update(created("Chat Agent"));
    page.chats[0].current_exchange.user_input = "hello".to_string();
    let cmd = page.chats[0].submit_user_input();
    assert!(cmd.is_some());

    page.handle_update(token("Chat Agent", "Hi"));
    page.handle_update(token("Chat Agent", " there!"));
    page.handle_update(done("Chat Agent"));

    let pane = &page.chats[0];
    assert_eq!(pane.chat_buffer.len(), 2);
    assert!(matches!(pane.chat_buffer[0].role, Role::User));
    assert_eq!(pane.chat_buffer[0].content, "hello");
    assert!(matches!(pane.chat_buffer[1].role, Role::Assistant));
    assert_eq!(pane.chat_buffer[1].content, "Hi there!");
    assert!(!pane.processing_response);
}
