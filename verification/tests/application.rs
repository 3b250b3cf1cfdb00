use dex::application::{Action, Application, RunState};
use dex::event::{Event, Key, TypingEvent};
use dex::message::{CurrentUser, Message, MessageItem, MessageUpdate};
use dex::screen::TermSize;
use dex::state::{Preferences, State};

fn app() -> Application {
    let prefs = Preferences::new("SECRET-REDACTED".to_string(), None, None);
    let state = State { guild: Some(10), channel: Some(20), guild_sidebar_visible: true };
    Application::new(&prefs, &state, TermSize { width: 80, height: 24 }, false)
}

fn msg(id: u64, channel_id: u64, author: &str, content: &str, own: bool) -> Message {
    Message {
        id,
        channel_id,
        author_name: author.to_string(),
        content: content.to_string(),
        timestamp: 0,
        edited_timestamp: None,
        has_attachments: false,
        is_own: own,
    }
}

#[test]
fn gateway_ready_moves_not_ready_to_ready() {
    let mut a = app();
    assert_eq!(a.run_state(), RunState::NotReady);
    let user = CurrentUser { id: 1, name: "me".to_string() };
    let actions = a.handle_event(Event::DiscordReady(Box::new(user)), 0);
    assert_eq!(a.run_state(), RunState::Ready);
    assert_eq!(actions.len(), 1);
    assert!(matches!(actions[0], Action::PopulateGuildList));
    assert_eq!(a.context.current_user.as_ref().unwrap().name, "me");
}

#[test]
fn shutdown_event_exits_exactly_once() {
    let mut a = app();
    let actions = a.handle_event(Event::ShutdownAll, 0);
    assert_eq!(a.run_state(), RunState::Exiting);
    assert_eq!(actions.len(), 1);
    assert!(matches!(actions[0], Action::ShutdownGateway));
    // Exiting is terminal: further events change nothing.
    let again = a.handle_event(Event::ShutdownAll, 0);
    assert!(again.is_empty());
    assert_eq!(a.run_state(), RunState::Exiting);
    let more = a.handle_event(Event::WindowSizeChange, 0);
    assert!(more.is_empty());
    assert_eq!(a.run_state(), RunState::Exiting);
}

#[test]
fn quit_chord_exits_from_ready() {
    let mut a = app();
    a.handle_event(
        Event::DiscordReady(Box::new(CurrentUser { id: 1, name: "me".to_string() })),
        0,
    );
    let actions = a.handle_event(Event::Keypress(Key::Ctrl('c')), 0);
    assert_eq!(a.run_state(), RunState::Exiting);
    assert!(matches!(actions[0], Action::ShutdownGateway));
}

#[test]
fn quit_command_posts_shutdown() {
    let mut a = app();
    let actions = a.handle_event(Event::UserCommand("q".to_string()), 0);
    assert_eq!(actions.len(), 1);
    assert!(matches!(actions[0], Action::PostEvent(Event::ShutdownAll)));
    // The state machine exits only when the posted event comes back.
    assert_eq!(a.run_state(), RunState::NotReady);
    a.handle_event(Event::ShutdownAll, 0);
    assert_eq!(a.run_state(), RunState::Exiting);
}

#[test]
fn ordinary_keys_do_not_exit() {
    let mut a = app();
    a.handle_event(Event::Keypress(Key::Char('x')), 0);
    a.handle_event(Event::Keypress(Key::Esc), 0);
    a.handle_event(Event::Keypress(Key::Ctrl('u')), 0);
    assert_eq!(a.run_state(), RunState::NotReady);
}

#[test]
fn new_message_on_active_channel_is_added_and_notified() {
    let mut a = app();
    let actions = a.handle_event(
        Event::NewMessage(Box::new(msg(1, 20, "ada", "hello", false))),
        0,
    );
    assert_eq!(a.view.message_view.messages().len(), 1);
    assert_eq!(actions.len(), 1);
    match &actions[0] {
        Action::Notify { summary, body } => {
            assert_eq!(summary, "ada");
            assert_eq!(body, "hello");
        },
        other => panic!("expected a notification, got {:?}", other),
    }
}

#[test]
fn own_messages_are_not_notified() {
    let mut a = app();
    let actions = a.handle_event(
        Event::NewMessage(Box::new(msg(1, 20, "me", "hi", true))),
        0,
    );
    assert!(actions.is_empty());
    assert_eq!(a.view.message_view.messages().len(), 1);
}

#[test]
fn messages_for_other_channels_are_ignored() {
    let mut a = app();
    let actions = a.handle_event(
        Event::NewMessage(Box::new(msg(1, 99, "ada", "elsewhere", false))),
        0,
    );
    assert!(actions.is_empty());
    assert!(a.view.message_view.messages().is_empty());
}

#[test]
fn delete_and_bulk_delete_remove_by_channel_and_id() {
    let mut a = app();
    for i in 1..=4u64 {
        a.handle_event(Event::NewMessage(Box::new(msg(i, 20, "ada", "x", true))), 0);
    }
    a.handle_event(Event::MessageDelete(20, 2), 0);
    assert_eq!(a.view.message_view.messages().len(), 3);
    a.handle_event(Event::MessageDeleteBulk(20, vec![1, 4]), 0);
    let left = a.view.message_view.messages();
    assert_eq!(left.len(), 1);
    let MessageItem::DiscordMessage(m) = &left[0];
    assert_eq!(m.id, 3);
}

#[test]
fn update_patches_only_present_fields() {
    let mut a = app();
    a.handle_event(Event::NewMessage(Box::new(msg(5, 20, "ada", "old", true))), 0);
    let update = MessageUpdate {
        id: 5,
        channel_id: 20,
        author_name: None,
        content: Some("new".to_string()),
        timestamp: None,
        edited_timestamp: Some(42),
        has_attachments: None,
    };
    a.handle_event(Event::MessageUpdateEvent(Box::new(update)), 0);
    let MessageItem::DiscordMessage(m) = &a.view.message_view.messages()[0];
    assert_eq!(m.content, "new");
    assert_eq!(m.author_name, "ada");
    assert_eq!(m.edited_timestamp, Some(42));
}

#[test]
fn set_channel_switches_and_reloads() {
    let mut a = app();
    let actions = a.handle_event(Event::SetChannel(33), 0);
    assert_eq!(a.context.channel, Some(33));
    assert!(matches!(actions[0], Action::LoadMessages { channel: 33 }));
}

#[test]
fn user_message_goes_to_the_active_channel() {
    let mut a = app();
    let actions = a.handle_event(Event::UserMessage("hey".to_string()), 0);
    match &actions[0] {
        Action::SendMessage { channel, content } => {
            assert_eq!(*channel, 20);
            assert_eq!(content, "hey");
        },
        other => panic!("expected a send, got {:?}", other),
    }
}

#[test]
fn user_message_without_a_channel_reports_an_error() {
    let prefs = Preferences::new("SECRET-REDACTED".to_string(), None, None);
    let state = State { guild: None, channel: None, guild_sidebar_visible: true };
    let mut a = Application::new(&prefs, &state, TermSize { width: 80, height: 24 }, false);
    let actions = a.handle_event(Event::UserMessage("hey".to_string()), 0);
    match &actions[0] {
        Action::PostEvent(Event::InternalError(e)) => {
            assert_eq!(e, "Unable to send message in current channel");
        },
        other => panic!("expected an internal error, got {:?}", other),
    }
}

#[test]
fn toggle_sidebar_flips_context_and_view() {
    let mut a = app();
    assert!(a.view.message_view.showing_sidebar());
    let actions = a.handle_event(Event::UserCommand("tbar".to_string()), 0);
    assert!(actions.is_empty());
    assert!(!a.view.message_view.showing_sidebar());
    assert!(!a.context.guild_sidebar_visible);
}

#[test]
fn nick_commands_target_the_active_guild() {
    let mut a = app();
    let actions = a.handle_event(Event::UserCommand("nick neo".to_string()), 0);
    match &actions[0] {
        Action::EditNickname { guild, nick } => {
            assert_eq!(*guild, 10);
            assert_eq!(nick.as_deref(), Some("neo"));
        },
        other => panic!("expected a nickname edit, got {:?}", other),
    }
    let actions = a.handle_event(Event::UserCommand("cnick".to_string()), 0);
    assert!(matches!(&actions[0], Action::EditNickname { guild: 10, nick: None }));
}

#[test]
fn set_channel_command_posts_the_switch() {
    let mut a = app();
    let actions = a.handle_event(Event::UserCommand("schan 42".to_string()), 0);
    assert!(matches!(actions[0], Action::PostEvent(Event::SetChannel(42))));
    let none = a.handle_event(Event::UserCommand("schan notanumber".to_string()), 0);
    assert!(none.is_empty());
}

#[test]
fn typing_event_schedules_a_sweep() {
    let mut a = app();
    let actions = a.handle_event(
        Event::TypingStart(TypingEvent {
            user_id: 3,
            timestamp: 50,
            user_name: Some("ada".to_string()),
        }),
        0,
    );
    assert!(matches!(actions[0], Action::ScheduleTypingSweep));
    // The timer's follow-up event sweeps with the clock it is handed.
    let actions = a.handle_event(Event::WindowSizeChange, 61);
    assert!(matches!(actions[0], Action::Redraw));
}

#[test]
fn user_typing_broadcasts_to_the_active_channel() {
    let mut a = app();
    let actions = a.handle_event(Event::UserTyping, 0);
    assert!(matches!(actions[0], Action::BroadcastTyping { channel: 20 }));
}

#[test]
fn internal_errors_are_logged_and_absorbed() {
    let mut a = app();
    let actions = a.handle_event(Event::InternalError("boom".to_string()), 0);
    assert_eq!(actions.len(), 1);
    match &actions[0] {
        Action::LogError(e) => assert_eq!(e, "boom"),
        other => panic!("expected a log entry, got {:?}", other),
    }
    assert_eq!(a.run_state(), RunState::NotReady);
}

#[test]
fn present_renders_a_full_frame() {
    let mut a = app();
    a.handle_event(Event::NewMessage(Box::new(msg(1, 20, "ada", "hello", true))), 0);
    let ctx_rows = {
        let context = &a.context;
        a.view.present(context)
    };
    assert_eq!(ctx_rows.len(), 24);
    // The message area shows the author and the body.
    assert!(ctx_rows.iter().any(|r| r.contains("ada:")));
    assert!(ctx_rows.iter().any(|r| r.contains("hello")));
    // The input box border is drawn near the bottom.
    assert!(ctx_rows[20].contains("┌"));
}
