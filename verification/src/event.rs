use vstd::prelude::*;
use crate::message::{CurrentUser, Message, MessageUpdate};

verus! {

/// A decoded keyboard key.
#[derive(Debug, Clone, Copy, PartialEq, Eq, Structural)]
pub enum Key {
    Backspace,
    Left,
    Right,
    Up,
    Down,
    Home,
    End,
    PageUp,
    PageDown,
    BackTab,
    Delete,
    Insert,
    F(u8),
    Char(char),
    Alt(char),
    Ctrl(char),
    Null,
    Esc,
}

/// A typing notification from the gateway, with the display name the
/// forwarder could resolve for the user, if any.
#[derive(Debug, Clone)]
pub struct TypingEvent {
    pub user_id: u64,
    pub timestamp: u64,
    pub user_name: Option<String>,
}

/// One event on the application bus. Producers construct these; the
/// application core consumes them one at a time.
#[derive(Debug)]
pub enum Event {
    ShutdownAll,
    NewMessage(Box<Message>),
    MessageDelete(u64, u64),
    MessageDeleteBulk(u64, Vec<u64>),
    MessageUpdateEvent(Box<MessageUpdate>),
    DiscordReady(Box<CurrentUser>),
    SetChannel(u64),
    Keypress(Key),
    UserMessage(String),
    UserCommand(String),
    UserTyping,
    TypingStart(TypingEvent),
    InternalError(String),
    ChannelUpdateEvent,
    WindowSizeChange,
}

} // verus!
