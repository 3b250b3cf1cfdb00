use vstd::prelude::*;

verus! {

/// The identity of the logged-in user.
#[derive(Debug, Clone)]
pub struct CurrentUser {
    pub id: u64,
    pub name: String,
}

/// The plain model of a chat message: what the renderer and the
/// message view read of it.
#[derive(Debug, Clone)]
pub struct Message {
    pub id: u64,
    pub channel_id: u64,
    pub author_name: String,
    pub content: String,
    /// Seconds since the epoch of the moment the message was sent.
    pub timestamp: i64,
    /// The edit moment, when the message has been edited.
    pub edited_timestamp: Option<i64>,
    pub has_attachments: bool,
    /// Whether the logged-in user wrote it.
    pub is_own: bool,
}

/// A partial update of a message: only the fields present are patched.
#[derive(Debug, Clone)]
pub struct MessageUpdate {
    pub id: u64,
    pub channel_id: u64,
    pub author_name: Option<String>,
    pub content: Option<String>,
    pub timestamp: Option<i64>,
    pub edited_timestamp: Option<i64>,
    pub has_attachments: Option<bool>,
}

/// One item of the message view.
#[derive(Debug, Clone)]
pub enum MessageItem {
    DiscordMessage(Box<Message>),
}

/// The message a patch leaves behind: each field of the update that is
/// present replaces the message's own; an edit moment is recorded.
pub open spec fn spec_patched(msg: Message, update: MessageUpdate) -> Message {
    Message {
        id: msg.id,
        channel_id: msg.channel_id,
        author_name: match update.author_name {
            Some(n) => n,
            None => msg.author_name,
        },
        content: match update.content {
            Some(c) => c,
            None => msg.content,
        },
        timestamp: match update.timestamp {
            Some(t) => t,
            None => msg.timestamp,
        },
        edited_timestamp: match update.edited_timestamp {
            Some(t) => Some(t),
            None => msg.edited_timestamp,
        },
        has_attachments: match update.has_attachments {
            Some(a) => a,
            None => msg.has_attachments,
        },
        is_own: msg.is_own,
    }
}

/// Patches `msg` in place with the fields present in `update`.
pub fn update_msg(msg: &mut Message, update: MessageUpdate)
    ensures
        *final(msg) == spec_patched(*old(msg), update),
{
    match update.author_name {
        Some(n) => {
            msg.author_name = n;
        },
        None => {},
    }
    match update.content {
        Some(c) => {
            msg.content = c;
        },
        None => {},
    }
    match update.timestamp {
        Some(t) => {
            msg.timestamp = t;
        },
        None => {},
    }
    match update.edited_timestamp {
        Some(t) => {
            msg.edited_timestamp = Some(t);
        },
        None => {},
    }
    match update.has_attachments {
        Some(a) => {
            msg.has_attachments = a;
        },
        None => {},
    }
}

} // verus!
