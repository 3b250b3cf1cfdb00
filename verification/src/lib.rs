//! Core of a terminal chat client: an event-driven application state
//! machine, a cell-grid screen buffer, message and typing-indicator
//! models, and the small grammars the client understands.

pub mod application;
pub mod chars;
pub mod cmd_parsing;
pub mod command;
pub mod errors;
pub mod event;
pub mod guilds;
pub mod input;
pub mod layout;
pub mod markdown;
pub mod message;
pub mod messages;
pub mod screen;
pub mod state;
pub mod typing;
