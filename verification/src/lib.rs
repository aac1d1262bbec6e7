//! Core of a terminal session multiplexer that overlays a conversational
//! assistant on a live shell: the screen model, the conversation session,
//! the input translation table and the application state machine.

/// The state the interface is drawn from.
pub mod app_state;

/// The screen model.
pub mod screen;

/// Conversation, events and the application state machine.
pub mod services;

/// Pane geometry and the raw context buffer.
pub mod terminal_utils;
