/// The conversation session: history, requests and streamed replies.
pub mod chat_service;

/// Events, and the table that turns input-device reports into them.
pub mod event_service;

/// The application state machine.
pub mod ui_service;
