use crate::services::event_service::Direction;
use vstd::prelude::*;
use vstd::string::StringExecFns;

verus! {

/// Which pane has the keyboard.
#[derive(Clone, Copy, Debug, PartialEq, Eq, Structural)]
pub enum Mode {
    Terminal,
    Chat,
}

/// Who wrote a message of the transcript.
#[derive(Clone, Copy, Debug, PartialEq, Eq, Structural)]
pub enum MessageSender {
    Assistant,
    User,
}

/// One message of the transcript shown in the chat pane.
#[derive(Clone, Debug, PartialEq, Eq)]
pub struct Message {
    pub sender: MessageSender,
    pub message: String,
}

pub struct MessageView {
    pub sender: MessageSender,
    pub message: Seq<char>,
}

impl View for Message {
    type V = MessageView;

    open spec fn view(&self) -> MessageView {
        MessageView { sender: self.sender, message: self.message@ }
    }
}

/// Cells that the header of a message takes besides its rule, when the
/// user wrote the message.
pub const USER_HEADER_CELLS: usize = 12;

/// Cells that the header of a message takes besides its rule and the name
/// of the persona, when the assistant wrote the message.
pub const ASSISTANT_HEADER_CELLS: usize = 15;

/// The length of the rule that fills the header of a message in a pane
/// `width` cells wide, where the persona's name takes `role_len` bytes:
/// what the fixed part of the header leaves of the width, and nothing if
/// the header does not fit.
pub open spec fn header_fill(sender: MessageSender, width: nat, role_len: nat) -> nat {
    match sender {
        MessageSender::User => if width >= USER_HEADER_CELLS as nat {
            (width - USER_HEADER_CELLS as nat) as nat
        } else {
            0
        },
        MessageSender::Assistant => if width >= ASSISTANT_HEADER_CELLS as nat + role_len {
            (width - ASSISTANT_HEADER_CELLS as nat - role_len) as nat
        } else {
            0
        },
    }
}

/// Computes the length of the rule in the header of a message.
pub fn header_fill_of(sender: MessageSender, width: usize, role_len: usize) -> (r: usize)
    ensures
        r == header_fill(sender, width as nat, role_len as nat),
{
    match sender {
        MessageSender::User => if width >= USER_HEADER_CELLS {
            width - USER_HEADER_CELLS
        } else {
            0
        },
        MessageSender::Assistant => if width >= role_len && width - role_len
            >= ASSISTANT_HEADER_CELLS {
            width - role_len - ASSISTANT_HEADER_CELLS
        } else {
            0
        },
    }
}

/// The views of a sequence of messages.
pub open spec fn message_views(messages: Seq<Message>) -> Seq<MessageView> {
    messages.map_values(|message: Message| message@)
}

/// A scroll offset after one step in `direction`: up adds one, down takes
/// one away, and the offset stays within its type.
pub open spec fn scrolled(offset: u16, direction: Direction) -> u16 {
    match direction {
        Direction::Up => if offset < u16::MAX {
            (offset + 1) as u16
        } else {
            offset
        },
        Direction::Down => if offset > 0 {
            (offset - 1) as u16
        } else {
            0u16
        },
    }
}

/// A scroll offset never goes below zero: stepping down from zero leaves
/// zero. A step moves the offset by at most one, and never against its
/// direction.
pub proof fn lemma_scroll_is_bounded(offset: u16, direction: Direction)
    ensures
        scrolled(0, Direction::Down) == 0,
        scrolled(offset, Direction::Down) <= offset <= scrolled(offset, Direction::Up),
        scrolled(offset, Direction::Up) - offset <= 1,
        offset - scrolled(offset, Direction::Down) <= 1,
        offset > 0 ==> scrolled(offset, Direction::Down) == offset - 1,
        offset < u16::MAX ==> scrolled(offset, Direction::Up) == offset + 1,
{
}

/// The state the interface is drawn from.
#[derive(Clone, Debug, PartialEq, Eq)]
pub struct AppState {
    pub running: bool,
    pub current_mode: Mode,
    pub tick: i64,
    /// The pending input of the chat pane.
    pub user_chat_to_send_to_gpt: String,
    /// The transcript of the chat pane.
    pub chat_history: Vec<Message>,
    /// Whether a reply is awaited; no message can be sent while it is.
    pub disable_chat: bool,
    /// Scroll offset of the chat pane.
    pub scroll: u16,
    /// Scroll offset of the terminal pane.
    pub terminal_scroll: u16,
    /// Whether the terminal pane was used since the last message.
    pub terminal_has_been_active: bool,
}

pub struct AppStateView {
    pub running: bool,
    pub current_mode: Mode,
    pub tick: i64,
    pub input: Seq<char>,
    pub chat_history: Seq<MessageView>,
    pub disable_chat: bool,
    pub scroll: u16,
    pub terminal_scroll: u16,
    pub terminal_has_been_active: bool,
}

impl View for AppState {
    type V = AppStateView;

    open spec fn view(&self) -> AppStateView {
        AppStateView {
            running: self.running,
            current_mode: self.current_mode,
            tick: self.tick,
            input: self.user_chat_to_send_to_gpt@,
            chat_history: message_views(self.chat_history@),
            disable_chat: self.disable_chat,
            scroll: self.scroll,
            terminal_scroll: self.terminal_scroll,
            terminal_has_been_active: self.terminal_has_been_active,
        }
    }
}

impl AppStateView {
    /// The state at startup: running, in chat mode, everything else empty.
    pub open spec fn initial() -> AppStateView {
        AppStateView {
            running: true,
            current_mode: Mode::Chat,
            tick: 0,
            input: Seq::empty(),
            chat_history: Seq::empty(),
            disable_chat: false,
            scroll: 0,
            terminal_scroll: 0,
            terminal_has_been_active: false,
        }
    }

    /// The other mode. Leaving the terminal pane marks it as used.
    pub open spec fn mode_changed(self) -> AppStateView {
        match self.current_mode {
            Mode::Chat => AppStateView { current_mode: Mode::Terminal, ..self },
            Mode::Terminal => AppStateView {
                current_mode: Mode::Chat,
                terminal_has_been_active: true,
                ..self
            },
        }
    }

    /// One more tick counted; the count stops at the largest number.
    pub open spec fn ticked(self) -> AppStateView {
        AppStateView {
            tick: if self.tick < i64::MAX {
                (self.tick + 1) as i64
            } else {
                self.tick
            },
            ..self
        }
    }

    /// No longer running.
    pub open spec fn stopped(self) -> AppStateView {
        AppStateView { running: false, ..self }
    }

    /// The chat pane scrolled one step.
    pub open spec fn chat_scrolled(self, direction: Direction) -> AppStateView {
        AppStateView { scroll: scrolled(self.scroll, direction), ..self }
    }

    /// The terminal pane scrolled one step.
    pub open spec fn terminal_scrolled(self, direction: Direction) -> AppStateView {
        AppStateView { terminal_scroll: scrolled(self.terminal_scroll, direction), ..self }
    }

    /// The transcript with one more fragment of the assistant's reply: it
    /// continues the last message if the assistant wrote that, and starts a
    /// new message otherwise.
    pub open spec fn with_token(self, text: Seq<char>) -> AppStateView {
        let history = self.chat_history;
        AppStateView {
            chat_history: if history.len() > 0 && history.last().sender
                == MessageSender::Assistant {
                history.update(
                    history.len() - 1,
                    MessageView {
                        sender: MessageSender::Assistant,
                        message: history.last().message + text,
                    },
                )
            } else {
                history.push(MessageView { sender: MessageSender::Assistant, message: text })
            },
            ..self
        }
    }
}

/// One step of a scroll offset.
pub fn scroll_step(offset: u16, direction: Direction) -> (r: u16)
    ensures
        r == scrolled(offset, direction),
{
    match direction {
        Direction::Up => if offset < u16::MAX {
            offset + 1
        } else {
            offset
        },
        Direction::Down => if offset > 0 {
            offset - 1
        } else {
            0
        },
    }
}

impl AppState {
    pub fn new() -> (r: AppState)
        ensures
            r@ == AppStateView::initial(),
    {
        let r = AppState {
            running: true,
            current_mode: Mode::Chat,
            tick: 0,
            user_chat_to_send_to_gpt: String::new(),
            chat_history: Vec::new(),
            disable_chat: false,
            scroll: 0,
            terminal_scroll: 0,
            terminal_has_been_active: false,
        };
        assert(message_views(r.chat_history@) =~= Seq::empty());
        r
    }

    pub fn change_mode(&mut self)
        ensures
            final(self)@ == old(self)@.mode_changed(),
    {
        match self.current_mode {
            Mode::Chat => {
                self.current_mode = Mode::Terminal;
            },
            Mode::Terminal => {
                self.terminal_has_been_active = true;
                self.current_mode = Mode::Chat;
            },
        }
    }

    pub fn tick(&mut self)
        ensures
            final(self)@ == old(self)@.ticked(),
    {
        if self.tick < i64::MAX {
            self.tick = self.tick + 1;
        }
    }

    pub fn quit(&mut self)
        ensures
            final(self)@ == old(self)@.stopped(),
    {
        self.running = false;
    }

    pub fn scroll_chat(&mut self, direction: Direction)
        ensures
            final(self)@ == old(self)@.chat_scrolled(direction),
    {
        self.scroll = scroll_step(self.scroll, direction);
    }

    pub fn scroll_terminal(&mut self, direction: Direction)
        ensures
            final(self)@ == old(self)@.terminal_scrolled(direction),
    {
        self.terminal_scroll = scroll_step(self.terminal_scroll, direction);
    }

    /// Adds one fragment of the assistant's reply to the transcript.
    pub fn accept_token(&mut self, text: String)
        ensures
            final(self)@ == old(self)@.with_token(text@),
    {
        let ghost before = self.chat_history@;
        let n = self.chat_history.len();
        let continues = if n > 0 {
            match self.chat_history[n - 1].sender {
                MessageSender::Assistant => true,
                MessageSender::User => false,
            }
        } else {
            false
        };
        if continues {
            let mut last = self.chat_history.pop().unwrap();
            last.message.append(text.as_str());
            self.chat_history.push(last);
            assert(message_views(self.chat_history@) =~= message_views(before).update(
                before.len() - 1,
                MessageView {
                    sender: MessageSender::Assistant,
                    message: before.last().message@ + text@,
                },
            ));
        } else {
            self.chat_history.push(Message { sender: MessageSender::Assistant, message: text });
            assert(message_views(self.chat_history@) =~= message_views(before).push(
                MessageView { sender: MessageSender::Assistant, message: text@ },
            ));
        }
    }
}

} // verus!
