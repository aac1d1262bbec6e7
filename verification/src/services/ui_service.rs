use crate::app_state::{message_views, AppState, AppStateView, Message, MessageSender, MessageView, Mode};
use crate::services::chat_service::{Action, ActionView, Persona};
use crate::services::event_service::{Direction, Event, EventView, KeyCode, KeyEvent};
use crate::terminal_utils::{usable_size, Geometry, LayoutPolicy, LayoutPolicyView};
use vstd::prelude::*;
use vstd::string::StrSliceExecFns;
use vstd::string::StringExecFns;
use vstd::utf8::encode_utf8;

verus! {

/// The line that empties the conversation.
pub const CLEAR_COMMAND: &'static str = "/clear";

/// The line that hands the conversation to the network engineer.
pub const NETWORK_COMMAND: &'static str = "/network";

/// The line that hands the conversation to the Linux engineer.
pub const LINUX_COMMAND: &'static str = "/linux";

/// What stands before the terminal output in a message that carries it.
pub const CONTEXT_OPENING: &'static str = "This is my terminal output: \n\n ```\n";

/// What stands between the terminal output and the user's own words.
pub const CONTEXT_CLOSING: &'static str = "\n```\n\n";

/// `String::push` appends one character.
pub assume_specification[ String::push ](s: &mut String, c: char)
    ensures
        final(s)@ == old(s)@.push(c),
;

/// `String::pop` removes the last character and returns it, or returns
/// `None` and changes nothing if the string is empty.
pub assume_specification[ String::pop ](s: &mut String) -> (r: Option<char>)
    ensures
        old(s)@.len() == 0 ==> r.is_none() && final(s)@ == old(s)@,
        old(s)@.len() > 0 ==> r == Some(old(s)@.last()) && final(s)@ == old(s)@.drop_last(),
;

/// What a submitted line of the chat pane means.
#[derive(Clone, Copy, Debug, PartialEq, Eq, Structural)]
pub enum Command {
    /// Empty the conversation.
    Clear,
    /// Hand the conversation to another persona.
    Persona(Persona),
    /// Send the line to the assistant.
    Message,
}

/// The meaning of a line: a reserved command if the whole line is one,
/// letter for letter, and a message otherwise.
pub open spec fn command_of(line: Seq<char>) -> Command {
    if line == CLEAR_COMMAND@ {
        Command::Clear
    } else if line == NETWORK_COMMAND@ {
        Command::Persona(Persona::NetworkEngineer)
    } else if line == LINUX_COMMAND@ {
        Command::Persona(Persona::LinuxEngineer)
    } else {
        Command::Message
    }
}

/// Resolves a submitted line.
pub fn parse_command(line: &String) -> (r: Command)
    ensures
        r == command_of(line@),
{
    if *line == CLEAR_COMMAND.to_owned() {
        Command::Clear
    } else if *line == NETWORK_COMMAND.to_owned() {
        Command::Persona(Persona::NetworkEngineer)
    } else if *line == LINUX_COMMAND.to_owned() {
        Command::Persona(Persona::LinuxEngineer)
    } else {
        Command::Message
    }
}

/// A message that carries the terminal output before the user's words.
pub open spec fn with_context(context: Seq<char>, line: Seq<char>) -> Seq<char> {
    CONTEXT_OPENING@ + context + CONTEXT_CLOSING@ + line
}

/// Builds the message that carries the terminal output.
pub fn compose_with_context(context: &String, line: &String) -> (r: String)
    ensures
        r@ == with_context(context@, line@),
{
    let mut text = CONTEXT_OPENING.to_owned();
    text.append(context.as_str());
    text.append(CONTEXT_CLOSING);
    text.append(line.as_str());
    text
}

/// The bytes a real terminal sends for a key, and `None` for a key that
/// sends nothing. Control with `c` is the interrupt byte; any other
/// character is its UTF-8 encoding.
pub open spec fn key_bytes(key: KeyEvent) -> Option<Seq<u8>> {
    match key.code {
        KeyCode::Char(c) => if c == 'c' && key.modifiers.control {
            Some(seq![3u8])
        } else {
            Some(encode_utf8(seq![c]))
        },
        KeyCode::Enter => Some(seq![13u8]),
        KeyCode::Backspace => Some(seq![8u8]),
        KeyCode::Up => Some(seq![27u8, 91u8, 65u8]),
        KeyCode::Down => Some(seq![27u8, 91u8, 66u8]),
        KeyCode::Right => Some(seq![27u8, 91u8, 67u8]),
        KeyCode::Left => Some(seq![27u8, 91u8, 68u8]),
        KeyCode::Delete => Some(seq![27u8, 91u8, 51u8, 126u8]),
        KeyCode::Esc => Some(seq![27u8]),
        KeyCode::Tab => Some(seq![9u8]),
        KeyCode::Other => None,
    }
}

/// The UTF-8 encoding of one character.
pub fn encode_char(c: char) -> (r: Vec<u8>)
    ensures
        r@ == encode_utf8(seq![c]),
{
    let mut s = String::new();
    s.push(c);
    assert(s@ =~= seq![c]);
    s.as_str().as_bytes_vec()
}

/// Translates a key into what the shell is to receive.
pub fn encode_key(key: KeyEvent) -> (r: Option<Vec<u8>>)
    ensures
        r.is_some() <==> key_bytes(key).is_some(),
        r.is_some() ==> r.unwrap()@ == key_bytes(key).unwrap(),
{
    match key.code {
        KeyCode::Char(c) => if c == 'c' && key.modifiers.control {
            Some(vec![3u8])
        } else {
            Some(encode_char(c))
        },
        KeyCode::Enter => Some(vec![13u8]),
        KeyCode::Backspace => Some(vec![8u8]),
        KeyCode::Up => Some(vec![27u8, 91u8, 65u8]),
        KeyCode::Down => Some(vec![27u8, 91u8, 66u8]),
        KeyCode::Right => Some(vec![27u8, 91u8, 67u8]),
        KeyCode::Left => Some(vec![27u8, 91u8, 68u8]),
        KeyCode::Delete => Some(vec![27u8, 91u8, 51u8, 126u8]),
        KeyCode::Esc => Some(vec![27u8]),
        KeyCode::Tab => Some(vec![9u8]),
        KeyCode::Other => None,
    }
}

/// What the driver of the state machine is to do after an event.
#[derive(Clone, Debug, PartialEq, Eq)]
pub enum Effect {
    Nothing,
    /// Write these bytes to the shell.
    WriteTerminal(Vec<u8>),
    /// Hand this action to the conversation session.
    Dispatch(Action),
    /// Give the shell and the screen model this size.
    ResizeScreen(Geometry),
}

pub enum EffectView {
    Nothing,
    WriteTerminal(Seq<u8>),
    Dispatch(ActionView),
    /// Rows, then columns.
    ResizeScreen(u16, u16),
}

impl View for Effect {
    type V = EffectView;

    open spec fn view(&self) -> EffectView {
        match self {
            Effect::Nothing => EffectView::Nothing,
            Effect::WriteTerminal(bytes) => EffectView::WriteTerminal(bytes@),
            Effect::Dispatch(action) => EffectView::Dispatch(action@),
            Effect::ResizeScreen(geometry) => EffectView::ResizeScreen(geometry@.0, geometry@.1),
        }
    }
}

/// The state machine as a value.
pub struct UiView {
    pub app_state: AppStateView,
    pub gpt_role: Seq<char>,
    pub layout: LayoutPolicyView,
}

/// What one event makes of the state machine and of the raw context buffer,
/// and what it asks of the driver.
pub struct UiStep {
    pub state: UiView,
    pub context: Seq<char>,
    pub effect: EffectView,
}

impl UiView {
    /// Nothing changes and nothing is asked.
    pub open spec fn idle(self, context: Seq<char>) -> UiStep {
        UiStep { state: self, context, effect: EffectView::Nothing }
    }

    /// Only the application state changes.
    pub open spec fn becoming(self, app_state: AppStateView, context: Seq<char>) -> UiStep {
        UiStep { state: UiView { app_state, ..self }, context, effect: EffectView::Nothing }
    }

    /// The interface with its pending input, transcript and chat scroll
    /// offset emptied.
    pub open spec fn wiped(self) -> UiView {
        UiView {
            app_state: AppStateView {
                input: Seq::empty(),
                chat_history: Seq::empty(),
                scroll: 0,
                ..self.app_state
            },
            ..self
        }
    }

    /// Submitting the pending input. A reserved command empties the
    /// interface and the raw context buffer and dispatches its action. Any
    /// other line is sent as a message, behind the terminal output if the
    /// terminal pane was used since the last message; it joins the
    /// transcript, and from then on a reply is awaited.
    pub open spec fn on_submit(self, context: Seq<char>) -> UiStep {
        let line = self.app_state.input;
        match command_of(line) {
            Command::Clear => UiStep {
                state: self.wiped(),
                context: Seq::empty(),
                effect: EffectView::Dispatch(ActionView::ClearHistory),
            },
            Command::Persona(persona) => UiStep {
                state: UiView { gpt_role: persona.label_text(), ..self.wiped() },
                context: Seq::empty(),
                effect: EffectView::Dispatch(ActionView::SwitchPersona(persona)),
            },
            Command::Message => UiStep {
                state: UiView {
                    app_state: AppStateView {
                        input: Seq::empty(),
                        chat_history: self.app_state.chat_history.push(
                            MessageView { sender: MessageSender::User, message: line },
                        ),
                        disable_chat: true,
                        terminal_has_been_active: false,
                        ..self.app_state
                    },
                    ..self
                },
                context,
                effect: EffectView::Dispatch(
                    ActionView::SendMessage(
                        if self.app_state.terminal_has_been_active {
                            with_context(context, line)
                        } else {
                            line
                        },
                    ),
                ),
            },
        }
    }

    /// A key in chat mode. While a reply is awaited, characters and the
    /// submit key are ignored.
    pub open spec fn on_chat_key(self, key: KeyEvent, context: Seq<char>) -> UiStep {
        let app = self.app_state;
        match key.code {
            KeyCode::Char(c) => if (c == 'c' && key.modifiers.control) || app.disable_chat {
                self.idle(context)
            } else {
                self.becoming(AppStateView { input: app.input.push(c), ..app }, context)
            },
            KeyCode::Enter => if app.disable_chat {
                self.idle(context)
            } else {
                self.on_submit(context)
            },
            KeyCode::Backspace => if app.input.len() > 0 {
                self.becoming(AppStateView { input: app.input.drop_last(), ..app }, context)
            } else {
                self.idle(context)
            },
            KeyCode::Esc => self.becoming(AppStateView { input: Seq::empty(), ..app }, context),
            _ => self.idle(context),
        }
    }

    /// A key in terminal mode goes to the shell as the bytes a terminal
    /// would send.
    pub open spec fn on_terminal_key(self, key: KeyEvent, context: Seq<char>) -> UiStep {
        UiStep {
            state: self,
            context,
            effect: match key_bytes(key) {
                Some(bytes) => EffectView::WriteTerminal(bytes),
                None => EffectView::Nothing,
            },
        }
    }

    /// A change of the display's size. The panes are laid out anew; the
    /// terminal is resized unless its pane would not be a usable screen.
    pub open spec fn on_resize(self, columns: u16, rows: u16, context: Seq<char>) -> UiStep {
        let pane = self.layout.pane(columns as int, rows as int);
        UiStep {
            state: self,
            context,
            effect: if usable_size(pane.0, pane.1) {
                EffectView::ResizeScreen(pane.0 as u16, pane.1 as u16)
            } else {
                EffectView::Nothing
            },
        }
    }

    /// The step an event causes, given what the raw context buffer holds.
    pub open spec fn on_event(self, event: EventView, context: Seq<char>) -> UiStep {
        let app = self.app_state;
        match event {
            EventView::Tick => self.becoming(app.ticked(), context),
            EventView::Quit => self.becoming(app.stopped(), context),
            EventView::ModeChanged => self.becoming(app.mode_changed(), context),
            EventView::ConversationToken(text) => self.becoming(app.with_token(text), context),
            EventView::ConversationFinished(done) => if done {
                self.becoming(AppStateView { disable_chat: false, ..app }, context)
            } else {
                self.idle(context)
            },
            EventView::ScrollChat(direction) => self.becoming(app.chat_scrolled(direction), context),
            EventView::ScrollTerminal(direction) => self.becoming(
                app.terminal_scrolled(direction),
                context,
            ),
            EventView::MouseScroll(direction) => match app.current_mode {
                Mode::Chat => self.becoming(app.chat_scrolled(direction), context),
                Mode::Terminal => self.becoming(app.terminal_scrolled(direction), context),
            },
            EventView::Resize(columns, rows) => self.on_resize(columns, rows, context),
            EventView::KeyInput(key) => match app.current_mode {
                Mode::Chat => self.on_chat_key(key, context),
                Mode::Terminal => self.on_terminal_key(key, context),
            },
        }
    }
}

/// Whether an effect hands a message to the conversation session.
pub open spec fn sends_message(effect: EffectView) -> bool {
    effect matches EffectView::Dispatch(ActionView::SendMessage(_))
}

/// The flag that says a reply is awaited. It is set by the step that
/// dispatches a message, and by no other; it is cleared by the event that
/// says the reply is complete, and by no other. A message is dispatched
/// only while it is clear.
pub proof fn lemma_awaiting_flag(ui: UiView, event: EventView, context: Seq<char>)
    ensures
        ({
            let step = ui.on_event(event, context);
            let before = ui.app_state.disable_chat;
            let after = step.state.app_state.disable_chat;
            &&& sends_message(step.effect) ==> !before && after
            &&& !before && after ==> sends_message(step.effect)
            &&& before && !after ==> event == EventView::ConversationFinished(true)
            &&& event == EventView::ConversationFinished(true) ==> !after
        }),
{
}

/// Scroll offsets stop at zero: an event that scrolls down a pane whose
/// offset is zero leaves it at zero, and no scroll event touches the other
/// pane.
pub proof fn lemma_scroll_stops_at_zero(ui: UiView, context: Seq<char>)
    ensures
        ({
            let chat = ui.on_event(EventView::ScrollChat(Direction::Down), context).state.app_state;
            let terminal = ui.on_event(
                EventView::ScrollTerminal(Direction::Down),
                context,
            ).state.app_state;
            let wheel = ui.on_event(EventView::MouseScroll(Direction::Down), context).state.app_state;
            &&& ui.app_state.scroll == 0 ==> chat.scroll == 0
            &&& chat.terminal_scroll == ui.app_state.terminal_scroll
            &&& ui.app_state.terminal_scroll == 0 ==> terminal.terminal_scroll == 0
            &&& terminal.scroll == ui.app_state.scroll
            &&& ui.app_state.scroll == 0 ==> wheel.scroll == 0
            &&& ui.app_state.terminal_scroll == 0 ==> wheel.terminal_scroll == 0
        }),
{
}

/// The application state machine: it consumes the merged events one at a
/// time, keeps the state the interface is drawn from, and says what is to
/// be written to the shell or asked of the conversation session.
pub struct UiService {
    app_state: AppState,
    /// The name shown beside the assistant's replies.
    gpt_role: String,
    layout: LayoutPolicy,
}

impl View for UiService {
    type V = UiView;

    closed spec fn view(&self) -> UiView {
        UiView { app_state: self.app_state@, gpt_role: self.gpt_role@, layout: self.layout@ }
    }
}

impl UiService {
    /// A state machine over `app_state`, with the standard layout and no
    /// persona named.
    pub fn new(app_state: AppState) -> (r: UiService)
        ensures
            r@ == (UiView {
                app_state: app_state@,
                gpt_role: Seq::empty(),
                layout: LayoutPolicy::standard_view(),
            }),
    {
        UiService { app_state, gpt_role: String::new(), layout: LayoutPolicy::standard() }
    }

    /// A state machine over `app_state` that lays the display out by
    /// `layout`.
    pub fn with_layout(app_state: AppState, layout: LayoutPolicy) -> (r: UiService)
        ensures
            r@ == (UiView { app_state: app_state@, gpt_role: Seq::empty(), layout: layout@ }),
    {
        UiService { app_state, gpt_role: String::new(), layout }
    }

    /// The state the interface is drawn from.
    pub fn app_state(&self) -> (r: &AppState)
        ensures
            r@ == self@.app_state,
    {
        &self.app_state
    }

    /// The name shown beside the assistant's replies; empty until a persona
    /// is chosen.
    pub fn gpt_role(&self) -> (r: &String)
        ensures
            r@ == self@.gpt_role,
    {
        &self.gpt_role
    }

    /// How the display is divided.
    pub fn layout(&self) -> (r: LayoutPolicy)
        ensures
            r@ == self@.layout,
    {
        self.layout
    }

    /// Empties the pending input, the transcript and the chat scroll offset.
    fn wipe(&mut self)
        ensures
            final(self)@ == old(self)@.wiped(),
    {
        self.app_state.user_chat_to_send_to_gpt = String::new();
        self.app_state.chat_history = Vec::new();
        self.app_state.scroll = 0;
        assert(message_views(self.app_state.chat_history@) =~= Seq::empty());
    }

    fn submit(&mut self, terminal_context: &mut String) -> (effect: Effect)
        ensures
            final(self)@ == old(self)@.on_submit(old(terminal_context)@).state,
            final(terminal_context)@ == old(self)@.on_submit(old(terminal_context)@).context,
            effect@ == old(self)@.on_submit(old(terminal_context)@).effect,
    {
        match parse_command(&self.app_state.user_chat_to_send_to_gpt) {
            Command::Clear => {
                self.wipe();
                *terminal_context = String::new();
                Effect::Dispatch(Action::ClearHistory)
            },
            Command::Persona(persona) => {
                self.wipe();
                *terminal_context = String::new();
                self.gpt_role = persona.label();
                Effect::Dispatch(Action::SwitchPersona(persona))
            },
            Command::Message => {
                let ghost before = self.app_state.chat_history@;
                let line = self.app_state.user_chat_to_send_to_gpt.clone();
                let text = if self.app_state.terminal_has_been_active {
                    compose_with_context(terminal_context, &line)
                } else {
                    line.clone()
                };
                self.app_state.chat_history.push(
                    Message { sender: MessageSender::User, message: line },
                );
                assert(message_views(self.app_state.chat_history@) =~= message_views(before).push(
                    MessageView { sender: MessageSender::User, message: line@ },
                ));
                self.app_state.terminal_has_been_active = false;
                self.app_state.user_chat_to_send_to_gpt = String::new();
                self.app_state.disable_chat = true;
                Effect::Dispatch(Action::SendMessage(text))
            },
        }
    }

    fn handle_chat_key(&mut self, key: KeyEvent, terminal_context: &mut String) -> (effect: Effect)
        ensures
            final(self)@ == old(self)@.on_chat_key(key, old(terminal_context)@).state,
            final(terminal_context)@ == old(self)@.on_chat_key(key, old(terminal_context)@).context,
            effect@ == old(self)@.on_chat_key(key, old(terminal_context)@).effect,
    {
        match key.code {
            KeyCode::Char(c) => {
                if !(c == 'c' && key.modifiers.control) && !self.app_state.disable_chat {
                    self.app_state.user_chat_to_send_to_gpt.push(c);
                }
                Effect::Nothing
            },
            KeyCode::Enter => {
                if self.app_state.disable_chat {
                    Effect::Nothing
                } else {
                    self.submit(terminal_context)
                }
            },
            KeyCode::Backspace => {
                let _ = self.app_state.user_chat_to_send_to_gpt.pop();
                Effect::Nothing
            },
            KeyCode::Esc => {
                self.app_state.user_chat_to_send_to_gpt = String::new();
                Effect::Nothing
            },
            _ => Effect::Nothing,
        }
    }

    fn handle_resize(&self, columns: u16, rows: u16) -> (effect: Effect)
        ensures
            effect@ == self@.on_resize(columns, rows, Seq::empty()).effect,
    {
        match self.layout.pane_geometry(columns, rows) {
            Some(geometry) => Effect::ResizeScreen(geometry),
            None => Effect::Nothing,
        }
    }

    /// Consumes one event. `terminal_context` is the raw context buffer: it
    /// is read when a message is to carry the terminal output, and emptied
    /// by the reserved commands.
    pub fn handle_event(&mut self, event: Event, terminal_context: &mut String) -> (effect: Effect)
        ensures
            final(self)@ == old(self)@.on_event(event@, old(terminal_context)@).state,
            final(terminal_context)@ == old(self)@.on_event(event@, old(terminal_context)@).context,
            effect@ == old(self)@.on_event(event@, old(terminal_context)@).effect,
    {
        match event {
            Event::Tick => {
                self.app_state.tick();
                Effect::Nothing
            },
            Event::Quit => {
                self.app_state.quit();
                Effect::Nothing
            },
            Event::ModeChanged => {
                self.app_state.change_mode();
                Effect::Nothing
            },
            Event::ConversationToken(text) => {
                self.app_state.accept_token(text);
                Effect::Nothing
            },
            Event::ConversationFinished(done) => {
                if done {
                    self.app_state.disable_chat = false;
                }
                Effect::Nothing
            },
            Event::ScrollChat(direction) => {
                self.app_state.scroll_chat(direction);
                Effect::Nothing
            },
            Event::ScrollTerminal(direction) => {
                self.app_state.scroll_terminal(direction);
                Effect::Nothing
            },
            Event::MouseScroll(direction) => {
                match self.app_state.current_mode {
                    Mode::Chat => self.app_state.scroll_chat(direction),
                    Mode::Terminal => self.app_state.scroll_terminal(direction),
                }
                Effect::Nothing
            },
            Event::Resize(columns, rows) => self.handle_resize(columns, rows),
            Event::KeyInput(key) => match self.app_state.current_mode {
                Mode::Chat => self.handle_chat_key(key, terminal_context),
                Mode::Terminal => match encode_key(key) {
                    Some(bytes) => Effect::WriteTerminal(bytes),
                    None => Effect::Nothing,
                },
            },
        }
    }
}

} // verus!
