use vstd::prelude::*;

verus! {

/// Which way a scroll moves.
#[derive(Clone, Copy, Debug, PartialEq, Eq, Structural)]
pub enum Direction {
    Up,
    Down,
}

/// The key that was pressed.
#[derive(Clone, Copy, Debug, PartialEq, Eq, Structural)]
pub enum KeyCode {
    Char(char),
    Enter,
    Backspace,
    Up,
    Down,
    Left,
    Right,
    Delete,
    Esc,
    Tab,
    /// Any key this application gives no meaning to.
    Other,
}

/// The modifier keys held while a key was pressed.
#[derive(Clone, Copy, Debug, PartialEq, Eq, Structural)]
pub struct KeyModifiers {
    pub shift: bool,
    pub control: bool,
    pub alt: bool,
}

/// Whether a key went down, is held, or came up.
#[derive(Clone, Copy, Debug, PartialEq, Eq, Structural)]
pub enum KeyEventKind {
    Press,
    Repeat,
    Release,
}

/// One report of the keyboard.
#[derive(Clone, Copy, Debug, PartialEq, Eq, Structural)]
pub struct KeyEvent {
    pub code: KeyCode,
    pub modifiers: KeyModifiers,
    pub kind: KeyEventKind,
}

/// One report of the input device, before translation.
#[derive(Clone, Copy, Debug, PartialEq, Eq, Structural)]
pub enum InputEvent {
    Key(KeyEvent),
    /// The mouse wheel moved.
    Wheel(Direction),
    /// The display now has this many columns and rows.
    Resize(u16, u16),
    /// Anything else: focus changes, pastes, other mouse reports.
    Other,
}

/// What the application state machine consumes, one at a time.
#[derive(Clone, Debug, PartialEq, Eq)]
pub enum Event {
    Tick,
    KeyInput(KeyEvent),
    MouseScroll(Direction),
    /// Columns, then rows, of the whole display.
    Resize(u16, u16),
    ConversationToken(String),
    ConversationFinished(bool),
    ModeChanged,
    Quit,
    ScrollChat(Direction),
    ScrollTerminal(Direction),
}

/// An [`Event`] with its text as a sequence of characters.
pub enum EventView {
    Tick,
    KeyInput(KeyEvent),
    MouseScroll(Direction),
    Resize(u16, u16),
    ConversationToken(Seq<char>),
    ConversationFinished(bool),
    ModeChanged,
    Quit,
    ScrollChat(Direction),
    ScrollTerminal(Direction),
}

impl View for Event {
    type V = EventView;

    open spec fn view(&self) -> EventView {
        match self {
            Event::Tick => EventView::Tick,
            Event::KeyInput(key) => EventView::KeyInput(*key),
            Event::MouseScroll(direction) => EventView::MouseScroll(*direction),
            Event::Resize(columns, rows) => EventView::Resize(*columns, *rows),
            Event::ConversationToken(text) => EventView::ConversationToken(text@),
            Event::ConversationFinished(done) => EventView::ConversationFinished(*done),
            Event::ModeChanged => EventView::ModeChanged,
            Event::Quit => EventView::Quit,
            Event::ScrollChat(direction) => EventView::ScrollChat(*direction),
            Event::ScrollTerminal(direction) => EventView::ScrollTerminal(*direction),
        }
    }
}

/// The event a key press stands for. Control with `q` quits, control with
/// `b` changes the mode, and control with `u` or `d` scrolls the terminal
/// pane up or down. These combinations take precedence over passing the
/// key on; every other key, and each of these letters without control, is
/// passed on as it is.
pub open spec fn key_press_event(key: KeyEvent) -> EventView {
    match key.code {
        KeyCode::Char(c) => {
            if c == 'q' && key.modifiers.control {
                EventView::Quit
            } else if c == 'b' && key.modifiers.control {
                EventView::ModeChanged
            } else if c == 'u' && key.modifiers.control {
                EventView::ScrollTerminal(Direction::Up)
            } else if c == 'd' && key.modifiers.control {
                EventView::ScrollTerminal(Direction::Down)
            } else {
                EventView::KeyInput(key)
            }
        },
        _ => EventView::KeyInput(key),
    }
}

/// The translation table of the input device: what each report becomes, and
/// `None` for those that are dropped. Only presses of a key count.
pub open spec fn translation(input: InputEvent) -> Option<EventView> {
    match input {
        InputEvent::Key(key) => {
            if key.kind == KeyEventKind::Press {
                Some(key_press_event(key))
            } else {
                None
            }
        },
        InputEvent::Wheel(direction) => Some(EventView::MouseScroll(direction)),
        InputEvent::Resize(columns, rows) => Some(EventView::Resize(columns, rows)),
        InputEvent::Other => None,
    }
}

/// Translates a key press.
pub fn translate_key_press(key: KeyEvent) -> (event: Event)
    ensures
        event@ == key_press_event(key),
{
    match key.code {
        KeyCode::Char(c) => {
            if c == 'q' && key.modifiers.control {
                Event::Quit
            } else if c == 'b' && key.modifiers.control {
                Event::ModeChanged
            } else if c == 'u' && key.modifiers.control {
                Event::ScrollTerminal(Direction::Up)
            } else if c == 'd' && key.modifiers.control {
                Event::ScrollTerminal(Direction::Down)
            } else {
                Event::KeyInput(key)
            }
        },
        _ => Event::KeyInput(key),
    }
}

/// Translates one report of the input device.
pub fn translate_input(input: InputEvent) -> (event: Option<Event>)
    ensures
        event.is_some() <==> translation(input).is_some(),
        event.is_some() ==> event.unwrap()@ == translation(input).unwrap(),
{
    match input {
        InputEvent::Key(key) => {
            match key.kind {
                KeyEventKind::Press => Some(translate_key_press(key)),
                _ => None,
            }
        },
        InputEvent::Wheel(direction) => Some(Event::MouseScroll(direction)),
        InputEvent::Resize(columns, rows) => Some(Event::Resize(columns, rows)),
        InputEvent::Other => None,
    }
}

} // verus!
