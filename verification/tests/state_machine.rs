use terminal_ai_ops::app_state::{
    header_fill_of, scroll_step, AppState, Message, MessageSender, Mode,
};
use terminal_ai_ops::services::chat_service::{Action, Persona};
use terminal_ai_ops::services::event_service::{
    translate_input, Direction, Event, InputEvent, KeyCode, KeyEvent, KeyEventKind, KeyModifiers,
};
use terminal_ai_ops::services::ui_service::{
    compose_with_context, encode_char, encode_key, parse_command, Command, Effect, UiService,
    CLEAR_COMMAND, LINUX_COMMAND, NETWORK_COMMAND,
};
use terminal_ai_ops::screen::ScreenModel;
use terminal_ai_ops::terminal_utils::{Geometry, LayoutPolicy};

const PLAIN: KeyModifiers = KeyModifiers { shift: false, control: false, alt: false };
const CONTROL: KeyModifiers = KeyModifiers { shift: false, control: true, alt: false };

fn key(code: KeyCode) -> Event {
    Event::KeyInput(KeyEvent { code, modifiers: PLAIN, kind: KeyEventKind::Press })
}

fn control(code: KeyCode) -> Event {
    Event::KeyInput(KeyEvent { code, modifiers: CONTROL, kind: KeyEventKind::Press })
}

fn machine() -> (UiService, String) {
    (UiService::new(AppState::new()), String::new())
}

fn terminal_machine() -> (UiService, String) {
    let (mut ui, mut context) = machine();
    assert_eq!(ui.handle_event(Event::ModeChanged, &mut context), Effect::Nothing);
    assert_eq!(ui.app_state().current_mode, Mode::Terminal);
    (ui, context)
}

fn type_line(ui: &mut UiService, context: &mut String, line: &str) {
    for c in line.chars() {
        assert_eq!(ui.handle_event(key(KeyCode::Char(c)), context), Effect::Nothing);
    }
}

fn user(text: &str) -> Message {
    Message { sender: MessageSender::User, message: text.to_string() }
}

fn assistant(text: &str) -> Message {
    Message { sender: MessageSender::Assistant, message: text.to_string() }
}

#[test]
fn initial_state() {
    let state = AppState::new();
    assert!(state.running);
    assert_eq!(state.current_mode, Mode::Chat);
    assert_eq!(state.tick, 0);
    assert_eq!(state.user_chat_to_send_to_gpt, "");
    assert!(state.chat_history.is_empty());
    assert!(!state.disable_chat);
    assert_eq!(state.scroll, 0);
    assert_eq!(state.terminal_scroll, 0);
    assert!(!state.terminal_has_been_active);
    let ui = UiService::new(AppState::new());
    assert_eq!(ui.gpt_role(), "");
    assert_eq!(*ui.app_state(), state);
    assert_eq!(ui.layout(), LayoutPolicy::standard());
}

#[test]
fn terminal_keys_become_bytes_in_order() {
    let (mut ui, mut context) = terminal_machine();
    let mut written: Vec<u8> = Vec::new();
    for event in [key(KeyCode::Char('l')), key(KeyCode::Char('s')), key(KeyCode::Enter)] {
        match ui.handle_event(event, &mut context) {
            Effect::WriteTerminal(bytes) => written.extend(bytes),
            other => panic!("unexpected effect {:?}", other),
        }
    }
    assert_eq!(written, vec![0x6C, 0x73, 0x0D]);
    assert_eq!(ui.app_state().user_chat_to_send_to_gpt, "");
    assert!(ui.app_state().chat_history.is_empty());
}

#[test]
fn terminal_control_keys() {
    let (mut ui, mut context) = terminal_machine();
    let cases: Vec<(Event, Vec<u8>)> = vec![
        (control(KeyCode::Char('c')), vec![0x03]),
        (key(KeyCode::Backspace), vec![0x08]),
        (key(KeyCode::Esc), vec![0x1B]),
        (key(KeyCode::Enter), vec![0x0D]),
        (key(KeyCode::Tab), vec![0x09]),
        (key(KeyCode::Up), vec![0x1B, b'[', b'A']),
        (key(KeyCode::Down), vec![0x1B, b'[', b'B']),
        (key(KeyCode::Right), vec![0x1B, b'[', b'C']),
        (key(KeyCode::Left), vec![0x1B, b'[', b'D']),
        (key(KeyCode::Delete), vec![0x1B, b'[', b'3', b'~']),
        (key(KeyCode::Char('c')), vec![b'c']),
        (control(KeyCode::Char('a')), vec![b'a']),
        (key(KeyCode::Char('\u{e9}')), vec![0xC3, 0xA9]),
        (key(KeyCode::Char('\u{2713}')), vec![0xE2, 0x9C, 0x93]),
        (key(KeyCode::Char('\u{1f600}')), vec![0xF0, 0x9F, 0x98, 0x80]),
    ];
    for (event, bytes) in cases {
        assert_eq!(ui.handle_event(event, &mut context), Effect::WriteTerminal(bytes));
    }
    assert_eq!(ui.handle_event(key(KeyCode::Other), &mut context), Effect::Nothing);
}

#[test]
fn encode_key_and_char() {
    assert_eq!(encode_char('l'), vec![0x6C]);
    assert_eq!(encode_char('\u{0}'), vec![0]);
    assert_eq!(encode_char('\u{7ff}'), vec![0xDF, 0xBF]);
    assert_eq!(encode_char('\u{10ffff}'), vec![0xF4, 0x8F, 0xBF, 0xBF]);
    let enter = KeyEvent { code: KeyCode::Enter, modifiers: PLAIN, kind: KeyEventKind::Press };
    assert_eq!(encode_key(enter), Some(vec![13]));
    let other = KeyEvent { code: KeyCode::Other, modifiers: CONTROL, kind: KeyEventKind::Press };
    assert_eq!(encode_key(other), None);
    let upper = KeyEvent { code: KeyCode::Char('C'), modifiers: CONTROL, kind: KeyEventKind::Press };
    assert_eq!(encode_key(upper), Some(vec![b'C']));
}

#[test]
fn reset_command_clears_everything() {
    let (mut ui, mut context) = machine();
    type_line(&mut ui, &mut context, "hi");
    ui.handle_event(key(KeyCode::Enter), &mut context);
    ui.handle_event(Event::ConversationToken("hello".to_string()), &mut context);
    ui.handle_event(Event::ConversationFinished(true), &mut context);
    ui.handle_event(Event::ScrollChat(Direction::Up), &mut context);
    ui.handle_event(Event::ScrollTerminal(Direction::Up), &mut context);
    context.push_str("$ ls\r\nfile\r\n");
    assert_eq!(ui.app_state().chat_history.len(), 2);

    type_line(&mut ui, &mut context, "/clear");
    assert_eq!(ui.app_state().user_chat_to_send_to_gpt, "/clear");
    let effect = ui.handle_event(key(KeyCode::Enter), &mut context);
    assert_eq!(effect, Effect::Dispatch(Action::ClearHistory));
    assert!(ui.app_state().chat_history.is_empty());
    assert_eq!(ui.app_state().user_chat_to_send_to_gpt, "");
    assert_eq!(context, "");
    assert_eq!(ui.app_state().scroll, 0);
    assert_eq!(ui.app_state().terminal_scroll, 1);
    assert!(!ui.app_state().disable_chat);
    assert_eq!(ui.gpt_role(), "");
}

#[test]
fn persona_commands() {
    let mut state = AppState::new();
    state.chat_history.push(user("old"));
    let mut ui = UiService::new(state);
    let mut context = String::from("output");
    type_line(&mut ui, &mut context, "/network");
    assert_eq!(
        ui.handle_event(key(KeyCode::Enter), &mut context),
        Effect::Dispatch(Action::SwitchPersona(Persona::NetworkEngineer))
    );
    assert_eq!(ui.gpt_role(), "Network Engineer");
    assert!(ui.app_state().chat_history.is_empty());
    assert_eq!(ui.app_state().user_chat_to_send_to_gpt, "");
    assert_eq!(context, "");
    assert!(!ui.app_state().disable_chat);

    context.push_str("more");
    type_line(&mut ui, &mut context, "/linux");
    assert_eq!(
        ui.handle_event(key(KeyCode::Enter), &mut context),
        Effect::Dispatch(Action::SwitchPersona(Persona::LinuxEngineer))
    );
    assert_eq!(ui.gpt_role(), "Linux Engineer");
    assert_eq!(context, "");

    // the greeting of the new persona opens the transcript
    ui.handle_event(Event::ConversationToken("Hi!".to_string()), &mut context);
    assert_eq!(ui.app_state().chat_history, vec![assistant("Hi!")]);
}

#[test]
fn commands_match_the_whole_line_only() {
    assert_eq!(parse_command(&"/clear".to_string()), Command::Clear);
    assert_eq!(parse_command(&"/network".to_string()), Command::Persona(Persona::NetworkEngineer));
    assert_eq!(parse_command(&"/linux".to_string()), Command::Persona(Persona::LinuxEngineer));
    for line in ["", "/clear ", " /clear", "/Clear", "/clea", "/clear\n", "clear", "/networks", "/linux/"] {
        assert_eq!(parse_command(&line.to_string()), Command::Message);
    }
    assert_eq!(CLEAR_COMMAND, "/clear");
    assert_eq!(NETWORK_COMMAND, "/network");
    assert_eq!(LINUX_COMMAND, "/linux");
}

#[test]
fn resize_lays_the_terminal_pane_out() {
    let (mut ui, mut context) = machine();
    let effect = ui.handle_event(Event::Resize(100, 40), &mut context);
    assert_eq!(effect, Effect::ResizeScreen(Geometry::new(35, 57).unwrap()));
    assert_eq!(*ui.app_state(), AppState::new());
}

#[test]
fn resize_event_resizes_the_screen_model() {
    let (mut ui, mut context) = machine();
    let mut screen = ScreenModel::new(Geometry::new(19, 45).unwrap());
    screen.process(b"$ ls\r\n");
    match ui.handle_event(Event::Resize(100, 40), &mut context) {
        Effect::ResizeScreen(geometry) => screen.resize(geometry),
        other => panic!("unexpected effect {:?}", other),
    }
    assert_eq!(screen.size(), (35, 57));
    assert_eq!(screen.contents(), "$ ls");
}

#[test]
fn resize_to_a_display_without_room_is_ignored() {
    let (mut ui, mut context) = machine();
    assert_eq!(ui.handle_event(Event::Resize(100, 5), &mut context), Effect::Nothing);
    assert_eq!(ui.handle_event(Event::Resize(1, 40), &mut context), Effect::Nothing);
    assert_eq!(ui.handle_event(Event::Resize(0, 0), &mut context), Effect::Nothing);
    assert_eq!(
        ui.handle_event(Event::Resize(3, 40), &mut context),
        Effect::ResizeScreen(Geometry::new(35, 1).unwrap())
    );
    assert_eq!(
        ui.handle_event(Event::Resize(2, 6), &mut context),
        Effect::ResizeScreen(Geometry::new(1, 1).unwrap())
    );
}

#[test]
fn resize_with_another_layout() {
    let layout = LayoutPolicy::new(1, 2, 3).unwrap();
    let mut ui = UiService::with_layout(AppState::new(), layout);
    let mut context = String::new();
    assert_eq!(
        ui.handle_event(Event::Resize(81, 24), &mut context),
        Effect::ResizeScreen(Geometry::new(21, 40).unwrap())
    );
}

#[test]
fn message_is_sent_and_awaited() {
    let (mut ui, mut context) = machine();
    context.push_str("terminal text");
    type_line(&mut ui, &mut context, "why?");
    let effect = ui.handle_event(key(KeyCode::Enter), &mut context);
    assert_eq!(effect, Effect::Dispatch(Action::SendMessage("why?".to_string())));
    assert!(ui.app_state().disable_chat);
    assert_eq!(ui.app_state().chat_history, vec![user("why?")]);
    assert_eq!(ui.app_state().user_chat_to_send_to_gpt, "");
    assert_eq!(context, "terminal text");
}

#[test]
fn message_carries_the_terminal_output_after_the_terminal_was_used() {
    let (mut ui, mut context) = terminal_machine();
    context.push_str("$ ls\nfile");
    ui.handle_event(Event::ModeChanged, &mut context);
    assert_eq!(ui.app_state().current_mode, Mode::Chat);
    assert!(ui.app_state().terminal_has_been_active);
    type_line(&mut ui, &mut context, "what is this?");
    let effect = ui.handle_event(key(KeyCode::Enter), &mut context);
    assert_eq!(
        effect,
        Effect::Dispatch(Action::SendMessage(
            "This is my terminal output: \n\n ```\n$ ls\nfile\n```\n\nwhat is this?".to_string()
        ))
    );
    // the transcript shows the user's own words only
    assert_eq!(ui.app_state().chat_history, vec![user("what is this?")]);
    assert!(!ui.app_state().terminal_has_been_active);
    assert_eq!(context, "$ ls\nfile");

    // the next message goes without the output
    ui.handle_event(Event::ConversationFinished(true), &mut context);
    type_line(&mut ui, &mut context, "ok");
    assert_eq!(
        ui.handle_event(key(KeyCode::Enter), &mut context),
        Effect::Dispatch(Action::SendMessage("ok".to_string()))
    );
}

#[test]
fn compose_with_context_exact() {
    assert_eq!(
        compose_with_context(&"OUT".to_string(), &"ask".to_string()),
        "This is my terminal output: \n\n ```\nOUT\n```\n\nask"
    );
    assert_eq!(
        compose_with_context(&String::new(), &String::new()),
        "This is my terminal output: \n\n ```\n\n```\n\n"
    );
}

#[test]
fn empty_line_is_sent_as_a_message() {
    let (mut ui, mut context) = machine();
    assert_eq!(
        ui.handle_event(key(KeyCode::Enter), &mut context),
        Effect::Dispatch(Action::SendMessage(String::new()))
    );
    assert!(ui.app_state().disable_chat);
    assert_eq!(ui.app_state().chat_history, vec![user("")]);
}

#[test]
fn input_is_ignored_while_a_reply_is_awaited() {
    let (mut ui, mut context) = machine();
    type_line(&mut ui, &mut context, "first");
    ui.handle_event(key(KeyCode::Enter), &mut context);
    assert!(ui.app_state().disable_chat);

    type_line(&mut ui, &mut context, "second");
    assert_eq!(ui.app_state().user_chat_to_send_to_gpt, "");
    assert_eq!(ui.handle_event(key(KeyCode::Enter), &mut context), Effect::Nothing);
    assert_eq!(ui.app_state().chat_history, vec![user("first")]);
    assert!(ui.app_state().disable_chat);

    ui.handle_event(Event::ConversationFinished(true), &mut context);
    assert!(!ui.app_state().disable_chat);
    type_line(&mut ui, &mut context, "x");
    assert_eq!(ui.app_state().user_chat_to_send_to_gpt, "x");
}

#[test]
fn reserved_command_is_ignored_while_a_reply_is_awaited() {
    let mut state = AppState::new();
    state.user_chat_to_send_to_gpt = "/clear".to_string();
    state.disable_chat = true;
    state.chat_history.push(user("kept"));
    let mut ui = UiService::new(state);
    let mut context = String::from("kept");
    assert_eq!(ui.handle_event(key(KeyCode::Enter), &mut context), Effect::Nothing);
    assert_eq!(ui.app_state().chat_history, vec![user("kept")]);
    assert_eq!(ui.app_state().user_chat_to_send_to_gpt, "/clear");
    assert_eq!(context, "kept");
}

#[test]
fn awaiting_flag_changes_only_on_send_and_on_completion() {
    let events = || -> Vec<Event> {
        vec![
            Event::Tick,
            Event::ModeChanged,
            Event::ModeChanged,
            Event::ConversationToken("t".to_string()),
            Event::ConversationFinished(false),
            Event::ScrollChat(Direction::Up),
            Event::ScrollChat(Direction::Down),
            Event::ScrollTerminal(Direction::Up),
            Event::ScrollTerminal(Direction::Down),
            Event::MouseScroll(Direction::Up),
            Event::Resize(80, 24),
            key(KeyCode::Char('a')),
            key(KeyCode::Backspace),
            key(KeyCode::Esc),
            key(KeyCode::Tab),
            key(KeyCode::Up),
            control(KeyCode::Char('c')),
            Event::Quit,
        ]
    };
    let (mut ui, mut context) = machine();
    for event in events() {
        ui.handle_event(event, &mut context);
        assert!(!ui.app_state().disable_chat);
    }
    ui.handle_event(key(KeyCode::Enter), &mut context);
    assert!(ui.app_state().disable_chat);
    for event in events() {
        ui.handle_event(event, &mut context);
        assert!(ui.app_state().disable_chat);
    }
    ui.handle_event(key(KeyCode::Enter), &mut context);
    assert!(ui.app_state().disable_chat);
    ui.handle_event(Event::ConversationFinished(true), &mut context);
    assert!(!ui.app_state().disable_chat);
    ui.handle_event(Event::ConversationFinished(true), &mut context);
    assert!(!ui.app_state().disable_chat);
}

#[test]
fn every_letter_can_be_typed() {
    let (mut ui, mut context) = machine();
    let mut written: Vec<u8> = Vec::new();
    for c in "sudo du".chars() {
        let input = InputEvent::Key(KeyEvent {
            code: KeyCode::Char(c),
            modifiers: PLAIN,
            kind: KeyEventKind::Press,
        });
        ui.handle_event(translate_input(input).unwrap(), &mut context);
    }
    assert_eq!(ui.app_state().user_chat_to_send_to_gpt, "sudo du");
    assert_eq!((ui.app_state().scroll, ui.app_state().terminal_scroll), (0, 0));
    ui.handle_event(Event::ModeChanged, &mut context);
    for c in "sudo du".chars() {
        let input = InputEvent::Key(KeyEvent {
            code: KeyCode::Char(c),
            modifiers: PLAIN,
            kind: KeyEventKind::Press,
        });
        if let Effect::WriteTerminal(bytes) =
            ui.handle_event(translate_input(input).unwrap(), &mut context)
        {
            written.extend(bytes);
        }
    }
    assert_eq!(written, b"sudo du".to_vec());
}

#[test]
fn chat_editing_keys() {
    let (mut ui, mut context) = machine();
    type_line(&mut ui, &mut context, "abc\u{e9}");
    assert_eq!(ui.app_state().user_chat_to_send_to_gpt, "abc\u{e9}");
    ui.handle_event(key(KeyCode::Backspace), &mut context);
    assert_eq!(ui.app_state().user_chat_to_send_to_gpt, "abc");
    ui.handle_event(control(KeyCode::Char('c')), &mut context);
    assert_eq!(ui.app_state().user_chat_to_send_to_gpt, "abc");
    ui.handle_event(control(KeyCode::Char('x')), &mut context);
    assert_eq!(ui.app_state().user_chat_to_send_to_gpt, "abcx");
    for code in [KeyCode::Up, KeyCode::Down, KeyCode::Left, KeyCode::Right, KeyCode::Delete, KeyCode::Tab, KeyCode::Other] {
        assert_eq!(ui.handle_event(key(code), &mut context), Effect::Nothing);
    }
    assert_eq!(ui.app_state().user_chat_to_send_to_gpt, "abcx");
    ui.handle_event(key(KeyCode::Esc), &mut context);
    assert_eq!(ui.app_state().user_chat_to_send_to_gpt, "");
    ui.handle_event(key(KeyCode::Backspace), &mut context);
    assert_eq!(ui.app_state().user_chat_to_send_to_gpt, "");
}

#[test]
fn backspace_and_escape_work_while_a_reply_is_awaited() {
    let mut state = AppState::new();
    state.user_chat_to_send_to_gpt = "draft".to_string();
    state.disable_chat = true;
    let mut ui = UiService::new(state);
    let mut context = String::new();
    ui.handle_event(key(KeyCode::Backspace), &mut context);
    assert_eq!(ui.app_state().user_chat_to_send_to_gpt, "draf");
    ui.handle_event(key(KeyCode::Esc), &mut context);
    assert_eq!(ui.app_state().user_chat_to_send_to_gpt, "");
    assert!(ui.app_state().disable_chat);
}

#[test]
fn tokens_build_the_transcript() {
    let (mut ui, mut context) = machine();
    ui.handle_event(Event::ConversationToken("Hi".to_string()), &mut context);
    assert_eq!(ui.app_state().chat_history, vec![assistant("Hi")]);
    ui.handle_event(Event::ConversationToken(", there".to_string()), &mut context);
    assert_eq!(ui.app_state().chat_history, vec![assistant("Hi, there")]);
    ui.handle_event(Event::ConversationFinished(true), &mut context);
    type_line(&mut ui, &mut context, "ask");
    ui.handle_event(key(KeyCode::Enter), &mut context);
    ui.handle_event(Event::ConversationToken("an".to_string()), &mut context);
    ui.handle_event(Event::ConversationToken("swer".to_string()), &mut context);
    assert_eq!(
        ui.app_state().chat_history,
        vec![assistant("Hi, there"), user("ask"), assistant("answer")]
    );
}

#[test]
fn scroll_offsets_stop_at_zero() {
    let (mut ui, mut context) = machine();
    ui.handle_event(Event::ScrollChat(Direction::Down), &mut context);
    ui.handle_event(Event::ScrollTerminal(Direction::Down), &mut context);
    ui.handle_event(Event::MouseScroll(Direction::Down), &mut context);
    assert_eq!((ui.app_state().scroll, ui.app_state().terminal_scroll), (0, 0));
    ui.handle_event(Event::ScrollChat(Direction::Up), &mut context);
    ui.handle_event(Event::ScrollChat(Direction::Up), &mut context);
    ui.handle_event(Event::ScrollTerminal(Direction::Up), &mut context);
    assert_eq!((ui.app_state().scroll, ui.app_state().terminal_scroll), (2, 1));
    ui.handle_event(Event::ScrollChat(Direction::Down), &mut context);
    ui.handle_event(Event::ScrollTerminal(Direction::Down), &mut context);
    ui.handle_event(Event::ScrollTerminal(Direction::Down), &mut context);
    assert_eq!((ui.app_state().scroll, ui.app_state().terminal_scroll), (1, 0));
}

#[test]
fn header_fill_exact() {
    assert_eq!(header_fill_of(MessageSender::User, 40, 0), 28);
    assert_eq!(header_fill_of(MessageSender::User, 40, 16), 28);
    assert_eq!(header_fill_of(MessageSender::User, 12, 0), 0);
    assert_eq!(header_fill_of(MessageSender::User, 11, 0), 0);
    assert_eq!(header_fill_of(MessageSender::User, 0, 0), 0);
    assert_eq!(header_fill_of(MessageSender::User, usize::MAX, 0), usize::MAX - 12);
    assert_eq!(header_fill_of(MessageSender::Assistant, 40, 0), 25);
    assert_eq!(header_fill_of(MessageSender::Assistant, 40, 16), 9);
    assert_eq!(header_fill_of(MessageSender::Assistant, 31, 16), 0);
    assert_eq!(header_fill_of(MessageSender::Assistant, 32, 16), 1);
    assert_eq!(header_fill_of(MessageSender::Assistant, 10, 16), 0);
    assert_eq!(header_fill_of(MessageSender::Assistant, 0, 0), 0);
    assert_eq!(header_fill_of(MessageSender::Assistant, 20, usize::MAX), 0);
    assert_eq!(header_fill_of(MessageSender::Assistant, usize::MAX, 5), usize::MAX - 20);
}

#[test]
fn scroll_step_exact() {
    assert_eq!(scroll_step(0, Direction::Down), 0);
    assert_eq!(scroll_step(0, Direction::Up), 1);
    assert_eq!(scroll_step(7, Direction::Down), 6);
    assert_eq!(scroll_step(7, Direction::Up), 8);
    assert_eq!(scroll_step(u16::MAX, Direction::Up), u16::MAX);
    assert_eq!(scroll_step(u16::MAX, Direction::Down), u16::MAX - 1);
}

#[test]
fn mouse_wheel_scrolls_the_pane_in_use() {
    let (mut ui, mut context) = machine();
    ui.handle_event(Event::MouseScroll(Direction::Up), &mut context);
    assert_eq!((ui.app_state().scroll, ui.app_state().terminal_scroll), (1, 0));
    ui.handle_event(Event::ModeChanged, &mut context);
    ui.handle_event(Event::MouseScroll(Direction::Up), &mut context);
    ui.handle_event(Event::MouseScroll(Direction::Up), &mut context);
    assert_eq!((ui.app_state().scroll, ui.app_state().terminal_scroll), (1, 2));
    ui.handle_event(Event::MouseScroll(Direction::Down), &mut context);
    assert_eq!((ui.app_state().scroll, ui.app_state().terminal_scroll), (1, 1));
}

#[test]
fn mode_change_marks_the_terminal_as_used() {
    let mut state = AppState::new();
    state.change_mode();
    assert_eq!(state.current_mode, Mode::Terminal);
    assert!(!state.terminal_has_been_active);
    state.change_mode();
    assert_eq!(state.current_mode, Mode::Chat);
    assert!(state.terminal_has_been_active);
    state.change_mode();
    assert_eq!(state.current_mode, Mode::Terminal);
    assert!(state.terminal_has_been_active);
}

#[test]
fn tick_counts_and_stops_at_the_largest_number() {
    let mut state = AppState::new();
    state.tick();
    state.tick();
    assert_eq!(state.tick, 2);
    state.tick = i64::MAX - 1;
    state.tick();
    assert_eq!(state.tick, i64::MAX);
    state.tick();
    assert_eq!(state.tick, i64::MAX);
    let (mut ui, mut context) = machine();
    assert_eq!(ui.handle_event(Event::Tick, &mut context), Effect::Nothing);
    assert_eq!(ui.app_state().tick, 1);
}

#[test]
fn quit_stops_the_machine() {
    let (mut ui, mut context) = machine();
    assert_eq!(ui.handle_event(Event::Quit, &mut context), Effect::Nothing);
    assert!(!ui.app_state().running);
    let mut state = AppState::new();
    state.quit();
    assert!(!state.running);
}

#[test]
fn typed_keys_through_the_translation_table() {
    // 'l', 's' and Enter, as the input device reports them, reach the shell
    let (mut ui, mut context) = terminal_machine();
    let mut written: Vec<u8> = Vec::new();
    for code in [KeyCode::Char('l'), KeyCode::Char('s'), KeyCode::Enter] {
        let input = InputEvent::Key(KeyEvent { code, modifiers: PLAIN, kind: KeyEventKind::Press });
        let event = translate_input(input).unwrap();
        if let Effect::WriteTerminal(bytes) = ui.handle_event(event, &mut context) {
            written.extend(bytes);
        }
    }
    assert_eq!(written, vec![0x6C, 0x73, 0x0D]);
}
