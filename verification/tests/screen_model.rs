use terminal_ai_ops::screen::ScreenModel;
use terminal_ai_ops::terminal_utils::{absorb_output, append_output, Geometry, ReadOutcome};

fn screen(rows: u16, cols: u16) -> ScreenModel {
    ScreenModel::new(Geometry::new(rows, cols).unwrap())
}

#[test]
fn new_screen_is_blank() {
    let model = screen(24, 80);
    assert_eq!(model.size(), (24, 80));
    assert_eq!(model.cursor_position(), (0, 0));
    assert_eq!(model.contents(), "");
    assert_eq!(model.screen().cursor_position(), (0, 0));
}

#[test]
fn process_draws_text_and_moves_the_cursor() {
    let mut model = screen(24, 80);
    model.process(b"ls\r\nfile.txt");
    assert_eq!(model.contents(), "ls\nfile.txt");
    assert_eq!(model.cursor_position(), (1, 8));
    assert_eq!(model.size(), (24, 80));
}

#[test]
fn process_is_sensitive_to_order() {
    let mut one = screen(4, 20);
    one.process(b"ab");
    one.process(b"cd");
    let mut other = screen(4, 20);
    other.process(b"cd");
    other.process(b"ab");
    assert_eq!(one.contents(), "abcd");
    assert_eq!(other.contents(), "cdab");
}

#[test]
fn empty_chunk_changes_nothing() {
    let mut model = screen(4, 20);
    model.process(b"abc");
    model.process(b"");
    assert_eq!(model.contents(), "abc");
    assert_eq!(model.cursor_position(), (0, 3));
}

#[test]
fn chunk_boundaries_do_not_matter() {
    let bytes: Vec<u8> =
        b"plain \x1b[31mred\x1b[m \xe2\x9c\x93 done\r\n\x1b[2;5Hmoved\x1b[1;1H\xf0\x9f\x98\x80!".to_vec();
    let mut whole = screen(10, 40);
    whole.process(&bytes);

    let mut split = 0;
    while split <= bytes.len() {
        let mut halves = screen(10, 40);
        halves.process(&bytes[..split]);
        halves.process(&bytes[split..]);
        assert_eq!(halves.contents(), whole.contents());
        assert_eq!(halves.cursor_position(), whole.cursor_position());
        assert_eq!(halves.screen().contents_formatted(), whole.screen().contents_formatted());
        split += 1;
    }

    let mut single = screen(10, 40);
    for byte in &bytes {
        single.process(&[*byte]);
    }
    assert_eq!(single.contents(), whole.contents());
    assert_eq!(single.cursor_position(), whole.cursor_position());
    assert_eq!(single.screen().contents_formatted(), whole.screen().contents_formatted());
}

#[test]
fn replay_equals_processing_the_concatenation() {
    let chunks: Vec<Vec<u8>> = vec![
        b"one\r".to_vec(),
        b"\ntwo \x1b[".to_vec(),
        Vec::new(),
        b"1mbold\x1b".to_vec(),
        b"[m\r\nthree".to_vec(),
    ];
    let mut replayed = screen(6, 30);
    replayed.replay(&chunks);
    let mut whole = screen(6, 30);
    whole.process(&chunks.concat());
    assert_eq!(replayed.contents(), "one\ntwo bold\nthree");
    assert_eq!(replayed.contents(), whole.contents());
    assert_eq!(replayed.cursor_position(), whole.cursor_position());
    assert_eq!(replayed.cursor_position(), (2, 5));
}

#[test]
fn replay_of_nothing_changes_nothing() {
    let mut model = screen(6, 30);
    model.process(b"kept");
    model.replay(&Vec::new());
    assert_eq!(model.contents(), "kept");
}

#[test]
fn wide_characters_fit_the_narrowest_screen() {
    let mut model = screen(2, 2);
    model.process("\u{4e16}\u{754c}\u{4e16}".as_bytes());
    assert_eq!(model.size(), (2, 2));
    assert_eq!(model.contents(), "\u{754c}\u{4e16}");
}

#[test]
fn emoji_selector_is_left_out() {
    let mut model = screen(4, 20);
    model.process("#\u{fe0f}a \u{2764}\u{fe0f}!".as_bytes());
    assert_eq!(model.contents(), "#a \u{2764}!");
    assert_eq!(model.cursor_position(), (0, 5));
    // where the chunks end makes no difference
    let mut cut = screen(4, 20);
    for byte in "#\u{fe0f}a \u{2764}\u{fe0f}!".as_bytes() {
        cut.process(&[*byte]);
    }
    assert_eq!(cut.contents(), model.contents());
    assert_eq!(cut.cursor_position(), model.cursor_position());
    // a continuation byte after the selector joins what was given of it
    let mut joined = screen(4, 20);
    joined.process(b"a\xef\xb8\x8f\xa0b");
    assert_eq!(joined.contents(), "a\u{fe20}b");
    // neighbours of the selector in the code space are drawn as they are
    let mut near = screen(4, 20);
    near.process("a\u{fe0e}b\u{fe10}".as_bytes());
    assert_eq!(near.contents(), "a\u{fe0e}b\u{fe10}");
}

#[test]
fn resize_gives_the_new_size() {
    let mut model = screen(24, 80);
    model.process(b"hello");
    model.resize(Geometry::new(35, 57).unwrap());
    assert_eq!(model.size(), (35, 57));
    assert_eq!(model.contents(), "hello");
    model.resize(Geometry::new(2, 2).unwrap());
    assert_eq!(model.size(), (2, 2));
    assert_eq!(model.contents(), "he");
    model.process(b"\r\nxy");
    assert_eq!(model.size(), (2, 2));
}

#[test]
fn append_output_keeps_valid_text() {
    let mut context = String::from("$ ");
    append_output(&mut context, b"ls\r\n");
    append_output(&mut context, "caf\u{e9} \u{2713}".as_bytes());
    assert_eq!(context, "$ ls\r\ncaf\u{e9} \u{2713}");
}

#[test]
fn append_output_replaces_what_is_not_text() {
    let mut context = String::new();
    append_output(&mut context, b"a\xffb");
    assert_eq!(context, "a\u{fffd}b");
    // a character cut in two by a chunk boundary is lost to the buffer
    let mut cut = String::new();
    append_output(&mut cut, b"\xe2\x9c");
    append_output(&mut cut, b"\x93");
    assert_eq!(cut, "\u{fffd}\u{fffd}");
}

#[test]
fn append_output_of_nothing() {
    let mut context = String::from("kept");
    append_output(&mut context, b"");
    assert_eq!(context, "kept");
}

#[test]
fn absorb_output_feeds_screen_and_context() {
    let mut model = screen(5, 20);
    let mut context = String::new();
    assert_eq!(absorb_output(&mut model, &mut context, b"$ echo hi\r\n"), ReadOutcome::Continue);
    assert_eq!(absorb_output(&mut model, &mut context, b"hi\r\n"), ReadOutcome::Continue);
    assert_eq!(model.contents(), "$ echo hi\nhi");
    assert_eq!(context, "$ echo hi\r\nhi\r\n");
}

#[test]
fn absorb_output_stops_at_an_empty_read() {
    let mut model = screen(5, 20);
    let mut context = String::from("before");
    model.process(b"before");
    assert_eq!(absorb_output(&mut model, &mut context, b""), ReadOutcome::Closed);
    assert_eq!(model.contents(), "before");
    assert_eq!(model.cursor_position(), (0, 6));
    assert_eq!(context, "before");
}
