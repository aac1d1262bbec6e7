use crate::terminal_utils::{usable_size, Geometry};
use vstd::prelude::*;

verus! {

#[verifier::external_type_specification]
#[verifier::external_body]
pub struct ExScreen(vt100::Screen);

/// The interpreter of terminal output: a `vt100::Parser`. The parser's type
/// has a parameter bound by a trait of `vt100`, which Verus cannot be told
/// of, so the interpreter is opaque to the verifier and is reached through
/// the functions at the end of this file.
#[verifier::external_body]
pub struct Interpreter {
    parser: vt100::Parser,
}

/// The interpreter that `vt100::Parser::new` builds for a screen of `rows`
/// by `cols` cells without scrollback.
pub uninterp spec fn interpreter_blank(rows: u16, cols: u16) -> Interpreter;

/// The interpreter that `vt100::Parser::process` makes of `interpreter`
/// when it is given the one byte.
pub uninterp spec fn interpreter_after_byte(interpreter: Interpreter, byte: u8) -> Interpreter;

/// The interpreter that `vt100::Parser::set_size` makes of `interpreter`.
pub uninterp spec fn interpreter_resized(interpreter: Interpreter, rows: u16, cols: u16) -> Interpreter;

/// Every byte that `vt100::Parser::process` has been given since
/// `vt100::Parser::new` made the parser, in order.
pub uninterp spec fn interpreter_input(interpreter: Interpreter) -> Seq<u8>;

/// The screen that `vt100::Parser::screen` shows of `interpreter`.
pub uninterp spec fn interpreter_screen(interpreter: Interpreter) -> vt100::Screen;

/// What `vt100::Screen::size` returns: (rows, cols).
pub uninterp spec fn screen_size(screen: vt100::Screen) -> (u16, u16);

/// What `vt100::Screen::contents` returns: the visible text, without
/// formatting.
pub uninterp spec fn screen_text(screen: vt100::Screen) -> Seq<char>;

/// What `vt100::Screen::cursor_position` returns: (row, col).
pub uninterp spec fn screen_cursor(screen: vt100::Screen) -> (u16, u16);

/// Whether `byte`, coming after the two bytes `last`, ends the UTF-8
/// encoding of the emoji selector U+FE0F.
pub open spec fn completes_selector(last: (u8, u8), byte: u8) -> bool {
    last.0 == 0xEF && last.1 == 0xB8 && byte == 0x8F
}

/// Whether `last` holds the last two bytes of `input`, as far as `input`
/// has that many.
pub open spec fn ends_with(input: Seq<u8>, last: (u8, u8)) -> bool {
    &&& input.len() >= 1 ==> input[input.len() - 1] == last.1
    &&& input.len() >= 2 ==> input[input.len() - 2] == last.0
}

/// The terminal display as a value: the interpreter, and the last two bytes
/// it has been given.
pub struct ScreenView {
    pub interpreter: Interpreter,
    pub last: (u8, u8),
}

impl ScreenView {
    /// A blank screen of the given size.
    pub open spec fn blank(rows: u16, cols: u16) -> ScreenView {
        ScreenView { interpreter: interpreter_blank(rows, cols), last: (0u8, 0u8) }
    }

    /// The screen after one more byte of output. The byte goes to the
    /// interpreter, unless it would end the encoding of the emoji selector:
    /// that byte is left out.
    pub open spec fn after_byte(self, byte: u8) -> ScreenView {
        if completes_selector(self.last, byte) {
            self
        } else {
            ScreenView {
                interpreter: interpreter_after_byte(self.interpreter, byte),
                last: (self.last.1, byte),
            }
        }
    }

    /// The screen after it has taken `bytes` in order, one at a time.
    pub open spec fn fed(self, bytes: Seq<u8>) -> ScreenView
        decreases bytes.len(),
    {
        if bytes.len() == 0 {
            self
        } else {
            self.fed(bytes.drop_last()).after_byte(bytes.last())
        }
    }

    /// The screen after it has taken the chunks in order, one chunk at a
    /// time.
    pub open spec fn replayed(self, chunks: Seq<Seq<u8>>) -> ScreenView
        decreases chunks.len(),
    {
        if chunks.len() == 0 {
            self
        } else {
            self.replayed(chunks.drop_last()).fed(chunks.last())
        }
    }

    /// The screen with a new size.
    pub open spec fn resized(self, rows: u16, cols: u16) -> ScreenView {
        ScreenView {
            interpreter: interpreter_resized(self.interpreter, rows, cols),
            last: self.last,
        }
    }

    /// The size of the grid: (rows, cols).
    pub open spec fn size(self) -> (u16, u16) {
        screen_size(interpreter_screen(self.interpreter))
    }

    /// The visible text.
    pub open spec fn text(self) -> Seq<char> {
        screen_text(interpreter_screen(self.interpreter))
    }

    /// Where the cursor is: (row, col).
    pub open spec fn cursor(self) -> (u16, u16) {
        screen_cursor(interpreter_screen(self.interpreter))
    }
}

/// Taking `first` and then `second` is taking `first + second`.
pub proof fn lemma_fed_concat(screen: ScreenView, first: Seq<u8>, second: Seq<u8>)
    ensures
        screen.fed(first).fed(second) == screen.fed(first + second),
    decreases second.len(),
{
    if second.len() == 0 {
        assert(first + second =~= first);
    } else {
        lemma_fed_concat(screen, first, second.drop_last());
        assert((first + second).drop_last() =~= first + second.drop_last());
        assert((first + second).last() == second.last());
    }
}

/// Taking chunks one at a time is taking all their bytes at once.
pub proof fn lemma_replay_is_concatenation(screen: ScreenView, chunks: Seq<Seq<u8>>)
    ensures
        screen.replayed(chunks) == screen.fed(chunks.flatten()),
    decreases chunks.len(),
{
    if chunks.len() == 0 {
        assert(chunks.flatten() =~= Seq::<u8>::empty());
    } else {
        let before = chunks.drop_last();
        lemma_replay_is_concatenation(screen, before);
        lemma_fed_concat(screen, before.flatten(), chunks.last());
        before.lemma_flatten_push(chunks.last());
        assert(before.push(chunks.last()) =~= chunks);
    }
}

/// Chunk-size independence: two ways of cutting the same bytes into chunks
/// leave the same screen, and so the same grid, cursor and size.
pub proof fn lemma_chunking_is_immaterial(
    screen: ScreenView,
    one: Seq<Seq<u8>>,
    other: Seq<Seq<u8>>,
)
    requires
        one.flatten() == other.flatten(),
    ensures
        screen.replayed(one) == screen.replayed(other),
        screen.replayed(one).text() == screen.replayed(other).text(),
        screen.replayed(one).cursor() == screen.replayed(other).cursor(),
        screen.replayed(one).size() == screen.replayed(other).size(),
{
    lemma_replay_is_concatenation(screen, one);
    lemma_replay_is_concatenation(screen, other);
}

/// Chunk-size independence across runs: two fresh screens of one size that
/// are given the same bytes, cut into chunks in two ways, end as the same
/// screen, with the same grid and cursor; and that screen is the one a
/// single chunk of all the bytes leaves.
pub proof fn lemma_fresh_runs_agree(rows: u16, cols: u16, one: Seq<Seq<u8>>, other: Seq<Seq<u8>>)
    requires
        one.flatten() == other.flatten(),
    ensures
        ScreenView::blank(rows, cols).replayed(one) == ScreenView::blank(rows, cols).replayed(
            other,
        ),
        ScreenView::blank(rows, cols).replayed(one) == ScreenView::blank(rows, cols).fed(
            one.flatten(),
        ),
        ScreenView::blank(rows, cols).replayed(one).text() == ScreenView::blank(
            rows,
            cols,
        ).replayed(other).text(),
        ScreenView::blank(rows, cols).replayed(one).cursor() == ScreenView::blank(
            rows,
            cols,
        ).replayed(other).cursor(),
{
    lemma_replay_is_concatenation(ScreenView::blank(rows, cols), one);
    lemma_replay_is_concatenation(ScreenView::blank(rows, cols), other);
}

/// The terminal display: a grid of cells and a cursor, driven by the raw
/// output of the shell.
///
/// `vt100` cannot always place a character that the emoji selector U+FE0F
/// widens to two cells, so the interpreter is never given the last byte of
/// the selector's encoding. In text that is valid UTF-8 the byte after the
/// selector starts a new character; the two bytes given of the selector are
/// then no character, and `vt100` draws nothing for them. If a continuation
/// byte follows instead, the two bytes and that byte are one character, and
/// it is drawn.
pub struct ScreenModel {
    interpreter: Interpreter,
    /// The last two bytes given to the interpreter.
    last: (u8, u8),
}

impl View for ScreenModel {
    type V = ScreenView;

    closed spec fn view(&self) -> ScreenView {
        ScreenView { interpreter: self.interpreter, last: self.last }
    }
}

impl ScreenModel {
    /// Whether the model knows the last two bytes its interpreter has been
    /// given. Every model that `new` makes does, and every operation keeps
    /// it so.
    pub closed spec fn wf(&self) -> bool {
        ends_with(interpreter_input(self.interpreter), self.last)
    }

    /// A blank screen of the given size, without scrollback.
    pub fn new(geometry: Geometry) -> (r: ScreenModel)
        ensures
            r.wf(),
            r@ == ScreenView::blank(geometry@.0, geometry@.1),
            r@.size() == geometry@,
            r@.cursor() == (0u16, 0u16),
            r@.text() == Seq::<char>::empty(),
    {
        let rows = geometry.rows();
        let cols = geometry.cols();
        ScreenModel { interpreter: blank(rows, cols), last: (0, 0) }
    }

    /// Takes one byte of shell output.
    fn step(&mut self, byte: u8)
        requires
            old(self).wf(),
        ensures
            final(self).wf(),
            final(self)@ == old(self)@.after_byte(byte),
            final(self)@.size() == old(self)@.size(),
    {
        if !(self.last.0 == 0xEF && self.last.1 == 0xB8 && byte == 0x8F) {
            feed(&mut self.interpreter, byte);
            self.last = (self.last.1, byte);
        }
    }

    /// Interprets one chunk of shell output, byte by byte, so that where a
    /// chunk ends has no effect on the screen.
    pub fn process(&mut self, bytes: &[u8])
        requires
            old(self).wf(),
        ensures
            final(self).wf(),
            final(self)@ == old(self)@.fed(bytes@),
            final(self)@.size() == old(self)@.size(),
    {
        let mut i: usize = 0;
        while i < bytes.len()
            invariant
                i <= bytes.len(),
                self.wf(),
                self@ == old(self)@.fed(bytes@.take(i as int)),
                self@.size() == old(self)@.size(),
            decreases bytes.len() - i,
        {
            assert(bytes@.take(i as int + 1).drop_last() =~= bytes@.take(i as int));
            assert(bytes@.take(i as int + 1).last() == bytes@[i as int]);
            self.step(bytes[i]);
            i = i + 1;
        }
        assert(bytes@.take(i as int) =~= bytes@);
    }

    /// Interprets chunks of shell output in order, one at a time.
    pub fn replay(&mut self, chunks: &Vec<Vec<u8>>)
        requires
            old(self).wf(),
        ensures
            final(self).wf(),
            final(self)@ == old(self)@.replayed(chunks.deep_view()),
            final(self)@ == old(self)@.fed(chunks.deep_view().flatten()),
            final(self)@.size() == old(self)@.size(),
    {
        let mut i: usize = 0;
        while i < chunks.len()
            invariant
                i <= chunks.len(),
                self.wf(),
                self@ == old(self)@.replayed(chunks.deep_view().take(i as int)),
                self@.size() == old(self)@.size(),
            decreases chunks.len() - i,
        {
            let ghost done = chunks.deep_view().take(i as int);
            let ghost next = chunks.deep_view().take(i as int + 1);
            assert(next.drop_last() =~= done);
            assert(next.last() == chunks[i as int]@);
            self.process(chunks[i].as_slice());
            i = i + 1;
        }
        proof {
            assert(chunks.deep_view().take(i as int) =~= chunks.deep_view());
            lemma_replay_is_concatenation(old(self)@, chunks.deep_view());
        }
    }

    /// Reflows the grid to a new size.
    pub fn resize(&mut self, geometry: Geometry)
        requires
            old(self).wf(),
        ensures
            final(self).wf(),
            final(self)@ == old(self)@.resized(geometry@.0, geometry@.1),
            final(self)@.size() == geometry@,
    {
        let rows = geometry.rows();
        let cols = geometry.cols();
        reflow(&mut self.interpreter, rows, cols);
    }

    /// The screen as the renderer reads it.
    pub fn screen(&self) -> (r: &vt100::Screen)
        ensures
            *r == interpreter_screen(self@.interpreter),
    {
        lend(&self.interpreter)
    }

    /// The size of the grid: (rows, cols).
    pub fn size(&self) -> (r: (u16, u16))
        ensures
            r == self@.size(),
    {
        read_size(lend(&self.interpreter))
    }

    /// The visible text, rows separated by newlines.
    pub fn contents(&self) -> (r: String)
        ensures
            r@ == self@.text(),
    {
        lend(&self.interpreter).contents()
    }

    /// Where the cursor is: (row, col).
    pub fn cursor_position(&self) -> (r: (u16, u16))
        ensures
            r == self@.cursor(),
    {
        lend(&self.interpreter).cursor_position()
    }
}

/// `vt100::Parser::new` builds the same parser whenever it is given the
/// same size: its screen has that size, is blank, and has its cursor in the
/// top left corner; it has been given no byte yet. It takes no row or
/// column count of zero. With more than 65533 columns the interpreter's
/// sum of a column and a character's width can leave sixteen bits, so such
/// a screen is never made.
#[verifier::external_body]
fn blank(rows: u16, cols: u16) -> (r: Interpreter)
    requires
        usable_size(rows as int, cols as int),
    ensures
        r == interpreter_blank(rows, cols),
        interpreter_input(r) == Seq::<u8>::empty(),
        screen_size(interpreter_screen(r)) == (rows, cols),
        screen_cursor(interpreter_screen(r)) == (0u16, 0u16),
        screen_text(interpreter_screen(r)) == Seq::<char>::empty(),
{
    let rows = core::num::NonZeroU16::new(rows).unwrap();
    let cols = core::num::NonZeroU16::new(cols).unwrap();
    Interpreter { parser: vt100::Parser::new(rows, cols, 0) }
}

/// `vt100::Parser::process`, given one byte, moves its state machine one
/// step. No byte changes the size of the screen. The byte must not end the
/// encoding of the emoji selector U+FE0F: `vt100` decodes the selector from
/// those three bytes in a row only, and can fail to place the character
/// that the selector widens.
#[verifier::external_body]
fn feed(interpreter: &mut Interpreter, byte: u8)
    requires
        !(interpreter_input(*old(interpreter)).len() >= 2 && completes_selector(
            (
                interpreter_input(*old(interpreter))[interpreter_input(*old(interpreter)).len() - 2],
                interpreter_input(*old(interpreter))[interpreter_input(*old(interpreter)).len() - 1],
            ),
            byte,
        )),
    ensures
        *final(interpreter) == interpreter_after_byte(*old(interpreter), byte),
        interpreter_input(*final(interpreter)) == interpreter_input(*old(interpreter)).push(byte),
        screen_size(interpreter_screen(*final(interpreter))) == screen_size(
            interpreter_screen(*old(interpreter)),
        ),
{
    interpreter.parser.process(&[byte]);
}

/// `vt100::Parser::set_size` gives the screen the new size and is given no
/// byte. It takes no row or column count of zero, and the screen is never
/// given more than 65533 columns (see `blank`).
#[verifier::external_body]
fn reflow(interpreter: &mut Interpreter, rows: u16, cols: u16)
    requires
        usable_size(rows as int, cols as int),
    ensures
        *final(interpreter) == interpreter_resized(*old(interpreter), rows, cols),
        interpreter_input(*final(interpreter)) == interpreter_input(*old(interpreter)),
        screen_size(interpreter_screen(*final(interpreter))) == (rows, cols),
{
    let rows = core::num::NonZeroU16::new(rows).unwrap();
    let cols = core::num::NonZeroU16::new(cols).unwrap();
    interpreter.parser.set_size(rows, cols);
}

/// `vt100::Parser::screen` lends the parser's screen.
#[verifier::external_body]
fn lend(interpreter: &Interpreter) -> (r: &vt100::Screen)
    ensures
        *r == interpreter_screen(*interpreter),
{
    interpreter.parser.screen()
}

/// `vt100::Screen::size` returns the size of the grid: (rows, cols).
#[verifier::external_body]
fn read_size(screen: &vt100::Screen) -> (r: (u16, u16))
    ensures
        r == screen_size(*screen),
{
    let (rows, cols) = screen.size();
    (rows.get(), cols.get())
}

/// `vt100::Screen::contents` returns the visible text.
pub assume_specification[ vt100::Screen::contents ](screen: &vt100::Screen) -> (r: String)
    ensures
        r@ == screen_text(*screen),
;

/// `vt100::Screen::cursor_position` returns where the cursor is.
pub assume_specification[ vt100::Screen::cursor_position ](screen: &vt100::Screen) -> (r: (
    u16,
    u16,
))
    ensures
        r == screen_cursor(*screen),
;

} // verus!
