use crate::screen::ScreenModel;
use vstd::prelude::*;
use vstd::string::StringExecFns;
use vstd::utf8::{decode_utf8, valid_utf8};

verus! {

/// Fraction of the columns given to the terminal pane when no other ratio is
/// configured, in hundredths.
pub const DEFAULT_RATIO_PERCENT: u16 = 57;

/// Rows taken by borders, the footer and the input box.
pub const DEFAULT_CHROME_ROWS: u16 = 5;

/// Slots of the bounded channel that carries bytes to the shell.
pub const INPUT_CHANNEL_CAPACITY: usize = 32;

/// The most columns a terminal screen can have: the interpreter adds a
/// character's width, at most two, to a column number of sixteen bits.
pub const MAX_COLS: u16 = 65533;

/// Whether a grid of `rows` by `cols` cells can hold a terminal screen: it
/// has at least one cell, and no more columns than the interpreter can
/// count.
pub open spec fn usable_size(rows: int, cols: int) -> bool {
    rows >= 1 && 1 <= cols <= MAX_COLS
}

/// Size of the terminal pane in character cells. Every value is usable as a
/// screen size.
#[derive(Clone, Copy, Debug, PartialEq, Eq)]
pub struct Geometry {
    rows: u16,
    cols: u16,
}

impl View for Geometry {
    type V = (u16, u16);

    /// The pair (rows, cols).
    closed spec fn view(&self) -> (u16, u16) {
        (self.rows, self.cols)
    }
}

impl Geometry {
    #[verifier::type_invariant]
    spec fn usable(self) -> bool {
        usable_size(self.rows as int, self.cols as int)
    }

    /// A geometry of `rows` by `cols`, unless that size is not usable.
    pub fn new(rows: u16, cols: u16) -> (r: Option<Geometry>)
        ensures
            r.is_some() <==> usable_size(rows as int, cols as int),
            r.is_some() ==> r.unwrap()@ == (rows, cols),
    {
        if rows >= 1 && cols >= 1 && cols <= MAX_COLS {
            Some(Geometry { rows, cols })
        } else {
            None
        }
    }

    pub fn rows(&self) -> (r: u16)
        ensures
            r == self@.0,
            r >= 1,
    {
        proof {
            use_type_invariant(self);
        }
        self.rows
    }

    pub fn cols(&self) -> (r: u16)
        ensures
            r == self@.1,
            1 <= r <= MAX_COLS,
    {
        proof {
            use_type_invariant(self);
        }
        self.cols
    }
}

/// Columns of the terminal pane: the whole part of
/// `total_cols * numerator / denominator`.
pub open spec fn pane_cols(total_cols: int, numerator: int, denominator: int) -> int {
    (total_cols * numerator) / denominator
}

/// Rows of the terminal pane: what is left of `total_rows` above the chrome,
/// and nothing when the chrome does not fit.
pub open spec fn pane_rows(total_rows: int, chrome_rows: int) -> int {
    if total_rows >= chrome_rows {
        total_rows - chrome_rows
    } else {
        0
    }
}

/// How the whole display is divided: the terminal pane gets
/// `numerator / denominator` of the columns, and `chrome_rows` rows are kept
/// for the fixed parts of the interface.
#[derive(Clone, Copy, Debug, PartialEq, Eq)]
pub struct LayoutPolicy {
    numerator: u16,
    denominator: u16,
    chrome_rows: u16,
}

pub struct LayoutPolicyView {
    pub numerator: int,
    pub denominator: int,
    pub chrome_rows: int,
}

impl View for LayoutPolicy {
    type V = LayoutPolicyView;

    closed spec fn view(&self) -> LayoutPolicyView {
        LayoutPolicyView {
            numerator: self.numerator as int,
            denominator: self.denominator as int,
            chrome_rows: self.chrome_rows as int,
        }
    }
}

impl LayoutPolicyView {
    /// A ratio is a fraction between zero and one.
    pub open spec fn valid(self) -> bool {
        0 <= self.numerator <= self.denominator && 0 < self.denominator && 0 <= self.chrome_rows
    }

    /// The pane size this policy gives a display of `total_cols` by
    /// `total_rows`, as (rows, cols).
    pub open spec fn pane(self, total_cols: int, total_rows: int) -> (int, int) {
        (
            pane_rows(total_rows, self.chrome_rows),
            pane_cols(total_cols, self.numerator, self.denominator),
        )
    }
}

impl LayoutPolicy {
    #[verifier::type_invariant]
    spec fn valid(self) -> bool {
        self@.valid()
    }

    /// Fifty-seven hundredths of the columns, five rows of chrome.
    pub open spec fn standard_view() -> LayoutPolicyView {
        LayoutPolicyView {
            numerator: DEFAULT_RATIO_PERCENT as int,
            denominator: 100,
            chrome_rows: DEFAULT_CHROME_ROWS as int,
        }
    }

    /// The policy with the given ratio and chrome, unless the ratio is not a
    /// fraction between zero and one.
    pub fn new(numerator: u16, denominator: u16, chrome_rows: u16) -> (r: Option<LayoutPolicy>)
        ensures
            r.is_some() <==> (numerator <= denominator && denominator > 0),
            r.is_some() ==> r.unwrap()@ == (LayoutPolicyView {
                numerator: numerator as int,
                denominator: denominator as int,
                chrome_rows: chrome_rows as int,
            }),
    {
        if numerator <= denominator && denominator > 0 {
            Some(LayoutPolicy { numerator, denominator, chrome_rows })
        } else {
            None
        }
    }

    /// The standard policy.
    pub fn standard() -> (r: LayoutPolicy)
        ensures
            r@ == Self::standard_view(),
    {
        LayoutPolicy {
            numerator: DEFAULT_RATIO_PERCENT,
            denominator: 100,
            chrome_rows: DEFAULT_CHROME_ROWS,
        }
    }

    /// The terminal pane for a display of `total_cols` by `total_rows`, or
    /// `None` when what is left for the pane is not a usable screen size.
    pub fn pane_geometry(&self, total_cols: u16, total_rows: u16) -> (r: Option<Geometry>)
        ensures
            self@.valid(),
            r.is_some() <==> usable_size(
                self@.pane(total_cols as int, total_rows as int).0,
                self@.pane(total_cols as int, total_rows as int).1,
            ),
            r.is_some() ==> (r.unwrap()@.0 as int, r.unwrap()@.1 as int) == self@.pane(
                total_cols as int,
                total_rows as int,
            ),
    {
        proof {
            use_type_invariant(self);
        }
        let rows: u16 = if total_rows >= self.chrome_rows {
            total_rows - self.chrome_rows
        } else {
            0
        };
        assert(total_cols as int * self.numerator as int <= 0xffff * 0xffff) by (nonlinear_arith)
            requires
                0 <= total_cols <= 0xffff,
                0 <= self.numerator <= 0xffff,
        ;
        let wide: u32 = (total_cols as u32) * (self.numerator as u32);
        let share: u32 = wide / (self.denominator as u32);
        assert(share <= total_cols) by (nonlinear_arith)
            requires
                share == (total_cols as int * self.numerator as int) / (self.denominator as int),
                0 <= self.numerator <= self.denominator,
                0 < self.denominator,
                0 <= total_cols,
        ;
        let cols: u16 = share as u16;
        Geometry::new(rows, cols)
    }
}

/// The text that `String::from_utf8_lossy` makes of `bytes`: the decoded
/// text, with a replacement character for each run of bytes that is not
/// UTF-8.
pub uninterp spec fn lossy_text(bytes: Seq<u8>) -> Seq<char>;

/// `String::from_utf8_lossy` decodes the bytes; where they are valid UTF-8
/// the result is their decoding, letter for letter.
#[verifier::external_body]
fn decode_lossy(bytes: &[u8]) -> (r: String)
    ensures
        r@ == lossy_text(bytes@),
        valid_utf8(bytes@) ==> r@ == decode_utf8(bytes@),
{
    String::from_utf8_lossy(bytes).into_owned()
}

/// Appends shell output to the raw context buffer, as text.
pub fn append_output(terminal_context: &mut String, bytes: &[u8])
    ensures
        final(terminal_context)@ == old(terminal_context)@ + lossy_text(bytes@),
        valid_utf8(bytes@) ==> final(terminal_context)@ == old(terminal_context)@ + decode_utf8(
            bytes@,
        ),
{
    let text = decode_lossy(bytes);
    terminal_context.append(text.as_str());
}

/// Whether the reader of the shell's output goes on.
#[derive(Clone, Copy, Debug, PartialEq, Eq, Structural)]
pub enum ReadOutcome {
    /// The chunk was taken in; read again.
    Continue,
    /// The read was empty: the shell has exited.
    Closed,
}

/// One step of the reader of the shell's output, on the chunk just read.
/// An empty chunk means the shell has exited, and changes nothing. Any
/// other chunk goes, whole and in this order, to the screen model and then
/// to the raw context buffer.
pub fn absorb_output(screen: &mut ScreenModel, terminal_context: &mut String, chunk: &[u8]) -> (outcome:
    ReadOutcome)
    requires
        old(screen).wf(),
    ensures
        outcome == (if chunk@.len() == 0 {
            ReadOutcome::Closed
        } else {
            ReadOutcome::Continue
        }),
        final(screen).wf(),
        final(screen)@ == old(screen)@.fed(chunk@),
        final(screen)@.size() == old(screen)@.size(),
        final(terminal_context)@ == (if chunk@.len() == 0 {
            old(terminal_context)@
        } else {
            old(terminal_context)@ + lossy_text(chunk@)
        }),
{
    if chunk.len() == 0 {
        ReadOutcome::Closed
    } else {
        screen.process(chunk);
        append_output(terminal_context, chunk);
        ReadOutcome::Continue
    }
}

} // verus!
