//! The layout of a frame.
//!
//! A frame is four digits, the colour of the digits and the colour of the
//! colon between the second and the third. Rendering a frame does not touch a
//! terminal: it gives the steps by which a terminal is painted, in order, for
//! the caller to perform.

use crate::font::{is_font, lemma_font_shape, GLYPH_ROWS};
use crate::text::{split_lines, text_lines};
use vstd::prelude::*;

verus! {

/// The row at which the glyphs start.
pub const TOP: usize = 2;

/// The columns at which the four glyphs start.
pub const DIGIT_COLUMNS: [usize; 4] = [2, 12, 24, 34];

/// The column of the two marks of the colon.
pub const COLON_COLUMN: i32 = 22;

/// The rows of the two marks of the colon.
pub const COLON_ROWS: [i32; 2] = [4, 6];

/// The mark of which the colon is made.
pub const COLON_MARK: &'static str = "x";

/// An entry of the palette.
#[derive(Clone, Copy, Debug, PartialEq, Eq, Structural)]
pub enum Colour {
    /// The terminal's own foreground.
    Off,
    /// A muted grey.
    Dim,
    /// A muted yellow.
    Warm,
}

/// Calls `pancurses::COLOR_PAIR`, which computes the attribute word of a colour
/// pair from the pair's number and touches no terminal. Claimed of it: the
/// result is the word of that number, and pair 0 comes out as no attribute at
/// all, since every back end does no more than shift the number.
#[verifier::external_body]
fn pair_attribute(pair: u32) -> (word: u64)
    ensures
        word == pair_word(pair),
        pair == 0 ==> word == 0,
{
    u64::from(pancurses::COLOR_PAIR(pancurses::chtype::from(pair)))
}

impl Colour {
    /// The number of the colour pair that holds this colour.
    pub open spec fn pair_spec(self) -> int {
        match self {
            Colour::Off => 0,
            Colour::Dim => 1,
            Colour::Warm => 2,
        }
    }

    /// The number of the colour pair that holds this colour.
    pub fn pair(self) -> (n: u32)
        ensures
            n == self.pair_spec(),
    {
        match self {
            Colour::Off => 0,
            Colour::Dim => 1,
            Colour::Warm => 2,
        }
    }

    /// The attribute word by which a window is told to write in this colour:
    /// the word of the colour's pair. The terminal's own colour is none.
    pub fn attribute(self) -> (word: u64)
        ensures
            word == self.attribute_spec(),
            self == Colour::Off ==> word == 0,
    {
        pair_attribute(self.pair())
    }

    /// The attribute word by which a window is told to write in this colour:
    /// the word of the colour's pair.
    pub open spec fn attribute_spec(self) -> u64 {
        pair_word(self.pair_spec() as u32)
    }
}

/// The attribute word by which a window is told to write in the colour pair of
/// number `pair`: what `pancurses::COLOR_PAIR` returns for that number. The
/// word depends on nothing but the number. How the number is laid into it is
/// fixed by the back end on which the terminal library is built, so the word
/// is named here and not spelled out.
pub uninterp spec fn pair_word(pair: u32) -> u64;

/// One step of painting a frame.
#[derive(Clone, Debug, PartialEq, Eq)]
pub enum Paint {
    /// Clear the window.
    Clear,
    /// Write what follows in this colour.
    Colour(Colour),
    /// Write `text` from the cell at `row` and `col` on.
    Text { row: i32, col: i32, text: String },
    /// Bring what was written to the terminal.
    Refresh,
}

/// One step of painting a frame, over unbounded integers and sequences.
pub enum PaintView {
    Clear,
    Colour(Colour),
    Text { row: int, col: int, text: Seq<char> },
    Refresh,
}

impl View for Paint {
    type V = PaintView;

    open spec fn view(&self) -> PaintView {
        match *self {
            Paint::Clear => PaintView::Clear,
            Paint::Colour(colour) => PaintView::Colour(colour),
            Paint::Text { row, col, text } => PaintView::Text {
                row: row as int,
                col: col as int,
                text: text@,
            },
            Paint::Refresh => PaintView::Refresh,
        }
    }
}

/// The steps, each by its view.
pub open spec fn paint_views(paints: Seq<Paint>) -> Seq<PaintView> {
    paints.map_values(|p: Paint| p@)
}

/// The glyphs, each by its view.
pub open spec fn font_texts(font: Seq<String>) -> Seq<Seq<char>> {
    font.map_values(|g: String| g@)
}

/// The steps that paint `numeral` with its upper left corner at column `x` and
/// row `y`: its lines, one row after the other.
pub open spec fn numeral_paints(x: int, y: int, numeral: Seq<char>) -> Seq<PaintView> {
    let lines = text_lines(numeral);
    Seq::new(lines.len(), |k: int| PaintView::Text { row: y + k, col: x, text: lines[k] })
}

/// Whether the cells of `numeral`, painted at column `x` and row `y`, can be
/// named in `i32`.
pub open spec fn numeral_fits(x: int, y: int, numeral: Seq<char>) -> bool {
    text_lines(numeral).len() > 0 ==> x <= i32::MAX && y + text_lines(numeral).len() - 1
        <= i32::MAX
}

/// Whether a frame of `digits` can be painted with `font`: the font has a
/// glyph for each digit, and the cells of these glyphs can be named.
pub open spec fn can_render(font: Seq<Seq<char>>, digits: Seq<u64>) -> bool {
    forall|i: int|
        0 <= i < 4 ==> (#[trigger] digits[i]) < font.len() && numeral_fits(
            DIGIT_COLUMNS@[i] as int,
            TOP as int,
            font[digits[i] as int],
        )
}

/// The steps that paint the glyph of the digit at place `i`.
pub open spec fn digit_paints(font: Seq<Seq<char>>, digits: Seq<u64>, i: int) -> Seq<PaintView> {
    numeral_paints(DIGIT_COLUMNS@[i] as int, TOP as int, font[digits[i] as int])
}

/// The two marks of the colon.
pub open spec fn colon_paints() -> Seq<PaintView> {
    seq![
        PaintView::Text { row: COLON_ROWS@[0] as int, col: COLON_COLUMN as int, text: COLON_MARK@ },
        PaintView::Text { row: COLON_ROWS@[1] as int, col: COLON_COLUMN as int, text: COLON_MARK@ },
    ]
}

/// The steps that paint a frame: clear, take the colour of the digits, paint
/// the four glyphs but for a zero in the first place, take the colour of the
/// colon, paint its two marks, and bring it all to the terminal.
pub open spec fn render_spec(
    font: Seq<Seq<char>>,
    digits: Seq<u64>,
    time_colour: Colour,
    colon_colour: Colour,
) -> Seq<PaintView> {
    seq![PaintView::Clear, PaintView::Colour(time_colour)] + (if digits[0] > 0 {
        digit_paints(font, digits, 0)
    } else {
        Seq::empty()
    }) + digit_paints(font, digits, 1) + digit_paints(font, digits, 2) + digit_paints(
        font,
        digits,
        3,
    ) + seq![PaintView::Colour(colon_colour)] + colon_paints() + seq![PaintView::Refresh]
}

/// Whether the cells of `numeral`, painted at column `x` and row `y`, can be
/// named in `i32`.
pub fn numeral_in_range(x: usize, y: usize, numeral: &str) -> (ok: bool)
    ensures
        ok == numeral_fits(x as int, y as int, numeral@),
{
    let count: usize = split_lines(numeral).len();
    let last: usize = i32::MAX as usize;
    count == 0 || (x <= last && y <= last && count - 1 <= last - y)
}

/// The steps that paint `numeral` with its upper left corner at column `x` and
/// row `y`.
pub fn render_numeral(x: usize, y: usize, numeral: &str) -> (paints: Vec<Paint>)
    requires
        numeral_fits(x as int, y as int, numeral@),
    ensures
        paint_views(paints@) == numeral_paints(x as int, y as int, numeral@),
{
    let lines = split_lines(numeral);
    let mut paints: Vec<Paint> = Vec::new();
    let mut offset: usize = 0;
    while offset < lines.len()
        invariant
            offset <= lines@.len(),
            lines@.len() == text_lines(numeral@).len(),
            forall|j: int|
                0 <= j < lines@.len() ==> (#[trigger] lines@[j])@ == text_lines(numeral@)[j],
            numeral_fits(x as int, y as int, numeral@),
            paints@.len() == offset,
            forall|j: int|
                0 <= j < offset ==> (#[trigger] paints@[j])@ == numeral_paints(
                    x as int,
                    y as int,
                    numeral@,
                )[j],
        decreases lines@.len() - offset,
    {
        let row: i32 = (y + offset) as i32;
        let col: i32 = x as i32;
        let text = lines[offset].to_owned();
        paints.push(Paint::Text { row, col, text });
        offset = offset + 1;
    }
    assert(paint_views(paints@) =~= numeral_paints(x as int, y as int, numeral@));
    paints
}

/// Whether a frame of `digits` can be painted with `font`.
pub fn frame_in_range(font: &Vec<String>, digits: [u64; 4]) -> (ok: bool)
    ensures
        ok == can_render(font_texts(font@), digits@),
{
    let columns: [usize; 4] = DIGIT_COLUMNS;
    let mut i: usize = 0;
    while i < 4
        invariant
            i <= 4,
            columns@ == DIGIT_COLUMNS@,
            forall|j: int|
                0 <= j < i ==> (#[trigger] digits@[j]) < font@.len() && numeral_fits(
                    DIGIT_COLUMNS@[j] as int,
                    TOP as int,
                    font_texts(font@)[digits@[j] as int],
                ),
        decreases 4 - i,
    {
        let digit: u64 = digits[i];
        if digit >= font.len() as u64 {
            return false;
        }
        if !numeral_in_range(columns[i], TOP, font[digit as usize].as_str()) {
            return false;
        }
        i = i + 1;
    }
    true
}

/// The steps that paint a frame of `digits` in `colors`, the colour of the
/// digits first and that of the colon second, with the glyphs of `font`.
pub fn render(font: &Vec<String>, digits: [u64; 4], colors: (Colour, Colour)) -> (paints: Vec<
    Paint,
>)
    requires
        can_render(font_texts(font@), digits@),
    ensures
        paint_views(paints@) == render_spec(font_texts(font@), digits@, colors.0, colors.1),
{
    let columns: [usize; 4] = DIGIT_COLUMNS;
    let rows: [i32; 2] = COLON_ROWS;
    let ghost texts = font_texts(font@);
    let mut paints: Vec<Paint> = Vec::new();
    paints.push(Paint::Clear);
    paints.push(Paint::Colour(colors.0));
    assert(paint_views(paints@) =~= seq![PaintView::Clear, PaintView::Colour(colors.0)]);
    let mut i: usize = 0;
    while i < 4
        invariant
            i <= 4,
            columns@ == DIGIT_COLUMNS@,
            texts == font_texts(font@),
            can_render(texts, digits@),
            paint_views(paints@) == seq![PaintView::Clear, PaintView::Colour(colors.0)] + (if i > 0
                && digits@[0] > 0 {
                digit_paints(texts, digits@, 0)
            } else {
                Seq::empty()
            }) + (if i > 1 {
                digit_paints(texts, digits@, 1)
            } else {
                Seq::empty()
            }) + (if i > 2 {
                digit_paints(texts, digits@, 2)
            } else {
                Seq::empty()
            }) + (if i > 3 {
                digit_paints(texts, digits@, 3)
            } else {
                Seq::empty()
            }),
        decreases 4 - i,
    {
        let digit: u64 = digits[i];
        assert(digits@[i as int] < texts.len());
        assert(texts[digit as int] == font@[digit as int]@);
        assert(font.len() == font@.len());
        if i > 0 || digit > 0 {
            let ghost before = paint_views(paints@);
            let place: usize = digit as usize;
            let mut glyph_paints = render_numeral(columns[i], TOP, font[place].as_str());
            paints.append(&mut glyph_paints);
            assert(paint_views(paints@) =~= before + digit_paints(texts, digits@, i as int));
        }
        i = i + 1;
    }
    let ghost before = paint_views(paints@);
    paints.push(Paint::Colour(colors.1));
    paints.push(Paint::Text { row: rows[0], col: COLON_COLUMN, text: COLON_MARK.to_owned() });
    paints.push(Paint::Text { row: rows[1], col: COLON_COLUMN, text: COLON_MARK.to_owned() });
    paints.push(Paint::Refresh);
    assert(paint_views(paints@) =~= before + seq![PaintView::Colour(colors.1)] + colon_paints()
        + seq![PaintView::Refresh]);
    paints
}

/// A frame whose digits are all below ten can be painted with the font, and
/// each glyph that is painted takes six steps, one for each of its lines.
pub proof fn lemma_font_renders(font: Seq<String>, digits: Seq<u64>)
    requires
        is_font(font),
        digits.len() == 4,
        forall|i: int| 0 <= i < 4 ==> digits[i] < 10,
    ensures
        can_render(font_texts(font), digits),
        forall|i: int|
            0 <= i < 4 ==> (#[trigger] digit_paints(font_texts(font), digits, i)).len()
                == GLYPH_ROWS,
        render_spec(font_texts(font), digits, Colour::Off, Colour::Off).len() == (if digits[0] > 0 {
            30int
        } else {
            24int
        }),
{
    let texts = font_texts(font);
    assert forall|i: int| 0 <= i < 4 implies (#[trigger] digits[i]) < texts.len() && numeral_fits(
        DIGIT_COLUMNS@[i] as int,
        TOP as int,
        texts[digits[i] as int],
    ) && digit_paints(texts, digits, i).len() == GLYPH_ROWS by {
        let d = digits[i] as int;
        assert(texts[d] == font[d]@);
        lemma_font_shape(d);
    }
}

} // verus!
