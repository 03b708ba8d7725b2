//! The glyphs of the ten digits.
//!
//! Each digit is drawn as a block of text. The blocks are written down as they
//! look, after a line feed that opens each of them, and are brought to one
//! common width before use: every line is filled up with spaces on its right
//! to the width of the widest line of all ten.

use crate::text::{
    byte_lines, join, lemma_ascii_lines_agree, lemma_lines_hold, lemma_lines_of_join,
    lemma_widest_bounds, line_end, lines_from, split_lines, text_lines, widest,
};
use vstd::prelude::*;
use vstd::string::StringSliceAdditionalSpecFns;
use vstd::utf8::{is_ascii_chars, is_ascii_chars_encode_utf8};

verus! {

/// The glyph of `0` as it is written down.
pub const ZERO: &'static str = "\n  ___\n / _ \\\n| | | |\n| | | |\n| |_| |\n \\___/\n";

/// The glyph of `1` as it is written down.
pub const ONE: &'static str = "\n __\n/_ |\n | |\n | |\n | |\n |_|\n";

/// The glyph of `2` as it is written down.
pub const TWO: &'static str = "\n ___\n|__ \\\n   ) |\n  / /\n / /_\n|____|\n";

/// The glyph of `3` as it is written down.
pub const THREE: &'static str = "\n ____\n|___ \\\n  __) |\n |__ <\n ___) |\n|____/\n";

/// The glyph of `4` as it is written down.
pub const FOUR: &'static str = "\n _  _\n| || |\n| || |_\n|__   _|\n   | |\n   |_|\n";

/// The glyph of `5` as it is written down.
pub const FIVE: &'static str = "\n _____\n| ____|\n| |__\n|___ \\\n ___) |\n|____/\n";

/// The glyph of `6` as it is written down.
pub const SIX: &'static str = "\n   __\n  / /\n / /_\n| '_ \\\n| (_) |\n \\___/\n";

/// The glyph of `7` as it is written down.
pub const SEVEN: &'static str = "\n ______\n|____  |\n    / /\n   / /\n  / /\n /_/\n";

/// The glyph of `8` as it is written down.
pub const EIGHT: &'static str = "\n  ___\n / _ \\\n| (_) |\n > _ <\n| (_) |\n \\___/\n";

/// The glyph of `9` as it is written down.
pub const NINE: &'static str = "\n  ___\n / _ \\\n| (_) |\n \\__, |\n   / /\n  /_/\n";

/// The number of lines of each glyph.
pub const GLYPH_ROWS: usize = 6;

/// The width of each line of each glyph.
pub const GLYPH_WIDTH: usize = 8;

/// The glyphs as they are written down, by digit.
pub open spec fn raw_glyphs() -> Seq<&'static str> {
    seq![ZERO, ONE, TWO, THREE, FOUR, FIVE, SIX, SEVEN, EIGHT, NINE]
}

/// The length in bytes of the longest line of `raw`.
pub open spec fn raw_width(raw: &str) -> nat {
    widest(byte_lines(raw.spec_bytes()))
}

/// The greatest width among the first `n` of `raws`.
pub open spec fn widest_raw(raws: Seq<&'static str>, n: int) -> nat
    decreases n,
{
    if n <= 0 {
        0
    } else {
        let before = widest_raw(raws, n - 1);
        if raw_width(raws[n - 1]) > before {
            raw_width(raws[n - 1])
        } else {
            before
        }
    }
}

/// The width of the font: that of the widest line of all the glyphs.
pub open spec fn font_width() -> nat {
    widest_raw(raw_glyphs(), 10)
}

/// `line`, filled up with spaces on its right to `width` characters; a line
/// that is as long or longer stays as it is.
pub open spec fn padded(line: Seq<char>, width: nat) -> Seq<char> {
    if line.len() >= width {
        line
    } else {
        line + Seq::new((width - line.len()) as nat, |i: int| ' ')
    }
}

/// The lines of the glyph that is written down as `raw`: the lines of `raw`
/// but for the first, each filled up to `width`.
pub open spec fn glyph_rows(raw: Seq<char>, width: nat) -> Seq<Seq<char>> {
    let lines = text_lines(raw);
    if lines.len() == 0 {
        Seq::empty()
    } else {
        Seq::new((lines.len() - 1) as nat, |k: int| padded(lines[k + 1], width))
    }
}

/// The glyph that is written down as `raw`, as one text: its lines with a
/// line feed between each two.
pub open spec fn glyph_text(raw: Seq<char>, width: nat) -> Seq<char> {
    join(glyph_rows(raw, width), '\n')
}

/// The glyph of digit `d`.
pub open spec fn glyph(d: int) -> Seq<char> {
    glyph_text(raw_glyphs()[d]@, font_width())
}

/// Whether `font` is the font: the glyphs of the ten digits, by digit.
pub open spec fn is_font(font: Seq<String>) -> bool {
    &&& font.len() == 10
    &&& forall|d: int| 0 <= d < 10 ==> (#[trigger] font[d])@ == glyph(d)
}

/// The length in bytes of the longest line of `s`.
pub fn max_line_width(s: &str) -> (width: usize)
    ensures
        width == raw_width(s),
{
    let bytes = s.as_bytes();
    let len: usize = bytes.len();
    let mut width: usize = 0;
    let mut from: usize = 0;
    while from < len
        invariant
            bytes@ == s.spec_bytes(),
            len == bytes@.len(),
            from <= len,
            raw_width(s) == if widest(lines_from(bytes@, from as int, 10u8, 13u8)) > width {
                widest(lines_from(bytes@, from as int, 10u8, 13u8))
            } else {
                width as nat
            },
        decreases len - from,
    {
        let mut end: usize = from;
        while end < len && bytes[end] != 10u8
            invariant
                len == bytes@.len(),
                from <= end <= len,
                line_end(bytes@, end as int, 10u8) == line_end(bytes@, from as int, 10u8),
            decreases len - end,
        {
            end = end + 1;
        }
        let stop: usize = if from < end && end < len && bytes[end - 1] == 13u8 {
            end - 1
        } else {
            end
        };
        proof {
            let lines = lines_from(bytes@, from as int, 10u8, 13u8);
            let rest = if end < len {
                lines_from(bytes@, end as int + 1, 10u8, 13u8)
            } else {
                Seq::empty()
            };
            assert(lines[0].len() == stop - from);
            assert(lines.drop_first() =~= rest);
        }
        if stop - from > width {
            width = stop - from;
        }
        from = if end < len {
            end + 1
        } else {
            end
        };
    }
    width
}

/// Appends `line` to `out`, and then spaces until `width` characters have
/// been appended.
fn push_padded(out: &mut String, line: &str, width: usize)
    ensures
        final(out)@ == old(out)@ + padded(line@, width as nat),
{
    out.append(line);
    let mut n: usize = line.unicode_len();
    proof {
        reveal_strlit(" ");
        assert(out@ =~= old(out)@ + line@ + Seq::new(0, |i: int| ' '));
    }
    while n < width
        invariant
            line@.len() <= n,
            n <= width || n == line@.len(),
            " "@ == seq![' '],
            out@ == old(out)@ + line@ + Seq::new((n - line@.len()) as nat, |i: int| ' '),
        decreases width - n,
    {
        out.append(" ");
        n = n + 1;
        assert(out@ =~= old(out)@ + line@ + Seq::new((n - line@.len()) as nat, |i: int| ' '));
    }
    assert(out@ =~= old(out)@ + padded(line@, width as nat));
}

/// The glyph that is written down as `raw`: the lines of `raw` but for the
/// first, each filled up with spaces to `width` characters, with a line feed
/// between each two.
pub fn pad_glyph(raw: &str, width: usize) -> (out: String)
    ensures
        out@ == glyph_text(raw@, width as nat),
{
    let lines = split_lines(raw);
    let mut out = String::new();
    let mut k: usize = 1;
    let ghost rows = glyph_rows(raw@, width as nat);
    proof {
        reveal_strlit("\n");
        assert(rows.take(0) =~= Seq::<Seq<char>>::empty());
    }
    while k < lines.len()
        invariant
            1 <= k,
            k <= lines@.len() || k == 1,
            lines@.len() == text_lines(raw@).len(),
            forall|j: int| 0 <= j < lines@.len() ==> (#[trigger] lines@[j])@ == text_lines(raw@)[j],
            rows == glyph_rows(raw@, width as nat),
            "\n"@ == seq!['\n'],
            out@ == join(rows.take(k - 1), '\n'),
        decreases lines.len() - k,
    {
        if k > 1 {
            out.append("\n");
        }
        push_padded(&mut out, lines[k], width);
        proof {
            let done = rows.take(k as int);
            assert(done.drop_last() =~= rows.take(k - 1));
            assert(done.last() == padded(lines@[k as int]@, width as nat));
            assert(out@ =~= join(done, '\n'));
        }
        k = k + 1;
    }
    assert(rows.take(k - 1) =~= rows);
    out
}

/// The glyphs of the digits `0` to `9`, by digit, all of one shape: each is
/// six lines of eight characters.
pub fn get_font() -> (font: Vec<String>)
    ensures
        is_font(font@),
        forall|d: int| 0 <= d < 10 ==> (#[trigger] font@[d])@ == glyph_texts()[d],
        forall|d: int|
            0 <= d < 10 ==> {
                &&& text_lines((#[trigger] font@[d])@).len() == GLYPH_ROWS
                &&& forall|k: int|
                    0 <= k < GLYPH_ROWS ==> (#[trigger] text_lines(font@[d]@)[k]).len()
                        == GLYPH_WIDTH
            },
{
    let numerals: [&'static str; 10] = [ZERO, ONE, TWO, THREE, FOUR, FIVE, SIX, SEVEN, EIGHT, NINE];
    assert(numerals@ =~= raw_glyphs());
    let mut max_width: usize = 0;
    let mut d: usize = 0;
    while d < 10
        invariant
            d <= 10,
            numerals@ == raw_glyphs(),
            max_width == widest_raw(raw_glyphs(), d as int),
        decreases 10 - d,
    {
        let width: usize = max_line_width(numerals[d]);
        if width > max_width {
            max_width = width;
        }
        d = d + 1;
    }
    let mut font: Vec<String> = Vec::new();
    let mut d: usize = 0;
    while d < 10
        invariant
            d <= 10,
            numerals@ == raw_glyphs(),
            max_width == font_width(),
            font@.len() == d,
            forall|j: int| 0 <= j < d ==> (#[trigger] font@[j])@ == glyph(j),
        decreases 10 - d,
    {
        let text = pad_glyph(numerals[d], max_width);
        font.push(text);
        d = d + 1;
    }
    proof {
        lemma_glyph_texts();
        assert forall|d: int| 0 <= d < 10 implies {
            &&& text_lines((#[trigger] font@[d])@).len() == GLYPH_ROWS
            &&& forall|k: int|
                0 <= k < GLYPH_ROWS ==> (#[trigger] text_lines(font@[d]@)[k]).len() == GLYPH_WIDTH
        } by {
            lemma_font_shape(d);
        }
    }
    font
}

/// Whether `raw` is written down as a glyph is: a first line and then the
/// lines of the glyph, the widest of them `width` characters long, all of it in
/// ASCII and without a carriage return.
pub open spec fn is_raw_glyph(raw: Seq<char>, width: nat) -> bool {
    &&& text_lines(raw).len() == GLYPH_ROWS + 1
    &&& widest(text_lines(raw)) == width
    &&& is_ascii_chars(raw)
    &&& forall|i: int| 0 <= i < raw.len() ==> raw[i] != '\r'
}

/// The glyphs as they are used, by digit.
pub open spec fn glyph_texts() -> Seq<Seq<char>> {
    seq![
        "  ___   \n / _ \\  \n| | | | \n| | | | \n| |_| | \n \\___/  "@,
        " __     \n/_ |    \n | |    \n | |    \n | |    \n |_|    "@,
        " ___    \n|__ \\   \n   ) |  \n  / /   \n / /_   \n|____|  "@,
        " ____   \n|___ \\  \n  __) | \n |__ <  \n ___) | \n|____/  "@,
        " _  _   \n| || |  \n| || |_ \n|__   _|\n   | |  \n   |_|  "@,
        " _____  \n| ____| \n| |__   \n|___ \\  \n ___) | \n|____/  "@,
        "   __   \n  / /   \n / /_   \n| '_ \\  \n| (_) | \n \\___/  "@,
        " ______ \n|____  |\n    / / \n   / /  \n  / /   \n /_/    "@,
        "  ___   \n / _ \\  \n| (_) | \n > _ <  \n| (_) | \n \\___/  "@,
        "  ___   \n / _ \\  \n| (_) | \n \\__, | \n   / /  \n  /_/   "@,
    ]
}

/// The width of each glyph as it is written down, by digit.
pub open spec fn raw_widths() -> Seq<nat> {
    seq![7, 4, 6, 7, 8, 7, 7, 8, 7, 7]
}

/// The glyph of `0`: how it is written down, and what it is at a width of
/// eight.
proof fn lemma_zero()
    ensures
        is_raw_glyph(ZERO@, 7),
        glyph_text(ZERO@, 8) == glyph_texts()[0],
{
    reveal_strlit("\n  ___\n / _ \\\n| | | |\n| | | |\n| |_| |\n \\___/\n");
    reveal_strlit("  ___   \n / _ \\  \n| | | | \n| | | | \n| |_| | \n \\___/  ");
    reveal_with_fuel(line_end, 10);
    reveal_with_fuel(lines_from, 8);
    reveal_with_fuel(widest, 8);
    reveal_with_fuel(join, 7);
    assert(glyph_rows(ZERO@, 8).len() == 6);
    assert(glyph_text(ZERO@, 8) =~= glyph_texts()[0]);
}

/// The glyph of `1`: how it is written down, and what it is at a width of
/// eight.
proof fn lemma_one()
    ensures
        is_raw_glyph(ONE@, 4),
        glyph_text(ONE@, 8) == glyph_texts()[1],
{
    reveal_strlit("\n __\n/_ |\n | |\n | |\n | |\n |_|\n");
    reveal_strlit(" __     \n/_ |    \n | |    \n | |    \n | |    \n |_|    ");
    reveal_with_fuel(line_end, 10);
    reveal_with_fuel(lines_from, 8);
    reveal_with_fuel(widest, 8);
    reveal_with_fuel(join, 7);
    assert(glyph_rows(ONE@, 8).len() == 6);
    assert(glyph_text(ONE@, 8) =~= glyph_texts()[1]);
}

/// The glyph of `2`: how it is written down, and what it is at a width of
/// eight.
proof fn lemma_two()
    ensures
        is_raw_glyph(TWO@, 6),
        glyph_text(TWO@, 8) == glyph_texts()[2],
{
    reveal_strlit("\n ___\n|__ \\\n   ) |\n  / /\n / /_\n|____|\n");
    reveal_strlit(" ___    \n|__ \\   \n   ) |  \n  / /   \n / /_   \n|____|  ");
    reveal_with_fuel(line_end, 10);
    reveal_with_fuel(lines_from, 8);
    reveal_with_fuel(widest, 8);
    reveal_with_fuel(join, 7);
    assert(glyph_rows(TWO@, 8).len() == 6);
    assert(glyph_text(TWO@, 8) =~= glyph_texts()[2]);
}

/// The glyph of `3`: how it is written down, and what it is at a width of
/// eight.
proof fn lemma_three()
    ensures
        is_raw_glyph(THREE@, 7),
        glyph_text(THREE@, 8) == glyph_texts()[3],
{
    reveal_strlit("\n ____\n|___ \\\n  __) |\n |__ <\n ___) |\n|____/\n");
    reveal_strlit(" ____   \n|___ \\  \n  __) | \n |__ <  \n ___) | \n|____/  ");
    reveal_with_fuel(line_end, 10);
    reveal_with_fuel(lines_from, 8);
    reveal_with_fuel(widest, 8);
    reveal_with_fuel(join, 7);
    assert(glyph_rows(THREE@, 8).len() == 6);
    assert(glyph_text(THREE@, 8) =~= glyph_texts()[3]);
}

/// The glyph of `4`: how it is written down, and what it is at a width of
/// eight.
proof fn lemma_four()
    ensures
        is_raw_glyph(FOUR@, 8),
        glyph_text(FOUR@, 8) == glyph_texts()[4],
{
    reveal_strlit("\n _  _\n| || |\n| || |_\n|__   _|\n   | |\n   |_|\n");
    reveal_strlit(" _  _   \n| || |  \n| || |_ \n|__   _|\n   | |  \n   |_|  ");
    reveal_with_fuel(line_end, 10);
    reveal_with_fuel(lines_from, 8);
    reveal_with_fuel(widest, 8);
    reveal_with_fuel(join, 7);
    assert(glyph_rows(FOUR@, 8).len() == 6);
    assert(glyph_text(FOUR@, 8) =~= glyph_texts()[4]);
}

/// The glyph of `5`: how it is written down, and what it is at a width of
/// eight.
proof fn lemma_five()
    ensures
        is_raw_glyph(FIVE@, 7),
        glyph_text(FIVE@, 8) == glyph_texts()[5],
{
    reveal_strlit("\n _____\n| ____|\n| |__\n|___ \\\n ___) |\n|____/\n");
    reveal_strlit(" _____  \n| ____| \n| |__   \n|___ \\  \n ___) | \n|____/  ");
    reveal_with_fuel(line_end, 10);
    reveal_with_fuel(lines_from, 8);
    reveal_with_fuel(widest, 8);
    reveal_with_fuel(join, 7);
    assert(glyph_rows(FIVE@, 8).len() == 6);
    assert(glyph_text(FIVE@, 8) =~= glyph_texts()[5]);
}

/// The glyph of `6`: how it is written down, and what it is at a width of
/// eight.
proof fn lemma_six()
    ensures
        is_raw_glyph(SIX@, 7),
        glyph_text(SIX@, 8) == glyph_texts()[6],
{
    reveal_strlit("\n   __\n  / /\n / /_\n| '_ \\\n| (_) |\n \\___/\n");
    reveal_strlit("   __   \n  / /   \n / /_   \n| '_ \\  \n| (_) | \n \\___/  ");
    reveal_with_fuel(line_end, 10);
    reveal_with_fuel(lines_from, 8);
    reveal_with_fuel(widest, 8);
    reveal_with_fuel(join, 7);
    assert(glyph_rows(SIX@, 8).len() == 6);
    assert(glyph_text(SIX@, 8) =~= glyph_texts()[6]);
}

/// The glyph of `7`: how it is written down, and what it is at a width of
/// eight.
proof fn lemma_seven()
    ensures
        is_raw_glyph(SEVEN@, 8),
        glyph_text(SEVEN@, 8) == glyph_texts()[7],
{
    reveal_strlit("\n ______\n|____  |\n    / /\n   / /\n  / /\n /_/\n");
    reveal_strlit(" ______ \n|____  |\n    / / \n   / /  \n  / /   \n /_/    ");
    reveal_with_fuel(line_end, 10);
    reveal_with_fuel(lines_from, 8);
    reveal_with_fuel(widest, 8);
    reveal_with_fuel(join, 7);
    assert(glyph_rows(SEVEN@, 8).len() == 6);
    assert(glyph_text(SEVEN@, 8) =~= glyph_texts()[7]);
}

/// The glyph of `8`: how it is written down, and what it is at a width of
/// eight.
proof fn lemma_eight()
    ensures
        is_raw_glyph(EIGHT@, 7),
        glyph_text(EIGHT@, 8) == glyph_texts()[8],
{
    reveal_strlit("\n  ___\n / _ \\\n| (_) |\n > _ <\n| (_) |\n \\___/\n");
    reveal_strlit("  ___   \n / _ \\  \n| (_) | \n > _ <  \n| (_) | \n \\___/  ");
    reveal_with_fuel(line_end, 10);
    reveal_with_fuel(lines_from, 8);
    reveal_with_fuel(widest, 8);
    reveal_with_fuel(join, 7);
    assert(glyph_rows(EIGHT@, 8).len() == 6);
    assert(glyph_text(EIGHT@, 8) =~= glyph_texts()[8]);
}

/// The glyph of `9`: how it is written down, and what it is at a width of
/// eight.
proof fn lemma_nine()
    ensures
        is_raw_glyph(NINE@, 7),
        glyph_text(NINE@, 8) == glyph_texts()[9],
{
    reveal_strlit("\n  ___\n / _ \\\n| (_) |\n \\__, |\n   / /\n  /_/\n");
    reveal_strlit("  ___   \n / _ \\  \n| (_) | \n \\__, | \n   / /  \n  /_/   ");
    reveal_with_fuel(line_end, 10);
    reveal_with_fuel(lines_from, 8);
    reveal_with_fuel(widest, 8);
    reveal_with_fuel(join, 7);
    assert(glyph_rows(NINE@, 8).len() == 6);
    assert(glyph_text(NINE@, 8) =~= glyph_texts()[9]);
}

/// Each of the ten glyphs is written down as a glyph is, at its width.
pub proof fn lemma_raw_glyphs()
    ensures
        forall|d: int| 0 <= d < 10 ==> is_raw_glyph((#[trigger] raw_glyphs()[d])@, raw_widths()[d]),
{
    lemma_zero();
    lemma_one();
    lemma_two();
    lemma_three();
    lemma_four();
    lemma_five();
    lemma_six();
    lemma_seven();
    lemma_eight();
    lemma_nine();
}

/// An ASCII text is as wide in bytes as it is in characters.
pub proof fn lemma_ascii_raw_width(raw: &str)
    requires
        is_ascii_chars(raw@),
    ensures
        raw_width(raw) == widest(text_lines(raw@)),
{
    is_ascii_chars_encode_utf8(raw@);
    lemma_ascii_lines_agree(raw@, raw.spec_bytes(), 0);
}

/// The font is eight characters wide.
pub proof fn lemma_font_width()
    ensures
        font_width() == GLYPH_WIDTH,
{
    lemma_raw_glyphs();
    assert forall|d: int| 0 <= d < 10 implies raw_width(#[trigger] raw_glyphs()[d])
        == raw_widths()[d] by {
        assert(is_raw_glyph(raw_glyphs()[d]@, raw_widths()[d]));
        lemma_ascii_raw_width(raw_glyphs()[d]);
    }
    reveal_with_fuel(widest_raw, 11);
}

/// The glyphs of the font are the glyphs as they are used.
pub proof fn lemma_glyph_texts()
    ensures
        forall|d: int| 0 <= d < 10 ==> #[trigger] glyph(d) == glyph_texts()[d],
{
    lemma_font_width();
    lemma_zero();
    lemma_one();
    lemma_two();
    lemma_three();
    lemma_four();
    lemma_five();
    lemma_six();
    lemma_seven();
    lemma_eight();
    lemma_nine();
}

/// The ten glyphs have one shape: each is six lines of eight characters, and
/// these are the lines that the glyph is cut into when it is painted.
pub proof fn lemma_font_shape(d: int)
    requires
        0 <= d < 10,
    ensures
        text_lines(glyph(d)) == glyph_rows(raw_glyphs()[d]@, font_width()),
        text_lines(glyph(d)).len() == GLYPH_ROWS,
        forall|k: int|
            0 <= k < GLYPH_ROWS ==> (#[trigger] text_lines(glyph(d))[k]).len() == GLYPH_WIDTH,
{
    lemma_raw_glyphs();
    lemma_font_width();
    let raw = raw_glyphs()[d]@;
    let lines = text_lines(raw);
    let rows = glyph_rows(raw, font_width());
    assert(is_raw_glyph(raw, raw_widths()[d]));
    assert(raw_widths()[d] <= GLYPH_WIDTH);
    lemma_lines_hold(raw, 0, '\n', '\r', |c: char| c != '\r');
    assert forall|k: int| 0 <= k < rows.len() implies {
        &&& (#[trigger] rows[k]).len() == GLYPH_WIDTH
        &&& rows[k].last() != '\r'
        &&& forall|i: int| 0 <= i < rows[k].len() ==> rows[k][i] != '\n'
    } by {
        lemma_widest_bounds(lines, k + 1);
        let line = lines[k + 1];
        assert(rows[k] == padded(line, font_width()));
        if line.len() < GLYPH_WIDTH {
            assert(rows[k].last() == ' ');
        } else {
            assert(rows[k].last() == line[line.len() - 1]);
        }
        assert forall|i: int| 0 <= i < rows[k].len() implies rows[k][i] != '\n' by {
            if i < line.len() {
                assert(rows[k][i] == line[i]);
            } else {
                assert(rows[k][i] == ' ');
            }
        }
    }
    lemma_lines_of_join(Seq::empty(), rows, '\n', '\r');
    assert(Seq::<char>::empty() + join(rows, '\n') =~= join(rows, '\n'));
}

} // verus!
