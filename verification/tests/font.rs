use timer::font::{
    get_font, max_line_width, pad_glyph, EIGHT, FIVE, FOUR, GLYPH_ROWS, GLYPH_WIDTH, NINE, ONE,
    SEVEN, SIX, THREE, TWO, ZERO,
};
use timer::text::split_lines;

fn rows(lines: [&str; 6]) -> String {
    lines.join("\n")
}

#[test]
fn split_lines_of_nothing_is_nothing() {
    assert_eq!(split_lines(""), Vec::<&str>::new());
}

#[test]
fn split_lines_cuts_at_line_feeds() {
    assert_eq!(split_lines("a\nbc\nd"), vec!["a", "bc", "d"]);
    assert_eq!(split_lines("one line"), vec!["one line"]);
}

#[test]
fn split_lines_has_no_empty_line_after_a_last_line_feed() {
    assert_eq!(split_lines("a\nb\n"), vec!["a", "b"]);
    assert_eq!(split_lines("\n"), vec![""]);
}

#[test]
fn split_lines_keeps_empty_lines() {
    assert_eq!(split_lines("\n\na\n\nb"), vec!["", "", "a", "", "b"]);
    assert_eq!(split_lines("a\n\n"), vec!["a", ""]);
}

#[test]
fn split_lines_drops_a_carriage_return_before_a_line_feed() {
    assert_eq!(split_lines("a\r\nb\r\n"), vec!["a", "b"]);
    assert_eq!(split_lines("\r\n"), vec![""]);
    assert_eq!(split_lines("a\r\r\nb"), vec!["a\r", "b"]);
}

#[test]
fn split_lines_keeps_other_carriage_returns() {
    assert_eq!(split_lines("a\rb\nc\r"), vec!["a\rb", "c\r"]);
    assert_eq!(split_lines("\r"), vec!["\r"]);
}

#[test]
fn split_lines_agrees_with_std() {
    let texts = [
        "",
        "\n",
        "\r",
        "\r\n",
        "a",
        "a\n",
        "a\r\n",
        "a\nb",
        "a\n\nb\n",
        "\n\n\n",
        "x\r\ny\rz\n\r\n\r",
        "tr\u{e4}d\n\u{20ac}\r\n",
        ZERO,
        SEVEN,
    ];
    for text in texts {
        let expected: Vec<&str> = text.lines().collect();
        assert_eq!(split_lines(text), expected);
    }
}

#[test]
fn max_line_width_of_nothing_is_zero() {
    assert_eq!(max_line_width(""), 0);
    assert_eq!(max_line_width("\n\n"), 0);
}

#[test]
fn max_line_width_is_that_of_the_longest_line() {
    assert_eq!(max_line_width("ab\nabcd\nabc"), 4);
    assert_eq!(max_line_width("abcde"), 5);
    assert_eq!(max_line_width("abcde\n"), 5);
    assert_eq!(max_line_width("\nabc"), 3);
}

#[test]
fn max_line_width_leaves_line_ends_out() {
    assert_eq!(max_line_width("abc\r\nab"), 3);
    assert_eq!(max_line_width("abc\r"), 4);
    assert_eq!(max_line_width("ab\rc\n"), 4);
}

#[test]
fn max_line_width_counts_bytes() {
    assert_eq!(max_line_width("\u{e4}\u{e4}\nabc"), 4);
    assert_eq!(max_line_width("\u{20ac}"), 3);
}

#[test]
fn max_line_width_of_each_raw_glyph() {
    assert_eq!(max_line_width(ZERO), 7);
    assert_eq!(max_line_width(ONE), 4);
    assert_eq!(max_line_width(TWO), 6);
    assert_eq!(max_line_width(THREE), 7);
    assert_eq!(max_line_width(FOUR), 8);
    assert_eq!(max_line_width(FIVE), 7);
    assert_eq!(max_line_width(SIX), 7);
    assert_eq!(max_line_width(SEVEN), 8);
    assert_eq!(max_line_width(EIGHT), 7);
    assert_eq!(max_line_width(NINE), 7);
}

#[test]
fn raw_glyphs_open_with_a_line_feed() {
    for raw in [ZERO, ONE, TWO, THREE, FOUR, FIVE, SIX, SEVEN, EIGHT, NINE] {
        assert!(raw.starts_with('\n'));
        assert_eq!(split_lines(raw).len(), GLYPH_ROWS + 1);
        assert_eq!(split_lines(raw)[0], "");
    }
}

#[test]
fn pad_glyph_drops_the_first_line_and_fills_the_rest() {
    assert_eq!(pad_glyph("\nab\nc\n", 3), "ab \nc  ");
    assert_eq!(pad_glyph("first\nab\nc", 4), "ab  \nc   ");
}

#[test]
fn pad_glyph_leaves_longer_lines_as_they_are() {
    assert_eq!(pad_glyph("\nabcdef\nc\n", 3), "abcdef\nc  ");
    assert_eq!(pad_glyph("\nab\nc", 0), "ab\nc");
}

#[test]
fn pad_glyph_of_one_line_or_none_is_empty() {
    assert_eq!(pad_glyph("", 5), "");
    assert_eq!(pad_glyph("\n", 5), "");
    assert_eq!(pad_glyph("only", 5), "");
}

#[test]
fn pad_glyph_fills_empty_lines() {
    assert_eq!(pad_glyph("\n\nx\n", 2), "  \nx ");
}

#[test]
fn glyph_shape_is_six_by_eight() {
    assert_eq!(GLYPH_ROWS, 6);
    assert_eq!(GLYPH_WIDTH, 8);
}

#[test]
fn font_has_ten_glyphs() {
    assert_eq!(get_font().len(), 10);
}

#[test]
fn font_glyphs_have_one_shape() {
    for glyph in get_font() {
        let lines = split_lines(&glyph);
        assert_eq!(lines.len(), GLYPH_ROWS);
        for line in lines {
            assert_eq!(line.len(), GLYPH_WIDTH);
            assert_eq!(line.chars().count(), GLYPH_WIDTH);
        }
    }
}

#[test]
fn font_is_the_same_each_time() {
    assert_eq!(get_font(), get_font());
}

#[test]
fn font_glyph_is_its_raw_glyph_padded() {
    let raws = [ZERO, ONE, TWO, THREE, FOUR, FIVE, SIX, SEVEN, EIGHT, NINE];
    let font = get_font();
    for d in 0..10 {
        assert_eq!(font[d], pad_glyph(raws[d], GLYPH_WIDTH));
    }
}

#[test]
fn font_zero() {
    assert_eq!(
        get_font()[0],
        rows([
            "  ___   ",
            " / _ \\  ",
            "| | | | ",
            "| | | | ",
            "| |_| | ",
            " \\___/  ",
        ])
    );
}

#[test]
fn font_one() {
    assert_eq!(
        get_font()[1],
        rows([
            " __     ",
            "/_ |    ",
            " | |    ",
            " | |    ",
            " | |    ",
            " |_|    ",
        ])
    );
}

#[test]
fn font_two() {
    assert_eq!(
        get_font()[2],
        rows([
            " ___    ",
            "|__ \\   ",
            "   ) |  ",
            "  / /   ",
            " / /_   ",
            "|____|  ",
        ])
    );
}

#[test]
fn font_three() {
    assert_eq!(
        get_font()[3],
        rows([
            " ____   ",
            "|___ \\  ",
            "  __) | ",
            " |__ <  ",
            " ___) | ",
            "|____/  ",
        ])
    );
}

#[test]
fn font_four() {
    assert_eq!(
        get_font()[4],
        rows([
            " _  _   ",
            "| || |  ",
            "| || |_ ",
            "|__   _|",
            "   | |  ",
            "   |_|  ",
        ])
    );
}

#[test]
fn font_five() {
    assert_eq!(
        get_font()[5],
        rows([
            " _____  ",
            "| ____| ",
            "| |__   ",
            "|___ \\  ",
            " ___) | ",
            "|____/  ",
        ])
    );
}

#[test]
fn font_six() {
    assert_eq!(
        get_font()[6],
        rows([
            "   __   ",
            "  / /   ",
            " / /_   ",
            "| '_ \\  ",
            "| (_) | ",
            " \\___/  ",
        ])
    );
}

#[test]
fn font_seven() {
    assert_eq!(
        get_font()[7],
        rows([
            " ______ ",
            "|____  |",
            "    / / ",
            "   / /  ",
            "  / /   ",
            " /_/    ",
        ])
    );
}

#[test]
fn font_eight() {
    assert_eq!(
        get_font()[8],
        rows([
            "  ___   ",
            " / _ \\  ",
            "| (_) | ",
            " > _ <  ",
            "| (_) | ",
            " \\___/  ",
        ])
    );
}

#[test]
fn font_nine() {
    assert_eq!(
        get_font()[9],
        rows([
            "  ___   ",
            " / _ \\  ",
            "| (_) | ",
            " \\__, | ",
            "   / /  ",
            "  /_/   ",
        ])
    );
}
