//! Lines of a text.
//!
//! A text is cut at every line feed. The line feed is not part of a line, and
//! neither is a carriage return that stands directly before it. A text that
//! ends in a line feed has no empty line after it; one that does not end in a
//! line feed has its rest as last line, whatever that rest ends in.
//!
//! The model is generic in the element type, so that the same definitions serve
//! a text seen as characters and a text seen as bytes.

use vstd::prelude::*;

verus! {

/// The index of the first `lf` in `s` at or after `from`, or the length of `s`
/// where there is none.
pub open spec fn line_end<T>(s: Seq<T>, from: int, lf: T) -> int
    decreases s.len() - from,
{
    if from >= s.len() || s[from] == lf {
        from
    } else {
        line_end(s, from + 1, lf)
    }
}

/// The line that starts at `from` and whose terminator, if it has one, stands
/// at `end`: a `cr` directly before a terminator is left out.
pub open spec fn line_at<T>(s: Seq<T>, from: int, end: int, cr: T) -> Seq<T> {
    if from < end && end < s.len() && s[end - 1] == cr {
        s.subrange(from, end - 1)
    } else {
        s.subrange(from, end)
    }
}

/// The lines of `s` from index `from` on.
pub open spec fn lines_from<T>(s: Seq<T>, from: int, lf: T, cr: T) -> Seq<Seq<T>>
    decreases s.len() - from,
    via lines_from_terminates::<T>
{
    if from < 0 || from >= s.len() {
        Seq::empty()
    } else {
        let end = line_end(s, from, lf);
        if end >= s.len() {
            seq![line_at(s, from, end, cr)]
        } else {
            seq![line_at(s, from, end, cr)] + lines_from(s, end + 1, lf, cr)
        }
    }
}

#[via_fn]
proof fn lines_from_terminates<T>(s: Seq<T>, from: int, lf: T, cr: T) {
    if 0 <= from < s.len() {
        lemma_line_end_bounds(s, from, lf);
    }
}

/// The lines of a text of characters.
pub open spec fn text_lines(s: Seq<char>) -> Seq<Seq<char>> {
    lines_from(s, 0, '\n', '\r')
}

/// The lines of a text of bytes.
pub open spec fn byte_lines(s: Seq<u8>) -> Seq<Seq<u8>> {
    lines_from(s, 0, 10u8, 13u8)
}

/// The length of the longest of `lines`, zero where there is no line.
pub open spec fn widest<T>(lines: Seq<Seq<T>>) -> nat
    decreases lines.len(),
{
    if lines.len() == 0 {
        0
    } else {
        let rest = widest(lines.drop_first());
        if lines[0].len() > rest {
            lines[0].len()
        } else {
            rest
        }
    }
}

/// `lines` put together again, with one `sep` between each two of them.
pub open spec fn join<T>(lines: Seq<Seq<T>>, sep: T) -> Seq<T>
    decreases lines.len(),
{
    if lines.len() == 0 {
        Seq::empty()
    } else if lines.len() == 1 {
        lines[0]
    } else {
        join(lines.drop_last(), sep) + seq![sep] + lines.last()
    }
}

/// A line ends at or after its start, within the text, and holds no `lf`.
pub proof fn lemma_line_end_bounds<T>(s: Seq<T>, from: int, lf: T)
    requires
        0 <= from <= s.len(),
    ensures
        from <= line_end(s, from, lf) <= s.len(),
        line_end(s, from, lf) < s.len() ==> s[line_end(s, from, lf)] == lf,
        forall|i: int| from <= i < line_end(s, from, lf) ==> s[i] != lf,
    decreases s.len() - from,
{
    if from < s.len() && s[from] != lf {
        lemma_line_end_bounds(s, from + 1, lf);
    }
}

/// No line is longer than the widest.
pub proof fn lemma_widest_bounds<T>(lines: Seq<Seq<T>>, k: int)
    requires
        0 <= k < lines.len(),
    ensures
        lines[k].len() <= widest(lines),
    decreases lines.len(),
{
    if k > 0 {
        lemma_widest_bounds(lines.drop_first(), k - 1);
    }
}

/// The first line of more than one, and the rest joined behind it.
pub proof fn lemma_join_front<T>(lines: Seq<Seq<T>>, sep: T)
    requires
        lines.len() >= 2,
    ensures
        join(lines, sep) == lines[0] + seq![sep] + join(lines.drop_first(), sep),
    decreases lines.len(),
{
    let init = lines.drop_last();
    let rest = lines.drop_first();
    if lines.len() == 2 {
        assert(init =~= seq![lines[0]]);
        assert(rest =~= seq![lines[1]]);
        assert(join(init, sep) == lines[0]);
        assert(join(rest, sep) == lines[1]);
    } else {
        lemma_join_front(init, sep);
        assert(init.drop_first() =~= rest.drop_last());
        assert(join(lines, sep) =~= lines[0] + seq![sep] + (join(rest.drop_last(), sep) + seq![sep]
            + rest.last()));
    }
}

/// Where no `lf` stands between `from` and `to`, the line that starts at
/// `from` ends where the one that starts at `to` does.
pub proof fn lemma_line_end_skip<T>(s: Seq<T>, from: int, to: int, lf: T)
    requires
        0 <= from <= to <= s.len(),
        forall|i: int| from <= i < to ==> s[i] != lf,
    ensures
        line_end(s, from, lf) == line_end(s, to, lf),
    decreases to - from,
{
    if from < to {
        lemma_line_end_skip(s, from + 1, to, lf);
    }
}

/// What holds of every element of a text holds of every element of each of
/// its lines, and no line holds an `lf`.
pub proof fn lemma_lines_hold<T>(s: Seq<T>, from: int, lf: T, cr: T, p: spec_fn(T) -> bool)
    requires
        0 <= from <= s.len(),
        forall|i: int| 0 <= i < s.len() ==> p(#[trigger] s[i]),
    ensures
        ({
            let lines = lines_from(s, from, lf, cr);
            forall|k: int, i: int|
                0 <= k < lines.len() && 0 <= i < lines[k].len() ==> {
                    &&& p(#[trigger] lines[k][i])
                    &&& lines[k][i] != lf
                }
        }),
    decreases s.len() - from,
{
    let lines = lines_from(s, from, lf, cr);
    if from < s.len() {
        lemma_line_end_bounds(s, from, lf);
        let end = line_end(s, from, lf);
        if end < s.len() {
            lemma_lines_hold(s, end + 1, lf, cr, p);
        }
        assert forall|k: int, i: int| 0 <= k < lines.len() && 0 <= i < lines[k].len() implies {
            &&& p(#[trigger] lines[k][i])
            &&& lines[k][i] != lf
        } by {
            if k == 0 {
                assert(lines[0][i] == s[from + i]);
            } else {
                assert(lines[k] == lines_from(s, end + 1, lf, cr)[k - 1]);
            }
        }
    }
}

/// Lines that are joined and cut again are the lines they were, if none of
/// them holds an `lf` or ends in a `cr` and the last of them is not empty.
pub proof fn lemma_lines_of_join<T>(prefix: Seq<T>, lines: Seq<Seq<T>>, lf: T, cr: T)
    requires
        lines.len() > 0 ==> lines.last().len() > 0,
        forall|k: int, i: int|
            0 <= k < lines.len() && 0 <= i < lines[k].len() ==> #[trigger] lines[k][i] != lf,
        forall|k: int|
            0 <= k < lines.len() && lines[k].len() > 0 ==> (#[trigger] lines[k]).last() != cr,
    ensures
        lines_from(prefix + join(lines, lf), prefix.len() as int, lf, cr) == lines,
    decreases lines.len(),
{
    let s = prefix + join(lines, lf);
    let from = prefix.len() as int;
    if lines.len() == 0 {
    } else {
        let first = lines[0];
        let end = from + first.len();
        if lines.len() >= 2 {
            lemma_join_front(lines, lf);
        }
        assert(join(lines, lf).len() >= first.len());
        assert forall|i: int| from <= i < end implies s[i] != lf by {
            assert(s[i] == first[i - from]);
        }
        lemma_line_end_skip(s, from, end, lf);
        if lines.len() == 1 {
            assert(s.subrange(from, end) =~= first);
            assert(lines_from(s, from, lf, cr) =~= lines);
        } else {
            lemma_join_front(lines, lf);
            let rest = lines.drop_first();
            assert(s[end] == lf);
            assert(first.len() > 0 ==> s[end - 1] == first.last());
            assert(s.subrange(from, end) =~= first);
            assert(line_at(s, from, end, cr) == first);
            let longer = prefix + first + seq![lf];
            assert(s =~= longer + join(rest, lf));
            assert(rest.last() == lines.last());
            assert forall|k: int, i: int|
                0 <= k < rest.len() && 0 <= i < rest[k].len()
            implies #[trigger] rest[k][i] != lf by {
                assert(rest[k][i] == lines[k + 1][i]);
            }
            assert forall|k: int|
                0 <= k < rest.len() && rest[k].len() > 0
            implies (#[trigger] rest[k]).last() != cr by {
                assert(rest[k] == lines[k + 1]);
            }
            lemma_lines_of_join(longer, rest, lf, cr);
            assert(lines_from(s, from, lf, cr) =~= seq![first] + rest);
            assert(seq![first] + rest =~= lines);
        }
    }
}

/// Whether `bytes` holds the characters of `chars`, one byte for each, and all
/// of them in the ASCII range.
pub open spec fn is_ascii_image(chars: Seq<char>, bytes: Seq<u8>) -> bool {
    &&& bytes.len() == chars.len()
    &&& forall|i: int|
        0 <= i < chars.len() ==> (#[trigger] chars[i]) as int <= 0x7f && bytes[i] == chars[i] as u8
}

/// The byte of an ASCII character is a line feed or a carriage return exactly
/// if the character is.
proof fn lemma_ascii_byte(c: char)
    requires
        c as int <= 0x7f,
    ensures
        (c as u8 == 10u8) == (c == '\n'),
        (c as u8 == 13u8) == (c == '\r'),
{
}

/// In an ASCII text the lines end at the same places, whether the text is
/// read as characters or as bytes.
pub proof fn lemma_ascii_line_end(chars: Seq<char>, bytes: Seq<u8>, from: int)
    requires
        is_ascii_image(chars, bytes),
        0 <= from <= chars.len(),
    ensures
        line_end(bytes, from, 10u8) == line_end(chars, from, '\n'),
    decreases chars.len() - from,
{
    if from < chars.len() {
        lemma_ascii_byte(chars[from]);
        if chars[from] != '\n' {
            lemma_ascii_line_end(chars, bytes, from + 1);
        }
    }
}

/// An ASCII text has as many lines as bytes as it has as characters, and each
/// line is as long in bytes as it is in characters.
pub proof fn lemma_ascii_lines_agree(chars: Seq<char>, bytes: Seq<u8>, from: int)
    requires
        is_ascii_image(chars, bytes),
        0 <= from <= chars.len(),
    ensures
        lines_from(bytes, from, 10u8, 13u8).len() == lines_from(chars, from, '\n', '\r').len(),
        forall|k: int|
            0 <= k < lines_from(chars, from, '\n', '\r').len() ==> (#[trigger] lines_from(
                bytes,
                from,
                10u8,
                13u8,
            )[k]).len() == lines_from(chars, from, '\n', '\r')[k].len(),
        widest(lines_from(bytes, from, 10u8, 13u8)) == widest(
            lines_from(chars, from, '\n', '\r'),
        ),
    decreases chars.len() - from,
{
    let byte_lines = lines_from(bytes, from, 10u8, 13u8);
    let char_lines = lines_from(chars, from, '\n', '\r');
    if from < chars.len() {
        lemma_ascii_line_end(chars, bytes, from);
        lemma_line_end_bounds(chars, from, '\n');
        let end = line_end(chars, from, '\n');
        if from < end {
            lemma_ascii_byte(chars[end - 1]);
        }
        assert(byte_lines[0].len() == char_lines[0].len());
        let byte_rest = byte_lines.drop_first();
        let char_rest = char_lines.drop_first();
        if end < chars.len() {
            lemma_ascii_lines_agree(chars, bytes, end + 1);
            assert(byte_rest =~= lines_from(bytes, end + 1, 10u8, 13u8));
            assert(char_rest =~= lines_from(chars, end + 1, '\n', '\r'));
        } else {
            assert(byte_rest =~= Seq::<Seq<u8>>::empty());
            assert(char_rest =~= Seq::<Seq<char>>::empty());
            assert(widest(byte_rest) == 0 && widest(char_rest) == 0);
        }
        assert(widest(byte_rest) == widest(char_rest));
        assert forall|k: int| 0 <= k < char_lines.len() implies (#[trigger] byte_lines[k]).len()
            == char_lines[k].len() by {
            if k > 0 {
                assert(byte_lines[k] == byte_rest[k - 1]);
                assert(char_lines[k] == char_rest[k - 1]);
            }
        }
    }
}

/// The index at which the line that starts at `from` ends.
fn find_line_end(s: &str, from: usize, len: usize) -> (end: usize)
    requires
        len == s@.len(),
        from <= len,
    ensures
        end == line_end(s@, from as int, '\n'),
        from <= end <= len,
{
    let mut end: usize = from;
    while end < len && s.get_char(end) != '\n'
        invariant
            len == s@.len(),
            from <= end <= len,
            line_end(s@, end as int, '\n') == line_end(s@, from as int, '\n'),
        decreases len - end,
    {
        end = end + 1;
    }
    end
}

/// The lines of `s`, in order.
pub fn split_lines<'a>(s: &'a str) -> (out: Vec<&'a str>)
    ensures
        out@.len() == text_lines(s@).len(),
        forall|k: int| 0 <= k < out@.len() ==> (#[trigger] out@[k])@ == text_lines(s@)[k],
{
    let len: usize = s.unicode_len();
    let mut out: Vec<&'a str> = Vec::new();
    let mut from: usize = 0;
    while from < len
        invariant
            len == s@.len(),
            from <= len,
            out@.map_values(|l: &str| l@) + lines_from(s@, from as int, '\n', '\r')
                == text_lines(s@),
        decreases len - from,
    {
        let end: usize = find_line_end(s, from, len);
        let stop: usize = if from < end && end < len && s.get_char(end - 1) == '\r' {
            end - 1
        } else {
            end
        };
        let line: &'a str = s.substring_char(from, stop);
        proof {
            let before = out@.map_values(|l: &str| l@);
            let rest = if end < len {
                lines_from(s@, end as int + 1, '\n', '\r')
            } else {
                Seq::empty()
            };
            assert(line@ == line_at(s@, from as int, end as int, '\r'));
            assert(lines_from(s@, from as int, '\n', '\r') =~= seq![line@] + rest);
            assert(out@.push(line).map_values(|l: &str| l@) =~= before.push(line@));
            assert(before.push(line@) + rest =~= before + (seq![line@] + rest));
        }
        out.push(line);
        from = if end < len {
            end + 1
        } else {
            end
        };
    }
    proof {
        let views = out@.map_values(|l: &str| l@);
        assert(views =~= views + Seq::<Seq<char>>::empty());
        assert forall|k: int| 0 <= k < out@.len() implies (#[trigger] out@[k])@ == text_lines(
            s@,
        )[k] by {
            assert(views[k] == out@[k]@);
        }
    }
    out
}

} // verus!
