//! Word wrapping of logical lines, done by the `textwrap` crate.

use crate::text::{has_newline, texts};
use vstd::prelude::*;
use vstd::utf8::{encode_utf8, is_ascii_chars, is_ascii_chars_encode_utf8};

verus! {

/// The segments into which `textwrap::wrap` breaks `text` at `width` columns
/// with its default options.
pub uninterp spec fn wrapped(text: Seq<char>, width: nat) -> Seq<Seq<char>>;

/// `line` without the spaces at its end.
pub open spec fn without_trailing_spaces(line: Seq<char>) -> Seq<char>
    decreases line.len(),
{
    if line.len() > 0 && line.last() == ' ' {
        without_trailing_spaces(line.drop_last())
    } else {
        line
    }
}

/// A line that is wrapped without a search for break points: it holds no
/// newline and its UTF-8 encoding is shorter than `width` bytes.
pub open spec fn fits_unwrapped(line: Seq<char>, width: nat) -> bool {
    !has_newline(line) && encode_utf8(line).len() < width
}

/// The wrapped segments of each line.
pub open spec fn wrapped_lines(lines: Seq<Seq<char>>, width: nat) -> Seq<Seq<Seq<char>>> {
    lines.map_values(|line: Seq<char>| wrapped(line, width))
}

/// The views of the segments of each line.
pub open spec fn segment_texts(lines: Seq<Vec<String>>) -> Seq<Seq<Seq<char>>> {
    lines.map_values(|segments: Vec<String>| texts(segments@))
}

/// Every line was wrapped into at least one segment.
pub open spec fn every_line_has_a_segment(lines: Seq<Seq<Seq<char>>>) -> bool {
    forall|i: int| 0 <= i < lines.len() ==> (#[trigger] lines[i]).len() >= 1
}

/// Every line is wrapped without a search for break points.
pub open spec fn all_fit(lines: Seq<Seq<char>>, width: nat) -> bool {
    forall|i: int| 0 <= i < lines.len() ==> fits_unwrapped(#[trigger] lines[i], width)
}

/// Each line as its own single segment, without the spaces at its end.
pub open spec fn unwrapped_lines(lines: Seq<Seq<char>>) -> Seq<Seq<Seq<char>>> {
    lines.map_values(|line: Seq<char>| seq![without_trailing_spaces(line)])
}

/// No line that fits was broken: it is its own single segment, without the
/// spaces at its end.
pub open spec fn short_lines_unbroken(
    lines: Seq<Seq<char>>,
    segments: Seq<Seq<Seq<char>>>,
    width: nat,
) -> bool {
    forall|i: int|
        0 <= i < lines.len() && fits_unwrapped(lines[i], width) ==> #[trigger] segments[i] == seq![
            without_trailing_spaces(lines[i]),
        ]
}

/// Calls `textwrap::wrap(text, width)` and copies each segment into a `String`.
///
/// Trusted, not proved.  The contract names the result and adds two facts that
/// the source of `textwrap` shows.  `wrap` pushes at least one segment for
/// every piece between newlines, and there is always one such piece.  A piece
/// of fewer bytes than `width` is not searched for break points: the single
/// segment is the piece itself with the spaces at its end trimmed.
#[verifier::external_body]
fn wrap_text(text: &str, width: usize) -> (segments: Vec<String>)
    ensures
        texts(segments@) == wrapped(text@, width as nat),
        segments@.len() >= 1,
        fits_unwrapped(text@, width as nat) ==> texts(segments@) == seq![
            without_trailing_spaces(text@),
        ],
{
    textwrap::wrap(text, width).into_iter().map(|segment| segment.into_owned()).collect()
}

/// Wraps every line at `width` columns.
///
/// Besides naming the result, the contract passes on what is known of each
/// call: every line yields at least one segment, and a line that
/// [`fits_unwrapped`] yields itself, without the spaces at its end.
pub fn wrap_lines(lines: &Vec<String>, width: usize) -> (out: Vec<Vec<String>>)
    ensures
        segment_texts(out@) == wrapped_lines(texts(lines@), width as nat),
        forall|i: int|
            0 <= i < lines.len() ==> (#[trigger] wrapped(lines[i]@, width as nat)).len() >= 1,
        forall|i: int|
            0 <= i < lines.len() && fits_unwrapped(lines[i]@, width as nat) ==> #[trigger] wrapped(
                lines[i]@,
                width as nat,
            ) == seq![without_trailing_spaces(lines[i]@)],
{
    let mut out: Vec<Vec<String>> = Vec::new();
    let mut i: usize = 0;
    while i < lines.len()
        invariant
            i <= lines.len(),
            out.len() == i,
            forall|k: int| 0 <= k < i ==> texts(out[k]@) == #[trigger] wrapped(lines[k]@, width as nat),
            forall|k: int|
                0 <= k < i ==> (#[trigger] wrapped(lines[k]@, width as nat)).len() >= 1,
            forall|k: int|
                0 <= k < i && fits_unwrapped(lines[k]@, width as nat) ==> #[trigger] wrapped(
                    lines[k]@,
                    width as nat,
                ) == seq![without_trailing_spaces(lines[k]@)],
        decreases lines.len() - i,
    {
        let segments = wrap_text(lines[i].as_str(), width);
        out.push(segments);
        i = i + 1;
    }
    out
}

/// Where every line fits, the wrapping is the lines themselves, each without
/// the spaces at its end.
pub proof fn lemma_all_fit_unbroken(lines: Seq<Seq<char>>, segments: Seq<Seq<Seq<char>>>, width: nat)
    requires
        segments.len() == lines.len(),
        short_lines_unbroken(lines, segments, width),
        all_fit(lines, width),
    ensures
        segments == unwrapped_lines(lines),
{
    assert forall|i: int| 0 <= i < lines.len() implies segments[i] == unwrapped_lines(lines)[i] by {
        assert(fits_unwrapped(lines[i], width));
    }
}

/// For a line of ASCII characters the length in bytes is the number of
/// characters: such a line without a newline fits where it is shorter than the
/// width.
pub proof fn lemma_ascii_line_fits(line: Seq<char>, width: nat)
    requires
        is_ascii_chars(line),
        !has_newline(line),
        line.len() < width,
    ensures
        fits_unwrapped(line, width),
{
    is_ascii_chars_encode_utf8(line);
}

} // verus!
