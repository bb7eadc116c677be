//! Text normalisation: tab expansion, splitting into logical lines, and
//! decimal notation for line numbers.

use vstd::prelude::*;
use vstd::std_specs::iter::IteratorSpec;
use vstd::utf8::is_ascii_chars;

verus! {

/// `String::push` appends one character to the end of the string.
pub assume_specification[ String::push ](s: &mut String, ch: char)
    ensures
        final(s)@ == old(s)@.push(ch),
;

/// `n` space characters.
pub open spec fn spaces(n: nat) -> Seq<char> {
    Seq::new(n, |i: int| ' ')
}

/// `text` with every tab character replaced by `tab_width` spaces.
pub open spec fn expanded(text: Seq<char>, tab_width: nat) -> Seq<char>
    decreases text.len(),
{
    if text.len() == 0 {
        text
    } else if text.last() == '\t' {
        expanded(text.drop_last(), tab_width) + spaces(tab_width)
    } else {
        expanded(text.drop_last(), tab_width).push(text.last())
    }
}

/// Whether `text` holds a tab character.
pub open spec fn has_tab(text: Seq<char>) -> bool {
    exists|i: int| 0 <= i < text.len() && text[i] == '\t'
}

/// Whether `text` holds a newline character.
pub open spec fn has_newline(text: Seq<char>) -> bool {
    exists|i: int| 0 <= i < text.len() && text[i] == '\n'
}

/// Position of the first newline of `text`, or its length where it has none.
pub open spec fn first_newline(text: Seq<char>) -> nat
    decreases text.len(),
{
    if text.len() == 0 || text[0] == '\n' {
        0
    } else {
        1 + first_newline(text.drop_first())
    }
}

/// `line` without one carriage return at its end.
pub open spec fn without_cr(line: Seq<char>) -> Seq<char> {
    if line.len() > 0 && line.last() == '\r' {
        line.drop_last()
    } else {
        line
    }
}

/// The logical lines of `text`.  A line ends at a newline; a carriage return
/// just before that newline belongs to the line ending.  What follows the last
/// newline is a line of its own unless it is empty, so the empty text has no
/// lines and a final newline opens no further line.
pub open spec fn logical_lines(text: Seq<char>) -> Seq<Seq<char>>
    decreases text.len(),
{
    if text.len() == 0 {
        Seq::empty()
    } else {
        let n = first_newline(text);
        if n >= text.len() {
            seq![text]
        } else {
            seq![without_cr(text.take(n as int))] + logical_lines(text.skip(n as int + 1))
        }
    }
}

/// The decimal digit of `d`, which is below ten: the character `d` places
/// after `'0'`.
pub open spec fn digit(d: nat) -> char {
    ('0' as nat + d) as char
}

/// `n` in decimal notation, without leading zeros.
pub open spec fn decimal(n: nat) -> Seq<char>
    decreases n,
{
    if n < 10 {
        seq![digit(n)]
    } else {
        decimal(n / 10).push(digit(n % 10))
    }
}

/// The views of a sequence of strings.
pub open spec fn texts(strings: Seq<String>) -> Seq<Seq<char>> {
    strings.map_values(|s: String| s@)
}

/// The characters of `s`, in order.
pub fn chars_of(s: &str) -> (out: Vec<char>)
    ensures
        out@ == s@,
{
    broadcast use vstd::string::group_string_axioms;

    let mut out: Vec<char> = Vec::new();
    let mut it = s.chars();
    loop
        invariant
            it.obeys_prophetic_iter_laws(),
            it.decrease() is Some,
            out@ + it.remaining() == s@,
        ensures
            out@ == s@,
        decreases it.decrease()->0,
    {
        match it.next() {
            Some(c) => {
                out.push(c);
            },
            None => {
                break ;
            },
        }
    }
    out
}

/// The characters `chars[from..to]` as a string.
fn string_of(chars: &Vec<char>, from: usize, to: usize) -> (out: String)
    requires
        from <= to <= chars.len(),
    ensures
        out@ == chars@.subrange(from as int, to as int),
{
    let mut out = String::new();
    let mut i: usize = from;
    while i < to
        invariant
            from <= i <= to <= chars.len(),
            out@ == chars@.subrange(from as int, i as int),
        decreases to - i,
    {
        out.push(chars[i]);
        i = i + 1;
    }
    out
}

/// Replaces every tab character of `text` by `tab_width` spaces.
pub fn expand_tabs(text: &str, tab_width: usize) -> (out: String)
    ensures
        out@ == expanded(text@, tab_width as nat),
{
    let chars = chars_of(text);
    let mut out = String::new();
    let mut i: usize = 0;
    while i < chars.len()
        invariant
            i <= chars.len(),
            chars@ == text@,
            out@ == expanded(text@.take(i as int), tab_width as nat),
        decreases chars.len() - i,
    {
        let ghost before = out@;
        assert(text@.take(i + 1).drop_last() == text@.take(i as int));
        if chars[i] == '\t' {
            let mut j: usize = 0;
            while j < tab_width
                invariant
                    j <= tab_width,
                    out@ == before + spaces(j as nat),
                decreases tab_width - j,
            {
                out.push(' ');
                j = j + 1;
            }
        } else {
            out.push(chars[i]);
        }
        i = i + 1;
    }
    assert(text@.take(i as int) == text@);
    out
}

/// Splits `text` into its logical lines.
pub fn split_lines(text: &str) -> (lines: Vec<String>)
    ensures
        texts(lines@) == logical_lines(text@),
{
    let chars = chars_of(text);
    let n = chars.len();
    let mut lines: Vec<String> = Vec::new();
    let mut start: usize = 0;
    assert(text@.skip(0) == text@);
    while start < n
        invariant
            start <= n,
            n == chars.len(),
            chars@ == text@,
            texts(lines@) + logical_lines(text@.skip(start as int)) == logical_lines(text@),
        decreases n - start,
    {
        let ghost rest = text@.skip(start as int);
        let mut end: usize = start;
        while end < n && chars[end] != '\n'
            invariant
                start <= end <= n,
                n == chars.len(),
                forall|k: int| start <= k < end ==> chars@[k] != '\n',
            decreases n - end,
        {
            end = end + 1;
        }
        proof {
            lemma_first_newline(rest, end - start);
            assert(rest.take(end - start) == text@.subrange(start as int, end as int));
        }
        if end == n {
            let line = string_of(&chars, start, n);
            lines.push(line);
            start = n;
        } else {
            let stop = if end > start && chars[end - 1] == '\r' {
                end - 1
            } else {
                end
            };
            let line = string_of(&chars, start, stop);
            assert(rest.skip(end - start + 1) == text@.skip(end + 1));
            assert(line@ == without_cr(text@.subrange(start as int, end as int)));
            lines.push(line);
            start = end + 1;
        }
    }
    lines
}

/// The decimal digit of `d`.
fn digit_char(d: usize) -> (c: char)
    requires
        d < 10,
    ensures
        c == digit(d as nat),
{
    if d == 0 {
        '0'
    } else if d == 1 {
        '1'
    } else if d == 2 {
        '2'
    } else if d == 3 {
        '3'
    } else if d == 4 {
        '4'
    } else if d == 5 {
        '5'
    } else if d == 6 {
        '6'
    } else if d == 7 {
        '7'
    } else if d == 8 {
        '8'
    } else {
        '9'
    }
}

/// Appends `n` in decimal notation to `out`.
fn push_decimal(out: &mut String, n: usize)
    ensures
        final(out)@ == old(out)@ + decimal(n as nat),
    decreases n,
{
    if n >= 10 {
        push_decimal(out, n / 10);
    }
    out.push(digit_char(n % 10));
}

/// `n` in decimal notation.
pub fn decimal_string(n: usize) -> (out: String)
    ensures
        out@ == decimal(n as nat),
{
    let mut out = String::new();
    push_decimal(&mut out, n);
    out
}

/// Expanded text holds no tab.
pub proof fn lemma_expanded_has_no_tab(text: Seq<char>, tab_width: nat)
    ensures
        !has_tab(expanded(text, tab_width)),
    decreases text.len(),
{
    if text.len() > 0 {
        lemma_expanded_has_no_tab(text.drop_last(), tab_width);
    }
}

/// Text without a tab is its own expansion.
pub proof fn lemma_expanded_without_tab(text: Seq<char>, tab_width: nat)
    requires
        !has_tab(text),
    ensures
        expanded(text, tab_width) == text,
    decreases text.len(),
{
    if text.len() > 0 {
        let front = text.drop_last();
        assert(!has_tab(front)) by {
            if has_tab(front) {
                let i = choose|i: int| 0 <= i < front.len() && front[i] == '\t';
                assert(text[i] == '\t');
            }
        }
        assert(text.last() == text[text.len() - 1]);
        lemma_expanded_without_tab(front, tab_width);
        assert(front.push(text.last()) == text);
    }
}

/// Characterises `first_newline` by what stands before and at the position.
pub proof fn lemma_first_newline(text: Seq<char>, n: int)
    requires
        0 <= n <= text.len(),
        forall|k: int| 0 <= k < n ==> text[k] != '\n',
        n < text.len() ==> text[n] == '\n',
    ensures
        first_newline(text) == n,
    decreases text.len(),
{
    if n > 0 {
        let rest = text.drop_first();
        assert forall|k: int| 0 <= k < n - 1 implies rest[k] != '\n' by {
            assert(rest[k] == text[k + 1]);
        }
        lemma_first_newline(rest, n - 1);
    }
}

/// Nothing before the first newline is a newline, and a newline stands there
/// unless the text has none.
pub proof fn lemma_first_newline_is_first(text: Seq<char>)
    ensures
        first_newline(text) <= text.len(),
        forall|k: int| 0 <= k < first_newline(text) ==> text[k] != '\n',
        first_newline(text) < text.len() ==> text[first_newline(text) as int] == '\n',
    decreases text.len(),
{
    if text.len() > 0 && text[0] != '\n' {
        let rest = text.drop_first();
        lemma_first_newline_is_first(rest);
        assert forall|k: int| 0 <= k < first_newline(text) implies text[k] != '\n' by {
            if k > 0 {
                assert(text[k] == rest[k - 1]);
            }
        }
    }
}

/// No logical line holds a newline.
pub proof fn lemma_logical_lines_have_no_newline(text: Seq<char>)
    ensures
        forall|i: int|
            0 <= i < logical_lines(text).len() ==> !has_newline(#[trigger] logical_lines(text)[i]),
    decreases text.len(),
{
    if text.len() > 0 {
        let n = first_newline(text);
        lemma_first_newline_is_first(text);
        if n < text.len() {
            let head = without_cr(text.take(n as int));
            let rest = text.skip(n as int + 1);
            lemma_logical_lines_have_no_newline(rest);
            assert(!has_newline(head)) by {
                if has_newline(head) {
                    let k = choose|k: int| 0 <= k < head.len() && head[k] == '\n';
                    assert(head[k] == text[k]);
                }
            }
            assert forall|i: int| 0 <= i < logical_lines(text).len() implies !has_newline(
                #[trigger] logical_lines(text)[i],
            ) by {
                if i > 0 {
                    assert(logical_lines(text)[i] == logical_lines(rest)[i - 1]);
                }
            }
        }
    }
}

/// The logical lines of ASCII text are ASCII.
pub proof fn lemma_logical_lines_of_ascii(text: Seq<char>)
    requires
        is_ascii_chars(text),
    ensures
        forall|i: int|
            0 <= i < logical_lines(text).len() ==> is_ascii_chars(#[trigger] logical_lines(text)[i]),
    decreases text.len(),
{
    if text.len() > 0 {
        let n = first_newline(text);
        lemma_first_newline_is_first(text);
        if n < text.len() {
            let head = without_cr(text.take(n as int));
            let rest = text.skip(n as int + 1);
            assert(is_ascii_chars(rest)) by {
                assert forall|k: int| 0 <= k < rest.len() implies '\0' <= #[trigger] rest[k]
                    <= '\u{7f}' by {
                    assert(rest[k] == text[k + n + 1]);
                }
            }
            assert(is_ascii_chars(head)) by {
                assert forall|k: int| 0 <= k < head.len() implies '\0' <= #[trigger] head[k]
                    <= '\u{7f}' by {
                    assert(head[k] == text[k]);
                }
            }
            lemma_logical_lines_of_ascii(rest);
            assert forall|i: int| 0 <= i < logical_lines(text).len() implies is_ascii_chars(
                #[trigger] logical_lines(text)[i],
            ) by {
                if i > 0 {
                    assert(logical_lines(text)[i] == logical_lines(rest)[i - 1]);
                }
            }
        }
    }
}

} // verus!
