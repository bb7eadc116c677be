use pdfcr::wrap::wrap_lines;

fn strings(items: &[&str]) -> Vec<String> {
    items.iter().map(|s| s.to_string()).collect()
}

#[test]
fn wrap_lines_breaks_at_spaces() {
    let out = wrap_lines(&strings(&["aaa bbb ccc"]), 5);
    assert_eq!(out, vec![strings(&["aaa", "bbb", "ccc"])]);
}

#[test]
fn wrap_lines_breaks_a_word_that_is_too_long() {
    let out = wrap_lines(&strings(&["abcdefghij"]), 4);
    assert_eq!(out, vec![strings(&["abcd", "efgh", "ij"])]);
}

#[test]
fn wrap_lines_keeps_short_lines_whole() {
    let out = wrap_lines(&strings(&["short line", "", "x"]), 85);
    assert_eq!(out, vec![strings(&["short line"]), strings(&[""]), strings(&["x"])]);
}

#[test]
fn wrap_lines_trims_spaces_at_the_end() {
    let out = wrap_lines(&strings(&["abc   ", "    "]), 85);
    assert_eq!(out, vec![strings(&["abc"]), strings(&[""])]);
}

#[test]
fn wrap_lines_keeps_leading_spaces() {
    let out = wrap_lines(&strings(&["    indented"]), 85);
    assert_eq!(out, vec![strings(&["    indented"])]);
}

#[test]
fn wrap_lines_gives_every_line_a_segment() {
    let lines = strings(&["", " ", "a", "a b c d e f g", "\u{4e16}\u{754c}\u{4e16}\u{754c}"]);
    for width in [1usize, 2, 3, 85] {
        let out = wrap_lines(&lines, width);
        assert_eq!(out.len(), lines.len());
        for segments in &out {
            assert!(!segments.is_empty());
        }
    }
}

#[test]
fn wrap_lines_of_nothing_is_nothing() {
    assert_eq!(wrap_lines(&Vec::new(), 85), Vec::<Vec<String>>::new());
}

#[test]
fn wrap_lines_line_of_exactly_the_width_is_kept() {
    let line = "x".repeat(85);
    let out = wrap_lines(&vec![line.clone()], 85);
    assert_eq!(out, vec![vec![line]]);
}

#[test]
fn wrap_lines_counts_columns_not_characters() {
    let out = wrap_lines(&vec!["\u{4e16}\u{754c}".to_string()], 2);
    assert_eq!(out, vec![vec!["\u{4e16}".to_string(), "\u{754c}".to_string()]]);
}
