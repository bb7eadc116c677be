use pdfcr::config::LayoutConfig;
use pdfcr::event::PageEvent;
use pdfcr::layout::layout;
use pdfcr::unit::CodeFile;

fn shown(events: &[PageEvent]) -> Vec<String> {
    events
        .iter()
        .map(|e| match e {
            PageEvent::NewPage(name) => format!("<{}>", name),
            PageEvent::Line(line) => line.text(),
        })
        .collect()
}

fn pages_in(events: &[PageEvent]) -> usize {
    events.iter().filter(|e| matches!(e, PageEvent::NewPage(_))).count()
}

fn numbers_in(events: &[PageEvent]) -> Vec<usize> {
    events
        .iter()
        .filter_map(|e| match e {
            PageEvent::Line(line) => Some(line.line_number),
            PageEvent::NewPage(_) => None,
        })
        .collect()
}

#[test]
fn short_lines_give_one_segment_each() {
    let cfg = LayoutConfig::default();
    let text = "fn main() {\n    println!(\"hi\");\n}\n\nlast";
    let unit = CodeFile::new("main.rs", text);
    let events = layout(&unit, &cfg);
    assert_eq!(
        shown(&events),
        vec!["<main.rs>", "0 fn main() {", "1     println!(\"hi\");", "2 }", "3 ", "4 last"]
    );
    assert_eq!(numbers_in(&events), vec![0, 1, 2, 3, 4]);
}

#[test]
fn blank_lines_take_a_slot() {
    let cfg = LayoutConfig::new(48, 85, 4, false).unwrap();
    let unit = CodeFile::new("b", "\n\n\n");
    let events = layout(&unit, &cfg);
    assert_eq!(shown(&events), vec!["<b>", "", "", ""]);
    match &events[3] {
        PageEvent::Line(line) => assert_eq!(line.slot, 3),
        PageEvent::NewPage(_) => panic!("a line was expected"),
    }
}

#[test]
fn numbering_ignores_wraps_and_page_breaks() {
    let cfg = LayoutConfig::new(2, 5, 4, true).unwrap();
    let unit = CodeFile::new("n", "aaa bbb ccc\nd\neee fff\ng");
    let events = layout(&unit, &cfg);
    assert_eq!(
        shown(&events),
        vec!["<n>", "0 aaa", "bbb", "<n>", "ccc", "1 d", "<n>", "2 eee", "fff", "<n>", "3 g"]
    );
    assert_eq!(numbers_in(&events), vec![0, 0, 0, 1, 2, 2, 3]);
}

#[test]
fn first_event_is_always_a_new_page() {
    let cfg = LayoutConfig::new(3, 10, 2, true).unwrap();
    for text in ["", "\n", "x", "\t", "a very long line that must be wrapped several times\n\nb"] {
        let events = layout(&CodeFile::new("unit", text), &cfg);
        assert_eq!(events[0], PageEvent::NewPage("unit".to_string()), "text {:?}", text);
        assert!(pages_in(&events) >= 1);
    }
}

#[test]
fn tabs_expanded_before_or_by_layout_give_the_same() {
    let cfg = LayoutConfig::new(4, 12, 3, true).unwrap();
    let raw = "\tone\ttwo three\n\t\t\tfour\nfive\tsix seven eight nine\n";
    let expanded = raw.replace('\t', "   ");
    let from_raw = layout(&CodeFile::new("t", raw), &cfg);
    let from_expanded = layout(&CodeFile::new("t", &expanded), &cfg);
    assert_eq!(from_raw, from_expanded);
}

#[test]
fn text_of_only_tabs_is_one_blank_line() {
    let cfg = LayoutConfig::default();
    let events = layout(&CodeFile::new("tabs", "\t\t"), &cfg);
    assert_eq!(shown(&events), vec!["<tabs>", "0 "]);
}

#[test]
fn exactly_a_page_of_lines_is_one_page() {
    let cfg = LayoutConfig::default();
    let text = "x\n".repeat(48);
    let events = layout(&CodeFile::new("p", &text), &cfg);
    assert_eq!(pages_in(&events), 1);
    assert_eq!(events.len(), 49);
}

#[test]
fn one_line_more_than_a_page_is_two_pages() {
    let cfg = LayoutConfig::default();
    let text = "x\n".repeat(49);
    let events = layout(&CodeFile::new("p", &text), &cfg);
    assert_eq!(pages_in(&events), 2);
    assert_eq!(events.len(), 51);
    assert_eq!(events[49], PageEvent::NewPage("p".to_string()));
}

#[test]
fn long_line_spans_pages() {
    let cfg = LayoutConfig::new(2, 10, 4, true).unwrap();
    let events = layout(&CodeFile::new("w", &"y".repeat(45)), &cfg);
    assert_eq!(
        shown(&events),
        vec![
            "<w>",
            "0 yyyyyyyyyy",
            "yyyyyyyyyy",
            "<w>",
            "yyyyyyyyyy",
            "yyyyyyyyyy",
            "<w>",
            "yyyyy"
        ]
    );
    assert_eq!(numbers_in(&events), vec![0, 0, 0, 0, 0]);
}

#[test]
fn layout_without_line_numbers() {
    let cfg = LayoutConfig::new(48, 85, 4, false).unwrap();
    let events = layout(&CodeFile::new("f.txt", "a\tb\nc"), &cfg);
    assert_eq!(shown(&events), vec!["<f.txt>", "a    b", "c"]);
}

#[test]
fn layout_splits_crlf_lines() {
    let cfg = LayoutConfig::default();
    let events = layout(&CodeFile::new("dos", "a\r\nb\r\n"), &cfg);
    assert_eq!(shown(&events), vec!["<dos>", "0 a", "1 b"]);
}

#[test]
fn layout_leaves_the_unit_unchanged() {
    let cfg = LayoutConfig::default();
    let unit = CodeFile::new("keep", "a\tb");
    let _ = layout(&unit, &cfg);
    assert_eq!(unit, CodeFile::new("keep", "a\tb"));
}
