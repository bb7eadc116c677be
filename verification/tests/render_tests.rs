use pdfcr::config::LayoutConfig;
use pdfcr::event::{PageEvent, RenderedLine};
use pdfcr::layout::layout;
use pdfcr::render::{render, render_step, DrawOp, RenderError, RenderState};
use pdfcr::unit::CodeFile;

fn plain_line(text: &str, slot: usize) -> PageEvent {
    PageEvent::Line(RenderedLine {
        content: text.to_string(),
        label: None,
        line_number: 0,
        first_segment: true,
        slot,
        first_on_page: slot == 1,
    })
}

fn bookmarks_in(ops: &[DrawOp]) -> usize {
    ops.iter().filter(|op| matches!(op, DrawOp::Bookmark(_))).count()
}

fn opened_in(ops: &[DrawOp]) -> usize {
    ops.iter().filter(|op| matches!(op, DrawOp::OpenPage(_))).count()
}

#[test]
fn first_page_gets_header_and_bookmark() {
    let r = render_step(RenderState::AwaitingPage, &PageEvent::NewPage("u".to_string()));
    assert_eq!(
        r,
        Ok((
            RenderState::PageOpen,
            vec![
                DrawOp::OpenPage("u".to_string()),
                DrawOp::Header("u".to_string()),
                DrawOp::Bookmark("u".to_string()),
            ]
        ))
    );
}

#[test]
fn later_page_gets_header_only() {
    let r = render_step(RenderState::PageOpen, &PageEvent::NewPage("u".to_string()));
    assert_eq!(
        r,
        Ok((
            RenderState::PageOpen,
            vec![DrawOp::OpenPage("u".to_string()), DrawOp::Header("u".to_string())]
        ))
    );
}

#[test]
fn line_on_open_page_is_drawn_in_its_slot() {
    let event = PageEvent::Line(RenderedLine {
        content: "body".to_string(),
        label: Some("3 ".to_string()),
        line_number: 3,
        first_segment: true,
        slot: 7,
        first_on_page: false,
    });
    let r = render_step(RenderState::PageOpen, &event);
    assert_eq!(
        r,
        Ok((RenderState::PageOpen, vec![DrawOp::Text { text: "3 body".to_string(), slot: 7 }]))
    );
}

#[test]
fn line_without_page_is_refused() {
    let r = render_step(RenderState::AwaitingPage, &plain_line("x", 1));
    assert_eq!(r, Err(RenderError::NoOpenPage));
}

#[test]
fn render_of_nothing_draws_nothing() {
    assert_eq!(render(&Vec::new()), Ok(Vec::new()));
}

#[test]
fn render_refuses_a_sequence_that_begins_with_a_line() {
    let events = vec![plain_line("x", 1), PageEvent::NewPage("u".to_string())];
    assert_eq!(render(&events), Err(RenderError::NoOpenPage));
}

#[test]
fn render_two_pages() {
    let events = vec![
        PageEvent::NewPage("u".to_string()),
        plain_line("a", 1),
        PageEvent::NewPage("u".to_string()),
        plain_line("b", 1),
    ];
    assert_eq!(
        render(&events),
        Ok(vec![
            DrawOp::OpenPage("u".to_string()),
            DrawOp::Header("u".to_string()),
            DrawOp::Bookmark("u".to_string()),
            DrawOp::Text { text: "a".to_string(), slot: 1 },
            DrawOp::OpenPage("u".to_string()),
            DrawOp::Header("u".to_string()),
            DrawOp::Text { text: "b".to_string(), slot: 1 },
        ])
    );
}

#[test]
fn one_bookmark_per_unit_on_its_first_page() {
    let cfg = LayoutConfig::new(2, 6, 4, true).unwrap();
    for text in ["", "a", "a b c d e f g h i j k l m n o p\nq\nr\ns\nt"] {
        let events = layout(&CodeFile::new("unit", text), &cfg);
        let ops = render(&events).unwrap();
        assert_eq!(bookmarks_in(&ops), 1, "text {:?}", text);
        assert_eq!(ops[0], DrawOp::OpenPage("unit".to_string()));
        assert_eq!(ops[1], DrawOp::Header("unit".to_string()));
        assert_eq!(ops[2], DrawOp::Bookmark("unit".to_string()));
        let pages = events.iter().filter(|e| matches!(e, PageEvent::NewPage(_))).count();
        assert_eq!(opened_in(&ops), pages);
    }
}

#[test]
fn print_page_expands_tabs_and_draws() {
    let cfg = LayoutConfig::default();
    let mut unit = CodeFile::new("f.txt", "a\tb\nc");
    let ops = unit.print_page(&cfg);
    assert_eq!(unit.text, "a    b\nc");
    assert_eq!(unit.name, "f.txt");
    assert_eq!(
        ops,
        vec![
            DrawOp::OpenPage("f.txt".to_string()),
            DrawOp::Header("f.txt".to_string()),
            DrawOp::Bookmark("f.txt".to_string()),
            DrawOp::Text { text: "0 a    b".to_string(), slot: 1 },
            DrawOp::Text { text: "1 c".to_string(), slot: 2 },
        ]
    );
}

#[test]
fn print_page_of_empty_unit_opens_one_page() {
    let cfg = LayoutConfig::default();
    let mut unit = CodeFile::new("empty", "");
    let ops = unit.print_page(&cfg);
    assert_eq!(
        ops,
        vec![
            DrawOp::OpenPage("empty".to_string()),
            DrawOp::Header("empty".to_string()),
            DrawOp::Bookmark("empty".to_string()),
        ]
    );
}

#[test]
fn print_page_over_several_pages() {
    let cfg = LayoutConfig::new(2, 85, 4, false).unwrap();
    let mut unit = CodeFile::new("m", "1\n2\n3\n4\n5");
    let ops = unit.print_page(&cfg);
    assert_eq!(opened_in(&ops), 3);
    assert_eq!(bookmarks_in(&ops), 1);
    assert_eq!(ops.len(), 3 + 2 + 2 + 2 + 2 + 1);
    assert_eq!(ops[ops.len() - 1], DrawOp::Text { text: "5".to_string(), slot: 1 });
}

#[test]
fn put_fname_on_top_is_the_header() {
    let unit = CodeFile::new("src/lib.rs", "text");
    assert_eq!(unit.put_fname_on_top(), DrawOp::Header("src/lib.rs".to_string()));
}

#[test]
fn new_unit_keeps_name_and_text() {
    let unit = CodeFile::new("n", "t\tx");
    assert_eq!(unit.name, "n");
    assert_eq!(unit.text, "t\tx");
}
