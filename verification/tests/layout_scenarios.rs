use pdfcr::config::LayoutConfig;
use pdfcr::event::PageEvent;
use pdfcr::layout::layout;
use pdfcr::unit::CodeFile;

fn event_texts(events: &[PageEvent]) -> Vec<String> {
    events
        .iter()
        .map(|e| match e {
            PageEvent::NewPage(name) => format!("<{}>", name),
            PageEvent::Line(line) => line.text(),
        })
        .collect()
}

#[test]
fn tab_and_two_lines_with_numbers() {
    let cfg = LayoutConfig::new(48, 85, 4, true).unwrap();
    let unit = CodeFile::new("f.txt", "a\tb\nc");
    let events = layout(&unit, &cfg);
    assert_eq!(event_texts(&events), vec!["<f.txt>", "0 a    b", "1 c"]);
}

#[test]
fn long_line_breaks_into_three_segments() {
    let cfg = LayoutConfig::new(48, 85, 4, true).unwrap();
    let unit = CodeFile::new("long", &"x".repeat(200));
    let events = layout(&unit, &cfg);
    assert_eq!(events.len(), 4);
    let mut lengths = Vec::new();
    for e in &events[1..] {
        match e {
            PageEvent::Line(line) => {
                assert_eq!(line.line_number, 0);
                lengths.push(line.content.chars().count());
            }
            PageEvent::NewPage(_) => panic!("no second page expected"),
        }
    }
    assert_eq!(lengths, vec![85, 85, 30]);
    match (&events[1], &events[2], &events[3]) {
        (PageEvent::Line(a), PageEvent::Line(b), PageEvent::Line(c)) => {
            assert_eq!(a.label.as_deref(), Some("0 "));
            assert_eq!(b.label, None);
            assert_eq!(c.label, None);
        }
        _ => unreachable!(),
    }
}

#[test]
fn empty_text_opens_one_page() {
    let cfg = LayoutConfig::default();
    let unit = CodeFile::new("empty", "");
    let events = layout(&unit, &cfg);
    assert_eq!(events, vec![PageEvent::NewPage("empty".to_string())]);
}
