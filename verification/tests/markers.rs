//! List markers: every numbering and style combination, alignment of
//! continuation lines, and the numbering-overflow error.

use djotfmt::event::{BulletKind, Container, Error, Event, ListKind, Numbering, OrdinalStyle};
use djotfmt::renderer::Renderer;
use djotfmt::WriterConfig;

fn render(events: Vec<Event>, max_cols: usize) -> Result<String, Error> {
    Renderer::new().push_offset(&events, &WriterConfig { max_cols })
}

fn ok(events: Vec<Event>, max_cols: usize) -> String {
    render(events, max_cols).expect("rendering should succeed")
}

fn txt(s: &str) -> Event {
    Event::Text(String::from(s))
}

fn list_of(kind: ListKind, items: &[&str]) -> Vec<Event> {
    let mut events = vec![Event::Start(Container::List { kind, tight: false }, vec![])];
    for item in items {
        events.push(Event::Start(Container::ListItem, vec![]));
        events.push(Event::Start(Container::Paragraph, vec![]));
        events.push(txt(item));
        events.push(Event::End(Container::Paragraph));
        events.push(Event::End(Container::ListItem));
    }
    events.push(Event::End(Container::List { kind, tight: false }));
    events
}

#[test]
fn unordered_star_list_two_items() {
    let kind = ListKind::Unordered(BulletKind::Star);
    assert_eq!(ok(list_of(kind, &["item one", "item two"]), 72), "* item one\n\n* item two\n\n");
}

#[test]
fn unordered_bullets_use_their_glyphs() {
    let dash = ListKind::Unordered(BulletKind::Dash);
    let plus = ListKind::Unordered(BulletKind::Plus);
    assert_eq!(ok(list_of(dash, &["a"]), 72), "- a\n\n");
    assert_eq!(ok(list_of(plus, &["a"]), 72), "+ a\n\n");
}

#[test]
fn alpha_upper_period_markers() {
    let kind = ListKind::Ordered {
        numbering: Numbering::AlphaUpper,
        style: OrdinalStyle::Period,
        start: 1,
    };
    assert_eq!(
        ok(list_of(kind, &["one", "two", "three"]), 72),
        "A. one\n\nB. two\n\nC. three\n\n",
    );
}

#[test]
fn alpha_lower_respects_start_offset() {
    let kind = ListKind::Ordered {
        numbering: Numbering::AlphaLower,
        style: OrdinalStyle::Paren,
        start: 24,
    };
    assert_eq!(ok(list_of(kind, &["x", "y", "z"]), 72), "x) x\n\ny) y\n\nz) z\n\n");
}

#[test]
fn alpha_ordinal_past_z_is_a_numbering_overflow() {
    let kind = ListKind::Ordered {
        numbering: Numbering::AlphaLower,
        style: OrdinalStyle::Period,
        start: 25,
    };
    assert_eq!(
        render(list_of(kind, &["a", "b", "c"]), 72),
        Err(Error::NumberingOverflow),
    );
}

#[test]
fn decimal_markers_respect_start_offset() {
    let kind = ListKind::Ordered {
        numbering: Numbering::Decimal,
        style: OrdinalStyle::ParenParen,
        start: 9,
    };
    assert_eq!(ok(list_of(kind, &["a", "b"]), 72), "(9) a\n\n(10) b\n\n");
}

#[test]
fn roman_markers_ignore_the_start_offset() {
    let kind = ListKind::Ordered {
        numbering: Numbering::RomanLower,
        style: OrdinalStyle::Paren,
        start: 10,
    };
    assert_eq!(
        ok(list_of(kind, &["a", "b", "c", "d"]), 72),
        "i) a\n\nii) b\n\niii) c\n\niv) d\n\n",
    );
}

#[test]
fn roman_upper_subtractive_notation() {
    let kind = ListKind::Ordered {
        numbering: Numbering::RomanUpper,
        style: OrdinalStyle::Period,
        start: 1,
    };
    let out = ok(list_of(kind, &["a", "b", "c", "d", "e", "f", "g", "h", "i"]), 72);
    assert!(out.contains("IV. d"));
    assert!(out.contains("IX. i"));
}

#[test]
fn continuation_lines_align_under_item_text() {
    let kind = ListKind::Ordered {
        numbering: Numbering::Decimal,
        style: OrdinalStyle::Period,
        start: 1,
    };
    assert_eq!(ok(list_of(kind, &["aaa bb cc"]), 10), "1. aaa bb\n   cc\n\n");
}

#[test]
fn unordered_continuation_indents_two_columns() {
    let kind = ListKind::Unordered(BulletKind::Dash);
    assert_eq!(ok(list_of(kind, &["aaa bbb cc"]), 9), "- aaa bbb\n  cc\n\n");
}

#[test]
fn task_list_items_render_checkboxes() {
    let kind = ListKind::Task(BulletKind::Dash);
    let events = vec![
        Event::Start(Container::List { kind, tight: false }, vec![]),
        Event::Start(Container::TaskListItem { checked: true }, vec![]),
        Event::Start(Container::Paragraph, vec![]),
        txt("done"),
        Event::End(Container::Paragraph),
        Event::End(Container::TaskListItem { checked: true }),
        Event::Start(Container::TaskListItem { checked: false }, vec![]),
        Event::Start(Container::Paragraph, vec![]),
        txt("open"),
        Event::End(Container::Paragraph),
        Event::End(Container::TaskListItem { checked: false }),
        Event::End(Container::List { kind, tight: false }),
    ];
    assert_eq!(ok(events, 72), "- [x] done\n\n- [ ] open\n\n");
}

#[test]
fn nested_list_indents_under_outer_item() {
    let outer = ListKind::Unordered(BulletKind::Dash);
    let inner = ListKind::Unordered(BulletKind::Star);
    let events = vec![
        Event::Start(Container::List { kind: outer, tight: false }, vec![]),
        Event::Start(Container::ListItem, vec![]),
        Event::Start(Container::Paragraph, vec![]),
        txt("outer"),
        Event::End(Container::Paragraph),
        Event::Start(Container::List { kind: inner, tight: false }, vec![]),
        Event::Start(Container::ListItem, vec![]),
        Event::Start(Container::Paragraph, vec![]),
        txt("inner"),
        Event::End(Container::Paragraph),
        Event::End(Container::ListItem),
        Event::End(Container::List { kind: inner, tight: false }),
        Event::End(Container::ListItem),
        Event::End(Container::List { kind: outer, tight: false }),
    ];
    assert_eq!(ok(events, 72), "- outer\n\n  * inner\n\n");
}
