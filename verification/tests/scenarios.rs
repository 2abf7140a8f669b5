//! End-to-end scenarios: event streams built by hand, rendered through
//! the public entry point, and compared against exact expected text.

use djotfmt::event::{Attr, AttrKind, Container, Error, Event, LinkKind, SpanLinkKind};
use djotfmt::renderer::Renderer;
use djotfmt::WriterConfig;

fn render(events: Vec<Event>, max_cols: usize) -> Result<String, Error> {
    Renderer::new().push_offset(&events, &WriterConfig { max_cols })
}

fn ok(events: Vec<Event>, max_cols: usize) -> String {
    render(events, max_cols).expect("rendering should succeed")
}

fn txt(s: &str) -> Event {
    Event::Text(String::from(s))
}

fn class_attr(name: &str) -> Attr {
    Attr { kind: AttrKind::Class, parts: vec![String::from(name)] }
}

#[test]
fn paragraph_collapses_interior_spaces() {
    let events = vec![
        Event::Start(Container::Paragraph, vec![]),
        txt("Hello   world"),
        Event::End(Container::Paragraph),
    ];
    assert_eq!(ok(events, 72), "Hello world\n\n");
}

#[test]
fn paragraph_collapses_tabs_and_newlines() {
    let events = vec![
        Event::Start(Container::Paragraph, vec![]),
        txt("a \t\n b"),
        Event::End(Container::Paragraph),
    ];
    assert_eq!(ok(events, 72), "a b\n\n");
}

#[test]
fn heading_with_class_attribute() {
    let events = vec![
        Event::Start(Container::Heading { level: 1 }, vec![class_attr("note")]),
        txt("Hello"),
        Event::End(Container::Heading { level: 1 }),
    ];
    assert_eq!(ok(events, 72), "{ .note}\n# Hello\n\n");
}

#[test]
fn heading_level_three() {
    let events = vec![
        Event::Start(Container::Heading { level: 3 }, vec![]),
        txt("deep"),
        Event::End(Container::Heading { level: 3 }),
    ];
    assert_eq!(ok(events, 72), "### deep\n\n");
}

#[test]
fn code_block_preserves_blank_line() {
    let events = vec![
        Event::Start(Container::CodeBlock { language: String::from("txt") }, vec![]),
        txt("a\n\nb\n"),
        Event::End(Container::CodeBlock { language: String::from("txt") }),
    ];
    assert_eq!(ok(events, 72), "``` txt\na\n\nb\n```\n\n");
}

#[test]
fn code_block_preserves_interior_spaces() {
    let events = vec![
        Event::Start(Container::CodeBlock { language: String::from("") }, vec![]),
        txt("x   =   1\n"),
        Event::End(Container::CodeBlock { language: String::from("") }),
    ];
    assert_eq!(ok(events, 72), "```\nx   =   1\n```\n\n");
}

#[test]
fn raw_block_fence_names_format() {
    let events = vec![
        Event::Start(Container::RawBlock { format: String::from("html") }, vec![]),
        txt("<hr>\n"),
        Event::End(Container::RawBlock { format: String::from("html") }),
    ];
    assert_eq!(ok(events, 72), "``` =html\n<hr>\n```\n\n");
}

#[test]
fn prose_wraps_at_word_boundaries() {
    let events = vec![
        Event::Start(Container::Paragraph, vec![]),
        txt("aaa bbb ccc ddd"),
        Event::End(Container::Paragraph),
    ];
    assert_eq!(ok(events, 10), "aaa bbb\nccc ddd\n\n");
}

#[test]
fn oversized_token_is_emitted_unsplit() {
    let events = vec![
        Event::Start(Container::Paragraph, vec![]),
        txt("aa bbbbbbbb cc"),
        Event::End(Container::Paragraph),
    ];
    assert_eq!(ok(events, 5), "aa\nbbbbbbbb\ncc\n\n");
}

#[test]
fn wide_characters_count_two_columns() {
    let events = vec![
        Event::Start(Container::Paragraph, vec![]),
        txt("\u{65E5}\u{672C} \u{8A9E}"),
        Event::End(Container::Paragraph),
    ];
    assert_eq!(ok(events, 4), "\u{65E5}\u{672C}\n\u{8A9E}\n\n");
}

#[test]
fn no_output_line_has_trailing_whitespace() {
    let events = vec![
        Event::Start(Container::Blockquote, vec![]),
        Event::Start(Container::Paragraph, vec![]),
        txt("a"),
        Event::End(Container::Paragraph),
        Event::Start(Container::Paragraph, vec![]),
        txt("b"),
        Event::End(Container::Paragraph),
        Event::End(Container::Blockquote),
    ];
    let out = ok(events, 72);
    assert_eq!(out, "> a\n>\n> b\n\n");
    for line in out.split('\n') {
        assert_eq!(line, line.trim_end());
    }
}

#[test]
fn blockquote_prefixes_every_line() {
    let events = vec![
        Event::Start(Container::Blockquote, vec![]),
        Event::Start(Container::Paragraph, vec![]),
        txt("aaa bbb ccc"),
        Event::End(Container::Paragraph),
        Event::End(Container::Blockquote),
    ];
    assert_eq!(ok(events, 9), "> aaa bbb\n> ccc\n\n");
}

#[test]
fn thematic_break_renders_dashes() {
    let events = vec![Event::ThematicBreak(vec![])];
    assert_eq!(ok(events, 72), "---\n\n");
}

#[test]
fn standalone_attributes_attach_to_next_block() {
    let events = vec![
        Event::Attributes(vec![class_attr("note")]),
        Event::Start(Container::Paragraph, vec![]),
        txt("x"),
        Event::End(Container::Paragraph),
    ];
    assert_eq!(ok(events, 72), "{ .note}\nx\n\n");
}

#[test]
fn span_renders_trailing_attribute_group() {
    let events = vec![
        Event::Start(Container::Paragraph, vec![]),
        txt("see "),
        Event::Start(Container::Span, vec![class_attr("x")]),
        txt("this"),
        Event::End(Container::Span),
        Event::End(Container::Paragraph),
    ];
    assert_eq!(ok(events, 72), "see [this]{ .x}\n\n");
}

#[test]
fn inline_group_combines_entries() {
    let events = vec![
        Event::Start(Container::Paragraph, vec![]),
        Event::Start(
            Container::Span,
            vec![
                class_attr("a"),
                Attr { kind: AttrKind::Id, parts: vec![String::from("b")] },
                Attr {
                    kind: AttrKind::Pair { key: String::from("k") },
                    parts: vec![String::from("v")],
                },
            ],
        ),
        txt("w"),
        Event::End(Container::Span),
        Event::End(Container::Paragraph),
    ];
    assert_eq!(ok(events, 72), "[w]{ .a #b k=v}\n\n");
}

#[test]
fn block_attributes_render_one_entry_per_line() {
    let events = vec![
        Event::Start(
            Container::Paragraph,
            vec![class_attr("a"), Attr { kind: AttrKind::Id, parts: vec![String::from("b")] }],
        ),
        txt("x"),
        Event::End(Container::Paragraph),
    ];
    assert_eq!(ok(events, 72), "{ .a}\n{ #b}\nx\n\n");
}

#[test]
fn comment_attribute_closes_on_its_own_line() {
    let events = vec![
        Event::Start(
            Container::Paragraph,
            vec![Attr { kind: AttrKind::Comment, parts: vec![String::from("remark")] }],
        ),
        txt("x"),
        Event::End(Container::Paragraph),
    ];
    assert_eq!(ok(events, 72), "{%remark\n %}\nx\n\n");
}

#[test]
fn verbatim_preserves_interior_whitespace() {
    let events = vec![
        Event::Start(Container::Paragraph, vec![]),
        txt("a "),
        Event::Start(Container::Verbatim, vec![]),
        txt("x  y"),
        Event::End(Container::Verbatim),
        Event::End(Container::Paragraph),
    ];
    assert_eq!(ok(events, 72), "a `x  y`\n\n");
}

#[test]
fn verbatim_token_is_never_split() {
    let events = vec![
        Event::Start(Container::Paragraph, vec![]),
        txt("aa "),
        Event::Start(Container::Verbatim, vec![]),
        txt("bb cc dd"),
        Event::End(Container::Verbatim),
        Event::End(Container::Paragraph),
    ];
    assert_eq!(ok(events, 6), "aa\n`bb cc dd`\n\n");
}

#[test]
fn math_and_strong_and_emphasis_delimiters() {
    let events = vec![
        Event::Start(Container::Paragraph, vec![]),
        Event::Start(Container::Strong, vec![]),
        txt("b"),
        Event::End(Container::Strong),
        txt(" "),
        Event::Start(Container::Emphasis, vec![]),
        txt("i"),
        Event::End(Container::Emphasis),
        txt(" "),
        Event::Start(Container::Math { display: false }, vec![]),
        txt("x+y"),
        Event::End(Container::Math { display: false }),
        Event::End(Container::Paragraph),
    ];
    assert_eq!(ok(events, 72), "*b* _i_ $`x+y`\n\n");
}

#[test]
fn inline_link_and_image() {
    let events = vec![
        Event::Start(Container::Paragraph, vec![]),
        Event::Start(
            Container::Link(String::from("https://e.com"), LinkKind::Span(SpanLinkKind::Inline)),
            vec![],
        ),
        txt("link"),
        Event::End(
            Container::Link(String::from("https://e.com"), LinkKind::Span(SpanLinkKind::Inline)),
        ),
        txt(" "),
        Event::Start(Container::Image(String::from("u.png"), SpanLinkKind::Inline), vec![]),
        txt("alt"),
        Event::End(Container::Image(String::from("u.png"), SpanLinkKind::Inline)),
        Event::End(Container::Paragraph),
    ];
    assert_eq!(ok(events, 72), "[link](https://e.com) ![alt](u.png)\n\n");
}

#[test]
fn autolink_uses_angle_brackets() {
    let events = vec![
        Event::Start(Container::Paragraph, vec![]),
        Event::Start(Container::Link(String::from("https://e.com"), LinkKind::Auto), vec![]),
        txt("https://e.com"),
        Event::End(Container::Link(String::from("https://e.com"), LinkKind::Auto)),
        Event::End(Container::Paragraph),
    ];
    assert_eq!(ok(events, 72), "<https://e.com>\n\n");
}

#[test]
fn hard_break_ends_the_line_with_a_backslash() {
    let events = vec![
        Event::Start(Container::Paragraph, vec![]),
        txt("a"),
        Event::Hardbreak,
        txt("b"),
        Event::End(Container::Paragraph),
    ];
    assert_eq!(ok(events, 72), "a\\\nb\n\n");
}

#[test]
fn soft_break_is_a_word_boundary() {
    let events = vec![
        Event::Start(Container::Paragraph, vec![]),
        txt("a"),
        Event::Softbreak,
        txt("b"),
        Event::End(Container::Paragraph),
    ];
    assert_eq!(ok(events, 72), "a b\n\n");
}

#[test]
fn non_breaking_space_glues_words() {
    let events = vec![
        Event::Start(Container::Paragraph, vec![]),
        txt("a"),
        Event::NonBreakingSpace,
        txt("b"),
        Event::End(Container::Paragraph),
    ];
    assert_eq!(ok(events, 72), "a\\ b\n\n");
}

#[test]
fn typographic_events_render_ascii_source_forms() {
    let events = vec![
        Event::Start(Container::Paragraph, vec![]),
        txt("a"),
        Event::Ellipsis,
        txt(" b"),
        Event::EnDash,
        txt("c"),
        Event::EmDash,
        txt("d"),
        Event::End(Container::Paragraph),
    ];
    assert_eq!(ok(events, 72), "a... b--c---d\n\n");
}

#[test]
fn symbol_and_footnote_reference_are_echoed() {
    let events = vec![
        Event::Start(Container::Paragraph, vec![]),
        Event::Symbol(String::from("smile")),
        txt(" x"),
        Event::FootnoteReference(String::from("nb")),
        Event::End(Container::Paragraph),
    ];
    assert_eq!(ok(events, 72), ":smile: x[^nb]\n\n");
}

#[test]
fn footnote_definition_aligns_continuation() {
    let events = vec![
        Event::Start(Container::Footnote { label: String::from("n") }, vec![]),
        Event::Start(Container::Paragraph, vec![]),
        txt("x"),
        Event::End(Container::Paragraph),
        Event::End(Container::Footnote { label: String::from("n") }),
    ];
    assert_eq!(ok(events, 72), "[^n]: x\n\n");
}

#[test]
fn description_list_renders_term_and_details() {
    let events = vec![
        Event::Start(Container::DescriptionList, vec![]),
        Event::Start(Container::DescriptionTerm, vec![]),
        txt("term"),
        Event::End(Container::DescriptionTerm),
        Event::Start(Container::DescriptionDetails, vec![]),
        Event::Start(Container::Paragraph, vec![]),
        txt("def"),
        Event::End(Container::Paragraph),
        Event::End(Container::DescriptionDetails),
        Event::End(Container::DescriptionList),
    ];
    assert_eq!(ok(events, 72), ": term\n\n  def\n\n");
}

#[test]
fn div_wraps_content_in_fences() {
    let events = vec![
        Event::Start(Container::Div { class: String::from("note") }, vec![]),
        Event::Start(Container::Paragraph, vec![]),
        txt("x"),
        Event::End(Container::Paragraph),
        Event::End(Container::Div { class: String::from("note") }),
    ];
    assert_eq!(ok(events, 72), "::: note\nx\n:::\n\n");
}

#[test]
fn table_is_an_unsupported_construct() {
    let events = vec![Event::Start(Container::Table, vec![])];
    assert_eq!(render(events, 72), Err(Error::UnsupportedConstruct));
}

#[test]
fn list_item_without_list_is_an_invariant_violation() {
    let events = vec![Event::Start(Container::ListItem, vec![])];
    assert_eq!(render(events, 72), Err(Error::InvariantViolation));
}

#[test]
fn unflushed_word_at_stream_end_is_an_invariant_violation() {
    let events = vec![Event::Start(Container::Paragraph, vec![]), txt("abc")];
    assert_eq!(render(events, 72), Err(Error::InvariantViolation));
}

#[test]
fn empty_stream_renders_empty_output() {
    assert_eq!(ok(vec![], 72), "");
}
