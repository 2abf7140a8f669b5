//! Round trips through the real parser: source text is parsed with
//! jotdown, the events are rendered, and the formatter's output is
//! parsed and rendered again — a document already in canonical form is
//! a fixed point.

use djotfmt::event::{Attr, AttrKind, BulletKind, CellAlignment, Container, Event, LinkKind,
    ListKind, Numbering, OrdinalStyle, SpanLinkKind};
use djotfmt::renderer::Renderer;
use djotfmt::WriterConfig;

fn conv_attrs(attrs: &jotdown::Attributes) -> Vec<Attr> {
    let mut out = Vec::new();
    for (k, v) in attrs {
        let kind = match k {
            jotdown::AttributeKind::Class => AttrKind::Class,
            jotdown::AttributeKind::Id => AttrKind::Id,
            jotdown::AttributeKind::Pair { key } => AttrKind::Pair { key: key.to_string() },
            jotdown::AttributeKind::Comment => AttrKind::Comment,
        };
        let parts: Vec<String> = v.parts().map(|p| p.to_string()).collect();
        out.push(Attr { kind, parts });
    }
    out
}

fn conv_bullet(b: jotdown::ListBulletType) -> BulletKind {
    match b {
        jotdown::ListBulletType::Dash => BulletKind::Dash,
        jotdown::ListBulletType::Star => BulletKind::Star,
        jotdown::ListBulletType::Plus => BulletKind::Plus,
    }
}

fn conv_list_kind(k: jotdown::ListKind) -> ListKind {
    match k {
        jotdown::ListKind::Unordered(b) => ListKind::Unordered(conv_bullet(b)),
        jotdown::ListKind::Ordered { numbering, style, start } => ListKind::Ordered {
            numbering: match numbering {
                jotdown::OrderedListNumbering::Decimal => Numbering::Decimal,
                jotdown::OrderedListNumbering::AlphaLower => Numbering::AlphaLower,
                jotdown::OrderedListNumbering::AlphaUpper => Numbering::AlphaUpper,
                jotdown::OrderedListNumbering::RomanLower => Numbering::RomanLower,
                jotdown::OrderedListNumbering::RomanUpper => Numbering::RomanUpper,
            },
            style: match style {
                jotdown::OrderedListStyle::Period => OrdinalStyle::Period,
                jotdown::OrderedListStyle::Paren => OrdinalStyle::Paren,
                jotdown::OrderedListStyle::ParenParen => OrdinalStyle::ParenParen,
            },
            start,
        },
        jotdown::ListKind::Task(b) => ListKind::Task(conv_bullet(b)),
    }
}

fn conv_container(c: &jotdown::Container) -> Option<Container> {
    Some(match c {
        jotdown::Container::Document => return None,
        jotdown::Container::Blockquote => Container::Blockquote,
        jotdown::Container::List { kind, tight } => Container::List {
            kind: conv_list_kind(*kind),
            tight: *tight,
        },
        jotdown::Container::ListItem => Container::ListItem,
        jotdown::Container::TaskListItem { checked } => Container::TaskListItem {
            checked: *checked,
        },
        jotdown::Container::DescriptionList => Container::DescriptionList,
        jotdown::Container::DescriptionDetails => Container::DescriptionDetails,
        jotdown::Container::Footnote { label } => Container::Footnote { label: label.to_string() },
        jotdown::Container::Table => Container::Table,
        jotdown::Container::TableRow { head } => Container::TableRow { head: *head },
        jotdown::Container::Section { id } => Container::Section { id: id.to_string() },
        jotdown::Container::Div { class } => Container::Div { class: class.to_string() },
        jotdown::Container::Paragraph => Container::Paragraph,
        jotdown::Container::Heading { level, .. } => Container::Heading { level: *level },
        jotdown::Container::TableCell { alignment, head } => Container::TableCell {
            alignment: match alignment {
                jotdown::Alignment::Unspecified => CellAlignment::Unspecified,
                jotdown::Alignment::Left => CellAlignment::Left,
                jotdown::Alignment::Center => CellAlignment::Center,
                jotdown::Alignment::Right => CellAlignment::Right,
            },
            head: *head,
        },
        jotdown::Container::Caption => Container::Caption,
        jotdown::Container::DescriptionTerm => Container::DescriptionTerm,
        jotdown::Container::LinkDefinition { label } => Container::LinkDefinition {
            label: label.to_string(),
        },
        jotdown::Container::RawBlock { format } => Container::RawBlock {
            format: format.to_string(),
        },
        jotdown::Container::CodeBlock { language } => Container::CodeBlock {
            language: language.to_string(),
        },
        jotdown::Container::Span => Container::Span,
        jotdown::Container::Link(dest, link_type) => Container::Link(
            dest.to_string(),
            match link_type {
                jotdown::LinkType::Span(s) => LinkKind::Span(match s {
                    jotdown::SpanLinkType::Inline => SpanLinkKind::Inline,
                    jotdown::SpanLinkType::Reference => SpanLinkKind::Reference,
                    jotdown::SpanLinkType::Unresolved => SpanLinkKind::Unresolved,
                }),
                jotdown::LinkType::AutoLink => LinkKind::Auto,
                jotdown::LinkType::Email => LinkKind::Email,
            },
        ),
        jotdown::Container::Image(dest, s) => Container::Image(
            dest.to_string(),
            match s {
                jotdown::SpanLinkType::Inline => SpanLinkKind::Inline,
                jotdown::SpanLinkType::Reference => SpanLinkKind::Reference,
                jotdown::SpanLinkType::Unresolved => SpanLinkKind::Unresolved,
            },
        ),
        jotdown::Container::Verbatim => Container::Verbatim,
        jotdown::Container::Math { display } => Container::Math { display: *display },
        jotdown::Container::RawInline { format } => Container::RawInline {
            format: format.to_string(),
        },
        jotdown::Container::Subscript => Container::Subscript,
        jotdown::Container::Superscript => Container::Superscript,
        jotdown::Container::Insert => Container::Insert,
        jotdown::Container::Delete => Container::Delete,
        jotdown::Container::Strong => Container::Strong,
        jotdown::Container::Emphasis => Container::Emphasis,
        jotdown::Container::Mark => Container::Mark,
    })
}

fn conv_event(e: jotdown::Event) -> Option<Event> {
    Some(match e {
        jotdown::Event::Start(c, attrs) => {
            Event::Start(conv_container(&c)?, conv_attrs(&attrs))
        },
        jotdown::Event::End(c) => Event::End(conv_container(&c)?),
        jotdown::Event::Str(s) => Event::Text(s.to_string()),
        jotdown::Event::FootnoteReference(l) => Event::FootnoteReference(l.to_string()),
        jotdown::Event::Symbol(s) => Event::Symbol(s.to_string()),
        jotdown::Event::LeftSingleQuote => Event::LeftSingleQuote,
        jotdown::Event::RightSingleQuote => Event::RightSingleQuote,
        jotdown::Event::LeftDoubleQuote => Event::LeftDoubleQuote,
        jotdown::Event::RightDoubleQuote => Event::RightDoubleQuote,
        jotdown::Event::Ellipsis => Event::Ellipsis,
        jotdown::Event::EnDash => Event::EnDash,
        jotdown::Event::EmDash => Event::EmDash,
        jotdown::Event::NonBreakingSpace => Event::NonBreakingSpace,
        jotdown::Event::Softbreak => Event::Softbreak,
        jotdown::Event::Hardbreak => Event::Hardbreak,
        jotdown::Event::Escape => Event::Escape,
        jotdown::Event::Blankline => Event::Blankline,
        jotdown::Event::ThematicBreak(attrs) => Event::ThematicBreak(conv_attrs(&attrs)),
        jotdown::Event::Attributes(attrs) => Event::Attributes(conv_attrs(&attrs)),
    })
}

fn format_once(input: &str, max_cols: usize) -> String {
    let events: Vec<Event> = jotdown::Parser::new(input).filter_map(conv_event).collect();
    Renderer::new()
        .push_offset(&events, &WriterConfig { max_cols })
        .expect("rendering should succeed")
}

fn assert_fixed_point(input: &str, expected: &str) {
    let once = format_once(input, 72);
    assert_eq!(once, expected);
    let twice = format_once(&once, 72);
    assert_eq!(twice, once);
}

#[test]
fn paragraph_round_trip() {
    assert_fixed_point("Hello   world\n", "Hello world\n\n");
}

#[test]
fn multi_line_paragraph_reflows() {
    assert_fixed_point("a\nb\nc\n", "a b c\n\n");
}

#[test]
fn star_list_round_trip() {
    assert_fixed_point("* item one\n\n* item two\n", "* item one\n\n* item two\n\n");
}

#[test]
fn ordered_list_round_trip() {
    assert_fixed_point("1. one\n\n2. two\n", "1. one\n\n2. two\n\n");
}

#[test]
fn heading_round_trip() {
    assert_fixed_point("# Title\n\nbody text\n", "# Title\n\nbody text\n\n");
}

#[test]
fn blockquote_round_trip() {
    assert_fixed_point("> a\n> b\n", "> a b\n\n");
}

#[test]
fn code_block_round_trip_preserves_blank_lines() {
    assert_fixed_point(
        "``` rust\nlet x = 1;\n\nlet y = 2;\n```\n",
        "``` rust\nlet x = 1;\n\nlet y = 2;\n```\n\n",
    );
}

#[test]
fn long_paragraph_wrap_is_a_fixed_point() {
    let input = "one two three four five six seven eight nine ten eleven twelve thirteen \
                 fourteen fifteen sixteen seventeen eighteen nineteen twenty\n";
    let once = format_once(input, 30);
    let twice = format_once(&once, 30);
    assert_eq!(twice, once);
    for line in once.split('\n') {
        assert!(line.chars().count() <= 30, "line too long: {:?}", line);
    }
}

#[test]
fn verbatim_round_trip() {
    assert_fixed_point("before `x  y` after\n", "before `x  y` after\n\n");
}

#[test]
fn strong_and_emphasis_round_trip() {
    assert_fixed_point("a *b* _c_\n", "a *b* _c_\n\n");
}

#[test]
fn inline_link_round_trip() {
    assert_fixed_point("see [here](https://e.com)\n", "see [here](https://e.com)\n\n");
}

#[test]
fn task_list_round_trip() {
    let once = format_once("- [x] done\n\n- [ ] open\n", 72);
    assert_eq!(once, "- [x] done\n\n- [ ] open\n\n");
    assert_eq!(format_once(&once, 72), once);
}

#[test]
fn nested_list_round_trip() {
    let once = format_once("- outer\n\n  * inner\n", 72);
    assert_eq!(once, "- outer\n\n  * inner\n\n");
    assert_eq!(format_once(&once, 72), once);
}

#[test]
fn thematic_break_round_trip() {
    let once = format_once("a\n\n---\n\nb\n", 72);
    assert_eq!(once, "a\n\n---\n\nb\n\n");
    assert_eq!(format_once(&once, 72), once);
}

#[test]
fn div_round_trip() {
    let once = format_once("::: note\ncontent\n:::\n", 72);
    assert_eq!(once, "::: note\ncontent\n:::\n\n");
    assert_eq!(format_once(&once, 72), once);
}

#[test]
fn span_with_attribute_round_trip() {
    let once = format_once("a [w]{.x} b\n", 72);
    assert_eq!(once, "a [w]{ .x} b\n\n");
    assert_eq!(format_once(&once, 72), once);
}

#[test]
fn alpha_list_round_trip() {
    let once = format_once("a. first\n\nb. second\n", 72);
    assert_eq!(once, "a. first\n\nb. second\n\n");
    assert_eq!(format_once(&once, 72), once);
}
