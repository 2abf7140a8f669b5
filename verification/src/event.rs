//! The document event model.
//!
//! A parsed document is described by an ordered sequence of [`Event`]s:
//! container open/close events, inline text, typographic symbols, and
//! attribute blocks.  Containers nest in a well-formed stack discipline
//! guaranteed by the upstream parser.

use vstd::prelude::*;

verus! {

/// Glyph of an unordered or task list bullet.
#[derive(Clone, Copy, Debug, PartialEq, Eq, Structural)]
pub enum BulletKind {
    Dash,
    Star,
    Plus,
}

/// Numbering system of an ordered list.
#[derive(Clone, Copy, Debug, PartialEq, Eq, Structural)]
pub enum Numbering {
    Decimal,
    AlphaLower,
    AlphaUpper,
    RomanLower,
    RomanUpper,
}

/// Punctuation style wrapped around an ordered list ordinal.
#[derive(Clone, Copy, Debug, PartialEq, Eq, Structural)]
pub enum OrdinalStyle {
    /// `1. `
    Period,
    /// `1) `
    Paren,
    /// `(1) `
    ParenParen,
}

/// The kind of a list container.
#[derive(Clone, Copy, Debug, PartialEq, Eq, Structural)]
pub enum ListKind {
    Unordered(BulletKind),
    Ordered { numbering: Numbering, style: OrdinalStyle, start: u64 },
    Task(BulletKind),
}

/// The kind of an inline span link.
#[derive(Clone, Copy, Debug, PartialEq, Eq, Structural)]
pub enum SpanLinkKind {
    /// `[text](url)`
    Inline,
    /// `[text][]`
    Reference,
    /// A reference whose tag did not resolve.
    Unresolved,
}

/// The kind of a link container.
#[derive(Clone, Copy, Debug, PartialEq, Eq, Structural)]
pub enum LinkKind {
    Span(SpanLinkKind),
    /// `<url>`
    Auto,
    /// `<address>`
    Email,
}

/// Horizontal alignment of a table cell.
#[derive(Clone, Copy, Debug, PartialEq, Eq, Structural)]
pub enum CellAlignment {
    Unspecified,
    Left,
    Center,
    Right,
}

/// The kind of one entry of an attribute set.
#[derive(Debug)]
pub enum AttrKind {
    /// `.name`
    Class,
    /// `#name`
    Id,
    /// `key=value`
    Pair { key: String },
    /// `%comment%`
    Comment,
}

/// One entry of an attribute set: a kind together with its value, an
/// ordered sequence of text parts.  Parts are concatenated with
/// collapsible internal whitespace, each independently word-wrappable.
#[derive(Debug)]
pub struct Attr {
    pub kind: AttrKind,
    pub parts: Vec<String>,
}

/// Mathematical model of an attribute entry kind.
pub enum AttrKindModel {
    Class,
    Id,
    Pair(Seq<char>),
    Comment,
}

/// Mathematical model of an attribute entry.
#[verifier::ext_equal]
pub struct AttrModel {
    pub kind: AttrKindModel,
    pub parts: Seq<Seq<char>>,
}

impl View for AttrKind {
    type V = AttrKindModel;

    open spec fn view(&self) -> AttrKindModel {
        match self {
            AttrKind::Class => AttrKindModel::Class,
            AttrKind::Id => AttrKindModel::Id,
            AttrKind::Pair { key } => AttrKindModel::Pair(key@),
            AttrKind::Comment => AttrKindModel::Comment,
        }
    }
}

/// The views of a sequence of text parts.
pub open spec fn parts_view(parts: Seq<String>) -> Seq<Seq<char>> {
    Seq::new(parts.len(), |i: int| parts[i]@)
}

impl View for Attr {
    type V = AttrModel;

    open spec fn view(&self) -> AttrModel {
        AttrModel { kind: self.kind@, parts: parts_view(self.parts@) }
    }
}

/// The views of an attribute set.
pub open spec fn attrs_view(attrs: Seq<Attr>) -> Seq<AttrModel> {
    Seq::new(attrs.len(), |i: int| attrs[i]@)
}

/// A block- or inline-level structural element, delimited by matching
/// `Start` and `End` events.
#[derive(Debug)]
pub enum Container {
    Blockquote,
    List { kind: ListKind, tight: bool },
    ListItem,
    TaskListItem { checked: bool },
    DescriptionList,
    DescriptionTerm,
    DescriptionDetails,
    Footnote { label: String },
    Table,
    TableRow { head: bool },
    TableCell { alignment: CellAlignment, head: bool },
    Caption,
    Section { id: String },
    Div { class: String },
    Paragraph,
    Heading { level: u16 },
    LinkDefinition { label: String },
    RawBlock { format: String },
    CodeBlock { language: String },
    Span,
    Link(String, LinkKind),
    Image(String, SpanLinkKind),
    Verbatim,
    Math { display: bool },
    RawInline { format: String },
    Subscript,
    Superscript,
    Insert,
    Delete,
    Strong,
    Emphasis,
    Mark,
}

/// One event of the document stream.
#[derive(Debug)]
pub enum Event {
    /// Start of a container, with the attributes attached to it.
    Start(Container, Vec<Attr>),
    /// End of a container; matches exactly one earlier `Start`.
    End(Container),
    /// Inline text.
    Text(String),
    /// A footnote reference; the label is echoed verbatim.
    FootnoteReference(String),
    /// A named symbol, e.g. an emoji alias.
    Symbol(String),
    LeftSingleQuote,
    RightSingleQuote,
    LeftDoubleQuote,
    RightDoubleQuote,
    Ellipsis,
    EnDash,
    EmDash,
    NonBreakingSpace,
    Softbreak,
    Hardbreak,
    Escape,
    Blankline,
    ThematicBreak(Vec<Attr>),
    /// A standalone attribute set, attached to the following block.
    Attributes(Vec<Attr>),
}

/// Why a formatting run was aborted.
#[derive(Clone, Copy, Debug, PartialEq, Eq, Structural)]
pub enum Error {
    /// An event or container variant not covered by the formatter's
    /// rules.  Aborting is preferred over silently emitting incorrect
    /// markup.
    UnsupportedConstruct,
    /// An alphabetic ordinal left `1..=26`, or an ordinal computation
    /// overflowed.
    NumberingOverflow,
    /// A structurally impossible state implied by a malformed event
    /// stream, e.g. a list item with no enclosing list.
    InvariantViolation,
}

/// Copies a string; the copy's characters equal the original's.
pub fn dup_string(s: &String) -> (r: String)
    ensures
        r@ == s@,
{
    s.clone()
}

/// Copies the text parts of an attribute value.
pub fn dup_parts(parts: &Vec<String>) -> (r: Vec<String>)
    ensures
        parts_view(r@) == parts_view(parts@),
{
    let mut r: Vec<String> = Vec::new();
    let mut i: usize = 0;
    while i < parts.len()
        invariant
            i <= parts.len(),
            r@.len() == i,
            forall|j: int| 0 <= j < i ==> r@[j]@ == parts@[j]@,
        decreases parts.len() - i,
    {
        r.push(dup_string(&parts[i]));
        i = i + 1;
    }
    proof {
        assert(parts_view(r@) =~= parts_view(parts@));
    }
    r
}

/// Copies one attribute entry.
pub fn dup_attr(a: &Attr) -> (r: Attr)
    ensures
        r@ == a@,
{
    let kind = match &a.kind {
        AttrKind::Class => AttrKind::Class,
        AttrKind::Id => AttrKind::Id,
        AttrKind::Pair { key } => AttrKind::Pair { key: dup_string(key) },
        AttrKind::Comment => AttrKind::Comment,
    };
    let r = Attr { kind, parts: dup_parts(&a.parts) };
    proof {
        assert(r@ =~= a@);
    }
    r
}

/// Copies an attribute set.
pub fn dup_attrs(attrs: &Vec<Attr>) -> (r: Vec<Attr>)
    ensures
        attrs_view(r@) == attrs_view(attrs@),
{
    let mut r: Vec<Attr> = Vec::new();
    let mut i: usize = 0;
    while i < attrs.len()
        invariant
            i <= attrs.len(),
            r@.len() == i,
            forall|j: int| 0 <= j < i ==> r@[j]@ == attrs@[j]@,
        decreases attrs.len() - i,
    {
        r.push(dup_attr(&attrs[i]));
        i = i + 1;
    }
    proof {
        assert(attrs_view(r@) =~= attrs_view(attrs@));
    }
    r
}

} // verus!
