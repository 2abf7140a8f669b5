//! A canonical pretty-printer for djot markup.
//!
//! The crate consumes a stream of typed events describing a parsed document
//! (container open/close events, inline text, typographic symbols, attribute
//! blocks) and re-emits normalized source text: fixed bullet and numbering
//! styles, prose reflowed at a configurable column width, normalized
//! attribute syntax, and exactly one blank line between block constructs.

use vstd::prelude::*;

pub mod attrs;
pub mod buffer;
pub mod ends;
pub mod event;
pub mod ordinal;
pub mod prose;
pub mod renderer;
pub mod starts;
pub mod text;
pub mod writer;

pub use event::{Attr, AttrKind, BulletKind, CellAlignment, Container, Error, Event, LinkKind,
    ListKind, Numbering, OrdinalStyle, SpanLinkKind};
pub use renderer::Renderer;
pub use writer::Writer;

verus! {

/// Configuration for a formatting run.
pub struct WriterConfig {
    /// Maximum display width, in columns, of a wrapped prose line.
    pub max_cols: usize,
}

} // verus!
