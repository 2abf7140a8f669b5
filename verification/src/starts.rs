//! Container start events: block openings and inline delimiters.
//!
//! Every block-level start first settles the owed blank line, renders
//! its block attributes one entry per line, and then emits its own
//! marker; list starts and items additionally maintain the list-kind
//! and index-counter stacks and push the indent that aligns
//! continuation lines under the item text.  Inline starts push their
//! opening delimiter onto the pending word and hold their attribute
//! set until the matching end event.

use vstd::prelude::*;
use crate::attrs::{block_attrs, render_block_attrs};
use crate::buffer::{buf_apply_prefix, buf_push_literal, buf_push_word, buf_wrap};
use crate::event::{Attr, AttrModel, Container, Error, ListKind, LinkKind, Numbering,
    SpanLinkKind, attrs_view};
use crate::ordinal::{ordered_marker_chars, ordered_marker_seq, spaces, task_marker_chars,
    task_marker_seq, unordered_marker_chars, unordered_marker_seq, indent_for};
use crate::text::copy_chars;
use crate::writer::{concat_seqs, ensure_blank, RawMode, Writer, WriterModel};

verus! {

/// The marker line opening a heading of the given level; it is also the
/// prefix re-applied to the heading's continuation lines.
pub open spec fn heading_marker(level: nat) -> Seq<char> {
    Seq::new(level, |i: int| '#') + seq![' ']
}

/// The marker opening a footnote definition.
pub open spec fn footnote_marker(label: Seq<char>) -> Seq<char> {
    ("[^")@ + label + ("]: ")@
}

/// The marker opening a link definition.
pub open spec fn linkdef_marker(label: Seq<char>) -> Seq<char> {
    ("[")@ + label + ("]: ")@
}

/// The fence line opening a div.
pub open spec fn div_marker(class: Seq<char>) -> Seq<char> {
    ("::: ")@ + class
}

/// The fence line opening a code block.
pub open spec fn codeblock_marker(language: Seq<char>) -> Seq<char> {
    ("``` ")@ + language
}

/// The fence line opening a raw block.
pub open spec fn rawblock_marker(format: Seq<char>) -> Seq<char> {
    ("``` =")@ + format
}

/// Opening a block construct: the owed blank line is settled, the
/// block attributes render one entry per line, and any held inline
/// attribute set is discarded.
pub open spec fn open_block(m: WriterModel, attrs: Seq<AttrModel>) -> WriterModel {
    let m1 = ensure_blank(m);
    WriterModel {
        buf: block_attrs(m1.buf, concat_seqs(m1.prefixes), attrs),
        pending: Seq::empty(),
        ..m1
    }
}

/// Emitting a block marker: the active prefix opens the fresh line,
/// then the marker follows literally.
pub open spec fn put_marker(m: WriterModel, mk: Seq<char>) -> WriterModel {
    WriterModel { buf: buf_push_literal(buf_apply_prefix(m.buf, concat_seqs(m.prefixes)), mk), ..m }
}

/// Holding an inline opening: the delimiter joins the pending word and
/// the attribute set is held for the matching end event.
pub open spec fn open_inline(m: WriterModel, delim: Seq<char>, attrs: Seq<AttrModel>) -> WriterModel {
    WriterModel { buf: buf_push_word(m.buf, delim), pending: attrs, ..m }
}

/// The displayed ordinal of the next item of an ordered list, or the
/// error aborting the run: the ordinal is `start + index - 1` for
/// decimal and alphabetic numbering but the bare index for roman
/// numbering (the `start` offset deliberately does not apply there),
/// an alphabetic ordinal outside `1..=26` is a fatal numbering
/// overflow, and so is an ordinal that no longer fits the counter.
pub open spec fn ordered_n(numbering: Numbering, start: u64, idx1: u64) -> Result<u64, Error> {
    let base = if numbering is RomanLower || numbering is RomanUpper {
        idx1 as int
    } else {
        start + idx1 - 1
    };
    if base > u64::MAX {
        Err(Error::NumberingOverflow)
    } else if (numbering is AlphaLower || numbering is AlphaUpper) && !(1 <= base <= 26) {
        Err(Error::NumberingOverflow)
    } else {
        Ok(base as u64)
    }
}

/// The effect of a container start event on the render state, or the
/// error aborting the run.
pub open spec fn spec_start(m: WriterModel, c: Container, attrs: Seq<AttrModel>) -> Result<
    WriterModel,
    Error,
> {
    match c {
        Container::Blockquote => {
            if m.buf.word.len() > 0 {
                Err(Error::InvariantViolation)
            } else {
                let m2 = open_block(m, attrs);
                Ok(WriterModel { prefixes: m2.prefixes.push(("> ")@), ..m2 })
            }
        },
        Container::List { kind, tight } => {
            if m.buf.word.len() > 0 {
                Err(Error::InvariantViolation)
            } else {
                let m2 = open_block(m, attrs);
                Ok(
                    WriterModel {
                        kinds: m2.kinds.push(kind),
                        idxs: m2.idxs.push(0),
                        ..m2
                    },
                )
            }
        },
        Container::ListItem => {
            if m.buf.word.len() > 0 || m.kinds.len() == 0 || m.idxs.len() == 0 {
                Err(Error::InvariantViolation)
            } else {
                let kind = m.kinds.last();
                let idx0 = m.idxs.last();
                if idx0 == u64::MAX {
                    Err(Error::NumberingOverflow)
                } else {
                    let idx1 = (idx0 + 1) as u64;
                    match kind {
                        ListKind::Unordered(b) => {
                            let mk = unordered_marker_seq(b);
                            let m2 = put_marker(open_block(m, attrs), mk);
                            Ok(
                                WriterModel {
                                    prefixes: m2.prefixes.push(spaces(mk.len())),
                                    idxs: m2.idxs.drop_last().push(idx1),
                                    ..m2
                                },
                            )
                        },
                        ListKind::Ordered { numbering, style, start } => {
                            match ordered_n(numbering, start, idx1) {
                                Err(e) => Err(e),
                                Ok(n) => {
                                    let mk = ordered_marker_seq(numbering, style, n as nat);
                                    let m2 = put_marker(open_block(m, attrs), mk);
                                    Ok(
                                        WriterModel {
                                            prefixes: m2.prefixes.push(spaces(mk.len())),
                                            idxs: m2.idxs.drop_last().push(idx1),
                                            ..m2
                                        },
                                    )
                                },
                            }
                        },
                        ListKind::Task(_) => Err(Error::InvariantViolation),
                    }
                }
            }
        },
        Container::TaskListItem { checked } => {
            if m.buf.word.len() > 0 || m.kinds.len() == 0 || m.idxs.len() == 0 {
                Err(Error::InvariantViolation)
            } else {
                match m.kinds.last() {
                    ListKind::Task(b) => {
                        let idx0 = m.idxs.last();
                        if idx0 == u64::MAX {
                            Err(Error::NumberingOverflow)
                        } else {
                            let idx1 = (idx0 + 1) as u64;
                            let mk = task_marker_seq(b, checked);
                            let m2 = put_marker(open_block(m, attrs), mk);
                            Ok(
                                WriterModel {
                                    prefixes: m2.prefixes.push(spaces(mk.len())),
                                    idxs: m2.idxs.drop_last().push(idx1),
                                    ..m2
                                },
                            )
                        }
                    },
                    _ => Err(Error::InvariantViolation),
                }
            }
        },
        Container::DescriptionList => {
            if m.buf.word.len() > 0 {
                Err(Error::InvariantViolation)
            } else {
                Ok(open_block(m, attrs))
            }
        },
        Container::DescriptionTerm => {
            if m.buf.word.len() > 0 {
                Err(Error::InvariantViolation)
            } else {
                Ok(put_marker(open_block(m, attrs), (": ")@))
            }
        },
        Container::DescriptionDetails => {
            if m.buf.word.len() > 0 {
                Err(Error::InvariantViolation)
            } else {
                let m2 = open_block(m, attrs);
                Ok(WriterModel { prefixes: m2.prefixes.push(spaces(2)), ..m2 })
            }
        },
        Container::Footnote { label } => {
            if m.buf.word.len() > 0 {
                Err(Error::InvariantViolation)
            } else {
                let mk = footnote_marker(label@);
                let m2 = put_marker(open_block(m, attrs), mk);
                Ok(WriterModel { prefixes: m2.prefixes.push(spaces(mk.len())), ..m2 })
            }
        },
        Container::Table => Err(Error::UnsupportedConstruct),
        Container::TableRow { head } => Err(Error::UnsupportedConstruct),
        Container::TableCell { alignment, head } => Err(Error::UnsupportedConstruct),
        Container::Caption => Err(Error::UnsupportedConstruct),
        Container::Section { id } => Ok(m),
        Container::Div { class } => {
            if m.buf.word.len() > 0 {
                Err(Error::InvariantViolation)
            } else {
                let m2 = put_marker(open_block(m, attrs), div_marker(class@));
                Ok(WriterModel { buf: buf_wrap(m2.buf), ..m2 })
            }
        },
        Container::Paragraph => {
            if m.buf.word.len() > 0 {
                Err(Error::InvariantViolation)
            } else {
                Ok(open_block(m, attrs))
            }
        },
        Container::Heading { level } => {
            if m.buf.word.len() > 0 {
                Err(Error::InvariantViolation)
            } else {
                let mk = heading_marker(level as nat);
                let m2 = put_marker(open_block(m, attrs), mk);
                Ok(WriterModel { prefixes: m2.prefixes.push(mk), ..m2 })
            }
        },
        Container::LinkDefinition { label } => {
            if m.buf.word.len() > 0 {
                Err(Error::InvariantViolation)
            } else {
                Ok(put_marker(open_block(m, attrs), linkdef_marker(label@)))
            }
        },
        Container::RawBlock { format } => {
            if m.buf.word.len() > 0 {
                Err(Error::InvariantViolation)
            } else {
                let m2 = put_marker(open_block(m, attrs), rawblock_marker(format@));
                Ok(WriterModel { buf: buf_wrap(m2.buf), raw: RawMode::Block, ..m2 })
            }
        },
        Container::CodeBlock { language } => {
            if m.buf.word.len() > 0 {
                Err(Error::InvariantViolation)
            } else {
                let m2 = put_marker(open_block(m, attrs), codeblock_marker(language@));
                Ok(WriterModel { buf: buf_wrap(m2.buf), raw: RawMode::Block, ..m2 })
            }
        },
        Container::Span => Ok(open_inline(m, ("[")@, attrs)),
        Container::Link(dest, kind) => {
            match kind {
                LinkKind::Span(SpanLinkKind::Unresolved) => Err(Error::UnsupportedConstruct),
                LinkKind::Span(_) => Ok(open_inline(m, ("[")@, attrs)),
                LinkKind::Auto => Ok(open_inline(m, ("<")@, attrs)),
                LinkKind::Email => Ok(open_inline(m, ("<")@, attrs)),
            }
        },
        Container::Image(dest, kind) => Ok(open_inline(m, ("![")@, attrs)),
        Container::Verbatim => {
            Ok(WriterModel { raw: RawMode::Inline, ..open_inline(m, ("`")@, attrs) })
        },
        Container::Math { display } => {
            let delim = if display {
                ("$$`")@
            } else {
                ("$`")@
            };
            Ok(WriterModel { raw: RawMode::Inline, ..open_inline(m, delim, attrs) })
        },
        Container::RawInline { format } => {
            Ok(WriterModel { raw: RawMode::Inline, ..open_inline(m, ("`")@, attrs) })
        },
        Container::Subscript => Ok(open_inline(m, ("~")@, attrs)),
        Container::Superscript => Ok(open_inline(m, ("^")@, attrs)),
        Container::Insert => Ok(open_inline(m, ("{+")@, attrs)),
        Container::Delete => Ok(open_inline(m, ("{-")@, attrs)),
        Container::Strong => Ok(open_inline(m, ("*")@, attrs)),
        Container::Emphasis => Ok(open_inline(m, ("_")@, attrs)),
        Container::Mark => Ok(open_inline(m, ("{=")@, attrs)),
    }
}


/// Every container start preserves buffer well-formedness: an empty
/// pending line never comes to owe a leading space.
#[verifier::rlimit(100)]
pub proof fn lemma_start_wf(m: WriterModel, c: Container, attrs: Seq<AttrModel>)
    requires
        crate::buffer::buf_wf(m.buf),
    ensures
        spec_start(m, c, attrs) is Ok ==> crate::buffer::buf_wf(
            spec_start(m, c, attrs)->Ok_0.buf,
        ),
{
    let m1 = ensure_blank(m);
    crate::writer::lemma_ensure_blank_wf(m);
    crate::attrs::lemma_block_attrs_wf(m1.buf, concat_seqs(m1.prefixes), attrs);
}

impl Writer {
    /// Settles the owed blank line, renders the block attributes, and
    /// discards any held inline attribute set.
    fn open_block_exec(&mut self, attrs: &Vec<Attr>)
        requires
            old(self)@.buf.word.len() == 0,
        ensures
            final(self)@ == open_block(old(self)@, attrs_view(attrs@)),
            final(self)@.buf.word.len() == 0,
            final(self)@.prefixes == old(self)@.prefixes,
            final(self)@.idxs == old(self)@.idxs,
    {
        self.ensure_blankline();
        let p = self.current_prefix();
        render_block_attrs(&mut self.buf, &p, attrs);
        self.pending = Vec::new();
        proof {
            assert(attrs_view(self.pending@) =~= Seq::<AttrModel>::empty());
            assert(self@ =~~= open_block(old(self)@, attrs_view(attrs@)));
        }
    }

    /// Pushes the delimiter of an inline opening and holds its
    /// attribute set.
    fn open_inline_exec(&mut self, delim: &str, attrs: &Vec<Attr>)
        ensures
            final(self)@ == open_inline(old(self)@, delim@, attrs_view(attrs@)),
    {
        self.buf.push_word(delim);
        self.pending = crate::event::dup_attrs(attrs);
        proof {
            assert(self@ =~~= open_inline(old(self)@, delim@, attrs_view(attrs@)));
        }
    }

    /// Pushes the delimiter of an inline raw opening, holds its
    /// attribute set, and enters inline raw mode.
    fn open_inline_raw(&mut self, delim: &str, attrs: &Vec<Attr>)
        ensures
            final(self)@ == (WriterModel {
                raw: RawMode::Inline,
                ..open_inline(old(self)@, delim@, attrs_view(attrs@))
            }),
    {
        self.open_inline_exec(delim, attrs);
        self.raw = RawMode::Inline;
    }

    /// Opens a block construct that contributes a nesting prefix and no
    /// marker of its own.
    fn start_prefix_block(&mut self, attrs: &Vec<Attr>, pfx: Vec<char>)
        requires
            old(self)@.buf.word.len() == 0,
        ensures
            final(self)@ == ({
                let m2 = open_block(old(self)@, attrs_view(attrs@));
                WriterModel { prefixes: m2.prefixes.push(pfx@), ..m2 }
            }),
    {
        self.open_block_exec(attrs);
        self.prefixes.push(pfx);
        proof {
            assert(self@.prefixes =~= open_block(old(self)@, attrs_view(attrs@)).prefixes.push(
                pfx@,
            ));
            assert(self@ =~~= ({
                let m2 = open_block(old(self)@, attrs_view(attrs@));
                WriterModel { prefixes: m2.prefixes.push(pfx@), ..m2 }
            }));
        }
    }

    /// Opens a list container: its kind and a zeroed item counter join
    /// the parallel stacks.
    fn start_list_exec(&mut self, kind: ListKind, attrs: &Vec<Attr>)
        requires
            old(self)@.buf.word.len() == 0,
        ensures
            final(self)@ == ({
                let m2 = open_block(old(self)@, attrs_view(attrs@));
                WriterModel { kinds: m2.kinds.push(kind), idxs: m2.idxs.push(0), ..m2 }
            }),
    {
        self.open_block_exec(attrs);
        self.kinds.push(kind);
        self.idxs.push(0);
        proof {
            assert(self@ =~~= ({
                let m2 = open_block(old(self)@, attrs_view(attrs@));
                WriterModel { kinds: m2.kinds.push(kind), idxs: m2.idxs.push(0), ..m2 }
            }));
        }
    }

    /// Opens a block construct that begins with a literal marker.
    fn start_marker_block(&mut self, attrs: &Vec<Attr>, mk: Vec<char>)
        requires
            old(self)@.buf.word.len() == 0,
        ensures
            final(self)@ == put_marker(open_block(old(self)@, attrs_view(attrs@)), mk@),
    {
        self.open_block_exec(attrs);
        let p = self.current_prefix();
        self.buf.apply_prefix(&p);
        self.buf.push_literal_chars(mk);
        proof {
            assert(self@ =~~= put_marker(open_block(old(self)@, attrs_view(attrs@)), mk@));
        }
    }

    /// Opens a fenced block: its marker line is flushed on its own and
    /// raw mode optionally begins.
    fn start_fence_block(&mut self, attrs: &Vec<Attr>, mk: Vec<char>, to_raw: bool)
        requires
            old(self)@.buf.word.len() == 0,
        ensures
            final(self)@ == ({
                let m2 = put_marker(open_block(old(self)@, attrs_view(attrs@)), mk@);
                WriterModel {
                    buf: buf_wrap(m2.buf),
                    raw: if to_raw {
                        RawMode::Block
                    } else {
                        m2.raw
                    },
                    ..m2
                }
            }),
    {
        self.start_marker_block(attrs, mk);
        self.buf.wrap_line();
        if to_raw {
            self.raw = RawMode::Block;
        }
        proof {
            assert(self@ =~~= ({
                let m2 = put_marker(open_block(old(self)@, attrs_view(attrs@)), mk@);
                WriterModel {
                    buf: buf_wrap(m2.buf),
                    raw: if to_raw {
                        RawMode::Block
                    } else {
                        m2.raw
                    },
                    ..m2
                }
            }));
        }
    }

    /// Opens a block construct whose marker is followed by an indent of
    /// the marker's width, so continuation lines align under its text.
    fn start_aligned_block(&mut self, attrs: &Vec<Attr>, mk: Vec<char>)
        requires
            old(self)@.buf.word.len() == 0,
        ensures
            final(self)@ == ({
                let m2 = put_marker(open_block(old(self)@, attrs_view(attrs@)), mk@);
                WriterModel { prefixes: m2.prefixes.push(spaces(mk@.len())), ..m2 }
            }),
    {
        let ind = indent_for(&mk);
        self.start_marker_block(attrs, mk);
        self.prefixes.push(ind);
        proof {
            assert(self@.prefixes =~= put_marker(
                open_block(old(self)@, attrs_view(attrs@)),
                mk@,
            ).prefixes.push(spaces(mk@.len())));
            assert(self@ =~~= ({
                let m2 = put_marker(open_block(old(self)@, attrs_view(attrs@)), mk@);
                WriterModel { prefixes: m2.prefixes.push(spaces(mk@.len())), ..m2 }
            }));
        }
    }

    /// Opens a list item: its marker, its alignment indent, and the
    /// incremented item counter.
    fn start_item(&mut self, attrs: &Vec<Attr>, mk: Vec<char>, idx1: u64)
        requires
            old(self)@.buf.word.len() == 0,
            old(self)@.idxs.len() > 0,
        ensures
            final(self)@ == ({
                let m2 = put_marker(open_block(old(self)@, attrs_view(attrs@)), mk@);
                WriterModel {
                    prefixes: m2.prefixes.push(spaces(mk@.len())),
                    idxs: m2.idxs.drop_last().push(idx1),
                    ..m2
                }
            }),
    {
        self.start_aligned_block(attrs, mk);
        let _ = self.idxs.pop();
        self.idxs.push(idx1);
        proof {
            assert(self@.idxs =~= old(self)@.idxs.drop_last().push(idx1));
            assert(self@ =~~= ({
                let m2 = put_marker(open_block(old(self)@, attrs_view(attrs@)), mk@);
                WriterModel {
                    prefixes: m2.prefixes.push(spaces(mk@.len())),
                    idxs: m2.idxs.drop_last().push(idx1),
                    ..m2
                }
            }));
        }
    }

    /// Opens a heading: its `#` marker doubles as the prefix of its
    /// continuation lines.
    fn start_heading_exec(&mut self, attrs: &Vec<Attr>, mk: Vec<char>)
        requires
            old(self)@.buf.word.len() == 0,
        ensures
            final(self)@ == ({
                let m2 = put_marker(open_block(old(self)@, attrs_view(attrs@)), mk@);
                WriterModel { prefixes: m2.prefixes.push(mk@), ..m2 }
            }),
    {
        let pfx = copy_chars(&mk);
        let ghost mkv = mk@;
        self.start_marker_block(attrs, mk);
        self.prefixes.push(pfx);
        proof {
            assert(self@.prefixes =~= put_marker(
                open_block(old(self)@, attrs_view(attrs@)),
                mkv,
            ).prefixes.push(mkv));
            assert(self@ =~~= ({
                let m2 = put_marker(open_block(old(self)@, attrs_view(attrs@)), mkv);
                WriterModel { prefixes: m2.prefixes.push(mkv), ..m2 }
            }));
        }
    }

    /// Handles one container start event.
    #[verifier::rlimit(60)]
    pub fn handle_start(&mut self, c: &Container, attrs: &Vec<Attr>) -> (r: Result<(), Error>)
        ensures
            match spec_start(old(self)@, *c, attrs_view(attrs@)) {
                Ok(m) => r is Ok && final(self)@ == m,
                Err(e) => r == Err::<(), Error>(e),
            },
    {
        match c {
            Container::Blockquote => {
                if self.buf.word.len() > 0 {
                    return Err(Error::InvariantViolation);
                }
                let pfx = crate::text::to_chars("> ");
                self.start_prefix_block(attrs, pfx);
                Ok(())
            },
            Container::List { kind, tight } => {
                if self.buf.word.len() > 0 {
                    return Err(Error::InvariantViolation);
                }
                self.start_list_exec(*kind, attrs);
                Ok(())
            },
            Container::ListItem => {
                if self.buf.word.len() > 0 || self.kinds.len() == 0 || self.idxs.len() == 0 {
                    return Err(Error::InvariantViolation);
                }
                let kind = self.kinds[self.kinds.len() - 1];
                let idx0 = self.idxs[self.idxs.len() - 1];
                if idx0 == u64::MAX {
                    return Err(Error::NumberingOverflow);
                }
                let idx1 = idx0 + 1;
                match kind {
                    ListKind::Unordered(b) => {
                        let mk = unordered_marker_chars(&b);
                        self.start_item(attrs, mk, idx1);
                        Ok(())
                    },
                    ListKind::Ordered { numbering, style, start } => {
                        let roman = matches!(numbering, Numbering::RomanLower) || matches!(
                            numbering,
                            Numbering::RomanUpper,
                        );
                        let n: u64 = if roman {
                            idx1
                        } else {
                            if start > u64::MAX - (idx1 - 1) {
                                return Err(Error::NumberingOverflow);
                            }
                            start + (idx1 - 1)
                        };
                        let alpha = matches!(numbering, Numbering::AlphaLower) || matches!(
                            numbering,
                            Numbering::AlphaUpper,
                        );
                        if alpha && (n < 1 || n > 26) {
                            return Err(Error::NumberingOverflow);
                        }
                        proof {
                            assert(ordered_n(numbering, start, idx1) == Ok::<u64, Error>(n));
                        }
                        let mk = ordered_marker_chars(&numbering, &style, n);
                        self.start_item(attrs, mk, idx1);
                        Ok(())
                    },
                    ListKind::Task(_) => Err(Error::InvariantViolation),
                }
            },
            Container::TaskListItem { checked } => {
                if self.buf.word.len() > 0 || self.kinds.len() == 0 || self.idxs.len() == 0 {
                    return Err(Error::InvariantViolation);
                }
                let kind = self.kinds[self.kinds.len() - 1];
                match kind {
                    ListKind::Task(b) => {
                        let idx0 = self.idxs[self.idxs.len() - 1];
                        if idx0 == u64::MAX {
                            return Err(Error::NumberingOverflow);
                        }
                        let idx1 = idx0 + 1;
                        let mk = task_marker_chars(&b, *checked);
                        self.start_item(attrs, mk, idx1);
                        Ok(())
                    },
                    _ => Err(Error::InvariantViolation),
                }
            },
            Container::DescriptionList => {
                if self.buf.word.len() > 0 {
                    return Err(Error::InvariantViolation);
                }
                self.open_block_exec(attrs);
                Ok(())
            },
            Container::DescriptionTerm => {
                if self.buf.word.len() > 0 {
                    return Err(Error::InvariantViolation);
                }
                let mk = crate::text::to_chars(": ");
                self.start_marker_block(attrs, mk);
                Ok(())
            },
            Container::DescriptionDetails => {
                if self.buf.word.len() > 0 {
                    return Err(Error::InvariantViolation);
                }
                let mut ind: Vec<char> = Vec::new();
                ind.push(' ');
                ind.push(' ');
                proof {
                    assert(ind@ =~= spaces(2));
                }
                self.start_prefix_block(attrs, ind);
                Ok(())
            },
            Container::Footnote { label } => {
                if self.buf.word.len() > 0 {
                    return Err(Error::InvariantViolation);
                }
                let mut mk: Vec<char> = crate::text::to_chars("[^");
                let mut lbl = crate::text::to_chars(label.as_str());
                let mut close = crate::text::to_chars("]: ");
                mk.append(&mut lbl);
                mk.append(&mut close);
                proof {
                    assert(mk@ =~= footnote_marker(label@));
                }
                self.start_aligned_block(attrs, mk);
                Ok(())
            },
            Container::Table => Err(Error::UnsupportedConstruct),
            Container::TableRow { head } => Err(Error::UnsupportedConstruct),
            Container::TableCell { alignment, head } => Err(Error::UnsupportedConstruct),
            Container::Caption => Err(Error::UnsupportedConstruct),
            Container::Section { id } => Ok(()),
            Container::Div { class } => {
                if self.buf.word.len() > 0 {
                    return Err(Error::InvariantViolation);
                }
                let mut mk: Vec<char> = crate::text::to_chars("::: ");
                let mut cls = crate::text::to_chars(class.as_str());
                mk.append(&mut cls);
                proof {
                    assert(mk@ =~= div_marker(class@));
                }
                self.start_fence_block(attrs, mk, false);
                Ok(())
            },
            Container::Paragraph => {
                if self.buf.word.len() > 0 {
                    return Err(Error::InvariantViolation);
                }
                self.open_block_exec(attrs);
                Ok(())
            },
            Container::Heading { level } => {
                if self.buf.word.len() > 0 {
                    return Err(Error::InvariantViolation);
                }
                let mut mk: Vec<char> = Vec::new();
                let mut i: u16 = 0;
                while i < *level
                    invariant
                        i <= *level,
                        mk@ =~= Seq::new(i as nat, |j: int| '#'),
                    decreases *level - i,
                {
                    mk.push('#');
                    proof {
                        assert(mk@ =~= Seq::new((i + 1) as nat, |j: int| '#'));
                    }
                    i = i + 1;
                }
                mk.push(' ');
                proof {
                    assert(mk@ =~= heading_marker(*level as nat));
                }
                self.start_heading_exec(attrs, mk);
                Ok(())
            },
            Container::LinkDefinition { label } => {
                if self.buf.word.len() > 0 {
                    return Err(Error::InvariantViolation);
                }
                let mut mk: Vec<char> = crate::text::to_chars("[");
                let mut lbl = crate::text::to_chars(label.as_str());
                let mut close = crate::text::to_chars("]: ");
                mk.append(&mut lbl);
                mk.append(&mut close);
                proof {
                    assert(mk@ =~= linkdef_marker(label@));
                }
                self.start_marker_block(attrs, mk);
                Ok(())
            },
            Container::RawBlock { format } => {
                if self.buf.word.len() > 0 {
                    return Err(Error::InvariantViolation);
                }
                let mut mk: Vec<char> = crate::text::to_chars("``` =");
                let mut f = crate::text::to_chars(format.as_str());
                mk.append(&mut f);
                proof {
                    assert(mk@ =~= rawblock_marker(format@));
                }
                self.start_fence_block(attrs, mk, true);
                Ok(())
            },
            Container::CodeBlock { language } => {
                if self.buf.word.len() > 0 {
                    return Err(Error::InvariantViolation);
                }
                let mut mk: Vec<char> = crate::text::to_chars("``` ");
                let mut lang = crate::text::to_chars(language.as_str());
                mk.append(&mut lang);
                proof {
                    assert(mk@ =~= codeblock_marker(language@));
                }
                self.start_fence_block(attrs, mk, true);
                Ok(())
            },
            Container::Span => {
                self.open_inline_exec("[", attrs);
                Ok(())
            },
            Container::Link(dest, kind) => {
                match kind {
                    LinkKind::Span(SpanLinkKind::Unresolved) => Err(Error::UnsupportedConstruct),
                    LinkKind::Span(_) => {
                        self.open_inline_exec("[", attrs);
                        Ok(())
                    },
                    LinkKind::Auto => {
                        self.open_inline_exec("<", attrs);
                        Ok(())
                    },
                    LinkKind::Email => {
                        self.open_inline_exec("<", attrs);
                        Ok(())
                    },
                }
            },
            Container::Image(dest, kind) => {
                self.open_inline_exec("![", attrs);
                Ok(())
            },
            Container::Verbatim => {
                self.open_inline_raw("`", attrs);
                Ok(())
            },
            Container::Math { display } => {
                let delim: &str = if *display {
                    "$$`"
                } else {
                    "$`"
                };
                self.open_inline_raw(delim, attrs);
                proof {
                    assert(delim@ == (if *display {
                        ("$$`")@
                    } else {
                        ("$`")@
                    }));
                }
                Ok(())
            },
            Container::RawInline { format } => {
                self.open_inline_raw("`", attrs);
                Ok(())
            },
            Container::Subscript => {
                self.open_inline_exec("~", attrs);
                Ok(())
            },
            Container::Superscript => {
                self.open_inline_exec("^", attrs);
                Ok(())
            },
            Container::Insert => {
                self.open_inline_exec("{+", attrs);
                Ok(())
            },
            Container::Delete => {
                self.open_inline_exec("{-", attrs);
                Ok(())
            },
            Container::Strong => {
                self.open_inline_exec("*", attrs);
                Ok(())
            },
            Container::Emphasis => {
                self.open_inline_exec("_", attrs);
                Ok(())
            },
            Container::Mark => {
                self.open_inline_exec("{=", attrs);
                Ok(())
            },
        }
    }
}

} // verus!
