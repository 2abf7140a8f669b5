//! Container end events: block closings and inline closing delimiters.
//!
//! Every block-level end flushes what its container accumulated, pops
//! whatever prefix or list state the matching start pushed, and sets
//! the blank-line-owed flag that separates the block from its
//! successor.  Inline ends push their closing delimiter onto the
//! pending word and render the attribute set held since the matching
//! start as a trailing `{...}` group.

use vstd::prelude::*;
use crate::attrs::{inline_group, render_inline_attrs};
use crate::buffer::{buf_apply_prefix, buf_commit, buf_push_literal, buf_push_word, buf_wrap};
use crate::event::{Container, Error, LinkKind, SpanLinkKind};
use crate::text::to_chars;
use crate::writer::{concat_seqs, RawMode, Writer, WriterModel};

verus! {

/// Closing a text-carrying block: the pending word (if any) commits
/// without a trailing space, the line flushes, and a blank line is
/// owed before the next block.
pub open spec fn close_text_block(m: WriterModel) -> WriterModel {
    let p = concat_seqs(m.prefixes);
    let b1 = if m.buf.word.len() > 0 {
        buf_commit(m.buf, p, false)
    } else {
        m.buf
    };
    WriterModel { buf: buf_wrap(b1), blank_owed: true, ..m }
}

/// Closing a fenced block: any unterminated raw line flushes, the
/// closing fence stands on its own prefixed line, raw mode ends, and a
/// blank line is owed.
pub open spec fn close_fence(m: WriterModel, mk: Seq<char>) -> WriterModel {
    let p = concat_seqs(m.prefixes);
    let b0 = if m.buf.line.len() > 0 {
        buf_wrap(m.buf)
    } else {
        m.buf
    };
    let b1 = buf_wrap(buf_push_literal(buf_apply_prefix(b0, p), mk));
    WriterModel { buf: b1, raw: RawMode::Prose, blank_owed: true, ..m }
}

/// Closing an inline container: the closing delimiter joins the
/// pending word, and the attribute set held since the matching start
/// renders as a trailing group glued to it.
pub open spec fn close_inline(m: WriterModel, delim: Seq<char>) -> WriterModel {
    let b1 = buf_push_word(m.buf, delim);
    let b2 = if m.pending.len() > 0 {
        inline_group(b1, concat_seqs(m.prefixes), m.pending)
    } else {
        b1
    };
    WriterModel { buf: b2, pending: Seq::empty(), ..m }
}

/// The effect of a container end event on the render state, or the
/// error aborting the run.
pub open spec fn spec_end(m: WriterModel, c: Container) -> Result<WriterModel, Error> {
    match c {
        Container::Blockquote => {
            if m.prefixes.len() == 0 {
                Err(Error::InvariantViolation)
            } else {
                Ok(WriterModel { prefixes: m.prefixes.drop_last(), blank_owed: true, ..m })
            }
        },
        Container::List { kind, tight } => {
            if m.kinds.len() == 0 || m.idxs.len() == 0 {
                Err(Error::InvariantViolation)
            } else {
                Ok(
                    WriterModel {
                        kinds: m.kinds.drop_last(),
                        idxs: m.idxs.drop_last(),
                        blank_owed: true,
                        ..m
                    },
                )
            }
        },
        Container::ListItem => {
            if m.prefixes.len() == 0 {
                Err(Error::InvariantViolation)
            } else {
                Ok(WriterModel { prefixes: m.prefixes.drop_last(), blank_owed: true, ..m })
            }
        },
        Container::TaskListItem { checked } => {
            if m.prefixes.len() == 0 {
                Err(Error::InvariantViolation)
            } else {
                Ok(WriterModel { prefixes: m.prefixes.drop_last(), blank_owed: true, ..m })
            }
        },
        Container::DescriptionList => Ok(WriterModel { blank_owed: true, ..m }),
        Container::DescriptionTerm => Ok(close_text_block(m)),
        Container::DescriptionDetails => {
            if m.prefixes.len() == 0 {
                Err(Error::InvariantViolation)
            } else {
                Ok(WriterModel { prefixes: m.prefixes.drop_last(), blank_owed: true, ..m })
            }
        },
        Container::Footnote { label } => {
            if m.prefixes.len() == 0 {
                Err(Error::InvariantViolation)
            } else {
                Ok(WriterModel { prefixes: m.prefixes.drop_last(), blank_owed: true, ..m })
            }
        },
        Container::Table => Err(Error::UnsupportedConstruct),
        Container::TableRow { head } => Err(Error::UnsupportedConstruct),
        Container::TableCell { alignment, head } => Err(Error::UnsupportedConstruct),
        Container::Caption => Err(Error::UnsupportedConstruct),
        Container::Section { id } => Ok(m),
        Container::Div { class } => {
            if m.buf.word.len() > 0 {
                Err(Error::InvariantViolation)
            } else {
                Ok(close_fence(m, (":::")@))
            }
        },
        Container::Paragraph => Ok(close_text_block(m)),
        Container::Heading { level } => {
            let m1 = close_text_block(m);
            if m1.prefixes.len() == 0 {
                Err(Error::InvariantViolation)
            } else {
                Ok(WriterModel { prefixes: m1.prefixes.drop_last(), ..m1 })
            }
        },
        Container::LinkDefinition { label } => Ok(close_text_block(m)),
        Container::RawBlock { format } => {
            if m.buf.word.len() > 0 {
                Err(Error::InvariantViolation)
            } else {
                Ok(close_fence(m, ("```")@))
            }
        },
        Container::CodeBlock { language } => {
            if m.buf.word.len() > 0 {
                Err(Error::InvariantViolation)
            } else {
                Ok(close_fence(m, ("```")@))
            }
        },
        Container::Span => Ok(close_inline(m, ("]")@)),
        Container::Link(dest, kind) => {
            match kind {
                LinkKind::Span(SpanLinkKind::Inline) => Ok(
                    close_inline(m, ("](")@ + dest@ + (")")@),
                ),
                LinkKind::Span(SpanLinkKind::Reference) => Ok(close_inline(m, ("][]")@)),
                LinkKind::Span(SpanLinkKind::Unresolved) => Err(Error::UnsupportedConstruct),
                LinkKind::Auto => Ok(close_inline(m, (">")@)),
                LinkKind::Email => Ok(close_inline(m, (">")@)),
            }
        },
        Container::Image(dest, kind) => Ok(close_inline(m, ("](")@ + dest@ + (")")@)),
        Container::Verbatim => Ok(
            WriterModel { raw: RawMode::Prose, ..close_inline(m, ("`")@) },
        ),
        Container::Math { display } => Ok(
            WriterModel { raw: RawMode::Prose, ..close_inline(m, ("`")@) },
        ),
        Container::RawInline { format } => Ok(
            WriterModel { raw: RawMode::Prose, ..close_inline(m, ("`{=")@ + format@ + ("}")@) },
        ),
        Container::Subscript => Ok(close_inline(m, ("~")@)),
        Container::Superscript => Ok(close_inline(m, ("^")@)),
        Container::Insert => Ok(close_inline(m, ("+}")@)),
        Container::Delete => Ok(close_inline(m, ("-}")@)),
        Container::Strong => Ok(close_inline(m, ("*")@)),
        Container::Emphasis => Ok(close_inline(m, ("_")@)),
        Container::Mark => Ok(close_inline(m, ("=}")@)),
    }
}

/// Closing an inline container preserves buffer well-formedness.
pub proof fn lemma_close_inline_wf(m: WriterModel, delim: Seq<char>)
    requires
        crate::buffer::buf_wf(m.buf),
    ensures
        crate::buffer::buf_wf(close_inline(m, delim).buf),
{
    crate::attrs::lemma_inline_group_wf(
        buf_push_word(m.buf, delim),
        concat_seqs(m.prefixes),
        m.pending,
    );
}

/// Every container end preserves buffer well-formedness: an empty
/// pending line never comes to owe a leading space.
#[verifier::rlimit(100)]
pub proof fn lemma_end_wf(m: WriterModel, c: Container)
    requires
        crate::buffer::buf_wf(m.buf),
    ensures
        spec_end(m, c) is Ok ==> crate::buffer::buf_wf(spec_end(m, c)->Ok_0.buf),
{
    if m.buf.word.len() > 0 {
        crate::buffer::lemma_commit_wf(m.buf, concat_seqs(m.prefixes), false);
    }
    match c {
        Container::Span => lemma_close_inline_wf(m, ("]")@),
        Container::Link(dest, kind) => {
            lemma_close_inline_wf(m, ("](")@ + dest@ + (")")@);
            lemma_close_inline_wf(m, ("][]")@);
            lemma_close_inline_wf(m, (">")@);
        },
        Container::Image(dest, kind) => lemma_close_inline_wf(m, ("](")@ + dest@ + (")")@),
        Container::Verbatim => lemma_close_inline_wf(m, ("`")@),
        Container::Math { display } => lemma_close_inline_wf(m, ("`")@),
        Container::RawInline { format } => lemma_close_inline_wf(
            m,
            ("`{=")@ + format@ + ("}")@,
        ),
        Container::Subscript => lemma_close_inline_wf(m, ("~")@),
        Container::Superscript => lemma_close_inline_wf(m, ("^")@),
        Container::Insert => lemma_close_inline_wf(m, ("+}")@),
        Container::Delete => lemma_close_inline_wf(m, ("-}")@),
        Container::Strong => lemma_close_inline_wf(m, ("*")@),
        Container::Emphasis => lemma_close_inline_wf(m, ("_")@),
        Container::Mark => lemma_close_inline_wf(m, ("=}")@),
        _ => {},
    }
}

impl Writer {
    /// Commits the pending word, flushes the line, and owes a blank
    /// line.
    fn close_text_block_exec(&mut self)
        ensures
            final(self)@ == close_text_block(old(self)@),
    {
        let p = self.current_prefix();
        if self.buf.word.len() > 0 {
            self.buf.commit_word(&p, false);
        }
        self.buf.wrap_line();
        self.blank_owed = true;
        proof {
            assert(self@ =~~= close_text_block(old(self)@));
        }
    }

    /// Pops the innermost prefix and owes a blank line.
    fn pop_prefix_owe(&mut self)
        requires
            old(self)@.prefixes.len() > 0,
        ensures
            final(self)@ == (WriterModel {
                prefixes: old(self)@.prefixes.drop_last(),
                blank_owed: true,
                ..old(self)@
            }),
    {
        let _ = self.prefixes.pop();
        self.blank_owed = true;
        proof {
            assert(self@.prefixes =~= old(self)@.prefixes.drop_last());
            assert(self@ =~~= (WriterModel {
                prefixes: old(self)@.prefixes.drop_last(),
                blank_owed: true,
                ..old(self)@
            }));
        }
    }

    /// Emits the closing fence on its own line and leaves raw mode.
    fn close_fence_exec(&mut self, mk: &str)
        requires
            old(self)@.buf.word.len() == 0,
        ensures
            final(self)@ == close_fence(old(self)@, mk@),
    {
        if self.buf.line.len() > 0 {
            self.buf.wrap_line();
        }
        let p = self.current_prefix();
        self.buf.apply_prefix(&p);
        self.buf.push_literal(mk);
        self.buf.wrap_line();
        self.raw = RawMode::Prose;
        self.blank_owed = true;
        proof {
            assert(self@ =~~= close_fence(old(self)@, mk@));
        }
    }

    /// Pushes the closing delimiter and renders the held attribute set
    /// as a trailing group.
    fn close_inline_exec(&mut self, delim: Vec<char>)
        ensures
            final(self)@ == close_inline(old(self)@, delim@),
    {
        self.buf.push_word_chars(delim);
        if self.pending.len() > 0 {
            let p = self.current_prefix();
            render_inline_attrs(&mut self.buf, &p, &self.pending);
        }
        self.pending = Vec::new();
        proof {
            assert(crate::event::attrs_view(self.pending@) =~= Seq::<
                crate::event::AttrModel,
            >::empty());
            assert(self@ =~~= close_inline(old(self)@, delim@));
        }
    }

    /// Handles one container end event.
    #[verifier::rlimit(60)]
    pub fn handle_end(&mut self, c: &Container) -> (r: Result<(), Error>)
        ensures
            match spec_end(old(self)@, *c) {
                Ok(m) => r is Ok && final(self)@ == m,
                Err(e) => r == Err::<(), Error>(e),
            },
    {
        match c {
            Container::Blockquote => {
                if self.prefixes.len() == 0 {
                    return Err(Error::InvariantViolation);
                }
                self.pop_prefix_owe();
                Ok(())
            },
            Container::List { kind, tight } => {
                if self.kinds.len() == 0 || self.idxs.len() == 0 {
                    return Err(Error::InvariantViolation);
                }
                let _ = self.kinds.pop();
                let _ = self.idxs.pop();
                self.blank_owed = true;
                proof {
                    assert(self@.kinds =~= old(self)@.kinds.drop_last());
                    assert(self@.idxs =~= old(self)@.idxs.drop_last());
                    assert(self@ =~~= spec_end(old(self)@, *c)->Ok_0);
                }
                Ok(())
            },
            Container::ListItem => {
                if self.prefixes.len() == 0 {
                    return Err(Error::InvariantViolation);
                }
                self.pop_prefix_owe();
                Ok(())
            },
            Container::TaskListItem { checked } => {
                if self.prefixes.len() == 0 {
                    return Err(Error::InvariantViolation);
                }
                self.pop_prefix_owe();
                Ok(())
            },
            Container::DescriptionList => {
                self.blank_owed = true;
                proof {
                    assert(self@ =~~= spec_end(old(self)@, *c)->Ok_0);
                }
                Ok(())
            },
            Container::DescriptionTerm => {
                self.close_text_block_exec();
                Ok(())
            },
            Container::DescriptionDetails => {
                if self.prefixes.len() == 0 {
                    return Err(Error::InvariantViolation);
                }
                self.pop_prefix_owe();
                Ok(())
            },
            Container::Footnote { label } => {
                if self.prefixes.len() == 0 {
                    return Err(Error::InvariantViolation);
                }
                self.pop_prefix_owe();
                Ok(())
            },
            Container::Table => Err(Error::UnsupportedConstruct),
            Container::TableRow { head } => Err(Error::UnsupportedConstruct),
            Container::TableCell { alignment, head } => Err(Error::UnsupportedConstruct),
            Container::Caption => Err(Error::UnsupportedConstruct),
            Container::Section { id } => Ok(()),
            Container::Div { class } => {
                if self.buf.word.len() > 0 {
                    return Err(Error::InvariantViolation);
                }
                self.close_fence_exec(":::");
                Ok(())
            },
            Container::Paragraph => {
                self.close_text_block_exec();
                Ok(())
            },
            Container::Heading { level } => {
                self.close_text_block_exec();
                if self.prefixes.len() == 0 {
                    return Err(Error::InvariantViolation);
                }
                let _ = self.prefixes.pop();
                proof {
                    assert(self@.prefixes =~= close_text_block(old(self)@).prefixes.drop_last());
                    assert(self@ =~~= spec_end(old(self)@, *c)->Ok_0);
                }
                Ok(())
            },
            Container::LinkDefinition { label } => {
                self.close_text_block_exec();
                Ok(())
            },
            Container::RawBlock { format } => {
                if self.buf.word.len() > 0 {
                    return Err(Error::InvariantViolation);
                }
                self.close_fence_exec("```");
                Ok(())
            },
            Container::CodeBlock { language } => {
                if self.buf.word.len() > 0 {
                    return Err(Error::InvariantViolation);
                }
                self.close_fence_exec("```");
                Ok(())
            },
            Container::Span => {
                self.close_inline_exec(to_chars("]"));
                Ok(())
            },
            Container::Link(dest, kind) => {
                match kind {
                    LinkKind::Span(SpanLinkKind::Inline) => {
                        let mut d: Vec<char> = to_chars("](");
                        let mut dc = to_chars(dest.as_str());
                        let mut close = to_chars(")");
                        d.append(&mut dc);
                        d.append(&mut close);
                        proof {
                            assert(d@ =~= ("](")@ + dest@ + (")")@);
                        }
                        self.close_inline_exec(d);
                        Ok(())
                    },
                    LinkKind::Span(SpanLinkKind::Reference) => {
                        self.close_inline_exec(to_chars("][]"));
                        Ok(())
                    },
                    LinkKind::Span(SpanLinkKind::Unresolved) => Err(Error::UnsupportedConstruct),
                    LinkKind::Auto => {
                        self.close_inline_exec(to_chars(">"));
                        Ok(())
                    },
                    LinkKind::Email => {
                        self.close_inline_exec(to_chars(">"));
                        Ok(())
                    },
                }
            },
            Container::Image(dest, kind) => {
                let mut d: Vec<char> = to_chars("](");
                let mut dc = to_chars(dest.as_str());
                let mut close = to_chars(")");
                d.append(&mut dc);
                d.append(&mut close);
                proof {
                    assert(d@ =~= ("](")@ + dest@ + (")")@);
                }
                self.close_inline_exec(d);
                Ok(())
            },
            Container::Verbatim => {
                self.close_inline_exec(to_chars("`"));
                self.raw = RawMode::Prose;
                proof {
                    assert(self@ =~~= spec_end(old(self)@, *c)->Ok_0);
                }
                Ok(())
            },
            Container::Math { display } => {
                self.close_inline_exec(to_chars("`"));
                self.raw = RawMode::Prose;
                proof {
                    assert(self@ =~~= spec_end(old(self)@, *c)->Ok_0);
                }
                Ok(())
            },
            Container::RawInline { format } => {
                let mut d: Vec<char> = to_chars("`{=");
                let mut f = to_chars(format.as_str());
                let mut close = to_chars("}");
                d.append(&mut f);
                d.append(&mut close);
                proof {
                    assert(d@ =~= ("`{=")@ + format@ + ("}")@);
                }
                self.close_inline_exec(d);
                self.raw = RawMode::Prose;
                proof {
                    assert(self@ =~~= spec_end(old(self)@, *c)->Ok_0);
                }
                Ok(())
            },
            Container::Subscript => {
                self.close_inline_exec(to_chars("~"));
                Ok(())
            },
            Container::Superscript => {
                self.close_inline_exec(to_chars("^"));
                Ok(())
            },
            Container::Insert => {
                self.close_inline_exec(to_chars("+}"));
                Ok(())
            },
            Container::Delete => {
                self.close_inline_exec(to_chars("-}"));
                Ok(())
            },
            Container::Strong => {
                self.close_inline_exec(to_chars("*"));
                Ok(())
            },
            Container::Emphasis => {
                self.close_inline_exec(to_chars("_"));
                Ok(())
            },
            Container::Mark => {
                self.close_inline_exec(to_chars("=}"));
                Ok(())
            },
        }
    }
}

} // verus!
