//! The render state: everything the event dispatcher mutates.
//!
//! One `Writer` is created per formatting run, lives for the single
//! forward pass over the event stream, and is discarded when the stream
//! is exhausted.  It owns the line/word buffer, the prefix stack, the
//! parallel list-kind and index-counter stacks, the raw-mode flag, the
//! blank-line-owed flag, and the attribute set held for the most
//! recently opened inline container.

use vstd::prelude::*;
use crate::buffer::{buf_apply_prefix, buf_wrap, deep_chars_view, Buf, BufModel};
use crate::event::{Attr, AttrModel, ListKind, attrs_view};
use crate::text::trim_end_spec;

verus! {

/// Which rendering path text events take.
#[derive(Clone, Copy, Debug, PartialEq, Eq, Structural)]
pub enum RawMode {
    /// Prose: whitespace collapses and words wrap.
    Prose,
    /// Block raw content (code and raw blocks): literal passthrough,
    /// embedded newlines force a line flush.
    Block,
    /// Inline raw content (verbatim, math, raw inline): characters
    /// accumulate into one atomic token.
    Inline,
}

/// Mathematical model of the render state.
#[verifier::ext_equal]
pub struct WriterModel {
    pub buf: BufModel,
    pub raw: RawMode,
    /// The indentation strings of the open containers, outermost
    /// first; their concatenation opens every physical line.
    pub prefixes: Seq<Seq<char>>,
    /// The kinds of the open lists, outermost first.
    pub kinds: Seq<ListKind>,
    /// The running item counter of each open list; always as deep as
    /// `kinds`.
    pub idxs: Seq<u64>,
    /// Whether a blank line is owed before the next block construct.
    pub blank_owed: bool,
    /// The attribute set of the most recently opened inline container,
    /// held until that container's end event.
    pub pending: Seq<AttrModel>,
}

/// The render state.
pub struct Writer {
    pub buf: Buf,
    pub raw: RawMode,
    pub prefixes: Vec<Vec<char>>,
    pub kinds: Vec<ListKind>,
    pub idxs: Vec<u64>,
    pub blank_owed: bool,
    pub pending: Vec<Attr>,
}

impl View for Writer {
    type V = WriterModel;

    open spec fn view(&self) -> WriterModel {
        WriterModel {
            buf: self.buf@,
            raw: self.raw,
            prefixes: deep_chars_view(self.prefixes@),
            kinds: self.kinds@,
            idxs: self.idxs@,
            blank_owed: self.blank_owed,
            pending: attrs_view(self.pending@),
        }
    }
}

/// The concatenation of a stack of prefix strings.
pub open spec fn concat_seqs(ps: Seq<Seq<char>>) -> Seq<char>
    decreases ps.len(),
{
    if ps.len() == 0 {
        Seq::empty()
    } else {
        concat_seqs(ps.drop_last()) + ps.last()
    }
}

/// The initial render state for a formatting run.
pub open spec fn init_model(max_cols: nat) -> WriterModel {
    WriterModel {
        buf: BufModel {
            lines: Seq::empty(),
            line: Seq::empty(),
            word: Seq::empty(),
            space_owed: false,
            max_cols,
        },
        raw: RawMode::Prose,
        prefixes: Seq::empty(),
        kinds: Seq::empty(),
        idxs: Seq::empty(),
        blank_owed: false,
        pending: Seq::empty(),
    }
}

/// If a blank line is owed, an empty prefixed line is flushed and the
/// debt cleared; otherwise nothing changes.  Invoked before every
/// block construct, this guarantees exactly one blank line between
/// consecutive blocks.
pub open spec fn ensure_blank(m: WriterModel) -> WriterModel {
    if m.blank_owed {
        WriterModel {
            buf: buf_wrap(buf_apply_prefix(m.buf, concat_seqs(m.prefixes))),
            blank_owed: false,
            ..m
        }
    } else {
        m
    }
}

/// Law of block separation: asking twice for the owed blank line emits
/// it exactly once.  The first call flushes one (empty, prefixed) line
/// exactly when the debt flag is set and clears it; a second call
/// changes nothing, so two consecutive block constructs are separated
/// by exactly one blank line, never more.
pub proof fn lemma_blankline_once(m: WriterModel)
    ensures
        ensure_blank(ensure_blank(m)) == ensure_blank(m),
        !ensure_blank(m).blank_owed,
        m.blank_owed ==> ensure_blank(m).buf.lines == m.buf.lines.push(
            trim_end_spec(buf_apply_prefix(m.buf, concat_seqs(m.prefixes)).line),
        ),
        !m.blank_owed ==> ensure_blank(m).buf.lines == m.buf.lines,
{
}

/// Settling the blank-line debt preserves buffer well-formedness.
pub proof fn lemma_ensure_blank_wf(m: WriterModel)
    requires
        crate::buffer::buf_wf(m.buf),
    ensures
        crate::buffer::buf_wf(ensure_blank(m).buf),
{
}

impl Writer {
    /// Creates the render state for a formatting run at the given wrap
    /// width.
    pub fn new(max_cols: usize) -> (r: Writer)
        ensures
            r@ == init_model(max_cols as nat),
    {
        let r = Writer {
            buf: Buf::new(max_cols),
            raw: RawMode::Prose,
            prefixes: Vec::new(),
            kinds: Vec::new(),
            idxs: Vec::new(),
            blank_owed: false,
            pending: Vec::new(),
        };
        proof {
            assert(deep_chars_view(r.prefixes@) =~= Seq::<Seq<char>>::empty());
            assert(attrs_view(r.pending@) =~= Seq::<AttrModel>::empty());
            assert(r@ =~~= init_model(max_cols as nat));
        }
        r
    }

    /// Concatenates the current prefix stack: the left margin applied
    /// to every fresh physical line.
    pub fn current_prefix(&self) -> (v: Vec<char>)
        ensures
            v@ == concat_seqs(self@.prefixes),
    {
        let mut v: Vec<char> = Vec::new();
        let mut i: usize = 0;
        proof {
            assert(deep_chars_view(self.prefixes@).take(0int) =~= Seq::<Seq<char>>::empty());
        }
        while i < self.prefixes.len()
            invariant
                i <= self.prefixes.len(),
                v@ == concat_seqs(deep_chars_view(self.prefixes@).take(i as int)),
            decreases self.prefixes.len() - i,
        {
            let p = &self.prefixes[i];
            let mut j: usize = 0;
            let ghost v0 = v@;
            while j < p.len()
                invariant
                    j <= p.len(),
                    v@ =~= v0 + p@.take(j as int),
                decreases p.len() - j,
            {
                v.push(p[j]);
                j = j + 1;
            }
            proof {
                let dv = deep_chars_view(self.prefixes@);
                assert(v@ =~= v0 + p@);
                assert(dv.take(i as int + 1).drop_last() =~= dv.take(i as int));
                assert(dv.take(i as int + 1).last() == p@);
            }
            i = i + 1;
        }
        proof {
            let dv = deep_chars_view(self.prefixes@);
            assert(dv.take(self.prefixes@.len() as int) =~= dv);
        }
        v
    }

    /// Emits the owed blank line, if one is owed.
    pub fn ensure_blankline(&mut self)
        ensures
            final(self)@ == ensure_blank(old(self)@),
    {
        if self.blank_owed {
            let p = self.current_prefix();
            self.buf.apply_prefix(&p);
            self.buf.wrap_line();
            self.blank_owed = false;
            proof {
                assert(self@ =~~= ensure_blank(old(self)@));
            }
        }
    }
}

} // verus!
