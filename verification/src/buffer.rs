//! The line/word buffer: the lowest level of mutable formatting state.
//!
//! The buffer holds the completed output lines, an in-progress line, and
//! an in-progress pending word.  Line breaks are deferred to word
//! boundaries (never mid-word) and space insertion is deferred to the
//! next commit (rather than emitting trailing spaces), so output stays
//! free of trailing whitespace and the wrap threshold check looks ahead
//! exactly one token.

use vstd::prelude::*;
use crate::text::{cols_of, lemma_text_cols_bound, text_cols, to_chars, trim_end_in_place,
    trim_end_spec};

verus! {

/// Mathematical model of the buffer state.
#[verifier::ext_equal]
pub struct BufModel {
    /// Completed output lines, without their terminators.
    pub lines: Seq<Seq<char>>,
    /// The in-progress line.
    pub line: Seq<char>,
    /// The in-progress pending word.
    pub word: Seq<char>,
    /// Whether the next committed word owes a leading space.
    pub space_owed: bool,
    /// The configured maximum display width of a line.
    pub max_cols: nat,
}

/// The views of a sequence of character vectors.
pub open spec fn deep_chars_view(s: Seq<Vec<char>>) -> Seq<Seq<char>> {
    Seq::new(s.len(), |i: int| s[i]@)
}

/// The line/word buffer.
pub struct Buf {
    pub lines: Vec<Vec<char>>,
    pub line: Vec<char>,
    pub word: Vec<char>,
    pub space_owed: bool,
    pub max_cols: usize,
}

impl View for Buf {
    type V = BufModel;

    open spec fn view(&self) -> BufModel {
        BufModel {
            lines: deep_chars_view(self.lines@),
            line: self.line@,
            word: self.word@,
            space_owed: self.space_owed,
            max_cols: self.max_cols as nat,
        }
    }
}

/// Appending literal text to the pending word; no wrap decision.
pub open spec fn buf_push_word(m: BufModel, t: Seq<char>) -> BufModel {
    BufModel { word: m.word + t, ..m }
}

/// Appending raw text directly to the pending line; used only for
/// structural tokens not subject to word-wrap.
pub open spec fn buf_push_literal(m: BufModel, t: Seq<char>) -> BufModel {
    BufModel { line: m.line + t, ..m }
}

/// Writing the full prefix concatenation into an empty pending line;
/// a no-op on a non-empty line, so the prefix applies once per
/// physical line, not once per commit.
pub open spec fn buf_apply_prefix(m: BufModel, prefix: Seq<char>) -> BufModel {
    if m.line.len() == 0 {
        BufModel { line: prefix, ..m }
    } else {
        m
    }
}

/// Flushing the pending line: trailing whitespace is trimmed, the line
/// is appended to the completed output, and the pending line empties.
pub open spec fn buf_wrap(m: BufModel) -> BufModel {
    BufModel {
        lines: m.lines.push(trim_end_spec(m.line)),
        line: Seq::<char>::empty(),
        space_owed: false,
        ..m
    }
}

/// The display width the pending line would reach if the pending word
/// were appended, plus one column if a leading space is owed.
pub open spec fn buf_needed_cols(m: BufModel) -> nat {
    text_cols(m.line) + (if m.space_owed {
        1 as nat
    } else {
        0 as nat
    }) + text_cols(m.word)
}

/// Committing the pending word: if the projected width exceeds the
/// maximum and the pending line is non-empty, the line is flushed
/// first; otherwise an owed leading space is appended.  The prefix is
/// applied if the line is empty, the pending word is appended and
/// cleared, and whether the next word owes a leading space is
/// recorded.
pub open spec fn buf_commit(m: BufModel, prefix: Seq<char>, space_after: bool) -> BufModel {
    let flush = buf_needed_cols(m) > m.max_cols && m.line.len() > 0;
    let m1 = if flush {
        buf_wrap(m)
    } else {
        if m.space_owed {
            BufModel { line: m.line + seq![' '], ..m }
        } else {
            m
        }
    };
    let m2 = if m1.line.len() == 0 {
        BufModel { line: prefix, ..m1 }
    } else {
        m1
    };
    BufModel { line: m2.line + m.word, word: Seq::<char>::empty(), space_owed: space_after, ..m2 }
}

impl Buf {
    /// Creates an empty buffer for the given wrap width.
    pub fn new(max_cols: usize) -> (r: Buf)
        ensures
            r@ == (BufModel {
                lines: Seq::<Seq<char>>::empty(),
                line: Seq::<char>::empty(),
                word: Seq::<char>::empty(),
                space_owed: false,
                max_cols: max_cols as nat,
            }),
    {
        let r = Buf {
            lines: Vec::new(),
            line: Vec::new(),
            word: Vec::new(),
            space_owed: false,
            max_cols,
        };
        proof {
            assert(deep_chars_view(r.lines@) =~= Seq::<Seq<char>>::empty());
        }
        r
    }

    /// Appends literal text to the pending word.
    pub fn push_word(&mut self, t: &str)
        ensures
            final(self)@ == buf_push_word(old(self)@, t@),
    {
        let mut cs = to_chars(t);
        self.word.append(&mut cs);
        proof {
            assert(self@ =~= buf_push_word(old(self)@, t@));
        }
    }

    /// Appends already-converted characters to the pending word.
    pub fn push_word_chars(&mut self, t: Vec<char>)
        ensures
            final(self)@ == buf_push_word(old(self)@, t@),
    {
        let mut cs = t;
        self.word.append(&mut cs);
        proof {
            assert(self@ =~= buf_push_word(old(self)@, t@));
        }
    }

    /// Appends one character to the pending word.
    pub fn push_word_char(&mut self, c: char)
        ensures
            final(self)@ == buf_push_word(old(self)@, seq![c]),
    {
        self.word.push(c);
        proof {
            assert(self@ =~= buf_push_word(old(self)@, seq![c]));
        }
    }

    /// Appends raw text directly to the pending line.  The pending word
    /// must be empty: literals never take part in a wrap decision.
    pub fn push_literal(&mut self, t: &str)
        requires
            old(self)@.word.len() == 0,
        ensures
            final(self)@ == buf_push_literal(old(self)@, t@),
    {
        let mut cs = to_chars(t);
        self.line.append(&mut cs);
        proof {
            assert(self@ =~= buf_push_literal(old(self)@, t@));
        }
    }

    /// Appends already-converted raw characters directly to the pending
    /// line.
    pub fn push_literal_chars(&mut self, t: Vec<char>)
        requires
            old(self)@.word.len() == 0,
        ensures
            final(self)@ == buf_push_literal(old(self)@, t@),
    {
        let mut cs = t;
        self.line.append(&mut cs);
        proof {
            assert(self@ =~= buf_push_literal(old(self)@, t@));
        }
    }

    /// Appends one raw character directly to the pending line.
    pub fn push_literal_char(&mut self, c: char)
        requires
            old(self)@.word.len() == 0,
        ensures
            final(self)@ == buf_push_literal(old(self)@, seq![c]),
    {
        self.line.push(c);
        proof {
            assert(self@ =~= buf_push_literal(old(self)@, seq![c]));
        }
    }

    /// Writes the prefix into the pending line if it is empty.
    pub fn apply_prefix(&mut self, prefix: &Vec<char>)
        ensures
            final(self)@ == buf_apply_prefix(old(self)@, prefix@),
    {
        if self.line.len() == 0 {
            let mut cs: Vec<char> = Vec::new();
            let mut i: usize = 0;
            while i < prefix.len()
                invariant
                    i <= prefix.len(),
                    cs@ =~= prefix@.take(i as int),
                decreases prefix.len() - i,
            {
                cs.push(prefix[i]);
                i = i + 1;
            }
            proof {
                assert(cs@ =~= prefix@);
            }
            self.line.append(&mut cs);
            proof {
                assert(self.line@ =~= prefix@);
                assert(self@ =~= buf_apply_prefix(old(self)@, prefix@));
            }
        } else {
            proof {
                assert(self@ =~= buf_apply_prefix(old(self)@, prefix@));
            }
        }
    }

    /// Trims trailing whitespace from the pending line, appends it to
    /// the completed output, and clears it.
    pub fn wrap_line(&mut self)
        ensures
            final(self)@ == buf_wrap(old(self)@),
    {
        trim_end_in_place(&mut self.line);
        let mut done: Vec<char> = Vec::new();
        core::mem::swap(&mut done, &mut self.line);
        self.lines.push(done);
        self.space_owed = false;
        proof {
            assert(deep_chars_view(self.lines@) =~= deep_chars_view(old(self).lines@).push(
                trim_end_spec(old(self).line@),
            ));
            assert(self@ =~= buf_wrap(old(self)@));
        }
    }

    /// Commits the pending word into the pending line, flushing the
    /// line first if the word no longer fits.
    pub fn commit_word(&mut self, prefix: &Vec<char>, space_after: bool)
        ensures
            final(self)@ == buf_commit(old(self)@, prefix@, space_after),
    {
        let ll: usize = self.line.len();
        let lw: usize = self.word.len();
        proof {
            lemma_text_cols_bound(self.line@);
            lemma_text_cols_bound(self.word@);
        }
        let wl: u128 = cols_of(&self.line);
        let ww: u128 = cols_of(&self.word);
        proof {
            assert(wl <= 2 * (ll as u128));
            assert(ww <= 2 * (lw as u128));
        }
        let owed: u128 = if self.space_owed {
            1
        } else {
            0
        };
        let needed: u128 = wl + owed + ww;
        if needed > (self.max_cols as u128) && self.line.len() > 0 {
            self.wrap_line();
        } else if self.space_owed {
            self.line.push(' ');
        }
        if self.line.len() == 0 {
            self.apply_prefix(prefix);
        }
        self.line.append(&mut self.word);
        self.space_owed = space_after;
        proof {
            assert(self@ =~= buf_commit(old(self)@, prefix@, space_after));
        }
    }
}

/// Buffer well-formedness: an empty pending line never owes a leading
/// space.  Every buffer operation the dispatcher performs preserves
/// this, so the wrap-width bound applies at every reachable state.
pub open spec fn buf_wf(m: BufModel) -> bool {
    m.line.len() == 0 ==> !m.space_owed
}

/// A commit preserves well-formedness whenever it commits an actual
/// word, or records no owed space.
pub proof fn lemma_commit_wf(m: BufModel, prefix: Seq<char>, space_after: bool)
    requires
        buf_wf(m),
        m.word.len() > 0 || !space_after,
    ensures
        buf_wf(buf_commit(m, prefix, space_after)),
{
}

/// Law of the wrap-width bound, at the level of one commit: a commit
/// never leaves the pending line wider than the maximum unless that
/// line consists of the applied prefix followed by the single
/// unbreakable token that was committed; and the only line a commit
/// can flush is the previously pending one, trimmed.
pub proof fn lemma_commit_wrap_bound(m: BufModel, prefix: Seq<char>, space_after: bool)
    requires
        m.line.len() == 0 ==> !m.space_owed,
    ensures
        ({
            let r = buf_commit(m, prefix, space_after);
            &&& (r.lines == m.lines || r.lines == m.lines.push(trim_end_spec(m.line)))
            &&& (text_cols(r.line) > m.max_cols ==> r.line == prefix + m.word)
        }),
{
    crate::text::lemma_text_cols_concat(m.line, m.word);
    crate::text::lemma_text_cols_concat(m.line + seq![' '], m.word);
    crate::text::lemma_text_cols_concat(m.line, seq![' ']);
    crate::text::lemma_text_cols_concat(prefix, m.word);
    let s = seq![' '];
    assert(s.len() == 1);
    assert(s.drop_last() =~= Seq::<char>::empty());
    assert(text_cols(s.drop_last()) == 0);
    assert(s.last() == ' ');
    assert(!crate::text::is_wide_char(' '));
    assert(text_cols(s) == text_cols(s.drop_last()) + crate::text::char_cols(s.last()));
    assert(text_cols(s) == 1);
}

} // verus!
