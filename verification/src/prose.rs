//! Feeding text into the buffer: prose collapsing and raw passthrough.
//!
//! While prose mode is active, any maximal run of whitespace characters
//! (including newlines) collapses to a single owed space, and each
//! maximal run of non-whitespace characters forms one independently
//! wrappable word.  Block raw content is forwarded literally, with
//! embedded newlines forcing a line flush and the active prefix
//! re-applied to every resulting physical line.

use vstd::prelude::*;
use crate::buffer::{buf_apply_prefix, buf_commit, buf_push_literal, buf_push_word, buf_wrap, Buf,
    BufModel};
use crate::text::{is_ws, is_ws_char};

verus! {

/// The effect of one prose character: whitespace commits the pending
/// word (if any) and makes the next word owe a space; any other
/// character extends the pending word.
pub open spec fn prose_char_step(m: BufModel, prefix: Seq<char>, c: char) -> BufModel {
    if is_ws_char(c) {
        if m.word.len() > 0 {
            buf_commit(m, prefix, true)
        } else {
            m
        }
    } else {
        buf_push_word(m, seq![c])
    }
}

/// The effect of a prose text fragment, character by character.
pub open spec fn prose_text(m: BufModel, prefix: Seq<char>, s: Seq<char>) -> BufModel
    decreases s.len(),
{
    if s.len() == 0 {
        m
    } else {
        prose_text(prose_char_step(m, prefix, s[0]), prefix, s.skip(1))
    }
}

/// Processing one more trailing character continues from the state the
/// preceding characters produced.
pub proof fn lemma_prose_snoc(m: BufModel, prefix: Seq<char>, s: Seq<char>, c: char)
    ensures
        prose_text(m, prefix, s.push(c)) == prose_text(prose_char_step(
            prose_text(m, prefix, s),
            prefix,
            c,
        ), prefix, Seq::<char>::empty()),
        prose_text(m, prefix, s.push(c)) == prose_char_step(prose_text(m, prefix, s), prefix, c),
    decreases s.len(),
{
    if s.len() == 0 {
        assert(s.push(c)[0] == c);
        assert(s.push(c).skip(1) =~= Seq::<char>::empty());
    } else {
        assert(s.push(c)[0] == s[0]);
        assert(s.push(c).skip(1) =~= s.skip(1).push(c));
        lemma_prose_snoc(prose_char_step(m, prefix, s[0]), prefix, s.skip(1), c);
    }
}

/// Feeds a prose text fragment into the buffer.
pub fn feed_prose(buf: &mut Buf, prefix: &Vec<char>, s: &Vec<char>)
    ensures
        final(buf)@ == prose_text(old(buf)@, prefix@, s@),
{
    let mut i: usize = 0;
    proof {
        assert(s@.take(0int) =~= Seq::<char>::empty());
    }
    while i < s.len()
        invariant
            i <= s.len(),
            buf@ == prose_text(old(buf)@, prefix@, s@.take(i as int)),
        decreases s.len() - i,
    {
        let c = s[i];
        if is_ws(c) {
            if buf.word.len() > 0 {
                buf.commit_word(prefix, true);
            }
        } else {
            buf.push_word_char(c);
        }
        proof {
            assert(s@.take(i as int).push(c) =~= s@.take(i as int + 1));
            lemma_prose_snoc(old(buf)@, prefix@, s@.take(i as int), c);
        }
        i = i + 1;
    }
    proof {
        assert(s@.take(s@.len() as int) =~= s@);
    }
}

/// The effect of one block raw character: a newline flushes the line,
/// any other character is forwarded literally, with the prefix applied
/// first when the line is empty.
pub open spec fn raw_char_step(m: BufModel, prefix: Seq<char>, c: char) -> BufModel {
    if c == '\n' {
        buf_wrap(m)
    } else {
        buf_push_literal(buf_apply_prefix(m, prefix), seq![c])
    }
}

/// The effect of a block raw fragment, character by character.
pub open spec fn raw_text(m: BufModel, prefix: Seq<char>, s: Seq<char>) -> BufModel
    decreases s.len(),
{
    if s.len() == 0 {
        m
    } else {
        raw_text(raw_char_step(m, prefix, s[0]), prefix, s.skip(1))
    }
}

/// Processing one more trailing raw character continues from the state
/// the preceding characters produced.
pub proof fn lemma_raw_snoc(m: BufModel, prefix: Seq<char>, s: Seq<char>, c: char)
    ensures
        raw_text(m, prefix, s.push(c)) == raw_char_step(raw_text(m, prefix, s), prefix, c),
    decreases s.len(),
{
    if s.len() == 0 {
        assert(s.push(c).len() == 1);
        assert(s.push(c)[0] == c);
        assert(s.push(c).skip(1) =~= Seq::<char>::empty());
        assert(raw_text(m, prefix, s.push(c)) == raw_text(
            raw_char_step(m, prefix, c),
            prefix,
            Seq::<char>::empty(),
        ));
        assert(raw_text(m, prefix, s) == m);
    } else {
        assert(s.push(c)[0] == s[0]);
        assert(s.push(c).skip(1) =~= s.skip(1).push(c));
        lemma_raw_snoc(raw_char_step(m, prefix, s[0]), prefix, s.skip(1), c);
        assert(raw_text(m, prefix, s.push(c)) == raw_text(
            raw_char_step(m, prefix, s[0]),
            prefix,
            s.skip(1).push(c),
        ));
        assert(raw_text(m, prefix, s) == raw_text(
            raw_char_step(m, prefix, s[0]),
            prefix,
            s.skip(1),
        ));
    }
}

/// Feeds a block raw fragment into the buffer, preserving its internal
/// line breaks exactly.
pub fn feed_raw(buf: &mut Buf, prefix: &Vec<char>, s: &Vec<char>)
    requires
        old(buf)@.word.len() == 0,
    ensures
        final(buf)@ == raw_text(old(buf)@, prefix@, s@),
        final(buf)@.word.len() == 0,
{
    let mut i: usize = 0;
    proof {
        assert(s@.take(0int) =~= Seq::<char>::empty());
    }
    while i < s.len()
        invariant
            i <= s.len(),
            buf@ == raw_text(old(buf)@, prefix@, s@.take(i as int)),
            buf@.word.len() == 0,
        decreases s.len() - i,
    {
        let c = s[i];
        if c == '\n' {
            buf.wrap_line();
        } else {
            buf.apply_prefix(prefix);
            buf.push_literal_char(c);
        }
        proof {
            assert(s@.take(i as int).push(c) =~= s@.take(i as int + 1));
            lemma_raw_snoc(old(buf)@, prefix@, s@.take(i as int), c);
        }
        i = i + 1;
    }
    proof {
        assert(s@.take(s@.len() as int) =~= s@);
    }
}

/// Feeding prose preserves buffer well-formedness.
pub proof fn lemma_prose_wf(m: BufModel, prefix: Seq<char>, s: Seq<char>)
    requires
        crate::buffer::buf_wf(m),
    ensures
        crate::buffer::buf_wf(prose_text(m, prefix, s)),
    decreases s.len(),
{
    if s.len() > 0 {
        if is_ws_char(s[0]) && m.word.len() > 0 {
            crate::buffer::lemma_commit_wf(m, prefix, true);
        }
        lemma_prose_wf(prose_char_step(m, prefix, s[0]), prefix, s.skip(1));
    }
}

/// Feeding block raw content preserves buffer well-formedness.
pub proof fn lemma_raw_wf(m: BufModel, prefix: Seq<char>, s: Seq<char>)
    requires
        crate::buffer::buf_wf(m),
    ensures
        crate::buffer::buf_wf(raw_text(m, prefix, s)),
    decreases s.len(),
{
    if s.len() > 0 {
        lemma_raw_wf(raw_char_step(m, prefix, s[0]), prefix, s.skip(1));
    }
}

/// A maximal whitespace run collapsed to one space, the rest copied;
/// `prev_ws` records whether the preceding character was whitespace.
pub open spec fn normalize_ws_from(s: Seq<char>, prev_ws: bool) -> Seq<char>
    decreases s.len(),
{
    if s.len() == 0 {
        s
    } else if is_ws_char(s[0]) {
        if prev_ws {
            normalize_ws_from(s.skip(1), true)
        } else {
            seq![' '] + normalize_ws_from(s.skip(1), true)
        }
    } else {
        seq![s[0]] + normalize_ws_from(s.skip(1), false)
    }
}

/// Every maximal whitespace run collapsed to exactly one space.
pub open spec fn normalize_ws(s: Seq<char>) -> Seq<char> {
    normalize_ws_from(s, false)
}

proof fn lemma_normalize_gen(m: BufModel, prefix: Seq<char>, s: Seq<char>, prev_ws: bool)
    requires
        prev_ws ==> m.word.len() == 0,
    ensures
        prose_text(m, prefix, s) == prose_text(m, prefix, normalize_ws_from(s, prev_ws)),
    decreases s.len(),
{
    if s.len() == 0 {
    } else if is_ws_char(s[0]) {
        let m1 = prose_char_step(m, prefix, s[0]);
        assert(m1.word.len() == 0);
        if prev_ws {
            assert(m1 == m);
            lemma_normalize_gen(m, prefix, s.skip(1), true);
        } else {
            let rest = normalize_ws_from(s.skip(1), true);
            let n = seq![' '] + rest;
            assert(n[0] == ' ');
            assert(n.skip(1) =~= rest);
            assert(prose_char_step(m, prefix, ' ') == m1);
            lemma_normalize_gen(m1, prefix, s.skip(1), true);
        }
    } else {
        let m1 = prose_char_step(m, prefix, s[0]);
        let rest = normalize_ws_from(s.skip(1), false);
        let n = seq![s[0]] + rest;
        assert(n[0] == s[0]);
        assert(n.skip(1) =~= rest);
        lemma_normalize_gen(m1, prefix, s.skip(1), false);
    }
}

/// Law of whitespace normalization: feeding a prose fragment has
/// exactly the effect of feeding the same fragment with every maximal
/// whitespace run (including newlines) collapsed to a single space.
pub proof fn lemma_whitespace_normalization(m: BufModel, prefix: Seq<char>, s: Seq<char>)
    ensures
        prose_text(m, prefix, s) == prose_text(m, prefix, normalize_ws(s)),
{
    lemma_normalize_gen(m, prefix, s, false);
}

} // verus!
