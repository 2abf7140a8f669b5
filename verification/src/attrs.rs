//! The attribute formatter.
//!
//! Attribute sets render in two distinct contexts.  Block attributes,
//! attached to the start of a block container, are written before the
//! container's own marker, one entry per physical line, each value
//! word-wrapped under a one-column indent.  Inline trailing attributes,
//! attached when an inline container closes or carried by a bare
//! attribute event, render as a single combined `{...}` group glued to
//! the preceding token, subject only to ordinary word-wrap.

use vstd::prelude::*;
use crate::buffer::{buf_commit, buf_push_literal, buf_push_word, buf_apply_prefix, buf_wrap, Buf,
    BufModel};
use crate::event::{Attr, AttrKind, AttrKindModel, AttrModel, attrs_view, parts_view};
use crate::prose::{feed_prose, prose_text};
use crate::text::{copy_chars, to_chars};

verus! {

/// The effect of word-wrapping a sequence of value parts, in order.
/// Parts are concatenated directly; whitespace inside them collapses
/// the same way prose text is collapsed.
pub open spec fn prose_parts(m: BufModel, prefix: Seq<char>, parts: Seq<Seq<char>>) -> BufModel
    decreases parts.len(),
{
    if parts.len() == 0 {
        m
    } else {
        prose_text(prose_parts(m, prefix, parts.drop_last()), prefix, parts.last())
    }
}

/// Feeds the value parts of an attribute entry into the buffer.
pub fn feed_parts(buf: &mut Buf, prefix: &Vec<char>, parts: &Vec<String>)
    ensures
        final(buf)@ == prose_parts(old(buf)@, prefix@, parts_view(parts@)),
{
    let mut i: usize = 0;
    proof {
        assert(parts_view(parts@).take(0int) =~= Seq::<Seq<char>>::empty());
    }
    while i < parts.len()
        invariant
            i <= parts.len(),
            buf@ == prose_parts(old(buf)@, prefix@, parts_view(parts@).take(i as int)),
        decreases parts.len() - i,
    {
        let cs = to_chars(parts[i].as_str());
        feed_prose(buf, prefix, &cs);
        proof {
            let pv = parts_view(parts@);
            assert(pv.take(i as int + 1).drop_last() =~= pv.take(i as int));
            assert(pv.take(i as int + 1).last() == pv[i as int]);
        }
        i = i + 1;
    }
    proof {
        assert(parts_view(parts@).take(parts@.len() as int) =~= parts_view(parts@));
    }
}

/// The opening delimiter of a block attribute entry.
pub open spec fn block_opener(k: AttrKindModel) -> Seq<char> {
    match k {
        AttrKindModel::Class => ("{ .")@,
        AttrKindModel::Id => ("{ #")@,
        AttrKindModel::Pair(key) => ("{ ")@ + key + ("=")@,
        AttrKindModel::Comment => ("{%")@,
    }
}

/// The effect of rendering one block attribute entry as its own
/// physical line: its opening delimiter, the word-wrapped value under a
/// one-column indent, and its closing delimiter; a comment's closing
/// `%}` is preceded by a forced line flush.
pub open spec fn block_attr(m: BufModel, outer: Seq<char>, a: AttrModel) -> BufModel {
    let ind = outer + seq![' '];
    let m1 = buf_push_literal(buf_apply_prefix(m, outer), block_opener(a.kind));
    let m2 = prose_parts(m1, ind, a.parts);
    if a.kind is Comment {
        let m3 = if m2.word.len() > 0 {
            buf_commit(m2, ind, false)
        } else {
            m2
        };
        let m4 = buf_wrap(m3);
        let m5 = buf_commit(buf_push_word(m4, ("%}")@), ind, false);
        buf_wrap(m5)
    } else {
        let m3 = buf_commit(buf_push_word(m2, ("}")@), ind, false);
        buf_wrap(m3)
    }
}

/// The effect of rendering an attribute set in block context, one
/// entry per physical line.
pub open spec fn block_attrs(m: BufModel, outer: Seq<char>, attrs: Seq<AttrModel>) -> BufModel
    decreases attrs.len(),
{
    if attrs.len() == 0 {
        m
    } else {
        block_attr(block_attrs(m, outer, attrs.drop_last()), outer, attrs.last())
    }
}

/// Renders one block attribute entry as its own physical line.
pub fn render_block_attr(buf: &mut Buf, outer: &Vec<char>, a: &Attr)
    requires
        old(buf)@.word.len() == 0,
    ensures
        final(buf)@ == block_attr(old(buf)@, outer@, a@),
        final(buf)@.word.len() == 0,
{
    let mut ind = copy_chars(outer);
    ind.push(' ');
    proof {
        assert(ind@ =~= outer@ + seq![' ']);
    }
    buf.apply_prefix(outer);
    match &a.kind {
        AttrKind::Class => buf.push_literal("{ ."),
        AttrKind::Id => buf.push_literal("{ #"),
        AttrKind::Pair { key } => {
            buf.push_literal("{ ");
            buf.push_literal(key.as_str());
            buf.push_literal("=");
            proof {
                assert(buf@.line =~= buf_push_literal(
                    buf_apply_prefix(old(buf)@, outer@),
                    block_opener(a@.kind),
                ).line);
            }
        },
        AttrKind::Comment => buf.push_literal("{%"),
    }
    proof {
        assert(buf@ =~= buf_push_literal(buf_apply_prefix(old(buf)@, outer@), block_opener(a@.kind)));
    }
    feed_parts(buf, &ind, &a.parts);
    let comment = match &a.kind {
        AttrKind::Comment => true,
        _ => false,
    };
    if comment {
        if buf.word.len() > 0 {
            buf.commit_word(&ind, false);
        }
        buf.wrap_line();
        buf.push_word("%}");
        buf.commit_word(&ind, false);
        buf.wrap_line();
    } else {
        buf.push_word("}");
        buf.commit_word(&ind, false);
        buf.wrap_line();
    }
}

/// Renders an attribute set in block context.
pub fn render_block_attrs(buf: &mut Buf, outer: &Vec<char>, attrs: &Vec<Attr>)
    requires
        old(buf)@.word.len() == 0,
    ensures
        final(buf)@ == block_attrs(old(buf)@, outer@, attrs_view(attrs@)),
        final(buf)@.word.len() == 0,
{
    let mut i: usize = 0;
    proof {
        assert(attrs_view(attrs@).take(0int) =~= Seq::<AttrModel>::empty());
    }
    while i < attrs.len()
        invariant
            i <= attrs.len(),
            buf@ == block_attrs(old(buf)@, outer@, attrs_view(attrs@).take(i as int)),
            buf@.word.len() == 0,
        decreases attrs.len() - i,
    {
        render_block_attr(buf, outer, &attrs[i]);
        proof {
            let av = attrs_view(attrs@);
            assert(av.take(i as int + 1).drop_last() =~= av.take(i as int));
            assert(av.take(i as int + 1).last() == av[i as int]);
        }
        i = i + 1;
    }
    proof {
        assert(attrs_view(attrs@).take(attrs@.len() as int) =~= attrs_view(attrs@));
    }
}

/// Word-wrapping value parts preserves buffer well-formedness.
pub proof fn lemma_parts_wf(m: BufModel, prefix: Seq<char>, parts: Seq<Seq<char>>)
    requires
        crate::buffer::buf_wf(m),
    ensures
        crate::buffer::buf_wf(prose_parts(m, prefix, parts)),
    decreases parts.len(),
{
    if parts.len() > 0 {
        lemma_parts_wf(m, prefix, parts.drop_last());
        crate::prose::lemma_prose_wf(
            prose_parts(m, prefix, parts.drop_last()),
            prefix,
            parts.last(),
        );
    }
}

/// Rendering one block attribute entry preserves buffer
/// well-formedness.
pub proof fn lemma_block_attr_wf(m: BufModel, outer: Seq<char>, a: AttrModel)
    requires
        crate::buffer::buf_wf(m),
    ensures
        crate::buffer::buf_wf(block_attr(m, outer, a)),
{
    let ind = outer + seq![' '];
    let m1 = buf_push_literal(buf_apply_prefix(m, outer), block_opener(a.kind));
    assert(crate::buffer::buf_wf(m1));
    lemma_parts_wf(m1, ind, a.parts);
    let m2 = prose_parts(m1, ind, a.parts);
    if a.kind is Comment {
        if m2.word.len() > 0 {
            crate::buffer::lemma_commit_wf(m2, ind, false);
        }
        let m3 = if m2.word.len() > 0 {
            buf_commit(m2, ind, false)
        } else {
            m2
        };
        let m4 = buf_wrap(m3);
        crate::buffer::lemma_commit_wf(buf_push_word(m4, ("%}")@), ind, false);
    } else {
        crate::buffer::lemma_commit_wf(buf_push_word(m2, ("}")@), ind, false);
    }
}

/// Rendering a block attribute set preserves buffer well-formedness.
pub proof fn lemma_block_attrs_wf(m: BufModel, outer: Seq<char>, attrs: Seq<AttrModel>)
    requires
        crate::buffer::buf_wf(m),
    ensures
        crate::buffer::buf_wf(block_attrs(m, outer, attrs)),
    decreases attrs.len(),
{
    if attrs.len() > 0 {
        lemma_block_attrs_wf(m, outer, attrs.drop_last());
        lemma_block_attr_wf(block_attrs(m, outer, attrs.drop_last()), outer, attrs.last());
    }
}

/// The effect of rendering one entry of an inline trailing group.
pub open spec fn inline_attr(m: BufModel, prefix: Seq<char>, a: AttrModel) -> BufModel {
    match a.kind {
        AttrKindModel::Class => prose_parts(buf_push_word(m, (" .")@), prefix, a.parts),
        AttrKindModel::Id => prose_parts(buf_push_word(m, (" #")@), prefix, a.parts),
        AttrKindModel::Pair(key) => prose_parts(
            buf_push_word(m, (" ")@ + key + ("=")@),
            prefix,
            a.parts,
        ),
        AttrKindModel::Comment => buf_push_word(
            prose_parts(buf_push_word(m, ("%")@), prefix, a.parts),
            ("%")@,
        ),
    }
}

/// The effect of rendering the entries of an inline trailing group, in
/// order.
pub open spec fn inline_attrs_entries(m: BufModel, prefix: Seq<char>, attrs: Seq<AttrModel>) -> BufModel
    decreases attrs.len(),
{
    if attrs.len() == 0 {
        m
    } else {
        inline_attr(inline_attrs_entries(m, prefix, attrs.drop_last()), prefix, attrs.last())
    }
}

/// The effect of rendering an attribute set as a single combined
/// `{...}` group glued to the pending word.
pub open spec fn inline_group(m: BufModel, prefix: Seq<char>, attrs: Seq<AttrModel>) -> BufModel {
    buf_push_word(
        inline_attrs_entries(buf_push_word(m, ("{")@), prefix, attrs),
        ("}")@,
    )
}

/// Rendering one inline group entry preserves buffer well-formedness.
pub proof fn lemma_inline_attr_wf(m: BufModel, prefix: Seq<char>, a: AttrModel)
    requires
        crate::buffer::buf_wf(m),
    ensures
        crate::buffer::buf_wf(inline_attr(m, prefix, a)),
{
    match a.kind {
        AttrKindModel::Class => lemma_parts_wf(buf_push_word(m, (" .")@), prefix, a.parts),
        AttrKindModel::Id => lemma_parts_wf(buf_push_word(m, (" #")@), prefix, a.parts),
        AttrKindModel::Pair(key) => lemma_parts_wf(
            buf_push_word(m, (" ")@ + key + ("=")@),
            prefix,
            a.parts,
        ),
        AttrKindModel::Comment => lemma_parts_wf(buf_push_word(m, ("%")@), prefix, a.parts),
    }
}

/// Rendering an inline trailing group preserves buffer
/// well-formedness.
pub proof fn lemma_inline_group_wf(m: BufModel, prefix: Seq<char>, attrs: Seq<AttrModel>)
    requires
        crate::buffer::buf_wf(m),
    ensures
        crate::buffer::buf_wf(inline_group(m, prefix, attrs)),
{
    lemma_inline_entries_wf(buf_push_word(m, ("{")@), prefix, attrs);
}

proof fn lemma_inline_entries_wf(m: BufModel, prefix: Seq<char>, attrs: Seq<AttrModel>)
    requires
        crate::buffer::buf_wf(m),
    ensures
        crate::buffer::buf_wf(inline_attrs_entries(m, prefix, attrs)),
    decreases attrs.len(),
{
    if attrs.len() > 0 {
        lemma_inline_entries_wf(m, prefix, attrs.drop_last());
        lemma_inline_attr_wf(
            inline_attrs_entries(m, prefix, attrs.drop_last()),
            prefix,
            attrs.last(),
        );
    }
}

/// Renders an attribute set as a single combined inline group.
pub fn render_inline_attrs(buf: &mut Buf, prefix: &Vec<char>, attrs: &Vec<Attr>)
    ensures
        final(buf)@ == inline_group(old(buf)@, prefix@, attrs_view(attrs@)),
{
    buf.push_word("{");
    let ghost m0 = buf@;
    let mut i: usize = 0;
    proof {
        assert(attrs_view(attrs@).take(0int) =~= Seq::<AttrModel>::empty());
    }
    while i < attrs.len()
        invariant
            i <= attrs.len(),
            buf@ == inline_attrs_entries(m0, prefix@, attrs_view(attrs@).take(i as int)),
        decreases attrs.len() - i,
    {
        let a = &attrs[i];
        let ghost before = buf@;
        match &a.kind {
            AttrKind::Class => {
                buf.push_word(" .");
                feed_parts(buf, prefix, &a.parts);
            },
            AttrKind::Id => {
                buf.push_word(" #");
                feed_parts(buf, prefix, &a.parts);
            },
            AttrKind::Pair { key } => {
                buf.push_word(" ");
                buf.push_word(key.as_str());
                buf.push_word("=");
                proof {
                    assert(buf@.word =~= buf_push_word(before, (" ")@ + a@.kind->Pair_0 + ("=")@).word);
                    assert(buf@ =~= buf_push_word(before, (" ")@ + a@.kind->Pair_0 + ("=")@));
                }
                feed_parts(buf, prefix, &a.parts);
            },
            AttrKind::Comment => {
                buf.push_word("%");
                feed_parts(buf, prefix, &a.parts);
                buf.push_word("%");
            },
        }
        proof {
            assert(buf@ == inline_attr(before, prefix@, a@));
            let av = attrs_view(attrs@);
            assert(av.take(i as int + 1).drop_last() =~= av.take(i as int));
            assert(av.take(i as int + 1).last() == av[i as int]);
        }
        i = i + 1;
    }
    proof {
        assert(attrs_view(attrs@).take(attrs@.len() as int) =~= attrs_view(attrs@));
    }
    buf.push_word("}");
}

} // verus!
