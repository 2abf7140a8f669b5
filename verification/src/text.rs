//! Character classification and display-width measurement.
//!
//! Every wrapping decision of the formatter is made in display columns:
//! most characters occupy one column, East-Asian wide and fullwidth
//! characters occupy two.  Whitespace classification follows the Unicode
//! `White_Space` property, so that prose collapsing treats all blank
//! characters (including newlines) alike.

use vstd::prelude::*;

verus! {

/// Unicode `White_Space` code points.
pub open spec fn is_ws_char(c: char) -> bool {
    ||| c == ' '
    ||| c == '\t'
    ||| c == '\n'
    ||| c == '\u{0B}'
    ||| c == '\u{0C}'
    ||| c == '\r'
    ||| c == '\u{85}'
    ||| c == '\u{A0}'
    ||| c == '\u{1680}'
    ||| ('\u{2000}' as u32 <= c as u32 && c as u32 <= '\u{200A}' as u32)
    ||| c == '\u{2028}'
    ||| c == '\u{2029}'
    ||| c == '\u{202F}'
    ||| c == '\u{205F}'
    ||| c == '\u{3000}'
}

/// Decides whether `c` counts as whitespace for prose collapsing.
pub fn is_ws(c: char) -> (b: bool)
    ensures
        b == is_ws_char(c),
{
    let u: u32 = c as u32;
    u == 0x20 || (0x09 <= u && u <= 0x0D) || u == 0x85 || u == 0xA0 || u == 0x1680 || (0x2000 <= u
        && u <= 0x200A) || u == 0x2028 || u == 0x2029 || u == 0x202F || u == 0x205F || u == 0x3000
}

/// Code points rendered two columns wide: East-Asian wide and fullwidth
/// ranges, Hangul, and the common emoji blocks.
pub open spec fn is_wide_char(c: char) -> bool {
    let u = c as u32;
    ||| (0x1100 <= u && u <= 0x115F)
    ||| (0x2E80 <= u && u <= 0x303E)
    ||| (0x3041 <= u && u <= 0x33FF)
    ||| (0x3400 <= u && u <= 0x4DBF)
    ||| (0x4E00 <= u && u <= 0x9FFF)
    ||| (0xA000 <= u && u <= 0xA4CF)
    ||| (0xAC00 <= u && u <= 0xD7A3)
    ||| (0xF900 <= u && u <= 0xFAFF)
    ||| (0xFE10 <= u && u <= 0xFE19)
    ||| (0xFE30 <= u && u <= 0xFE6F)
    ||| (0xFF00 <= u && u <= 0xFF60)
    ||| (0xFFE0 <= u && u <= 0xFFE6)
    ||| (0x1F300 <= u && u <= 0x1F64F)
    ||| (0x1F900 <= u && u <= 0x1F9FF)
    ||| (0x20000 <= u && u <= 0x2FFFD)
    ||| (0x30000 <= u && u <= 0x3FFFD)
}

/// Display width of one character, in columns.
pub open spec fn char_cols(c: char) -> nat {
    if is_wide_char(c) {
        2
    } else {
        1
    }
}

/// Computes the display width of one character.
pub fn char_width(c: char) -> (w: u8)
    ensures
        w as nat == char_cols(c),
{
    let u: u32 = c as u32;
    let wide: bool = (0x1100 <= u && u <= 0x115F) || (0x2E80 <= u && u <= 0x303E) || (0x3041 <= u
        && u <= 0x33FF) || (0x3400 <= u && u <= 0x4DBF) || (0x4E00 <= u && u <= 0x9FFF) || (0xA000
        <= u && u <= 0xA4CF) || (0xAC00 <= u && u <= 0xD7A3) || (0xF900 <= u && u <= 0xFAFF)
        || (0xFE10 <= u && u <= 0xFE19) || (0xFE30 <= u && u <= 0xFE6F) || (0xFF00 <= u && u
        <= 0xFF60) || (0xFFE0 <= u && u <= 0xFFE6) || (0x1F300 <= u && u <= 0x1F64F) || (0x1F900
        <= u && u <= 0x1F9FF) || (0x20000 <= u && u <= 0x2FFFD) || (0x30000 <= u && u <= 0x3FFFD);
    if wide {
        2
    } else {
        1
    }
}

/// Display width of a text fragment: the sum of its characters' widths.
pub open spec fn text_cols(s: Seq<char>) -> nat
    decreases s.len(),
{
    if s.len() == 0 {
        0
    } else {
        text_cols(s.drop_last()) + char_cols(s.last())
    }
}

/// The width of a fragment is at most twice its length.
pub proof fn lemma_text_cols_bound(s: Seq<char>)
    ensures
        text_cols(s) <= 2 * s.len(),
    decreases s.len(),
{
    if s.len() > 0 {
        lemma_text_cols_bound(s.drop_last());
    }
}

/// Width distributes over concatenation.
pub proof fn lemma_text_cols_concat(a: Seq<char>, b: Seq<char>)
    ensures
        text_cols(a + b) == text_cols(a) + text_cols(b),
    decreases b.len(),
{
    if b.len() == 0 {
        assert(a + b =~= a);
    } else {
        lemma_text_cols_concat(a, b.drop_last());
        assert((a + b).drop_last() =~= a + b.drop_last());
        assert((a + b).last() == b.last());
    }
}

/// Computes the display width of a fragment.
pub fn cols_of(v: &Vec<char>) -> (w: u128)
    ensures
        w as nat == text_cols(v@),
{
    let mut w: u128 = 0;
    let mut i: usize = 0;
    proof {
        assert(v@.take(0int) =~= Seq::<char>::empty());
    }
    while i < v.len()
        invariant
            i <= v.len(),
            w as nat == text_cols(v@.take(i as int)),
            w <= 2 * (i as u128),
            v.len() <= usize::MAX,
        decreases v.len() - i,
    {
        let cw = char_width(v[i]);
        proof {
            let t = v@.take(i as int + 1);
            assert(t.drop_last() =~= v@.take(i as int));
            assert(t.last() == v@[i as int]);
        }
        w = w + (cw as u128);
        i = i + 1;
    }
    proof {
        assert(v@.take(v.len() as int) =~= v@);
    }
    w
}

/// Copies a character vector.
pub fn copy_chars(v: &Vec<char>) -> (r: Vec<char>)
    ensures
        r@ == v@,
{
    let mut r: Vec<char> = Vec::new();
    let mut i: usize = 0;
    while i < v.len()
        invariant
            i <= v.len(),
            r@ =~= v@.take(i as int),
        decreases v.len() - i,
    {
        r.push(v[i]);
        i = i + 1;
    }
    proof {
        assert(r@ =~= v@);
    }
    r
}

/// Relies on `str::chars`: iterating a string slice yields exactly its
/// characters, in order.
#[verifier::external_body]
pub fn to_chars(s: &str) -> (v: Vec<char>)
    ensures
        v@ == s@,
{
    s.chars().collect()
}

/// Relies on `FromIterator<char> for String`: collecting characters
/// builds the string of exactly those characters, in order.
#[verifier::external_body]
pub fn from_chars(v: &Vec<char>) -> (s: String)
    ensures
        s@ == v@,
{
    v.iter().collect()
}

/// Trailing whitespace removed.
pub open spec fn trim_end_spec(s: Seq<char>) -> Seq<char>
    decreases s.len(),
{
    if s.len() == 0 {
        s
    } else if is_ws_char(s.last()) {
        trim_end_spec(s.drop_last())
    } else {
        s
    }
}

/// Removes trailing whitespace from `v`.
pub fn trim_end_in_place(v: &mut Vec<char>)
    ensures
        final(v)@ == trim_end_spec(old(v)@),
{
    let mut n: usize = v.len();
    proof {
        assert(v@.take(n as int) =~= v@);
    }
    while n > 0 && is_ws(v[n - 1])
        invariant
            n <= v.len(),
            trim_end_spec(v@) == trim_end_spec(v@.take(n as int)),
        decreases n,
    {
        proof {
            let t = v@.take(n as int);
            assert(t.last() == v@[n - 1]);
            assert(t.drop_last() =~= v@.take(n as int - 1));
        }
        n = n - 1;
    }
    proof {
        let t = v@.take(n as int);
        if n > 0 {
            assert(t.last() == v@[n - 1]);
        }
        assert(trim_end_spec(t) =~= t);
    }
    v.truncate(n);
    proof {
        assert(v@ =~= old(v)@.take(n as int));
    }
}

} // verus!
