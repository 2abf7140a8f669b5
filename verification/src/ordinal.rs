//! List markers: bullet glyphs and ordered-list ordinals.
//!
//! Ordered ordinals are rendered in decimal, alphabetic, or subtractive
//! roman notation, wrapped in the list's punctuation style.  Every marker
//! is paired with an indent of equal display width, so continuation lines
//! of a list item align exactly under the first character of its text.

use vstd::prelude::*;
use crate::event::{BulletKind, ListKind, Numbering, OrdinalStyle};
use crate::text::{char_cols, is_wide_char, text_cols};

verus! {

/// The decimal digit character for `d`, which must lie in `0..=9`.
pub open spec fn digit_char(d: int) -> char {
    if d == 0 {
        '0'
    } else if d == 1 {
        '1'
    } else if d == 2 {
        '2'
    } else if d == 3 {
        '3'
    } else if d == 4 {
        '4'
    } else if d == 5 {
        '5'
    } else if d == 6 {
        '6'
    } else if d == 7 {
        '7'
    } else if d == 8 {
        '8'
    } else {
        '9'
    }
}

/// Decimal notation of `n`, most significant digit first.
pub open spec fn dec_seq(n: nat) -> Seq<char>
    decreases n,
{
    if n < 10 {
        seq![digit_char(n as int)]
    } else {
        dec_seq(n / 10).push(digit_char((n % 10) as int))
    }
}

/// Renders `n` in decimal notation.
pub fn dec_chars(n: u64) -> (v: Vec<char>)
    ensures
        v@ == dec_seq(n as nat),
    decreases n,
{
    if n < 10 {
        let c: char = match n {
            0 => '0',
            1 => '1',
            2 => '2',
            3 => '3',
            4 => '4',
            5 => '5',
            6 => '6',
            7 => '7',
            8 => '8',
            _ => '9',
        };
        let mut v: Vec<char> = Vec::new();
        v.push(c);
        proof {
            assert(v@ =~= dec_seq(n as nat));
        }
        v
    } else {
        let mut v = dec_chars(n / 10);
        let d: u64 = n % 10;
        let c: char = match d {
            0 => '0',
            1 => '1',
            2 => '2',
            3 => '3',
            4 => '4',
            5 => '5',
            6 => '6',
            7 => '7',
            8 => '8',
            _ => '9',
        };
        v.push(c);
        proof {
            assert(v@ =~= dec_seq(n as nat));
        }
        v
    }
}

/// The alphabetic ordinal character for `n`, which must lie in `1..=26`:
/// `1` maps to `a` (or `A`), `26` to `z` (or `Z`).
pub open spec fn alpha_char(n: nat, upper: bool) -> char {
    if upper {
        ((('A' as int) + n - 1) as char)
    } else {
        ((('a' as int) + n - 1) as char)
    }
}

/// Renders the alphabetic ordinal for `n`.
pub fn alpha_chars(n: u64, upper: bool) -> (c: char)
    requires
        1 <= n <= 26,
    ensures
        c == alpha_char(n as nat, upper),
{
    let base: u8 = if upper {
        65
    } else {
        97
    };
    let off: u8 = (n - 1) as u8;
    (base + off) as char
}

/// One subtractive roman step: the notation symbols for the largest
/// value not exceeding `n`.
pub open spec fn roman_step(n: nat, upper: bool) -> (Seq<char>, nat) {
    if n >= 1000 {
        (if upper { seq!['M'] } else { seq!['m'] }, 1000 as nat)
    } else if n >= 900 {
        (if upper { seq!['C', 'M'] } else { seq!['c', 'm'] }, 900 as nat)
    } else if n >= 500 {
        (if upper { seq!['D'] } else { seq!['d'] }, 500 as nat)
    } else if n >= 400 {
        (if upper { seq!['C', 'D'] } else { seq!['c', 'd'] }, 400 as nat)
    } else if n >= 100 {
        (if upper { seq!['C'] } else { seq!['c'] }, 100 as nat)
    } else if n >= 90 {
        (if upper { seq!['X', 'C'] } else { seq!['x', 'c'] }, 90 as nat)
    } else if n >= 50 {
        (if upper { seq!['L'] } else { seq!['l'] }, 50 as nat)
    } else if n >= 40 {
        (if upper { seq!['X', 'L'] } else { seq!['x', 'l'] }, 40 as nat)
    } else if n >= 10 {
        (if upper { seq!['X'] } else { seq!['x'] }, 10 as nat)
    } else if n >= 9 {
        (if upper { seq!['I', 'X'] } else { seq!['i', 'x'] }, 9 as nat)
    } else if n >= 5 {
        (if upper { seq!['V'] } else { seq!['v'] }, 5 as nat)
    } else if n >= 4 {
        (if upper { seq!['I', 'V'] } else { seq!['i', 'v'] }, 4 as nat)
    } else {
        (if upper { seq!['I'] } else { seq!['i'] }, 1 as nat)
    }
}

/// Standard subtractive roman notation of `n`; empty for `n == 0`.
pub open spec fn roman_seq(n: nat, upper: bool) -> Seq<char>
    decreases n,
{
    if n == 0 {
        Seq::empty()
    } else {
        let (sym, v) = roman_step(n, upper);
        sym + roman_seq((n - v) as nat, upper)
    }
}

/// Renders `n` in subtractive roman notation.
pub fn roman_chars(n: u64, upper: bool) -> (v: Vec<char>)
    ensures
        v@ == roman_seq(n as nat, upper),
    decreases n,
{
    let mut v: Vec<char> = Vec::new();
    if n == 0 {
        proof {
            assert(v@ =~= roman_seq(n as nat, upper));
        }
        return v;
    }
    let step: u64 = if n >= 1000 {
        if upper {
            v.push('M');
        } else {
            v.push('m');
        }
        1000
    } else if n >= 900 {
        if upper {
            v.push('C');
            v.push('M');
        } else {
            v.push('c');
            v.push('m');
        }
        900
    } else if n >= 500 {
        if upper {
            v.push('D');
        } else {
            v.push('d');
        }
        500
    } else if n >= 400 {
        if upper {
            v.push('C');
            v.push('D');
        } else {
            v.push('c');
            v.push('d');
        }
        400
    } else if n >= 100 {
        if upper {
            v.push('C');
        } else {
            v.push('c');
        }
        100
    } else if n >= 90 {
        if upper {
            v.push('X');
            v.push('C');
        } else {
            v.push('x');
            v.push('c');
        }
        90
    } else if n >= 50 {
        if upper {
            v.push('L');
        } else {
            v.push('l');
        }
        50
    } else if n >= 40 {
        if upper {
            v.push('X');
            v.push('L');
        } else {
            v.push('x');
            v.push('l');
        }
        40
    } else if n >= 10 {
        if upper {
            v.push('X');
        } else {
            v.push('x');
        }
        10
    } else if n >= 9 {
        if upper {
            v.push('I');
            v.push('X');
        } else {
            v.push('i');
            v.push('x');
        }
        9
    } else if n >= 5 {
        if upper {
            v.push('V');
        } else {
            v.push('v');
        }
        5
    } else if n >= 4 {
        if upper {
            v.push('I');
            v.push('V');
        } else {
            v.push('i');
            v.push('v');
        }
        4
    } else {
        if upper {
            v.push('I');
        } else {
            v.push('i');
        }
        1
    };
    let mut rest = roman_chars(n - step, upper);
    v.append(&mut rest);
    proof {
        assert(v@ =~= roman_seq(n as nat, upper));
    }
    v
}

/// The glyph of a bullet.
pub open spec fn bullet_char_spec(b: BulletKind) -> char {
    match b {
        BulletKind::Dash => '-',
        BulletKind::Star => '*',
        BulletKind::Plus => '+',
    }
}

/// Returns the glyph of a bullet.
pub fn bullet_char(b: &BulletKind) -> (c: char)
    ensures
        c == bullet_char_spec(*b),
{
    match b {
        BulletKind::Dash => '-',
        BulletKind::Star => '*',
        BulletKind::Plus => '+',
    }
}

/// The ordinal notation for displayed value `n` under a numbering
/// system.  Alphabetic numbering is meaningful only for `1..=26`.
pub open spec fn ordinal_seq(numbering: Numbering, n: nat) -> Seq<char> {
    match numbering {
        Numbering::Decimal => dec_seq(n),
        Numbering::AlphaLower => seq![alpha_char(n, false)],
        Numbering::AlphaUpper => seq![alpha_char(n, true)],
        Numbering::RomanLower => roman_seq(n, false),
        Numbering::RomanUpper => roman_seq(n, true),
    }
}

/// The marker of an ordered list item with displayed ordinal `n`:
/// the ordinal wrapped in the list's punctuation style, then one space.
pub open spec fn ordered_marker_seq(numbering: Numbering, style: OrdinalStyle, n: nat) -> Seq<
    char,
> {
    match style {
        OrdinalStyle::Period => ordinal_seq(numbering, n) + seq!['.', ' '],
        OrdinalStyle::Paren => ordinal_seq(numbering, n) + seq![')', ' '],
        OrdinalStyle::ParenParen => seq!['('] + ordinal_seq(numbering, n) + seq![')', ' '],
    }
}

/// The marker of an unordered list item: the glyph, then one space.
pub open spec fn unordered_marker_seq(b: BulletKind) -> Seq<char> {
    seq![bullet_char_spec(b), ' ']
}

/// The marker of a task list item: the glyph, a checkbox, then one
/// space.
pub open spec fn task_marker_seq(b: BulletKind, checked: bool) -> Seq<char> {
    seq![bullet_char_spec(b), ' ', '[', if checked { 'x' } else { ' ' }, ']', ' ']
}

/// A run of `n` spaces.
pub open spec fn spaces(n: nat) -> Seq<char> {
    Seq::new(n, |i: int| ' ')
}

/// Builds a run of spaces as long as `m`, the indent pushed for the
/// continuation lines of a list item whose marker is `m`.
pub fn indent_for(m: &Vec<char>) -> (v: Vec<char>)
    ensures
        v@ == spaces(m@.len()),
{
    let mut v: Vec<char> = Vec::new();
    let mut i: usize = 0;
    while i < m.len()
        invariant
            i <= m.len(),
            v@ =~= spaces(i as nat),
        decreases m.len() - i,
    {
        v.push(' ');
        proof {
            assert(v@ =~= spaces((i + 1) as nat));
        }
        i = i + 1;
    }
    v
}

/// Builds the marker of an unordered list item.
pub fn unordered_marker_chars(b: &BulletKind) -> (v: Vec<char>)
    ensures
        v@ == unordered_marker_seq(*b),
{
    let mut v: Vec<char> = Vec::new();
    v.push(bullet_char(b));
    v.push(' ');
    proof {
        assert(v@ =~= unordered_marker_seq(*b));
    }
    v
}

/// Builds the marker of a task list item.
pub fn task_marker_chars(b: &BulletKind, checked: bool) -> (v: Vec<char>)
    ensures
        v@ == task_marker_seq(*b, checked),
{
    let mut v: Vec<char> = Vec::new();
    v.push(bullet_char(b));
    v.push(' ');
    v.push('[');
    v.push(if checked {
        'x'
    } else {
        ' '
    });
    v.push(']');
    v.push(' ');
    proof {
        assert(v@ =~= task_marker_seq(*b, checked));
    }
    v
}

/// Builds the marker of an ordered list item with displayed ordinal
/// `n`.
pub fn ordered_marker_chars(numbering: &Numbering, style: &OrdinalStyle, n: u64) -> (v: Vec<char>)
    requires
        *numbering is AlphaLower || *numbering is AlphaUpper ==> 1 <= n <= 26,
    ensures
        v@ == ordered_marker_seq(*numbering, *style, n as nat),
{
    let ord: Vec<char> = match numbering {
        Numbering::Decimal => dec_chars(n),
        Numbering::AlphaLower => {
            let mut o: Vec<char> = Vec::new();
            o.push(alpha_chars(n, false));
            o
        },
        Numbering::AlphaUpper => {
            let mut o: Vec<char> = Vec::new();
            o.push(alpha_chars(n, true));
            o
        },
        Numbering::RomanLower => roman_chars(n, false),
        Numbering::RomanUpper => roman_chars(n, true),
    };
    proof {
        assert(ord@ =~= ordinal_seq(*numbering, n as nat));
    }
    let mut mk: Vec<char> = Vec::new();
    let paren_open = match style {
        OrdinalStyle::ParenParen => true,
        _ => false,
    };
    if paren_open {
        mk.push('(');
    }
    let mut o = ord;
    mk.append(&mut o);
    match style {
        OrdinalStyle::Period => mk.push('.'),
        _ => mk.push(')'),
    }
    mk.push(' ');
    proof {
        assert(mk@ =~= ordered_marker_seq(*numbering, *style, n as nat));
    }
    mk
}

/// Every character of a fragment of narrow characters counts one
/// column, so its width equals its length.
pub proof fn lemma_narrow_cols(s: Seq<char>)
    requires
        forall|i: int| 0 <= i < s.len() ==> !is_wide_char(s[i]),
    ensures
        text_cols(s) == s.len(),
    decreases s.len(),
{
    if s.len() > 0 {
        lemma_narrow_cols(s.drop_last());
    }
}

/// Decimal notation consists of narrow characters.
pub proof fn lemma_dec_narrow(n: nat)
    ensures
        forall|i: int| 0 <= i < dec_seq(n).len() ==> !is_wide_char(#[trigger] dec_seq(n)[i]),
    decreases n,
{
    if n < 10 {
        assert(dec_seq(n) =~= seq![digit_char(n as int)]);
    } else {
        lemma_dec_narrow(n / 10);
        let s = dec_seq(n / 10);
        let c = digit_char((n % 10) as int);
        assert forall|i: int| 0 <= i < dec_seq(n).len() implies !is_wide_char(
            dec_seq(n)[i],
        ) by {
            if i < s.len() {
                assert(dec_seq(n)[i] == s[i]);
            } else {
                assert(dec_seq(n)[i] == c);
            }
        }
    }
}

/// Roman notation consists of narrow characters.
pub proof fn lemma_roman_narrow(n: nat, upper: bool)
    ensures
        forall|i: int|
            0 <= i < roman_seq(n, upper).len() ==> !is_wide_char(
                #[trigger] roman_seq(n, upper)[i],
            ),
    decreases n,
{
    if n > 0 {
        let (sym, v) = roman_step(n, upper);
        lemma_roman_narrow((n - v) as nat, upper);
        let rest = roman_seq((n - v) as nat, upper);
        assert(roman_seq(n, upper) == sym + rest);
        assert forall|i: int| 0 <= i < roman_seq(n, upper).len() implies !is_wide_char(
            roman_seq(n, upper)[i],
        ) by {
            if i < sym.len() {
                assert(roman_seq(n, upper)[i] == sym[i]);
            } else {
                assert(roman_seq(n, upper)[i] == rest[i - sym.len()]);
            }
        }
    }
}

/// Ordinal notation consists of narrow characters.
pub proof fn lemma_ordinal_narrow(numbering: Numbering, n: nat)
    requires
        numbering is AlphaLower || numbering is AlphaUpper ==> 1 <= n <= 26,
    ensures
        forall|i: int|
            0 <= i < ordinal_seq(numbering, n).len() ==> !is_wide_char(
                #[trigger] ordinal_seq(numbering, n)[i],
            ),
{
    match numbering {
        Numbering::Decimal => lemma_dec_narrow(n),
        Numbering::AlphaLower => {
            assert(!is_wide_char(alpha_char(n, false)));
        },
        Numbering::AlphaUpper => {
            assert(!is_wide_char(alpha_char(n, true)));
        },
        Numbering::RomanLower => lemma_roman_narrow(n, false),
        Numbering::RomanUpper => lemma_roman_narrow(n, true),
    }
}

/// Law of list-marker alignment: for every numbering and style
/// combination, the indent pushed for a list item's continuation lines
/// has exactly the display width of the item's marker, so continuation
/// lines align under the first character of the item's text.
pub proof fn lemma_marker_alignment(numbering: Numbering, style: OrdinalStyle, n: nat)
    requires
        numbering is AlphaLower || numbering is AlphaUpper ==> 1 <= n <= 26,
    ensures
        text_cols(spaces(ordered_marker_seq(numbering, style, n).len())) == text_cols(
            ordered_marker_seq(numbering, style, n),
        ),
{
    let m = ordered_marker_seq(numbering, style, n);
    lemma_ordinal_narrow(numbering, n);
    assert forall|i: int| 0 <= i < m.len() implies !is_wide_char(m[i]) by {
        let o = ordinal_seq(numbering, n);
        match style {
            OrdinalStyle::Period => {},
            OrdinalStyle::Paren => {},
            OrdinalStyle::ParenParen => {},
        }
    }
    lemma_narrow_cols(m);
    lemma_spaces_cols(m.len());
}

/// Law of list-marker alignment for unordered bullets: the two-column
/// indent matches the two-column marker.
pub proof fn lemma_bullet_alignment(b: BulletKind)
    ensures
        text_cols(spaces(unordered_marker_seq(b).len())) == text_cols(unordered_marker_seq(b)),
{
    let m = unordered_marker_seq(b);
    assert forall|i: int| 0 <= i < m.len() implies !is_wide_char(m[i]) by {}
    lemma_narrow_cols(m);
    lemma_spaces_cols(m.len());
}

/// Law of list-marker alignment for task bullets.
pub proof fn lemma_task_alignment(b: BulletKind, checked: bool)
    ensures
        text_cols(spaces(task_marker_seq(b, checked).len())) == text_cols(
            task_marker_seq(b, checked),
        ),
{
    let m = task_marker_seq(b, checked);
    assert forall|i: int| 0 <= i < m.len() implies !is_wide_char(m[i]) by {}
    lemma_narrow_cols(m);
    lemma_spaces_cols(m.len());
}

/// A run of spaces is as wide as it is long.
pub proof fn lemma_spaces_cols(n: nat)
    ensures
        text_cols(spaces(n)) == n,
{
    assert forall|i: int| 0 <= i < spaces(n).len() implies !is_wide_char(spaces(n)[i]) by {}
    lemma_narrow_cols(spaces(n));
}

} // verus!
