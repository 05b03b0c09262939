//! Character-sequence utilities used by the report formatter: padding,
//! repetition, string equality and ASCII lowercasing, each specified over
//! `Seq<char>` views.

use vstd::prelude::*;
use vstd::string::StrSliceExecFns;
use vstd::string::StringExecFns;

verus! {

/// A run of `n` copies of the character `c`.
pub open spec fn repeat_char(c: char, n: nat) -> Seq<char>
    decreases n,
{
    if n == 0 {
        Seq::empty()
    } else {
        repeat_char(c, (n - 1) as nat).push(c)
    }
}

/// `s` right-aligned in a field of width `w`, filled on the left with
/// `fill`; a string at least as wide as the field is kept whole.
pub open spec fn pad_left(s: Seq<char>, w: nat, fill: char) -> Seq<char> {
    if s.len() >= w {
        s
    } else {
        repeat_char(fill, (w - s.len()) as nat) + s
    }
}

/// `s` left-aligned in a field of width `w`, filled on the right with
/// `fill`; a string at least as wide as the field is kept whole.
pub open spec fn pad_right(s: Seq<char>, w: nat, fill: char) -> Seq<char> {
    if s.len() >= w {
        s
    } else {
        s + repeat_char(fill, (w - s.len()) as nat)
    }
}

/// Relies on `String::push`: appends the given character to the end of
/// the string.
#[verifier::external_body]
pub(crate) fn push_char(s: &mut String, c: char)
    ensures
        final(s)@ == old(s)@.push(c),
{
    s.push(c);
}

/// Appends `n` copies of `c` to `s`.
pub fn push_repeat(s: &mut String, c: char, n: usize)
    ensures
        final(s)@ == old(s)@ + repeat_char(c, n as nat),
{
    let mut i: usize = 0;
    proof {
        assert(s@ =~= s@ + repeat_char(c, 0));
    }
    while i < n
        invariant
            i <= n,
            s@ == old(s)@ + repeat_char(c, i as nat),
        decreases n - i,
    {
        push_char(s, c);
        i = i + 1;
        proof {
            assert(s@ =~= old(s)@ + repeat_char(c, i as nat));
        }
    }
}

/// `s` right-aligned in a field of `w` characters, filled with `fill`.
pub fn pad_left_str(s: &str, w: usize, fill: char) -> (r: String)
    ensures
        r@ == pad_left(s@, w as nat, fill),
{
    let n = s.unicode_len();
    let mut r = String::new();
    if n < w {
        push_repeat(&mut r, fill, w - n);
    }
    r.append(s);
    proof {
        assert(r@ =~= pad_left(s@, w as nat, fill));
    }
    r
}

/// `s` left-aligned in a field of `w` characters, filled with `fill`.
pub fn pad_right_str(s: &str, w: usize, fill: char) -> (r: String)
    ensures
        r@ == pad_right(s@, w as nat, fill),
{
    let n = s.unicode_len();
    let mut r = String::new();
    r.append(s);
    if n < w {
        push_repeat(&mut r, fill, w - n);
    }
    proof {
        assert(r@ =~= pad_right(s@, w as nat, fill));
    }
    r
}

/// Character-for-character string equality.
pub fn str_eq(a: &str, b: &str) -> (r: bool)
    ensures
        r == (a@ == b@),
{
    let na = a.unicode_len();
    let nb = b.unicode_len();
    if na != nb {
        return false;
    }
    let mut i: usize = 0;
    while i < na
        invariant
            i <= na,
            na == a@.len(),
            na == b@.len(),
            forall|j: int| 0 <= j < i ==> a@[j] == b@[j],
        decreases na - i,
    {
        if a.get_char(i) != b.get_char(i) {
            return false;
        }
        i = i + 1;
    }
    proof {
        assert(a@ =~= b@);
    }
    true
}

/// The ASCII-lowercase image of a character: letters `'A'` through `'Z'`
/// map to their lowercase forms, every other character is unchanged.
pub open spec fn lower_char(c: char) -> char {
    if 'A' <= c && c <= 'Z' {
        (((c as u8) + 32) as char)
    } else {
        c
    }
}

/// The ASCII-lowercase image of a character sequence.
pub open spec fn lower(s: Seq<char>) -> Seq<char> {
    s.map_values(|c: char| lower_char(c))
}

/// ASCII-lowercases a string: `'A'` through `'Z'` become `'a'` through
/// `'z'`, all other characters are kept.
pub fn ascii_lowercase(s: &str) -> (r: String)
    ensures
        r@ == lower(s@),
{
    let n = s.unicode_len();
    let mut r = String::new();
    let mut i: usize = 0;
    while i < n
        invariant
            i <= n,
            n == s@.len(),
            r@ == lower(s@.take(i as int)),
        decreases n - i,
    {
        let c = s.get_char(i);
        if 'A' <= c && c <= 'Z' {
            push_char(&mut r, ((c as u8) + 32) as char);
        } else {
            push_char(&mut r, c);
        }
        i = i + 1;
        proof {
            assert(r@ =~= lower(s@.take(i as int)));
        }
    }
    proof {
        assert(s@.take(n as int) =~= s@);
    }
    r
}

} // verus!
