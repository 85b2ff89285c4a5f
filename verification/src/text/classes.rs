//! Kinds of characters: white space, case, and width in UTF-8.

use super::chars::chars_of;
use vstd::prelude::*;

verus! {

/// Whether `c` is white space: one of the characters with the Unicode
/// property `White_Space`.
pub open spec fn is_white_space(c: char) -> bool {
    let u = c as u32;
    (0x09 <= u <= 0x0D) || u == 0x20 || u == 0x85 || u == 0xA0 || u == 0x1680 || (0x2000 <= u
        <= 0x200A) || u == 0x2028 || u == 0x2029 || u == 0x202F || u == 0x205F || u == 0x3000
}

/// Decides [`is_white_space`].
pub fn is_whitespace(c: char) -> (r: bool)
    ensures
        r == is_white_space(c),
{
    let u = c as u32;
    (0x09 <= u && u <= 0x0D) || u == 0x20 || u == 0x85 || u == 0xA0 || u == 0x1680 || (0x2000
        <= u && u <= 0x200A) || u == 0x2028 || u == 0x2029 || u == 0x202F || u == 0x205F || u
        == 0x3000
}

/// The number of bytes that `c` takes in UTF-8.
pub open spec fn char_width(c: char) -> nat {
    let u = c as u32;
    if u < 0x80 {
        1
    } else if u < 0x800 {
        2
    } else if u < 0x10000 {
        3
    } else {
        4
    }
}

/// The number of bytes that `s` takes in UTF-8.
pub open spec fn utf8_len(s: Seq<char>) -> nat
    decreases s.len(),
{
    if s.len() == 0 {
        0
    } else {
        utf8_len(s.drop_last()) + char_width(s.last())
    }
}

/// Decides [`char_width`].
pub fn width_of(c: char) -> (w: usize)
    ensures
        w == char_width(c),
{
    let u = c as u32;
    if u < 0x80 {
        1
    } else if u < 0x800 {
        2
    } else if u < 0x10000 {
        3
    } else {
        4
    }
}

/// Whether the first `end` characters of `v` take more than `bound` bytes
/// in UTF-8.
pub fn exceeds_bytes(v: &Vec<char>, end: usize, bound: usize) -> (r: bool)
    requires
        end <= v.len(),
    ensures
        r == (utf8_len(v@.take(end as int)) > bound),
{
    let mut total: u128 = 0;
    let mut i: usize = 0;
    assert(v@.take(0) =~= Seq::<char>::empty());
    while i < end
        invariant
            i <= end <= v.len(),
            total == utf8_len(v@.take(i as int)),
            total <= 4 * i,
        decreases end - i,
    {
        assert(v@.take(i + 1).drop_last() =~= v@.take(i as int));
        total = total + width_of(v[i]) as u128;
        i += 1;
    }
    total > bound as u128
}

/// `c` in lower case if it is an upper-case letter of ASCII, else `c`.
pub open spec fn ascii_lower(c: char) -> char {
    if 'A' <= c <= 'Z' {
        ((c as u32) + 32) as char
    } else {
        c
    }
}

/// `s` with its upper-case letters of ASCII in lower case.
pub open spec fn ascii_lowered(s: Seq<char>) -> Seq<char> {
    s.map_values(|c: char| ascii_lower(c))
}

/// Whether `s` reads `word` once the upper-case letters of ASCII in `s`
/// are put in lower case. `word` is expected to hold no upper-case letter.
pub fn reads_as(s: &Vec<char>, word: &str) -> (r: bool)
    ensures
        r == (ascii_lowered(s@) == word@),
{
    let w = chars_of(word);
    if s.len() != w.len() {
        return false;
    }
    let mut i: usize = 0;
    while i < s.len()
        invariant
            s.len() == w.len(),
            w@ == word@,
            i <= s.len(),
            forall|k: int| 0 <= k < i ==> ascii_lower(s@[k]) == w@[k],
        decreases s.len() - i,
    {
        let c = s[i];
        let lower = if 'A' <= c && c <= 'Z' {
            lower_letter(c)
        } else {
            c
        };
        if lower != w[i] {
            assert(ascii_lowered(s@)[i as int] != word@[i as int]);
            return false;
        }
        i += 1;
    }
    assert(ascii_lowered(s@) =~= word@);
    true
}

/// The lower-case letter of an upper-case letter of ASCII.
fn lower_letter(c: char) -> (r: char)
    requires
        'A' <= c <= 'Z',
    ensures
        r == ascii_lower(c),
{
    let u = c as u32 + 32;
    u as u8 as char
}

} // verus!
