//! Surface-shape predicates: classify a token by what its characters look
//! like, without any dictionary lookup.

use crate::codec::is_digit_char;
use vstd::prelude::*;

verus! {

/// Whether `c` is a Latin letter.
pub open spec fn is_latin_char(c: char) -> bool {
    ('a' <= c && c <= 'z') || ('A' <= c && c <= 'Z')
}

/// Whether `c` is an ASCII punctuation character.
pub open spec fn is_punct_char(c: char) -> bool {
    ('!' <= c && c <= '/') || (':' <= c && c <= '@') || ('[' <= c && c <= '`') || ('{' <= c && c
        <= '~')
}

/// Whether `c` is a Roman numeral letter.
pub open spec fn is_roman_char(c: char) -> bool {
    c == 'I' || c == 'V' || c == 'X' || c == 'L' || c == 'C' || c == 'D' || c == 'M'
}

/// A nonempty word of Latin letters only.
pub open spec fn spec_is_latin(w: Seq<char>) -> bool {
    w.len() > 0 && forall|i: int| 0 <= i < w.len() ==> is_latin_char(w[i])
}

/// A nonempty word of punctuation characters only.
pub open spec fn spec_is_punctuation(w: Seq<char>) -> bool {
    w.len() > 0 && forall|i: int| 0 <= i < w.len() ==> is_punct_char(w[i])
}

/// A nonempty word of Roman numeral letters only.
pub open spec fn spec_is_roman_number(w: Seq<char>) -> bool {
    w.len() > 0 && forall|i: int| 0 <= i < w.len() ==> is_roman_char(w[i])
}

/// Where the digits start: one leading sign character is allowed.
pub open spec fn sign_ofs(w: Seq<char>) -> int {
    if w.len() > 0 && (w[0] == '-' || w[0] == '+') {
        1
    } else {
        0
    }
}

/// An optionally signed, nonempty run of decimal digits.
pub open spec fn spec_is_integer(w: Seq<char>) -> bool {
    let b = sign_ofs(w);
    &&& w.len() > b
    &&& forall|i: int| b <= i < w.len() ==> is_digit_char(w[i])
}

/// How many decimal points stand at or after position `i`.
pub open spec fn dots_from(w: Seq<char>, i: int) -> int
    decreases w.len() - i,
{
    if i < 0 || i >= w.len() {
        0
    } else {
        (if w[i] == '.' {
            1int
        } else {
            0int
        }) + dots_from(w, i + 1)
    }
}

/// An optionally signed decimal literal: digits and exactly one decimal
/// point, with at least two characters after the sign, so at least one
/// digit stands somewhere around the point.
pub open spec fn spec_is_real(w: Seq<char>) -> bool {
    let b = sign_ofs(w);
    &&& w.len() - b >= 2
    &&& (forall|i: int| b <= i < w.len() ==> is_digit_char(w[i]) || w[i] == '.')
    &&& dots_from(w, b) == 1
}

/// Whether the word is Latin-script text.
pub fn is_latin(w: &Vec<char>) -> (r: bool)
    ensures
        r == spec_is_latin(w@),
{
    if w.len() == 0 {
        return false;
    }
    let mut i: usize = 0;
    while i < w.len()
        invariant
            i <= w@.len(),
            forall|j: int| 0 <= j < i ==> is_latin_char(w@[j]),
        decreases w@.len() - i,
    {
        let c = w[i];
        if !((c >= 'a' && c <= 'z') || (c >= 'A' && c <= 'Z')) {
            return false;
        }
        i += 1;
    }
    true
}

/// Whether the word is punctuation only.
pub fn is_punctuation(w: &Vec<char>) -> (r: bool)
    ensures
        r == spec_is_punctuation(w@),
{
    if w.len() == 0 {
        return false;
    }
    let mut i: usize = 0;
    while i < w.len()
        invariant
            i <= w@.len(),
            forall|j: int| 0 <= j < i ==> is_punct_char(w@[j]),
        decreases w@.len() - i,
    {
        let c = w[i];
        if !((c >= '!' && c <= '/') || (c >= ':' && c <= '@') || (c >= '[' && c <= '`') || (c >= '{'
            && c <= '~')) {
            return false;
        }
        i += 1;
    }
    true
}

/// Whether the word is made of Roman numeral letters.
pub fn is_roman_number(w: &Vec<char>) -> (r: bool)
    ensures
        r == spec_is_roman_number(w@),
{
    if w.len() == 0 {
        return false;
    }
    let mut i: usize = 0;
    while i < w.len()
        invariant
            i <= w@.len(),
            forall|j: int| 0 <= j < i ==> is_roman_char(w@[j]),
        decreases w@.len() - i,
    {
        let c = w[i];
        if !(c == 'I' || c == 'V' || c == 'X' || c == 'L' || c == 'C' || c == 'D' || c == 'M') {
            return false;
        }
        i += 1;
    }
    true
}

/// Whether the word is an integer literal.
pub fn is_integer(w: &Vec<char>) -> (r: bool)
    ensures
        r == spec_is_integer(w@),
{
    if w.len() == 0 {
        return false;
    }
    let c0 = w[0];
    let b: usize = if c0 == '-' || c0 == '+' {
        1
    } else {
        0
    };
    if w.len() == b {
        return false;
    }
    let mut i: usize = b;
    while i < w.len()
        invariant
            b <= i <= w@.len(),
            b == sign_ofs(w@),
            forall|j: int| b <= j < i ==> is_digit_char(w@[j]),
        decreases w@.len() - i,
    {
        let c = w[i];
        if !(c >= '0' && c <= '9') {
            return false;
        }
        i += 1;
    }
    true
}

/// Whether the word is a real-number literal.
pub fn is_real(w: &Vec<char>) -> (r: bool)
    ensures
        r == spec_is_real(w@),
{
    if w.len() == 0 {
        return false;
    }
    let c0 = w[0];
    let b: usize = if c0 == '-' || c0 == '+' {
        1
    } else {
        0
    };
    if w.len() - b < 2 {
        return false;
    }
    let mut i: usize = b;
    let mut dots: usize = 0;
    while i < w.len()
        invariant
            b <= i <= w@.len(),
            b == sign_ofs(w@),
            dots <= i,
            forall|j: int| b <= j < i ==> is_digit_char(w@[j]) || w@[j] == '.',
            dots_from(w@, b as int) == dots + dots_from(w@, i as int),
        decreases w@.len() - i,
    {
        let c = w[i];
        if c == '.' {
            dots += 1;
        } else if !(c >= '0' && c <= '9') {
            return false;
        }
        i += 1;
    }
    dots == 1
}

} // verus!
