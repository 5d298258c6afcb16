//! The casing layer of the cipher.
//!
//! The mirror transform works on uppercased text, so the original casing is
//! read off first, one tag per character, and re-applied position by position
//! once the mirroring is done.

use vstd::prelude::*;
use vstd::string::StrSliceExecFns;

use crate::tables::is_ascii_lower;
use crate::tables::is_ascii_upper;

verus! {

/// The casing of one input character: an uppercase ASCII letter, a lowercase
/// ASCII letter, or anything else (digits, punctuation, whitespace, non-ASCII).
#[derive(PartialEq, Eq, Clone, Copy, Debug, Structural)]
pub enum Case {
    Upper,
    Lower,
    Symbol,
}

/// The case tag of a single character.
pub open spec fn case_of(c: char) -> Case {
    if is_ascii_upper(c) {
        Case::Upper
    } else if is_ascii_lower(c) {
        Case::Lower
    } else {
        Case::Symbol
    }
}

/// The case tags of a character sequence, one per character, in order.
pub open spec fn case_seq(s: Seq<char>) -> Seq<Case> {
    Seq::new(s.len(), |i: int| case_of(s[i]))
}

/// ASCII case folding to uppercase; characters without an uppercase ASCII
/// mapping are unchanged.
pub open spec fn to_upper_char(c: char) -> char {
    if is_ascii_lower(c) {
        ((c as int) - 32) as char
    } else {
        c
    }
}

/// ASCII case folding to lowercase; characters without a lowercase ASCII
/// mapping are unchanged.
pub open spec fn to_lower_char(c: char) -> char {
    if is_ascii_upper(c) {
        ((c as int) + 32) as char
    } else {
        c
    }
}

/// One character of the mirrored text, re-cased according to the tag taken
/// from the original input at the same position.
pub open spec fn apply_case_char(c: char, tag: Case) -> char {
    match tag {
        Case::Upper => to_upper_char(c),
        Case::Lower => to_lower_char(c),
        Case::Symbol => c,
    }
}

/// The mirrored text re-cased tag by tag, position by position.
pub open spec fn apply_case_seq(cs: Seq<char>, tags: Seq<Case>) -> Seq<char>
    recommends
        cs.len() == tags.len(),
{
    Seq::new(cs.len(), |i: int| apply_case_char(cs[i], tags[i]))
}

/// How the two foldings interact on the characters the cipher re-cases:
/// folding is idempotent in each direction and undoes the other direction on
/// ASCII letters, and folding to uppercase leaves every non-letter alone.
pub proof fn lemma_case_folding(c: char)
    ensures
        is_ascii_lower(c) ==> is_ascii_upper(to_upper_char(c)),
        is_ascii_upper(c) ==> is_ascii_lower(to_lower_char(c)),
        is_ascii_upper(c) ==> to_upper_char(to_lower_char(c)) == c,
        is_ascii_lower(c) ==> to_lower_char(to_upper_char(c)) == c,
        !is_ascii_lower(c) ==> to_upper_char(c) == c,
        !is_ascii_upper(c) ==> to_lower_char(c) == c,
{
}

/// ASCII case folding to uppercase of one character.
pub fn char_to_upper(c: char) -> (r: char)
    ensures
        r == to_upper_char(c),
{
    let u: u32 = c as u32;
    if 97 <= u && u <= 122 {
        ((c as u8) - 32) as char
    } else {
        c
    }
}

/// ASCII case folding to lowercase of one character.
pub fn char_to_lower(c: char) -> (r: char)
    ensures
        r == to_lower_char(c),
{
    let u: u32 = c as u32;
    if 65 <= u && u <= 90 {
        ((c as u8) + 32) as char
    } else {
        c
    }
}

/// Reads the current ASCII casing of a string, one tag per character, marking
/// every character that is not an ASCII letter as `Case::Symbol`.
pub fn get_casing(s: &str) -> (r: Vec<Case>)
    ensures
        r@ == case_seq(s@),
        r@.len() == s@.len(),
{
    let n = s.unicode_len();
    let mut r: Vec<Case> = Vec::new();
    let mut i: usize = 0;
    while i < n
        invariant
            n == s@.len(),
            i <= n,
            r@.len() == i,
            forall|j: int| 0 <= j < i ==> r@[j] == case_of(s@[j]),
        decreases n - i,
    {
        let c = s.get_char(i);
        let u: u32 = c as u32;
        let tag = if 65 <= u && u <= 90 {
            Case::Upper
        } else if 97 <= u && u <= 122 {
            Case::Lower
        } else {
            Case::Symbol
        };
        r.push(tag);
        i = i + 1;
    }
    proof {
        assert(r@ =~= case_seq(s@));
    }
    r
}

/// Re-applies previously read casing to a sequence of characters, position by
/// position. The two inputs come from the same text and must be of equal
/// length: one tag per character.
pub fn apply_casing(chars: &Vec<char>, casing: &Vec<Case>) -> (r: Vec<char>)
    requires
        chars@.len() == casing@.len(),
    ensures
        r@ == apply_case_seq(chars@, casing@),
        r@.len() == chars@.len(),
{
    let mut r: Vec<char> = Vec::new();
    let mut i: usize = 0;
    while i < chars.len()
        invariant
            chars@.len() == casing@.len(),
            i <= chars@.len(),
            r@.len() == i,
            forall|j: int| 0 <= j < i ==> r@[j] == apply_case_char(chars@[j], casing@[j]),
        decreases chars@.len() - i,
    {
        let recased = match casing[i] {
            Case::Upper => char_to_upper(chars[i]),
            Case::Lower => char_to_lower(chars[i]),
            Case::Symbol => chars[i],
        };
        r.push(recased);
        i = i + 1;
    }
    proof {
        assert(r@ =~= apply_case_seq(chars@, casing@));
    }
    r
}

} // verus!
