//! The mirror transform itself and the full cipher over strings.
//!
//! A character is first normalized to uppercase, then replaced by the entry at
//! the mirror-image position of its class table — digits, vowels, or
//! consonants — while characters of no class pass through; the casing read
//! from the original input is re-applied at the end. The whole map is an
//! involution, so the one function both encodes and decodes.

use vstd::prelude::*;
use vstd::string::StrSliceExecFns;

use crate::casing::apply_case_char;
use crate::casing::apply_casing;
use crate::casing::case_of;
use crate::casing::char_to_upper;
use crate::casing::get_casing;
use crate::casing::lemma_case_folding;
use crate::casing::to_upper_char;
use crate::tables::consonant_table;
use crate::tables::consonants;
use crate::tables::digit_table;
use crate::tables::digits;
use crate::tables::index_in;
use crate::tables::is_ascii_lower;
use crate::tables::is_ascii_upper;
use crate::tables::is_decimal_digit;
use crate::tables::lemma_digit_table_members;
use crate::tables::lemma_mirror_in_at;
use crate::tables::lemma_mirror_in_involution;
use crate::tables::lemma_tables_wf;
use crate::tables::mirror_in;
use crate::tables::table_contains;
use crate::tables::vowel_table;
use crate::tables::vowels;

verus! {

/// The mirror of one (already uppercased) character: the entry at the
/// mirror-image position of the first class table that holds it, or the
/// character itself when no table does.
pub open spec fn mirror_char(c: char) -> char {
    if digit_table().contains(c) {
        mirror_in(digit_table(), c)
    } else if vowel_table().contains(c) {
        mirror_in(vowel_table(), c)
    } else if consonant_table().contains(c) {
        mirror_in(consonant_table(), c)
    } else {
        c
    }
}

/// What the cipher does to one input character: read its case, mirror its
/// uppercase form within its class, then re-apply the original case.
pub open spec fn transform_char(c: char) -> char {
    apply_case_char(mirror_char(to_upper_char(c)), case_of(c))
}

/// What the cipher does to a whole character sequence: every character is
/// transformed independently, in place, so the output has the input's length.
pub open spec fn transform_seq(s: Seq<char>) -> Seq<char> {
    Seq::new(s.len(), |i: int| transform_char(s[i]))
}

/// Mirroring a character keeps its case tag: digits stay digits, uppercase
/// letters stay uppercase letters, and everything else is untouched.
pub proof fn lemma_mirror_char_case(c: char)
    ensures
        case_of(mirror_char(c)) == case_of(c),
{
    lemma_tables_wf();
    lemma_digit_table_members(c);
    if digit_table().contains(c) {
        lemma_mirror_in_involution(digit_table(), c);
        lemma_digit_table_members(mirror_in(digit_table(), c));
    } else if vowel_table().contains(c) {
        lemma_mirror_in_involution(vowel_table(), c);
    } else if consonant_table().contains(c) {
        lemma_mirror_in_involution(consonant_table(), c);
    }
}

/// The mirror of a mirrored character is the original character: each class
/// table is duplicate-free, the tables are disjoint, and mirroring an index
/// twice returns it.
pub proof fn lemma_mirror_char_involution(c: char)
    ensures
        mirror_char(mirror_char(c)) == c,
{
    lemma_tables_wf();
    if digit_table().contains(c) {
        lemma_mirror_in_involution(digit_table(), c);
    } else if vowel_table().contains(c) {
        lemma_mirror_in_involution(vowel_table(), c);
    } else if consonant_table().contains(c) {
        lemma_mirror_in_involution(consonant_table(), c);
    }
}

/// The cipher keeps each character's case tag: an uppercase letter maps to an
/// uppercase letter, a lowercase letter to a lowercase letter, and a character
/// that is no ASCII letter to another such character.
pub proof fn lemma_transform_char_case(c: char)
    ensures
        case_of(transform_char(c)) == case_of(c),
{
    lemma_case_folding(c);
    let m = mirror_char(to_upper_char(c));
    lemma_mirror_char_case(to_upper_char(c));
    lemma_case_folding(m);
}

/// The cipher is an involution on single characters: transforming a
/// transformed character returns the original, whatever the character.
pub proof fn lemma_transform_char_involution(c: char)
    ensures
        transform_char(transform_char(c)) == c,
{
    lemma_case_folding(c);
    let up = to_upper_char(c);
    let m = mirror_char(up);
    lemma_mirror_char_case(up);
    lemma_mirror_char_involution(up);
    lemma_case_folding(m);
    lemma_transform_char_case(c);
    let t = transform_char(c);
    lemma_case_folding(t);
}

/// The cipher is an involution on strings: transforming a transformed
/// sequence returns the original, character by character. This holds of every
/// character sequence, in particular of every string over ASCII letters,
/// digits, punctuation and whitespace.
pub proof fn lemma_transform_involution(s: Seq<char>)
    ensures
        transform_seq(transform_seq(s)) == s,
{
    assert forall|i: int| 0 <= i < s.len() implies transform_seq(transform_seq(s))[i] == s[i] by {
        lemma_transform_char_involution(s[i]);
    }
    assert(transform_seq(transform_seq(s)) =~= s);
}

/// The cipher preserves length: the output has exactly one character per
/// input character, at the same position.
pub proof fn lemma_transform_length(s: Seq<char>)
    ensures
        transform_seq(s).len() == s.len(),
{
}

/// The cipher preserves casing position by position: wherever the input holds
/// an uppercase letter the output holds an uppercase letter, wherever it holds
/// a lowercase letter the output holds a lowercase letter, and wherever it
/// holds no ASCII letter the output holds no ASCII letter.
pub proof fn lemma_transform_preserves_case(s: Seq<char>)
    ensures
        forall|i: int|
            0 <= i < s.len() ==> case_of(#[trigger] transform_seq(s)[i]) == case_of(s[i]),
{
    assert forall|i: int| 0 <= i < s.len() implies case_of(#[trigger] transform_seq(s)[i])
        == case_of(s[i]) by {
        lemma_transform_char_case(s[i]);
    }
}

/// Characters that are neither ASCII letters nor decimal digits — punctuation,
/// whitespace, non-ASCII — pass through the cipher unchanged.
pub proof fn lemma_transform_passthrough(c: char)
    requires
        !is_ascii_upper(c),
        !is_ascii_lower(c),
        !is_decimal_digit(c),
    ensures
        transform_char(c) == c,
{
    lemma_case_folding(c);
    lemma_tables_wf();
    lemma_digit_table_members(c);
}

/// The mirror of one character, computed by scanning the class tables exactly
/// as the specification orders them: digits first, then vowels, then
/// consonants, with everything else passing through.
pub fn inverse_char(c: char) -> (r: char)
    ensures
        r == mirror_char(c),
{
    let digit_chars = digits();
    if table_contains(&digit_chars, c) {
        let i = index_in(&digit_chars, c);
        proof {
            lemma_tables_wf();
            lemma_mirror_in_at(digit_table(), c, i as int);
        }
        digit_chars[digit_chars.len() - 1 - i]
    } else {
        let vowel_chars = vowels();
        if table_contains(&vowel_chars, c) {
            let i = index_in(&vowel_chars, c);
            proof {
                lemma_tables_wf();
                lemma_mirror_in_at(vowel_table(), c, i as int);
            }
            vowel_chars[vowel_chars.len() - 1 - i]
        } else {
            let consonant_chars = consonants();
            if table_contains(&consonant_chars, c) {
                let i = index_in(&consonant_chars, c);
                proof {
                    lemma_tables_wf();
                    lemma_mirror_in_at(consonant_table(), c, i as int);
                }
                consonant_chars[consonant_chars.len() - 1 - i]
            } else {
                c
            }
        }
    }
}

/// Relies on `String::push`: appends the one character to the end of the string.
#[verifier::external_body]
fn push_char(s: &mut String, c: char)
    ensures
        final(s)@ == old(s)@.push(c),
{
    s.push(c)
}

/// Encodes and decodes a string: reads the casing, uppercases, mirrors every
/// character within its class, and re-applies the casing. Since the encoding
/// is symmetric, the same function serves for both purposes.
pub fn inverse_string(input: &str) -> (r: String)
    ensures
        r@ == transform_seq(input@),
        r@.len() == input@.len(),
{
    let casing = get_casing(input);
    // the casing must be read first: the lookup tables hold uppercase
    // characters only, so the input is folded to uppercase before mirroring
    let n = input.unicode_len();
    let mut mirrored: Vec<char> = Vec::new();
    let mut i: usize = 0;
    while i < n
        invariant
            n == input@.len(),
            i <= n,
            mirrored@.len() == i,
            forall|j: int|
                0 <= j < i ==> mirrored@[j] == mirror_char(to_upper_char(input@[j])),
        decreases n - i,
    {
        let c = char_to_upper(input.get_char(i));
        mirrored.push(inverse_char(c));
        i = i + 1;
    }
    let recased = apply_casing(&mirrored, &casing);
    let mut r = String::new();
    let mut i: usize = 0;
    while i < recased.len()
        invariant
            r@.len() == i,
            i <= recased@.len(),
            forall|j: int| 0 <= j < i ==> r@[j] == recased@[j],
        decreases recased@.len() - i,
    {
        push_char(&mut r, recased[i]);
        i = i + 1;
    }
    proof {
        assert(r@ =~= transform_seq(input@));
    }
    r
}

} // verus!
