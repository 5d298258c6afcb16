//! The three class alphabets of the cipher and the index-mirroring rule.
//!
//! Every character that the cipher rewrites belongs to exactly one of three
//! fixed, ordered tables: decimal digits, uppercase vowels, or the remaining
//! uppercase consonants. A character maps to the entry at the mirror-image
//! position of its own table; everything outside the tables passes through.

use vstd::prelude::*;

verus! {

/// The ten decimal digits in ascending order: the mirror table of the digit class.
pub open spec fn digit_table() -> Seq<char> {
    seq!['0', '1', '2', '3', '4', '5', '6', '7', '8', '9']
}

/// The five uppercase vowels in alphabetical order: the mirror table of the vowel class.
pub open spec fn vowel_table() -> Seq<char> {
    seq!['A', 'E', 'I', 'O', 'U']
}

/// The twenty-one other uppercase letters in alphabetical order: the mirror
/// table of the consonant class.
pub open spec fn consonant_table() -> Seq<char> {
    seq![
        'B', 'C', 'D', 'F', 'G', 'H', 'J',
        'K', 'L', 'M', 'N', 'P', 'Q', 'R',
        'S', 'T', 'V', 'W', 'X', 'Y', 'Z',
    ]
}

/// The entry of `table` at the mirror-image position of `c`: index `i` maps to
/// index `len - 1 - i`.
pub open spec fn mirror_in(table: Seq<char>, c: char) -> char
    recommends
        table.contains(c),
{
    table[table.len() - 1 - table.index_of(c)]
}

/// `c` is one of the characters `'0'` through `'9'`.
pub open spec fn is_decimal_digit(c: char) -> bool {
    '0' <= c && c <= '9'
}

/// `c` is an uppercase ASCII letter.
pub open spec fn is_ascii_upper(c: char) -> bool {
    'A' <= c && c <= 'Z'
}

/// `c` is a lowercase ASCII letter.
pub open spec fn is_ascii_lower(c: char) -> bool {
    'a' <= c && c <= 'z'
}

/// The shape the three tables are built to: no table repeats a character, no
/// character appears in two tables, the digit table holds exactly the decimal
/// digits, and the letter tables hold uppercase letters only.
pub proof fn lemma_tables_wf()
    ensures
        digit_table().no_duplicates(),
        vowel_table().no_duplicates(),
        consonant_table().no_duplicates(),
        digit_table().disjoint(vowel_table()),
        digit_table().disjoint(consonant_table()),
        vowel_table().disjoint(consonant_table()),
        forall|i: int|
            0 <= i < digit_table().len() ==> is_decimal_digit(#[trigger] digit_table()[i]),
        forall|i: int|
            0 <= i < vowel_table().len() ==> is_ascii_upper(#[trigger] vowel_table()[i]),
        forall|i: int|
            0 <= i < consonant_table().len() ==> is_ascii_upper(#[trigger] consonant_table()[i]),
{
}

/// A character is in the digit table exactly when it is a decimal digit.
pub proof fn lemma_digit_table_members(c: char)
    ensures
        digit_table().contains(c) <==> is_decimal_digit(c),
{
    if is_decimal_digit(c) {
        assert(digit_table()[c as int - 48] == c);
    }
    lemma_tables_wf();
}

/// Mirroring within a duplicate-free table stays inside the table and is its
/// own inverse: mirroring the mirrored character returns the original.
pub proof fn lemma_mirror_in_involution(table: Seq<char>, c: char)
    requires
        table.no_duplicates(),
        table.contains(c),
    ensures
        table.contains(mirror_in(table, c)),
        mirror_in(table, mirror_in(table, c)) == c,
{
    let i = table.index_of(c);
    assert(0 <= i < table.len() && table[i] == c);
    let j = table.len() - 1 - i;
    let m = table[j];
    assert(table.contains(m));
    let k = table.index_of(m);
    assert(0 <= k < table.len() && table[k] == m);
    assert(k == j);
}

/// Ties an index found by a table scan to the mirror rule: if `c` sits at
/// index `i` of a duplicate-free table, its mirror is the entry at the
/// opposite index.
pub proof fn lemma_mirror_in_at(table: Seq<char>, c: char, i: int)
    requires
        table.no_duplicates(),
        0 <= i < table.len(),
        table[i] == c,
    ensures
        mirror_in(table, c) == table[table.len() - 1 - i],
{
    assert(table.contains(c));
    let k = table.index_of(c);
    assert(0 <= k < table.len() && table[k] == c);
    assert(k == i);
}

/// The digit table as a vector, for the table scans of the executable cipher.
pub fn digits() -> (t: Vec<char>)
    ensures
        t@ == digit_table(),
{
    let mut t: Vec<char> = Vec::new();
    t.push('0');
    t.push('1');
    t.push('2');
    t.push('3');
    t.push('4');
    t.push('5');
    t.push('6');
    t.push('7');
    t.push('8');
    t.push('9');
    proof {
        assert(t@ =~= digit_table());
    }
    t
}

/// The vowel table as a vector, for the table scans of the executable cipher.
pub fn vowels() -> (t: Vec<char>)
    ensures
        t@ == vowel_table(),
{
    let mut t: Vec<char> = Vec::new();
    t.push('A');
    t.push('E');
    t.push('I');
    t.push('O');
    t.push('U');
    proof {
        assert(t@ =~= vowel_table());
    }
    t
}

/// The consonant table as a vector, for the table scans of the executable cipher.
pub fn consonants() -> (t: Vec<char>)
    ensures
        t@ == consonant_table(),
{
    let mut t: Vec<char> = Vec::new();
    t.push('B');
    t.push('C');
    t.push('D');
    t.push('F');
    t.push('G');
    t.push('H');
    t.push('J');
    t.push('K');
    t.push('L');
    t.push('M');
    t.push('N');
    t.push('P');
    t.push('Q');
    t.push('R');
    t.push('S');
    t.push('T');
    t.push('V');
    t.push('W');
    t.push('X');
    t.push('Y');
    t.push('Z');
    proof {
        assert(t@ =~= consonant_table());
    }
    t
}

/// Whether `c` occurs anywhere in `table`.
pub fn table_contains(table: &Vec<char>, c: char) -> (r: bool)
    ensures
        r == table@.contains(c),
{
    let mut i: usize = 0;
    while i < table.len()
        invariant
            i <= table@.len(),
            forall|j: int| 0 <= j < i ==> table@[j] != c,
        decreases table@.len() - i,
    {
        if table[i] == c {
            return true;
        }
        i = i + 1;
    }
    false
}

/// Checks whether a char is in the vowel table.
pub fn is_vowel(c: char) -> (r: bool)
    ensures
        r == vowel_table().contains(c),
{
    let t = vowels();
    table_contains(&t, c)
}

/// Checks whether a char is in the consonant table.
pub fn is_consonant(c: char) -> (r: bool)
    ensures
        r == consonant_table().contains(c),
{
    let t = consonants();
    table_contains(&t, c)
}

/// The index at which `c` occurs in `table`; `c` must be present.
pub fn index_in(table: &Vec<char>, c: char) -> (i: usize)
    requires
        table@.contains(c),
    ensures
        i < table@.len(),
        table@[i as int] == c,
{
    let mut i: usize = 0;
    while i < table.len()
        invariant
            i <= table@.len(),
            forall|j: int| 0 <= j < i ==> table@[j] != c,
        decreases table@.len() - i,
    {
        if table[i] == c {
            return i;
        }
        i = i + 1;
    }
    proof {
        assert(false);
    }
    0
}

} // verus!
