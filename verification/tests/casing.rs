use mcduff::apply_casing;
use mcduff::get_casing;
use mcduff::is_consonant;
use mcduff::is_vowel;
use mcduff::Case;

#[test]
fn get_casing_tags_letters_and_symbols() {
    assert_eq!(
        get_casing("Hello!"),
        vec![Case::Upper, Case::Lower, Case::Lower, Case::Lower, Case::Lower, Case::Symbol]
    );
}

#[test]
fn get_casing_marks_digits_and_non_ascii_as_symbols() {
    assert_eq!(get_casing("4\u{e9} "), vec![Case::Symbol, Case::Symbol, Case::Symbol]);
}

#[test]
fn get_casing_of_empty_string() {
    assert_eq!(get_casing(""), vec![]);
}

#[test]
fn apply_casing_recases_per_tag() {
    let chars = vec!['P', 'U', 'R', 'O', '.'];
    let casing = vec![Case::Upper, Case::Lower, Case::Lower, Case::Lower, Case::Symbol];
    assert_eq!(apply_casing(&chars, &casing), vec!['P', 'u', 'r', 'o', '.']);
}

#[test]
fn apply_casing_leaves_symbols_exactly_as_given() {
    let chars = vec!['7', '\u{e9}', 'x'];
    let casing = vec![Case::Symbol, Case::Symbol, Case::Symbol];
    assert_eq!(apply_casing(&chars, &casing), vec!['7', '\u{e9}', 'x']);
}

#[test]
fn vowel_table_membership() {
    for c in ['A', 'E', 'I', 'O', 'U'] {
        assert!(is_vowel(c));
    }
    assert!(!is_vowel('a'));
    assert!(!is_vowel('B'));
    assert!(!is_vowel('0'));
}

#[test]
fn consonant_table_membership() {
    for c in ['B', 'C', 'Q', 'Z'] {
        assert!(is_consonant(c));
    }
    assert!(!is_consonant('A'));
    assert!(!is_consonant('b'));
    assert!(!is_consonant('!'));
}

#[test]
fn index_in_finds_table_positions() {
    let digits = mcduff::tables::digits();
    assert_eq!(mcduff::tables::index_in(&digits, '7'), 7);
    let consonants = mcduff::tables::consonants();
    assert_eq!(mcduff::tables::index_in(&consonants, 'Z'), 20);
}
