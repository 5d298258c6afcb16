use mcduff::inverse_char;
use mcduff::inverse_string;

#[test]
fn make_sure_they_die() {
    assert_eq!(inverse_string("Make sure they die."), "Puro jako htoc xio.");
}

#[test]
fn grumpy_wizard() {
    assert_eq!(
        inverse_string("Grumpy wizard makes toxic brew for the evil Queen and Jack."),
        "Vkapmc fibukx puroj hediy zkof wek hto ogiq Laoon unx Suyr."
    );
}

#[test]
fn empty_string() {
    assert_eq!(inverse_string(""), "");
}

#[test]
fn digit_five_mirrors_to_four() {
    assert_eq!(inverse_string("5"), "4");
}

#[test]
fn vowel_endpoints_swap() {
    assert_eq!(inverse_string("A"), "U");
    assert_eq!(inverse_string("U"), "A");
}

#[test]
fn middle_vowel_is_fixed_point() {
    assert_eq!(inverse_string("I"), "I");
    assert_eq!(inverse_string("i"), "i");
    assert_eq!(inverse_char('I'), 'I');
}

#[test]
fn middle_consonant_is_fixed_point() {
    assert_eq!(inverse_char('N'), 'N');
}

#[test]
fn digit_class_mirrors() {
    assert_eq!(inverse_string("0123456789"), "9876543210");
}

#[test]
fn consonant_endpoints_swap() {
    assert_eq!(inverse_char('B'), 'Z');
    assert_eq!(inverse_char('Z'), 'B');
}

#[test]
fn inverse_char_leaves_lowercase_alone() {
    // the class tables hold uppercase characters only; the string transform
    // uppercases before mirroring, the bare mirror does not
    assert_eq!(inverse_char('a'), 'a');
    assert_eq!(inverse_char('.'), '.');
}

#[test]
fn involution_on_sample_strings() {
    let samples = [
        "Make sure they die.",
        "Grumpy wizard makes toxic brew for the evil Queen and Jack.",
        "",
        "5",
        "MiXeD CaSe 0123456789 !?.,'\"",
        "punctuation only: .,!? '\"",
    ];
    for s in samples {
        assert_eq!(inverse_string(&inverse_string(s)), s);
    }
}

#[test]
fn involution_with_non_ascii() {
    let s = "caf\u{e9} na\u{ef}ve \u{4e2d}\u{6587} 42!";
    assert_eq!(inverse_string(&inverse_string(s)), s);
}

#[test]
fn length_is_preserved() {
    let samples = ["Make sure they die.", "", "5", "abcXYZ 987", "\u{e9}\u{df}\u{4e2d}"];
    for s in samples {
        assert_eq!(inverse_string(s).chars().count(), s.chars().count());
    }
}

#[test]
fn casing_is_preserved_per_position() {
    let out = inverse_string("AbC dEf 12!");
    for (i, o) in "AbC dEf 12!".chars().zip(out.chars()) {
        assert_eq!(i.is_ascii_uppercase(), o.is_ascii_uppercase());
        assert_eq!(i.is_ascii_lowercase(), o.is_ascii_lowercase());
    }
}

#[test]
fn symbols_pass_through() {
    assert_eq!(inverse_string(".,!? '\"\t\n-_"), ".,!? '\"\t\n-_");
    assert_eq!(inverse_string("\u{e9}\u{df}\u{4e2d}"), "\u{e9}\u{df}\u{4e2d}");
}
