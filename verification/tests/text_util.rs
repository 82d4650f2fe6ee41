use hermit_core::text_util::{clean_words, fold_char, get_clean_value};

#[test]
fn lowercases_and_strips_diacritics() {
    assert_eq!(get_clean_value("Amélie"), "amelie");
    assert_eq!(get_clean_value("Motörhead"), "motorhead");
}

#[test]
fn punctuation_becomes_collapsed_spaces() {
    assert_eq!(
        get_clean_value("Spider-Man: No Way Home"),
        "spider man no way home"
    );
    assert_eq!(get_clean_value("A.I."), "a i");
}

#[test]
fn blank_input_is_returned_unchanged() {
    assert_eq!(get_clean_value(""), "");
    assert_eq!(get_clean_value("   "), "   ");
}

#[test]
fn digits_are_kept() {
    assert_eq!(
        get_clean_value("2001: A Space Odyssey"),
        "2001 a space odyssey"
    );
}

#[test]
fn words_are_cleaned_after_lowering() {
    assert_eq!(clean_words("a--b  c"), "a b c");
    assert_eq!(fold_char('é'), vec!['e']);
    assert_eq!(fold_char('x'), vec!['x']);
}

#[test]
fn letters_of_other_scripts_are_kept() {
    assert_eq!(get_clean_value("Москва!"), "москва");
}

#[test]
fn letters_of_latin_extended_a_are_folded() {
    assert_eq!(get_clean_value("Čapek"), "capek");
    assert_eq!(get_clean_value("Łódź"), "lodz");
    assert_eq!(get_clean_value("Dvořák"), "dvorak");
    assert_eq!(get_clean_value("Œuvre"), "oeuvre");
    assert_eq!(get_clean_value("Ğ İstanbul ış"), "g istanbul is");
    assert_eq!(fold_char('Ĳ'), vec!['i', 'j']);
    assert_eq!(fold_char('ŋ'), vec!['ŋ']);
}

#[test]
fn what_separates_words_does_not_matter() {
    for sep in [" ", "--", " : ", "\t.\n"] {
        let whole = format!("Spider{sep}Man");
        let parts = format!("{} {}", get_clean_value("Spider"), get_clean_value("Man"));
        assert_eq!(get_clean_value(&whole), parts);
    }
    let whole = format!("{}{}{}", "-A.", "!?", "(b) ");
    assert_eq!(
        get_clean_value(&whole),
        format!("{} {}", get_clean_value("-A."), get_clean_value("(b) "))
    );
}

#[test]
fn case_is_lost_and_cleaning_again_changes_nothing() {
    for name in ["Spider-Man: No Way Home", " A.I. ", "--", "x"] {
        let clean = get_clean_value(name);
        assert_eq!(get_clean_value(&clean), clean);
        assert_eq!(get_clean_value(&name.to_ascii_uppercase()), clean);
    }
}

#[test]
fn a_letter_that_is_folded_only_in_lower_case_is_cleaned_in_two_steps() {
    assert_eq!(get_clean_value("\u{212b}"), "\u{e5}");
    assert_eq!(get_clean_value("\u{e5}"), "a");
    for name in ["Am\u{e9}lie", "\u{4e09}\u{56fd} 2"] {
        let clean = get_clean_value(name);
        assert_eq!(get_clean_value(&clean), clean);
    }
}
