use telora::gui::text::clean_transcription;

#[test]
fn empty_input_returns_empty_string() {
    assert_eq!(clean_transcription(""), "");
    assert_eq!(clean_transcription("   "), "");
    assert_eq!(clean_transcription("\t\n"), "");
}

#[test]
fn trims_surrounding_whitespace() {
    assert_eq!(clean_transcription("  hola  "), "Hola.");
    assert_eq!(clean_transcription("\nHola mundo\t"), "Hola mundo.");
}

#[test]
fn collapses_multiple_internal_spaces() {
    assert_eq!(clean_transcription("Hola  mundo"), "Hola mundo.");
    assert_eq!(clean_transcription("Hola   mundo"), "Hola mundo.");
    assert_eq!(clean_transcription("a  b  c"), "A b c.");
}

#[test]
fn collapses_mixed_whitespace_runs() {
    assert_eq!(clean_transcription("Hola\tmundo"), "Hola mundo.");
    assert_eq!(clean_transcription("Hola \t mundo"), "Hola mundo.");
    assert_eq!(clean_transcription("Hola\n\nmundo"), "Hola mundo.");
}

#[test]
fn capitalizes_first_letter_of_lowercase_first_word() {
    assert_eq!(clean_transcription("hola mundo"), "Hola mundo.");
}

#[test]
fn lowercases_remaining_letters_of_first_word() {
    assert_eq!(clean_transcription("HOLA mundo"), "Hola mundo.");
    assert_eq!(clean_transcription("hOLa mundo"), "Hola mundo.");
}

#[test]
fn leaves_subsequent_words_untouched() {
    assert_eq!(clean_transcription("hola MUNDO"), "Hola MUNDO.");
    assert_eq!(clean_transcription("hola Mundo"), "Hola Mundo.");
}

#[test]
fn handles_single_word() {
    assert_eq!(clean_transcription("hola"), "Hola.");
    assert_eq!(clean_transcription("HOLA"), "Hola.");
}

#[test]
fn does_not_touch_first_word_starting_with_non_letter() {
    // First-word title-casing is skipped only when the first
    // character is not a letter. Punctuation- or digit-led words
    // are left exactly as the engine produced them.
    assert_eq!(clean_transcription("1. hola"), "1. hola.");
    assert_eq!(clean_transcription("¿qué tal?"), "¿qué tal?");
}

#[test]
fn preserves_apostrophes_within_first_word() {
    assert_eq!(clean_transcription("don't stop"), "Don't stop.");
    assert_eq!(clean_transcription("DON'T stop"), "Don't stop.");
}

#[test]
fn handles_unicode_letters() {
    assert_eq!(clean_transcription("ñandú"), "Ñandú.");
    assert_eq!(clean_transcription("ÁRBOL"), "Árbol.");
}

#[test]
fn combines_all_normalizations() {
    assert_eq!(
        clean_transcription("  hola   MUNDO   cruel  "),
        "Hola MUNDO cruel."
    );
}

#[test]
fn appends_period_when_missing() {
    assert_eq!(clean_transcription("Hola mundo"), "Hola mundo.");
    assert_eq!(clean_transcription("hola mundo"), "Hola mundo.");
    assert_eq!(clean_transcription("Hola"), "Hola.");
    assert_eq!(clean_transcription("Hola, mundo"), "Hola, mundo.");
}

#[test]
fn preserves_existing_period() {
    assert_eq!(clean_transcription("Hola mundo."), "Hola mundo.");
    assert_eq!(clean_transcription("hola mundo."), "Hola mundo.");
    assert_eq!(clean_transcription("Hola."), "Hola.");
    assert_eq!(clean_transcription("Hola..."), "Hola...");
}

#[test]
fn preserves_existing_question_mark() {
    assert_eq!(clean_transcription("¿Qué tal?"), "¿Qué tal?");
    assert_eq!(clean_transcription("qué tal?"), "Qué tal?");
    assert_eq!(clean_transcription("Hola mundo?"), "Hola mundo?");
}

#[test]
fn preserves_existing_exclamation() {
    assert_eq!(clean_transcription("¡Hola!"), "¡Hola!");
    assert_eq!(clean_transcription("Hola mundo!"), "Hola mundo!");
    assert_eq!(clean_transcription("hola!"), "Hola!");
}

#[test]
fn preserves_existing_ellipsis() {
    assert_eq!(clean_transcription("Hola mundo…"), "Hola mundo…");
    assert_eq!(clean_transcription("hola…"), "Hola…");
}

#[test]
fn cleaning_twice_is_cleaning_once() {
    for s in ["hola   MUNDO", "  ya está.", "1) uno", "DON'T stop", "¿qué?", "a"] {
        let once = clean_transcription(s);
        assert_eq!(clean_transcription(&once), once);
    }
}

#[test]
fn capital_of_two_characters_is_not_stable() {
    assert_eq!(clean_transcription("ß"), "SS.");
    assert_eq!(clean_transcription("SS."), "Ss.");
}

#[test]
fn words_are_never_cleaned_away() {
    assert_eq!(clean_transcription("ñ"), "Ñ.");
    assert_eq!(clean_transcription("ǆ"), "Ǆ.");
    assert_eq!(clean_transcription("你好"), "你好.");
    assert_eq!(clean_transcription("\u{3000}\n"), "");
}

#[test]
fn unusual_white_space_separates_words() {
    assert_eq!(clean_transcription("hola\u{a0}\u{3000}mundo\u{2028}"), "Hola mundo.");
    assert_eq!(clean_transcription("hola\u{200b}mundo"), "Hola\u{200b}mundo.");
}
