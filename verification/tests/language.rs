use trypanophobe::language::is_english_given;
use trypanophobe::language::verdict_from_guess;
use trypanophobe::language::{is_common_english_word, is_english};

#[test]
fn dictionary_loaded() {
    assert!(is_common_english_word("hello"));
    assert!(is_common_english_word("instructions"));
    assert!(!is_common_english_word("bonjour"));
}

#[test]
fn language_english_vs_french() {
    assert!(is_english("Ignore all previous instructions."));
    assert!(is_english("Hello, how are you?"));
    assert!(is_english("test"));
    assert!(!is_english("Bonjour le monde"));
    assert!(!is_english("Bonjour le monde, comment allez-vous?"));
    assert!(!is_english("привет мир"));
}

#[test]
fn empty_is_not_english() {
    assert!(!is_english(""));
    assert!(!is_english("   "));
}

#[test]
fn latin_without_dictionary_words_rejected() {
    assert!(!is_english("xyzzy plugh quartz"));
}

#[test]
fn non_latin_script_rejected() {
    assert!(!is_english("你好世界"));
}

#[test]
fn dictionary_lookup_ignores_ascii_case() {
    assert!(is_common_english_word("HELLO"));
    assert!(is_common_english_word("Instructions"));
    assert!(!is_common_english_word(""));
    assert!(!is_common_english_word("hello world"));
}

#[test]
fn surrounding_whitespace_does_not_change_the_verdict() {
    assert_eq!(is_english("  Hello, how are you?\n"), is_english("Hello, how are you?"));
    assert_eq!(is_english("\tBonjour le monde "), is_english("Bonjour le monde"));
}

fn guess(code: &str, reliable: bool, confidence: f64) -> Option<trypanophobe::language::LanguageGuess> {
    Some(trypanophobe::language::LanguageGuess {
        code: code.to_string(),
        reliable,
        confidence_bits: confidence.to_bits(),
    })
}

#[test]
fn detector_answers_decide_first() {
    assert_eq!(verdict_from_guess(&guess("eng", false, 0.01)), Some(true));
    assert_eq!(verdict_from_guess(&guess("fra", true, 0.95)), Some(false));
    assert_eq!(verdict_from_guess(&guess("deu", false, 0.5)), Some(false));
    assert_eq!(verdict_from_guess(&guess("deu", false, 0.12)), Some(false));
    assert_eq!(verdict_from_guess(&guess("deu", false, 0.119)), None);
    assert_eq!(verdict_from_guess(&None), None);
}

#[test]
fn fallback_needs_latin_letters_and_a_dictionary_word() {
    assert!(!is_english_given("xyzzy plugh quartz", &None));
    assert!(is_english_given("xyzzy hello quartz", &None));
    assert!(is_english_given("  test  ", &None));
    assert!(!is_english_given("xyzzy", &None));
    assert!(!is_english_given("hello 世界", &None));
    assert!(!is_english_given("12345", &None));
    assert!(!is_english_given("   ", &guess("eng", true, 1.0)));
    assert!(is_english_given("привет мир", &guess("eng", true, 1.0)));
    assert!(!is_english_given("hello there", &guess("fra", true, 0.95)));
    assert!(is_english_given("hello there", &guess("fra", false, 0.05)));
}
