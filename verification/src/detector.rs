//! The decisions of the classifier front end: its own English filter (with a
//! short list of hint words) and the label read off the model's output.
use vstd::prelude::*;

use crate::language::{
    detect_trimmed, detection_verdict, guess_view, is_ascii_latin_letters, latin_letters_only,
    verdict_from_guess, verdict_of_guess, whatlang_guess, LanguageGuess,
};
use crate::text::{
    chars_of, char_views, eq_ignore_ascii_case, lemma_trimmed_idempotent, runs,
    same_chars_ignore_ascii_case, split_runs, trim_chars, trimmed, RunKind,
};
use crate::types::CheckResult;

verus! {

/// Words whose presence marks a Latin-script text as English, one per line.
pub const HINT_WORDS: &'static str = "a\nan\nthe\nand\nor\nnot\nno\nyes\nif\nto\nof\nin\non\nfor\nis\nare\nwas\nwere\n\
    be\nbeen\nam\ndo\ndoes\ndid\ncan\nwill\nwould\nshould\nmust\nmay\ni\nyou\nyour\n\
    we\nthey\nit\nthis\nthat\nthese\nthose\nall\nany\nsome\nhow\nwhat\nwhen\nwhere\n\
    why\nwho\nhello\nignore\nprevious\ninstructions\nsystem\nuser\nassistant\n\
    prompt\nplease\nhelp\nshow\nrun\nexecute\n";

/// The hint words.
pub open spec fn hints() -> Seq<Seq<char>> {
    runs(HINT_WORDS@, RunKind::Line)
}

/// Some word of `words` equals a hint word, ignoring ASCII case.
pub open spec fn has_hint(words: Seq<Seq<char>>) -> bool {
    exists|i: int, j: int|
        0 <= i < words.len() && 0 <= j < hints().len() && #[trigger] eq_ignore_ascii_case(words[i], hints()[j])
}

/// The fallback for texts the detector leaves open: ASCII Latin letters
/// only, and one word or none, or a hint word among them.
pub open spec fn hint_fallback(t: Seq<char>) -> bool {
    latin_letters_only(t) && (runs(t, RunKind::Word).len() <= 1 || has_hint(runs(t, RunKind::Word)))
}

/// The classifier's English filter on a text (before trimming), given the
/// detector's answer on the trimmed text.
pub open spec fn english_by_hints_given(text: Seq<char>, guess: Option<(Seq<char>, bool, u64)>) -> bool {
    let t = trimmed(text);
    t.len() > 0 && match verdict_of_guess(guess) {
        Some(b) => b,
        None => hint_fallback(t),
    }
}

/// The classifier's English filter on a text (before trimming).
pub open spec fn english_by_hints(text: Seq<char>) -> bool {
    english_by_hints_given(text, whatlang_guess(trimmed(text)))
}

/// Whether some word of `words` is a hint word, ignoring ASCII case.
fn has_english_word_hints(words: &Vec<Vec<char>>) -> (r: bool)
    ensures
        r == has_hint(char_views(words@)),
{
    let all = chars_of(HINT_WORDS);
    let hint_list = split_runs(&all, RunKind::Line);
    let mut i: usize = 0;
    while i < words.len()
        invariant
            i <= words.len(),
            char_views(hint_list@) == hints(),
            forall|a: int, b: int|
                0 <= a < i && 0 <= b < hints().len() ==> !#[trigger] eq_ignore_ascii_case(char_views(words@)[a], hints()[b]),
        decreases words.len() - i,
    {
        let mut j: usize = 0;
        while j < hint_list.len()
            invariant
                i < words.len(),
                j <= hint_list.len(),
                char_views(hint_list@) == hints(),
                forall|a: int, b: int|
                    0 <= a < i && 0 <= b < hints().len() ==> !#[trigger] eq_ignore_ascii_case(char_views(words@)[a], hints()[b]),
                forall|b: int| 0 <= b < j ==> !#[trigger] eq_ignore_ascii_case(char_views(words@)[i as int], hints()[b]),
            decreases hint_list.len() - j,
        {
            if same_chars_ignore_ascii_case(&words[i], &hint_list[j]) {
                assert(eq_ignore_ascii_case(char_views(words@)[i as int], hints()[j as int]));
                return true;
            }
            j = j + 1;
        }
        i = i + 1;
    }
    false
}

/// The fallback check on a trimmed text: Latin letters only, and at most one
/// word or a hint word among them.
fn english_latin_fallback(t: &Vec<char>) -> (r: bool)
    ensures
        r == hint_fallback(t@),
{
    if !is_ascii_latin_letters(t) {
        return false;
    }
    let words = split_runs(t, RunKind::Word);
    if words.len() <= 1 {
        return true;
    }
    has_english_word_hints(&words)
}

/// Whether `text` passes the classifier's English filter: trimmed, it is not
/// empty, and the detector names English, or leaves the question open and
/// the text is in Latin letters with at most one word or a hint word.
pub fn is_english(text: &str) -> (r: bool)
    ensures
        r == english_by_hints(text@),
{
    let chars = chars_of(text);
    let t = trim_chars(&chars);
    if t.len() == 0 {
        return false;
    }
    let guess = detect_trimmed(&t);
    is_english_by_hints_given(text, &guess)
}

/// The classifier's filter given the detector's answer `guess` on the
/// trimmed text.
pub fn is_english_by_hints_given(text: &str, guess: &Option<LanguageGuess>) -> (r: bool)
    ensures
        r == english_by_hints_given(text@, guess_view(*guess)),
{
    let chars = chars_of(text);
    let t = trim_chars(&chars);
    if t.len() == 0 {
        return false;
    }
    match verdict_from_guess(guess) {
        Some(b) => b,
        None => english_latin_fallback(&t),
    }
}

/// The answer given without the model: the rejection when `text` fails the
/// filter, nothing when the model has to decide.
pub fn screen(text: &str) -> (r: Option<CheckResult>)
    ensures
        r is Some <==> !english_by_hints(text@),
        r matches Some(res) ==> res.is_rejection(),
{
    if !is_english(text) {
        Some(CheckResult::rejected_non_english())
    } else {
        None
    }
}

/// Index of the injection label among the model's outputs.
pub const INJECTION_LABEL_INDEX: usize = 1;

/// The result for the label the model ranked first (`label_idx`) and its
/// score: label 1 is `INJECTION`, any other is `SAFE`.
pub fn result_for_label(label_idx: usize, score_bits: u32) -> (r: CheckResult)
    ensures
        label_idx == INJECTION_LABEL_INDEX ==> r.is_model_answer("INJECTION"@, true, score_bits),
        label_idx != INJECTION_LABEL_INDEX ==> r.is_model_answer("SAFE"@, false, score_bits),
{
    if label_idx == INJECTION_LABEL_INDEX {
        CheckResult::from_model("INJECTION", true, score_bits)
    } else {
        CheckResult::from_model("SAFE", false, score_bits)
    }
}

/// Whitespace around a text does not change the classifier's filter.
pub proof fn law_hint_filter_ignores_surrounding_whitespace(text: Seq<char>)
    ensures
        english_by_hints(trimmed(text)) == english_by_hints(text),
{
    lemma_trimmed_idempotent(text);
}

/// A single word in ASCII Latin letters passes the classifier's filter
/// unless the detector rejects it.
pub proof fn law_single_latin_word_passes(text: Seq<char>)
    requires
        trimmed(text).len() > 0,
        detection_verdict(trimmed(text)) is None,
        latin_letters_only(trimmed(text)),
        runs(trimmed(text), RunKind::Word).len() <= 1,
    ensures
        english_by_hints(text),
{
}

/// Any word, wherever it stands among the words, that is a hint word in
/// any ASCII case makes the words carry a hint.
pub proof fn law_any_hint_word_counts(words: Seq<Seq<char>>, i: int, j: int)
    requires
        0 <= i < words.len(),
        0 <= j < hints().len(),
        eq_ignore_ascii_case(words[i], hints()[j]),
    ensures
        has_hint(words),
{
}

/// When the detector leaves the question open, a text in ASCII Latin
/// letters with a hint word at any position passes the classifier's filter.
pub proof fn law_hint_word_passes_open_verdict(
    text: Seq<char>,
    guess: Option<(Seq<char>, bool, u64)>,
    i: int,
    j: int,
)
    requires
        trimmed(text).len() > 0,
        verdict_of_guess(guess) is None,
        latin_letters_only(trimmed(text)),
        0 <= i < runs(trimmed(text), RunKind::Word).len(),
        0 <= j < hints().len(),
        eq_ignore_ascii_case(runs(trimmed(text), RunKind::Word)[i], hints()[j]),
    ensures
        english_by_hints_given(text, guess),
{
    law_any_hint_word_counts(runs(trimmed(text), RunKind::Word), i, j);
}

/// A text that the detector reliably places in a language other than
/// English fails the classifier's filter.
pub proof fn law_hint_filter_rejects_reliable_other_language(text: Seq<char>)
    requires
        whatlang_guess(trimmed(text)) matches Some(g) && g.0 != "eng"@ && g.1,
    ensures
        !english_by_hints(text),
{
}

/// A text that passes the classifier's filter while the detector leaves
/// the question open is in ASCII Latin letters and has at most one word or
/// a hint word among its words.
pub proof fn law_open_verdict_pass_needs_latin_hint(text: Seq<char>, guess: Option<(Seq<char>, bool, u64)>)
    requires
        verdict_of_guess(guess) is None,
        english_by_hints_given(text, guess),
    ensures
        trimmed(text).len() > 0,
        latin_letters_only(trimmed(text)),
        runs(trimmed(text), RunKind::Word).len() <= 1 || exists|i: int, j: int|
            0 <= i < runs(trimmed(text), RunKind::Word).len() && 0 <= j < hints().len()
                && #[trigger] eq_ignore_ascii_case(runs(trimmed(text), RunKind::Word)[i], hints()[j]),
{
}

} // verus!
