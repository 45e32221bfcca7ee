//! The decisions of the HTTP interface: how a check request is answered
//! before the classifier is involved, and which origins CORS admits.
use vstd::prelude::*;

use crate::detector::{english_by_hints, is_english};
use crate::text::{chars_of, lemma_trimmed_idempotent, string_from_chars, trim_chars, trimmed};
use crate::types::{CheckRequest, CheckResult};

verus! {

/// HTTP status of a failed classification (Internal Server Error).
pub const STATUS_SERVER_ERROR: u16 = 500;

/// How a check request is answered.
#[derive(Debug)]
pub enum CheckScreen {
    /// The text is blank or not English: answer with this rejection (400).
    Rejected(CheckResult),
    /// The classifier judges this (trimmed) text.
    Classify(String),
}

/// Sorts a check request: a text that is blank or not English is rejected
/// with a `CheckResult` (status 400), and any other goes to the classifier,
/// trimmed.
pub fn screen_check_request(request: &CheckRequest) -> (s: CheckScreen)
    ensures
        s is Rejected <==> !english_by_hints(request.text@),
        trimmed(request.text@).len() == 0 ==> s is Rejected,
        s matches CheckScreen::Rejected(r) ==> r.is_rejection() && r.status_of() == 400,
        s matches CheckScreen::Classify(t) ==> t@ == trimmed(request.text@) && english_by_hints(
            request.text@,
        ),
{
    let chars = chars_of(request.text.as_str());
    let t = trim_chars(&chars);
    if t.len() == 0 {
        return CheckScreen::Rejected(CheckResult::rejected_non_english());
    }
    let text = string_from_chars(&t);
    proof {
        lemma_trimmed_idempotent(request.text@);
    }
    if !is_english(text.as_str()) {
        return CheckScreen::Rejected(CheckResult::rejected_non_english());
    }
    CheckScreen::Classify(text)
}

/// Whether CORS admits any origin: when `*` is among the allowed origins.
pub fn allows_any_origin(origins: &Vec<String>) -> (r: bool)
    ensures
        r == exists|i: int| 0 <= i < origins@.len() && #[trigger] origins@[i]@ == "*"@,
{
    let star = chars_of("*");
    let mut i: usize = 0;
    while i < origins.len()
        invariant
            i <= origins.len(),
            star@ == "*"@,
            forall|k: int| 0 <= k < i ==> #[trigger] origins@[k]@ != "*"@,
        decreases origins.len() - i,
    {
        let o = chars_of(origins[i].as_str());
        if crate::text::same_chars(&o, &star) {
            return true;
        }
        i = i + 1;
    }
    false
}

} // verus!
