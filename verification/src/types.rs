//! The values the service reads and answers with.
use vstd::prelude::*;

verus! {

/// Identifier of the classifier model.
pub const MODEL_ID: &'static str = "protectai/deberta-v3-base-prompt-injection-v2";

/// Name of this program.
pub const PACKAGE_NAME: &'static str = "trypanophobe";

/// Version of this program.
pub const PACKAGE_VERSION: &'static str = "0.1.0";

/// A request to check one prompt.
#[derive(Debug, Clone)]
pub struct CheckRequest {
    pub text: String,
}

/// The verdict on one prompt.
///
/// `score_bits` holds the IEEE-754 binary32 bits of the classifier's
/// probability for the chosen label, when the classifier ran.
#[derive(Debug, Clone)]
pub struct CheckResult {
    pub label: String,
    pub is_injection: bool,
    /// Rejected without model inference (e.g. non-English).
    pub rejected: bool,
    pub score_bits: Option<u32>,
    pub inferred: bool,
    pub language: String,
}

/// Name, version and model of the program.
#[derive(Debug, Clone)]
pub struct VersionInfo {
    pub name: String,
    pub version: String,
    pub model: String,
}

/// The body of an error answer.
#[derive(Debug, Clone)]
pub struct ErrorResponse {
    pub error: String,
}

/// The program's name, version and model identifier.
pub fn version_info() -> (v: VersionInfo)
    ensures
        v.name@ == PACKAGE_NAME@,
        v.version@ == PACKAGE_VERSION@,
        v.model@ == MODEL_ID@,
{
    VersionInfo {
        name: PACKAGE_NAME.to_owned(),
        version: PACKAGE_VERSION.to_owned(),
        model: MODEL_ID.to_owned(),
    }
}

/// HTTP status of a rejected prompt (Bad Request).
pub const STATUS_REJECTED: u16 = 400;

/// HTTP status of a prompt judged an injection (Not Acceptable).
pub const STATUS_INJECTION: u16 = 406;

/// HTTP status of a prompt judged safe (Accepted).
pub const STATUS_SAFE: u16 = 202;

impl CheckResult {
    /// The answer for a text turned away as not English.
    pub open spec fn is_rejection(&self) -> bool {
        &&& self.label@ == "REJECTED"@
        &&& !self.is_injection
        &&& self.rejected
        &&& self.score_bits is None
        &&& !self.inferred
        &&& self.language@ == "non_english"@
    }

    /// An answer of the classifier with the given label, verdict and score.
    pub open spec fn is_model_answer(&self, label: Seq<char>, is_injection: bool, score_bits: u32) -> bool {
        &&& self.label@ == label
        &&& self.is_injection == is_injection
        &&& !self.rejected
        &&& self.score_bits == Some(score_bits)
        &&& self.inferred
        &&& self.language@ == "en"@
    }

    /// The result for a prompt turned away because it is not English.
    pub fn rejected_non_english() -> (r: Self)
        ensures
            r.is_rejection(),
    {
        CheckResult {
            label: "REJECTED".to_owned(),
            is_injection: false,
            rejected: true,
            score_bits: None,
            inferred: false,
            language: "non_english".to_owned(),
        }
    }

    /// The result of a model inference: `label`, its verdict, and the bits
    /// of the score.
    pub fn from_model(label: &str, is_injection: bool, score_bits: u32) -> (r: Self)
        ensures
            r.is_model_answer(label@, is_injection, score_bits),
    {
        CheckResult {
            label: label.to_owned(),
            is_injection,
            rejected: false,
            score_bits: Some(score_bits),
            inferred: true,
            language: "en".to_owned(),
        }
    }

    /// The HTTP status that answers this result.
    pub open spec fn status_of(&self) -> u16 {
        if self.rejected {
            STATUS_REJECTED
        } else if self.is_injection {
            STATUS_INJECTION
        } else {
            STATUS_SAFE
        }
    }

    /// 400 for a rejected prompt, else 406 for an injection, else 202.
    pub fn http_status(&self) -> (s: u16)
        ensures
            s == self.status_of(),
    {
        if self.rejected {
            STATUS_REJECTED
        } else if self.is_injection {
            STATUS_INJECTION
        } else {
            STATUS_SAFE
        }
    }
}

/// A prompt turned away as not English is answered 400 (Bad Request).
pub proof fn law_rejection_is_bad_request(r: CheckResult)
    requires
        r.is_rejection(),
    ensures
        r.status_of() == STATUS_REJECTED,
{
}

/// A model answer is 406 (Not Acceptable) for an injection and 202
/// (Accepted) otherwise.
pub proof fn law_model_answer_status(r: CheckResult, label: Seq<char>, is_injection: bool, score_bits: u32)
    requires
        r.is_model_answer(label, is_injection, score_bits),
    ensures
        r.status_of() == if is_injection {
            STATUS_INJECTION
        } else {
            STATUS_SAFE
        },
{
}

} // verus!
