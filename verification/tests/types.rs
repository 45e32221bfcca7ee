use trypanophobe::types::{
    version_info, CheckResult, MODEL_ID, STATUS_INJECTION, STATUS_REJECTED, STATUS_SAFE,
};

#[test]
fn rejected_non_english_shape() {
    let r = CheckResult::rejected_non_english();
    assert!(r.rejected);
    assert!(!r.is_injection);
    assert_eq!(r.label, "REJECTED");
    assert_eq!(r.http_status(), 400);
}

#[test]
fn http_status_variants() {
    assert_eq!(CheckResult::from_model("SAFE", false, 0.9f32.to_bits()).http_status(), 202);
    assert_eq!(CheckResult::from_model("INJECTION", true, 0.9f32.to_bits()).http_status(), 406);
}

#[test]
fn version_info_fields() {
    let v = version_info();
    assert_eq!(v.name, "trypanophobe");
    assert_eq!(v.version, "0.1.0");
    assert_eq!(v.model, MODEL_ID);
}

#[test]
fn status_constants_match_http() {
    assert_eq!(STATUS_REJECTED, 400);
    assert_eq!(STATUS_INJECTION, 406);
    assert_eq!(STATUS_SAFE, 202);
    assert_eq!(MODEL_ID, "protectai/deberta-v3-base-prompt-injection-v2");
}

#[test]
fn model_result_fields() {
    let r = CheckResult::from_model("SAFE", false, 0.95f32.to_bits());
    assert_eq!(r.label, "SAFE");
    assert!(!r.rejected);
    assert!(r.inferred);
    assert_eq!(r.language, "en");
    assert_eq!(r.score_bits.map(f32::from_bits), Some(0.95));
    assert_eq!(CheckResult::rejected_non_english().score_bits, None);
}
