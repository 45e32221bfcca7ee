use trypanophobe::model_slot::{SlotState, WaitStatus};

#[test]
fn prewarm_starts_one_load() {
    let mut s = SlotState::new();
    assert!(matches!(s, SlotState::Idle));
    assert!(s.start_prewarm());
    assert!(matches!(s, SlotState::Loading));
    assert!(!s.start_prewarm());
    assert!(!s.try_begin_lazy_load());
    assert!(matches!(s.wait_status(), WaitStatus::Wait));
    s.finish_load(Ok(()));
    assert!(matches!(s, SlotState::Ready));
    assert!(!s.start_prewarm());
    assert!(matches!(s.wait_status(), WaitStatus::Ready));
    assert!(s.ready_for_use().is_ok());
}

#[test]
fn lazy_load_from_idle_only() {
    let mut s = SlotState::new();
    assert!(s.try_begin_lazy_load());
    assert!(matches!(s, SlotState::Loading));
    assert!(!s.try_begin_lazy_load());
}

#[test]
fn failure_is_reported_and_prewarm_retries() {
    let mut s = SlotState::new();
    assert!(s.try_begin_lazy_load());
    s.finish_load(Err("disk full".to_string()));
    match s.wait_status() {
        WaitStatus::Failed(message) => assert_eq!(message, "model load failed: disk full"),
        other => panic!("unexpected {:?}", other),
    }
    assert_eq!(s.ready_for_use().unwrap_err(), "model not ready after wait");
    assert!(!s.try_begin_lazy_load());
    assert!(s.start_prewarm());
    assert!(matches!(s, SlotState::Loading));
}

#[test]
fn concurrent_requests_share_one_failed_load() {
    let mut s = SlotState::new();
    let mut loads = 0;
    for _ in 0..3 {
        if s.try_begin_lazy_load() {
            loads += 1;
        }
    }
    s.finish_load(Err("bad model".to_string()));
    for _ in 0..3 {
        if s.try_begin_lazy_load() {
            loads += 1;
        }
        match s.wait_status() {
            WaitStatus::Failed(message) => assert_eq!(message, "model load failed: bad model"),
            other => panic!("unexpected {:?}", other),
        }
    }
    assert_eq!(loads, 1);
}

#[test]
fn ready_slot_stays_ready_and_never_idles() {
    let mut s = SlotState::new();
    assert!(s.start_prewarm());
    s.finish_load(Ok(()));
    for _ in 0..3 {
        assert!(!s.start_prewarm());
        assert!(!s.try_begin_lazy_load());
        assert!(matches!(s.wait_status(), WaitStatus::Ready));
        assert!(matches!(s, SlotState::Ready));
    }
    let mut f = SlotState::new();
    assert!(f.try_begin_lazy_load());
    f.finish_load(Err("x".to_string()));
    assert!(!f.try_begin_lazy_load());
    assert!(matches!(f, SlotState::Failed(_)));
    assert!(f.start_prewarm());
    assert!(matches!(f, SlotState::Loading));
}
