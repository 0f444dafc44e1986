use ttgtiso_desk::session::continuity::{token_at, ResumeRegistry, ResumeState};

#[test]
fn register_then_resume_roundtrip() {
    let mut reg = ResumeRegistry::default();
    let token = reg.register("sess-1");
    assert_eq!(reg.state(&token), Some(ResumeState::Attached));
    reg.freeze(&token);
    assert_eq!(reg.state(&token), Some(ResumeState::Frozen));
    assert_eq!(reg.resume(&token).as_deref(), Some("sess-1"));
    assert_eq!(reg.state(&token), Some(ResumeState::Attached));
}

#[test]
fn unknown_token_cannot_resume() {
    let mut reg = ResumeRegistry::default();
    assert!(reg.resume("rt_deadbeef").is_none());
}

#[test]
fn expired_frozen_session_is_reaped() {
    let mut reg = ResumeRegistry::new(20);
    let token = reg.register_at("sess-2", 1_000_000);
    reg.freeze_at(&token, 1_000);
    assert!(reg.resume_at(&token, 40_001_000).is_none(), "stale token must not resume");
    assert_eq!(reg.len_at(40_001_000), 0);
}

#[test]
fn forget_removes_token() {
    let mut reg = ResumeRegistry::default();
    let token = reg.register("sess-3");
    reg.forget(&token);
    assert!(reg.state(&token).is_none());
}

#[test]
fn tokens_are_unique_per_session() {
    let mut reg = ResumeRegistry::default();
    let t1 = reg.register("a");
    let t2 = reg.register("b");
    assert_ne!(t1, t2);
}

#[test]
fn frozen_session_resumes_within_grace() {
    let mut reg = ResumeRegistry::new(50);
    let token = reg.register_at("sess-4", 7);
    reg.freeze_at(&token, 100);
    assert_eq!(reg.state_at(&token, 120), Some(ResumeState::Frozen));
    assert_eq!(reg.resume_at(&token, 149).as_deref(), Some("sess-4"));
    assert_eq!(reg.len_at(500), 1);
}

#[test]
fn token_shape() {
    let t = token_at("sess-1", 42);
    assert!(t.starts_with("rt_"));
    assert_eq!(t.len(), 19);
    assert_ne!(token_at("sess-1", 42), token_at("sess-1", 43));
    assert_eq!(token_at("sess-1", 42), token_at("sess-1", 42));
}

#[test]
fn the_grace_period_is_kept_to_the_nanosecond() {
    let mut reg = ResumeRegistry::new(20);
    let token = reg.register_at("sess-5", 1);
    reg.freeze_at(&token, 900_000);
    assert_eq!(reg.state_at(&token, 20_899_999), Some(ResumeState::Frozen));
    assert_eq!(reg.resume_at(&token, 20_500_000).as_deref(), Some("sess-5"));
    reg.freeze_at(&token, 900_000);
    assert!(reg.resume_at(&token, 20_900_000).is_none());
}
