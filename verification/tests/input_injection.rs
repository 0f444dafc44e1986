use ttgtiso_desk::input::events::InputEvent;
use ttgtiso_desk::input::injectors::{
    find_keycode, KeyboardMapping, LegacyX11InputInjector, MockInputInjector, NoopAuditSink, TestAuditSink, WindowsInputInjector,
    X11InputInjector, xtest_requests_for,
};
use ttgtiso_desk::input::policy::SecureInputPolicy;
use ttgtiso_desk::input::traits::{InjectError, InputInjector};
use ttgtiso_desk::shared_types::MouseButton;

#[test]
fn test_forbidden_hotkey_block() {
    let policy = SecureInputPolicy::new();
    let audit = TestAuditSink::new();
    let mut injector = MockInputInjector::new(policy, audit);

    let ev1 = InputEvent::Hotkey { combo: "Ctrl+C".to_string() };
    assert!(injector.inject(ev1).is_ok());

    let ev2 = InputEvent::Hotkey { combo: "Ctrl+Alt+F1".to_string() };
    assert!(injector.inject(ev2).is_err());

    let ev3 = InputEvent::Hotkey { combo: "Ctrl+Alt+Del".to_string() };
    assert!(injector.inject(ev3).is_err());

    let records = injector.audit().records();
    assert_eq!(records.len(), 3);
    assert_eq!(records[0].0, "INPUT_INJECTED");
    assert_eq!(records[1].0, "INPUT_REJECTED");
    assert_eq!(records[2].0, "INPUT_REJECTED");
}

#[test]
fn test_mouse_event_injection() {
    let policy = SecureInputPolicy::new();
    let audit = TestAuditSink::new();
    let mut injector = MockInputInjector::new(policy, audit);

    let move_ev = InputEvent::MouseMove { x: 100, y: 200 };
    assert!(injector.inject(move_ev.clone()).is_ok());

    let down_ev = InputEvent::MouseDown { button: MouseButton::Left };
    assert!(injector.inject(down_ev.clone()).is_ok());

    let injected = injector.injected_events();
    assert_eq!(injected.len(), 2);
    assert_eq!(injected[0], move_ev);
    assert_eq!(injected[1], down_ev);
}

#[test]
fn test_session_isolation() {
    let policy = SecureInputPolicy::new();
    let audit1 = TestAuditSink::new();
    let audit2 = TestAuditSink::new();

    let mut injector1 = MockInputInjector::new(policy, audit1);
    let injector2 = MockInputInjector::new(policy, audit2);

    let move_ev = InputEvent::MouseMove { x: 50, y: 50 };
    injector1.inject(move_ev).unwrap();

    assert_eq!(injector1.injected_events().len(), 1);
    assert_eq!(injector2.injected_events().len(), 0);
}

#[test]
fn rejected_event_is_not_recorded() {
    let mut injector = MockInputInjector::new(SecureInputPolicy::new(), TestAuditSink::new());
    let r = injector.inject(InputEvent::Hotkey { combo: "ctrl+alt+backspace".to_string() });
    assert_eq!(r, Err(InjectError::Rejected));
    assert!(injector.injected_events().is_empty());
    let records = injector.audit().records();
    assert_eq!(records.len(), 1);
    assert_eq!(records[0].0, "INPUT_REJECTED");
    assert!(records[0].1.starts_with("Policy blocked event: "));
}

#[test]
fn x11_injector_refuses_forbidden_combo() {
    let mut injector = X11InputInjector::new(":10", SecureInputPolicy::new(), TestAuditSink::new());
    assert_eq!(injector.display_name(), ":10");
    assert!(injector.inject(InputEvent::Hotkey { combo: "Ctrl+Alt+Delete".to_string() }).is_err());
    let ok = injector.inject(InputEvent::MouseMove { x: 3, y: 4 }).unwrap();
    assert_eq!(ok, xtest_requests_for(&InputEvent::MouseMove { x: 3, y: 4 }));
    assert_eq!(ok.len(), 1);
}

#[test]
fn legacy_injector_keypress_uses_mapping() {
    let injector = LegacyX11InputInjector::new(":0");
    let mapping = KeyboardMapping { min_keycode: 8, keysyms_per_keycode: 2, keysyms: vec![0, 0, 0x61, 0x41] };
    let press = injector.inject_keypress(&mapping, 0x41, true);
    assert_eq!(press.len(), 1);
    assert_eq!(press[0].detail, 9);
    let none = injector.inject_keypress(&mapping, 0xffff, true);
    assert!(none.is_empty());
}

#[test]
fn keycodes_come_from_the_first_match() {
    let mapping = KeyboardMapping { min_keycode: 8, keysyms_per_keycode: 2, keysyms: vec![0x61, 0x41, 0x62, 0x61] };
    assert_eq!(find_keycode(&mapping, 0x61), Some(8));
    assert_eq!(find_keycode(&mapping, 0x62), Some(9));
    // The keycode is carried in a byte.
    let high = KeyboardMapping { min_keycode: 255, keysyms_per_keycode: 1, keysyms: vec![0, 0x7a] };
    assert_eq!(find_keycode(&high, 0x7a), Some(0));
    // A mapping with no keysyms per keycode can still be searched for what it lacks.
    let empty = KeyboardMapping { min_keycode: 8, keysyms_per_keycode: 0, keysyms: vec![0x61] };
    assert_eq!(find_keycode(&empty, 0x62), None);
}

#[test]
fn the_sysrq_key_never_reaches_a_windows_desktop() {
    let inj = LegacyX11InputInjector::new(":0");
    assert_eq!(inj.windows_keypress(0xFF15, true), Err(InjectError::Rejected));
    assert_eq!(inj.windows_keypress(0xFF15, false), Err(InjectError::Rejected));
    assert_eq!(inj.windows_keypress(0x61, true), Ok(InputEvent::KeyDown { keycode: 0, keysym: 0x61 }));
    assert_eq!(inj.windows_keypress(0x61, false), Ok(InputEvent::KeyUp { keycode: 0, keysym: 0x61 }));
}

#[test]
fn a_windows_injector_audits_what_its_policy_refuses() {
    let mut inj = WindowsInputInjector::new(SecureInputPolicy::new(), TestAuditSink::new());
    let refused = inj.screen(InputEvent::Hotkey { combo: "Ctrl+Alt+Del".to_string() });
    assert_eq!(refused, Err(InjectError::Rejected));
    let moved = inj.screen(InputEvent::MouseMove { x: 3, y: 4 });
    assert_eq!(moved, Ok(InputEvent::MouseMove { x: 3, y: 4 }));
    let records = inj.audit().records();
    assert_eq!(records.len(), 1);
    assert_eq!(records[0].0, "INPUT_REJECTED");
}

#[test]
fn a_mock_injector_works_with_any_audit_sink() {
    let mut injector = MockInputInjector::new(SecureInputPolicy::new(), NoopAuditSink);
    assert_eq!(injector.inject(InputEvent::KeyDown { keycode: 1, keysym: 0xFF15 }), Err(InjectError::Rejected));
    assert!(injector.inject(InputEvent::MouseScroll { delta: 1 }).is_ok());
    assert_eq!(injector.injected_events(), vec![InputEvent::MouseScroll { delta: 1 }]);
}
