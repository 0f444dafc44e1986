//! Input injectors and audit sinks.
//!
//! The injectors decide; the requests they return are what a display
//! connection then sends (XTEST fake-input requests on X11).
use vstd::prelude::*;
use crate::input::events::{describe, InputEvent};
use crate::input::traits::{InjectError, InputAuditSink, InputInjector, InputPolicy};
use crate::input::policy::{SecureInputPolicy, SYSRQ_KEYSYM};
use crate::shared_types::MouseButton;
use crate::text::{append_str, string_from_str};

verus! {

/// Audit sink that discards every record.
pub struct NoopAuditSink;

impl InputAuditSink for NoopAuditSink {
    open spec fn kept(&self) -> Seq<(Seq<char>, Seq<char>)> {
        Seq::empty()
    }

    /// Nothing is kept.
    open spec fn keeps(&self) -> bool {
        false
    }

    fn audit_event(&mut self, event_type: &str, details: &str) {
    }
}

/// Audit sink that keeps every record, for inspection.
pub struct TestAuditSink {
    records: Vec<(String, String)>,
}

impl TestAuditSink {
    pub fn new() -> (r: TestAuditSink)
        ensures
            r.kept() == Seq::<(Seq<char>, Seq<char>)>::empty(),
    {
        let r = TestAuditSink { records: Vec::new() };
        assert(r.kept() =~= Seq::<(Seq<char>, Seq<char>)>::empty());
        r
    }

    /// A copy of the records kept so far.
    pub fn records(&self) -> (r: Vec<(String, String)>)
        ensures
            r@.map_values(|x: (String, String)| (x.0@, x.1@)) == self.kept(),
    {
        let mut out: Vec<(String, String)> = Vec::new();
        let mut i: usize = 0;
        while i < self.records.len()
            invariant
                i <= self.records@.len(),
                out@.len() == i,
                out@.map_values(|x: (String, String)| (x.0@, x.1@)) == self.kept().take(i as int),
            decreases self.records.len() - i,
        {
            let ghost prev = out@;
            assert(prev.map_values(|x: (String, String)| (x.0@, x.1@)) == self.kept().take(i as int));
            out.push((self.records[i].0.clone(), self.records[i].1.clone()));
            assert(out@[i as int].0@ == self.records@[i as int].0@);
            assert(out@[i as int].1@ == self.records@[i as int].1@);
            assert(forall|j: int| 0 <= j < i ==> out@[j] == prev[j]);
            assert(out@.map_values(|x: (String, String)| (x.0@, x.1@)) =~= self.kept().take(i + 1));
            i = i + 1;
        }
        assert(self.kept().take(self.records@.len() as int) =~= self.kept());
        out
    }
}

impl Default for TestAuditSink {
    fn default() -> (r: TestAuditSink)
        ensures
            r.kept() == Seq::<(Seq<char>, Seq<char>)>::empty(),
    {
        TestAuditSink::new()
    }
}

impl InputAuditSink for TestAuditSink {
    /// The records kept so far, oldest first.
    closed spec fn kept(&self) -> Seq<(Seq<char>, Seq<char>)> {
        self.records@.map_values(|r: (String, String)| (r.0@, r.1@))
    }

    /// Every record is kept.
    open spec fn keeps(&self) -> bool {
        true
    }

    fn audit_event(&mut self, event_type: &str, details: &str)
        ensures
            final(self).kept() == old(self).kept().push((event_type@, details@)),
    {
        self.records.push((string_from_str(event_type), string_from_str(details)));
        assert(self.kept() =~= old(self).kept().push((event_type@, details@)));
    }
}

/// The audit details written when the policy blocks an event.
pub open spec fn rejected_details(e: InputEvent) -> Seq<char> {
    "Policy blocked event: "@ + describe(e)
}

/// The audit details written when an event is injected.
pub open spec fn injected_details(e: InputEvent) -> Seq<char> {
    "Event: "@ + describe(e)
}

fn rejected_text(e: &InputEvent) -> (r: String)
    ensures
        r@ == rejected_details(*e),
{
    let mut d = string_from_str("Policy blocked event: ");
    append_str(&mut d, e.describe().as_str());
    d
}

/// Injector that records the events it accepts instead of delivering them.
pub struct MockInputInjector<P: InputPolicy, A: InputAuditSink> {
    policy: P,
    audit: A,
    events: Vec<InputEvent>,
}

impl<P: InputPolicy, A: InputAuditSink> MockInputInjector<P, A> {
    pub closed spec fn accepted(self) -> Seq<InputEvent> {
        self.events@
    }

    pub closed spec fn policy(self) -> P {
        self.policy
    }

    pub closed spec fn sink(self) -> A {
        self.audit
    }

    pub fn new(policy: P, audit: A) -> (r: Self)
        ensures
            r.accepted() == Seq::<InputEvent>::empty(),
            r.policy() == policy,
            r.sink() == audit,
    {
        MockInputInjector { policy, audit, events: Vec::new() }
    }

    /// The events accepted so far, oldest first.
    pub fn injected_events(&self) -> (r: Vec<InputEvent>)
        ensures
            r@ == self.accepted(),
    {
        let mut out: Vec<InputEvent> = Vec::new();
        let mut i: usize = 0;
        while i < self.events.len()
            invariant
                i <= self.events@.len(),
                out@ == self.events@.take(i as int),
            decreases self.events.len() - i,
        {
            out.push(self.events[i].clone());
            assert(out@ =~= self.events@.take(i + 1));
            i = i + 1;
        }
        assert(self.events@.take(self.events@.len() as int) =~= self.events@);
        out
    }

    /// The audit sink the injector writes to.
    pub fn audit(&self) -> (r: &A)
        ensures
            *r == self.sink(),
    {
        &self.audit
    }
}

/// What a sink holds after `rec` is recorded in it.
pub open spec fn recorded<A: InputAuditSink>(sink: A, rec: (Seq<char>, Seq<char>)) -> Seq<(Seq<char>, Seq<char>)> {
    if sink.keeps() { sink.kept().push(rec) } else { sink.kept() }
}

impl<P: InputPolicy, A: InputAuditSink> InputInjector for MockInputInjector<P, A> {
    /// A permitted event is recorded and audited as `INPUT_INJECTED`; any
    /// other is audited as `INPUT_REJECTED` and refused.
    fn inject(&mut self, event: InputEvent) -> (r: Result<(), InjectError>)
        ensures
            final(self).policy() == old(self).policy(),
            final(self).sink().keeps() == old(self).sink().keeps(),
            r is Ok <==> old(self).policy().permits(event),
            r is Ok ==> final(self).accepted() == old(self).accepted().push(event)
                && final(self).sink().kept() == recorded(old(self).sink(), ("INPUT_INJECTED"@, injected_details(event))),
            r is Err ==> final(self).accepted() == old(self).accepted()
                && final(self).sink().kept() == recorded(old(self).sink(), ("INPUT_REJECTED"@, rejected_details(event))),
    {
        if !self.policy.is_allowed(&event) {
            let d = rejected_text(&event);
            self.audit.audit_event("INPUT_REJECTED", d.as_str());
            return Err(InjectError::Rejected);
        }
        let mut d = string_from_str("Event: ");
        append_str(&mut d, event.describe().as_str());
        self.audit.audit_event("INPUT_INJECTED", d.as_str());
        self.events.push(event);
        Ok(())
    }
}

/// An XTEST fake-input request: event type, detail, and root coordinates.
#[derive(Debug, Clone, Copy, PartialEq, Eq, Structural)]
pub struct FakeInput {
    pub type_id: u8,
    pub detail: u8,
    pub x: i16,
    pub y: i16,
}

/// X11 core event types used by XTEST.
pub const KEY_PRESS: u8 = 2;
pub const KEY_RELEASE: u8 = 3;
pub const BUTTON_PRESS: u8 = 4;
pub const BUTTON_RELEASE: u8 = 5;
pub const MOTION_NOTIFY: u8 = 6;

/// The X11 button number of a mouse button; no button has none.
pub open spec fn x11_button(b: MouseButton) -> Option<u8> {
    match b {
        MouseButton::Left => Some(1u8),
        MouseButton::Middle => Some(2u8),
        MouseButton::Right => Some(3u8),
        MouseButton::NoButton => None,
    }
}

pub fn x11_button_exec(b: MouseButton) -> (r: Option<u8>)
    ensures
        r == x11_button(b),
{
    match b {
        MouseButton::Left => Some(1),
        MouseButton::Middle => Some(2),
        MouseButton::Right => Some(3),
        MouseButton::NoButton => None,
    }
}

/// The wheel button for a scroll: 4 (up) for a positive delta, else 5.
pub open spec fn scroll_button(delta: i16) -> u8 {
    if delta > 0 { 4 } else { 5 }
}

/// A coordinate as the signed 16-bit value XTEST carries (wrapping).
pub open spec fn coord(v: u16) -> i16 {
    if v >= 0x8000 { (v - 0x1_0000) as i16 } else { v as i16 }
}

fn coord_exec(v: u16) -> (r: i16)
    ensures
        r == coord(v),
{
    if v >= 0x8000 { (v as i32 - 0x1_0000) as i16 } else { v as i16 }
}

/// A request with no coordinates.
pub open spec fn req(type_id: u8, detail: u8) -> FakeInput {
    FakeInput { type_id, detail, x: 0, y: 0 }
}

/// The XTEST requests that deliver an event on an X11 display. Text and
/// hotkey events are delivered key by key elsewhere and yield none here.
pub open spec fn xtest_requests(e: InputEvent) -> Seq<FakeInput> {
    match e {
        InputEvent::MouseMove { x, y } => seq![FakeInput { type_id: MOTION_NOTIFY, detail: 0, x: coord(x), y: coord(y) }],
        InputEvent::MouseDown { button } => match x11_button(button) {
            Some(d) => seq![req(BUTTON_PRESS, d)],
            None => Seq::empty(),
        },
        InputEvent::MouseUp { button } => match x11_button(button) {
            Some(d) => seq![req(BUTTON_RELEASE, d)],
            None => Seq::empty(),
        },
        InputEvent::MouseScroll { delta } => seq![req(BUTTON_PRESS, scroll_button(delta)), req(BUTTON_RELEASE, scroll_button(delta))],
        InputEvent::KeyDown { keycode, .. } => seq![req(KEY_PRESS, (keycode % 256) as u8)],
        InputEvent::KeyUp { keycode, .. } => seq![req(KEY_RELEASE, (keycode % 256) as u8)],
        InputEvent::TextInput { .. } => Seq::empty(),
        InputEvent::Hotkey { .. } => Seq::empty(),
    }
}

pub fn xtest_requests_for(e: &InputEvent) -> (r: Vec<FakeInput>)
    ensures
        r@ == xtest_requests(*e),
{
    let mut v: Vec<FakeInput> = Vec::new();
    match e {
        InputEvent::MouseMove { x, y } => {
            v.push(FakeInput { type_id: MOTION_NOTIFY, detail: 0, x: coord_exec(*x), y: coord_exec(*y) });
        },
        InputEvent::MouseDown { button } => {
            if let Some(d) = x11_button_exec(*button) {
                v.push(FakeInput { type_id: BUTTON_PRESS, detail: d, x: 0, y: 0 });
            }
        },
        InputEvent::MouseUp { button } => {
            if let Some(d) = x11_button_exec(*button) {
                v.push(FakeInput { type_id: BUTTON_RELEASE, detail: d, x: 0, y: 0 });
            }
        },
        InputEvent::MouseScroll { delta } => {
            let d: u8 = if *delta > 0 { 4 } else { 5 };
            v.push(FakeInput { type_id: BUTTON_PRESS, detail: d, x: 0, y: 0 });
            v.push(FakeInput { type_id: BUTTON_RELEASE, detail: d, x: 0, y: 0 });
        },
        InputEvent::KeyDown { keycode, .. } => {
            v.push(FakeInput { type_id: KEY_PRESS, detail: (*keycode % 256) as u8, x: 0, y: 0 });
        },
        InputEvent::KeyUp { keycode, .. } => {
            v.push(FakeInput { type_id: KEY_RELEASE, detail: (*keycode % 256) as u8, x: 0, y: 0 });
        },
        InputEvent::TextInput { .. } => {},
        InputEvent::Hotkey { .. } => {},
    }
    assert(v@ =~= xtest_requests(*e));
    v
}

/// Injector for an X11 display. A permitted event is turned into XTEST
/// requests for the display connection to send; a refused one is audited as
/// `INPUT_REJECTED`.
pub struct X11InputInjector<P: InputPolicy, A: InputAuditSink> {
    display: String,
    policy: P,
    audit: A,
}

impl<P: InputPolicy, A: InputAuditSink> X11InputInjector<P, A> {
    pub closed spec fn display(self) -> Seq<char> {
        self.display@
    }

    pub closed spec fn policy(self) -> P {
        self.policy
    }

    pub closed spec fn sink(self) -> A {
        self.audit
    }

    pub fn new(display: &str, policy: P, audit: A) -> (r: Self)
        ensures
            r.display() == display@,
            r.policy() == policy,
            r.sink() == audit,
    {
        X11InputInjector { display: string_from_str(display), policy, audit }
    }

    pub fn display_name(&self) -> (r: &str)
        ensures
            r@ == self.display(),
    {
        self.display.as_str()
    }

    pub fn audit(&self) -> (r: &A)
        ensures
            *r == self.sink(),
    {
        &self.audit
    }
}

impl<P: InputPolicy, A: InputAuditSink> X11InputInjector<P, A> {
    /// The requests that deliver `event`, or `Rejected` when the policy
    /// refuses it (and the refusal is audited).
    pub fn inject(&mut self, event: InputEvent) -> (r: Result<Vec<FakeInput>, InjectError>)
        ensures
            final(self).policy() == old(self).policy(),
            final(self).display() == old(self).display(),
            match r {
                Ok(reqs) => old(self).policy().permits(event) && reqs@ == xtest_requests(event)
                    && final(self).sink() == old(self).sink(),
                Err(e) => !old(self).policy().permits(event) && e == InjectError::Rejected
                    && final(self).sink().keeps() == old(self).sink().keeps()
                    && final(self).sink().kept() == recorded(old(self).sink(), ("INPUT_REJECTED"@, rejected_details(event))),
            },
    {
        if !self.policy.is_allowed(&event) {
            let d = rejected_text(&event);
            self.audit.audit_event("INPUT_REJECTED", d.as_str());
            return Err(InjectError::Rejected);
        }
        Ok(xtest_requests_for(&event))
    }
}

/// The keyboard mapping an X server reports: the first keycode, and the
/// keysyms of each keycode in turn, `keysyms_per_keycode` at a time.
pub struct KeyboardMapping {
    pub min_keycode: u8,
    pub keysyms_per_keycode: u8,
    pub keysyms: Vec<u32>,
}

/// Whether looking `keysym` up in the mapping is defined: the keycode of a
/// match is its position divided by the keysyms per keycode, so a mapping
/// with none per keycode can only be searched for keysyms it does not hold.
pub open spec fn keysym_lookup_defined(m: KeyboardMapping, keysym: u32) -> bool {
    m.keysyms_per_keycode > 0 || !m.keysyms@.contains(keysym)
}

/// The keycode of the first occurrence of `keysym` in a mapping, truncated to
/// a byte as the request carries it.
pub open spec fn keycode_for(m: KeyboardMapping, keysym: u32) -> Option<u8> {
    if exists|i: int| 0 <= i < m.keysyms@.len() && m.keysyms@[i] == keysym {
        let i = choose|i: int| 0 <= i < m.keysyms@.len() && m.keysyms@[i] == keysym
            && forall|j: int| 0 <= j < i ==> m.keysyms@[j] != keysym;
        Some(((m.min_keycode + i / (m.keysyms_per_keycode as int)) % 256) as u8)
    } else {
        None
    }
}

/// Find the keycode that produces `keysym`.
pub fn find_keycode(m: &KeyboardMapping, keysym: u32) -> (r: Option<u8>)
    requires
        keysym_lookup_defined(*m, keysym),
    ensures
        r == keycode_for(*m, keysym),
{
    let mut i: usize = 0;
    while i < m.keysyms.len()
        invariant
            keysym_lookup_defined(*m, keysym),
            i <= m.keysyms@.len(),
            forall|j: int| 0 <= j < i ==> m.keysyms@[j] != keysym,
        decreases m.keysyms.len() - i,
    {
        if m.keysyms[i] == keysym {
            assert(m.keysyms@.contains(keysym)) by {
                assert(m.keysyms@[i as int] == keysym);
            }
            let per = m.keysyms_per_keycode as usize;
            let q = (i / per) % 256;
            let kc = (m.min_keycode as usize + q) % 256;
            assert(kc == (m.min_keycode + (i as int) / (m.keysyms_per_keycode as int)) % 256) by (nonlinear_arith)
                requires
                    q == (i / per) % 256,
                    kc == (m.min_keycode + q) % 256,
                    per == m.keysyms_per_keycode,
                    per > 0;
            proof {
                let k = choose|k: int| 0 <= k < m.keysyms@.len() && m.keysyms@[k] == keysym
                    && forall|j: int| 0 <= j < k ==> m.keysyms@[j] != keysym;
                assert(k == i) by {
                    if k < i { } else if k > i { assert(m.keysyms@[i as int] != keysym); }
                }
            }
            return Some(kc as u8);
        }
        i = i + 1;
    }
    None
}

/// Input injector for a display, kept under its historical name. Each
/// method returns the XTEST requests that deliver the input.
pub struct LegacyX11InputInjector {
    display: String,
}

impl LegacyX11InputInjector {
    pub closed spec fn display(self) -> Seq<char> {
        self.display@
    }

    pub fn new(display: &str) -> (r: LegacyX11InputInjector)
        ensures
            r.display() == display@,
    {
        LegacyX11InputInjector { display: string_from_str(display) }
    }

    pub fn display_name(&self) -> (r: &str)
        ensures
            r@ == self.display(),
    {
        self.display.as_str()
    }

    pub fn inject_mouse_move(&self, x: u16, y: u16) -> (r: Vec<FakeInput>)
        ensures
            r@ == xtest_requests(InputEvent::MouseMove { x, y }),
    {
        xtest_requests_for(&InputEvent::MouseMove { x, y })
    }

    pub fn inject_mouse_click(&self, button: MouseButton, pressed: bool) -> (r: Vec<FakeInput>)
        ensures
            r@ == xtest_requests(if pressed { InputEvent::MouseDown { button } } else { InputEvent::MouseUp { button } }),
    {
        if pressed {
            xtest_requests_for(&InputEvent::MouseDown { button })
        } else {
            xtest_requests_for(&InputEvent::MouseUp { button })
        }
    }

    pub fn inject_mouse_scroll(&self, delta: i16) -> (r: Vec<FakeInput>)
        ensures
            r@ == xtest_requests(InputEvent::MouseScroll { delta }),
    {
        xtest_requests_for(&InputEvent::MouseScroll { delta })
    }

    /// The key event a Windows desktop is sent for `keysym` under the default
    /// input policy: the SysRq key is refused and nothing is sent.
    pub fn windows_keypress(&self, keysym: u32, pressed: bool) -> (r: Result<InputEvent, InjectError>)
        ensures
            keysym == SYSRQ_KEYSYM ==> r == Err::<InputEvent, InjectError>(InjectError::Rejected),
            keysym != SYSRQ_KEYSYM ==> r == Ok::<InputEvent, InjectError>(if pressed {
                InputEvent::KeyDown { keycode: 0, keysym }
            } else {
                InputEvent::KeyUp { keycode: 0, keysym }
            }),
    {
        let event = if pressed {
            InputEvent::KeyDown { keycode: 0, keysym }
        } else {
            InputEvent::KeyUp { keycode: 0, keysym }
        };
        let mut injector = WindowsInputInjector::new(SecureInputPolicy::new(), NoopAuditSink);
        injector.screen(event)
    }

    /// A key press or release for the keycode that produces `keysym` in the
    /// server's mapping; nothing when no keycode does.
    pub fn inject_keypress(&self, mapping: &KeyboardMapping, keysym: u32, pressed: bool) -> (r: Vec<FakeInput>)
        requires
            keysym_lookup_defined(*mapping, keysym),
        ensures
            r@ == match keycode_for(*mapping, keysym) {
                Some(kc) => seq![req(if pressed { KEY_PRESS } else { KEY_RELEASE }, kc)],
                None => Seq::<FakeInput>::empty(),
            },
    {
        let mut v: Vec<FakeInput> = Vec::new();
        if let Some(kc) = find_keycode(mapping, keysym) {
            let t: u8 = if pressed { KEY_PRESS } else { KEY_RELEASE };
            v.push(FakeInput { type_id: t, detail: kc, x: 0, y: 0 });
        }
        assert(v@ =~= match keycode_for(*mapping, keysym) {
            Some(kc) => seq![req(if pressed { KEY_PRESS } else { KEY_RELEASE }, kc)],
            None => Seq::<FakeInput>::empty(),
        });
        v
    }
}

/// The Windows virtual-key code for an X11 keysym of a special key
/// (navigation, editing, modifiers, function keys); printable characters
/// have none and are sent as Unicode instead.
pub open spec fn vk_for_keysym(keysym: u32) -> Option<u16> {
    if keysym == 0xFF08 { Some(0x08u16) }
    else if keysym == 0xFF09 { Some(0x09u16) }
    else if keysym == 0xFF0D { Some(0x0Du16) }
    else if keysym == 0xFF1B { Some(0x1Bu16) }
    else if keysym == 0xFF50 { Some(0x24u16) }
    else if keysym == 0xFF51 { Some(0x25u16) }
    else if keysym == 0xFF52 { Some(0x26u16) }
    else if keysym == 0xFF53 { Some(0x27u16) }
    else if keysym == 0xFF54 { Some(0x28u16) }
    else if keysym == 0xFF55 { Some(0x21u16) }
    else if keysym == 0xFF56 { Some(0x22u16) }
    else if keysym == 0xFF57 { Some(0x23u16) }
    else if keysym == 0xFF63 { Some(0x2Du16) }
    else if keysym == 0xFFFF { Some(0x2Eu16) }
    else if keysym == 0xFF20 { Some(0x09u16) }
    else if keysym == 0x0020 { Some(0x20u16) }
    else if keysym == 0xFFE1 || keysym == 0xFFE2 { Some(0x10u16) }
    else if keysym == 0xFFE3 || keysym == 0xFFE4 { Some(0x11u16) }
    else if keysym == 0xFFE9 || keysym == 0xFFEA { Some(0x12u16) }
    else if keysym == 0xFFEB || keysym == 0xFFEC { Some(0x5Bu16) }
    else if 0xFFBE <= keysym <= 0xFFC9 { Some((0x70 + (keysym - 0xFFBE)) as u16) }
    else { None }
}

/// Injector for the active Windows desktop.
pub struct WindowsInputInjector<P: InputPolicy, A: InputAuditSink> {
    policy: P,
    audit: A,
}

impl<P: InputPolicy, A: InputAuditSink> WindowsInputInjector<P, A> {
    pub closed spec fn policy(self) -> P {
        self.policy
    }

    pub closed spec fn sink(self) -> A {
        self.audit
    }

    pub fn new(policy: P, audit: A) -> (r: Self)
        ensures
            r.policy() == policy,
            r.sink() == audit,
    {
        WindowsInputInjector { policy, audit }
    }

    /// The audit sink the injector writes to.
    pub fn audit(&self) -> (r: &A)
        ensures
            *r == self.sink(),
    {
        &self.audit
    }

    /// The event to hand to the desktop, when the policy permits it; a
    /// refused event is audited as `INPUT_REJECTED` and nothing is sent.
    pub fn screen(&mut self, event: InputEvent) -> (r: Result<InputEvent, InjectError>)
        ensures
            final(self).policy() == old(self).policy(),
            final(self).sink().keeps() == old(self).sink().keeps(),
            match r {
                Ok(e) => old(self).policy().permits(event) && e == event && final(self).sink() == old(self).sink(),
                Err(e) => !old(self).policy().permits(event) && e == InjectError::Rejected
                    && final(self).sink().kept() == recorded(old(self).sink(), ("INPUT_REJECTED"@, rejected_details(event))),
            },
    {
        if !self.policy.is_allowed(&event) {
            let d = rejected_text(&event);
            self.audit.audit_event("INPUT_REJECTED", d.as_str());
            return Err(InjectError::Rejected);
        }
        Ok(event)
    }

    /// Map an X11 keysym to a Windows virtual-key code.
    pub fn x11_keysym_to_vk(keysym: u32) -> (r: Option<u16>)
        ensures
            r == vk_for_keysym(keysym),
    {
        if keysym == 0xFF08 { Some(0x08) }
        else if keysym == 0xFF09 { Some(0x09) }
        else if keysym == 0xFF0D { Some(0x0D) }
        else if keysym == 0xFF1B { Some(0x1B) }
        else if keysym == 0xFF50 { Some(0x24) }
        else if keysym == 0xFF51 { Some(0x25) }
        else if keysym == 0xFF52 { Some(0x26) }
        else if keysym == 0xFF53 { Some(0x27) }
        else if keysym == 0xFF54 { Some(0x28) }
        else if keysym == 0xFF55 { Some(0x21) }
        else if keysym == 0xFF56 { Some(0x22) }
        else if keysym == 0xFF57 { Some(0x23) }
        else if keysym == 0xFF63 { Some(0x2D) }
        else if keysym == 0xFFFF { Some(0x2E) }
        else if keysym == 0xFF20 { Some(0x09) }
        else if keysym == 0x0020 { Some(0x20) }
        else if keysym == 0xFFE1 || keysym == 0xFFE2 { Some(0x10) }
        else if keysym == 0xFFE3 || keysym == 0xFFE4 { Some(0x11) }
        else if keysym == 0xFFE9 || keysym == 0xFFEA { Some(0x12) }
        else if keysym == 0xFFEB || keysym == 0xFFEC { Some(0x5B) }
        else if 0xFFBE <= keysym && keysym <= 0xFFC9 { Some((0x70 + (keysym - 0xFFBE)) as u16) }
        else { None }
    }
}

/// A scroll with a positive delta presses and releases X11 button 4 (wheel
/// up); any other scroll presses and releases button 5 (wheel down).
pub proof fn lemma_scroll_buttons(delta: i16)
    ensures
        delta > 0 ==> xtest_requests(InputEvent::MouseScroll { delta }) == seq![
            FakeInput { type_id: 4, detail: 4, x: 0, y: 0 },
            FakeInput { type_id: 5, detail: 4, x: 0, y: 0 },
        ],
        delta <= 0 ==> xtest_requests(InputEvent::MouseScroll { delta }) == seq![
            FakeInput { type_id: 4, detail: 5, x: 0, y: 0 },
            FakeInput { type_id: 5, detail: 5, x: 0, y: 0 },
        ],
{
}

/// Buttons are X11 buttons 1 (left), 2 (middle) and 3 (right): a press is
/// one button-press request (type 4), a release one button-release request
/// (type 5); no button sends nothing. Keys are key-press (type 2) and
/// key-release (type 3) requests for the keycode's low byte, and a move is
/// one motion request (type 6) to the coordinates.
pub proof fn lemma_xtest_requests(button: MouseButton, keycode: u32, keysym: u32, x: u16, y: u16)
    ensures
        xtest_requests(InputEvent::MouseDown { button }) == match button {
            MouseButton::Left => seq![FakeInput { type_id: 4, detail: 1, x: 0, y: 0 }],
            MouseButton::Middle => seq![FakeInput { type_id: 4, detail: 2, x: 0, y: 0 }],
            MouseButton::Right => seq![FakeInput { type_id: 4, detail: 3, x: 0, y: 0 }],
            MouseButton::NoButton => Seq::<FakeInput>::empty(),
        },
        xtest_requests(InputEvent::MouseUp { button }) == match button {
            MouseButton::Left => seq![FakeInput { type_id: 5, detail: 1, x: 0, y: 0 }],
            MouseButton::Middle => seq![FakeInput { type_id: 5, detail: 2, x: 0, y: 0 }],
            MouseButton::Right => seq![FakeInput { type_id: 5, detail: 3, x: 0, y: 0 }],
            MouseButton::NoButton => Seq::<FakeInput>::empty(),
        },
        xtest_requests(InputEvent::KeyDown { keycode, keysym })
            == seq![FakeInput { type_id: 2, detail: (keycode % 256) as u8, x: 0, y: 0 }],
        xtest_requests(InputEvent::KeyUp { keycode, keysym })
            == seq![FakeInput { type_id: 3, detail: (keycode % 256) as u8, x: 0, y: 0 }],
        x < 0x8000 && y < 0x8000 ==> xtest_requests(InputEvent::MouseMove { x, y })
            == seq![FakeInput { type_id: 6, detail: 0, x: x as i16, y: y as i16 }],
{
}

}
