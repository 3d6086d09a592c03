use std::collections::BTreeSet;
use wayflow::client::{
    backend, check_server_hello, client_hello, create, handle_msg, layout_update, reconnect_delay,
    release_pressed_keys, ClientError, InjectBackend, InjectError, MsgOutcome, RECONNECT_INITIAL_MS,
    RECONNECT_MAX_MS,
};
use wayflow::proto::{ClipboardContent, HelloS2C, Modifiers, MouseButton, ScreenInfo, C2S, PROTOCOL_VERSION, S2C};

#[derive(Debug, Clone, PartialEq)]
enum Call {
    WakeDisplay,
    MoveAbs(u16, u16),
    MouseButton(MouseButton, bool),
    Scroll(i16, i16),
    KeyEvent(u32, bool),
}

struct MockBackend {
    calls: Vec<Call>,
    fail_on: Option<Call>,
}

impl MockBackend {
    fn new() -> Self {
        MockBackend { calls: Vec::new(), fail_on: None }
    }

    fn failing(on: Call) -> Self {
        MockBackend { calls: Vec::new(), fail_on: Some(on) }
    }

    fn record(&mut self, call: Call) -> Result<(), InjectError> {
        if self.fail_on.as_ref() == Some(&call) {
            return Err(InjectError { message: "injected failure".into() });
        }
        self.calls.push(call);
        Ok(())
    }
}

impl InjectBackend for MockBackend {
    fn wake_display(&mut self) -> Result<(), InjectError> {
        self.calls.push(Call::WakeDisplay);
        Ok(())
    }
    fn move_abs(&mut self, x: u16, y: u16) -> Result<(), InjectError> {
        self.record(Call::MoveAbs(x, y))
    }
    fn mouse_button(&mut self, button: MouseButton, pressed: bool) -> Result<(), InjectError> {
        self.record(Call::MouseButton(button, pressed))
    }
    fn scroll(&mut self, dx: i16, dy: i16) -> Result<(), InjectError> {
        self.record(Call::Scroll(dx, dy))
    }
    fn key_event(&mut self, keycode: u32, pressed: bool, _modifiers: Modifiers) -> Result<(), InjectError> {
        self.record(Call::KeyEvent(keycode, pressed))
    }
}

/// Apply the messages in order, then end the session the way the connection
/// loop does: release whatever is still held.
fn session(msgs: Vec<S2C>, backend: &mut MockBackend) -> Result<(), ClientError> {
    let mut held = BTreeSet::new();
    let mut result = Ok(());
    for m in msgs {
        match handle_msg(m, backend, &mut held) {
            Ok(_) => {}
            Err(e) => {
                result = Err(e);
                break;
            }
        }
    }
    if let Err(e) = release_pressed_keys(backend, &mut held) {
        if result.is_ok() {
            result = Err(ClientError::Backend(e));
        }
    }
    result
}

fn run_with_msg(msg: S2C) -> Vec<Call> {
    let mut b = MockBackend::new();
    session(vec![msg], &mut b).unwrap();
    b.calls
}

#[test]
fn create_returns_ok_on_linux() {
    assert!(create().is_ok());
}

#[test]
fn create_returns_ok_on_macos_windows() {
    assert!(create().is_ok());
}

#[test]
fn linux_backend_accepts_every_request() {
    let mut b = backend().unwrap();
    assert!(b.move_abs(0, 0).is_ok());
    assert!(b.mouse_button(MouseButton::Left, true).is_ok());
    assert!(b.scroll(3, -3).is_ok());
    assert!(b.key_event(0x04, true, Modifiers::default()).is_ok());
    assert!(b.wake_display().is_ok());
    assert_eq!(b.screen_size(), (1920, 1080));
    assert_eq!(b.refresh_screen_size(), (1920, 1080));
}

#[test]
fn enter_screen_calls_move_abs() {
    assert_eq!(run_with_msg(S2C::EnterScreen { x: 10, y: 20 }), vec![Call::WakeDisplay, Call::MoveAbs(10, 20)]);
}

#[test]
fn leave_screen_makes_no_backend_call() {
    assert!(run_with_msg(S2C::LeaveScreen).is_empty());
}

#[test]
fn leave_screen_releases_pressed_keys() {
    let mut b = MockBackend::new();
    let shift = Modifiers { shift: true, ..Modifiers::default() };
    session(vec![S2C::KeyEvent { keycode: 0xE1, pressed: true, modifiers: shift }, S2C::LeaveScreen], &mut b)
        .unwrap();
    assert_eq!(b.calls, vec![Call::WakeDisplay, Call::KeyEvent(0xE1, true), Call::KeyEvent(0xE1, false)]);
}

#[test]
fn mouse_move_abs_calls_move_abs() {
    assert_eq!(run_with_msg(S2C::MouseMoveAbs { x: 640, y: 480 }), vec![Call::WakeDisplay, Call::MoveAbs(640, 480)]);
}

#[test]
fn mouse_button_dispatched() {
    assert_eq!(
        run_with_msg(S2C::MouseButton { button: MouseButton::Left, pressed: true }),
        vec![Call::WakeDisplay, Call::MouseButton(MouseButton::Left, true)]
    );
}

#[test]
fn scroll_dispatched() {
    assert_eq!(run_with_msg(S2C::Scroll { dx: 5, dy: -3 }), vec![Call::WakeDisplay, Call::Scroll(5, -3)]);
}

#[test]
fn key_event_dispatched() {
    assert_eq!(
        run_with_msg(S2C::KeyEvent { keycode: 65, pressed: true, modifiers: Modifiers::default() }),
        vec![Call::WakeDisplay, Call::KeyEvent(65, true), Call::KeyEvent(65, false)]
    );
}

#[test]
fn disconnect_releases_pressed_keys() {
    let shift = Modifiers { shift: true, ..Modifiers::default() };
    assert_eq!(
        run_with_msg(S2C::KeyEvent { keycode: 0xE1, pressed: true, modifiers: shift }),
        vec![Call::WakeDisplay, Call::KeyEvent(0xE1, true), Call::KeyEvent(0xE1, false)]
    );
}

#[test]
fn release_goes_in_ascending_keycode_order() {
    let mut b = MockBackend::new();
    let m = Modifiers::default();
    session(
        vec![
            S2C::KeyEvent { keycode: 0xE2, pressed: true, modifiers: m },
            S2C::KeyEvent { keycode: 0x04, pressed: true, modifiers: m },
            S2C::LeaveScreen,
        ],
        &mut b,
    )
    .unwrap();
    assert_eq!(
        b.calls,
        vec![
            Call::WakeDisplay,
            Call::KeyEvent(0xE2, true),
            Call::WakeDisplay,
            Call::KeyEvent(0x04, true),
            Call::KeyEvent(0x04, false),
            Call::KeyEvent(0xE2, false),
        ]
    );
}

#[test]
fn clipboard_data_makes_no_backend_call() {
    let mut b = MockBackend::new();
    let mut held = BTreeSet::new();
    let content = ClipboardContent::Text("x".into());
    let out = handle_msg(S2C::ClipboardData(content.clone()), &mut b, &mut held).unwrap();
    assert_eq!(out, MsgOutcome::ApplyClipboard(content));
    assert!(b.calls.is_empty());
}

#[test]
fn hello_from_server_errors() {
    let mut b = MockBackend::new();
    let mut held = BTreeSet::new();
    let r = handle_msg(S2C::Hello(HelloS2C { version: PROTOCOL_VERSION, screens: vec![] }), &mut b, &mut held);
    assert_eq!(r, Err(ClientError::UnexpectedHello));
    assert!(b.calls.is_empty());
}

#[test]
fn ping_sends_pong_back() {
    let mut b = MockBackend::new();
    let mut held = BTreeSet::new();
    assert_eq!(handle_msg(S2C::Ping, &mut b, &mut held), Ok(MsgOutcome::SendPong));
}

#[test]
fn backend_move_abs_error_propagates() {
    let mut b = MockBackend::failing(Call::MoveAbs(0, 0));
    assert!(session(vec![S2C::MouseMoveAbs { x: 0, y: 0 }], &mut b).is_err());
}

#[test]
fn backend_mouse_button_error_propagates() {
    let mut b = MockBackend::failing(Call::MouseButton(MouseButton::Left, true));
    assert!(session(vec![S2C::MouseButton { button: MouseButton::Left, pressed: true }], &mut b).is_err());
}

#[test]
fn backend_scroll_error_propagates() {
    let mut b = MockBackend::failing(Call::Scroll(1, 1));
    assert!(session(vec![S2C::Scroll { dx: 1, dy: 1 }], &mut b).is_err());
}

#[test]
fn backend_key_event_error_propagates() {
    let mut b = MockBackend::failing(Call::KeyEvent(1, false));
    assert!(session(vec![S2C::KeyEvent { keycode: 1, pressed: false, modifiers: Modifiers::default() }], &mut b)
        .is_err());
}

#[test]
fn failed_key_press_is_not_remembered() {
    let mut b = MockBackend::failing(Call::KeyEvent(7, true));
    let mut held = BTreeSet::new();
    let r = handle_msg(S2C::KeyEvent { keycode: 7, pressed: true, modifiers: Modifiers::default() }, &mut b, &mut held);
    assert!(matches!(r, Err(ClientError::Backend(_))));
    assert!(held.is_empty());
}

#[test]
fn server_disconnect_exits_cleanly() {
    let mut b = MockBackend::new();
    assert!(session(vec![], &mut b).is_ok());
    assert!(b.calls.is_empty());
}

#[test]
fn greeting_carries_the_screen_size() {
    match client_hello(&"helicon".to_string(), (2560, 1440)) {
        C2S::Hello(h) => {
            assert_eq!(h.version, PROTOCOL_VERSION);
            assert_eq!(h.name, "helicon");
            assert_eq!(h.screens, vec![ScreenInfo { name: "helicon".into(), x: 0, y: 0, width: 2560, height: 1440 }]);
        }
        other => panic!("expected a greeting, got {other:?}"),
    }
}

#[test]
fn server_greeting_is_checked() {
    let ok = HelloS2C { version: PROTOCOL_VERSION, screens: vec![] };
    assert_eq!(check_server_hello(S2C::Hello(ok.clone())), Ok(ok));
    assert_eq!(
        check_server_hello(S2C::Hello(HelloS2C { version: 9, screens: vec![] })),
        Err(ClientError::VersionMismatch { server: 9, client: PROTOCOL_VERSION })
    );
    assert_eq!(check_server_hello(S2C::Ping), Err(ClientError::ExpectedHello));
}

#[test]
fn layout_change_is_reported_once() {
    let name = "t".to_string();
    assert_eq!(layout_update(&name, (1920, 1080), (1920, 1080)), None);
    assert_eq!(
        layout_update(&name, (1920, 1080), (3840, 1080)),
        Some(C2S::ScreenLayoutUpdate {
            screens: vec![ScreenInfo { name: "t".into(), x: 0, y: 0, width: 3840, height: 1080 }]
        })
    );
}

#[test]
fn reconnect_backoff_doubles_up_to_five_seconds() {
    assert_eq!(reconnect_delay(RECONNECT_INITIAL_MS, false), (500, 1000));
    assert_eq!(reconnect_delay(1000, false), (1000, 2000));
    assert_eq!(reconnect_delay(4000, false), (4000, 5000));
    assert_eq!(reconnect_delay(RECONNECT_MAX_MS, false), (5000, 5000));
    assert_eq!(reconnect_delay(4000, true), (500, 1000));
}

#[test]
fn release_with_nothing_held_succeeds_without_calls() {
    let mut backend = MockBackend::failing(Call::KeyEvent(4, false));
    let mut held = BTreeSet::new();
    assert!(release_pressed_keys(&mut backend, &mut held).is_ok());
    assert!(backend.calls.is_empty());
}

#[test]
fn default_backend_methods() {
    let mut backend = MockBackend::new();
    assert_eq!(backend.screen_size(), (1920, 1080));
    assert_eq!(backend.refresh_screen_size(), (1920, 1080));
    let mut inject = wayflow::client::create().unwrap();
    assert!(inject.wake_display().is_ok());
    assert_eq!(inject.refresh_screen_size(), (1920, 1080));
}
