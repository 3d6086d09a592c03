//! The client's side of a session: applying server messages through an
//! injection backend, releasing every key it pressed when the server takes
//! the cursor back or the link drops, and the timing of reconnects.
use vstd::prelude::*;
use std::collections::BTreeSet;
use crate::proto::{no_modifiers, ClipboardContent, C2S, HelloC2S, HelloS2C, Modifiers, MouseButton, PROTOCOL_VERSION, S2C, ScreenInfo};

verus! {

/// A failure reported by an injection backend.
#[derive(Debug, Clone, PartialEq, Eq)]
pub struct InjectError {
    pub message: String,
}

/// One call made on an injection backend.
#[derive(Debug, Clone, Copy, PartialEq, Eq, Structural)]
pub enum InjectCall {
    WakeDisplay,
    MoveAbs { x: u16, y: u16 },
    MouseButton { button: MouseButton, pressed: bool },
    Scroll { dx: i16, dy: i16 },
    KeyEvent { keycode: u32, pressed: bool, modifiers: Modifiers },
}

/// Synthesizes input on the local machine.
pub trait InjectBackend {
    /// Every injection call made on this backend so far, in order, each with
    /// whether it succeeded. Each backend defines it; the provided empty log
    /// cannot meet the methods' contracts, so a verified backend has to.
    closed spec fn injected(&self) -> Seq<(InjectCall, bool)> {
        Seq::empty()
    }

    fn move_abs(&mut self, x: u16, y: u16) -> (r: Result<(), InjectError>)
        ensures
            final(self).injected() == old(self).injected().push((InjectCall::MoveAbs { x, y }, r is Ok)),
    ;

    fn mouse_button(&mut self, button: MouseButton, pressed: bool) -> (r: Result<(), InjectError>)
        ensures
            final(self).injected() == old(self).injected().push(
                (InjectCall::MouseButton { button, pressed }, r is Ok),
            ),
    ;

    fn scroll(&mut self, dx: i16, dy: i16) -> (r: Result<(), InjectError>)
        ensures
            final(self).injected() == old(self).injected().push((InjectCall::Scroll { dx, dy }, r is Ok)),
    ;

    fn key_event(&mut self, keycode: u32, pressed: bool, modifiers: Modifiers) -> (r: Result<(), InjectError>)
        ensures
            final(self).injected() == old(self).injected().push(
                (InjectCall::KeyEvent { keycode, pressed, modifiers }, r is Ok),
            ),
    ;

    /// Ask the platform to wake the display before input is injected.
    fn wake_display(&mut self) -> (r: Result<(), InjectError>)
        ensures
            final(self).injected() == old(self).injected().push((InjectCall::WakeDisplay, r is Ok)),
    ;

    /// The cached size of the client's display layout, reported to the
    /// server in the greeting.
    fn screen_size(&self) -> (r: (u16, u16))
        default_ensures
            r == (1920u16, 1080u16),
    {
        (1920, 1080)
    }

    /// Re-read the display layout and return its size; no input is
    /// injected. By default nothing is re-read: the result is what
    /// `screen_size` reports.
    fn refresh_screen_size(&mut self) -> (r: (u16, u16))
        ensures
            final(self).injected() == old(self).injected(),
        default_ensures
            call_ensures(Self::screen_size, (&*old(self),), r),
    {
        self.screen_size()
    }
}

/// The Wayland injection backend. It accepts every request and injects
/// nothing yet; it only records the calls made.
pub struct LinuxWaylandInject {
    log: Ghost<Seq<(InjectCall, bool)>>,
}

impl LinuxWaylandInject {
    pub fn new() -> (r: Result<LinuxWaylandInject, InjectError>)
        ensures
            r matches Ok(b) && b.injected() == Seq::<(InjectCall, bool)>::empty(),
    {
        Ok(LinuxWaylandInject { log: Ghost(Seq::empty()) })
    }
}

impl InjectBackend for LinuxWaylandInject {
    closed spec fn injected(&self) -> Seq<(InjectCall, bool)> {
        self.log@
    }

    fn move_abs(&mut self, x: u16, y: u16) -> (r: Result<(), InjectError>)
        ensures
            r is Ok,
    {
        proof {
            self.log@ = self.log@.push((InjectCall::MoveAbs { x, y }, true));
        }
        Ok(())
    }

    fn mouse_button(&mut self, button: MouseButton, pressed: bool) -> (r: Result<(), InjectError>)
        ensures
            r is Ok,
    {
        proof {
            self.log@ = self.log@.push((InjectCall::MouseButton { button, pressed }, true));
        }
        Ok(())
    }

    fn scroll(&mut self, dx: i16, dy: i16) -> (r: Result<(), InjectError>)
        ensures
            r is Ok,
    {
        proof {
            self.log@ = self.log@.push((InjectCall::Scroll { dx, dy }, true));
        }
        Ok(())
    }

    fn key_event(&mut self, keycode: u32, pressed: bool, modifiers: Modifiers) -> (r: Result<(), InjectError>)
        ensures
            r is Ok,
    {
        proof {
            self.log@ = self.log@.push((InjectCall::KeyEvent { keycode, pressed, modifiers }, true));
        }
        Ok(())
    }

    fn wake_display(&mut self) -> (r: Result<(), InjectError>)
        ensures
            r is Ok,
    {
        proof {
            self.log@ = self.log@.push((InjectCall::WakeDisplay, true));
        }
        Ok(())
    }
}

/// The Wayland injection backend.
pub fn backend() -> (r: Result<LinuxWaylandInject, InjectError>)
    ensures
        r matches Ok(b) && b.injected() == Seq::<(InjectCall, bool)>::empty(),
{
    LinuxWaylandInject::new()
}

/// The injection backend for this platform.
pub fn create() -> (r: Result<LinuxWaylandInject, InjectError>)
    ensures
        r matches Ok(b) && b.injected() == Seq::<(InjectCall, bool)>::empty(),
{
    backend()
}

/// `done` is `calls` made in order until the first failure: every call but
/// the last made succeeded; the run succeeded exactly when every call was
/// made and the last one succeeded.
pub open spec fn run_until_failure(done: Seq<(InjectCall, bool)>, calls: Seq<InjectCall>, ok: bool) -> bool {
    &&& done.len() <= calls.len()
    &&& forall|i: int| 0 <= i < done.len() ==> (#[trigger] done[i]).0 == calls[i]
    &&& forall|i: int| 0 <= i < done.len() - 1 ==> (#[trigger] done[i]).1
    &&& if ok {
        done.len() == calls.len() && (done.len() > 0 ==> done.last().1)
    } else {
        done.len() > 0 && !done.last().1
    }
}

/// A backend's log went from `before` to `after` by making `calls` in
/// order until the first failure; `ok` tells whether all succeeded.
pub open spec fn ran(
    before: Seq<(InjectCall, bool)>,
    after: Seq<(InjectCall, bool)>,
    calls: Seq<InjectCall>,
    ok: bool,
) -> bool {
    &&& before.len() <= after.len()
    &&& after.take(before.len() as int) == before
    &&& run_until_failure(after.skip(before.len() as int), calls, ok)
}

/// `before` followed by the calls `done` is a run in the sense of `ran`.
proof fn lemma_ran(before: Seq<(InjectCall, bool)>, done: Seq<(InjectCall, bool)>, calls: Seq<InjectCall>, ok: bool)
    requires
        run_until_failure(done, calls, ok),
    ensures
        ran(before, before + done, calls, ok),
{
    assert((before + done).take(before.len() as int) =~= before);
    assert((before + done).skip(before.len() as int) =~= done);
}

/// Releasing each key of `ks` in turn, with no modifiers.
pub open spec fn release_calls(ks: Seq<u32>) -> Seq<InjectCall> {
    ks.map_values(|k: u32| InjectCall::KeyEvent { keycode: k, pressed: false, modifiers: no_modifiers() })
}

/// `ks` lists the members of `s`, lowest first.
pub open spec fn ascending_keys(ks: Seq<u32>, s: Set<u32>) -> bool {
    &&& forall|a: int, b: int| 0 <= a < b < ks.len() ==> ks[a] < ks[b]
    &&& ks.to_set() == s
}

/// The members of `held`, lowest first.
fn keys_ascending(held: &BTreeSet<u32>) -> (keys: Vec<u32>)
    ensures
        ascending_keys(keys@, held@),
{
    broadcast use vstd::std_specs::btree::group_btree_axioms, vstd::laws_cmp::group_laws_cmp;
    let ghost gs = vstd::std_specs::iter::IteratorSpec::remaining(
        &vstd::std_specs::btree::spec_btree_keys_iter(held),
    );
    let mut keys: Vec<u32> = Vec::new();
    for k in it: held.iter()
        invariant
            it.seq() == gs,
            keys@.len() == it.index(),
            forall|j: int| 0 <= j < it.index() ==> keys@[j] == *gs[j],
    {
        keys.push(*k);
    }
    proof {
        assert(keys@ =~= gs.unref());
        assert(vstd::laws_cmp::obeys_cmp::<u32>());
        assert(vstd::laws_cmp::obeys_cmp::<&u32>());
        assert(vstd::std_specs::btree::increasing_seq(gs));
        assert forall|a: int, b: int| 0 <= a < b < keys@.len() implies keys@[a] < keys@[b] by {
            assert(vstd::std_specs::cmp::OrdSpec::cmp_spec(&gs[a], &gs[b]) is Less);
        }
    }
    keys
}

/// Release every key in `held` through `backend`, in ascending keycode
/// order, stopping at the first failure, then forget them. On a backend
/// failure the keys are kept, so a later attempt can release them. With
/// nothing held no call is made.
pub fn release_pressed_keys<B: InjectBackend>(backend: &mut B, held: &mut BTreeSet<u32>) -> (r: Result<(), InjectError>)
    ensures
        old(held)@.is_empty() ==> r is Ok && final(backend).injected() == old(backend).injected(),
        exists|ks: Seq<u32>|
            ascending_keys(ks, old(held)@) && ran(
                old(backend).injected(),
                final(backend).injected(),
                release_calls(ks),
                r is Ok,
            ),
        r is Ok ==> final(held)@ == Set::<u32>::empty(),
        r is Err ==> final(held)@ == old(held)@,
{
    let ghost l0 = backend.injected();
    if held.is_empty() {
        proof {
            let ks = Seq::<u32>::empty();
            assert(ks.to_set() =~= held@);
            assert(release_calls(ks) =~= Seq::<InjectCall>::empty());
            lemma_ran(l0, Seq::empty(), release_calls(ks), true);
            assert(l0 + Seq::<(InjectCall, bool)>::empty() =~= l0);
            assert(ascending_keys(ks, old(held)@) && ran(l0, backend.injected(), release_calls(ks), true));
        }
        return Ok(());
    }
    let keys = keys_ascending(held);
    let ghost calls = release_calls(keys@);
    let mut i: usize = 0;
    while i < keys.len()
        invariant
            0 <= i <= keys@.len(),
            held@ == old(held)@,
            !old(held)@.is_empty(),
            l0 == old(backend).injected(),
            ascending_keys(keys@, old(held)@),
            calls == release_calls(keys@),
            backend.injected() == l0 + calls.take(i as int).map_values(|c: InjectCall| (c, true)),
        decreases keys@.len() - i,
    {
        let ghost before = backend.injected();
        match backend.key_event(keys[i], false, Modifiers::default()) {
            Ok(()) => {
                proof {
                    assert(calls.take(i + 1).map_values(|c: InjectCall| (c, true)) =~= calls.take(
                        i as int,
                    ).map_values(|c: InjectCall| (c, true)).push((calls[i as int], true)));
                }
            },
            Err(e) => {
                proof {
                    let done = calls.take(i as int).map_values(|c: InjectCall| (c, true)).push((calls[i as int], false));
                    assert(backend.injected() =~= l0 + done);
                    lemma_ran(l0, done, calls, false);
                    assert(ascending_keys(keys@, old(held)@) && ran(l0, backend.injected(), release_calls(keys@), false));
                }
                return Err(e);
            },
        }
        i = i + 1;
    }
    proof {
        let done = calls.take(i as int).map_values(|c: InjectCall| (c, true));
        assert(calls.take(i as int) =~= calls);
        lemma_ran(l0, done, calls, true);
        assert(ascending_keys(keys@, old(held)@) && ran(l0, backend.injected(), release_calls(keys@), true));
    }
    held.clear();
    Ok(())
}

/// What the connection loop does after a server message was applied.
#[derive(Debug, Clone, PartialEq, Eq)]
pub enum MsgOutcome {
    /// Keep reading.
    Continue,
    /// Answer with a pong.
    SendPong,
    /// Hand the clipboard content to the clipboard worker.
    ApplyClipboard(ClipboardContent),
}

/// Why a client session ends with an error.
#[derive(Debug, Clone, PartialEq, Eq)]
pub enum ClientError {
    /// The injection backend failed.
    Backend(InjectError),
    /// The server sent a second greeting.
    UnexpectedHello,
    /// The server's first message was not a greeting.
    ExpectedHello,
    /// The server speaks another protocol version.
    VersionMismatch { server: u32, client: u32 },
}

/// The held keys after the server's key event was injected.
pub open spec fn held_after(held: Set<u32>, keycode: u32, pressed: bool) -> Set<u32> {
    if pressed {
        held.insert(keycode)
    } else {
        held.remove(keycode)
    }
}

fn backend_result(r: Result<(), InjectError>) -> (o: Result<MsgOutcome, ClientError>)
    ensures
        r is Ok ==> o == Ok::<MsgOutcome, ClientError>(MsgOutcome::Continue),
        r is Err ==> (o matches Err(ClientError::Backend(_))),
{
    match r {
        Ok(()) => Ok(MsgOutcome::Continue),
        Err(e) => Err(ClientError::Backend(e)),
    }
}

/// The calls applying an input message makes when every one succeeds:
/// wake the display, then inject.
pub open spec fn msg_calls(msg: S2C) -> Seq<InjectCall> {
    match msg {
        S2C::EnterScreen { x, y } => seq![InjectCall::WakeDisplay, InjectCall::MoveAbs { x, y }],
        S2C::MouseMoveAbs { x, y } => seq![InjectCall::WakeDisplay, InjectCall::MoveAbs { x, y }],
        S2C::MouseButton { button, pressed } => seq![
            InjectCall::WakeDisplay,
            InjectCall::MouseButton { button, pressed },
        ],
        S2C::Scroll { dx, dy } => seq![InjectCall::WakeDisplay, InjectCall::Scroll { dx, dy }],
        S2C::KeyEvent { keycode, pressed, modifiers } => seq![
            InjectCall::WakeDisplay,
            InjectCall::KeyEvent { keycode, pressed, modifiers },
        ],
        _ => Seq::empty(),
    }
}

/// Each input message is applied as a wake of the display followed by one
/// injection that carries the message's own fields: the same position, the
/// same button and press state, the same scroll deltas, the same key, press
/// state and modifiers. Every other message injects nothing.
pub proof fn lemma_input_messages_inject_their_fields(msg: S2C)
    ensures
        msg_calls(msg).len() == 0 || msg_calls(msg)[0] == InjectCall::WakeDisplay,
        msg matches S2C::EnterScreen { x, y } ==> msg_calls(msg) == seq![
            InjectCall::WakeDisplay,
            InjectCall::MoveAbs { x, y },
        ],
        msg matches S2C::MouseMoveAbs { x, y } ==> msg_calls(msg) == seq![
            InjectCall::WakeDisplay,
            InjectCall::MoveAbs { x, y },
        ],
        msg matches S2C::MouseButton { button, pressed } ==> msg_calls(msg).len() == 2 && (msg_calls(msg)[1] matches InjectCall::MouseButton { button: b, pressed: p } && b == button && p == pressed),
        msg matches S2C::Scroll { dx, dy } ==> msg_calls(msg).len() == 2 && (msg_calls(msg)[1] matches InjectCall::Scroll { dx: a, dy: b } && a == dx && b == dy),
        msg matches S2C::KeyEvent { keycode, pressed, modifiers } ==> msg_calls(msg).len() == 2 && (msg_calls(
            msg,
        )[1] matches InjectCall::KeyEvent { keycode: k, pressed: p, modifiers: m } && k == keycode && p == pressed
            && m == modifiers),
        !(msg is EnterScreen || msg is MouseMoveAbs || msg is MouseButton || msg is Scroll || msg is KeyEvent)
            ==> msg_calls(msg).len() == 0,
{
}

/// Apply one message from the server.
///
/// Input messages wake the display and are injected (`msg_calls`), stopping
/// at the first backend failure; a key event also updates the set of keys
/// held on this machine. Leaving the screen releases every held key as
/// `release_pressed_keys` does. A ping asks for a pong, clipboard content
/// goes to the clipboard worker, and a second greeting is a protocol error;
/// these touch neither the backend nor the held keys. The held set changes
/// only when the injection it records succeeded.
pub fn handle_msg<B: InjectBackend>(msg: S2C, backend: &mut B, held: &mut BTreeSet<u32>) -> (r: Result<MsgOutcome, ClientError>)
    ensures
        match msg {
            S2C::Hello(_) => {
                &&& r == Err::<MsgOutcome, ClientError>(ClientError::UnexpectedHello)
                &&& final(held)@ == old(held)@
                &&& final(backend).injected() == old(backend).injected()
            },
            S2C::Ping => {
                &&& r == Ok::<MsgOutcome, ClientError>(MsgOutcome::SendPong)
                &&& final(held)@ == old(held)@
                &&& final(backend).injected() == old(backend).injected()
            },
            S2C::ClipboardData(c) => {
                &&& r == Ok::<MsgOutcome, ClientError>(MsgOutcome::ApplyClipboard(c))
                &&& final(held)@ == old(held)@
                &&& final(backend).injected() == old(backend).injected()
            },
            S2C::LeaveScreen => {
                &&& exists|ks: Seq<u32>|
                    ascending_keys(ks, old(held)@) && ran(
                        old(backend).injected(),
                        final(backend).injected(),
                        release_calls(ks),
                        r is Ok,
                    )
                &&& r is Ok ==> r == Ok::<MsgOutcome, ClientError>(MsgOutcome::Continue)
                &&& r is Ok ==> final(held)@ == Set::<u32>::empty()
                &&& r is Err ==> (r matches Err(ClientError::Backend(_)))
                &&& r is Err ==> final(held)@ == old(held)@
            },
            S2C::KeyEvent { keycode, pressed, modifiers } => {
                &&& ran(old(backend).injected(), final(backend).injected(), msg_calls(msg), r is Ok)
                &&& r is Ok ==> r == Ok::<MsgOutcome, ClientError>(MsgOutcome::Continue)
                &&& r is Ok ==> final(held)@ == held_after(old(held)@, keycode, pressed)
                &&& r is Err ==> (r matches Err(ClientError::Backend(_)))
                &&& r is Err ==> final(held)@ == old(held)@
            },
            _ => {
                &&& ran(old(backend).injected(), final(backend).injected(), msg_calls(msg), r is Ok)
                &&& r is Ok ==> r == Ok::<MsgOutcome, ClientError>(MsgOutcome::Continue)
                &&& r is Err ==> (r matches Err(ClientError::Backend(_)))
                &&& final(held)@ == old(held)@
            },
        },
{
    let ghost l0 = backend.injected();
    let ghost calls = msg_calls(msg);
    match msg {
        S2C::EnterScreen { x, y } => {
            let w = backend.wake_display();
            if let Err(e) = w {
                proof {
                    assert(backend.injected() =~= l0 + seq![(calls[0], false)]);
                    lemma_ran(l0, seq![(calls[0], false)], calls, false);
                }
                return Err(ClientError::Backend(e));
            }
            let m = backend.move_abs(x, y);
            proof {
                assert(backend.injected() =~= l0 + seq![(calls[0], true), (calls[1], m is Ok)]);
                lemma_ran(l0, seq![(calls[0], true), (calls[1], m is Ok)], calls, m is Ok);
            }
            backend_result(m)
        },
        S2C::LeaveScreen => {
            match release_pressed_keys(backend, held) {
                Ok(()) => Ok(MsgOutcome::Continue),
                Err(e) => Err(ClientError::Backend(e)),
            }
        },
        S2C::MouseMoveAbs { x, y } => {
            let w = backend.wake_display();
            if let Err(e) = w {
                proof {
                    assert(backend.injected() =~= l0 + seq![(calls[0], false)]);
                    lemma_ran(l0, seq![(calls[0], false)], calls, false);
                }
                return Err(ClientError::Backend(e));
            }
            let m = backend.move_abs(x, y);
            proof {
                assert(backend.injected() =~= l0 + seq![(calls[0], true), (calls[1], m is Ok)]);
                lemma_ran(l0, seq![(calls[0], true), (calls[1], m is Ok)], calls, m is Ok);
            }
            backend_result(m)
        },
        S2C::MouseButton { button, pressed } => {
            let w = backend.wake_display();
            if let Err(e) = w {
                proof {
                    assert(backend.injected() =~= l0 + seq![(calls[0], false)]);
                    lemma_ran(l0, seq![(calls[0], false)], calls, false);
                }
                return Err(ClientError::Backend(e));
            }
            let m = backend.mouse_button(button, pressed);
            proof {
                assert(backend.injected() =~= l0 + seq![(calls[0], true), (calls[1], m is Ok)]);
                lemma_ran(l0, seq![(calls[0], true), (calls[1], m is Ok)], calls, m is Ok);
            }
            backend_result(m)
        },
        S2C::Scroll { dx, dy } => {
            let w = backend.wake_display();
            if let Err(e) = w {
                proof {
                    assert(backend.injected() =~= l0 + seq![(calls[0], false)]);
                    lemma_ran(l0, seq![(calls[0], false)], calls, false);
                }
                return Err(ClientError::Backend(e));
            }
            let m = backend.scroll(dx, dy);
            proof {
                assert(backend.injected() =~= l0 + seq![(calls[0], true), (calls[1], m is Ok)]);
                lemma_ran(l0, seq![(calls[0], true), (calls[1], m is Ok)], calls, m is Ok);
            }
            backend_result(m)
        },
        S2C::KeyEvent { keycode, pressed, modifiers } => {
            let w = backend.wake_display();
            if let Err(e) = w {
                proof {
                    assert(backend.injected() =~= l0 + seq![(calls[0], false)]);
                    lemma_ran(l0, seq![(calls[0], false)], calls, false);
                }
                return Err(ClientError::Backend(e));
            }
            let m = backend.key_event(keycode, pressed, modifiers);
            proof {
                assert(backend.injected() =~= l0 + seq![(calls[0], true), (calls[1], m is Ok)]);
                lemma_ran(l0, seq![(calls[0], true), (calls[1], m is Ok)], calls, m is Ok);
            }
            if let Err(e) = m {
                return Err(ClientError::Backend(e));
            }
            if pressed {
                held.insert(keycode);
            } else {
                held.remove(&keycode);
            }
            Ok(MsgOutcome::Continue)
        },
        S2C::ClipboardData(content) => Ok(MsgOutcome::ApplyClipboard(content)),
        S2C::Ping => Ok(MsgOutcome::SendPong),
        S2C::Hello(_) => Err(ClientError::UnexpectedHello),
    }
}

/// The greeting a client sends: this protocol version, its name, and one
/// screen of the given size at the origin.
pub fn client_hello(name: &String, size: (u16, u16)) -> (r: C2S)
    ensures
        r matches C2S::Hello(h) && h.version == PROTOCOL_VERSION && h.name == *name && h.screens@ == seq![
            ScreenInfo { name: *name, x: 0, y: 0, width: size.0, height: size.1 },
        ],
{
    let mut screens: Vec<ScreenInfo> = Vec::new();
    screens.push(ScreenInfo { name: name.clone(), x: 0, y: 0, width: size.0, height: size.1 });
    assert(screens@ =~= seq![ScreenInfo { name: *name, x: 0, y: 0, width: size.0, height: size.1 }]);
    C2S::Hello(HelloC2S { version: PROTOCOL_VERSION, name: name.clone(), screens })
}

/// Check the server's answer to the greeting: it must be a greeting in
/// this protocol version.
pub fn check_server_hello(msg: S2C) -> (r: Result<HelloS2C, ClientError>)
    ensures
        match msg {
            S2C::Hello(h) => if h.version == PROTOCOL_VERSION {
                r == Ok::<HelloS2C, ClientError>(h)
            } else {
                r == Err::<HelloS2C, ClientError>(
                    ClientError::VersionMismatch { server: h.version, client: PROTOCOL_VERSION },
                )
            },
            _ => r == Err::<HelloS2C, ClientError>(ClientError::ExpectedHello),
        },
{
    match msg {
        S2C::Hello(h) => {
            if h.version == PROTOCOL_VERSION {
                Ok(h)
            } else {
                Err(ClientError::VersionMismatch { server: h.version, client: PROTOCOL_VERSION })
            }
        },
        _ => Err(ClientError::ExpectedHello),
    }
}

/// The layout update to send when the display size changed from `last` to
/// `current`: one screen of the new size, or nothing when it is unchanged.
pub fn layout_update(name: &String, last: (u16, u16), current: (u16, u16)) -> (r: Option<C2S>)
    ensures
        last == current ==> r is None,
        last != current ==> (r matches Some(C2S::ScreenLayoutUpdate { screens }) && screens@ == seq![
            ScreenInfo { name: *name, x: 0, y: 0, width: current.0, height: current.1 },
        ]),
{
    if last.0 == current.0 && last.1 == current.1 {
        return None;
    }
    let mut screens: Vec<ScreenInfo> = Vec::new();
    screens.push(ScreenInfo { name: name.clone(), x: 0, y: 0, width: current.0, height: current.1 });
    assert(screens@ =~= seq![ScreenInfo { name: *name, x: 0, y: 0, width: current.0, height: current.1 }]);
    Some(C2S::ScreenLayoutUpdate { screens })
}

/// The first reconnect delay, and the one after a clean disconnect, in milliseconds.
pub const RECONNECT_INITIAL_MS: u64 = 500;

/// The longest reconnect delay, in milliseconds.
pub const RECONNECT_MAX_MS: u64 = 5000;

/// How long to wait before reconnecting, and the delay to use the time after.
///
/// A clean disconnect waits the initial delay; a failed attempt waits the
/// current one. Either way the next delay doubles the one just waited, up to
/// the maximum.
pub fn reconnect_delay(current_ms: u64, clean: bool) -> (r: (u64, u64))
    requires
        current_ms <= RECONNECT_MAX_MS,
    ensures
        r.0 == (if clean { RECONNECT_INITIAL_MS } else { current_ms }),
        r.1 == (if 2 * r.0 < RECONNECT_MAX_MS { 2 * r.0 } else { RECONNECT_MAX_MS as int }),
{
    let wait = if clean { RECONNECT_INITIAL_MS } else { current_ms };
    let doubled = wait * 2;
    let next = if doubled < RECONNECT_MAX_MS { doubled } else { RECONNECT_MAX_MS };
    (wait, next)
}

/// Starting from the initial delay, every delay the client waits stays
/// between the initial delay and the maximum.
pub proof fn lemma_reconnect_delay_bounded(current_ms: u64, clean: bool)
    requires
        RECONNECT_INITIAL_MS <= current_ms <= RECONNECT_MAX_MS,
    ensures
        ({
            let wait = if clean { RECONNECT_INITIAL_MS } else { current_ms };
            let next = if 2 * wait < RECONNECT_MAX_MS { 2 * wait } else { RECONNECT_MAX_MS as int };
            &&& RECONNECT_INITIAL_MS <= wait <= RECONNECT_MAX_MS
            &&& RECONNECT_INITIAL_MS <= next <= RECONNECT_MAX_MS
        }),
{
}

} // verus!
