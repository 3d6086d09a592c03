//! Edge capture on wlroots compositors, from the host side: which protocols
//! the compositor must offer, which output carries the edge strip, and how
//! keys are tracked while the host holds input.
use vstd::prelude::*;
use vstd::string::StringExecFns;

verus! {

/// A protocol the host needs, and what breaks without it.
#[derive(Debug, Clone, Copy, PartialEq, Eq)]
pub struct Requirement {
    pub interface: &'static str,
    pub purpose: &'static str,
    /// False for protocols the host can do without, at a cost worth naming.
    pub required: bool,
}

/// Every protocol the host checks for, in the order it reports them.
pub open spec fn requirements_spec() -> Seq<Requirement> {
    seq![
        Requirement { interface: "wl_compositor", purpose: "create surfaces", required: true },
        Requirement { interface: "wl_seat", purpose: "pointer and keyboard input", required: true },
        Requirement { interface: "wl_output", purpose: "per-monitor geometry for edge placement", required: true },
        Requirement { interface: "zwlr_layer_shell_v1", purpose: "edge strips and the capture overlay", required: true },
        Requirement {
            interface: "zwp_relative_pointer_manager_v1",
            purpose: "motion deltas that keep flowing past the screen edge",
            required: true,
        },
        Requirement {
            interface: "zwp_pointer_constraints_v1",
            purpose: "pin the local cursor while captured",
            required: true,
        },
        Requirement {
            interface: "zwp_keyboard_shortcuts_inhibit_manager_v1",
            purpose: "forward Super and Alt-Tab instead of losing them to sway",
            required: true,
        },
        Requirement {
            interface: "zwlr_virtual_pointer_manager_v1",
            purpose: "nudge the cursor off the edge when capture ends",
            required: false,
        },
        Requirement {
            interface: "wp_viewporter",
            purpose: "size surfaces without allocating real buffers",
            required: false,
        },
        Requirement {
            interface: "wp_single_pixel_buffer_manager_v1",
            purpose: "invisible surfaces without a shm pool",
            required: false,
        },
    ]
}

/// Every protocol the host checks for, in the order it reports them.
pub fn requirements() -> (r: Vec<Requirement>)
    ensures
        r@ == requirements_spec(),
{
    let mut r: Vec<Requirement> = Vec::new();
    r.push(Requirement { interface: "wl_compositor", purpose: "create surfaces", required: true });
    r.push(Requirement { interface: "wl_seat", purpose: "pointer and keyboard input", required: true });
    r.push(Requirement { interface: "wl_output", purpose: "per-monitor geometry for edge placement", required: true });
    r.push(Requirement { interface: "zwlr_layer_shell_v1", purpose: "edge strips and the capture overlay", required: true });
    r.push(
        Requirement {
            interface: "zwp_relative_pointer_manager_v1",
            purpose: "motion deltas that keep flowing past the screen edge",
            required: true,
        },
    );
    r.push(
        Requirement {
            interface: "zwp_pointer_constraints_v1",
            purpose: "pin the local cursor while captured",
            required: true,
        },
    );
    r.push(
        Requirement {
            interface: "zwp_keyboard_shortcuts_inhibit_manager_v1",
            purpose: "forward Super and Alt-Tab instead of losing them to sway",
            required: true,
        },
    );
    r.push(
        Requirement {
            interface: "zwlr_virtual_pointer_manager_v1",
            purpose: "nudge the cursor off the edge when capture ends",
            required: false,
        },
    );
    r.push(
        Requirement {
            interface: "wp_viewporter",
            purpose: "size surfaces without allocating real buffers",
            required: false,
        },
    );
    r.push(
        Requirement {
            interface: "wp_single_pixel_buffer_manager_v1",
            purpose: "invisible surfaces without a shm pool",
            required: false,
        },
    );
    assert(r@ =~= requirements_spec());
    r
}

/// What the compositor advertised: each global's interface and version.
#[derive(Debug, Clone, PartialEq, Eq)]
pub struct Advertised {
    pub globals: Vec<(String, u32)>,
}

/// The version of the first advertised global named `interface`.
pub open spec fn version_spec(globals: Seq<(String, u32)>, interface: Seq<char>) -> Option<u32>
    decreases globals.len(),
{
    if globals.len() == 0 {
        None
    } else if globals[0].0@ == interface {
        Some(globals[0].1)
    } else {
        version_spec(globals.drop_first(), interface)
    }
}

/// The required protocols among `reqs` that `globals` lacks, in order.
pub open spec fn missing_spec(globals: Seq<(String, u32)>, reqs: Seq<Requirement>) -> Seq<Requirement>
    decreases reqs.len(),
{
    if reqs.len() == 0 {
        Seq::empty()
    } else {
        let rest = missing_spec(globals, reqs.drop_last());
        let r = reqs.last();
        if r.required && version_spec(globals, r.interface@) is None {
            rest.push(r)
        } else {
            rest
        }
    }
}

impl Advertised {
    /// Nothing advertised.
    pub fn new() -> (r: Advertised)
        ensures
            r.globals@.len() == 0,
    {
        Advertised { globals: Vec::new() }
    }

    /// The version the compositor advertised for `interface`, if it did.
    pub fn version_of(&self, interface: &str) -> (r: Option<u32>)
        ensures
            r == version_spec(self.globals@, interface@),
    {
        let mut i: usize = 0;
        assert(self.globals@.skip(0) =~= self.globals@);
        while i < self.globals.len()
            invariant
                0 <= i <= self.globals@.len(),
                version_spec(self.globals@, interface@) == version_spec(self.globals@.skip(i as int), interface@),
            decreases self.globals@.len() - i,
        {
            assert(self.globals@.skip(i as int).drop_first() =~= self.globals@.skip(i + 1));
            assert(self.globals@.skip(i as int)[0] == self.globals@[i as int]);
            if crate::text::str_eq(self.globals[i].0.as_str(), interface) {
                return Some(self.globals[i].1);
            }
            i = i + 1;
        }
        None
    }

    /// Required interfaces the compositor did not advertise, in the order
    /// of `requirements()`.
    pub fn missing_required(&self) -> (r: Vec<Requirement>)
        ensures
            r@ == missing_spec(self.globals@, requirements_spec()),
    {
        let reqs = requirements();
        let mut r: Vec<Requirement> = Vec::new();
        let mut i: usize = 0;
        assert(reqs@.take(0) =~= Seq::<Requirement>::empty());
        while i < reqs.len()
            invariant
                0 <= i <= reqs@.len(),
                r@ == missing_spec(self.globals@, reqs@.take(i as int)),
            decreases reqs@.len() - i,
        {
            let q = reqs[i];
            assert(reqs@.take(i + 1).drop_last() =~= reqs@.take(i as int));
            if q.required && self.version_of(q.interface).is_none() {
                r.push(q);
            }
            i = i + 1;
        }
        assert(reqs@.take(reqs@.len() as int) =~= reqs@);
        r
    }
}

/// How one requirement fares against what the compositor advertised.
#[derive(Debug, Clone, Copy, PartialEq, Eq, Structural)]
pub enum CheckMark {
    /// Advertised, at this version.
    Present(u32),
    /// Required and not advertised.
    Missing,
    /// Optional and not advertised.
    Degraded,
}

/// How `req` fares against `adv`.
pub fn check_mark(adv: &Advertised, req: &Requirement) -> (r: CheckMark)
    ensures
        r == (match version_spec(adv.globals@, req.interface@) {
            Some(v) => CheckMark::Present(v),
            None => if req.required {
                CheckMark::Missing
            } else {
                CheckMark::Degraded
            },
        }),
{
    match adv.version_of(req.interface) {
        Some(v) => CheckMark::Present(v),
        None => if req.required {
            CheckMark::Missing
        } else {
            CheckMark::Degraded
        },
    }
}

/// Why the registry probe failed.
#[derive(Debug, Clone, PartialEq, Eq)]
pub enum ProbeError {
    Connect(String),
    Roundtrip(String),
}

impl ProbeError {
    /// The message shown to the user.
    pub fn message(&self) -> (r: String)
        ensures
            self matches ProbeError::Connect(e) ==> r@ == "cannot reach a Wayland compositor ("@ + e@
                + "). WAYLAND_DISPLAY and XDG_RUNTIME_DIR must point at a live session; an SSH shell without them will always land here."@,
            self matches ProbeError::Roundtrip(e) ==> r@ == "registry roundtrip failed: "@ + e@,
    {
        match self {
            ProbeError::Connect(e) => {
                let mut s = String::from_str("cannot reach a Wayland compositor (");
                s.append(e.as_str());
                s.append(
                    "). WAYLAND_DISPLAY and XDG_RUNTIME_DIR must point at a live session; an SSH shell without them will always land here.",
                );
                s
            },
            ProbeError::Roundtrip(e) => {
                let mut s = String::from_str("registry roundtrip failed: ");
                s.append(e.as_str());
                s
            },
        }
    }
}

/// The screen edge that leads to the remote machine.
#[derive(Debug, Clone, Copy, PartialEq, Eq, Structural)]
pub enum Edge {
    Left,
    Right,
    Top,
    Bottom,
}

/// Which sides of the output a layer surface is anchored to.
#[derive(Debug, Clone, Copy, PartialEq, Eq, Structural)]
pub struct Anchors {
    pub top: bool,
    pub bottom: bool,
    pub left: bool,
    pub right: bool,
}

impl Edge {
    /// Anchors pinning a strip to this edge and stretching it along the
    /// perpendicular.
    pub fn anchors(self) -> (r: Anchors)
        ensures
            r == (match self {
                Edge::Left => Anchors { top: true, bottom: true, left: true, right: false },
                Edge::Right => Anchors { top: true, bottom: true, left: false, right: true },
                Edge::Top => Anchors { top: true, bottom: false, left: true, right: true },
                Edge::Bottom => Anchors { top: false, bottom: true, left: true, right: true },
            }),
    {
        match self {
            Edge::Left => Anchors { top: true, bottom: true, left: true, right: false },
            Edge::Right => Anchors { top: true, bottom: true, left: false, right: true },
            Edge::Top => Anchors { top: true, bottom: false, left: true, right: true },
            Edge::Bottom => Anchors { top: false, bottom: true, left: true, right: true },
        }
    }

    /// The size asked for a strip on this edge. A zero dimension tells the
    /// compositor to stretch that axis to the output, so a vertical strip is
    /// one pixel wide and full height.
    pub fn strip_size(self) -> (r: (u32, u32))
        ensures
            r == (match self {
                Edge::Left | Edge::Right => (1u32, 0u32),
                Edge::Top | Edge::Bottom => (0u32, 1u32),
            }),
    {
        match self {
            Edge::Left | Edge::Right => (1, 0),
            Edge::Top | Edge::Bottom => (0, 1),
        }
    }
}

/// Whether the host is waiting at the edge or holding input.
#[derive(Debug, Clone, Copy, PartialEq, Eq, Structural)]
pub enum Phase {
    Idle,
    Active,
}

/// Which surface a configure event belongs to.
#[derive(Debug, Clone, Copy, PartialEq, Eq, Structural)]
pub enum SurfaceRole {
    Strip,
    Overlay,
}

/// Geometry for one monitor, accumulated across output events.
#[derive(Debug, Clone, Copy, PartialEq, Eq, Structural)]
pub struct OutputInfo {
    pub x: i32,
    pub y: i32,
    pub width: i32,
    pub height: i32,
    /// Position and mode arrive separately; only after `done` is the
    /// geometry coherent.
    pub done: bool,
}

impl Default for OutputInfo {
    fn default() -> (r: OutputInfo)
        ensures
            r == (OutputInfo { x: 0, y: 0, width: 0, height: 0, done: false }),
    {
        OutputInfo { x: 0, y: 0, width: 0, height: 0, done: false }
    }
}

/// The port the client listens on unless told otherwise.
pub const DEFAULT_PORT: u16 = 47821;

/// Which screen edge hands control to the remote machine, and the port of
/// the client behind it.
#[derive(Debug, Clone, Copy, PartialEq, Eq, Structural)]
pub struct Config {
    pub edge: Edge,
    pub port: u16,
}

impl Default for Config {
    /// The left edge, on the default port.
    fn default() -> (r: Config)
        ensures
            r == (Config { edge: Edge::Left, port: DEFAULT_PORT }),
    {
        Config { edge: Edge::Left, port: DEFAULT_PORT }
    }
}

/// Why the host cannot capture.
#[derive(Debug, Clone, PartialEq, Eq)]
pub enum Error {
    Connect(String),
    Roundtrip(String),
    MissingGlobal(&'static str),
    NoOutput(Edge),
}

/// The globals the host has bound so far.
#[derive(Debug, Clone, Copy, PartialEq, Eq, Structural)]
pub struct BoundGlobals {
    pub compositor: bool,
    pub layer_shell: bool,
    pub viewporter: bool,
    pub single_pixel_buffer: bool,
    pub seat: bool,
    pub shortcuts_inhibit: bool,
    pub relative_pointer: bool,
}

impl BoundGlobals {
    /// Fail on a missing protocol at startup rather than when it is needed,
    /// naming the first absent one in a fixed order.
    pub fn check_globals(&self) -> (r: Result<(), Error>)
        ensures
            r == (if !self.compositor {
                Err::<(), Error>(Error::MissingGlobal("wl_compositor"))
            } else if !self.layer_shell {
                Err(Error::MissingGlobal("zwlr_layer_shell_v1"))
            } else if !self.viewporter {
                Err(Error::MissingGlobal("wp_viewporter"))
            } else if !self.single_pixel_buffer {
                Err(Error::MissingGlobal("wp_single_pixel_buffer_manager_v1"))
            } else if !self.seat {
                Err(Error::MissingGlobal("wl_seat"))
            } else if !self.shortcuts_inhibit {
                Err(Error::MissingGlobal("zwp_keyboard_shortcuts_inhibit_manager_v1"))
            } else if !self.relative_pointer {
                Err(Error::MissingGlobal("zwp_relative_pointer_manager_v1"))
            } else {
                Ok(())
            }),
    {
        if !self.compositor {
            return Err(Error::MissingGlobal("wl_compositor"));
        }
        if !self.layer_shell {
            return Err(Error::MissingGlobal("zwlr_layer_shell_v1"));
        }
        if !self.viewporter {
            return Err(Error::MissingGlobal("wp_viewporter"));
        }
        if !self.single_pixel_buffer {
            return Err(Error::MissingGlobal("wp_single_pixel_buffer_manager_v1"));
        }
        if !self.seat {
            return Err(Error::MissingGlobal("wl_seat"));
        }
        if !self.shortcuts_inhibit {
            return Err(Error::MissingGlobal("zwp_keyboard_shortcuts_inhibit_manager_v1"));
        }
        if !self.relative_pointer {
            return Err(Error::MissingGlobal("zwp_relative_pointer_manager_v1"));
        }
        Ok(())
    }
}

/// How far an output reaches towards `edge`: smaller means further out.
pub open spec fn edge_key(o: OutputInfo, edge: Edge) -> int {
    match edge {
        Edge::Left => o.x as int,
        Edge::Right => -(o.x + o.width),
        Edge::Top => o.y as int,
        Edge::Bottom => -(o.y + o.height),
    }
}

/// `i` is the first ready output whose key is the least among ready outputs.
pub open spec fn is_boundary(outputs: Seq<OutputInfo>, edge: Edge, i: int) -> bool {
    &&& 0 <= i < outputs.len()
    &&& outputs[i].done
    &&& forall|j: int| 0 <= j < outputs.len() && (#[trigger] outputs[j]).done ==> edge_key(outputs[i], edge) <= edge_key(outputs[j], edge)
    &&& forall|j: int| 0 <= j < i && (#[trigger] outputs[j]).done ==> edge_key(outputs[i], edge) < edge_key(outputs[j], edge)
}

fn edge_key_exec(o: &OutputInfo, edge: Edge) -> (r: i64)
    ensures
        r == edge_key(*o, edge),
{
    match edge {
        Edge::Left => o.x as i64,
        Edge::Right => -(o.x as i64 + o.width as i64),
        Edge::Top => o.y as i64,
        Edge::Bottom => -(o.y as i64 + o.height as i64),
    }
}

/// The output whose edge is the outer boundary of the desktop on `edge`:
/// among outputs whose geometry is complete, the one reaching furthest that
/// way, the first of them on a tie. With three monitors side by side, only
/// the leftmost one's left edge leaves the desktop.
pub fn boundary_output(outputs: &Vec<OutputInfo>, edge: Edge) -> (r: Option<usize>)
    ensures
        r matches Some(i) ==> is_boundary(outputs@, edge, i as int),
        r is None <==> forall|j: int| 0 <= j < outputs@.len() ==> !(#[trigger] outputs@[j]).done,
{
    let mut best: Option<usize> = None;
    let mut best_key: i64 = 0;
    let mut i: usize = 0;
    while i < outputs.len()
        invariant
            0 <= i <= outputs@.len(),
            best is None <==> forall|j: int| 0 <= j < i ==> !(#[trigger] outputs@[j]).done,
            best matches Some(b) ==> {
                &&& b < i
                &&& outputs@[b as int].done
                &&& best_key == edge_key(outputs@[b as int], edge)
                &&& forall|j: int| 0 <= j < i && (#[trigger] outputs@[j]).done ==> best_key <= edge_key(outputs@[j], edge)
                &&& forall|j: int| 0 <= j < b && (#[trigger] outputs@[j]).done ==> best_key < edge_key(outputs@[j], edge)
            },
        decreases outputs@.len() - i,
    {
        if outputs[i].done {
            let k = edge_key_exec(&outputs[i], edge);
            match best {
                None => {
                    best = Some(i);
                    best_key = k;
                },
                Some(_) => {
                    if k < best_key {
                        best = Some(i);
                        best_key = k;
                    }
                },
            }
        }
        i = i + 1;
    }
    best
}

/// The size a configured surface is given: the size the compositor granted,
/// with zero or an out-of-range value taken as one pixel.
pub fn configured_size(width: u32, height: u32) -> (r: (i32, i32))
    ensures
        r.0 == (if width == 0 || width > i32::MAX { 1 } else { width as i32 }),
        r.1 == (if height == 0 || height > i32::MAX { 1 } else { height as i32 }),
{
    let w: i32 = if width == 0 || width > 2147483647 { 1 } else { width as i32 };
    let h: i32 = if height == 0 || height > 2147483647 { 1 } else { height as i32 };
    (w, h)
}

/// `KEY_ESC`, `KEY_LEFTCTRL` and `KEY_RIGHTCTRL` as evdev codes.
pub const KEY_ESC: u16 = 1;

pub const KEY_LEFTCTRL: u16 = 29;

pub const KEY_RIGHTCTRL: u16 = 97;

/// What the host does with a key while it holds input.
#[derive(Debug, Clone, Copy, PartialEq, Eq, Structural)]
pub enum HostKeyAction {
    /// Not a key the wire can carry, or input is not held; drop it.
    Ignore,
    /// Forward the key to the client.
    Forward { code: u16, pressed: bool },
    /// Ctrl+Esc: give input back to this machine.
    Escape,
}

/// Whether a control key is among `held`.
pub open spec fn ctrl_held(held: Seq<u16>) -> bool {
    held.contains(KEY_LEFTCTRL) || held.contains(KEY_RIGHTCTRL)
}

/// The held keys after `code` was pressed or released.
pub open spec fn host_held_after(held: Seq<u16>, code: u16, pressed: bool) -> Seq<u16> {
    if pressed {
        if held.contains(code) {
            held
        } else {
            held.push(code)
        }
    } else {
        held.filter(other_code(code))
    }
}

/// The predicate "is not `code`".
pub open spec fn other_code(code: u16) -> spec_fn(u16) -> bool {
    |k: u16| k != code
}

/// Keys held while the host holds input, in the order they were pressed.
pub struct HostKeys {
    held: Vec<u16>,
}

impl View for HostKeys {
    type V = Seq<u16>;

    closed spec fn view(&self) -> Seq<u16> {
        self.held@
    }
}

impl HostKeys {
    /// Nothing held.
    pub fn new() -> (r: HostKeys)
        ensures
            r@ == Seq::<u16>::empty(),
    {
        HostKeys { held: Vec::new() }
    }

    /// A key event while input is held. The key is tracked, then the event is
    /// forwarded, unless it is Esc pressed while a control key is held, which
    /// ends capture instead. Codes past the `u16` range are dropped.
    pub fn on_key(&mut self, key: u32, pressed: bool) -> (r: HostKeyAction)
        ensures
            key > u16::MAX ==> r == HostKeyAction::Ignore && final(self)@ == old(self)@,
            key <= u16::MAX ==> {
                let code = key as u16;
                let after = host_held_after(old(self)@, code, pressed);
                &&& final(self)@ == after
                &&& r == (if pressed && code == KEY_ESC && ctrl_held(after) {
                    HostKeyAction::Escape
                } else {
                    HostKeyAction::Forward { code, pressed }
                })
            },
    {
        if key > 65535 {
            return HostKeyAction::Ignore;
        }
        let code = key as u16;
        if pressed {
            let mut found = false;
            let mut i: usize = 0;
            while i < self.held.len()
                invariant
                    0 <= i <= self.held@.len(),
                    found == (exists|j: int| 0 <= j < i && self.held@[j] == code),
                decreases self.held@.len() - i,
            {
                if self.held[i] == code {
                    found = true;
                }
                i = i + 1;
            }
            if !found {
                self.held.push(code);
            }
        } else {
            let ghost keep = other_code(code);
            let ghost old_held = self.held@;
            let mut kept: Vec<u16> = Vec::new();
            let mut i: usize = 0;
            assert(old_held.take(0) =~= Seq::<u16>::empty());
            proof { reveal(Seq::filter); }
            while i < self.held.len()
                invariant
                    0 <= i <= self.held@.len(),
                    self.held@ == old_held,
                    keep == other_code(code),
                    kept@ == old_held.take(i as int).filter(keep),
                decreases self.held@.len() - i,
            {
                let k = self.held[i];
                assert(old_held.take(i + 1) =~= old_held.take(i as int).push(k));
                proof { old_held.take(i as int).lemma_filter_push(k, keep); }
                if k != code {
                    kept.push(k);
                }
                i = i + 1;
            }
            assert(old_held.take(old_held.len() as int) =~= old_held);
            self.held = kept;
        }
        let mut ctrl = false;
        let mut j: usize = 0;
        while j < self.held.len()
            invariant
                0 <= j <= self.held@.len(),
                ctrl == (exists|q: int| 0 <= q < j && (self.held@[q] == KEY_LEFTCTRL || self.held@[q] == KEY_RIGHTCTRL)),
            decreases self.held@.len() - j,
        {
            if self.held[j] == KEY_LEFTCTRL || self.held[j] == KEY_RIGHTCTRL {
                ctrl = true;
            }
            j = j + 1;
        }
        proof {
            if ctrl {
                let q = choose|q: int| 0 <= q < self.held@.len() && (self.held@[q] == KEY_LEFTCTRL || self.held@[q] == KEY_RIGHTCTRL);
                if self.held@[q] == KEY_LEFTCTRL {
                    assert(self.held@.contains(KEY_LEFTCTRL));
                } else {
                    assert(self.held@.contains(KEY_RIGHTCTRL));
                }
            }
            if ctrl_held(self.held@) {
                if self.held@.contains(KEY_LEFTCTRL) {
                    let q = choose|q: int| 0 <= q < self.held@.len() && self.held@[q] == KEY_LEFTCTRL;
                    assert(self.held@[q] == KEY_LEFTCTRL);
                } else {
                    let q = choose|q: int| 0 <= q < self.held@.len() && self.held@[q] == KEY_RIGHTCTRL;
                    assert(self.held@[q] == KEY_RIGHTCTRL);
                }
            }
        }
        if pressed && code == KEY_ESC && ctrl {
            HostKeyAction::Escape
        } else {
            HostKeyAction::Forward { code, pressed }
        }
    }

    /// Capture ends: the keys to release, in the order they were pressed;
    /// nothing stays held.
    pub fn take_releases(&mut self) -> (r: Vec<u16>)
        ensures
            r@ == old(self)@,
            final(self)@ == Seq::<u16>::empty(),
    {
        let mut taken: Vec<u16> = Vec::new();
        std::mem::swap(&mut taken, &mut self.held);
        taken
    }
}

/// Holding Ctrl, pressing Esc always hands input back.
pub proof fn lemma_ctrl_esc_escapes(held: Seq<u16>)
    requires
        held.contains(KEY_LEFTCTRL) || held.contains(KEY_RIGHTCTRL),
    ensures
        ctrl_held(host_held_after(held, KEY_ESC, true)),
{
    let after = host_held_after(held, KEY_ESC, true);
    if held.contains(KEY_LEFTCTRL) {
        let q = choose|q: int| 0 <= q < held.len() && held[q] == KEY_LEFTCTRL;
        assert(after[q] == KEY_LEFTCTRL);
    } else {
        let q = choose|q: int| 0 <= q < held.len() && held[q] == KEY_RIGHTCTRL;
        assert(after[q] == KEY_RIGHTCTRL);
    }
}

} // verus!
