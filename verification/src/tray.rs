//! The tray supervisor: the state of the supervised server or client
//! process, what the menu and icon show for it, the ring of its recent
//! output lines, and the procedurally drawn icons.
use vstd::prelude::*;
use vstd::string::StringExecFns;
use crate::text::{decimal, push_decimal, push_signed_decimal, signed_decimal};

verus! {

/// Which subcommand the tray runs.
#[derive(Debug, Clone, Copy, PartialEq, Eq, Structural)]
pub enum Mode {
    Server,
    Client,
}

impl Mode {
    /// The subcommand's name.
    pub fn label(self) -> (r: &'static str)
        ensures
            self == Mode::Server ==> r == "server",
            self == Mode::Client ==> r == "client",
    {
        match self {
            Mode::Server => "server",
            Mode::Client => "client",
        }
    }
}

/// The name of a mode.
pub open spec fn mode_name(m: Mode) -> Seq<char> {
    match m {
        Mode::Server => seq!['s', 'e', 'r', 'v', 'e', 'r'],
        Mode::Client => seq!['c', 'l', 'i', 'e', 'n', 't'],
    }
}

/// The supervised process's state.
#[derive(Debug, Clone, Copy, PartialEq, Eq, Structural)]
pub enum State {
    Stopped,
    Running { mode: Mode, pid: u32 },
    Crashed { mode: Mode, code: Option<i32> },
}

impl State {
    pub fn is_running(&self) -> (r: bool)
        ensures
            r == (*self is Running),
    {
        match self {
            State::Running { .. } => true,
            _ => false,
        }
    }

    /// The mode of the running or crashed process.
    pub fn mode(&self) -> (r: Option<Mode>)
        ensures
            r == (match *self {
                State::Running { mode, .. } => Some(mode),
                State::Crashed { mode, .. } => Some(mode),
                State::Stopped => None,
            }),
    {
        match self {
            State::Running { mode, .. } => Some(*mode),
            State::Crashed { mode, .. } => Some(*mode),
            State::Stopped => None,
        }
    }
}

/// The state after the process exited on its own: stopped on success,
/// crashed otherwise, keeping its mode (server when none is known) and exit
/// code.
pub fn after_exit(s: State, success: bool, code: Option<i32>) -> (r: State)
    ensures
        success ==> r == State::Stopped,
        !success ==> r == (State::Crashed {
            mode: match s {
                State::Running { mode, .. } => mode,
                State::Crashed { mode, .. } => mode,
                State::Stopped => Mode::Server,
            },
            code,
        }),
{
    if success {
        State::Stopped
    } else {
        let mode = match s.mode() {
            Some(m) => m,
            None => Mode::Server,
        };
        State::Crashed { mode, code }
    }
}

/// The status text for a state, without the `status: ` prefix.
pub open spec fn status_spec(s: State) -> Seq<char> {
    match s {
        State::Stopped => "stopped"@,
        State::Running { mode, pid } => "running "@ + mode_name(mode) + " (pid "@ + decimal(pid as nat) + ")"@,
        State::Crashed { mode, code } => match code {
            Some(c) => mode_name(mode) + " crashed (exit "@ + signed_decimal(c as int) + ")"@,
            None => mode_name(mode) + " crashed"@,
        },
    }
}

fn push_mode(s: &mut String, m: Mode)
    ensures
        final(s)@ == old(s)@ + mode_name(m),
{
    proof {
        reveal_strlit("server");
        reveal_strlit("client");
    }
    s.append(m.label());
    assert(final(s)@ =~= old(s)@ + mode_name(m)) by {
        reveal_strlit("server");
        reveal_strlit("client");
    }
}

/// The status text for a state, without the `status: ` prefix.
pub fn status_text(st: State) -> (r: String)
    ensures
        r@ == status_spec(st),
{
    match st {
        State::Stopped => String::from_str("stopped"),
        State::Running { mode, pid } => {
            let mut s = String::from_str("running ");
            push_mode(&mut s, mode);
            s.append(" (pid ");
            push_decimal(&mut s, pid as u64);
            s.append(")");
            assert(s@ =~= status_spec(st));
            s
        },
        State::Crashed { mode, code } => {
            let mut s = String::new();
            push_mode(&mut s, mode);
            match code {
                Some(c) => {
                    s.append(" crashed (exit ");
                    push_signed_decimal(&mut s, c as i64);
                    s.append(")");
                },
                None => {
                    s.append(" crashed");
                },
            }
            assert(s@ =~= status_spec(st));
            s
        },
    }
}

/// The status menu line: `status: ` and the status text.
pub fn status_label(st: State) -> (r: String)
    ensures
        r@ == "status: "@ + status_spec(st),
{
    let mut s = String::from_str("status: ");
    let t = status_text(st);
    s.append(t.as_str());
    s
}

/// The tray tooltip: `Wayflow (` and the status text and `)`.
pub fn tooltip(st: State) -> (r: String)
    ensures
        r@ == "Wayflow ("@ + status_spec(st) + ")"@,
{
    let mut s = String::from_str("Wayflow (");
    let t = status_text(st);
    s.append(t.as_str());
    s.append(")");
    s
}

/// Which menu entries are enabled.
#[derive(Debug, Clone, Copy, PartialEq, Eq, Structural)]
pub struct MenuEnabled {
    pub start_server: bool,
    pub start_client: bool,
    pub stop: bool,
}

/// Starting is offered only while nothing runs, stopping only while
/// something does.
pub fn menu_enabled(st: State) -> (r: MenuEnabled)
    ensures
        r.start_server == !(st is Running),
        r.start_client == !(st is Running),
        r.stop == (st is Running),
{
    let running = st.is_running();
    MenuEnabled { start_server: !running, start_client: !running, stop: running }
}

/// The icon shown for a state.
#[derive(Debug, Clone, Copy, PartialEq, Eq, Structural)]
pub enum IconKind {
    Idle,
    Running,
    Error,
}

pub fn icon_for(st: State) -> (r: IconKind)
    ensures
        r == (match st {
            State::Stopped => IconKind::Idle,
            State::Running { .. } => IconKind::Running,
            State::Crashed { .. } => IconKind::Error,
        }),
{
    match st {
        State::Stopped => IconKind::Idle,
        State::Running { .. } => IconKind::Running,
        State::Crashed { .. } => IconKind::Error,
    }
}

/// How many recent output lines are kept.
pub const LINE_RING: usize = 50;

/// Keep `line` as the newest of the recent output lines, dropping the
/// oldest when the ring is full.
pub fn push_line(lines: &mut Vec<String>, line: String)
    requires
        old(lines)@.len() <= LINE_RING,
    ensures
        final(lines)@ == (if old(lines)@.len() >= LINE_RING { old(lines)@.drop_first() } else { old(lines)@ }).push(
            line,
        ),
        final(lines)@.len() <= LINE_RING,
{
    if lines.len() >= LINE_RING {
        lines.remove(0);
    }
    lines.push(line);
}

/// The side of the square tray icons, in pixels.
pub const ICON_SIZE: i32 = 32;

/// The radius of the icons' rounded corners, in pixels.
pub const ICON_CORNER: i32 = 6;

/// Whether `(x, y)`, counted from a corner, lies within the quarter circle of
/// `radius` centred `radius` pixels in from that corner.
pub open spec fn in_corner_spec(x: int, y: int, radius: int) -> bool {
    (radius - x) * (radius - x) + (radius - y) * (radius - y) <= radius * radius
}

/// `in_corner` computes without overflow: the distances, their squares,
/// the sum and the squared radius all fit in an `i32`.
pub open spec fn in_corner_defined(x: int, y: int, radius: int) -> bool {
    &&& i32::MIN <= radius - x <= i32::MAX
    &&& i32::MIN <= radius - y <= i32::MAX
    &&& (radius - x) * (radius - x) + (radius - y) * (radius - y) <= i32::MAX
    &&& radius * radius <= i32::MAX
}

pub fn in_corner(x: i32, y: i32, radius: i32) -> (r: bool)
    requires
        in_corner_defined(x as int, y as int, radius as int),
    ensures
        r == in_corner_spec(x as int, y as int, radius as int),
{
    let dx = radius - x;
    let dy = radius - y;
    assert(0 <= dx * dx && 0 <= dy * dy && 0 <= radius * radius) by (nonlinear_arith);
    dx * dx + dy * dy <= radius * radius
}

/// Whether pixel `(x, y)` of a tray icon is drawn: everywhere but outside
/// the rounded corners.
pub open spec fn icon_pixel_inside(x: int, y: int) -> bool {
    let w = ICON_SIZE as int;
    let c = ICON_CORNER as int;
    if x < c && y < c {
        in_corner_spec(x, y, c)
    } else if x >= w - c && y < c {
        in_corner_spec(w - 1 - x, y, c)
    } else if x < c && y >= w - c {
        in_corner_spec(x, w - 1 - y, c)
    } else if x >= w - c && y >= w - c {
        in_corner_spec(w - 1 - x, w - 1 - y, c)
    } else {
        true
    }
}

/// Byte `i` of an icon's RGBA pixels: the colour channel where the pixel is
/// drawn, zero elsewhere.
pub open spec fn icon_byte(i: int, rgba: Seq<u8>) -> u8 {
    let p = i / 4;
    if icon_pixel_inside(p % 32, p / 32) {
        rgba[i % 4]
    } else {
        0
    }
}

proof fn lemma_small_corner_defined(x: int, y: int, radius: int)
    requires
        -100 <= x <= 100,
        -100 <= y <= 100,
        0 <= radius <= 100,
    ensures
        in_corner_defined(x, y, radius),
{
    assert((radius - x) * (radius - x) <= 40000 && (radius - y) * (radius - y) <= 40000 && radius * radius <= 10000)
        by (nonlinear_arith)
        requires
            -100 <= x <= 100,
            -100 <= y <= 100,
            0 <= radius <= 100,
    ;
}

fn pixel_inside(x: i32, y: i32) -> (r: bool)
    requires
        0 <= x < ICON_SIZE,
        0 <= y < ICON_SIZE,
    ensures
        r == icon_pixel_inside(x as int, y as int),
{
    let w = ICON_SIZE;
    let c = ICON_CORNER;
    proof {
        lemma_small_corner_defined(x as int, y as int, 6);
        lemma_small_corner_defined(31 - x, y as int, 6);
        lemma_small_corner_defined(x as int, 31 - y, 6);
        lemma_small_corner_defined(31 - x, 31 - y, 6);
    }
    if x < c && y < c {
        in_corner(x, y, c)
    } else if x >= w - c && y < c {
        in_corner(w - 1 - x, y, c)
    } else if x < c && y >= w - c {
        in_corner(x, w - 1 - y, c)
    } else if x >= w - c && y >= w - c {
        in_corner(w - 1 - x, w - 1 - y, c)
    } else {
        true
    }
}

proof fn lemma_icon_index(x: int, y: int, k: int)
    requires
        0 <= x < 32,
        0 <= y < 32,
        0 <= k < 4,
    ensures
        (128 * y + 4 * x + k) / 4 == 32 * y + x,
        (128 * y + 4 * x + k) % 4 == k,
        (32 * y + x) % 32 == x,
        (32 * y + x) / 32 == y,
{
    assert((128 * y + 4 * x + k) / 4 == 32 * y + x && (128 * y + 4 * x + k) % 4 == k) by (nonlinear_arith)
        requires
            0 <= x < 32,
            0 <= y < 32,
            0 <= k < 4,
    ;
    assert((32 * y + x) % 32 == x && (32 * y + x) / 32 == y) by (nonlinear_arith)
        requires
            0 <= x < 32,
            0 <= y < 32,
    ;
}

/// The RGBA pixels, row by row, of a 32x32 square of one colour with
/// rounded, transparent corners.
pub fn rounded_square(r: u8, g: u8, b: u8, a: u8) -> (buf: Vec<u8>)
    ensures
        buf@.len() == 4096,
        forall|i: int| 0 <= i < 4096 ==> #[trigger] buf@[i] == icon_byte(i, seq![r, g, b, a]),
{
    let ghost rgba = seq![r, g, b, a];
    let mut buf: Vec<u8> = Vec::new();
    let mut y: i32 = 0;
    while y < ICON_SIZE
        invariant
            0 <= y <= ICON_SIZE,
            rgba == seq![r, g, b, a],
            buf@.len() == 128 * y,
            forall|i: int| 0 <= i < buf@.len() ==> #[trigger] buf@[i] == icon_byte(i, rgba),
        decreases ICON_SIZE - y,
    {
        let mut x: i32 = 0;
        while x < ICON_SIZE
            invariant
                0 <= y < ICON_SIZE,
                0 <= x <= ICON_SIZE,
                rgba == seq![r, g, b, a],
                buf@.len() == 128 * y + 4 * x,
                forall|i: int| 0 <= i < buf@.len() ==> #[trigger] buf@[i] == icon_byte(i, rgba),
            decreases ICON_SIZE - x,
        {
            let inside = pixel_inside(x, y);
            let ghost base: int = 128 * y + 4 * x;
            let ghost before = buf@;
            proof {
                lemma_icon_index(x as int, y as int, 0);
                lemma_icon_index(x as int, y as int, 1);
                lemma_icon_index(x as int, y as int, 2);
                lemma_icon_index(x as int, y as int, 3);
            }
            if inside {
                buf.push(r);
                buf.push(g);
                buf.push(b);
                buf.push(a);
            } else {
                buf.push(0);
                buf.push(0);
                buf.push(0);
                buf.push(0);
            }
            assert forall|i: int| 0 <= i < buf@.len() implies #[trigger] buf@[i] == icon_byte(i, rgba) by {
                if i < base {
                    assert(buf@[i] == before[i]);
                }
            }
            x = x + 1;
        }
        y = y + 1;
    }
    buf
}

/// The colour of the idle icon: grey.
pub fn idle_rgba() -> (r: Vec<u8>)
    ensures
        r@.len() == 4096,
        forall|i: int| 0 <= i < 4096 ==> #[trigger] r@[i] == icon_byte(i, seq![0x70u8, 0x70u8, 0x70u8, 0xFFu8]),
{
    rounded_square(0x70, 0x70, 0x70, 0xFF)
}

/// The colour of the running icon: green.
pub fn running_rgba() -> (r: Vec<u8>)
    ensures
        r@.len() == 4096,
        forall|i: int| 0 <= i < 4096 ==> #[trigger] r@[i] == icon_byte(i, seq![0x3Bu8, 0xC4u8, 0x6Eu8, 0xFFu8]),
{
    rounded_square(0x3B, 0xC4, 0x6E, 0xFF)
}

/// The colour of the error icon: red.
pub fn error_rgba() -> (r: Vec<u8>)
    ensures
        r@.len() == 4096,
        forall|i: int| 0 <= i < 4096 ==> #[trigger] r@[i] == icon_byte(i, seq![0xD0u8, 0x4Au8, 0x4Au8, 0xFFu8]),
{
    rounded_square(0xD0, 0x4A, 0x4A, 0xFF)
}

} // verus!
