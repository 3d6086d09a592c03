//! Server-side capture on Wayland through the input-capture portal: where
//! the pointer barriers go, how libei codes become wire values, and which
//! keys must be pressed or released when the compositor hands capture to
//! the server or takes it back.
use vstd::prelude::*;
use crate::keymap::{evdev_hid, evdev_to_hid};
use crate::proto::{Modifiers, MouseButton};
use crate::router::RouteEvent;

verus! {

/// The input-capture backend for Wayland compositors.
pub struct LinuxWaylandCapture;

/// The input-capture backend for Wayland compositors.
pub fn backend() -> (r: LinuxWaylandCapture) {
    LinuxWaylandCapture
}

/// HID usages of the left modifier keys, used when a modifier must be
/// synthesized from the compositor's modifier mask.
pub const HID_LEFT_CTRL: u32 = 0xE0;

pub const HID_LEFT_SHIFT: u32 = 0xE1;

pub const HID_LEFT_ALT: u32 = 0xE2;

pub const HID_LEFT_META: u32 = 0xE3;

/// The HID usages of the held modifiers: shift, ctrl, alt, meta, in that
/// order, each present only when held.
pub open spec fn modifier_codes_spec(m: Modifiers) -> Seq<u32> {
    (if m.shift { seq![HID_LEFT_SHIFT] } else { Seq::empty() }) + (if m.ctrl {
        seq![HID_LEFT_CTRL]
    } else {
        Seq::empty()
    }) + (if m.alt { seq![HID_LEFT_ALT] } else { Seq::empty() }) + (if m.meta {
        seq![HID_LEFT_META]
    } else {
        Seq::empty()
    })
}

/// The HID usages of the modifiers held in `m`, left-hand keys, in the
/// order shift, ctrl, alt, meta.
pub fn modifier_hid_codes(m: Modifiers) -> (r: Vec<u32>)
    ensures
        r@ == modifier_codes_spec(m),
{
    let mut r: Vec<u32> = Vec::new();
    if m.shift {
        r.push(HID_LEFT_SHIFT);
    }
    if m.ctrl {
        r.push(HID_LEFT_CTRL);
    }
    if m.alt {
        r.push(HID_LEFT_ALT);
    }
    if m.meta {
        r.push(HID_LEFT_META);
    }
    assert(r@ =~= modifier_codes_spec(m));
    r
}

/// No modifier usage appears twice.
pub proof fn lemma_modifier_codes_distinct(m: Modifiers)
    ensures
        modifier_codes_spec(m).no_duplicates(),
{
    let s = modifier_codes_spec(m);
    assert forall|i: int, j: int| 0 <= i < s.len() && 0 <= j < s.len() && i != j implies s[i] != s[j] by {
        assert(s[i] == HID_LEFT_SHIFT || s[i] == HID_LEFT_CTRL || s[i] == HID_LEFT_ALT || s[i] == HID_LEFT_META);
    }
}

/// The mouse button of a Linux `BTN_*` code.
pub open spec fn mouse_button_spec(code: u32) -> MouseButton {
    if code == 0x110 {
        MouseButton::Left
    } else if code == 0x111 {
        MouseButton::Right
    } else if code == 0x112 {
        MouseButton::Middle
    } else if code == 0x113 {
        MouseButton::Back
    } else if code == 0x114 {
        MouseButton::Forward
    } else {
        MouseButton::Other((code % 256) as u8)
    }
}

/// The mouse button of a Linux `BTN_*` code; unknown codes keep their low byte.
pub fn evdev_to_mouse_button(code: u32) -> (r: MouseButton)
    ensures
        r == mouse_button_spec(code),
{
    match code {
        0x110 => MouseButton::Left,
        0x111 => MouseButton::Right,
        0x112 => MouseButton::Middle,
        0x113 => MouseButton::Back,
        0x114 => MouseButton::Forward,
        n => {
            let b = (n & 0xff) as u8;
            assert(n & 0xff == n % 256) by (bit_vector);
            MouseButton::Other(b)
        },
    }
}

/// The modifiers of an XKB depressed-modifier mask: shift is bit 0, ctrl
/// bit 2, alt (mod1) bit 3, meta (mod4) bit 6.
pub open spec fn xkb_mods_spec(depressed: u32) -> Modifiers {
    Modifiers {
        shift: depressed & 0x01 != 0,
        ctrl: depressed & 0x04 != 0,
        alt: depressed & 0x08 != 0,
        meta: depressed & 0x40 != 0,
    }
}

pub fn xkb_mods_to_proto(depressed: u32) -> (r: Modifiers)
    ensures
        r == xkb_mods_spec(depressed),
{
    Modifiers {
        shift: (depressed & 0x01) != 0,
        ctrl: (depressed & 0x04) != 0,
        alt: (depressed & 0x08) != 0,
        meta: (depressed & 0x40) != 0,
    }
}

/// The libei interfaces and versions the server asks for.
pub open spec fn ei_interfaces_spec() -> Seq<(&'static str, u32)> {
    seq![
        ("ei_connection", 1u32),
        ("ei_callback", 1u32),
        ("ei_pingpong", 1u32),
        ("ei_seat", 1u32),
        ("ei_device", 2u32),
        ("ei_pointer", 1u32),
        ("ei_pointer_absolute", 1u32),
        ("ei_scroll", 1u32),
        ("ei_button", 1u32),
        ("ei_keyboard", 1u32),
    ]
}

/// The libei interfaces and versions the server asks for in its handshake.
pub fn ei_interfaces() -> (r: Vec<(&'static str, u32)>)
    ensures
        r@ == ei_interfaces_spec(),
{
    let mut r: Vec<(&'static str, u32)> = Vec::new();
    r.push(("ei_connection", 1));
    r.push(("ei_callback", 1));
    r.push(("ei_pingpong", 1));
    r.push(("ei_seat", 1));
    r.push(("ei_device", 2));
    r.push(("ei_pointer", 1));
    r.push(("ei_pointer_absolute", 1));
    r.push(("ei_scroll", 1));
    r.push(("ei_button", 1));
    r.push(("ei_keyboard", 1));
    assert(r@ =~= ei_interfaces_spec());
    r
}

/// A zone of the compositor's desktop: one monitor.
#[derive(Debug, Clone, Copy, PartialEq, Eq, Structural)]
pub struct Region {
    pub x: i32,
    pub y: i32,
    pub width: u32,
    pub height: u32,
}

/// Which side of the desktop a barrier guards; the cursor is nudged the
/// other way when capture is released.
#[derive(Debug, Clone, Copy, PartialEq, Eq, Structural)]
pub enum NudgeDir {
    Left,
    Right,
    Top,
    Bottom,
}

/// A pointer barrier: a line from `(x1, y1)` to `(x2, y2)`, with the id the
/// compositor reports when the cursor hits it.
#[derive(Debug, Clone, Copy, PartialEq, Eq, Structural)]
pub struct Barrier {
    pub id: u32,
    pub x1: i32,
    pub y1: i32,
    pub x2: i32,
    pub y2: i32,
    pub dir: NudgeDir,
}

/// The region's right and bottom edges are representable.
pub open spec fn region_fits(r: Region) -> bool {
    &&& r.width <= i32::MAX
    &&& r.height <= i32::MAX
    &&& i32::MIN < r.x + r.width <= i32::MAX
    &&& i32::MIN < r.y + r.height <= i32::MAX
}

pub open spec fn regions_fit(rs: Seq<Region>) -> bool {
    forall|i: int| 0 <= i < rs.len() ==> region_fits(#[trigger] rs[i])
}

/// Some region starts right where `r` ends horizontally and overlaps it vertically.
pub open spec fn right_neighbor(rs: Seq<Region>, r: Region) -> bool {
    exists|i: int|
        0 <= i < rs.len() && (#[trigger] rs[i]).x == r.x + r.width && rs[i].y < r.y + r.height && rs[i].y
            + rs[i].height > r.y
}

pub open spec fn left_neighbor(rs: Seq<Region>, r: Region) -> bool {
    exists|i: int|
        0 <= i < rs.len() && (#[trigger] rs[i]).x + rs[i].width == r.x && rs[i].y < r.y + r.height && rs[i].y
            + rs[i].height > r.y
}

pub open spec fn bottom_neighbor(rs: Seq<Region>, r: Region) -> bool {
    exists|i: int|
        0 <= i < rs.len() && (#[trigger] rs[i]).y == r.y + r.height && rs[i].x < r.x + r.width && rs[i].x
            + rs[i].width > r.x
}

pub open spec fn top_neighbor(rs: Seq<Region>, r: Region) -> bool {
    exists|i: int|
        0 <= i < rs.len() && (#[trigger] rs[i]).y + rs[i].height == r.y && rs[i].x < r.x + r.width && rs[i].x
            + rs[i].width > r.x
}

/// Whether another region continues the desktop past the right edge of `r`.
pub fn has_right_neighbor(rs: &Vec<Region>, r: Region) -> (b: bool)
    requires
        regions_fit(rs@),
        region_fits(r),
    ensures
        b == right_neighbor(rs@, r),
{
    let x2 = r.x + r.width as i32;
    let y2 = r.y + r.height as i32;
    let mut i: usize = 0;
    while i < rs.len()
        invariant
            0 <= i <= rs@.len(),
            regions_fit(rs@),
            x2 == r.x + r.width,
            y2 == r.y + r.height,
            forall|j: int|
                0 <= j < i ==> !((#[trigger] rs@[j]).x == r.x + r.width && rs@[j].y < r.y + r.height && rs@[j].y
                    + rs@[j].height > r.y),
        decreases rs@.len() - i,
    {
        let o = rs[i];
        assert(region_fits(rs@[i as int]));
        if o.x == x2 && o.y < y2 && o.y + o.height as i32 > r.y {
            return true;
        }
        i = i + 1;
    }
    false
}

/// Whether another region continues the desktop past the left edge of `r`.
pub fn has_left_neighbor(rs: &Vec<Region>, r: Region) -> (b: bool)
    requires
        regions_fit(rs@),
        region_fits(r),
    ensures
        b == left_neighbor(rs@, r),
{
    let y2 = r.y + r.height as i32;
    let mut i: usize = 0;
    while i < rs.len()
        invariant
            0 <= i <= rs@.len(),
            regions_fit(rs@),
            y2 == r.y + r.height,
            forall|j: int|
                0 <= j < i ==> !((#[trigger] rs@[j]).x + rs@[j].width == r.x && rs@[j].y < r.y + r.height && rs@[j].y
                    + rs@[j].height > r.y),
        decreases rs@.len() - i,
    {
        let o = rs[i];
        assert(region_fits(rs@[i as int]));
        if o.x + o.width as i32 == r.x && o.y < y2 && o.y + o.height as i32 > r.y {
            return true;
        }
        i = i + 1;
    }
    false
}

/// Whether another region continues the desktop below `r`.
pub fn has_bottom_neighbor(rs: &Vec<Region>, r: Region) -> (b: bool)
    requires
        regions_fit(rs@),
        region_fits(r),
    ensures
        b == bottom_neighbor(rs@, r),
{
    let y2 = r.y + r.height as i32;
    let x2 = r.x + r.width as i32;
    let mut i: usize = 0;
    while i < rs.len()
        invariant
            0 <= i <= rs@.len(),
            regions_fit(rs@),
            y2 == r.y + r.height,
            x2 == r.x + r.width,
            forall|j: int|
                0 <= j < i ==> !((#[trigger] rs@[j]).y == r.y + r.height && rs@[j].x < r.x + r.width && rs@[j].x
                    + rs@[j].width > r.x),
        decreases rs@.len() - i,
    {
        let o = rs[i];
        assert(region_fits(rs@[i as int]));
        if o.y == y2 && o.x < x2 && o.x + o.width as i32 > r.x {
            return true;
        }
        i = i + 1;
    }
    false
}

/// Whether another region continues the desktop above `r`.
pub fn has_top_neighbor(rs: &Vec<Region>, r: Region) -> (b: bool)
    requires
        regions_fit(rs@),
        region_fits(r),
    ensures
        b == top_neighbor(rs@, r),
{
    let x2 = r.x + r.width as i32;
    let mut i: usize = 0;
    while i < rs.len()
        invariant
            0 <= i <= rs@.len(),
            regions_fit(rs@),
            x2 == r.x + r.width,
            forall|j: int|
                0 <= j < i ==> !((#[trigger] rs@[j]).y + rs@[j].height == r.y && rs@[j].x < r.x + r.width && rs@[j].x
                    + rs@[j].width > r.x),
        decreases rs@.len() - i,
    {
        let o = rs[i];
        assert(region_fits(rs@[i as int]));
        if o.y + o.height as i32 == r.y && o.x < x2 && o.x + o.width as i32 > r.x {
            return true;
        }
        i = i + 1;
    }
    false
}

/// A barrier line with its direction, before an id is given to it.
pub struct Line {
    pub x1: int,
    pub y1: int,
    pub x2: int,
    pub y2: int,
    pub dir: NudgeDir,
}

/// The barriers of one region, on each outer edge of the desktop: right,
/// left, bottom, top, skipping edges that meet another region.
pub open spec fn region_lines(rs: Seq<Region>, r: Region) -> Seq<Line> {
    let x2 = r.x + r.width - 1;
    let y2 = r.y + r.height - 1;
    (if !right_neighbor(rs, r) { seq![Line { x1: x2, y1: r.y as int, x2: x2, y2: y2, dir: NudgeDir::Right }] } else {
        Seq::empty()
    }) + (if !left_neighbor(rs, r) {
        seq![Line { x1: r.x as int, y1: r.y as int, x2: r.x as int, y2: y2, dir: NudgeDir::Left }]
    } else {
        Seq::empty()
    }) + (if !bottom_neighbor(rs, r) {
        seq![Line { x1: r.x as int, y1: y2, x2: x2, y2: y2, dir: NudgeDir::Bottom }]
    } else {
        Seq::empty()
    }) + (if !top_neighbor(rs, r) {
        seq![Line { x1: r.x as int, y1: r.y as int, x2: x2, y2: r.y as int, dir: NudgeDir::Top }]
    } else {
        Seq::empty()
    })
}

/// The barrier lines of the first `k` regions, region by region.
pub open spec fn lines_upto(rs: Seq<Region>, k: int) -> Seq<Line>
    decreases k,
{
    if k <= 0 {
        Seq::empty()
    } else {
        lines_upto(rs, k - 1) + region_lines(rs, rs[k - 1])
    }
}

/// Barrier `b` is line `l` with id `id`.
pub open spec fn barrier_is(b: Barrier, l: Line, id: int) -> bool {
    b.id == id && b.x1 == l.x1 && b.y1 == l.y1 && b.x2 == l.x2 && b.y2 == l.y2 && b.dir == l.dir
}

/// Pointer barriers on every outer edge of the desktop, numbered from 1 in
/// the order the regions are given.
pub fn build_barriers(rs: &Vec<Region>) -> (r: Vec<Barrier>)
    requires
        regions_fit(rs@),
        rs@.len() < 1073741823,
    ensures
        r@.len() == lines_upto(rs@, rs@.len() as int).len(),
        forall|i: int| 0 <= i < r@.len() ==> barrier_is(#[trigger] r@[i], lines_upto(rs@, rs@.len() as int)[i], i + 1),
{
    let mut r: Vec<Barrier> = Vec::new();
    let mut id: u32 = 1;
    let mut k: usize = 0;
    while k < rs.len()
        invariant
            0 <= k <= rs@.len(),
            rs@.len() < 1073741823,
            regions_fit(rs@),
            r@.len() == lines_upto(rs@, k as int).len(),
            r@.len() <= 4 * k,
            id == r@.len() + 1,
            forall|i: int| 0 <= i < r@.len() ==> barrier_is(#[trigger] r@[i], lines_upto(rs@, k as int)[i], i + 1),
        decreases rs@.len() - k,
    {
        let reg = rs[k];
        assert(region_fits(rs@[k as int]));
        let x = reg.x;
        let y = reg.y;
        let x2 = x + reg.width as i32 - 1;
        let y2 = y + reg.height as i32 - 1;
        let ghost before = r@;
        let ghost lines = region_lines(rs@, reg);
        let mut added: Vec<Barrier> = Vec::new();
        if !has_right_neighbor(rs, reg) {
            added.push(Barrier { id: id + added.len() as u32, x1: x2, y1: y, x2: x2, y2: y2, dir: NudgeDir::Right });
        }
        if !has_left_neighbor(rs, reg) {
            added.push(Barrier { id: id + added.len() as u32, x1: x, y1: y, x2: x, y2: y2, dir: NudgeDir::Left });
        }
        if !has_bottom_neighbor(rs, reg) {
            added.push(Barrier { id: id + added.len() as u32, x1: x, y1: y2, x2: x2, y2: y2, dir: NudgeDir::Bottom });
        }
        if !has_top_neighbor(rs, reg) {
            added.push(Barrier { id: id + added.len() as u32, x1: x, y1: y, x2: x2, y2: y, dir: NudgeDir::Top });
        }
        assert(added@.len() == lines.len());
        assert forall|j: int| 0 <= j < added@.len() implies barrier_is(
            #[trigger] added@[j],
            lines[j],
            before.len() + j + 1,
        ) by {}
        let mut j: usize = 0;
        while j < added.len()
            invariant
                0 <= j <= added@.len(),
                r@.len() == before.len() + j,
                forall|i: int| 0 <= i < before.len() ==> r@[i] == before[i],
                forall|i: int| before.len() <= i < r@.len() ==> r@[i] == added@[i - before.len()],
            decreases added@.len() - j,
        {
            r.push(added[j]);
            j = j + 1;
        }
        proof {
            let next = lines_upto(rs@, k + 1);
            assert(next == lines_upto(rs@, k as int) + lines);
            assert forall|i: int| 0 <= i < r@.len() implies barrier_is(#[trigger] r@[i], next[i], i + 1) by {
                if i < before.len() {
                    assert(barrier_is(before[i], lines_upto(rs@, k as int)[i], i + 1));
                } else {
                    assert(r@[i] == added@[i - before.len()]);
                }
            }
        }
        id = id + added.len() as u32;
        k = k + 1;
    }
    r
}

/// The side of the barrier with id `id`, if `barriers` has one.
pub fn dir_for_barrier(barriers: &Vec<Barrier>, id: u32) -> (r: Option<NudgeDir>)
    ensures
        r is Some <==> exists|i: int| 0 <= i < barriers@.len() && (#[trigger] barriers@[i]).id == id,
        r matches Some(d) ==> exists|i: int|
            0 <= i < barriers@.len() && (#[trigger] barriers@[i]).id == id && barriers@[i].dir == d,
{
    let mut i: usize = 0;
    while i < barriers.len()
        invariant
            0 <= i <= barriers@.len(),
            forall|j: int| 0 <= j < i ==> (#[trigger] barriers@[j]).id != id,
        decreases barriers@.len() - i,
    {
        if barriers[i].id == id {
            return Some(barriers[i].dir);
        }
        i = i + 1;
    }
    None
}

/// Barriers are numbered 1, 2, 3, ... so no two share an id.
pub proof fn lemma_barrier_ids_distinct(rs: Seq<Region>, bs: Seq<Barrier>, i: int, j: int)
    requires
        bs.len() == lines_upto(rs, rs.len() as int).len(),
        forall|k: int| 0 <= k < bs.len() ==> barrier_is(#[trigger] bs[k], lines_upto(rs, rs.len() as int)[k], k + 1),
        0 <= i < j < bs.len(),
    ensures
        bs[i].id != bs[j].id,
{
    assert(barrier_is(bs[i], lines_upto(rs, rs.len() as int)[i], i + 1));
    assert(barrier_is(bs[j], lines_upto(rs, rs.len() as int)[j], j + 1));
}

/// Key state of the capture session, as the router should see it.
#[verifier::ext_equal]
pub struct KeyTrackerView {
    /// Whether the compositor currently hands input to the server.
    pub active: bool,
    /// The modifiers the compositor last reported.
    pub modifiers: Modifiers,
    /// Keys forwarded as pressed (or synthesized) and not yet released.
    pub held: Seq<u32>,
}

/// The predicate "is not in `s`".
pub open spec fn not_in(s: Seq<u32>) -> spec_fn(u32) -> bool {
    |k: u32| !s.contains(k)
}

/// A press of `k` with modifiers `m`.
pub open spec fn press(m: Modifiers) -> spec_fn(u32) -> RouteEvent {
    |k: u32| RouteEvent::Key { keycode: k, pressed: true, modifiers: m }
}

/// A release of `k` with no modifiers.
pub open spec fn release() -> spec_fn(u32) -> RouteEvent {
    |k: u32| RouteEvent::Key { keycode: k, pressed: false, modifiers: Modifiers { shift: false, ctrl: false, alt: false, meta: false } }
}

/// The modifier presses synthesized on activation: each held modifier the
/// router has not seen pressed yet.
pub open spec fn synthesized(v: KeyTrackerView) -> Seq<u32> {
    modifier_codes_spec(v.modifiers).filter(not_in(v.held))
}

/// Tracks which keys the router has seen pressed while the server captures
/// input, so that they can be released when capture ends.
pub struct KeyTracker {
    active: bool,
    modifiers: Modifiers,
    held: Vec<u32>,
}

impl View for KeyTracker {
    type V = KeyTrackerView;

    closed spec fn view(&self) -> KeyTrackerView {
        KeyTrackerView { active: self.active, modifiers: self.modifiers, held: self.held@ }
    }
}

fn vec_contains(v: &Vec<u32>, k: u32) -> (r: bool)
    ensures
        r == v@.contains(k),
{
    let mut i: usize = 0;
    while i < v.len()
        invariant
            0 <= i <= v@.len(),
            forall|j: int| 0 <= j < i ==> v@[j] != k,
        decreases v@.len() - i,
    {
        if v[i] == k {
            return true;
        }
        i = i + 1;
    }
    false
}

fn vec_without(v: &Vec<u32>, k: u32) -> (r: Vec<u32>)
    requires
        v@.no_duplicates(),
    ensures
        r@ == v@.remove_value(k),
        r@.no_duplicates(),
        forall|x: u32| r@.contains(x) <==> (v@.contains(x) && x != k),
{
    let mut i: usize = 0;
    while i < v.len()
        invariant
            0 <= i <= v@.len(),
            v@.no_duplicates(),
            forall|j: int| 0 <= j < i ==> v@[j] != k,
        decreases v@.len() - i,
    {
        if v[i] == k {
            let mut r = v.clone();
            let ghost before = r@;
            r.remove(i);
            proof {
                assert(v@.index_of_first(k) == Some(i as int)) by {
                    v@.index_of_first_ensures(k);
                }
                assert forall|a: int, b: int| 0 <= a < r@.len() && 0 <= b < r@.len() && a != b implies r@[a] != r@[b] by {
                    let a2 = if a < i { a } else { a + 1 };
                    let b2 = if b < i { b } else { b + 1 };
                    assert(r@[a] == v@[a2] && r@[b] == v@[b2]);
                }
                assert forall|x: u32| r@.contains(x) <==> (v@.contains(x) && x != k) by {
                    if r@.contains(x) {
                        let j = choose|j: int| 0 <= j < r@.len() && r@[j] == x;
                        if j < i {
                            assert(v@[j] == x);
                        } else {
                            assert(v@[j + 1] == x);
                            assert(v@[j + 1] != v@[i as int]);
                        }
                    }
                    if v@.contains(x) && x != k {
                        let j = choose|j: int| 0 <= j < v@.len() && v@[j] == x;
                        if j < i {
                            assert(r@[j] == x);
                        } else {
                            assert(j != i);
                            assert(r@[j - 1] == x);
                        }
                    }
                }
            }
            return r;
        }
        i = i + 1;
    }
    proof {
        assert(!v@.contains(k));
        v@.index_of_first_ensures(k);
    }
    v.clone()
}

impl KeyTracker {
    /// Capture inactive, no modifiers, nothing held.
    pub fn new() -> (r: KeyTracker)
        ensures
            r@ == (KeyTrackerView {
                active: false,
                modifiers: Modifiers { shift: false, ctrl: false, alt: false, meta: false },
                held: Seq::empty(),
            }),
    {
        let r = KeyTracker { active: false, modifiers: Modifiers { shift: false, ctrl: false, alt: false, meta: false }, held: Vec::new() };
        assert(r@ =~= (KeyTrackerView {
            active: false,
            modifiers: Modifiers { shift: false, ctrl: false, alt: false, meta: false },
            held: Seq::empty(),
        }));
        r
    }

    /// No key is tracked twice.
    pub open spec fn wf(&self) -> bool {
        self@.held.no_duplicates()
    }

    /// Whether the server currently captures input.
    pub fn is_active(&self) -> (r: bool)
        ensures
            r == self@.active,
    {
        self.active
    }

    /// The modifiers the compositor last reported.
    pub fn modifiers(&self) -> (r: Modifiers)
        ensures
            r == self@.modifiers,
    {
        self.modifiers
    }

    /// Record the compositor's modifier mask.
    pub fn set_modifiers(&mut self, depressed: u32)
        requires
            old(self).wf(),
        ensures
            final(self).wf(),
            final(self)@ == (KeyTrackerView { modifiers: xkb_mods_spec(depressed), ..old(self)@ }),
    {
        self.modifiers = xkb_mods_to_proto(depressed);
    }

    /// Capture starts: press, towards the router, every held modifier it has
    /// not seen pressed, since the compositor does not replay them.
    pub fn activate(&mut self) -> (events: Vec<RouteEvent>)
        requires
            old(self).wf(),
        ensures
            final(self).wf(),
            final(self)@ == (KeyTrackerView {
                active: true,
                held: old(self)@.held + synthesized(old(self)@),
                ..old(self)@
            }),
            events@ == synthesized(old(self)@).map_values(press(old(self)@.modifiers)),
    {
        let ghost v = self@;
        let codes = modifier_hid_codes(self.modifiers);
        let ghost cs = codes@;
        let mut events: Vec<RouteEvent> = Vec::new();
        let mut i: usize = 0;
        assert(cs.take(0) =~= Seq::<u32>::empty());
        proof { reveal(Seq::filter); }
        while i < codes.len()
            invariant
                0 <= i <= codes@.len(),
                cs == codes@,
                cs == modifier_codes_spec(v.modifiers),
                self.modifiers == v.modifiers,
                self.active == v.active,
                self.held@ == v.held + cs.take(i as int).filter(not_in(v.held)),
                self.held@.no_duplicates(),
                events@ == cs.take(i as int).filter(not_in(v.held)).map_values(press(v.modifiers)),
            decreases codes@.len() - i,
        {
            let c = codes[i];
            assert(cs.take(i + 1) =~= cs.take(i as int).push(c));
            proof { cs.take(i as int).lemma_filter_push(c, not_in(v.held)); }
            if !vec_contains(&self.held, c) {
                proof {
                    assert(!v.held.contains(c)) by {
                        if v.held.contains(c) {
                            let j = choose|j: int| 0 <= j < v.held.len() && v.held[j] == c;
                            assert(self.held@[j] == c);
                        }
                    }
                }
                self.held.push(c);
                events.push(RouteEvent::Key { keycode: c, pressed: true, modifiers: self.modifiers });
                assert(self.held@ =~= v.held + cs.take(i + 1).filter(not_in(v.held)));
                assert(events@ =~= cs.take(i + 1).filter(not_in(v.held)).map_values(press(v.modifiers)));
            } else {
                proof {
                    if !v.held.contains(c) {
                        let j = choose|j: int| 0 <= j < self.held@.len() && self.held@[j] == c;
                        let f = cs.take(i as int).filter(not_in(v.held));
                        assert(self.held@[j] == f[j - v.held.len()]);
                        assert(f.contains(c));
                        cs.take(i as int).lemma_filter_contains_rev(not_in(v.held), c);
                        let q = choose|q: int| 0 <= q < i && cs.take(i as int)[q] == c;
                        assert(cs[q] == cs[i as int]);
                        lemma_modifier_codes_distinct(v.modifiers);
                    }
                }
            }
            i = i + 1;
        }
        assert(cs.take(cs.len() as int) =~= cs);
        self.active = true;
        events
    }

    /// Capture ends: release, towards the router, every key it saw pressed
    /// and never saw released, then forget them.
    pub fn deactivate(&mut self) -> (events: Vec<RouteEvent>)
        requires
            old(self).wf(),
        ensures
            final(self).wf(),
            final(self)@ == (KeyTrackerView { active: false, held: Seq::empty(), ..old(self)@ }),
            events@ == old(self)@.held.map_values(release()),
    {
        let mut events: Vec<RouteEvent> = Vec::new();
        let mut i: usize = 0;
        while i < self.held.len()
            invariant
                0 <= i <= self.held@.len(),
                events@ == self.held@.take(i as int).map_values(release()),
            decreases self.held@.len() - i,
        {
            events.push(
                RouteEvent::Key {
                    keycode: self.held[i],
                    pressed: false,
                    modifiers: Modifiers { shift: false, ctrl: false, alt: false, meta: false },
                },
            );
            assert(self.held@.take(i + 1) =~= self.held@.take(i as int).push(self.held@[i as int]));
            assert(events@ =~= self.held@.take(i + 1).map_values(release()));
            i = i + 1;
        }
        assert(self.held@.take(self.held@.len() as int) =~= self.held@);
        self.held = Vec::new();
        self.active = false;
        assert(self@.held =~= Seq::<u32>::empty());
        events
    }

    /// A key from the compositor. While capture is active and the key has a
    /// HID usage, it is tracked and forwarded with the current modifiers;
    /// otherwise it is dropped.
    pub fn key(&mut self, evdev: u32, pressed: bool) -> (r: Option<RouteEvent>)
        requires
            old(self).wf(),
        ensures
            final(self).wf(),
            !old(self)@.active || evdev_hid(evdev) is None ==> r is None && final(self)@ == old(self)@,
            old(self)@.active && evdev_hid(evdev) is Some ==> {
                let hid = evdev_hid(evdev)->0;
                &&& r == Some(RouteEvent::Key { keycode: hid, pressed, modifiers: old(self)@.modifiers })
                &&& final(self)@.active == old(self)@.active
                &&& final(self)@.modifiers == old(self)@.modifiers
                &&& forall|k: u32| #[trigger] final(self)@.held.contains(k) <==> (if pressed {
                    old(self)@.held.contains(k) || k == hid
                } else {
                    old(self)@.held.contains(k) && k != hid
                })
            },
    {
        if !self.active {
            return None;
        }
        match evdev_to_hid(evdev) {
            None => None,
            Some(hid) => {
                let ghost before = self.held@;
                if pressed {
                    if !vec_contains(&self.held, hid) {
                        self.held.push(hid);
                        proof {
                            assert forall|k: u32| #[trigger] self.held@.contains(k) <==> (before.contains(k) || k == hid) by {
                                if self.held@.contains(k) && k != hid {
                                    let j = choose|j: int| 0 <= j < self.held@.len() && self.held@[j] == k;
                                    assert(before[j] == k);
                                }
                                if before.contains(k) {
                                    let j = choose|j: int| 0 <= j < before.len() && before[j] == k;
                                    assert(self.held@[j] == k);
                                }
                                if k == hid {
                                    assert(self.held@[before.len() as int] == k);
                                }
                            }
                        }
                    }
                } else {
                    self.held = vec_without(&self.held, hid);
                }
                Some(RouteEvent::Key { keycode: hid, pressed, modifiers: self.modifiers })
            },
        }
    }
}

/// Ending capture releases every key that starting it synthesized, along
/// with every key pressed since, and leaves nothing held.
pub proof fn lemma_deactivate_releases_synthesized(v: KeyTrackerView, k: u32)
    requires
        synthesized(v).contains(k),
    ensures
        ({
            let after = KeyTrackerView { active: true, held: v.held + synthesized(v), ..v };
            after.held.map_values(release()).contains(release()(k))
        }),
{
    let after_held = v.held + synthesized(v);
    let j = choose|j: int| 0 <= j < synthesized(v).len() && synthesized(v)[j] == k;
    assert(after_held[v.held.len() + j] == k);
    assert(after_held.map_values(release())[v.held.len() + j] == release()(k));
}

/// When capture ends, each tracked key is released exactly once, and
/// nothing else is released: the releases have no repeats, and a key is
/// released exactly when it was held.
pub proof fn lemma_deactivate_releases_each_once(v: KeyTrackerView)
    requires
        v.held.no_duplicates(),
    ensures
        v.held.map_values(release()).no_duplicates(),
        forall|k: u32| v.held.map_values(release()).contains(release()(k)) <==> v.held.contains(k),
{
    let evs = v.held.map_values(release());
    assert forall|i: int, j: int| 0 <= i < evs.len() && 0 <= j < evs.len() && i != j implies evs[i] != evs[j] by {
        assert(v.held[i] != v.held[j]);
    }
    assert forall|k: u32| evs.contains(release()(k)) implies v.held.contains(k) by {
        let i = choose|i: int| 0 <= i < evs.len() && evs[i] == release()(k);
        assert(v.held[i] == k);
    }
    assert forall|k: u32| v.held.contains(k) implies evs.contains(release()(k)) by {
        let i = choose|i: int| 0 <= i < v.held.len() && v.held[i] == k;
        assert(evs[i] == release()(k));
    }
}

} // verus!
