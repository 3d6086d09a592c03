//! Virtual desktop layout and screen edge detection.
//!
//! The server may have several monitors arranged in a 2D virtual desktop.
//! `ServerLayout` finds the outer boundaries of that desktop, and
//! `map_to_client` maps a cursor position to client screen coordinates when
//! an edge is crossed.
use vstd::prelude::*;
use crate::config::Edge;
use crate::proto::ScreenInfo;

verus! {

/// A monitor's far edges fit in `i32`, so its extent can be computed.
pub open spec fn screen_fits(m: ScreenInfo) -> bool {
    &&& m.x + m.width <= i32::MAX
    &&& m.y + m.height <= i32::MAX
    &&& m.x + m.width - 1 >= i32::MIN
    &&& m.y + m.height - 1 >= i32::MIN
}

/// Whether monitor `m` spans row `y`.
pub open spec fn spans_row(m: ScreenInfo, y: int) -> bool {
    m.y <= y < m.y + m.height
}

/// Whether monitor `m` spans column `x`.
pub open spec fn spans_col(m: ScreenInfo, x: int) -> bool {
    m.x <= x < m.x + m.width
}

/// Whether pixel `(x, y)` lies on monitor `m`.
pub open spec fn on_monitor(m: ScreenInfo, x: int, y: int) -> bool {
    spans_row(m, y) && spans_col(m, x)
}

/// The rightmost pixel column of `m`.
pub open spec fn right_px(m: ScreenInfo) -> int {
    m.x + m.width - 1
}

/// The bottom pixel row of `m`.
pub open spec fn bottom_px(m: ScreenInfo) -> int {
    m.y + m.height - 1
}

pub struct ServerLayout {
    monitors: Vec<ScreenInfo>,
}

/// Whether every monitor of a list fits.
pub open spec fn all_fit(ms: Seq<ScreenInfo>) -> bool {
    forall|i: int| 0 <= i < ms.len() ==> screen_fits(#[trigger] ms[i])
}

/// Whether pixel `(x, y)` is on some monitor of the list.
pub open spec fn on_any(ms: Seq<ScreenInfo>, x: int, y: int) -> bool {
    exists|i: int| 0 <= i < ms.len() && on_monitor(#[trigger] ms[i], x, y)
}

/// Whether some monitor spans row `y`.
pub open spec fn row_covered(ms: Seq<ScreenInfo>, y: int) -> bool {
    exists|i: int| 0 <= i < ms.len() && spans_row(#[trigger] ms[i], y)
}

/// Whether some monitor spans column `x`.
pub open spec fn col_covered(ms: Seq<ScreenInfo>, x: int) -> bool {
    exists|i: int| 0 <= i < ms.len() && spans_col(#[trigger] ms[i], x)
}

/// `b` is the largest right column among the monitors spanning row `y`.
pub open spec fn is_right_boundary(ms: Seq<ScreenInfo>, y: int, b: int) -> bool {
    &&& exists|i: int| 0 <= i < ms.len() && spans_row(#[trigger] ms[i], y) && right_px(ms[i]) == b
    &&& forall|i: int| 0 <= i < ms.len() && spans_row(#[trigger] ms[i], y) ==> right_px(ms[i]) <= b
}

/// `b` is the smallest left column among the monitors spanning row `y`.
pub open spec fn is_left_boundary(ms: Seq<ScreenInfo>, y: int, b: int) -> bool {
    &&& exists|i: int| 0 <= i < ms.len() && spans_row(#[trigger] ms[i], y) && ms[i].x == b
    &&& forall|i: int| 0 <= i < ms.len() && spans_row(#[trigger] ms[i], y) ==> b <= ms[i].x
}

/// `b` is the largest bottom row among the monitors spanning column `x`.
pub open spec fn is_bottom_boundary(ms: Seq<ScreenInfo>, x: int, b: int) -> bool {
    &&& exists|i: int| 0 <= i < ms.len() && spans_col(#[trigger] ms[i], x) && bottom_px(ms[i]) == b
    &&& forall|i: int| 0 <= i < ms.len() && spans_col(#[trigger] ms[i], x) ==> bottom_px(ms[i]) <= b
}

/// `b` is the smallest top row among the monitors spanning column `x`.
pub open spec fn is_top_boundary(ms: Seq<ScreenInfo>, x: int, b: int) -> bool {
    &&& exists|i: int| 0 <= i < ms.len() && spans_col(#[trigger] ms[i], x) && ms[i].y == b
    &&& forall|i: int| 0 <= i < ms.len() && spans_col(#[trigger] ms[i], x) ==> b <= ms[i].y
}

/// The cursor is on the desktop and no monitor in its row reaches further right.
pub open spec fn at_right_spec(ms: Seq<ScreenInfo>, x: int, y: int) -> bool {
    on_any(ms, x, y) && forall|i: int| 0 <= i < ms.len() && spans_row(#[trigger] ms[i], y) ==> right_px(ms[i]) <= x
}

/// The cursor is on the desktop and no monitor in its row reaches further left.
pub open spec fn at_left_spec(ms: Seq<ScreenInfo>, x: int, y: int) -> bool {
    on_any(ms, x, y) && forall|i: int| 0 <= i < ms.len() && spans_row(#[trigger] ms[i], y) ==> x <= ms[i].x
}

/// The cursor is on the desktop and no monitor in its column reaches further down.
pub open spec fn at_bottom_spec(ms: Seq<ScreenInfo>, x: int, y: int) -> bool {
    on_any(ms, x, y) && forall|i: int| 0 <= i < ms.len() && spans_col(#[trigger] ms[i], x) ==> bottom_px(ms[i]) <= y
}

/// The cursor is on the desktop and no monitor in its column reaches further up.
pub open spec fn at_top_spec(ms: Seq<ScreenInfo>, x: int, y: int) -> bool {
    on_any(ms, x, y) && forall|i: int| 0 <= i < ms.len() && spans_col(#[trigger] ms[i], x) ==> y <= ms[i].y
}

/// The edge a cursor position is at; right and left before bottom and top.
pub open spec fn crossed_spec(ms: Seq<ScreenInfo>, x: int, y: int) -> Option<Edge> {
    if at_right_spec(ms, x, y) {
        Some(Edge::Right)
    } else if at_left_spec(ms, x, y) {
        Some(Edge::Left)
    } else if at_bottom_spec(ms, x, y) {
        Some(Edge::Bottom)
    } else if at_top_spec(ms, x, y) {
        Some(Edge::Top)
    } else {
        None
    }
}

/// Whether every monitor of a list fits, so a layout can be built from it.
pub fn screens_fit(monitors: &Vec<ScreenInfo>) -> (r: bool)
    ensures
        r == all_fit(monitors@),
{
    let mut i: usize = 0;
    while i < monitors.len()
        invariant
            0 <= i <= monitors@.len(),
            forall|j: int| 0 <= j < i ==> screen_fits(#[trigger] monitors@[j]),
        decreases monitors@.len() - i,
    {
        let m = &monitors[i];
        let xe = (m.x as i64) + (m.width as i64);
        let ye = (m.y as i64) + (m.height as i64);
        if xe > (i32::MAX as i64) || ye > (i32::MAX as i64) || xe - 1 < (i32::MIN as i64) || ye - 1
            < (i32::MIN as i64) {
            assert(!screen_fits(monitors@[i as int]));
            return false;
        }
        i = i + 1;
    }
    true
}

impl ServerLayout {
    #[verifier::type_invariant]
    spec fn inv(self) -> bool {
        all_fit(self.monitors@)
    }

    /// The monitors of the layout.
    pub closed spec fn view_monitors(&self) -> Seq<ScreenInfo> {
        self.monitors@
    }

    pub fn new(monitors: Vec<ScreenInfo>) -> (r: ServerLayout)
        requires
            all_fit(monitors@),
        ensures
            r.view_monitors() == monitors@,
    {
        ServerLayout { monitors }
    }

    pub fn monitor_count(&self) -> (r: usize)
        ensures
            r == self.view_monitors().len(),
    {
        self.monitors.len()
    }

    /// The monitors, in the order they were given.
    pub fn screens(&self) -> (r: &Vec<ScreenInfo>)
        ensures
            r@ == self.view_monitors(),
    {
        &self.monitors
    }

    /// Rightmost pixel x of the virtual desktop at cursor y.
    /// Returns None if y is not covered by any monitor.
    pub fn right_boundary_at(&self, y: i32) -> (r: Option<i32>)
        ensures
            r is None <==> !row_covered(self.view_monitors(), y as int),
            r matches Some(b) ==> is_right_boundary(self.view_monitors(), y as int, b as int),
    {
        proof { use_type_invariant(self); }
        let ghost ms = self.monitors@;
        let mut best: Option<i32> = None;
        let mut i: usize = 0;
        while i < self.monitors.len()
            invariant
                ms == self.monitors@,
                all_fit(ms),
                0 <= i <= ms.len(),
                best is None <==> !(exists|j: int| 0 <= j < i && spans_row(#[trigger] ms[j], y as int)),
                best matches Some(b) ==> {
                    &&& exists|j: int| 0 <= j < i && spans_row(#[trigger] ms[j], y as int) && right_px(ms[j]) == b
                    &&& forall|j: int| 0 <= j < i && spans_row(#[trigger] ms[j], y as int) ==> right_px(ms[j]) <= b
                },
            decreases ms.len() - i,
        {
            let m = &self.monitors[i];
            assert(screen_fits(ms[i as int]));
            if y >= m.y && y < m.y + m.height as i32 {
                let v = m.x + m.width as i32 - 1;
                best = match best {
                    None => Some(v),
                    Some(b) => if v > b { Some(v) } else { Some(b) },
                };
            }
            i = i + 1;
        }
        best
    }

    /// Leftmost pixel x of the virtual desktop at cursor y.
    pub fn left_boundary_at(&self, y: i32) -> (r: Option<i32>)
        ensures
            r is None <==> !row_covered(self.view_monitors(), y as int),
            r matches Some(b) ==> is_left_boundary(self.view_monitors(), y as int, b as int),
    {
        proof { use_type_invariant(self); }
        let ghost ms = self.monitors@;
        let mut best: Option<i32> = None;
        let mut i: usize = 0;
        while i < self.monitors.len()
            invariant
                ms == self.monitors@,
                all_fit(ms),
                0 <= i <= ms.len(),
                best is None <==> !(exists|j: int| 0 <= j < i && spans_row(#[trigger] ms[j], y as int)),
                best matches Some(b) ==> {
                    &&& exists|j: int| 0 <= j < i && spans_row(#[trigger] ms[j], y as int) && ms[j].x == b
                    &&& forall|j: int| 0 <= j < i && spans_row(#[trigger] ms[j], y as int) ==> b <= ms[j].x
                },
            decreases ms.len() - i,
        {
            let m = &self.monitors[i];
            assert(screen_fits(ms[i as int]));
            if y >= m.y && y < m.y + m.height as i32 {
                let v = m.x;
                best = match best {
                    None => Some(v),
                    Some(b) => if v < b { Some(v) } else { Some(b) },
                };
            }
            i = i + 1;
        }
        best
    }

    /// Bottommost pixel y of the virtual desktop at cursor x.
    pub fn bottom_boundary_at(&self, x: i32) -> (r: Option<i32>)
        ensures
            r is None <==> !col_covered(self.view_monitors(), x as int),
            r matches Some(b) ==> is_bottom_boundary(self.view_monitors(), x as int, b as int),
    {
        proof { use_type_invariant(self); }
        let ghost ms = self.monitors@;
        let mut best: Option<i32> = None;
        let mut i: usize = 0;
        while i < self.monitors.len()
            invariant
                ms == self.monitors@,
                all_fit(ms),
                0 <= i <= ms.len(),
                best is None <==> !(exists|j: int| 0 <= j < i && spans_col(#[trigger] ms[j], x as int)),
                best matches Some(b) ==> {
                    &&& exists|j: int| 0 <= j < i && spans_col(#[trigger] ms[j], x as int) && bottom_px(ms[j]) == b
                    &&& forall|j: int| 0 <= j < i && spans_col(#[trigger] ms[j], x as int) ==> bottom_px(ms[j]) <= b
                },
            decreases ms.len() - i,
        {
            let m = &self.monitors[i];
            assert(screen_fits(ms[i as int]));
            if x >= m.x && x < m.x + m.width as i32 {
                let v = m.y + m.height as i32 - 1;
                best = match best {
                    None => Some(v),
                    Some(b) => if v > b { Some(v) } else { Some(b) },
                };
            }
            i = i + 1;
        }
        best
    }

    /// Topmost pixel y of the virtual desktop at cursor x.
    pub fn top_boundary_at(&self, x: i32) -> (r: Option<i32>)
        ensures
            r is None <==> !col_covered(self.view_monitors(), x as int),
            r matches Some(b) ==> is_top_boundary(self.view_monitors(), x as int, b as int),
    {
        proof { use_type_invariant(self); }
        let ghost ms = self.monitors@;
        let mut best: Option<i32> = None;
        let mut i: usize = 0;
        while i < self.monitors.len()
            invariant
                ms == self.monitors@,
                all_fit(ms),
                0 <= i <= ms.len(),
                best is None <==> !(exists|j: int| 0 <= j < i && spans_col(#[trigger] ms[j], x as int)),
                best matches Some(b) ==> {
                    &&& exists|j: int| 0 <= j < i && spans_col(#[trigger] ms[j], x as int) && ms[j].y == b
                    &&& forall|j: int| 0 <= j < i && spans_col(#[trigger] ms[j], x as int) ==> b <= ms[j].y
                },
            decreases ms.len() - i,
        {
            let m = &self.monitors[i];
            assert(screen_fits(ms[i as int]));
            if x >= m.x && x < m.x + m.width as i32 {
                let v = m.y;
                best = match best {
                    None => Some(v),
                    Some(b) => if v < b { Some(v) } else { Some(b) },
                };
            }
            i = i + 1;
        }
        best
    }

    /// Whether pixel `(cx, cy)` is on any monitor.
    pub fn on_any_monitor(&self, cx: i32, cy: i32) -> (r: bool)
        ensures
            r == on_any(self.view_monitors(), cx as int, cy as int),
    {
        proof { use_type_invariant(self); }
        let ghost ms = self.monitors@;
        let mut i: usize = 0;
        while i < self.monitors.len()
            invariant
                ms == self.monitors@,
                all_fit(ms),
                0 <= i <= ms.len(),
                forall|j: int| 0 <= j < i ==> !on_monitor(#[trigger] ms[j], cx as int, cy as int),
            decreases ms.len() - i,
        {
            let m = &self.monitors[i];
            assert(screen_fits(ms[i as int]));
            if cx >= m.x && cx < m.x + m.width as i32 && cy >= m.y && cy < m.y + m.height as i32 {
                return true;
            }
            i = i + 1;
        }
        false
    }

    pub fn at_right_edge(&self, cx: i32, cy: i32) -> (r: bool)
        ensures
            r == at_right_spec(self.view_monitors(), cx as int, cy as int),
    {
        let on = self.on_any_monitor(cx, cy);
        let b = self.right_boundary_at(cy);
        let ghost ms = self.view_monitors();
        proof {
            if on {
                let i = choose|i: int| 0 <= i < ms.len() && on_monitor(ms[i], cx as int, cy as int);
                assert(spans_row(ms[i], cy as int));
            }
        }
        on && match b {
            Some(v) => cx >= v,
            None => false,
        }
    }

    pub fn at_left_edge(&self, cx: i32, cy: i32) -> (r: bool)
        ensures
            r == at_left_spec(self.view_monitors(), cx as int, cy as int),
    {
        let on = self.on_any_monitor(cx, cy);
        let b = self.left_boundary_at(cy);
        let ghost ms = self.view_monitors();
        proof {
            if on {
                let i = choose|i: int| 0 <= i < ms.len() && on_monitor(ms[i], cx as int, cy as int);
                assert(spans_row(ms[i], cy as int));
            }
        }
        on && match b {
            Some(v) => cx <= v,
            None => false,
        }
    }

    pub fn at_bottom_edge(&self, cx: i32, cy: i32) -> (r: bool)
        ensures
            r == at_bottom_spec(self.view_monitors(), cx as int, cy as int),
    {
        let on = self.on_any_monitor(cx, cy);
        let b = self.bottom_boundary_at(cx);
        let ghost ms = self.view_monitors();
        proof {
            if on {
                let i = choose|i: int| 0 <= i < ms.len() && on_monitor(ms[i], cx as int, cy as int);
                assert(spans_col(ms[i], cx as int));
            }
        }
        on && match b {
            Some(v) => cy >= v,
            None => false,
        }
    }

    pub fn at_top_edge(&self, cx: i32, cy: i32) -> (r: bool)
        ensures
            r == at_top_spec(self.view_monitors(), cx as int, cy as int),
    {
        let on = self.on_any_monitor(cx, cy);
        let b = self.top_boundary_at(cx);
        let ghost ms = self.view_monitors();
        proof {
            if on {
                let i = choose|i: int| 0 <= i < ms.len() && on_monitor(ms[i], cx as int, cy as int);
                assert(spans_col(ms[i], cx as int));
            }
        }
        on && match b {
            Some(v) => cy <= v,
            None => false,
        }
    }

    /// Returns which edge the cursor is at, if any. Right/Left take priority over Bottom/Top.
    pub fn crossed_edge(&self, cx: i32, cy: i32) -> (r: Option<Edge>)
        ensures
            r == crossed_spec(self.view_monitors(), cx as int, cy as int),
    {
        if self.at_right_edge(cx, cy) {
            return Some(Edge::Right);
        }
        if self.at_left_edge(cx, cy) {
            return Some(Edge::Left);
        }
        if self.at_bottom_edge(cx, cy) {
            return Some(Edge::Bottom);
        }
        if self.at_top_edge(cx, cy) {
            return Some(Edge::Top);
        }
        None
    }
}

/// A cursor at the right edge sits exactly on the right boundary of its row.
pub proof fn lemma_at_right_is_boundary(ms: Seq<ScreenInfo>, x: int, y: int)
    requires
        at_right_spec(ms, x, y),
    ensures
        is_right_boundary(ms, y, x),
{
    let i = choose|i: int| 0 <= i < ms.len() && on_monitor(ms[i], x, y);
    assert(spans_row(ms[i], y));
    assert(right_px(ms[i]) <= x);
}

/// A cursor at the left edge sits exactly on the left boundary of its row.
pub proof fn lemma_at_left_is_boundary(ms: Seq<ScreenInfo>, x: int, y: int)
    requires
        at_left_spec(ms, x, y),
    ensures
        is_left_boundary(ms, y, x),
{
    let i = choose|i: int| 0 <= i < ms.len() && on_monitor(ms[i], x, y);
    assert(spans_row(ms[i], y));
}

/// A cursor at the bottom edge sits exactly on the bottom boundary of its column.
pub proof fn lemma_at_bottom_is_boundary(ms: Seq<ScreenInfo>, x: int, y: int)
    requires
        at_bottom_spec(ms, x, y),
    ensures
        is_bottom_boundary(ms, x, y),
{
    let i = choose|i: int| 0 <= i < ms.len() && on_monitor(ms[i], x, y);
    assert(spans_col(ms[i], x));
}

/// A cursor at the top edge sits exactly on the top boundary of its column.
pub proof fn lemma_at_top_is_boundary(ms: Seq<ScreenInfo>, x: int, y: int)
    requires
        at_top_spec(ms, x, y),
    ensures
        is_top_boundary(ms, x, y),
{
    let i = choose|i: int| 0 <= i < ms.len() && on_monitor(ms[i], x, y);
    assert(spans_col(ms[i], x));
}

/// An edge is only ever reported for a cursor that is on the desktop.
pub proof fn lemma_crossed_only_on_desktop(ms: Seq<ScreenInfo>, x: int, y: int)
    requires
        crossed_spec(ms, x, y) is Some,
    ensures
        on_any(ms, x, y),
{
}

/// `v` limited to `lo..=hi`.
pub open spec fn clamp(v: int, lo: int, hi: int) -> int {
    if v < lo {
        lo
    } else if v > hi {
        hi
    } else {
        v
    }
}

/// The far pixel of a client dimension, as a `u16`: `n - 1`, which wraps
/// to 65535 for an empty dimension.
pub open spec fn far_px(n: u16) -> u16 {
    if n == 0 {
        65535u16
    } else {
        (n - 1) as u16
    }
}

/// Whether `map_to_client` is defined: the axis the cursor is clamped along
/// has at least one pixel.
pub open spec fn map_defined(client: ScreenInfo, edge: Edge) -> bool {
    match edge {
        Edge::Right | Edge::Left => client.height >= 1,
        Edge::Bottom | Edge::Top => client.width >= 1,
    }
}

/// Where the cursor lands on the client when it crosses `edge`.
pub open spec fn map_spec(server_x: i32, server_y: i32, client: ScreenInfo, edge: Edge, offset: i32) -> (u16, u16) {
    match edge {
        Edge::Right => (0u16, clamp(server_y - offset, 0, client.height - 1) as u16),
        Edge::Left => (far_px(client.width), clamp(server_y - offset, 0, client.height - 1) as u16),
        Edge::Bottom => (clamp(server_x - offset, 0, client.width - 1) as u16, 0u16),
        Edge::Top => (clamp(server_x - offset, 0, client.width - 1) as u16, far_px(client.height)),
    }
}

/// Where a crossing lands on the client. The cursor lands on the client's
/// edge that faces the server (left column for a client on the right, right
/// column for one on the left, top row for one below, bottom row for one
/// above), inside the screen. Along the edge, a positive offset moves the
/// client's screen that far down (or right) of the server's, so the client
/// coordinate plus the offset is the server coordinate, wherever that lies
/// on the client's screen; beyond either end the cursor stops at the end.
/// The two sideways edges place the cursor at the same height, and the two
/// vertical ones at the same column.
pub proof fn lemma_crossing_lands_on_facing_edge(sx: i32, sy: i32, c: ScreenInfo, edge: Edge, off: i32)
    requires
        c.width >= 1,
        c.height >= 1,
    ensures
        ({
            let p = map_spec(sx, sy, c, edge, off);
            &&& p.0 < c.width && p.1 < c.height
            &&& edge == Edge::Right ==> p.0 == 0
            &&& edge == Edge::Left ==> p.0 == c.width - 1
            &&& edge == Edge::Bottom ==> p.1 == 0
            &&& edge == Edge::Top ==> p.1 == c.height - 1
            &&& (edge == Edge::Right || edge == Edge::Left) ==> {
                &&& 0 <= sy - off < c.height ==> p.1 + off == sy
                &&& sy - off < 0 ==> p.1 == 0
                &&& sy - off >= c.height ==> p.1 == c.height - 1
            }
            &&& (edge == Edge::Bottom || edge == Edge::Top) ==> {
                &&& 0 <= sx - off < c.width ==> p.0 + off == sx
                &&& sx - off < 0 ==> p.0 == 0
                &&& sx - off >= c.width ==> p.0 == c.width - 1
            }
        }),
        map_spec(sx, sy, c, Edge::Left, off).1 == map_spec(sx, sy, c, Edge::Right, off).1,
        map_spec(sx, sy, c, Edge::Top, off).0 == map_spec(sx, sy, c, Edge::Bottom, off).0,
{
}

/// Map a server cursor position to client screen coordinates when crossing an edge.
///
/// `offset` is the pixel shift along the perpendicular axis: for Left/Right edges
/// it is vertical (positive = client top is below server top); for Top/Bottom edges
/// it is horizontal (positive = client left is right of server left).
pub fn map_to_client(server_x: i32, server_y: i32, client: &ScreenInfo, edge: Edge, offset: i32) -> (r: (u16, u16))
    requires
        map_defined(*client, edge),
    ensures
        r == map_spec(server_x, server_y, *client, edge, offset),
{
    let cw = client.width as i64;
    let ch = client.height as i64;
    let far_x: u16 = if client.width == 0 { 65535 } else { client.width - 1 };
    let far_y: u16 = if client.height == 0 { 65535 } else { client.height - 1 };
    match edge {
        Edge::Right => (0, clamp_i64(server_y as i64 - offset as i64, 0, ch - 1) as u16),
        Edge::Left => (far_x, clamp_i64(server_y as i64 - offset as i64, 0, ch - 1) as u16),
        Edge::Bottom => (clamp_i64(server_x as i64 - offset as i64, 0, cw - 1) as u16, 0),
        Edge::Top => (clamp_i64(server_x as i64 - offset as i64, 0, cw - 1) as u16, far_y),
    }
}

/// `v` limited to `lo..=hi`.
pub fn clamp_i64(v: i64, lo: i64, hi: i64) -> (r: i64)
    requires
        lo <= hi,
    ensures
        r == clamp(v as int, lo as int, hi as int),
{
    if v < lo {
        lo
    } else if v > hi {
        hi
    } else {
        v
    }
}

} // verus!
