//! Server-side capture on wlroots compositors through layer-shell surfaces,
//! for compositors without the input-capture portal.
//!
//! Idle: one-pixel strips on all four edges of every output. Entering a strip
//! reports the crossing to the router; only if the router does not answer
//! with a release at once does a full-screen overlay take the input.
use vstd::prelude::*;
use crate::proto::ScreenInfo;
use crate::text::{decimal, push_decimal};
use vstd::string::StringExecFns;

verus! {

/// An edge of an output.
#[derive(Debug, Clone, Copy, PartialEq, Eq, Structural)]
pub enum Edge {
    Left,
    Right,
    Top,
    Bottom,
}

/// Whether the server is watching the edges or holding input.
#[derive(Debug, Clone, Copy, PartialEq, Eq, Structural)]
pub enum Phase {
    Idle,
    Active,
}

/// Which surface a configure event belongs to: an edge strip of an output,
/// or the full-screen overlay.
#[derive(Debug, Clone, Copy, PartialEq, Eq, Structural)]
pub enum SurfaceRole {
    EdgeStrip(Edge, usize),
    Overlay,
}

/// Geometry of one output, accumulated across output events.
#[derive(Debug, Clone, Copy, PartialEq, Eq, Structural)]
pub struct OutputInfo {
    pub x: i32,
    pub y: i32,
    pub width: i32,
    pub height: i32,
    pub done: bool,
}

/// The name given to output `i` in the published layout: `output-` and its index.
pub open spec fn output_name(i: nat) -> Seq<char> {
    seq!['o', 'u', 't', 'p', 'u', 't', '-'] + decimal(i)
}

/// The server screens the outputs describe, or nothing while some output's
/// geometry is incomplete or there are no outputs. Sizes keep their low
/// 16 bits.
pub fn monitor_layout(outputs: &Vec<OutputInfo>) -> (r: Option<Vec<ScreenInfo>>)
    ensures
        (outputs@.len() == 0 || exists|j: int| 0 <= j < outputs@.len() && !(#[trigger] outputs@[j]).done) ==> r
            is None,
        (outputs@.len() > 0 && forall|j: int| 0 <= j < outputs@.len() ==> (#[trigger] outputs@[j]).done) ==> (r matches Some(
            v,
        ) && v@.len() == outputs@.len() && forall|i: int|
            0 <= i < v@.len() ==> {
                &&& (#[trigger] v@[i]).name@ == output_name(i as nat)
                &&& v@[i].x == outputs@[i].x
                &&& v@[i].y == outputs@[i].y
                &&& v@[i].width == outputs@[i].width as u16
                &&& v@[i].height == outputs@[i].height as u16
            }),
{
    if outputs.len() == 0 {
        return None;
    }
    let mut i: usize = 0;
    while i < outputs.len()
        invariant
            0 <= i <= outputs@.len(),
            forall|j: int| 0 <= j < i ==> (#[trigger] outputs@[j]).done,
        decreases outputs@.len() - i,
    {
        if !outputs[i].done {
            return None;
        }
        i = i + 1;
    }
    let mut v: Vec<ScreenInfo> = Vec::new();
    let mut k: usize = 0;
    while k < outputs.len()
        invariant
            0 <= k <= outputs@.len(),
            v@.len() == k,
            forall|i: int|
                0 <= i < k ==> {
                    &&& (#[trigger] v@[i]).name@ == output_name(i as nat)
                    &&& v@[i].x == outputs@[i].x
                    &&& v@[i].y == outputs@[i].y
                    &&& v@[i].width == outputs@[i].width as u16
                    &&& v@[i].height == outputs@[i].height as u16
                },
        decreases outputs@.len() - k,
    {
        let o = outputs[k];
        let mut name = String::from_str("output-");
        proof {
            reveal_strlit("output-");
        }
        push_decimal(&mut name, k as u64);
        assert(name@ =~= output_name(k as nat));
        v.push(ScreenInfo { name, x: o.x, y: o.y, width: o.width as u16, height: o.height as u16 });
        k = k + 1;
    }
    Some(v)
}

/// Which sides of the output a layer surface is anchored to.
#[derive(Debug, Clone, Copy, PartialEq, Eq, Structural)]
pub struct Anchors {
    pub top: bool,
    pub bottom: bool,
    pub left: bool,
    pub right: bool,
}

/// One edge strip to create: its edge, anchors and requested size.
#[derive(Debug, Clone, Copy, PartialEq, Eq, Structural)]
pub struct StripSpec {
    pub edge: Edge,
    pub anchors: Anchors,
    /// Requested width and height.
    pub width: u32,
    pub height: u32,
}

/// The four strips of an output: right, left, top, bottom. A zero size
/// stretches that axis to the output.
pub open spec fn strips_spec() -> Seq<StripSpec> {
    seq![
        StripSpec { edge: Edge::Right, anchors: Anchors { top: true, bottom: true, left: false, right: true }, width: 1u32, height: 0u32 },
        StripSpec { edge: Edge::Left, anchors: Anchors { top: true, bottom: true, left: true, right: false }, width: 1u32, height: 0u32 },
        StripSpec { edge: Edge::Top, anchors: Anchors { top: true, bottom: false, left: true, right: true }, width: 0u32, height: 1u32 },
        StripSpec { edge: Edge::Bottom, anchors: Anchors { top: false, bottom: true, left: true, right: true }, width: 0u32, height: 1u32 },
    ]
}

/// The strips placed on every output.
pub fn output_strips() -> (r: Vec<StripSpec>)
    ensures
        r@ == strips_spec(),
{
    let mut r: Vec<StripSpec> = Vec::new();
    r.push(StripSpec { edge: Edge::Right, anchors: Anchors { top: true, bottom: true, left: false, right: true }, width: 1, height: 0 });
    r.push(StripSpec { edge: Edge::Left, anchors: Anchors { top: true, bottom: true, left: true, right: false }, width: 1, height: 0 });
    r.push(StripSpec { edge: Edge::Top, anchors: Anchors { top: true, bottom: false, left: true, right: true }, width: 0, height: 1 });
    r.push(StripSpec { edge: Edge::Bottom, anchors: Anchors { top: false, bottom: true, left: true, right: true }, width: 0, height: 1 });
    assert(r@ =~= strips_spec());
    r
}

/// Where, along the axis facing away from `edge`, the cursor is put when
/// capture is released: five pixels inside the output from that edge.
pub open spec fn nudge_spec(o: OutputInfo, edge: Edge) -> int {
    match edge {
        Edge::Right => o.x + o.width - 5,
        Edge::Left => o.x + 5,
        Edge::Bottom => o.y + o.height - 5,
        Edge::Top => o.y + 5,
    }
}

/// The coordinate the cursor is moved to on release, on the axis across
/// `edge`.
pub fn nudge_coordinate(o: &OutputInfo, edge: Edge) -> (r: i64)
    ensures
        r == nudge_spec(*o, edge),
{
    match edge {
        Edge::Right => o.x as i64 + o.width as i64 - 5,
        Edge::Left => o.x as i64 + 5,
        Edge::Bottom => o.y as i64 + o.height as i64 - 5,
        Edge::Top => o.y as i64 + 5,
    }
}

/// What a release request from the router does.
#[derive(Debug, Clone, Copy, PartialEq, Eq, Structural)]
pub enum ReleaseStep {
    /// A crossing was still waiting: the router refused it, so drop it
    /// without building the overlay.
    DiscardCrossing,
    /// Input is held: release every key, tear the overlay down and put the
    /// strips back.
    ReleaseCapture,
    /// Nothing is held or pending.
    Nothing,
}

/// A strip crossing: the edge and the index of its output.
#[derive(Debug, Clone, Copy, PartialEq, Eq, Structural)]
pub struct Crossing {
    pub edge: Edge,
    pub output: usize,
}

/// The activation state of the wlroots capture: the phase, and a crossing
/// reported to the router that waits one turn for a refusal.
#[derive(Debug, Clone, Copy, PartialEq, Eq, Structural)]
pub struct Activation {
    pub phase: Phase,
    pub deferred: Option<Crossing>,
}

/// The state and the step after the router asks for a release: a waiting
/// crossing is dropped first; otherwise an active capture ends.
pub open spec fn release_spec(a: Activation) -> (Activation, ReleaseStep) {
    if a.deferred is Some {
        (Activation { deferred: None, ..a }, ReleaseStep::DiscardCrossing)
    } else if a.phase == Phase::Active {
        (Activation { phase: Phase::Idle, deferred: None }, ReleaseStep::ReleaseCapture)
    } else {
        (a, ReleaseStep::Nothing)
    }
}

/// The state after a crossing is seen, and whether it is reported: only
/// while idle with no other crossing waiting.
pub open spec fn crossing_spec(a: Activation, edge: Edge, output: usize) -> (Activation, bool) {
    if a.phase == Phase::Idle && a.deferred is None {
        (Activation { deferred: Some(Crossing { edge, output }), ..a }, true)
    } else {
        (a, false)
    }
}

/// The state after the next turn, and the crossing to build an overlay
/// for: the waiting one, when no release is pending and the server is idle.
pub open spec fn take_spec(a: Activation, release_pending: bool) -> (Activation, Option<Crossing>) {
    (
        Activation { deferred: None, ..a },
        if a.deferred is Some && !release_pending && a.phase == Phase::Idle {
            a.deferred
        } else {
            None
        },
    )
}

impl Activation {
    /// Watching the edges, nothing pending.
    pub fn new() -> (r: Activation)
        ensures
            r == (Activation { phase: Phase::Idle, deferred: None }),
    {
        Activation { phase: Phase::Idle, deferred: None }
    }

    /// The router asked for a release.
    pub fn on_release(&mut self) -> (r: ReleaseStep)
        ensures
            (*final(self), r) == release_spec(*old(self)),
    {
        if self.deferred.is_some() {
            self.deferred = None;
            ReleaseStep::DiscardCrossing
        } else if self.phase == Phase::Active {
            self.phase = Phase::Idle;
            ReleaseStep::ReleaseCapture
        } else {
            ReleaseStep::Nothing
        }
    }

    /// A crossing was seen on a strip. It is reported to the router (the
    /// result is true) only while idle with no other crossing waiting; it
    /// then waits one turn.
    pub fn on_crossing(&mut self, edge: Edge, output: usize) -> (r: bool)
        ensures
            (*final(self), r) == crossing_spec(*old(self), edge, output),
    {
        if self.phase == Phase::Idle && self.deferred.is_none() {
            self.deferred = Some(Crossing { edge, output });
            true
        } else {
            false
        }
    }

    /// The next turn: the waiting crossing, if any, is taken. It becomes an
    /// overlay to build only when no release is pending and the server is
    /// still idle.
    pub fn take_crossing(&mut self, release_pending: bool) -> (r: Option<Crossing>)
        ensures
            (*final(self), r) == take_spec(*old(self), release_pending),
    {
        match self.deferred.take() {
            Some(c) => {
                if !release_pending && self.phase == Phase::Idle {
                    Some(c)
                } else {
                    None
                }
            },
            None => None,
        }
    }

    /// The overlay was built: input is held.
    pub fn overlay_created(&mut self)
        ensures
            *final(self) == (Activation { phase: Phase::Active, ..*old(self) }),
    {
        self.phase = Phase::Active;
    }
}

/// A crossing the router refuses at once never turns into a capture: the
/// crossing is reported, and then either the refusal arrives first and
/// drops it, or the next turn sees the refusal pending and builds nothing;
/// either way the capture stays idle with nothing waiting.
pub proof fn lemma_refused_crossing_never_captures(a: Activation, edge: Edge, output: usize)
    requires
        a.phase == Phase::Idle,
        a.deferred is None,
    ensures
        crossing_spec(a, edge, output).1,
        ({
            let a1 = crossing_spec(a, edge, output).0;
            let released = release_spec(a1);
            let taken = take_spec(released.0, false);
            &&& released.1 == ReleaseStep::DiscardCrossing
            &&& taken.1 is None
            &&& taken.0 == a
        }),
        ({
            let a1 = crossing_spec(a, edge, output).0;
            let taken = take_spec(a1, true);
            let released = release_spec(taken.0);
            &&& taken.1 is None
            &&& released.1 == ReleaseStep::Nothing
            &&& released.0 == a
        }),
{
}

} // verus!
