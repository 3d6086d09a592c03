//! The server's routing state machine.
//!
//! While the server owns the cursor, captured motion only moves the server
//! cursor; when it reaches an edge that leads to a connected client, focus
//! passes to that client and every later event is forwarded to it, until the
//! client-side cursor comes back through the edge facing the server. Keys
//! held on the client are released before focus returns, so no modifier
//! stays stuck down on the far machine.
//!
//! The router itself does no I/O: each step takes the event, the current
//! configuration and the set of connected clients, and returns the messages
//! to deliver and whether the capture backend must let go of its grab.
use vstd::prelude::*;
use crate::config::{ClientEntry, Config, Edge, remap_spec, remap_modifier_key};
use crate::layout::{ServerLayout, all_fit, clamp, clamp_i64, crossed_spec, map_defined, map_spec, map_to_client};
use crate::proto::{Modifiers, MouseButton, S2C, ScreenInfo, no_modifiers};
use crate::telemetry::RouteSnapshot;
use crate::text::{hex_label, hex_string, lex_sorted, sort_strings};

verus! {

/// One captured input event, in integer screen units.
#[derive(Debug, Clone, Copy, PartialEq, Eq, Structural)]
pub enum RouteEvent {
    /// Absolute cursor position on the server desktop.
    MouseMoveAbs { x: i32, y: i32 },
    MouseButton { button: MouseButton, pressed: bool },
    /// Scroll deltas, already limited to the `i16` range.
    Scroll { dx: i16, dy: i16 },
    /// A key, as a HID usage code, before any modifier remap.
    Key { keycode: u32, pressed: bool, modifiers: Modifiers },
}

/// What the router asks its caller to do after an event.
#[derive(Debug, Clone, PartialEq, Eq)]
pub enum RouteAction {
    /// Deliver `msg` to the connected client called `client`.
    Send { client: String, msg: S2C },
    /// Tell the capture backend to release its input grab.
    Release,
}

/// The first configured client whose edge is `edge`.
pub open spec fn entry_for_edge(cs: Seq<ClientEntry>, edge: Edge) -> Option<ClientEntry>
    decreases cs.len(),
{
    if cs.len() == 0 {
        None
    } else if cs[0].edge == edge {
        Some(cs[0])
    } else {
        entry_for_edge(cs.drop_first(), edge)
    }
}

/// The first configured client called `name`.
pub open spec fn entry_named(cs: Seq<ClientEntry>, name: Seq<char>) -> Option<ClientEntry>
    decreases cs.len(),
{
    if cs.len() == 0 {
        None
    } else if cs[0].name@ == name {
        Some(cs[0])
    } else {
        entry_named(cs.drop_first(), name)
    }
}

/// The screen of the connected client called `name`, if it is connected.
pub open spec fn screen_of(conn: Seq<(String, ScreenInfo)>, name: Seq<char>) -> Option<ScreenInfo>
    decreases conn.len(),
{
    if conn.len() == 0 {
        None
    } else if conn[0].0@ == name {
        Some(conn[0].1)
    } else {
        screen_of(conn.drop_first(), name)
    }
}

/// Every connected client has a screen at least one pixel wide and high.
pub open spec fn usable_screens(conn: Seq<(String, ScreenInfo)>) -> bool {
    forall|i: int| 0 <= i < conn.len() ==> (#[trigger] conn[i]).1.width >= 1 && conn[i].1.height >= 1
}

/// The keycode forwarded to client `name` for `key`: the key after that
/// client's modifier remap, or the key itself when the client has no entry.
pub open spec fn remap_for(cs: Seq<ClientEntry>, name: Seq<char>, key: u32) -> u32 {
    match entry_named(cs, name) {
        Some(e) => remap_spec(e.modifier_map@, key),
        None => key,
    }
}

/// The key releases sent to `name` for the keys held on it, in order.
pub open spec fn flush_actions(cs: Seq<ClientEntry>, name: String, held: Seq<u32>) -> Seq<RouteAction> {
    held.map_values(
        |k: u32|
            RouteAction::Send {
                client: name,
                msg: S2C::KeyEvent { keycode: remap_for(cs, name@, k), pressed: false, modifiers: no_modifiers() },
            },
    )
}

/// Whether the client cursor sits on the client edge that faces the server.
pub open spec fn at_return_edge(edge: Edge, scr: ScreenInfo, cx: int, cy: int) -> bool {
    match edge {
        Edge::Left => cx == scr.width - 1,
        Edge::Right => cx == 0,
        Edge::Top => cy == scr.height - 1,
        Edge::Bottom => cy == 0,
    }
}

/// The held keys after a key event on the active client.
pub open spec fn held_after_key(held: Seq<u32>, key: u32, pressed: bool) -> Seq<u32> {
    if pressed {
        if held.contains(key) {
            held
        } else {
            held.push(key)
        }
    } else {
        held.filter(other_than(key))
    }
}

/// The predicate "is not `key`".
pub open spec fn other_than(key: u32) -> spec_fn(u32) -> bool {
    |k: u32| k != key
}

/// The router's state.
#[verifier::ext_equal]
pub struct RouterView {
    pub monitors: Seq<ScreenInfo>,
    /// The client that owns the cursor and the server edge that leads to it.
    pub active: Option<(String, Edge)>,
    pub server_cursor: (i32, i32),
    pub client_cursor: (i32, i32),
    /// Keys pressed on the active client and not yet released, pre-remap.
    pub held: Seq<u32>,
}

/// A router state is valid when no key is held twice, and no key is held
/// while the server owns the cursor.
pub open spec fn valid(v: RouterView) -> bool {
    &&& all_fit(v.monitors)
    &&& v.held.no_duplicates()
    &&& (v.active is None ==> v.held.len() == 0)
}

/// `v` with the active client and the held keys cleared.
pub open spec fn deactivated(v: RouterView) -> RouterView {
    RouterView { active: None, held: Seq::empty(), ..v }
}

/// The effect of an absolute cursor position `(x, y)`.
pub open spec fn move_spec(
    v: RouterView,
    x: i32,
    y: i32,
    cs: Seq<ClientEntry>,
    conn: Seq<(String, ScreenInfo)>,
) -> (RouterView, Seq<RouteAction>) {
    match v.active {
        None => {
            let moved = RouterView { server_cursor: (x, y), ..v };
            match crossed_spec(v.monitors, x as int, y as int) {
                None => (moved, Seq::empty()),
                Some(edge) => match entry_for_edge(cs, edge) {
                    None => (moved, seq![RouteAction::Release]),
                    Some(e) => match screen_of(conn, e.name@) {
                        None => (moved, seq![RouteAction::Release]),
                        Some(scr) => {
                            let (cx, cy) = map_spec(x, y, scr, edge, e.offset);
                            (
                                RouterView {
                                    active: Some((e.name, e.edge)),
                                    client_cursor: (cx as i32, cy as i32),
                                    held: Seq::empty(),
                                    ..moved
                                },
                                seq![RouteAction::Send { client: e.name, msg: S2C::EnterScreen { x: cx, y: cy } }],
                            )
                        },
                    },
                },
            }
        },
        Some((name, edge)) => {
            let moved = RouterView { server_cursor: (x, y), ..v };
            match screen_of(conn, name@) {
                None => (deactivated(moved), seq![RouteAction::Release]),
                Some(scr) => {
                    let cx = clamp(v.client_cursor.0 + (x - v.server_cursor.0), 0, scr.width - 1);
                    let cy = clamp(v.client_cursor.1 + (y - v.server_cursor.1), 0, scr.height - 1);
                    let after = RouterView { client_cursor: (cx as i32, cy as i32), ..moved };
                    if at_return_edge(edge, scr, cx, cy) {
                        (
                            deactivated(after),
                            flush_actions(cs, name, v.held) + seq![
                                RouteAction::Send { client: name, msg: S2C::LeaveScreen },
                                RouteAction::Release,
                            ],
                        )
                    } else {
                        (after, seq![RouteAction::Send { client: name, msg: S2C::MouseMoveAbs { x: cx as u16, y: cy as u16 } }])
                    }
                },
            }
        },
    }
}

/// `msg` for the active client, if there is one and it is connected.
pub open spec fn forward(v: RouterView, conn: Seq<(String, ScreenInfo)>, msg: S2C) -> Seq<RouteAction> {
    match v.active {
        Some((name, _)) => if screen_of(conn, name@) is Some {
            seq![RouteAction::Send { client: name, msg }]
        } else {
            Seq::empty()
        },
        None => Seq::empty(),
    }
}

/// The effect of one event on the router's state, and what it asks for.
pub open spec fn route_spec(
    v: RouterView,
    ev: RouteEvent,
    cs: Seq<ClientEntry>,
    conn: Seq<(String, ScreenInfo)>,
) -> (RouterView, Seq<RouteAction>) {
    match ev {
        RouteEvent::MouseMoveAbs { x, y } => move_spec(v, x, y, cs, conn),
        RouteEvent::MouseButton { button, pressed } => (v, forward(v, conn, S2C::MouseButton { button, pressed })),
        RouteEvent::Scroll { dx, dy } => (v, forward(v, conn, S2C::Scroll { dx, dy })),
        RouteEvent::Key { keycode, pressed, modifiers } => match v.active {
            None => (v, Seq::empty()),
            Some((name, _)) => (
                RouterView { held: held_after_key(v.held, keycode, pressed), ..v },
                forward(
                    v,
                    conn,
                    S2C::KeyEvent { keycode: remap_for(cs, name@, keycode), pressed, modifiers },
                ),
            ),
        },
    }
}

/// Index of the first configured client on `edge`.
fn find_entry_for_edge(cs: &Vec<ClientEntry>, edge: Edge) -> (r: Option<usize>)
    ensures
        match r {
            Some(i) => i < cs@.len() && entry_for_edge(cs@, edge) == Some(cs@[i as int]),
            None => entry_for_edge(cs@, edge) is None,
        },
{
    let mut i: usize = 0;
    assert(cs@.skip(0) =~= cs@);
    while i < cs.len()
        invariant
            0 <= i <= cs@.len(),
            entry_for_edge(cs@, edge) == entry_for_edge(cs@.skip(i as int), edge),
        decreases cs@.len() - i,
    {
        assert(cs@.skip(i as int).drop_first() =~= cs@.skip(i + 1));
        assert(cs@.skip(i as int)[0] == cs@[i as int]);
        if cs[i].edge == edge {
            return Some(i);
        }
        i = i + 1;
    }
    None
}

/// Index of the first configured client called `name`.
fn find_entry_named(cs: &Vec<ClientEntry>, name: &String) -> (r: Option<usize>)
    ensures
        match r {
            Some(i) => i < cs@.len() && entry_named(cs@, name@) == Some(cs@[i as int]),
            None => entry_named(cs@, name@) is None,
        },
{
    let mut i: usize = 0;
    assert(cs@.skip(0) =~= cs@);
    while i < cs.len()
        invariant
            0 <= i <= cs@.len(),
            entry_named(cs@, name@) == entry_named(cs@.skip(i as int), name@),
        decreases cs@.len() - i,
    {
        assert(cs@.skip(i as int).drop_first() =~= cs@.skip(i + 1));
        assert(cs@.skip(i as int)[0] == cs@[i as int]);
        if cs[i].name == *name {
            return Some(i);
        }
        i = i + 1;
    }
    None
}

/// Index of the connected client called `name`.
fn find_screen(conn: &Vec<(String, ScreenInfo)>, name: &String) -> (r: Option<usize>)
    ensures
        match r {
            Some(i) => i < conn@.len() && screen_of(conn@, name@) == Some(conn@[i as int].1),
            None => screen_of(conn@, name@) is None,
        },
{
    let mut i: usize = 0;
    assert(conn@.skip(0) =~= conn@);
    while i < conn.len()
        invariant
            0 <= i <= conn@.len(),
            screen_of(conn@, name@) == screen_of(conn@.skip(i as int), name@),
        decreases conn@.len() - i,
    {
        assert(conn@.skip(i as int).drop_first() =~= conn@.skip(i + 1));
        assert(conn@.skip(i as int)[0] == conn@[i as int]);
        if conn[i].0 == *name {
            return Some(i);
        }
        i = i + 1;
    }
    None
}

/// The keycode forwarded to client `name` for `key`.
fn remap_for_client(cs: &Vec<ClientEntry>, name: &String, key: u32) -> (r: u32)
    ensures
        r == remap_for(cs@, name@, key),
{
    match find_entry_named(cs, name) {
        Some(i) => remap_modifier_key(&cs[i].modifier_map, key),
        None => key,
    }
}


/// Whether `v` holds `k`.
fn held_contains(v: &Vec<u32>, k: u32) -> (r: bool)
    ensures
        r == v@.contains(k),
{
    let mut i: usize = 0;
    while i < v.len()
        invariant
            0 <= i <= v@.len(),
            forall|j: int| 0 <= j < i ==> v@[j] != k,
        decreases v@.len() - i,
    {
        if v[i] == k {
            return true;
        }
        i = i + 1;
    }
    false
}

/// `v` without `k`, order kept.
fn held_without(v: &Vec<u32>, k: u32) -> (r: Vec<u32>)
    requires
        v@.no_duplicates(),
    ensures
        r@ == v@.filter(other_than(k)),
        r@.no_duplicates(),
{
    let ghost keep = other_than(k);
    let mut r: Vec<u32> = Vec::new();
    let mut i: usize = 0;
    assert(v@.take(0) =~= Seq::<u32>::empty());
    proof { reveal(Seq::filter); }
    while i < v.len()
        invariant
            0 <= i <= v@.len(),
            v@.no_duplicates(),
            keep == other_than(k),
            r@ == v@.take(i as int).filter(keep),
            r@.no_duplicates(),
            forall|m: int| i <= m < v@.len() ==> !r@.contains(#[trigger] v@[m]),
        decreases v@.len() - i,
    {
        let x = v[i];
        assert(v@.take(i + 1) =~= v@.take(i as int).push(x));
        proof { v@.take(i as int).lemma_filter_push(x, keep); }
        if x != k {
            r.push(x);
            assert forall|m: int| i + 1 <= m < v@.len() implies !r@.contains(#[trigger] v@[m]) by {
                assert(v@[m] != v@[i as int]);
                if r@.contains(v@[m]) {
                    let j = choose|j: int| 0 <= j < r@.len() && r@[j] == v@[m];
                    if j < r@.len() - 1 {
                        assert(r@.drop_last()[j] == v@[m]);
                        assert(r@.drop_last().contains(v@[m]));
                    }
                }
            }
        }
        i = i + 1;
    }
    assert(v@.take(v@.len() as int) =~= v@);
    r
}

/// The key releases for `held`, sent to `name`, in order.
fn flush(cs: &Vec<ClientEntry>, name: &String, held: &Vec<u32>) -> (r: Vec<RouteAction>)
    ensures
        r@ == flush_actions(cs@, *name, held@),
{
    let mut r: Vec<RouteAction> = Vec::new();
    let mut i: usize = 0;
    while i < held.len()
        invariant
            0 <= i <= held@.len(),
            r@ == flush_actions(cs@, *name, held@).take(i as int),
        decreases held@.len() - i,
    {
        let code = remap_for_client(cs, name, held[i]);
        r.push(
            RouteAction::Send {
                client: name.clone(),
                msg: S2C::KeyEvent { keycode: code, pressed: false, modifiers: Modifiers::default() },
            },
        );
        assert(flush_actions(cs@, *name, held@).take(i + 1) =~= flush_actions(cs@, *name, held@).take(
            i as int,
        ).push(flush_actions(cs@, *name, held@)[i as int]));
        i = i + 1;
    }
    assert(flush_actions(cs@, *name, held@).take(held@.len() as int) =~= flush_actions(cs@, *name, held@));
    r
}

/// Routing state: who owns the cursor, where both cursors are, and which
/// keys are down on the client that owns it.
pub struct Router {
    layout: ServerLayout,
    active: Option<(String, Edge)>,
    server_cursor: (i32, i32),
    client_cursor: (i32, i32),
    held_keys: Vec<u32>,
}

impl View for Router {
    type V = RouterView;

    closed spec fn view(&self) -> RouterView {
        RouterView {
            monitors: self.layout.view_monitors(),
            active: self.active,
            server_cursor: self.server_cursor,
            client_cursor: self.client_cursor,
            held: self.held_keys@,
        }
    }
}

impl Router {
    /// A router on the given server monitors, with the server owning the
    /// cursor at the origin.
    pub fn new(monitors: Vec<ScreenInfo>) -> (r: Router)
        requires
            all_fit(monitors@),
        ensures
            r@ == (RouterView {
                monitors: monitors@,
                active: None,
                server_cursor: (0, 0),
                client_cursor: (0, 0),
                held: Seq::empty(),
            }),
            valid(r@),
    {
        let r = Router {
            layout: ServerLayout::new(monitors),
            active: None,
            server_cursor: (0, 0),
            client_cursor: (0, 0),
            held_keys: Vec::new(),
        };
        assert(r@.held =~= Seq::<u32>::empty());
        r
    }

    /// Replace the server's monitor layout; nothing else changes.
    pub fn set_monitors(&mut self, monitors: Vec<ScreenInfo>)
        requires
            valid(old(self)@),
            all_fit(monitors@),
        ensures
            final(self)@ == (RouterView { monitors: monitors@, ..old(self)@ }),
            valid(final(self)@),
    {
        self.layout = ServerLayout::new(monitors);
    }

    /// The server layout in use.
    pub fn layout(&self) -> (r: &ServerLayout)
        ensures
            r.view_monitors() == self@.monitors,
    {
        &self.layout
    }

    fn on_move(&mut self, x: i32, y: i32, cs: &Vec<ClientEntry>, conn: &Vec<(String, ScreenInfo)>) -> (acts: Vec<RouteAction>)
        requires
            valid(old(self)@),
            usable_screens(conn@),
        ensures
            final(self)@ == move_spec(old(self)@, x, y, cs@, conn@).0,
            acts@ == move_spec(old(self)@, x, y, cs@, conn@).1,
    {
        let mut acts: Vec<RouteAction> = Vec::new();
        let ghost v = self@;
        if self.active.is_none() {
            let crossed = self.layout.crossed_edge(x, y);
            self.server_cursor = (x, y);
            if let Some(edge) = crossed {
                match find_entry_for_edge(cs, edge) {
                    None => {
                        acts.push(RouteAction::Release);
                    },
                    Some(i) => {
                        let e = &cs[i];
                        match find_screen(conn, &e.name) {
                            None => {
                                acts.push(RouteAction::Release);
                            },
                            Some(j) => {
                                let scr = &conn[j].1;
                                proof {
                                    assert(conn@[j as int].1.width >= 1 && conn@[j as int].1.height >= 1);
                                }
                                let (cx, cy) = map_to_client(x, y, scr, edge, e.offset);
                                acts.push(
                                    RouteAction::Send { client: e.name.clone(), msg: S2C::EnterScreen { x: cx, y: cy } },
                                );
                                self.active = Some((e.name.clone(), e.edge));
                                self.client_cursor = (cx as i32, cy as i32);
                                self.held_keys = Vec::new();
                            },
                        }
                    },
                }
            }
            assert(self@ =~= move_spec(v, x, y, cs@, conn@).0);
            assert(acts@ =~= move_spec(v, x, y, cs@, conn@).1);
            acts
        } else {
            let (name, edge) = match &self.active {
                Some(a) => (a.0.clone(), a.1),
                None => (String::new(), Edge::Left),
            };
            let old_sc = self.server_cursor;
            self.server_cursor = (x, y);
            match find_screen(conn, &name) {
                None => {
                    self.held_keys = Vec::new();
                    self.active = None;
                    acts.push(RouteAction::Release);
                    assert(self@ =~= move_spec(v, x, y, cs@, conn@).0);
                    assert(acts@ =~= move_spec(v, x, y, cs@, conn@).1);
                    acts
                },
                Some(j) => {
                    proof {
                        assert(conn@[j as int].1.width >= 1 && conn@[j as int].1.height >= 1);
                    }
                    let w = conn[j].1.width as i64;
                    let h = conn[j].1.height as i64;
                    let cx = clamp_i64(self.client_cursor.0 as i64 + (x as i64 - old_sc.0 as i64), 0, w - 1);
                    let cy = clamp_i64(self.client_cursor.1 as i64 + (y as i64 - old_sc.1 as i64), 0, h - 1);
                    self.client_cursor = (cx as i32, cy as i32);
                    let back = match edge {
                        Edge::Left => cx == w - 1,
                        Edge::Right => cx == 0,
                        Edge::Top => cy == h - 1,
                        Edge::Bottom => cy == 0,
                    };
                    if back {
                        acts = flush(cs, &name, &self.held_keys);
                        self.held_keys = Vec::new();
                        acts.push(RouteAction::Send { client: name.clone(), msg: S2C::LeaveScreen });
                        self.active = None;
                        acts.push(RouteAction::Release);
                    } else {
                        acts.push(
                            RouteAction::Send { client: name, msg: S2C::MouseMoveAbs { x: cx as u16, y: cy as u16 } },
                        );
                    }
                    assert(self@ =~= move_spec(v, x, y, cs@, conn@).0);
                    assert(acts@ =~= move_spec(v, x, y, cs@, conn@).1);
                    acts
                },
            }
        }
    }

    /// Handle one captured event: update the routing state and return, in
    /// order, the messages to deliver and whether to release the grab.
    ///
    /// `connected` lists each connected client with its primary screen.
    pub fn route(&mut self, event: RouteEvent, config: &Config, connected: &Vec<(String, ScreenInfo)>) -> (acts: Vec<
        RouteAction,
    >)
        requires
            valid(old(self)@),
            usable_screens(connected@),
        ensures
            final(self)@ == route_spec(old(self)@, event, config.clients@, connected@).0,
            acts@ == route_spec(old(self)@, event, config.clients@, connected@).1,
            valid(final(self)@),
    {
        let ghost v = self@;
        let cs = &config.clients;
        let acts = match event {
            RouteEvent::MouseMoveAbs { x, y } => self.on_move(x, y, cs, connected),
            RouteEvent::MouseButton { button, pressed } => self.forward(connected, S2C::MouseButton { button, pressed }),
            RouteEvent::Scroll { dx, dy } => self.forward(connected, S2C::Scroll { dx, dy }),
            RouteEvent::Key { keycode, pressed, modifiers } => {
                let mut acts: Vec<RouteAction> = Vec::new();
                if let Some(a) = &self.active {
                    let name = a.0.clone();
                    if pressed {
                        if !held_contains(&self.held_keys, keycode) {
                            self.held_keys.push(keycode);
                        }
                    } else {
                        self.held_keys = held_without(&self.held_keys, keycode);
                    }
                    if find_screen(connected, &name).is_some() {
                        let code = remap_for_client(cs, &name, keycode);
                        acts.push(RouteAction::Send { client: name, msg: S2C::KeyEvent { keycode: code, pressed, modifiers } });
                    }
                }
                assert(self@ =~= route_spec(v, event, cs@, connected@).0);
                assert(acts@ =~= route_spec(v, event, cs@, connected@).1);
                acts
            },
        };
        acts
    }

    fn forward(&self, conn: &Vec<(String, ScreenInfo)>, msg: S2C) -> (acts: Vec<RouteAction>)
        ensures
            acts@ == forward(self@, conn@, msg),
    {
        let mut acts: Vec<RouteAction> = Vec::new();
        if let Some(a) = &self.active {
            if find_screen(conn, &a.0).is_some() {
                acts.push(RouteAction::Send { client: a.0.clone(), msg });
            }
        }
        assert(acts@ =~= forward(self@, conn@, msg));
        acts
    }
}

/// The release of `key` that a flush sends to `name`.
pub open spec fn release_of(cs: Seq<ClientEntry>, name: String, key: u32) -> RouteAction {
    RouteAction::Send {
        client: name,
        msg: S2C::KeyEvent { keycode: remap_for(cs, name@, key), pressed: false, modifiers: no_modifiers() },
    }
}

/// The entry found for an edge is configured on that edge.
proof fn lemma_entry_for_edge_is_on_edge(cs: Seq<ClientEntry>, edge: Edge)
    ensures
        entry_for_edge(cs, edge) matches Some(e) ==> e.edge == edge,
    decreases cs.len(),
{
    if cs.len() > 0 && cs[0].edge != edge {
        lemma_entry_for_edge_is_on_edge(cs.drop_first(), edge);
    }
}

/// A screen found among usable screens has pixels.
proof fn lemma_screen_of_usable(conn: Seq<(String, ScreenInfo)>, name: Seq<char>)
    requires
        usable_screens(conn),
    ensures
        screen_of(conn, name) matches Some(s) ==> s.width >= 1 && s.height >= 1,
    decreases conn.len(),
{
    if conn.len() > 0 && conn[0].0@ != name {
        let rest = conn.drop_first();
        assert forall|i: int| 0 <= i < rest.len() implies (#[trigger] rest[i]).1.width >= 1 && rest[i].1.height >= 1 by {
            assert(rest[i] == conn[i + 1]);
        }
        lemma_screen_of_usable(rest, name);
    }
}

/// While a client has the cursor, it gives the cursor back exactly when the
/// move carries the client cursor onto (or past) the client's edge that
/// faces the server: the bottom row for a client above the server (entered
/// through the top edge), the top row for one below, the right column for
/// one on the left, the left column for one on the right. (A screen one
/// pixel across has its facing column everywhere, so it always gives the
/// cursor back.)
pub proof fn lemma_returns_through_facing_edge(
    v: RouterView,
    x: i32,
    y: i32,
    cs: Seq<ClientEntry>,
    conn: Seq<(String, ScreenInfo)>,
)
    requires
        v.active is Some,
        screen_of(conn, (v.active->0).0@) is Some,
        screen_of(conn, (v.active->0).0@)->0.width >= 1,
        screen_of(conn, (v.active->0).0@)->0.height >= 1,
    ensures
        ({
            let scr = screen_of(conn, (v.active->0).0@)->0;
            let nx = v.client_cursor.0 + (x - v.server_cursor.0);
            let ny = v.client_cursor.1 + (y - v.server_cursor.1);
            let back = match (v.active->0).1 {
                Edge::Top => ny >= scr.height - 1 || scr.height == 1,
                Edge::Bottom => ny <= 0 || scr.height == 1,
                Edge::Left => nx >= scr.width - 1 || scr.width == 1,
                Edge::Right => nx <= 0 || scr.width == 1,
            };
            move_spec(v, x, y, cs, conn).0.active is None <==> back
        }),
{
    let name = (v.active->0).0;
    let edge = (v.active->0).1;
    let scr = screen_of(conn, name@)->0;
    let cx = clamp(v.client_cursor.0 + (x - v.server_cursor.0), 0, scr.width - 1);
    let cy = clamp(v.client_cursor.1 + (y - v.server_cursor.1), 0, scr.height - 1);
    let r = move_spec(v, x, y, cs, conn);
    let nx = v.client_cursor.0 + (x - v.server_cursor.0);
    let ny = v.client_cursor.1 + (y - v.server_cursor.1);
    assert(cx == scr.width - 1 <==> (nx >= scr.width - 1 || scr.width == 1));
    assert(cx == 0 <==> (nx <= 0 || scr.width == 1));
    assert(cy == scr.height - 1 <==> (ny >= scr.height - 1 || scr.height == 1));
    assert(cy == 0 <==> (ny <= 0 || scr.height == 1));
    if at_return_edge(edge, scr, cx, cy) {
        assert(r.0.active is None);
    } else {
        assert(r.0.active == Some((name, edge)));
    }
}

/// Crossing into a client lands the cursor on the client's edge that faces
/// the server, so a following move that leaves the server cursor where it
/// is hands the cursor straight back.
pub proof fn lemma_crossing_lands_on_return_edge(
    v: RouterView,
    x: i32,
    y: i32,
    cs: Seq<ClientEntry>,
    conn: Seq<(String, ScreenInfo)>,
)
    requires
        v.active is None,
        usable_screens(conn),
        move_spec(v, x, y, cs, conn).0.active is Some,
    ensures
        ({
            let entered = move_spec(v, x, y, cs, conn).0;
            move_spec(entered, x, y, cs, conn).0.active is None
        }),
{
    let edge = crossed_spec(v.monitors, x as int, y as int)->0;
    let e = entry_for_edge(cs, edge)->0;
    lemma_entry_for_edge_is_on_edge(cs, edge);
    lemma_screen_of_usable(conn, e.name@);
    let scr = screen_of(conn, e.name@)->0;
    let entered = move_spec(v, x, y, cs, conn).0;
    assert(entered.active == Some((e.name, e.edge)));
    assert(entered.server_cursor == (x, y));
    lemma_returns_through_facing_edge(entered, x, y, cs, conn);
}

/// When the cursor comes back to the server, every key still held on the
/// client is released (under the client's remap) before the client is told
/// to leave, the grab is released last, and no key stays held. The releases
/// are one per held key, in the order the keys were pressed, and no key is
/// held twice, so each is released exactly once.
pub proof fn lemma_return_releases_held_keys(
    v: RouterView,
    x: i32,
    y: i32,
    cs: Seq<ClientEntry>,
    conn: Seq<(String, ScreenInfo)>,
    key: u32,
)
    requires
        valid(v),
        v.active is Some,
        screen_of(conn, (v.active->0).0@) is Some,
        move_spec(v, x, y, cs, conn).0.active is None,
        v.held.contains(key),
    ensures
        ({
            let (after, acts) = move_spec(v, x, y, cs, conn);
            let name = (v.active->0).0;
            &&& after.held.len() == 0
            &&& acts.len() >= 2
            &&& acts[acts.len() - 2] == (RouteAction::Send { client: name, msg: S2C::LeaveScreen })
            &&& acts[acts.len() - 1] == RouteAction::Release
            &&& exists|i: int| 0 <= i < acts.len() - 2 && #[trigger] acts[i] == release_of(cs, name, key)
            &&& acts.len() == v.held.len() + 2
            &&& v.held.no_duplicates()
            &&& forall|i: int| 0 <= i < v.held.len() ==> #[trigger] acts[i] == release_of(cs, name, v.held[i])
        }),
{
    let name = (v.active->0).0;
    let acts = move_spec(v, x, y, cs, conn).1;
    let fl = flush_actions(cs, name, v.held);
    let i = choose|i: int| 0 <= i < v.held.len() && v.held[i] == key;
    assert(fl[i] == release_of(cs, name, key));
    assert(acts[i] == fl[i]);
}

/// While the server owns the cursor, buttons, scrolling and keys go nowhere
/// and change nothing.
pub proof fn lemma_server_focus_forwards_nothing(
    v: RouterView,
    ev: RouteEvent,
    cs: Seq<ClientEntry>,
    conn: Seq<(String, ScreenInfo)>,
)
    requires
        v.active is None,
        !(ev is MouseMoveAbs),
    ensures
        route_spec(v, ev, cs, conn).0 == v,
        route_spec(v, ev, cs, conn).1.len() == 0,
{
}

/// Motion while a client owns the cursor keeps the client cursor on that
/// client's screen.
pub proof fn lemma_client_cursor_stays_on_screen(
    v: RouterView,
    x: i32,
    y: i32,
    cs: Seq<ClientEntry>,
    conn: Seq<(String, ScreenInfo)>,
)
    requires
        v.active is Some,
        screen_of(conn, (v.active->0).0@) is Some,
        screen_of(conn, (v.active->0).0@)->0.width >= 1,
        screen_of(conn, (v.active->0).0@)->0.height >= 1,
    ensures
        ({
            let scr = screen_of(conn, (v.active->0).0@)->0;
            let c = move_spec(v, x, y, cs, conn).0.client_cursor;
            0 <= c.0 < scr.width && 0 <= c.1 < scr.height
        }),
{
}

/// Every message the router sends is addressed to the client that owns the
/// cursor before the event, or to the one that takes it over.
pub proof fn lemma_sends_only_to_focused_client(
    v: RouterView,
    ev: RouteEvent,
    cs: Seq<ClientEntry>,
    conn: Seq<(String, ScreenInfo)>,
    i: int,
)
    requires
        0 <= i < route_spec(v, ev, cs, conn).1.len(),
        route_spec(v, ev, cs, conn).1[i] is Send,
    ensures
        ({
            let client = route_spec(v, ev, cs, conn).1[i]->client;
            let after = route_spec(v, ev, cs, conn).0;
            (v.active matches Some(a) && a.0 == client) || (after.active matches Some(a) && a.0 == client)
        }),
{
    match ev {
        RouteEvent::MouseMoveAbs { x, y } => {
            if v.active is Some {
                let name = (v.active->0).0;
                let acts = route_spec(v, ev, cs, conn).1;
                if screen_of(conn, name@) is Some {
                    let scr = screen_of(conn, name@)->0;
                    let cx = clamp(v.client_cursor.0 + (x - v.server_cursor.0), 0, scr.width - 1);
                    let cy = clamp(v.client_cursor.1 + (y - v.server_cursor.1), 0, scr.height - 1);
                    if at_return_edge((v.active->0).1, scr, cx, cy) {
                        let fl = flush_actions(cs, name, v.held);
                        if i < fl.len() {
                            assert(acts[i] == fl[i]);
                        }
                    }
                }
            }
        },
        _ => {},
    }
}

/// A sequence whose every element passes `p` is its own filter.
proof fn lemma_filter_keeps_all(s: Seq<u32>, p: spec_fn(u32) -> bool)
    requires
        forall|i: int| 0 <= i < s.len() ==> p(#[trigger] s[i]),
    ensures
        s.filter(p) == s,
    decreases s.len(),
{
    reveal(Seq::filter);
    if s.len() > 0 {
        lemma_filter_keeps_all(s.drop_last(), p);
        assert(s.drop_last().push(s.last()) =~= s);
    }
}

/// Pressing a key on the client that owns the cursor and then releasing
/// it leaves the held keys as they were before the press.
pub proof fn lemma_press_then_release_restores_held(
    v: RouterView,
    key: u32,
    m1: Modifiers,
    m2: Modifiers,
    cs: Seq<ClientEntry>,
    conn: Seq<(String, ScreenInfo)>,
)
    requires
        valid(v),
        v.active is Some,
        !v.held.contains(key),
    ensures
        ({
            let v1 = route_spec(v, RouteEvent::Key { keycode: key, pressed: true, modifiers: m1 }, cs, conn).0;
            let v2 = route_spec(v1, RouteEvent::Key { keycode: key, pressed: false, modifiers: m2 }, cs, conn).0;
            v2 == v
        }),
{
    let v1 = route_spec(v, RouteEvent::Key { keycode: key, pressed: true, modifiers: m1 }, cs, conn).0;
    assert(v1.held == v.held.push(key));
    v.held.lemma_filter_push(key, other_than(key));
    lemma_filter_keeps_all(v.held, other_than(key));
    let v2 = route_spec(v1, RouteEvent::Key { keycode: key, pressed: false, modifiers: m2 }, cs, conn).0;
    assert(v2.held == v.held);
    assert(v2 =~= v);
}

/// The name of an edge, as shown in state dumps.
pub open spec fn edge_name(e: Edge) -> Seq<char> {
    match e {
        Edge::Left => seq!['L', 'e', 'f', 't'],
        Edge::Right => seq!['R', 'i', 'g', 'h', 't'],
        Edge::Top => seq!['T', 'o', 'p'],
        Edge::Bottom => seq!['B', 'o', 't', 't', 'o', 'm'],
    }
}

/// The name of an edge, as shown in state dumps.
pub fn edge_label(e: Edge) -> (r: String)
    ensures
        r@ == edge_name(e),
{
    let mut s = String::new();
    match e {
        Edge::Left => {
            s.push('L');
            s.push('e');
            s.push('f');
            s.push('t');
        },
        Edge::Right => {
            s.push('R');
            s.push('i');
            s.push('g');
            s.push('h');
            s.push('t');
        },
        Edge::Top => {
            s.push('T');
            s.push('o');
            s.push('p');
        },
        Edge::Bottom => {
            s.push('B');
            s.push('o');
            s.push('t');
            s.push('t');
            s.push('o');
            s.push('m');
        },
    }
    assert(s@ =~= edge_name(e));
    s
}

/// `s` is the hex label of some key in `held`.
pub open spec fn labels_a_held_key(held: Seq<u32>, s: Seq<char>) -> bool {
    exists|k: u32| held.contains(k) && s == hex_label(k as nat)
}

/// A copy of a list of screens.
fn copy_screens(v: &Vec<ScreenInfo>) -> (r: Vec<ScreenInfo>)
    ensures
        r@ == v@,
{
    let mut r: Vec<ScreenInfo> = Vec::new();
    let mut i: usize = 0;
    while i < v.len()
        invariant
            0 <= i <= v@.len(),
            r@ == v@.take(i as int),
        decreases v@.len() - i,
    {
        r.push(v[i].duplicate());
        assert(v@.take(i + 1) =~= v@.take(i as int).push(v@[i as int]));
        i = i + 1;
    }
    assert(v@.take(v@.len() as int) =~= v@);
    r
}

/// The hex labels of `held`, in the same order.
fn held_labels(held: &Vec<u32>) -> (r: Vec<String>)
    ensures
        r@.len() == held@.len(),
        forall|i: int| 0 <= i < held@.len() ==> (#[trigger] r@[i])@ == hex_label(held@[i] as nat),
{
    let mut r: Vec<String> = Vec::new();
    let mut i: usize = 0;
    while i < held.len()
        invariant
            0 <= i <= held@.len(),
            r@.len() == i,
            forall|j: int| 0 <= j < i ==> (#[trigger] r@[j])@ == hex_label(held@[j] as nat),
        decreases held@.len() - i,
    {
        r.push(hex_string(held[i] as u64));
        i = i + 1;
    }
    r
}

impl Router {
    /// The routing state for a dump: the active client and the name of its
    /// edge, both cursors, the held keys as sorted hex labels, and the server
    /// monitors.
    pub fn snapshot(&self) -> (r: RouteSnapshot)
        ensures
            r.active_client == (match self@.active {
                Some(a) => Some(a.0),
                None => None::<String>,
            }),
            r.active_edge is Some <==> self@.active is Some,
            r.active_edge matches Some(l) ==> l@ == edge_name((self@.active->0).1),
            r.server_cursor == self@.server_cursor,
            r.client_cursor == self@.client_cursor,
            r.held_keys@.len() == self@.held.len(),
            lex_sorted(r.held_keys@),
            forall|k: u32| #[trigger] self@.held.contains(k) ==> exists|i: int|
                0 <= i < r.held_keys@.len() && (#[trigger] r.held_keys@[i])@ == hex_label(k as nat),
            forall|i: int| 0 <= i < r.held_keys@.len() ==> labels_a_held_key(self@.held, (#[trigger] r.held_keys@[i])@),
            r.monitor_count == self@.monitors.len(),
            r.server_screens@ == self@.monitors,
    {
        broadcast use vstd::seq_lib::to_multiset_contains, vstd::seq_lib::to_multiset_len;
        let labels = held_labels(&self.held_keys);
        let sorted = sort_strings(&labels);
        proof {
            assert(sorted@.to_multiset().len() == labels@.to_multiset().len());
            assert(sorted@.len() == labels@.len());
            assert forall|k: u32| #[trigger] self@.held.contains(k) implies exists|i: int|
                0 <= i < sorted@.len() && (#[trigger] sorted@[i])@ == hex_label(k as nat) by {
                let j = choose|j: int| 0 <= j < self@.held.len() && self@.held[j] == k;
                assert(labels@.contains(labels@[j]));
                assert(labels@.to_multiset().count(labels@[j]) > 0);
                assert(sorted@.contains(labels@[j]));
                let i = choose|i: int| 0 <= i < sorted@.len() && sorted@[i] == labels@[j];
                assert(sorted@[i]@ == hex_label(k as nat));
            }
            assert forall|i: int| 0 <= i < sorted@.len() implies labels_a_held_key(self@.held, (#[trigger] sorted@[i])@) by {
                assert(sorted@.contains(sorted@[i]));
                assert(sorted@.to_multiset().count(sorted@[i]) > 0);
                assert(labels@.contains(sorted@[i]));
                let j = choose|j: int| 0 <= j < labels@.len() && labels@[j] == sorted@[i];
                assert(labels@[j]@ == hex_label(self@.held[j] as nat));
                assert(self@.held.contains(self@.held[j]));
                assert(sorted@[i]@ == hex_label(self@.held[j] as nat));
            }
        }
        let active_client = match &self.active {
            Some(a) => Some(a.0.clone()),
            None => None,
        };
        let active_edge = match &self.active {
            Some(a) => Some(edge_label(a.1)),
            None => None,
        };
        RouteSnapshot {
            active_client,
            active_edge,
            server_cursor: self.server_cursor,
            client_cursor: self.client_cursor,
            held_keys: sorted,
            monitor_count: self.layout.monitor_count(),
            server_screens: copy_screens(self.layout.screens()),
        }
    }
}

} // verus!
