use wayflow::config::{ClientEntry, Config, Edge, ServerConfig};
use wayflow::proto::{Modifiers, MouseButton, ScreenInfo, S2C};
use wayflow::router::{edge_label, RouteAction, RouteEvent, Router};

fn config_with(edge: Edge, modifier_map: Vec<(String, String)>) -> Config {
    Config {
        server: ServerConfig { name: "server".into(), port: 24800 },
        clients: vec![ClientEntry { name: "mac".into(), edge, offset: 0, modifier_map }],
    }
}

fn routing_config() -> Config {
    config_with(Edge::Right, Vec::new())
}

fn server_router() -> Router {
    Router::new(vec![ScreenInfo { name: "server".into(), x: 0, y: 0, width: 2560, height: 1440 }])
}

fn connected() -> Vec<(String, ScreenInfo)> {
    vec![("mac".into(), ScreenInfo { name: "mac".into(), x: 0, y: 0, width: 1920, height: 1080 })]
}

fn mv(x: i32, y: i32) -> RouteEvent {
    RouteEvent::MouseMoveAbs { x, y }
}

/// Everything sent to "mac", in order, across all the actions.
fn sent(actions: &[RouteAction]) -> Vec<S2C> {
    actions
        .iter()
        .filter_map(|a| match a {
            RouteAction::Send { client, msg } if client == "mac" => Some(msg.clone()),
            _ => None,
        })
        .collect()
}

fn run(router: &mut Router, cfg: &Config, conn: &Vec<(String, ScreenInfo)>, events: &[RouteEvent]) -> Vec<RouteAction> {
    let mut all = Vec::new();
    for e in events {
        all.extend(router.route(*e, cfg, conn));
    }
    all
}

#[test]
fn edge_crossing_sends_enter_screen() {
    let mut r = server_router();
    let acts = run(&mut r, &routing_config(), &connected(), &[mv(2559, 720)]);
    assert_eq!(sent(&acts), vec![S2C::EnterScreen { x: 0, y: 720 }]);
}

#[test]
fn no_enter_when_cursor_not_at_edge() {
    let mut r = server_router();
    let acts = run(&mut r, &routing_config(), &connected(), &[mv(1000, 720)]);
    assert!(acts.is_empty());
}

#[test]
fn mouse_move_forwarded_while_on_client() {
    let mut r = server_router();
    let acts = run(&mut r, &routing_config(), &connected(), &[mv(2559, 720), mv(2564, 730)]);
    let msgs = sent(&acts);
    assert_eq!(msgs[0], S2C::EnterScreen { x: 0, y: 720 });
    assert_eq!(msgs[1], S2C::MouseMoveAbs { x: 5, y: 730 });
}

#[test]
fn leave_screen_when_cursor_hits_client_left_edge() {
    let mut r = server_router();
    let acts = run(&mut r, &routing_config(), &connected(), &[mv(2559, 720), mv(2549, 720)]);
    let msgs = sent(&acts);
    assert_eq!(msgs[0], S2C::EnterScreen { x: 0, y: 720 });
    assert_eq!(msgs[1], S2C::LeaveScreen);
}

#[test]
fn key_forwarded_to_active_client() {
    let mut r = server_router();
    let shift = Modifiers { shift: true, ..Modifiers::default() };
    let acts = run(
        &mut r,
        &routing_config(),
        &connected(),
        &[mv(2559, 720), RouteEvent::Key { keycode: 65, pressed: true, modifiers: shift }],
    );
    let msgs = sent(&acts);
    assert_eq!(msgs[0], S2C::EnterScreen { x: 0, y: 720 });
    assert_eq!(msgs[1], S2C::KeyEvent { keycode: 65, pressed: true, modifiers: shift });
}

#[test]
fn button_forwarded_to_active_client() {
    let mut r = server_router();
    let acts = run(
        &mut r,
        &routing_config(),
        &connected(),
        &[mv(2559, 720), RouteEvent::MouseButton { button: MouseButton::Left, pressed: true }],
    );
    assert_eq!(sent(&acts)[1], S2C::MouseButton { button: MouseButton::Left, pressed: true });
}

#[test]
fn scroll_forwarded_to_active_client() {
    let mut r = server_router();
    let acts =
        run(&mut r, &routing_config(), &connected(), &[mv(2559, 720), RouteEvent::Scroll { dx: 3, dy: -2 }]);
    assert_eq!(sent(&acts)[1], S2C::Scroll { dx: 3, dy: -2 });
}

#[test]
fn events_not_forwarded_without_active_client() {
    let mut r = server_router();
    let acts = run(
        &mut r,
        &routing_config(),
        &connected(),
        &[
            RouteEvent::Key { keycode: 65, pressed: true, modifiers: Modifiers::default() },
            RouteEvent::MouseButton { button: MouseButton::Right, pressed: false },
            RouteEvent::Scroll { dx: 1, dy: 1 },
        ],
    );
    assert!(acts.is_empty());
}

#[test]
fn missing_client_in_config_no_enter() {
    let mut r = server_router();
    let acts = run(&mut r, &config_with(Edge::Left, Vec::new()), &connected(), &[mv(2559, 720)]);
    assert!(sent(&acts).is_empty());
}

#[test]
fn disconnected_client_releases_focus() {
    let mut r = server_router();
    let cfg = routing_config();
    let acts = run(&mut r, &cfg, &connected(), &[mv(2559, 720)]);
    assert_eq!(sent(&acts), vec![S2C::EnterScreen { x: 0, y: 720 }]);
    let gone: Vec<(String, ScreenInfo)> = Vec::new();
    let acts = r.route(mv(2560, 720), &cfg, &gone);
    assert_eq!(acts, vec![RouteAction::Release]);
    assert_eq!(r.snapshot().active_client, None);
}

#[test]
fn release_tx_fires_when_cursor_leaves_client() {
    let mut r = server_router();
    let acts = run(&mut r, &routing_config(), &connected(), &[mv(2559, 720), mv(2549, 720)]);
    assert_eq!(acts.last(), Some(&RouteAction::Release));
}

#[test]
fn release_tx_fires_when_no_client_at_edge() {
    let mut r = server_router();
    let acts = run(&mut r, &config_with(Edge::Left, Vec::new()), &connected(), &[mv(2559, 720)]);
    assert_eq!(acts, vec![RouteAction::Release]);
}

#[test]
fn release_fires_when_configured_client_is_not_connected() {
    let mut r = server_router();
    let nobody: Vec<(String, ScreenInfo)> = Vec::new();
    let acts = run(&mut r, &routing_config(), &nobody, &[mv(2559, 720)]);
    assert_eq!(acts, vec![RouteAction::Release]);
}

#[test]
fn held_keys_are_released_with_remap_before_leaving() {
    let remap = vec![("ctrl_left".to_string(), "meta_left".to_string())];
    let cfg = config_with(Edge::Right, remap);
    let mut r = server_router();
    let acts = run(
        &mut r,
        &cfg,
        &connected(),
        &[
            mv(2559, 720),
            RouteEvent::Key { keycode: 0xE0, pressed: true, modifiers: Modifiers::default() },
            RouteEvent::Key { keycode: 0x04, pressed: true, modifiers: Modifiers::default() },
            mv(2549, 720),
        ],
    );
    let msgs = sent(&acts);
    assert_eq!(msgs[1], S2C::KeyEvent { keycode: 0xE3, pressed: true, modifiers: Modifiers::default() });
    assert_eq!(msgs[2], S2C::KeyEvent { keycode: 0x04, pressed: true, modifiers: Modifiers::default() });
    assert_eq!(msgs[3], S2C::KeyEvent { keycode: 0xE3, pressed: false, modifiers: Modifiers::default() });
    assert_eq!(msgs[4], S2C::KeyEvent { keycode: 0x04, pressed: false, modifiers: Modifiers::default() });
    assert_eq!(msgs[5], S2C::LeaveScreen);
    assert_eq!(acts.last(), Some(&RouteAction::Release));
    assert!(r.snapshot().held_keys.is_empty());
}

#[test]
fn released_keys_are_not_flushed_again() {
    let mut r = server_router();
    let acts = run(
        &mut r,
        &routing_config(),
        &connected(),
        &[
            mv(2559, 720),
            RouteEvent::Key { keycode: 0x04, pressed: true, modifiers: Modifiers::default() },
            RouteEvent::Key { keycode: 0x04, pressed: false, modifiers: Modifiers::default() },
            mv(2549, 720),
        ],
    );
    let msgs = sent(&acts);
    assert_eq!(msgs.len(), 4);
    assert_eq!(msgs[3], S2C::LeaveScreen);
}

#[test]
fn client_cursor_is_clamped_to_the_client_screen() {
    let mut r = server_router();
    let acts = run(&mut r, &routing_config(), &connected(), &[mv(2559, 720), mv(12559, 5720)]);
    assert_eq!(sent(&acts)[1], S2C::MouseMoveAbs { x: 1919, y: 1079 });
    assert_eq!(r.snapshot().client_cursor, (1919, 1079));
    assert_eq!(r.snapshot().server_cursor, (12559, 5720));
}

#[test]
fn entering_through_the_left_edge_lands_on_the_far_side() {
    let mut r = server_router();
    let acts = run(&mut r, &config_with(Edge::Left, Vec::new()), &connected(), &[mv(0, 500)]);
    assert_eq!(sent(&acts), vec![S2C::EnterScreen { x: 1919, y: 500 }]);
    // The return edge of a client on the left is its right edge.
    let acts = run(&mut r, &config_with(Edge::Left, Vec::new()), &connected(), &[mv(10, 500)]);
    assert_eq!(sent(&acts), vec![S2C::LeaveScreen]);
}

#[test]
fn snapshot_lists_held_keys_as_sorted_hex() {
    let mut r = server_router();
    run(
        &mut r,
        &routing_config(),
        &connected(),
        &[
            mv(2559, 720),
            RouteEvent::Key { keycode: 0xE2, pressed: true, modifiers: Modifiers::default() },
            RouteEvent::Key { keycode: 0x04, pressed: true, modifiers: Modifiers::default() },
            RouteEvent::Key { keycode: 0x1F, pressed: true, modifiers: Modifiers::default() },
        ],
    );
    let s = r.snapshot();
    assert_eq!(s.held_keys, vec!["0x1F".to_string(), "0x4".to_string(), "0xE2".to_string()]);
    assert_eq!(s.active_client, Some("mac".to_string()));
    assert_eq!(s.active_edge, Some("Right".to_string()));
    assert_eq!(s.monitor_count, 1);
    assert_eq!(s.server_screens[0].width, 2560);
}

#[test]
fn edge_labels() {
    assert_eq!(edge_label(Edge::Left), "Left");
    assert_eq!(edge_label(Edge::Right), "Right");
    assert_eq!(edge_label(Edge::Top), "Top");
    assert_eq!(edge_label(Edge::Bottom), "Bottom");
}

#[test]
fn new_monitor_layout_moves_the_edge() {
    let mut r = server_router();
    r.set_monitors(vec![ScreenInfo { name: "s".into(), x: 0, y: 0, width: 1920, height: 1080 }]);
    let acts = run(&mut r, &routing_config(), &connected(), &[mv(1919, 500)]);
    assert_eq!(sent(&acts), vec![S2C::EnterScreen { x: 0, y: 500 }]);
}
