use wayflow::config::{ClientEntry, Config, Edge, ServerConfig};
use wayflow::proto::{ClipboardContent, HelloC2S, ScreenInfo, C2S, PROTOCOL_VERSION, S2C};
use wayflow::session::{client_step, clipboard_recipients, handshake, ClientStep, HandshakeError};

fn test_config() -> Config {
    let entry = |name: &str, edge| ClientEntry { name: name.into(), edge, offset: 0, modifier_map: Vec::new() };
    Config {
        server: ServerConfig { name: "server".into(), port: 24800 },
        clients: vec![entry("known-client", Edge::Right), entry("other-client", Edge::Left), entry("c", Edge::Bottom)],
    }
}

fn screen(name: &str, w: u16, h: u16) -> ScreenInfo {
    ScreenInfo { name: name.into(), x: 0, y: 0, width: w, height: h }
}

fn hello(version: u32, name: &str, screens: Vec<ScreenInfo>) -> C2S {
    C2S::Hello(HelloC2S { version, name: name.into(), screens })
}

#[test]
fn handshake_happy_path_known_client() {
    let a = handshake(hello(PROTOCOL_VERSION, "known-client", vec![screen("known-client", 1920, 1080)]), &test_config())
        .unwrap();
    assert_eq!(a.name, "known-client");
    assert_eq!(a.screen, screen("known-client", 1920, 1080));
    match a.reply {
        S2C::Hello(h) => {
            assert_eq!(h.version, PROTOCOL_VERSION);
            assert_eq!(h.screens.len(), 2);
            assert_eq!(h.screens[0], screen("server", 1920, 1080));
            assert_eq!(h.screens[1], screen("known-client", 1920, 1080));
        }
        other => panic!("expected a greeting, got {other:?}"),
    }
}

#[test]
fn handshake_unknown_client_is_rejected() {
    let r = handshake(hello(PROTOCOL_VERSION, "unknown", vec![]), &test_config());
    assert_eq!(r, Err(HandshakeError::UnknownClient { name: "unknown".into() }));
}

#[test]
fn handshake_version_mismatch_errors() {
    let r = handshake(hello(PROTOCOL_VERSION + 1, "client", vec![]), &test_config());
    assert_eq!(
        r,
        Err(HandshakeError::VersionMismatch { client: PROTOCOL_VERSION + 1, server: PROTOCOL_VERSION })
    );
}

#[test]
fn handshake_wrong_first_message_errors() {
    assert_eq!(handshake(C2S::Pong, &test_config()), Err(HandshakeError::ExpectedHello));
}

#[test]
fn handshake_without_screens_assumes_1080p() {
    let a = handshake(hello(PROTOCOL_VERSION, "c", vec![]), &test_config()).unwrap();
    assert_eq!(a.screen, screen("c", 1920, 1080));
    match a.reply {
        S2C::Hello(h) => assert_eq!(h.screens, vec![screen("server", 1920, 1080)]),
        other => panic!("expected a greeting, got {other:?}"),
    }
}

#[test]
fn handshake_rejects_empty_screen() {
    let r = handshake(hello(PROTOCOL_VERSION, "c", vec![screen("c", 0, 1080)]), &test_config());
    assert_eq!(r, Err(HandshakeError::InvalidScreen { width: 0, height: 1080 }));
    let r = handshake(hello(PROTOCOL_VERSION, "c", vec![screen("c", 800, 0)]), &test_config());
    assert_eq!(r, Err(HandshakeError::InvalidScreen { width: 800, height: 0 }));
}

#[test]
fn pong_is_handled_silently() {
    assert_eq!(client_step(C2S::Pong), ClientStep::Nothing);
}

#[test]
fn unexpected_re_hello_is_handled() {
    assert_eq!(client_step(hello(PROTOCOL_VERSION, "c", vec![])), ClientStep::UnexpectedHello);
}

#[test]
fn clipboard_is_fanned_out_to_other_clients() {
    let content = ClipboardContent::Text("shared text".into());
    assert_eq!(client_step(C2S::ClipboardData(content.clone())), ClientStep::ShareClipboard(content));
    let connected = vec!["known-client".to_string(), "other-client".to_string()];
    assert_eq!(clipboard_recipients(&"known-client".to_string(), &connected), vec!["other-client".to_string()]);
}

#[test]
fn clipboard_goes_to_nobody_when_alone() {
    let connected = vec!["c".to_string()];
    assert!(clipboard_recipients(&"c".to_string(), &connected).is_empty());
}

#[test]
fn layout_update_replaces_the_primary_screen() {
    let step = client_step(C2S::ScreenLayoutUpdate { screens: vec![screen("c", 2560, 1440), screen("c2", 10, 10)] });
    assert_eq!(step, ClientStep::UpdateScreen(screen("c", 2560, 1440)));
}

#[test]
fn layout_update_with_empty_screen_is_ignored() {
    let step = client_step(C2S::ScreenLayoutUpdate { screens: vec![screen("c", 0, 1440)] });
    assert_eq!(step, ClientStep::InvalidScreen { width: 0, height: 1440 });
    assert_eq!(client_step(C2S::ScreenLayoutUpdate { screens: vec![] }), ClientStep::Nothing);
}

#[test]
fn clipboard_goes_to_each_other_client_once() {
    let connected = vec!["a".to_string(), "b".to_string(), "c".to_string()];
    assert_eq!(clipboard_recipients(&"b".to_string(), &connected), vec!["a".to_string(), "c".to_string()]);
}
