//! Keyboard and mouse sharing over the network: the verified core.
//!
//! Wire types, screen layout and edge detection, keycode conversion tables,
//! message framing, the server's routing state machine, the client's session
//! logic and the capture helpers, each with its contract.
pub mod text;
pub mod proto;
pub mod config;
pub mod layout;
pub mod keymap;
pub mod keymap_mac;
pub mod frame;
pub mod host;
pub mod capture;
pub mod client;
pub mod router;
pub mod session;
pub mod telemetry;
pub mod wlr_capture;
pub mod rdev_capture;
pub mod clipboard;
pub mod probe;
pub mod tray;
pub mod inject_mac;
pub mod tls;
