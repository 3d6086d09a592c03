//! Wire types exchanged between server and clients.
//!
//! Keycodes on the wire are USB HID usage codes (keyboard page 0x07); each
//! platform converts to and from its native representation.
use vstd::prelude::*;

verus! {

/// Bumped on any change to the serialized form of these types.
pub const PROTOCOL_VERSION: u32 = 1;

/// One display rectangle in a machine's global coordinate space.
#[derive(Debug, Clone, PartialEq, Eq)]
pub struct ScreenInfo {
    pub name: String,
    pub x: i32,
    pub y: i32,
    pub width: u16,
    pub height: u16,
}

impl ScreenInfo {
    /// A copy with the same name and geometry.
    pub fn duplicate(&self) -> (r: ScreenInfo)
        ensures
            r == *self,
    {
        ScreenInfo { name: self.name.clone(), x: self.x, y: self.y, width: self.width, height: self.height }
    }
}

/// Modifier keys held while a key event was produced.
#[derive(Debug, Clone, Copy, PartialEq, Eq, Structural)]
pub struct Modifiers {
    pub shift: bool,
    pub ctrl: bool,
    pub alt: bool,
    pub meta: bool,
}

impl Default for Modifiers {
    fn default() -> (r: Modifiers)
        ensures
            r == (Modifiers { shift: false, ctrl: false, alt: false, meta: false }),
    {
        Modifiers { shift: false, ctrl: false, alt: false, meta: false }
    }
}

/// The modifier state with nothing held.
pub open spec fn no_modifiers() -> Modifiers {
    Modifiers { shift: false, ctrl: false, alt: false, meta: false }
}

#[derive(Debug, Clone, Copy, PartialEq, Eq, Structural)]
pub enum MouseButton {
    Left,
    Right,
    Middle,
    Back,
    Forward,
    Other(u8),
}

#[derive(Debug, Clone, PartialEq, Eq)]
pub struct ClipboardImage {
    pub width: u32,
    pub height: u32,
    pub rgba: Vec<u8>,
}

#[derive(Debug, Clone, PartialEq, Eq)]
pub enum ClipboardContent {
    Text(String),
    Image(ClipboardImage),
}

/// Client greeting: protocol version, the client's name and its screens.
#[derive(Debug, Clone, PartialEq, Eq)]
pub struct HelloC2S {
    pub version: u32,
    pub name: String,
    pub screens: Vec<ScreenInfo>,
}

/// Server greeting: protocol version and every screen the server knows.
#[derive(Debug, Clone, PartialEq, Eq)]
pub struct HelloS2C {
    pub version: u32,
    pub screens: Vec<ScreenInfo>,
}

/// Client-to-server messages.
#[derive(Debug, Clone, PartialEq, Eq)]
pub enum C2S {
    Hello(HelloC2S),
    Pong,
    ClipboardData(ClipboardContent),
    ScreenLayoutUpdate { screens: Vec<ScreenInfo> },
}

/// Server-to-client messages.
#[derive(Debug, Clone, PartialEq, Eq)]
pub enum S2C {
    Hello(HelloS2C),
    EnterScreen { x: u16, y: u16 },
    LeaveScreen,
    MouseMoveAbs { x: u16, y: u16 },
    MouseButton { button: MouseButton, pressed: bool },
    Scroll { dx: i16, dy: i16 },
    KeyEvent { keycode: u32, pressed: bool, modifiers: Modifiers },
    ClipboardData(ClipboardContent),
    Ping,
}

/// Which capture backend produced a raw probe event.
#[derive(Debug, Clone, Copy, PartialEq, Eq, Structural)]
pub enum Platform {
    MacOs,
    Windows,
    Linux,
}

/// A Windows low-level hook callback, flattened.
#[derive(Debug, Clone, PartialEq, Eq)]
pub struct WindowsEvent {
    pub message: u32,
    pub hook_time: u32,
    pub extra_info: u64,
    pub flags: u32,
    pub vk_code: Option<u32>,
    pub scan_code: Option<u32>,
    pub point: Option<[i32; 2]>,
    pub mouse_data: Option<u32>,
}

/// One `input_event` from an evdev device.
#[derive(Debug, Clone, PartialEq, Eq)]
pub struct LinuxEvent {
    pub device: String,
    pub ev_type: u16,
    pub code: u16,
    pub value: i32,
    pub ev_time_us: u64,
}

/// `EV_SYN`, the evdev event type of frame delimiters.
pub const EV_SYN: u16 = 0;

impl LinuxEvent {
    /// Whether this event is an `EV_SYN` delimiter.
    pub fn is_syn(&self) -> (r: bool)
        ensures
            r == (self.ev_type == EV_SYN),
    {
        self.ev_type == EV_SYN
    }
}

} // verus!
