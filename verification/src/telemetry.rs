//! Runtime counters and a snapshot of the routing state, for on-demand dumps.
use vstd::prelude::*;
use std::sync::atomic::{AtomicU64, Ordering};
use crate::proto::ScreenInfo;

verus! {

/// Counters bumped by the server's tasks while it runs.
pub struct Telemetry {
    /// Input events dropped because the routing loop could not drain its channel.
    pub input_events_dropped_full: AtomicU64,
    /// Input events dropped because the routing loop was gone.
    pub input_events_dropped_closed: AtomicU64,
    /// Sends to a client's write task that took longer than the slow-send threshold.
    pub s2c_slow_sends: AtomicU64,
    /// State dumps written.
    pub dumps_emitted: AtomicU64,
}

/// The counters' values at one moment.
#[derive(Debug, Clone, Copy, PartialEq, Eq, Structural)]
pub struct TelemetryView {
    pub input_events_dropped_full: u64,
    pub input_events_dropped_closed: u64,
    pub s2c_slow_sends: u64,
    pub dumps_emitted: u64,
}

impl Default for Telemetry {
    /// All counters at zero.
    fn default() -> (r: Telemetry) {
        Telemetry {
            input_events_dropped_full: AtomicU64::new(0),
            input_events_dropped_closed: AtomicU64::new(0),
            s2c_slow_sends: AtomicU64::new(0),
            dumps_emitted: AtomicU64::new(0),
        }
    }
}

impl Telemetry {
    /// Read every counter. Other tasks may bump them concurrently, so each
    /// value is whatever the counter held when it was read.
    pub fn snapshot(&self) -> (r: TelemetryView) {
        TelemetryView {
            input_events_dropped_full: self.input_events_dropped_full.load(Ordering::Relaxed),
            input_events_dropped_closed: self.input_events_dropped_closed.load(Ordering::Relaxed),
            s2c_slow_sends: self.s2c_slow_sends.load(Ordering::Relaxed),
            dumps_emitted: self.dumps_emitted.load(Ordering::Relaxed),
        }
    }
}

/// The routing state at one moment.
#[derive(Debug, PartialEq, Eq)]
pub struct RouteSnapshot {
    pub active_client: Option<String>,
    pub active_edge: Option<String>,
    pub server_cursor: (i32, i32),
    pub client_cursor: (i32, i32),
    /// HID keycodes held on the active client, as hex strings (e.g. "0xE2"),
    /// in lexicographic order.
    pub held_keys: Vec<String>,
    pub monitor_count: usize,
    pub server_screens: Vec<ScreenInfo>,
}

impl Default for RouteSnapshot {
    /// No active client, both cursors at the origin, nothing held, no monitors.
    fn default() -> (r: RouteSnapshot)
        ensures
            r.active_client is None,
            r.active_edge is None,
            r.server_cursor == (0i32, 0i32),
            r.client_cursor == (0i32, 0i32),
            r.held_keys@.len() == 0,
            r.monitor_count == 0,
            r.server_screens@.len() == 0,
    {
        RouteSnapshot {
            active_client: None,
            active_edge: None,
            server_cursor: (0, 0),
            client_cursor: (0, 0),
            held_keys: Vec::new(),
            monitor_count: 0,
            server_screens: Vec::new(),
        }
    }
}

} // verus!
