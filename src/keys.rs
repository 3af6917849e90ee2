//! Terminal input events, as the state machine reads them.
use vstd::prelude::*;

verus! {

/// A key press.
#[derive(Debug, Clone, Copy, PartialEq, Eq, Structural)]
pub enum Key {
    Char(char),
    Enter,
    Esc,
    Tab,
    Backspace,
    Delete,
    Left,
    Right,
    Up,
    Down,
    Home,
    End,
    PageUp,
    PageDown,
    Other,
}

/// A mouse event, reduced to what scrolling needs.
#[derive(Debug, Clone, Copy, PartialEq, Eq, Structural)]
pub enum MouseKind {
    ScrollUp,
    ScrollDown,
    Other,
}

/// What the input source hands the main loop.
#[derive(Debug, Clone, Copy, PartialEq, Eq, Structural)]
pub enum AppEvent {
    Quit,
    Key(Key),
    Mouse(MouseKind),
    Tick,
}

/// How long the input source waits for input before reporting a tick.
pub const POLL_INTERVAL_MS: u64 = 100;

/// The input source: polls the terminal with a bounded wait.
#[derive(Debug, Clone, Copy, PartialEq, Eq)]
pub struct EventHandler {
    pub poll_interval_ms: u64,
}

impl EventHandler {
    pub fn new() -> (r: EventHandler)
        ensures
            r.poll_interval_ms == POLL_INTERVAL_MS,
    {
        EventHandler { poll_interval_ms: POLL_INTERVAL_MS }
    }
}

} // verus!
