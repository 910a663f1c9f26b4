//! What every hotkey listener is given: bindings, controls, held keys.
use vstd::prelude::*;

verus! {

/// A key held at least this long, in milliseconds, is a push-to-talk hold.
pub const LONG_PRESS_THRESHOLD_MS: u64 = 500;

/// The configured bindings, as written in the configuration.
#[derive(Debug, Clone)]
pub struct HotkeyBindings {
    pub dictation: String,
    pub assistant: String,
    pub cancel: String,
}

/// What the daemon asks of a running listener.
#[derive(Debug, Clone, Copy, PartialEq, Eq, Structural)]
pub enum HotkeyControl {
    /// A recording or an assistant turn is in flight: grab the cancel key.
    EnableCancel,
    /// Nothing is in flight any more: let the cancel key go.
    DisableCancel,
}

/// Which of the toggle keys are physically down.
#[derive(Debug, Clone, Copy, PartialEq, Eq, Structural)]
pub struct KeyHeldFlags {
    pub dictation: bool,
    pub assistant: bool,
}

impl KeyHeldFlags {
    /// No key is down.
    pub fn new() -> (r: KeyHeldFlags)
        ensures
            !r.dictation,
            !r.assistant,
    {
        KeyHeldFlags { dictation: false, assistant: false }
    }
}

} // verus!
