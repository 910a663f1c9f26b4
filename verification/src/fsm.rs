//! The actions that hotkeys hand to the daemon's state machine.
use vstd::prelude::*;

verus! {

#[derive(Debug, Clone, Copy, PartialEq, Eq, Structural)]
pub enum HotkeyAction {
    /// The dictation key: starts a recording, or stops the one in flight.
    TogglePressed,
    /// The assistant key: starts an assistant turn, or stops it.
    AssistantPressed,
    /// The cancel key: drops what is in flight.
    CancelPressed,
}

} // verus!
