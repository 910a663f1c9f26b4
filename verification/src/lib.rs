//! Global hotkeys for the Fono voice daemon: which backend serves a desktop
//! session, how a configured binding becomes a Qt key combination, how presses
//! and releases turn into actions, and what is asked of KDE's KGlobalAccel.
pub mod detect;
pub mod fsm;
pub mod kde_kglobalaccel;
pub mod kde_strays;
pub mod listener;
pub mod parse;
pub mod qt_keys;
pub mod shortcut;
pub mod text;
