use std::time::{Duration, Instant};

use fono_hotkey::fsm::HotkeyAction;
use fono_hotkey::listener::{KeyHeldFlags, LONG_PRESS_THRESHOLD_MS};
use fono_hotkey::shortcut::{
    shortcut_role, PressTracker, Role, ALL, ASSISTANT, CANCEL, DICTATION,
};
use tokio::sync::mpsc;

fn channel() -> (mpsc::UnboundedSender<HotkeyAction>, mpsc::UnboundedReceiver<HotkeyAction>) {
    mpsc::unbounded_channel()
}

#[test]
fn a_tap_emits_one_action_and_a_release_emits_none() {
    let (mut tx, mut rx) = channel();
    let mut flags = KeyHeldFlags::new();
    let mut t = PressTracker::new("test");
    assert!(t.pressed(DICTATION, &mut flags, &mut tx));
    assert!(flags.dictation);
    assert!(t.released(DICTATION, &mut flags, &mut tx));
    assert!(!flags.dictation);
    assert_eq!(rx.try_recv().unwrap(), HotkeyAction::TogglePressed);
    assert!(rx.try_recv().is_err(), "a short press must not synthesise a stop");
}

#[test]
fn a_hold_synthesises_a_stop_on_release() {
    let (mut tx, mut rx) = channel();
    let mut flags = KeyHeldFlags::new();
    let mut t = PressTracker::new("test");
    assert!(t.pressed(ASSISTANT, &mut flags, &mut tx));
    // Backdate the press past the hold threshold.
    t.assistant_press_at =
        Instant::now().checked_sub(Duration::from_millis(LONG_PRESS_THRESHOLD_MS) * 2);
    assert!(t.released(ASSISTANT, &mut flags, &mut tx));
    assert_eq!(rx.try_recv().unwrap(), HotkeyAction::AssistantPressed);
    assert_eq!(rx.try_recv().unwrap(), HotkeyAction::AssistantPressed);
}

#[test]
fn cancel_fires_on_press_only() {
    let (mut tx, mut rx) = channel();
    let mut flags = KeyHeldFlags::new();
    let mut t = PressTracker::new("test");
    assert!(t.pressed(CANCEL, &mut flags, &mut tx));
    assert!(t.released(CANCEL, &mut flags, &mut tx));
    assert_eq!(rx.try_recv().unwrap(), HotkeyAction::CancelPressed);
    assert!(rx.try_recv().is_err());
}

#[test]
fn unknown_ids_are_ignored_without_tearing_down_the_listener() {
    let (mut tx, mut rx) = channel();
    let mut flags = KeyHeldFlags::new();
    let mut t = PressTracker::new("test");
    assert!(t.pressed("bogus", &mut flags, &mut tx));
    assert!(t.released("bogus", &mut flags, &mut tx));
    assert!(rx.try_recv().is_err());
}

#[test]
fn a_closed_channel_reports_shutdown() {
    let (mut tx, rx) = channel();
    drop(rx);
    let mut flags = KeyHeldFlags::new();
    let mut t = PressTracker::new("test");
    assert!(!t.pressed(DICTATION, &mut flags, &mut tx));
}

#[test]
fn a_press_on_a_closed_channel_is_still_recorded() {
    let (mut tx, rx) = channel();
    drop(rx);
    let mut flags = KeyHeldFlags::new();
    let mut t = PressTracker::new("test");
    assert!(!t.pressed(ASSISTANT, &mut flags, &mut tx));
    assert!(flags.assistant);
    assert!(t.assistant_press_at.is_some());
    // A tap has nothing to send, so its release does not notice.
    assert!(t.released(ASSISTANT, &mut flags, &mut tx));
    assert!(!flags.assistant);
}

#[test]
fn the_threshold_itself_is_a_hold() {
    let mut flags = KeyHeldFlags::new();
    let mut t = PressTracker::new("test");
    let edge = u128::from(LONG_PRESS_THRESHOLD_MS) * 1_000_000;
    assert_eq!(
        t.press_at(DICTATION, &mut flags, Instant::now()),
        Some(HotkeyAction::TogglePressed)
    );
    assert_eq!(t.release_after(DICTATION, &mut flags, edge - 1), None);
    t.press_at(DICTATION, &mut flags, Instant::now());
    assert_eq!(
        t.release_after(DICTATION, &mut flags, edge),
        Some(HotkeyAction::TogglePressed)
    );
    // The press is spent: a second release is silent.
    assert_eq!(t.release_after(DICTATION, &mut flags, edge), None);
}

#[test]
fn the_keys_do_not_disturb_each_other() {
    let mut flags = KeyHeldFlags::new();
    let mut t = PressTracker::new("test");
    t.press_at(DICTATION, &mut flags, Instant::now());
    t.press_at(ASSISTANT, &mut flags, Instant::now());
    let dictation = t.dictation_press_at;
    assert_eq!(
        t.release_after(ASSISTANT, &mut flags, u128::MAX),
        Some(HotkeyAction::AssistantPressed)
    );
    assert!(flags.dictation && !flags.assistant);
    assert_eq!(t.dictation_press_at, dictation);
    assert_eq!(t.backend, "test");
}

#[test]
fn each_id_names_its_role() {
    assert_eq!(shortcut_role("dictation"), Some(Role::Dictation));
    assert_eq!(shortcut_role("assistant"), Some(Role::Assistant));
    assert_eq!(shortcut_role("cancel"), Some(Role::Cancel));
    assert_eq!(shortcut_role("Dictation"), None);
    assert_eq!(shortcut_role(""), None);
    assert_eq!(
        ALL,
        [
            ("dictation", "Toggle voice dictation"),
            ("assistant", "Toggle voice assistant"),
            ("cancel", "Cancel recording / assistant turn"),
        ]
    );
}

#[test]
fn the_clock_is_asked_about_the_press_of_the_released_key() {
    let mut flags = KeyHeldFlags::new();
    let mut t = PressTracker::new("test");
    let first = Instant::now();
    let second = first + Duration::from_secs(60);
    t.press_at(DICTATION, &mut flags, first);
    t.press_at(ASSISTANT, &mut flags, second);
    let hold = u128::from(LONG_PRESS_THRESHOLD_MS) * 1_000_000;
    assert_eq!(
        t.release_by(ASSISTANT, &mut flags, |t0| if *t0 == second { hold } else { 0 }),
        Some(HotkeyAction::AssistantPressed)
    );
    assert_eq!(
        t.release_by(DICTATION, &mut flags, |t0| if *t0 == second { hold } else { 0 }),
        None
    );
    assert!(!flags.dictation && !flags.assistant);
    let never = |_: &Instant| -> u128 { panic!("no press was recorded") };
    assert_eq!(t.release_by(DICTATION, &mut flags, never), None);
    assert_eq!(t.release_by(CANCEL, &mut flags, never), None);
    assert_eq!(t.release_by("bogus", &mut flags, never), None);
}
