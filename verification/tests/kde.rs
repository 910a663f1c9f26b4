use ashpd::zvariant;
use fono_hotkey::fsm::HotkeyAction;
use fono_hotkey::kde_kglobalaccel::{
    action_id, bind_role, cancel_qt_key, is_kde_desktop, is_kde_session, plan_binding,
    role_is_bound, shortcut_id, shortcut_request, signal_shortcut_id, BindingPlan, CancelGrab,
    CancelOutcome, Listener, ListenerEvent, ListenerStep, RegisterStep, Registration, SignalBody,
    SET_FLAGS,
};
use fono_hotkey::kde_strays::{
    component_to_ask, find_strays, unregister_command, warn_about_strays, ComponentListing,
    ShortcutInfo, StrayShortcut,
};
use fono_hotkey::listener::{HotkeyBindings, HotkeyControl, KeyHeldFlags};
use fono_hotkey::parse::ParseError;
use fono_hotkey::shortcut;
use tokio::sync::mpsc;

#[test]
fn action_id_follows_kglobalaccel_order() {
    let id = action_id(shortcut::DICTATION, shortcut::DICTATION_DESC);
    assert_eq!(id, vec!["fono", "dictation", "Fono", "Toggle voice dictation"]);
}

#[test]
fn set_flags_are_set_present_plus_no_autoloading() {
    assert_eq!(SET_FLAGS, 6);
}

#[test]
fn removal_command_names_the_offending_component() {
    let s = StrayShortcut {
        component: "org.kde.konsole".into(),
        component_friendly: "Konsole".into(),
        id: "dictation".into(),
        keys: vec![201_326_624],
    };
    let cmd = s.removal_command();
    assert!(cmd.contains("unregister ss \"org.kde.konsole\" \"dictation\""), "{cmd}");
}

#[test]
fn kde_is_recognised_in_every_shape_distros_ship() {
    assert!(is_kde_desktop("KDE"));
    assert!(is_kde_desktop("KDE:plasma"));
    assert!(is_kde_desktop("plasma:KDE"));
    assert!(is_kde_desktop("kde"));
    assert!(!is_kde_desktop("GNOME"));
    assert!(!is_kde_desktop("ubuntu:GNOME"));
    assert!(!is_kde_desktop(""));
    // Substring matches must not count, only whole components.
    assert!(!is_kde_desktop("KDEISH"));
}

#[test]
fn cancel_binding_is_optional_and_never_panics() {
    assert_eq!(cancel_qt_key(""), None);
    assert_eq!(cancel_qt_key("   "), None);
    assert_eq!(cancel_qt_key("not-a-key"), None);
    assert_eq!(cancel_qt_key("Escape"), Some(0x0100_0000));
}

#[test]
fn a_session_without_a_desktop_is_not_kde() {
    assert!(!is_kde_session(None));
    assert!(is_kde_session(Some("plasma:kde")));
    assert!(!is_kde_session(Some("XKDE:KDE2")));
}

#[test]
fn bindings_come_to_plans() {
    assert_eq!(plan_binding(" \t"), BindingPlan::Unbound);
    assert_eq!(plan_binding("Ctrl+Alt+Space"), BindingPlan::Key(0x0C00_0020));
    assert_eq!(plan_binding("  Ctrl+Alt+Space\n"), BindingPlan::Key(0x0C00_0020));
    assert_eq!(plan_binding("Numpad5"), BindingPlan::NoQtKey);
    assert_eq!(plan_binding("Ctrl+nope"), BindingPlan::Unparsable(ParseError::UnknownKey));
    assert_eq!(plan_binding("nope+A"), BindingPlan::Unparsable(ParseError::UnknownModifier));
}

#[test]
fn roles_ask_for_their_key() {
    let request = bind_role("dictation", "d", BindingPlan::Key(7)).unwrap();
    assert_eq!(request.action, vec!["fono", "dictation", "Fono", "d"]);
    assert_eq!(request.keys, vec![7]);
    assert_eq!(request.flags, 6);
    assert!(bind_role("dictation", "d", BindingPlan::Unbound).unwrap().keys.is_empty());
    assert!(bind_role("dictation", "d", BindingPlan::NoQtKey).is_none());
    assert!(role_is_bound(BindingPlan::Key(7), &vec![3, 7]));
    assert!(!role_is_bound(BindingPlan::Key(7), &vec![3]));
    assert!(!role_is_bound(BindingPlan::Unbound, &vec![]));
    assert_eq!(shortcut_request("a", "b", vec![1, 2]).keys, vec![1, 2]);
}

fn bindings(dictation: &str, assistant: &str) -> HotkeyBindings {
    HotkeyBindings {
        dictation: dictation.to_owned(),
        assistant: assistant.to_owned(),
        cancel: "Escape".to_owned(),
    }
}

/// Runs a registration in which every asked key but `taken` is granted, and
/// lists the requests.
fn register(b: &HotkeyBindings, taken: i32) -> (Vec<(String, Vec<i32>)>, RegisterStep) {
    let mut r = Registration::new(b);
    let mut calls = Vec::new();
    loop {
        match r.step() {
            RegisterStep::Call(request) => {
                calls.push((request.action[1].clone(), request.keys.clone()));
                let granted = request.keys.into_iter().filter(|k| *k != taken).collect();
                r.granted(&granted);
            }
            end => return (calls, end),
        }
    }
}

#[test]
fn registration_binds_the_toggle_keys_and_leaves_cancel_without_keys() {
    let (calls, end) = register(&bindings("F7", "F8"), 0);
    assert_eq!(
        calls,
        vec![
            ("dictation".to_owned(), vec![0x0100_0036]),
            ("assistant".to_owned(), vec![0x0100_0037]),
            ("cancel".to_owned(), vec![]),
        ]
    );
    assert!(matches!(end, RegisterStep::Registered { dictation: true, assistant: true }));
}

#[test]
fn one_refused_key_does_not_stop_the_other() {
    let (_, end) = register(&bindings("F7", "F8"), 0x0100_0036);
    assert!(matches!(end, RegisterStep::Registered { dictation: false, assistant: true }));
}

#[test]
fn a_bad_binding_is_skipped() {
    let (calls, end) = register(&bindings("F7", "not-a-key"), 0);
    assert_eq!(calls.len(), 2);
    assert_eq!(calls[1].0, "cancel");
    assert!(matches!(end, RegisterStep::Registered { dictation: true, assistant: false }));
}

#[test]
fn a_registration_without_any_key_is_refused() {
    let (calls, end) = register(&bindings("", "Numpad5"), 0);
    assert_eq!(calls, vec![("dictation".to_owned(), vec![]), ("cancel".to_owned(), vec![])]);
    assert!(matches!(end, RegisterStep::Refused));
}

#[test]
fn the_cancel_key_is_grabbed_and_let_go() {
    let mut grab = CancelGrab::new("Escape");
    assert_eq!(grab.key, Some(0x0100_0000));
    assert!(grab.request(HotkeyControl::DisableCancel).is_none());
    let request = grab.request(HotkeyControl::EnableCancel).unwrap();
    assert_eq!(request.action[1], "cancel");
    assert_eq!(request.keys, vec![0x0100_0000]);
    assert_eq!(
        grab.settle(HotkeyControl::EnableCancel, Some(&vec![0x0100_0000])),
        CancelOutcome::Added
    );
    assert!(grab.bound);
    assert!(grab.request(HotkeyControl::EnableCancel).is_none());
    assert!(grab.request(HotkeyControl::DisableCancel).unwrap().keys.is_empty());
    assert_eq!(
        grab.settle(HotkeyControl::DisableCancel, Some(&vec![])),
        CancelOutcome::Removed
    );
    assert!(!grab.bound);
}

#[test]
fn a_cancel_key_that_is_not_granted_stays_free() {
    let mut grab = CancelGrab::new("Escape");
    assert_eq!(
        grab.settle(HotkeyControl::EnableCancel, Some(&vec![9])),
        CancelOutcome::Refused
    );
    assert_eq!(grab.settle(HotkeyControl::EnableCancel, None), CancelOutcome::Failed);
    assert!(!grab.bound);
    assert!(grab.request(HotkeyControl::EnableCancel).is_some());
    let mut none = CancelGrab::new("");
    assert!(none.request(HotkeyControl::EnableCancel).is_none());
    assert_eq!(
        none.settle(HotkeyControl::EnableCancel, Some(&vec![])),
        CancelOutcome::Ignored
    );
}

fn signal(id: &str, big_endian: bool) -> SignalBody {
    let endian = if big_endian { zvariant::BE } else { zvariant::LE };
    let context = zvariant::serialized::Context::new_dbus(endian, 0);
    let data = zvariant::to_bytes(context, &("fono", id, 12_345i64)).unwrap();
    SignalBody { bytes: data.bytes().to_vec(), signature: "ssx".to_owned(), big_endian }
}

#[test]
fn signals_are_read_from_the_wire() {
    assert_eq!(signal_shortcut_id(Some(&signal("dictation", false))).unwrap(), "dictation");
    assert_eq!(signal_shortcut_id(Some(&signal("assistant", true))).unwrap(), "assistant");
    let mut parens = signal("cancel", false);
    parens.signature = "(ssx)".to_owned();
    assert_eq!(signal_shortcut_id(Some(&parens)).unwrap(), "cancel");
}

#[test]
fn unreadable_signals_match_no_shortcut() {
    let mut cut = signal("dictation", false);
    cut.bytes.truncate(9);
    assert_eq!(signal_shortcut_id(Some(&cut)).unwrap(), "");
    let mut other = signal("dictation", false);
    other.signature = "ss".to_owned();
    assert_eq!(signal_shortcut_id(Some(&other)).unwrap(), "");
    assert_eq!(signal_shortcut_id(None), None);
    assert_eq!(shortcut_id(None), "");
    assert_eq!(shortcut_id(Some(("a".to_owned(), "b".to_owned(), 1))), "b");
}

#[test]
fn a_listener_forwards_presses_and_survives_noise() {
    let (mut tx, mut rx) = mpsc::unbounded_channel::<HotkeyAction>();
    let mut flags = KeyHeldFlags::new();
    let mut l = Listener::new(&bindings("F7", "F8"));
    let press = ListenerEvent::Pressed(Some(signal("dictation", false)));
    assert!(matches!(l.handle(&press, &mut flags, &mut tx), ListenerStep::Wait));
    assert!(flags.dictation);
    let mut bad = signal("dictation", false);
    bad.bytes.clear();
    let noise = ListenerEvent::Pressed(Some(bad.clone()));
    assert!(matches!(l.handle(&noise, &mut flags, &mut tx), ListenerStep::Wait));
    let noise = ListenerEvent::Released(Some(bad));
    assert!(matches!(l.handle(&noise, &mut flags, &mut tx), ListenerStep::Wait));
    assert!(flags.dictation);
    let release = ListenerEvent::Released(Some(signal("dictation", false)));
    assert!(matches!(l.handle(&release, &mut flags, &mut tx), ListenerStep::Wait));
    assert!(!flags.dictation);
    assert_eq!(rx.try_recv().unwrap(), HotkeyAction::TogglePressed);
    assert!(rx.try_recv().is_err());
}

fn assert_stops(l: &mut Listener, event: &ListenerEvent, tx: &mut mpsc::UnboundedSender<HotkeyAction>) {
    let mut flags = KeyHeldFlags::new();
    match l.handle(event, &mut flags, tx) {
        ListenerStep::Stop(request) => {
            assert_eq!(request.action[1], "cancel");
            assert!(request.keys.is_empty());
        }
        step => panic!("not stopped: {step:?}"),
    }
    assert!(l.stopped);
}

#[test]
fn a_listener_stops_when_a_stream_ends_or_the_channel_closes() {
    let (mut tx, rx) = mpsc::unbounded_channel::<HotkeyAction>();
    for event in [
        ListenerEvent::Pressed(None),
        ListenerEvent::Released(None),
        ListenerEvent::Control(None),
        ListenerEvent::Failed,
    ] {
        assert_stops(&mut Listener::new(&bindings("F7", "F8")), &event, &mut tx);
    }
    drop(rx);
    let press = ListenerEvent::Pressed(Some(signal("assistant", false)));
    assert_stops(&mut Listener::new(&bindings("F7", "F8")), &press, &mut tx);
}

#[test]
fn a_stopped_listener_does_nothing_more() {
    let (mut tx, mut rx) = mpsc::unbounded_channel::<HotkeyAction>();
    let mut flags = KeyHeldFlags::new();
    let mut l = Listener::new(&bindings("F7", "F8"));
    let enable = ListenerEvent::Control(Some(HotkeyControl::EnableCancel));
    match l.handle(&enable, &mut flags, &mut tx) {
        ListenerStep::Apply(control, request) => {
            l.cancel.settle(control, Some(&request.keys));
        }
        step => panic!("a request was due: {step:?}"),
    }
    assert_stops(&mut l, &ListenerEvent::Failed, &mut tx);
    for event in [
        ListenerEvent::Control(Some(HotkeyControl::DisableCancel)),
        ListenerEvent::Pressed(Some(signal("dictation", false))),
        ListenerEvent::Released(None),
    ] {
        assert!(matches!(l.handle(&event, &mut flags, &mut tx), ListenerStep::Stopped));
    }
    assert!(!flags.dictation);
    assert!(rx.try_recv().is_err());
}

#[test]
fn a_listener_asks_for_the_cancel_key_once() {
    let (mut tx, _rx) = mpsc::unbounded_channel::<HotkeyAction>();
    let mut flags = KeyHeldFlags::new();
    let mut l = Listener::new(&bindings("F7", "F8"));
    let enable = ListenerEvent::Control(Some(HotkeyControl::EnableCancel));
    match l.handle(&enable, &mut flags, &mut tx) {
        ListenerStep::Apply(control, request) => {
            assert_eq!(control, HotkeyControl::EnableCancel);
            let outcome = l.cancel.settle(control, Some(&request.keys));
            assert_eq!(outcome, CancelOutcome::Added);
        }
        _ => panic!("a request was due"),
    }
    assert!(matches!(l.handle(&enable, &mut flags, &mut tx), ListenerStep::Wait));
}

fn info(id: &str, description: &str, keys: Vec<i32>) -> ShortcutInfo {
    let e = String::new;
    (id.to_owned(), description.to_owned(), e(), e(), e(), e(), keys, vec![1])
}

fn listing(names: &[&str], infos: Option<Vec<ShortcutInfo>>) -> ComponentListing {
    ComponentListing { names: names.iter().map(|n| (*n).to_owned()).collect(), infos }
}

#[test]
fn strays_are_found_under_foreign_components_only() {
    let own = || info("dictation", "Toggle voice dictation", vec![201_326_624]);
    let found = find_strays(&vec![
        listing(&["fono", "Fono"], Some(vec![own()])),
        listing(&[], None),
        listing(&["", "x"], Some(vec![own()])),
        listing(
            &["org.kde.konsole", "Konsole"],
            Some(vec![
                info("dictation", "Start dictation", vec![5]),
                info("other", "Toggle voice dictation", vec![5]),
                info("assistant", "Toggle voice dictation", vec![5]),
                own(),
                info("assistant", "Toggle voice assistant", vec![]),
                info("cancel", "Cancel recording / assistant turn", vec![1, 2]),
            ]),
        ),
        listing(&["org.kde.gone"], None),
        listing(&["org.kde.yakuake", ""], Some(vec![own()])),
    ]);
    let seen: Vec<_> = found
        .iter()
        .map(|s| {
            (s.component.as_str(), s.component_friendly.as_str(), s.id.as_str(), s.keys.clone())
        })
        .collect();
    assert_eq!(
        seen,
        vec![
            ("org.kde.konsole", "Konsole", "dictation", vec![201_326_624]),
            ("org.kde.konsole", "Konsole", "cancel", vec![1, 2]),
            ("org.kde.yakuake", "org.kde.yakuake", "dictation", vec![201_326_624]),
        ]
    );
    assert!(component_to_ask(&vec!["fono".to_owned()]).is_none());
}

#[test]
fn strays_are_reported_with_the_command_that_removes_them() {
    let stray = |component: &str| StrayShortcut {
        component: component.to_owned(),
        component_friendly: "Konsole".to_owned(),
        id: "dictation".to_owned(),
        keys: vec![1],
    };
    assert_eq!(
        stray("org.kde.konsole").removal_command(),
        "busctl --user call org.kde.kglobalaccel /kglobalaccel org.kde.KGlobalAccel \
         unregister ss \"org.kde.konsole\" \"dictation\""
    );
    assert!(stray("a\"b").removal_command().ends_with("ss \"a\\\"b\" \"dictation\""));
    assert_eq!(
        unregister_command("C", "I"),
        "busctl --user call org.kde.kglobalaccel /kglobalaccel org.kde.KGlobalAccel \
         unregister ss C I"
    );
    let warnings = warn_about_strays(&vec![stray("org.kde.konsole"), stray("x")]);
    assert_eq!(warnings.len(), 2);
    assert_eq!(
        warnings[0],
        "kglobalaccel: a leftover Fono \"dictation\" shortcut is registered under Konsole \
         (org.kde.konsole), from an earlier attempt to bind keys through the desktop portal. \
         Plasma may swallow that key before Fono sees it. Remove it with:\n  \
         busctl --user call org.kde.kglobalaccel /kglobalaccel org.kde.KGlobalAccel \
         unregister ss \"org.kde.konsole\" \"dictation\""
    );
}

#[test]
fn a_stopped_listener_lets_go_of_the_cancel_key() {
    let request = Listener::shutdown_request();
    assert_eq!(
        request.action,
        vec!["fono", "cancel", "Fono", "Cancel recording / assistant turn"]
    );
    assert!(request.keys.is_empty());
    assert_eq!(request.flags, 6);
}

#[test]
fn a_signal_of_the_wrong_shape_is_ignored() {
    let (mut tx, mut rx) = mpsc::unbounded_channel::<HotkeyAction>();
    let mut flags = KeyHeldFlags::new();
    let mut l = Listener::new(&bindings("F7", "F8"));
    for signature in ["", "s", "ssu", "ssxx", "((ssx))", "not a signature"] {
        let mut body = signal("dictation", false);
        body.signature = signature.to_owned();
        assert_eq!(signal_shortcut_id(Some(&body)).unwrap(), "", "{signature}");
        for event in [
            ListenerEvent::Pressed(Some(body.clone())),
            ListenerEvent::Released(Some(body.clone())),
        ] {
            assert!(matches!(l.handle(&event, &mut flags, &mut tx), ListenerStep::Wait));
        }
    }
    assert!(!flags.dictation);
    assert!(l.presses.dictation_press_at.is_none());
    assert!(rx.try_recv().is_err());
}

#[test]
fn removal_commands_tell_strays_apart() {
    let stray = |component: &str, id: &str, friendly: &str, keys: Vec<i32>| StrayShortcut {
        component: component.to_owned(),
        component_friendly: friendly.to_owned(),
        id: id.to_owned(),
        keys,
    };
    let base = stray("org.kde.konsole", "dictation", "Konsole", vec![1]).removal_command();
    assert_eq!(stray("org.kde.konsole", "dictation", "Terminal", vec![]).removal_command(), base);
    assert_ne!(stray("org.kde.konsole", "cancel", "Konsole", vec![1]).removal_command(), base);
    assert_ne!(stray("org.kde.kate", "dictation", "Konsole", vec![1]).removal_command(), base);
    // Quotes in a name cannot make two targets look alike.
    assert_ne!(
        stray("a\" \"b", "c", "", vec![]).removal_command(),
        stray("a", "b\" \"c", "", vec![]).removal_command()
    );
    assert!(stray("a\"b", "c\\d", "", vec![]).removal_command().ends_with(r#""a\"b" "c\\d""#));
}

#[test]
fn only_common_keys_come_to_a_qt_key() {
    assert_eq!(plan_binding("Ctrl+OSLeft"), BindingPlan::NoQtKey);
    assert_eq!(plan_binding("VolumeUp"), BindingPlan::NoQtKey);
    assert_eq!(plan_binding("F01"), BindingPlan::Unparsable(ParseError::UnknownKey));
    assert_eq!(plan_binding("PageDown"), BindingPlan::Key(0x0100_0017));
}

#[test]
fn unregister_commands_tell_quoted_words_apart() {
    let one = unregister_command(r#""a\" \"b""#, r#""c""#);
    let two = unregister_command(r#""a""#, r#""b\" \"c""#);
    assert!(one.ends_with(r#" unregister ss "a\" \"b" "c""#));
    assert!(two.ends_with(r#" unregister ss "a" "b\" \"c""#));
    assert_ne!(one, two);
}
