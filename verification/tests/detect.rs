use fono_hotkey::detect::{
    describe_backend, detect_backend, detect_backend_with, spawn_step, variable_is_present,
    Attempt, HotkeyBackend, Session, SpawnStep, TargetOs,
};

fn session(os: TargetOs, wayland: bool, display: bool, desktop: Option<&str>) -> Session {
    Session {
        os,
        wayland_display: wayland,
        display,
        current_desktop: desktop.map(str::to_owned),
        gnome: desktop.is_some_and(|d| d.split(':').any(|p| p == "GNOME")),
    }
}

#[test]
fn parse_canonical_names() {
    assert_eq!(HotkeyBackend::parse("portal"), Some(HotkeyBackend::Portal));
    assert_eq!(HotkeyBackend::parse("Portal"), Some(HotkeyBackend::Portal));
    assert_eq!(HotkeyBackend::parse("x11"), Some(HotkeyBackend::X11));
    assert_eq!(HotkeyBackend::parse("disabled"), Some(HotkeyBackend::Disabled));
}

#[test]
fn parse_unknown_returns_none() {
    assert_eq!(HotkeyBackend::parse(""), None);
    assert_eq!(HotkeyBackend::parse("auto"), None);
    assert_eq!(HotkeyBackend::parse("wayland"), None);
    assert_eq!(HotkeyBackend::parse("bogus"), None);
}

#[test]
fn parse_ignores_ascii_case_and_nothing_else() {
    assert_eq!(HotkeyBackend::parse("X11"), Some(HotkeyBackend::X11));
    assert_eq!(HotkeyBackend::parse("DISABLED"), Some(HotkeyBackend::Disabled));
    assert_eq!(HotkeyBackend::parse(" portal"), None);
    assert_eq!(HotkeyBackend::parse("portal "), None);
    assert_eq!(HotkeyBackend::parse("x\u{2161}"), None);
}

#[test]
fn auto_detect_picks_portal_on_wayland() {
    let b = detect_backend_with(TargetOs::Linux, None, |k| k == "WAYLAND_DISPLAY");
    assert_eq!(b, HotkeyBackend::Portal);
}

#[test]
fn auto_detect_picks_x11_on_xorg() {
    let b = detect_backend_with(TargetOs::Linux, None, |k| k == "DISPLAY");
    assert_eq!(b, HotkeyBackend::X11);
}

#[test]
fn auto_detect_disabled_when_headless() {
    let b = detect_backend_with(TargetOs::Linux, None, |_| false);
    assert_eq!(b, HotkeyBackend::Disabled);
}

#[test]
fn auto_detect_on_macos_is_always_the_global_hotkey_listener() {
    assert_eq!(detect_backend_with(TargetOs::MacOs, None, |_| false), HotkeyBackend::X11);
    assert_eq!(detect_backend_with(TargetOs::MacOs, None, |_| true), HotkeyBackend::X11);
}

#[test]
fn auto_detect_on_windows_is_always_the_global_hotkey_listener() {
    assert_eq!(detect_backend_with(TargetOs::Windows, None, |_| false), HotkeyBackend::X11);
    assert_eq!(detect_backend_with(TargetOs::Windows, None, |_| true), HotkeyBackend::X11);
}

#[test]
fn forced_override_wins() {
    // Forced X11 wins even with WAYLAND_DISPLAY set.
    let b = detect_backend_with(TargetOs::Linux, Some(HotkeyBackend::X11), |_| true);
    assert_eq!(b, HotkeyBackend::X11);
}

#[test]
fn detection_from_a_session() {
    let os = TargetOs::Linux;
    assert_eq!(detect_backend(&session(os, true, true, None), None), HotkeyBackend::Portal);
    assert_eq!(detect_backend(&session(os, false, true, None), None), HotkeyBackend::X11);
    assert_eq!(detect_backend(&session(os, false, false, None), None), HotkeyBackend::Disabled);
    assert_eq!(
        detect_backend(&session(TargetOs::Other, true, true, None), None),
        HotkeyBackend::X11
    );
    let forced = Some(HotkeyBackend::Disabled);
    assert_eq!(detect_backend(&session(os, true, true, None), forced), HotkeyBackend::Disabled);
}

#[test]
fn an_empty_variable_is_not_present() {
    assert!(!variable_is_present(None));
    assert!(!variable_is_present(Some(0)));
    assert!(variable_is_present(Some(1)));
}

#[test]
fn labels_name_the_native_mechanism() {
    assert_eq!(HotkeyBackend::Portal.label(TargetOs::Linux), "Wayland portal");
    assert_eq!(HotkeyBackend::Disabled.label(TargetOs::Windows), "disabled");
    assert_eq!(HotkeyBackend::X11.label(TargetOs::Linux), "X11");
    assert_eq!(HotkeyBackend::X11.label(TargetOs::MacOs), "Carbon RegisterEventHotKey");
    assert_eq!(HotkeyBackend::X11.label(TargetOs::Windows), "Win32 RegisterHotKey");
    assert_eq!(HotkeyBackend::X11.label(TargetOs::Other), "global-hotkey");
}

#[test]
fn descriptions_name_the_shims() {
    let os = TargetOs::Linux;
    assert_eq!(
        describe_backend(&session(os, true, true, Some("KDE")), None),
        "KDE KGlobalAccel via KWin (falls back to the portal, then X11)"
    );
    assert_eq!(
        describe_backend(&session(os, true, true, Some("ubuntu:GNOME")), None),
        "GNOME gsettings custom-keybindings (falls back to the portal, then X11)"
    );
    assert_eq!(describe_backend(&session(os, true, true, Some("sway")), None), "Wayland portal");
    assert_eq!(describe_backend(&session(os, false, true, Some("KDE")), None), "X11");
    assert_eq!(describe_backend(&session(os, false, false, None), None), "disabled");
    assert_eq!(
        describe_backend(
            &session(TargetOs::MacOs, true, true, Some("KDE")),
            Some(HotkeyBackend::Portal)
        ),
        "Wayland portal"
    );
}

fn steps(s: &Session, forced: Option<HotkeyBackend>) -> Vec<SpawnStep> {
    (0..6).map(|failures| spawn_step(s, forced, failures)).collect()
}

#[test]
fn attempts_run_through_the_tiers() {
    let tried = |a| SpawnStep::Try(a);
    assert_eq!(
        steps(&session(TargetOs::Linux, true, true, Some("KDE")), None)[..4],
        [
            tried(Attempt::KGlobalAccel),
            tried(Attempt::Portal),
            tried(Attempt::X11),
            SpawnStep::GiveUp
        ]
    );
    assert_eq!(
        steps(&session(TargetOs::Linux, true, true, Some("GNOME")), None)[..4],
        [
            tried(Attempt::Gsettings),
            tried(Attempt::Portal),
            tried(Attempt::X11),
            SpawnStep::GiveUp
        ]
    );
    assert_eq!(
        steps(&session(TargetOs::Linux, true, true, Some("KDE:GNOME")), None)[..5],
        [
            tried(Attempt::KGlobalAccel),
            tried(Attempt::Gsettings),
            tried(Attempt::Portal),
            tried(Attempt::X11),
            SpawnStep::GiveUp
        ]
    );
    assert_eq!(
        steps(&session(TargetOs::Linux, true, true, None), None)[..3],
        [tried(Attempt::Portal), tried(Attempt::X11), SpawnStep::GiveUp]
    );
}

#[test]
fn x11_and_disabled_never_touch_the_portal() {
    let kde = session(TargetOs::Linux, true, true, Some("KDE"));
    assert_eq!(
        steps(&kde, Some(HotkeyBackend::X11))[..2],
        [SpawnStep::Try(Attempt::X11), SpawnStep::GiveUp]
    );
    assert!(steps(&kde, Some(HotkeyBackend::Disabled)).iter().all(|s| *s == SpawnStep::Disabled));
}

#[test]
fn a_forced_portal_fails_off_linux() {
    let mac = session(TargetOs::MacOs, false, false, None);
    assert_eq!(
        spawn_step(&mac, Some(HotkeyBackend::Portal), 0),
        SpawnStep::PortalIsLinuxOnly
    );
    assert_eq!(spawn_step(&mac, None, 0), SpawnStep::Try(Attempt::X11));
}

#[test]
fn the_second_display_is_asked_about_only_without_the_first() {
    let wayland = |key: &str| {
        assert_eq!(key, "WAYLAND_DISPLAY");
        true
    };
    assert_eq!(detect_backend_with(TargetOs::Linux, None, wayland), HotkeyBackend::Portal);
    let never = |_: &str| -> bool { panic!("nothing is to be asked") };
    assert_eq!(detect_backend_with(TargetOs::MacOs, None, never), HotkeyBackend::X11);
    let forced = Some(HotkeyBackend::Disabled);
    assert_eq!(detect_backend_with(TargetOs::Linux, forced, never), HotkeyBackend::Disabled);
}
