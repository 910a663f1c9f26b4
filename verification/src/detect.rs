//! Which hotkey backend serves a session, and in what order the backends are
//! tried when it starts.
//!
//! On Wayland the two big desktops have a native shim ahead of the portal,
//! because the portal cannot attribute an app id to an unsandboxed daemon:
//! KGlobalAccel on KDE and gsettings on GNOME. A shim that cannot register
//! falls through to the portal, and the portal to the X11 listener.
use vstd::prelude::*;

use crate::kde_kglobalaccel::is_kde_session;
use crate::text::{same, same_lowercased};

verus! {

/// The operating system that the daemon runs on.
#[derive(Debug, Clone, Copy, PartialEq, Eq, Structural)]
pub enum TargetOs {
    Linux,
    MacOs,
    Windows,
    Other,
}

/// The way hotkeys reach the daemon. `FONO_HOTKEY_BACKEND` can force one.
#[derive(Debug, Clone, Copy, PartialEq, Eq, Structural)]
pub enum HotkeyBackend {
    /// `xdg-desktop-portal.GlobalShortcuts` (Wayland sessions).
    Portal,
    /// The `global-hotkey` listener: X11 or Xwayland, and the native hotkeys of
    /// macOS and Windows.
    X11,
    /// No listener at all (headless, SSH, CI runners).
    Disabled,
}

/// The backend that a value of `FONO_HOTKEY_BACKEND` names, in any ASCII case.
pub open spec fn named_backend(s: Seq<char>) -> Option<HotkeyBackend> {
    let word = crate::text::lowercase(s);
    if word == "portal"@ {
        Some(HotkeyBackend::Portal)
    } else if word == "x11"@ {
        Some(HotkeyBackend::X11)
    } else if word == "disabled"@ {
        Some(HotkeyBackend::Disabled)
    } else {
        None
    }
}

/// What a backend is called in logs on an operating system. The `X11` backend
/// goes by the native mechanism that it drives there.
pub open spec fn backend_label(backend: HotkeyBackend, os: TargetOs) -> Seq<char> {
    match backend {
        HotkeyBackend::Portal => "Wayland portal"@,
        HotkeyBackend::Disabled => "disabled"@,
        HotkeyBackend::X11 => match os {
            TargetOs::Windows => "Win32 RegisterHotKey"@,
            TargetOs::MacOs => "Carbon RegisterEventHotKey"@,
            TargetOs::Linux => "X11"@,
            TargetOs::Other => "global-hotkey"@,
        },
    }
}

impl HotkeyBackend {
    /// Reads the value of `FONO_HOTKEY_BACKEND`. `None` for anything that names
    /// no backend, so that the caller detects one.
    pub fn parse(s: &str) -> (r: Option<HotkeyBackend>)
        ensures
            r == named_backend(s@),
    {
        if same_lowercased(s, "portal") {
            Some(HotkeyBackend::Portal)
        } else if same_lowercased(s, "x11") {
            Some(HotkeyBackend::X11)
        } else if same_lowercased(s, "disabled") {
            Some(HotkeyBackend::Disabled)
        } else {
            None
        }
    }

    /// Human-facing label for logs.
    pub fn label(self, os: TargetOs) -> (r: &'static str)
        ensures
            r@ == backend_label(self, os),
    {
        match self {
            HotkeyBackend::Portal => "Wayland portal",
            HotkeyBackend::Disabled => "disabled",
            HotkeyBackend::X11 => match os {
                TargetOs::Windows => "Win32 RegisterHotKey",
                TargetOs::MacOs => "Carbon RegisterEventHotKey",
                TargetOs::Linux => "X11",
                TargetOs::Other => "global-hotkey",
            },
        }
    }
}

/// What the environment tells of a session.
#[derive(Debug, Clone)]
pub struct Session {
    pub os: TargetOs,
    /// `WAYLAND_DISPLAY` is set and not empty.
    pub wayland_display: bool,
    /// `DISPLAY` is set and not empty.
    pub display: bool,
    /// `XDG_CURRENT_DESKTOP`, where it is set to text.
    pub current_desktop: Option<String>,
    /// The desktop is GNOME.
    pub gnome: bool,
}

impl Session {
    /// The desktop is KDE Plasma.
    pub open spec fn kde(self) -> bool {
        match self.current_desktop {
            Some(value) => crate::kde_kglobalaccel::names_kde(value@),
            None => false,
        }
    }

    /// Whether the desktop is KDE Plasma.
    pub fn is_kde(&self) -> (r: bool)
        ensures
            r == self.kde(),
    {
        match &self.current_desktop {
            Some(value) => is_kde_session(Some(value.as_str())),
            None => is_kde_session(None),
        }
    }
}

/// Whether a variable counts as present, by the length of its value where it
/// is set: an empty one does not.
pub fn variable_is_present(length: Option<usize>) -> (r: bool)
    ensures
        r == (length matches Some(n) && n > 0),
{
    match length {
        Some(n) => n > 0,
        None => false,
    }
}

/// The backend of a Linux session, by the display servers it has.
pub open spec fn linux_backend(wayland_display: bool, display: bool) -> HotkeyBackend {
    if wayland_display {
        HotkeyBackend::Portal
    } else if display {
        HotkeyBackend::X11
    } else {
        HotkeyBackend::Disabled
    }
}

/// The backend of a session: the forced one, else the native listener off
/// Linux, else what the display servers call for.
pub open spec fn resolved(session: Session, forced: Option<HotkeyBackend>) -> HotkeyBackend {
    match forced {
        Some(b) => b,
        None => if session.os != TargetOs::Linux {
            HotkeyBackend::X11
        } else {
            linux_backend(session.wayland_display, session.display)
        },
    }
}

/// Resolves a backend, asking `env_present` whether a variable is set to
/// something. Only an unforced choice on Linux asks, `WAYLAND_DISPLAY` first
/// and `DISPLAY` only without it.
pub fn detect_backend_with(
    os: TargetOs,
    forced: Option<HotkeyBackend>,
    env_present: impl Fn(&str) -> bool,
) -> (r: HotkeyBackend)
    requires
        forced is None && os == TargetOs::Linux ==> env_present.requires(("WAYLAND_DISPLAY",))
            && (env_present.ensures(("WAYLAND_DISPLAY",), false) ==> env_present.requires(
            ("DISPLAY",),
        )),
    ensures
        forced matches Some(b) ==> r == b,
        forced is None && os != TargetOs::Linux ==> r == HotkeyBackend::X11,
        forced is None && os == TargetOs::Linux ==> exists|wayland: bool|
            {
                &&& #[trigger] env_present.ensures(("WAYLAND_DISPLAY",), wayland)
                &&& if wayland {
                    r == linux_backend(true, false)
                } else {
                    exists|display: bool|
                        {
                            &&& #[trigger] env_present.ensures(("DISPLAY",), display)
                            &&& r == linux_backend(false, display)
                        }
                }
            },
{
    if let Some(b) = forced {
        return b;
    }
    if os != TargetOs::Linux {
        return HotkeyBackend::X11;
    }
    if env_present("WAYLAND_DISPLAY") {
        HotkeyBackend::Portal
    } else if env_present("DISPLAY") {
        HotkeyBackend::X11
    } else {
        HotkeyBackend::Disabled
    }
}

/// Resolves a backend for a session. `forced` is the parsed value of
/// `FONO_HOTKEY_BACKEND`, `None` to detect one.
pub fn detect_backend(session: &Session, forced: Option<HotkeyBackend>) -> (r: HotkeyBackend)
    ensures
        r == resolved(*session, forced),
        forced matches Some(b) ==> r == b,
        forced is None ==> r == (if session.os != TargetOs::Linux {
            HotkeyBackend::X11
        } else if session.wayland_display {
            HotkeyBackend::Portal
        } else if session.display {
            HotkeyBackend::X11
        } else {
            HotkeyBackend::Disabled
        }),
{
    let wayland: bool = session.wayland_display;
    let display: bool = session.display;
    proof {
        reveal_strlit("WAYLAND_DISPLAY");
        reveal_strlit("DISPLAY");
        assert("WAYLAND_DISPLAY"@.len() != "DISPLAY"@.len());
    }
    let env_present = |key: &str| -> (set: bool)
        ensures
            set == if key@ == "WAYLAND_DISPLAY"@ {
                wayland
            } else {
                display
            },
        {
            if same(key, "WAYLAND_DISPLAY") {
                wayland
            } else {
                display
            }
        };
    detect_backend_with(session.os, forced, env_present)
}

/// One way of starting a listener.
#[derive(Debug, Clone, Copy, PartialEq, Eq, Structural)]
pub enum Attempt {
    KGlobalAccel,
    Gsettings,
    Portal,
    X11,
}

/// What to do next when a listener is started.
#[derive(Debug, Clone, Copy, PartialEq, Eq, Structural)]
pub enum SpawnStep {
    /// Start this listener; if it does not start, one more attempt has failed.
    Try(Attempt),
    /// Run without a listener.
    Disabled,
    /// Fail: the portal exists on Linux only.
    PortalIsLinuxOnly,
    /// Fail with the error of the last attempt.
    GiveUp,
}

/// The native shims that come ahead of the portal on a desktop.
pub open spec fn shims(session: Session) -> Seq<Attempt> {
    (if session.kde() {
        seq![Attempt::KGlobalAccel]
    } else {
        seq![]
    }) + (if session.gnome {
        seq![Attempt::Gsettings]
    } else {
        seq![]
    })
}

/// The attempts at starting a listener, in the order in which they are made.
pub open spec fn attempts(session: Session, backend: HotkeyBackend) -> Seq<Attempt> {
    match backend {
        HotkeyBackend::Portal => if session.os == TargetOs::Linux {
            shims(session) + seq![Attempt::Portal, Attempt::X11]
        } else {
            seq![]
        },
        HotkeyBackend::X11 => seq![Attempt::X11],
        HotkeyBackend::Disabled => seq![],
    }
}

/// The step to take once the first `failures` attempts have failed.
pub open spec fn step_after(session: Session, backend: HotkeyBackend, failures: nat) -> SpawnStep {
    if backend == HotkeyBackend::Disabled {
        SpawnStep::Disabled
    } else if backend == HotkeyBackend::Portal && session.os != TargetOs::Linux {
        SpawnStep::PortalIsLinuxOnly
    } else if failures < attempts(session, backend).len() {
        SpawnStep::Try(attempts(session, backend)[failures as int])
    } else {
        SpawnStep::GiveUp
    }
}

/// The step to take in starting a listener once the first `failures` attempts
/// have failed.
pub fn spawn_step(session: &Session, forced: Option<HotkeyBackend>, failures: usize) -> (r:
    SpawnStep)
    ensures
        r == step_after(*session, resolved(*session, forced), failures as nat),
{
    match detect_backend(session, forced) {
        HotkeyBackend::Disabled => SpawnStep::Disabled,
        HotkeyBackend::X11 => if failures == 0 {
            SpawnStep::Try(Attempt::X11)
        } else {
            SpawnStep::GiveUp
        },
        HotkeyBackend::Portal => {
            if session.os != TargetOs::Linux {
                return SpawnStep::PortalIsLinuxOnly;
            }
            let mut left: usize = failures;
            if session.is_kde() {
                if left == 0 {
                    return SpawnStep::Try(Attempt::KGlobalAccel);
                }
                left = left - 1;
            }
            if session.gnome {
                if left == 0 {
                    return SpawnStep::Try(Attempt::Gsettings);
                }
                left = left - 1;
            }
            if left == 0 {
                SpawnStep::Try(Attempt::Portal)
            } else if left == 1 {
                SpawnStep::Try(Attempt::X11)
            } else {
                SpawnStep::GiveUp
            }
        },
    }
}

/// How the step that starts a listener is described to the user.
pub open spec fn description(session: Session, backend: HotkeyBackend) -> Seq<char> {
    if session.os == TargetOs::Linux && backend == HotkeyBackend::Portal && session.kde() {
        "KDE KGlobalAccel via KWin (falls back to the portal, then X11)"@
    } else if session.os == TargetOs::Linux && backend == HotkeyBackend::Portal && session.gnome {
        "GNOME gsettings custom-keybindings (falls back to the portal, then X11)"@
    } else {
        backend_label(backend, session.os)
    }
}

/// Which backend is tried first, phrased for humans. Unlike `detect_backend`
/// this names the native shims that sit ahead of the portal.
pub fn describe_backend(session: &Session, forced: Option<HotkeyBackend>) -> (r: &'static str)
    ensures
        r@ == description(*session, resolved(*session, forced)),
{
    let backend = detect_backend(session, forced);
    if session.os == TargetOs::Linux && backend == HotkeyBackend::Portal {
        if session.is_kde() {
            return "KDE KGlobalAccel via KWin (falls back to the portal, then X11)";
        }
        if session.gnome {
            return "GNOME gsettings custom-keybindings (falls back to the portal, then X11)";
        }
    }
    backend.label(session.os)
}

/// What an attempt is called when it is the first one made.
pub open spec fn first_step_name(step: SpawnStep, os: TargetOs) -> Seq<char> {
    match step {
        SpawnStep::Try(Attempt::KGlobalAccel) => {
            "KDE KGlobalAccel via KWin (falls back to the portal, then X11)"@
        },
        SpawnStep::Try(Attempt::Gsettings) => {
            "GNOME gsettings custom-keybindings (falls back to the portal, then X11)"@
        },
        SpawnStep::Try(Attempt::Portal) => backend_label(HotkeyBackend::Portal, os),
        SpawnStep::Try(Attempt::X11) => backend_label(HotkeyBackend::X11, os),
        SpawnStep::Disabled => backend_label(HotkeyBackend::Disabled, os),
        SpawnStep::PortalIsLinuxOnly => backend_label(HotkeyBackend::Portal, os),
        SpawnStep::GiveUp => seq![],
    }
}

/// The description names what is in fact tried first.
pub proof fn law_description_names_the_first_attempt(
    session: Session,
    forced: Option<HotkeyBackend>,
)
    ensures
        description(session, resolved(session, forced)) == first_step_name(
            step_after(session, resolved(session, forced), 0),
            session.os,
        ),
{
}

/// A forced backend wins over whatever the session looks like.
pub proof fn law_forced_backend_wins(session: Session, backend: HotkeyBackend)
    ensures
        resolved(session, Some(backend)) == backend,
{
}

/// Case does not matter in the name of a backend.
pub proof fn law_backend_names_ignore_case(s: Seq<char>)
    ensures
        named_backend(crate::text::lowercase(s)) == named_backend(s),
        named_backend(crate::text::uppercase(s)) == named_backend(s),
{
    crate::text::lemma_lowercase_absorbs(s);
}

/// Off Linux an unforced session always has the native listener, whatever the
/// display variables say.
pub proof fn law_native_listener_off_linux(session: Session)
    requires
        session.os != TargetOs::Linux,
    ensures
        resolved(session, None) == HotkeyBackend::X11,
        attempts(session, resolved(session, None)) == seq![Attempt::X11],
{
}

/// Where anything is tried, the X11 listener is tried last and the portal, if
/// the backend is the portal, just before it; nothing is tried twice.
pub proof fn law_x11_is_the_last_resort(session: Session, backend: HotkeyBackend)
    ensures
        ({
            let all = attempts(session, backend);
            &&& all.len() > 0 ==> all.last() == Attempt::X11
            &&& backend == HotkeyBackend::Portal && all.len() > 0 ==> all.len() >= 2
                && all[all.len() - 2] == Attempt::Portal
            &&& all.no_duplicates()
            &&& backend != HotkeyBackend::Portal ==> !all.contains(Attempt::Portal)
                && !all.contains(Attempt::KGlobalAccel) && !all.contains(Attempt::Gsettings)
        }),
{
}

/// Starting a listener comes to an end: there are four attempts at most, and
/// once all of them have failed there is nothing more to try. Giving up comes
/// after an attempt, so there is an error to fail with.
pub proof fn law_attempts_run_out(session: Session, backend: HotkeyBackend, failures: nat)
    ensures
        attempts(session, backend).len() <= 4,
        failures >= attempts(session, backend).len() ==> !(step_after(
            session,
            backend,
            failures,
        ) is Try),
        step_after(session, backend, failures) is GiveUp ==> failures > 0,
{
}

// ---------------------------------------------------------------------
// What a session comes to, case by case
// ---------------------------------------------------------------------

/// On Linux with nothing forced, a Wayland session gets the portal whether or
/// not it has an X display too, a session with an X display alone gets the X11
/// listener, and one with neither gets none.
pub proof fn law_linux_sessions_by_display(session: Session)
    requires
        session.os == TargetOs::Linux,
    ensures
        resolved(session, None) == HotkeyBackend::Portal <==> session.wayland_display,
        resolved(session, None) == HotkeyBackend::X11 <==> !session.wayland_display
            && session.display,
        resolved(session, None) == HotkeyBackend::Disabled <==> !session.wayland_display
            && !session.display,
{
}

/// What the environment lookup answers decides a Linux session in the same way.
pub proof fn law_display_servers_decide(wayland_display: bool, display: bool)
    ensures
        linux_backend(wayland_display, display) == HotkeyBackend::Portal <==> wayland_display,
        linux_backend(wayland_display, display) == HotkeyBackend::X11 <==> !wayland_display
            && display,
        linux_backend(wayland_display, display) == HotkeyBackend::Disabled <==> !wayland_display
            && !display,
{
}

/// Three words name the three backends, and no other text names any.
pub proof fn law_three_words_name_backends(s: Seq<char>)
    ensures
        named_backend(s) == Some(HotkeyBackend::Portal) <==> crate::text::lowercase(s) == "portal"@,
        named_backend(s) == Some(HotkeyBackend::X11) <==> crate::text::lowercase(s) == "x11"@,
        named_backend(s) == Some(HotkeyBackend::Disabled) <==> crate::text::lowercase(s)
            == "disabled"@,
{
    reveal_strlit("portal");
    reveal_strlit("x11");
    reveal_strlit("disabled");
    assert("portal"@.len() == 6 && "x11"@.len() == 3 && "disabled"@.len() == 8);
}

/// The labels: the X11 backend goes by the native mechanism of the system, and
/// the others by the same words everywhere.
pub proof fn law_labels(os: TargetOs)
    ensures
        backend_label(HotkeyBackend::Portal, os) == "Wayland portal"@,
        backend_label(HotkeyBackend::Disabled, os) == "disabled"@,
        backend_label(HotkeyBackend::X11, TargetOs::Linux) == "X11"@,
        backend_label(HotkeyBackend::X11, TargetOs::MacOs) == "Carbon RegisterEventHotKey"@,
        backend_label(HotkeyBackend::X11, TargetOs::Windows) == "Win32 RegisterHotKey"@,
        backend_label(HotkeyBackend::X11, TargetOs::Other) == "global-hotkey"@,
{
}

/// A session is KDE by what its `XDG_CURRENT_DESKTOP` names, where it has one.
pub proof fn law_kde_by_the_desktop_variable(session: Session)
    ensures
        session.current_desktop is None ==> !session.kde(),
        session.current_desktop matches Some(value) ==> session.kde()
            == crate::kde_kglobalaccel::names_kde(value@),
{
}

/// The tiers of the portal backend on Linux: the KDE shim on KDE, the GNOME shim
/// on GNOME, the portal, the X11 listener, each once the one before has failed.
pub proof fn law_tiers_of_the_portal(session: Session, failures: nat)
    requires
        session.os == TargetOs::Linux,
    ensures
        ({
            let kde: nat = if session.kde() {
                1
            } else {
                0
            };
            let gnome: nat = if session.gnome {
                1
            } else {
                0
            };
            let step = step_after(session, HotkeyBackend::Portal, failures);
            &&& step == SpawnStep::Try(Attempt::KGlobalAccel) <==> failures < kde
            &&& step == SpawnStep::Try(Attempt::Gsettings) <==> kde <= failures < kde + gnome
            &&& step == SpawnStep::Try(Attempt::Portal) <==> failures == kde + gnome
            &&& step == SpawnStep::Try(Attempt::X11) <==> failures == kde + gnome + 1
            &&& step == SpawnStep::GiveUp <==> failures > kde + gnome + 1
        }),
{
}

/// The other backends: the X11 listener is tried once, a disabled one never, and
/// the portal off Linux fails at once.
pub proof fn law_other_backends_have_one_tier(session: Session, failures: nat)
    ensures
        step_after(session, HotkeyBackend::X11, 0) == SpawnStep::Try(Attempt::X11),
        failures > 0 ==> step_after(session, HotkeyBackend::X11, failures) == SpawnStep::GiveUp,
        step_after(session, HotkeyBackend::Disabled, failures) == SpawnStep::Disabled,
        session.os != TargetOs::Linux ==> step_after(session, HotkeyBackend::Portal, failures)
            == SpawnStep::PortalIsLinuxOnly,
{
}

/// How a backend is described: on Linux the portal goes by the shim ahead of it,
/// KDE before GNOME, and everything else by its label.
pub proof fn law_descriptions(session: Session, backend: HotkeyBackend)
    ensures
        ({
            let shimmed = session.os == TargetOs::Linux && backend == HotkeyBackend::Portal;
            &&& shimmed && session.kde() ==> description(session, backend)
                == "KDE KGlobalAccel via KWin (falls back to the portal, then X11)"@
            &&& shimmed && !session.kde() && session.gnome ==> description(session, backend)
                == "GNOME gsettings custom-keybindings (falls back to the portal, then X11)"@
            &&& !shimmed || !session.kde() && !session.gnome ==> description(session, backend)
                == backend_label(backend, session.os)
        }),
{
}

} // verus!
