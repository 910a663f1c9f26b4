# fono_hotkey

The global hotkeys of the Fono voice daemon, as a verified Verus library.

- `src/detect.rs`: which backend serves a session, what it is called, and in
  what order the listeners are tried.
- `src/parse.rs`, `src/qt_keys.rs`: from a binding such as `Ctrl+Alt+Space` to
  the integer that Qt and KGlobalAccel use for it.
- `src/shortcut.rs`, `src/fsm.rs`, `src/listener.rs`: shortcut ids, actions, and
  how presses and releases turn into actions.
- `src/kde_kglobalaccel.rs`: the requests to `org.kde.KGlobalAccel`, the course
  of a registration, the cancel key, and the listener's reaction to each event.
- `src/kde_strays.rs`: shortcuts of the daemon left under other components.
- `src/text.rs`: ASCII case, splitting, trimming.

Functions named `law_*` state what holds across functions. `app/` is the edge:
the environment, the session bus, threads and logging. Backends outside KDE
reach it through the trait `OtherListeners`.
