//! Shortcut vocabulary and press/release bookkeeping that the desktop
//! integration backends share.
//!
//! The ids and descriptions end up in the user's desktop configuration, so
//! they are the same whichever backend registers them. Every press emits its
//! action at once; a release emits a second one only if the key was held for
//! at least the long-press threshold.
use std::time::Instant;

use tokio::sync::mpsc::UnboundedSender;
use vstd::prelude::*;

use crate::fsm::HotkeyAction;
use crate::listener::{KeyHeldFlags, LONG_PRESS_THRESHOLD_MS};
use crate::text::same;

verus! {

pub const DICTATION: &'static str = "dictation";

pub const ASSISTANT: &'static str = "assistant";

pub const CANCEL: &'static str = "cancel";

pub const DICTATION_DESC: &'static str = "Toggle voice dictation";

pub const ASSISTANT_DESC: &'static str = "Toggle voice assistant";

pub const CANCEL_DESC: &'static str = "Cancel recording / assistant turn";

/// Every `(id, description)` pair that is registered, in binding order.
pub const ALL: [(&'static str, &'static str); 3] = [
    (DICTATION, DICTATION_DESC),
    (ASSISTANT, ASSISTANT_DESC),
    (CANCEL, CANCEL_DESC),
];

/// A point in time.
#[verifier::external_type_specification]
#[verifier::external_body]
pub struct ExInstant(std::time::Instant);

/// The sending half of a channel.
#[verifier::external_type_specification]
#[verifier::external_body]
#[verifier::reject_recursive_types(T)]
pub struct ExUnboundedSender<T>(tokio::sync::mpsc::UnboundedSender<T>);

/// The actions that a sending half has put on its channel, oldest first.
pub uninterp spec fn sent_actions(tx: UnboundedSender<HotkeyAction>) -> Seq<HotkeyAction>;

/// The actions that have been handed to a sending half, oldest first, whether or
/// not its channel was still open.
pub uninterp spec fn offered_actions(tx: UnboundedSender<HotkeyAction>) -> Seq<HotkeyAction>;

/// `UnboundedSender::send` of `tokio`: puts the action on the channel after
/// those sent before, or, when the receiving half is closed, leaves the channel
/// as it is and reports failure. Either way the action has been handed over.
/// Whether the channel is closed is up to the receiver, so nothing is said of
/// that.
#[verifier::external_body]
fn send_action(tx: &mut UnboundedSender<HotkeyAction>, action: HotkeyAction) -> (ok: bool)
    ensures
        sent_actions(*final(tx)) == if ok {
            sent_actions(*old(tx)).push(action)
        } else {
            sent_actions(*old(tx))
        },
        offered_actions(*final(tx)) == offered_actions(*old(tx)).push(action),
{
    tx.send(action).is_ok()
}

/// `Instant::now`. Nothing is said of the time it gives.
#[verifier::external_body]
pub(crate) fn current_instant() -> Instant {
    Instant::now()
}

/// `Instant::elapsed`, in nanoseconds. Nothing is said of how long it has been.
#[verifier::external_body]
pub(crate) fn nanoseconds_since(t0: &Instant) -> u128 {
    t0.elapsed().as_nanos()
}

/// Whether `now` is a time that the clock can give.
pub closed spec fn is_current(now: Instant) -> bool {
    call_ensures(current_instant, (), now)
}

/// Whether `held_ns` is what the clock can answer to how many nanoseconds ago
/// `t0` was.
pub closed spec fn is_elapsed(t0: Instant, held_ns: u128) -> bool {
    call_ensures(nanoseconds_since, (&t0,), held_ns)
}

/// The role of a shortcut.
#[derive(Debug, Clone, Copy, PartialEq, Eq, Structural)]
pub enum Role {
    Dictation,
    Assistant,
    Cancel,
}

/// The role that a shortcut id names, if it is one of ours.
pub open spec fn role_of(id: Seq<char>) -> Option<Role> {
    if id == DICTATION@ {
        Some(Role::Dictation)
    } else if id == ASSISTANT@ {
        Some(Role::Assistant)
    } else if id == CANCEL@ {
        Some(Role::Cancel)
    } else {
        None
    }
}

/// The action that a role stands for.
pub open spec fn action_of(role: Role) -> HotkeyAction {
    match role {
        Role::Dictation => HotkeyAction::TogglePressed,
        Role::Assistant => HotkeyAction::AssistantPressed,
        Role::Cancel => HotkeyAction::CancelPressed,
    }
}

/// Whether a key that was down for so many nanoseconds was held, not tapped.
pub open spec fn is_hold(held_ns: nat) -> bool {
    held_ns >= LONG_PRESS_THRESHOLD_MS * 1_000_000
}

/// When each toggle key went down, and whether it is down now.
pub struct PressState {
    pub dictation_press_at: Option<Instant>,
    pub assistant_press_at: Option<Instant>,
    pub dictation_held: bool,
    pub assistant_held: bool,
}

impl PressState {
    /// When the key of `role` went down, if that press still awaits its
    /// release. The cancel key is never tracked.
    pub open spec fn press_at(self, role: Role) -> Option<Instant> {
        match role {
            Role::Dictation => self.dictation_press_at,
            Role::Assistant => self.assistant_press_at,
            Role::Cancel => None,
        }
    }

    /// Whether the key of `role` is down. The cancel key is never tracked.
    pub open spec fn held(self, role: Role) -> bool {
        match role {
            Role::Dictation => self.dictation_held,
            Role::Assistant => self.assistant_held,
            Role::Cancel => false,
        }
    }

    /// When the key of shortcut `id` went down, if that press still awaits its
    /// release.
    pub open spec fn awaited(self, id: Seq<char>) -> Option<Instant> {
        match role_of(id) {
            Some(role) => self.press_at(role),
            None => None,
        }
    }

    /// The state after the key of shortcut `id` went down at `now`.
    pub open spec fn after_press(self, id: Seq<char>, now: Instant) -> PressState {
        match role_of(id) {
            Some(Role::Dictation) => PressState {
                dictation_press_at: Some(now),
                dictation_held: true,
                ..self
            },
            Some(Role::Assistant) => PressState {
                assistant_press_at: Some(now),
                assistant_held: true,
                ..self
            },
            _ => self,
        }
    }

    /// The state after the key of shortcut `id` came up.
    pub open spec fn after_release(self, id: Seq<char>) -> PressState {
        match role_of(id) {
            Some(Role::Dictation) => PressState {
                dictation_press_at: None,
                dictation_held: false,
                ..self
            },
            Some(Role::Assistant) => PressState {
                assistant_press_at: None,
                assistant_held: false,
                ..self
            },
            _ => self,
        }
    }

    /// What the release of shortcut `id` emits when its key was down for
    /// `held_ns` nanoseconds: the action again after a hold, nothing after a
    /// tap, and nothing where no press was recorded.
    pub open spec fn release_action(self, id: Seq<char>, held_ns: nat) -> Option<HotkeyAction> {
        match role_of(id) {
            Some(role) => if self.press_at(role) is Some && is_hold(held_ns) {
                Some(action_of(role))
            } else {
                None
            },
            None => None,
        }
    }
}

/// What the press of shortcut `id` emits.
pub open spec fn press_action(id: Seq<char>) -> Option<HotkeyAction> {
    match role_of(id) {
        Some(role) => Some(action_of(role)),
        None => None,
    }
}

/// What has been sent once `action`, if there is one, was handed to the
/// channel and the channel accepted it or, being closed, did not.
pub open spec fn delivered(
    sent: Seq<HotkeyAction>,
    action: Option<HotkeyAction>,
    open: bool,
) -> Seq<HotkeyAction> {
    match action {
        Some(a) => if open {
            sent.push(a)
        } else {
            sent
        },
        None => sent,
    }
}

/// When each toggle key went down, so that a release can tell a tap (the
/// recording stays latched on) from a hold (the release stops it).
#[derive(Debug)]
pub struct PressTracker {
    /// Backend name for log lines, `"portal"` or `"kglobalaccel"`.
    pub backend: &'static str,
    pub dictation_press_at: Option<Instant>,
    pub assistant_press_at: Option<Instant>,
}

/// The role that a shortcut id names, if it is one of ours.
pub fn shortcut_role(id: &str) -> (r: Option<Role>)
    ensures
        r == role_of(id@),
{
    if same(id, DICTATION) {
        Some(Role::Dictation)
    } else if same(id, ASSISTANT) {
        Some(Role::Assistant)
    } else if same(id, CANCEL) {
        Some(Role::Cancel)
    } else {
        None
    }
}

impl PressTracker {
    /// The tracker's presses together with the held flags.
    pub open spec fn state(self, held_flags: KeyHeldFlags) -> PressState {
        PressState {
            dictation_press_at: self.dictation_press_at,
            assistant_press_at: self.assistant_press_at,
            dictation_held: held_flags.dictation,
            assistant_held: held_flags.assistant,
        }
    }

    pub fn new(backend: &'static str) -> (r: PressTracker)
        ensures
            r.backend == backend,
            r.dictation_press_at is None,
            r.assistant_press_at is None,
    {
        PressTracker { backend, dictation_press_at: None, assistant_press_at: None }
    }

    /// Records that the key of shortcut `id` went down at `now`, and gives the
    /// action that this emits. An unknown id changes nothing and emits nothing.
    pub fn press_at(&mut self, id: &str, held_flags: &mut KeyHeldFlags, now: Instant) -> (action:
        Option<HotkeyAction>)
        ensures
            final(self).backend == old(self).backend,
            final(self).state(*final(held_flags)) == old(self).state(
                *old(held_flags),
            ).after_press(id@, now),
            action == press_action(id@),
            final(self).dictation_press_at == (if id@ == "dictation"@ {
                Some(now)
            } else {
                old(self).dictation_press_at
            }),
            final(self).assistant_press_at == (if id@ == "assistant"@ {
                Some(now)
            } else {
                old(self).assistant_press_at
            }),
            final(held_flags).dictation == (old(held_flags).dictation || id@ == "dictation"@),
            final(held_flags).assistant == (old(held_flags).assistant || id@ == "assistant"@),
    {
        proof {
            law_each_role_has_its_id();
        }
        match shortcut_role(id) {
            Some(Role::Dictation) => {
                self.dictation_press_at = Some(now);
                held_flags.dictation = true;
                Some(HotkeyAction::TogglePressed)
            },
            Some(Role::Assistant) => {
                self.assistant_press_at = Some(now);
                held_flags.assistant = true;
                Some(HotkeyAction::AssistantPressed)
            },
            Some(Role::Cancel) => Some(HotkeyAction::CancelPressed),
            None => None,
        }
    }

    /// Records that the key of shortcut `id` came up after `held_ns`
    /// nanoseconds, and gives the action that this emits.
    pub fn release_after(&mut self, id: &str, held_flags: &mut KeyHeldFlags, held_ns: u128) -> (
    action: Option<HotkeyAction>)
        ensures
            final(self).backend == old(self).backend,
            final(self).state(*final(held_flags)) == old(self).state(
                *old(held_flags),
            ).after_release(id@),
            action == old(self).state(*old(held_flags)).release_action(id@, held_ns as nat),
            action == (if held_ns < 500_000_000 {
                None
            } else if id@ == "dictation"@ && old(self).dictation_press_at is Some {
                Some(HotkeyAction::TogglePressed)
            } else if id@ == "assistant"@ && old(self).assistant_press_at is Some {
                Some(HotkeyAction::AssistantPressed)
            } else {
                None
            }),
            final(self).dictation_press_at == (if id@ == "dictation"@ {
                None
            } else {
                old(self).dictation_press_at
            }),
            final(self).assistant_press_at == (if id@ == "assistant"@ {
                None
            } else {
                old(self).assistant_press_at
            }),
            final(held_flags).dictation == (old(held_flags).dictation && id@ != "dictation"@),
            final(held_flags).assistant == (old(held_flags).assistant && id@ != "assistant"@),
    {
        proof {
            law_each_role_has_its_id();
        }
        let hold: bool = held_ns >= LONG_PRESS_THRESHOLD_MS as u128 * 1_000_000;
        match shortcut_role(id) {
            Some(Role::Dictation) => {
                held_flags.dictation = false;
                let pressed: bool = self.dictation_press_at.is_some();
                self.dictation_press_at = None;
                if pressed && hold {
                    Some(HotkeyAction::TogglePressed)
                } else {
                    None
                }
            },
            Some(Role::Assistant) => {
                held_flags.assistant = false;
                let pressed: bool = self.assistant_press_at.is_some();
                self.assistant_press_at = None;
                if pressed && hold {
                    Some(HotkeyAction::AssistantPressed)
                } else {
                    None
                }
            },
            _ => None,
        }
    }

    /// Records that the key of shortcut `id` came up, asking `clock` how many
    /// nanoseconds ago its press was, and gives the action that this emits. The
    /// clock is asked about that press and no other, and not at all where none
    /// was recorded.
    pub fn release_by(
        &mut self,
        id: &str,
        held_flags: &mut KeyHeldFlags,
        clock: impl Fn(&Instant) -> u128,
    ) -> (action: Option<HotkeyAction>)
        requires
            old(self).state(*old(held_flags)).awaited(id@) matches Some(t0) ==> clock.requires(
                (&t0,),
            ),
        ensures
            final(self).backend == old(self).backend,
            final(self).state(*final(held_flags)) == old(self).state(
                *old(held_flags),
            ).after_release(id@),
            exists|held_ns: u128|
                {
                    &&& old(self).state(*old(held_flags)).awaited(id@) matches Some(t0)
                        ==> clock.ensures((&t0,), held_ns)
                    &&& action == #[trigger] old(self).state(*old(held_flags)).release_action(
                        id@,
                        held_ns as nat,
                    )
                },
    {
        let press = match shortcut_role(id) {
            Some(Role::Dictation) => self.dictation_press_at,
            Some(Role::Assistant) => self.assistant_press_at,
            _ => None,
        };
        let held_ns: u128 = match press {
            Some(t0) => clock(&t0),
            None => 0,
        };
        self.release_after(id, held_flags, held_ns)
    }

    /// Translates a shortcut activation into its action and forwards it.
    /// `false` once the action channel has closed.
    pub fn pressed(
        &mut self,
        id: &str,
        held_flags: &mut KeyHeldFlags,
        tx: &mut UnboundedSender<HotkeyAction>,
    ) -> (open: bool)
        ensures
            final(self).backend == old(self).backend,
            exists|now: Instant|
                is_current(now) && final(self).state(*final(held_flags)) == #[trigger] old(
                    self,
                ).state(*old(held_flags)).after_press(id@, now),
            offered_actions(*final(tx)) == delivered(
                offered_actions(*old(tx)),
                press_action(id@),
                true,
            ),
            sent_actions(*final(tx)) == delivered(sent_actions(*old(tx)), press_action(id@), open),
            press_action(id@) is None ==> open,
    {
        // Asked through a value, so that the answer is known to be the clock's.
        let clock = current_instant;
        let now = clock();
        match self.press_at(id, held_flags, now) {
            Some(action) => send_action(tx, action),
            None => true,
        }
    }

    /// Translates a shortcut release. A tap emits nothing more; a hold emits
    /// the action a second time. `false` once the action channel has closed.
    pub fn released(
        &mut self,
        id: &str,
        held_flags: &mut KeyHeldFlags,
        tx: &mut UnboundedSender<HotkeyAction>,
    ) -> (open: bool)
        ensures
            final(self).backend == old(self).backend,
            final(self).state(*final(held_flags)) == old(self).state(
                *old(held_flags),
            ).after_release(id@),
            exists|held_ns: u128|
                {
                    let action = #[trigger] old(self).state(*old(held_flags)).release_action(
                        id@,
                        held_ns as nat,
                    );
                    &&& old(self).state(*old(held_flags)).awaited(id@) matches Some(t0)
                        ==> is_elapsed(t0, held_ns)
                    &&& offered_actions(*final(tx)) == delivered(
                        offered_actions(*old(tx)),
                        action,
                        true,
                    )
                    &&& sent_actions(*final(tx)) == delivered(
                        sent_actions(*old(tx)),
                        action,
                        open,
                    )
                    &&& action is None ==> open
                },
    {
        match self.release_by(id, held_flags, nanoseconds_since) {
            Some(action) => send_action(tx, action),
            None => true,
        }
    }
}

/// The three ids name three different roles.
pub proof fn law_each_role_has_its_id()
    ensures
        role_of(DICTATION@) == Some(Role::Dictation),
        role_of(ASSISTANT@) == Some(Role::Assistant),
        role_of(CANCEL@) == Some(Role::Cancel),
{
    reveal_strlit("dictation");
    reveal_strlit("assistant");
    reveal_strlit("cancel");
    assert(DICTATION@[0] != ASSISTANT@[0]);
    assert(DICTATION@.len() != CANCEL@.len());
    assert(ASSISTANT@.len() != CANCEL@.len());
}

/// A press and its release on an open channel send the action of the key once
/// after a tap and twice after a hold; the key is known to be down in between
/// and up afterwards, with no press left to be released.
pub proof fn law_tap_sends_once_hold_sends_twice(
    before: PressState,
    id: Seq<char>,
    now: Instant,
    held_ns: nat,
    sent: Seq<HotkeyAction>,
)
    requires
        role_of(id) == Some(Role::Dictation) || role_of(id) == Some(Role::Assistant),
    ensures
        ({
            let role = role_of(id)->0;
            let action = action_of(role);
            let down = before.after_press(id, now);
            let up = down.after_release(id);
            let once = delivered(sent, press_action(id), true);
            let end = delivered(once, down.release_action(id, held_ns), true);
            &&& down.held(role)
            &&& down.press_at(role) == Some(now)
            &&& !up.held(role)
            &&& up.press_at(role) is None
            &&& once == sent.push(action)
            &&& end == if is_hold(held_ns) {
                sent.push(action).push(action)
            } else {
                sent.push(action)
            }
        }),
{
}

/// The cancel key fires when it goes down and never when it comes up, and it
/// leaves no trace in between.
pub proof fn law_cancel_fires_on_press_only(
    before: PressState,
    id: Seq<char>,
    now: Instant,
    held_ns: nat,
)
    requires
        role_of(id) == Some(Role::Cancel),
    ensures
        press_action(id) == Some(HotkeyAction::CancelPressed),
        before.after_press(id, now) == before,
        before.release_action(id, held_ns) is None,
        before.after_release(id) == before,
{
}

/// An id that is none of ours changes nothing and emits nothing.
pub proof fn law_unknown_ids_are_ignored(
    before: PressState,
    id: Seq<char>,
    now: Instant,
    held_ns: nat,
)
    requires
        role_of(id) is None,
    ensures
        press_action(id) is None,
        before.after_press(id, now) == before,
        before.release_action(id, held_ns) is None,
        before.after_release(id) == before,
{
}

/// A press is released once: whatever was held before, a second release in a
/// row emits nothing, and so does a release without a press.
pub proof fn law_release_without_press_is_silent(before: PressState, id: Seq<char>, held_ns: nat)
    ensures
        before.after_release(id).release_action(id, held_ns) is None,
        (forall|role: Role| before.press_at(role) is None) ==> before.release_action(
            id,
            held_ns,
        ) is None,
{
}

/// The keys do not disturb each other: pressing or releasing one leaves the
/// press and the held flag of every other as they were.
pub proof fn law_roles_are_independent(before: PressState, id: Seq<char>, now: Instant, other: Role)
    requires
        role_of(id) != Some(other),
    ensures
        before.after_press(id, now).press_at(other) == before.press_at(other),
        before.after_press(id, now).held(other) == before.held(other),
        before.after_release(id).press_at(other) == before.press_at(other),
        before.after_release(id).held(other) == before.held(other),
{
}

// ---------------------------------------------------------------------
// What presses and releases come to, field by field
// ---------------------------------------------------------------------

/// An id names a role exactly where it is the word for it.
pub proof fn law_ids_are_words(id: Seq<char>)
    ensures
        role_of(id) == Some(Role::Dictation) <==> id == "dictation"@,
        role_of(id) == Some(Role::Assistant) <==> id == "assistant"@,
        role_of(id) == Some(Role::Cancel) <==> id == "cancel"@,
{
    law_each_role_has_its_id();
}

/// A press emits the action of its key at once, whichever key it is.
pub proof fn law_a_press_emits_its_action(id: Seq<char>)
    ensures
        press_action(id) == Some(HotkeyAction::TogglePressed) <==> id == "dictation"@,
        press_action(id) == Some(HotkeyAction::AssistantPressed) <==> id == "assistant"@,
        press_action(id) == Some(HotkeyAction::CancelPressed) <==> id == "cancel"@,
{
    law_ids_are_words(id);
}

/// The release of a toggle key whose press is recorded emits the action of the
/// key exactly where the key was down for half a second or longer. No other
/// release emits anything.
pub proof fn law_a_release_emits_after_half_a_second(
    before: PressState,
    id: Seq<char>,
    held_ns: nat,
)
    ensures
        before.release_action(id, held_ns) == Some(HotkeyAction::TogglePressed) <==> (id
            == "dictation"@ && before.dictation_press_at is Some && held_ns >= 500_000_000),
        before.release_action(id, held_ns) == Some(HotkeyAction::AssistantPressed) <==> (id
            == "assistant"@ && before.assistant_press_at is Some && held_ns >= 500_000_000),
        before.release_action(id, held_ns) != Some(HotkeyAction::CancelPressed),
{
    law_ids_are_words(id);
}

/// What counts as a hold goes on counting as one: a longer hold emits what a
/// shorter one does, and a shorter tap nothing where a longer one emits nothing.
pub proof fn law_a_longer_hold_is_a_hold(
    before: PressState,
    id: Seq<char>,
    shorter: nat,
    longer: nat,
)
    requires
        shorter <= longer,
    ensures
        before.release_action(id, shorter) is Some ==> before.release_action(id, longer)
            == before.release_action(id, shorter),
        before.release_action(id, longer) is None ==> before.release_action(id, shorter) is None,
{
}

/// A press records when it was and that its key is down, of its own key only.
pub proof fn law_a_press_is_recorded(before: PressState, id: Seq<char>, now: Instant)
    ensures
        ({
            let after = before.after_press(id, now);
            &&& after.dictation_press_at == if id == "dictation"@ {
                Some(now)
            } else {
                before.dictation_press_at
            }
            &&& after.assistant_press_at == if id == "assistant"@ {
                Some(now)
            } else {
                before.assistant_press_at
            }
            &&& after.dictation_held == (before.dictation_held || id == "dictation"@)
            &&& after.assistant_held == (before.assistant_held || id == "assistant"@)
        }),
{
    law_ids_are_words(id);
}

/// A release forgets the press and that the key was down, of its own key only.
pub proof fn law_a_release_forgets_the_press(before: PressState, id: Seq<char>)
    ensures
        ({
            let after = before.after_release(id);
            &&& after.dictation_press_at == if id == "dictation"@ {
                None
            } else {
                before.dictation_press_at
            }
            &&& after.assistant_press_at == if id == "assistant"@ {
                None
            } else {
                before.assistant_press_at
            }
            &&& after.dictation_held == (before.dictation_held && id != "dictation"@)
            &&& after.assistant_held == (before.assistant_held && id != "assistant"@)
        }),
{
    law_ids_are_words(id);
}

/// The press that a release ends is the one of its own key.
pub proof fn law_a_release_ends_its_own_press(before: PressState, id: Seq<char>)
    ensures
        before.awaited(id) == if id == "dictation"@ {
            before.dictation_press_at
        } else if id == "assistant"@ {
            before.assistant_press_at
        } else {
            None
        },
{
    law_ids_are_words(id);
}

/// The state is that of the tracker and the flags, each by its own name.
pub proof fn law_the_state_is_the_tracker_and_the_flags(tracker: PressTracker, flags: KeyHeldFlags)
    ensures
        tracker.state(flags).dictation_press_at == tracker.dictation_press_at,
        tracker.state(flags).assistant_press_at == tracker.assistant_press_at,
        tracker.state(flags).dictation_held == flags.dictation,
        tracker.state(flags).assistant_held == flags.assistant,
{
}

/// What is handed to an open channel comes after all that was sent before, and
/// nothing else is sent.
pub proof fn law_delivery_appends(sent: Seq<HotkeyAction>, action: HotkeyAction, open: bool)
    ensures
        delivered(sent, Some(action), true) == sent + seq![action],
        delivered(sent, Some(action), false) == sent,
        delivered(sent, None, open) == sent,
{
    assert(sent + seq![action] =~= sent.push(action));
}

/// The times that are recorded and measured are the clock's own answers.
pub(crate) proof fn law_times_are_the_clocks(t0: Instant, held_ns: u128)
    ensures
        is_current(t0) <==> call_ensures(current_instant, (), t0),
        is_elapsed(t0, held_ns) <==> call_ensures(nanoseconds_since, (&t0,), held_ns),
{
}

} // verus!
