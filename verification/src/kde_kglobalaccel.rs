//! KDE-native global hotkeys through `org.kde.KGlobalAccel`.
//!
//! On KDE the portal is no way in: it derives the app id of an unsandboxed
//! process from the systemd unit it happens to live in, and refuses the caller
//! or files its keys under the terminal that launched it. KGlobalAccel, which
//! KWin serves and the portal itself is built on, takes the daemon directly and
//! reports presses as well as releases.
//!
//! An action is named by `[componentUnique, actionUnique, componentFriendly,
//! actionFriendly]`, and a key combination is one Qt integer. Keys are bound by
//! `doRegister` and then `setShortcut`, whose keys are a plain list of integers;
//! its answer holds the keys that were granted. The cancel key is registered
//! without keys, and given some only while a recording is in flight.
use ashpd::zvariant;
use tokio::sync::mpsc::UnboundedSender;
use vstd::prelude::*;

use crate::fsm::HotkeyAction;
use crate::listener::{HotkeyBindings, HotkeyControl, KeyHeldFlags};
use crate::parse::{parse_hotkey, ParseError, ParsedHotkey};
use crate::qt_keys::to_qt_key;
use crate::shortcut::{
    PressTracker, ASSISTANT, ASSISTANT_DESC, CANCEL, CANCEL_DESC, DICTATION, DICTATION_DESC,
};
use crate::text::{same_uppercased, split, trim};

verus! {

pub const SERVICE: &'static str = "org.kde.kglobalaccel";

pub const MAIN_PATH: &'static str = "/kglobalaccel";

pub const MAIN_IFACE: &'static str = "org.kde.KGlobalAccel";

pub const COMPONENT_IFACE: &'static str = "org.kde.kglobalaccel.Component";

/// The unique id of the daemon's component, under which the bindings are
/// stored and grouped.
pub const COMPONENT: &'static str = "fono";

pub const COMPONENT_FRIENDLY: &'static str = "Fono";

/// Marks a shortcut active.
pub const SET_PRESENT: u32 = 2;

/// Makes the request win over whatever is stored.
pub const NO_AUTOLOADING: u32 = 4;

pub const SET_FLAGS: u32 = SET_PRESENT | NO_AUTOLOADING;

/// Whether a colon-delimited list of desktop names has `KDE`, in any ASCII
/// case, among its entries.
pub open spec fn names_kde(value: Seq<char>) -> bool {
    exists|i: int|
        0 <= i < crate::text::split_on(value, ':').len() && crate::text::uppercase(
            #[trigger] crate::text::split_on(value, ':')[i],
        ) == "KDE"@
}

/// Whether `value`, the content of `XDG_CURRENT_DESKTOP`, names KDE. The
/// variable is colon-delimited, and distributions prepend their own name.
pub fn is_kde_desktop(value: &str) -> (r: bool)
    ensures
        r == names_kde(value@),
{
    let parts = split(value, ':');
    let mut i: usize = 0;
    while i < parts.len()
        invariant
            i <= parts.len(),
            crate::text::str_views(parts@) == crate::text::split_on(value@, ':'),
            forall|k: int|
                0 <= k < i ==> crate::text::uppercase(
                    #[trigger] crate::text::split_on(value@, ':')[k],
                ) != "KDE"@,
        decreases parts.len() - i,
    {
        assert(crate::text::str_views(parts@)[i as int] == parts@[i as int]@);
        if same_uppercased(parts[i], "KDE") {
            return true;
        }
        i = i + 1;
    }
    false
}

/// Whether the session is KDE Plasma, by the content of `XDG_CURRENT_DESKTOP`
/// where it is set.
pub fn is_kde_session(current_desktop: Option<&str>) -> (r: bool)
    ensures
        r == (current_desktop matches Some(value) && names_kde(value@)),
{
    match current_desktop {
        Some(value) => is_kde_desktop(value),
        None => false,
    }
}

/// Only whole entries count: a list made of two names KDE exactly when one of
/// the two does.
pub proof fn law_kde_is_a_whole_entry(a: Seq<char>, b: Seq<char>)
    ensures
        names_kde(a.push(':') + b) == (names_kde(a) || names_kde(b)),
{
    crate::text::law_joined_texts_split_apart(a, b, ':');
    let left = crate::text::split_on(a, ':');
    let right = crate::text::split_on(b, ':');
    let whole = crate::text::split_on(a.push(':') + b, ':');
    if names_kde(a) {
        let i = choose|i: int|
            0 <= i < left.len() && crate::text::uppercase(#[trigger] left[i]) == "KDE"@;
        assert(whole[i] == left[i]);
    }
    if names_kde(b) {
        let i = choose|i: int|
            0 <= i < right.len() && crate::text::uppercase(#[trigger] right[i]) == "KDE"@;
        assert(whole[left.len() + i] == right[i]);
    }
    if names_kde(a.push(':') + b) {
        let i = choose|i: int|
            0 <= i < whole.len() && crate::text::uppercase(#[trigger] whole[i]) == "KDE"@;
        if i < left.len() {
            assert(left[i] == whole[i]);
        } else {
            assert(right[i - left.len()] == whole[i]);
        }
    }
}

// ---------------------------------------------------------------------
// Requests
// ---------------------------------------------------------------------

/// The four names of an action, in the order that KGlobalAccel wants.
pub open spec fn action_words(id: Seq<char>, description: Seq<char>) -> Seq<Seq<char>> {
    seq![COMPONENT@, id, COMPONENT_FRIENDLY@, description]
}

/// `[componentUnique, actionUnique, componentFriendly, actionFriendly]`.
pub fn action_id(id: &str, description: &str) -> (r: Vec<String>)
    ensures
        crate::text::string_views(r@) == action_words(id@, description@),
{
    let mut v: Vec<String> = Vec::new();
    v.push(COMPONENT.to_owned());
    v.push(id.to_owned());
    v.push(COMPONENT_FRIENDLY.to_owned());
    v.push(description.to_owned());
    assert(crate::text::string_views(v@) =~= action_words(id@, description@));
    v
}

/// The arguments of `doRegister` (the action) and of the `setShortcut` after it
/// (all three).
#[derive(Debug, Clone)]
pub struct ShortcutRequest {
    pub action: Vec<String>,
    pub keys: Vec<i32>,
    pub flags: u32,
}

impl ShortcutRequest {
    /// The request registers shortcut `id` and gives it exactly these keys.
    pub open spec fn asks(self, id: Seq<char>, description: Seq<char>, keys: Seq<i32>) -> bool {
        &&& crate::text::string_views(self.action@) == action_words(id, description)
        &&& self.keys@ == keys
        &&& self.flags == SET_FLAGS
    }
}

/// The request that registers shortcut `id` and sets its key list. An empty list
/// clears the binding without unregistering the action.
pub fn shortcut_request(id: &str, description: &str, keys: Vec<i32>) -> (r: ShortcutRequest)
    ensures
        r.asks(id@, description@, keys@),
{
    ShortcutRequest { action: action_id(id, description), keys, flags: SET_FLAGS }
}

/// Whether `key` is among `keys`.
fn has_key(keys: &Vec<i32>, key: i32) -> (r: bool)
    ensures
        r == keys@.contains(key),
{
    let mut i: usize = 0;
    while i < keys.len()
        invariant
            i <= keys.len(),
            forall|k: int| 0 <= k < i ==> keys@[k] != key,
        decreases keys.len() - i,
    {
        if keys[i] == key {
            return true;
        }
        i = i + 1;
    }
    false
}

// ---------------------------------------------------------------------
// Bindings
// ---------------------------------------------------------------------

/// What a configured binding comes to.
#[derive(Debug, Clone, Copy, PartialEq, Eq, Structural)]
pub enum BindingPlan {
    /// Nothing is configured: the action is registered without keys.
    Unbound,
    /// The text is no binding, so the action is skipped.
    Unparsable(ParseError),
    /// The key has no Qt value, so the action is skipped.
    NoQtKey,
    /// The action is registered with this key.
    Key(i32),
}

/// What a binding comes to once it has been read.
pub open spec fn plan_of(meaning: Result<(u32, Seq<char>), ParseError>) -> BindingPlan {
    match meaning {
        Ok((bits, name)) => match crate::qt_keys::encoding(bits, name) {
            Some(key) => BindingPlan::Key(key),
            None => BindingPlan::NoQtKey,
        },
        Err(e) => BindingPlan::Unparsable(e),
    }
}

/// What a configured binding comes to.
pub open spec fn plan_for(binding: Seq<char>) -> BindingPlan {
    let text = crate::text::trimmed(binding);
    if text.len() == 0 {
        BindingPlan::Unbound
    } else {
        plan_of(crate::parse::meaning(text))
    }
}

/// The key that a binding of modifiers and a common key comes to; `None` for any
/// other binding.
pub open spec fn common_key(binding: Seq<char>) -> Option<i32> {
    match crate::parse::common_meaning(crate::text::trimmed(binding)) {
        Some((bits, name)) => crate::qt_keys::encoding(bits, name),
        None => None,
    }
}

/// The key that a plan asks for, if it asks for one.
pub open spec fn key_of(plan: BindingPlan) -> Option<i32> {
    match plan {
        BindingPlan::Key(key) => Some(key),
        _ => None,
    }
}

/// The keys that a plan asks for, if it asks at all.
pub open spec fn requested_keys(plan: BindingPlan) -> Option<Seq<i32>> {
    match plan {
        BindingPlan::Unbound => Some(Seq::<i32>::empty()),
        BindingPlan::Key(key) => Some(seq![key]),
        BindingPlan::Unparsable(_) => None,
        BindingPlan::NoQtKey => None,
    }
}

/// Whether the keys that were granted hold the one that the plan asks for. The
/// current keys come back where the combination is already taken.
pub open spec fn is_granted(plan: BindingPlan, granted: Seq<i32>) -> bool {
    plan matches BindingPlan::Key(key) && granted.contains(key)
}

/// What a binding comes to once it has been read.
pub fn plan_parsed(parsed: Result<ParsedHotkey, ParseError>) -> (r: BindingPlan)
    ensures
        r == plan_of(crate::parse::parsed_view(parsed)),
{
    match parsed {
        Ok(p) => match to_qt_key(&p) {
            Some(key) => BindingPlan::Key(key),
            None => BindingPlan::NoQtKey,
        },
        Err(e) => BindingPlan::Unparsable(e),
    }
}

/// What a configured binding comes to. It comes to a key exactly where its last
/// token stands for a common key, and to that one.
pub fn plan_binding(binding: &str) -> (r: BindingPlan)
    ensures
        r == plan_for(binding@),
        key_of(r) == common_key(binding@),
{
    let text = trim(binding);
    if text.is_empty() {
        proof {
            lemma_empty_is_no_common_key();
            assert(text@ =~= Seq::<char>::empty());
        }
        return BindingPlan::Unbound;
    }
    let parsed = parse_hotkey(text);
    proof {
        if parsed is Ok && crate::qt_keys::key_code(parsed->Ok_0.code.name@) is Some {
            crate::qt_keys::law_encoded_keys_are_common(parsed->Ok_0.code);
        }
        if let Some((bits, name)) = crate::parse::common_meaning(text@) {
            crate::qt_keys::law_common_keys_are_encoded(bits, name);
        }
    }
    plan_parsed(parsed)
}

/// The request for a role whose binding came to `plan`; `None` where the
/// binding cannot be honoured and the role is skipped.
pub fn bind_role(id: &str, description: &str, plan: BindingPlan) -> (r: Option<ShortcutRequest>)
    ensures
        r is Some == requested_keys(plan) is Some,
        r matches Some(request) ==> request.asks(id@, description@, requested_keys(plan)->0),
{
    match plan {
        BindingPlan::Unbound => {
            let keys: Vec<i32> = Vec::new();
            Some(shortcut_request(id, description, keys))
        },
        BindingPlan::Key(key) => {
            let mut keys: Vec<i32> = Vec::new();
            keys.push(key);
            assert(keys@ =~= seq![key]);
            Some(shortcut_request(id, description, keys))
        },
        BindingPlan::Unparsable(_) => None,
        BindingPlan::NoQtKey => None,
    }
}

/// Whether a role is bound, by the keys that were granted to its request.
pub fn role_is_bound(plan: BindingPlan, granted: &Vec<i32>) -> (r: bool)
    ensures
        r == is_granted(plan, granted@),
        r <==> exists|i: int|
            0 <= i < granted@.len() && plan == BindingPlan::Key(#[trigger] granted@[i]),
{
    proof {
        law_bound_where_the_key_itself_is_granted(plan, granted@);
    }
    match plan {
        BindingPlan::Key(key) => has_key(granted, key),
        _ => false,
    }
}

/// The Qt key of the cancel binding, if it has one.
pub fn cancel_qt_key(binding: &str) -> (r: Option<i32>)
    ensures
        r == common_key(binding@),
{
    match plan_binding(binding) {
        BindingPlan::Key(key) => Some(key),
        _ => None,
    }
}

proof fn lemma_empty_is_no_common_key()
    ensures
        crate::parse::common_meaning(Seq::<char>::empty()) is None,
{
    let empty = Seq::<char>::empty();
    let words = crate::parse::tokens(empty);
    assert(crate::text::split_on(empty, '+') =~= seq![empty]);
    assert(words =~= seq![empty]);
    crate::parse::lemma_empty_token();
}

/// White space round a binding does not matter.
pub proof fn law_surrounding_space_is_ignored(binding: Seq<char>)
    ensures
        plan_for(crate::text::trimmed(binding)) == plan_for(binding),
{
    crate::text::lemma_trimmed_is_trimmed(binding);
}

// ---------------------------------------------------------------------
// Registration
// ---------------------------------------------------------------------

/// Whose request is next.
#[derive(Debug, Clone, Copy, PartialEq, Eq, Structural)]
pub enum RegisterStage {
    Dictation,
    Assistant,
    Cancel,
    Finished,
}

/// The registration of all three shortcuts: the two toggle keys with their
/// bindings, as far as they can be honoured, and the cancel key without keys.
#[derive(Debug, Clone, Copy, PartialEq, Eq, Structural)]
pub struct Registration {
    pub dictation: BindingPlan,
    pub assistant: BindingPlan,
    pub stage: RegisterStage,
    pub dictation_bound: bool,
    pub assistant_bound: bool,
}

/// What to do next in a registration.
#[derive(Debug, Clone)]
pub enum RegisterStep {
    /// Make these calls; fail if they fail, else report the granted keys.
    Call(ShortcutRequest),
    /// At least one toggle key is bound.
    Registered { dictation: bool, assistant: bool },
    /// Fail: no toggle key was accepted.
    Refused,
}

/// One request of a registration.
pub struct Call {
    pub id: Seq<char>,
    pub description: Seq<char>,
    pub keys: Seq<i32>,
}

impl Registration {
    /// The role at whose turn it is makes a request.
    pub open spec fn wf(self) -> bool {
        &&& self.stage == RegisterStage::Dictation ==> requested_keys(self.dictation) is Some
        &&& self.stage == RegisterStage::Assistant ==> requested_keys(self.assistant) is Some
    }

    /// A registration of which nothing has been done yet.
    pub open spec fn started(dictation: BindingPlan, assistant: BindingPlan) -> Registration {
        Registration {
            dictation,
            assistant,
            stage: if requested_keys(dictation) is Some {
                RegisterStage::Dictation
            } else if requested_keys(assistant) is Some {
                RegisterStage::Assistant
            } else {
                RegisterStage::Cancel
            },
            dictation_bound: false,
            assistant_bound: false,
        }
    }

    /// The request that is next, if one is left.
    pub open spec fn pending(self) -> Option<Call> {
        match self.stage {
            RegisterStage::Dictation => Some(
                Call {
                    id: DICTATION@,
                    description: DICTATION_DESC@,
                    keys: requested_keys(self.dictation)->0,
                },
            ),
            RegisterStage::Assistant => Some(
                Call {
                    id: ASSISTANT@,
                    description: ASSISTANT_DESC@,
                    keys: requested_keys(self.assistant)->0,
                },
            ),
            RegisterStage::Cancel => Some(
                Call { id: CANCEL@, description: CANCEL_DESC@, keys: Seq::<i32>::empty() },
            ),
            RegisterStage::Finished => None,
        }
    }

    /// The registration once the request that was next has been granted `keys`.
    pub open spec fn advanced(self, keys: Seq<i32>) -> Registration {
        match self.stage {
            RegisterStage::Dictation => Registration {
                dictation_bound: is_granted(self.dictation, keys),
                stage: if requested_keys(self.assistant) is Some {
                    RegisterStage::Assistant
                } else {
                    RegisterStage::Cancel
                },
                ..self
            },
            RegisterStage::Assistant => Registration {
                assistant_bound: is_granted(self.assistant, keys),
                stage: RegisterStage::Cancel,
                ..self
            },
            RegisterStage::Cancel => Registration { stage: RegisterStage::Finished, ..self },
            RegisterStage::Finished => self,
        }
    }

    /// The registration after a row of answers.
    pub open spec fn answered(self, replies: Seq<Seq<i32>>) -> Registration
        decreases replies.len(),
    {
        if replies.len() == 0 {
            self
        } else {
            self.answered(replies.drop_last()).advanced(replies.last())
        }
    }

    /// Starts the registration of the configured bindings.
    pub fn new(bindings: &HotkeyBindings) -> (r: Registration)
        ensures
            r == Registration::started(
                plan_for(bindings.dictation@),
                plan_for(bindings.assistant@),
            ),
            key_of(r.dictation) == common_key(bindings.dictation@),
            key_of(r.assistant) == common_key(bindings.assistant@),
            r.wf(),
    {
        let dictation = plan_binding(bindings.dictation.as_str());
        let assistant = plan_binding(bindings.assistant.as_str());
        let stage = match dictation {
            BindingPlan::Unbound | BindingPlan::Key(_) => RegisterStage::Dictation,
            _ => Registration::stage_after_dictation(assistant),
        };
        Registration { dictation, assistant, stage, dictation_bound: false, assistant_bound: false }
    }

    fn stage_after_dictation(assistant: BindingPlan) -> (r: RegisterStage)
        ensures
            r == if requested_keys(assistant) is Some {
                RegisterStage::Assistant
            } else {
                RegisterStage::Cancel
            },
    {
        match assistant {
            BindingPlan::Unbound | BindingPlan::Key(_) => RegisterStage::Assistant,
            _ => RegisterStage::Cancel,
        }
    }

    /// What to do next.
    pub fn step(&self) -> (r: RegisterStep)
        requires
            self.wf(),
        ensures
            match self.pending() {
                Some(call) => r matches RegisterStep::Call(request) && request.asks(
                    call.id,
                    call.description,
                    call.keys,
                ),
                None => if self.dictation_bound || self.assistant_bound {
                    r == (RegisterStep::Registered {
                        dictation: self.dictation_bound,
                        assistant: self.assistant_bound,
                    })
                } else {
                    r is Refused
                },
            },
    {
        let request = match self.stage {
            RegisterStage::Dictation => bind_role(DICTATION, DICTATION_DESC, self.dictation),
            RegisterStage::Assistant => bind_role(ASSISTANT, ASSISTANT_DESC, self.assistant),
            RegisterStage::Cancel => bind_role(CANCEL, CANCEL_DESC, BindingPlan::Unbound),
            RegisterStage::Finished => None,
        };
        match request {
            Some(request) => RegisterStep::Call(request),
            None => if self.dictation_bound || self.assistant_bound {
                RegisterStep::Registered {
                    dictation: self.dictation_bound,
                    assistant: self.assistant_bound,
                }
            } else {
                RegisterStep::Refused
            },
        }
    }

    /// Takes in the keys that were granted to the request that was next.
    pub fn granted(&mut self, keys: &Vec<i32>)
        requires
            old(self).wf(),
        ensures
            *final(self) == old(self).advanced(keys@),
            final(self).wf(),
    {
        match self.stage {
            RegisterStage::Dictation => {
                self.dictation_bound = role_is_bound(self.dictation, keys);
                self.stage = Registration::stage_after_dictation(self.assistant);
            },
            RegisterStage::Assistant => {
                self.assistant_bound = role_is_bound(self.assistant, keys);
                self.stage = RegisterStage::Cancel;
            },
            RegisterStage::Cancel => {
                self.stage = RegisterStage::Finished;
            },
            RegisterStage::Finished => {},
        }
    }
}

/// The requests of a registration, in the order in which they are made.
pub open spec fn registration_calls(dictation: BindingPlan, assistant: BindingPlan) -> Seq<Call> {
    (match requested_keys(dictation) {
        Some(keys) => seq![Call { id: DICTATION@, description: DICTATION_DESC@, keys }],
        None => seq![],
    }) + (match requested_keys(assistant) {
        Some(keys) => seq![Call { id: ASSISTANT@, description: ASSISTANT_DESC@, keys }],
        None => seq![],
    }) + seq![Call { id: CANCEL@, description: CANCEL_DESC@, keys: Seq::<i32>::empty() }]
}

/// A registration makes exactly its requests, one after the other, whatever is
/// answered: the toggle keys that can be honoured, and last the cancel key,
/// which is left without keys.
pub proof fn law_registration_makes_its_calls_in_order(
    dictation: BindingPlan,
    assistant: BindingPlan,
    replies: Seq<Seq<i32>>,
)
    ensures
        ({
            let calls = registration_calls(dictation, assistant);
            let now = Registration::started(dictation, assistant).answered(replies);
            if replies.len() < calls.len() {
                now.pending() == Some(calls[replies.len() as int])
            } else {
                now.pending() is None
            }
        }),
    decreases replies.len(),
{
    if replies.len() > 0 {
        law_registration_makes_its_calls_in_order(dictation, assistant, replies.drop_last());
        lemma_plans_stay(dictation, assistant, replies.drop_last());
        crate::shortcut::law_each_role_has_its_id();
    }
}

proof fn lemma_plans_stay(dictation: BindingPlan, assistant: BindingPlan, replies: Seq<Seq<i32>>)
    ensures
        ({
            let now = Registration::started(dictation, assistant).answered(replies);
            now.dictation == dictation && now.assistant == assistant && now.wf()
        }),
    decreases replies.len(),
{
    if replies.len() > 0 {
        lemma_plans_stay(dictation, assistant, replies.drop_last());
    }
}

/// When a registration is over, a toggle key is bound exactly where its own key
/// was asked for and is among the keys that were granted to it.
pub proof fn law_registration_binds_what_is_granted(
    dictation: BindingPlan,
    assistant: BindingPlan,
    replies: Seq<Seq<i32>>,
)
    requires
        replies.len() == registration_calls(dictation, assistant).len(),
    ensures
        ({
            let end = Registration::started(dictation, assistant).answered(replies);
            let second: int = if requested_keys(dictation) is Some {
                1
            } else {
                0
            };
            &&& end.stage == RegisterStage::Finished
            &&& end.dictation_bound == is_granted(dictation, replies[0])
            &&& end.assistant_bound == is_granted(assistant, replies[second])
        }),
{
    reveal_with_fuel(Registration::answered, 4);
}

// ---------------------------------------------------------------------
// The cancel key
// ---------------------------------------------------------------------

/// The cancel key, grabbed only while a recording or an assistant turn is in
/// flight.
#[derive(Debug, Clone, Copy, PartialEq, Eq, Structural)]
pub struct CancelGrab {
    pub key: Option<i32>,
    pub bound: bool,
}

/// How a control of the cancel key ended.
#[derive(Debug, Clone, Copy, PartialEq, Eq, Structural)]
pub enum CancelOutcome {
    /// There was nothing to do.
    Ignored,
    Added,
    Removed,
    /// The key is assigned elsewhere.
    Refused,
    /// The calls failed.
    Failed,
}

pub open spec fn wants_cancel(control: HotkeyControl) -> bool {
    control == HotkeyControl::EnableCancel
}

impl CancelGrab {
    /// The keys that a control asks for: the cancel key or none at all, and no
    /// request where there is no usable key or the grab is already as wanted.
    pub open spec fn requested(self, control: HotkeyControl) -> Option<Seq<i32>> {
        match self.key {
            Some(key) => if wants_cancel(control) == self.bound {
                None
            } else if wants_cancel(control) {
                Some(seq![key])
            } else {
                Some(Seq::<i32>::empty())
            },
            None => None,
        }
    }

    /// How a control ends when it is answered by `reply`, the granted keys or
    /// `None` for a failure.
    pub open spec fn outcome(self, control: HotkeyControl, reply: Option<Seq<i32>>) -> CancelOutcome {
        if self.requested(control) is None {
            CancelOutcome::Ignored
        } else {
            match reply {
                None => CancelOutcome::Failed,
                Some(granted) => if !wants_cancel(control) {
                    CancelOutcome::Removed
                } else if granted.contains(self.key->0) {
                    CancelOutcome::Added
                } else {
                    CancelOutcome::Refused
                },
            }
        }
    }

    /// The grab after a control that was answered by `reply`.
    pub open spec fn settled(self, control: HotkeyControl, reply: Option<Seq<i32>>) -> CancelGrab {
        match self.outcome(control, reply) {
            CancelOutcome::Added => CancelGrab { bound: true, ..self },
            CancelOutcome::Removed => CancelGrab { bound: false, ..self },
            _ => self,
        }
    }

    /// The cancel key of the configured binding, not grabbed.
    pub fn new(binding: &str) -> (r: CancelGrab)
        ensures
            r.key == common_key(binding@),
            !r.bound,
    {
        CancelGrab { key: cancel_qt_key(binding), bound: false }
    }

    /// The request that a control calls for.
    pub fn request(&self, control: HotkeyControl) -> (r: Option<ShortcutRequest>)
        ensures
            r is Some == self.requested(control) is Some,
            r matches Some(request) ==> request.asks(
                CANCEL@,
                CANCEL_DESC@,
                self.requested(control)->0,
            ),
    {
        let want: bool = match control {
            HotkeyControl::EnableCancel => true,
            HotkeyControl::DisableCancel => false,
        };
        match self.key {
            Some(key) => if want == self.bound {
                None
            } else if want {
                bind_role(CANCEL, CANCEL_DESC, BindingPlan::Key(key))
            } else {
                bind_role(CANCEL, CANCEL_DESC, BindingPlan::Unbound)
            },
            None => None,
        }
    }

    /// Takes in how the request of a control was answered: with the granted
    /// keys, or `None` for a failure.
    pub fn settle(&mut self, control: HotkeyControl, reply: Option<&Vec<i32>>) -> (outcome:
        CancelOutcome)
        ensures
            outcome == old(self).outcome(
                control,
                match reply {
                    Some(granted) => Some(granted@),
                    None => None,
                },
            ),
            *final(self) == old(self).settled(
                control,
                match reply {
                    Some(granted) => Some(granted@),
                    None => None,
                },
            ),
    {
        let want: bool = match control {
            HotkeyControl::EnableCancel => true,
            HotkeyControl::DisableCancel => false,
        };
        let key: i32 = match self.key {
            Some(key) => key,
            None => {
                return CancelOutcome::Ignored;
            },
        };
        if want == self.bound {
            return CancelOutcome::Ignored;
        }
        match reply {
            Some(granted) => {
                if want && !has_key(granted, key) {
                    CancelOutcome::Refused
                } else {
                    self.bound = want;
                    if want {
                        CancelOutcome::Added
                    } else {
                        CancelOutcome::Removed
                    }
                }
            },
            None => CancelOutcome::Failed,
        }
    }
}

/// The cancel key counts as grabbed only after a request for it was granted,
/// and stays so until its release is answered.
pub proof fn law_grab_needs_a_grant(
    before: CancelGrab,
    control: HotkeyControl,
    reply: Option<Seq<i32>>,
)
    ensures
        ({
            let after = before.settled(control, reply);
            &&& after.key == before.key
            &&& after.bound && !before.bound ==> wants_cancel(control) && (before.key matches Some(
                key,
            ) && reply matches Some(granted) && granted.contains(key))
            &&& before.bound && !after.bound ==> !wants_cancel(control) && reply is Some
        }),
{
}

/// Asking twice for the same thing asks once: after an answer that settles a
/// control the same control calls for no request.
pub proof fn law_settled_control_is_idle(
    before: CancelGrab,
    control: HotkeyControl,
    reply: Option<Seq<i32>>,
)
    requires
        before.outcome(control, reply) is Added || before.outcome(control, reply) is Removed
            || before.outcome(control, reply) is Ignored,
    ensures
        before.settled(control, reply).requested(control) is None,
        before.settled(control, reply).settled(control, reply) == before.settled(control, reply),
{
}

/// A refused or failed control can be asked again.
pub proof fn law_unsettled_control_is_retried(
    before: CancelGrab,
    control: HotkeyControl,
    reply: Option<Seq<i32>>,
)
    requires
        before.outcome(control, reply) is Refused || before.outcome(control, reply) is Failed,
    ensures
        before.settled(control, reply) == before,
        before.requested(control) is Some,
{
}

/// What a grab takes, letting go gives back: enabling and then disabling, both
/// answered, ends where it began, whether or not the key was granted.
pub proof fn law_disable_undoes_enable(
    before: CancelGrab,
    granted: Seq<i32>,
    answer: Seq<i32>,
)
    requires
        !before.bound,
    ensures
        before.settled(HotkeyControl::EnableCancel, Some(granted)).settled(
            HotkeyControl::DisableCancel,
            Some(answer),
        ) == before,
{
}

// ---------------------------------------------------------------------
// The listener
// ---------------------------------------------------------------------

/// The body of a `globalShortcutPressed` or `globalShortcutReleased` signal as
/// it came over the bus.
#[derive(Debug, Clone)]
pub struct SignalBody {
    pub bytes: Vec<u8>,
    /// The D-Bus signature of the body.
    pub signature: String,
    pub big_endian: bool,
}

/// What `zvariant` reads from the bytes of a body of the given signature: the
/// component, the shortcut and the timestamp, where it can.
pub uninterp spec fn signal_fields(
    bytes: Seq<u8>,
    signature: Seq<char>,
    big_endian: bool,
) -> Option<(Seq<char>, Seq<char>, i64)>;

/// Whether a D-Bus signature is that of two strings and a 64-bit integer, with or
/// without the parentheses of a structure.
pub open spec fn is_signal_signature(signature: Seq<char>) -> bool {
    signature == "ssx"@ || signature == "(ssx)"@
}

/// What the fields of a signal hold.
pub open spec fn fields_view(fields: Option<(String, String, i64)>) -> Option<
    (Seq<char>, Seq<char>, i64),
> {
    match fields {
        Some((component, id, timestamp)) => Some((component@, id@, timestamp)),
        None => None,
    }
}

/// `Data::deserialize_for_dynamic_signature` of `zvariant`, for the D-Bus
/// encoding of two strings and a 64-bit integer: `signal_fields` of the bytes,
/// the signature and the byte order. It is also claimed that nothing is read from
/// a body of any other signature.
#[verifier::external_body]
fn read_signal(bytes: &[u8], signature: &str, big_endian: bool) -> (r: Option<(String, String, i64)>)
    ensures
        fields_view(r) == signal_fields(bytes@, signature@, big_endian),
        !is_signal_signature(signature@) ==> r is None,
{
    let endian = match big_endian {
        true => zvariant::BE,
        false => zvariant::LE,
    };
    let context = zvariant::serialized::Context::new_dbus(endian, 0);
    let data = zvariant::serialized::Data::new(bytes, context);
    match data.deserialize_for_dynamic_signature(signature) {
        Ok((fields, _)) => Some(fields),
        Err(_) => None,
    }
}

impl SignalBody {
    pub open spec fn fields(self) -> Option<(Seq<char>, Seq<char>, i64)> {
        signal_fields(self.bytes@, self.signature@, self.big_endian)
    }
}

/// The shortcut id in the fields of a signal. A body that could not be read is
/// no reason to tear the listener down: it has an id that nothing matches.
pub open spec fn id_in(fields: Option<(Seq<char>, Seq<char>, i64)>) -> Seq<char> {
    match fields {
        Some((component, id, timestamp)) => id,
        None => Seq::<char>::empty(),
    }
}

/// The shortcut id in the fields of a signal.
pub fn shortcut_id(fields: Option<(String, String, i64)>) -> (r: String)
    ensures
        r@ == id_in(fields_view(fields)),
{
    match fields {
        Some((_component, id, _timestamp)) => id,
        None => String::new(),
    }
}

/// The shortcut id of a signal (`componentUnique, shortcutUnique, timestamp`).
/// `None` means that the stream ended and the listener should shut down.
pub fn signal_shortcut_id(msg: Option<&SignalBody>) -> (r: Option<String>)
    ensures
        r is Some == msg is Some,
        msg matches Some(body) ==> r->0@ == id_in(body.fields()) && (!is_signal_signature(
            body.signature@,
        ) ==> body.fields() is None),
{
    match msg {
        Some(body) => Some(
            shortcut_id(read_signal(body.bytes.as_slice(), body.signature.as_str(), body.big_endian)),
        ),
        None => None,
    }
}

/// Something that happened to a listener. `None` in place of a signal or a
/// control means that its stream ended.
#[derive(Debug, Clone)]
pub enum ListenerEvent {
    Pressed(Option<SignalBody>),
    Released(Option<SignalBody>),
    Control(Option<HotkeyControl>),
    /// The listener could not be armed, or broke down.
    Failed,
}

/// Whether an event is a signal with a body of the wrong signature.
pub open spec fn is_misshapen(event: ListenerEvent) -> bool {
    match event {
        ListenerEvent::Pressed(Some(body)) => !is_signal_signature(body.signature@),
        ListenerEvent::Released(Some(body)) => !is_signal_signature(body.signature@),
        _ => false,
    }
}

/// What a listener does after an event.
#[derive(Debug, Clone)]
pub enum ListenerStep {
    /// Wait for the next event.
    Wait,
    /// Make these calls and settle the control by how they are answered.
    Apply(HotkeyControl, ShortcutRequest),
    /// Make these calls, whatever is answered, and shut down.
    Stop(ShortcutRequest),
    /// Do nothing: the listener has shut down before.
    Stopped,
}

/// A listener.
#[derive(Debug)]
pub struct Listener {
    pub presses: PressTracker,
    pub cancel: CancelGrab,
    /// The listener has shut down.
    pub stopped: bool,
}

/// Whether a step shuts a listener down and lets go of the cancel key.
pub open spec fn is_stop(step: ListenerStep) -> bool {
    step matches ListenerStep::Stop(request) && request.asks(
        CANCEL@,
        CANCEL_DESC@,
        Seq::<i32>::empty(),
    )
}

/// The request that a step makes, if it makes one.
pub open spec fn request_of(step: ListenerStep) -> Option<ShortcutRequest> {
    match step {
        ListenerStep::Apply(_, request) => Some(request),
        ListenerStep::Stop(request) => Some(request),
        _ => None,
    }
}

/// Whether a listener may take `step` and be stopped afterwards, or not, when it
/// was, or was not, before.
pub open spec fn is_step(before: bool, step: ListenerStep, after: bool) -> bool {
    if before {
        step is Stopped && after
    } else {
        if after {
            is_stop(step)
        } else {
            step is Wait || step is Apply
        }
    }
}

/// Whether these are the steps of a listener from its start on, with whether it
/// was stopped before each of them and after the last.
pub open spec fn is_run(stopped: Seq<bool>, steps: Seq<ListenerStep>) -> bool {
    &&& stopped.len() == steps.len() + 1
    &&& !stopped[0]
    &&& forall|i: int|
        0 <= i < steps.len() ==> is_step(stopped[i], #[trigger] steps[i], stopped[i + 1])
}

/// When a listener has ended, for whatever reason and whether or not the cancel
/// key was grabbed, the last request that it made is the one that takes all keys
/// from the cancel shortcut, and nothing that comes in later makes another.
pub proof fn law_stopping_clears_the_cancel_key_last(
    stopped: Seq<bool>,
    steps: Seq<ListenerStep>,
) -> (end: int)
    requires
        is_run(stopped, steps),
        stopped.last(),
    ensures
        0 <= end < steps.len(),
        is_stop(steps[end]),
        forall|i: int| 0 <= i < end ==> !(#[trigger] steps[i] is Stop),
        forall|i: int| end < i < steps.len() ==> request_of(#[trigger] steps[i]) is None,
    decreases steps.len(),
{
    let n = steps.len() - 1;
    assert(is_step(stopped[n], steps[n], stopped[n + 1]));
    if stopped[n] {
        let earlier = stopped.drop_last();
        let front = steps.drop_last();
        assert forall|i: int| 0 <= i < front.len() implies is_step(
            earlier[i],
            #[trigger] front[i],
            earlier[i + 1],
        ) by {
            assert(steps[i] == front[i]);
        }
        let end = law_stopping_clears_the_cancel_key_last(earlier, front);
        assert(steps[end] == front[end]);
        assert forall|i: int| 0 <= i < end implies !(#[trigger] steps[i] is Stop) by {
            assert(steps[i] == front[i]);
        }
        assert forall|i: int| end < i < steps.len() implies request_of(
            #[trigger] steps[i],
        ) is None by {
            if i < n {
                assert(steps[i] == front[i]);
            }
        }
        end
    } else {
        assert forall|i: int| 0 <= i < n implies !(#[trigger] steps[i] is Stop) by {
            lemma_running_until(stopped, steps, i + 1, n);
        }
        n
    }
}

proof fn lemma_running_until(stopped: Seq<bool>, steps: Seq<ListenerStep>, i: int, n: int)
    requires
        is_run(stopped, steps),
        0 <= i <= n < stopped.len(),
        !stopped[n],
    ensures
        !stopped[i],
    decreases n - i,
{
    if i < n {
        lemma_running_until(stopped, steps, i + 1, n);
        assert(is_step(stopped[i], steps[i], stopped[i + 1]));
    }
}

impl Listener {
    /// A listener for the configured bindings, with no key down and the cancel
    /// key not grabbed.
    pub fn new(bindings: &HotkeyBindings) -> (r: Listener)
        ensures
            r.presses.backend@ == "kglobalaccel"@,
            r.presses.dictation_press_at is None,
            r.presses.assistant_press_at is None,
            r.cancel.key == common_key(bindings.cancel@),
            !r.cancel.bound,
            !r.stopped,
    {
        Listener {
            presses: PressTracker::new("kglobalaccel"),
            cancel: CancelGrab::new(bindings.cancel.as_str()),
            stopped: false,
        }
    }

    /// The request to make when a listener shuts down, so that the cancel key
    /// does not stay grabbed across the session.
    pub fn shutdown_request() -> (r: ShortcutRequest)
        ensures
            r.asks(CANCEL@, CANCEL_DESC@, Seq::<i32>::empty()),
    {
        let keys: Vec<i32> = Vec::new();
        shortcut_request(CANCEL, CANCEL_DESC, keys)
    }

    /// Takes in an event. A stream that ended, a failure and a closed action
    /// channel stop the listener, and nothing else does. Once it has stopped,
    /// nothing changes any more.
    pub fn handle(
        &mut self,
        event: &ListenerEvent,
        held_flags: &mut KeyHeldFlags,
        tx: &mut UnboundedSender<HotkeyAction>,
    ) -> (step: ListenerStep)
        ensures
            is_step(old(self).stopped, step, final(self).stopped),
            final(self).cancel == old(self).cancel,
            final(self).presses.backend == old(self).presses.backend,
            old(self).stopped ==> *final(self) == *old(self) && *final(held_flags) == *old(
                held_flags,
            ) && *final(tx) == *old(tx),
            !old(self).stopped && is_misshapen(*event) ==> step is Wait
                && final(self).presses.state(*final(held_flags)) == old(self).presses.state(
                *old(held_flags),
            ) && crate::shortcut::sent_actions(*final(tx)) == crate::shortcut::sent_actions(
                *old(tx),
            ) && crate::shortcut::offered_actions(*final(tx)) == crate::shortcut::offered_actions(
                *old(tx),
            ),
            !old(self).stopped ==> match *event {
                ListenerEvent::Pressed(Some(body)) => {
                    let id = id_in(body.fields());
                    let action = crate::shortcut::press_action(id);
                    &&& exists|now: std::time::Instant|
                        crate::shortcut::is_current(now) && final(self).presses.state(
                            *final(held_flags),
                        ) == #[trigger] old(self).presses.state(*old(held_flags)).after_press(
                            id,
                            now,
                        )
                    &&& step is Wait || step is Stop
                    &&& crate::shortcut::offered_actions(*final(tx)) == crate::shortcut::delivered(
                        crate::shortcut::offered_actions(*old(tx)),
                        action,
                        true,
                    )
                    &&& crate::shortcut::sent_actions(*final(tx)) == crate::shortcut::delivered(
                        crate::shortcut::sent_actions(*old(tx)),
                        action,
                        step is Wait,
                    )
                    &&& action is None ==> step is Wait
                },
                ListenerEvent::Released(Some(body)) => {
                    let id = id_in(body.fields());
                    let before = old(self).presses.state(*old(held_flags));
                    &&& final(self).presses.state(*final(held_flags)) == before.after_release(id)
                    &&& step is Wait || step is Stop
                    &&& exists|held_ns: u128|
                        {
                            let action = #[trigger] before.release_action(id, held_ns as nat);
                            &&& before.awaited(id) matches Some(t0)
                                ==> crate::shortcut::is_elapsed(t0, held_ns)
                            &&& crate::shortcut::offered_actions(*final(tx))
                                == crate::shortcut::delivered(
                                crate::shortcut::offered_actions(*old(tx)),
                                action,
                                true,
                            )
                            &&& crate::shortcut::sent_actions(*final(tx))
                                == crate::shortcut::delivered(
                                crate::shortcut::sent_actions(*old(tx)),
                                action,
                                step is Wait,
                            )
                            &&& action is None ==> step is Wait
                        }
                },
                ListenerEvent::Control(Some(control)) => {
                    &&& *final(self) == *old(self)
                    &&& *final(held_flags) == *old(held_flags)
                    &&& *final(tx) == *old(tx)
                    &&& match old(self).cancel.requested(control) {
                        Some(keys) => step matches ListenerStep::Apply(c, request) && c == control
                            && request.asks(CANCEL@, CANCEL_DESC@, keys),
                        None => step is Wait,
                    }
                },
                _ => {
                    &&& final(self).presses == old(self).presses
                    &&& *final(held_flags) == *old(held_flags)
                    &&& *final(tx) == *old(tx)
                    &&& step is Stop
                },
            },
    {
        if self.stopped {
            return ListenerStep::Stopped;
        }
        proof {
            lemma_empty_id_is_unknown();
        }
        let goes_on: bool = match event {
            ListenerEvent::Pressed(msg) => match signal_shortcut_id(msg.as_ref()) {
                Some(id) => self.presses.pressed(id.as_str(), held_flags, tx),
                None => false,
            },
            ListenerEvent::Released(msg) => match signal_shortcut_id(msg.as_ref()) {
                Some(id) => self.presses.released(id.as_str(), held_flags, tx),
                None => false,
            },
            ListenerEvent::Control(Some(control)) => match self.cancel.request(*control) {
                Some(request) => {
                    return ListenerStep::Apply(*control, request);
                },
                None => true,
            },
            ListenerEvent::Control(None) => false,
            ListenerEvent::Failed => false,
        };
        if goes_on {
            ListenerStep::Wait
        } else {
            self.stopped = true;
            ListenerStep::Stop(Listener::shutdown_request())
        }
    }
}

/// A signal that cannot be read changes nothing and sends nothing, pressed or
/// released.
pub proof fn law_malformed_signals_are_harmless(
    body: SignalBody,
    before: crate::shortcut::PressState,
    now: std::time::Instant,
    held_ns: nat,
)
    requires
        body.fields() is None,
    ensures
        crate::shortcut::press_action(id_in(body.fields())) is None,
        before.after_press(id_in(body.fields()), now) == before,
        before.release_action(id_in(body.fields()), held_ns) is None,
        before.after_release(id_in(body.fields())) == before,
{
    lemma_empty_id_is_unknown();
}

proof fn lemma_empty_id_is_unknown()
    ensures
        crate::shortcut::role_of(Seq::<char>::empty()) is None,
{
    reveal_strlit("dictation");
    reveal_strlit("assistant");
    reveal_strlit("cancel");
    assert(DICTATION@.len() > 0 && ASSISTANT@.len() > 0 && CANCEL@.len() > 0);
}

// ---------------------------------------------------------------------
// The rules, case by case
// ---------------------------------------------------------------------

/// A desktop list of one entry names KDE exactly where it is these three letters
/// in some case.
pub proof fn law_kde_is_three_letters(value: Seq<char>)
    requires
        !value.contains(':'),
    ensures
        names_kde(value) <==> (value.len() == 3 && (value[0] == 'K' || value[0] == 'k') && (value[1]
            == 'D' || value[1] == 'd') && (value[2] == 'E' || value[2] == 'e')),
{
    crate::text::law_text_without_separator_is_one_part(value, ':');
    let parts = crate::text::split_on(value, ':');
    assert(parts[0] == value);
    reveal_strlit("KDE");
    assert("KDE"@.len() == 3 && "KDE"@[0] == 'K' && "KDE"@[1] == 'D' && "KDE"@[2] == 'E');
    let word = crate::text::uppercase(value);
    if value.len() == 3 {
        crate::text::law_case_is_about_ascii_letters(value, 0);
        crate::text::law_case_is_about_ascii_letters(value, 1);
        crate::text::law_case_is_about_ascii_letters(value, 2);
    }
    if value.len() == 3 && (value[0] == 'K' || value[0] == 'k') && (value[1] == 'D' || value[1]
        == 'd') && (value[2] == 'E' || value[2] == 'e') {
        assert(word =~= "KDE"@);
    }
    if names_kde(value) {
        assert(word == "KDE"@);
        assert(word[0] == 'K' && word[1] == 'D' && word[2] == 'E');
    }
}

/// A request names its action by the component, the id, the component's friendly
/// name and the description, in this order, and carries its keys as they are,
/// under the two flags.
pub proof fn law_requests_say_what_they_ask(
    request: ShortcutRequest,
    id: Seq<char>,
    description: Seq<char>,
    keys: Seq<i32>,
)
    requires
        request.asks(id, description, keys),
    ensures
        request.action@.len() == 4,
        request.action@[0]@ == "fono"@,
        request.action@[1]@ == id,
        request.action@[2]@ == "Fono"@,
        request.action@[3]@ == description,
        request.keys@ == keys,
        request.flags == 6,
{
    let words = crate::text::string_views(request.action@);
    assert(words.len() == 4);
    crate::text::law_rows_of_text_are_whole(request.action@, seq![], 0);
    crate::text::law_rows_of_text_are_whole(request.action@, seq![], 1);
    crate::text::law_rows_of_text_are_whole(request.action@, seq![], 2);
    crate::text::law_rows_of_text_are_whole(request.action@, seq![], 3);
    assert(2u32 | 4u32 == 6u32) by (bit_vector);
}

/// An action has these four names, in this order.
pub proof fn law_an_action_has_four_names(id: Seq<char>, description: Seq<char>)
    ensures
        action_words(id, description) == seq!["fono"@, id, "Fono"@, description],
{
}

/// A binding of white space is no binding; any other comes to what it means.
pub proof fn law_bindings_come_to_what_they_mean(binding: Seq<char>)
    ensures
        ({
            let text = crate::text::trimmed(binding);
            &&& plan_for(binding) is Unbound <==> text.len() == 0
            &&& text.len() > 0 ==> match crate::parse::meaning(text) {
                Err(e) => plan_for(binding) == BindingPlan::Unparsable(e),
                Ok((bits, name)) => match crate::qt_keys::encoding(bits, name) {
                    Some(key) => plan_for(binding) == BindingPlan::Key(key),
                    None => plan_for(binding) == BindingPlan::NoQtKey,
                },
            }
        }),
{
}

/// A binding that was read comes to the Qt value of its key with its modifiers,
/// to no key where it has none, and to its error where it could not be read.
pub proof fn law_readings_come_to_plans(bits: u32, name: Seq<char>, e: ParseError)
    ensures
        plan_of(Err(e)) == BindingPlan::Unparsable(e),
        crate::qt_keys::encoding(bits, name) matches Some(key) ==> plan_of(Ok((bits, name)))
            == BindingPlan::Key(key),
        crate::qt_keys::encoding(bits, name) is None ==> plan_of(Ok((bits, name)))
            == BindingPlan::NoQtKey,
{
}

/// The key of a binding is the Qt value of the common key and the modifiers that
/// it names, and only such a binding has one.
pub proof fn law_keys_of_bindings(binding: Seq<char>)
    ensures
        match crate::parse::common_meaning(crate::text::trimmed(binding)) {
            Some((bits, name)) => common_key(binding) == crate::qt_keys::encoding(bits, name),
            None => common_key(binding) is None,
        },
{
}

/// What a plan asks for: its one key, no key at all where nothing is configured,
/// and nothing where the binding cannot be honoured.
pub proof fn law_plans_ask_for_their_own_key(key: i32, e: ParseError)
    ensures
        requested_keys(BindingPlan::Key(key)) == Some(seq![key]),
        requested_keys(BindingPlan::Unbound) == Some(Seq::<i32>::empty()),
        requested_keys(BindingPlan::Unparsable(e)) is None,
        requested_keys(BindingPlan::NoQtKey) is None,
        key_of(BindingPlan::Key(key)) == Some(key),
        key_of(BindingPlan::Unbound) is None,
        key_of(BindingPlan::Unparsable(e)) is None,
        key_of(BindingPlan::NoQtKey) is None,
{
}

/// A role is bound exactly where some element of the answer is the very key that
/// it asked for, modifiers and all. So an answer of just that key binds it.
pub proof fn law_bound_where_the_key_itself_is_granted(plan: BindingPlan, granted: Seq<i32>)
    ensures
        is_granted(plan, granted) <==> exists|i: int|
            0 <= i < granted.len() && plan == BindingPlan::Key(#[trigger] granted[i]),
        plan matches BindingPlan::Key(key) ==> is_granted(plan, seq![key]),
{
    if let BindingPlan::Key(key) = plan {
        assert(seq![key][0] == key);
        if granted.contains(key) {
            let i = choose|i: int| 0 <= i < granted.len() && granted[i] == key;
            assert(plan == BindingPlan::Key(granted[i]));
        }
    }
}

/// A registration makes a request for each toggle key that is to be bound or left
/// unbound, the dictation key first, and last one for the cancel key without
/// keys.
pub proof fn law_requests_of_a_registration(dictation: BindingPlan, assistant: BindingPlan)
    ensures
        ({
            let calls = registration_calls(dictation, assistant);
            let first: nat = if dictation is Unbound || dictation is Key {
                1
            } else {
                0
            };
            let second: nat = if assistant is Unbound || assistant is Key {
                1
            } else {
                0
            };
            &&& calls.len() == first + second + 1
            &&& first == 1 ==> calls[0].id == "dictation"@ && calls[0].description
                == "Toggle voice dictation"@
            &&& dictation matches BindingPlan::Key(key) ==> calls[0].keys == seq![key]
            &&& dictation is Unbound ==> calls[0].keys.len() == 0
            &&& second == 1 ==> calls[first as int].id == "assistant"@
                && calls[first as int].description == "Toggle voice assistant"@
            &&& assistant matches BindingPlan::Key(key) ==> calls[first as int].keys == seq![key]
            &&& assistant is Unbound ==> calls[first as int].keys.len() == 0
            &&& calls.last().id == "cancel"@
            &&& calls.last().description == "Cancel recording / assistant turn"@
            &&& calls.last().keys.len() == 0
        }),
{
}

/// The request that is next belongs to the stage, and asks for the key of its
/// plan; none is next at the end.
pub proof fn law_the_stage_decides_the_request(now: Registration)
    requires
        now.wf(),
    ensures
        match now.stage {
            RegisterStage::Dictation => now.pending() matches Some(call) && call.id
                == "dictation"@ && call.description == "Toggle voice dictation"@ && (
            now.dictation matches BindingPlan::Key(key) ==> call.keys == seq![key]) && (
            !(now.dictation is Key) ==> now.dictation is Unbound && call.keys.len() == 0),
            RegisterStage::Assistant => now.pending() matches Some(call) && call.id
                == "assistant"@ && call.description == "Toggle voice assistant"@ && (
            now.assistant matches BindingPlan::Key(key) ==> call.keys == seq![key]) && (
            !(now.assistant is Key) ==> now.assistant is Unbound && call.keys.len() == 0),
            RegisterStage::Cancel => now.pending() matches Some(call) && call.id == "cancel"@
                && call.description == "Cancel recording / assistant turn"@ && call.keys.len() == 0,
            RegisterStage::Finished => now.pending() is None,
        },
{
}

/// A registration begins with the first toggle key that makes a request, with
/// nothing bound.
pub proof fn law_a_registration_begins_unbound(dictation: BindingPlan, assistant: BindingPlan)
    ensures
        ({
            let start = Registration::started(dictation, assistant);
            let first = dictation is Unbound || dictation is Key;
            let second = assistant is Unbound || assistant is Key;
            &&& start.dictation == dictation
            &&& start.assistant == assistant
            &&& !start.dictation_bound
            &&& !start.assistant_bound
            &&& start.stage == RegisterStage::Dictation <==> first
            &&& start.stage == RegisterStage::Assistant <==> !first && second
            &&& start.stage == RegisterStage::Cancel <==> !first && !second
        }),
{
}

/// An answer binds the key whose turn it is, exactly where it holds that key, and
/// leaves the other as it was; the turn goes from the dictation key to the
/// assistant key, if that makes a request, to the cancel key, to the end.
pub proof fn law_an_answer_is_about_the_key_at_turn(before: Registration, granted: Seq<i32>)
    ensures
        ({
            let after = before.advanced(granted);
            &&& after.dictation == before.dictation
            &&& after.assistant == before.assistant
            &&& before.stage == RegisterStage::Dictation ==> {
                &&& after.dictation_bound <==> exists|i: int|
                    0 <= i < granted.len() && before.dictation == BindingPlan::Key(
                        #[trigger] granted[i],
                    )
                &&& after.stage == if before.assistant is Unbound || before.assistant is Key {
                    RegisterStage::Assistant
                } else {
                    RegisterStage::Cancel
                }
            }
            &&& before.stage == RegisterStage::Assistant ==> {
                &&& after.assistant_bound <==> exists|i: int|
                    0 <= i < granted.len() && before.assistant == BindingPlan::Key(
                        #[trigger] granted[i],
                    )
                &&& after.stage == RegisterStage::Cancel
            }
            &&& before.stage != RegisterStage::Dictation ==> after.dictation_bound
                == before.dictation_bound
            &&& before.stage != RegisterStage::Assistant ==> after.assistant_bound
                == before.assistant_bound
            &&& before.stage == RegisterStage::Cancel || before.stage == RegisterStage::Finished
                ==> after.stage == RegisterStage::Finished
        }),
{
    law_bound_where_the_key_itself_is_granted(before.dictation, granted);
    law_bound_where_the_key_itself_is_granted(before.assistant, granted);
}

/// A toggle key whose own key is granted is bound when the registration is over,
/// whatever becomes of the other one.
pub proof fn law_granting_a_key_binds_it(
    dictation: BindingPlan,
    assistant: BindingPlan,
    replies: Seq<Seq<i32>>,
    key: i32,
)
    requires
        replies.len() == registration_calls(dictation, assistant).len(),
    ensures
        ({
            let end = Registration::started(dictation, assistant).answered(replies);
            let second: int = if dictation is Unbound || dictation is Key {
                1
            } else {
                0
            };
            &&& dictation == BindingPlan::Key(key) && replies[0] == seq![key]
                ==> end.dictation_bound && end.pending() is None
            &&& assistant == BindingPlan::Key(key) && replies[second] == seq![key]
                ==> end.assistant_bound && end.pending() is None
            &&& end.dictation_bound ==> dictation is Key
            &&& end.assistant_bound ==> assistant is Key
        }),
{
    law_registration_binds_what_is_granted(dictation, assistant, replies);
    law_bound_where_the_key_itself_is_granted(BindingPlan::Key(key), seq![key]);
}

/// A control asks for the cancel key where it is to be grabbed and is not, for no
/// key where it is to be let go and is grabbed, and for nothing otherwise.
pub proof fn law_controls_ask_for_a_change(grab: CancelGrab)
    ensures
        ({
            let enable = grab.requested(HotkeyControl::EnableCancel);
            let disable = grab.requested(HotkeyControl::DisableCancel);
            &&& grab.key is None ==> enable is None && disable is None
            &&& grab.key matches Some(key) ==> {
                &&& !grab.bound ==> enable == Some(seq![key]) && disable is None
                &&& grab.bound ==> enable is None && disable == Some(Seq::<i32>::empty())
            }
        }),
{
}

/// How a control ends and what it leaves, by what it was answered.
pub proof fn law_answers_settle_controls(grab: CancelGrab, granted: Seq<i32>, key: i32)
    requires
        grab.key == Some(key),
    ensures
        !grab.bound ==> {
            let control = HotkeyControl::EnableCancel;
            let taken = exists|i: int| 0 <= i < granted.len() && #[trigger] granted[i] == key;
            let after = grab.settled(control, Some(granted));
            &&& grab.outcome(control, Some(granted)) == if taken {
                CancelOutcome::Added
            } else {
                CancelOutcome::Refused
            }
            &&& after.bound <==> taken
            &&& after.key == grab.key
            &&& grab.outcome(control, None) == CancelOutcome::Failed
            &&& grab.settled(control, None) == grab
        },
        grab.bound ==> {
            let control = HotkeyControl::DisableCancel;
            let after = grab.settled(control, Some(granted));
            &&& grab.outcome(control, Some(granted)) == CancelOutcome::Removed
            &&& !after.bound
            &&& after.key == grab.key
            &&& grab.outcome(control, None) == CancelOutcome::Failed
            &&& grab.settled(control, None) == grab
        },
{
}

/// A control that calls for no request is ignored, whatever is answered, and
/// changes nothing.
pub proof fn law_idle_controls_are_ignored(
    grab: CancelGrab,
    control: HotkeyControl,
    reply: Option<Seq<i32>>,
)
    requires
        grab.key is None || grab.bound == (control == HotkeyControl::EnableCancel),
    ensures
        grab.outcome(control, reply) == CancelOutcome::Ignored,
        grab.settled(control, reply) == grab,
{
}

/// The id of a signal is its second field, and empty where it has none to read.
pub proof fn law_the_id_is_the_second_field(
    component: String,
    id: String,
    timestamp: i64,
    body: SignalBody,
)
    ensures
        id_in(Some((component@, id@, timestamp))) == id@,
        id_in(None).len() == 0,
        fields_view(Some((component, id, timestamp))) == Some((component@, id@, timestamp)),
        fields_view(None) is None,
        body.fields() == signal_fields(body.bytes@, body.signature@, body.big_endian),
{
}

/// A press or a release is misshapen exactly where it has a body and that is of
/// another signature than two strings and a 64-bit integer.
pub proof fn law_misshapen_signals(event: ListenerEvent)
    ensures
        event matches ListenerEvent::Pressed(Some(body)) ==> is_misshapen(event) == (
        body.signature@ != "ssx"@ && body.signature@ != "(ssx)"@),
        event matches ListenerEvent::Released(Some(body)) ==> is_misshapen(event) == (
        body.signature@ != "ssx"@ && body.signature@ != "(ssx)"@),
{
}

/// The steps of a listener: while it runs it waits, applies a control or stops,
/// and stopping takes all keys from the cancel shortcut; once stopped it does
/// nothing.
pub proof fn law_steps_of_a_listener(before: bool, step: ListenerStep, after: bool)
    requires
        is_step(before, step, after),
    ensures
        before ==> after && step is Stopped,
        !before && !after ==> step is Wait || step is Apply,
        !before && after ==> step is Stop,
        step matches ListenerStep::Stop(request) ==> request.action@.len() == 4
            && request.action@[1]@ == "cancel"@ && request.keys@.len() == 0 && request.flags == 6,
        step matches ListenerStep::Apply(_, request) ==> request_of(step) == Some(request),
        step matches ListenerStep::Stop(request) ==> request_of(step) == Some(request),
{
    if let ListenerStep::Stop(request) = step {
        law_requests_say_what_they_ask(request, CANCEL@, CANCEL_DESC@, Seq::<i32>::empty());
    }
}

/// A registration is sound exactly where the key at turn is one that makes a
/// request.
pub proof fn law_sound_registrations(now: Registration)
    ensures
        now.wf() <==> (now.stage == RegisterStage::Dictation ==> now.dictation is Unbound
            || now.dictation is Key) && (now.stage == RegisterStage::Assistant
            ==> now.assistant is Unbound || now.assistant is Key),
{
}

/// The names of the service, its objects and its interfaces on the bus.
pub proof fn law_names_on_the_bus()
    ensures
        SERVICE@ == "org.kde.kglobalaccel"@,
        MAIN_PATH@ == "/kglobalaccel"@,
        MAIN_IFACE@ == "org.kde.KGlobalAccel"@,
        COMPONENT_IFACE@ == "org.kde.kglobalaccel.Component"@,
        COMPONENT@ == "fono"@,
        COMPONENT_FRIENDLY@ == "Fono"@,
{
}

} // verus!
