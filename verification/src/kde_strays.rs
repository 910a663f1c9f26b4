//! Shortcuts of the daemon that ended up under some other component of
//! KGlobalAccel: the residue of an attempt to bind keys through the portal,
//! which guessed the app id from whatever launched the daemon.
use vstd::prelude::*;
use vstd::string::StringExecFns;

use crate::kde_kglobalaccel::{COMPONENT, MAIN_IFACE, MAIN_PATH, SERVICE};
use crate::shortcut::ALL;
use crate::text::same;

verus! {

/// One `allShortcutInfos` row in wire order: the shortcut's id and description,
/// four more names, the keys it holds and its default keys.
pub type ShortcutInfo = (
    String,
    String,
    String,
    String,
    String,
    String,
    Vec<i32>,
    Vec<i32>,
);

/// A shortcut of the daemon that is registered under another component.
#[derive(Debug, Clone)]
pub struct StrayShortcut {
    /// Unique name of the owning component, e.g. `org.kde.konsole`.
    pub component: String,
    /// Display name of the owning component, e.g. `Konsole`.
    pub component_friendly: String,
    /// The daemon's shortcut id, e.g. `dictation`.
    pub id: String,
    /// Qt key codes that are bound.
    pub keys: Vec<i32>,
}

/// What a stray shortcut holds.
pub struct Stray {
    pub component: Seq<char>,
    pub component_friendly: Seq<char>,
    pub id: Seq<char>,
    pub keys: Seq<i32>,
}

impl View for StrayShortcut {
    type V = Stray;

    open spec fn view(&self) -> Stray {
        Stray {
            component: self.component@,
            component_friendly: self.component_friendly@,
            id: self.id@,
            keys: self.keys@,
        }
    }
}

/// What a row of stray shortcuts holds.
pub open spec fn stray_views(strays: Seq<StrayShortcut>) -> Seq<Stray> {
    strays.map_values(|s: StrayShortcut| s@)
}

/// What one component of KGlobalAccel answered.
#[derive(Debug)]
pub struct ComponentListing {
    /// The row of `allMainComponents`: the unique name, then the friendly one.
    pub names: Vec<String>,
    /// The rows of `allShortcutInfos`, where the component could be asked.
    pub infos: Option<Vec<ShortcutInfo>>,
}

/// The unique and the friendly name of a component that is to be asked: one
/// with a unique name that is not the daemon's own. Without a friendly name it
/// goes by the unique one.
pub open spec fn foreign_component(names: Seq<Seq<char>>) -> Option<(Seq<char>, Seq<char>)> {
    if names.len() == 0 || names[0].len() == 0 || names[0] == COMPONENT@ {
        None
    } else if names.len() >= 2 && names[1].len() > 0 {
        Some((names[0], names[1]))
    } else {
        Some((names[0], names[0]))
    }
}

/// Whether an id and a description are together those of one of the daemon's
/// shortcuts. Both count, so that a genuine shortcut of another program that
/// happens to have one of the ids is never implicated.
pub open spec fn is_own_shortcut(id: Seq<char>, description: Seq<char>) -> bool {
    exists|i: int| 0 <= i < 3 && (#[trigger] ALL@[i]).0@ == id && ALL@[i].1@ == description
}

/// Whether a row is one of the daemon's shortcuts and holds a key. Without a key
/// it cannot intercept anything.
pub open spec fn is_stray(info: ShortcutInfo) -> bool {
    info.6@.len() > 0 && is_own_shortcut(info.0@, info.1@)
}

/// The strays among the rows of a foreign component.
pub open spec fn strays_in(
    infos: Seq<ShortcutInfo>,
    unique: Seq<char>,
    friendly: Seq<char>,
) -> Seq<Stray> {
    infos.filter(|info: ShortcutInfo| is_stray(info)).map_values(
        |info: ShortcutInfo|
            Stray {
                component: unique,
                component_friendly: friendly,
                id: info.0@,
                keys: info.6@,
            },
    )
}

/// The strays of one component.
pub open spec fn strays_of(listing: ComponentListing) -> Seq<Stray> {
    match foreign_component(crate::text::string_views(listing.names@)) {
        Some((unique, friendly)) => match listing.infos {
            Some(infos) => strays_in(infos@, unique, friendly),
            None => seq![],
        },
        None => seq![],
    }
}

/// The strays of all components, one component after the other.
pub open spec fn all_strays(listings: Seq<ComponentListing>) -> Seq<Stray>
    decreases listings.len(),
{
    if listings.len() == 0 {
        seq![]
    } else {
        all_strays(listings.drop_last()) + strays_of(listings.last())
    }
}

/// The unique and the friendly name of a component that is to be asked for its
/// shortcuts, by its row of `allMainComponents`.
pub fn component_to_ask(names: &Vec<String>) -> (r: Option<(String, String)>)
    ensures
        (match r {
            Some((unique, friendly)) => Some((unique@, friendly@)),
            None => None,
        }) == foreign_component(crate::text::string_views(names@)),
{
    if names.len() == 0 {
        return None;
    }
    assert(crate::text::string_views(names@)[0] == names@[0]@);
    let unique = names[0].as_str();
    if unique.is_empty() || same(unique, COMPONENT) {
        return None;
    }
    if names.len() >= 2 {
        assert(crate::text::string_views(names@)[1] == names@[1]@);
        let friendly = names[1].as_str();
        if !friendly.is_empty() {
            return Some((unique.to_owned(), friendly.to_owned()));
        }
    }
    Some((unique.to_owned(), unique.to_owned()))
}

fn own_shortcut(id: &str, description: &str) -> (r: bool)
    ensures
        r == is_own_shortcut(id@, description@),
{
    let mut i: usize = 0;
    while i < 3
        invariant
            i <= 3,
            forall|k: int|
                0 <= k < i ==> !((#[trigger] ALL@[k]).0@ == id@ && ALL@[k].1@ == description@),
        decreases 3 - i,
    {
        let (own_id, own_description) = ALL[i];
        assert((own_id, own_description) == ALL@[i as int]);
        if same(own_id, id) && same(own_description, description) {
            return true;
        }
        i = i + 1;
    }
    false
}

fn copy_keys(keys: &Vec<i32>) -> (r: Vec<i32>)
    ensures
        r@ == keys@,
{
    let mut v: Vec<i32> = Vec::new();
    let mut i: usize = 0;
    while i < keys.len()
        invariant
            i <= keys.len(),
            v@ == keys@.take(i as int),
        decreases keys.len() - i,
    {
        v.push(keys[i]);
        assert(keys@.take(i + 1) =~= keys@.take(i as int).push(keys@[i as int]));
        i = i + 1;
    }
    assert(keys@.take(i as int) =~= keys@);
    v
}

/// Finds the daemon's shortcuts that are registered under some other component
/// and still hold a key, in what the components answered.
pub fn find_strays(listings: &Vec<ComponentListing>) -> (strays: Vec<StrayShortcut>)
    ensures
        stray_views(strays@) == all_strays(listings@),
{
    let mut strays: Vec<StrayShortcut> = Vec::new();
    let mut i: usize = 0;
    assert(stray_views(strays@) =~= all_strays(listings@.take(0)));
    while i < listings.len()
        invariant
            i <= listings.len(),
            stray_views(strays@) == all_strays(listings@.take(i as int)),
        decreases listings.len() - i,
    {
        let ghost before = stray_views(strays@);
        let listing = &listings[i];
        let ghost mut found: Seq<Stray> = seq![];
        if let Some((unique, friendly)) = component_to_ask(&listing.names) {
            if let Some(infos) = &listing.infos {
                let mut k: usize = 0;
                proof {
                    reveal(Seq::filter);
                    assert(strays_in(infos@.take(0), unique@, friendly@) =~= seq![]);
                    assert(before + strays_in(infos@.take(0), unique@, friendly@) =~= before);
                }
                while k < infos.len()
                    invariant
                        k <= infos.len(),
                        stray_views(strays@) == before + strays_in(
                            infos@.take(k as int),
                            unique@,
                            friendly@,
                        ),
                    decreases infos.len() - k,
                {
                    let info = &infos[k];
                    proof {
                        lemma_strays_in_push(infos@, k as int, unique@, friendly@);
                    }
                    if info.6.len() > 0 && own_shortcut(info.0.as_str(), info.1.as_str()) {
                        let ghost so_far = strays@;
                        strays.push(
                            StrayShortcut {
                                component: unique.clone(),
                                component_friendly: friendly.clone(),
                                id: info.0.clone(),
                                keys: copy_keys(&info.6),
                            },
                        );
                        assert(stray_views(strays@) =~= stray_views(so_far).push(strays@.last()@));
                        assert(stray_views(strays@) =~= before + strays_in(
                            infos@.take(k + 1),
                            unique@,
                            friendly@,
                        ));
                    }
                    k = k + 1;
                }
                assert(infos@.take(k as int) =~= infos@);
                proof {
                    found = strays_in(infos@, unique@, friendly@);
                }
            }
        }
        assert(found == strays_of(listings@[i as int]));
        assert(stray_views(strays@) =~= before + found);
        assert(listings@.take(i + 1).drop_last() =~= listings@.take(i as int));
        i = i + 1;
    }
    assert(listings@.take(i as int) =~= listings@);
    strays
}

proof fn lemma_strays_in_push(
    infos: Seq<ShortcutInfo>,
    k: int,
    unique: Seq<char>,
    friendly: Seq<char>,
)
    requires
        0 <= k < infos.len(),
    ensures
        strays_in(infos.take(k + 1), unique, friendly) == if is_stray(infos[k]) {
            strays_in(infos.take(k), unique, friendly).push(
                Stray {
                    component: unique,
                    component_friendly: friendly,
                    id: infos[k].0@,
                    keys: infos[k].6@,
                },
            )
        } else {
            strays_in(infos.take(k), unique, friendly)
        },
{
    reveal(Seq::filter);
    let next = infos.take(k + 1);
    assert(next.drop_last() =~= infos.take(k));
    assert(next.last() == infos[k]);
    assert(strays_in(next, unique, friendly) =~= if is_stray(infos[k]) {
        strays_in(infos.take(k), unique, friendly).push(
            Stray {
                component: unique,
                component_friendly: friendly,
                id: infos[k].0@,
                keys: infos[k].6@,
            },
        )
    } else {
        strays_in(infos.take(k), unique, friendly)
    });
}

/// Whether row `k` of a foreign component is one of the daemon's shortcuts with
/// a key, and `stray` is what it comes to.
pub open spec fn row_is_stray(listing: ComponentListing, k: int, stray: Stray) -> bool {
    &&& foreign_component(crate::text::string_views(listing.names@)) == Some(
        (stray.component, stray.component_friendly),
    )
    &&& listing.infos is Some
    &&& 0 <= k < listing.infos->0@.len()
    &&& is_stray(listing.infos->0@[k])
    &&& stray.id == listing.infos->0@[k].0@
    &&& stray.keys == listing.infos->0@[k].6@
}

/// Every stray is a row of a foreign component that has the id and the
/// description of one of the daemon's shortcuts. So it is never under the
/// daemon's own component, and it always holds a key.
pub proof fn law_strays_are_own_shortcuts_elsewhere(listings: Seq<ComponentListing>, i: int)
    requires
        0 <= i < all_strays(listings).len(),
    ensures
        exists|l: int, k: int|
            0 <= l < listings.len() && #[trigger] row_is_stray(
                listings[l],
                k,
                all_strays(listings)[i],
            ),
        all_strays(listings)[i].component != COMPONENT@,
        all_strays(listings)[i].component.len() > 0,
        all_strays(listings)[i].keys.len() > 0,
    decreases listings.len(),
{
    broadcast use vstd::seq_lib::group_filter_ensures;

    let front = listings.drop_last();
    let n = all_strays(front).len();
    let stray = all_strays(listings)[i];
    if i < n {
        law_strays_are_own_shortcuts_elsewhere(front, i);
        assert(stray == all_strays(front)[i]);
        let (l, k) = choose|l: int, k: int|
            0 <= l < front.len() && #[trigger] row_is_stray(front[l], k, stray);
        assert(row_is_stray(listings[l], k, stray));
    } else {
        let infos = listings.last().infos->0@;
        let keep = |info: ShortcutInfo| is_stray(info);
        let kept = infos.filter(keep);
        let row = kept[i - n];
        assert(kept.contains(row));
        infos.lemma_filter_contains_rev(keep, row);
        assert(keep(row));
        let k = choose|k: int| 0 <= k < infos.len() && infos[k] == row;
        assert(row_is_stray(listings[listings.len() - 1], k, stray));
    }
}

/// No stray is missed: every such row is among them.
pub proof fn law_every_stray_is_found(
    listings: Seq<ComponentListing>,
    l: int,
    k: int,
    stray: Stray,
)
    requires
        0 <= l < listings.len(),
        row_is_stray(listings[l], k, stray),
    ensures
        all_strays(listings).contains(stray),
    decreases listings.len(),
{
    broadcast use vstd::seq_lib::group_filter_ensures;

    let front = listings.drop_last();
    let whole = all_strays(listings);
    if l < front.len() {
        law_every_stray_is_found(front, l, k, stray);
        let i = choose|i: int| 0 <= i < all_strays(front).len() && all_strays(front)[i] == stray;
        assert(whole[i] == stray);
    } else {
        let infos = listings[l].infos->0@;
        let keep = |info: ShortcutInfo| is_stray(info);
        let kept = infos.filter(keep);
        assert(keep(infos[k]));
        assert(kept.contains(infos[k]));
        let j = choose|j: int| 0 <= j < kept.len() && kept[j] == infos[k];
        assert(whole[all_strays(front).len() + j] == stray);
    }
}

// ---------------------------------------------------------------------
// What the user is told
// ---------------------------------------------------------------------

/// A text as its `Debug` form writes it: in double quotes, with escapes.
pub uninterp spec fn quoted(s: Seq<char>) -> Seq<char>;

/// Whether a text is printable ASCII without quotes and backslashes.
pub open spec fn needs_no_escape(s: Seq<char>) -> bool {
    forall|i: int|
        0 <= i < s.len() ==> ' ' <= #[trigger] s[i] && s[i] <= '~' && s[i] != '"' && s[i] != '\''
            && s[i] != '\\'
}

/// A text between double quotes, as it is.
pub open spec fn in_quotes(s: Seq<char>) -> Seq<char> {
    seq!['"'] + s + seq!['"']
}

/// The `Debug` form of a `str`: `quoted` of it. Of printable ASCII without
/// quotes and backslashes it is also claimed that it stands between double
/// quotes as it is. How anything else is escaped is left unsaid.
#[verifier::external_body]
fn debug_form(s: &str) -> (r: String)
    ensures
        r@ == quoted(s@),
        needs_no_escape(s@) ==> r@ == in_quotes(s@),
{
    format!("{s:?}")
}

/// The command that unregisters a shortcut, by the quoted names of its component
/// and of itself.
pub open spec fn unregister_text(component: Seq<char>, id: Seq<char>) -> Seq<char> {
    "busctl --user call "@ + SERVICE@ + " "@ + MAIN_PATH@ + " "@ + MAIN_IFACE@
        + " unregister ss "@ + component + " "@ + id
}

/// The command that unregisters a shortcut, by the quoted names of its component
/// and of itself.
pub fn unregister_command(component: &str, id: &str) -> (r: String)
    ensures
        r@ == unregister_text(component@, id@),
{
    let mut command = "busctl --user call ".to_owned();
    command.append(SERVICE);
    command.append(" ");
    command.append(MAIN_PATH);
    command.append(" ");
    command.append(MAIN_IFACE);
    command.append(" unregister ss ");
    command.append(component);
    command.append(" ");
    command.append(id);
    command
}

/// What is said of a stray, by its quoted id and the command that removes it.
pub open spec fn warning_text(stray: Stray, id: Seq<char>, command: Seq<char>) -> Seq<char> {
    "kglobalaccel: a leftover Fono "@ + id + " shortcut is registered under "@
        + stray.component_friendly + " ("@ + stray.component
        + "), from an earlier attempt to bind keys through the desktop portal. Plasma may swallow that key before Fono sees it. Remove it with:\n  "@
        + command
}

/// The command that removes a stray whose names need no escape.
pub open spec fn plain_removal(stray: Stray) -> Seq<char> {
    unregister_text(in_quotes(stray.component), in_quotes(stray.id))
}

/// Where the first double quote at or after `from` stands that no backslash
/// escapes; the length of the text where there is none.
pub open spec fn closing_quote(text: Seq<char>, from: int) -> int
    decreases text.len() + 1 - from,
{
    if from >= text.len() {
        text.len() as int
    } else if text[from] == '"' {
        from
    } else if text[from] == '\\' {
        closing_quote(text, from + 2)
    } else {
        closing_quote(text, from + 1)
    }
}

/// Whether a text is one quoted word: it opens with a double quote, and the next
/// one that is not escaped is its last character.
pub open spec fn is_quoted_word(text: Seq<char>) -> bool {
    text.len() >= 2 && text[0] == '"' && closing_quote(text, 1) == text.len() - 1
}

/// The closing quote of a word is where it was, whatever follows the word.
proof fn lemma_word_ends_where_it_ended(word: Seq<char>, rest: Seq<char>, from: int)
    requires
        0 <= from,
        closing_quote(word, from) < word.len(),
    ensures
        closing_quote(word + rest, from) == closing_quote(word, from),
    decreases word.len() + 1 - from,
{
    if word[from] == '\\' {
        lemma_word_ends_where_it_ended(word, rest, from + 2);
    } else if word[from] != '"' {
        lemma_word_ends_where_it_ended(word, rest, from + 1);
    }
}

/// A command that unregisters a shortcut tells what it unregisters, escapes or
/// not: with the component as one quoted word, two such commands are equal only
/// where both words are.
pub proof fn law_unregister_commands_tell_words_apart(
    component_a: Seq<char>,
    id_a: Seq<char>,
    component_b: Seq<char>,
    id_b: Seq<char>,
)
    requires
        is_quoted_word(component_a),
        is_quoted_word(component_b),
    ensures
        unregister_text(component_a, id_a) == unregister_text(component_b, id_b) <==> component_a
            == component_b && id_a == id_b,
{
    if unregister_text(component_a, id_a) == unregister_text(component_b, id_b) {
        let head = "busctl --user call "@ + SERVICE@ + " "@ + MAIN_PATH@ + " "@ + MAIN_IFACE@
            + " unregister ss "@;
        let rest_a = " "@ + id_a;
        let rest_b = " "@ + id_b;
        let tail_a = component_a + rest_a;
        let tail_b = component_b + rest_b;
        assert(unregister_text(component_a, id_a) =~= head + tail_a);
        assert(unregister_text(component_b, id_b) =~= head + tail_b);
        assert(tail_a =~= (head + tail_a).skip(head.len() as int));
        assert(tail_b =~= (head + tail_b).skip(head.len() as int));
        lemma_word_ends_where_it_ended(component_a, rest_a, 1);
        lemma_word_ends_where_it_ended(component_b, rest_b, 1);
        let n = component_a.len();
        assert(component_b.len() == n);
        assert(component_a =~= tail_a.take(n as int));
        assert(component_b =~= tail_b.take(n as int));
        assert(id_a =~= tail_a.skip(n as int).skip(" "@.len() as int));
        assert(id_b =~= tail_b.skip(n as int).skip(" "@.len() as int));
    }
}

/// The component and the id decide the command that removes a stray, and nothing
/// else does: names that need no escape never share a command with others.
pub proof fn law_removal_commands_tell_strays_apart(a: Stray, b: Stray)
    requires
        needs_no_escape(a.component),
        needs_no_escape(a.id),
        needs_no_escape(b.component),
        needs_no_escape(b.id),
    ensures
        plain_removal(a) == plain_removal(b) <==> a.component == b.component && a.id == b.id,
{
    lemma_plain_name_is_one_word(a.component, 1);
    lemma_plain_name_is_one_word(b.component, 1);
    law_unregister_commands_tell_words_apart(
        in_quotes(a.component),
        in_quotes(a.id),
        in_quotes(b.component),
        in_quotes(b.id),
    );
    lemma_between_quotes(a.component);
    lemma_between_quotes(b.component);
    lemma_between_quotes(a.id);
    lemma_between_quotes(b.id);
}

proof fn lemma_between_quotes(name: Seq<char>)
    ensures
        in_quotes(name).subrange(1, in_quotes(name).len() - 1) == name,
{
    assert(in_quotes(name).subrange(1, in_quotes(name).len() - 1) =~= name);
}

proof fn lemma_plain_name_is_one_word(name: Seq<char>, from: int)
    requires
        needs_no_escape(name),
        1 <= from <= name.len() + 1,
    ensures
        closing_quote(in_quotes(name), from) == name.len() + 1,
    decreases name.len() + 1 - from,
{
    if from <= name.len() {
        assert(in_quotes(name)[from] == name[from - 1]);
        lemma_plain_name_is_one_word(name, from + 1);
    }
}

impl StrayShortcut {
    /// The command that removes this entry. It is for the user to run: the
    /// binding lives under another application's name.
    pub fn removal_command(&self) -> (r: String)
        ensures
            r@ == unregister_text(quoted(self.component@), quoted(self.id@)),
            needs_no_escape(self.component@) && needs_no_escape(self.id@) ==> r@
                == plain_removal(self@),
    {
        let component = debug_form(self.component.as_str());
        let id = debug_form(self.id.as_str());
        unregister_command(component.as_str(), id.as_str())
    }

    /// What is said of this entry, by its quoted id and the command that removes
    /// it.
    pub fn warning(&self, id: &str, command: &str) -> (r: String)
        ensures
            r@ == warning_text(self@, id@, command@),
    {
        let mut text = "kglobalaccel: a leftover Fono ".to_owned();
        text.append(id);
        text.append(" shortcut is registered under ");
        text.append(self.component_friendly.as_str());
        text.append(" (");
        text.append(self.component.as_str());
        text.append(
            "), from an earlier attempt to bind keys through the desktop portal. Plasma may swallow that key before Fono sees it. Remove it with:\n  ",
        );
        text.append(command);
        text
    }
}

/// The warnings to log about strays, one for each of them and in their order.
pub fn warn_about_strays(strays: &Vec<StrayShortcut>) -> (warnings: Vec<String>)
    ensures
        warnings@.len() == strays@.len(),
        forall|i: int|
            0 <= i < strays@.len() ==> (#[trigger] warnings@[i])@ == warning_text(
                strays@[i]@,
                quoted(strays@[i].id@),
                unregister_text(quoted(strays@[i].component@), quoted(strays@[i].id@)),
            ),
{
    let mut warnings: Vec<String> = Vec::new();
    let mut i: usize = 0;
    while i < strays.len()
        invariant
            i <= strays.len(),
            warnings@.len() == i,
            forall|k: int|
                0 <= k < i ==> (#[trigger] warnings@[k])@ == warning_text(
                    strays@[k]@,
                    quoted(strays@[k].id@),
                    unregister_text(quoted(strays@[k].component@), quoted(strays@[k].id@)),
                ),
        decreases strays.len() - i,
    {
        let stray = &strays[i];
        let id = debug_form(stray.id.as_str());
        let command = stray.removal_command();
        warnings.push(stray.warning(id.as_str(), command.as_str()));
        i = i + 1;
    }
    warnings
}

// ---------------------------------------------------------------------
// The rules, row by row
// ---------------------------------------------------------------------

/// The daemon's own shortcuts are these three, by id and description together.
pub proof fn law_own_shortcuts_are_three(id: Seq<char>, description: Seq<char>)
    ensures
        is_own_shortcut(id, description) <==> ((id == "dictation"@ && description
            == "Toggle voice dictation"@) || (id == "assistant"@ && description
            == "Toggle voice assistant"@) || (id == "cancel"@ && description
            == "Cancel recording / assistant turn"@)),
{
    assert(ALL@[0] == ("dictation", "Toggle voice dictation"));
    assert(ALL@[1] == ("assistant", "Toggle voice assistant"));
    assert(ALL@[2] == ("cancel", "Cancel recording / assistant turn"));
}

/// A component is asked exactly where it has a unique name that is not the
/// daemon's own. It goes by its friendly name where that is not empty, and by
/// the unique one otherwise.
pub proof fn law_foreign_components(names: Seq<Seq<char>>)
    ensures
        foreign_component(names) is Some <==> names.len() > 0 && names[0].len() > 0 && names[0]
            != "fono"@,
        foreign_component(names) matches Some((unique, friendly)) ==> {
            &&& unique == names[0]
            &&& names.len() > 1 && names[1].len() > 0 ==> friendly == names[1]
            &&& names.len() == 1 || names[1].len() == 0 ==> friendly == names[0]
        },
{
}

/// A row of a foreign component is a stray exactly where it holds a key and has
/// the id and the description of one of the three shortcuts.
pub proof fn law_a_row_with_our_names_and_a_key_is_a_stray(
    info: ShortcutInfo,
    unique: Seq<char>,
    friendly: Seq<char>,
)
    ensures
        ({
            let found = strays_in(seq![info], unique, friendly);
            let ours = (info.0@ == "dictation"@ && info.1@ == "Toggle voice dictation"@) || (info.0@
                == "assistant"@ && info.1@ == "Toggle voice assistant"@) || (info.0@ == "cancel"@
                && info.1@ == "Cancel recording / assistant turn"@);
            if info.6@.len() > 0 && ours {
                &&& found.len() == 1
                &&& found[0].component == unique
                &&& found[0].component_friendly == friendly
                &&& found[0].id == info.0@
                &&& found[0].keys == info.6@
            } else {
                found.len() == 0
            }
        }),
{
    law_own_shortcuts_are_three(info.0@, info.1@);
    let row = seq![info];
    let none = Seq::<ShortcutInfo>::empty();
    lemma_strays_in_push(row, 0, unique, friendly);
    reveal(Seq::filter);
    assert(row.take(0) =~= none);
    assert(row.take(1) =~= row);
    assert(strays_in(none, unique, friendly).len() == 0);
}

/// Rows are judged one by one: the strays of two rows of rows are those of the
/// first and after them those of the second.
pub proof fn law_rows_are_judged_one_by_one(
    a: Seq<ShortcutInfo>,
    b: Seq<ShortcutInfo>,
    unique: Seq<char>,
    friendly: Seq<char>,
)
    ensures
        strays_in(a + b, unique, friendly) == strays_in(a, unique, friendly) + strays_in(
            b,
            unique,
            friendly,
        ),
        strays_in(Seq::<ShortcutInfo>::empty(), unique, friendly).len() == 0,
{
    Seq::filter_distributes_over_add(a, b, |info: ShortcutInfo| is_stray(info));
    reveal(Seq::filter);
    assert(strays_in(a + b, unique, friendly) =~= strays_in(a, unique, friendly) + strays_in(
        b,
        unique,
        friendly,
    ));
}

/// Components are judged one by one, in their order, and one that is not to be
/// asked, or could not be, has no strays.
pub proof fn law_components_are_judged_one_by_one(
    a: Seq<ComponentListing>,
    b: Seq<ComponentListing>,
    listing: ComponentListing,
)
    ensures
        all_strays(a + b) == all_strays(a) + all_strays(b),
        all_strays(Seq::<ComponentListing>::empty()).len() == 0,
        match foreign_component(crate::text::string_views(listing.names@)) {
            Some((unique, friendly)) => match listing.infos {
                Some(infos) => all_strays(seq![listing]) == strays_in(infos@, unique, friendly),
                None => all_strays(seq![listing]).len() == 0,
            },
            None => all_strays(seq![listing]).len() == 0,
        },
    decreases b.len(),
{
    if b.len() == 0 {
        assert(a + b =~= a);
        assert(all_strays(a) + all_strays(b) =~= all_strays(a));
    } else {
        law_components_are_judged_one_by_one(a, b.drop_last(), listing);
        assert((a + b).drop_last() =~= a + b.drop_last());
        assert(all_strays(a + b) =~= all_strays(a) + all_strays(b));
    }
    let one = seq![listing];
    reveal_with_fuel(all_strays, 2);
    assert(one.drop_last() =~= Seq::<ComponentListing>::empty());
    assert(all_strays(one) =~= strays_of(listing));
}

/// None of the three shortcuts is overlooked: a row with the id and description
/// of one of them and at least one key, under a component with another name than
/// the daemon's, is among the strays with that component, id and keys.
pub proof fn law_our_shortcuts_elsewhere_are_found(
    listings: Seq<ComponentListing>,
    l: int,
    k: int,
) -> (i: int)
    requires
        0 <= l < listings.len(),
        listings[l].names@.len() > 0,
        listings[l].names@[0]@.len() > 0,
        listings[l].names@[0]@ != "fono"@,
        listings[l].infos is Some,
        0 <= k < listings[l].infos->0@.len(),
        listings[l].infos->0@[k].6@.len() > 0,
        ({
            let id = listings[l].infos->0@[k].0@;
            let description = listings[l].infos->0@[k].1@;
            ||| id == "dictation"@ && description == "Toggle voice dictation"@
            ||| id == "assistant"@ && description == "Toggle voice assistant"@
            ||| id == "cancel"@ && description == "Cancel recording / assistant turn"@
        }),
    ensures
        0 <= i < all_strays(listings).len(),
        all_strays(listings)[i].component == listings[l].names@[0]@,
        all_strays(listings)[i].id == listings[l].infos->0@[k].0@,
        all_strays(listings)[i].keys == listings[l].infos->0@[k].6@,
{
    let info = listings[l].infos->0@[k];
    let names = crate::text::string_views(listings[l].names@);
    assert(names[0] == listings[l].names@[0]@);
    law_own_shortcuts_are_three(info.0@, info.1@);
    law_foreign_components(names);
    let (unique, friendly) = foreign_component(names)->0;
    let stray = Stray {
        component: unique,
        component_friendly: friendly,
        id: info.0@,
        keys: info.6@,
    };
    assert(row_is_stray(listings[l], k, stray));
    law_every_stray_is_found(listings, l, k, stray);
    choose|i: int| 0 <= i < all_strays(listings).len() && all_strays(listings)[i] == stray
}

/// Nothing else is taken for a stray: each is such a row.
pub proof fn law_strays_are_nothing_but_our_shortcuts(
    listings: Seq<ComponentListing>,
    i: int,
) -> (at: (int, int))
    requires
        0 <= i < all_strays(listings).len(),
    ensures
        0 <= at.0 < listings.len(),
        listings[at.0].names@.len() > 0,
        listings[at.0].names@[0]@.len() > 0,
        listings[at.0].names@[0]@ != "fono"@,
        listings[at.0].infos is Some,
        0 <= at.1 < listings[at.0].infos->0@.len(),
        listings[at.0].infos->0@[at.1].6@.len() > 0,
        ({
            let id = listings[at.0].infos->0@[at.1].0@;
            let description = listings[at.0].infos->0@[at.1].1@;
            ||| id == "dictation"@ && description == "Toggle voice dictation"@
            ||| id == "assistant"@ && description == "Toggle voice assistant"@
            ||| id == "cancel"@ && description == "Cancel recording / assistant turn"@
        }),
        all_strays(listings)[i].component == listings[at.0].names@[0]@,
        all_strays(listings)[i].id == listings[at.0].infos->0@[at.1].0@,
        all_strays(listings)[i].keys == listings[at.0].infos->0@[at.1].6@,
{
    law_strays_are_own_shortcuts_elsewhere(listings, i);
    let (l, k) = choose|l: int, k: int|
        0 <= l < listings.len() && #[trigger] row_is_stray(listings[l], k, all_strays(listings)[i]);
    let info = listings[l].infos->0@[k];
    let names = crate::text::string_views(listings[l].names@);
    assert(names[0] == listings[l].names@[0]@);
    law_own_shortcuts_are_three(info.0@, info.1@);
    law_foreign_components(names);
    (l, k)
}

/// What a stray holds is what its fields hold, and a row of strays is whole.
pub proof fn law_strays_hold_their_fields(strays: Seq<StrayShortcut>, i: int)
    requires
        0 <= i < strays.len(),
    ensures
        stray_views(strays).len() == strays.len(),
        stray_views(strays)[i].component == strays[i].component@,
        stray_views(strays)[i].component_friendly == strays[i].component_friendly@,
        stray_views(strays)[i].id == strays[i].id@,
        stray_views(strays)[i].keys == strays[i].keys@,
{
}

/// The command is this text, the component, a space and the id.
pub proof fn law_the_unregister_command(component: Seq<char>, id: Seq<char>)
    ensures
        unregister_text(component, id)
            == "busctl --user call org.kde.kglobalaccel /kglobalaccel org.kde.KGlobalAccel unregister ss "@
            + component + " "@ + id,
{
    reveal_strlit("busctl --user call ");
    reveal_strlit("org.kde.kglobalaccel");
    reveal_strlit(" ");
    reveal_strlit("/kglobalaccel");
    reveal_strlit("org.kde.KGlobalAccel");
    reveal_strlit(" unregister ss ");
    reveal_strlit(
        "busctl --user call org.kde.kglobalaccel /kglobalaccel org.kde.KGlobalAccel unregister ss ",
    );
    let head = "busctl --user call "@ + "org.kde.kglobalaccel"@ + " "@ + "/kglobalaccel"@ + " "@
        + "org.kde.KGlobalAccel"@ + " unregister ss "@;
    assert(head
        =~= "busctl --user call org.kde.kglobalaccel /kglobalaccel org.kde.KGlobalAccel unregister ss "@);
}

/// The warning names the id, the component by both its names, and the command, in
/// these words.
pub proof fn law_the_warning(stray: Stray, id: Seq<char>, command: Seq<char>)
    ensures
        warning_text(stray, id, command) == "kglobalaccel: a leftover Fono "@ + id
            + " shortcut is registered under "@ + stray.component_friendly + " ("@
            + stray.component
            + "), from an earlier attempt to bind keys through the desktop portal. Plasma may swallow that key before Fono sees it. Remove it with:\n  "@
            + command,
{
}

/// Printable ASCII but for the quotes and the backslash needs no escape, and in
/// quotes it has one double quote more at either end.
pub proof fn law_plain_names(s: Seq<char>, stray: Stray)
    ensures
        needs_no_escape(s) <==> forall|i: int|
            0 <= i < s.len() ==> 32 <= (#[trigger] s[i]) as int <= 126 && s[i] as int != 34
                && s[i] as int != 39 && s[i] as int != 92,
        in_quotes(s) == seq!['"'] + s + seq!['"'],
        plain_removal(stray) == unregister_text(
            seq!['"'] + stray.component + seq!['"'],
            seq!['"'] + stray.id + seq!['"'],
        ),
{
}

} // verus!
