//! Reading a binding such as `Ctrl+Alt+Space` from the configuration.
//!
//! A binding is a list of tokens joined by `+`: modifiers first, the key last.
//! Keys are known by their W3C code name (`KeyA`, `Digit7`, `Space`), which is
//! what `global_hotkey::hotkey::Code` prints for itself, and modifiers by the
//! bits of `global_hotkey::hotkey::Modifiers`.
use std::str::FromStr;

use vstd::prelude::*;

use crate::text::{chars_of, same_lowercased, split, to_upper, trim};

verus! {

/// `Modifiers::ALT`.
pub const MOD_ALT: u32 = 0x1;

/// `Modifiers::CONTROL`.
pub const MOD_CONTROL: u32 = 0x8;

/// `Modifiers::META`.
pub const MOD_META: u32 = 0x40;

/// `Modifiers::SHIFT`.
pub const MOD_SHIFT: u32 = 0x200;

/// `Modifiers::SUPER`.
pub const MOD_SUPER: u32 = 0x2000;

/// A set of modifier keys, held as the bits of
/// `global_hotkey::hotkey::Modifiers`.
#[derive(Debug, Clone, Copy, PartialEq, Eq, Structural)]
pub struct Modifiers {
    pub bits: u32,
}

/// `Modifiers::contains` of `global_hotkey`: whether every bit of `flag` is
/// set in `bits`.
#[verifier::external_body]
fn flags_contain(bits: u32, flag: u32) -> (r: bool)
    ensures
        r == (bits & flag == flag),
{
    global_hotkey::hotkey::Modifiers::from_bits_retain(bits).contains(
        global_hotkey::hotkey::Modifiers::from_bits_retain(flag),
    )
}

/// `Modifiers::intersects` of `global_hotkey`: whether some bit of `flags` is
/// set in `bits`.
#[verifier::external_body]
fn flags_intersect(bits: u32, flags: u32) -> (r: bool)
    ensures
        r == (bits & flags != 0),
{
    global_hotkey::hotkey::Modifiers::from_bits_retain(bits).intersects(
        global_hotkey::hotkey::Modifiers::from_bits_retain(flags),
    )
}

impl Modifiers {
    /// No modifier at all.
    pub fn empty() -> (r: Modifiers)
        ensures
            r.bits == 0,
    {
        Modifiers { bits: 0 }
    }

    /// Whether every modifier of `flag` is in the set.
    pub fn contains(&self, flag: u32) -> (r: bool)
        ensures
            r == (self.bits & flag == flag),
    {
        flags_contain(self.bits, flag)
    }

    /// Whether some modifier of `flags` is in the set.
    pub fn intersects(&self, flags: u32) -> (r: bool)
        ensures
            r == (self.bits & flags != 0),
    {
        flags_intersect(self.bits, flags)
    }
}

/// A physical key, held as its W3C code name.
#[derive(Debug, Clone)]
pub struct Code {
    pub name: String,
}

impl Code {
    /// The name can be that of a key: it holds no padded number.
    pub open spec fn wf(self) -> bool {
        !is_padded(self.name@)
    }
}

/// One key with the modifiers held down beside it.
#[derive(Debug, Clone)]
pub struct ParsedHotkey {
    pub modifiers: Modifiers,
    pub code: Code,
}

/// Why a binding could not be read.
#[derive(Debug, Clone, Copy, PartialEq, Eq, Structural)]
pub enum ParseError {
    /// A token ahead of the last one names no modifier.
    UnknownModifier,
    /// The last token names no key.
    UnknownKey,
}

/// The names of the punctuation, editing and navigation keys, of the space bar
/// and of Escape.
pub open spec fn is_named_key(name: Seq<char>) -> bool {
    ||| name == "Space"@
    ||| name == "Quote"@
    ||| name == "Comma"@
    ||| name == "Minus"@
    ||| name == "Period"@
    ||| name == "Slash"@
    ||| name == "Semicolon"@
    ||| name == "Equal"@
    ||| name == "BracketLeft"@
    ||| name == "Backslash"@
    ||| name == "BracketRight"@
    ||| name == "Backquote"@
    ||| name == "Escape"@
    ||| name == "Tab"@
    ||| name == "Backspace"@
    ||| name == "Enter"@
    ||| name == "Insert"@
    ||| name == "Delete"@
    ||| name == "Pause"@
    ||| name == "PrintScreen"@
    ||| name == "Home"@
    ||| name == "End"@
    ||| name == "ArrowLeft"@
    ||| name == "ArrowUp"@
    ||| name == "ArrowRight"@
    ||| name == "ArrowDown"@
    ||| name == "PageUp"@
    ||| name == "PageDown"@
}

/// The names of the keys with a common place on a keyboard: letters, digits,
/// `F1` to `F35`, punctuation, editing and navigation.
pub open spec fn is_common_key(name: Seq<char>) -> bool {
    ||| name.len() == 4 && name.take(3) == "Key"@ && 'A' <= name[3] && name[3] <= 'Z'
    ||| name.len() == 6 && name.take(5) == "Digit"@ && '0' <= name[5] && name[5] <= '9'
    ||| name.len() == 2 && name[0] == 'F' && '1' <= name[1] && name[1] <= '9'
    ||| name.len() == 3 && name[0] == 'F' && '1' <= name[1] && name[1] <= '2' && '0' <= name[2]
        && name[2] <= '9'
    ||| name.len() == 3 && name[0] == 'F' && name[1] == '3' && '0' <= name[2] && name[2] <= '5'
    ||| is_named_key(name)
}

/// Whether a name is an `F` and a number written with a leading zero, which no
/// key has for its name.
pub open spec fn is_padded(name: Seq<char>) -> bool {
    name.len() > 2 && name[0] == 'F' && name[1] == '0'
}

/// What the key that `Code::from_str` finds under a name prints for itself,
/// if it finds one.
pub uninterp spec fn code_name(name: Seq<char>) -> Option<Seq<char>>;

/// `Code::from_str` of `global_hotkey`, and the name that the key it finds has
/// in its `Debug` form: `code_name` of the argument. Of the common keys it is
/// also claimed that they are found under their own names and no others, and of
/// all keys that none has a padded number in its name.
#[verifier::external_body]
fn lookup_code(name: &str) -> (r: Option<String>)
    ensures
        (match r {
            Some(n) => Some(n@),
            None => None,
        }) == code_name(name@),
        is_common_key(name@) ==> r is Some && r->0@ == name@,
        r matches Some(n) ==> !is_padded(n@) && (is_common_key(n@) ==> n@ == name@),
{
    match global_hotkey::hotkey::Code::from_str(name) {
        Ok(code) => Some(format!("{code:?}")),
        Err(_) => None,
    }
}

impl Code {
    /// The key of that W3C name, if there is one.
    pub fn named(name: &str) -> (r: Option<Code>)
        ensures
            (match r {
                Some(c) => Some(c.name@),
                None => None,
            }) == code_name(name@),
            is_common_key(name@) ==> r is Some && r->0.name@ == name@,
            r matches Some(c) ==> c.wf() && (is_common_key(c.name@) ==> c.name@ == name@),
    {
        match lookup_code(name) {
            Some(name) => Some(Code { name }),
            None => None,
        }
    }
}

/// The modifier that a token names, in any ASCII case. `super`, `meta`, `cmd`
/// and `win` are one and the same key.
pub open spec fn modifier_flag(token: Seq<char>) -> Option<u32> {
    let word = crate::text::lowercase(token);
    if word == "ctrl"@ {
        Some(MOD_CONTROL)
    } else if word == "alt"@ {
        Some(MOD_ALT)
    } else if word == "shift"@ {
        Some(MOD_SHIFT)
    } else if word == "super"@ || word == "meta"@ || word == "cmd"@ || word == "win"@ {
        Some(MOD_SUPER)
    } else {
        None
    }
}

/// The modifiers that the tokens name together, if each of them names one.
pub open spec fn modifier_bits(tokens: Seq<Seq<char>>) -> Option<u32>
    decreases tokens.len(),
{
    if tokens.len() == 0 {
        Some(0)
    } else {
        match (modifier_bits(tokens.drop_last()), modifier_flag(tokens.last())) {
            (Some(bits), Some(flag)) => Some(bits | flag),
            _ => None,
        }
    }
}

/// Whether `token` is the letter f, small or capital, and one or two digits.
pub open spec fn is_function_token(token: Seq<char>) -> bool {
    &&& token.len() == 2 || token.len() == 3
    &&& token[0] == 'f' || token[0] == 'F'
    &&& forall|i: int| 1 <= i < token.len() ==> '0' <= #[trigger] token[i] && token[i] <= '9'
}

/// The code name under which a key token is looked up: a letter or a digit
/// stands for its key, a few keys have a short or lower-case spelling, and
/// anything else is taken to be a code name already.
pub open spec fn key_name(token: Seq<char>) -> Seq<char> {
    let word = crate::text::lowercase(token);
    if token.len() == 1 && 'a' <= word[0] && word[0] <= 'z' {
        "Key"@.push(crate::text::ascii_upper(token[0]))
    } else if token.len() == 1 && '0' <= token[0] && token[0] <= '9' {
        "Digit"@.push(token[0])
    } else if word == "esc"@ || word == "escape"@ {
        "Escape"@
    } else if word == "grave"@ {
        "Backquote"@
    } else if word == "space"@ {
        "Space"@
    } else if is_function_token(token) {
        seq!['F'] + token.skip(1)
    } else {
        token
    }
}

/// The tokens of a binding.
pub open spec fn tokens(binding: Seq<char>) -> Seq<Seq<char>> {
    crate::text::split_on(binding, '+').map_values(|t: Seq<char>| crate::text::trimmed(t))
}

/// The modifiers and the key that a looked-up key and its modifiers make.
pub open spec fn combination(modifiers: u32, code: Option<Seq<char>>) -> Result<
    (u32, Seq<char>),
    ParseError,
> {
    match code {
        Some(name) => Ok((modifiers, name)),
        None => Err(ParseError::UnknownKey),
    }
}

/// What a binding means: its modifier bits and the name of its key.
pub open spec fn meaning(binding: Seq<char>) -> Result<(u32, Seq<char>), ParseError> {
    let words = tokens(binding);
    match modifier_bits(words.drop_last()) {
        Some(modifiers) => combination(modifiers, code_name(key_name(words.last()))),
        None => Err(ParseError::UnknownModifier),
    }
}

/// What a binding of modifiers and a common key means; `None` for any other.
pub open spec fn common_meaning(binding: Seq<char>) -> Option<(u32, Seq<char>)> {
    let words = tokens(binding);
    match modifier_bits(words.drop_last()) {
        Some(modifiers) => if is_common_key(key_name(words.last())) {
            Some((modifiers, key_name(words.last())))
        } else {
            None
        },
        None => None,
    }
}

/// What a read binding holds.
pub open spec fn parsed_view(r: Result<ParsedHotkey, ParseError>) -> Result<
    (u32, Seq<char>),
    ParseError,
> {
    match r {
        Ok(p) => Ok((p.modifiers.bits, p.code.name@)),
        Err(e) => Err(e),
    }
}

fn token_flag(token: &str) -> (r: Option<u32>)
    ensures
        r == modifier_flag(token@),
{
    if same_lowercased(token, "ctrl") {
        Some(MOD_CONTROL)
    } else if same_lowercased(token, "alt") {
        Some(MOD_ALT)
    } else if same_lowercased(token, "shift") {
        Some(MOD_SHIFT)
    } else if same_lowercased(token, "super") || same_lowercased(token, "meta") || same_lowercased(
        token,
        "cmd",
    ) || same_lowercased(token, "win") {
        Some(MOD_SUPER)
    } else {
        None
    }
}

/// The code name under which a key token is looked up.
pub fn code_name_of_token(token: &str) -> (r: String)
    ensures
        r@ == key_name(token@),
{
    let chars = chars_of(token);
    if chars.len() == 1 {
        let c = chars[0];
        if ('a' <= c && c <= 'z') || ('A' <= c && c <= 'Z') {
            let mut name = "Key".to_owned();
            name.push(to_upper(c));
            return name;
        }
        if '0' <= c && c <= '9' {
            let mut name = "Digit".to_owned();
            name.push(c);
            return name;
        }
    }
    if same_lowercased(token, "esc") || same_lowercased(token, "escape") {
        return "Escape".to_owned();
    }
    if same_lowercased(token, "grave") {
        return "Backquote".to_owned();
    }
    if same_lowercased(token, "space") {
        return "Space".to_owned();
    }
    if (chars.len() == 2 || chars.len() == 3) && (chars[0] == 'f' || chars[0] == 'F') && '0'
        <= chars[1] && chars[1] <= '9' && (chars.len() == 2 || ('0' <= chars[2] && chars[2]
        <= '9')) {
        let mut name = String::new();
        name.push('F');
        name.push(chars[1]);
        if chars.len() == 3 {
            name.push(chars[2]);
        }
        assert(name@ =~= seq!['F'] + token@.skip(1));
        return name;
    }
    token.to_owned()
}

/// Joins the modifiers of a binding with the key that was found for it.
pub fn with_code(modifiers: u32, code: Option<Code>) -> (r: Result<ParsedHotkey, ParseError>)
    ensures
        parsed_view(r) == combination(
            modifiers,
            match code {
                Some(c) => Some(c.name@),
                None => None,
            },
        ),
{
    match code {
        Some(code) => Ok(ParsedHotkey { modifiers: Modifiers { bits: modifiers }, code }),
        None => Err(ParseError::UnknownKey),
    }
}

/// Reads a binding. It comes to a common key exactly where its last token stands
/// for that key.
pub fn parse_hotkey(s: &str) -> (r: Result<ParsedHotkey, ParseError>)
    ensures
        parsed_view(r) == meaning(s@),
        common_meaning(s@) matches Some(m) ==> parsed_view(r) == Ok::<_, ParseError>(m),
        r matches Ok(p) ==> p.code.wf() && (is_common_key(p.code.name@) ==> common_meaning(s@)
            == Some((p.modifiers.bits, p.code.name@))),
{
    let parts = split(s, '+');
    let n: usize = parts.len();
    let ghost words = tokens(s@);
    assert(words.len() == n);
    proof {
        crate::text::lemma_split_nonempty(s@, '+');
    }
    let mut modifiers: u32 = 0;
    let mut i: usize = 0;
    assert(words.take(0) =~= Seq::<Seq<char>>::empty());
    while i < n - 1
        invariant
            n == parts.len(),
            n > 0,
            i <= n - 1,
            words == tokens(s@),
            crate::text::str_views(parts@) == crate::text::split_on(s@, '+'),
            words.len() == n,
            modifier_bits(words.take(i as int)) == Some(modifiers),
        decreases n - i,
    {
        let token = trim(parts[i]);
        assert(crate::text::str_views(parts@)[i as int] == parts@[i as int]@);
        assert(words[i as int] == token@);
        assert(words.take(i + 1).drop_last() =~= words.take(i as int));
        match token_flag(token) {
            Some(flag) => {
                modifiers = modifiers | flag;
            },
            None => {
                proof {
                    lemma_unknown_modifier(words.drop_last(), i as int);
                }
                return Err(ParseError::UnknownModifier);
            },
        }
        i = i + 1;
    }
    assert(words.take(i as int) =~= words.drop_last());
    let token = trim(parts[n - 1]);
    assert(crate::text::str_views(parts@)[n - 1] == parts@[n - 1]@);
    assert(words.last() == token@);
    with_code(modifiers, Code::named(code_name_of_token(token).as_str()))
}

/// Case does not matter in the name of a modifier.
pub proof fn law_modifier_names_ignore_case(token: Seq<char>)
    ensures
        modifier_flag(crate::text::lowercase(token)) == modifier_flag(token),
        modifier_flag(crate::text::uppercase(token)) == modifier_flag(token),
{
    crate::text::lemma_lowercase_absorbs(token);
}

/// The named keys by length and by enough of their letters to tell them apart.
pub(crate) proof fn lemma_named_key_literals()
    ensures
        "Space"@.len() == 5 && "Space"@[0] == 'S' && "Space"@[1] == 'p',
        "Quote"@.len() == 5 && "Quote"@[0] == 'Q' && "Quote"@[1] == 'u',
        "Comma"@.len() == 5 && "Comma"@[0] == 'C' && "Comma"@[1] == 'o',
        "Minus"@.len() == 5 && "Minus"@[0] == 'M' && "Minus"@[1] == 'i',
        "Period"@.len() == 6 && "Period"@[0] == 'P' && "Period"@[1] == 'e' && "Period"@[2] == 'r',
        "Slash"@.len() == 5 && "Slash"@[0] == 'S' && "Slash"@[1] == 'l',
        "Semicolon"@.len() == 9 && "Semicolon"@[0] == 'S' && "Semicolon"@[1] == 'e' && "Semicolon"@[5] == 'o',
        "Equal"@.len() == 5 && "Equal"@[0] == 'E' && "Equal"@[1] == 'q',
        "BracketLeft"@.len() == 11 && "BracketLeft"@[0] == 'B' && "BracketLeft"@[1] == 'r',
        "Backslash"@.len() == 9 && "Backslash"@[0] == 'B' && "Backslash"@[1] == 'a' && "Backslash"@[5] == 'l',
        "BracketRight"@.len() == 12 && "BracketRight"@[0] == 'B' && "BracketRight"@[1] == 'r',
        "Backquote"@.len() == 9 && "Backquote"@[0] == 'B' && "Backquote"@[1] == 'a' && "Backquote"@[5] == 'u',
        "Escape"@.len() == 6 && "Escape"@[0] == 'E' && "Escape"@[1] == 's' && "Escape"@[2] == 'c',
        "Tab"@.len() == 3 && "Tab"@[0] == 'T' && "Tab"@[1] == 'a',
        "Backspace"@.len() == 9 && "Backspace"@[0] == 'B' && "Backspace"@[1] == 'a' && "Backspace"@[5] == 'p',
        "Enter"@.len() == 5 && "Enter"@[0] == 'E' && "Enter"@[1] == 'n',
        "Insert"@.len() == 6 && "Insert"@[0] == 'I' && "Insert"@[1] == 'n' && "Insert"@[2] == 's',
        "Delete"@.len() == 6 && "Delete"@[0] == 'D' && "Delete"@[1] == 'e' && "Delete"@[2] == 'l',
        "Pause"@.len() == 5 && "Pause"@[0] == 'P' && "Pause"@[1] == 'a',
        "PrintScreen"@.len() == 11 && "PrintScreen"@[0] == 'P' && "PrintScreen"@[1] == 'r',
        "Home"@.len() == 4 && "Home"@[0] == 'H' && "Home"@[1] == 'o',
        "End"@.len() == 3 && "End"@[0] == 'E' && "End"@[1] == 'n',
        "ArrowLeft"@.len() == 9 && "ArrowLeft"@[0] == 'A' && "ArrowLeft"@[1] == 'r' && "ArrowLeft"@[5] == 'L',
        "ArrowUp"@.len() == 7 && "ArrowUp"@[0] == 'A' && "ArrowUp"@[1] == 'r',
        "ArrowRight"@.len() == 10 && "ArrowRight"@[0] == 'A' && "ArrowRight"@[1] == 'r',
        "ArrowDown"@.len() == 9 && "ArrowDown"@[0] == 'A' && "ArrowDown"@[1] == 'r' && "ArrowDown"@[5] == 'D',
        "PageUp"@.len() == 6 && "PageUp"@[0] == 'P' && "PageUp"@[1] == 'a' && "PageUp"@[2] == 'g',
        "PageDown"@.len() == 8 && "PageDown"@[0] == 'P' && "PageDown"@[1] == 'a',
{
    reveal_strlit("Space");
    reveal_strlit("Quote");
    reveal_strlit("Comma");
    reveal_strlit("Minus");
    reveal_strlit("Period");
    reveal_strlit("Slash");
    reveal_strlit("Semicolon");
    reveal_strlit("Equal");
    reveal_strlit("BracketLeft");
    reveal_strlit("Backslash");
    reveal_strlit("BracketRight");
    reveal_strlit("Backquote");
    reveal_strlit("Escape");
    reveal_strlit("Tab");
    reveal_strlit("Backspace");
    reveal_strlit("Enter");
    reveal_strlit("Insert");
    reveal_strlit("Delete");
    reveal_strlit("Pause");
    reveal_strlit("PrintScreen");
    reveal_strlit("Home");
    reveal_strlit("End");
    reveal_strlit("ArrowLeft");
    reveal_strlit("ArrowUp");
    reveal_strlit("ArrowRight");
    reveal_strlit("ArrowDown");
    reveal_strlit("PageUp");
    reveal_strlit("PageDown");
}

/// The named keys have names of some length that begin neither like a letter, a
/// digit nor a function key.
pub(crate) proof fn lemma_named_key_shape(name: Seq<char>)
    requires
        is_named_key(name),
    ensures
        name.len() >= 3,
        name[0] != 'K',
        name[0] != 'F',
        name[0] != 'D' || name[1] != 'i',
{
    lemma_named_key_literals();
}

/// An empty token names no common key.
pub(crate) proof fn lemma_empty_token()
    ensures
        !is_common_key(key_name(Seq::<char>::empty())),
{
    reveal_strlit("esc");
    reveal_strlit("escape");
    reveal_strlit("grave");
    reveal_strlit("space");
    assert(crate::text::lowercase(Seq::<char>::empty()).len() == 0);
    if is_named_key(key_name(Seq::<char>::empty())) {
        lemma_named_key_shape(key_name(Seq::<char>::empty()));
    }
}

proof fn lemma_unknown_modifier(tokens: Seq<Seq<char>>, i: int)
    requires
        0 <= i < tokens.len(),
        modifier_flag(tokens[i]) is None,
    ensures
        modifier_bits(tokens) is None,
    decreases tokens.len(),
{
    if i < tokens.len() - 1 {
        lemma_unknown_modifier(tokens.drop_last(), i);
    }
}

// ---------------------------------------------------------------------
// What a binding says
// ---------------------------------------------------------------------

/// Seven words name the four modifiers, and no other text names any.
pub proof fn law_modifier_words(token: Seq<char>)
    ensures
        ({
            let word = crate::text::lowercase(token);
            &&& modifier_flag(token) == Some(0x8u32) <==> word == "ctrl"@
            &&& modifier_flag(token) == Some(0x1u32) <==> word == "alt"@
            &&& modifier_flag(token) == Some(0x200u32) <==> word == "shift"@
            &&& modifier_flag(token) == Some(0x2000u32) <==> (word == "super"@ || word == "meta"@
                || word == "cmd"@ || word == "win"@)
            &&& modifier_flag(token) is None <==> !(word == "ctrl"@ || word == "alt"@ || word
                == "shift"@ || word == "super"@ || word == "meta"@ || word == "cmd"@ || word
                == "win"@)
        }),
{
    reveal_strlit("ctrl");
    reveal_strlit("alt");
    reveal_strlit("shift");
    reveal_strlit("super");
    reveal_strlit("meta");
    reveal_strlit("cmd");
    reveal_strlit("win");
    assert("ctrl"@.len() == 4 && "meta"@.len() == 4 && "ctrl"@[0] == 'c' && "meta"@[0] == 'm');
    assert("alt"@.len() == 3 && "cmd"@.len() == 3 && "win"@.len() == 3 && "alt"@[0] == 'a'
        && "cmd"@[0] == 'c' && "win"@[0] == 'w');
    assert("shift"@.len() == 5 && "super"@.len() == 5 && "shift"@[1] == 'h' && "super"@[1] == 'u');
}

/// A row of tokens names modifiers exactly where each of its tokens does, and it
/// holds a modifier exactly where one of them names it.
pub proof fn law_a_row_holds_the_modifiers_it_names(tokens: Seq<Seq<char>>)
    ensures
        modifier_bits(tokens) is Some <==> forall|i: int|
            0 <= i < tokens.len() ==> modifier_flag(#[trigger] tokens[i]) is Some,
        modifier_bits(tokens) matches Some(bits) ==> {
            &&& bits & 0x8u32 != 0 <==> exists|i: int|
                0 <= i < tokens.len() && modifier_flag(#[trigger] tokens[i]) == Some(0x8u32)
            &&& bits & 0x1u32 != 0 <==> exists|i: int|
                0 <= i < tokens.len() && modifier_flag(#[trigger] tokens[i]) == Some(0x1u32)
            &&& bits & 0x200u32 != 0 <==> exists|i: int|
                0 <= i < tokens.len() && modifier_flag(#[trigger] tokens[i]) == Some(0x200u32)
            &&& bits & 0x2000u32 != 0 <==> exists|i: int|
                0 <= i < tokens.len() && modifier_flag(#[trigger] tokens[i]) == Some(0x2000u32)
            &&& bits & !0x2209u32 == 0
        },
{
    lemma_row_of_modifiers(tokens);
    if modifier_bits(tokens) is Some {
        lemma_row_holds(tokens, 0x8);
        lemma_row_holds(tokens, 0x1);
        lemma_row_holds(tokens, 0x200);
        lemma_row_holds(tokens, 0x2000);
    }
}

proof fn lemma_row_of_modifiers(tokens: Seq<Seq<char>>)
    ensures
        modifier_bits(tokens) is Some <==> forall|i: int|
            0 <= i < tokens.len() ==> modifier_flag(#[trigger] tokens[i]) is Some,
        modifier_bits(tokens) matches Some(bits) ==> bits & !0x2209u32 == 0,
    decreases tokens.len(),
{
    if tokens.len() == 0 {
        assert(0u32 & !0x2209u32 == 0) by (bit_vector);
    } else {
        let front = tokens.drop_last();
        lemma_row_of_modifiers(front);
        if modifier_bits(tokens) is Some {
            assert forall|i: int| 0 <= i < tokens.len() implies modifier_flag(
                #[trigger] tokens[i],
            ) is Some by {
                if i < front.len() {
                    assert(front[i] == tokens[i]);
                }
            }
            let bits = modifier_bits(front)->0;
            let flag = modifier_flag(tokens.last())->0;
            assert((bits | flag) & !0x2209u32 == 0) by (bit_vector)
                requires
                    bits & !0x2209u32 == 0,
                    flag == 0x8 || flag == 0x1 || flag == 0x200 || flag == 0x2000,
            ;
        } else if forall|i: int|
            0 <= i < tokens.len() ==> modifier_flag(#[trigger] tokens[i]) is Some {
            assert forall|i: int| 0 <= i < front.len() implies modifier_flag(
                #[trigger] front[i],
            ) is Some by {
                assert(front[i] == tokens[i]);
            }
            assert(modifier_flag(tokens[tokens.len() - 1]) is Some);
        }
    }
}

proof fn lemma_row_holds(tokens: Seq<Seq<char>>, wanted: u32)
    requires
        wanted == 0x8 || wanted == 0x1 || wanted == 0x200 || wanted == 0x2000,
        modifier_bits(tokens) is Some,
    ensures
        modifier_bits(tokens)->0 & wanted != 0 <==> exists|i: int|
            0 <= i < tokens.len() && modifier_flag(#[trigger] tokens[i]) == Some(wanted),
    decreases tokens.len(),
{
    if tokens.len() == 0 {
        assert(0u32 & wanted == 0) by (bit_vector);
    } else {
        let front = tokens.drop_last();
        lemma_row_holds(front, wanted);
        let bits = modifier_bits(front)->0;
        let flag = modifier_flag(tokens.last())->0;
        assert((bits | flag) & wanted != 0 <==> bits & wanted != 0 || flag == wanted) by (bit_vector)
            requires
                wanted == 0x8 || wanted == 0x1 || wanted == 0x200 || wanted == 0x2000,
                flag == 0x8 || flag == 0x1 || flag == 0x200 || flag == 0x2000,
        ;
        if bits & wanted != 0 {
            let i = choose|i: int|
                0 <= i < front.len() && modifier_flag(#[trigger] front[i]) == Some(wanted);
            assert(modifier_flag(tokens[i]) == Some(wanted));
        }
        if flag == wanted {
            assert(modifier_flag(tokens[tokens.len() - 1]) == Some(wanted));
        }
        if exists|i: int|
            0 <= i < tokens.len() && modifier_flag(#[trigger] tokens[i]) == Some(wanted) {
            let i = choose|i: int|
                0 <= i < tokens.len() && modifier_flag(#[trigger] tokens[i]) == Some(wanted);
            if i < front.len() {
                assert(modifier_flag(front[i]) == Some(wanted));
            }
        }
    }
}

/// A single letter or digit stands for its key, in either case.
pub proof fn law_letters_and_digits_stand_for_their_keys(c: char)
    ensures
        65 <= c as u32 <= 90 ==> key_name(seq![c]) == "Key"@.push(c),
        97 <= c as u32 <= 122 ==> key_name(seq![c]) == "Key"@.push((c as u32 - 32) as char),
        48 <= c as u32 <= 57 ==> key_name(seq![c]) == "Digit"@.push(c),
{
    crate::text::law_case_is_about_ascii_letters(seq![c], 0);
}

/// A few keys go by words of their own, in any case.
pub proof fn law_words_for_keys(token: Seq<char>)
    ensures
        ({
            let word = crate::text::lowercase(token);
            &&& word == "esc"@ || word == "escape"@ ==> key_name(token) == "Escape"@
            &&& word == "grave"@ ==> key_name(token) == "Backquote"@
            &&& word == "space"@ ==> key_name(token) == "Space"@
        }),
{
    reveal_strlit("esc");
    reveal_strlit("escape");
    reveal_strlit("grave");
    reveal_strlit("space");
    assert("esc"@.len() == 3 && "escape"@.len() == 6);
    assert("grave"@.len() == 5 && "space"@.len() == 5 && "grave"@[0] == 'g' && "space"@[0] == 's');
}

/// The letter f, small or capital, with one or two digits is a function key.
pub proof fn law_f_and_digits_are_a_function_key(f: char, tens: char, ones: char)
    requires
        f == 'f' || f == 'F',
        '0' <= tens && tens <= '9',
        '0' <= ones && ones <= '9',
    ensures
        key_name(seq![f, ones]) == seq!['F', ones],
        key_name(seq![f, tens, ones]) == seq!['F', tens, ones],
{
    let short = seq![f, ones];
    let long = seq![f, tens, ones];
    reveal_strlit("esc");
    reveal_strlit("escape");
    reveal_strlit("grave");
    reveal_strlit("space");
    assert("esc"@[0] == 'e' && "esc"@.len() == 3 && "escape"@.len() == 6 && "grave"@.len() == 5
        && "space"@.len() == 5);
    crate::text::law_case_is_about_ascii_letters(short, 0);
    crate::text::law_case_is_about_ascii_letters(long, 0);
    assert(crate::text::lowercase(long)[0] == 'f');
    assert(seq!['F'] + short.skip(1) =~= seq!['F', ones]);
    assert(seq!['F'] + long.skip(1) =~= seq!['F', tens, ones]);
}

/// Any other token is a code name as it stands.
pub proof fn law_other_tokens_are_code_names(token: Seq<char>)
    requires
        token.len() != 1 || !(65 <= token[0] as u32 <= 90 || 97 <= token[0] as u32 <= 122 || 48
            <= token[0] as u32 <= 57),
        crate::text::lowercase(token) != "esc"@,
        crate::text::lowercase(token) != "escape"@,
        crate::text::lowercase(token) != "grave"@,
        crate::text::lowercase(token) != "space"@,
        !((token.len() == 2 || token.len() == 3) && (token[0] == 'f' || token[0] == 'F') && '0'
            <= token[1] && token[1] <= '9' && (token.len() == 3 ==> '0' <= token[2] && token[2]
            <= '9')),
    ensures
        key_name(token) == token,
{
    if token.len() == 1 {
        crate::text::law_case_is_about_ascii_letters(token, 0);
    }
}

/// Bindings are cut at plus signs, and white space round a token does not count.
pub proof fn law_bindings_are_cut_at_plus_signs(a: Seq<char>, b: Seq<char>)
    ensures
        tokens(a.push('+') + b) == tokens(a) + tokens(b),
        !a.contains('+') ==> tokens(a) == seq![crate::text::trimmed(a)],
{
    crate::text::law_joined_texts_split_apart(a, b, '+');
    assert(tokens(a.push('+') + b) =~= tokens(a) + tokens(b));
    if !a.contains('+') {
        crate::text::law_text_without_separator_is_one_part(a, '+');
        assert(tokens(a) =~= seq![crate::text::trimmed(a)]);
    }
}

/// A binding without a plus sign is a key with no modifier.
pub proof fn law_a_lone_token_is_a_key(s: Seq<char>)
    requires
        !s.contains('+'),
    ensures
        ({
            let name = key_name(crate::text::trimmed(s));
            &&& meaning(s) == match code_name(name) {
                Some(code) => Ok::<(u32, Seq<char>), ParseError>((0u32, code)),
                None => Err(ParseError::UnknownKey),
            }
            &&& common_meaning(s) == if is_common_key(name) {
                Some((0u32, name))
            } else {
                None
            }
        }),
{
    law_bindings_are_cut_at_plus_signs(s, s);
    assert(tokens(s).drop_last() =~= Seq::<Seq<char>>::empty());
}

/// A token ahead of a binding adds its modifier to what the binding means; one
/// that names no modifier spoils it, and what spoils the binding still does.
pub proof fn law_a_token_ahead_adds_its_modifier(token: Seq<char>, rest: Seq<char>)
    requires
        !token.contains('+'),
    ensures
        ({
            let whole = token.push('+') + rest;
            match modifier_flag(crate::text::trimmed(token)) {
                Some(flag) => {
                    &&& meaning(whole) == match meaning(rest) {
                        Ok((bits, code)) => Ok::<(u32, Seq<char>), ParseError>((flag | bits, code)),
                        Err(e) => Err(e),
                    }
                    &&& common_meaning(whole) == match common_meaning(rest) {
                        Some((bits, code)) => Some((flag | bits, code)),
                        None => None,
                    }
                },
                None => {
                    &&& meaning(whole) == Err::<(u32, Seq<char>), ParseError>(
                        ParseError::UnknownModifier,
                    )
                    &&& common_meaning(whole) is None
                },
            }
        }),
{
    law_bindings_are_cut_at_plus_signs(token, rest);
    let first = crate::text::trimmed(token);
    let words = tokens(rest);
    let whole = tokens(token.push('+') + rest);
    crate::text::lemma_split_nonempty(rest, '+');
    assert(words.len() > 0);
    assert(whole.drop_last() =~= seq![first] + words.drop_last());
    assert(whole.last() == words.last());
    lemma_first_modifier(first, words.drop_last());
}

proof fn lemma_first_modifier(first: Seq<char>, others: Seq<Seq<char>>)
    ensures
        modifier_bits(seq![first] + others) == match (modifier_flag(first), modifier_bits(others)) {
            (Some(flag), Some(bits)) => Some(flag | bits),
            _ => None,
        },
    decreases others.len(),
{
    let all = seq![first] + others;
    reveal_with_fuel(modifier_bits, 2);
    if others.len() == 0 {
        assert(all.drop_last() =~= Seq::<Seq<char>>::empty());
        assert(all.last() == first);
        if let Some(flag) = modifier_flag(first) {
            assert(0u32 | flag == flag | 0u32) by (bit_vector);
        }
    } else {
        lemma_first_modifier(first, others.drop_last());
        assert(all.drop_last() =~= seq![first] + others.drop_last());
        assert(all.last() == others.last());
        if modifier_bits(all) is Some {
            let f = modifier_flag(first)->0;
            let b = modifier_bits(others.drop_last())->0;
            let l = modifier_flag(others.last())->0;
            assert((f | b) | l == f | (b | l)) by (bit_vector);
        }
    }
}

/// What was read is the modifiers and the name of the key, or the error, as it
/// is; a key that was looked up joins its modifiers unchanged.
pub proof fn law_readings_are_whole(
    r: Result<ParsedHotkey, ParseError>,
    modifiers: u32,
    name: Seq<char>,
)
    ensures
        r matches Ok(p) ==> parsed_view(r) == Ok::<(u32, Seq<char>), ParseError>(
            (p.modifiers.bits, p.code.name@),
        ),
        r matches Err(e) ==> parsed_view(r) == Err::<(u32, Seq<char>), ParseError>(e),
        combination(modifiers, Some(name)) == Ok::<(u32, Seq<char>), ParseError>(
            (modifiers, name),
        ),
        combination(modifiers, None) == Err::<(u32, Seq<char>), ParseError>(
            ParseError::UnknownKey,
        ),
{
}

/// A code is well formed but for an `F`, a zero and something more.
pub proof fn law_only_padded_names_are_ill_formed(code: Code)
    ensures
        code.wf() <==> !(code.name@.len() > 2 && code.name@[0] == 'F' && code.name@[1] == '0'),
{
}

} // verus!
