use fono_hotkey::parse::{
    parse_hotkey, Code, Modifiers, ParseError, ParsedHotkey, MOD_ALT, MOD_CONTROL, MOD_META,
    MOD_SHIFT, MOD_SUPER,
};
use fono_hotkey::qt_keys::{
    function_key_number, letter_or_digit, punctuation_or_named, to_qt_key, ALT, CONTROL, META,
    SHIFT,
};

fn qt(s: &str) -> Option<i32> {
    to_qt_key(&parse_hotkey(s).unwrap())
}

/// The one value pinned against a real Plasma session: Ctrl+Alt+Space as KWin
/// stored it.
#[test]
fn matches_value_observed_on_a_live_kwin_session() {
    assert_eq!(qt("Ctrl+Alt+Space"), Some(201_326_624));
    assert_eq!(qt("Ctrl+Alt+Space"), Some(0x0C00_0020));
}

#[test]
fn function_keys_are_contiguous_from_f1() {
    assert_eq!(qt("F1"), Some(0x0100_0030));
    assert_eq!(qt("F7"), Some(0x0100_0036));
    assert_eq!(qt("F8"), Some(0x0100_0037));
    assert_eq!(qt("F12"), Some(0x0100_003b));
}

#[test]
fn bare_and_modified_named_keys() {
    assert_eq!(qt("Escape"), Some(0x0100_0000));
    assert_eq!(qt("Esc"), Some(0x0100_0000));
    assert_eq!(qt("Ctrl+Alt+Grave"), Some(CONTROL | ALT | 0x60));
}

#[test]
fn letters_and_digits_are_ascii() {
    assert_eq!(qt("A"), Some(0x41));
    assert_eq!(qt("z"), Some(0x5a));
    assert_eq!(qt("Super+7"), Some(META | 0x37));
}

#[test]
fn every_modifier_maps_to_its_qt_bit() {
    assert_eq!(qt("Shift+F5"), Some(SHIFT | 0x0100_0034));
    assert_eq!(qt("Ctrl+F5"), Some(CONTROL | 0x0100_0034));
    assert_eq!(qt("Alt+F5"), Some(ALT | 0x0100_0034));
    assert_eq!(qt("Super+F5"), Some(META | 0x0100_0034));
    assert_eq!(qt("Meta+F5"), Some(META | 0x0100_0034));
}

/// Keys without a certain Qt value must be rejected rather than guessed:
/// registering the wrong code would grab an unrelated key across the whole
/// session.
#[test]
fn unmapped_keys_are_rejected() {
    for name in ["Numpad5", "CapsLock", "ContextMenu", "IntlBackslash"] {
        let code = Code::named(name).unwrap();
        assert_eq!(to_qt_key(&ParsedHotkey { modifiers: Modifiers::empty(), code }), None);
    }
}

#[test]
fn modifier_bits_are_those_of_global_hotkey() {
    assert_eq!(MOD_ALT, global_hotkey::hotkey::Modifiers::ALT.bits());
    assert_eq!(MOD_CONTROL, global_hotkey::hotkey::Modifiers::CONTROL.bits());
    assert_eq!(MOD_META, global_hotkey::hotkey::Modifiers::META.bits());
    assert_eq!(MOD_SHIFT, global_hotkey::hotkey::Modifiers::SHIFT.bits());
    #[allow(deprecated)]
    let super_bits = global_hotkey::hotkey::Modifiers::SUPER.bits();
    assert_eq!(MOD_SUPER, super_bits);
}

#[test]
fn modifier_sets_answer_like_flags() {
    let m = Modifiers { bits: MOD_SHIFT | MOD_META };
    assert!(m.contains(MOD_SHIFT));
    assert!(m.contains(MOD_SHIFT | MOD_META));
    assert!(!m.contains(MOD_SHIFT | MOD_ALT));
    assert!(m.contains(0));
    assert!(m.intersects(MOD_META | MOD_SUPER));
    assert!(!m.intersects(MOD_ALT));
    assert!(!m.intersects(0));
    assert!(!Modifiers::empty().contains(MOD_ALT));
}

#[test]
fn every_common_key_is_found_under_its_own_name() {
    let mut names: Vec<String> = Vec::new();
    for c in 'A'..='Z' {
        names.push(format!("Key{c}"));
    }
    for c in '0'..='9' {
        names.push(format!("Digit{c}"));
    }
    for n in 1..=35 {
        names.push(format!("F{n}"));
    }
    for name in [
        "Space", "Quote", "Comma", "Minus", "Period", "Slash", "Semicolon", "Equal",
        "BracketLeft", "Backslash", "BracketRight", "Backquote", "Escape", "Tab", "Backspace",
        "Enter", "Insert", "Delete", "Pause", "PrintScreen", "Home", "End", "ArrowLeft",
        "ArrowUp", "ArrowRight", "ArrowDown", "PageUp", "PageDown",
    ] {
        names.push(name.to_owned());
    }
    let mut seen: Vec<i32> = Vec::new();
    for name in &names {
        let code = Code::named(name).unwrap();
        assert_eq!(&code.name, name);
        let key = to_qt_key(&ParsedHotkey { modifiers: Modifiers::empty(), code }).unwrap();
        assert!(!seen.contains(&key), "{name} shares a value");
        seen.push(key);
    }
}

#[test]
fn legacy_code_names_resolve_to_the_current_key() {
    assert_eq!(Code::named("OSLeft").unwrap().name, "MetaLeft");
    assert_eq!(Code::named("MetaLeft").unwrap().name, "MetaLeft");
    assert!(Code::named("keya").is_none());
    assert!(Code::named("").is_none());
}

#[test]
fn the_code_tables_have_edges() {
    assert_eq!(letter_or_digit("KeyQ"), Some(0x51));
    assert_eq!(letter_or_digit("Keyq"), None);
    assert_eq!(letter_or_digit("Key"), None);
    assert_eq!(letter_or_digit("KeyboardLayoutSelect"), None);
    assert_eq!(letter_or_digit("Digit0"), Some(0x30));
    assert_eq!(letter_or_digit("Digit"), None);
    assert_eq!(letter_or_digit("Digit12"), None);
    assert_eq!(function_key_number("F24"), Some(24));
    assert_eq!(function_key_number("F"), None);
    assert_eq!(function_key_number("Fn"), None);
    assert_eq!(function_key_number("F4294967295"), Some(u32::MAX));
    assert_eq!(function_key_number("F4294967296"), None);
    assert_eq!(punctuation_or_named("PageDown"), Some(0x0100_0017));
    assert_eq!(punctuation_or_named("Numpad5"), None);
}

#[test]
fn function_keys_end_at_35() {
    let key = |name: &str| {
        let code = Code { name: name.to_owned() };
        to_qt_key(&ParsedHotkey { modifiers: Modifiers::empty(), code })
    };
    assert_eq!(key("F35"), Some(0x0100_0052));
    assert_eq!(key("F36"), None);
    assert_eq!(key("F0"), None);
}

#[test]
fn bindings_are_read_loosely() {
    assert_eq!(qt(" ctrl + ALT + space "), Some(0x0C00_0020));
    assert_eq!(qt("win+f5"), Some(META | 0x0100_0034));
    assert_eq!(qt("cmd+Comma"), Some(META | 0x2c));
    assert_eq!(qt("shift+shift+a"), Some(SHIFT | 0x41));
}

#[test]
fn unreadable_bindings_say_why() {
    assert_eq!(parse_hotkey("Hyper+A").unwrap_err(), ParseError::UnknownModifier);
    assert_eq!(parse_hotkey("A+Ctrl").unwrap_err(), ParseError::UnknownModifier);
    assert_eq!(parse_hotkey("Ctrl+").unwrap_err(), ParseError::UnknownKey);
    assert_eq!(parse_hotkey("not-a-key").unwrap_err(), ParseError::UnknownKey);
    assert_eq!(parse_hotkey("").unwrap_err(), ParseError::UnknownKey);
}

#[test]
fn a_padded_function_key_is_the_unpadded_one() {
    let key = |name: &str| {
        let code = Code { name: name.to_owned() };
        to_qt_key(&ParsedHotkey { modifiers: Modifiers::empty(), code })
    };
    assert_eq!(key("F01"), key("F1"));
    assert!(Code::named("F01").is_none());
}

#[test]
fn no_two_combinations_share_a_value() {
    let mut seen: Vec<i32> = Vec::new();
    for key in ["A", "7", "Space", "F1", "F35", "Escape", "PageDown"] {
        for set in 0u32..16 {
            let mut binding = String::new();
            for (i, modifier) in ["Shift+", "Ctrl+", "Alt+", "Super+"].iter().enumerate() {
                if set & (1 << i) != 0 {
                    binding.push_str(modifier);
                }
            }
            binding.push_str(key);
            let value = qt(&binding).unwrap();
            assert!(!seen.contains(&value), "{binding} shares a value");
            seen.push(value);
        }
    }
}
