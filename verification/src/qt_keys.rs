//! The integer that Qt, and so KDE's `KGlobalAccel`, uses for a key
//! combination: the `Qt::Key_*` code with the `Qt::KeyboardModifier` bits
//! set beside it. The values are those of `qnamespace.h`. `Ctrl+Alt+Space`,
//! for one, is `0x0C00_0020`.
use vstd::prelude::*;

use crate::parse::{
    Code, ParsedHotkey, MOD_ALT, MOD_CONTROL, MOD_META, MOD_SHIFT, MOD_SUPER,
};
use crate::text::{chars_of, same};

verus! {

/// `Qt::ShiftModifier`.
pub const SHIFT: i32 = 0x0200_0000;

/// `Qt::ControlModifier`.
pub const CONTROL: i32 = 0x0400_0000;

/// `Qt::AltModifier`.
pub const ALT: i32 = 0x0800_0000;

/// `Qt::MetaModifier`, which X11 and Wayland call Super.
pub const META: i32 = 0x1000_0000;

/// `Qt::Key_F1`. `F1` to `F35` are contiguous from here.
pub const KEY_F1: i32 = 0x0100_0030;

pub const F_KEY_MAX: u32 = 35;

pub open spec fn is_digit(c: char) -> bool {
    '0' <= c && c <= '9'
}

pub open spec fn all_digits(s: Seq<char>) -> bool {
    forall|i: int| 0 <= i < s.len() ==> is_digit(#[trigger] s[i])
}

/// The number that a string of decimal digits writes.
pub open spec fn decimal(s: Seq<char>) -> nat
    decreases s.len(),
{
    if s.len() == 0 {
        0
    } else {
        decimal(s.drop_last()) * 10 + (s.last() as nat - '0' as nat) as nat
    }
}

/// Letters and digits are ASCII in Qt: `Key_A` is 0x41, `Key_0` is 0x30.
pub open spec fn letter_or_digit_code(name: Seq<char>) -> Option<i32> {
    if name.len() == 4 && name.take(3) == "Key"@ && 'A' <= name[3] && name[3] <= 'Z' {
        Some(name[3] as i32)
    } else if name.len() == 6 && name.take(5) == "Digit"@ && is_digit(name[5]) {
        Some(name[5] as i32)
    } else {
        None
    }
}

/// The number of a function key: what follows the `F`, if that is a decimal
/// number that 32 bits can hold.
pub open spec fn function_number(name: Seq<char>) -> Option<u32> {
    if name.len() >= 2 && name[0] == 'F' && all_digits(name.skip(1)) && decimal(name.skip(1))
        <= u32::MAX {
        Some(decimal(name.skip(1)) as u32)
    } else {
        None
    }
}

/// Keys whose Qt value is neither ASCII-alphanumeric nor a function key.
pub open spec fn named_code(name: Seq<char>) -> Option<i32> {
    if name == "Space"@ {
        Some(0x20)
    } else if name == "Quote"@ {
        Some(0x27)
    } else if name == "Comma"@ {
        Some(0x2c)
    } else if name == "Minus"@ {
        Some(0x2d)
    } else if name == "Period"@ {
        Some(0x2e)
    } else if name == "Slash"@ {
        Some(0x2f)
    } else if name == "Semicolon"@ {
        Some(0x3b)
    } else if name == "Equal"@ {
        Some(0x3d)
    } else if name == "BracketLeft"@ {
        Some(0x5b)
    } else if name == "Backslash"@ {
        Some(0x5c)
    } else if name == "BracketRight"@ {
        Some(0x5d)
    } else if name == "Backquote"@ {
        Some(0x60)
    } else if name == "Escape"@ {
        Some(0x0100_0000)
    } else if name == "Tab"@ {
        Some(0x0100_0001)
    } else if name == "Backspace"@ {
        Some(0x0100_0003)
    } else if name == "Enter"@ {
        Some(0x0100_0004)
    } else if name == "Insert"@ {
        Some(0x0100_0006)
    } else if name == "Delete"@ {
        Some(0x0100_0007)
    } else if name == "Pause"@ {
        Some(0x0100_0008)
    } else if name == "PrintScreen"@ {
        Some(0x0100_0009)
    } else if name == "Home"@ {
        Some(0x0100_0010)
    } else if name == "End"@ {
        Some(0x0100_0011)
    } else if name == "ArrowLeft"@ {
        Some(0x0100_0012)
    } else if name == "ArrowUp"@ {
        Some(0x0100_0013)
    } else if name == "ArrowRight"@ {
        Some(0x0100_0014)
    } else if name == "ArrowDown"@ {
        Some(0x0100_0015)
    } else if name == "PageUp"@ {
        Some(0x0100_0016)
    } else if name == "PageDown"@ {
        Some(0x0100_0017)
    } else {
        None
    }
}

/// The bare `Qt::Key_*` value of a key, by its W3C code name.
pub open spec fn key_code(name: Seq<char>) -> Option<i32> {
    match letter_or_digit_code(name) {
        Some(c) => Some(c),
        None => match function_number(name) {
            Some(n) => if 1 <= n && n <= F_KEY_MAX {
                Some((KEY_F1 + (n - 1)) as i32)
            } else {
                None
            },
            None => named_code(name),
        },
    }
}

/// `bit` where `on`, no bit otherwise.
pub open spec fn bit_if(on: bool, bit: i32) -> i32 {
    if on {
        bit
    } else {
        0
    }
}

pub open spec fn has_shift(bits: u32) -> bool {
    bits & MOD_SHIFT == MOD_SHIFT
}

pub open spec fn has_control(bits: u32) -> bool {
    bits & MOD_CONTROL == MOD_CONTROL
}

pub open spec fn has_alt(bits: u32) -> bool {
    bits & MOD_ALT == MOD_ALT
}

/// Super and Meta are the same key to Qt.
pub open spec fn has_meta(bits: u32) -> bool {
    bits & (MOD_SUPER | MOD_META) != 0
}

/// The Qt bits of a set of modifiers.
pub open spec fn modifier_mask(bits: u32) -> i32 {
    bit_if(has_shift(bits), SHIFT) | bit_if(has_control(bits), CONTROL) | bit_if(has_alt(bits), ALT)
        | bit_if(has_meta(bits), META)
}

/// The Qt integer of the key `name` with the modifiers `bits`.
pub open spec fn encoding(bits: u32, name: Seq<char>) -> Option<i32> {
    match key_code(name) {
        Some(code) => Some(code | modifier_mask(bits)),
        None => None,
    }
}

/// Encodes `p` as a Qt key combination, or gives `None` where the key has no
/// `Qt::Key_*` value that is certain: a wrong one would grab an unrelated key
/// across the whole session.
pub fn to_qt_key(p: &ParsedHotkey) -> (r: Option<i32>)
    ensures
        r == encoding(p.modifiers.bits, p.code.name@),
        r matches Some(v) ==> {
            let bits = p.modifiers.bits;
            &&& v & 0x0200_0000i32 != 0 <==> bits & 0x200u32 != 0
            &&& v & 0x0400_0000i32 != 0 <==> bits & 0x8u32 != 0
            &&& v & 0x0800_0000i32 != 0 <==> bits & 0x1u32 != 0
            &&& v & 0x1000_0000i32 != 0 <==> bits & 0x2000u32 != 0 || bits & 0x40u32 != 0
            &&& key_code(p.code.name@) == Some(v & 0x01ff_ffffi32)
        },
{
    let code: i32 = match qt_key_code(&p.code) {
        Some(code) => code,
        None => {
            return None;
        },
    };
    let mut v: i32 = code;
    if p.modifiers.contains(MOD_SHIFT) {
        v = v | SHIFT;
    }
    if p.modifiers.contains(MOD_CONTROL) {
        v = v | CONTROL;
    }
    if p.modifiers.contains(MOD_ALT) {
        v = v | ALT;
    }
    if p.modifiers.intersects(MOD_SUPER | MOD_META) {
        v = v | META;
    }
    proof {
        let bits = p.modifiers.bits;
        let s = bit_if(has_shift(bits), SHIFT);
        let c = bit_if(has_control(bits), CONTROL);
        let a = bit_if(has_alt(bits), ALT);
        let m = bit_if(has_meta(bits), META);
        assert(code | 0i32 == code) by (bit_vector);
        assert((code | s) | 0i32 == code | s) by (bit_vector);
        assert(((code | s) | c) | 0i32 == (code | s) | c) by (bit_vector);
        assert((((code | s) | c) | a) | 0i32 == ((code | s) | c) | a) by (bit_vector);
        assert((((code | s) | c) | a) | m == code | (((s | c) | a) | m)) by (bit_vector);
    }
    proof {
        law_each_modifier_has_its_bit(p.modifiers.bits, p.code.name@);
    }
    Some(v)
}

/// The bare `Qt::Key_*` value of a physical key.
pub fn qt_key_code(code: &Code) -> (r: Option<i32>)
    ensures
        r == key_code(code.name@),
{
    let name = code.name.as_str();
    if let Some(c) = letter_or_digit(name) {
        return Some(c);
    }
    if let Some(n) = function_key_number(name) {
        if 1 <= n && n <= F_KEY_MAX {
            return Some(KEY_F1 + (n as i32 - 1));
        }
        return None;
    }
    punctuation_or_named(name)
}

/// The Qt value of a letter or a digit, by the key's name.
pub fn letter_or_digit(name: &str) -> (r: Option<i32>)
    ensures
        r == letter_or_digit_code(name@),
{
    proof {
        reveal_strlit("Key");
        reveal_strlit("Digit");
    }
    let chars = chars_of(name);
    if chars.len() == 4 && chars[0] == 'K' && chars[1] == 'e' && chars[2] == 'y' {
        assert(name@.take(3) =~= "Key"@);
        let c = chars[3];
        if 'A' <= c && c <= 'Z' {
            return Some(c as i32);
        }
        return None;
    }
    if chars.len() == 6 && chars[0] == 'D' && chars[1] == 'i' && chars[2] == 'g' && chars[3] == 'i'
        && chars[4] == 't' {
        assert(name@.take(5) =~= "Digit"@);
        let c = chars[5];
        if '0' <= c && c <= '9' {
            return Some(c as i32);
        }
        return None;
    }
    proof {
        if name@.len() == 4 && name@.take(3) == "Key"@ {
            assert(name@[0] == name@.take(3)[0] && name@[1] == name@.take(3)[1] && name@[2]
                == name@.take(3)[2]);
        }
        if name@.len() == 6 && name@.take(5) == "Digit"@ {
            assert(name@[0] == name@.take(5)[0] && name@[1] == name@.take(5)[1] && name@[2]
                == name@.take(5)[2] && name@[3] == name@.take(5)[3] && name@[4] == name@.take(5)[4]);
        }
    }
    None
}

/// The number of a function key, by the key's name.
pub fn function_key_number(name: &str) -> (r: Option<u32>)
    ensures
        r == function_number(name@),
{
    let chars = chars_of(name);
    if chars.len() < 2 || chars[0] != 'F' {
        return None;
    }
    let ghost rest = name@.skip(1);
    let mut i: usize = 1;
    while i < chars.len()
        invariant
            1 <= i <= chars.len(),
            chars@ == name@,
            rest == name@.skip(1),
            forall|k: int| 0 <= k < i - 1 ==> is_digit(#[trigger] rest[k]),
        decreases chars.len() - i,
    {
        if !('0' <= chars[i] && chars[i] <= '9') {
            assert(!is_digit(rest[i - 1]));
            return None;
        }
        i = i + 1;
    }
    let mut value: u32 = 0;
    i = 1;
    assert(rest.take(0) =~= Seq::<char>::empty());
    while i < chars.len()
        invariant
            1 <= i <= chars.len(),
            chars@ == name@,
            rest == name@.skip(1),
            all_digits(rest),
            value == decimal(rest.take(i - 1)),
        decreases chars.len() - i,
    {
        assert(rest[i - 1] == chars@[i as int]);
        assert(rest.take(i as int).drop_last() =~= rest.take(i - 1));
        let digit: u32 = chars[i] as u32 - '0' as u32;
        let next: u64 = value as u64 * 10 + digit as u64;
        assert(next == decimal(rest.take(i as int)));
        if next > u32::MAX as u64 {
            proof {
                lemma_decimal_grows(rest, i as int);
            }
            return None;
        }
        value = next as u32;
        i = i + 1;
    }
    assert(rest.take(i - 1) =~= rest);
    Some(value)
}

proof fn lemma_decimal_grows(s: Seq<char>, n: int)
    requires
        all_digits(s),
        0 <= n <= s.len(),
    ensures
        decimal(s.take(n)) <= decimal(s),
    decreases s.len(),
{
    if n == s.len() {
        assert(s.take(n) =~= s);
    } else {
        lemma_decimal_grows(s.drop_last(), n);
        assert(s.drop_last().take(n) =~= s.take(n));
    }
}

/// The Qt value of a punctuation, editing or navigation key, by its name.
pub fn punctuation_or_named(name: &str) -> (r: Option<i32>)
    ensures
        r == named_code(name@),
{
    if same(name, "Space") {
        Some(0x20)
    } else if same(name, "Quote") {
        Some(0x27)
    } else if same(name, "Comma") {
        Some(0x2c)
    } else if same(name, "Minus") {
        Some(0x2d)
    } else if same(name, "Period") {
        Some(0x2e)
    } else if same(name, "Slash") {
        Some(0x2f)
    } else if same(name, "Semicolon") {
        Some(0x3b)
    } else if same(name, "Equal") {
        Some(0x3d)
    } else if same(name, "BracketLeft") {
        Some(0x5b)
    } else if same(name, "Backslash") {
        Some(0x5c)
    } else if same(name, "BracketRight") {
        Some(0x5d)
    } else if same(name, "Backquote") {
        Some(0x60)
    } else if same(name, "Escape") {
        Some(0x0100_0000)
    } else if same(name, "Tab") {
        Some(0x0100_0001)
    } else if same(name, "Backspace") {
        Some(0x0100_0003)
    } else if same(name, "Enter") {
        Some(0x0100_0004)
    } else if same(name, "Insert") {
        Some(0x0100_0006)
    } else if same(name, "Delete") {
        Some(0x0100_0007)
    } else if same(name, "Pause") {
        Some(0x0100_0008)
    } else if same(name, "PrintScreen") {
        Some(0x0100_0009)
    } else if same(name, "Home") {
        Some(0x0100_0010)
    } else if same(name, "End") {
        Some(0x0100_0011)
    } else if same(name, "ArrowLeft") {
        Some(0x0100_0012)
    } else if same(name, "ArrowUp") {
        Some(0x0100_0013)
    } else if same(name, "ArrowRight") {
        Some(0x0100_0014)
    } else if same(name, "ArrowDown") {
        Some(0x0100_0015)
    } else if same(name, "PageUp") {
        Some(0x0100_0016)
    } else if same(name, "PageDown") {
        Some(0x0100_0017)
    } else {
        None
    }
}

proof fn lemma_named_keys_stand_apart(name: Seq<char>)
    requires
        named_code(name) is Some,
    ensures
        letter_or_digit_code(name) is None,
        function_number(name) is None,
{
    reveal_strlit("Key");
    reveal_strlit("Digit");
    crate::parse::lemma_named_key_shape(name);
    if name.len() == 4 {
        assert(name.take(3)[0] == name[0]);
    }
    if name.len() == 6 {
        assert(name.take(5)[0] == name[0] && name.take(5)[1] == name[1]);
    }
}

proof fn lemma_function_key(name: Seq<char>)
    requires
        name.len() == 2 || name.len() == 3,
        name[0] == 'F',
        all_digits(name.skip(1)),
    ensures
        letter_or_digit_code(name) is None,
        function_number(name) == Some(
            (if name.len() == 2 {
                name[1] as nat - '0' as nat
            } else {
                (name[1] as nat - '0' as nat) * 10 + (name[2] as nat - '0' as nat)
            }) as u32,
        ),
{
    let rest = name.skip(1);
    reveal_with_fuel(decimal, 3);
    assert(is_digit(rest[0]));
    if name.len() == 3 {
        assert(is_digit(rest[1]));
        assert(rest.drop_last().drop_last() =~= Seq::<char>::empty());
    } else {
        assert(rest.drop_last() =~= Seq::<char>::empty());
    }
}

proof fn lemma_key_code_range(name: Seq<char>)
    requires
        key_code(name) is Some,
    ensures
        0 <= key_code(name)->0 < 0x0200_0000,
{
}

/// Every common key has a Qt value.
pub proof fn law_common_keys_are_encoded(bits: u32, name: Seq<char>)
    requires
        crate::parse::is_common_key(name),
    ensures
        encoding(bits, name) is Some,
{
    lemma_common_key(name);
}

/// A common key is a letter, a digit, one of the function keys up to the last
/// one that Qt has, or one of the named keys.
proof fn lemma_common_key(name: Seq<char>)
    requires
        crate::parse::is_common_key(name),
    ensures
        letter_or_digit_code(name) is Some || (name.len() <= 3 && letter_or_digit_code(name) is None
            && name[0] == 'F' && name.len() >= 2 && all_digits(name.skip(1)) && name[1] != '0' && (
        function_number(name) matches Some(n) && 1 <= n <= F_KEY_MAX)) || (letter_or_digit_code(
            name,
        ) is None && function_number(name) is None && named_code(name) is Some),
{
    if named_code(name) is Some {
        lemma_named_keys_stand_apart(name);
    } else if letter_or_digit_code(name) is None {
        assert forall|i: int| 0 <= i < name.skip(1).len() implies is_digit(
            #[trigger] name.skip(1)[i],
        ) by {
            assert(name.skip(1)[i] == name[i + 1]);
        }
        lemma_function_key(name);
    }
}

/// The keys that have a Qt value are the common keys and no others.
pub proof fn law_encoded_keys_are_common(code: Code)
    requires
        code.wf(),
        key_code(code.name@) is Some,
    ensures
        crate::parse::is_common_key(code.name@),
{
    let name = code.name@;
    if letter_or_digit_code(name) is None && function_number(name) is Some {
        let rest = name.skip(1);
        assert(rest[0] == name[1]);
        if rest.len() >= 3 {
            lemma_three_digits(rest);
        } else {
            lemma_function_key(name);
            assert(is_digit(rest[0]));
            if rest.len() == 2 {
                assert(rest[1] == name[2]);
                assert(is_digit(rest[1]));
            }
        }
    }
}

proof fn lemma_three_digits(s: Seq<char>)
    requires
        all_digits(s),
        s.len() >= 3,
        s[0] != '0',
    ensures
        decimal(s) >= 100,
{
    let head = s.take(3);
    lemma_decimal_grows(s, 3);
    reveal_with_fuel(decimal, 4);
    assert(is_digit(s[0]) && is_digit(s[1]) && is_digit(s[2]));
    assert(head.drop_last().drop_last().last() == s[0]);
    assert(head.drop_last().last() == s[1]);
    assert(head.last() == s[2]);
    assert(head.drop_last().drop_last().drop_last() =~= Seq::<char>::empty());
}

/// No two keys share a Qt value, so no binding can grab another key than the one
/// it names.
pub proof fn law_keys_have_distinct_codes(code_a: Code, code_b: Code)
    requires
        code_a.wf(),
        code_b.wf(),
        key_code(code_a.name@) is Some,
        key_code(code_a.name@) == key_code(code_b.name@),
    ensures
        code_a.name@ == code_b.name@,
{
    let a = code_a.name@;
    let b = code_b.name@;
    law_encoded_keys_are_common(code_a);
    law_encoded_keys_are_common(code_b);
    lemma_common_key(a);
    lemma_common_key(b);
    reveal_strlit("Key");
    reveal_strlit("Digit");
    if letter_or_digit_code(a) is Some {
        assert(letter_or_digit_code(b) is Some);
        if a.len() == 4 {
            assert(a =~= a.take(3).push(a[3]));
            assert(b =~= b.take(3).push(b[3]));
        } else {
            assert(a =~= a.take(5).push(a[5]));
            assert(b =~= b.take(5).push(b[5]));
        }
    } else if function_number(a) is Some {
        assert(function_number(b) is Some);
        lemma_function_key(a);
        lemma_function_key(b);
        assert(is_digit(a.skip(1)[0]) && is_digit(b.skip(1)[0]));
        if a.len() == 3 {
            assert(is_digit(a.skip(1)[1]));
        }
        if b.len() == 3 {
            assert(is_digit(b.skip(1)[1]));
        }
        assert(a =~= b);
    } else {
        assert(named_code(a) == named_code(b));
    }
}

/// The encoding of a combination determines its key and its modifiers: the
/// modifier bits never run into the key code or into each other.
pub proof fn law_encoding_is_unambiguous(
    bits_a: u32,
    name_a: Seq<char>,
    bits_b: u32,
    name_b: Seq<char>,
)
    requires
        encoding(bits_a, name_a) is Some,
        encoding(bits_a, name_a) == encoding(bits_b, name_b),
    ensures
        key_code(name_a) == key_code(name_b),
        has_shift(bits_a) == has_shift(bits_b),
        has_control(bits_a) == has_control(bits_b),
        has_alt(bits_a) == has_alt(bits_b),
        has_meta(bits_a) == has_meta(bits_b),
{
    lemma_key_code_range(name_a);
    lemma_key_code_range(name_b);
    let k1 = key_code(name_a)->0;
    let k2 = key_code(name_b)->0;
    let s1 = bit_if(has_shift(bits_a), SHIFT);
    let s2 = bit_if(has_shift(bits_b), SHIFT);
    let c1 = bit_if(has_control(bits_a), CONTROL);
    let c2 = bit_if(has_control(bits_b), CONTROL);
    let a1 = bit_if(has_alt(bits_a), ALT);
    let a2 = bit_if(has_alt(bits_b), ALT);
    let m1 = bit_if(has_meta(bits_a), META);
    let m2 = bit_if(has_meta(bits_b), META);
    assert(k1 == k2 && s1 == s2 && c1 == c2 && a1 == a2 && m1 == m2) by (bit_vector)
        requires
            0 <= k1 < 0x0200_0000i32,
            0 <= k2 < 0x0200_0000i32,
            s1 == 0 || s1 == 0x0200_0000i32,
            s2 == 0 || s2 == 0x0200_0000i32,
            c1 == 0 || c1 == 0x0400_0000i32,
            c2 == 0 || c2 == 0x0400_0000i32,
            a1 == 0 || a1 == 0x0800_0000i32,
            a2 == 0 || a2 == 0x0800_0000i32,
            m1 == 0 || m1 == 0x1000_0000i32,
            m2 == 0 || m2 == 0x1000_0000i32,
            k1 | (((s1 | c1) | a1) | m1) == k2 | (((s2 | c2) | a2) | m2),
    ;
}

/// `F1` to `F35` are contiguous: the function key after another one has the
/// next Qt value, whatever the modifiers.
pub proof fn law_function_keys_are_contiguous(a: Seq<char>, b: Seq<char>)
    requires
        function_number(a) is Some,
        function_number(b) is Some,
        1 <= function_number(a)->0,
        function_number(b)->0 == function_number(a)->0 + 1,
        function_number(b)->0 <= F_KEY_MAX,
    ensures
        key_code(a) is Some,
        key_code(b) == Some((key_code(a)->0 + 1) as i32),
{
    reveal_strlit("Key");
    reveal_strlit("Digit");
    if a.len() >= 4 {
        assert(a.take(3)[0] == a[0]);
    }
    if b.len() >= 4 {
        assert(b.take(3)[0] == b[0]);
    }
    if a.len() >= 6 {
        assert(a.take(5)[0] == a[0]);
    }
    if b.len() >= 6 {
        assert(b.take(5)[0] == b[0]);
    }
}

// ---------------------------------------------------------------------
// The values themselves
// ---------------------------------------------------------------------

/// In the encoding of a combination each modifier shows in its own bit, whatever
/// else is held: Shift, Control and Alt in theirs, Super and Meta in one. Without
/// these bits it is the bare key, and it has no others.
pub proof fn law_each_modifier_has_its_bit(bits: u32, name: Seq<char>)
    ensures
        encoding(bits, name) is Some <==> key_code(name) is Some,
        encoding(bits, name) matches Some(v) ==> {
            &&& v & 0x0200_0000i32 != 0 <==> bits & 0x200u32 != 0
            &&& v & 0x0400_0000i32 != 0 <==> bits & 0x8u32 != 0
            &&& v & 0x0800_0000i32 != 0 <==> bits & 0x1u32 != 0
            &&& v & 0x1000_0000i32 != 0 <==> bits & 0x2000u32 != 0 || bits & 0x40u32 != 0
            &&& key_code(name) == Some(v & 0x01ff_ffffi32)
            &&& 0 <= v < 0x2000_0000
        },
{
    if key_code(name) is Some {
        lemma_key_code_range(name);
        let k = key_code(name)->0;
        let s = bit_if(has_shift(bits), SHIFT);
        let c = bit_if(has_control(bits), CONTROL);
        let a = bit_if(has_alt(bits), ALT);
        let m = bit_if(has_meta(bits), META);
        let v = k | (((s | c) | a) | m);
        assert(encoding(bits, name) == Some(v));
        assert({
            &&& v & 0x0200_0000i32 == s
            &&& v & 0x0400_0000i32 == c
            &&& v & 0x0800_0000i32 == a
            &&& v & 0x1000_0000i32 == m
            &&& v & 0x01ff_ffffi32 == k
            &&& 0 <= v < 0x2000_0000i32
        }) by (bit_vector)
            requires
                0 <= k < 0x0200_0000i32,
                s == 0 || s == 0x0200_0000i32,
                c == 0 || c == 0x0400_0000i32,
                a == 0 || a == 0x0800_0000i32,
                m == 0 || m == 0x1000_0000i32,
                v == k | (((s | c) | a) | m),
        ;
        assert(bits & 0x200u32 == 0 || bits & 0x200u32 == 0x200u32) by (bit_vector);
        assert(bits & 0x8u32 == 0 || bits & 0x8u32 == 0x8u32) by (bit_vector);
        assert(bits & 0x1u32 == 0 || bits & 0x1u32 == 0x1u32) by (bit_vector);
        assert(bits & (0x2000u32 | 0x40u32) != 0 <==> bits & 0x2000u32 != 0 || bits & 0x40u32 != 0)
            by (bit_vector);
    }
}

/// Letters and digits are their ASCII codes.
pub proof fn law_letters_and_digits_are_ascii(c: char)
    ensures
        'A' <= c && c <= 'Z' ==> key_code("Key"@.push(c)) == Some(c as i32),
        '0' <= c && c <= '9' ==> key_code("Digit"@.push(c)) == Some(c as i32),
{
    reveal_strlit("Key");
    reveal_strlit("Digit");
    let letter = "Key"@.push(c);
    let digit = "Digit"@.push(c);
    assert(letter.take(3) =~= "Key"@);
    assert(digit.take(5) =~= "Digit"@);
}

/// Function keys count from `0x0100_0030` for `F1`, up to `F35` and no further.
pub proof fn law_function_keys_count_from_f1(tens: char, ones: char)
    requires
        '0' <= ones && ones <= '9',
        '1' <= tens && tens <= '9',
    ensures
        ({
            let n = ones as int - 48;
            key_code(seq!['F', ones]) == if n >= 1 {
                Some((0x0100_002f + n) as i32)
            } else {
                None
            }
        }),
        ({
            let n = (tens as int - 48) * 10 + (ones as int - 48);
            key_code(seq!['F', tens, ones]) == if n <= 35 {
                Some((0x0100_002f + n) as i32)
            } else {
                None
            }
        }),
{
    let short = seq!['F', ones];
    let long = seq!['F', tens, ones];
    assert(short.skip(1) =~= seq![ones]);
    assert(long.skip(1) =~= seq![tens, ones]);
    lemma_function_key(short);
    lemma_function_key(long);
}

/// A decimal number is read digit by digit, the first one weighing most.
pub proof fn law_decimal_numbers(s: Seq<char>, digit: char)
    requires
        '0' <= digit && digit <= '9',
    ensures
        decimal(Seq::<char>::empty()) == 0,
        decimal(s.push(digit)) == 10 * decimal(s) + (digit as int - 48),
{
    assert(s.push(digit).drop_last() =~= s);
}

/// A function key is an `F` and a decimal number of 32 bits at most; nothing else
/// has a number.
pub proof fn law_function_numbers(name: Seq<char>)
    ensures
        function_number(name) is Some <==> (name.len() >= 2 && name[0] == 'F' && (forall|i: int|
            1 <= i < name.len() ==> '0' <= #[trigger] name[i] && name[i] <= '9') && decimal(
            name.skip(1),
        ) <= 0xffff_ffff),
        function_number(name) is Some ==> function_number(name)->0 == decimal(name.skip(1)),
{
    if name.len() >= 2 {
        let rest = name.skip(1);
        if all_digits(rest) {
            assert forall|i: int| 1 <= i < name.len() implies '0' <= #[trigger] name[i] && name[i]
                <= '9' by {
                assert(is_digit(rest[i - 1]));
            }
        }
        if forall|i: int| 1 <= i < name.len() ==> '0' <= #[trigger] name[i] && name[i] <= '9' {
            assert forall|i: int| 0 <= i < rest.len() implies is_digit(#[trigger] rest[i]) by {
                assert(rest[i] == name[i + 1]);
            }
        }
    }
}

/// The keys that are neither letters, digits nor function keys, with their values
/// in Qt.
pub proof fn law_named_keys_have_their_qt_values()
    ensures
        key_code("Space"@) == Some(0x20i32),
        key_code("Quote"@) == Some(0x27i32),
        key_code("Comma"@) == Some(0x2ci32),
        key_code("Minus"@) == Some(0x2di32),
        key_code("Period"@) == Some(0x2ei32),
        key_code("Slash"@) == Some(0x2fi32),
        key_code("Semicolon"@) == Some(0x3bi32),
        key_code("Equal"@) == Some(0x3di32),
        key_code("BracketLeft"@) == Some(0x5bi32),
        key_code("Backslash"@) == Some(0x5ci32),
        key_code("BracketRight"@) == Some(0x5di32),
        key_code("Backquote"@) == Some(0x60i32),
        key_code("Escape"@) == Some(0x1000000i32),
        key_code("Tab"@) == Some(0x1000001i32),
        key_code("Backspace"@) == Some(0x1000003i32),
        key_code("Enter"@) == Some(0x1000004i32),
        key_code("Insert"@) == Some(0x1000006i32),
        key_code("Delete"@) == Some(0x1000007i32),
        key_code("Pause"@) == Some(0x1000008i32),
        key_code("PrintScreen"@) == Some(0x1000009i32),
        key_code("Home"@) == Some(0x1000010i32),
        key_code("End"@) == Some(0x1000011i32),
        key_code("ArrowLeft"@) == Some(0x1000012i32),
        key_code("ArrowUp"@) == Some(0x1000013i32),
        key_code("ArrowRight"@) == Some(0x1000014i32),
        key_code("ArrowDown"@) == Some(0x1000015i32),
        key_code("PageUp"@) == Some(0x1000016i32),
        key_code("PageDown"@) == Some(0x1000017i32),
{
    law_named_keys_by_name();
    lemma_named_keys_stand_apart("Space"@);
    lemma_named_keys_stand_apart("Quote"@);
    lemma_named_keys_stand_apart("Comma"@);
    lemma_named_keys_stand_apart("Minus"@);
    lemma_named_keys_stand_apart("Period"@);
    lemma_named_keys_stand_apart("Slash"@);
    lemma_named_keys_stand_apart("Semicolon"@);
    lemma_named_keys_stand_apart("Equal"@);
    lemma_named_keys_stand_apart("BracketLeft"@);
    lemma_named_keys_stand_apart("Backslash"@);
    lemma_named_keys_stand_apart("BracketRight"@);
    lemma_named_keys_stand_apart("Backquote"@);
    lemma_named_keys_stand_apart("Escape"@);
    lemma_named_keys_stand_apart("Tab"@);
    lemma_named_keys_stand_apart("Backspace"@);
    lemma_named_keys_stand_apart("Enter"@);
    lemma_named_keys_stand_apart("Insert"@);
    lemma_named_keys_stand_apart("Delete"@);
    lemma_named_keys_stand_apart("Pause"@);
    lemma_named_keys_stand_apart("PrintScreen"@);
    lemma_named_keys_stand_apart("Home"@);
    lemma_named_keys_stand_apart("End"@);
    lemma_named_keys_stand_apart("ArrowLeft"@);
    lemma_named_keys_stand_apart("ArrowUp"@);
    lemma_named_keys_stand_apart("ArrowRight"@);
    lemma_named_keys_stand_apart("ArrowDown"@);
    lemma_named_keys_stand_apart("PageUp"@);
    lemma_named_keys_stand_apart("PageDown"@);
}

/// The same values by name alone, whatever else the name could be.
pub proof fn law_named_keys_by_name()
    ensures
        named_code("Space"@) == Some(0x20i32),
        named_code("Quote"@) == Some(0x27i32),
        named_code("Comma"@) == Some(0x2ci32),
        named_code("Minus"@) == Some(0x2di32),
        named_code("Period"@) == Some(0x2ei32),
        named_code("Slash"@) == Some(0x2fi32),
        named_code("Semicolon"@) == Some(0x3bi32),
        named_code("Equal"@) == Some(0x3di32),
        named_code("BracketLeft"@) == Some(0x5bi32),
        named_code("Backslash"@) == Some(0x5ci32),
        named_code("BracketRight"@) == Some(0x5di32),
        named_code("Backquote"@) == Some(0x60i32),
        named_code("Escape"@) == Some(0x1000000i32),
        named_code("Tab"@) == Some(0x1000001i32),
        named_code("Backspace"@) == Some(0x1000003i32),
        named_code("Enter"@) == Some(0x1000004i32),
        named_code("Insert"@) == Some(0x1000006i32),
        named_code("Delete"@) == Some(0x1000007i32),
        named_code("Pause"@) == Some(0x1000008i32),
        named_code("PrintScreen"@) == Some(0x1000009i32),
        named_code("Home"@) == Some(0x1000010i32),
        named_code("End"@) == Some(0x1000011i32),
        named_code("ArrowLeft"@) == Some(0x1000012i32),
        named_code("ArrowUp"@) == Some(0x1000013i32),
        named_code("ArrowRight"@) == Some(0x1000014i32),
        named_code("ArrowDown"@) == Some(0x1000015i32),
        named_code("PageUp"@) == Some(0x1000016i32),
        named_code("PageDown"@) == Some(0x1000017i32),
{
    crate::parse::lemma_named_key_literals();
}

/// Nothing has a Qt value but a letter, a digit, a function key and these names.
pub proof fn law_no_other_key_has_a_qt_value(name: Seq<char>)
    requires
        key_code(name) is Some,
    ensures
        ({
            ||| name.len() == 4 && name == "Key"@.push(name[3]) && 'A' <= name[3] && name[3] <= 'Z'
            ||| name.len() == 6 && name == "Digit"@.push(name[5]) && '0' <= name[5] && name[5]
                <= '9'
            ||| function_number(name) matches Some(n) && 1 <= n <= 35
            ||| name == "Space"@
            ||| name == "Quote"@
            ||| name == "Comma"@
            ||| name == "Minus"@
            ||| name == "Period"@
            ||| name == "Slash"@
            ||| name == "Semicolon"@
            ||| name == "Equal"@
            ||| name == "BracketLeft"@
            ||| name == "Backslash"@
            ||| name == "BracketRight"@
            ||| name == "Backquote"@
            ||| name == "Escape"@
            ||| name == "Tab"@
            ||| name == "Backspace"@
            ||| name == "Enter"@
            ||| name == "Insert"@
            ||| name == "Delete"@
            ||| name == "Pause"@
            ||| name == "PrintScreen"@
            ||| name == "Home"@
            ||| name == "End"@
            ||| name == "ArrowLeft"@
            ||| name == "ArrowUp"@
            ||| name == "ArrowRight"@
            ||| name == "ArrowDown"@
            ||| name == "PageUp"@
            ||| name == "PageDown"@
        }),
{
    if name.len() == 4 {
        assert(name.take(3).push(name[3]) =~= name);
    }
    if name.len() == 6 {
        assert(name.take(5).push(name[5]) =~= name);
    }
}

/// No other name has such a value.
pub proof fn law_no_other_name_is_a_named_key(name: Seq<char>)
    requires
        named_code(name) is Some,
    ensures
        ({
            ||| name == "Space"@
            ||| name == "Quote"@
            ||| name == "Comma"@
            ||| name == "Minus"@
            ||| name == "Period"@
            ||| name == "Slash"@
            ||| name == "Semicolon"@
            ||| name == "Equal"@
            ||| name == "BracketLeft"@
            ||| name == "Backslash"@
            ||| name == "BracketRight"@
            ||| name == "Backquote"@
            ||| name == "Escape"@
            ||| name == "Tab"@
            ||| name == "Backspace"@
            ||| name == "Enter"@
            ||| name == "Insert"@
            ||| name == "Delete"@
            ||| name == "Pause"@
            ||| name == "PrintScreen"@
            ||| name == "Home"@
            ||| name == "End"@
            ||| name == "ArrowLeft"@
            ||| name == "ArrowUp"@
            ||| name == "ArrowRight"@
            ||| name == "ArrowDown"@
            ||| name == "PageUp"@
            ||| name == "PageDown"@
        }),
{
}

/// A name is that of a letter or a digit exactly where it is `Key` or `Digit`
/// with that one character, whose ASCII code is its value.
pub proof fn law_letters_and_digits_by_name(name: Seq<char>)
    ensures
        letter_or_digit_code(name) is Some <==> (name.len() == 4 && name == "Key"@.push(name[3])
            && 65 <= name[3] as int <= 90) || (name.len() == 6 && name == "Digit"@.push(name[5])
            && 48 <= name[5] as int <= 57),
        letter_or_digit_code(name) is Some ==> letter_or_digit_code(name)->0 == name.last() as int,
{
    reveal_strlit("Key");
    reveal_strlit("Digit");
    if name.len() == 4 {
        assert(name.take(3).push(name[3]) =~= name);
        assert("Key"@.push(name[3]).take(3) =~= "Key"@);
    }
    if name.len() == 6 {
        assert(name.take(5).push(name[5]) =~= name);
        assert("Digit"@.push(name[5]).take(5) =~= "Digit"@);
    }
}

} // verus!
