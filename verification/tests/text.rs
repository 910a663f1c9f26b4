use fono_hotkey::text::{split, trim};

#[test]
fn trimming_agrees_with_the_standard_library() {
    for s in ["", " ", "a", "  a b\t", "\u{a0}x\u{3000}", "\u{200b}x", "\n\r\u{85}", "x\u{2028}"] {
        assert_eq!(trim(s), s.trim());
    }
    for c in (0..=0x10ffffu32).filter_map(char::from_u32) {
        let s = format!("{c}x");
        assert_eq!(trim(&s) == "x", c.is_whitespace(), "{:x}", c as u32);
    }
}

#[test]
fn splitting_agrees_with_the_standard_library() {
    for s in ["", ":", "a", "a:b", ":a", "a:", "::", "\u{e9}:\u{e8}:x"] {
        assert_eq!(split(s, ':'), s.split(':').collect::<Vec<_>>());
    }
}
