use lancea::normalize::is_control_char;
use lancea::registry::CommandRegistry;
use lancea::text::{is_white_space, trim_text};

#[test]
fn char_classes_agree_with_std_everywhere() {
    for c in (0u32..=0x10FFFF).filter_map(char::from_u32) {
        assert_eq!(is_control_char(c), c.is_control(), "control {:?}", c);
        assert_eq!(is_white_space(c), c.is_whitespace(), "white space {:?}", c);
    }
}

#[test]
fn trim_agrees_with_std() {
    for s in ["", "   ", "x", "  x  ", "\u{3000}a b\u{2028}", "\t\n/emoji laugh\r\n", "\u{85}\u{a0}", "a\u{200b}"] {
        assert_eq!(trim_text(s), s.trim());
    }
}

#[test]
fn resolve_unchanged_by_trimming() {
    let registry = CommandRegistry::new();
    for t in ["  /emoji laugh ", "\u{3000}/ap x", "\t/apps", " text /em"] {
        let a = registry.resolve(t);
        let b = registry.resolve(t.trim());
        assert_eq!(a.matched, b.matched);
        assert_eq!(a.provider_id, b.provider_id);
        assert_eq!(a.command_id, b.command_id);
    }
}
