use nayan::keys::{
    combo_string, is_modifier_kc, keycode_name, parse_keycode, parse_shortcut, HotkeyTable,
    TapAction, F_ALT, F_CMD, F_CTRL, F_SHIFT, KC_ESCAPE,
};

fn table_with_defaults() -> HotkeyTable {
    let mut t = HotkeyTable::new();
    let cfg = vec![("alt+shift+s".to_string(), 1u32), ("alt+shift+x".to_string(), 2u32)];
    assert_eq!(t.load_bindings(&cfg), Ok(()));
    t
}

#[test]
fn shortcut_alt_shift_s() {
    assert_eq!(parse_shortcut("alt+shift+s"), Some((1, F_ALT | F_SHIFT)));
}

#[test]
fn keycode_names_round_trip() {
    assert_eq!(keycode_name(109), Some("f10"));
    assert_eq!(parse_keycode("f10"), Some(109));
}

#[test]
fn shortcut_words_are_trimmed_and_lowercased() {
    assert_eq!(parse_shortcut(" Option + F10 "), Some((109, F_ALT)));
    assert_eq!(parse_shortcut("CTRL+Control+cmd+super+1"), Some((18, F_CTRL | F_CMD)));
    assert_eq!(parse_shortcut("ALT+S"), Some((1, F_ALT)));
    assert_eq!(parse_shortcut("alt+s"), Some((1, F_ALT)));
    assert_eq!(parse_shortcut("ctrl+alt+s"), Some((1, F_CTRL | F_ALT)));
    assert_eq!(parse_shortcut("Shift+F12"), Some((111, F_SHIFT)));
}

#[test]
fn shortcut_last_key_wins_and_unknown_keys_fail() {
    assert_eq!(parse_shortcut("alt+s+d"), Some((2, F_ALT)));
    assert_eq!(parse_shortcut("a"), None);
    assert_eq!(parse_shortcut("s"), None);
    assert_eq!(parse_shortcut(" F10 "), None);
    assert_eq!(parse_shortcut("alt+shift"), None);
    assert_eq!(parse_shortcut("alt+zz"), None);
    assert_eq!(parse_shortcut(""), None);
    assert_eq!(parse_shortcut("alt+Ä"), None);
}

#[test]
fn keycode_table_both_ways() {
    for kc in 0u32..130 {
        if let Some(name) = keycode_name(kc) {
            assert_eq!(parse_keycode(name), Some(kc));
        }
    }
    assert_eq!(keycode_name(10), None);
    assert_eq!(parse_keycode("f13"), None);
    assert_eq!(keycode_name(29), Some("0"));
    assert_eq!(parse_keycode("9"), Some(25));
}

#[test]
fn modifier_key_codes() {
    assert!(is_modifier_kc(54));
    assert!(is_modifier_kc(63));
    assert!(!is_modifier_kc(53));
    assert!(!is_modifier_kc(64));
}

#[test]
fn combo_strings_in_fixed_order() {
    assert_eq!(combo_string(1, F_SHIFT | F_ALT), Some("alt+shift+s".to_string()));
    assert_eq!(combo_string(109, F_CMD | F_CTRL), Some("ctrl+cmd+f10".to_string()));
    assert_eq!(
        combo_string(0, F_CMD | F_SHIFT | F_ALT | F_CTRL),
        Some("ctrl+alt+shift+cmd+a".to_string())
    );
    assert_eq!(combo_string(1, 0), None);
    assert_eq!(combo_string(10, F_ALT), None);
}

#[test]
fn combo_string_parses_back() {
    for (kc, flags) in [(1u32, F_ALT | F_SHIFT), (109, F_CTRL | F_CMD), (25, F_SHIFT), (0, F_CMD | 0x100)] {
        let c = combo_string(kc, flags).unwrap();
        let mods = flags & (F_ALT | F_SHIFT | F_CTRL | F_CMD);
        assert_eq!(parse_shortcut(&c), Some((kc, mods)));
    }
}

#[test]
fn load_bindings_in_order() {
    let t = table_with_defaults();
    assert_eq!(t.bindings.len(), 2);
    assert_eq!((t.bindings[0].keycode, t.bindings[0].mask, t.bindings[0].action), (1, F_ALT | F_SHIFT, 1));
    assert_eq!((t.bindings[1].keycode, t.bindings[1].mask, t.bindings[1].action), (7, F_ALT | F_SHIFT, 2));
}

#[test]
fn load_bindings_stops_at_bad_entry() {
    let mut t = HotkeyTable::new();
    let cfg = vec![
        ("alt+s".to_string(), 1u32),
        ("bogus".to_string(), 2u32),
        ("alt+x".to_string(), 3u32),
    ];
    assert_eq!(t.load_bindings(&cfg), Err("无法解析热键配置：bogus".to_string()));
    assert_eq!(t.bindings.len(), 1);
    assert_eq!(t.bindings[0].action, 1);
}

#[test]
fn load_bindings_refuses_bare_key() {
    let mut t = HotkeyTable::new();
    let cfg = vec![("alt+s".to_string(), 1u32), ("s".to_string(), 2u32)];
    assert_eq!(t.load_bindings(&cfg), Err("无法解析热键配置：s".to_string()));
    assert_eq!(t.bindings.len(), 1);
    assert!(matches!(t.on_key_down(1, 0), TapAction::Pass));
}

#[test]
fn load_bindings_replaces_table() {
    let mut t = table_with_defaults();
    assert_eq!(t.load_bindings(&vec![("cmd+f1".to_string(), 2u32)]), Ok(()));
    assert_eq!(t.bindings.len(), 1);
    assert_eq!((t.bindings[0].keycode, t.bindings[0].mask), (122, F_CMD));
}

#[test]
fn set_binding_moves_action_last() {
    let mut t = table_with_defaults();
    t.set_binding(1, F_CMD, 1);
    assert_eq!(t.bindings.len(), 2);
    assert_eq!(t.bindings[0].action, 2);
    assert_eq!((t.bindings[1].keycode, t.bindings[1].mask, t.bindings[1].action), (1, F_CMD, 1));
    t.set_binding(2, F_CMD, 1);
    let ones: Vec<_> = t.bindings.iter().filter(|b| b.action == 1).collect();
    assert_eq!(ones.len(), 1);
    assert_eq!(ones[0].keycode, 2);
}

#[test]
fn conflicts_skip_own_action() {
    let t = table_with_defaults();
    assert_eq!(t.conflict_with(7, F_ALT | F_SHIFT, 1), Some(2));
    assert_eq!(t.conflict_with(7, F_ALT | F_SHIFT, 2), None);
    assert_eq!(t.conflict_with(7, F_ALT, 1), None);
}

#[test]
fn key_down_fires_exact_modifiers() {
    let mut t = table_with_defaults();
    assert!(matches!(t.on_key_down(1, F_ALT | F_SHIFT), TapAction::Fire(1)));
    assert!(matches!(t.on_key_down(7, F_ALT | F_SHIFT | 0x100), TapAction::Fire(2)));
    assert!(matches!(t.on_key_down(1, F_ALT), TapAction::Pass));
    assert!(matches!(t.on_key_down(1, F_ALT | F_SHIFT | F_CMD), TapAction::Pass));
    assert!(matches!(t.on_key_down(2, F_ALT | F_SHIFT), TapAction::Pass));
}

#[test]
fn record_mode_catches_combination() {
    let mut t = table_with_defaults();
    t.start_capture_mode(1);
    assert_eq!(t.take_captured(), None);
    assert!(matches!(t.on_key_down(58, F_ALT), TapAction::Swallow));
    assert_eq!(t.take_captured(), None);
    assert_eq!(t.capture_slot, Some(1));
    assert!(matches!(t.on_key_down(1, F_ALT | F_SHIFT), TapAction::Swallow));
    assert_eq!(t.take_captured(), Some("alt+shift+s".to_string()));
    assert_eq!(t.capture_slot, None);
    assert!(matches!(t.on_key_down(1, F_ALT | F_SHIFT), TapAction::Fire(1)));
    assert_eq!(t.take_captured(), Some("alt+shift+s".to_string()));
}

#[test]
fn record_mode_escape_and_bare_keys() {
    let mut t = table_with_defaults();
    t.start_capture_mode(2);
    assert!(matches!(t.on_key_down(KC_ESCAPE, F_ALT), TapAction::Swallow));
    assert_eq!(t.take_captured(), Some("__cancel__".to_string()));
    t.start_capture_mode(2);
    assert_eq!(t.take_captured(), None);
    assert!(matches!(t.on_key_down(0, 0), TapAction::Swallow));
    assert_eq!(t.take_captured(), Some("__none__".to_string()));
    t.start_capture_mode(2);
    assert!(matches!(t.on_key_down(10, F_ALT), TapAction::Swallow));
    assert_eq!(t.take_captured(), Some("__none__".to_string()));
}

#[test]
fn paste_signals() {
    assert!(HotkeyTable::is_paste_signal(9, F_CMD, 0));
    assert!(!HotkeyTable::is_paste_signal(9, F_CTRL, 0));
    assert!(HotkeyTable::is_paste_signal(0, 0, 3));
    assert!(!HotkeyTable::is_paste_signal(0, 0, 2));
    assert!(!HotkeyTable::wants_typed_text(9, F_CMD | F_SHIFT));
    assert!(HotkeyTable::wants_typed_text(9, F_SHIFT));
}

#[test]
fn recorded_combination_binds_and_fires() {
    let mut t = table_with_defaults();
    t.start_capture_mode(1);
    assert!(matches!(t.on_key_down(18, F_CMD | F_SHIFT), TapAction::Swallow));
    let caught = t.take_captured().unwrap();
    assert_eq!(caught, "shift+cmd+1");
    let (kc, mask) = parse_shortcut(&caught).unwrap();
    assert_eq!(t.conflict_with(kc, mask, 1), None);
    t.set_binding(kc, mask, 1);
    assert!(matches!(t.on_key_down(18, F_CMD | F_SHIFT), TapAction::Fire(1)));
    assert!(matches!(t.on_key_down(1, F_ALT | F_SHIFT), TapAction::Pass));
}
