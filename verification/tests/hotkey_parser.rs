use global_hotkey::hotkey::{Code, HotKey, Modifiers};
use settings_app::hotkey::{
    binding_hotkey, code_name, modifier_bits,
    collect_hotkey_actions, parse_hotkey_str, parsed_key_to_code, parsed_to_hotkey,
    wake_from_hotkey, HotkeyAction, HotkeyBinding, KeyCode, SCREENSHOT_HOTKEY,
};
use settings_app::window::WindowPrevState;

#[test]
fn parse_basic_combinations() {
    let h = parse_hotkey_str("Ctrl+Alt+S").unwrap();
    assert!(h.ctrl);
    assert!(h.alt);
    assert!(!h.shift);
    assert!(!h.cmd);
    assert_eq!(h.key_name, "S");

    let h = parse_hotkey_str("Cmd+Shift+F12").unwrap();
    assert!(!h.ctrl);
    assert!(!h.alt);
    assert!(h.shift);
    assert!(h.cmd);
    assert_eq!(h.key_name, "F12");
}

#[test]
fn parse_super_as_cmd() {
    let h = parse_hotkey_str("Super+X").unwrap();
    assert!(h.cmd);
    assert_eq!(h.key_name, "X");
}

#[test]
fn parse_single_key() {
    let h = parse_hotkey_str("F5").unwrap();
    assert!(!h.ctrl && !h.alt && !h.shift && !h.cmd);
    assert_eq!(h.key_name, "F5");
}

#[test]
fn reject_empty() {
    assert!(parse_hotkey_str("").is_none());
}

#[test]
fn key_to_code_maps() {
    assert_eq!(parsed_key_to_code("A"), Some(KeyCode::KeyA));
    assert_eq!(parsed_key_to_code("F12"), Some(KeyCode::F12));
    assert_eq!(parsed_key_to_code("Space"), Some(KeyCode::Space));
    assert_eq!(parsed_key_to_code("Num0"), Some(KeyCode::Digit0));
    assert!(parsed_key_to_code("UnknownKey").is_none());
}

#[test]
fn screenshot_hotkey_is_alt_s() {
    let p = parse_hotkey_str(SCREENSHOT_HOTKEY).unwrap();
    assert!(p.alt);
    assert!(!p.ctrl);
    assert!(!p.shift);
    assert!(!p.cmd);
    assert_eq!(p.key_name, "S");
    assert!(parsed_to_hotkey(&p).is_some());
}

#[test]
fn parsed_to_hotkey_accepts_modifier_combinations() {
    let p = parse_hotkey_str("Ctrl+Alt+S").unwrap();
    assert!(parsed_to_hotkey(&p).is_some());

    let p = parse_hotkey_str("Cmd+Shift+F12").unwrap();
    assert!(parsed_to_hotkey(&p).is_some());
}

#[test]
fn parsed_to_hotkey_rejects_unknown_key_names() {
    let p = parse_hotkey_str("Ctrl+NoSuchKey").unwrap();
    assert!(parsed_to_hotkey(&p).is_none());

    assert!(parse_hotkey_str("").is_none());
}

#[test]
fn parse_rejects_two_keys_and_no_key() {
    assert!(parse_hotkey_str("Ctrl+A+B").is_none());
    assert!(parse_hotkey_str("Ctrl+Alt").is_none());
    assert!(parse_hotkey_str("A+Shift+B").is_none());
}

#[test]
fn parse_rejects_empty_key_parts() {
    assert!(parse_hotkey_str("Ctrl+").is_none());
    assert!(parse_hotkey_str("+").is_none());
    assert!(parse_hotkey_str("Ctrl++S").is_none());
    assert!(parse_hotkey_str("+S").is_none());
}

#[test]
fn parse_ignores_the_order_of_parts() {
    assert_eq!(parse_hotkey_str("S+Alt"), parse_hotkey_str("Alt+S"));
    assert_eq!(parse_hotkey_str("Ctrl+Ctrl+S"), parse_hotkey_str("Ctrl+S+Ctrl"));
    assert_eq!(parse_hotkey_str("F12+Shift+Cmd"), parse_hotkey_str("Cmd+Shift+F12"));
}

#[test]
fn parse_ignores_modifier_order_and_repeats() {
    let a = parse_hotkey_str("Shift+Ctrl+Q").unwrap();
    let b = parse_hotkey_str("Ctrl+Shift+Ctrl+Q").unwrap();
    assert_eq!(a, b);
    assert!(a.ctrl && a.shift && !a.alt && !a.cmd);
}

#[test]
fn parse_is_case_sensitive_for_modifiers() {
    assert!(parse_hotkey_str("ctrl+S").is_none());
    let p = parse_hotkey_str("ctrl").unwrap();
    assert_eq!(p.key_name, "ctrl");
    assert!(!p.ctrl);
}

#[test]
fn key_table_covers_all_groups() {
    assert_eq!(parsed_key_to_code("Z"), Some(KeyCode::KeyZ));
    assert_eq!(parsed_key_to_code("Num9"), Some(KeyCode::Digit9));
    assert_eq!(parsed_key_to_code("F1"), Some(KeyCode::F1));
    assert_eq!(parsed_key_to_code("Enter"), Some(KeyCode::Enter));
    assert_eq!(parsed_key_to_code("Escape"), Some(KeyCode::Escape));
    assert_eq!(parsed_key_to_code("Tab"), Some(KeyCode::Tab));
    assert_eq!(parsed_key_to_code("Backspace"), Some(KeyCode::Backspace));
    assert_eq!(parsed_key_to_code("a"), None);
    assert_eq!(parsed_key_to_code("F13"), None);
    assert_eq!(parsed_key_to_code(""), None);
}

#[test]
fn binding_carries_modifiers_and_code() {
    let p = parse_hotkey_str("Cmd+Shift+F12").unwrap();
    assert_eq!(
        parsed_to_hotkey(&p),
        Some(HotkeyBinding {
            control: false,
            alt: false,
            shift: true,
            super_key: true,
            code: KeyCode::F12,
        })
    );
}

#[test]
fn hotkey_events_start_one_screenshot_per_frame() {
    let events = vec![
        (7u32, WindowPrevState::Normal),
        (42u32, WindowPrevState::Tray),
        (42u32, WindowPrevState::Minimized),
    ];
    let actions = collect_hotkey_actions(&events, 42, false);
    assert_eq!(
        actions,
        vec![HotkeyAction::SetScreenshotMode { prev_state: WindowPrevState::Tray }]
    );
    assert!(collect_hotkey_actions(&events, 42, true).is_empty());
    assert!(collect_hotkey_actions(&events, 9, false).is_empty());
    assert!(collect_hotkey_actions(&Vec::new(), 42, false).is_empty());
}

#[test]
fn hotkey_wake_state() {
    assert_eq!(wake_from_hotkey(false, false), (WindowPrevState::Tray, true));
    assert_eq!(wake_from_hotkey(false, true), (WindowPrevState::Tray, true));
    assert_eq!(wake_from_hotkey(true, true), (WindowPrevState::Minimized, true));
    assert_eq!(wake_from_hotkey(true, false), (WindowPrevState::Normal, false));
}

#[test]
fn bindings_register_the_matching_global_hotkey() {
    let alt_s = parsed_to_hotkey(&parse_hotkey_str("Alt+S").unwrap()).unwrap();
    assert_eq!(modifier_bits(&alt_s), 0x1);
    assert_eq!(code_name(alt_s.code), "KeyS");
    let (hotkey, id) = binding_hotkey(&alt_s).unwrap();
    let expected = HotKey::new(Some(Modifiers::ALT), Code::KeyS);
    assert_eq!(id, expected.id());
    assert_eq!(hotkey, expected);

    let cmd_shift_f12 = parsed_to_hotkey(&parse_hotkey_str("Cmd+Shift+F12").unwrap()).unwrap();
    assert_eq!(modifier_bits(&cmd_shift_f12), 0x2200);
    let (_, id) = binding_hotkey(&cmd_shift_f12).unwrap();
    assert_eq!(id, HotKey::new(Some(Modifiers::SUPER | Modifiers::SHIFT), Code::F12).id());

    let ctrl_num0 = parsed_to_hotkey(&parse_hotkey_str("Ctrl+Num0").unwrap()).unwrap();
    let (_, id) = binding_hotkey(&ctrl_num0).unwrap();
    assert_eq!(id, HotKey::new(Some(Modifiers::CONTROL), Code::Digit0).id());
    assert_ne!(id, HotKey::new(Some(Modifiers::CONTROL), Code::Digit1).id());
}
