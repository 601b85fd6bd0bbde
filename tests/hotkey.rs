use winittray::{JGlobalHotkey, JGlobalHotkeyErrors};
use windows_sys::Win32::UI::Input::KeyboardAndMouse::{MOD_ALT, MOD_CONTROL, MOD_NOREPEAT, MOD_SHIFT};

// A US keyboard layout for the letters, digits and a few symbols.
fn us_key_scan(c: char) -> i16 {
    match c {
        'a'..='z' => (c as u8 - b'a' + 0x41) as i16,
        '0'..='9' => (c as u8 - b'0' + 0x30) as i16,
        '-' => 0xBD,
        _ => -1,
    }
}

#[test]
fn vk_code_test() {
    let code = us_key_scan('p');

    let gkey = JGlobalHotkey::from_str("Alt+P", us_key_scan).unwrap();

    assert_eq!(code, gkey.vk_code());
}

#[test]
fn modifier_test() {
    let gkey = JGlobalHotkey::from_str("Alt+P", us_key_scan).unwrap();
    assert_eq!(gkey.modifiers(), MOD_ALT | MOD_NOREPEAT)
}

#[test]
fn modifier_constants_match_win32() {
    assert_eq!(winittray::hotkey::MOD_ALT, MOD_ALT);
    assert_eq!(winittray::hotkey::MOD_CONTROL, MOD_CONTROL);
    assert_eq!(winittray::hotkey::MOD_SHIFT, MOD_SHIFT);
    assert_eq!(winittray::hotkey::MOD_NOREPEAT, MOD_NOREPEAT);
}

#[test]
fn key_case_is_ignored() {
    let lower = JGlobalHotkey::from_str("p", us_key_scan).unwrap();
    let upper = JGlobalHotkey::from_str("P", us_key_scan).unwrap();
    assert_eq!(lower, upper);
    assert_eq!(lower.id(), 0x50 | 0x100000);
    let a = JGlobalHotkey::from_str("ALT+P", us_key_scan).unwrap();
    let b = JGlobalHotkey::from_str("alt+p", us_key_scan).unwrap();
    assert_eq!(a, b);
}

#[test]
fn key_is_lower_cased_before_scan() {
    let seen = std::cell::Cell::new('?');
    let scan = |c: char| {
        seen.set(c);
        us_key_scan(c)
    };
    JGlobalHotkey::from_str("Ctrl+Q", scan).unwrap();
    assert_eq!(seen.get(), 'q');
}

#[test]
fn unknown_modifier_is_reported_as_given() {
    match JGlobalHotkey::from_str("Shiftt+P", us_key_scan) {
        Err(JGlobalHotkeyErrors::InvalidModifier(t)) => assert_eq!(t, "Shiftt"),
        _ => panic!("expected an invalid modifier"),
    }
    match JGlobalHotkey::from_str("ctrl + Win Key + a", us_key_scan) {
        Err(JGlobalHotkeyErrors::InvalidModifier(t)) => assert_eq!(t, "WinKey"),
        _ => panic!("expected an invalid modifier"),
    }
    match JGlobalHotkey::from_str("Foo+Bar+a", us_key_scan) {
        Err(JGlobalHotkeyErrors::InvalidModifier(t)) => assert_eq!(t, "Foo"),
        _ => panic!("expected an invalid modifier"),
    }
}

#[test]
fn empty_key_is_rejected() {
    assert!(matches!(JGlobalHotkey::from_str("", us_key_scan), Err(JGlobalHotkeyErrors::NoKeySpecified)));
    assert!(matches!(JGlobalHotkey::from_str("+", us_key_scan), Err(JGlobalHotkeyErrors::NoKeySpecified)));
    assert!(matches!(JGlobalHotkey::from_str("alt+ ", us_key_scan), Err(JGlobalHotkeyErrors::NoKeySpecified)));
    assert!(matches!(JGlobalHotkey::from_str("   ", us_key_scan), Err(JGlobalHotkeyErrors::NoKeySpecified)));
}

#[test]
fn alt_p_reports_only_alt() {
    let h = JGlobalHotkey::from_str("Alt+P", us_key_scan).unwrap();
    assert!(h.modifier_alt());
    assert!(!h.modifier_shift());
    assert!(!h.modifier_ctrl());
    assert!(h.is_valid());
}

#[test]
fn all_modifiers_with_whitespace() {
    let h = JGlobalHotkey::from_str("ctrl + shift + alt + a", us_key_scan).unwrap();
    assert!(h.modifier_alt() && h.modifier_shift() && h.modifier_ctrl());
    assert_eq!(h.id(), 0x41 | 0x20000 | 0x40000 | 0x80000 | 0x100000);
    assert_eq!(h.modifiers(), MOD_NOREPEAT | MOD_SHIFT | MOD_ALT | MOD_CONTROL);
    assert_eq!(h.vk_code(), 0x41);
}

#[test]
fn unknown_key_is_rejected() {
    match JGlobalHotkey::from_str("alt+é", us_key_scan) {
        Err(JGlobalHotkeyErrors::InvalidKey(c)) => assert_eq!(c, 'é'),
        _ => panic!("expected an invalid key"),
    }
    match JGlobalHotkey::from_str("Alt+Q", |_| -1) {
        Err(JGlobalHotkeyErrors::InvalidKey(c)) => assert_eq!(c, 'q'),
        _ => panic!("expected an invalid key"),
    }
}

#[test]
fn named_keys_are_unsupported() {
    match JGlobalHotkey::from_str("Alt+F1", us_key_scan) {
        Err(JGlobalHotkeyErrors::UnsupportedKey(k)) => assert_eq!(k, "F1"),
        _ => panic!("expected an unsupported key"),
    }
}

#[test]
fn key_error_comes_before_modifier_error() {
    assert!(matches!(JGlobalHotkey::from_str("foo+", us_key_scan), Err(JGlobalHotkeyErrors::NoKeySpecified)));
}

#[test]
fn scan_shift_state_is_kept_in_vk_code() {
    let h = JGlobalHotkey::from_str("-", |_| 0x01BD).unwrap();
    assert_eq!(h.vk_code(), 0x01BD);
    assert!(!h.modifier_shift());
}

#[test]
fn default_hotkey_is_invalid() {
    assert!(!JGlobalHotkey::default().is_valid());
    assert!(JGlobalHotkey::from_id(5).is_valid());
}

#[test]
fn error_messages() {
    assert_eq!(winittray::error_message_of(&JGlobalHotkeyErrors::NoKeySpecified), "No key specified");
    assert_eq!(winittray::error_message_of(&JGlobalHotkeyErrors::RegisterFailed), "Couldn't register hotkey");
    assert_eq!(winittray::error_message_of(&JGlobalHotkeyErrors::InvalidKey('x')), "Invalid key x");
    assert_eq!(
        winittray::error_message_of(&JGlobalHotkeyErrors::InvalidModifier(String::from("meta"))),
        "Invalid modifiersmeta"
    );
    assert_eq!(
        winittray::error_message_of(&JGlobalHotkeyErrors::UnsupportedKey(String::from("F1"))),
        "Unsupported key F1"
    );
}

#[test]
fn any_whitespace_is_dropped_from_tokens() {
    match JGlobalHotkey::from_str("Shift\t+ Fo o\n+a", us_key_scan) {
        Err(JGlobalHotkeyErrors::InvalidModifier(t)) => assert_eq!(t, "Foo"),
        _ => panic!("expected an invalid modifier"),
    }
    let h = JGlobalHotkey::from_str("\tALT\r\n+ p ", us_key_scan).unwrap();
    assert!(h.modifier_alt());
}
