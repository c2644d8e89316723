use evdev::KeyCode;
use typelan::keymap::{
    evkey_to_english_char, evkey_to_hebrew_char, key_from_code, key_to_english_char,
    key_to_hebrew_char, EvdevKey, Key, LayoutKey,
};
use typelan::tracker::{evdev_key_kind, key_kind, KeyKind};

fn ev(code: KeyCode) -> EvdevKey {
    EvdevKey(code.code())
}

#[test]
fn evdev_letters_and_digits_in_english() {
    let letters = [
        (KeyCode::KEY_A, 'a'), (KeyCode::KEY_B, 'b'), (KeyCode::KEY_C, 'c'), (KeyCode::KEY_D, 'd'),
        (KeyCode::KEY_E, 'e'), (KeyCode::KEY_F, 'f'), (KeyCode::KEY_G, 'g'), (KeyCode::KEY_H, 'h'),
        (KeyCode::KEY_I, 'i'), (KeyCode::KEY_J, 'j'), (KeyCode::KEY_K, 'k'), (KeyCode::KEY_L, 'l'),
        (KeyCode::KEY_M, 'm'), (KeyCode::KEY_N, 'n'), (KeyCode::KEY_O, 'o'), (KeyCode::KEY_P, 'p'),
        (KeyCode::KEY_Q, 'q'), (KeyCode::KEY_R, 'r'), (KeyCode::KEY_S, 's'), (KeyCode::KEY_T, 't'),
        (KeyCode::KEY_U, 'u'), (KeyCode::KEY_V, 'v'), (KeyCode::KEY_W, 'w'), (KeyCode::KEY_X, 'x'),
        (KeyCode::KEY_Y, 'y'), (KeyCode::KEY_Z, 'z'), (KeyCode::KEY_1, '1'), (KeyCode::KEY_2, '2'),
        (KeyCode::KEY_3, '3'), (KeyCode::KEY_4, '4'), (KeyCode::KEY_5, '5'), (KeyCode::KEY_6, '6'),
        (KeyCode::KEY_7, '7'), (KeyCode::KEY_8, '8'), (KeyCode::KEY_9, '9'), (KeyCode::KEY_0, '0'),
    ];
    for (code, c) in letters {
        assert_eq!(evkey_to_english_char(ev(code)), Some(c));
    }
    assert_eq!(evkey_to_english_char(ev(KeyCode::KEY_SEMICOLON)), None);
    assert_eq!(evkey_to_english_char(ev(KeyCode::KEY_SPACE)), None);
    assert_eq!(evkey_to_english_char(ev(KeyCode::KEY_LEFTSHIFT)), None);
}

#[test]
fn evdev_hebrew_layout() {
    let table = [
        (KeyCode::KEY_Q, '/'), (KeyCode::KEY_W, '\''), (KeyCode::KEY_E, '\u{5e7}'),
        (KeyCode::KEY_R, '\u{5e8}'), (KeyCode::KEY_T, '\u{5d0}'), (KeyCode::KEY_Y, '\u{5d8}'),
        (KeyCode::KEY_U, '\u{5d5}'), (KeyCode::KEY_I, '\u{5df}'), (KeyCode::KEY_O, '\u{5dd}'),
        (KeyCode::KEY_P, '\u{5e4}'), (KeyCode::KEY_A, '\u{5e9}'), (KeyCode::KEY_S, '\u{5d3}'),
        (KeyCode::KEY_D, '\u{5d2}'), (KeyCode::KEY_F, '\u{5db}'), (KeyCode::KEY_G, '\u{5e2}'),
        (KeyCode::KEY_H, '\u{5d9}'), (KeyCode::KEY_J, '\u{5d7}'), (KeyCode::KEY_K, '\u{5dc}'),
        (KeyCode::KEY_L, '\u{5da}'), (KeyCode::KEY_SEMICOLON, '\u{5e3}'), (KeyCode::KEY_APOSTROPHE, ','),
        (KeyCode::KEY_Z, '\u{5d6}'), (KeyCode::KEY_X, '\u{5e1}'), (KeyCode::KEY_C, '\u{5d1}'),
        (KeyCode::KEY_V, '\u{5d4}'), (KeyCode::KEY_B, '\u{5e0}'), (KeyCode::KEY_N, '\u{5de}'),
        (KeyCode::KEY_M, '\u{5e6}'), (KeyCode::KEY_COMMA, '\u{5ea}'), (KeyCode::KEY_DOT, '\u{5e5}'),
        (KeyCode::KEY_SLASH, '.'), (KeyCode::KEY_GRAVE, ';'), (KeyCode::KEY_LEFTBRACE, ']'),
        (KeyCode::KEY_RIGHTBRACE, '['), (KeyCode::KEY_MINUS, '-'), (KeyCode::KEY_EQUAL, '='),
        (KeyCode::KEY_BACKSLASH, '\\'), (KeyCode::KEY_1, '1'), (KeyCode::KEY_0, '0'),
    ];
    for (code, c) in table {
        assert_eq!(evkey_to_hebrew_char(ev(code)), Some(c));
    }
    assert_eq!(evkey_to_hebrew_char(ev(KeyCode::KEY_ENTER)), None);
}

#[test]
fn evdev_key_reads_as_layout_key() {
    let k = ev(KeyCode::KEY_A);
    assert_eq!(k.english_char(), Some('a'));
    assert_eq!(k.hebrew_char(), Some('\u{5e9}'));
    assert!(k.same_key(&EvdevKey(30)));
    assert!(!k.same_key(&ev(KeyCode::KEY_B)));
}

#[test]
fn key_tables() {
    assert_eq!(key_to_english_char(Key::KeyA), Some('a'));
    assert_eq!(key_to_english_char(Key::Num7), Some('7'));
    assert_eq!(key_to_english_char(Key::Comma), None);
    assert_eq!(key_to_hebrew_char(Key::Comma), Some('\u{5ea}'));
    assert_eq!(key_to_hebrew_char(Key::KeyW), Some('\''));
    assert_eq!(key_to_hebrew_char(Key::BackSlash), Some('\\'));
    assert_eq!(key_to_hebrew_char(Key::Space), None);
    assert_eq!(key_to_english_char(Key::Unknown(4)), None);
}

#[test]
fn key_and_evdev_tables_agree() {
    let pairs = [
        (KeyCode::KEY_Q, Key::KeyQ), (KeyCode::KEY_SEMICOLON, Key::SemiColon),
        (KeyCode::KEY_APOSTROPHE, Key::Quote), (KeyCode::KEY_GRAVE, Key::BackQuote),
        (KeyCode::KEY_LEFTBRACE, Key::LeftBracket), (KeyCode::KEY_DOT, Key::Dot),
        (KeyCode::KEY_5, Key::Num5), (KeyCode::KEY_M, Key::KeyM),
    ];
    for (code, key) in pairs {
        assert_eq!(evkey_to_english_char(ev(code)), key_to_english_char(key));
        assert_eq!(evkey_to_hebrew_char(ev(code)), key_to_hebrew_char(key));
    }
}

#[test]
fn mac_virtual_codes() {
    assert_eq!(key_from_code(0), Key::KeyA);
    assert_eq!(key_from_code(1), Key::KeyS);
    assert_eq!(key_from_code(22), Key::Num6);
    assert_eq!(key_from_code(23), Key::Num5);
    assert_eq!(key_from_code(36), Key::Return);
    assert_eq!(key_from_code(49), Key::Space);
    assert_eq!(key_from_code(51), Key::Backspace);
    assert_eq!(key_from_code(126), Key::UpArrow);
    assert_eq!(key_from_code(114), Key::Insert);
    assert_eq!(key_from_code(115), Key::Home);
    assert_eq!(key_from_code(116), Key::PageUp);
    assert_eq!(key_from_code(117), Key::Delete);
    assert_eq!(key_from_code(119), Key::End);
    assert_eq!(key_from_code(121), Key::PageDown);
    assert_eq!(key_from_code(10), Key::Unknown(10));
    assert_eq!(key_from_code(52), Key::Unknown(52));
    assert_eq!(key_from_code(500), Key::Unknown(500));
}

#[test]
fn linux_key_kinds() {
    assert_eq!(evdev_key_kind(ev(KeyCode::KEY_SPACE)), KeyKind::Terminator);
    assert_eq!(evdev_key_kind(ev(KeyCode::KEY_ENTER)), KeyKind::Terminator);
    assert_eq!(evdev_key_kind(ev(KeyCode::KEY_KPENTER)), KeyKind::Terminator);
    assert_eq!(evdev_key_kind(ev(KeyCode::KEY_BACKSPACE)), KeyKind::Backspace);
    for code in [
        KeyCode::KEY_TAB, KeyCode::KEY_ESC, KeyCode::KEY_LEFT, KeyCode::KEY_RIGHT, KeyCode::KEY_UP,
        KeyCode::KEY_DOWN, KeyCode::KEY_HOME, KeyCode::KEY_END, KeyCode::KEY_PAGEUP,
        KeyCode::KEY_PAGEDOWN, KeyCode::KEY_INSERT, KeyCode::KEY_DELETE, KeyCode::BTN_LEFT,
        KeyCode::BTN_RIGHT, KeyCode::BTN_MIDDLE,
    ] {
        assert_eq!(evdev_key_kind(ev(code)), KeyKind::Reset);
    }
    assert_eq!(evdev_key_kind(ev(KeyCode::KEY_A)), KeyKind::Text);
    assert_eq!(evdev_key_kind(ev(KeyCode::KEY_SEMICOLON)), KeyKind::Text);
    assert_eq!(evdev_key_kind(ev(KeyCode::KEY_LEFTSHIFT)), KeyKind::Ignored);
    assert_eq!(evdev_key_kind(ev(KeyCode::KEY_F1)), KeyKind::Ignored);
}

#[test]
fn macos_and_windows_key_kinds() {
    assert_eq!(key_kind(Key::Space), KeyKind::Terminator);
    assert_eq!(key_kind(Key::Return), KeyKind::Terminator);
    assert_eq!(key_kind(Key::KpReturn), KeyKind::Ignored);
    assert_eq!(key_kind(Key::Backspace), KeyKind::Backspace);
    assert_eq!(key_kind(Key::Escape), KeyKind::Reset);
    assert_eq!(key_kind(Key::Home), KeyKind::Reset);
    assert_eq!(key_kind(Key::Delete), KeyKind::Reset);
    assert_eq!(key_kind(Key::Tab), KeyKind::Reset);
    assert_eq!(key_kind(Key::Quote), KeyKind::Text);
    assert_eq!(key_kind(Key::ShiftLeft), KeyKind::Ignored);
    assert_eq!(key_kind(key_from_code(115)), KeyKind::Reset);
}

#[test]
fn every_english_key_types_hebrew_too() {
    for code in 0..=u16::MAX {
        let k = EvdevKey(code);
        if let Some(c) = evkey_to_english_char(k) {
            let h = evkey_to_hebrew_char(k);
            assert!(h.is_some(), "code {}", code);
            if c.is_ascii_digit() {
                assert_eq!(h, Some(c));
            }
        }
    }
}

#[test]
fn characters_identify_keys() {
    let mut seen_en = std::collections::HashMap::new();
    let mut seen_he = std::collections::HashMap::new();
    for code in 0..=u16::MAX {
        let k = EvdevKey(code);
        if let Some(c) = evkey_to_english_char(k) {
            assert!(seen_en.insert(c, code).is_none(), "english {:?}", c);
            assert!(c != '\'' && c != '"');
        }
        if let Some(c) = evkey_to_hebrew_char(k) {
            assert!(seen_he.insert(c, code).is_none(), "hebrew {:?}", c);
        }
    }
    assert_eq!(seen_en.len(), 36);
    assert_eq!(seen_he.len(), 47);
}

#[test]
fn mac_codes_identify_keys() {
    let mut seen = std::collections::HashMap::new();
    for code in 0..=u16::MAX {
        let key = format!("{:?}", key_from_code(code));
        assert!(seen.insert(key, code).is_none(), "code {}", code);
    }
}
