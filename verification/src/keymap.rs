use vstd::prelude::*;

verus! {

/// A key as the Linux input layer names it: its event code (the `KeyCode` of
/// evdev; the values of `linux/input-event-codes.h`).
#[derive(Clone, Copy, Debug, PartialEq, Eq, Structural)]
pub struct EvdevKey(pub u16);

/// A key as the cross-platform key-event layer of macOS and Windows names it
/// (the same variants as `rdev::Key`).
#[derive(Clone, Copy, Debug, PartialEq, Eq, Structural)]
pub enum Key {
    Alt,
    AltGr,
    Backspace,
    CapsLock,
    ControlLeft,
    ControlRight,
    Delete,
    DownArrow,
    End,
    Escape,
    F1,
    F10,
    F11,
    F12,
    F2,
    F3,
    F4,
    F5,
    F6,
    F7,
    F8,
    F9,
    Home,
    LeftArrow,
    MetaLeft,
    MetaRight,
    PageDown,
    PageUp,
    Return,
    RightArrow,
    ShiftLeft,
    ShiftRight,
    Space,
    Tab,
    UpArrow,
    PrintScreen,
    ScrollLock,
    Pause,
    NumLock,
    BackQuote,
    Num1,
    Num2,
    Num3,
    Num4,
    Num5,
    Num6,
    Num7,
    Num8,
    Num9,
    Num0,
    Minus,
    Equal,
    KeyQ,
    KeyW,
    KeyE,
    KeyR,
    KeyT,
    KeyY,
    KeyU,
    KeyI,
    KeyO,
    KeyP,
    LeftBracket,
    RightBracket,
    KeyA,
    KeyS,
    KeyD,
    KeyF,
    KeyG,
    KeyH,
    KeyJ,
    KeyK,
    KeyL,
    SemiColon,
    Quote,
    BackSlash,
    IntlBackslash,
    KeyZ,
    KeyX,
    KeyC,
    KeyV,
    KeyB,
    KeyN,
    KeyM,
    Comma,
    Dot,
    Slash,
    Insert,
    KpReturn,
    KpMinus,
    KpPlus,
    KpMultiply,
    KpDivide,
    Kp0,
    Kp1,
    Kp2,
    Kp3,
    Kp4,
    Kp5,
    Kp6,
    Kp7,
    Kp8,
    Kp9,
    KpDelete,
    Function,
    Unknown(u32),
}

/// A key that a word can be typed with: it reads as at most one character in
/// the English layout and at most one in the Hebrew layout, and two keys can be
/// told apart.
pub trait LayoutKey: Sized + Copy {
    /// The character that the key types in the English layout.
    spec fn english(&self) -> Option<char>;

    /// The character that the key types in the Hebrew layout.
    spec fn hebrew(&self) -> Option<char>;

    fn english_char(&self) -> (r: Option<char>)
        ensures
            r == self.english(),
    ;

    fn hebrew_char(&self) -> (r: Option<char>)
        ensures
            r == self.hebrew(),
    ;

    fn same_key(&self, other: &Self) -> (r: bool)
        ensures
            r == (*self == *other),
    ;
}

/// The character that a Linux key types in the English (US) layout.
pub open spec fn evdev_english(code: u16) -> Option<char> {
    match code {
        30 => Some('a'), // KEY_A
        48 => Some('b'), // KEY_B
        46 => Some('c'), // KEY_C
        32 => Some('d'), // KEY_D
        18 => Some('e'), // KEY_E
        33 => Some('f'), // KEY_F
        34 => Some('g'), // KEY_G
        35 => Some('h'), // KEY_H
        23 => Some('i'), // KEY_I
        36 => Some('j'), // KEY_J
        37 => Some('k'), // KEY_K
        38 => Some('l'), // KEY_L
        50 => Some('m'), // KEY_M
        49 => Some('n'), // KEY_N
        24 => Some('o'), // KEY_O
        25 => Some('p'), // KEY_P
        16 => Some('q'), // KEY_Q
        19 => Some('r'), // KEY_R
        31 => Some('s'), // KEY_S
        20 => Some('t'), // KEY_T
        22 => Some('u'), // KEY_U
        47 => Some('v'), // KEY_V
        17 => Some('w'), // KEY_W
        45 => Some('x'), // KEY_X
        21 => Some('y'), // KEY_Y
        44 => Some('z'), // KEY_Z
        2 => Some('1'), // KEY_1
        3 => Some('2'), // KEY_2
        4 => Some('3'), // KEY_3
        5 => Some('4'), // KEY_4
        6 => Some('5'), // KEY_5
        7 => Some('6'), // KEY_6
        8 => Some('7'), // KEY_7
        9 => Some('8'), // KEY_8
        10 => Some('9'), // KEY_9
        11 => Some('0'), // KEY_0
        _ => None,
    }
}

/// The character that a Linux key types in the English (US) layout.
pub fn evkey_to_english_char(key: EvdevKey) -> (r: Option<char>)
    ensures
        r == evdev_english(key.0),
{
    match key.0 {
        30 => Some('a'), // KEY_A
        48 => Some('b'), // KEY_B
        46 => Some('c'), // KEY_C
        32 => Some('d'), // KEY_D
        18 => Some('e'), // KEY_E
        33 => Some('f'), // KEY_F
        34 => Some('g'), // KEY_G
        35 => Some('h'), // KEY_H
        23 => Some('i'), // KEY_I
        36 => Some('j'), // KEY_J
        37 => Some('k'), // KEY_K
        38 => Some('l'), // KEY_L
        50 => Some('m'), // KEY_M
        49 => Some('n'), // KEY_N
        24 => Some('o'), // KEY_O
        25 => Some('p'), // KEY_P
        16 => Some('q'), // KEY_Q
        19 => Some('r'), // KEY_R
        31 => Some('s'), // KEY_S
        20 => Some('t'), // KEY_T
        22 => Some('u'), // KEY_U
        47 => Some('v'), // KEY_V
        17 => Some('w'), // KEY_W
        45 => Some('x'), // KEY_X
        21 => Some('y'), // KEY_Y
        44 => Some('z'), // KEY_Z
        2 => Some('1'), // KEY_1
        3 => Some('2'), // KEY_2
        4 => Some('3'), // KEY_3
        5 => Some('4'), // KEY_4
        6 => Some('5'), // KEY_5
        7 => Some('6'), // KEY_6
        8 => Some('7'), // KEY_7
        9 => Some('8'), // KEY_8
        10 => Some('9'), // KEY_9
        11 => Some('0'), // KEY_0
        _ => None,
    }
}

/// The character that a Linux key types in the Hebrew (standard) layout.
pub open spec fn evdev_hebrew(code: u16) -> Option<char> {
    match code {
        16 => Some('/'), // KEY_Q
        17 => Some('\''), // KEY_W
        18 => Some('\u{5e7}'), // KEY_E
        19 => Some('\u{5e8}'), // KEY_R
        20 => Some('\u{5d0}'), // KEY_T
        21 => Some('\u{5d8}'), // KEY_Y
        22 => Some('\u{5d5}'), // KEY_U
        23 => Some('\u{5df}'), // KEY_I
        24 => Some('\u{5dd}'), // KEY_O
        25 => Some('\u{5e4}'), // KEY_P
        30 => Some('\u{5e9}'), // KEY_A
        31 => Some('\u{5d3}'), // KEY_S
        32 => Some('\u{5d2}'), // KEY_D
        33 => Some('\u{5db}'), // KEY_F
        34 => Some('\u{5e2}'), // KEY_G
        35 => Some('\u{5d9}'), // KEY_H
        36 => Some('\u{5d7}'), // KEY_J
        37 => Some('\u{5dc}'), // KEY_K
        38 => Some('\u{5da}'), // KEY_L
        39 => Some('\u{5e3}'), // KEY_SEMICOLON
        40 => Some(','), // KEY_APOSTROPHE
        44 => Some('\u{5d6}'), // KEY_Z
        45 => Some('\u{5e1}'), // KEY_X
        46 => Some('\u{5d1}'), // KEY_C
        47 => Some('\u{5d4}'), // KEY_V
        48 => Some('\u{5e0}'), // KEY_B
        49 => Some('\u{5de}'), // KEY_N
        50 => Some('\u{5e6}'), // KEY_M
        51 => Some('\u{5ea}'), // KEY_COMMA
        52 => Some('\u{5e5}'), // KEY_DOT
        53 => Some('.'), // KEY_SLASH
        41 => Some(';'), // KEY_GRAVE
        26 => Some(']'), // KEY_LEFTBRACE
        27 => Some('['), // KEY_RIGHTBRACE
        12 => Some('-'), // KEY_MINUS
        13 => Some('='), // KEY_EQUAL
        43 => Some('\\'), // KEY_BACKSLASH
        2 => Some('1'), // KEY_1
        3 => Some('2'), // KEY_2
        4 => Some('3'), // KEY_3
        5 => Some('4'), // KEY_4
        6 => Some('5'), // KEY_5
        7 => Some('6'), // KEY_6
        8 => Some('7'), // KEY_7
        9 => Some('8'), // KEY_8
        10 => Some('9'), // KEY_9
        11 => Some('0'), // KEY_0
        _ => None,
    }
}

/// The character that a Linux key types in the Hebrew (standard) layout.
pub fn evkey_to_hebrew_char(key: EvdevKey) -> (r: Option<char>)
    ensures
        r == evdev_hebrew(key.0),
{
    match key.0 {
        16 => Some('/'), // KEY_Q
        17 => Some('\''), // KEY_W
        18 => Some('\u{5e7}'), // KEY_E
        19 => Some('\u{5e8}'), // KEY_R
        20 => Some('\u{5d0}'), // KEY_T
        21 => Some('\u{5d8}'), // KEY_Y
        22 => Some('\u{5d5}'), // KEY_U
        23 => Some('\u{5df}'), // KEY_I
        24 => Some('\u{5dd}'), // KEY_O
        25 => Some('\u{5e4}'), // KEY_P
        30 => Some('\u{5e9}'), // KEY_A
        31 => Some('\u{5d3}'), // KEY_S
        32 => Some('\u{5d2}'), // KEY_D
        33 => Some('\u{5db}'), // KEY_F
        34 => Some('\u{5e2}'), // KEY_G
        35 => Some('\u{5d9}'), // KEY_H
        36 => Some('\u{5d7}'), // KEY_J
        37 => Some('\u{5dc}'), // KEY_K
        38 => Some('\u{5da}'), // KEY_L
        39 => Some('\u{5e3}'), // KEY_SEMICOLON
        40 => Some(','), // KEY_APOSTROPHE
        44 => Some('\u{5d6}'), // KEY_Z
        45 => Some('\u{5e1}'), // KEY_X
        46 => Some('\u{5d1}'), // KEY_C
        47 => Some('\u{5d4}'), // KEY_V
        48 => Some('\u{5e0}'), // KEY_B
        49 => Some('\u{5de}'), // KEY_N
        50 => Some('\u{5e6}'), // KEY_M
        51 => Some('\u{5ea}'), // KEY_COMMA
        52 => Some('\u{5e5}'), // KEY_DOT
        53 => Some('.'), // KEY_SLASH
        41 => Some(';'), // KEY_GRAVE
        26 => Some(']'), // KEY_LEFTBRACE
        27 => Some('['), // KEY_RIGHTBRACE
        12 => Some('-'), // KEY_MINUS
        13 => Some('='), // KEY_EQUAL
        43 => Some('\\'), // KEY_BACKSLASH
        2 => Some('1'), // KEY_1
        3 => Some('2'), // KEY_2
        4 => Some('3'), // KEY_3
        5 => Some('4'), // KEY_4
        6 => Some('5'), // KEY_5
        7 => Some('6'), // KEY_6
        8 => Some('7'), // KEY_7
        9 => Some('8'), // KEY_8
        10 => Some('9'), // KEY_9
        11 => Some('0'), // KEY_0
        _ => None,
    }
}

/// The character that a key types in the English (US) layout.
pub open spec fn key_english(key: Key) -> Option<char> {
    match key {
        Key::KeyA => Some('a'),
        Key::KeyB => Some('b'),
        Key::KeyC => Some('c'),
        Key::KeyD => Some('d'),
        Key::KeyE => Some('e'),
        Key::KeyF => Some('f'),
        Key::KeyG => Some('g'),
        Key::KeyH => Some('h'),
        Key::KeyI => Some('i'),
        Key::KeyJ => Some('j'),
        Key::KeyK => Some('k'),
        Key::KeyL => Some('l'),
        Key::KeyM => Some('m'),
        Key::KeyN => Some('n'),
        Key::KeyO => Some('o'),
        Key::KeyP => Some('p'),
        Key::KeyQ => Some('q'),
        Key::KeyR => Some('r'),
        Key::KeyS => Some('s'),
        Key::KeyT => Some('t'),
        Key::KeyU => Some('u'),
        Key::KeyV => Some('v'),
        Key::KeyW => Some('w'),
        Key::KeyX => Some('x'),
        Key::KeyY => Some('y'),
        Key::KeyZ => Some('z'),
        Key::Num1 => Some('1'),
        Key::Num2 => Some('2'),
        Key::Num3 => Some('3'),
        Key::Num4 => Some('4'),
        Key::Num5 => Some('5'),
        Key::Num6 => Some('6'),
        Key::Num7 => Some('7'),
        Key::Num8 => Some('8'),
        Key::Num9 => Some('9'),
        Key::Num0 => Some('0'),
        _ => None,
    }
}

/// The character that a key types in the English (US) layout.
pub fn key_to_english_char(key: Key) -> (r: Option<char>)
    ensures
        r == key_english(key),
{
    match key {
        Key::KeyA => Some('a'),
        Key::KeyB => Some('b'),
        Key::KeyC => Some('c'),
        Key::KeyD => Some('d'),
        Key::KeyE => Some('e'),
        Key::KeyF => Some('f'),
        Key::KeyG => Some('g'),
        Key::KeyH => Some('h'),
        Key::KeyI => Some('i'),
        Key::KeyJ => Some('j'),
        Key::KeyK => Some('k'),
        Key::KeyL => Some('l'),
        Key::KeyM => Some('m'),
        Key::KeyN => Some('n'),
        Key::KeyO => Some('o'),
        Key::KeyP => Some('p'),
        Key::KeyQ => Some('q'),
        Key::KeyR => Some('r'),
        Key::KeyS => Some('s'),
        Key::KeyT => Some('t'),
        Key::KeyU => Some('u'),
        Key::KeyV => Some('v'),
        Key::KeyW => Some('w'),
        Key::KeyX => Some('x'),
        Key::KeyY => Some('y'),
        Key::KeyZ => Some('z'),
        Key::Num1 => Some('1'),
        Key::Num2 => Some('2'),
        Key::Num3 => Some('3'),
        Key::Num4 => Some('4'),
        Key::Num5 => Some('5'),
        Key::Num6 => Some('6'),
        Key::Num7 => Some('7'),
        Key::Num8 => Some('8'),
        Key::Num9 => Some('9'),
        Key::Num0 => Some('0'),
        _ => None,
    }
}

/// The character that a key types in the Hebrew (standard) layout.
pub open spec fn key_hebrew(key: Key) -> Option<char> {
    match key {
        Key::KeyQ => Some('/'),
        Key::KeyW => Some('\''),
        Key::KeyE => Some('\u{5e7}'),
        Key::KeyR => Some('\u{5e8}'),
        Key::KeyT => Some('\u{5d0}'),
        Key::KeyY => Some('\u{5d8}'),
        Key::KeyU => Some('\u{5d5}'),
        Key::KeyI => Some('\u{5df}'),
        Key::KeyO => Some('\u{5dd}'),
        Key::KeyP => Some('\u{5e4}'),
        Key::KeyA => Some('\u{5e9}'),
        Key::KeyS => Some('\u{5d3}'),
        Key::KeyD => Some('\u{5d2}'),
        Key::KeyF => Some('\u{5db}'),
        Key::KeyG => Some('\u{5e2}'),
        Key::KeyH => Some('\u{5d9}'),
        Key::KeyJ => Some('\u{5d7}'),
        Key::KeyK => Some('\u{5dc}'),
        Key::KeyL => Some('\u{5da}'),
        Key::SemiColon => Some('\u{5e3}'),
        Key::Quote => Some(','),
        Key::KeyZ => Some('\u{5d6}'),
        Key::KeyX => Some('\u{5e1}'),
        Key::KeyC => Some('\u{5d1}'),
        Key::KeyV => Some('\u{5d4}'),
        Key::KeyB => Some('\u{5e0}'),
        Key::KeyN => Some('\u{5de}'),
        Key::KeyM => Some('\u{5e6}'),
        Key::Comma => Some('\u{5ea}'),
        Key::Dot => Some('\u{5e5}'),
        Key::Slash => Some('.'),
        Key::BackQuote => Some(';'),
        Key::LeftBracket => Some(']'),
        Key::RightBracket => Some('['),
        Key::Minus => Some('-'),
        Key::Equal => Some('='),
        Key::BackSlash => Some('\\'),
        Key::Num1 => Some('1'),
        Key::Num2 => Some('2'),
        Key::Num3 => Some('3'),
        Key::Num4 => Some('4'),
        Key::Num5 => Some('5'),
        Key::Num6 => Some('6'),
        Key::Num7 => Some('7'),
        Key::Num8 => Some('8'),
        Key::Num9 => Some('9'),
        Key::Num0 => Some('0'),
        _ => None,
    }
}

/// The character that a key types in the Hebrew (standard) layout.
pub fn key_to_hebrew_char(key: Key) -> (r: Option<char>)
    ensures
        r == key_hebrew(key),
{
    match key {
        Key::KeyQ => Some('/'),
        Key::KeyW => Some('\''),
        Key::KeyE => Some('\u{5e7}'),
        Key::KeyR => Some('\u{5e8}'),
        Key::KeyT => Some('\u{5d0}'),
        Key::KeyY => Some('\u{5d8}'),
        Key::KeyU => Some('\u{5d5}'),
        Key::KeyI => Some('\u{5df}'),
        Key::KeyO => Some('\u{5dd}'),
        Key::KeyP => Some('\u{5e4}'),
        Key::KeyA => Some('\u{5e9}'),
        Key::KeyS => Some('\u{5d3}'),
        Key::KeyD => Some('\u{5d2}'),
        Key::KeyF => Some('\u{5db}'),
        Key::KeyG => Some('\u{5e2}'),
        Key::KeyH => Some('\u{5d9}'),
        Key::KeyJ => Some('\u{5d7}'),
        Key::KeyK => Some('\u{5dc}'),
        Key::KeyL => Some('\u{5da}'),
        Key::SemiColon => Some('\u{5e3}'),
        Key::Quote => Some(','),
        Key::KeyZ => Some('\u{5d6}'),
        Key::KeyX => Some('\u{5e1}'),
        Key::KeyC => Some('\u{5d1}'),
        Key::KeyV => Some('\u{5d4}'),
        Key::KeyB => Some('\u{5e0}'),
        Key::KeyN => Some('\u{5de}'),
        Key::KeyM => Some('\u{5e6}'),
        Key::Comma => Some('\u{5ea}'),
        Key::Dot => Some('\u{5e5}'),
        Key::Slash => Some('.'),
        Key::BackQuote => Some(';'),
        Key::LeftBracket => Some(']'),
        Key::RightBracket => Some('['),
        Key::Minus => Some('-'),
        Key::Equal => Some('='),
        Key::BackSlash => Some('\\'),
        Key::Num1 => Some('1'),
        Key::Num2 => Some('2'),
        Key::Num3 => Some('3'),
        Key::Num4 => Some('4'),
        Key::Num5 => Some('5'),
        Key::Num6 => Some('6'),
        Key::Num7 => Some('7'),
        Key::Num8 => Some('8'),
        Key::Num9 => Some('9'),
        Key::Num0 => Some('0'),
        _ => None,
    }
}

/// The key that a macOS virtual key code stands for (the Help key of Apple
/// keyboards is where PC keyboards have Insert; 117 is the forward Delete).
pub open spec fn mac_key(code: u16) -> Key {
    match code {
        0 => Key::KeyA,
        1 => Key::KeyS,
        2 => Key::KeyD,
        3 => Key::KeyF,
        4 => Key::KeyH,
        5 => Key::KeyG,
        6 => Key::KeyZ,
        7 => Key::KeyX,
        8 => Key::KeyC,
        9 => Key::KeyV,
        11 => Key::KeyB,
        12 => Key::KeyQ,
        13 => Key::KeyW,
        14 => Key::KeyE,
        15 => Key::KeyR,
        16 => Key::KeyY,
        17 => Key::KeyT,
        18 => Key::Num1,
        19 => Key::Num2,
        20 => Key::Num3,
        21 => Key::Num4,
        22 => Key::Num6,
        23 => Key::Num5,
        24 => Key::Equal,
        25 => Key::Num9,
        26 => Key::Num7,
        27 => Key::Minus,
        28 => Key::Num8,
        29 => Key::Num0,
        30 => Key::RightBracket,
        31 => Key::KeyO,
        32 => Key::KeyU,
        33 => Key::LeftBracket,
        34 => Key::KeyI,
        35 => Key::KeyP,
        36 => Key::Return,
        37 => Key::KeyL,
        38 => Key::KeyJ,
        39 => Key::Quote,
        40 => Key::KeyK,
        41 => Key::SemiColon,
        42 => Key::BackSlash,
        43 => Key::Comma,
        44 => Key::Slash,
        45 => Key::KeyN,
        46 => Key::KeyM,
        47 => Key::Dot,
        48 => Key::Tab,
        49 => Key::Space,
        50 => Key::BackQuote,
        51 => Key::Backspace,
        53 => Key::Escape,
        54 => Key::MetaRight,
        55 => Key::MetaLeft,
        56 => Key::ShiftLeft,
        57 => Key::CapsLock,
        58 => Key::Alt,
        59 => Key::ControlLeft,
        60 => Key::ShiftRight,
        63 => Key::Function,
        96 => Key::F5,
        97 => Key::F6,
        98 => Key::F7,
        99 => Key::F3,
        100 => Key::F8,
        101 => Key::F9,
        103 => Key::F11,
        109 => Key::F10,
        111 => Key::F12,
        118 => Key::F4,
        120 => Key::F2,
        122 => Key::F1,
        123 => Key::LeftArrow,
        124 => Key::RightArrow,
        125 => Key::DownArrow,
        126 => Key::UpArrow,
        114 => Key::Insert,
        115 => Key::Home,
        116 => Key::PageUp,
        117 => Key::Delete,
        119 => Key::End,
        121 => Key::PageDown,
        _ => Key::Unknown(code as u32),
    }
}

/// Maps a macOS virtual key code to its key.
pub fn key_from_code(code: u16) -> (r: Key)
    ensures
        r == mac_key(code),
{
    match code {
        0 => Key::KeyA,
        1 => Key::KeyS,
        2 => Key::KeyD,
        3 => Key::KeyF,
        4 => Key::KeyH,
        5 => Key::KeyG,
        6 => Key::KeyZ,
        7 => Key::KeyX,
        8 => Key::KeyC,
        9 => Key::KeyV,
        11 => Key::KeyB,
        12 => Key::KeyQ,
        13 => Key::KeyW,
        14 => Key::KeyE,
        15 => Key::KeyR,
        16 => Key::KeyY,
        17 => Key::KeyT,
        18 => Key::Num1,
        19 => Key::Num2,
        20 => Key::Num3,
        21 => Key::Num4,
        22 => Key::Num6,
        23 => Key::Num5,
        24 => Key::Equal,
        25 => Key::Num9,
        26 => Key::Num7,
        27 => Key::Minus,
        28 => Key::Num8,
        29 => Key::Num0,
        30 => Key::RightBracket,
        31 => Key::KeyO,
        32 => Key::KeyU,
        33 => Key::LeftBracket,
        34 => Key::KeyI,
        35 => Key::KeyP,
        36 => Key::Return,
        37 => Key::KeyL,
        38 => Key::KeyJ,
        39 => Key::Quote,
        40 => Key::KeyK,
        41 => Key::SemiColon,
        42 => Key::BackSlash,
        43 => Key::Comma,
        44 => Key::Slash,
        45 => Key::KeyN,
        46 => Key::KeyM,
        47 => Key::Dot,
        48 => Key::Tab,
        49 => Key::Space,
        50 => Key::BackQuote,
        51 => Key::Backspace,
        53 => Key::Escape,
        54 => Key::MetaRight,
        55 => Key::MetaLeft,
        56 => Key::ShiftLeft,
        57 => Key::CapsLock,
        58 => Key::Alt,
        59 => Key::ControlLeft,
        60 => Key::ShiftRight,
        63 => Key::Function,
        96 => Key::F5,
        97 => Key::F6,
        98 => Key::F7,
        99 => Key::F3,
        100 => Key::F8,
        101 => Key::F9,
        103 => Key::F11,
        109 => Key::F10,
        111 => Key::F12,
        118 => Key::F4,
        120 => Key::F2,
        122 => Key::F1,
        123 => Key::LeftArrow,
        124 => Key::RightArrow,
        125 => Key::DownArrow,
        126 => Key::UpArrow,
        114 => Key::Insert,
        115 => Key::Home,
        116 => Key::PageUp,
        117 => Key::Delete,
        119 => Key::End,
        121 => Key::PageDown,
        _ => Key::Unknown(code as u32),
    }
}

impl LayoutKey for EvdevKey {
    open spec fn english(&self) -> Option<char> {
        evdev_english(self.0)
    }

    open spec fn hebrew(&self) -> Option<char> {
        evdev_hebrew(self.0)
    }

    fn english_char(&self) -> (r: Option<char>) {
        evkey_to_english_char(*self)
    }

    fn hebrew_char(&self) -> (r: Option<char>) {
        evkey_to_hebrew_char(*self)
    }

    fn same_key(&self, other: &Self) -> (r: bool) {
        self.0 == other.0
    }
}

impl LayoutKey for Key {
    open spec fn english(&self) -> Option<char> {
        key_english(*self)
    }

    open spec fn hebrew(&self) -> Option<char> {
        key_hebrew(*self)
    }

    fn english_char(&self) -> (r: Option<char>) {
        key_to_english_char(*self)
    }

    fn hebrew_char(&self) -> (r: Option<char>) {
        key_to_hebrew_char(*self)
    }

    fn same_key(&self, other: &Self) -> (r: bool) {
        *self == *other
    }
}

/// A decimal digit.
pub open spec fn is_digit(c: char) -> bool {
    48 <= c as u32 <= 57
}

/// On Linux, a key that types a character in the English layout types one in
/// the Hebrew layout too, and the digit keys type the same digit in both.
pub proof fn law_evdev_english_keys_type_hebrew(code: u16)
    ensures
        evdev_english(code) is Some ==> evdev_hebrew(code) is Some,
        evdev_english(code) matches Some(c) ==> (is_digit(c) ==> evdev_hebrew(code) == Some(c)),
{
}

/// A key that types a character in the English layout types one in the
/// Hebrew layout too, and the digit keys type the same digit in both.
pub proof fn law_key_english_keys_type_hebrew(key: Key)
    ensures
        key_english(key) is Some ==> key_hebrew(key) is Some,
        key_english(key) matches Some(c) ==> (is_digit(c) ==> key_hebrew(key) == Some(c)),
{
}

/// No key types an apostrophe or a double quote in the English layout (so an
/// English word typed on the keyboard never holds one).
pub proof fn law_english_types_no_quote(code: u16, key: Key)
    ensures
        evdev_english(code) != Some('\'') && evdev_english(code) != Some('"'),
        key_english(key) != Some('\'') && key_english(key) != Some('"'),
{
}

/// On Linux, two keys that type the same character in a layout are the same
/// key.
pub proof fn law_evdev_characters_identify_keys(a: u16, b: u16)
    ensures
        evdev_english(a) is Some && evdev_english(a) == evdev_english(b) ==> a == b,
        evdev_hebrew(a) is Some && evdev_hebrew(a) == evdev_hebrew(b) ==> a == b,
{
}

/// Two keys that type the same character in a layout are the same key.
pub proof fn law_key_characters_identify_keys(a: Key, b: Key)
    ensures
        key_english(a) is Some && key_english(a) == key_english(b) ==> a == b,
        key_hebrew(a) is Some && key_hebrew(a) == key_hebrew(b) ==> a == b,
{
}

/// Distinct macOS virtual key codes stand for distinct keys.
pub proof fn law_mac_codes_identify_keys(a: u16, b: u16)
    ensures
        mac_key(a) == mac_key(b) ==> a == b,
{
}

/// The Linux event code of the same physical key, for the keys of a standard
/// keyboard's main block that both key namings have (letters, digits,
/// punctuation, Space, Return, Backspace, Tab, Escape, the cursor block,
/// modifiers, function keys).
pub open spec fn evdev_counterpart(key: Key) -> Option<u16> {
    match key {
        Key::KeyA => Some(30), // KEY_A
        Key::KeyB => Some(48), // KEY_B
        Key::KeyC => Some(46), // KEY_C
        Key::KeyD => Some(32), // KEY_D
        Key::KeyE => Some(18), // KEY_E
        Key::KeyF => Some(33), // KEY_F
        Key::KeyG => Some(34), // KEY_G
        Key::KeyH => Some(35), // KEY_H
        Key::KeyI => Some(23), // KEY_I
        Key::KeyJ => Some(36), // KEY_J
        Key::KeyK => Some(37), // KEY_K
        Key::KeyL => Some(38), // KEY_L
        Key::KeyM => Some(50), // KEY_M
        Key::KeyN => Some(49), // KEY_N
        Key::KeyO => Some(24), // KEY_O
        Key::KeyP => Some(25), // KEY_P
        Key::KeyQ => Some(16), // KEY_Q
        Key::KeyR => Some(19), // KEY_R
        Key::KeyS => Some(31), // KEY_S
        Key::KeyT => Some(20), // KEY_T
        Key::KeyU => Some(22), // KEY_U
        Key::KeyV => Some(47), // KEY_V
        Key::KeyW => Some(17), // KEY_W
        Key::KeyX => Some(45), // KEY_X
        Key::KeyY => Some(21), // KEY_Y
        Key::KeyZ => Some(44), // KEY_Z
        Key::Num0 => Some(11), // KEY_0
        Key::Num1 => Some(2), // KEY_1
        Key::Num2 => Some(3), // KEY_2
        Key::Num3 => Some(4), // KEY_3
        Key::Num4 => Some(5), // KEY_4
        Key::Num5 => Some(6), // KEY_5
        Key::Num6 => Some(7), // KEY_6
        Key::Num7 => Some(8), // KEY_7
        Key::Num8 => Some(9), // KEY_8
        Key::Num9 => Some(10), // KEY_9
        Key::Minus => Some(12), // KEY_MINUS
        Key::Equal => Some(13), // KEY_EQUAL
        Key::LeftBracket => Some(26), // KEY_LEFTBRACE
        Key::RightBracket => Some(27), // KEY_RIGHTBRACE
        Key::SemiColon => Some(39), // KEY_SEMICOLON
        Key::Quote => Some(40), // KEY_APOSTROPHE
        Key::BackQuote => Some(41), // KEY_GRAVE
        Key::BackSlash => Some(43), // KEY_BACKSLASH
        Key::Comma => Some(51), // KEY_COMMA
        Key::Dot => Some(52), // KEY_DOT
        Key::Slash => Some(53), // KEY_SLASH
        Key::Space => Some(57), // KEY_SPACE
        Key::Return => Some(28), // KEY_ENTER
        Key::Backspace => Some(14), // KEY_BACKSPACE
        Key::Tab => Some(15), // KEY_TAB
        Key::Escape => Some(1), // KEY_ESC
        Key::Home => Some(102), // KEY_HOME
        Key::End => Some(107), // KEY_END
        Key::PageUp => Some(104), // KEY_PAGEUP
        Key::PageDown => Some(109), // KEY_PAGEDOWN
        Key::Insert => Some(110), // KEY_INSERT
        Key::Delete => Some(111), // KEY_DELETE
        Key::LeftArrow => Some(105), // KEY_LEFT
        Key::RightArrow => Some(106), // KEY_RIGHT
        Key::UpArrow => Some(103), // KEY_UP
        Key::DownArrow => Some(108), // KEY_DOWN
        Key::ShiftLeft => Some(42), // KEY_LEFTSHIFT
        Key::ShiftRight => Some(54), // KEY_RIGHTSHIFT
        Key::ControlLeft => Some(29), // KEY_LEFTCTRL
        Key::ControlRight => Some(97), // KEY_RIGHTCTRL
        Key::Alt => Some(56), // KEY_LEFTALT
        Key::CapsLock => Some(58), // KEY_CAPSLOCK
        Key::F1 => Some(59), // KEY_F1
        Key::F2 => Some(60), // KEY_F2
        Key::F3 => Some(61), // KEY_F3
        Key::F4 => Some(62), // KEY_F4
        Key::F5 => Some(63), // KEY_F5
        Key::F6 => Some(64), // KEY_F6
        Key::F7 => Some(65), // KEY_F7
        Key::F8 => Some(66), // KEY_F8
        Key::F9 => Some(67), // KEY_F9
        Key::F10 => Some(68), // KEY_F10
        Key::F11 => Some(87), // KEY_F11
        Key::F12 => Some(88), // KEY_F12
        _ => None,
    }
}

/// A physical key types the same characters whichever listener reports it:
/// the macOS / Windows tables agree with the Linux ones key by key, in both
/// layouts.
pub proof fn law_key_tables_agree_with_linux(key: Key)
    ensures
        evdev_counterpart(key) matches Some(code) ==> key_english(key) == evdev_english(code)
            && key_hebrew(key) == evdev_hebrew(code),
{
}

} // verus!
