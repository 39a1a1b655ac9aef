use vstd::prelude::*;

verus! {

/// Number of make codes below 0x80 the driver knows (0x00 ..= 0x3A).
pub const KEYBOARD_KEY_COUNT: usize = 0x3b;

/// The keys the keyboard driver knows, each with its make code.
#[derive(Clone, Copy, Debug, PartialEq, Eq, Structural)]
pub enum Key {
    Null,
    Esc,
    One,
    Two,
    Three,
    Four,
    Five,
    Six,
    Seven,
    Eight,
    Night,
    Zero,
    Dash,
    Equals,
    Backspace,
    Tab,
    Q,
    W,
    E,
    R,
    T,
    Y,
    U,
    I,
    O,
    P,
    LeftBracket,
    RightBracket,
    Enter,
    LeftCtrl,
    A,
    S,
    D,
    F,
    G,
    H,
    J,
    K,
    L,
    Semicolon,
    Quote,
    Tilde,
    LeftShift,
    Pipe,
    Z,
    X,
    C,
    V,
    B,
    N,
    M,
    LessThan,
    GraterThan,
    Slash,
    RightShift,
    Asterisk,
    LeftAlt,
    Space,
    CapsLock,
    RightAlt,
    RightCtrl,
}

impl Key {
    /// The key's make code (for the extended keys, with the 0xE0 prefix in the high byte).
    pub open spec fn spec_code(&self) -> u16 {
        match self {
            Key::Null => 0x0,
            Key::Esc => 0x1,
            Key::One => 0x2,
            Key::Two => 0x3,
            Key::Three => 0x4,
            Key::Four => 0x5,
            Key::Five => 0x6,
            Key::Six => 0x7,
            Key::Seven => 0x8,
            Key::Eight => 0x9,
            Key::Night => 0xa,
            Key::Zero => 0xb,
            Key::Dash => 0xc,
            Key::Equals => 0xd,
            Key::Backspace => 0xe,
            Key::Tab => 0xf,
            Key::Q => 0x10,
            Key::W => 0x11,
            Key::E => 0x12,
            Key::R => 0x13,
            Key::T => 0x14,
            Key::Y => 0x15,
            Key::U => 0x16,
            Key::I => 0x17,
            Key::O => 0x18,
            Key::P => 0x19,
            Key::LeftBracket => 0x1a,
            Key::RightBracket => 0x1b,
            Key::Enter => 0x1c,
            Key::LeftCtrl => 0x1d,
            Key::A => 0x1e,
            Key::S => 0x1f,
            Key::D => 0x20,
            Key::F => 0x21,
            Key::G => 0x22,
            Key::H => 0x23,
            Key::J => 0x24,
            Key::K => 0x25,
            Key::L => 0x26,
            Key::Semicolon => 0x27,
            Key::Quote => 0x28,
            Key::Tilde => 0x29,
            Key::LeftShift => 0x2a,
            Key::Pipe => 0x2b,
            Key::Z => 0x2c,
            Key::X => 0x2d,
            Key::C => 0x2e,
            Key::V => 0x2f,
            Key::B => 0x30,
            Key::N => 0x31,
            Key::M => 0x32,
            Key::LessThan => 0x33,
            Key::GraterThan => 0x34,
            Key::Slash => 0x35,
            Key::RightShift => 0x36,
            Key::Asterisk => 0x37,
            Key::LeftAlt => 0x38,
            Key::Space => 0x39,
            Key::CapsLock => 0x3a,
            Key::RightAlt => 0xe038,
            Key::RightCtrl => 0xe01d,
        }
    }

    /// The key's make code.
    pub fn code(&self) -> (c: u16)
        ensures
            c == self.spec_code(),
    {
        match self {
            Key::Null => 0x0,
            Key::Esc => 0x1,
            Key::One => 0x2,
            Key::Two => 0x3,
            Key::Three => 0x4,
            Key::Four => 0x5,
            Key::Five => 0x6,
            Key::Six => 0x7,
            Key::Seven => 0x8,
            Key::Eight => 0x9,
            Key::Night => 0xa,
            Key::Zero => 0xb,
            Key::Dash => 0xc,
            Key::Equals => 0xd,
            Key::Backspace => 0xe,
            Key::Tab => 0xf,
            Key::Q => 0x10,
            Key::W => 0x11,
            Key::E => 0x12,
            Key::R => 0x13,
            Key::T => 0x14,
            Key::Y => 0x15,
            Key::U => 0x16,
            Key::I => 0x17,
            Key::O => 0x18,
            Key::P => 0x19,
            Key::LeftBracket => 0x1a,
            Key::RightBracket => 0x1b,
            Key::Enter => 0x1c,
            Key::LeftCtrl => 0x1d,
            Key::A => 0x1e,
            Key::S => 0x1f,
            Key::D => 0x20,
            Key::F => 0x21,
            Key::G => 0x22,
            Key::H => 0x23,
            Key::J => 0x24,
            Key::K => 0x25,
            Key::L => 0x26,
            Key::Semicolon => 0x27,
            Key::Quote => 0x28,
            Key::Tilde => 0x29,
            Key::LeftShift => 0x2a,
            Key::Pipe => 0x2b,
            Key::Z => 0x2c,
            Key::X => 0x2d,
            Key::C => 0x2e,
            Key::V => 0x2f,
            Key::B => 0x30,
            Key::N => 0x31,
            Key::M => 0x32,
            Key::LessThan => 0x33,
            Key::GraterThan => 0x34,
            Key::Slash => 0x35,
            Key::RightShift => 0x36,
            Key::Asterisk => 0x37,
            Key::LeftAlt => 0x38,
            Key::Space => 0x39,
            Key::CapsLock => 0x3a,
            Key::RightAlt => 0xe038,
            Key::RightCtrl => 0xe01d,
        }
    }

    /// The key's character and its upper-case character, as ASCII bytes.
    pub open spec fn spec_chars(&self) -> (u8, u8) {
        match self {
            Key::Null => (0x00u8, 0x00u8),
            Key::Esc => (0x1bu8, 0x1bu8),
            Key::One => (0x31u8, 0x21u8),
            Key::Two => (0x32u8, 0x40u8),
            Key::Three => (0x33u8, 0x23u8),
            Key::Four => (0x34u8, 0x24u8),
            Key::Five => (0x35u8, 0x25u8),
            Key::Six => (0x36u8, 0x5eu8),
            Key::Seven => (0x37u8, 0x26u8),
            Key::Eight => (0x38u8, 0x2au8),
            Key::Night => (0x39u8, 0x28u8),
            Key::Zero => (0x30u8, 0x29u8),
            Key::Dash => (0x2du8, 0x5fu8),
            Key::Equals => (0x3du8, 0x2bu8),
            Key::Backspace => (0x08u8, 0x08u8),
            Key::Tab => (0x09u8, 0x09u8),
            Key::Q => (0x71u8, 0x51u8),
            Key::W => (0x77u8, 0x57u8),
            Key::E => (0x65u8, 0x45u8),
            Key::R => (0x72u8, 0x52u8),
            Key::T => (0x74u8, 0x54u8),
            Key::Y => (0x79u8, 0x59u8),
            Key::U => (0x75u8, 0x55u8),
            Key::I => (0x69u8, 0x49u8),
            Key::O => (0x6fu8, 0x4fu8),
            Key::P => (0x70u8, 0x50u8),
            Key::LeftBracket => (0x5bu8, 0x7bu8),
            Key::RightBracket => (0x5du8, 0x7du8),
            Key::Enter => (0x0du8, 0x0du8),
            Key::LeftCtrl => (0x11u8, 0x11u8),
            Key::A => (0x61u8, 0x41u8),
            Key::S => (0x73u8, 0x53u8),
            Key::D => (0x64u8, 0x44u8),
            Key::F => (0x66u8, 0x46u8),
            Key::G => (0x67u8, 0x47u8),
            Key::H => (0x68u8, 0x48u8),
            Key::J => (0x6au8, 0x4au8),
            Key::K => (0x6bu8, 0x4bu8),
            Key::L => (0x6cu8, 0x4cu8),
            Key::Semicolon => (0x3bu8, 0x3au8),
            Key::Quote => (0x27u8, 0x22u8),
            Key::Tilde => (0x60u8, 0x7eu8),
            Key::LeftShift => (0x0fu8, 0x0fu8),
            Key::Pipe => (0x5cu8, 0x7cu8),
            Key::Z => (0x7au8, 0x5au8),
            Key::X => (0x78u8, 0x58u8),
            Key::C => (0x63u8, 0x43u8),
            Key::V => (0x76u8, 0x56u8),
            Key::B => (0x62u8, 0x42u8),
            Key::N => (0x6eu8, 0x4eu8),
            Key::M => (0x6du8, 0x4du8),
            Key::LessThan => (0x2cu8, 0x3cu8),
            Key::GraterThan => (0x2eu8, 0x3eu8),
            Key::Slash => (0x2fu8, 0x3fu8),
            Key::RightShift => (0x0eu8, 0x0eu8),
            Key::Asterisk => (0x2au8, 0x2au8),
            Key::LeftAlt => (0x12u8, 0x12u8),
            Key::Space => (0x20u8, 0x20u8),
            Key::CapsLock => (0x14u8, 0x14u8),
            Key::RightAlt => (0x12u8, 0x12u8),
            Key::RightCtrl => (0x11u8, 0x11u8),
        }
    }

    /// The key's character and its upper-case character, as ASCII bytes.
    pub fn chars(&self) -> (r: (u8, u8))
        ensures
            r == self.spec_chars(),
    {
        match self {
            Key::Null => (0x00u8, 0x00u8),
            Key::Esc => (0x1bu8, 0x1bu8),
            Key::One => (0x31u8, 0x21u8),
            Key::Two => (0x32u8, 0x40u8),
            Key::Three => (0x33u8, 0x23u8),
            Key::Four => (0x34u8, 0x24u8),
            Key::Five => (0x35u8, 0x25u8),
            Key::Six => (0x36u8, 0x5eu8),
            Key::Seven => (0x37u8, 0x26u8),
            Key::Eight => (0x38u8, 0x2au8),
            Key::Night => (0x39u8, 0x28u8),
            Key::Zero => (0x30u8, 0x29u8),
            Key::Dash => (0x2du8, 0x5fu8),
            Key::Equals => (0x3du8, 0x2bu8),
            Key::Backspace => (0x08u8, 0x08u8),
            Key::Tab => (0x09u8, 0x09u8),
            Key::Q => (0x71u8, 0x51u8),
            Key::W => (0x77u8, 0x57u8),
            Key::E => (0x65u8, 0x45u8),
            Key::R => (0x72u8, 0x52u8),
            Key::T => (0x74u8, 0x54u8),
            Key::Y => (0x79u8, 0x59u8),
            Key::U => (0x75u8, 0x55u8),
            Key::I => (0x69u8, 0x49u8),
            Key::O => (0x6fu8, 0x4fu8),
            Key::P => (0x70u8, 0x50u8),
            Key::LeftBracket => (0x5bu8, 0x7bu8),
            Key::RightBracket => (0x5du8, 0x7du8),
            Key::Enter => (0x0du8, 0x0du8),
            Key::LeftCtrl => (0x11u8, 0x11u8),
            Key::A => (0x61u8, 0x41u8),
            Key::S => (0x73u8, 0x53u8),
            Key::D => (0x64u8, 0x44u8),
            Key::F => (0x66u8, 0x46u8),
            Key::G => (0x67u8, 0x47u8),
            Key::H => (0x68u8, 0x48u8),
            Key::J => (0x6au8, 0x4au8),
            Key::K => (0x6bu8, 0x4bu8),
            Key::L => (0x6cu8, 0x4cu8),
            Key::Semicolon => (0x3bu8, 0x3au8),
            Key::Quote => (0x27u8, 0x22u8),
            Key::Tilde => (0x60u8, 0x7eu8),
            Key::LeftShift => (0x0fu8, 0x0fu8),
            Key::Pipe => (0x5cu8, 0x7cu8),
            Key::Z => (0x7au8, 0x5au8),
            Key::X => (0x78u8, 0x58u8),
            Key::C => (0x63u8, 0x43u8),
            Key::V => (0x76u8, 0x56u8),
            Key::B => (0x62u8, 0x42u8),
            Key::N => (0x6eu8, 0x4eu8),
            Key::M => (0x6du8, 0x4du8),
            Key::LessThan => (0x2cu8, 0x3cu8),
            Key::GraterThan => (0x2eu8, 0x3eu8),
            Key::Slash => (0x2fu8, 0x3fu8),
            Key::RightShift => (0x0eu8, 0x0eu8),
            Key::Asterisk => (0x2au8, 0x2au8),
            Key::LeftAlt => (0x12u8, 0x12u8),
            Key::Space => (0x20u8, 0x20u8),
            Key::CapsLock => (0x14u8, 0x14u8),
            Key::RightAlt => (0x12u8, 0x12u8),
            Key::RightCtrl => (0x11u8, 0x11u8),
        }
    }
}

/// The key with make code `code`, if the driver knows one.
pub open spec fn spec_key_of_code(code: u16) -> Option<Key> {
    match code {
        0x0 => Some(Key::Null),
        0x1 => Some(Key::Esc),
        0x2 => Some(Key::One),
        0x3 => Some(Key::Two),
        0x4 => Some(Key::Three),
        0x5 => Some(Key::Four),
        0x6 => Some(Key::Five),
        0x7 => Some(Key::Six),
        0x8 => Some(Key::Seven),
        0x9 => Some(Key::Eight),
        0xa => Some(Key::Night),
        0xb => Some(Key::Zero),
        0xc => Some(Key::Dash),
        0xd => Some(Key::Equals),
        0xe => Some(Key::Backspace),
        0xf => Some(Key::Tab),
        0x10 => Some(Key::Q),
        0x11 => Some(Key::W),
        0x12 => Some(Key::E),
        0x13 => Some(Key::R),
        0x14 => Some(Key::T),
        0x15 => Some(Key::Y),
        0x16 => Some(Key::U),
        0x17 => Some(Key::I),
        0x18 => Some(Key::O),
        0x19 => Some(Key::P),
        0x1a => Some(Key::LeftBracket),
        0x1b => Some(Key::RightBracket),
        0x1c => Some(Key::Enter),
        0x1d => Some(Key::LeftCtrl),
        0x1e => Some(Key::A),
        0x1f => Some(Key::S),
        0x20 => Some(Key::D),
        0x21 => Some(Key::F),
        0x22 => Some(Key::G),
        0x23 => Some(Key::H),
        0x24 => Some(Key::J),
        0x25 => Some(Key::K),
        0x26 => Some(Key::L),
        0x27 => Some(Key::Semicolon),
        0x28 => Some(Key::Quote),
        0x29 => Some(Key::Tilde),
        0x2a => Some(Key::LeftShift),
        0x2b => Some(Key::Pipe),
        0x2c => Some(Key::Z),
        0x2d => Some(Key::X),
        0x2e => Some(Key::C),
        0x2f => Some(Key::V),
        0x30 => Some(Key::B),
        0x31 => Some(Key::N),
        0x32 => Some(Key::M),
        0x33 => Some(Key::LessThan),
        0x34 => Some(Key::GraterThan),
        0x35 => Some(Key::Slash),
        0x36 => Some(Key::RightShift),
        0x37 => Some(Key::Asterisk),
        0x38 => Some(Key::LeftAlt),
        0x39 => Some(Key::Space),
        0x3a => Some(Key::CapsLock),
        0xe038 => Some(Key::RightAlt),
        0xe01d => Some(Key::RightCtrl),
        _ => None,
    }
}

/// The key with make code `code`, if the driver knows one.
pub fn key_of_code(code: u16) -> (r: Option<Key>)
    ensures
        r == spec_key_of_code(code),
{
    match code {
        0x0 => Some(Key::Null),
        0x1 => Some(Key::Esc),
        0x2 => Some(Key::One),
        0x3 => Some(Key::Two),
        0x4 => Some(Key::Three),
        0x5 => Some(Key::Four),
        0x6 => Some(Key::Five),
        0x7 => Some(Key::Six),
        0x8 => Some(Key::Seven),
        0x9 => Some(Key::Eight),
        0xa => Some(Key::Night),
        0xb => Some(Key::Zero),
        0xc => Some(Key::Dash),
        0xd => Some(Key::Equals),
        0xe => Some(Key::Backspace),
        0xf => Some(Key::Tab),
        0x10 => Some(Key::Q),
        0x11 => Some(Key::W),
        0x12 => Some(Key::E),
        0x13 => Some(Key::R),
        0x14 => Some(Key::T),
        0x15 => Some(Key::Y),
        0x16 => Some(Key::U),
        0x17 => Some(Key::I),
        0x18 => Some(Key::O),
        0x19 => Some(Key::P),
        0x1a => Some(Key::LeftBracket),
        0x1b => Some(Key::RightBracket),
        0x1c => Some(Key::Enter),
        0x1d => Some(Key::LeftCtrl),
        0x1e => Some(Key::A),
        0x1f => Some(Key::S),
        0x20 => Some(Key::D),
        0x21 => Some(Key::F),
        0x22 => Some(Key::G),
        0x23 => Some(Key::H),
        0x24 => Some(Key::J),
        0x25 => Some(Key::K),
        0x26 => Some(Key::L),
        0x27 => Some(Key::Semicolon),
        0x28 => Some(Key::Quote),
        0x29 => Some(Key::Tilde),
        0x2a => Some(Key::LeftShift),
        0x2b => Some(Key::Pipe),
        0x2c => Some(Key::Z),
        0x2d => Some(Key::X),
        0x2e => Some(Key::C),
        0x2f => Some(Key::V),
        0x30 => Some(Key::B),
        0x31 => Some(Key::N),
        0x32 => Some(Key::M),
        0x33 => Some(Key::LessThan),
        0x34 => Some(Key::GraterThan),
        0x35 => Some(Key::Slash),
        0x36 => Some(Key::RightShift),
        0x37 => Some(Key::Asterisk),
        0x38 => Some(Key::LeftAlt),
        0x39 => Some(Key::Space),
        0x3a => Some(Key::CapsLock),
        0xe038 => Some(Key::RightAlt),
        0xe01d => Some(Key::RightCtrl),
        _ => None,
    }
}


/// Whether a scan code reports a key going down or coming up.
#[derive(Debug, PartialEq, Eq, Clone, Copy, Structural)]
pub enum ScanCodeType {
    /// The key was pressed.
    MakeCode,
    /// The key was released.
    BreakCode,
}

/// A decoded scan code.
#[derive(Debug, Clone, Copy, PartialEq, Eq, Structural)]
pub struct KeyCode {
    /// The full scan code, with the 0xE0 prefix in the high byte when there was one.
    pub scan_code: u16,
    pub key: Key,
    pub code_type: ScanCodeType,
    /// The key's character.
    pub char: u8,
    /// The key's upper-case character.
    pub char_cap: u8,
}

/// The make code of a scan code: bit 7 (the break flag) cleared.
pub open spec fn make_code_of(scan_code: u16) -> u16 {
    scan_code & 0xff7f
}

/// Bit 7 of a scan code marks a break code.
pub open spec fn code_type_of(scan_code: u16) -> ScanCodeType {
    if scan_code & 0x0080 != 0 {
        ScanCodeType::BreakCode
    } else {
        ScanCodeType::MakeCode
    }
}

/// What `KeyCode::get_from_scan_code` yields for `scan_code`.
pub open spec fn spec_key_code(scan_code: u16) -> Option<KeyCode> {
    match spec_key_of_code(make_code_of(scan_code)) {
        Some(k) => Some(
            KeyCode {
                scan_code,
                key: k,
                code_type: code_type_of(scan_code),
                char: k.spec_chars().0,
                char_cap: k.spec_chars().1,
            },
        ),
        None => None,
    }
}

impl KeyCode {
    /// The key code of no key.
    pub fn empty() -> (k: Self)
        ensures
            k == (KeyCode { scan_code: 0, key: Key::Null, code_type: ScanCodeType::MakeCode, char: 0, char_cap: 0 }),
    {
        Self { scan_code: 0, key: Key::Null, code_type: ScanCodeType::MakeCode, char: 0, char_cap: 0 }
    }

    pub fn new(scan_code: u16, key: Key, code_type: ScanCodeType, char: u8, char_cap: u8) -> (k: Self)
        ensures
            k == (KeyCode { scan_code, key, code_type, char, char_cap }),
    {
        Self { scan_code, key, code_type, char, char_cap }
    }

    /// Decodes a full scan code: bit 7 says make or break, the rest names the key.
    pub fn get_from_scan_code(scan_code: u16) -> (r: Option<Self>)
        ensures
            r == spec_key_code(scan_code),
    {
        let code_type = if scan_code & 0x0080 != 0 {
            ScanCodeType::BreakCode
        } else {
            ScanCodeType::MakeCode
        };
        let make_code = scan_code & 0xff7f;
        match key_of_code(make_code) {
            Some(key) => {
                let (low_char, high_char) = key.chars();
                Some(KeyCode::new(scan_code, key, code_type, low_char, high_char))
            },
            None => None,
        }
    }
}

} // verus!

verus! {

/// What the key with make code `code` types: its character and, with shift
/// or caps lock, its upper-case character; None where no key has the code.
pub open spec fn typed_by(code: int) -> Option<(u8, u8)> {
    match spec_key_of_code(code as u16) {
        Some(k) => Some(k.spec_chars()),
        None => None,
    }
}

/// Along the keyboard row whose first key has make code `start`, the make
/// codes count up by one and the keys type `lower`, and `upper` when shifted.
pub open spec fn row_types(start: int, lower: Seq<u8>, upper: Seq<u8>) -> bool {
    forall|i: int| 0 <= i < lower.len() ==> #[trigger] typed_by(start + i) == Some((lower[i], upper[i]))
}

/// The US keyboard layout: the number row (from make code 0x02), the three
/// letter rows (from 0x10, 0x1E and 0x2B) and the space bar (0x39) type
/// what is printed on their keys, in ASCII: `1234567890-=` (shifted
/// `!@#$%^&*()_+`), `qwertyuiop[]` (`QWERTYUIOP{}`), `asdfghjkl;'` and the
/// back tick (`ASDFGHJKL:"~`), a backslash and `zxcvbnm,./` (`|ZXCVBNM<>?`),
/// and a space.
pub proof fn lemma_keyboard_rows()
    ensures
        row_types(
            0x02,
            seq![0x31u8, 0x32u8, 0x33u8, 0x34u8, 0x35u8, 0x36u8, 0x37u8, 0x38u8, 0x39u8, 0x30u8, 0x2du8, 0x3du8],
            seq![0x21u8, 0x40u8, 0x23u8, 0x24u8, 0x25u8, 0x5eu8, 0x26u8, 0x2au8, 0x28u8, 0x29u8, 0x5fu8, 0x2bu8],
        ),
        row_types(
            0x10,
            seq![0x71u8, 0x77u8, 0x65u8, 0x72u8, 0x74u8, 0x79u8, 0x75u8, 0x69u8, 0x6fu8, 0x70u8, 0x5bu8, 0x5du8],
            seq![0x51u8, 0x57u8, 0x45u8, 0x52u8, 0x54u8, 0x59u8, 0x55u8, 0x49u8, 0x4fu8, 0x50u8, 0x7bu8, 0x7du8],
        ),
        row_types(
            0x1e,
            seq![0x61u8, 0x73u8, 0x64u8, 0x66u8, 0x67u8, 0x68u8, 0x6au8, 0x6bu8, 0x6cu8, 0x3bu8, 0x27u8, 0x60u8],
            seq![0x41u8, 0x53u8, 0x44u8, 0x46u8, 0x47u8, 0x48u8, 0x4au8, 0x4bu8, 0x4cu8, 0x3au8, 0x22u8, 0x7eu8],
        ),
        row_types(
            0x2b,
            seq![0x5cu8, 0x7au8, 0x78u8, 0x63u8, 0x76u8, 0x62u8, 0x6eu8, 0x6du8, 0x2cu8, 0x2eu8, 0x2fu8],
            seq![0x7cu8, 0x5au8, 0x58u8, 0x43u8, 0x56u8, 0x42u8, 0x4eu8, 0x4du8, 0x3cu8, 0x3eu8, 0x3fu8],
        ),
        typed_by(0x39) == Some((0x20u8, 0x20u8)),
{
    let n1 = seq![0x31u8, 0x32u8, 0x33u8, 0x34u8, 0x35u8, 0x36u8, 0x37u8, 0x38u8, 0x39u8, 0x30u8, 0x2du8, 0x3du8];
    let s1 = seq![0x21u8, 0x40u8, 0x23u8, 0x24u8, 0x25u8, 0x5eu8, 0x26u8, 0x2au8, 0x28u8, 0x29u8, 0x5fu8, 0x2bu8];
    assert forall|i: int| 0 <= i < n1.len() implies #[trigger] typed_by(0x02 + i) == Some((n1[i], s1[i])) by {
        assert(i == 0 || i == 1 || i == 2 || i == 3 || i == 4 || i == 5 || i == 6 || i == 7 || i == 8 || i == 9
            || i == 10 || i == 11);
    }
    let n2 = seq![0x71u8, 0x77u8, 0x65u8, 0x72u8, 0x74u8, 0x79u8, 0x75u8, 0x69u8, 0x6fu8, 0x70u8, 0x5bu8, 0x5du8];
    let s2 = seq![0x51u8, 0x57u8, 0x45u8, 0x52u8, 0x54u8, 0x59u8, 0x55u8, 0x49u8, 0x4fu8, 0x50u8, 0x7bu8, 0x7du8];
    assert forall|i: int| 0 <= i < n2.len() implies #[trigger] typed_by(0x10 + i) == Some((n2[i], s2[i])) by {
        assert(i == 0 || i == 1 || i == 2 || i == 3 || i == 4 || i == 5 || i == 6 || i == 7 || i == 8 || i == 9
            || i == 10 || i == 11);
    }
    let n3 = seq![0x61u8, 0x73u8, 0x64u8, 0x66u8, 0x67u8, 0x68u8, 0x6au8, 0x6bu8, 0x6cu8, 0x3bu8, 0x27u8, 0x60u8];
    let s3 = seq![0x41u8, 0x53u8, 0x44u8, 0x46u8, 0x47u8, 0x48u8, 0x4au8, 0x4bu8, 0x4cu8, 0x3au8, 0x22u8, 0x7eu8];
    assert forall|i: int| 0 <= i < n3.len() implies #[trigger] typed_by(0x1e + i) == Some((n3[i], s3[i])) by {
        assert(i == 0 || i == 1 || i == 2 || i == 3 || i == 4 || i == 5 || i == 6 || i == 7 || i == 8 || i == 9
            || i == 10 || i == 11);
    }
    let n4 = seq![0x5cu8, 0x7au8, 0x78u8, 0x63u8, 0x76u8, 0x62u8, 0x6eu8, 0x6du8, 0x2cu8, 0x2eu8, 0x2fu8];
    let s4 = seq![0x7cu8, 0x5au8, 0x58u8, 0x43u8, 0x56u8, 0x42u8, 0x4eu8, 0x4du8, 0x3cu8, 0x3eu8, 0x3fu8];
    assert forall|i: int| 0 <= i < n4.len() implies #[trigger] typed_by(0x2b + i) == Some((n4[i], s4[i])) by {
        assert(i == 0 || i == 1 || i == 2 || i == 3 || i == 4 || i == 5 || i == 6 || i == 7 || i == 8 || i == 9
            || i == 10);
    }
}

/// Make codes and keys match one to one: looking up a key's make code finds
/// that key, and a key found for a code has that code as its make code.
pub proof fn lemma_key_code_inverse(k: Key, code: u16)
    ensures
        spec_key_of_code(k.spec_code()) == Some(k),
        spec_key_of_code(code) matches Some(j) ==> j.spec_code() == code,
{
}

/// Shift turns a letter to its capital: a key that types a lower-case
/// letter types the same letter in upper case when shifted.
pub proof fn lemma_letters_capitalise(code: int)
    ensures
        match typed_by(code) {
            Some((l, u)) => 0x61u8 <= l <= 0x7au8 ==> u == l - 0x20,
            None => true,
        },
{
}

/// The letter keys in alphabetical order.
pub open spec fn letter_keys() -> Seq<Key> {
    seq![Key::A, Key::B, Key::C, Key::D, Key::E, Key::F, Key::G, Key::H, Key::I, Key::J, Key::K, Key::L, Key::M, Key::N, Key::O, Key::P, Key::Q, Key::R, Key::S, Key::T, Key::U, Key::V, Key::W, Key::X, Key::Y, Key::Z]
}

/// The digit keys in the order of their digits, `0` to `9`.
pub open spec fn digit_keys() -> Seq<Key> {
    seq![Key::Zero, Key::One, Key::Two, Key::Three, Key::Four, Key::Five, Key::Six, Key::Seven, Key::Eight, Key::Night]
}

/// Each letter key types its own letter: the `i`-th letter of the
/// alphabet in lower case, and in upper case when shifted. Each digit key
/// types its digit.
pub proof fn lemma_keys_type_their_letters()
    ensures
        forall|i: int|
            0 <= i < 26 ==> #[trigger] letter_keys()[i].spec_chars() == ((0x61 + i) as u8, (0x41 + i) as u8),
        forall|i: int| 0 <= i < 10 ==> (#[trigger] digit_keys()[i].spec_chars()).0 == (0x30 + i) as u8,
{
    assert forall|i: int| 0 <= i < 26 implies #[trigger] letter_keys()[i].spec_chars() == ((0x61 + i) as u8, (0x41 + i) as u8) by {
        assert(i == 0 || i == 1 || i == 2 || i == 3 || i == 4 || i == 5 || i == 6 || i == 7 || i == 8 || i == 9 || i == 10 || i == 11 || i == 12 || i == 13 || i == 14 || i == 15 || i == 16 || i == 17 || i == 18 || i == 19 || i == 20 || i == 21 || i == 22 || i == 23 || i == 24 || i == 25);
    }
    assert forall|i: int| 0 <= i < 10 implies (#[trigger] digit_keys()[i].spec_chars()).0 == (0x30 + i) as u8 by {
        assert(i == 0 || i == 1 || i == 2 || i == 3 || i == 4 || i == 5 || i == 6 || i == 7 || i == 8 || i == 9);
    }
}

/// The keys outside the printed rows: Esc (make code 0x01), Backspace
/// (0x0E), Tab (0x0F) and Enter (0x1C) type the ASCII control characters
/// ESC, BS, HT and CR; the left Ctrl (0x1D), left Shift (0x2A), right Shift
/// (0x36), left Alt (0x38) and Caps Lock (0x3A) keys are where the
/// keyboard has them; the keypad `*` (0x37) types `*`; the right Alt and
/// Ctrl keys have the codes of the left ones behind the 0xE0 prefix and
/// type what those type.
pub proof fn lemma_special_keys()
    ensures
        spec_key_of_code(0x01) == Some(Key::Esc) && Key::Esc.spec_chars() == (0x1bu8, 0x1bu8),
        spec_key_of_code(0x0e) == Some(Key::Backspace) && Key::Backspace.spec_chars() == (0x08u8, 0x08u8),
        spec_key_of_code(0x0f) == Some(Key::Tab) && Key::Tab.spec_chars() == (0x09u8, 0x09u8),
        spec_key_of_code(0x1c) == Some(Key::Enter) && Key::Enter.spec_chars() == (0x0du8, 0x0du8),
        spec_key_of_code(0x1d) == Some(Key::LeftCtrl),
        spec_key_of_code(0x2a) == Some(Key::LeftShift),
        spec_key_of_code(0x36) == Some(Key::RightShift),
        spec_key_of_code(0x37) == Some(Key::Asterisk) && Key::Asterisk.spec_chars() == (0x2au8, 0x2au8),
        spec_key_of_code(0x38) == Some(Key::LeftAlt),
        spec_key_of_code(0x3a) == Some(Key::CapsLock),
        Key::RightAlt.spec_code() == 0xe000 + Key::LeftAlt.spec_code(),
        Key::RightCtrl.spec_code() == 0xe000 + Key::LeftCtrl.spec_code(),
        Key::RightAlt.spec_chars() == Key::LeftAlt.spec_chars(),
        Key::RightCtrl.spec_chars() == Key::LeftCtrl.spec_chars(),
        spec_key_of_code(0x00) == Some(Key::Null) && Key::Null.spec_chars() == (0u8, 0u8),
{
}

/// A key sends its make code when pressed and the make code with bit 7 set
/// when released: both decode to that key and its characters, the one as a
/// press and the other as a release.
pub proof fn lemma_make_and_break(c: u16)
    requires
        c & 0x80 == 0,
    ensures
        spec_key_code(c) is Some <==> spec_key_of_code(c) is Some,
        spec_key_code(c | 0x80) is Some <==> spec_key_of_code(c) is Some,
        spec_key_code(c) matches Some(m) ==> m.scan_code == c && m.code_type == ScanCodeType::MakeCode && Some(m.key)
            == spec_key_of_code(c) && (m.char, m.char_cap) == m.key.spec_chars(),
        spec_key_code(c | 0x80) matches Some(b) ==> b.scan_code == c | 0x80 && b.code_type == ScanCodeType::BreakCode
            && Some(b.key) == spec_key_of_code(c) && (b.char, b.char_cap) == b.key.spec_chars(),
{
    assert(c & 0xff7f == c && (c | 0x80) & 0xff7f == c && (c | 0x80) & 0x0080 != 0 && c & 0x0080 == 0) by (bit_vector)
        requires
            c & 0x80 == 0,
    ;
}

} // verus!
