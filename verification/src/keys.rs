use vstd::prelude::*;

verus! {

/// A key as the terminal reports it.
#[derive(Debug, Clone, Copy, PartialEq, Eq, Structural)]
pub enum KeyCode {
    Backspace,
    Enter,
    Left,
    Right,
    Up,
    Down,
    Home,
    End,
    PageUp,
    PageDown,
    Tab,
    BackTab,
    Delete,
    Insert,
    F(u8),
    Char(char),
    Null,
    Esc,
    CapsLock,
    ScrollLock,
    NumLock,
    PrintScreen,
    Pause,
    Menu,
    KeypadBegin,
    Other,
}

/// The modifier keys held with a key, as a bit set.
#[derive(Debug, Clone, Copy, PartialEq, Eq, Structural)]
pub struct KeyModifiers {
    pub bits: u8,
}

/// No modifier.
pub const MOD_NONE: u8 = 0;

/// The Shift bit.
pub const MOD_SHIFT: u8 = 1;

/// The Control bit.
pub const MOD_CONTROL: u8 = 2;

/// The Alt bit.
pub const MOD_ALT: u8 = 4;

/// The Super bit.
pub const MOD_SUPER: u8 = 8;

/// The Hyper bit.
pub const MOD_HYPER: u8 = 16;

/// The Meta bit.
pub const MOD_META: u8 = 32;

impl KeyModifiers {
    pub fn none() -> (m: KeyModifiers)
        ensures
            m.bits == MOD_NONE,
    {
        KeyModifiers { bits: MOD_NONE }
    }

    pub fn shift() -> (m: KeyModifiers)
        ensures
            m.bits == MOD_SHIFT,
    {
        KeyModifiers { bits: MOD_SHIFT }
    }

    pub fn control() -> (m: KeyModifiers)
        ensures
            m.bits == MOD_CONTROL,
    {
        KeyModifiers { bits: MOD_CONTROL }
    }

    pub fn alt() -> (m: KeyModifiers)
        ensures
            m.bits == MOD_ALT,
    {
        KeyModifiers { bits: MOD_ALT }
    }

    /// The modifiers held in either set.
    pub fn union(self, other: KeyModifiers) -> (m: KeyModifiers)
        ensures
            m.bits == self.bits | other.bits,
    {
        KeyModifiers { bits: self.bits | other.bits }
    }

    /// Whether every modifier of `other` is held in `self`.
    pub open spec fn spec_contains(self, other: KeyModifiers) -> bool {
        self.bits & other.bits == other.bits
    }

    pub fn contains(self, other: KeyModifiers) -> (b: bool)
        ensures
            b == self.spec_contains(other),
    {
        self.bits & other.bits == other.bits
    }
}

/// A key together with its modifiers.
#[derive(Debug, Clone, Copy, PartialEq, Eq, Structural)]
pub struct KeyEvent {
    pub code: KeyCode,
    pub modifiers: KeyModifiers,
}

/// Whether `c` is a control character (`char::is_control`: the Unicode
/// general category Cc, which is U+0000..U+001F and U+007F..U+009F).
pub open spec fn is_control_char(c: char) -> bool {
    (c as u32) < 0x20 || (0x7f <= (c as u32) && (c as u32) <= 0x9f)
}

pub fn is_control(c: char) -> (b: bool)
    ensures
        b == is_control_char(c),
{
    let v = c as u32;
    v < 0x20 || (0x7f <= v && v <= 0x9f)
}

/// Whether `c` is one of the ASCII digits `0`..`9`.
pub open spec fn is_digit_char(c: char) -> bool {
    '0' <= c && c <= '9'
}

pub fn is_ascii_digit(c: char) -> (b: bool)
    ensures
        b == is_digit_char(c),
{
    '0' <= c && c <= '9'
}

} // verus!
