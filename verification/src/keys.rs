//! The keys that can be tracked, and how each is drawn.

use vstd::prelude::*;

verus! {

/// A key of the keyboard.
#[derive(Clone, Copy, Debug, PartialEq, Eq, Hash, Structural)]
pub enum Key {
    // The digit row.
    Key0,
    Key1,
    Key2,
    Key3,
    Key4,
    Key5,
    Key6,
    Key7,
    Key8,
    Key9,
    // Letters.
    A,
    B,
    C,
    D,
    E,
    F,
    G,
    H,
    I,
    J,
    K,
    L,
    M,
    N,
    O,
    P,
    Q,
    R,
    S,
    T,
    U,
    V,
    W,
    X,
    Y,
    Z,
    // Function keys.
    F1,
    F2,
    F3,
    F4,
    F5,
    F6,
    F7,
    F8,
    F9,
    F10,
    F11,
    F12,
    // Control and navigation keys.
    Escape,
    Space,
    LControl,
    RControl,
    LShift,
    RShift,
    LAlt,
    RAlt,
    Meta,
    Enter,
    Up,
    Down,
    Left,
    Right,
    Backspace,
    CapsLock,
    Tab,
    Home,
    End,
    PageUp,
    PageDown,
    Insert,
    Delete,
    // The number pad.
    Numpad0,
    Numpad1,
    Numpad2,
    Numpad3,
    Numpad4,
    Numpad5,
    Numpad6,
    Numpad7,
    Numpad8,
    Numpad9,
    NumpadSubtract,
    NumpadAdd,
    NumpadDivide,
    NumpadMultiply,
    // Punctuation, named by position on a US keyboard.
    Grave,
    Minus,
    Equal,
    LeftBracket,
    RightBracket,
    BackSlash,
    Semicolon,
    Apostrophe,
    Comma,
    Dot,
    Slash,
}

/// How a tracked key is drawn.
#[derive(Clone, Copy, Debug, PartialEq, Eq, Structural)]
pub enum DisplayChar {
    /// The character, upright.
    Simple(char),
    /// The character, turned clockwise by the given number of quarter turns.
    Rotated(i8, char),
}

/// A tracked key together with its display form.
#[derive(Clone, Copy, Debug, PartialEq, Eq, Structural)]
pub struct DisplayableAction {
    pub key: Key,
    pub display_char: DisplayChar,
}

/// The character that stands for a key, for the keys that have one. The
/// four arrows share one character and differ by rotation.
pub open spec fn glyph(key: Key) -> Option<char> {
    match key {
        Key::Key0 => Some('0'),
        Key::Key1 => Some('1'),
        Key::Key2 => Some('2'),
        Key::Key3 => Some('3'),
        Key::Key4 => Some('4'),
        Key::Key5 => Some('5'),
        Key::Key6 => Some('6'),
        Key::Key7 => Some('7'),
        Key::Key8 => Some('8'),
        Key::Key9 => Some('9'),
        Key::A => Some('A'),
        Key::B => Some('B'),
        Key::C => Some('C'),
        Key::D => Some('D'),
        Key::E => Some('E'),
        Key::F => Some('F'),
        Key::G => Some('G'),
        Key::H => Some('H'),
        Key::I => Some('I'),
        Key::J => Some('J'),
        Key::K => Some('K'),
        Key::L => Some('L'),
        Key::M => Some('M'),
        Key::N => Some('N'),
        Key::O => Some('O'),
        Key::P => Some('P'),
        Key::Q => Some('Q'),
        Key::R => Some('R'),
        Key::S => Some('S'),
        Key::T => Some('T'),
        Key::U => Some('U'),
        Key::V => Some('V'),
        Key::W => Some('W'),
        Key::X => Some('X'),
        Key::Y => Some('Y'),
        Key::Z => Some('Z'),
        Key::Up => Some('^'),
        Key::Down => Some('^'),
        Key::Left => Some('^'),
        Key::Right => Some('^'),
        Key::Numpad0 => Some('0'),
        Key::Numpad1 => Some('1'),
        Key::Numpad2 => Some('2'),
        Key::Numpad3 => Some('3'),
        Key::Numpad4 => Some('4'),
        Key::Numpad5 => Some('5'),
        Key::Numpad6 => Some('6'),
        Key::Numpad7 => Some('7'),
        Key::Numpad8 => Some('8'),
        Key::Numpad9 => Some('9'),
        Key::NumpadSubtract => Some('-'),
        Key::NumpadAdd => Some('+'),
        Key::NumpadDivide => Some('/'),
        Key::NumpadMultiply => Some('*'),
        Key::Grave => Some('`'),
        Key::Minus => Some('-'),
        Key::Equal => Some('='),
        Key::LeftBracket => Some('['),
        Key::RightBracket => Some(']'),
        Key::BackSlash => Some('\\'),
        Key::Semicolon => Some(':'),
        Key::Apostrophe => Some('\''),
        Key::Comma => Some(','),
        Key::Dot => Some('.'),
        Key::Slash => Some('/'),
        _ => None,
    }
}

/// By how many quarter turns, clockwise, a key's character is turned: the
/// arrows point their way, everything else stands upright.
pub open spec fn quarter_turns(key: Key) -> int {
    match key {
        Key::Down => 2,
        Key::Left => -1,
        Key::Right => 1,
        _ => 0,
    }
}

/// The display form of a key that has a character.
pub open spec fn display_of(key: Key) -> Option<DisplayChar> {
    match glyph(key) {
        None => None,
        Some(c) => if quarter_turns(key) != 0 {
            Some(DisplayChar::Rotated(quarter_turns(key) as i8, c))
        } else {
            Some(DisplayChar::Simple(c))
        },
    }
}

/// The character that stands for a key, or `None` for a key that cannot be
/// displayed.
pub fn keycode_to_char(keycode: &Key) -> (c: Option<char>)
    ensures
        c == glyph(*keycode),
{
    match keycode {
        Key::Key0 => Some('0'),
        Key::Key1 => Some('1'),
        Key::Key2 => Some('2'),
        Key::Key3 => Some('3'),
        Key::Key4 => Some('4'),
        Key::Key5 => Some('5'),
        Key::Key6 => Some('6'),
        Key::Key7 => Some('7'),
        Key::Key8 => Some('8'),
        Key::Key9 => Some('9'),
        Key::A => Some('A'),
        Key::B => Some('B'),
        Key::C => Some('C'),
        Key::D => Some('D'),
        Key::E => Some('E'),
        Key::F => Some('F'),
        Key::G => Some('G'),
        Key::H => Some('H'),
        Key::I => Some('I'),
        Key::J => Some('J'),
        Key::K => Some('K'),
        Key::L => Some('L'),
        Key::M => Some('M'),
        Key::N => Some('N'),
        Key::O => Some('O'),
        Key::P => Some('P'),
        Key::Q => Some('Q'),
        Key::R => Some('R'),
        Key::S => Some('S'),
        Key::T => Some('T'),
        Key::U => Some('U'),
        Key::V => Some('V'),
        Key::W => Some('W'),
        Key::X => Some('X'),
        Key::Y => Some('Y'),
        Key::Z => Some('Z'),
        Key::Up => Some('^'),
        Key::Down => Some('^'),
        Key::Left => Some('^'),
        Key::Right => Some('^'),
        Key::Numpad0 => Some('0'),
        Key::Numpad1 => Some('1'),
        Key::Numpad2 => Some('2'),
        Key::Numpad3 => Some('3'),
        Key::Numpad4 => Some('4'),
        Key::Numpad5 => Some('5'),
        Key::Numpad6 => Some('6'),
        Key::Numpad7 => Some('7'),
        Key::Numpad8 => Some('8'),
        Key::Numpad9 => Some('9'),
        Key::NumpadSubtract => Some('-'),
        Key::NumpadAdd => Some('+'),
        Key::NumpadDivide => Some('/'),
        Key::NumpadMultiply => Some('*'),
        Key::Grave => Some('`'),
        Key::Minus => Some('-'),
        Key::Equal => Some('='),
        Key::LeftBracket => Some('['),
        Key::RightBracket => Some(']'),
        Key::BackSlash => Some('\\'),
        Key::Semicolon => Some(':'),
        Key::Apostrophe => Some('\''),
        Key::Comma => Some(','),
        Key::Dot => Some('.'),
        Key::Slash => Some('/'),
        _ => None,
    }
}

/// The display form of a key, or `None` for a key that cannot be displayed.
pub fn display_char(key: &Key) -> (display: Option<DisplayChar>)
    ensures
        display == display_of(*key),
{
    let turns: i8 = match key {
        Key::Down => 2,
        Key::Left => -1,
        Key::Right => 1,
        _ => 0,
    };
    match keycode_to_char(key) {
        None => None,
        Some(c) => if turns != 0 {
            Some(DisplayChar::Rotated(turns, c))
        } else {
            Some(DisplayChar::Simple(c))
        },
    }
}

/// Whether every key of `keys` can be displayed.
pub open spec fn all_displayable(keys: Seq<Key>) -> bool {
    forall|i: int| 0 <= i < keys.len() ==> glyph(#[trigger] keys[i]) is Some
}

/// The display form of every key to track, in order; `None` if one of them
/// cannot be displayed.
pub fn create_actions(keys_to_track: &Vec<Key>) -> (actions: Option<Vec<DisplayableAction>>)
    ensures
        actions is Some <==> all_displayable(keys_to_track@),
        actions matches Some(a) ==> {
            &&& a@.len() == keys_to_track@.len()
            &&& forall|i: int|
                0 <= i < a@.len() ==> (#[trigger] a@[i]).key == keys_to_track@[i] && Some(
                    a@[i].display_char,
                ) == display_of(keys_to_track@[i])
        },
{
    let mut actions: Vec<DisplayableAction> = Vec::new();
    let mut idx: usize = 0;
    while idx < keys_to_track.len()
        invariant
            idx <= keys_to_track.len(),
            actions@.len() == idx,
            forall|i: int| 0 <= i < idx ==> glyph(#[trigger] keys_to_track@[i]) is Some,
            forall|i: int|
                0 <= i < idx ==> (#[trigger] actions@[i]).key == keys_to_track@[i] && Some(
                    actions@[i].display_char,
                ) == display_of(keys_to_track@[i]),
        decreases keys_to_track.len() - idx,
    {
        let key = keys_to_track[idx];
        match display_char(&key) {
            None => {
                return None;
            },
            Some(display) => {
                actions.push(DisplayableAction { key, display_char: display });
            },
        }
        idx += 1;
    }
    Some(actions)
}

/// Whether `key` is among `keys`.
pub fn holds_key(keys: &Vec<Key>, key: Key) -> (found: bool)
    ensures
        found <==> keys@.contains(key),
{
    let mut i: usize = 0;
    while i < keys.len()
        invariant
            i <= keys.len(),
            forall|k: int| 0 <= k < i ==> keys@[k] != key,
        decreases keys.len() - i,
    {
        if keys[i] == key {
            return true;
        }
        i += 1;
    }
    false
}

} // verus!
