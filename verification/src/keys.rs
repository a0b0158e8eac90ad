//! Key presses and the bytes that a terminal sends for them.

use vstd::prelude::*;
use vstd::utf8::encode_utf8;

verus! {

/// Which key was pressed.
#[derive(Clone, Copy, Debug, PartialEq, Eq, Structural)]
pub enum KeyCode {
    Char(char),
    Enter,
    Backspace,
    Tab,
    Esc,
    Up,
    Down,
    Left,
    Right,
    Home,
    End,
    PageUp,
    PageDown,
    Delete,
    /// Any other key.
    Other,
}

/// A key press: the key, and whether Control was held.
#[derive(Clone, Copy, Debug, PartialEq, Eq, Structural)]
pub struct KeyEvent {
    pub code: KeyCode,
    pub control: bool,
}

/// The bytes that a terminal sends for a key press. A character goes as its
/// UTF-8 encoding; with Control, a lowercase letter of ASCII goes as its place
/// in the alphabet and any other character as nothing; the named keys go as
/// their control character or escape sequence; any other key as nothing.
pub open spec fn key_bytes(key: KeyEvent) -> Seq<u8> {
    match key.code {
        KeyCode::Char(c) => if key.control {
            if 'a' <= c <= 'z' {
                seq![(c as u8 - 0x61 + 1) as u8]
            } else {
                Seq::empty()
            }
        } else {
            encode_utf8(seq![c])
        },
        KeyCode::Enter => seq![0x0du8],
        KeyCode::Backspace => seq![0x7fu8],
        KeyCode::Tab => seq![0x09u8],
        KeyCode::Esc => seq![0x1bu8],
        KeyCode::Up => seq![0x1bu8, 0x5bu8, 0x41u8],
        KeyCode::Down => seq![0x1bu8, 0x5bu8, 0x42u8],
        KeyCode::Right => seq![0x1bu8, 0x5bu8, 0x43u8],
        KeyCode::Left => seq![0x1bu8, 0x5bu8, 0x44u8],
        KeyCode::Home => seq![0x1bu8, 0x5bu8, 0x48u8],
        KeyCode::End => seq![0x1bu8, 0x5bu8, 0x46u8],
        KeyCode::PageUp => seq![0x1bu8, 0x5bu8, 0x35u8, 0x7eu8],
        KeyCode::PageDown => seq![0x1bu8, 0x5bu8, 0x36u8, 0x7eu8],
        KeyCode::Delete => seq![0x1bu8, 0x5bu8, 0x33u8, 0x7eu8],
        KeyCode::Other => Seq::empty(),
    }
}

/// The UTF-8 encoding of one character.
fn char_bytes(c: char) -> (bytes: Vec<u8>)
    ensures
        bytes@ == encode_utf8(seq![c]),
{
    let mut s = String::new();
    s.push(c);
    assert(s@ =~= seq![c]);
    s.as_str().as_bytes_vec()
}

/// The bytes that a terminal sends for a key press.
pub fn key_to_bytes(key: KeyEvent) -> (bytes: Vec<u8>)
    ensures
        bytes@ == key_bytes(key),
{
    let bytes: Vec<u8> = match key.code {
        KeyCode::Char(c) => {
            if key.control {
                if 'a' <= c && c <= 'z' {
                    vec![(c as u8) - 0x61 + 1]
                } else {
                    Vec::new()
                }
            } else {
                char_bytes(c)
            }
        },
        KeyCode::Enter => vec![0x0du8],
        KeyCode::Backspace => vec![0x7fu8],
        KeyCode::Tab => vec![0x09u8],
        KeyCode::Esc => vec![0x1bu8],
        KeyCode::Up => vec![0x1bu8, 0x5bu8, 0x41u8],
        KeyCode::Down => vec![0x1bu8, 0x5bu8, 0x42u8],
        KeyCode::Right => vec![0x1bu8, 0x5bu8, 0x43u8],
        KeyCode::Left => vec![0x1bu8, 0x5bu8, 0x44u8],
        KeyCode::Home => vec![0x1bu8, 0x5bu8, 0x48u8],
        KeyCode::End => vec![0x1bu8, 0x5bu8, 0x46u8],
        KeyCode::PageUp => vec![0x1bu8, 0x5bu8, 0x35u8, 0x7eu8],
        KeyCode::PageDown => vec![0x1bu8, 0x5bu8, 0x36u8, 0x7eu8],
        KeyCode::Delete => vec![0x1bu8, 0x5bu8, 0x33u8, 0x7eu8],
        KeyCode::Other => Vec::new(),
    };
    assert(bytes@ =~= key_bytes(key));
    bytes
}

} // verus!
