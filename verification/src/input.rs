//! What the player can ask for, and which key asks for it.

use vstd::prelude::*;

verus! {

/// What the player asks for in a tick.
#[derive(Copy, Clone, Debug, PartialEq, Eq, Structural)]
pub enum Intent {
    MoveLeft,
    MoveRight,
    RotateClockwise,
    SoftDrop,
    HardDrop,
    Quit,
}

/// A key of the keyboard, as far as the game tells keys apart.
#[derive(Copy, Clone, Debug, PartialEq, Eq, Structural)]
pub enum Key {
    Esc,
    Left,
    Right,
    Up,
    Down,
    Char(char),
    Other,
}

/// What a key asks for: the arrows and `h`, `l`, `k`, `j` move, turn and
/// drop the piece, the space bar drops it hard, and escape quits. Any other
/// key asks for nothing.
pub open spec fn intent_of(key: Key) -> Option<Intent> {
    match key {
        Key::Esc => Some(Intent::Quit),
        Key::Left => Some(Intent::MoveLeft),
        Key::Right => Some(Intent::MoveRight),
        Key::Up => Some(Intent::RotateClockwise),
        Key::Down => Some(Intent::SoftDrop),
        Key::Char(c) => if c == ' ' {
            Some(Intent::HardDrop)
        } else if c == 'h' {
            Some(Intent::MoveLeft)
        } else if c == 'l' {
            Some(Intent::MoveRight)
        } else if c == 'k' {
            Some(Intent::RotateClockwise)
        } else if c == 'j' {
            Some(Intent::SoftDrop)
        } else {
            None
        },
        Key::Other => None,
    }
}

impl Intent {
    /// What the key `key` asks for, if anything.
    pub fn from_key(key: Key) -> (intent: Option<Intent>)
        ensures
            intent == intent_of(key),
    {
        match key {
            Key::Esc => Some(Intent::Quit),
            Key::Left => Some(Intent::MoveLeft),
            Key::Right => Some(Intent::MoveRight),
            Key::Up => Some(Intent::RotateClockwise),
            Key::Down => Some(Intent::SoftDrop),
            Key::Char(' ') => Some(Intent::HardDrop),
            Key::Char('h') => Some(Intent::MoveLeft),
            Key::Char('l') => Some(Intent::MoveRight),
            Key::Char('k') => Some(Intent::RotateClockwise),
            Key::Char('j') => Some(Intent::SoftDrop),
            _ => None,
        }
    }
}

} // verus!
