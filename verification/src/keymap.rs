//! Input mapper: translates a key press into exactly one command.

use vstd::prelude::*;

verus! {

/// A key press as delivered by the terminal, reduced to what the viewer
/// reacts to: the four arrow keys and printable characters.
#[derive(Clone, Copy, PartialEq, Eq, Structural, Debug)]
pub enum Key {
    Up,
    Down,
    Left,
    Right,
    Char(char),
}

/// The command a key press maps to. Every key maps to exactly one command;
/// keys without a binding map to `Noop`.
#[derive(Clone, Copy, PartialEq, Eq, Structural, Debug)]
pub enum Command {
    MoveUp,
    MoveDown,
    FocusRight,
    FocusLeft,
    Quit,
    CopySelectedPath,
    Noop,
}

/// The key binding table: up/down move the active cursor, right enters the
/// paths pane, left returns to the records pane, `q` quits, `c` copies the
/// selected path.
pub open spec fn spec_map_key(key: Key) -> Command {
    match key {
        Key::Up => Command::MoveUp,
        Key::Down => Command::MoveDown,
        Key::Right => Command::FocusRight,
        Key::Left => Command::FocusLeft,
        Key::Char(c) => if c == 'q' {
            Command::Quit
        } else if c == 'c' {
            Command::CopySelectedPath
        } else {
            Command::Noop
        },
    }
}

/// Pure key dispatch; returns the command bound to `key`.
pub fn map_key(key: Key) -> (cmd: Command)
    ensures
        cmd == spec_map_key(key),
{
    match key {
        Key::Up => Command::MoveUp,
        Key::Down => Command::MoveDown,
        Key::Right => Command::FocusRight,
        Key::Left => Command::FocusLeft,
        Key::Char(c) => if c == 'q' {
            Command::Quit
        } else if c == 'c' {
            Command::CopySelectedPath
        } else {
            Command::Noop
        },
    }
}

} // verus!
