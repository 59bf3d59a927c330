//! Escape sequences for driving a terminal, and the keys read back from it.

pub mod ansi;
pub mod kitty;
pub mod xterm;

use vstd::prelude::*;

verus! {

/// The direction of an arrow key.
#[derive(Debug, Copy, Clone, PartialEq, Eq, Structural)]
pub enum ArrowDirection {
    Up,
    Down,
    Left,
    Right,
}

/// One keystroke.
#[derive(Debug, Copy, Clone, PartialEq, Eq, Structural)]
pub enum Key {
    Ascii(char),
    Control(char),
    Delete,
    Newline,
    Escape,
    Arrow(ArrowDirection),
    Invalid(u8),
}

/// Starts a fresh line: scroll by one, move down by one, erase the whole
/// line, return to the first column.
pub fn newline() -> (s: String)
    ensures
        s@ == ansi::control_sequence(seq![1usize], 'S') + ansi::control_sequence(
            seq![1usize],
            'B',
        ) + ansi::control_sequence(seq![2usize], 'K') + ansi::control_sequence(seq![1usize], 'G'),
{
    let mut s = ansi::scroll_down(1);
    let down = ansi::cursor_down(1);
    s.append(down.as_str());
    let erased = ansi::erase_line(ansi::ClearType::Everything);
    s.append(erased.as_str());
    let column = ansi::cursor_column(1);
    s.append(column.as_str());
    s
}

} // verus!
