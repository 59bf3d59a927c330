//! Kitty's extensions to the xterm protocol: styled and coloured underlines.

use crate::term::ansi::{
    control_sequence, literal_sequence, render_literal, render_sequence, Color,
};
use vstd::prelude::*;

verus! {

/// The style of an underline.
#[derive(Debug, Copy, Clone, PartialEq, Eq, Structural)]
pub enum Underline {
    Off,
    Straight,
    Double,
    Curly,
    Dotted,
    Dashed,
}

impl Underline {
    /// The digit that stands for this style after `4:`.
    pub open spec fn style_digit(self) -> char {
        match self {
            Underline::Off => '0',
            Underline::Straight => '1',
            Underline::Double => '2',
            Underline::Curly => '3',
            Underline::Dotted => '4',
            Underline::Dashed => '5',
        }
    }
}

/// The parameters that select `c` as the underline's colour.
pub open spec fn underline_color_parameters(c: Color) -> Seq<usize> {
    match c {
        Color::Index(i) => seq![58usize, 5usize, i as usize],
        Color::Rgb(r, g, b) => seq![58usize, 2usize, r as usize, g as usize, b as usize],
    }
}

/// Selects the underline style `u`.
pub fn set_underline(u: Underline) -> (s: String)
    ensures
        s@ == literal_sequence(seq!['4', ':', u.style_digit()], 'm'),
{
    let digit = match u {
        Underline::Off => '0',
        Underline::Straight => '1',
        Underline::Double => '2',
        Underline::Curly => '3',
        Underline::Dotted => '4',
        Underline::Dashed => '5',
    };
    render_literal(&vec!['4', ':', digit], 'm')
}

/// Selects the underline colour `x`.
pub fn set_underline_color(x: Color) -> (s: String)
    ensures
        s@ == control_sequence(underline_color_parameters(x), 'm'),
{
    match x {
        Color::Index(i) => render_sequence(&vec![58, 5, i as usize], 'm'),
        Color::Rgb(r, g, b) => render_sequence(
            &vec![58, 2, r as usize, g as usize, b as usize],
            'm',
        ),
    }
}

/// Puts the underline colour back to the default.
pub fn reset_underline_color() -> (s: String)
    ensures
        s@ == control_sequence(seq![59usize], 'm'),
{
    render_sequence(&vec![59], 'm')
}

} // verus!
