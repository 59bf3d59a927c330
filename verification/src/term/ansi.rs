//! ANSI control sequences, produced as text for the caller to print.

use crate::text::{append_chars, decimal, render_decimal, string_of};
use vstd::prelude::*;

verus! {

/// Which part of the line an erase command clears.
#[derive(Clone, Copy, Debug, PartialEq, Eq, Structural)]
pub enum ClearType {
    AfterCursor,
    BeforeCursor,
    Everything,
    EverthingAndReset,
}

/// A colour, by palette index or by its red, green and blue parts.
#[derive(Clone, Copy, Debug, PartialEq, Eq, Structural)]
pub enum Color {
    Index(u8),
    Rgb(u8, u8, u8),
}

/// A graphic rendition: a text attribute, a font or a colour.
#[derive(Clone, Copy, Debug, PartialEq, Eq, Structural)]
pub enum Effect {
    Reset,
    Bold,
    Faint,
    Italic,
    Underline,
    SlowBlink,
    FastBlink,
    Invert,
    Conceal,
    StrikeThrough,
    Frame,
    Circle,
    Overline,
    Fraktur,
    IdeogramUnderline,
    IdeogramDoubleUnderline,
    IdeogramOverline,
    IdeogramDoubleOverline,
    IdeogramStressMarks,
    UnsetIdeogram,
    UnsetFrameAndCircle,
    UnsetOverline,
    UnsetBold,
    UnsetBoldAndFaint,
    UnsetFrakturAndItalic,
    UnsetUnderline,
    UnsetBlink,
    UnsetInvert,
    UnsetConceal,
    UnsetStrikeThrough,
    /// Fonts run from 0, the default, to 9.
    Font(u8),
    Foreground(u8),
    ForegroundCustom(u8, u8, u8),
    Background(u8),
    BackgroundCustom(u8, u8, u8),
    DefaultBackground,
    DefaultForeground,
    DefaultFont,
}

/// The escape character that opens every control sequence.
pub open spec fn escape() -> char {
    '\u{1b}'
}

/// The numeric parameters of a control sequence: each in decimal, with a
/// semicolon between neighbours.
pub open spec fn parameter_list(params: Seq<usize>) -> Seq<char>
    decreases params.len(),
{
    if params.len() == 0 {
        Seq::empty()
    } else if params.len() == 1 {
        decimal(params[0] as nat)
    } else {
        parameter_list(params.drop_last()) + seq![';'] + decimal(params.last() as nat)
    }
}

/// A control sequence: the introducer `ESC [`, the parameters, and the
/// character that names the command.
pub open spec fn control_sequence(params: Seq<usize>, command: char) -> Seq<char> {
    seq![escape(), '['] + parameter_list(params) + seq![command]
}

/// A control sequence whose parameter text is given literally.
pub open spec fn literal_sequence(parameter: Seq<char>, command: char) -> Seq<char> {
    seq![escape(), '['] + parameter + seq![command]
}

impl ClearType {
    /// The parameter that stands for this choice in an erase command.
    pub open spec fn code(self) -> usize {
        match self {
            ClearType::AfterCursor => 0,
            ClearType::BeforeCursor => 1,
            ClearType::Everything => 2,
            ClearType::EverthingAndReset => 3,
        }
    }

    fn parameter(self) -> (n: usize)
        ensures
            n == self.code(),
    {
        match self {
            ClearType::AfterCursor => 0,
            ClearType::BeforeCursor => 1,
            ClearType::Everything => 2,
            ClearType::EverthingAndReset => 3,
        }
    }
}

impl From<u8> for Color {
    /// The colour at index `v` of the palette.
    fn from(v: u8) -> (c: Color)
        ensures
            c == Color::Index(v),
    {
        Color::Index(v)
    }
}

impl vstd::std_specs::convert::FromSpecImpl<u8> for Color {
    open spec fn obeys_from_spec() -> bool {
        true
    }

    open spec fn from_spec(v: u8) -> Color {
        Color::Index(v)
    }
}

impl From<(u8, u8, u8)> for Color {
    /// The colour with the given red, green and blue parts.
    fn from(v: (u8, u8, u8)) -> (c: Color)
        ensures
            c == Color::Rgb(v.0, v.1, v.2),
    {
        Color::Rgb(v.0, v.1, v.2)
    }
}

impl vstd::std_specs::convert::FromSpecImpl<(u8, u8, u8)> for Color {
    open spec fn obeys_from_spec() -> bool {
        true
    }

    open spec fn from_spec(v: (u8, u8, u8)) -> Color {
        Color::Rgb(v.0, v.1, v.2)
    }
}

impl Effect {
    /// The parameters that select this rendition. The first eight colours
    /// and the eight bright ones have codes of their own; any other palette
    /// entry takes the three-parameter form.
    pub open spec fn parameters(self) -> Seq<usize> {
        match self {
            Effect::Background(x) => if x < 8 {
                seq![(x + 40) as usize]
            } else if x < 16 {
                seq![(x + 92) as usize]
            } else {
                seq![48usize, 5usize, x as usize]
            },
            Effect::Foreground(x) => if x < 8 {
                seq![(x + 30) as usize]
            } else if x < 16 {
                seq![(x + 82) as usize]
            } else {
                seq![38usize, 5usize, x as usize]
            },
            Effect::BackgroundCustom(r, g, b) => seq![
                48usize,
                2usize,
                r as usize,
                g as usize,
                b as usize,
            ],
            Effect::ForegroundCustom(r, g, b) => seq![
                38usize,
                2usize,
                r as usize,
                g as usize,
                b as usize,
            ],
            Effect::Font(x) => seq![(x + 11) as usize],
            Effect::DefaultFont => seq![10usize],
            Effect::DefaultBackground => seq![49usize],
            Effect::DefaultForeground => seq![39usize],
            Effect::Reset => seq![0usize],
            Effect::Bold => seq![1usize],
            Effect::Faint => seq![2usize],
            Effect::Italic => seq![3usize],
            Effect::Underline => seq![4usize],
            Effect::SlowBlink => seq![5usize],
            Effect::FastBlink => seq![6usize],
            Effect::Invert => seq![7usize],
            Effect::Conceal => seq![8usize],
            Effect::StrikeThrough => seq![9usize],
            Effect::Fraktur => seq![20usize],
            Effect::Frame => seq![51usize],
            Effect::Circle => seq![52usize],
            Effect::Overline => seq![53usize],
            Effect::IdeogramUnderline => seq![60usize],
            Effect::IdeogramDoubleUnderline => seq![61usize],
            Effect::IdeogramOverline => seq![62usize],
            Effect::IdeogramDoubleOverline => seq![63usize],
            Effect::IdeogramStressMarks => seq![64usize],
            Effect::UnsetBold => seq![21usize],
            Effect::UnsetBoldAndFaint => seq![22usize],
            Effect::UnsetFrakturAndItalic => seq![23usize],
            Effect::UnsetUnderline => seq![24usize],
            Effect::UnsetBlink => seq![25usize],
            Effect::UnsetInvert => seq![27usize],
            Effect::UnsetConceal => seq![28usize],
            Effect::UnsetStrikeThrough => seq![29usize],
            Effect::UnsetFrameAndCircle => seq![54usize],
            Effect::UnsetOverline => seq![55usize],
            Effect::UnsetIdeogram => seq![65usize],
        }
    }

    fn parameter_vec(self) -> (v: Vec<usize>)
        ensures
            v@ == self.parameters(),
    {
        match self {
            Effect::Background(x) => {
                let n: usize = x as usize;
                if x < 8 {
                    vec![n + 40]
                } else if x < 16 {
                    vec![n + 92]
                } else {
                    vec![48, 5, n]
                }
            },
            Effect::Foreground(x) => {
                let n: usize = x as usize;
                if x < 8 {
                    vec![n + 30]
                } else if x < 16 {
                    vec![n + 82]
                } else {
                    vec![38, 5, n]
                }
            },
            Effect::BackgroundCustom(r, g, b) => vec![48, 2, r as usize, g as usize, b as usize],
            Effect::ForegroundCustom(r, g, b) => vec![38, 2, r as usize, g as usize, b as usize],
            Effect::Font(x) => {
                let n: usize = x as usize;
                vec![n + 11]
            },
            Effect::DefaultFont => vec![10],
            Effect::DefaultBackground => vec![49],
            Effect::DefaultForeground => vec![39],
            Effect::Reset => vec![0],
            Effect::Bold => vec![1],
            Effect::Faint => vec![2],
            Effect::Italic => vec![3],
            Effect::Underline => vec![4],
            Effect::SlowBlink => vec![5],
            Effect::FastBlink => vec![6],
            Effect::Invert => vec![7],
            Effect::Conceal => vec![8],
            Effect::StrikeThrough => vec![9],
            Effect::Fraktur => vec![20],
            Effect::Frame => vec![51],
            Effect::Circle => vec![52],
            Effect::Overline => vec![53],
            Effect::IdeogramUnderline => vec![60],
            Effect::IdeogramDoubleUnderline => vec![61],
            Effect::IdeogramOverline => vec![62],
            Effect::IdeogramDoubleOverline => vec![63],
            Effect::IdeogramStressMarks => vec![64],
            Effect::UnsetBold => vec![21],
            Effect::UnsetBoldAndFaint => vec![22],
            Effect::UnsetFrakturAndItalic => vec![23],
            Effect::UnsetUnderline => vec![24],
            Effect::UnsetBlink => vec![25],
            Effect::UnsetInvert => vec![27],
            Effect::UnsetConceal => vec![28],
            Effect::UnsetStrikeThrough => vec![29],
            Effect::UnsetFrameAndCircle => vec![54],
            Effect::UnsetOverline => vec![55],
            Effect::UnsetIdeogram => vec![65],
        }
    }
}

/// Writes the parameters of a control sequence.
fn render_parameters(params: &Vec<usize>) -> (v: Vec<char>)
    ensures
        v@ == parameter_list(params@),
{
    let mut v: Vec<char> = Vec::new();
    let mut i: usize = 0;
    while i < params.len()
        invariant
            i <= params.len(),
            v@ == parameter_list(params@.take(i as int)),
        decreases params.len() - i,
    {
        if i > 0 {
            v.push(';');
        }
        let digits = render_decimal(params[i] as u64);
        append_chars(&mut v, &digits);
        proof {
            let next = params@.take(i + 1);
            assert(next.drop_last() =~= params@.take(i as int));
            assert(next.last() == params@[i as int]);
            if i == 0 {
                assert(v@ =~= decimal(params@[0] as nat));
            }
        }
        i += 1;
    }
    assert(params@.take(params.len() as int) =~= params@);
    v
}

/// Writes a whole control sequence.
pub(crate) fn render_sequence(params: &Vec<usize>, command: char) -> (s: String)
    ensures
        s@ == control_sequence(params@, command),
{
    let mut v: Vec<char> = vec!['\u{1b}', '['];
    let body = render_parameters(params);
    append_chars(&mut v, &body);
    v.push(command);
    string_of(&v)
}

/// Writes a control sequence around a parameter text given literally.
pub(crate) fn render_literal(parameter: &Vec<char>, command: char) -> (s: String)
    ensures
        s@ == literal_sequence(parameter@, command),
{
    let mut v: Vec<char> = vec!['\u{1b}', '['];
    append_chars(&mut v, parameter);
    v.push(command);
    string_of(&v)
}

/// Moves the cursor up by `x` rows.
pub fn cursor_up(x: usize) -> (s: String)
    ensures
        s@ == control_sequence(seq![x], 'A'),
{
    render_sequence(&vec![x], 'A')
}

/// Moves the cursor down by `x` rows.
pub fn cursor_down(x: usize) -> (s: String)
    ensures
        s@ == control_sequence(seq![x], 'B'),
{
    render_sequence(&vec![x], 'B')
}

/// Moves the cursor right by `x` columns.
pub fn cursor_right(x: usize) -> (s: String)
    ensures
        s@ == control_sequence(seq![x], 'C'),
{
    render_sequence(&vec![x], 'C')
}

/// Moves the cursor left by `x` columns.
pub fn cursor_left(x: usize) -> (s: String)
    ensures
        s@ == control_sequence(seq![x], 'D'),
{
    render_sequence(&vec![x], 'D')
}

/// Moves the cursor to the start of the line `x` rows down.
pub fn cursor_next_line(x: usize) -> (s: String)
    ensures
        s@ == control_sequence(seq![x], 'E'),
{
    render_sequence(&vec![x], 'E')
}

/// Moves the cursor to the start of the line `x` rows up.
pub fn cursor_last_line(x: usize) -> (s: String)
    ensures
        s@ == control_sequence(seq![x], 'F'),
{
    render_sequence(&vec![x], 'F')
}

/// Moves the cursor to column `x` of its row.
pub fn cursor_column(x: usize) -> (s: String)
    ensures
        s@ == control_sequence(seq![x], 'G'),
{
    render_sequence(&vec![x], 'G')
}

/// Moves the cursor to the position given by `x` and `y`, written in that
/// order.
pub fn cursor_move(x: usize, y: usize) -> (s: String)
    ensures
        s@ == control_sequence(seq![x, y], 'H'),
{
    render_sequence(&vec![x, y], 'H')
}

/// Erases the part of the current line that `x` names.
pub fn erase(x: ClearType) -> (s: String)
    ensures
        s@ == control_sequence(seq![x.code()], 'K'),
{
    render_sequence(&vec![x.parameter()], 'K')
}

/// Erases the part of the current line that `x` names.
pub fn erase_line(x: ClearType) -> (s: String)
    ensures
        s@ == control_sequence(seq![x.code()], 'K'),
{
    render_sequence(&vec![x.parameter()], 'K')
}

/// Issues the scroll command `S` with the count `x`.
pub fn scroll_down(x: usize) -> (s: String)
    ensures
        s@ == control_sequence(seq![x], 'S'),
{
    render_sequence(&vec![x], 'S')
}

/// Issues the scroll command `T` with the count `x`.
pub fn scroll_up(x: usize) -> (s: String)
    ensures
        s@ == control_sequence(seq![x], 'T'),
{
    render_sequence(&vec![x], 'T')
}

/// Selects the graphic rendition `x`.
pub fn effect(x: Effect) -> (s: String)
    ensures
        s@ == control_sequence(x.parameters(), 'm'),
{
    let params = x.parameter_vec();
    render_sequence(&params, 'm')
}

} // verus!
