//! Operating system commands of xterm and the terminals that follow it.

use crate::text::{append_chars, chars_of, decimal, render_decimal, string_of};
use vstd::prelude::*;

verus! {

/// An operating system command: `ESC ]`, the command's number, a semicolon,
/// its text, and the string terminator `ESC \`.
pub open spec fn os_command(code: nat, text: Seq<char>) -> Seq<char> {
    seq!['\u{1b}', ']'] + decimal(code) + seq![';'] + text + seq!['\u{1b}', '\\']
}

fn render_os_command(code: u64, text: &Vec<char>) -> (s: String)
    ensures
        s@ == os_command(code as nat, text@),
{
    let mut v: Vec<char> = vec!['\u{1b}', ']'];
    let digits = render_decimal(code);
    append_chars(&mut v, &digits);
    v.push(';');
    append_chars(&mut v, text);
    v.push('\u{1b}');
    v.push('\\');
    proof {
        assert(v@ =~= os_command(code as nat, text@));
    }
    string_of(&v)
}

/// Sets the icon name and the window title to `s`.
pub fn set_icon_and_title(s: &str) -> (out: String)
    ensures
        out@ == os_command(0, s@),
{
    render_os_command(0, &chars_of(s))
}

/// Sets the icon name to `s`.
pub fn set_icon(s: &str) -> (out: String)
    ensures
        out@ == os_command(1, s@),
{
    render_os_command(1, &chars_of(s))
}

/// Sets the window title to `s`.
pub fn set_title(s: &str) -> (out: String)
    ensures
        out@ == os_command(2, s@),
{
    render_os_command(2, &chars_of(s))
}

/// Sets the window title to the empty text.
pub fn restore_title() -> (out: String)
    ensures
        out@ == os_command(2, Seq::empty()),
{
    render_os_command(2, &Vec::new())
}

/// Sets the X property `k` of the window to `v`.
pub fn set_x_property(k: &str, v: &str) -> (out: String)
    ensures
        out@ == os_command(3, k@ + seq!['='] + v@),
{
    let mut text = chars_of(k);
    text.push('=');
    append_chars(&mut text, &chars_of(v));
    render_os_command(3, &text)
}

/// Removes the X property `k` of the window.
pub fn remove_x_property(k: &str) -> (out: String)
    ensures
        out@ == os_command(3, k@),
{
    render_os_command(3, &chars_of(k))
}

/// Asks for the value of the X property `k` of the window.
pub fn query_x_property(k: &str) -> (out: String)
    ensures
        out@ == os_command(3, seq!['?'] + k@),
{
    let mut text: Vec<char> = vec!['?'];
    append_chars(&mut text, &chars_of(k));
    render_os_command(3, &text)
}

/// Asks for the value of the palette entry `color`. The question mark comes
/// before the entry's number.
pub fn query_color(color: u8) -> (out: String)
    ensures
        out@ == os_command(4, seq!['?', ';'] + decimal(color as nat)),
{
    let mut text: Vec<char> = vec!['?', ';'];
    append_chars(&mut text, &render_decimal(color as u64));
    render_os_command(4, &text)
}

} // verus!
