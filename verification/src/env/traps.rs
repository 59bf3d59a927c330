//! The names of signals, as the `trap` of a shell takes them.

use crate::text::chars_of;
use vstd::prelude::*;

verus! {

/// The capital letter for a small letter of the alphabet of ASCII; any
/// other character as it is.
pub open spec fn upper(c: char) -> char {
    if 'a' <= c <= 'z' {
        ((c as int) - 32) as char
    } else {
        c
    }
}

/// Whether the character is white space, as Unicode has it.
pub open spec fn is_blank(c: char) -> bool {
    ('\u{9}' <= c <= '\u{d}') || c == ' ' || c == '\u{85}' || c == '\u{a0}' || c == '\u{1680}' || (
    '\u{2000}' <= c <= '\u{200a}') || c == '\u{2028}' || c == '\u{2029}' || c == '\u{202f}' || c
        == '\u{205f}' || c == '\u{3000}'
}

/// The index of the first character of `s` at or after `i` that is not
/// white space, or the length of `s`.
pub open spec fn blanks_end(s: Seq<char>, i: int) -> int
    decreases s.len() - i,
{
    if 0 <= i < s.len() && is_blank(s[i]) {
        blanks_end(s, i + 1)
    } else {
        i
    }
}

/// The index behind the last character of `s` before `j` and not before
/// `from` that is not white space, or `from`.
pub open spec fn blanks_start(s: Seq<char>, from: int, j: int) -> int
    decreases j - from,
{
    if from < j <= s.len() && is_blank(s[j - 1]) {
        blanks_start(s, from, j - 1)
    } else {
        j
    }
}

/// The index behind the prefixes `SIG` that stand one after the other from
/// `i` on in `s`, whatever the case of their letters is.
pub open spec fn prefix_end(s: Seq<char>, i: int, to: int) -> int
    decreases to - i,
{
    if 0 <= i && i + 3 <= to <= s.len() && upper(s[i]) == 'S' && upper(s[i + 1]) == 'I' && upper(
        s[i + 2],
    ) == 'G' {
        prefix_end(s, i + 3, to)
    } else {
        i
    }
}

/// The number of the signal with the name `name`, which is the number
/// itself in decimal or the name without `SIG`, in capital letters.
pub open spec fn signal_named(name: Seq<char>) -> Option<i32> {
    if name == "1"@ || name == "HUP"@ {
        Some(1i32)
    } else if name == "2"@ || name == "INT"@ {
        Some(2i32)
    } else if name == "3"@ || name == "QUIT"@ {
        Some(3i32)
    } else if name == "4"@ || name == "ILL"@ {
        Some(4i32)
    } else if name == "5"@ || name == "TRAP"@ {
        Some(5i32)
    } else if name == "6"@ || name == "ABRT"@ {
        Some(6i32)
    } else if name == "7"@ || name == "BUS"@ {
        Some(7i32)
    } else if name == "8"@ || name == "FPE"@ {
        Some(8i32)
    } else if name == "9"@ || name == "KILL"@ {
        Some(9i32)
    } else if name == "10"@ || name == "USR1"@ {
        Some(10i32)
    } else if name == "11"@ || name == "SEGV"@ {
        Some(11i32)
    } else if name == "12"@ || name == "USR2"@ {
        Some(12i32)
    } else if name == "13"@ || name == "PIPE"@ {
        Some(13i32)
    } else if name == "14"@ || name == "ALRM"@ {
        Some(14i32)
    } else if name == "15"@ || name == "TERM"@ {
        Some(15i32)
    } else if name == "16"@ || name == "STKFLT"@ {
        Some(16i32)
    } else if name == "17"@ || name == "CHLD"@ {
        Some(17i32)
    } else if name == "18"@ || name == "CONT"@ {
        Some(18i32)
    } else if name == "19"@ || name == "STOP"@ {
        Some(19i32)
    } else if name == "20"@ || name == "TSTP"@ {
        Some(20i32)
    } else if name == "21"@ || name == "TTIN"@ {
        Some(21i32)
    } else if name == "22"@ || name == "TTOU"@ {
        Some(22i32)
    } else if name == "23"@ || name == "URG"@ {
        Some(23i32)
    } else if name == "24"@ || name == "XCPU"@ {
        Some(24i32)
    } else if name == "25"@ || name == "XFSZ"@ {
        Some(25i32)
    } else if name == "26"@ || name == "VTALRM"@ {
        Some(26i32)
    } else if name == "27"@ || name == "PROF"@ {
        Some(27i32)
    } else if name == "28"@ || name == "WINCH"@ {
        Some(28i32)
    } else if name == "29"@ || name == "IO"@ {
        Some(29i32)
    } else if name == "30"@ || name == "PWR"@ {
        Some(30i32)
    } else if name == "31"@ || name == "SYS"@ {
        Some(31i32)
    } else {
        None
    }
}

/// The name that is looked up for the text `s`: `s` in capital letters,
/// without the white space around it and then without the prefixes `SIG`
/// before it.
pub open spec fn signal_name(s: Seq<char>) -> Seq<char> {
    let first = blanks_end(s, 0);
    let last = blanks_start(s, first, s.len() as int);
    let start = prefix_end(s, first, last);
    s.subrange(start, last).map_values(|c: char| upper(c))
}

fn to_upper(c: char) -> (r: char)
    ensures
        r == upper(c),
{
    if 'a' <= c && c <= 'z' {
        ((c as u8) - 32) as char
    } else {
        c
    }
}

fn blank(c: char) -> (b: bool)
    ensures
        b == is_blank(c),
{
    ('\u{9}' <= c && c <= '\u{d}') || c == ' ' || c == '\u{85}' || c == '\u{a0}' || c == '\u{1680}'
        || ('\u{2000}' <= c && c <= '\u{200a}') || c == '\u{2028}' || c == '\u{2029}' || c
        == '\u{202f}' || c == '\u{205f}' || c == '\u{3000}'
}

/// Whether the characters of `v` from `from` on are the text `text`.
fn is_text(v: &Vec<char>, from: usize, text: &str) -> (b: bool)
    requires
        from <= v.len(),
    ensures
        b == (v@.subrange(from as int, v.len() as int) == text@),
{
    let w = chars_of(text);
    let ghost tail = v@.subrange(from as int, v.len() as int);
    if w.len() != v.len() - from {
        return false;
    }
    let mut i: usize = 0;
    while i < w.len()
        invariant
            i <= w.len(),
            w.len() == v.len() - from,
            w@ == text@,
            tail == v@.subrange(from as int, v.len() as int),
            forall|k: int| 0 <= k < i ==> tail[k] == w@[k],
        decreases w.len() - i,
    {
        if v[from + i] != w[i] {
            assert(tail[i as int] != w@[i as int]);
            return false;
        }
        i += 1;
    }
    assert(tail =~= w@);
    true
}

/// The number of the signal whose name stands in `v` from `from` on.
fn look_up(v: &Vec<char>, from: usize) -> (r: Option<i32>)
    requires
        from <= v.len(),
    ensures
        r == signal_named(v@.subrange(from as int, v.len() as int)),
{
    if is_text(v, from, "1") || is_text(v, from, "HUP") {
        Some(1)
    } else if is_text(v, from, "2") || is_text(v, from, "INT") {
        Some(2)
    } else if is_text(v, from, "3") || is_text(v, from, "QUIT") {
        Some(3)
    } else if is_text(v, from, "4") || is_text(v, from, "ILL") {
        Some(4)
    } else if is_text(v, from, "5") || is_text(v, from, "TRAP") {
        Some(5)
    } else if is_text(v, from, "6") || is_text(v, from, "ABRT") {
        Some(6)
    } else if is_text(v, from, "7") || is_text(v, from, "BUS") {
        Some(7)
    } else if is_text(v, from, "8") || is_text(v, from, "FPE") {
        Some(8)
    } else if is_text(v, from, "9") || is_text(v, from, "KILL") {
        Some(9)
    } else if is_text(v, from, "10") || is_text(v, from, "USR1") {
        Some(10)
    } else if is_text(v, from, "11") || is_text(v, from, "SEGV") {
        Some(11)
    } else if is_text(v, from, "12") || is_text(v, from, "USR2") {
        Some(12)
    } else if is_text(v, from, "13") || is_text(v, from, "PIPE") {
        Some(13)
    } else if is_text(v, from, "14") || is_text(v, from, "ALRM") {
        Some(14)
    } else if is_text(v, from, "15") || is_text(v, from, "TERM") {
        Some(15)
    } else if is_text(v, from, "16") || is_text(v, from, "STKFLT") {
        Some(16)
    } else if is_text(v, from, "17") || is_text(v, from, "CHLD") {
        Some(17)
    } else if is_text(v, from, "18") || is_text(v, from, "CONT") {
        Some(18)
    } else if is_text(v, from, "19") || is_text(v, from, "STOP") {
        Some(19)
    } else if is_text(v, from, "20") || is_text(v, from, "TSTP") {
        Some(20)
    } else if is_text(v, from, "21") || is_text(v, from, "TTIN") {
        Some(21)
    } else if is_text(v, from, "22") || is_text(v, from, "TTOU") {
        Some(22)
    } else if is_text(v, from, "23") || is_text(v, from, "URG") {
        Some(23)
    } else if is_text(v, from, "24") || is_text(v, from, "XCPU") {
        Some(24)
    } else if is_text(v, from, "25") || is_text(v, from, "XFSZ") {
        Some(25)
    } else if is_text(v, from, "26") || is_text(v, from, "VTALRM") {
        Some(26)
    } else if is_text(v, from, "27") || is_text(v, from, "PROF") {
        Some(27)
    } else if is_text(v, from, "28") || is_text(v, from, "WINCH") {
        Some(28)
    } else if is_text(v, from, "29") || is_text(v, from, "IO") {
        Some(29)
    } else if is_text(v, from, "30") || is_text(v, from, "PWR") {
        Some(30)
    } else if is_text(v, from, "31") || is_text(v, from, "SYS") {
        Some(31)
    } else {
        None
    }
}

/// The number of the signal that `s` names: a signal is named by its
/// number from 1 to 31 or by its name, with or without `SIG` before it, in
/// letters of any case and with white space around it or none. `None`
/// where `s` names no signal.
pub fn parse_signal(s: &str) -> (r: Option<i32>)
    ensures
        r == signal_named(signal_name(s@)),
{
    let chars = chars_of(s);
    let n = chars.len();
    let mut first: usize = 0;
    while first < n && blank(chars[first])
        invariant
            first <= n,
            n == chars.len(),
            blanks_end(chars@, 0) == blanks_end(chars@, first as int),
        decreases n - first,
    {
        first += 1;
    }
    let mut last: usize = n;
    while first < last && blank(chars[last - 1])
        invariant
            first <= last <= n,
            n == chars.len(),
            blanks_start(chars@, first as int, n as int) == blanks_start(
                chars@,
                first as int,
                last as int,
            ),
        decreases last - first,
    {
        last -= 1;
    }
    let mut start: usize = first;
    while last - start >= 3 && to_upper(chars[start]) == 'S' && to_upper(chars[start + 1]) == 'I'
        && to_upper(chars[start + 2]) == 'G'
        invariant
            first <= start <= last <= n,
            n == chars.len(),
            prefix_end(chars@, first as int, last as int) == prefix_end(
                chars@,
                start as int,
                last as int,
            ),
        decreases last - start,
    {
        start += 3;
    }
    let mut name: Vec<char> = Vec::new();
    let mut i: usize = start;
    while i < last
        invariant
            start <= i <= last <= n,
            n == chars.len(),
            name@ == chars@.subrange(start as int, i as int).map_values(|c: char| upper(c)),
        decreases last - i,
    {
        name.push(to_upper(chars[i]));
        assert(name@ =~= chars@.subrange(start as int, i + 1).map_values(|c: char| upper(c)));
        i += 1;
    }
    assert(name@ == signal_name(s@));
    assert(name@.subrange(0, name.len() as int) =~= name@);
    look_up(&name, 0)
}

} // verus!
