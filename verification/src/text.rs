//! Conversions between Rust strings and character vectors, and the decimal
//! notation of integers.

use vstd::prelude::*;
use vstd::std_specs::iter::IteratorSpec;

verus! {

broadcast use vstd::string::group_string_axioms;

/// Appends one character to a `String` with `String::push`; the view grows by
/// exactly that character.
#[verifier::external_body]
fn push_char(s: &mut String, c: char)
    ensures
        final(s)@ == old(s)@.push(c),
{
    s.push(c)
}

/// The text that `{:?}` writes for the text `s`: `s` between double quotes,
/// with the escapes of Rust's string literals.
pub uninterp spec fn debug_text(s: Seq<char>) -> Seq<char>;

/// Writes `s` as `format!("{:?}", s)` does, that is by the `Debug` of `str`
/// in std: between double quotes, with a backslash before a quote or a
/// backslash and escapes for the characters that cannot be printed. The
/// result depends on `s` alone.
#[verifier::external_body]
pub(crate) fn debug_quoted(s: &str) -> (r: String)
    ensures
        r@ == debug_text(s@),
{
    format!("{:?}", s)
}

/// The characters of `s`, in order.
pub fn chars_of(s: &str) -> (v: Vec<char>)
    ensures
        v@ == s@,
{
    let mut v: Vec<char> = Vec::new();
    let mut it = s.chars();
    loop
        invariant
            v@ + it.remaining() == s@,
            it.obeys_prophetic_iter_laws(),
            it.decrease() is Some,
        decreases it.decrease()->0,
    {
        let ghost before = it;
        match it.next() {
            Some(c) => {
                assert(before.remaining() =~= seq![c] + it.remaining());
                assert(v@.push(c) + it.remaining() =~= v@ + before.remaining());
                v.push(c);
            },
            None => {
                assert(v@ + it.remaining() =~= v@);
                return v;
            },
        }
    }
}

/// The string made of the characters of `v`, in order.
pub fn string_of(v: &Vec<char>) -> (s: String)
    ensures
        s@ == v@,
{
    let mut s = String::new();
    let mut i: usize = 0;
    while i < v.len()
        invariant
            i <= v.len(),
            s@ == v@.take(i as int),
        decreases v.len() - i,
    {
        push_char(&mut s, v[i]);
        i += 1;
        assert(v@.take(i as int) =~= v@.take(i - 1).push(v@[i - 1]));
    }
    assert(v@.take(v.len() as int) =~= v@);
    s
}

/// The character that writes the digit `d` (below ten) in decimal.
pub open spec fn digit_char(d: nat) -> char {
    if d == 0 {
        '0'
    } else if d == 1 {
        '1'
    } else if d == 2 {
        '2'
    } else if d == 3 {
        '3'
    } else if d == 4 {
        '4'
    } else if d == 5 {
        '5'
    } else if d == 6 {
        '6'
    } else if d == 7 {
        '7'
    } else if d == 8 {
        '8'
    } else {
        '9'
    }
}

/// The decimal notation of `n`: no sign, no leading zero, `"0"` for zero.
pub open spec fn decimal(n: nat) -> Seq<char>
    decreases n,
{
    if n < 10 {
        seq![digit_char(n)]
    } else {
        decimal(n / 10).push(digit_char(n % 10))
    }
}

fn digit(d: u64) -> (c: char)
    requires
        d < 10,
    ensures
        c == digit_char(d as nat),
{
    if d == 0 {
        '0'
    } else if d == 1 {
        '1'
    } else if d == 2 {
        '2'
    } else if d == 3 {
        '3'
    } else if d == 4 {
        '4'
    } else if d == 5 {
        '5'
    } else if d == 6 {
        '6'
    } else if d == 7 {
        '7'
    } else if d == 8 {
        '8'
    } else {
        '9'
    }
}

/// Writes `n` in decimal.
pub fn render_decimal(n: u64) -> (v: Vec<char>)
    ensures
        v@ == decimal(n as nat),
    decreases n,
{
    if n < 10 {
        vec![digit(n)]
    } else {
        let mut v = render_decimal(n / 10);
        v.push(digit(n % 10));
        v
    }
}

/// Appends the characters of `tail` to `v`.
pub fn append_chars(v: &mut Vec<char>, tail: &Vec<char>)
    ensures
        final(v)@ == old(v)@ + tail@,
{
    let mut i: usize = 0;
    while i < tail.len()
        invariant
            i <= tail.len(),
            v@ == old(v)@ + tail@.take(i as int),
        decreases tail.len() - i,
    {
        v.push(tail[i]);
        i += 1;
        assert(tail@.take(i as int) =~= tail@.take(i - 1).push(tail@[i - 1]));
    }
    assert(tail@.take(tail.len() as int) =~= tail@);
}

/// The text made of the characters of `v` from index `from` up to, not
/// including, index `to`.
pub fn substring(v: &Vec<char>, from: usize, to: usize) -> (s: String)
    requires
        from <= to <= v.len(),
    ensures
        s@ == v@.subrange(from as int, to as int),
{
    let mut s = String::new();
    let mut i: usize = from;
    while i < to
        invariant
            from <= i <= to <= v.len(),
            s@ == v@.subrange(from as int, i as int),
        decreases to - i,
    {
        push_char(&mut s, v[i]);
        i += 1;
        assert(v@.subrange(from as int, i as int) =~= v@.subrange(from as int, i - 1).push(
            v@[i - 1],
        ));
    }
    s
}

/// The decimal notation of an integer: a minus sign before the digits of a
/// negative one.
pub open spec fn signed_decimal(n: int) -> Seq<char> {
    if n < 0 {
        seq!['-'] + decimal((-n) as nat)
    } else {
        decimal(n as nat)
    }
}

/// Writes `n` in decimal, with a minus sign if it is negative.
pub fn render_signed(n: isize) -> (v: Vec<char>)
    ensures
        v@ == signed_decimal(n as int),
{
    let wide: i128 = n as i128;
    if wide < 0 {
        let magnitude: u64 = (-wide) as u64;
        let mut v: Vec<char> = vec!['-'];
        append_chars(&mut v, &render_decimal(magnitude));
        v
    } else {
        render_decimal(wide as u64)
    }
}

/// A copy of the characters of `v`.
pub fn copy_chars(v: &Vec<char>) -> (r: Vec<char>)
    ensures
        r@ == v@,
{
    let mut r: Vec<char> = Vec::new();
    append_chars(&mut r, v);
    r
}

/// The index of the first `c` in `s` at or after `from`, or the length of
/// `s` if there is none.
pub open spec fn find_from(s: Seq<char>, c: char, from: int) -> int
    decreases s.len() - from,
{
    if 0 <= from < s.len() && s[from] != c {
        find_from(s, c, from + 1)
    } else {
        from
    }
}

/// The pieces of `s` between the occurrences of `c` from index `from` on. A
/// text without `c` is one piece; two neighbouring `c` have an empty piece
/// between them.
pub open spec fn pieces(s: Seq<char>, c: char, from: int) -> Seq<Seq<char>>
    decreases s.len() - from,
{
    if 0 <= from <= s.len() {
        let end = find_from(s, c, from);
        if from <= end < s.len() {
            seq![s.subrange(from, end)] + pieces(s, c, end + 1)
        } else {
            seq![s.subrange(from, s.len() as int)]
        }
    } else {
        Seq::empty()
    }
}

/// Cuts `s` at every `c`.
pub fn split(s: &Vec<char>, c: char) -> (r: Vec<Vec<char>>)
    ensures
        Seq::new(r@.len(), |i: int| r@[i]@) == pieces(s@, c, 0),
{
    let mut r: Vec<Vec<char>> = Vec::new();
    let mut from: usize = 0;
    let ghost goal = pieces(s@, c, 0);
    assert(Seq::new(r@.len(), |i: int| r@[i]@) + pieces(s@, c, 0) =~= goal);
    loop
        invariant
            from <= s.len(),
            goal == pieces(s@, c, 0),
            Seq::new(r@.len(), |i: int| r@[i]@) + pieces(s@, c, from as int) == goal,
        decreases s.len() - from,
    {
        let mut end: usize = from;
        while end < s.len() && s[end] != c
            invariant
                from <= end <= s.len(),
                find_from(s@, c, from as int) == find_from(s@, c, end as int),
            decreases s.len() - end,
        {
            end += 1;
        }
        let mut piece: Vec<char> = Vec::new();
        let mut i: usize = from;
        while i < end
            invariant
                from <= i <= end <= s.len(),
                piece@ == s@.subrange(from as int, i as int),
            decreases end - i,
        {
            piece.push(s[i]);
            i += 1;
            assert(s@.subrange(from as int, i as int) =~= s@.subrange(from as int, i - 1).push(
                s@[i - 1],
            ));
        }
        let ghost before = Seq::new(r@.len(), |i: int| r@[i]@);
        r.push(piece);
        assert(Seq::new(r@.len(), |i: int| r@[i]@) =~= before.push(
            s@.subrange(from as int, end as int),
        ));
        if end < s.len() {
            assert(before.push(s@.subrange(from as int, end as int)) + pieces(s@, c, end + 1)
                =~= before + pieces(s@, c, from as int));
            from = end + 1;
        } else {
            assert(before.push(s@.subrange(from as int, end as int)) =~= before + pieces(
                s@,
                c,
                from as int,
            ));
            return r;
        }
    }
}

} // verus!
