//! Reading words from text.

use crate::lang::word::{PartView, Token, Word};
use crate::text::{chars_of, substring};
use vstd::prelude::*;

verus! {

/// Where a part of a word stands.
#[derive(Debug, Clone, Copy, PartialEq, Eq, Structural)]
pub enum Place {
    /// Outside of quotes.
    Unquoted,
    /// Between double quotes.
    Double,
    /// Between single quotes.
    Single,
    /// Inside `$((` and `))`.
    Arithmetic,
}

impl Place {
    /// Whether `c` may stand behind a backslash as an escape.
    pub open spec fn escapes(self, c: char) -> bool {
        match self {
            Place::Unquoted => c == '"' || c == '\\' || c == '|' || c == 'n' || c == '\n' || c
                == '\'' || c == 't' || c == '$' || c == '`' || c == '&' || c == '{' || c == '}',
            Place::Double | Place::Arithmetic => c == '"' || c == '\\' || c == 'n' || c == 't'
                || c == '$' || c == '`',
            Place::Single => c == '\'' || c == '\\',
        }
    }

    /// Whether `c` is text that stands for itself. A blank, a quote, a
    /// backslash, a dollar, the characters that part commands and those
    /// that begin a redirection end an unquoted text; between double quotes the quote, the backslash and the
    /// dollar do; between single quotes only the quote does. In an
    /// expression the parentheses are counted on their own.
    pub open spec fn plain(self, c: char) -> bool {
        match self {
            Place::Unquoted => !(c == '&' || c == '"' || c == '{' || c == '}' || c == '\'' || c
                == '|' || c == ';' || c == '\n' || c == '\\' || c == '$' || c == ' ' || c
                == '\t' || c == '<' || c == '>'),
            Place::Double => !(c == '\\' || c == '$' || c == '"'),
            Place::Single => c != '\'',
            Place::Arithmetic => !(c == '"' || c == '$' || c == '\\' || c == '(' || c == ')'),
        }
    }

    pub fn is_escape(self, c: char) -> (b: bool)
        ensures
            b == self.escapes(c),
    {
        match self {
            Place::Unquoted => c == '"' || c == '\\' || c == '|' || c == 'n' || c == '\n' || c
                == '\'' || c == 't' || c == '$' || c == '`' || c == '&' || c == '{' || c == '}',
            Place::Double | Place::Arithmetic => c == '"' || c == '\\' || c == 'n' || c == 't'
                || c == '$' || c == '`',
            Place::Single => c == '\'' || c == '\\',
        }
    }

    pub fn is_plain(self, c: char) -> (b: bool)
        ensures
            b == self.plain(c),
    {
        match self {
            Place::Unquoted => !(c == '&' || c == '"' || c == '{' || c == '}' || c == '\'' || c
                == '|' || c == ';' || c == '\n' || c == '\\' || c == '$' || c == ' ' || c
                == '\t' || c == '<' || c == '>'),
            Place::Double => !(c == '\\' || c == '$' || c == '"'),
            Place::Single => c != '\'',
            Place::Arithmetic => !(c == '"' || c == '$' || c == '\\' || c == '(' || c == ')'),
        }
    }
}

/// Whether `c` may stand in the name of a variable.
pub open spec fn names(c: char) -> bool {
    ('a' <= c <= 'z') || ('A' <= c <= 'Z') || c == '_'
}

/// Where the run of plain text that starts at `from` ends.
pub open spec fn plain_end(s: Seq<char>, from: int, place: Place) -> int
    decreases s.len() - from,
{
    if 0 <= from < s.len() && place.plain(s[from]) {
        plain_end(s, from + 1, place)
    } else {
        from
    }
}

/// Where the name that starts at `from` ends.
pub open spec fn name_end(s: Seq<char>, from: int) -> int
    decreases s.len() - from,
{
    if 0 <= from < s.len() && names(s[from]) {
        name_end(s, from + 1)
    } else {
        from
    }
}

/// Whether `t` stands in `s` at `p`.
pub open spec fn stands_at(s: Seq<char>, p: int, t: Seq<char>) -> bool {
    0 <= p && p + t.len() <= s.len() && s.subrange(p, p + t.len()) == t
}

/// One part, the place behind it, and how many parentheses are open then.
pub struct Piece {
    pub part: PartView,
    pub end: int,
    pub depth: nat,
}

/// Some parts and the place behind them.
pub struct Pieces {
    pub parts: Seq<PartView>,
    pub end: int,
}

/// The part that starts at `p`, if one does. `depth` counts the
/// parentheses that are open in an expression. A backslash and a character
/// that it may escape are an escape. A dollar before `((` begins an
/// expression, which has to end with `))`; any other dollar begins the
/// name of a variable, which may be empty. Outside of single quotes a
/// double quote begins a quoted stretch, and outside of all quotes a single
/// quote does; the stretch has to end with the same quote. In an expression
/// a parenthesis is a part of its own, and a right one is a part only if a
/// left one is open. A run of plain text is a part.
pub open spec fn piece_at(s: Seq<char>, p: int, place: Place, depth: nat) -> Option<Piece>
    decreases s.len() - p, 0nat,
{
    if !(0 <= p < s.len()) {
        None
    } else if s[p] == '\\' && p + 1 < s.len() && place.escapes(s[p + 1]) {
        Some(Piece { part: PartView::Escape(s[p + 1]), end: p + 2, depth })
    } else if s[p] == '$' && place != Place::Single {
        if stands_at(s, p + 1, seq!['(', '(']) && stands_at(
            s,
            pieces_from(s, p + 3, Place::Arithmetic, 0).end,
            seq![')', ')'],
        ) {
            let inner = pieces_from(s, p + 3, Place::Arithmetic, 0);
            Some(Piece { part: PartView::Expr(inner.parts), end: inner.end + 2, depth })
        } else {
            Some(
                Piece {
                    part: PartView::Variable(s.subrange(p + 1, name_end(s, p + 1))),
                    end: name_end(s, p + 1),
                    depth,
                },
            )
        }
    } else if s[p] == '"' && place != Place::Single && place != Place::Double {
        let inner = pieces_from(s, p + 1, Place::Double, 0);
        if 0 <= inner.end < s.len() && s[inner.end] == '"' {
            Some(Piece { part: PartView::Quoted(inner.parts), end: inner.end + 1, depth })
        } else {
            None
        }
    } else if s[p] == '\'' && place == Place::Unquoted {
        let inner = pieces_from(s, p + 1, Place::Single, 0);
        if 0 <= inner.end < s.len() && s[inner.end] == '\'' {
            Some(Piece { part: PartView::Quoted(inner.parts), end: inner.end + 1, depth })
        } else {
            None
        }
    } else if place == Place::Arithmetic && s[p] == '(' {
        Some(Piece { part: PartView::Slice(seq!['(']), end: p + 1, depth: depth + 1 })
    } else if place == Place::Arithmetic && s[p] == ')' && depth > 0 {
        Some(Piece { part: PartView::Slice(seq![')']), end: p + 1, depth: (depth - 1) as nat })
    } else if place.plain(s[p]) {
        Some(
            Piece {
                part: PartView::Slice(s.subrange(p, plain_end(s, p, place))),
                end: plain_end(s, p, place),
                depth,
            },
        )
    } else {
        None
    }
}

/// The parts from `p` on, as long as one follows another.
pub open spec fn pieces_from(s: Seq<char>, p: int, place: Place, depth: nat) -> Pieces
    decreases s.len() - p, 1nat,
{
    match piece_at(s, p, place, depth) {
        Some(piece) => if p < piece.end <= s.len() {
            let rest = pieces_from(s, piece.end, place, piece.depth);
            Pieces { parts: seq![piece.part] + rest.parts, end: rest.end }
        } else {
            Pieces { parts: Seq::empty(), end: p }
        },
        None => Pieces { parts: Seq::empty(), end: p },
    }
}

/// The word that `s` begins with: its unquoted parts from the start on.
pub open spec fn word_of(s: Seq<char>) -> Seq<PartView> {
    pieces_from(s, 0, Place::Unquoted, 0).parts
}

/// What a sequence of parts stands for in contracts.
pub open spec fn parts_view(parts: Seq<Token>) -> Seq<PartView> {
    Seq::new(parts.len(), |i: int| parts[i]@)
}

fn scan_plain(chars: &Vec<char>, from: usize, place: Place) -> (end: usize)
    requires
        from <= chars.len(),
    ensures
        end == plain_end(chars@, from as int, place),
        from <= end <= chars.len(),
{
    let mut i: usize = from;
    while i < chars.len() && place.is_plain(chars[i])
        invariant
            from <= i <= chars.len(),
            plain_end(chars@, i as int, place) == plain_end(chars@, from as int, place),
        decreases chars.len() - i,
    {
        i += 1;
    }
    i
}

fn scan_name(chars: &Vec<char>, from: usize) -> (end: usize)
    requires
        from <= chars.len(),
    ensures
        end == name_end(chars@, from as int),
        from <= end <= chars.len(),
{
    let mut i: usize = from;
    while i < chars.len() && (('a' <= chars[i] && chars[i] <= 'z') || ('A' <= chars[i] && chars[i]
        <= 'Z') || chars[i] == '_')
        invariant
            from <= i <= chars.len(),
            name_end(chars@, i as int) == name_end(chars@, from as int),
        decreases chars.len() - i,
    {
        i += 1;
    }
    i
}

/// Whether the two characters `a`, `b` stand at `p`.
fn pair_at(chars: &Vec<char>, p: usize, a: char, b: char) -> (r: bool)
    ensures
        r == stands_at(chars@, p as int, seq![a, b]),
{
    if p < chars.len() && chars.len() - p >= 2 {
        let r = chars[p] == a && chars[p + 1] == b;
        proof {
            let t = chars@.subrange(p as int, p + 2);
            assert(t[0] == chars@[p as int] && t[1] == chars@[p + 1]);
            if r {
                assert(t =~= seq![a, b]);
            } else {
                assert(seq![a, b][0] == a && seq![a, b][1] == b);
            }
        }
        r
    } else {
        false
    }
}

/// Reads the part at `p`.
fn read_piece(chars: &Vec<char>, p: usize, place: Place, depth: usize) -> (r: Option<
    (Token, usize, usize),
>)
    requires
        depth <= p,
    ensures
        match r {
            Some((token, end, open)) => piece_at(chars@, p as int, place, depth as nat) == Some(
                Piece { part: token@, end: end as int, depth: open as nat },
            ) && open <= end,
            None => piece_at(chars@, p as int, place, depth as nat) is None,
        },
    decreases chars.len() - p, 0nat,
{
    if p >= chars.len() {
        return None;
    }
    let c = chars[p];
    if c == '\\' && p + 1 < chars.len() && place.is_escape(chars[p + 1]) {
        return Some((Token::Escape(chars[p + 1]), p + 2, depth));
    }
    let single = match place {
        Place::Single => true,
        _ => false,
    };
    let double = match place {
        Place::Double => true,
        _ => false,
    };
    let unquoted = match place {
        Place::Unquoted => true,
        _ => false,
    };
    let arithmetic = match place {
        Place::Arithmetic => true,
        _ => false,
    };
    if c == '$' && !single {
        if pair_at(chars, p + 1, '(', '(') {
            let (parts, end) = read_pieces(chars, p + 3, Place::Arithmetic, 0);
            if pair_at(chars, end, ')', ')') {
                let word = Word { parts };
                assert(word@ =~= parts_view(parts@));
                let token = Token::Expr(word);
                assert(token@ == PartView::Expr(word@));
                return Some((token, end + 2, depth));
            }
        }
        let end = scan_name(chars, p + 1);
        return Some((Token::Variable(substring(chars, p + 1, end)), end, depth));
    }
    if c == '"' && !single && !double {
        let (parts, end) = read_pieces(chars, p + 1, Place::Double, 0);
        if end < chars.len() && chars[end] == '"' {
            let word = Word { parts };
            assert(word@ =~= parts_view(parts@));
            let token = Token::Quoted(word);
            assert(token@ == PartView::Quoted(word@));
            return Some((token, end + 1, depth));
        } else {
            return None;
        }
    }
    if c == '\'' && unquoted {
        let (parts, end) = read_pieces(chars, p + 1, Place::Single, 0);
        if end < chars.len() && chars[end] == '\'' {
            let word = Word { parts };
            assert(word@ =~= parts_view(parts@));
            let token = Token::Quoted(word);
            assert(token@ == PartView::Quoted(word@));
            return Some((token, end + 1, depth));
        } else {
            return None;
        }
    }
    if arithmetic && c == '(' {
        let text = substring(chars, p, p + 1);
        assert(text@ =~= seq!['(']);
        return Some((Token::Slice(text), p + 1, depth + 1));
    }
    if arithmetic && c == ')' && depth > 0 {
        let text = substring(chars, p, p + 1);
        assert(text@ =~= seq![')']);
        return Some((Token::Slice(text), p + 1, depth - 1));
    }
    if place.is_plain(c) {
        let end = scan_plain(chars, p, place);
        return Some((Token::Slice(substring(chars, p, end)), end, depth));
    }
    None
}

/// Reads the parts from `p` on.
fn read_pieces(chars: &Vec<char>, p: usize, place: Place, depth: usize) -> (r: (Vec<Token>, usize))
    requires
        p <= chars.len(),
        depth <= p,
    ensures
        parts_view(r.0@) == pieces_from(chars@, p as int, place, depth as nat).parts,
        r.1 == pieces_from(chars@, p as int, place, depth as nat).end,
        p <= r.1 <= chars.len(),
    decreases chars.len() - p, 1nat,
{
    match read_piece(chars, p, place, depth) {
        Some((token, end, open)) => {
            if p < end && end <= chars.len() {
                let (rest, last) = read_pieces(chars, end, place, open);
                let mut parts: Vec<Token> = vec![token];
                let ghost first = parts_view(parts@);
                let mut rest = rest;
                let ghost tail = parts_view(rest@);
                parts.append(&mut rest);
                assert(parts_view(parts@) =~= first + tail);
                assert(first =~= seq![token@]);
                (parts, last)
            } else {
                let parts: Vec<Token> = Vec::new();
                assert(parts_view(parts@) =~= Seq::<PartView>::empty());
                (parts, p)
            }
        },
        None => {
            let parts: Vec<Token> = Vec::new();
            assert(parts_view(parts@) =~= Seq::<PartView>::empty());
            (parts, p)
        },
    }
}

/// Reads the word that starts at index `from` of `chars`, and tells where
/// it ends.
pub fn read_word(chars: &Vec<char>, from: usize) -> (r: (Word, usize))
    requires
        from <= chars.len(),
    ensures
        r.0@ == pieces_from(chars@, from as int, Place::Unquoted, 0).parts,
        r.1 == pieces_from(chars@, from as int, Place::Unquoted, 0).end,
        from <= r.1 <= chars.len(),
{
    let (parts, end) = read_pieces(chars, from, Place::Unquoted, 0);
    let word = Word { parts };
    assert(word@ =~= parts_view(parts@));
    (word, end)
}

impl Word {
    /// The word that `s` begins with. What follows the word does not
    /// count.
    pub fn parse(s: &str) -> (w: Word)
        ensures
            w@ == word_of(s@),
    {
        let chars = chars_of(s);
        read_word(&chars, 0).0
    }
}

} // verus!
