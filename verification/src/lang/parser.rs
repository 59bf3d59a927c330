//! Reading command lines from text.

use crate::expr::lexer::{run_end, scan_run, CharClass};
use crate::lang::ast::{
    redirects_view, words_view, Command, CommandView, ConditionOperator, Function, IoOperation,
    RedirectDestination, RedirectView,
};
use crate::lang::exec::{descriptor_number, parse_descriptor};
use crate::lang::run::commands;
use crate::lang::syntax::{pieces_from, read_word, stands_at, Place};
use crate::lang::word::{PartView, Word};
use crate::text::{chars_of, find_from, substring};
use vstd::prelude::*;

verus! {

/// Where the run of blanks and tabs that starts at `from` ends.
pub open spec fn blank_end(s: Seq<char>, from: int) -> int
    decreases s.len() - from,
{
    if 0 <= from < s.len() && (s[from] == ' ' || s[from] == '\t') {
        blank_end(s, from + 1)
    } else {
        from
    }
}

/// Where the run of blanks and of the characters that part commands, which
/// are `;`, `&` and the line feed, ends that starts at `from`.
pub open spec fn gap_end(s: Seq<char>, from: int) -> int
    decreases s.len() - from,
{
    if 0 <= from < s.len() && (s[from] == ' ' || s[from] == '\t' || s[from] == ';' || s[from]
        == '&' || s[from] == '\n') {
        gap_end(s, from + 1)
    } else {
        from
    }
}

/// An operator of a redirection and the number of its characters.
pub struct Redirection {
    pub operation: IoOperation,
    pub length: int,
}

/// The operator of a redirection that stands at `p`, the longest one that
/// does.
pub open spec fn io_operator_at(s: Seq<char>, p: int) -> Option<Redirection> {
    if stands_at(s, p, seq!['<', '<', '-']) {
        Some(Redirection { operation: IoOperation::HereDocumentStrip, length: 3 })
    } else if stands_at(s, p, seq!['>', '>']) {
        Some(Redirection { operation: IoOperation::OutputAppend, length: 2 })
    } else if stands_at(s, p, seq!['<', '<']) {
        Some(Redirection { operation: IoOperation::HereDocument, length: 2 })
    } else if stands_at(s, p, seq!['>', '|']) {
        Some(Redirection { operation: IoOperation::Output, length: 2 })
    } else if stands_at(s, p, seq!['<', '&']) {
        Some(Redirection { operation: IoOperation::InputDupFd, length: 2 })
    } else if stands_at(s, p, seq!['>', '&']) {
        Some(Redirection { operation: IoOperation::OutputDupFd, length: 2 })
    } else if stands_at(s, p, seq!['<', '>']) {
        Some(Redirection { operation: IoOperation::ReadWrite, length: 2 })
    } else if stands_at(s, p, seq!['<']) {
        Some(Redirection { operation: IoOperation::Input, length: 1 })
    } else if stands_at(s, p, seq!['>']) {
        Some(Redirection { operation: IoOperation::OutputCreate, length: 1 })
    } else {
        None
    }
}

/// Whether digits stand at `p` with `<` or `>` right behind them: such
/// digits are the descriptor of a redirection, and no word.
pub open spec fn io_number_at(s: Seq<char>, p: int) -> bool {
    let d = run_end(s, p, CharClass::Digit);
    d > p && 0 <= d < s.len() && (s[d] == '<' || s[d] == '>')
}

/// What was read, and the place behind it.
pub struct Read<T> {
    pub value: T,
    pub end: int,
}

/// The redirection that starts at `p`: digits that name a descriptor, if
/// there are any, the operator, and the word behind it, which may be
/// missing.
pub open spec fn destination_at(s: Seq<char>, p: int) -> Option<Read<RedirectView>> {
    let d = run_end(s, p, CharClass::Digit);
    if d > p && descriptor_number(s.subrange(p, d)) is None {
        None
    } else {
        match io_operator_at(s, d) {
            None => None,
            Some(op) => {
                let start = blank_end(s, d + op.length);
                let word = pieces_from(s, start, Place::Unquoted, 0);
                Some(
                    Read {
                        value: RedirectView {
                            operation: op.operation,
                            fd: if d > p {
                                descriptor_number(s.subrange(p, d))
                            } else {
                                None
                            },
                            file: if word.end > start {
                                word.parts
                            } else {
                                Seq::empty()
                            },
                        },
                        end: if word.end > start {
                            word.end
                        } else {
                            d + op.length
                        },
                    },
                )
            },
        }
    }
}

/// The redirections from `p` on, with blanks between them.
pub open spec fn redirects_from(s: Seq<char>, p: int) -> Read<Seq<RedirectView>>
    decreases s.len() - p,
{
    let q = blank_end(s, p);
    match destination_at(s, q) {
        Some(r) => if p <= q < r.end <= s.len() {
            let rest = redirects_from(s, r.end);
            Read { value: seq![r.value] + rest.value, end: rest.end }
        } else {
            Read { value: Seq::empty(), end: p }
        },
        None => Read { value: Seq::empty(), end: p },
    }
}

/// The words from `p` on, with blanks between them. Digits before `<` or
/// `>` are no word.
pub open spec fn words_from(s: Seq<char>, p: int) -> Read<Seq<Seq<PartView>>>
    decreases s.len() - p,
{
    let q = blank_end(s, p);
    let word = pieces_from(s, q, Place::Unquoted, 0);
    if !io_number_at(s, q) && p <= q < word.end <= s.len() {
        let rest = words_from(s, word.end);
        Read { value: seq![word.parts] + rest.value, end: rest.end }
    } else {
        Read { value: Seq::empty(), end: p }
    }
}

/// The text `function`.
pub open spec fn function_keyword() -> Seq<char> {
    seq!['f', 'u', 'n', 'c', 't', 'i', 'o', 'n']
}

/// The commands from `p` on, parted by `;`, `&` or line feeds.
pub open spec fn commands_from(s: Seq<char>, p: int) -> Read<Seq<CommandView>>
    decreases s.len() - p, 9nat,
{
    let q = gap_end(s, p);
    if !(0 <= p <= q <= s.len()) {
        Read { value: Seq::empty(), end: p }
    } else {
        match list_at(s, q) {
            Some(r) => if q < r.end <= s.len() {
                let rest = commands_from(s, r.end);
                Read { value: seq![r.value] + rest.value, end: rest.end }
            } else {
                Read { value: Seq::empty(), end: q }
            },
            None => Read { value: Seq::empty(), end: q },
        }
    }
}

/// The list that starts at `p`: pipelines joined by `&&` and `||`, which
/// group from the left.
pub open spec fn list_at(s: Seq<char>, p: int) -> Option<Read<CommandView>>
    decreases s.len() - p, 8nat,
{
    match pipeline_at(s, p) {
        Some(r) => if p <= r.end <= s.len() {
            Some(list_more(s, r.end, r.value))
        } else {
            None
        },
        None => None,
    }
}

/// The list that `left` begins and that goes on at `p`.
pub open spec fn list_more(s: Seq<char>, p: int, left: CommandView) -> Read<CommandView>
    decreases s.len() - p, 7nat,
{
    let q = blank_end(s, p);
    if 0 <= p <= q && (stands_at(s, q, seq!['&', '&']) || stands_at(s, q, seq!['|', '|'])) {
        match pipeline_at(s, q + 2) {
            Some(r) => if p < r.end <= s.len() {
                list_more(
                    s,
                    r.end,
                    CommandView::ConditionalPair {
                        left: Box::new(left),
                        operator: if s[q] == '&' {
                            ConditionOperator::AndIf
                        } else {
                            ConditionOperator::OrIf
                        },
                        right: Box::new(r.value),
                    },
                )
            } else {
                Read { value: left, end: p }
            },
            None => Read { value: left, end: p },
        }
    } else {
        Read { value: left, end: p }
    }
}

/// The pipeline that starts at `p`: an optional `!` and commands joined by
/// `|`, which group from the left.
pub open spec fn pipeline_at(s: Seq<char>, p: int) -> Option<Read<CommandView>>
    decreases s.len() - p, 6nat,
{
    let q = blank_end(s, p);
    if !(0 <= p <= q <= s.len()) {
        None
    } else {
        let bang = q < s.len() && s[q] == '!';
        let start = if bang {
            q + 1
        } else {
            q
        };
        match redirect_at(s, start) {
            Some(r) => if start <= r.end <= s.len() {
                Some(pipeline_more(s, r.end, r.value, bang))
            } else {
                None
            },
            None => None,
        }
    }
}

/// The pipeline that `left` begins and that goes on at `p`.
pub open spec fn pipeline_more(s: Seq<char>, p: int, left: CommandView, bang: bool) -> Read<
    CommandView,
>
    decreases s.len() - p, 5nat,
{
    let q = blank_end(s, p);
    if 0 <= p <= q < s.len() && s[q] == '|' && !(q + 1 < s.len() && s[q + 1] == '|') {
        match redirect_at(s, q + 1) {
            Some(r) => if p < r.end <= s.len() {
                pipeline_more(
                    s,
                    r.end,
                    CommandView::Pipeline { bang, from: Box::new(left), to: Box::new(r.value) },
                    bang,
                )
            } else {
                Read { value: left, end: p }
            },
            None => Read { value: left, end: p },
        }
    } else {
        Read { value: left, end: p }
    }
}

/// The command that starts at `p`, with the redirections behind it.
pub open spec fn redirect_at(s: Seq<char>, p: int) -> Option<Read<CommandView>>
    decreases s.len() - p, 4nat,
{
    match element_at(s, p) {
        Some(r) => {
            let more = redirects_from(s, r.end);
            if more.value.len() > 0 {
                Some(
                    Read {
                        value: CommandView::FileRedirect {
                            left: Box::new(r.value),
                            redirects: more.value,
                        },
                        end: more.end,
                    },
                )
            } else {
                Some(r)
            }
        },
        None => None,
    }
}

/// The command that starts at `p`: a function definition, a group in
/// braces, a comment, or a simple command of at least one word.
pub open spec fn element_at(s: Seq<char>, p: int) -> Option<Read<CommandView>>
    decreases s.len() - p, 3nat,
{
    let q = blank_end(s, p);
    if !(0 <= p <= q < s.len()) {
        None
    } else if function_at(s, q) is Some {
        function_at(s, q)
    } else if s[q] == '{' {
        group_at(s, q)
    } else if s[q] == '#' {
        Some(
            Read {
                value: CommandView::Comment(s.subrange(q + 1, find_from(s, '\n', q + 1))),
                end: find_from(s, '\n', q + 1),
            },
        )
    } else {
        let words = words_from(s, q);
        if words.value.len() > 0 {
            Some(Read { value: CommandView::Simple(words.value), end: words.end })
        } else {
            None
        }
    }
}

/// The function definition that starts at `q`: the word `function`, blanks,
/// the name, and the body in braces.
pub open spec fn function_at(s: Seq<char>, q: int) -> Option<Read<CommandView>>
    decreases s.len() - q, 2nat,
{
    let start = blank_end(s, q + 8);
    let name = pieces_from(s, start, Place::Unquoted, 0);
    let brace = blank_end(s, name.end);
    if 0 <= q && stands_at(s, q, function_keyword()) && q + 8 < start < name.end <= brace
        < s.len() && s[brace] == '{' {
        match group_at(s, brace) {
            Some(body) => Some(
                Read {
                    value: CommandView::Function { name: name.parts, body: Box::new(body.value) },
                    end: body.end,
                },
            ),
            None => None,
        }
    } else {
        None
    }
}

/// The group that starts with the brace at `q` and ends with the brace
/// that closes it.
pub open spec fn group_at(s: Seq<char>, q: int) -> Option<Read<CommandView>>
    decreases s.len() - q, 1nat,
{
    if 0 <= q < s.len() {
        let inner = commands_from(s, q + 1);
        if 0 <= inner.end < s.len() && s[inner.end] == '}' {
            Some(Read { value: CommandView::Group(inner.value), end: inner.end + 1 })
        } else {
            None
        }
    } else {
        None
    }
}

/// The command line that `s` begins with: a group of the commands that
/// can be read from its start on.
pub open spec fn commandline(s: Seq<char>) -> CommandView {
    CommandView::Group(commands_from(s, 0).value)
}

fn skip_blanks(chars: &Vec<char>, from: usize) -> (end: usize)
    requires
        from <= chars.len(),
    ensures
        end == blank_end(chars@, from as int),
        from <= end <= chars.len(),
{
    let mut i: usize = from;
    while i < chars.len() && (chars[i] == ' ' || chars[i] == '\t')
        invariant
            from <= i <= chars.len(),
            blank_end(chars@, i as int) == blank_end(chars@, from as int),
        decreases chars.len() - i,
    {
        i += 1;
    }
    i
}

fn skip_gap(chars: &Vec<char>, from: usize) -> (end: usize)
    requires
        from <= chars.len(),
    ensures
        end == gap_end(chars@, from as int),
        from <= end <= chars.len(),
{
    let mut i: usize = from;
    while i < chars.len() && (chars[i] == ' ' || chars[i] == '\t' || chars[i] == ';' || chars[i]
        == '&' || chars[i] == '\n')
        invariant
            from <= i <= chars.len(),
            gap_end(chars@, i as int) == gap_end(chars@, from as int),
        decreases chars.len() - i,
    {
        i += 1;
    }
    i
}

fn find_line_end(chars: &Vec<char>, from: usize) -> (end: usize)
    requires
        from <= chars.len(),
    ensures
        end == find_from(chars@, '\n', from as int),
        from <= end <= chars.len(),
{
    let mut i: usize = from;
    while i < chars.len() && chars[i] != '\n'
        invariant
            from <= i <= chars.len(),
            find_from(chars@, '\n', i as int) == find_from(chars@, '\n', from as int),
        decreases chars.len() - i,
    {
        i += 1;
    }
    i
}

/// Whether the characters of `text` stand at `p`.
fn matches_at(chars: &Vec<char>, p: usize, text: &Vec<char>) -> (r: bool)
    ensures
        r == stands_at(chars@, p as int, text@),
{
    if p > chars.len() || chars.len() - p < text.len() {
        return false;
    }
    let mut i: usize = 0;
    while i < text.len()
        invariant
            i <= text.len(),
            p + text.len() <= chars.len(),
            forall|k: int| 0 <= k < i ==> chars@[p + k] == text@[k],
        decreases text.len() - i,
    {
        if chars[p + i] != text[i] {
            proof {
                let t = chars@.subrange(p as int, p + text.len());
                assert(t[i as int] != text@[i as int]);
            }
            return false;
        }
        i += 1;
    }
    assert(chars@.subrange(p as int, p + text.len()) =~= text@);
    true
}

fn read_io_operator(chars: &Vec<char>, p: usize) -> (r: Option<(IoOperation, usize)>)
    ensures
        match r {
            Some((operation, length)) => io_operator_at(chars@, p as int) == Some(
                Redirection { operation, length: length as int },
            ) && 1 <= length <= 3 && p + length <= chars.len(),
            None => io_operator_at(chars@, p as int) is None,
        },
{
    let strip = vec!['<', '<', '-'];
    let append = vec!['>', '>'];
    let here = vec!['<', '<'];
    let clobber = vec!['>', '|'];
    let dup_in = vec!['<', '&'];
    let dup_out = vec!['>', '&'];
    let both = vec!['<', '>'];
    let input = vec!['<'];
    let output = vec!['>'];
    assert(strip@ =~= seq!['<', '<', '-']);
    assert(append@ =~= seq!['>', '>']);
    assert(here@ =~= seq!['<', '<']);
    assert(clobber@ =~= seq!['>', '|']);
    assert(dup_in@ =~= seq!['<', '&']);
    assert(dup_out@ =~= seq!['>', '&']);
    assert(both@ =~= seq!['<', '>']);
    assert(input@ =~= seq!['<']);
    assert(output@ =~= seq!['>']);
    if matches_at(chars, p, &strip) {
        Some((IoOperation::HereDocumentStrip, 3))
    } else if matches_at(chars, p, &append) {
        Some((IoOperation::OutputAppend, 2))
    } else if matches_at(chars, p, &here) {
        Some((IoOperation::HereDocument, 2))
    } else if matches_at(chars, p, &clobber) {
        Some((IoOperation::Output, 2))
    } else if matches_at(chars, p, &dup_in) {
        Some((IoOperation::InputDupFd, 2))
    } else if matches_at(chars, p, &dup_out) {
        Some((IoOperation::OutputDupFd, 2))
    } else if matches_at(chars, p, &both) {
        Some((IoOperation::ReadWrite, 2))
    } else if matches_at(chars, p, &input) {
        Some((IoOperation::Input, 1))
    } else if matches_at(chars, p, &output) {
        Some((IoOperation::OutputCreate, 1))
    } else {
        None
    }
}

fn is_io_number(chars: &Vec<char>, p: usize) -> (r: bool)
    requires
        p <= chars.len(),
    ensures
        r == io_number_at(chars@, p as int),
{
    let d = scan_run(chars, p, CharClass::Digit);
    d > p && d < chars.len() && (chars[d] == '<' || chars[d] == '>')
}

fn read_destination(chars: &Vec<char>, p: usize) -> (r: Option<(RedirectDestination, usize)>)
    requires
        p <= chars.len(),
    ensures
        match r {
            Some((redirect, end)) => destination_at(chars@, p as int) == Some(
                Read { value: redirect@, end: end as int },
            ) && p < end <= chars.len(),
            None => destination_at(chars@, p as int) is None,
        },
{
    let d = scan_run(chars, p, CharClass::Digit);
    let fd = if d > p {
        match parse_descriptor(substring(chars, p, d).as_str()) {
            Some(fd) => Some(fd),
            None => {
                return None;
            },
        }
    } else {
        None
    };
    match read_io_operator(chars, d) {
        None => None,
        Some((operation, length)) => {
            let start = skip_blanks(chars, d + length);
            let (word, end) = read_word(chars, start);
            if end > start {
                Some((RedirectDestination { operation, fd, file: word }, end))
            } else {
                Some((RedirectDestination { operation, fd, file: Word::new() }, d + length))
            }
        },
    }
}

fn read_redirects(chars: &Vec<char>, p: usize) -> (r: (Vec<RedirectDestination>, usize))
    requires
        p <= chars.len(),
    ensures
        redirects_view(r.0@) == redirects_from(chars@, p as int).value,
        r.1 == redirects_from(chars@, p as int).end,
        p <= r.1 <= chars.len(),
    decreases chars.len() - p,
{
    let q = skip_blanks(chars, p);
    match read_destination(chars, q) {
        Some((redirect, end)) => {
            let (rest, last) = read_redirects(chars, end);
            let mut all: Vec<RedirectDestination> = vec![redirect];
            let ghost first = redirects_view(all@);
            let mut rest = rest;
            let ghost tail = redirects_view(rest@);
            all.append(&mut rest);
            assert(redirects_view(all@) =~= first + tail);
            assert(first =~= seq![redirect@]);
            (all, last)
        },
        None => {
            let all: Vec<RedirectDestination> = Vec::new();
            assert(redirects_view(all@) =~= Seq::<RedirectView>::empty());
            (all, p)
        },
    }
}

fn read_words(chars: &Vec<char>, p: usize) -> (r: (Vec<Word>, usize))
    requires
        p <= chars.len(),
    ensures
        words_view(r.0@) == words_from(chars@, p as int).value,
        r.1 == words_from(chars@, p as int).end,
        p <= r.1 <= chars.len(),
    decreases chars.len() - p,
{
    let q = skip_blanks(chars, p);
    if !is_io_number(chars, q) {
        let (word, end) = read_word(chars, q);
        if end > q {
            let (rest, last) = read_words(chars, end);
            let mut all: Vec<Word> = vec![word];
            let ghost first = words_view(all@);
            let mut rest = rest;
            let ghost tail = words_view(rest@);
            all.append(&mut rest);
            assert(words_view(all@) =~= first + tail);
            assert(first =~= seq![word@]);
            return (all, last);
        }
    }
    let all: Vec<Word> = Vec::new();
    assert(words_view(all@) =~= Seq::<Seq<PartView>>::empty());
    (all, p)
}

/// Reads the commands from `p` on.
fn read_commands(chars: &Vec<char>, p: usize) -> (r: (Vec<Command>, usize))
    requires
        p <= chars.len(),
    ensures
        commands(r.0@) == commands_from(chars@, p as int).value,
        r.1 == commands_from(chars@, p as int).end,
        p <= r.1 <= chars.len(),
    decreases chars.len() - p, 9nat,
{
    let q = skip_gap(chars, p);
    match read_list(chars, q) {
        Some((command, end)) => {
            if q < end {
                let (rest, last) = read_commands(chars, end);
                let mut all: Vec<Command> = vec![command];
                let ghost first = commands(all@);
                let mut rest = rest;
                let ghost tail = commands(rest@);
                all.append(&mut rest);
                assert(commands(all@) =~= first + tail);
                assert(first =~= seq![command@]);
                (all, last)
            } else {
                let all: Vec<Command> = Vec::new();
                assert(commands(all@) =~= Seq::<CommandView>::empty());
                (all, q)
            }
        },
        None => {
            let all: Vec<Command> = Vec::new();
            assert(commands(all@) =~= Seq::<CommandView>::empty());
            (all, q)
        },
    }
}

fn read_list(chars: &Vec<char>, p: usize) -> (r: Option<(Command, usize)>)
    requires
        p <= chars.len(),
    ensures
        match r {
            Some((command, end)) => list_at(chars@, p as int) == Some(
                Read { value: command@, end: end as int },
            ) && p <= end <= chars.len(),
            None => list_at(chars@, p as int) is None,
        },
    decreases chars.len() - p, 8nat,
{
    match read_pipeline(chars, p) {
        Some((first, end)) => Some(read_list_more(chars, end, first)),
        None => None,
    }
}

fn read_list_more(chars: &Vec<char>, p: usize, left: Command) -> (r: (Command, usize))
    requires
        p <= chars.len(),
    ensures
        list_more(chars@, p as int, left@) == (Read { value: r.0@, end: r.1 as int }),
        p <= r.1 <= chars.len(),
    decreases chars.len() - p, 7nat,
{
    let q = skip_blanks(chars, p);
    let ands = vec!['&', '&'];
    let ors = vec!['|', '|'];
    assert(ands@ =~= seq!['&', '&']);
    assert(ors@ =~= seq!['|', '|']);
    let and = matches_at(chars, q, &ands);
    let or = matches_at(chars, q, &ors);
    if and || or {
        match read_pipeline(chars, q + 2) {
            Some((right, end)) => {
                if p < end {
                    let operator = if chars[q] == '&' {
                        ConditionOperator::AndIf
                    } else {
                        ConditionOperator::OrIf
                    };
                    return read_list_more(chars, end, Command::conditional(left, operator, right));
                }
            },
            None => {},
        }
    }
    (left, p)
}

fn read_pipeline(chars: &Vec<char>, p: usize) -> (r: Option<(Command, usize)>)
    requires
        p <= chars.len(),
    ensures
        match r {
            Some((command, end)) => pipeline_at(chars@, p as int) == Some(
                Read { value: command@, end: end as int },
            ) && p <= end <= chars.len(),
            None => pipeline_at(chars@, p as int) is None,
        },
    decreases chars.len() - p, 6nat,
{
    let q = skip_blanks(chars, p);
    let bang = q < chars.len() && chars[q] == '!';
    let start = if bang {
        q + 1
    } else {
        q
    };
    match read_redirect(chars, start) {
        Some((first, end)) => Some(read_pipeline_more(chars, end, first, bang)),
        None => None,
    }
}

fn read_pipeline_more(chars: &Vec<char>, p: usize, left: Command, bang: bool) -> (r: (
    Command,
    usize,
))
    requires
        p <= chars.len(),
    ensures
        pipeline_more(chars@, p as int, left@, bang) == (Read { value: r.0@, end: r.1 as int }),
        p <= r.1 <= chars.len(),
    decreases chars.len() - p, 5nat,
{
    let q = skip_blanks(chars, p);
    if q < chars.len() && chars[q] == '|' && !(q + 1 < chars.len() && chars[q + 1] == '|') {
        match read_redirect(chars, q + 1) {
            Some((right, end)) => {
                if p < end {
                    return read_pipeline_more(
                        chars,
                        end,
                        Command::pipeline(bang, left, right),
                        bang,
                    );
                }
            },
            None => {},
        }
    }
    (left, p)
}

fn read_redirect(chars: &Vec<char>, p: usize) -> (r: Option<(Command, usize)>)
    requires
        p <= chars.len(),
    ensures
        match r {
            Some((command, end)) => redirect_at(chars@, p as int) == Some(
                Read { value: command@, end: end as int },
            ) && p <= end <= chars.len(),
            None => redirect_at(chars@, p as int) is None,
        },
    decreases chars.len() - p, 4nat,
{
    match read_element(chars, p) {
        Some((command, end)) => {
            let (redirects, last) = read_redirects(chars, end);
            if redirects.len() > 0 {
                Some((Command::redirect(command, redirects), last))
            } else {
                Some((command, end))
            }
        },
        None => None,
    }
}

fn read_element(chars: &Vec<char>, p: usize) -> (r: Option<(Command, usize)>)
    requires
        p <= chars.len(),
    ensures
        match r {
            Some((command, end)) => element_at(chars@, p as int) == Some(
                Read { value: command@, end: end as int },
            ) && p <= end <= chars.len(),
            None => element_at(chars@, p as int) is None,
        },
    decreases chars.len() - p, 3nat,
{
    let q = skip_blanks(chars, p);
    if q >= chars.len() {
        return None;
    }
    match read_function(chars, q) {
        Some(r) => {
            return Some(r);
        },
        None => {},
    }
    if chars[q] == '{' {
        return read_group(chars, q);
    }
    if chars[q] == '#' {
        let end = find_line_end(chars, q + 1);
        return Some((Command::Comment(substring(chars, q + 1, end)), end));
    }
    let (words, end) = read_words(chars, q);
    if words.len() > 0 {
        Some((Command::simple(words), end))
    } else {
        None
    }
}

fn read_function(chars: &Vec<char>, q: usize) -> (r: Option<(Command, usize)>)
    requires
        q < chars.len(),
    ensures
        match r {
            Some((command, end)) => function_at(chars@, q as int) == Some(
                Read { value: command@, end: end as int },
            ) && q <= end <= chars.len(),
            None => function_at(chars@, q as int) is None,
        },
    decreases chars.len() - q, 2nat,
{
    let keyword = vec!['f', 'u', 'n', 'c', 't', 'i', 'o', 'n'];
    assert(keyword@ =~= function_keyword());
    if !matches_at(chars, q, &keyword) {
        return None;
    }
    let start = skip_blanks(chars, q + 8);
    if start <= q + 8 {
        return None;
    }
    let (name, end) = read_word(chars, start);
    if end <= start {
        return None;
    }
    let brace = skip_blanks(chars, end);
    if brace >= chars.len() || chars[brace] != '{' {
        return None;
    }
    match read_group(chars, brace) {
        Some((body, last)) => Some(
            (Command::Function(Box::new(Function { name, body })), last),
        ),
        None => None,
    }
}

fn read_group(chars: &Vec<char>, q: usize) -> (r: Option<(Command, usize)>)
    requires
        q < chars.len(),
    ensures
        match r {
            Some((command, end)) => group_at(chars@, q as int) == Some(
                Read { value: command@, end: end as int },
            ) && q < end <= chars.len(),
            None => group_at(chars@, q as int) is None,
        },
    decreases chars.len() - q, 1nat,
{
    let (inner, end) = read_commands(chars, q + 1);
    if end < chars.len() && chars[end] == '}' {
        let ghost view = commands(inner@);
        let command = Command::group(inner);
        assert(command@->Group_0 =~= view);
        Some((command, end + 1))
    } else {
        None
    }
}

/// Reads the command line that `s` begins with, and tells how many of the
/// characters of `s` belong to it.
pub fn parse_commandline(s: &str) -> (r: (Command, usize))
    ensures
        r.0@ == commandline(s@),
        r.1 == commands_from(s@, 0).end,
        r.1 <= s@.len(),
{
    let chars = chars_of(s);
    let (list, end) = read_commands(&chars, 0);
    let ghost view = commands(list@);
    let command = Command::group(list);
    assert(command@->Group_0 =~= view);
    (command, end)
}

/// The words that `s` begins with, with blanks between them.
pub fn split_words(s: &str) -> (r: Vec<Word>)
    ensures
        words_view(r@) == words_from(s@, 0).value,
{
    let chars = chars_of(s);
    read_words(&chars, 0).0
}

impl Command {
    /// The command line that `s` begins with. What follows it does not
    /// count.
    pub fn from(s: &str) -> (c: Command)
        ensures
            c@ == commandline(s@),
    {
        parse_commandline(s).0
    }
}

} // verus!
