//! Command trees.

use crate::lang::word::{PartView, Word};
use vstd::prelude::*;

verus! {

/// What parts two commands of a line.
#[derive(Debug, Clone, Copy, PartialEq, Eq, Structural)]
pub enum Separator {
    /// `;`
    Stop,
    /// `&`
    Fork,
    /// A line feed.
    Eol,
}

/// The operator of a conditional pair.
#[derive(Debug, Clone, Copy, PartialEq, Eq, Structural)]
pub enum ConditionOperator {
    /// `&&`: the right side runs if the left side succeeded.
    AndIf,
    /// `||`: the right side runs if the left side failed.
    OrIf,
}

/// The operator of a redirection.
#[derive(Debug, Clone, Copy, PartialEq, Eq, Structural)]
pub enum IoOperation {
    /// `<`
    Input,
    /// `>`
    OutputCreate,
    /// `>|`
    Output,
    /// `>>`
    OutputAppend,
    /// `<<`
    HereDocument,
    /// `<<-`
    HereDocumentStrip,
    /// `<&`
    InputDupFd,
    /// `>&`
    OutputDupFd,
    /// `<>`
    ReadWrite,
}

/// A command tree.
#[derive(Debug, PartialEq, Eq)]
pub enum Command {
    SimpleCommand(SimpleCommand),
    Pipeline(Box<Pipeline>),
    FileRedirect(Box<FileRedirect>),
    ConditionalPair(Box<ConditionalPair>),
    Group(Box<CommandGroup>),
    BraceGroup(Box<CommandGroup>),
    SubShell(Box<CommandGroup>),
    If(Box<If>),
    Case(Box<Case>),
    While(Box<While>),
    For(Box<For>),
    Until(Box<Until>),
    Function(Box<Function>),
    Comment(String),
}

/// A program and its arguments; the first word names the program.
#[derive(Debug, PartialEq, Eq)]
pub struct SimpleCommand {
    pub arguments: Vec<Word>,
}

#[derive(Debug, PartialEq, Eq)]
pub struct CommandGroup {
    pub commands: Vec<Command>,
}

#[derive(Debug, PartialEq, Eq)]
pub struct If {
    pub condition: Command,
    pub success: Command,
    pub failure: Command,
}

#[derive(Debug, PartialEq, Eq)]
pub struct While {
    pub condition: Command,
    pub body: Command,
}

#[derive(Debug, PartialEq, Eq)]
pub struct Until {
    pub condition: Command,
    pub body: Command,
}

#[derive(Debug, PartialEq, Eq)]
pub struct For {
    pub condition: Command,
    pub body: Command,
}

#[derive(Debug, PartialEq, Eq)]
pub struct Function {
    pub name: Word,
    pub body: Command,
}

#[derive(Debug, PartialEq, Eq)]
pub struct Case {
    pub input: Word,
    pub cases: Vec<(Word, Command)>,
}

/// Two commands joined by a pipe: what `from` writes, `to` reads.
#[derive(Debug, PartialEq, Eq)]
pub struct Pipeline {
    pub bang: bool,
    pub from: Command,
    pub to: Command,
}

#[derive(Debug, PartialEq, Eq)]
pub struct ConditionalPair {
    pub left: Command,
    pub operator: ConditionOperator,
    pub right: Command,
}

/// One redirection: the operator, the descriptor written before it, if any,
/// and the word behind it.
#[derive(Debug, PartialEq, Eq)]
pub struct RedirectDestination {
    pub operation: IoOperation,
    pub fd: Option<i32>,
    pub file: Word,
}

/// A command with redirections.
#[derive(Debug, PartialEq, Eq)]
pub struct FileRedirect {
    pub left: Command,
    pub redirects: Vec<RedirectDestination>,
}

pub struct RedirectView {
    pub operation: IoOperation,
    pub fd: Option<i32>,
    pub file: Seq<PartView>,
}

/// What a command tree stands for in contracts.
pub enum CommandView {
    Simple(Seq<Seq<PartView>>),
    Pipeline { bang: bool, from: Box<CommandView>, to: Box<CommandView> },
    FileRedirect { left: Box<CommandView>, redirects: Seq<RedirectView> },
    ConditionalPair { left: Box<CommandView>, operator: ConditionOperator, right: Box<CommandView> },
    Group(Seq<CommandView>),
    BraceGroup(Seq<CommandView>),
    SubShell(Seq<CommandView>),
    If { condition: Box<CommandView>, success: Box<CommandView>, failure: Box<CommandView> },
    Case { input: Seq<PartView>, patterns: Seq<Seq<PartView>>, bodies: Seq<CommandView> },
    While { condition: Box<CommandView>, body: Box<CommandView> },
    For { condition: Box<CommandView>, body: Box<CommandView> },
    Until { condition: Box<CommandView>, body: Box<CommandView> },
    Function { name: Seq<PartView>, body: Box<CommandView> },
    Comment(Seq<char>),
}

impl View for RedirectDestination {
    type V = RedirectView;

    open spec fn view(&self) -> RedirectView {
        RedirectView { operation: self.operation, fd: self.fd, file: self.file@ }
    }
}

/// What a sequence of words stands for in contracts.
pub open spec fn words_view(words: Seq<Word>) -> Seq<Seq<PartView>> {
    Seq::new(words.len(), |i: int| words[i]@)
}

/// What a sequence of redirections stands for in contracts.
pub open spec fn redirects_view(redirects: Seq<RedirectDestination>) -> Seq<RedirectView> {
    Seq::new(redirects.len(), |i: int| redirects[i]@)
}

impl View for Command {
    type V = CommandView;

    open spec fn view(&self) -> CommandView
        decreases self,
    {
        match self {
            Command::SimpleCommand(c) => CommandView::Simple(words_view(c.arguments@)),
            Command::Pipeline(p) => CommandView::Pipeline {
                bang: p.bang,
                from: Box::new(p.from.view()),
                to: Box::new(p.to.view()),
            },
            Command::FileRedirect(r) => CommandView::FileRedirect {
                left: Box::new(r.left.view()),
                redirects: redirects_view(r.redirects@),
            },
            Command::ConditionalPair(c) => CommandView::ConditionalPair {
                left: Box::new(c.left.view()),
                operator: c.operator,
                right: Box::new(c.right.view()),
            },
            Command::Group(g) => CommandView::Group(
                Seq::new(
                    g.commands@.len(),
                    |i: int|
                        if 0 <= i < g.commands@.len() {
                            g.commands@[i].view()
                        } else {
                            CommandView::Comment(Seq::empty())
                        },
                ),
            ),
            Command::BraceGroup(g) => CommandView::BraceGroup(
                Seq::new(
                    g.commands@.len(),
                    |i: int|
                        if 0 <= i < g.commands@.len() {
                            g.commands@[i].view()
                        } else {
                            CommandView::Comment(Seq::empty())
                        },
                ),
            ),
            Command::SubShell(g) => CommandView::SubShell(
                Seq::new(
                    g.commands@.len(),
                    |i: int|
                        if 0 <= i < g.commands@.len() {
                            g.commands@[i].view()
                        } else {
                            CommandView::Comment(Seq::empty())
                        },
                ),
            ),
            Command::If(c) => CommandView::If {
                condition: Box::new(c.condition.view()),
                success: Box::new(c.success.view()),
                failure: Box::new(c.failure.view()),
            },
            Command::Case(c) => CommandView::Case {
                input: c.input@,
                patterns: Seq::new(c.cases@.len(), |i: int| c.cases@[i].0@),
                bodies: Seq::new(
                    c.cases@.len(),
                    |i: int|
                        if 0 <= i < c.cases@.len() {
                            c.cases@[i].1.view()
                        } else {
                            CommandView::Comment(Seq::empty())
                        },
                ),
            },
            Command::While(c) => CommandView::While {
                condition: Box::new(c.condition.view()),
                body: Box::new(c.body.view()),
            },
            Command::For(c) => CommandView::For {
                condition: Box::new(c.condition.view()),
                body: Box::new(c.body.view()),
            },
            Command::Until(c) => CommandView::Until {
                condition: Box::new(c.condition.view()),
                body: Box::new(c.body.view()),
            },
            Command::Function(f) => CommandView::Function {
                name: f.name@,
                body: Box::new(f.body.view()),
            },
            Command::Comment(text) => CommandView::Comment(text@),
        }
    }
}

/// A copy of the words.
pub fn duplicate_words(words: &Vec<Word>) -> (r: Vec<Word>)
    ensures
        words_view(r@) == words_view(words@),
{
    let mut r: Vec<Word> = Vec::new();
    let mut i: usize = 0;
    while i < words.len()
        invariant
            i <= words.len(),
            r@.len() == i,
            forall|k: int| 0 <= k < i ==> r@[k]@ == words@[k]@,
        decreases words.len() - i,
    {
        r.push(words[i].duplicate());
        i += 1;
    }
    assert(words_view(r@) =~= words_view(words@));
    r
}

impl Clone for RedirectDestination {
    fn clone(&self) -> (r: Self)
        ensures
            r@ == self@,
    {
        RedirectDestination { operation: self.operation, fd: self.fd, file: self.file.duplicate() }
    }
}

impl RedirectDestination {
    /// A redirection; without a word, the word is empty.
    pub fn new(operation: IoOperation, fd: Option<i32>, file: Option<Word>) -> (r:
        RedirectDestination)
        ensures
            r.operation == operation,
            r.fd == fd,
            r.file@ == match file {
                Some(w) => w@,
                None => Seq::empty(),
            },
    {
        RedirectDestination {
            operation,
            fd,
            file: match file {
                Some(w) => w,
                None => Word::new(),
            },
        }
    }
}

impl Command {
    /// A copy of the tree.
    #[verifier::loop_isolation(false)]
    pub fn duplicate(&self) -> (r: Command)
        ensures
            r@ == self@,
        decreases self,
    {
        match self {
            Command::SimpleCommand(c) => Command::SimpleCommand(
                SimpleCommand { arguments: duplicate_words(&c.arguments) },
            ),
            Command::Pipeline(p) => Command::Pipeline(
                Box::new(Pipeline { bang: p.bang, from: p.from.duplicate(), to: p.to.duplicate() }),
            ),
            Command::FileRedirect(f) => {
                let mut redirects: Vec<RedirectDestination> = Vec::new();
                let mut i: usize = 0;
                while i < f.redirects.len()
                    invariant
                        i <= f.redirects.len(),
                        redirects@.len() == i,
                        forall|k: int| 0 <= k < i ==> redirects@[k]@ == f.redirects@[k]@,
                    decreases f.redirects.len() - i,
                {
                    redirects.push(f.redirects[i].clone());
                    i += 1;
                }
                assert(redirects_view(redirects@) =~= redirects_view(f.redirects@));
                Command::FileRedirect(Box::new(FileRedirect { left: f.left.duplicate(), redirects }))
            },
            Command::ConditionalPair(c) => Command::ConditionalPair(
                Box::new(
                    ConditionalPair {
                        left: c.left.duplicate(),
                        operator: c.operator,
                        right: c.right.duplicate(),
                    },
                ),
            ),
            Command::Group(g) => {
                let mut commands: Vec<Command> = Vec::new();
                let mut i: usize = 0;
                while i < g.commands.len()
                    invariant
                        i <= g.commands.len(),
                        commands@.len() == i,
                        forall|k: int| 0 <= k < i ==> commands@[k]@ == g.commands@[k]@,
                    decreases g.commands.len() - i,
                {
                    commands.push(g.commands[i].duplicate());
                    i += 1;
                }
                let r = Command::Group(Box::new(CommandGroup { commands }));
                assert(r@->Group_0 =~= self@->Group_0);
                r
            },
            Command::BraceGroup(g) => {
                let mut commands: Vec<Command> = Vec::new();
                let mut i: usize = 0;
                while i < g.commands.len()
                    invariant
                        i <= g.commands.len(),
                        commands@.len() == i,
                        forall|k: int| 0 <= k < i ==> commands@[k]@ == g.commands@[k]@,
                    decreases g.commands.len() - i,
                {
                    commands.push(g.commands[i].duplicate());
                    i += 1;
                }
                let r = Command::BraceGroup(Box::new(CommandGroup { commands }));
                assert(r@->BraceGroup_0 =~= self@->BraceGroup_0);
                r
            },
            Command::SubShell(g) => {
                let mut commands: Vec<Command> = Vec::new();
                let mut i: usize = 0;
                while i < g.commands.len()
                    invariant
                        i <= g.commands.len(),
                        commands@.len() == i,
                        forall|k: int| 0 <= k < i ==> commands@[k]@ == g.commands@[k]@,
                    decreases g.commands.len() - i,
                {
                    commands.push(g.commands[i].duplicate());
                    i += 1;
                }
                let r = Command::SubShell(Box::new(CommandGroup { commands }));
                assert(r@->SubShell_0 =~= self@->SubShell_0);
                r
            },
            Command::If(c) => Command::If(
                Box::new(
                    If {
                        condition: c.condition.duplicate(),
                        success: c.success.duplicate(),
                        failure: c.failure.duplicate(),
                    },
                ),
            ),
            Command::Case(c) => {
                let mut cases: Vec<(Word, Command)> = Vec::new();
                let mut i: usize = 0;
                while i < c.cases.len()
                    invariant
                        i <= c.cases.len(),
                        cases@.len() == i,
                        forall|k: int|
                            0 <= k < i ==> cases@[k].0@ == c.cases@[k].0@ && cases@[k].1@
                                == c.cases@[k].1@,
                    decreases c.cases.len() - i,
                {
                    cases.push((c.cases[i].0.duplicate(), c.cases[i].1.duplicate()));
                    i += 1;
                }
                let r = Command::Case(Box::new(Case { input: c.input.duplicate(), cases }));
                assert(r@->Case_patterns =~= self@->Case_patterns);
                assert(r@->Case_bodies =~= self@->Case_bodies);
                r
            },
            Command::While(c) => Command::While(
                Box::new(While { condition: c.condition.duplicate(), body: c.body.duplicate() }),
            ),
            Command::For(c) => Command::For(
                Box::new(For { condition: c.condition.duplicate(), body: c.body.duplicate() }),
            ),
            Command::Until(c) => Command::Until(
                Box::new(Until { condition: c.condition.duplicate(), body: c.body.duplicate() }),
            ),
            Command::Function(f) => Command::Function(
                Box::new(Function { name: f.name.duplicate(), body: f.body.duplicate() }),
            ),
            Command::Comment(text) => Command::Comment(text.clone()),
        }
    }

    /// A simple command with the given words.
    pub fn simple(args: Vec<Word>) -> (c: Command)
        ensures
            c@ == CommandView::Simple(words_view(args@)),
    {
        Command::SimpleCommand(SimpleCommand { arguments: args })
    }

    /// The pipeline from `source` to `dest`.
    pub fn pipeline(bang: bool, source: Command, dest: Command) -> (c: Command)
        ensures
            c@ == (CommandView::Pipeline { bang, from: Box::new(source@), to: Box::new(dest@) }),
    {
        Command::Pipeline(Box::new(Pipeline { bang, from: source, to: dest }))
    }

    /// The conditional pair of `left` and `right`.
    pub fn conditional(left: Command, infix: ConditionOperator, right: Command) -> (c: Command)
        ensures
            c@ == (CommandView::ConditionalPair {
                left: Box::new(left@),
                operator: infix,
                right: Box::new(right@),
            }),
    {
        Command::ConditionalPair(Box::new(ConditionalPair { left, operator: infix, right }))
    }

    /// `source` with the redirections `redir`.
    pub fn redirect(source: Command, redir: Vec<RedirectDestination>) -> (c: Command)
        ensures
            c@ == (CommandView::FileRedirect {
                left: Box::new(source@),
                redirects: redirects_view(redir@),
            }),
    {
        Command::FileRedirect(Box::new(FileRedirect { left: source, redirects: redir }))
    }

    /// The group of the commands `source`, which runs in the caller's
    /// context.
    pub fn group(source: Vec<Command>) -> (c: Command)
        ensures
            c@ == CommandView::Group(Seq::new(source@.len(), |i: int| source@[i]@)),
    {
        let c = Command::Group(Box::new(CommandGroup { commands: source }));
        assert(c@->Group_0 =~= Seq::new(source@.len(), |i: int| source@[i]@));
        c
    }
}

impl Clone for Command {
    fn clone(&self) -> (r: Self)
        ensures
            r@ == self@,
    {
        self.duplicate()
    }
}

} // verus!
