//! The line under the cursor of an interactive shell: what each key does
//! to it, and which lines were entered before.

use crate::term::{ArrowDirection, Key};
use crate::text::{chars_of, string_of};
use vstd::prelude::*;

verus! {

/// What a key has led to.
#[derive(Debug, Clone, Copy, PartialEq, Eq, Structural)]
pub enum Verdict {
    /// The line is still being edited.
    Editing,
    /// The line is to be run.
    Submit,
    /// The line was given up.
    Interrupt,
    /// The shell is to end.
    Exit,
}

/// A line under edit. `offset` is the distance of the cursor from the end
/// of the line; `index` is the place in the history that the line was taken
/// from, or the length of the history for a new line.
pub struct Editor {
    buffer: Vec<char>,
    offset: usize,
    history: Vec<String>,
    index: usize,
}

pub struct EditorView {
    pub buffer: Seq<char>,
    pub offset: nat,
    pub history: Seq<Seq<char>>,
    pub index: nat,
}

/// The result of a key: the line after it, and what it has led to.
pub struct Edited {
    pub editor: EditorView,
    pub verdict: Verdict,
}

impl EditorView {
    /// The line with the same history, the text `buffer`, and the cursor
    /// `offset` before its end.
    pub open spec fn with_line(self, buffer: Seq<char>, offset: nat) -> EditorView {
        EditorView { buffer, offset, ..self }
    }

    /// What the key `key` does. Control-D on an empty line ends the shell,
    /// Control-C gives the line up and empties it, the new-line key hands
    /// it over.
    /// Escape writes `^[` at the end. Delete takes out the character before
    /// the cursor and a character is put in at the cursor. Up and Down go
    /// through the history and put the cursor at the end. Left and Right
    /// move the cursor inside the line.
    pub open spec fn pressed(self, key: Key) -> Edited {
        let length = self.buffer.len();
        let at = if self.offset <= length {
            (length - self.offset) as int
        } else {
            0
        };
        match key {
            Key::Control(c) => if c == 'D' && length == 0 {
                Edited { editor: self, verdict: Verdict::Exit }
            } else if c == 'C' {
                Edited { editor: self.with_line(Seq::empty(), 0), verdict: Verdict::Interrupt }
            } else {
                Edited { editor: self, verdict: Verdict::Editing }
            },
            Key::Newline => Edited { editor: self, verdict: Verdict::Submit },
            Key::Escape => Edited {
                editor: self.with_line(self.buffer + seq!['^', '['], self.offset),
                verdict: Verdict::Editing,
            },
            Key::Delete => Edited {
                editor: if at > 0 {
                    self.with_line(self.buffer.remove(at - 1), self.offset)
                } else {
                    self
                },
                verdict: Verdict::Editing,
            },
            Key::Ascii(c) => Edited {
                editor: self.with_line(self.buffer.insert(at, c), self.offset),
                verdict: Verdict::Editing,
            },
            Key::Arrow(ArrowDirection::Up) => Edited {
                editor: if 0 < self.index <= self.history.len() {
                    EditorView {
                        buffer: self.history[self.index - 1],
                        offset: 0,
                        index: (self.index - 1) as nat,
                        ..self
                    }
                } else {
                    self
                },
                verdict: Verdict::Editing,
            },
            Key::Arrow(ArrowDirection::Down) => Edited {
                editor: if self.index + 1 < self.history.len() {
                    EditorView {
                        buffer: self.history[self.index as int + 1],
                        offset: 0,
                        index: self.index + 1,
                        ..self
                    }
                } else {
                    self
                },
                verdict: Verdict::Editing,
            },
            Key::Arrow(ArrowDirection::Left) => Edited {
                editor: if self.offset < length {
                    self.with_line(self.buffer, self.offset + 1)
                } else {
                    self
                },
                verdict: Verdict::Editing,
            },
            Key::Arrow(ArrowDirection::Right) => Edited {
                editor: if self.offset > 0 {
                    self.with_line(self.buffer, (self.offset - 1) as nat)
                } else {
                    self
                },
                verdict: Verdict::Editing,
            },
            Key::Invalid(_) => Edited { editor: self, verdict: Verdict::Editing },
        }
    }
}

impl View for Editor {
    type V = EditorView;

    closed spec fn view(&self) -> EditorView {
        EditorView {
            buffer: self.buffer@,
            offset: self.offset as nat,
            history: Seq::new(self.history@.len(), |i: int| self.history@[i]@),
            index: self.index as nat,
        }
    }
}

impl Editor {
    /// An empty line and an empty history.
    pub fn new() -> (e: Editor)
        ensures
            e@ == (EditorView {
                buffer: Seq::empty(),
                offset: 0,
                history: Seq::empty(),
                index: 0,
            }),
    {
        let e = Editor { buffer: Vec::new(), offset: 0, history: Vec::new(), index: 0 };
        assert(e@.history =~= Seq::<Seq<char>>::empty());
        e
    }

    /// Begins a new line: it is empty, the cursor is at its end, and it
    /// comes after the whole history.
    pub fn begin(&mut self)
        ensures
            final(self)@ == (EditorView {
                buffer: Seq::empty(),
                offset: 0,
                index: old(self)@.history.len(),
                ..old(self)@
            }),
    {
        self.buffer = Vec::new();
        self.offset = 0;
        self.index = self.history.len();
    }

    /// Puts `line` at the end of the history.
    pub fn remember(&mut self, line: &str)
        ensures
            final(self)@ == (EditorView {
                history: old(self)@.history.push(line@),
                ..old(self)@
            }),
    {
        self.history.push(line.to_owned());
        assert(self@.history =~= old(self)@.history.push(line@));
    }

    /// The line as text.
    pub fn line(&self) -> (s: String)
        ensures
            s@ == self@.buffer,
    {
        string_of(&self.buffer)
    }

    /// The distance of the cursor from the end of the line.
    pub fn offset(&self) -> (n: usize)
        ensures
            n == self@.offset,
    {
        self.offset
    }

    /// Takes a key.
    pub fn press(&mut self, key: Key) -> (verdict: Verdict)
        ensures
            final(self)@ == old(self)@.pressed(key).editor,
            verdict == old(self)@.pressed(key).verdict,
    {
        let length = self.buffer.len();
        let at = if self.offset <= length {
            length - self.offset
        } else {
            0
        };
        match key {
            Key::Control(c) => {
                if c == 'D' && length == 0 {
                    Verdict::Exit
                } else if c == 'C' {
                    self.buffer = Vec::new();
                    self.offset = 0;
                    Verdict::Interrupt
                } else {
                    Verdict::Editing
                }
            },
            Key::Newline => Verdict::Submit,
            Key::Escape => {
                self.buffer.push('^');
                self.buffer.push('[');
                assert(self.buffer@ =~= old(self).buffer@ + seq!['^', '[']);
                Verdict::Editing
            },
            Key::Delete => {
                if at > 0 {
                    self.buffer.remove(at - 1);
                }
                Verdict::Editing
            },
            Key::Ascii(c) => {
                self.buffer.insert(at, c);
                Verdict::Editing
            },
            Key::Arrow(ArrowDirection::Up) => {
                if 0 < self.index && self.index <= self.history.len() {
                    self.index = self.index - 1;
                    self.buffer = chars_of(self.history[self.index].as_str());
                    self.offset = 0;
                }
                Verdict::Editing
            },
            Key::Arrow(ArrowDirection::Down) => {
                if self.index < self.history.len() && self.index + 1 < self.history.len() {
                    self.index = self.index + 1;
                    self.buffer = chars_of(self.history[self.index].as_str());
                    self.offset = 0;
                }
                Verdict::Editing
            },
            Key::Arrow(ArrowDirection::Left) => {
                if self.offset < length {
                    self.offset = self.offset + 1;
                }
                Verdict::Editing
            },
            Key::Arrow(ArrowDirection::Right) => {
                if self.offset > 0 {
                    self.offset = self.offset - 1;
                }
                Verdict::Editing
            },
            Key::Invalid(_) => Verdict::Editing,
        }
    }
}

} // verus!
