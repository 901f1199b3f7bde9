//! A forward-only reader over the characters of a source text.

use vstd::prelude::*;

verus! {

/// Walks a source text one character at a time, with bounded lookahead, and
/// counts what it has consumed since the count was last reset.
pub struct Cursor {
    chars: Vec<char>,
    idx: usize,
    mark: usize,
}

/// What a cursor stands for: a text and two positions in it.
pub struct Reading {
    /// The whole text the cursor was made for.
    pub source: Seq<char>,
    /// How many characters of the source have been consumed.
    pub offset: int,
    /// Where the count of consumed characters was last reset.
    pub start: int,
}

impl Reading {
    /// The positions are in order and inside the source, which is no longer
    /// than a machine can hold.
    pub open spec fn wf(self) -> bool {
        0 <= self.start <= self.offset <= self.source.len() <= usize::MAX
    }

    /// The character `n` places after the next one, if there is one.
    pub open spec fn ahead(self, n: int) -> Option<char> {
        if 0 <= n && self.offset + n < self.source.len() {
            Some(self.source[self.offset + n])
        } else {
            None
        }
    }

    /// The character consumed last, if any was.
    pub open spec fn behind(self) -> Option<char> {
        if 0 < self.offset {
            Some(self.source[self.offset - 1])
        } else {
            None
        }
    }

    /// This reading, `n` characters further on.
    pub open spec fn advance(self, n: int) -> Reading {
        Reading { offset: self.offset + n, ..self }
    }

    /// This reading has the text and the reset point of `before`, and is at
    /// the same place or further on.
    pub open spec fn advanced_from(self, before: Reading) -> bool {
        &&& self.wf()
        &&& self.source == before.source
        &&& self.start == before.start
        &&& before.offset <= self.offset
    }
}

impl View for Cursor {
    type V = Reading;

    closed spec fn view(&self) -> Reading {
        Reading { source: self.chars@, offset: self.idx as int, start: self.mark as int }
    }
}

impl Cursor {
    /// A cursor at the beginning of `text`.
    pub fn new(text: &str) -> (cursor: Cursor)
        ensures
            cursor@.wf(),
            cursor@ == (Reading { source: text@, offset: 0, start: 0 }),
    {
        let mut chars: Vec<char> = Vec::new();
        for c in it: text.chars()
            invariant
                chars@ == it.seq().take(it.index()),
        {
            chars.push(c);
        }
        assert(chars@ =~= text@);
        assert(chars.len() <= usize::MAX);
        Cursor { chars, idx: 0, mark: 0 }
    }

    /// The next character, without consuming it.
    pub fn peek(&self) -> (c: Option<char>)
        requires
            self@.wf(),
        ensures
            c == self@.ahead(0),
    {
        if self.idx < self.chars.len() {
            Some(self.chars[self.idx])
        } else {
            None
        }
    }

    /// The character `n` places after the next one, without consuming anything.
    pub fn peek_nth(&self, n: usize) -> (c: Option<char>)
        requires
            self@.wf(),
        ensures
            c == self@.ahead(n as int),
    {
        if n < self.chars.len() - self.idx {
            Some(self.chars[self.idx + n])
        } else {
            None
        }
    }

    /// The character consumed last.
    pub fn prev(&self) -> (c: Option<char>)
        requires
            self@.wf(),
        ensures
            c == self@.behind(),
    {
        if self.idx > 0 {
            Some(self.chars[self.idx - 1])
        } else {
            None
        }
    }

    /// How many characters were consumed since the last [`Cursor::rebase`].
    pub fn pos(&self) -> (n: usize)
        requires
            self@.wf(),
        ensures
            n == self@.offset - self@.start,
    {
        self.idx - self.mark
    }

    /// Resets the count of consumed characters to zero.
    pub fn rebase(&mut self)
        requires
            old(self)@.wf(),
        ensures
            final(self)@ == (Reading { start: old(self)@.offset, ..old(self)@ }),
    {
        self.mark = self.idx;
    }

    /// Consumes the next character and returns it; at the end of the source
    /// nothing changes.
    pub fn bump(&mut self) -> (c: Option<char>)
        requires
            old(self)@.wf(),
        ensures
            c == old(self)@.ahead(0),
            final(self)@ == old(self)@.advance(if c is Some { 1 } else { 0 }),
    {
        if self.idx < self.chars.len() {
            let c = self.chars[self.idx];
            self.idx = self.idx + 1;
            Some(c)
        } else {
            None
        }
    }

    /// Consumes `n + 1` characters and returns the last of them; where fewer
    /// are left, consumes them all and returns `None`.
    pub fn bump_nth(&mut self, n: usize) -> (c: Option<char>)
        requires
            old(self)@.wf(),
        ensures
            c == old(self)@.ahead(n as int),
            final(self)@ == old(self)@.advance(
                if c is Some {
                    n + 1
                } else {
                    old(self)@.source.len() - old(self)@.offset
                },
            ),
    {
        if n < self.chars.len() - self.idx {
            let c = self.chars[self.idx + n];
            self.idx = self.idx + n + 1;
            Some(c)
        } else {
            self.idx = self.chars.len();
            None
        }
    }

    /// Consumes characters for as long as `pred` accepts the next one.
    pub fn bump_while<F: Fn(char) -> bool>(&mut self, pred: F)
        requires
            old(self)@.wf(),
            forall|k: int|
                old(self)@.offset <= k < old(self)@.source.len() ==> call_requires(
                    pred,
                    (#[trigger] old(self)@.source[k],),
                ),
        ensures
            final(self)@.advanced_from(old(self)@),
            forall|k: int|
                old(self)@.offset <= k < final(self)@.offset ==> call_ensures(
                    pred,
                    (#[trigger] old(self)@.source[k],),
                    true,
                ),
            final(self)@.offset < old(self)@.source.len() ==> call_ensures(
                pred,
                (old(self)@.source[final(self)@.offset],),
                false,
            ),
    {
        while self.idx < self.chars.len()
            invariant
                self@.advanced_from(old(self)@),
                forall|k: int|
                    old(self)@.offset <= k < old(self)@.source.len() ==> call_requires(
                        pred,
                        (#[trigger] old(self)@.source[k],),
                    ),
                forall|k: int|
                    old(self)@.offset <= k < self@.offset ==> call_ensures(
                        pred,
                        (#[trigger] old(self)@.source[k],),
                        true,
                    ),
            ensures
                self@.offset < old(self)@.source.len() ==> call_ensures(
                    pred,
                    (old(self)@.source[self@.offset],),
                    false,
                ),
            decreases self.chars.len() - self.idx,
        {
            if !pred(self.chars[self.idx]) {
                break;
            }
            self.idx = self.idx + 1;
        }
    }
}

} // verus!
