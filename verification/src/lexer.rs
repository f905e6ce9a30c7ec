//! A buffer of position-tagged characters with two cursors: a committed
//! position and a lookahead position that never falls behind it.

use vstd::prelude::*;
use crate::span::Span;

verus! {

/// One source character and where it stands.
#[derive(Clone, Copy, Debug, PartialEq, Eq, Structural)]
pub struct Token {
    pub kind: char,
    pub pos: Span,
}

pub struct Lexer {
    buf: Vec<Token>,
    committed: usize,
    lookahead: usize,
}

impl Lexer {
    /// The whole buffer.
    pub closed spec fn tokens(&self) -> Seq<Token> {
        self.buf@
    }

    pub closed spec fn committed_pos(&self) -> int {
        self.committed as int
    }

    pub closed spec fn lookahead_pos(&self) -> int {
        self.lookahead as int
    }

    /// The cursors are ordered and stay within the buffer.
    pub closed spec fn wf(&self) -> bool {
        self.committed <= self.lookahead && self.lookahead <= self.buf@.len()
    }

    /// The token under a position, if the buffer reaches that far.
    pub open spec fn token_at(&self, i: int) -> Option<Token> {
        if 0 <= i && i < self.tokens().len() {
            Some(self.tokens()[i])
        } else {
            None
        }
    }

    pub proof fn lemma_cursor_order(&self)
        requires
            self.wf(),
        ensures
            0 <= self.committed_pos() <= self.lookahead_pos() <= self.tokens().len(),
    {
    }

    pub fn new(buf: Vec<Token>) -> (r: Lexer)
        ensures
            r.wf(),
            r.tokens() == buf@,
            r.committed_pos() == 0,
            r.lookahead_pos() == 0,
    {
        Lexer { buf, committed: 0, lookahead: 0 }
    }

    pub fn len(&self) -> (r: usize)
        ensures
            r == self.tokens().len(),
    {
        self.buf.len()
    }

    pub fn committed(&self) -> (r: usize)
        ensures
            r == self.committed_pos(),
    {
        self.committed
    }

    pub fn lookahead(&self) -> (r: usize)
        ensures
            r == self.lookahead_pos(),
    {
        self.lookahead
    }

    /// The token at any position of the buffer.
    pub fn get(&self, i: usize) -> (r: Option<Token>)
        ensures
            r == self.token_at(i as int),
    {
        if i < self.buf.len() {
            Some(self.buf[i])
        } else {
            None
        }
    }

    /// The token under the lookahead cursor; nothing moves.
    pub fn peek(&self) -> (r: Option<Token>)
        ensures
            r == self.token_at(self.lookahead_pos()),
    {
        self.get(self.lookahead)
    }

    /// Moves the lookahead cursor `n` tokens on, stopping at the end of the
    /// buffer, and returns the token now under it.
    pub fn peek_forward(&mut self, n: usize) -> (r: Option<Token>)
        requires
            old(self).wf(),
        ensures
            final(self).wf(),
            final(self).tokens() == old(self).tokens(),
            final(self).committed_pos() == old(self).committed_pos(),
            final(self).lookahead_pos() == if old(self).lookahead_pos() + n <= old(self).tokens().len() {
                old(self).lookahead_pos() + n
            } else {
                old(self).tokens().len() as int
            },
            r == final(self).token_at(final(self).lookahead_pos()),
    {
        if n <= self.buf.len() - self.lookahead {
            self.lookahead = self.lookahead + n;
        } else {
            self.lookahead = self.buf.len();
        }
        self.get(self.lookahead)
    }

    /// Moves the lookahead cursor `n` tokens back and returns the token now
    /// under it. Where that would pass the committed position nothing moves
    /// and nothing is returned.
    pub fn peek_backward(&mut self, n: usize) -> (r: Option<Token>)
        requires
            old(self).wf(),
        ensures
            final(self).wf(),
            final(self).tokens() == old(self).tokens(),
            final(self).committed_pos() == old(self).committed_pos(),
            old(self).lookahead_pos() - n >= old(self).committed_pos() ==> final(self).lookahead_pos() == old(self).lookahead_pos() - n && r == final(self).token_at(
                final(self).lookahead_pos(),
            ),
            old(self).lookahead_pos() - n < old(self).committed_pos() ==> final(self).lookahead_pos() == old(self).lookahead_pos() && r.is_none(),
    {
        if n <= self.lookahead - self.committed {
            self.lookahead = self.lookahead - n;
            self.get(self.lookahead)
        } else {
            None
        }
    }

    /// Commits one token: the committed position moves one on, and takes
    /// the lookahead cursor with it where it would overtake it. At the end
    /// of the buffer nothing moves.
    pub fn advance_cursor(&mut self)
        requires
            old(self).wf(),
        ensures
            final(self).wf(),
            final(self).tokens() == old(self).tokens(),
            final(self).committed_pos() == if old(self).committed_pos() < old(self).tokens().len() {
                old(self).committed_pos() + 1
            } else {
                old(self).committed_pos()
            },
            final(self).lookahead_pos() == if old(self).lookahead_pos() >= final(self).committed_pos() {
                old(self).lookahead_pos()
            } else {
                final(self).committed_pos()
            },
    {
        if self.committed < self.buf.len() {
            self.committed = self.committed + 1;
            if self.lookahead < self.committed {
                self.lookahead = self.committed;
            }
        }
    }

    /// Abandons the lookahead: the lookahead cursor returns to the
    /// committed position.
    pub fn reset_cursor(&mut self)
        requires
            old(self).wf(),
        ensures
            final(self).wf(),
            final(self).tokens() == old(self).tokens(),
            final(self).committed_pos() == old(self).committed_pos(),
            final(self).lookahead_pos() == old(self).committed_pos(),
    {
        self.lookahead = self.committed;
    }
}

} // verus!
