//! A cursor over the token stream, as the parser walks it.

use vstd::prelude::*;

verus! {

use crate::token::Token;

/// A position inside an immutable token list. The cursor never leaves the
/// list: `next` refuses to step past the last token and `prev` past the
/// first.
pub struct Traveler {
    pub tokens: Vec<Token>,
    pub pos: usize,
}

impl Traveler {
    /// A cursor at the start of a token list.
    pub fn new(tokens: Vec<Token>) -> (t: Traveler)
        ensures
            t.tokens == tokens,
            t.pos == 0,
    {
        Traveler { tokens, pos: 0 }
    }

    /// How many tokens remain from the cursor on, the current one included.
    pub fn remaining(&self) -> (r: usize)
        ensures
            r as int == if self.pos <= self.tokens@.len() {
                self.tokens@.len() - self.pos
            } else {
                0
            },
    {
        if self.pos <= self.tokens.len() {
            self.tokens.len() - self.pos
        } else {
            0
        }
    }

    /// Steps forward when another token follows; reports whether it moved.
    pub fn next(&mut self) -> (moved: bool)
        ensures
            final(self).tokens == old(self).tokens,
            moved == (old(self).pos + 1 < old(self).tokens@.len()),
            final(self).pos as int == if moved {
                old(self).pos + 1
            } else {
                old(self).pos as int
            },
    {
        let len = self.tokens.len();
        if self.pos < len && len - self.pos > 1 {
            self.pos = self.pos + 1;
            true
        } else {
            false
        }
    }

    /// Steps backward when not at the first token.
    pub fn prev(&mut self)
        ensures
            final(self).tokens == old(self).tokens,
            final(self).pos == if old(self).pos > 0 {
                old(self).pos - 1
            } else {
                0
            },
    {
        if self.pos > 0 {
            self.pos = self.pos - 1;
        }
    }

    /// The token under the cursor.
    pub fn current(&self) -> (r: &Token)
        requires
            self.pos < self.tokens@.len(),
        ensures
            *r == self.tokens@[self.pos as int],
    {
        &self.tokens[self.pos]
    }

    /// The text of the token under the cursor.
    pub fn current_content(&self) -> (r: String)
        requires
            self.pos < self.tokens@.len(),
        ensures
            r@ == self.tokens@[self.pos as int].content@,
    {
        self.tokens[self.pos].content.clone()
    }
}

} // verus!
