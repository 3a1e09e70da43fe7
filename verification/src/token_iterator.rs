//! A cursor over a list of tokens that never moves past its last token.
use crate::lexer::Token;
use vstd::prelude::*;

verus! {

pub struct TokenIterator {
    index: usize,
    tokens: Vec<Token>,
}

impl TokenIterator {
    /// The tokens the iterator runs over.
    pub closed spec fn view(&self) -> Seq<Token> {
        self.tokens@
    }

    /// The index of the token that `peek` and `next` return.
    pub closed spec fn position(&self) -> int {
        self.index as int
    }

    /// The iterator stands at one of its tokens.
    pub closed spec fn wf(&self) -> bool {
        self.index < self.tokens@.len()
    }

    /// The position after a step from `position`: the next one, but for
    /// the last token, where the iterator stays.
    pub open spec fn step(tokens: Seq<Token>, position: int) -> int {
        if position + 1 < tokens.len() {
            position + 1
        } else {
            position
        }
    }

    // It is required for tokens to have at least one element,
    // and it is expected that last token is EOF.
    pub fn new(tokens: Vec<Token>) -> (r: TokenIterator)
        requires
            tokens@.len() > 0,
        ensures
            r.wf(),
            r@ == tokens@,
            r.position() == 0,
    {
        TokenIterator { index: 0, tokens: tokens }
    }

    pub fn next(&mut self) -> (r: &Token)
        requires
            old(self).wf(),
        ensures
            final(self).wf(),
            final(self)@ == old(self)@,
            *r == old(self)@[old(self).position()],
            final(self).position() == Self::step(old(self)@, old(self).position()),
    {
        let index = self.index;
        self.advance();
        return &self.tokens[index];
    }

    pub fn peek(&self) -> (r: &Token)
        requires
            self.wf(),
        ensures
            *r == self@[self.position()],
    {
        return &self.tokens[self.index];
    }

    pub fn advance(&mut self)
        requires
            old(self).wf(),
        ensures
            final(self).wf(),
            final(self)@ == old(self)@,
            final(self).position() == Self::step(old(self)@, old(self).position()),
    {
        let len = self.tokens.len();
        if self.index + 1 < len {
            self.index += 1;
        }
    }
}

} // verus!
