use vstd::prelude::*;
use crate::parser_error::ParserError;
use crate::token::{Token, TokenView};

verus! {

/// `actual` satisfies `expected` structurally: any identifier matches an
/// identifier and any literal a literal; other tokens must be equal.
pub open spec fn kind_matches(expected: Token, actual: Token) -> bool {
    match (expected, actual) {
        (Token::Identifier(_), Token::Identifier(_)) => true,
        (Token::Literal(_), Token::Literal(_)) => true,
        _ => actual@ == expected@,
    }
}

/// A read cursor over a finished token sequence.
#[derive(Debug, Clone)]
pub struct TokenStream<'a> {
    tokens: &'a [Token],
    position: usize,
}

impl<'a> TokenStream<'a> {
    /// The tokens the cursor reads.
    pub closed spec fn seq(&self) -> Seq<Token> {
        self.tokens@
    }

    /// The index of the next token to read.
    pub closed spec fn pos(&self) -> int {
        self.position as int
    }

    /// The cursor never stands past the end.
    pub open spec fn wf(&self) -> bool {
        0 <= self.pos() <= self.seq().len()
    }

    /// `self` reads the same tokens as `other`, with its cursor in range.
    pub open spec fn same_tokens(&self, other: &TokenStream) -> bool {
        self.seq() == other.seq() && self.wf()
    }

    pub fn new(tokens: &'a [Token]) -> (r: Self)
        ensures
            r.seq() == tokens@,
            r.pos() == 0,
            r.wf(),
    {
        TokenStream { tokens, position: 0 }
    }

    /// Consumes the current token if it matches `expected` structurally and returns it.
    pub fn consume(&mut self, expected: Token) -> (r: Result<Token, ParserError>)
        requires
            old(self).wf(),
        ensures
            final(self).same_tokens(old(self)),
            Self::consumed_as(*old(self), *final(self), r, kind_matches(expected, old(self).seq()[old(self).pos()])),
    {
        self.consume_with_message(expected, None)
    }

    /// What a consuming call does: at the end it fails with
    /// `UnexpectedEndOfInput`; on a token that `accepts` it advances by one and
    /// returns that token; otherwise it fails with `UnexpectedToken` and stays.
    pub open spec fn consumed_as(
        before: TokenStream,
        after: TokenStream,
        r: Result<Token, ParserError>,
        accepts: bool,
    ) -> bool {
        if before.pos() >= before.seq().len() {
            r == Err::<Token, ParserError>(ParserError::UnexpectedEndOfInput) && after.pos() == before.pos()
        } else if accepts {
            r == Ok::<Token, ParserError>(before.seq()[before.pos()]) && after.pos() == before.pos() + 1
        } else {
            r == Err::<Token, ParserError>(ParserError::UnexpectedToken(before.seq()[before.pos()]))
                && after.pos() == before.pos()
        }
    }

    /// `consume` with a message for the caller's diagnostics; the error value
    /// is the same.
    pub fn consume_with_message(&mut self, expected: Token, custom_message: Option<&str>) -> (r: Result<
        Token,
        ParserError,
    >)
        requires
            old(self).wf(),
        ensures
            final(self).same_tokens(old(self)),
            Self::consumed_as(*old(self), *final(self), r, kind_matches(expected, old(self).seq()[old(self).pos()])),
    {
        if self.position >= self.tokens.len() {
            return Err(ParserError::UnexpectedEndOfInput);
        }
        let current = &self.tokens[self.position];
        let matches = match (&expected, current) {
            (Token::Identifier(_), Token::Identifier(_)) => true,
            (Token::Literal(_), Token::Literal(_)) => true,
            _ => current.eq(&expected),
        };
        if matches {
            let token = current.clone();
            self.position += 1;
            Ok(token)
        } else {
            Err(ParserError::UnexpectedToken(current.clone()))
        }
    }

    /// Consumes the current token if it equals `expected`, payload included.
    pub fn consume_exact(&mut self, expected: Token) -> (r: Result<Token, ParserError>)
        requires
            old(self).wf(),
        ensures
            final(self).same_tokens(old(self)),
            Self::consumed_as(*old(self), *final(self), r, old(self).seq()[old(self).pos()]@ == expected@),
    {
        if self.position >= self.tokens.len() {
            return Err(ParserError::UnexpectedEndOfInput);
        }
        let current = &self.tokens[self.position];
        if current.eq(&expected) {
            let token = current.clone();
            self.position += 1;
            Ok(token)
        } else {
            Err(ParserError::UnexpectedToken(current.clone()))
        }
    }

    /// Skips `n` tokens; fails and stays when fewer than `n` are left.
    pub fn advance(&mut self, n: usize) -> (r: Result<(), ParserError>)
        requires
            old(self).wf(),
        ensures
            final(self).same_tokens(old(self)),
            old(self).pos() + n <= old(self).seq().len() ==> r is Ok && final(self).pos() == old(self).pos() + n,
            old(self).pos() + n > old(self).seq().len() ==> r == Err::<(), ParserError>(ParserError::UnexpectedEndOfInput)
                && final(self).pos() == old(self).pos(),
    {
        if n > self.tokens.len() - self.position {
            Err(ParserError::UnexpectedEndOfInput)
        } else {
            self.position += n;
            Ok(())
        }
    }

    /// The current token, or `UnexpectedEndOfInput` at the end.
    pub fn current(&self) -> (r: Result<&Token, ParserError>)
        requires
            self.wf(),
        ensures
            self.pos() < self.seq().len() ==> r == Ok::<&Token, ParserError>(&self.seq()[self.pos()]),
            self.pos() >= self.seq().len() ==> r == Err::<&Token, ParserError>(ParserError::UnexpectedEndOfInput),
    {
        if self.position < self.tokens.len() {
            Ok(&self.tokens[self.position])
        } else {
            Err(ParserError::UnexpectedEndOfInput)
        }
    }

    /// The token before the current one, or `UnexpectedEndOfInput` at the start.
    pub fn previous(&self) -> (r: Result<&Token, ParserError>)
        requires
            self.wf(),
        ensures
            self.pos() > 0 ==> r == Ok::<&Token, ParserError>(&self.seq()[self.pos() - 1]),
            self.pos() == 0 ==> r == Err::<&Token, ParserError>(ParserError::UnexpectedEndOfInput),
    {
        if self.position == 0 {
            Err(ParserError::UnexpectedEndOfInput)
        } else {
            Ok(&self.tokens[self.position - 1])
        }
    }

    /// The token `n` places after the current one, if there is one.
    pub open spec fn token_at(&self, n: int) -> Option<Token> {
        if 0 <= self.pos() + n < self.seq().len() {
            Some(self.seq()[self.pos() + n])
        } else {
            None
        }
    }

    /// The next `n` places, from the current token on; `None` past the end.
    pub fn window(&self, n: usize) -> (r: Vec<Option<&Token>>)
        requires
            self.wf(),
        ensures
            r@.len() == n,
            forall|i: int| 0 <= i < n ==> #[trigger] r@[i] == match self.token_at(i) {
                Some(t) => Some(&t),
                None => None::<&Token>,
            },
    {
        let mut r: Vec<Option<&Token>> = Vec::new();
        let mut i: usize = 0;
        while i < n
            invariant
                self.wf(),
                i <= n,
                r@.len() == i,
                forall|j: int| 0 <= j < i ==> #[trigger] r@[j] == match self.token_at(j) {
                    Some(t) => Some(&t),
                    None => None::<&Token>,
                },
            decreases n - i,
        {
            r.push(self.peek_ahead(i));
            i += 1;
        }
        r
    }

    /// The current token, if any.
    pub fn peek(&self) -> (r: Option<&Token>)
        requires
            self.wf(),
        ensures
            r == match self.token_at(0) {
                Some(t) => Some(&t),
                None => None::<&Token>,
            },
    {
        self.peek_ahead(0)
    }

    /// The token after the current one, if any.
    pub fn peek_next(&self) -> (r: Option<&Token>)
        requires
            self.wf(),
        ensures
            r == match self.token_at(1) {
                Some(t) => Some(&t),
                None => None::<&Token>,
            },
    {
        self.peek_ahead(1)
    }

    /// The token `n` places after the current one, if any.
    pub fn peek_ahead(&self, n: usize) -> (r: Option<&Token>)
        requires
            self.wf(),
        ensures
            r == match self.token_at(n as int) {
                Some(t) => Some(&t),
                None => None::<&Token>,
            },
    {
        if n < self.tokens.len() - self.position {
            Some(&self.tokens[self.position + n])
        } else {
            None
        }
    }

    pub fn is_at_end(&self) -> (r: bool)
        requires
            self.wf(),
        ensures
            r == (self.pos() >= self.seq().len()),
    {
        self.position >= self.tokens.len()
    }

    /// The tokens from the current one to the end.
    pub fn remaining(&self) -> (r: &'a [Token])
        requires
            self.wf(),
        ensures
            r@ == self.seq().skip(self.pos()),
    {
        vstd::slice::slice_subrange(self.tokens, self.position, self.tokens.len())
    }

    pub fn position(&self) -> (r: usize)
        ensures
            r == self.pos(),
    {
        self.position
    }

    /// A mark of the current position, for `restore`.
    pub fn checkpoint(&self) -> (r: usize)
        ensures
            r == self.pos(),
    {
        self.position
    }

    /// Moves the cursor back (or forward) to a mark taken on this stream.
    pub fn restore(&mut self, checkpoint: usize)
        requires
            checkpoint <= old(self).seq().len(),
        ensures
            final(self).seq() == old(self).seq(),
            final(self).pos() == checkpoint,
            final(self).wf(),
    {
        self.position = checkpoint;
    }

    /// Consumes and returns the current token if it matches `expected`
    /// structurally; otherwise leaves the cursor where it is.
    pub fn try_consume(&mut self, expected: Token) -> (r: Option<Token>)
        requires
            old(self).wf(),
        ensures
            final(self).same_tokens(old(self)),
            old(self).pos() < old(self).seq().len() && kind_matches(expected, old(self).seq()[old(self).pos()])
                ==> r == Some(old(self).seq()[old(self).pos()]) && final(self).pos() == old(self).pos() + 1,
            !(old(self).pos() < old(self).seq().len() && kind_matches(expected, old(self).seq()[old(self).pos()]))
                ==> r is None && final(self).pos() == old(self).pos(),
    {
        match self.consume(expected) {
            Ok(t) => Some(t),
            Err(_) => None,
        }
    }

    /// Consumes tokens while `predicate` holds of them and returns them, in order.
    pub fn consume_while<F>(&mut self, predicate: F) -> (r: Vec<Token>)
        where
            F: Fn(&Token) -> bool,
        requires
            old(self).wf(),
            forall|t: &Token| predicate.requires((t,)),
        ensures
            final(self).same_tokens(old(self)),
            old(self).pos() <= final(self).pos(),
            r@ == old(self).seq().subrange(old(self).pos(), final(self).pos()),
            forall|i: int| 0 <= i < r@.len() ==> predicate.ensures((&r@[i],), true),
            final(self).pos() < final(self).seq().len() ==> predicate.ensures(
                (&final(self).seq()[final(self).pos()],),
                false,
            ),
    {
        let mut consumed: Vec<Token> = Vec::new();
        let ghost start = self.pos();
        while self.position < self.tokens.len()
            invariant
                self.seq() == old(self).seq(),
                self.wf(),
                start == old(self).pos(),
                start <= self.pos(),
                consumed@ == self.seq().subrange(start, self.pos()),
                forall|t: &Token| predicate.requires((t,)),
                forall|i: int| 0 <= i < consumed@.len() ==> predicate.ensures((&consumed@[i],), true),
            ensures
                self.pos() < self.seq().len() ==> predicate.ensures((&self.seq()[self.pos()],), false),
            decreases self.seq().len() - self.pos(),
        {
            let token = &self.tokens[self.position];
            if predicate(token) {
                consumed.push(token.clone());
                self.position += 1;
                assert(consumed@ =~= self.seq().subrange(start, self.pos()));
            } else {
                break;
            }
        }
        consumed
    }
}

} // verus!
