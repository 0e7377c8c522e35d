use vstd::prelude::*;
use crate::token::Token;

verus! {

/// Errors of the parser. Any error ends the whole parse.
#[allow(inconsistent_fields)]
#[derive(Debug, PartialEq)]
pub enum ParserError {
    /// The tokens do not begin with `module`.
    ModuleNotFound,
    /// `module` is not followed by an identifier.
    ModuleWithoutName,
    /// A module header with nothing after it.
    ModuleEmpty { start: Token, end: Token },
    /// A grammar mismatch at the given token.
    UnexpectedToken(Token),
    /// The tokens ran out where more were required.
    UnexpectedEndOfInput,
    /// A nested module whose body is never closed; `start` is its `{`.
    MissingClosingBrace { start: Token, end: Option<Token> },
}

} // verus!
