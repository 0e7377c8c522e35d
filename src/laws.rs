use vstd::prelude::*;
use crate::grammar::{ident_text, parse_expression, parse_statement};
use crate::token::Token;
use crate::token_stream::{TokenStream, kind_matches};

verus! {

/// `consume` with an expected identifier accepts every identifier, whatever
/// the payload of either.
pub proof fn consume_accepts_any_identifier(expected: String, actual: String)
    ensures
        kind_matches(Token::Identifier(expected), Token::Identifier(actual)),
{
}

/// `consume_exact` with an expected identifier accepts exactly the
/// identifiers with the same text.
pub proof fn consume_exact_accepts_only_same_identifier(expected: String, actual: Token)
    ensures
        actual@ == Token::Identifier(expected)@ <==> (actual is Identifier && ident_text(actual)
            == expected@),
{
}

/// A stream restored to a checkpoint taken on `at_checkpoint` (with any
/// advancing in between) reads the same tokens from the same position, so a
/// parse attempted again from there gives what the first attempt gave.
pub proof fn restore_returns_to_checkpoint(
    at_checkpoint: TokenStream,
    advanced: TokenStream,
    restored: TokenStream,
)
    requires
        at_checkpoint.wf(),
        advanced.seq() == at_checkpoint.seq(),
        at_checkpoint.pos() <= advanced.pos(),
        restored.seq() == advanced.seq(),
        restored.pos() == at_checkpoint.pos(),
    ensures
        restored.wf(),
        restored.seq().skip(restored.pos()) == at_checkpoint.seq().skip(at_checkpoint.pos()),
        parse_expression(restored.seq(), restored.pos()) == parse_expression(
            at_checkpoint.seq(),
            at_checkpoint.pos(),
        ),
        parse_statement(restored.seq(), restored.pos()) == parse_statement(
            at_checkpoint.seq(),
            at_checkpoint.pos(),
        ),
{
}

} // verus!
