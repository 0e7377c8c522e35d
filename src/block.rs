use vstd::prelude::*;
use crate::ast::{Block, BlockView, Statement, views};
use crate::context::ParserContext;
use crate::grammar::{agrees, block_rest, parse_block};
use crate::parser_error::ParserError;
use crate::statement::StatementParser;
use crate::token::Token;
use crate::token_stream::TokenStream;

verus! {

/// Parses a brace-delimited block of statements.
pub struct BlockParser;

proof fn lemma_block_view(statements: Vec<Statement>)
    ensures
        (Block { statements })@ == (BlockView { statements: views(statements@) }),
{
    assert((Block { statements })@.statements =~= views(statements@));
}

impl BlockParser {
    /// `{`, an optional newline, statements up to the matching `}`.
    pub fn parse(ctx: &mut ParserContext, stream: &mut TokenStream) -> (r: Result<Block, ParserError>)
        requires
            old(stream).wf(),
        ensures
            final(stream).same_tokens(old(stream)),
            final(ctx)@ == old(ctx)@,
            agrees(r, parse_block(old(stream).seq(), old(stream).pos()), final(stream).pos()),
            r is Ok ==> old(stream).pos() < final(stream).pos(),
        decreases old(stream).seq().len() - old(stream).pos(), 1nat, 0nat,
    {
        let ghost ts = stream.seq();
        let ghost start = stream.pos();
        match stream.consume(Token::OpenBrace) {
            Ok(_) => {},
            Err(err) => return Err(err),
        }
        let _ = stream.try_consume(Token::Newline);
        let mut statements: Vec<Statement> = Vec::new();
        assert(views(statements@) =~= Seq::empty());
        loop
            invariant_except_break
                parse_block(ts, start) == block_rest(ts, stream.pos(), views(statements@)),
            invariant
                ts == old(stream).seq(),
                start == old(stream).pos(),
                stream.seq() == ts,
                stream.wf(),
                start < stream.pos(),
                ctx@ == old(ctx)@,
            ensures
                stream.seq() == ts,
                stream.wf(),
                start < stream.pos(),
                ctx@ == old(ctx)@,
                parse_block(ts, start) == Ok::<_, ParserError>(
                    (BlockView { statements: views(statements@) }, stream.pos()),
                ),
            decreases ts.len() - stream.pos(),
        {
            match stream.peek() {
                None => return Err(ParserError::UnexpectedEndOfInput),
                Some(Token::CloseBrace) => {
                    let _ = stream.advance(1);
                    break;
                },
                Some(_) => {},
            }
            let s = match StatementParser::parse(ctx, stream) {
                Ok(s) => s,
                Err(err) => return Err(err),
            };
            let ghost before = views(statements@);
            statements.push(s);
            assert(views(statements@) =~= before.push(s@));
        }
        proof {
            lemma_block_view(statements);
        }
        Ok(Block { statements })
    }
}

} // verus!
