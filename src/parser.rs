use vstd::prelude::*;
use crate::ast::{Ast, ModuleView};
use crate::context::ParserContext;
use crate::grammar::parse_module;
use crate::modules::ModuleParser;
use crate::parser_error::ParserError;
use crate::token::Token;
use crate::token_stream::TokenStream;

verus! {

/// The module that a whole token sequence parses to, or the error.
pub open spec fn parse_source(ts: Seq<Token>) -> Result<ModuleView, ParserError> {
    match parse_module(ts, 0) {
        Ok((m, _)) => Ok(m),
        Err(e) => Err(e),
    }
}

/// Parses a token sequence into an AST.
pub struct Parser;

impl Parser {
    /// The AST of a source unit, rooted at its module, with a fresh context.
    pub fn parse(tokens: &[Token]) -> (r: Result<Ast, ParserError>)
        ensures
            match r {
                Ok(ast) => ast.root is Some && parse_source(tokens@) == Ok::<_, ParserError>(ast.root->Some_0@),
                Err(e) => parse_source(tokens@) == Err::<ModuleView, ParserError>(e),
            },
    {
        let mut ctx = ParserContext::new();
        let mut stream = TokenStream::new(tokens);
        match ModuleParser::parse(&mut ctx, &mut stream) {
            Ok(module) => Ok(Ast { root: Some(module) }),
            Err(err) => Err(err),
        }
    }
}

} // verus!
