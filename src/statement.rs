use vstd::prelude::*;
use crate::ast::{Expression, Statement, TypeInfo, Variable};
use crate::block::BlockParser;
use crate::context::ParserContext;
use crate::expression::ExpressionParser;
use crate::grammar::{agrees, parse_statement, parse_variable, variable_form};
use crate::parser_error::ParserError;
use crate::token::{Keyword, Operator, Token};
use crate::token_stream::TokenStream;

verus! {

/// Parses declarations (`x := e`, `x := mut = e`) and reassignments (`x = e`).
pub struct VariableParser;

impl VariableParser {
    /// The name, whether it is a declaration, its mutability and the number of
    /// tokens before the expression, when a variable statement starts here.
    fn form(stream: &TokenStream) -> (r: Option<(String, bool, bool, usize)>)
        requires
            stream.wf(),
        ensures
            match r {
                Some((name, is_decl, is_mut, n)) => variable_form(stream.seq(), stream.pos()) == Some(
                    (is_decl, is_mut, n as int),
                ) && name@ == crate::grammar::ident_text(stream.seq()[stream.pos()]),
                None => variable_form(stream.seq(), stream.pos()) is None,
            },
    {
        let name = match stream.peek() {
            Some(Token::Identifier(name)) => name.clone(),
            _ => return None,
        };
        match stream.peek_ahead(1) {
            Some(Token::Operator(Operator::Reassign)) => return Some((name, false, false, 2)),
            Some(Token::Operator(Operator::Assign)) => {},
            _ => return None,
        }
        match (stream.peek_ahead(2), stream.peek_ahead(3)) {
            (Some(Token::Operator(Operator::Reassign)), _) => Some((name, true, false, 3)),
            (Some(Token::Keyword(Keyword::Mut)), Some(Token::Operator(Operator::Reassign))) => Some(
                (name, true, true, 4),
            ),
            _ => Some((name, true, false, 2)),
        }
    }

    /// A declaration or reassignment and its expression. Anything else fails
    /// with `UnexpectedToken` at the current token, without consuming it.
    pub fn parse(ctx: &mut ParserContext, stream: &mut TokenStream) -> (r: Result<Variable, ParserError>)
        requires
            old(stream).wf(),
        ensures
            final(stream).same_tokens(old(stream)),
            final(ctx)@ == old(ctx)@,
            agrees(r, parse_variable(old(stream).seq(), old(stream).pos()), final(stream).pos()),
            r is Ok ==> old(stream).pos() < final(stream).pos(),
            r is Err && variable_form(old(stream).seq(), old(stream).pos()) is None ==> final(stream).pos()
                == old(stream).pos(),
    {
        match Self::form(stream) {
            None => match stream.peek() {
                None => Err(ParserError::UnexpectedEndOfInput),
                Some(t) => Err(ParserError::UnexpectedToken(t.clone())),
            },
            Some((name, is_decl, is_mut, n)) => {
                let _ = stream.advance(n);
                let e = match ExpressionParser::parse(ctx, stream) {
                    Ok(e) => e,
                    Err(err) => return Err(err),
                };
                let type_info = if is_decl {
                    Some(TypeInfo { name: None, is_mut })
                } else {
                    None
                };
                Ok(Variable { name, is_decl, expression: Some(Box::new(e)), type_info })
            },
        }
    }
}

/// Parses one statement: a nested block, a variable statement or an expression.
pub struct StatementParser;

impl StatementParser {
    pub fn parse(ctx: &mut ParserContext, stream: &mut TokenStream) -> (r: Result<Statement, ParserError>)
        requires
            old(stream).wf(),
        ensures
            final(stream).same_tokens(old(stream)),
            final(ctx)@ == old(ctx)@,
            agrees(r, parse_statement(old(stream).seq(), old(stream).pos()), final(stream).pos()),
            r is Ok ==> old(stream).pos() < final(stream).pos(),
        decreases old(stream).seq().len() - old(stream).pos(), 2nat, 0nat,
    {
        if let Some(Token::OpenBrace) = stream.peek() {
            return match BlockParser::parse(ctx, stream) {
                Ok(b) => Ok(Statement::Block(b)),
                Err(err) => Err(err),
            };
        }
        if Self::starts_variable(stream) {
            match VariableParser::parse(ctx, stream) {
                Ok(v) => Ok(Statement::Expression(Expression::Variable(v))),
                Err(err) => Err(err),
            }
        } else {
            match ExpressionParser::parse(ctx, stream) {
                Ok(e) => Ok(Statement::Expression(e)),
                Err(err) => Err(err),
            }
        }
    }

    fn starts_variable(stream: &TokenStream) -> (r: bool)
        requires
            stream.wf(),
        ensures
            r == variable_form(stream.seq(), stream.pos()) is Some,
    {
        VariableParser::form(stream).is_some()
    }
}

} // verus!
