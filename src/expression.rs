use vstd::prelude::*;
use crate::ast::{Expression, Variable};
use crate::context::ParserContext;
use crate::grammar::{agrees, level_operator, level_rest, parse_expression, parse_level, parse_primary, parse_unary};
use crate::parser_error::ParserError;
use crate::token::{Operator, Token};
use crate::token_stream::TokenStream;

verus! {

/// Parses expressions by precedence climbing.
pub struct ExpressionParser;

impl ExpressionParser {
    /// An expression, then an optional `Newline`.
    pub fn parse(ctx: &mut ParserContext, stream: &mut TokenStream) -> (r: Result<Expression, ParserError>)
        requires
            old(stream).wf(),
        ensures
            final(stream).same_tokens(old(stream)),
            final(ctx)@ == old(ctx)@,
            agrees(r, parse_expression(old(stream).seq(), old(stream).pos()), final(stream).pos()),
            r is Ok ==> old(stream).pos() < final(stream).pos(),
        decreases old(stream).seq().len() - old(stream).pos(), 7nat, 0nat,
    {
        match Self::level(ctx, stream, 4) {
            Ok(e) => {
                let _ = stream.try_consume(Token::Newline);
                Ok(e)
            },
            Err(err) => Err(err),
        }
    }

    /// Whether `op` is a binary operator of precedence `level`.
    fn binds_at(level: u8, op: Operator) -> (r: bool)
        ensures
            r == level_operator(level as nat, Token::Operator(op)),
    {
        match op {
            Operator::Star | Operator::Slash | Operator::Percent => level == 1,
            Operator::Plus | Operator::Minus => level == 2,
            Operator::Less | Operator::Greater | Operator::LessEqual | Operator::GreaterEqual => level
                == 3,
            Operator::Equal | Operator::NotEqual => level == 4,
            _ => false,
        }
    }

    /// An expression at precedence `level`; 4 is equality, 0 the unary level.
    fn level(ctx: &mut ParserContext, stream: &mut TokenStream, level: u8) -> (r: Result<Expression, ParserError>)
        requires
            old(stream).wf(),
            level <= 4,
        ensures
            final(stream).same_tokens(old(stream)),
            final(ctx)@ == old(ctx)@,
            agrees(r, parse_level(old(stream).seq(), level as nat, old(stream).pos()), final(stream).pos()),
            r is Ok ==> old(stream).pos() < final(stream).pos(),
        decreases old(stream).seq().len() - old(stream).pos(), level + 2, 0nat,
    {
        if level == 0 {
            return Self::unary(ctx, stream);
        }
        let ghost ts = stream.seq();
        let ghost start = stream.pos();
        let mut expr = match Self::level(ctx, stream, level - 1) {
            Ok(e) => e,
            Err(err) => return Err(err),
        };
        loop
            invariant
                ts == old(stream).seq(),
                start == old(stream).pos(),
                stream.seq() == ts,
                stream.wf(),
                start < stream.pos(),
                1 <= level <= 4,
                ctx@ == old(ctx)@,
                parse_level(ts, level as nat, start) == level_rest(ts, level as nat, expr@, stream.pos()),
            ensures
                stream.seq() == ts,
                stream.wf(),
                start < stream.pos(),
                ctx@ == old(ctx)@,
                parse_level(ts, level as nat, start) == Ok::<_, ParserError>((expr@, stream.pos())),
            decreases ts.len() - stream.pos(),
        {
            let op = match stream.peek() {
                Some(Token::Operator(op)) => *op,
                _ => break,
            };
            if !Self::binds_at(level, op) {
                break;
            }
            let ghost q = stream.pos();
            let _ = stream.advance(1);
            let right = match Self::level(ctx, stream, level - 1) {
                Ok(e) => e,
                Err(err) => return Err(err),
            };
            expr = Expression::Binary { left: Box::new(expr), right: Box::new(right), operator: op };
        }
        Ok(expr)
    }

    /// Prefix `-` operators over a primary expression.
    fn unary(ctx: &mut ParserContext, stream: &mut TokenStream) -> (r: Result<Expression, ParserError>)
        requires
            old(stream).wf(),
        ensures
            final(stream).same_tokens(old(stream)),
            final(ctx)@ == old(ctx)@,
            agrees(r, parse_unary(old(stream).seq(), old(stream).pos()), final(stream).pos()),
            r is Ok ==> old(stream).pos() < final(stream).pos(),
        decreases old(stream).seq().len() - old(stream).pos(), 1nat, 0nat,
    {
        match stream.peek() {
            None => Err(ParserError::UnexpectedEndOfInput),
            Some(Token::Operator(Operator::Minus)) => {
                let _ = stream.advance(1);
                match Self::unary(ctx, stream) {
                    Ok(e) => Ok(Expression::Unary { operator: Operator::Minus, operand: Box::new(e) }),
                    Err(err) => Err(err),
                }
            },
            Some(_) => Self::primary(ctx, stream),
        }
    }

    /// A literal, a variable use, or a parenthesised expression.
    fn primary(ctx: &mut ParserContext, stream: &mut TokenStream) -> (r: Result<Expression, ParserError>)
        requires
            old(stream).wf(),
        ensures
            final(stream).same_tokens(old(stream)),
            final(ctx)@ == old(ctx)@,
            agrees(r, parse_primary(old(stream).seq(), old(stream).pos()), final(stream).pos()),
            r is Ok ==> old(stream).pos() < final(stream).pos(),
        decreases old(stream).seq().len() - old(stream).pos(), 0nat, 0nat,
    {
        let token = match stream.current() {
            Ok(t) => t.clone(),
            Err(err) => return Err(err),
        };
        let _ = stream.advance(1);
        match token {
            Token::OpenParen => {
                let inner = match Self::parse(ctx, stream) {
                    Ok(e) => e,
                    Err(err) => return Err(err),
                };
                match stream.consume(Token::CloseParen) {
                    Ok(_) => Ok(Expression::Group { inner: Box::new(inner) }),
                    Err(err) => Err(err),
                }
            },
            Token::Literal(l) => Ok(Expression::Literal(l)),
            Token::Identifier(name) => {
                let v = Variable { name, is_decl: false, expression: None, type_info: None };
                assert(v@ == crate::ast::VariableView { name: name@, is_decl: false, expression: None, type_info: None });
                Ok(Expression::Variable(v))
            },
            other => Err(ParserError::UnexpectedToken(other)),
        }
    }
}

} // verus!
