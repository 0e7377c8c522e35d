use vstd::prelude::*;
use vstd::string::StringExecFns;
use crate::ast::{Arg, Function, FunctionView, TypeInfo, views};
use crate::block::BlockParser;
use crate::context::ParserContext;
use crate::grammar::{
    agrees, expect_identifier, parse_function, parse_params, parse_return_type, void_text,
};
use crate::parser_error::ParserError;
use crate::token::{Keyword, Token};
use crate::token_stream::TokenStream;

verus! {

/// Consumes an identifier and returns its text.
pub(crate) fn consume_identifier(stream: &mut TokenStream) -> (r: Result<String, ParserError>)
    requires
        old(stream).wf(),
    ensures
        final(stream).same_tokens(old(stream)),
        match (r, expect_identifier(old(stream).seq(), old(stream).pos())) {
            (Ok(s), Ok((t, q))) => s@ == t && final(stream).pos() == q,
            (Err(e), Err(f)) => e == f,
            _ => false,
        },
{
    match stream.peek() {
        None => Err(ParserError::UnexpectedEndOfInput),
        Some(Token::Identifier(s)) => {
            let s = s.clone();
            let _ = stream.advance(1);
            Ok(s)
        },
        Some(t) => Err(ParserError::UnexpectedToken(t.clone())),
    }
}

/// A parameter `name type`; the `,` or `)` after it is checked, not consumed.
pub fn parse_arg(stream: &mut TokenStream) -> (r: Result<Arg, ParserError>)
    requires
        old(stream).wf(),
    ensures
        final(stream).same_tokens(old(stream)),
        agrees(r, crate::grammar::parse_arg(old(stream).seq(), old(stream).pos()), final(stream).pos()),
        r is Ok ==> old(stream).pos() < final(stream).pos(),
{
    let name = match consume_identifier(stream) {
        Ok(s) => s,
        Err(err) => return Err(err),
    };
    let ty = match consume_identifier(stream) {
        Ok(s) => s,
        Err(err) => return Err(err),
    };
    match stream.peek() {
        None => Err(ParserError::UnexpectedEndOfInput),
        Some(Token::Comma) | Some(Token::CloseParen) => Ok(
            Arg { name, type_info: TypeInfo { name: Some(ty), is_mut: false } },
        ),
        Some(t) => Err(ParserError::UnexpectedToken(t.clone())),
    }
}

fn void_name() -> (r: String)
    ensures
        r@ == void_text(),
{
    proof {
        reveal_strlit("void");
    }
    String::from_str("void")
}

/// Parses function declarations.
pub struct FunctionParser;

impl FunctionParser {
    /// `fn name(params) return-type { body }`. The function's scope is entered
    /// for the parse and left again, whatever the outcome.
    pub fn parse(ctx: &mut ParserContext, stream: &mut TokenStream) -> (r: Result<Function, ParserError>)
        requires
            old(stream).wf(),
            old(ctx)@.len() > 0,
        ensures
            final(stream).same_tokens(old(stream)),
            final(ctx)@ == old(ctx)@,
            agrees(r, parse_function(old(stream).seq(), old(stream).pos()), final(stream).pos()),
            r is Ok ==> old(stream).pos() < final(stream).pos(),
    {
        match stream.consume_exact(Token::Keyword(Keyword::Fn)) {
            Ok(_) => {},
            Err(err) => return Err(err),
        }
        let name = match consume_identifier(stream) {
            Ok(s) => s,
            Err(err) => return Err(err),
        };
        ctx.enter_function(name.clone());
        let r = Self::parse_signature_and_body(ctx, stream, name);
        ctx.exit_function();
        proof {
            assert(ctx@ =~= old(ctx)@);
        }
        r
    }

    fn parse_signature_and_body(ctx: &mut ParserContext, stream: &mut TokenStream, name: String) -> (r: Result<
        Function,
        ParserError,
    >)
        requires
            old(stream).wf(),
        ensures
            final(stream).same_tokens(old(stream)),
            final(ctx)@ == old(ctx)@,
            match parse_signature_spec(old(stream).seq(), old(stream).pos(), name@) {
                Ok((f, q)) => r is Ok && r->Ok_0@ == f && final(stream).pos() == q,
                Err(e) => r == Err::<Function, ParserError>(e),
            },
            r is Ok ==> old(stream).pos() < final(stream).pos(),
    {
        let ghost ts = stream.seq();
        let ghost start = stream.pos();
        match stream.consume(Token::OpenParen) {
            Ok(_) => {},
            Err(err) => return Err(err),
        }
        let ghost params_start = stream.pos();
        let mut parameters: Vec<Arg> = Vec::new();
        assert(views(parameters@) =~= Seq::empty());
        loop
            invariant_except_break
                parse_params(ts, params_start, seq![]) == parse_params(ts, stream.pos(), views(parameters@)),
            invariant
                ts == old(stream).seq(),
                start == old(stream).pos(),
                stream.seq() == ts,
                stream.wf(),
                start < stream.pos(),
                params_start == start + 1,
                crate::grammar::expect_token(ts, start, crate::token::TokenView::OpenParen) == Ok::<_, ParserError>(((), params_start)),
                ctx@ == old(ctx)@,
            ensures
                parse_params(ts, params_start, seq![]) == Ok::<_, ParserError>((views(parameters@), stream.pos())),
                stream.seq() == ts,
                stream.wf(),
                start < stream.pos(),
            decreases ts.len() - stream.pos(),
        {
            match stream.peek() {
                None => return Err(ParserError::UnexpectedEndOfInput),
                Some(Token::CloseParen) => {
                    let _ = stream.advance(1);
                    break;
                },
                Some(_) => {},
            }
            let arg = match parse_arg(stream) {
                Ok(a) => a,
                Err(err) => return Err(err),
            };
            let ghost before = views(parameters@);
            parameters.push(arg);
            assert(views(parameters@) =~= before.push(arg@));
            let _ = stream.try_consume(Token::Comma);
        }
        let return_type = match stream.peek() {
            None => return Err(ParserError::UnexpectedEndOfInput),
            Some(Token::Identifier(t)) => {
                let t = t.clone();
                let _ = stream.advance(1);
                TypeInfo { name: Some(t), is_mut: false }
            },
            Some(Token::Keyword(Keyword::Void)) => {
                let _ = stream.advance(1);
                TypeInfo { name: Some(void_name()), is_mut: false }
            },
            Some(Token::OpenBrace) => TypeInfo { name: Some(void_name()), is_mut: false },
            Some(t) => return Err(ParserError::UnexpectedToken(t.clone())),
        };
        let block = match BlockParser::parse(ctx, stream) {
            Ok(b) => b,
            Err(err) => return Err(err),
        };
        Ok(Function { name, parameters, return_type, block })
    }
}

/// A function after its name: parameters, return type and body.
pub open spec fn parse_signature_spec(ts: Seq<Token>, p: int, name: Seq<char>) -> Result<
    (FunctionView, int),
    ParserError,
> {
    match crate::grammar::expect_token(ts, p, crate::token::TokenView::OpenParen) {
        Err(err) => Err(err),
        Ok((_, params_start)) => match parse_params(ts, params_start, seq![]) {
            Err(err) => Err(err),
            Ok((parameters, after_params)) => match parse_return_type(ts, after_params) {
                Err(err) => Err(err),
                Ok((return_type, body_start)) => match crate::grammar::parse_block(ts, body_start) {
                    Err(err) => Err(err),
                    Ok((block, end)) => Ok((FunctionView { name, parameters, return_type, block }, end)),
                },
            },
        },
    }
}

} // verus!
