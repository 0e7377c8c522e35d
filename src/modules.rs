use vstd::prelude::*;
use crate::ast::{Import, Module, ModuleView, empty_module, views};
use crate::context::ParserContext;
use crate::functions::{FunctionParser, consume_identifier};
use crate::grammar::{agrees, module_body, parse_module};
use crate::parser_error::ParserError;
use crate::statement::VariableParser;
use crate::token::{Keyword, Literal, Token};
use crate::token_stream::TokenStream;

verus! {

/// Parses a module: the entry point of the grammar.
pub struct ModuleParser;

proof fn lemma_module_view(m: Module)
    ensures
        m@.modules =~= views(m.modules@),
{
}

impl ModuleParser {
    /// `module name` and the module's body, up to the end of input or a `}`.
    /// The module's scope is entered for the parse and left again.
    pub fn parse(ctx: &mut ParserContext, stream: &mut TokenStream) -> (r: Result<Module, ParserError>)
        requires
            old(stream).wf(),
        ensures
            final(stream).same_tokens(old(stream)),
            final(ctx)@ == old(ctx)@,
            agrees(r, parse_module(old(stream).seq(), old(stream).pos()), final(stream).pos()),
    {
        let decl = match stream.consume_exact(Token::Keyword(Keyword::Module)) {
            Ok(t) => t,
            Err(_) => return Err(ParserError::ModuleNotFound),
        };
        let name = match stream.peek() {
            Some(Token::Identifier(s)) => s.clone(),
            _ => return Err(ParserError::ModuleWithoutName),
        };
        let _ = stream.advance(1);
        if stream.is_at_end() {
            return Err(ParserError::ModuleEmpty { start: decl, end: Token::Identifier(name) });
        }
        ctx.enter_module(name.clone());
        let r = Self::parse_module_body(ctx, stream, name, None);
        ctx.exit_module();
        proof {
            assert(ctx@ =~= old(ctx)@);
        }
        r
    }

    /// The declarations of a module body, into a module named `name`. `open`
    /// is the `{` of a nested module, whose body must be closed by `}`.
    fn parse_module_body(
        ctx: &mut ParserContext,
        stream: &mut TokenStream,
        name: String,
        open: Option<Token>,
    ) -> (r: Result<Module, ParserError>)
        requires
            old(stream).wf(),
            old(ctx)@.len() > 0,
        ensures
            final(stream).same_tokens(old(stream)),
            final(ctx)@ == old(ctx)@,
            agrees(r, module_body(old(stream).seq(), old(stream).pos(), empty_module(name@), open), final(stream).pos()),
            r is Ok ==> old(stream).pos() <= final(stream).pos(),
        decreases old(stream).seq().len() - old(stream).pos(),
    {
        let ghost ts = stream.seq();
        let ghost body_start = stream.pos();
        let mut m = Module {
            name,
            imports: Vec::new(),
            modules: Vec::new(),
            functions: Vec::new(),
            variables: Vec::new(),
        };
        proof {
            lemma_module_view(m);
            assert(m@.imports =~= Seq::empty());
            assert(m@.modules =~= Seq::empty());
            assert(m@.functions =~= Seq::empty());
            assert(m@.variables =~= Seq::empty());
            assert(m@ == empty_module(name@));
        }
        loop
            invariant_except_break
                module_body(ts, body_start, empty_module(name@), open) == module_body(ts, stream.pos(), m@, open),
            invariant
                ts == old(stream).seq(),
                body_start == old(stream).pos(),
                stream.seq() == ts,
                stream.wf(),
                body_start <= stream.pos(),
                ctx@ == old(ctx)@,
                ctx@.len() > 0,
            ensures
                module_body(ts, body_start, empty_module(name@), open) == Ok::<_, ParserError>((m@, stream.pos())),
                stream.seq() == ts,
                stream.wf(),
                body_start <= stream.pos(),
                ctx@ == old(ctx)@,
            decreases ts.len() - stream.pos(),
        {
            let ghost p = stream.pos();
            let ghost before = m@;
            match stream.peek() {
                None => {
                    match open {
                        Some(brace) => {
                            return Err(ParserError::MissingClosingBrace { start: brace, end: None });
                        },
                        None => break,
                    }
                },
                Some(Token::Keyword(Keyword::Module)) => {
                    let _ = stream.advance(1);
                    let inner_name = match consume_identifier(stream) {
                        Ok(s) => s,
                        Err(err) => return Err(err),
                    };
                    let brace = match stream.consume(Token::OpenBrace) {
                        Ok(t) => t,
                        Err(err) => return Err(err),
                    };
                    let _ = stream.try_consume(Token::Newline);
                    ctx.enter_module(inner_name.clone());
                    let inner = Self::parse_module_body(ctx, stream, inner_name, Some(brace));
                    ctx.exit_module();
                    proof {
                        assert(ctx@ =~= old(ctx)@);
                    }
                    let inner = match inner {
                        Ok(i) => i,
                        Err(err) => return Err(err),
                    };
                    m.modules.push(inner);
                    proof {
                        lemma_module_view(m);
                        assert(m@.modules =~= before.modules.push(inner@));
                        assert(m@ == ModuleView { modules: before.modules.push(inner@), ..before });
                    }
                },
                Some(Token::Identifier(_)) => {
                    let v = match VariableParser::parse(ctx, stream) {
                        Ok(v) => v,
                        Err(err) => return Err(err),
                    };
                    m.variables.push(v);
                    proof {
                        lemma_module_view(m);
                        assert(m@.variables =~= before.variables.push(v@));
                        assert(m@ == ModuleView { variables: before.variables.push(v@), ..before });
                    }
                    let _ = stream.try_consume(Token::Newline);
                },
                Some(Token::Keyword(Keyword::Fn)) => {
                    let f = match FunctionParser::parse(ctx, stream) {
                        Ok(f) => f,
                        Err(err) => return Err(err),
                    };
                    m.functions.push(f);
                    proof {
                        lemma_module_view(m);
                        assert(m@.functions =~= before.functions.push(f@));
                        assert(m@ == ModuleView { functions: before.functions.push(f@), ..before });
                    }
                    let _ = stream.try_consume(Token::Newline);
                },
                Some(Token::Keyword(Keyword::Import)) => {
                    let _ = stream.advance(1);
                    let path = match stream.peek() {
                        None => return Err(ParserError::UnexpectedEndOfInput),
                        Some(Token::Literal(Literal::String(path))) => path.clone(),
                        Some(t) => return Err(ParserError::UnexpectedToken(t.clone())),
                    };
                    let _ = stream.advance(1);
                    let import = Import { path };
                    m.imports.push(import);
                    proof {
                        lemma_module_view(m);
                        assert(m@.imports =~= before.imports.push(import@));
                        assert(m@ == ModuleView { imports: before.imports.push(import@), ..before });
                    }
                },
                Some(Token::CloseBrace) => {
                    let _ = stream.advance(1);
                    break;
                },
                Some(_) => {
                    let _ = stream.advance(1);
                },
            }
        }
        Ok(m)
    }
}

} // verus!
