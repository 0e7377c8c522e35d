//! The grammar of the language as spec functions over a token sequence. Each
//! function reads from index `p` and gives the node it parses with the index
//! after it, or the error the parse ends with.
use vstd::prelude::*;
use crate::ast::{
    ArgView, BlockView, ExpressionView, FunctionView, ImportView, ModuleView, StatementView,
    TypeInfoView, VariableView, empty_module,
};
use crate::parser_error::ParserError;
use crate::token::{Keyword, Operator, Token, TokenView};

verus! {

pub open spec fn end_of_input<T>() -> Result<(T, int), ParserError> {
    Err(ParserError::UnexpectedEndOfInput)
}

pub open spec fn unexpected<T>(t: Token) -> Result<(T, int), ParserError> {
    Err(ParserError::UnexpectedToken(t))
}

/// The text of an identifier token.
pub open spec fn ident_text(t: Token) -> Seq<char> {
    match t {
        Token::Identifier(s) => s@,
        _ => seq![],
    }
}

/// The index after an optional `Newline` at `p`.
pub open spec fn skip_newline(ts: Seq<Token>, p: int) -> int {
    if 0 <= p < ts.len() && ts[p] is Newline {
        p + 1
    } else {
        p
    }
}

/// The index after an optional `Comma` at `p`.
pub open spec fn skip_comma(ts: Seq<Token>, p: int) -> int {
    if 0 <= p < ts.len() && ts[p] is Comma {
        p + 1
    } else {
        p
    }
}

/// The binary operators of each precedence level, from the tightest: factor
/// (1: `* / %`), term (2: `+ -`), comparison (3: `< > <= >=`), equality
/// (4: `== !=`).
pub open spec fn level_operator(level: nat, t: Token) -> bool {
    match t {
        Token::Operator(op) => {
            if level == 1 {
                op == Operator::Star || op == Operator::Slash || op == Operator::Percent
            } else if level == 2 {
                op == Operator::Plus || op == Operator::Minus
            } else if level == 3 {
                op == Operator::Less || op == Operator::Greater || op == Operator::LessEqual
                    || op == Operator::GreaterEqual
            } else if level == 4 {
                op == Operator::Equal || op == Operator::NotEqual
            } else {
                false
            }
        },
        _ => false,
    }
}

/// The prefix operators.
pub open spec fn unary_operator(t: Token) -> bool {
    t == Token::Operator(Operator::Minus)
}

pub open spec fn operator_of(t: Token) -> Operator {
    match t {
        Token::Operator(op) => op,
        _ => Operator::Question,
    }
}

/// A literal, an identifier (a variable use) or a parenthesised expression.
pub open spec fn parse_primary(ts: Seq<Token>, p: int) -> Result<(ExpressionView, int), ParserError>
    decreases ts.len() - p, 0nat, 0nat,
{
    if p < 0 || p >= ts.len() {
        end_of_input()
    } else {
        match ts[p] {
            Token::OpenParen => match parse_expression(ts, p + 1) {
                Ok((e, q)) => {
                    if q < 0 || q >= ts.len() {
                        end_of_input()
                    } else if ts[q] is CloseParen {
                        Ok((ExpressionView::Group(Box::new(e)), q + 1))
                    } else {
                        unexpected(ts[q])
                    }
                },
                Err(err) => Err(err),
            },
            Token::Literal(l) => Ok((ExpressionView::Literal(l@), p + 1)),
            Token::Identifier(name) => Ok(
                (
                    ExpressionView::Variable(
                        VariableView { name: name@, is_decl: false, expression: None, type_info: None },
                    ),
                    p + 1,
                ),
            ),
            t => unexpected(t),
        }
    }
}

/// Prefix operators, right-associative, over a primary expression.
pub open spec fn parse_unary(ts: Seq<Token>, p: int) -> Result<(ExpressionView, int), ParserError>
    decreases ts.len() - p, 1nat, 0nat,
{
    if p < 0 || p >= ts.len() {
        end_of_input()
    } else if unary_operator(ts[p]) {
        match parse_unary(ts, p + 1) {
            Ok((e, q)) => Ok((ExpressionView::Unary(operator_of(ts[p]), Box::new(e)), q)),
            Err(err) => Err(err),
        }
    } else {
        parse_primary(ts, p)
    }
}

/// An expression at precedence `level` (0 is the unary level): operands of
/// the level below joined left-associatively by this level's operators.
pub open spec fn parse_level(ts: Seq<Token>, level: nat, p: int) -> Result<(ExpressionView, int), ParserError>
    decreases ts.len() - p, level + 2, 0nat,
{
    if level == 0 {
        parse_unary(ts, p)
    } else {
        match parse_level(ts, (level - 1) as nat, p) {
            Ok((left, q)) => {
                // an operand always takes at least one token
                if p < q <= ts.len() {
                    level_rest(ts, level, left, q)
                } else {
                    Ok((left, q))
                }
            },
            Err(err) => Err(err),
        }
    }
}

/// The rest of a level-`level` expression whose operands so far make `left`.
pub open spec fn level_rest(ts: Seq<Token>, level: nat, left: ExpressionView, q: int) -> Result<
    (ExpressionView, int),
    ParserError,
>
    decreases ts.len() - q, level + 2, 1nat,
{
    if 0 <= q < ts.len() && level >= 1 && level_operator(level, ts[q]) {
        let joined = |right: ExpressionView|
            ExpressionView::Binary(Box::new(left), operator_of(ts[q]), Box::new(right));
        match parse_level(ts, (level - 1) as nat, q + 1) {
            Ok((right, r)) => {
                if q < r <= ts.len() {
                    level_rest(ts, level, joined(right), r)
                } else {
                    Ok((joined(right), r))
                }
            },
            Err(err) => Err(err),
        }
    } else {
        Ok((left, q))
    }
}

/// A full expression, then an optional `Newline`.
pub open spec fn parse_expression(ts: Seq<Token>, p: int) -> Result<(ExpressionView, int), ParserError>
    decreases ts.len() - p, 7nat, 0nat,
{
    match parse_level(ts, 4, p) {
        Ok((e, q)) => Ok((e, skip_newline(ts, q))),
        Err(err) => Err(err),
    }
}

/// The shape of a variable statement at `p`, as (is a declaration,
/// mutability of a declaration, number of tokens before the expression):
/// `name =` is a reassignment; `name :=` (lexed as one `Assign`, or as
/// `Assign` then `Reassign`) a declaration; `name : mut =` a mutable one.
pub open spec fn variable_form(ts: Seq<Token>, p: int) -> Option<(bool, bool, int)> {
    if !(0 <= p && p + 1 < ts.len() && ts[p] is Identifier) {
        None
    } else if ts[p + 1] == Token::Operator(Operator::Reassign) {
        Some((false, false, 2))
    } else if ts[p + 1] != Token::Operator(Operator::Assign) {
        None
    } else if p + 2 < ts.len() && ts[p + 2] == Token::Operator(Operator::Reassign) {
        Some((true, false, 3))
    } else if p + 3 < ts.len() && ts[p + 2] == Token::Keyword(Keyword::Mut) && ts[p + 3]
        == Token::Operator(Operator::Reassign) {
        Some((true, true, 4))
    } else {
        Some((true, false, 2))
    }
}

/// A declaration or reassignment: its form, then the assigned expression.
pub open spec fn parse_variable(ts: Seq<Token>, p: int) -> Result<(VariableView, int), ParserError> {
    match variable_form(ts, p) {
        Some((is_decl, is_mut, n)) => match parse_expression(ts, p + n) {
            Ok((e, q)) => Ok(
                (
                    VariableView {
                        name: ident_text(ts[p]),
                        is_decl,
                        expression: Some(Box::new(e)),
                        type_info: if is_decl {
                            Some(TypeInfoView { name: None, is_mut })
                        } else {
                            None
                        },
                    },
                    q,
                ),
            ),
            Err(err) => Err(err),
        },
        None => {
            if p < 0 || p >= ts.len() {
                end_of_input()
            } else {
                unexpected(ts[p])
            }
        },
    }
}

/// A nested block, a variable statement, or an expression.
pub open spec fn parse_statement(ts: Seq<Token>, p: int) -> Result<(StatementView, int), ParserError>
    decreases ts.len() - p, 2nat, 0nat,
{
    if 0 <= p < ts.len() && ts[p] is OpenBrace {
        match parse_block(ts, p) {
            Ok((b, q)) => Ok((StatementView::Block(b), q)),
            Err(err) => Err(err),
        }
    } else if variable_form(ts, p) is Some {
        match parse_variable(ts, p) {
            Ok((v, q)) => Ok((StatementView::Expression(ExpressionView::Variable(v)), q)),
            Err(err) => Err(err),
        }
    } else {
        match parse_expression(ts, p) {
            Ok((e, q)) => Ok((StatementView::Expression(e), q)),
            Err(err) => Err(err),
        }
    }
}

/// `{`, an optional `Newline`, statements, `}`.
pub open spec fn parse_block(ts: Seq<Token>, p: int) -> Result<(BlockView, int), ParserError>
    decreases ts.len() - p, 1nat, 0nat,
{
    if p < 0 || p >= ts.len() {
        end_of_input()
    } else if ts[p] is OpenBrace {
        block_rest(ts, skip_newline(ts, p + 1), seq![])
    } else {
        unexpected(ts[p])
    }
}

/// The statements of a block from `p` to its `}`, after `done`.
pub open spec fn block_rest(ts: Seq<Token>, p: int, done: Seq<StatementView>) -> Result<
    (BlockView, int),
    ParserError,
>
    decreases ts.len() - p, 3nat, 0nat,
{
    if p < 0 || p >= ts.len() {
        end_of_input()
    } else if ts[p] is CloseBrace {
        Ok((BlockView { statements: done }, p + 1))
    } else {
        match parse_statement(ts, p) {
            Ok((s, q)) => {
                // a statement always takes at least one token
                if p < q <= ts.len() {
                    block_rest(ts, q, done.push(s))
                } else {
                    Ok((BlockView { statements: done.push(s) }, q))
                }
            },
            Err(err) => Err(err),
        }
    }
}

/// The token at `p` must equal `t`.
pub open spec fn expect_token(ts: Seq<Token>, p: int, t: TokenView) -> Result<((), int), ParserError> {
    if p < 0 || p >= ts.len() {
        end_of_input()
    } else if ts[p]@ == t {
        Ok(((), p + 1))
    } else {
        unexpected(ts[p])
    }
}

/// The token at `p` must be an identifier.
pub open spec fn expect_identifier(ts: Seq<Token>, p: int) -> Result<(Seq<char>, int), ParserError> {
    if p < 0 || p >= ts.len() {
        end_of_input()
    } else if ts[p] is Identifier {
        Ok((ident_text(ts[p]), p + 1))
    } else {
        unexpected(ts[p])
    }
}

/// A parameter `name type`, which a `,` or `)` must follow (not consumed).
pub open spec fn parse_arg(ts: Seq<Token>, p: int) -> Result<(ArgView, int), ParserError> {
    match expect_identifier(ts, p) {
        Err(err) => Err(err),
        Ok((name, q)) => match expect_identifier(ts, q) {
            Err(err) => Err(err),
            Ok((ty, r)) => {
                if r < 0 || r >= ts.len() {
                    end_of_input()
                } else if ts[r] is Comma || ts[r] is CloseParen {
                    Ok((ArgView { name, type_info: TypeInfoView { name: Some(ty), is_mut: false } }, r))
                } else {
                    unexpected(ts[r])
                }
            },
        },
    }
}

/// The parameters after `(` up to and including `)`, after `done`.
pub open spec fn parse_params(ts: Seq<Token>, p: int, done: Seq<ArgView>) -> Result<
    (Seq<ArgView>, int),
    ParserError,
>
    decreases ts.len() - p,
{
    if p < 0 || p >= ts.len() {
        end_of_input()
    } else if ts[p] is CloseParen {
        Ok((done, p + 1))
    } else {
        match parse_arg(ts, p) {
            Ok((a, q)) => {
                if p < q <= ts.len() {
                    parse_params(ts, skip_comma(ts, q), done.push(a))
                } else {
                    Ok((done.push(a), q))
                }
            },
            Err(err) => Err(err),
        }
    }
}

pub open spec fn void_text() -> Seq<char> {
    seq!['v', 'o', 'i', 'd']
}

/// The return type: an identifier or `void`, or nothing before the body,
/// which means `void`.
pub open spec fn parse_return_type(ts: Seq<Token>, p: int) -> Result<(TypeInfoView, int), ParserError> {
    if p < 0 || p >= ts.len() {
        end_of_input()
    } else {
        match ts[p] {
            Token::Identifier(t) => Ok((TypeInfoView { name: Some(t@), is_mut: false }, p + 1)),
            Token::Keyword(Keyword::Void) => Ok((TypeInfoView { name: Some(void_text()), is_mut: false }, p + 1)),
            Token::OpenBrace => Ok((TypeInfoView { name: Some(void_text()), is_mut: false }, p)),
            t => unexpected(t),
        }
    }
}

/// `fn name(params) return-type { body }`.
pub open spec fn parse_function(ts: Seq<Token>, p: int) -> Result<(FunctionView, int), ParserError> {
    match expect_token(ts, p, TokenView::Keyword(Keyword::Fn)) {
        Err(err) => Err(err),
        Ok((_, at_name)) => match expect_identifier(ts, at_name) {
            Err(err) => Err(err),
            Ok((name, at_paren)) => match expect_token(ts, at_paren, TokenView::OpenParen) {
                Err(err) => Err(err),
                Ok((_, params_start)) => match parse_params(ts, params_start, seq![]) {
                    Err(err) => Err(err),
                    Ok((parameters, after_params)) => match parse_return_type(ts, after_params) {
                        Err(err) => Err(err),
                        Ok((return_type, body_start)) => match parse_block(ts, body_start) {
                            Err(err) => Err(err),
                            Ok((block, after_body)) => Ok((FunctionView { name, parameters, return_type, block }, after_body)),
                        },
                    },
                },
            },
        },
    }
}

/// The body of a module from `p`, added to `m`. A nested module's body
/// (`open` is its `{`) ends at its `}`, and must have one; the top-level body
/// ends at the end of input or at a `}`. Tokens that start no declaration are
/// skipped.
pub open spec fn module_body(ts: Seq<Token>, p: int, m: ModuleView, open: Option<Token>) -> Result<
    (ModuleView, int),
    ParserError,
>
    decreases ts.len() - p,
{
    if p < 0 || p >= ts.len() {
        match open {
            Some(brace) => Err(ParserError::MissingClosingBrace { start: brace, end: None }),
            None => Ok((m, p)),
        }
    } else {
        match ts[p] {
            Token::Keyword(Keyword::Module) => match expect_identifier(ts, p + 1) {
                Err(err) => Err(err),
                Ok((name, at_brace)) => match expect_token(ts, at_brace, TokenView::OpenBrace) {
                    Err(err) => Err(err),
                    Ok((_, after_brace)) => match module_body(ts, skip_newline(ts, after_brace), empty_module(name), Some(ts[at_brace])) {
                        Err(err) => Err(err),
                        Ok((inner, q)) => {
                            let m2 = ModuleView { modules: m.modules.push(inner), ..m };
                            if p < q <= ts.len() {
                                module_body(ts, q, m2, open)
                            } else {
                                Ok((m2, q))
                            }
                        },
                    },
                },
            },
            Token::Identifier(_) => match parse_variable(ts, p) {
                Err(err) => Err(err),
                Ok((v, q)) => {
                    let m2 = ModuleView { variables: m.variables.push(v), ..m };
                    if p < q <= ts.len() {
                        module_body(ts, skip_newline(ts, q), m2, open)
                    } else {
                        Ok((m2, q))
                    }
                },
            },
            Token::Keyword(Keyword::Fn) => match parse_function(ts, p) {
                Err(err) => Err(err),
                Ok((f, q)) => {
                    let m2 = ModuleView { functions: m.functions.push(f), ..m };
                    if p < q <= ts.len() {
                        module_body(ts, skip_newline(ts, q), m2, open)
                    } else {
                        Ok((m2, q))
                    }
                },
            },
            Token::Keyword(Keyword::Import) => {
                if p + 1 >= ts.len() {
                    end_of_input()
                } else {
                    match ts[p + 1] {
                        Token::Literal(crate::token::Literal::String(path)) => module_body(
                            ts,
                            p + 2,
                            ModuleView { imports: m.imports.push(ImportView { path: path@ }), ..m },
                            open,
                        ),
                        t => unexpected(t),
                    }
                }
            },
            Token::CloseBrace => Ok((m, p + 1)),
            _ => module_body(ts, p + 1, m, open),
        }
    }
}

/// A source unit from `p`: `module name`, then the module's body.
pub open spec fn parse_module(ts: Seq<Token>, p: int) -> Result<(ModuleView, int), ParserError> {
    if p < 0 || p >= ts.len() || ts[p]@ != TokenView::Keyword(Keyword::Module) {
        Err(ParserError::ModuleNotFound)
    } else if p + 1 >= ts.len() || !(ts[p + 1] is Identifier) {
        Err(ParserError::ModuleWithoutName)
    } else if p + 2 == ts.len() {
        Err(ParserError::ModuleEmpty { start: ts[p], end: ts[p + 1] })
    } else {
        module_body(ts, p + 2, empty_module(ident_text(ts[p + 1])), None)
    }
}

} // verus!

verus! {

/// An executable parse result `r`, with the cursor left at `end`, is the
/// grammar's result `s`.
pub open spec fn agrees<T: View>(r: Result<T, ParserError>, s: Result<(T::V, int), ParserError>, end: int) -> bool {
    match r {
        Ok(v) => s == Ok::<(T::V, int), ParserError>((v@, end)),
        Err(e) => s == Err::<(T::V, int), ParserError>(e),
    }
}

} // verus!
