//! Parsing inverts rendering for whole modules, at the token level.
use vstd::prelude::*;
use crate::ast::{
    ArgView, BlockView, ExpressionView, FunctionView, ImportView, ModuleView, StatementView,
    TypeInfoView, VariableView, empty_module,
};
use crate::grammar::{
    block_rest, expect_identifier, expect_token, ident_text, module_body, parse_arg, parse_block,
    parse_expression, parse_function, parse_module, parse_params, parse_return_type,
    parse_statement, parse_variable, skip_comma, skip_newline, variable_form, void_text,
};
use crate::parser_error::ParserError;
use crate::roundtrip::{
    lemma_expression, operator_level, printable, rendered_at, rendered_tokens, stops_below,
};
use crate::lexer::lex_spec;
use crate::printing::{lex_printed_tokens, printable_token, printable_tokens, printed_text};
use crate::token::{Keyword, LiteralView, Operator, Token, TokenView};
use crate::words::{ci_char_eq, ci_eq, keyword_of, keyword_text};

verus! {

/// The tokens of `ts` from `p` on begin with `r`.
pub open spec fn tokens_at(ts: Seq<Token>, p: int, r: Seq<TokenView>) -> bool {
    &&& 0 <= p
    &&& p + r.len() <= ts.len()
    &&& forall|i: int| 0 <= i < r.len() ==> #[trigger] ts[p + i]@ == r[i]
}

/// A variable statement the grammar produces: a reassignment, or a
/// declaration without type name, of a printable expression.
pub open spec fn printable_binding(v: VariableView) -> bool {
    &&& v.expression is Some
    &&& printable(*v.expression->Some_0)
    &&& if v.is_decl {
        v.type_info is Some && v.type_info->Some_0.name is None
    } else {
        v.type_info is None
    }
}

/// `name =`, `name :` or `name : mut =`, then the expression and a `Newline`.
pub open spec fn binding_tokens(v: VariableView) -> Seq<TokenView> {
    let head = if !v.is_decl {
        seq![TokenView::Identifier(v.name), TokenView::Operator(Operator::Reassign)]
    } else if v.type_info->Some_0.is_mut {
        seq![
            TokenView::Identifier(v.name),
            TokenView::Operator(Operator::Assign),
            TokenView::Keyword(Keyword::Mut),
            TokenView::Operator(Operator::Reassign),
        ]
    } else {
        seq![TokenView::Identifier(v.name), TokenView::Operator(Operator::Assign)]
    };
    head + rendered_tokens(*v.expression->Some_0) + seq![TokenView::Newline]
}

pub open spec fn printable_statement(s: StatementView) -> bool
    decreases s,
{
    match s {
        StatementView::Block(b) => printable_statements(b.statements),
        StatementView::Expression(e) => match e {
            ExpressionView::Variable(v) => if v.expression is Some {
                printable_binding(v)
            } else {
                printable(e)
            },
            _ => printable(e),
        },
    }
}

pub open spec fn printable_statements(ss: Seq<StatementView>) -> bool
    decreases ss,
{
    if ss.len() == 0 {
        true
    } else {
        printable_statement(ss[0]) && printable_statements(ss.subrange(1, ss.len() as int))
    }
}

/// A block in braces; a variable statement or expression followed by `Newline`.
pub open spec fn statement_tokens(s: StatementView) -> Seq<TokenView>
    decreases s,
{
    match s {
        StatementView::Block(b) => seq![TokenView::OpenBrace] + statements_tokens(b.statements) + seq![
            TokenView::CloseBrace,
        ],
        StatementView::Expression(e) => match e {
            ExpressionView::Variable(v) => if v.expression is Some {
                binding_tokens(v)
            } else {
                rendered_tokens(e) + seq![TokenView::Newline]
            },
            _ => rendered_tokens(e) + seq![TokenView::Newline],
        },
    }
}

pub open spec fn statements_tokens(ss: Seq<StatementView>) -> Seq<TokenView>
    decreases ss,
{
    if ss.len() == 0 {
        seq![]
    } else {
        statement_tokens(ss[0]) + statements_tokens(ss.subrange(1, ss.len() as int))
    }
}

pub open spec fn block_tokens(b: BlockView) -> Seq<TokenView> {
    seq![TokenView::OpenBrace] + statements_tokens(b.statements) + seq![TokenView::CloseBrace]
}

pub open spec fn printable_arg(a: ArgView) -> bool {
    a.type_info.name is Some && !a.type_info.is_mut
}

/// `name type` for each parameter, separated by commas.
pub open spec fn params_tokens(ps: Seq<ArgView>) -> Seq<TokenView>
    decreases ps.len(),
{
    if ps.len() == 0 {
        seq![]
    } else {
        let a = seq![TokenView::Identifier(ps[0].name), TokenView::Identifier(ps[0].type_info.name->Some_0)];
        if ps.len() == 1 {
            a
        } else {
            a + seq![TokenView::Comma] + params_tokens(ps.skip(1))
        }
    }
}

/// The return type: the keyword `void` for `void`, else the type name.
pub open spec fn return_tokens(t: Seq<char>) -> Seq<TokenView> {
    if t == void_text() {
        seq![TokenView::Keyword(Keyword::Void)]
    } else {
        seq![TokenView::Identifier(t)]
    }
}

pub open spec fn printable_function(f: FunctionView) -> bool {
    &&& forall|i: int| 0 <= i < f.parameters.len() ==> printable_arg(#[trigger] f.parameters[i])
    &&& f.return_type.name is Some
    &&& !f.return_type.is_mut
    &&& printable_statements(f.block.statements)
}

pub open spec fn function_tokens(f: FunctionView) -> Seq<TokenView> {
    seq![TokenView::Keyword(Keyword::Fn), TokenView::Identifier(f.name), TokenView::OpenParen]
        + params_tokens(f.parameters) + seq![TokenView::CloseParen] + return_tokens(
        f.return_type.name->Some_0,
    ) + block_tokens(f.block)
}

pub open spec fn printable_module(m: ModuleView) -> bool
    decreases m,
{
    &&& forall|i: int| 0 <= i < m.variables.len() ==> printable_binding(#[trigger] m.variables[i])
    &&& forall|i: int| 0 <= i < m.functions.len() ==> printable_function(#[trigger] m.functions[i])
    &&& printable_modules(m.modules)
}

pub open spec fn printable_modules(ms: Seq<ModuleView>) -> bool
    decreases ms,
{
    if ms.len() == 0 {
        true
    } else {
        printable_module(ms[0]) && printable_modules(ms.subrange(1, ms.len() as int))
    }
}

pub open spec fn imports_tokens(is: Seq<ImportView>) -> Seq<TokenView>
    decreases is.len(),
{
    if is.len() == 0 {
        seq![]
    } else {
        seq![
            TokenView::Keyword(Keyword::Import),
            TokenView::Literal(LiteralView::String(is[0].path)),
            TokenView::Newline,
        ] + imports_tokens(is.skip(1))
    }
}

pub open spec fn bindings_tokens(vs: Seq<VariableView>) -> Seq<TokenView>
    decreases vs.len(),
{
    if vs.len() == 0 {
        seq![]
    } else {
        binding_tokens(vs[0]) + bindings_tokens(vs.skip(1))
    }
}

pub open spec fn functions_tokens(fs: Seq<FunctionView>) -> Seq<TokenView>
    decreases fs.len(),
{
    if fs.len() == 0 {
        seq![]
    } else {
        function_tokens(fs[0]) + seq![TokenView::Newline] + functions_tokens(fs.skip(1))
    }
}

/// A module's declarations: imports, variables, functions, nested modules.
pub open spec fn body_tokens(m: ModuleView) -> Seq<TokenView>
    decreases m,
{
    imports_tokens(m.imports) + bindings_tokens(m.variables) + functions_tokens(m.functions)
        + modules_tokens(m.modules)
}

/// Each nested module as `module name {` body `}` and a `Newline`.
pub open spec fn modules_tokens(ms: Seq<ModuleView>) -> Seq<TokenView>
    decreases ms,
{
    if ms.len() == 0 {
        seq![]
    } else {
        seq![TokenView::Keyword(Keyword::Module), TokenView::Identifier(ms[0].name), TokenView::OpenBrace]
            + body_tokens(ms[0]) + seq![TokenView::CloseBrace, TokenView::Newline] + modules_tokens(
            ms.subrange(1, ms.len() as int),
        )
    }
}

/// A source unit: `module name`, a `Newline`, the body.
pub open spec fn module_tokens(m: ModuleView) -> Seq<TokenView> {
    seq![TokenView::Keyword(Keyword::Module), TokenView::Identifier(m.name), TokenView::Newline]
        + body_tokens(m)
}

proof fn lemma_split(ts: Seq<Token>, p: int, a: Seq<TokenView>, b: Seq<TokenView>)
    requires
        tokens_at(ts, p, a + b),
    ensures
        tokens_at(ts, p, a),
        tokens_at(ts, p + a.len(), b),
{
    assert forall|i: int| 0 <= i < a.len() implies #[trigger] ts[p + i]@ == a[i] by {
        assert((a + b)[i] == a[i]);
    }
    assert forall|i: int| 0 <= i < b.len() implies #[trigger] ts[p + a.len() + i]@ == b[i] by {
        assert((a + b)[a.len() + i] == b[i]);
        assert(ts[p + (a.len() + i)]@ == (a + b)[a.len() + i]);
        assert(p + (a.len() + i) == p + a.len() + i);
    }
}

proof fn lemma_at(ts: Seq<Token>, p: int, r: Seq<TokenView>, i: int)
    requires
        tokens_at(ts, p, r),
        0 <= i < r.len(),
    ensures
        ts[p + i]@ == r[i],
{
}

/// The first token of a printable expression starts no block, statement end
/// or variable form.
proof fn lemma_expression_start(e: ExpressionView)
    requires
        printable(e),
    ensures
        rendered_tokens(e).len() >= 1,
        rendered_tokens(e)[0] is Literal || rendered_tokens(e)[0] is Identifier || rendered_tokens(e)[0] is OpenParen
            || rendered_tokens(e)[0] == TokenView::Operator(Operator::Minus),
    decreases e,
{
    match e {
        ExpressionView::Binary(left, _, right) => {
            lemma_expression_start(*left);
            assert(rendered_tokens(e)[0] == rendered_tokens(*left)[0]);
        },
        ExpressionView::Group(inner) => {
            lemma_expression_start(*inner);
        },
        ExpressionView::Unary(_, operand) => {
            lemma_expression_start(*operand);
        },
        _ => {},
    }
}

/// The operators in a printable expression are binary operators or `-`.
proof fn lemma_expression_operators(e: ExpressionView, i: int)
    requires
        printable(e),
        0 <= i < rendered_tokens(e).len(),
        rendered_tokens(e)[i] is Operator,
    ensures
        rendered_tokens(e)[i]->Operator_0 == Operator::Minus || 1 <= operator_level(
            rendered_tokens(e)[i]->Operator_0,
        ),
    decreases e,
{
    let r = rendered_tokens(e);
    match e {
        ExpressionView::Binary(left, op, right) => {
            let rl = rendered_tokens(*left);
            if i < rl.len() {
                assert(r[i] == rl[i]);
                lemma_expression_operators(*left, i);
            } else if i > rl.len() {
                assert(r[i] == rendered_tokens(*right)[i - rl.len() - 1]);
                lemma_expression_operators(*right, i - rl.len() - 1);
            }
        },
        ExpressionView::Group(inner) => {
            if 0 < i < r.len() - 1 {
                assert(r[i] == rendered_tokens(*inner)[i - 1]);
                lemma_expression_operators(*inner, i - 1);
            }
        },
        ExpressionView::Unary(_, operand) => {
            if i > 0 {
                assert(r[i] == rendered_tokens(*operand)[i - 1]);
                lemma_expression_operators(*operand, i - 1);
            }
        },
        _ => {},
    }
}

/// A printable expression followed by `Newline` parses as a full expression
/// that consumes the `Newline`.
proof fn lemma_expression_line(ts: Seq<Token>, p: int, e: ExpressionView)
    requires
        printable(e),
        tokens_at(ts, p, rendered_tokens(e) + seq![TokenView::Newline]),
    ensures
        parse_expression(ts, p) == Ok::<_, ParserError>((e, p + rendered_tokens(e).len() + 1)),
{
    let r = rendered_tokens(e);
    lemma_split(ts, p, r, seq![TokenView::Newline]);
    lemma_at(ts, p + r.len(), seq![TokenView::Newline], 0);
    assert(ts[p + r.len()] is Newline);
    assert(rendered_at(ts, p, e));
    assert(stops_below(ts, p + r.len(), 4));
    lemma_expression(ts, p, e, 4);
}

proof fn lemma_binding(ts: Seq<Token>, p: int, v: VariableView)
    requires
        printable_binding(v),
        tokens_at(ts, p, binding_tokens(v)),
    ensures
        parse_variable(ts, p) == Ok::<_, ParserError>((v, p + binding_tokens(v).len())),
{
    let e = *v.expression->Some_0;
    let r = rendered_tokens(e);
    lemma_expression_start(e);
    let head = if !v.is_decl {
        seq![TokenView::Identifier(v.name), TokenView::Operator(Operator::Reassign)]
    } else if v.type_info->Some_0.is_mut {
        seq![
            TokenView::Identifier(v.name),
            TokenView::Operator(Operator::Assign),
            TokenView::Keyword(Keyword::Mut),
            TokenView::Operator(Operator::Reassign),
        ]
    } else {
        seq![TokenView::Identifier(v.name), TokenView::Operator(Operator::Assign)]
    };
    assert(binding_tokens(v) == head + (r + seq![TokenView::Newline]));
    lemma_split(ts, p, head, r + seq![TokenView::Newline]);
    let n = head.len();
    lemma_at(ts, p, head, 0);
    lemma_at(ts, p, head, 1);
    assert(ts[p] is Identifier && ident_text(ts[p]) == v.name);
    lemma_split(ts, p + n, r, seq![TokenView::Newline]);
    lemma_at(ts, p + n, r, 0);
    if !v.is_decl {
        assert(ts[p + 1] == Token::Operator(Operator::Reassign));
        assert(variable_form(ts, p) == Some((false, false, 2int)));
    } else if v.type_info->Some_0.is_mut {
        lemma_at(ts, p, head, 2);
        lemma_at(ts, p, head, 3);
        assert(ts[p + 1] == Token::Operator(Operator::Assign));
        assert(ts[p + 2] == Token::Keyword(Keyword::Mut));
        assert(ts[p + 3] == Token::Operator(Operator::Reassign));
        assert(variable_form(ts, p) == Some((true, true, 4int)));
    } else {
        assert(ts[p + 1] == Token::Operator(Operator::Assign));
        assert(ts[p + 2]@ == r[0]);
        assert(ts[p + 2] != Token::Operator(Operator::Reassign));
        assert(ts[p + 2] != Token::Keyword(Keyword::Mut));
        assert(variable_form(ts, p) == Some((true, false, 2int)));
    }
    lemma_expression_line(ts, p + n, e);
    assert(v.expression == Some(Box::new(e)));
}

proof fn lemma_statement(ts: Seq<Token>, p: int, s: StatementView)
    requires
        printable_statement(s),
        tokens_at(ts, p, statement_tokens(s)),
    ensures
        parse_statement(ts, p) == Ok::<_, ParserError>((s, p + statement_tokens(s).len())),
    decreases s, 1nat,
{
    match s {
        StatementView::Block(b) => {
            lemma_block(ts, p, b);
        },
        StatementView::Expression(e) => {
            let r = rendered_tokens(e);
            if e is Variable && e->Variable_0.expression is Some {
                let v = e->Variable_0;
                lemma_at(ts, p, binding_tokens(v), 0);
                assert(!(ts[p] is OpenBrace));
                lemma_binding(ts, p, v);
            } else {
                lemma_expression_start(e);
                lemma_split(ts, p, r, seq![TokenView::Newline]);
                lemma_at(ts, p, r, 0);
                assert(!(ts[p] is OpenBrace));
                let next = if r.len() > 1 {
                    r[1]
                } else {
                    TokenView::Newline
                };
                if r.len() > 1 {
                    lemma_at(ts, p, r, 1);
                    if r[1] is Operator {
                        lemma_expression_operators(e, 1);
                    }
                } else {
                    lemma_at(ts, p + r.len(), seq![TokenView::Newline], 0);
                }
                assert(ts[p + 1]@ == next);
                assert(variable_form(ts, p) is None);
                lemma_expression_line(ts, p, e);
            }
        },
    }
}

proof fn lemma_statement_start(s: StatementView)
    requires
        printable_statement(s),
    ensures
        statement_tokens(s).len() >= 1,
        !(statement_tokens(s)[0] is Newline),
        !(statement_tokens(s)[0] is CloseBrace),
{
    match s {
        StatementView::Block(b) => {},
        StatementView::Expression(e) => {
            if !(e is Variable && e->Variable_0.expression is Some) {
                lemma_expression_start(e);
            }
        },
    }
}

proof fn lemma_block_rest(ts: Seq<Token>, p: int, ss: Seq<StatementView>, done: Seq<StatementView>)
    requires
        printable_statements(ss),
        tokens_at(ts, p, statements_tokens(ss) + seq![TokenView::CloseBrace]),
    ensures
        block_rest(ts, p, done) == Ok::<_, ParserError>(
            (BlockView { statements: done + ss }, p + statements_tokens(ss).len() + 1),
        ),
    decreases ss, 0nat,
{
    let rs = statements_tokens(ss);
    lemma_split(ts, p, rs, seq![TokenView::CloseBrace]);
    if ss.len() == 0 {
        lemma_at(ts, p, seq![TokenView::CloseBrace], 0);
        assert(done + ss =~= done);
    } else {
        let s = ss[0];
        let tail = ss.subrange(1, ss.len() as int);
        let r0 = statement_tokens(s);
        let rt = statements_tokens(tail);
        assert(rs == r0 + rt);
        assert(rs + seq![TokenView::CloseBrace] == r0 + (rt + seq![TokenView::CloseBrace]));
        lemma_split(ts, p, r0, rt + seq![TokenView::CloseBrace]);
        lemma_statement_start(s);
        lemma_at(ts, p, r0, 0);
        assert(!(ts[p] is CloseBrace));
        lemma_statement(ts, p, s);
        lemma_block_rest(ts, p + r0.len(), tail, done.push(s));
        assert(done.push(s) + tail =~= done + ss);
    }
}

proof fn lemma_block(ts: Seq<Token>, p: int, b: BlockView)
    requires
        printable_statements(b.statements),
        tokens_at(ts, p, block_tokens(b)),
    ensures
        parse_block(ts, p) == Ok::<_, ParserError>((b, p + block_tokens(b).len())),
    decreases b, 2nat,
{
    let rs = statements_tokens(b.statements);
    assert(block_tokens(b) == seq![TokenView::OpenBrace] + (rs + seq![TokenView::CloseBrace]));
    lemma_split(ts, p, seq![TokenView::OpenBrace], rs + seq![TokenView::CloseBrace]);
    lemma_at(ts, p, seq![TokenView::OpenBrace], 0);
    lemma_at(ts, p + 1, rs + seq![TokenView::CloseBrace], 0);
    if b.statements.len() > 0 {
        lemma_statement_start(b.statements[0]);
        assert(rs == statement_tokens(b.statements[0]) + statements_tokens(
            b.statements.subrange(1, b.statements.len() as int),
        ));
        assert((rs + seq![TokenView::CloseBrace])[0] == statement_tokens(b.statements[0])[0]);
    }
    assert(!(ts[p + 1] is Newline));
    lemma_block_rest(ts, p + 1, b.statements, seq![]);
    assert(Seq::<StatementView>::empty() + b.statements =~= b.statements);
}

proof fn lemma_params(ts: Seq<Token>, p: int, ps: Seq<ArgView>, done: Seq<ArgView>)
    requires
        forall|i: int| 0 <= i < ps.len() ==> printable_arg(#[trigger] ps[i]),
        tokens_at(ts, p, params_tokens(ps) + seq![TokenView::CloseParen]),
    ensures
        parse_params(ts, p, done) == Ok::<_, ParserError>((done + ps, p + params_tokens(ps).len() + 1)),
    decreases ps.len(),
{
    let rp = params_tokens(ps);
    lemma_split(ts, p, rp, seq![TokenView::CloseParen]);
    if ps.len() == 0 {
        lemma_at(ts, p, seq![TokenView::CloseParen], 0);
        assert(done + ps =~= done);
    } else {
        let a = ps[0];
        assert(printable_arg(a));
        let full = rp + seq![TokenView::CloseParen];
        lemma_at(ts, p, full, 0);
        lemma_at(ts, p, full, 1);
        lemma_at(ts, p, full, 2);
        assert(ts[p] is Identifier && ident_text(ts[p]) == a.name);
        assert(ts[p + 1] is Identifier && ident_text(ts[p + 1]) == a.type_info.name->Some_0);
        assert(a.type_info == TypeInfoView { name: Some(a.type_info.name->Some_0), is_mut: false });
        if ps.len() == 1 {
            assert(ts[p + 2] is CloseParen);
            assert(parse_arg(ts, p) == Ok::<_, ParserError>((a, p + 2)));
            assert(skip_comma(ts, p + 2) == p + 2);
            let tail = ps.skip(1);
            assert(tail.len() == 0);
            lemma_params(ts, p + 2, tail, done.push(a));
            assert(done.push(a) + tail =~= done + ps);
        } else {
            assert(ts[p + 2] is Comma);
            assert(parse_arg(ts, p) == Ok::<_, ParserError>((a, p + 2)));
            assert(skip_comma(ts, p + 2) == p + 3);
            let tail = ps.skip(1);
            let head = seq![TokenView::Identifier(a.name), TokenView::Identifier(a.type_info.name->Some_0), TokenView::Comma];
            assert(rp == head + params_tokens(tail));
            assert(full == head + (params_tokens(tail) + seq![TokenView::CloseParen]));
            lemma_split(ts, p, head, params_tokens(tail) + seq![TokenView::CloseParen]);
            assert forall|i: int| 0 <= i < tail.len() implies printable_arg(#[trigger] tail[i]) by {
                assert(tail[i] == ps[i + 1]);
            }
            lemma_params(ts, p + 3, tail, done.push(a));
            assert(done.push(a) + tail =~= done + ps);
        }
    }
}

proof fn lemma_function(ts: Seq<Token>, p: int, f: FunctionView)
    requires
        printable_function(f),
        tokens_at(ts, p, function_tokens(f)),
    ensures
        parse_function(ts, p) == Ok::<_, ParserError>((f, p + function_tokens(f).len())),
{
    let head = seq![TokenView::Keyword(Keyword::Fn), TokenView::Identifier(f.name), TokenView::OpenParen];
    let rp = params_tokens(f.parameters);
    let t = f.return_type.name->Some_0;
    let rr = return_tokens(t);
    let rb = block_tokens(f.block);
    assert(function_tokens(f) == head + (rp + seq![TokenView::CloseParen]) + rr + rb);
    lemma_split(ts, p, head + (rp + seq![TokenView::CloseParen]) + rr, rb);
    lemma_split(ts, p, head + (rp + seq![TokenView::CloseParen]), rr);
    lemma_split(ts, p, head, rp + seq![TokenView::CloseParen]);
    lemma_at(ts, p, head, 0);
    lemma_at(ts, p, head, 1);
    lemma_at(ts, p, head, 2);
    assert(expect_token(ts, p, TokenView::Keyword(Keyword::Fn)) == Ok::<_, ParserError>(((), p + 1)));
    assert(expect_identifier(ts, p + 1) == Ok::<_, ParserError>((f.name, p + 2)));
    assert(expect_token(ts, p + 2, TokenView::OpenParen) == Ok::<_, ParserError>(((), p + 3)));
    lemma_params(ts, p + 3, f.parameters, seq![]);
    assert(Seq::<ArgView>::empty() + f.parameters =~= f.parameters);
    let after_params = p + 3 + rp.len() + 1;
    lemma_at(ts, after_params, rr, 0);
    assert(f.return_type == TypeInfoView { name: Some(t), is_mut: false });
    if t == void_text() {
        assert(ts[after_params] == Token::Keyword(Keyword::Void));
    } else {
        assert(ts[after_params] is Identifier && ident_text(ts[after_params]) == t);
    }
    assert(parse_return_type(ts, after_params) == Ok::<_, ParserError>((f.return_type, after_params + 1)));
    lemma_block(ts, after_params + 1, f.block);
}

proof fn lemma_imports(ts: Seq<Token>, p: int, is: Seq<ImportView>, m: ModuleView, open: Option<Token>)
    requires
        tokens_at(ts, p, imports_tokens(is)),
    ensures
        module_body(ts, p, m, open) == module_body(
            ts,
            p + imports_tokens(is).len(),
            ModuleView { imports: m.imports + is, ..m },
            open,
        ),
    decreases is.len(),
{
    if is.len() == 0 {
        assert(m.imports + is =~= m.imports);
        assert(ModuleView { imports: m.imports + is, ..m } == m);
    } else {
        let head = seq![
            TokenView::Keyword(Keyword::Import),
            TokenView::Literal(LiteralView::String(is[0].path)),
            TokenView::Newline,
        ];
        let tail = is.skip(1);
        assert(imports_tokens(is) == head + imports_tokens(tail));
        lemma_split(ts, p, head, imports_tokens(tail));
        lemma_at(ts, p, head, 0);
        lemma_at(ts, p, head, 1);
        lemma_at(ts, p, head, 2);
        assert(ts[p] == Token::Keyword(Keyword::Import));
        let m1 = ModuleView { imports: m.imports.push(ImportView { path: is[0].path }), ..m };
        assert(ts[p + 1] is Literal);
        assert(ts[p + 1]->Literal_0 is String);
        assert(module_body(ts, p, m, open) == module_body(ts, p + 2, m1, open));
        assert(ts[p + 2] is Newline);
        assert(module_body(ts, p + 2, m1, open) == module_body(ts, p + 3, m1, open));
        lemma_imports(ts, p + 3, tail, m1, open);
        assert(m1.imports + tail =~= m.imports + is);
    }
}

#[verifier::rlimit(60)]
proof fn lemma_bindings(ts: Seq<Token>, p: int, vs: Seq<VariableView>, m: ModuleView, open: Option<Token>)
    requires
        forall|i: int| 0 <= i < vs.len() ==> printable_binding(#[trigger] vs[i]),
        tokens_at(ts, p, bindings_tokens(vs)),
        !(p + bindings_tokens(vs).len() < ts.len() && ts[p + bindings_tokens(vs).len()] is Newline),
    ensures
        module_body(ts, p, m, open) == module_body(
            ts,
            p + bindings_tokens(vs).len(),
            ModuleView { variables: m.variables + vs, ..m },
            open,
        ),
    decreases vs.len(),
{
    if vs.len() == 0 {
        assert(m.variables + vs =~= m.variables);
        assert(ModuleView { variables: m.variables + vs, ..m } == m);
    } else {
        let v = vs[0];
        let tail = vs.skip(1);
        let rv = binding_tokens(v);
        assert(bindings_tokens(vs) == rv + bindings_tokens(tail));
        lemma_split(ts, p, rv, bindings_tokens(tail));
        assert(printable_binding(v));
        lemma_at(ts, p, rv, 0);
        assert(ts[p] is Identifier);
        lemma_binding(ts, p, v);
        let q = p + rv.len();
        if bindings_tokens(tail).len() > 0 {
            let t2 = tail[0];
            assert(printable_binding(vs[1]));
            assert(bindings_tokens(tail) == binding_tokens(t2) + bindings_tokens(tail.skip(1)));
            lemma_at(ts, q, bindings_tokens(tail), 0);
        }
        assert(skip_newline(ts, q) == q);
        let m1 = ModuleView { variables: m.variables.push(v), ..m };
        assert forall|i: int| 0 <= i < tail.len() implies printable_binding(#[trigger] tail[i]) by {
            assert(tail[i] == vs[i + 1]);
        }
        lemma_bindings(ts, q, tail, m1, open);
        assert(m1.variables + tail =~= m.variables + vs);
    }
}

proof fn lemma_functions(ts: Seq<Token>, p: int, fs: Seq<FunctionView>, m: ModuleView, open: Option<Token>)
    requires
        forall|i: int| 0 <= i < fs.len() ==> printable_function(#[trigger] fs[i]),
        tokens_at(ts, p, functions_tokens(fs)),
    ensures
        module_body(ts, p, m, open) == module_body(
            ts,
            p + functions_tokens(fs).len(),
            ModuleView { functions: m.functions + fs, ..m },
            open,
        ),
    decreases fs.len(),
{
    if fs.len() == 0 {
        assert(m.functions + fs =~= m.functions);
        assert(ModuleView { functions: m.functions + fs, ..m } == m);
    } else {
        let f = fs[0];
        let tail = fs.skip(1);
        let rf = function_tokens(f);
        assert(functions_tokens(fs) == rf + (seq![TokenView::Newline] + functions_tokens(tail)));
        lemma_split(ts, p, rf, seq![TokenView::Newline] + functions_tokens(tail));
        lemma_split(ts, p + rf.len(), seq![TokenView::Newline], functions_tokens(tail));
        assert(printable_function(f));
        lemma_at(ts, p, rf, 0);
        assert(ts[p] == Token::Keyword(Keyword::Fn));
        lemma_function(ts, p, f);
        let q = p + rf.len();
        lemma_at(ts, q, seq![TokenView::Newline], 0);
        assert(skip_newline(ts, q) == q + 1);
        let m1 = ModuleView { functions: m.functions.push(f), ..m };
        assert forall|i: int| 0 <= i < tail.len() implies printable_function(#[trigger] tail[i]) by {
            assert(tail[i] == fs[i + 1]);
        }
        lemma_functions(ts, q + 1, tail, m1, open);
        assert(m1.functions + tail =~= m.functions + fs);
    }
}

/// The first token of a body, if any, is `import`, an identifier, `fn` or `module`.
proof fn lemma_body_start(m: ModuleView)
    requires
        printable_module(m),
    ensures
        body_tokens(m).len() > 0 ==> body_tokens(m)[0] == TokenView::Keyword(Keyword::Import)
            || body_tokens(m)[0] is Identifier || body_tokens(m)[0] == TokenView::Keyword(Keyword::Fn)
            || body_tokens(m)[0] == TokenView::Keyword(Keyword::Module),
{
    let ri = imports_tokens(m.imports);
    let rv = bindings_tokens(m.variables);
    let rf = functions_tokens(m.functions);
    let rm = modules_tokens(m.modules);
    assert(body_tokens(m) == ri + rv + rf + rm);
    if ri.len() > 0 {
        assert(body_tokens(m)[0] == ri[0]);
    } else if rv.len() > 0 {
        assert(body_tokens(m)[0] == rv[0]);
        assert(m.variables.len() > 0);
    } else if rf.len() > 0 {
        assert(body_tokens(m)[0] == rf[0]);
    } else if rm.len() > 0 {
        assert(body_tokens(m)[0] == rm[0]);
    }
}

/// The declarations of a body, from an empty module, up to the body's end.
proof fn lemma_body(ts: Seq<Token>, p: int, m: ModuleView, open: Option<Token>)
    requires
        printable_module(m),
        tokens_at(ts, p, body_tokens(m)),
        !(p + body_tokens(m).len() < ts.len() && ts[p + body_tokens(m).len()] is Newline),
    ensures
        module_body(ts, p, empty_module(m.name), open) == module_body(ts, p + body_tokens(m).len(), m, open),
    decreases m, 1nat,
{
    let ri = imports_tokens(m.imports);
    let rv = bindings_tokens(m.variables);
    let rf = functions_tokens(m.functions);
    let rm = modules_tokens(m.modules);
    assert(body_tokens(m) == ri + rv + rf + rm);
    lemma_split(ts, p, ri + rv + rf, rm);
    lemma_split(ts, p, ri + rv, rf);
    lemma_split(ts, p, ri, rv);
    let m0 = empty_module(m.name);
    lemma_imports(ts, p, m.imports, m0, open);
    let m1 = ModuleView { imports: m0.imports + m.imports, ..m0 };
    let at_variables = p + ri.len();
    let at_functions = at_variables + rv.len();
    if at_functions < ts.len() {
        if rf.len() > 0 {
            lemma_at(ts, at_functions, rf, 0);
            assert(rf == function_tokens(m.functions[0]) + (seq![TokenView::Newline] + functions_tokens(
                m.functions.skip(1),
            )));
            assert(rf[0] == TokenView::Keyword(Keyword::Fn));
        } else if rm.len() > 0 {
            lemma_at(ts, at_functions + rf.len(), rm, 0);
        }
    }
    lemma_bindings(ts, at_variables, m.variables, m1, open);
    let m2 = ModuleView { variables: m1.variables + m.variables, ..m1 };
    lemma_functions(ts, at_functions, m.functions, m2, open);
    let m3 = ModuleView { functions: m2.functions + m.functions, ..m2 };
    lemma_modules(ts, at_functions + rf.len(), m.modules, m3, open);
    let m4 = ModuleView { modules: m3.modules + m.modules, ..m3 };
    assert(m4.imports =~= m.imports);
    assert(m4.variables =~= m.variables);
    assert(m4.functions =~= m.functions);
    assert(m4.modules =~= m.modules);
    assert(m4 == m);
}

#[verifier::rlimit(60)]
proof fn lemma_modules(ts: Seq<Token>, p: int, ms: Seq<ModuleView>, m: ModuleView, open: Option<Token>)
    requires
        printable_modules(ms),
        tokens_at(ts, p, modules_tokens(ms)),
    ensures
        module_body(ts, p, m, open) == module_body(
            ts,
            p + modules_tokens(ms).len(),
            ModuleView { modules: m.modules + ms, ..m },
            open,
        ),
    decreases ms, 0nat,
{
    if ms.len() == 0 {
        assert(m.modules + ms =~= m.modules);
        assert(ModuleView { modules: m.modules + ms, ..m } == m);
    } else {
        let inner = ms[0];
        let tail = ms.subrange(1, ms.len() as int);
        let head = seq![TokenView::Keyword(Keyword::Module), TokenView::Identifier(inner.name), TokenView::OpenBrace];
        let rb = body_tokens(inner);
        let close = seq![TokenView::CloseBrace, TokenView::Newline];
        assert(modules_tokens(ms) == head + rb + close + modules_tokens(tail));
        lemma_split(ts, p, head + rb + close, modules_tokens(tail));
        lemma_split(ts, p, head + rb, close);
        lemma_split(ts, p, head, rb);
        lemma_at(ts, p, head, 0);
        lemma_at(ts, p, head, 1);
        lemma_at(ts, p, head, 2);
        let q = p + 3 + rb.len();
        lemma_at(ts, q, close, 0);
        lemma_at(ts, q, close, 1);
        assert(ts[p] == Token::Keyword(Keyword::Module));
        assert(expect_identifier(ts, p + 1) == Ok::<_, ParserError>((inner.name, p + 2)));
        assert(expect_token(ts, p + 2, TokenView::OpenBrace) == Ok::<_, ParserError>(((), p + 3)));
        lemma_body_start(inner);
        if rb.len() > 0 {
            lemma_at(ts, p + 3, rb, 0);
        }
        assert(skip_newline(ts, p + 3) == p + 3);
        lemma_body(ts, p + 3, inner, Some(ts[p + 2]));
        assert(ts[q] is CloseBrace);
        assert(module_body(ts, q, inner, Some(ts[p + 2])) == Ok::<_, ParserError>((inner, q + 1)));
        let m1 = ModuleView { modules: m.modules.push(inner), ..m };
        assert(module_body(ts, p, m, open) == module_body(ts, q + 1, m1, open));
        assert(ts[q + 1] is Newline);
        assert(module_body(ts, q + 1, m1, open) == module_body(ts, q + 2, m1, open));
        lemma_modules(ts, q + 2, tail, m1, open);
        assert(m1.modules + tail =~= m.modules + ms);
    }
}

/// Parsing the tokens that render a module the grammar can produce gives
/// back that module and consumes all of the tokens. This is the parser's half
/// of the print-then-reparse round trip, stated on token sequences.
pub proof fn reparse_rendered_module(ts: Seq<Token>, m: ModuleView)
    requires
        printable_module(m),
        crate::lexer::tokens_view(ts) == module_tokens(m),
    ensures
        parse_module(ts, 0) == Ok::<_, ParserError>((m, ts.len() as int)),
{
    let r = module_tokens(m);
    assert(ts.len() == r.len()) by {
        assert(crate::lexer::tokens_view(ts).len() == ts.len());
    }
    assert(tokens_at(ts, 0, r)) by {
        assert forall|i: int| 0 <= i < r.len() implies #[trigger] ts[0 + i]@ == r[i] by {
            assert(crate::lexer::tokens_view(ts)[i] == ts[i]@);
        }
    }
    let head = seq![TokenView::Keyword(Keyword::Module), TokenView::Identifier(m.name), TokenView::Newline];
    lemma_split(ts, 0, head, body_tokens(m));
    lemma_at(ts, 0, head, 0);
    lemma_at(ts, 0, head, 1);
    lemma_at(ts, 0, head, 2);
    assert(ts[1] is Identifier && ident_text(ts[1]) == m.name);
    assert(parse_module(ts, 0) == module_body(ts, 2, empty_module(m.name), None));
    assert(ts[2] is Newline);
    assert(module_body(ts, 2, empty_module(m.name), None) == module_body(ts, 3, empty_module(m.name), None));
    lemma_body(ts, 3, m, None);
}

} // verus!

verus! {

/// The keywords that a rendered module holds lex back to themselves, so the
/// printability of a rendered module rests on its names and literals alone.
pub proof fn rendered_keywords_are_printable()
    ensures
        printable_token(TokenView::Keyword(Keyword::Module)),
        printable_token(TokenView::Keyword(Keyword::Import)),
        printable_token(TokenView::Keyword(Keyword::Fn)),
        printable_token(TokenView::Keyword(Keyword::Mut)),
        printable_token(TokenView::Keyword(Keyword::Void)),
{
    let module = keyword_text(Keyword::Module);
    let import = keyword_text(Keyword::Import);
    let void = keyword_text(Keyword::Void);
    assert(!ci_char_eq(import[0], module[0]));
    assert(!ci_eq(import, module));
    assert(!ci_char_eq(void[0], keyword_text(Keyword::Enum)[0]));
    assert(!ci_eq(void, keyword_text(Keyword::Enum)));
    assert(!ci_char_eq(void[0], keyword_text(Keyword::Else)[0]));
    assert(!ci_eq(void, keyword_text(Keyword::Else)));
    assert(!ci_char_eq(void[0], keyword_text(Keyword::Null)[0]));
    assert(!ci_eq(void, keyword_text(Keyword::Null)));
    assert(keyword_of(module) == Some(Keyword::Module));
    assert(keyword_of(import) == Some(Keyword::Import));
    assert(keyword_of(keyword_text(Keyword::Fn)) == Some(Keyword::Fn));
    assert(keyword_of(keyword_text(Keyword::Mut)) == Some(Keyword::Mut));
    assert(keyword_of(void) == Some(Keyword::Void));
}

/// A module the grammar produces, printed as its rendered tokens each
/// followed by a space, lexes and parses back to itself: whatever tokens `ts`
/// the lexer gives for the printed text, parsing them yields the module and
/// consumes them all. Each rendered token must be printable where it stands,
/// which comes down to its names and literals lexing back to themselves.
pub proof fn module_print_lex_parse_round_trip(m: ModuleView, ts: Seq<Token>)
    requires
        printable_module(m),
        printable_tokens(module_tokens(m)),
        lex_spec(printed_text(module_tokens(m))) == Some(crate::lexer::tokens_view(ts)),
    ensures
        parse_module(ts, 0) == Ok::<_, ParserError>((m, ts.len() as int)),
{
    lex_printed_tokens(module_tokens(m));
    reparse_rendered_module(ts, m);
}

} // verus!
