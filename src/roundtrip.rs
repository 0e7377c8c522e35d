//! Parsing inverts rendering, for expressions at the token level.
use vstd::prelude::*;
use crate::ast::{ExpressionView, VariableView};
use crate::grammar::{level_operator, level_rest, parse_expression, parse_level, parse_primary, parse_unary};
use crate::lexer::{lex_spec, tokens_view};
use crate::printing::{lex_printed_tokens, printable_tokens, printed_text};
use crate::token::{Operator, Token, TokenView};

verus! {

/// The precedence level of a binary operator (see `level_operator`); 0 for
/// the others.
pub open spec fn operator_level(op: Operator) -> nat {
    if op == Operator::Star || op == Operator::Slash || op == Operator::Percent {
        1
    } else if op == Operator::Plus || op == Operator::Minus {
        2
    } else if op == Operator::Less || op == Operator::Greater || op == Operator::LessEqual || op
        == Operator::GreaterEqual {
        3
    } else if op == Operator::Equal || op == Operator::NotEqual {
        4
    } else {
        0
    }
}

/// The level of an expression's top node: its operator's for a binary
/// expression, 0 for the others.
pub open spec fn expression_level(e: ExpressionView) -> nat {
    match e {
        ExpressionView::Binary(_, op, _) => operator_level(op),
        _ => 0,
    }
}

/// The trees the expression grammar produces: binary operators are binary
/// operators of some level, a left operand binds at least as tightly as its
/// operator and a right operand strictly more tightly, a prefix operator is
/// `-` over an operand without binary operator on top, and variables are
/// plain uses.
pub open spec fn printable(e: ExpressionView) -> bool
    decreases e,
{
    match e {
        ExpressionView::Literal(_) => true,
        ExpressionView::Variable(v) => !v.is_decl && v.expression is None && v.type_info is None,
        ExpressionView::Group(inner) => printable(*inner),
        ExpressionView::Unary(op, operand) => op == Operator::Minus && expression_level(*operand) == 0
            && printable(*operand),
        ExpressionView::Binary(left, op, right) => {
            &&& 1 <= operator_level(op)
            &&& expression_level(*left) <= operator_level(op)
            &&& expression_level(*right) < operator_level(op)
            &&& printable(*left)
            &&& printable(*right)
        },
    }
}

/// The tokens that write an expression: groups in parentheses, operators
/// between or before their operands.
pub open spec fn rendered_tokens(e: ExpressionView) -> Seq<TokenView>
    decreases e,
{
    match e {
        ExpressionView::Literal(l) => seq![TokenView::Literal(l)],
        ExpressionView::Variable(v) => seq![TokenView::Identifier(v.name)],
        ExpressionView::Group(inner) => seq![TokenView::OpenParen] + rendered_tokens(*inner) + seq![
            TokenView::CloseParen,
        ],
        ExpressionView::Unary(op, operand) => seq![TokenView::Operator(op)] + rendered_tokens(*operand),
        ExpressionView::Binary(left, op, right) => rendered_tokens(*left) + seq![TokenView::Operator(op)]
            + rendered_tokens(*right),
    }
}

/// The tokens of `ts` from `p` on begin with the rendering of `e`.
pub open spec fn rendered_at(ts: Seq<Token>, p: int, e: ExpressionView) -> bool {
    let r = rendered_tokens(e);
    &&& 0 <= p
    &&& p + r.len() <= ts.len()
    &&& forall|i: int| 0 <= i < r.len() ==> #[trigger] ts[p + i]@ == r[i]
}

/// The token at `q` (if any) is no binary operator of a level from 1 to `level`.
pub open spec fn stops_below(ts: Seq<Token>, q: int, level: nat) -> bool {
    q >= ts.len() || match ts[q] {
        Token::Operator(op) => !(1 <= operator_level(op) <= level),
        _ => true,
    }
}

proof fn lemma_rendered_len(e: ExpressionView)
    ensures
        rendered_tokens(e).len() >= 1,
    decreases e,
{
    match e {
        ExpressionView::Group(inner) => lemma_rendered_len(*inner),
        ExpressionView::Unary(_, operand) => lemma_rendered_len(*operand),
        ExpressionView::Binary(left, _, right) => {
            lemma_rendered_len(*left);
            lemma_rendered_len(*right);
        },
        _ => {},
    }
}

proof fn lemma_level_operator(level: nat, t: Token)
    requires
        1 <= level <= 4,
    ensures
        level_operator(level, t) <==> (t is Operator && operator_level(t->Operator_0) == level),
{
}

/// An operand without binary operator on top parses at the unary level.
proof fn lemma_atom(ts: Seq<Token>, p: int, e: ExpressionView)
    requires
        printable(e),
        expression_level(e) == 0,
        rendered_at(ts, p, e),
    ensures
        parse_unary(ts, p) == Ok::<_, crate::parser_error::ParserError>((e, p + rendered_tokens(e).len())),
    decreases e, 0nat, 0nat,
{
    let r = rendered_tokens(e);
    lemma_rendered_len(e);
    assert(ts[p + 0]@ == r[0]);
    assert(p + 0 == p);
    match e {
        ExpressionView::Literal(l) => {
            assert(!(ts[p] == Token::Operator(Operator::Minus)));
            assert(parse_primary(ts, p) == Ok::<_, crate::parser_error::ParserError>((e, p + 1)));
        },
        ExpressionView::Variable(v) => {
            assert(!(ts[p] == Token::Operator(Operator::Minus)));
            let name = ts[p]->Identifier_0;
            assert(v == VariableView { name: name@, is_decl: false, expression: None, type_info: None });
        },
        ExpressionView::Group(inner) => {
            let ri = rendered_tokens(*inner);
            lemma_rendered_len(*inner);
            assert(!(ts[p] == Token::Operator(Operator::Minus)));
            assert(ts[p] is OpenParen);
            assert forall|i: int| 0 <= i < ri.len() implies #[trigger] ts[p + 1 + i]@ == ri[i] by {
                assert(ts[p + (1 + i)]@ == r[1 + i]);
                assert(p + (1 + i) == p + 1 + i);
            }
            let q = p + 1 + ri.len();
            assert(ts[p + (1 + ri.len())]@ == r[1 + ri.len() as int]);
            assert(p + (1 + ri.len()) == q);
            assert(ts[q] is CloseParen);
            lemma_expression(ts, p + 1, *inner, 4);
            assert(parse_expression(ts, p + 1) == Ok::<_, crate::parser_error::ParserError>((*inner, q)));
        },
        ExpressionView::Unary(op, operand) => {
            let ro = rendered_tokens(*operand);
            assert(ts[p] == Token::Operator(Operator::Minus));
            assert forall|i: int| 0 <= i < ro.len() implies #[trigger] ts[p + 1 + i]@ == ro[i] by {
                assert(ts[p + (1 + i)]@ == r[1 + i]);
                assert(p + (1 + i) == p + 1 + i);
            }
            lemma_atom(ts, p + 1, *operand);
        },
        ExpressionView::Binary(_, _, _) => {},
    }
}

/// An expression whose top level is at most `level` parses at `level` when
/// the token after it is no operator of a level up to `level`.
pub(crate) proof fn lemma_expression(ts: Seq<Token>, p: int, e: ExpressionView, level: nat)
    requires
        printable(e),
        expression_level(e) <= level <= 4,
        rendered_at(ts, p, e),
        stops_below(ts, p + rendered_tokens(e).len(), level),
    ensures
        parse_level(ts, level, p) == Ok::<_, crate::parser_error::ParserError>((e, p + rendered_tokens(e).len())),
        level == 4 ==> parse_expression(ts, p) == Ok::<_, crate::parser_error::ParserError>(
            (e, crate::grammar::skip_newline(ts, p + rendered_tokens(e).len())),
        ),
    decreases e, level, 1nat,
{
    let n = rendered_tokens(e).len();
    lemma_rendered_len(e);
    if level == 0 {
        lemma_atom(ts, p, e);
    } else {
        lemma_spine(ts, p, e, level);
        let q = p + n;
        if q < ts.len() {
            lemma_level_operator(level, ts[q]);
        }
    }
}

/// Parsing at `level` from the start of `e` reaches the loop state that has
/// `e` as the operand so far, when the token after `e` is no operator of a
/// level below `level`.
proof fn lemma_spine(ts: Seq<Token>, p: int, e: ExpressionView, level: nat)
    requires
        printable(e),
        1 <= level <= 4,
        expression_level(e) <= level,
        rendered_at(ts, p, e),
        stops_below(ts, p + rendered_tokens(e).len(), (level - 1) as nat),
    ensures
        parse_level(ts, level, p) == level_rest(ts, level, e, p + rendered_tokens(e).len()),
    decreases e, level, 0nat,
{
    let n = rendered_tokens(e).len();
    lemma_rendered_len(e);
    if expression_level(e) < level {
        lemma_expression(ts, p, e, (level - 1) as nat);
    } else {
        match e {
            ExpressionView::Binary(left, op, right) => {
                let rl = rendered_tokens(*left);
                let rr = rendered_tokens(*right);
                let r = rendered_tokens(e);
                lemma_rendered_len(*left);
                lemma_rendered_len(*right);
                assert(r == rl + seq![TokenView::Operator(op)] + rr);
                assert forall|i: int| 0 <= i < rl.len() implies #[trigger] ts[p + i]@ == rl[i] by {
                    assert(ts[p + i]@ == r[i]);
                }
                let q = p + rl.len();
                assert(ts[p + rl.len()]@ == r[rl.len() as int]);
                assert(ts[q]@ == TokenView::Operator(op));
                assert(ts[q] == Token::Operator(op));
                assert forall|i: int| 0 <= i < rr.len() implies #[trigger] ts[q + 1 + i]@ == rr[i] by {
                    assert(ts[p + (rl.len() + 1 + i)]@ == r[rl.len() as int + 1 + i]);
                    assert(p + (rl.len() + 1 + i) == q + 1 + i);
                }
                assert(q + 1 + rr.len() == p + n);
                lemma_spine(ts, p, *left, level);
                lemma_level_operator(level, ts[q]);
                lemma_expression(ts, q + 1, *right, (level - 1) as nat);
            },
            _ => {},
        }
    }
}

/// Parsing the tokens that render an expression the grammar can produce
/// gives back that expression and consumes all of the tokens. This is the
/// parser's half of the print-then-reparse round trip, stated on token
/// sequences; lexing the printed text is not covered.
pub proof fn reparse_rendered_expression(ts: Seq<Token>, e: ExpressionView)
    requires
        printable(e),
        tokens_view(ts) == rendered_tokens(e),
    ensures
        parse_expression(ts, 0) == Ok::<_, crate::parser_error::ParserError>((e, ts.len() as int)),
{
    let r = rendered_tokens(e);
    assert forall|i: int| 0 <= i < r.len() implies #[trigger] ts[0 + i]@ == r[i] by {
        assert(tokens_view(ts)[i] == ts[i]@);
    }
    assert(ts.len() == r.len()) by {
        assert(tokens_view(ts).len() == ts.len());
    }
    lemma_expression(ts, 0, e, 4);
}

} // verus!

verus! {

/// An expression the grammar produces, printed as its tokens each followed
/// by a space, lexes and parses back to itself: whatever tokens `ts` the
/// lexer gives for the printed text, parsing them yields the expression and
/// consumes them all. Its identifiers, numbers and strings must be ones whose
/// text lexes back to them. Expressions only: modules, functions and variable
/// statements are not covered.
pub proof fn print_lex_parse_round_trip(e: ExpressionView, ts: Seq<Token>)
    requires
        printable(e),
        printable_tokens(rendered_tokens(e)),
        lex_spec(printed_text(rendered_tokens(e))) == Some(tokens_view(ts)),
    ensures
        parse_expression(ts, 0) == Ok::<_, crate::parser_error::ParserError>((e, ts.len() as int)),
{
    lex_printed_tokens(rendered_tokens(e));
    reparse_rendered_expression(ts, e);
}

} // verus!
