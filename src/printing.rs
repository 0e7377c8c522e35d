//! Lexing inverts printing: tokens written out with a space after each lex
//! back to the same tokens.
use vstd::prelude::*;
use crate::lexer::{
    LexMode, LexState, after_line_break, classify, is_white_space, lex_from, lex_spec, normal_state,
    step,
};
use crate::token::{
    LiteralView, TokenView, double_operator_of, newline_significant, punctuation_of,
    single_operator_of, token_text,
};

verus! {

/// A character that can only continue a word: no line break, quote,
/// whitespace, punctuation or operator character.
pub open spec fn plain_char(c: char) -> bool {
    c != '\n' && c != '"' && !is_white_space(c) && punctuation_of(c) is None && single_operator_of(c)
        is None
}

/// A token that its own text stands for: a word token whose text is made of
/// plain characters and classifies back to it; a string without quotes that
/// does not end in a backslash; an operator; punctuation. `Newline` is
/// excluded, as the lexer emits it only after some tokens.
pub open spec fn printable_token(t: TokenView) -> bool {
    match t {
        TokenView::Literal(LiteralView::String(s)) => (forall|i: int| 0 <= i < s.len() ==> #[trigger] s[i] != '"')
            && (s.len() == 0 || s.last() != '\\'),
        TokenView::Operator(_) => true,
        TokenView::Newline => false,
        TokenView::Identifier(_) | TokenView::Keyword(_) | TokenView::Literal(_) => {
            let w = token_text(t);
            &&& w.len() > 0
            &&& forall|i: int| 0 <= i < w.len() ==> plain_char(#[trigger] w[i])
            &&& classify(w) == t
        },
        _ => true,
    }
}

/// The token at `j` is printable, or a `Newline` after a token that the
/// lexer emits a `Newline` after.
pub open spec fn printable_at(ts: Seq<TokenView>, j: int) -> bool {
    printable_token(ts[j]) || (ts[j] is Newline && j > 0 && newline_significant(ts[j - 1]))
}

/// Every token of the sequence is printable where it stands.
pub open spec fn printable_tokens(ts: Seq<TokenView>) -> bool {
    forall|j: int| 0 <= j < ts.len() ==> printable_at(ts, j)
}

/// The text of a token sequence, each token followed by a space.
pub open spec fn printed_text(ts: Seq<TokenView>) -> Seq<char>
    decreases ts.len(),
{
    if ts.len() == 0 {
        seq![]
    } else {
        token_text(ts[0]) + seq![' '] + printed_text(ts.skip(1))
    }
}

proof fn lemma_space_is_white()
    ensures
        is_white_space(' '),
        punctuation_of(' ') is None,
        single_operator_of(' ') is None,
{
    assert(' ' as u32 == 32);
}

/// A space after a completed token: nothing is emitted.
proof fn lemma_space(cs: Seq<char>, i: int, acc: Seq<TokenView>)
    requires
        0 <= i < cs.len(),
        cs[i] == ' ',
    ensures
        lex_from(cs, i, normal_state(acc)) == lex_from(cs, i + 1, normal_state(acc)),
{
    lemma_space_is_white();
    let (st, skip) = step(normal_state(acc), cs[i], crate::lexer::char_at(cs, i + 1));
    assert(st == normal_state(acc));
    assert(!skip);
}

/// Plain characters accumulate in the pending word.
proof fn lemma_word(cs: Seq<char>, i: int, w: Seq<char>, k: int, acc: Seq<TokenView>)
    requires
        0 <= i,
        0 <= k <= w.len(),
        i + w.len() < cs.len(),
        cs.subrange(i, i + w.len()) == w,
        cs[i + w.len()] == ' ',
        forall|j: int| 0 <= j < w.len() ==> plain_char(#[trigger] w[j]),
    ensures
        lex_from(cs, i + k, LexState { mode: LexMode::Normal, word: w.take(k), tokens: acc })
            == lex_from(cs, i + w.len(), LexState { mode: LexMode::Normal, word: w, tokens: acc }),
    decreases w.len() - k,
{
    if k < w.len() {
        let c = cs[i + k];
        assert(c == w[k]);
        assert(plain_char(c));
        let next = crate::lexer::char_at(cs, i + k + 1);
        assert(next is Some);
        let d = next->Some_0;
        if k + 1 < w.len() {
            assert(d == w[k + 1]);
            assert(plain_char(d));
        } else {
            assert(d == ' ');
        }
        assert(double_operator_of(c, d) is None);
        let st = LexState { mode: LexMode::Normal, word: w.take(k), tokens: acc };
        let (st2, skip) = step(st, c, next);
        assert(w.take(k).push(c) =~= w.take(k + 1));
        assert(st2 == LexState { mode: LexMode::Normal, word: w.take(k + 1), tokens: acc });
        assert(!skip);
        lemma_word(cs, i, w, k + 1, acc);
    } else {
        assert(w.take(k) =~= w);
    }
}

/// Characters of a string literal accumulate until its closing quote.
proof fn lemma_string_body(cs: Seq<char>, i: int, s: Seq<char>, k: int, acc: Seq<TokenView>)
    requires
        0 <= i,
        0 <= k <= s.len(),
        i + s.len() < cs.len(),
        cs.subrange(i, i + s.len()) == s,
        forall|j: int| 0 <= j < s.len() ==> #[trigger] s[j] != '"',
    ensures
        lex_from(cs, i + k, LexState { mode: LexMode::InString, word: s.take(k), tokens: acc })
            == lex_from(cs, i + s.len(), LexState { mode: LexMode::InString, word: s, tokens: acc }),
    decreases s.len() - k,
{
    if k < s.len() {
        let c = cs[i + k];
        assert(c == s[k]);
        let st = LexState { mode: LexMode::InString, word: s.take(k), tokens: acc };
        let (st2, skip) = step(st, c, crate::lexer::char_at(cs, i + k + 1));
        assert(s.take(k).push(c) =~= s.take(k + 1));
        assert(st2 == LexState { mode: LexMode::InString, word: s.take(k + 1), tokens: acc });
        assert(!skip);
        lemma_string_body(cs, i, s, k + 1, acc);
    } else {
        assert(s.take(k) =~= s);
    }
}

/// One printable token and its space lex to that token.
proof fn lemma_token(cs: Seq<char>, i: int, t: TokenView, acc: Seq<TokenView>)
    requires
        printable_token(t) || (t is Newline && acc.len() > 0 && newline_significant(acc.last())),
        0 <= i,
        i + token_text(t).len() < cs.len(),
        cs.subrange(i, i + token_text(t).len()) == token_text(t),
        cs[i + token_text(t).len()] == ' ',
    ensures
        lex_from(cs, i, normal_state(acc)) == lex_from(cs, i + token_text(t).len() + 1, normal_state(acc.push(t))),
{
    let w = token_text(t);
    let n = w.len();
    lemma_space_is_white();
    match t {
        TokenView::Literal(LiteralView::String(s)) => {
            assert(w == seq!['"'] + s + seq!['"']);
            assert(cs[i] == w[0]);
            let st = normal_state(acc);
            let (st2, skip) = step(st, cs[i], crate::lexer::char_at(cs, i + 1));
            assert(st2 == LexState { mode: LexMode::InString, word: seq![], tokens: acc });
            assert(cs.subrange(i + 1, i + 1 + s.len()) =~= s) by {
                assert forall|j: int| 0 <= j < s.len() implies cs.subrange(i + 1, i + 1 + s.len())[j] == s[j] by {
                    assert(cs[i + 1 + j] == w[1 + j]);
                }
            }
            assert(s.take(0) =~= seq![]);
            lemma_string_body(cs, i + 1, s, 0, acc);
            let q = i + 1 + s.len();
            assert(cs[q] == w[1 + s.len() as int]);
            assert(cs[q] == '"');
            let (st3, skip3) = step(
                LexState { mode: LexMode::InString, word: s, tokens: acc },
                cs[q],
                crate::lexer::char_at(cs, q + 1),
            );
            assert(st3 == normal_state(acc.push(t)));
            assert(!skip3);
            assert(q + 1 == i + n);
            lemma_space(cs, i + n, acc.push(t));
        },
        TokenView::Operator(op) => {
            let c = cs[i];
            assert(c == w[0]);
            let next = crate::lexer::char_at(cs, i + 1);
            if n == 1 {
                assert(next == Some(' '));
                assert(double_operator_of(c, ' ') is None);
                let (st2, skip) = step(normal_state(acc), c, next);
                assert(single_operator_of(c) == Some(op));
                assert(st2 == normal_state(acc.push(t)));
                assert(!skip);
                lemma_space(cs, i + 1, acc.push(t));
            } else {
                assert(n == 2);
                assert(cs[i + 1] == w[1]);
                assert(next == Some(w[1]));
                assert(double_operator_of(c, w[1]) == Some(op));
                let (st2, skip) = step(normal_state(acc), c, next);
                assert(st2 == normal_state(acc.push(t)));
                assert(skip);
                lemma_space(cs, i + 2, acc.push(t));
            }
        },
        TokenView::Identifier(_) | TokenView::Keyword(_) | TokenView::Literal(_) => {
            assert(w.take(0) =~= seq![]);
            assert(normal_state(acc) == LexState { mode: LexMode::Normal, word: w.take(0), tokens: acc });
            lemma_word(cs, i, w, 0, acc);
            let st = LexState { mode: LexMode::Normal, word: w, tokens: acc };
            let (st2, skip) = step(st, cs[i + n], crate::lexer::char_at(cs, i + n + 1));
            assert(st2 == normal_state(acc.push(classify(w))));
            assert(!skip);
        },
        TokenView::Newline => {
            assert(cs[i] == '\n');
            let (st2, skip) = step(normal_state(acc), cs[i], crate::lexer::char_at(cs, i + 1));
            assert(after_line_break(acc) == acc.push(t));
            assert(st2 == normal_state(acc.push(t)));
            assert(!skip);
            lemma_space(cs, i + 1, acc.push(t));
        },
        _ => {
            let c = cs[i];
            assert(c == w[0]);
            let (st2, skip) = step(normal_state(acc), c, crate::lexer::char_at(cs, i + 1));
            assert(punctuation_of(c) == Some(t));
            assert(st2 == normal_state(acc.push(t)));
            assert(!skip);
            lemma_space(cs, i + 1, acc.push(t));
        },
    }
}

proof fn lemma_tokens(cs: Seq<char>, i: int, ts: Seq<TokenView>, acc: Seq<TokenView>)
    requires
        0 <= i <= cs.len(),
        cs.skip(i) == printed_text(ts),
        forall|j: int| 0 <= j < ts.len() ==> printable_token(#[trigger] ts[j]) || (ts[j] is Newline && if j
            == 0 {
            acc.len() > 0 && newline_significant(acc.last())
        } else {
            newline_significant(ts[j - 1])
        }),
    ensures
        lex_from(cs, i, normal_state(acc)) == Some(acc + ts),
    decreases ts.len(),
{
    if ts.len() == 0 {
        assert(cs.skip(i).len() == 0);
        assert(acc + ts =~= acc);
    } else {
        let t = ts[0];
        let w = token_text(t);
        let n = w.len();
        let rest = printed_text(ts.skip(1));
        assert(cs.skip(i) == w + seq![' '] + rest);
        assert(cs.subrange(i, i + n) =~= w) by {
            assert forall|j: int| 0 <= j < n implies cs.subrange(i, i + n)[j] == w[j] by {
                assert(cs.skip(i)[j] == cs[i + j]);
            }
        }
        assert(cs[i + n] == ' ') by {
            assert(cs.skip(i)[n as int] == cs[i + n]);
        }
        lemma_token(cs, i, t, acc);
        assert(cs.skip(i + n + 1) =~= rest) by {
            assert forall|j: int| 0 <= j < rest.len() implies cs.skip(i + n + 1)[j] == rest[j] by {
                assert(cs.skip(i)[n + 1 + j] == cs[i + n + 1 + j]);
            }
        }
        let tail = ts.skip(1);
        let acc2 = acc.push(t);
        assert forall|j: int| 0 <= j < tail.len() implies printable_token(#[trigger] tail[j]) || (tail[j] is Newline
            && if j == 0 {
            acc2.len() > 0 && newline_significant(acc2.last())
        } else {
            newline_significant(tail[j - 1])
        }) by {
            assert(tail[j] == ts[j + 1]);
            if j > 0 {
                assert(tail[j - 1] == ts[j]);
            }
        }
        lemma_tokens(cs, i + n + 1, tail, acc2);
        assert(acc.push(t) + ts.skip(1) =~= acc + ts);
    }
}

/// Printed tokens lex back to themselves.
pub proof fn lex_printed_tokens(ts: Seq<TokenView>)
    requires
        printable_tokens(ts),
    ensures
        lex_spec(printed_text(ts)) == Some(ts),
{
    let cs = printed_text(ts);
    assert(cs.skip(0) =~= cs);
    assert forall|j: int| 0 <= j < ts.len() implies printable_token(#[trigger] ts[j]) || (ts[j] is Newline
        && if j == 0 {
        false
    } else {
        newline_significant(ts[j - 1])
    }) by {
        assert(printable_at(ts, j));
    }
    lemma_tokens(cs, 0, ts, seq![]);
    assert(Seq::<TokenView>::empty() + ts =~= ts);
}

} // verus!
