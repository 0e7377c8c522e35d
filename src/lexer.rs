use vstd::prelude::*;
use vstd::utf8::{decode_utf8, valid_utf8};
use crate::token::{
    Keyword, Literal, LiteralView, Operator, Token, TokenView, double_operator_of,
    newline_significant, punctuation_of, single_operator_of,
};
use crate::words::{keyword_of, literal_of, string_of};
use utf8_chars::BufReadCharsExt;

verus! {

/// Errors of the lexer.
#[derive(Debug)]
pub enum LexerError {
    /// The source could not be read, or is not valid UTF-8.
    IoError(std::io::Error),
    /// The input ended inside a string literal.
    UnexpectedEndOfInput,
}

/// Declares `std::io::Error`, carried opaquely in `LexerError::IoError`.
#[verifier::external_type_specification]
#[verifier::external_body]
pub struct ExIoError(std::io::Error);

impl From<std::io::Error> for LexerError {
    fn from(err: std::io::Error) -> (r: Self)
        ensures
            r == LexerError::IoError(err),
    {
        LexerError::IoError(err)
    }
}

impl vstd::std_specs::convert::FromSpecImpl<std::io::Error> for LexerError {
    open spec fn obeys_from_spec() -> bool {
        true
    }

    open spec fn from_spec(err: std::io::Error) -> LexerError {
        LexerError::IoError(err)
    }
}

/// What the lexer is inside of.
#[derive(Debug, Clone, Copy, PartialEq, Eq, Structural)]
pub enum LexMode {
    Normal,
    InString,
    InComment,
}

/// The lexer's state between two characters: its mode, the characters of the
/// word or string being accumulated, and the tokens emitted so far.
pub struct LexState {
    pub mode: LexMode,
    pub word: Seq<char>,
    pub tokens: Seq<TokenView>,
}

/// Unicode's White_Space property.
pub open spec fn is_white_space(c: char) -> bool {
    let u = c as u32;
    ||| 9 <= u <= 13
    ||| u == 32
    ||| u == 0x85
    ||| u == 0xA0
    ||| u == 0x1680
    ||| 0x2000 <= u <= 0x200A
    ||| u == 0x2028
    ||| u == 0x2029
    ||| u == 0x202F
    ||| u == 0x205F
    ||| u == 0x3000
}

/// The token that a completed word stands for: a keyword, else a literal, else
/// an identifier.
pub open spec fn classify(w: Seq<char>) -> TokenView {
    match keyword_of(w) {
        Some(k) => TokenView::Keyword(k),
        None => match literal_of(w) {
            Some(l) => TokenView::Literal(l),
            None => TokenView::Identifier(w),
        },
    }
}

/// The tokens after the pending word `w` is committed.
pub open spec fn commit(w: Seq<char>, tokens: Seq<TokenView>) -> Seq<TokenView> {
    if w.len() == 0 {
        tokens
    } else {
        tokens.push(classify(w))
    }
}

/// The tokens after a line break: `Newline` is added only after a
/// newline-significant token.
pub open spec fn after_line_break(tokens: Seq<TokenView>) -> Seq<TokenView> {
    if tokens.len() > 0 && newline_significant(tokens.last()) {
        tokens.push(TokenView::Newline)
    } else {
        tokens
    }
}

pub open spec fn normal_state(tokens: Seq<TokenView>) -> LexState {
    LexState { mode: LexMode::Normal, word: seq![], tokens }
}

/// One step of the lexer on character `c`, with `next` the character after it.
/// The flag says whether `next` was consumed as well.
pub open spec fn step(st: LexState, c: char, next: Option<char>) -> (LexState, bool) {
    match st.mode {
        LexMode::InString => {
            if c == '"' && !(st.word.len() > 0 && st.word.last() == '\\') {
                (normal_state(st.tokens.push(TokenView::Literal(LiteralView::String(st.word)))), false)
            } else {
                (LexState { word: st.word.push(c), ..st }, false)
            }
        },
        LexMode::InComment => {
            if c == '\n' {
                (normal_state(after_line_break(st.tokens)), false)
            } else {
                (st, false)
            }
        },
        LexMode::Normal => {
            let committed = commit(st.word, st.tokens);
            if c == '\n' {
                (normal_state(after_line_break(committed)), false)
            } else if c == '"' {
                (LexState { mode: LexMode::InString, ..st }, false)
            } else if c == '/' && next == Some('/') {
                (LexState { mode: LexMode::InComment, word: seq![], tokens: committed }, false)
            } else if is_white_space(c) {
                (normal_state(committed), false)
            } else if punctuation_of(c) is Some {
                (normal_state(committed.push(punctuation_of(c)->Some_0)), false)
            } else if next is Some && double_operator_of(c, next->Some_0) is Some {
                (
                    normal_state(
                        committed.push(TokenView::Operator(double_operator_of(c, next->Some_0)->Some_0)),
                    ),
                    true,
                )
            } else if single_operator_of(c) is Some {
                (normal_state(committed.push(TokenView::Operator(single_operator_of(c)->Some_0))), false)
            } else {
                (LexState { word: st.word.push(c), ..st }, false)
            }
        },
    }
}

/// The character at `i`, if there is one.
pub open spec fn char_at(cs: Seq<char>, i: int) -> Option<char> {
    if 0 <= i < cs.len() {
        Some(cs[i])
    } else {
        None
    }
}

/// The tokens of the whole input, run from state `st` at index `i`; `None`
/// when the input ends inside a string literal.
pub open spec fn lex_from(cs: Seq<char>, i: int, st: LexState) -> Option<Seq<TokenView>>
    decreases cs.len() - i,
{
    if i < 0 || i >= cs.len() {
        if st.mode == LexMode::InString {
            None
        } else {
            Some(commit(st.word, st.tokens))
        }
    } else {
        let (next_state, skip) = step(st, cs[i], char_at(cs, i + 1));
        lex_from(cs, if skip { i + 2 } else { i + 1 }, next_state)
    }
}

/// The tokens of `cs`, or `None` when a string literal is left open.
pub open spec fn lex_spec(cs: Seq<char>) -> Option<Seq<TokenView>> {
    lex_from(cs, 0, normal_state(seq![]))
}

/// The views of a sequence of tokens.
pub open spec fn tokens_view(ts: Seq<Token>) -> Seq<TokenView> {
    ts.map_values(|t: Token| t@)
}

struct Scanner {
    mode: LexMode,
    word: Vec<char>,
    tokens: Vec<Token>,
}

impl Scanner {
    spec fn state(&self) -> LexState {
        LexState { mode: self.mode, word: self.word@, tokens: tokens_view(self.tokens@) }
    }

    fn classify_word(w: &Vec<char>) -> (r: Token)
        ensures
            r@ == classify(w@),
    {
        match Keyword::from_word(w) {
            Some(k) => Token::Keyword(k),
            None => match Literal::from_word(w) {
                Some(l) => Token::Literal(l),
                None => Token::Identifier(string_of(w)),
            },
        }
    }

    fn push_token(&mut self, t: Token)
        ensures
            final(self).mode == old(self).mode,
            final(self).word@ == old(self).word@,
            final(self).state().tokens == old(self).state().tokens.push(t@),
    {
        self.tokens.push(t);
        assert(tokens_view(self.tokens@) =~= tokens_view(old(self).tokens@).push(t@));
    }

    fn commit_word(&mut self)
        ensures
            final(self).mode == old(self).mode,
            final(self).word@ == Seq::<char>::empty(),
            final(self).state().tokens == commit(old(self).word@, old(self).state().tokens),
    {
        if self.word.len() > 0 {
            let t = Self::classify_word(&self.word);
            self.push_token(t);
        }
        self.word = Vec::new();
    }

    fn line_break(&mut self)
        ensures
            final(self).mode == old(self).mode,
            final(self).word@ == old(self).word@,
            final(self).state().tokens == after_line_break(old(self).state().tokens),
    {
        let n = self.tokens.len();
        if n > 0 && self.tokens[n - 1].is_newline_significant() {
            self.push_token(Token::Newline);
        }
    }

    fn step(&mut self, c: char, next: Option<char>) -> (skip: bool)
        ensures
            (final(self).state(), skip) == step(old(self).state(), c, next),
            skip ==> next is Some,
    {
        match self.mode {
            LexMode::InString => {
                let n = self.word.len();
                if c == '"' && !(n > 0 && self.word[n - 1] == '\\') {
                    let t = Token::Literal(Literal::String(string_of(&self.word)));
                    self.push_token(t);
                    self.word = Vec::new();
                    self.mode = LexMode::Normal;
                } else {
                    self.word.push(c);
                }
                false
            },
            LexMode::InComment => {
                if c == '\n' {
                    self.line_break();
                    self.word = Vec::new();
                    self.mode = LexMode::Normal;
                }
                false
            },
            LexMode::Normal => {
                if c == '\n' {
                    self.commit_word();
                    self.line_break();
                    false
                } else if c == '"' {
                    self.mode = LexMode::InString;
                    false
                } else if c == '/' && next == Some('/') {
                    self.commit_word();
                    self.mode = LexMode::InComment;
                    false
                } else if is_whitespace(c) {
                    self.commit_word();
                    false
                } else if let Some(t) = Token::punctuation(c) {
                    self.commit_word();
                    self.push_token(t);
                    false
                } else {
                    let pair = match next {
                        Some(d) => Operator::from_pair(c, d),
                        None => None,
                    };
                    match pair {
                        Some(op) => {
                            self.commit_word();
                            self.push_token(Token::Operator(op));
                            true
                        },
                        None => match Operator::from_char(c) {
                            Some(op) => {
                                self.commit_word();
                                self.push_token(Token::Operator(op));
                                false
                            },
                            None => {
                                self.word.push(c);
                                false
                            },
                        },
                    }
                }
            },
        }
    }
}

/// Whether `c` has Unicode's White_Space property.
pub fn is_whitespace(c: char) -> (r: bool)
    ensures
        r == is_white_space(c),
{
    let u = c as u32;
    (9 <= u && u <= 13) || u == 32 || u == 0x85 || u == 0xA0 || u == 0x1680 || (0x2000 <= u && u
        <= 0x200A) || u == 0x2028 || u == 0x2029 || u == 0x202F || u == 0x205F || u == 0x3000
}

/// Relies on `utf8_chars::BufReadCharsExt::chars` over a byte slice: it yields
/// the characters that the bytes encode as UTF-8, and an error at the first
/// byte sequence that is not valid UTF-8 (or is cut short).
#[verifier::external_body]
fn decode_chars(source: &[u8]) -> (r: Result<Vec<char>, std::io::Error>)
    ensures
        r is Ok <==> valid_utf8(source@),
        r is Ok ==> r->Ok_0@ == decode_utf8(source@),
{
    let mut reader = source;
    reader.chars().collect()
}

/// Turns source text into tokens.
pub struct Lexer;

impl Lexer {
    /// The tokens of UTF-8 encoded source text. Text that is not valid UTF-8
    /// gives `IoError`; a string literal left open gives `UnexpectedEndOfInput`.
    pub fn lex(source: &[u8]) -> (r: Result<Vec<Token>, LexerError>)
        ensures
            r matches Err(LexerError::IoError(_)) <==> !valid_utf8(source@),
            valid_utf8(source@) ==> match r {
                Ok(ts) => lex_spec(decode_utf8(source@)) == Some(tokens_view(ts@)),
                Err(e) => e is UnexpectedEndOfInput && lex_spec(decode_utf8(source@)) is None,
            },
    {
        match decode_chars(source) {
            Ok(chars) => Self::lex_chars(chars.as_slice()),
            Err(e) => Err(LexerError::from(e)),
        }
    }

    /// The tokens of a character sequence; `UnexpectedEndOfInput` when it ends
    /// inside a string literal.
    pub fn lex_chars(chars: &[char]) -> (r: Result<Vec<Token>, LexerError>)
        ensures
            match r {
                Ok(ts) => lex_spec(chars@) == Some(tokens_view(ts@)),
                Err(e) => e is UnexpectedEndOfInput && lex_spec(chars@) is None,
            },
    {
        let mut sc = Scanner { mode: LexMode::Normal, word: Vec::new(), tokens: Vec::new() };
        proof {
            assert(sc.state().word =~= Seq::<char>::empty());
            assert(sc.state().tokens =~= Seq::<TokenView>::empty());
        }
        let n = chars.len();
        let mut i: usize = 0;
        while i < n
            invariant
                n == chars@.len(),
                i <= n,
                lex_spec(chars@) == lex_from(chars@, i as int, sc.state()),
            decreases n - i,
        {
            let next = if i + 1 < n {
                Some(chars[i + 1])
            } else {
                None
            };
            assert(next == char_at(chars@, i + 1));
            let skip = sc.step(chars[i], next);
            i = if skip {
                i + 2
            } else {
                i + 1
            };
        }
        if sc.mode == LexMode::InString {
            Err(LexerError::UnexpectedEndOfInput)
        } else {
            sc.commit_word();
            Ok(sc.tokens)
        }
    }
}

} // verus!
