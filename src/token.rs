use vstd::prelude::*;
use vstd::string::StringExecFns;

verus! {

/// Reserved words, recognised without regard to ASCII case.
#[derive(Debug, Clone, Copy, PartialEq, Eq, Structural)]
pub enum Keyword {
    Module,
    Import,
    Fn,
    Struct,
    Enum,
    If,
    Else,
    Return,
    Null,
    Void,
    Mut,
}

/// Operator symbols. Both `:=` and a lone `:` are `Assign`; `=` is `Reassign`.
#[derive(Debug, Clone, Copy, PartialEq, Eq, Structural)]
pub enum Operator {
    Assign,
    Reassign,
    Plus,
    Minus,
    Star,
    Slash,
    Percent,
    Caret,
    Ampersand,
    Pipe,
    Less,
    Greater,
    Equal,
    NotEqual,
    LessEqual,
    GreaterEqual,
    And,
    Or,
    Pipeline,
    Question,
}

/// Literal values. Numbers keep the text they were written with.
#[derive(Debug)]
pub enum Literal {
    String(String),
    Number(String),
    Boolean(bool),
}

#[derive(Debug)]
pub enum Token {
    Identifier(String),
    Keyword(Keyword),
    Operator(Operator),
    Literal(Literal),
    OpenParen,
    CloseParen,
    CloseBrace,
    OpenBrace,
    CloseBracket,
    OpenBracket,
    Comma,
    Dot,
    Newline,
}

/// The mathematical value of a `Literal`: its text as a character sequence.
pub enum LiteralView {
    String(Seq<char>),
    Number(Seq<char>),
    Boolean(bool),
}

/// The mathematical value of a `Token`.
pub enum TokenView {
    Identifier(Seq<char>),
    Keyword(Keyword),
    Operator(Operator),
    Literal(LiteralView),
    OpenParen,
    CloseParen,
    CloseBrace,
    OpenBrace,
    CloseBracket,
    OpenBracket,
    Comma,
    Dot,
    Newline,
}

impl View for Literal {
    type V = LiteralView;

    open spec fn view(&self) -> LiteralView {
        match self {
            Literal::String(s) => LiteralView::String(s@),
            Literal::Number(s) => LiteralView::Number(s@),
            Literal::Boolean(b) => LiteralView::Boolean(*b),
        }
    }
}

impl View for Token {
    type V = TokenView;

    open spec fn view(&self) -> TokenView {
        match self {
            Token::Identifier(s) => TokenView::Identifier(s@),
            Token::Keyword(k) => TokenView::Keyword(*k),
            Token::Operator(o) => TokenView::Operator(*o),
            Token::Literal(l) => TokenView::Literal(l@),
            Token::OpenParen => TokenView::OpenParen,
            Token::CloseParen => TokenView::CloseParen,
            Token::CloseBrace => TokenView::CloseBrace,
            Token::OpenBrace => TokenView::OpenBrace,
            Token::CloseBracket => TokenView::CloseBracket,
            Token::OpenBracket => TokenView::OpenBracket,
            Token::Comma => TokenView::Comma,
            Token::Dot => TokenView::Dot,
            Token::Newline => TokenView::Newline,
        }
    }
}

impl Clone for Literal {
    fn clone(&self) -> (r: Self)
        ensures
            r == *self,
    {
        match self {
            Literal::String(s) => Literal::String(s.clone()),
            Literal::Number(s) => Literal::Number(s.clone()),
            Literal::Boolean(b) => Literal::Boolean(*b),
        }
    }
}

impl Clone for Token {
    fn clone(&self) -> (r: Self)
        ensures
            r == *self,
    {
        match self {
            Token::Identifier(s) => Token::Identifier(s.clone()),
            Token::Keyword(k) => Token::Keyword(*k),
            Token::Operator(o) => Token::Operator(*o),
            Token::Literal(l) => Token::Literal(l.clone()),
            Token::OpenParen => Token::OpenParen,
            Token::CloseParen => Token::CloseParen,
            Token::CloseBrace => Token::CloseBrace,
            Token::OpenBrace => Token::OpenBrace,
            Token::CloseBracket => Token::CloseBracket,
            Token::OpenBracket => Token::OpenBracket,
            Token::Comma => Token::Comma,
            Token::Dot => Token::Dot,
            Token::Newline => Token::Newline,
        }
    }
}

impl PartialEq for Literal {
    fn eq(&self, other: &Literal) -> (r: bool) {
        match (self, other) {
            (Literal::String(a), Literal::String(b)) => *a == *b,
            (Literal::Number(a), Literal::Number(b)) => *a == *b,
            (Literal::Boolean(a), Literal::Boolean(b)) => *a == *b,
            _ => false,
        }
    }
}

impl vstd::std_specs::cmp::PartialEqSpecImpl for Literal {
    open spec fn obeys_eq_spec() -> bool {
        true
    }

    open spec fn eq_spec(&self, other: &Literal) -> bool {
        self@ == other@
    }
}

impl PartialEq for Token {
    fn eq(&self, other: &Token) -> (r: bool) {
        match (self, other) {
            (Token::Identifier(a), Token::Identifier(b)) => *a == *b,
            (Token::Keyword(a), Token::Keyword(b)) => *a == *b,
            (Token::Operator(a), Token::Operator(b)) => *a == *b,
            (Token::Literal(a), Token::Literal(b)) => a.eq(b),
            (Token::OpenParen, Token::OpenParen) => true,
            (Token::CloseParen, Token::CloseParen) => true,
            (Token::CloseBrace, Token::CloseBrace) => true,
            (Token::OpenBrace, Token::OpenBrace) => true,
            (Token::CloseBracket, Token::CloseBracket) => true,
            (Token::OpenBracket, Token::OpenBracket) => true,
            (Token::Comma, Token::Comma) => true,
            (Token::Dot, Token::Dot) => true,
            (Token::Newline, Token::Newline) => true,
            _ => false,
        }
    }
}

impl vstd::std_specs::cmp::PartialEqSpecImpl for Token {
    open spec fn obeys_eq_spec() -> bool {
        true
    }

    open spec fn eq_spec(&self, other: &Token) -> bool {
        self@ == other@
    }
}

/// The punctuation token that a single character stands for, if any.
pub open spec fn punctuation_of(c: char) -> Option<TokenView> {
    if c == '(' {
        Some(TokenView::OpenParen)
    } else if c == ')' {
        Some(TokenView::CloseParen)
    } else if c == '{' {
        Some(TokenView::OpenBrace)
    } else if c == '}' {
        Some(TokenView::CloseBrace)
    } else if c == '[' {
        Some(TokenView::OpenBracket)
    } else if c == ']' {
        Some(TokenView::CloseBracket)
    } else if c == ',' {
        Some(TokenView::Comma)
    } else if c == '.' {
        Some(TokenView::Dot)
    } else {
        None
    }
}

/// The operator spelled by two characters, if any.
pub open spec fn double_operator_of(c: char, d: char) -> Option<Operator> {
    if c == ':' && d == '=' {
        Some(Operator::Assign)
    } else if c == '&' && d == '&' {
        Some(Operator::And)
    } else if c == '|' && d == '|' {
        Some(Operator::Or)
    } else if c == '!' && d == '=' {
        Some(Operator::NotEqual)
    } else if c == '=' && d == '=' {
        Some(Operator::Equal)
    } else if c == '<' && d == '=' {
        Some(Operator::LessEqual)
    } else if c == '>' && d == '=' {
        Some(Operator::GreaterEqual)
    } else if c == '|' && d == '>' {
        Some(Operator::Pipeline)
    } else {
        None
    }
}

/// The operator spelled by one character, if any.
pub open spec fn single_operator_of(c: char) -> Option<Operator> {
    if c == ':' {
        Some(Operator::Assign)
    } else if c == '=' {
        Some(Operator::Reassign)
    } else if c == '+' {
        Some(Operator::Plus)
    } else if c == '-' {
        Some(Operator::Minus)
    } else if c == '*' {
        Some(Operator::Star)
    } else if c == '/' {
        Some(Operator::Slash)
    } else if c == '%' {
        Some(Operator::Percent)
    } else if c == '^' {
        Some(Operator::Caret)
    } else if c == '&' {
        Some(Operator::Ampersand)
    } else if c == '|' {
        Some(Operator::Pipe)
    } else if c == '<' {
        Some(Operator::Less)
    } else if c == '>' {
        Some(Operator::Greater)
    } else if c == '?' {
        Some(Operator::Question)
    } else {
        None
    }
}

/// Tokens after which a line break ends a statement.
pub open spec fn newline_significant(t: TokenView) -> bool {
    match t {
        TokenView::CloseBrace | TokenView::CloseBracket | TokenView::CloseParen => true,
        TokenView::Identifier(_) | TokenView::Literal(_) => true,
        _ => false,
    }
}

impl Token {
    /// The punctuation token for `c`, if `c` is one of `(){}[],.`.
    pub fn punctuation(c: char) -> (r: Option<Token>)
        ensures
            match r {
                Some(t) => punctuation_of(c) == Some(t@),
                None => punctuation_of(c) is None,
            },
    {
        match c {
            '(' => Some(Token::OpenParen),
            ')' => Some(Token::CloseParen),
            '{' => Some(Token::OpenBrace),
            '}' => Some(Token::CloseBrace),
            '[' => Some(Token::OpenBracket),
            ']' => Some(Token::CloseBracket),
            ',' => Some(Token::Comma),
            '.' => Some(Token::Dot),
            _ => None,
        }
    }

    /// Whether a line break after this token is emitted as a `Newline` token.
    pub fn is_newline_significant(&self) -> (r: bool)
        ensures
            r == newline_significant(self@),
    {
        match self {
            Token::CloseBrace | Token::CloseBracket | Token::CloseParen => true,
            Token::Identifier(_) | Token::Literal(_) => true,
            _ => false,
        }
    }
}

impl Operator {
    /// The operator spelled by the two characters `c` then `d`, if any.
    pub fn from_pair(c: char, d: char) -> (r: Option<Operator>)
        ensures
            r == double_operator_of(c, d),
    {
        match (c, d) {
            (':', '=') => Some(Operator::Assign),
            ('&', '&') => Some(Operator::And),
            ('|', '|') => Some(Operator::Or),
            ('!', '=') => Some(Operator::NotEqual),
            ('=', '=') => Some(Operator::Equal),
            ('<', '=') => Some(Operator::LessEqual),
            ('>', '=') => Some(Operator::GreaterEqual),
            ('|', '>') => Some(Operator::Pipeline),
            _ => None,
        }
    }

    /// The operator spelled by the single character `c`, if any.
    pub fn from_char(c: char) -> (r: Option<Operator>)
        ensures
            r == single_operator_of(c),
    {
        match c {
            ':' => Some(Operator::Assign),
            '=' => Some(Operator::Reassign),
            '+' => Some(Operator::Plus),
            '-' => Some(Operator::Minus),
            '*' => Some(Operator::Star),
            '/' => Some(Operator::Slash),
            '%' => Some(Operator::Percent),
            '^' => Some(Operator::Caret),
            '&' => Some(Operator::Ampersand),
            '|' => Some(Operator::Pipe),
            '<' => Some(Operator::Less),
            '>' => Some(Operator::Greater),
            '?' => Some(Operator::Question),
            _ => None,
        }
    }
}

} // verus!

verus! {

/// The spelling of an operator.
pub open spec fn operator_text(o: Operator) -> Seq<char> {
    match o {
        Operator::Assign => seq![':'],
        Operator::Reassign => seq!['='],
        Operator::Plus => seq!['+'],
        Operator::Minus => seq!['-'],
        Operator::Star => seq!['*'],
        Operator::Slash => seq!['/'],
        Operator::Percent => seq!['%'],
        Operator::Caret => seq!['^'],
        Operator::Ampersand => seq!['&'],
        Operator::Pipe => seq!['|'],
        Operator::Less => seq!['<'],
        Operator::Greater => seq!['>'],
        Operator::Equal => seq!['=', '='],
        Operator::NotEqual => seq!['!', '='],
        Operator::LessEqual => seq!['<', '='],
        Operator::GreaterEqual => seq!['>', '='],
        Operator::And => seq!['&', '&'],
        Operator::Or => seq!['|', '|'],
        Operator::Pipeline => seq!['|', '>'],
        Operator::Question => seq!['?'],
    }
}

/// The source text of a literal: a string in double quotes, a number as
/// written, a boolean as `true` or `false`.
pub open spec fn literal_text(l: LiteralView) -> Seq<char> {
    match l {
        LiteralView::String(s) => seq!['"'] + s + seq!['"'],
        LiteralView::Number(n) => n,
        LiteralView::Boolean(b) => if b {
            seq!['t', 'r', 'u', 'e']
        } else {
            seq!['f', 'a', 'l', 's', 'e']
        },
    }
}

/// The source text of a token; keywords in lower case.
pub open spec fn token_text(t: TokenView) -> Seq<char> {
    match t {
        TokenView::Identifier(s) => s,
        TokenView::Keyword(k) => crate::words::keyword_text(k),
        TokenView::Operator(o) => operator_text(o),
        TokenView::Literal(l) => literal_text(l),
        TokenView::OpenParen => seq!['('],
        TokenView::CloseParen => seq![')'],
        TokenView::OpenBrace => seq!['{'],
        TokenView::CloseBrace => seq!['}'],
        TokenView::OpenBracket => seq!['['],
        TokenView::CloseBracket => seq![']'],
        TokenView::Comma => seq![','],
        TokenView::Dot => seq!['.'],
        TokenView::Newline => seq!['\n'],
    }
}

fn text_of(chars: Vec<char>) -> (r: String)
    ensures
        r@ == chars@,
{
    crate::words::string_of(&chars)
}

impl Operator {
    /// The operator's spelling.
    pub fn text(self) -> (r: String)
        ensures
            r@ == operator_text(self),
    {
        let chars = match self {
            Operator::Assign => vec![':'],
            Operator::Reassign => vec!['='],
            Operator::Plus => vec!['+'],
            Operator::Minus => vec!['-'],
            Operator::Star => vec!['*'],
            Operator::Slash => vec!['/'],
            Operator::Percent => vec!['%'],
            Operator::Caret => vec!['^'],
            Operator::Ampersand => vec!['&'],
            Operator::Pipe => vec!['|'],
            Operator::Less => vec!['<'],
            Operator::Greater => vec!['>'],
            Operator::Equal => vec!['=', '='],
            Operator::NotEqual => vec!['!', '='],
            Operator::LessEqual => vec!['<', '='],
            Operator::GreaterEqual => vec!['>', '='],
            Operator::And => vec!['&', '&'],
            Operator::Or => vec!['|', '|'],
            Operator::Pipeline => vec!['|', '>'],
            Operator::Question => vec!['?'],
        };
        assert(chars@ =~= operator_text(self));
        text_of(chars)
    }
}

impl Keyword {
    /// The keyword's spelling, in lower case.
    pub fn text(self) -> (r: String)
        ensures
            r@ == crate::words::keyword_text(self),
    {
        text_of(self.spelling())
    }
}

impl Literal {
    /// The literal's source text.
    pub fn text(&self) -> (r: String)
        ensures
            r@ == literal_text(self@),
    {
        match self {
            Literal::String(s) => {
                let mut r = text_of(vec!['"']);
                r.append(s.as_str());
                let close = text_of(vec!['"']);
                r.append(close.as_str());
                assert(r@ =~= literal_text(self@));
                r
            },
            Literal::Number(n) => n.clone(),
            Literal::Boolean(b) => {
                if *b {
                    let r = text_of(vec!['t', 'r', 'u', 'e']);
                    assert(r@ =~= literal_text(self@));
                    r
                } else {
                    let r = text_of(vec!['f', 'a', 'l', 's', 'e']);
                    assert(r@ =~= literal_text(self@));
                    r
                }
            },
        }
    }
}

impl Token {
    /// The token's source text.
    pub fn text(&self) -> (r: String)
        ensures
            r@ == token_text(self@),
    {
        let r = match self {
            Token::Identifier(s) => s.clone(),
            Token::Keyword(k) => k.text(),
            Token::Operator(o) => o.text(),
            Token::Literal(l) => l.text(),
            Token::OpenParen => text_of(vec!['(']),
            Token::CloseParen => text_of(vec![')']),
            Token::OpenBrace => text_of(vec!['{']),
            Token::CloseBrace => text_of(vec!['}']),
            Token::OpenBracket => text_of(vec!['[']),
            Token::CloseBracket => text_of(vec![']']),
            Token::Comma => text_of(vec![',']),
            Token::Dot => text_of(vec!['.']),
            Token::Newline => text_of(vec!['\n']),
        };
        assert(r@ =~= token_text(self@));
        r
    }
}

} // verus!
