use vstd::prelude::*;

verus! {

/// One lexical unit of the source language.
#[derive(Debug, Clone, PartialEq, Eq)]
pub enum Token {
    Identifier(String),
    Integer(u32),
    Character(u64),
    /// A multi-line string literal, recorded by the offset at which it starts.
    MLStr(u64),
    Import,
    Async,
    Return,
    If,
    Else,
    While,
    KwInt,
    KwByte,
    KwBool,
    KwStr,
    KwVoid,
    KwMlstr,
    KwChar,
    OpenParen,
    CloseParen,
    OpenBrace,
    CloseBrace,
    Semicolon,
    Colon,
    Dot,
    QuestionMark,
    Assign,
    Increment,
    Decrement,
    Multiplication,
    Division,
    Modulus,
    Addition,
    Negation,
    LessThan,
    LessThanOrEqual,
    GreaterThan,
    GreaterThanOrEqual,
    Equal,
    NotEqual,
    And,
    Or,
    BitwiseLeft,
    BitwiseRight,
    BitwiseAnd,
    BitwiseXor,
    BitwiseOr,
    Comma,
    LogicalNeg,
    BitComp,
}

impl Token {
    /// A copy of this token, equal to it.
    pub fn duplicate(&self) -> (r: Token)
        ensures
            r == *self,
    {
        match self {
            Token::Identifier(s) => Token::Identifier(s.clone()),
            Token::Integer(v) => Token::Integer(*v),
            Token::Character(v) => Token::Character(*v),
            Token::MLStr(v) => Token::MLStr(*v),
            Token::Import => Token::Import,
            Token::Async => Token::Async,
            Token::Return => Token::Return,
            Token::If => Token::If,
            Token::Else => Token::Else,
            Token::While => Token::While,
            Token::KwInt => Token::KwInt,
            Token::KwByte => Token::KwByte,
            Token::KwBool => Token::KwBool,
            Token::KwStr => Token::KwStr,
            Token::KwVoid => Token::KwVoid,
            Token::KwMlstr => Token::KwMlstr,
            Token::KwChar => Token::KwChar,
            Token::OpenParen => Token::OpenParen,
            Token::CloseParen => Token::CloseParen,
            Token::OpenBrace => Token::OpenBrace,
            Token::CloseBrace => Token::CloseBrace,
            Token::Semicolon => Token::Semicolon,
            Token::Colon => Token::Colon,
            Token::Dot => Token::Dot,
            Token::QuestionMark => Token::QuestionMark,
            Token::Assign => Token::Assign,
            Token::Increment => Token::Increment,
            Token::Decrement => Token::Decrement,
            Token::Multiplication => Token::Multiplication,
            Token::Division => Token::Division,
            Token::Modulus => Token::Modulus,
            Token::Addition => Token::Addition,
            Token::Negation => Token::Negation,
            Token::LessThan => Token::LessThan,
            Token::LessThanOrEqual => Token::LessThanOrEqual,
            Token::GreaterThan => Token::GreaterThan,
            Token::GreaterThanOrEqual => Token::GreaterThanOrEqual,
            Token::Equal => Token::Equal,
            Token::NotEqual => Token::NotEqual,
            Token::And => Token::And,
            Token::Or => Token::Or,
            Token::BitwiseLeft => Token::BitwiseLeft,
            Token::BitwiseRight => Token::BitwiseRight,
            Token::BitwiseAnd => Token::BitwiseAnd,
            Token::BitwiseXor => Token::BitwiseXor,
            Token::BitwiseOr => Token::BitwiseOr,
            Token::Comma => Token::Comma,
            Token::LogicalNeg => Token::LogicalNeg,
            Token::BitComp => Token::BitComp,
        }
    }
}

/// What a token stands for, with an identifier's name as its characters.
pub enum Lexeme {
    Name(Seq<char>),
    Fixed(Token),
}

pub open spec fn lexeme_of(t: Token) -> Lexeme {
    match t {
        Token::Identifier(s) => Lexeme::Name(s@),
        _ => Lexeme::Fixed(t),
    }
}

pub open spec fn lexemes_of(ts: Seq<Token>) -> Seq<Lexeme> {
    ts.map_values(|t: Token| lexeme_of(t))
}

/// No token starts at this character offset.
#[derive(Debug, Clone, Copy, PartialEq, Eq, Structural)]
pub struct LexicalError {
    pub pos: usize,
}

pub open spec fn is_space(c: char) -> bool {
    c == ' ' || c == '\t' || c == '\n' || c == '\r'
}

pub open spec fn is_digit(c: char) -> bool {
    '0' <= c && c <= '9'
}

pub open spec fn is_ident_start(c: char) -> bool {
    ('a' <= c && c <= 'z') || ('A' <= c && c <= 'Z') || c == '_'
}

pub open spec fn is_ident_char(c: char) -> bool {
    is_ident_start(c) || is_digit(c)
}

/// The end of the run of characters satisfying `is_ident_char` from `i`.
pub open spec fn word_end(s: Seq<char>, i: int) -> int
    decreases s.len() - i,
{
    if 0 <= i < s.len() && is_ident_char(s[i]) {
        word_end(s, i + 1)
    } else {
        i
    }
}

/// The end of the run of decimal digits from `i`.
pub open spec fn digits_end(s: Seq<char>, i: int) -> int
    decreases s.len() - i,
{
    if 0 <= i < s.len() && is_digit(s[i]) {
        digits_end(s, i + 1)
    } else {
        i
    }
}

/// The decimal value of the digits `s[i..j]`.
pub open spec fn digits_value(s: Seq<char>, i: int, j: int) -> nat
    decreases j - i,
{
    if j <= i {
        0
    } else {
        digits_value(s, i, j - 1) * 10 + ((s[j - 1] as nat) - ('0' as nat)) as nat
    }
}

/// The offset of the first backtick at or after `i`, or the length of `s`.
pub open spec fn backtick_from(s: Seq<char>, i: int) -> int
    decreases s.len() - i,
{
    if 0 <= i < s.len() && s[i] != '`' {
        backtick_from(s, i + 1)
    } else {
        i
    }
}

pub open spec fn keyword(w: Seq<char>) -> Option<Token> {
    if w.len() == 6 && w[0] == 'i' && w[1] == 'm' && w[2] == 'p' && w[3] == 'o' && w[4] == 'r' && w[5] == 't' {
        Some(Token::Import)
    } else if w.len() == 5 && w[0] == 'a' && w[1] == 's' && w[2] == 'y' && w[3] == 'n' && w[4] == 'c' {
        Some(Token::Async)
    } else if w.len() == 6 && w[0] == 'r' && w[1] == 'e' && w[2] == 't' && w[3] == 'u' && w[4] == 'r' && w[5] == 'n' {
        Some(Token::Return)
    } else if w.len() == 2 && w[0] == 'i' && w[1] == 'f' {
        Some(Token::If)
    } else if w.len() == 4 && w[0] == 'e' && w[1] == 'l' && w[2] == 's' && w[3] == 'e' {
        Some(Token::Else)
    } else if w.len() == 5 && w[0] == 'w' && w[1] == 'h' && w[2] == 'i' && w[3] == 'l' && w[4] == 'e' {
        Some(Token::While)
    } else if w.len() == 3 && w[0] == 'i' && w[1] == 'n' && w[2] == 't' {
        Some(Token::KwInt)
    } else if w.len() == 4 && w[0] == 'b' && w[1] == 'y' && w[2] == 't' && w[3] == 'e' {
        Some(Token::KwByte)
    } else if w.len() == 4 && w[0] == 'b' && w[1] == 'o' && w[2] == 'o' && w[3] == 'l' {
        Some(Token::KwBool)
    } else if w.len() == 3 && w[0] == 's' && w[1] == 't' && w[2] == 'r' {
        Some(Token::KwStr)
    } else if w.len() == 4 && w[0] == 'v' && w[1] == 'o' && w[2] == 'i' && w[3] == 'd' {
        Some(Token::KwVoid)
    } else if w.len() == 5 && w[0] == 'm' && w[1] == 'l' && w[2] == 's' && w[3] == 't' && w[4] == 'r' {
        Some(Token::KwMlstr)
    } else if w.len() == 4 && w[0] == 'c' && w[1] == 'h' && w[2] == 'a' && w[3] == 'r' {
        Some(Token::KwChar)
    } else {
        None
    }
}

/// The two-character operators, which win over their one-character prefixes.
pub open spec fn double_op(a: char, b: char) -> Option<Token> {
    if a == '<' && b == '=' {
        Some(Token::LessThanOrEqual)
    } else if a == '>' && b == '=' {
        Some(Token::GreaterThanOrEqual)
    } else if a == '=' && b == '=' {
        Some(Token::Equal)
    } else if a == '!' && b == '=' {
        Some(Token::NotEqual)
    } else if a == '&' && b == '&' {
        Some(Token::And)
    } else if a == '|' && b == '|' {
        Some(Token::Or)
    } else if a == '<' && b == '<' {
        Some(Token::BitwiseLeft)
    } else if a == '>' && b == '>' {
        Some(Token::BitwiseRight)
    } else if a == '+' && b == '+' {
        Some(Token::Increment)
    } else if a == '-' && b == '-' {
        Some(Token::Decrement)
    } else {
        None
    }
}

pub open spec fn single_op(a: char) -> Option<Token> {
    if a == '+' {
        Some(Token::Addition)
    } else if a == '-' {
        Some(Token::Negation)
    } else if a == '*' {
        Some(Token::Multiplication)
    } else if a == '/' {
        Some(Token::Division)
    } else if a == '%' {
        Some(Token::Modulus)
    } else if a == '<' {
        Some(Token::LessThan)
    } else if a == '>' {
        Some(Token::GreaterThan)
    } else if a == '=' {
        Some(Token::Assign)
    } else if a == '!' {
        Some(Token::LogicalNeg)
    } else if a == '~' {
        Some(Token::BitComp)
    } else if a == '&' {
        Some(Token::BitwiseAnd)
    } else if a == '|' {
        Some(Token::BitwiseOr)
    } else if a == '^' {
        Some(Token::BitwiseXor)
    } else if a == ',' {
        Some(Token::Comma)
    } else if a == ';' {
        Some(Token::Semicolon)
    } else if a == ':' {
        Some(Token::Colon)
    } else if a == '.' {
        Some(Token::Dot)
    } else if a == '?' {
        Some(Token::QuestionMark)
    } else if a == '(' {
        Some(Token::OpenParen)
    } else if a == ')' {
        Some(Token::CloseParen)
    } else if a == '{' {
        Some(Token::OpenBrace)
    } else if a == '}' {
        Some(Token::CloseBrace)
    } else {
        None
    }
}

/// The token that starts at `i` (a non-space character) and where it ends.
pub open spec fn scan_one(s: Seq<char>, i: int) -> Result<(Lexeme, int), LexicalError> {
    let c = s[i];
    if is_ident_start(c) {
        let j = word_end(s, i + 1);
        match keyword(s.subrange(i, j)) {
            Some(k) => Ok((Lexeme::Fixed(k), j)),
            None => Ok((Lexeme::Name(s.subrange(i, j)), j)),
        }
    } else if is_digit(c) {
        let j = digits_end(s, i + 1);
        let v = digits_value(s, i, j);
        if v <= u32::MAX {
            Ok((Lexeme::Fixed(Token::Integer(v as u32)), j))
        } else {
            Err(LexicalError { pos: i as usize })
        }
    } else if c == '\'' {
        if i + 2 < s.len() && s[i + 2] == '\'' {
            Ok((Lexeme::Fixed(Token::Character((s[i + 1] as u32) as u64)), i + 3))
        } else {
            Err(LexicalError { pos: i as usize })
        }
    } else if c == '`' {
        let j = backtick_from(s, i + 1);
        if j < s.len() {
            Ok((Lexeme::Fixed(Token::MLStr(i as u64)), j + 1))
        } else {
            Err(LexicalError { pos: i as usize })
        }
    } else if i + 1 < s.len() && double_op(c, s[i + 1]) is Some {
        Ok((Lexeme::Fixed(double_op(c, s[i + 1])->0), i + 2))
    } else {
        match single_op(c) {
            Some(t) => Ok((Lexeme::Fixed(t), i + 1)),
            None => Err(LexicalError { pos: i as usize }),
        }
    }
}

/// The lexemes of `s[i..]`, or the first position where no token rule applies.
pub open spec fn lex_from(s: Seq<char>, i: int) -> Result<Seq<Lexeme>, LexicalError>
    decreases s.len() - i,
{
    if i < 0 || i >= s.len() {
        Ok(Seq::empty())
    } else if is_space(s[i]) {
        lex_from(s, i + 1)
    } else {
        let r = scan_one(s, i);
        if r is Err {
            Err(r->Err_0)
        } else if i < r->Ok_0.1 <= s.len() {
            match lex_from(s, r->Ok_0.1) {
                Ok(rest) => Ok(seq![r->Ok_0.0] + rest),
                Err(e) => Err(e),
            }
        } else {
            Ok(Seq::empty())
        }
    }
}

/// The lexemes of a whole text.
pub open spec fn lex(s: Seq<char>) -> Result<Seq<Lexeme>, LexicalError> {
    lex_from(s, 0)
}

} // verus!
