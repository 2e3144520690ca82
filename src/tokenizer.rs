use crate::token::{
    backtick_from, digits_end, digits_value, double_op, is_digit, is_ident_start, is_space, keyword,
    lex, lex_from, lexeme_of, lexemes_of, scan_one, single_op, word_end, Lexeme, LexicalError,
    Token,
};
use vstd::prelude::*;

verus! {

/// Relies on `str::chars`, collected into a vector: the characters of the text in order.
#[verifier::external_body]
fn chars_of(text: &str) -> (r: Vec<char>)
    ensures
        r@ == text@,
{
    text.chars().collect()
}

/// Relies on `String::from_iter` over characters: the string holds them in order.
#[verifier::external_body]
fn string_from_chars(v: Vec<char>) -> (r: String)
    ensures
        r@ == v@,
{
    String::from_iter(v)
}

fn is_space_at(c: char) -> (r: bool)
    ensures
        r == is_space(c),
{
    c == ' ' || c == '\t' || c == '\n' || c == '\r'
}

fn is_digit_at(c: char) -> (r: bool)
    ensures
        r == is_digit(c),
{
    '0' <= c && c <= '9'
}

fn is_ident_start_at(c: char) -> (r: bool)
    ensures
        r == is_ident_start(c),
{
    ('a' <= c && c <= 'z') || ('A' <= c && c <= 'Z') || c == '_'
}

fn word_end_at(s: &Vec<char>, i: usize) -> (j: usize)
    requires
        i <= s.len(),
    ensures
        j == word_end(s@, i as int),
        i <= j <= s.len(),
{
    let mut j = i;
    while j < s.len() && (is_ident_start_at(s[j]) || is_digit_at(s[j]))
        invariant
            i <= j <= s.len(),
            word_end(s@, i as int) == word_end(s@, j as int),
        decreases s.len() - j,
    {
        j = j + 1;
    }
    j
}

fn digits_end_at(s: &Vec<char>, i: usize) -> (j: usize)
    requires
        i <= s.len(),
    ensures
        j == digits_end(s@, i as int),
        i <= j <= s.len(),
{
    let mut j = i;
    while j < s.len() && is_digit_at(s[j])
        invariant
            i <= j <= s.len(),
            digits_end(s@, i as int) == digits_end(s@, j as int),
        decreases s.len() - j,
    {
        j = j + 1;
    }
    j
}

fn backtick_at(s: &Vec<char>, i: usize) -> (j: usize)
    requires
        i <= s.len(),
    ensures
        j == backtick_from(s@, i as int),
        i <= j <= s.len(),
{
    let mut j = i;
    while j < s.len() && s[j] != '`'
        invariant
            i <= j <= s.len(),
            backtick_from(s@, i as int) == backtick_from(s@, j as int),
        decreases s.len() - j,
    {
        j = j + 1;
    }
    j
}

proof fn lemma_digits_value_grows(s: Seq<char>, i: int, k: int, j: int)
    requires
        i <= k <= j,
        forall|m: int| i <= m < j ==> is_digit(#[trigger] s[m]),
    ensures
        digits_value(s, i, k) <= digits_value(s, i, j),
    decreases j - k,
{
    if k < j {
        lemma_digits_value_grows(s, i, k, j - 1);
    }
}

proof fn lemma_digits_end(s: Seq<char>, i: int)
    requires
        0 <= i <= s.len(),
    ensures
        i <= digits_end(s, i) <= s.len(),
        forall|m: int| i <= m < digits_end(s, i) ==> is_digit(#[trigger] s[m]),
    decreases s.len() - i,
{
    if i < s.len() && is_digit(s[i]) {
        lemma_digits_end(s, i + 1);
    }
}

/// The value of the digits `s[i..j]`, or `None` when it exceeds `u32::MAX`.
fn digits_value_at(s: &Vec<char>, i: usize, j: usize) -> (r: Option<u32>)
    requires
        i <= j <= s.len(),
        forall|m: int| i <= m < j ==> is_digit(#[trigger] s@[m]),
    ensures
        digits_value(s@, i as int, j as int) <= u32::MAX ==> r == Some(
            digits_value(s@, i as int, j as int) as u32,
        ),
        digits_value(s@, i as int, j as int) > u32::MAX ==> r is None,
{
    let mut v: u64 = 0;
    let mut k = i;
    while k < j
        invariant
            i <= k <= j <= s.len(),
            forall|m: int| i <= m < j ==> is_digit(#[trigger] s@[m]),
            v == digits_value(s@, i as int, k as int),
            v <= u32::MAX,
        decreases j - k,
    {
        let d = (s[k] as u32 - '0' as u32) as u64;
        v = v * 10 + d;
        k = k + 1;
        if v > u32::MAX as u64 {
            proof {
                lemma_digits_value_grows(s@, i as int, k as int, j as int);
            }
            return None;
        }
    }
    Some(v as u32)
}

fn keyword_at(s: &Vec<char>, i: usize, j: usize) -> (r: Option<Token>)
    requires
        i <= j <= s.len(),
    ensures
        r == keyword(s@.subrange(i as int, j as int)),
{
    let n = j - i;
    if n == 6 && s[i] == 'i' && s[i + 1] == 'm' && s[i + 2] == 'p' && s[i + 3] == 'o' && s[i + 4] == 'r' && s[i + 5] == 't' {
        Some(Token::Import)
    } else if n == 5 && s[i] == 'a' && s[i + 1] == 's' && s[i + 2] == 'y' && s[i + 3] == 'n' && s[i + 4] == 'c' {
        Some(Token::Async)
    } else if n == 6 && s[i] == 'r' && s[i + 1] == 'e' && s[i + 2] == 't' && s[i + 3] == 'u' && s[i + 4] == 'r' && s[i + 5] == 'n' {
        Some(Token::Return)
    } else if n == 2 && s[i] == 'i' && s[i + 1] == 'f' {
        Some(Token::If)
    } else if n == 4 && s[i] == 'e' && s[i + 1] == 'l' && s[i + 2] == 's' && s[i + 3] == 'e' {
        Some(Token::Else)
    } else if n == 5 && s[i] == 'w' && s[i + 1] == 'h' && s[i + 2] == 'i' && s[i + 3] == 'l' && s[i + 4] == 'e' {
        Some(Token::While)
    } else if n == 3 && s[i] == 'i' && s[i + 1] == 'n' && s[i + 2] == 't' {
        Some(Token::KwInt)
    } else if n == 4 && s[i] == 'b' && s[i + 1] == 'y' && s[i + 2] == 't' && s[i + 3] == 'e' {
        Some(Token::KwByte)
    } else if n == 4 && s[i] == 'b' && s[i + 1] == 'o' && s[i + 2] == 'o' && s[i + 3] == 'l' {
        Some(Token::KwBool)
    } else if n == 3 && s[i] == 's' && s[i + 1] == 't' && s[i + 2] == 'r' {
        Some(Token::KwStr)
    } else if n == 4 && s[i] == 'v' && s[i + 1] == 'o' && s[i + 2] == 'i' && s[i + 3] == 'd' {
        Some(Token::KwVoid)
    } else if n == 5 && s[i] == 'm' && s[i + 1] == 'l' && s[i + 2] == 's' && s[i + 3] == 't' && s[i + 4] == 'r' {
        Some(Token::KwMlstr)
    } else if n == 4 && s[i] == 'c' && s[i + 1] == 'h' && s[i + 2] == 'a' && s[i + 3] == 'r' {
        Some(Token::KwChar)
    } else {
        None
    }
}

fn double_op_at(a: char, b: char) -> (r: Option<Token>)
    ensures
        r == double_op(a, b),
{
    if a == '<' && b == '=' {
        Some(Token::LessThanOrEqual)
    } else if a == '>' && b == '=' {
        Some(Token::GreaterThanOrEqual)
    } else if a == '=' && b == '=' {
        Some(Token::Equal)
    } else if a == '!' && b == '=' {
        Some(Token::NotEqual)
    } else if a == '&' && b == '&' {
        Some(Token::And)
    } else if a == '|' && b == '|' {
        Some(Token::Or)
    } else if a == '<' && b == '<' {
        Some(Token::BitwiseLeft)
    } else if a == '>' && b == '>' {
        Some(Token::BitwiseRight)
    } else if a == '+' && b == '+' {
        Some(Token::Increment)
    } else if a == '-' && b == '-' {
        Some(Token::Decrement)
    } else {
        None
    }
}

fn single_op_at(a: char) -> (r: Option<Token>)
    ensures
        r == single_op(a),
{
    if a == '+' {
        Some(Token::Addition)
    } else if a == '-' {
        Some(Token::Negation)
    } else if a == '*' {
        Some(Token::Multiplication)
    } else if a == '/' {
        Some(Token::Division)
    } else if a == '%' {
        Some(Token::Modulus)
    } else if a == '<' {
        Some(Token::LessThan)
    } else if a == '>' {
        Some(Token::GreaterThan)
    } else if a == '=' {
        Some(Token::Assign)
    } else if a == '!' {
        Some(Token::LogicalNeg)
    } else if a == '~' {
        Some(Token::BitComp)
    } else if a == '&' {
        Some(Token::BitwiseAnd)
    } else if a == '|' {
        Some(Token::BitwiseOr)
    } else if a == '^' {
        Some(Token::BitwiseXor)
    } else if a == ',' {
        Some(Token::Comma)
    } else if a == ';' {
        Some(Token::Semicolon)
    } else if a == ':' {
        Some(Token::Colon)
    } else if a == '.' {
        Some(Token::Dot)
    } else if a == '?' {
        Some(Token::QuestionMark)
    } else if a == '(' {
        Some(Token::OpenParen)
    } else if a == ')' {
        Some(Token::CloseParen)
    } else if a == '{' {
        Some(Token::OpenBrace)
    } else if a == '}' {
        Some(Token::CloseBrace)
    } else {
        None
    }
}

/// The token that starts at `s[i]`, a character that is no space.
fn scan_one_at(s: &Vec<char>, i: usize) -> (r: Result<(Token, usize), LexicalError>)
    requires
        i < s.len(),
    ensures
        match (r, scan_one(s@, i as int)) {
            (Ok((t, j)), Ok((l, k))) => lexeme_of(t) == l && j == k,
            (Err(e), Err(f)) => e == f,
            _ => false,
        },
        r matches Ok((t, j)) ==> i < j <= s.len(),
{
    let c = s[i];
    if is_ident_start_at(c) {
        let j = word_end_at(s, i + 1);
        match keyword_at(s, i, j) {
            Some(k) => Ok((k, j)),
            None => {
                let mut w: Vec<char> = Vec::new();
                let mut m = i;
                while m < j
                    invariant
                        i <= m <= j <= s.len(),
                        w@ == s@.subrange(i as int, m as int),
                    decreases j - m,
                {
                    w.push(s[m]);
                    m = m + 1;
                }
                Ok((Token::Identifier(string_from_chars(w)), j))
            },
        }
    } else if is_digit_at(c) {
        let j = digits_end_at(s, i + 1);
        proof {
            lemma_digits_end(s@, i as int + 1);
        }
        match digits_value_at(s, i, j) {
            Some(v) => Ok((Token::Integer(v), j)),
            None => Err(LexicalError { pos: i }),
        }
    } else if c == '\'' {
        if s.len() - i > 2 && s[i + 2] == '\'' {
            Ok((Token::Character((s[i + 1] as u32) as u64), i + 3))
        } else {
            Err(LexicalError { pos: i })
        }
    } else if c == '`' {
        let j = backtick_at(s, i + 1);
        if j < s.len() {
            Ok((Token::MLStr(i as u64), j + 1))
        } else {
            Err(LexicalError { pos: i })
        }
    } else {
        let two = if i + 1 < s.len() {
            double_op_at(c, s[i + 1])
        } else {
            None
        };
        match two {
            Some(t) => Ok((t, i + 2)),
            None => match single_op_at(c) {
                Some(t) => Ok((t, i + 1)),
                None => Err(LexicalError { pos: i }),
            },
        }
    }
}

/// The end of the token that scanning finds at `i`.
pub open spec fn end_at(s: Seq<char>, i: int) -> int {
    scan_one(s, i)->Ok_0.1
}

/// Where the token before index `k` ends; the start of the text for the first.
pub open spec fn gap_start(s: Seq<char>, offs: Seq<usize>, k: int) -> int {
    if k == 0 {
        0
    } else {
        end_at(s, offs[k - 1] as int)
    }
}

/// `offs[k]` is the offset at which the `k`-th lexeme starts: scanning there
/// yields it, and only spaces stand before it since the previous token ended.
pub open spec fn spans(s: Seq<char>, ls: Seq<Lexeme>, offs: Seq<usize>) -> bool {
    &&& offs.len() == ls.len()
    &&& forall|k: int| 0 <= k < offs.len() ==> #[trigger] span_ok(s, ls, offs, k)
}

/// The `k`-th token starts at `offs[k]`, after nothing but spaces.
pub open spec fn span_ok(s: Seq<char>, ls: Seq<Lexeme>, offs: Seq<usize>, k: int) -> bool {
    &&& gap_start(s, offs, k) <= offs[k] < s.len()
    &&& scan_one(s, offs[k] as int) is Ok
    &&& scan_one(s, offs[k] as int)->Ok_0.0 == ls[k]
    &&& forall|m: int| gap_start(s, offs, k) <= m < offs[k] ==> is_space(#[trigger] s[m])
}

/// Splits a sequence of characters into tokens, with the offset at which each starts.
pub fn tokenize_spanned_chars(s: &Vec<char>) -> (r: Result<(Vec<Token>, Vec<usize>), LexicalError>)
    ensures
        match (r, lex(s@)) {
            (Ok((v, offs)), Ok(ls)) => lexemes_of(v@) == ls && spans(s@, ls, offs@),
            (Err(e), Err(f)) => e == f,
            _ => false,
        },
{
    let mut out: Vec<Token> = Vec::new();
    let mut offs: Vec<usize> = Vec::new();
    let mut i: usize = 0;
    let ghost mut last: int = 0;
    while i < s.len()
        invariant
            0 <= last <= i <= s.len(),
            lex(s@) == (match lex_from(s@, i as int) {
                Ok(rest) => Ok(lexemes_of(out@) + rest),
                Err(e) => Err(e),
            }),
            spans(s@, lexemes_of(out@), offs@),
            last == gap_start(s@, offs@, offs@.len() as int),
            forall|m: int| last <= m < i ==> is_space(#[trigger] s@[m]),
        decreases s.len() - i,
    {
        if is_space_at(s[i]) {
            i = i + 1;
        } else {
            match scan_one_at(s, i) {
                Err(e) => {
                    return Err(e);
                },
                Ok((t, j)) => {
                    let ghost old_out = out@;
                    let ghost old_offs = offs@;
                    out.push(t);
                    offs.push(i);
                    proof {
                        assert(lexemes_of(out@) =~= lexemes_of(old_out) + seq![lexeme_of(t)]);
                        if let Ok(rest) = lex_from(s@, j as int) {
                            assert(lexemes_of(out@) + rest =~= lexemes_of(old_out) + (seq![
                                lexeme_of(t),
                            ] + rest));
                        }
                        let ls = lexemes_of(out@);
                        let ols = lexemes_of(old_out);
                        assert forall|k: int| 0 <= k < offs@.len() implies span_ok(s@, ls, offs@, k)
                            by {
                            if k < old_offs.len() {
                                assert(offs@[k] == old_offs[k]);
                                assert(ls[k] == ols[k]);
                                if k > 0 {
                                    assert(offs@[k - 1] == old_offs[k - 1]);
                                }
                                assert(gap_start(s@, offs@, k) == gap_start(s@, old_offs, k));
                                assert(span_ok(s@, ols, old_offs, k));
                            } else {
                                assert(k == old_offs.len());
                                if k > 0 {
                                    assert(offs@[k - 1] == old_offs[k - 1]);
                                }
                                assert(gap_start(s@, offs@, k) == last);
                                assert(ls[k] == lexeme_of(t));
                            }
                        }
                        assert(offs@.len() == ls.len());
                        assert(spans(s@, ls, offs@));
                        assert(gap_start(s@, offs@, offs@.len() as int) == j);
                    }
                    i = j;
                    proof {
                        last = j as int;
                    }
                },
            }
        }
    }
    Ok((out, offs))
}

/// Splits a sequence of characters into tokens.
pub fn tokenize_chars(s: &Vec<char>) -> (r: Result<Vec<Token>, LexicalError>)
    ensures
        match (r, lex(s@)) {
            (Ok(v), Ok(ls)) => lexemes_of(v@) == ls,
            (Err(e), Err(f)) => e == f,
            _ => false,
        },
{
    match tokenize_spanned_chars(s) {
        Ok((v, _)) => Ok(v),
        Err(e) => Err(e),
    }
}

/// Splits a comment-free source text into tokens, each with the character
/// offset at which it starts.
pub fn tokenize_spanned(text: &str) -> (r: Result<(Vec<Token>, Vec<usize>), LexicalError>)
    ensures
        match (r, lex(text@)) {
            (Ok((v, offs)), Ok(ls)) => lexemes_of(v@) == ls && spans(text@, ls, offs@),
            (Err(e), Err(f)) => e == f,
            _ => false,
        },
{
    let s = chars_of(text);
    tokenize_spanned_chars(&s)
}

/// Splits a comment-free source text into tokens, or names the first offset
/// at which no token rule applies.
pub fn tokenize(text: &str) -> (r: Result<Vec<Token>, LexicalError>)
    ensures
        match (r, lex(text@)) {
            (Ok(v), Ok(ls)) => lexemes_of(v@) == ls,
            (Err(e), Err(f)) => e == f,
            _ => false,
        },
{
    let s = chars_of(text);
    tokenize_chars(&s)
}

/// Tokenizing is a function of the text: two token sequences that both meet
/// the contract of `tokenize` for one text spell the same lexemes.
pub proof fn lemma_tokenize_deterministic(text: Seq<char>, a: Seq<Token>, b: Seq<Token>)
    requires
        lex(text) == Ok::<Seq<Lexeme>, LexicalError>(lexemes_of(a)),
        lex(text) == Ok::<Seq<Lexeme>, LexicalError>(lexemes_of(b)),
    ensures
        lexemes_of(a) == lexemes_of(b),
{
}

} // verus!
