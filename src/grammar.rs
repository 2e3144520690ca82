use crate::model::{ExprV, FunctionV, ProgramV, StmtV, VarV};
use crate::ops::{binop_of, unop_of, BinOp, Size, Type};
use crate::token::{Lexeme, Token};
use vstd::prelude::*;

verus! {

/// Where the grammar stopped fitting the tokens, and what it required there.
#[derive(Debug, Clone, PartialEq, Eq)]
pub struct SyntaxError {
    /// Index of the offending token; the token count when input ran out.
    pub pos: usize,
    /// The token that was required here, when one particular token was.
    pub expected: Option<Token>,
}

pub type Parsed<T> = Result<(T, int), SyntaxError>;

pub open spec fn fail<T>(p: int, expected: Option<Token>) -> Parsed<T> {
    Err(SyntaxError { pos: p as usize, expected })
}

pub open spec fn fixed(ls: Seq<Lexeme>, p: int, t: Token) -> bool {
    0 <= p < ls.len() && ls[p] == Lexeme::Fixed(t)
}

pub open spec fn name_at(ls: Seq<Lexeme>, p: int) -> bool {
    0 <= p < ls.len() && ls[p] is Name
}

/// A parse that ended at `q` has consumed input beyond `p`.
pub open spec fn advanced(ls: Seq<Lexeme>, p: int, q: int) -> bool {
    p < q <= ls.len()
}

/// The binding level of a binary operator: comma lowest, multiplicative highest.
pub open spec fn level(op: BinOp) -> nat {
    match op {
        BinOp::Comma => 0,
        BinOp::Or => 1,
        BinOp::And => 2,
        BinOp::BitwiseOr => 3,
        BinOp::BitwiseXor => 4,
        BinOp::BitwiseAnd => 5,
        BinOp::Equal | BinOp::NotEqual => 6,
        BinOp::LessThan | BinOp::LessThanOrEqual | BinOp::GreaterThan
        | BinOp::GreaterThanOrEqual => 7,
        BinOp::BitwiseLeft | BinOp::BitwiseRight => 8,
        BinOp::Addition | BinOp::Subtraction => 9,
        BinOp::Multiplication | BinOp::Division | BinOp::Modulus => 10,
    }
}

pub open spec fn op_at(ls: Seq<Lexeme>, p: int, lv: nat) -> Option<BinOp> {
    if 0 <= p < ls.len() && ls[p] is Fixed {
        match binop_of(ls[p]->Fixed_0) {
            Some(op) => if level(op) == lv {
                Some(op)
            } else {
                None
            },
            None => None,
        }
    } else {
        None
    }
}

/// expression := assignment (`,` assignment)*
pub open spec fn p_expr(ls: Seq<Lexeme>, p: int) -> Parsed<ExprV>
    decreases ls.len() - p, 30int,
{
    if p < 0 || p > ls.len() {
        fail(p, None)
    } else {
        match p_assign(ls, p) {
            Err(e) => Err(e),
            Ok((e, q)) => if advanced(ls, p, q) {
                p_comma_rest(ls, q, e)
            } else {
                fail(p, None)
            },
        }
    }
}

pub open spec fn p_comma_rest(ls: Seq<Lexeme>, p: int, lhs: ExprV) -> Parsed<ExprV>
    decreases ls.len() - p, 0int,
{
    if fixed(ls, p, Token::Comma) {
        match p_assign(ls, p + 1) {
            Err(e) => Err(e),
            Ok((r, q)) => if advanced(ls, p, q) {
                p_comma_rest(ls, q, ExprV::BinOp(BinOp::Comma, Box::new(lhs), Box::new(r)))
            } else {
                fail(p, None)
            },
        }
    } else {
        Ok((lhs, p))
    }
}

/// assignment := name `=` assignment | name `++` | name `--` | ternary
pub open spec fn p_assign(ls: Seq<Lexeme>, p: int) -> Parsed<ExprV>
    decreases ls.len() - p, 25int,
{
    if p < 0 || p > ls.len() {
        fail(p, None)
    } else if name_at(ls, p) && fixed(ls, p + 1, Token::Assign) {
        match p_assign(ls, p + 2) {
            Err(e) => Err(e),
            Ok((v, q)) => Ok((ExprV::Assign(ls[p]->Name_0, Box::new(v)), q)),
        }
    } else if name_at(ls, p) && fixed(ls, p + 1, Token::Increment) {
        let n = ls[p]->Name_0;
        Ok((
            ExprV::AssignPostfix(
                n,
                Box::new(
                    ExprV::BinOp(BinOp::Addition, Box::new(ExprV::Var(n)), Box::new(ExprV::Int(1))),
                ),
            ),
            p + 2,
        ))
    } else if name_at(ls, p) && fixed(ls, p + 1, Token::Decrement) {
        let n = ls[p]->Name_0;
        Ok((
            ExprV::AssignPostfix(
                n,
                Box::new(
                    ExprV::BinOp(
                        BinOp::Subtraction,
                        Box::new(ExprV::Var(n)),
                        Box::new(ExprV::Int(1)),
                    ),
                ),
            ),
            p + 2,
        ))
    } else {
        p_ternary(ls, p)
    }
}

/// ternary := binary(1) [`?` ternary `:` ternary]
pub open spec fn p_ternary(ls: Seq<Lexeme>, p: int) -> Parsed<ExprV>
    decreases ls.len() - p, 24int,
{
    if p < 0 || p > ls.len() {
        fail(p, None)
    } else {
        match p_binary(ls, p, 1) {
            Err(e) => Err(e),
            Ok((c, q)) => if !advanced(ls, p, q) {
                fail(p, None)
            } else if fixed(ls, q, Token::QuestionMark) {
                match p_ternary(ls, q + 1) {
                    Err(e) => Err(e),
                    Ok((t, q2)) => if !advanced(ls, q, q2) {
                        fail(q, None)
                    } else if fixed(ls, q2, Token::Colon) {
                        match p_ternary(ls, q2 + 1) {
                            Err(e) => Err(e),
                            Ok((f, q3)) => Ok(
                                (ExprV::Ternary(Box::new(c), Box::new(t), Box::new(f)), q3),
                            ),
                        }
                    } else {
                        fail(q2, Some(Token::Colon))
                    }
                }
            } else {
                Ok((c, q))
            },
        }
    }
}

/// The operand of a level-`lv` binary operator: the next level up, or a unary
/// expression above the multiplicative level.
pub open spec fn p_operand(ls: Seq<Lexeme>, p: int, lv: nat) -> Parsed<ExprV>
    decreases ls.len() - p, 23 - 2 * lv,
{
    if p < 0 || p > ls.len() || lv > 10 {
        fail(p, None)
    } else if lv == 10 {
        p_unary(ls, p)
    } else {
        p_binary(ls, p, lv + 1)
    }
}

/// binary(lv) := operand(lv) (op(lv) operand(lv))*, left-associative.
pub open spec fn p_binary(ls: Seq<Lexeme>, p: int, lv: nat) -> Parsed<ExprV>
    decreases ls.len() - p, 24 - 2 * lv,
{
    if p < 0 || p > ls.len() || lv > 10 {
        fail(p, None)
    } else {
        match p_operand(ls, p, lv) {
            Err(e) => Err(e),
            Ok((e, q)) => if advanced(ls, p, q) {
                p_binary_rest(ls, q, lv, e)
            } else {
                fail(p, None)
            },
        }
    }
}

pub open spec fn p_binary_rest(ls: Seq<Lexeme>, p: int, lv: nat, lhs: ExprV) -> Parsed<ExprV>
    decreases ls.len() - p, 0int,
{
    if lv > 10 {
        fail(p, None)
    } else {
        match op_at(ls, p, lv) {
            None => Ok((lhs, p)),
            Some(op) => match p_operand(ls, p + 1, lv) {
                Err(e) => Err(e),
                Ok((r, q)) => if advanced(ls, p, q) {
                    p_binary_rest(ls, q, lv, ExprV::BinOp(op, Box::new(lhs), Box::new(r)))
                } else {
                    fail(p, None)
                },
            },
        }
    }
}

/// unary := (`-` | `!` | `~`) unary | `&` name | primary
pub open spec fn p_unary(ls: Seq<Lexeme>, p: int) -> Parsed<ExprV>
    decreases ls.len() - p, 2int,
{
    if p < 0 || p > ls.len() {
        fail(p, None)
    } else if p < ls.len() && ls[p] is Fixed && unop_of(ls[p]->Fixed_0) is Some {
        match p_unary(ls, p + 1) {
            Err(e) => Err(e),
            Ok((x, q)) => Ok((ExprV::UnOp(unop_of(ls[p]->Fixed_0)->0, Box::new(x)), q)),
        }
    } else if fixed(ls, p, Token::BitwiseAnd) && name_at(ls, p + 1) {
        Ok((ExprV::VarRef(ls[p + 1]->Name_0), p + 2))
    } else {
        p_primary(ls, p)
    }
}

/// primary := literal | name `(` arguments | name | `(` expression `)`
pub open spec fn p_primary(ls: Seq<Lexeme>, p: int) -> Parsed<ExprV>
    decreases ls.len() - p, 1int,
{
    if p < 0 || p >= ls.len() {
        fail(p, None)
    } else {
        match literal_of(ls[p]) {
            Some(v) => Ok((v, p + 1)),
            None => if ls[p] is Name {
                p_named(ls, p)
            } else if ls[p] == Lexeme::Fixed(Token::OpenParen) {
                p_group(ls, p)
            } else {
                fail(p, None)
            },
        }
    }
}

/// A name at `p`: a call when a parenthesis follows, else a variable.
pub open spec fn p_named(ls: Seq<Lexeme>, p: int) -> Parsed<ExprV>
    decreases ls.len() - p, 0int,
{
    if !name_at(ls, p) {
        fail(p, None)
    } else if fixed(ls, p + 1, Token::OpenParen) {
        match p_args(ls, p + 2, Seq::empty()) {
            Err(e) => Err(e),
            Ok((args, q)) => Ok((ExprV::Call(ls[p]->Name_0, args), q)),
        }
    } else {
        Ok((ExprV::Var(ls[p]->Name_0), p + 1))
    }
}

/// A parenthesised expression whose opening parenthesis stands at `p`.
pub open spec fn p_group(ls: Seq<Lexeme>, p: int) -> Parsed<ExprV>
    decreases ls.len() - p, 0int,
{
    if !(0 <= p < ls.len()) {
        fail(p, None)
    } else {
        close_group(ls, p_expr(ls, p + 1))
    }
}

/// The closing parenthesis after a parenthesised expression.
pub open spec fn close_group(ls: Seq<Lexeme>, r: Parsed<ExprV>) -> Parsed<ExprV> {
    match r {
        Err(e) => Err(e),
        Ok((e, q)) => if fixed(ls, q, Token::CloseParen) {
            Ok((e, q + 1))
        } else {
            fail(q, Some(Token::CloseParen))
        },
    }
}

/// The literal expression that a lexeme stands for, if any.
pub open spec fn literal_of(l: Lexeme) -> Option<ExprV> {
    match l {
        Lexeme::Fixed(Token::Integer(v)) => Some(ExprV::Int(v)),
        Lexeme::Fixed(Token::Character(v)) => Some(ExprV::Char(v)),
        Lexeme::Fixed(Token::MLStr(v)) => Some(ExprV::MLStr(v)),
        _ => None,
    }
}

/// arguments := `)` | assignment (`,` assignment)* `)`, after the opening parenthesis.
pub open spec fn p_args(ls: Seq<Lexeme>, p: int, acc: Seq<ExprV>) -> Parsed<Seq<ExprV>>
    decreases ls.len() - p, 40int,
{
    if p < 0 || p > ls.len() {
        fail(p, None)
    } else if acc.len() == 0 && fixed(ls, p, Token::CloseParen) {
        Ok((acc, p + 1))
    } else {
        match p_assign(ls, p) {
            Err(e) => Err(e),
            Ok((a, q)) => if !advanced(ls, p, q) {
                fail(p, None)
            } else if fixed(ls, q, Token::Comma) {
                p_args(ls, q + 1, acc.push(a))
            } else if fixed(ls, q, Token::CloseParen) {
                Ok((acc.push(a), q + 1))
            } else {
                fail(q, Some(Token::CloseParen))
            },
        }
    }
}

/// The storage width that a keyword names.
pub open spec fn size_of(ls: Seq<Lexeme>, p: int) -> Option<Size> {
    if fixed(ls, p, Token::KwInt) {
        Some(Size::Int)
    } else if fixed(ls, p, Token::KwByte) {
        Some(Size::Byte)
    } else {
        None
    }
}

/// The value type that a keyword names.
pub open spec fn type_of(ls: Seq<Lexeme>, p: int) -> Option<Type> {
    if fixed(ls, p, Token::KwBool) {
        Some(Type::Bool)
    } else if fixed(ls, p, Token::KwStr) {
        Some(Type::Str)
    } else if fixed(ls, p, Token::KwVoid) {
        Some(Type::Void)
    } else if fixed(ls, p, Token::KwInt) {
        Some(Type::Int)
    } else if fixed(ls, p, Token::KwMlstr) {
        Some(Type::Mlstr)
    } else if fixed(ls, p, Token::KwChar) {
        Some(Type::Char)
    } else {
        None
    }
}

/// statement := `return` expression `;` | `if` `(` expression `)` statement [`else` statement]
///            | `while` `(` expression `)` statement | `{` statement* `}`
///            | size name [`=` assignment] `;` | expression `;`
pub open spec fn p_stmt(ls: Seq<Lexeme>, p: int) -> Parsed<StmtV>
    decreases ls.len() - p, 1int,
{
    if p < 0 || p >= ls.len() {
        fail(p, None)
    } else if fixed(ls, p, Token::Return) {
        match p_expr(ls, p + 1) {
            Err(e) => Err(e),
            Ok((e, q)) => if fixed(ls, q, Token::Semicolon) {
                Ok((StmtV::Return(e), q + 1))
            } else {
                fail(q, Some(Token::Semicolon))
            },
        }
    } else if fixed(ls, p, Token::If) || fixed(ls, p, Token::While) {
        p_cond(ls, p)
    } else if fixed(ls, p, Token::OpenBrace) {
        match p_block(ls, p + 1, Seq::empty()) {
            Err(e) => Err(e),
            Ok((ss, q)) => Ok((StmtV::Compound(ss), q)),
        }
    } else if size_of(ls, p) is Some {
        p_declare(ls, p)
    } else {
        match p_expr(ls, p) {
            Err(e) => Err(e),
            Ok((e, q)) => if fixed(ls, q, Token::Semicolon) {
                Ok((StmtV::Exp(e), q + 1))
            } else {
                fail(q, Some(Token::Semicolon))
            },
        }
    }
}

/// `if` or `while` at `p`, with its parenthesised condition and its body.
pub open spec fn p_cond(ls: Seq<Lexeme>, p: int) -> Parsed<StmtV>
    decreases ls.len() - p, 0int,
{
    if !fixed(ls, p + 1, Token::OpenParen) {
        fail(p + 1, Some(Token::OpenParen))
    } else {
        match p_expr(ls, p + 2) {
            Err(e) => Err(e),
            Ok((c, q)) => if !(advanced(ls, p, q) && fixed(ls, q, Token::CloseParen)) {
                fail(q, Some(Token::CloseParen))
            } else {
                match p_stmt(ls, q + 1) {
                    Err(e) => Err(e),
                    Ok((t, q2)) => if fixed(ls, p, Token::While) {
                        Ok((StmtV::While(c, Box::new(t)), q2))
                    } else if advanced(ls, q, q2) && fixed(ls, q2, Token::Else) {
                        match p_stmt(ls, q2 + 1) {
                            Err(e) => Err(e),
                            Ok((f, q3)) => Ok((StmtV::If(c, Box::new(t), Some(Box::new(f))), q3)),
                        }
                    } else {
                        Ok((StmtV::If(c, Box::new(t), None), q2))
                    },
                }
            },
        }
    }
}

/// The statements of a block up to its closing brace, after those in `acc`.
pub open spec fn p_block(ls: Seq<Lexeme>, p: int, acc: Seq<StmtV>) -> Parsed<Seq<StmtV>>
    decreases ls.len() - p, 2int,
{
    if p < 0 || p >= ls.len() {
        fail(p, Some(Token::CloseBrace))
    } else if fixed(ls, p, Token::CloseBrace) {
        Ok((acc, p + 1))
    } else {
        match p_stmt(ls, p) {
            Err(e) => Err(e),
            Ok((st, q)) => if advanced(ls, p, q) {
                p_block(ls, q, acc.push(st))
            } else {
                fail(p, None)
            },
        }
    }
}

/// size name [`=` assignment] `;`
pub open spec fn p_declare(ls: Seq<Lexeme>, p: int) -> Parsed<StmtV> {
    if size_of(ls, p) is None {
        fail(p, None)
    } else if !name_at(ls, p + 1) {
        fail(p + 1, None)
    } else {
        let v = VarV { name: ls[p + 1]->Name_0, size: size_of(ls, p)->0 };
        if fixed(ls, p + 2, Token::Semicolon) {
            Ok((StmtV::Declare(v, None), p + 3))
        } else if fixed(ls, p + 2, Token::Assign) {
            match p_assign(ls, p + 3) {
                Err(e) => Err(e),
                Ok((e, q)) => if fixed(ls, q, Token::Semicolon) {
                    Ok((StmtV::Declare(v, Some(e)), q + 1))
                } else {
                    fail(q, Some(Token::Semicolon))
                },
            }
        } else {
            fail(p + 2, Some(Token::Semicolon))
        }
    }
}

/// parameters := `)` | size name (`,` size name)* `)`, after the opening parenthesis.
pub open spec fn p_params(ls: Seq<Lexeme>, p: int, acc: Seq<VarV>) -> Parsed<Seq<VarV>>
    decreases ls.len() - p,
{
    if p < 0 || p >= ls.len() {
        fail(p, None)
    } else if acc.len() == 0 && fixed(ls, p, Token::CloseParen) {
        Ok((acc, p + 1))
    } else if size_of(ls, p) is Some && name_at(ls, p + 1) {
        let v = VarV { name: ls[p + 1]->Name_0, size: size_of(ls, p)->0 };
        if fixed(ls, p + 2, Token::Comma) {
            p_params(ls, p + 3, acc.push(v))
        } else if fixed(ls, p + 2, Token::CloseParen) {
            Ok((acc.push(v), p + 3))
        } else {
            fail(p + 2, Some(Token::CloseParen))
        }
    } else {
        fail(p, None)
    }
}

/// function := [`async`] name `(` parameters `:` type `{` statement* `}`
pub open spec fn p_function(ls: Seq<Lexeme>, p: int) -> Parsed<FunctionV> {
    let is_async = fixed(ls, p, Token::Async);
    let s = if is_async {
        p + 1
    } else {
        p
    };
    if !name_at(ls, s) {
        fail(s, None)
    } else if !fixed(ls, s + 1, Token::OpenParen) {
        fail(s + 1, Some(Token::OpenParen))
    } else {
        match p_params(ls, s + 2, Seq::empty()) {
            Err(e) => Err(e),
            Ok((args, q)) => if !fixed(ls, q, Token::Colon) {
                fail(q, Some(Token::Colon))
            } else if type_of(ls, q + 1) is None {
                fail(q + 1, None)
            } else if !fixed(ls, q + 2, Token::OpenBrace) {
                fail(q + 2, Some(Token::OpenBrace))
            } else {
                match p_block(ls, q + 3, Seq::empty()) {
                    Err(e) => Err(e),
                    Ok((body, k)) => Ok(
                        (
                            FunctionV {
                                is_async,
                                name: ls[s]->Name_0,
                                return_type: type_of(ls, q + 1)->0,
                                arguments: args,
                                statements: body,
                            },
                            k,
                        ),
                    ),
                }
            },
        }
    }
}

/// path := name (`.` name)* `;`, after the `import` keyword.
pub open spec fn p_path(ls: Seq<Lexeme>, p: int, acc: Seq<Seq<char>>) -> Parsed<Seq<Seq<char>>>
    decreases ls.len() - p,
{
    if !name_at(ls, p) {
        fail(p, None)
    } else if fixed(ls, p + 1, Token::Dot) {
        p_path(ls, p + 2, acc.push(ls[p]->Name_0))
    } else if fixed(ls, p + 1, Token::Semicolon) {
        Ok((acc.push(ls[p]->Name_0), p + 2))
    } else {
        fail(p + 1, Some(Token::Semicolon))
    }
}

/// Whether a function definition starts at `p` rather than a statement.
pub open spec fn function_starts(ls: Seq<Lexeme>, p: int) -> bool {
    fixed(ls, p, Token::Async) || (name_at(ls, p) && fixed(ls, p + 1, Token::OpenParen) && (fixed(
        ls,
        p + 2,
        Token::KwInt,
    ) || fixed(ls, p + 2, Token::KwByte) || (fixed(ls, p + 2, Token::CloseParen) && fixed(
        ls,
        p + 3,
        Token::Colon,
    ))))
}

/// The items from `p` on, added to `prog`: imports first, then functions and
/// global statements in any order.
pub open spec fn p_items(ls: Seq<Lexeme>, p: int, prog: ProgramV) -> Result<ProgramV, SyntaxError>
    decreases ls.len() - p,
{
    if p < 0 || p >= ls.len() {
        Ok(prog)
    } else if fixed(ls, p, Token::Import) && prog.func.len() == 0 && prog.globals.len() == 0 {
        match p_path(ls, p + 1, Seq::empty()) {
            Err(e) => Err(e),
            Ok((path, q)) => if advanced(ls, p, q) {
                p_items(ls, q, ProgramV { imports: prog.imports.push(path), ..prog })
            } else {
                Err(SyntaxError { pos: p as usize, expected: None })
            },
        }
    } else if function_starts(ls, p) {
        match p_function(ls, p) {
            Err(e) => Err(e),
            Ok((f, q)) => if advanced(ls, p, q) {
                p_items(ls, q, ProgramV { func: prog.func.push(f), ..prog })
            } else {
                Err(SyntaxError { pos: p as usize, expected: None })
            },
        }
    } else {
        match p_stmt(ls, p) {
            Err(e) => Err(e),
            Ok((st, q)) => if advanced(ls, p, q) {
                p_items(ls, q, ProgramV { globals: prog.globals.push(st), ..prog })
            } else {
                Err(SyntaxError { pos: p as usize, expected: None })
            },
        }
    }
}

/// The program that a token sequence spells, or the first error.
pub open spec fn p_program(ls: Seq<Lexeme>) -> Result<ProgramV, SyntaxError> {
    p_items(ls, 0, ProgramV { imports: Seq::empty(), func: Seq::empty(), globals: Seq::empty() })
}

} // verus!
