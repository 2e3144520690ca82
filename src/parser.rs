use crate::grammar::{
    advanced, fail, fixed, function_starts, level, literal_of, name_at, op_at, p_args, p_assign,
    p_binary, p_binary_rest, p_block, p_comma_rest, p_cond, p_declare, p_expr, p_function, p_group,
    p_items, p_named, p_operand, p_params, p_path, p_primary, p_program, p_stmt, p_ternary,
    p_unary, size_of, type_of, SyntaxError, Parsed,
};
use crate::model::{
    expr_view, exprs_view, function_view, functions_view, imports_view, lemma_exprs_view_push,
    lemma_stmts_view_push, names_view, program_view, stmt_view, stmts_view, var_view, vars_view,
    ExprV, FunctionV, ProgramV, StmtV, VarV,
};
use crate::ops::{
    binop_of, BinOp, Expression, Function, Import, Program, Size, Statement, Type, UnOp, Variable,
};
use crate::token::{lexeme_of, lexemes_of, Lexeme, Token};
use vstd::prelude::*;

verus! {

/// An exec result that agrees with a parse of the grammar.
pub open spec fn agrees(r: Result<(Expression, usize), SyntaxError>, s: Parsed<ExprV>) -> bool {
    match (r, s) {
        (Ok((e, q)), Ok((v, k))) => expr_view(e) == v && q == k,
        (Err(a), Err(b)) => a == b,
        _ => false,
    }
}

pub open spec fn lx(toks: &Vec<Token>) -> Seq<Lexeme> {
    lexemes_of(toks@)
}

/// The token `k` places after `p`, if there is one.
fn peek(toks: &Vec<Token>, p: usize, k: usize) -> (r: Option<&Token>)
    requires
        k <= 3,
    ensures
        lx(toks).len() == toks.len(),
        r matches Some(t) ==> p + k < toks.len() && *t == toks@[p + k] && lx(toks)[p + k]
            == lexeme_of(*t),
        r is None ==> p + k >= toks.len(),
{
    if p < toks.len() && toks.len() - p > k {
        Some(&toks[p + k])
    } else {
        None
    }
}

/// The name that the token at `p` holds, if it is an identifier.
fn name_of(toks: &Vec<Token>, p: usize) -> (r: Option<String>)
    ensures
        r is Some <==> name_at(lx(toks), p as int),
        r matches Some(n) ==> n@ == lx(toks)[p as int]->Name_0,
{
    match peek(toks, p, 0) {
        Some(Token::Identifier(n)) => Some(n.clone()),
        _ => None,
    }
}

fn level_of(op: BinOp) -> (r: u8)
    ensures
        r == level(op),
{
    match op {
        BinOp::Comma => 0,
        BinOp::Or => 1,
        BinOp::And => 2,
        BinOp::BitwiseOr => 3,
        BinOp::BitwiseXor => 4,
        BinOp::BitwiseAnd => 5,
        BinOp::Equal | BinOp::NotEqual => 6,
        BinOp::LessThan | BinOp::LessThanOrEqual | BinOp::GreaterThan
        | BinOp::GreaterThanOrEqual => 7,
        BinOp::BitwiseLeft | BinOp::BitwiseRight => 8,
        BinOp::Addition | BinOp::Subtraction => 9,
        BinOp::Multiplication | BinOp::Division | BinOp::Modulus => 10,
    }
}

fn op_at_level(toks: &Vec<Token>, p: usize, lv: u8) -> (r: Option<BinOp>)
    requires
        p <= toks.len(),
    ensures
        r == op_at(lx(toks), p as int, lv as nat),
{
    match peek(toks, p, 0) {
        Some(t) => {
            if matches!(t, Token::Identifier(_)) {
                None
            } else {
                match BinOp::from_token(t.duplicate()) {
                    Ok(op) => if level_of(op) == lv {
                        Some(op)
                    } else {
                        None
                    },
                    Err(_) => None,
                }
            }
        },
        None => None,
    }
}

#[verifier::spinoff_prover]
pub fn parse_expr(toks: &Vec<Token>, p: usize) -> (r: Result<(Expression, usize), SyntaxError>)
    requires
        p <= toks.len(),
    ensures
        agrees(r, p_expr(lx(toks), p as int)),
        r matches Ok((_, q)) ==> p < q <= toks.len(),
    decreases toks.len() - p, 30int,
{
    let (mut lhs, mut q) = match parse_assign(toks, p) {
        Err(e) => return Err(e),
        Ok(x) => x,
    };
    if !(p < q && q <= toks.len()) {
        return Err(SyntaxError { pos: p, expected: None });
    }
    loop
        invariant
            p < q <= toks.len(),
            p_expr(lx(toks), p as int) == p_comma_rest(lx(toks), q as int, expr_view(lhs)),
        decreases toks.len() - q,
    {
        if !matches!(peek(toks, q, 0), Some(Token::Comma)) {
            return Ok((lhs, q));
        }
        let (r, q2) = match parse_assign(toks, q + 1) {
            Err(e) => return Err(e),
            Ok(x) => x,
        };
        if !(q < q2 && q2 <= toks.len()) {
            return Err(SyntaxError { pos: q, expected: None });
        }
        lhs = Expression::BinOp(BinOp::Comma, Box::new(lhs), Box::new(r));
        q = q2;
    }
}

fn parse_assign(toks: &Vec<Token>, p: usize) -> (r: Result<(Expression, usize), SyntaxError>)
    requires
        p <= toks.len(),
    ensures
        agrees(r, p_assign(lx(toks), p as int)),
    decreases toks.len() - p, 25int,
{
    if let Some(n) = name_of(toks, p) {
        match peek(toks, p, 1) {
            Some(Token::Assign) => {
                return match parse_assign(toks, p + 2) {
                    Err(e) => Err(e),
                    Ok((v, q)) => Ok((Expression::Assign(n, Box::new(v)), q)),
                };
            },
            Some(Token::Increment) => {
                let step = Expression::BinOp(
                    BinOp::Addition,
                    Box::new(Expression::Variable(n.clone())),
                    Box::new(Expression::Int(1)),
                );
                proof {
                    reveal_with_fuel(expr_view, 3);
                }
                return Ok((Expression::AssignPostfix(n, Box::new(step)), p + 2));
            },
            Some(Token::Decrement) => {
                let step = Expression::BinOp(
                    BinOp::Subtraction,
                    Box::new(Expression::Variable(n.clone())),
                    Box::new(Expression::Int(1)),
                );
                proof {
                    reveal_with_fuel(expr_view, 3);
                }
                return Ok((Expression::AssignPostfix(n, Box::new(step)), p + 2));
            },
            _ => {},
        }
    }
    parse_ternary(toks, p)
}

fn parse_ternary(toks: &Vec<Token>, p: usize) -> (r: Result<(Expression, usize), SyntaxError>)
    requires
        p <= toks.len(),
    ensures
        agrees(r, p_ternary(lx(toks), p as int)),
    decreases toks.len() - p, 24int,
{
    let (c, q) = match parse_binary(toks, p, 1) {
        Err(e) => return Err(e),
        Ok(x) => x,
    };
    if !(p < q && q <= toks.len()) {
        return Err(SyntaxError { pos: p, expected: None });
    }
    if !matches!(peek(toks, q, 0), Some(Token::QuestionMark)) {
        return Ok((c, q));
    }
    let (t, q2) = match parse_ternary(toks, q + 1) {
        Err(e) => return Err(e),
        Ok(x) => x,
    };
    if !(q < q2 && q2 <= toks.len()) {
        return Err(SyntaxError { pos: q, expected: None });
    }
    if !matches!(peek(toks, q2, 0), Some(Token::Colon)) {
        return Err(SyntaxError { pos: q2, expected: Some(Token::Colon) });
    }
    match parse_ternary(toks, q2 + 1) {
        Err(e) => Err(e),
        Ok((f, q3)) => Ok((Expression::Ternary(Box::new(c), Box::new(t), Box::new(f)), q3)),
    }
}

fn parse_operand(toks: &Vec<Token>, p: usize, lv: u8) -> (r: Result<
    (Expression, usize),
    SyntaxError,
>)
    requires
        p <= toks.len(),
        1 <= lv <= 10,
    ensures
        agrees(r, p_operand(lx(toks), p as int, lv as nat)),
    decreases toks.len() - p, 23 - 2 * lv,
{
    if lv == 10 {
        parse_unary(toks, p)
    } else {
        parse_binary(toks, p, lv + 1)
    }
}

fn parse_binary(toks: &Vec<Token>, p: usize, lv: u8) -> (r: Result<
    (Expression, usize),
    SyntaxError,
>)
    requires
        p <= toks.len(),
        1 <= lv <= 10,
    ensures
        agrees(r, p_binary(lx(toks), p as int, lv as nat)),
    decreases toks.len() - p, 24 - 2 * lv,
{
    let (mut lhs, mut q) = match parse_operand(toks, p, lv) {
        Err(e) => return Err(e),
        Ok(x) => x,
    };
    if !(p < q && q <= toks.len()) {
        return Err(SyntaxError { pos: p, expected: None });
    }
    loop
        invariant
            p < q <= toks.len(),
            1 <= lv <= 10,
            p_binary(lx(toks), p as int, lv as nat) == p_binary_rest(
                lx(toks),
                q as int,
                lv as nat,
                expr_view(lhs),
            ),
        decreases toks.len() - q,
    {
        let op = match op_at_level(toks, q, lv) {
            None => return Ok((lhs, q)),
            Some(op) => op,
        };
        let (r, q2) = match parse_operand(toks, q + 1, lv) {
            Err(e) => return Err(e),
            Ok(x) => x,
        };
        if !(q < q2 && q2 <= toks.len()) {
            return Err(SyntaxError { pos: q, expected: None });
        }
        lhs = Expression::BinOp(op, Box::new(lhs), Box::new(r));
        q = q2;
    }
}

fn parse_unary(toks: &Vec<Token>, p: usize) -> (r: Result<(Expression, usize), SyntaxError>)
    requires
        p <= toks.len(),
    ensures
        agrees(r, p_unary(lx(toks), p as int)),
    decreases toks.len() - p, 2int,
{
    if let Some(t) = peek(toks, p, 0) {
        if !matches!(t, Token::Identifier(_)) {
            if let Ok(op) = UnOp::from_token(t.duplicate()) {
                return match parse_unary(toks, p + 1) {
                    Err(e) => Err(e),
                    Ok((x, q)) => Ok((Expression::UnOp(op, Box::new(x)), q)),
                };
            }
        }
        if matches!(t, Token::BitwiseAnd) {
            if let Some(n) = name_of(toks, p + 1) {
                return Ok((Expression::VariableRef(n), p + 2));
            }
        }
    }
    parse_primary(toks, p)
}

fn parse_primary(toks: &Vec<Token>, p: usize) -> (r: Result<(Expression, usize), SyntaxError>)
    requires
        p <= toks.len(),
    ensures
        agrees(r, p_primary(lx(toks), p as int)),
    decreases toks.len() - p, 1int,
{
    let t = match peek(toks, p, 0) {
        None => return Err(SyntaxError { pos: p, expected: None }),
        Some(t) => t,
    };
    let ghost ls = lx(toks);
    if let Some(e) = literal_at(t) {
        return Ok((e, p + 1));
    }
    assert(literal_of(ls[p as int]) is None);
    if matches!(t, Token::Identifier(_)) {
        return parse_named(toks, p);
    }
    if matches!(t, Token::OpenParen) {
        return parse_group(toks, p);
    }
    Err(SyntaxError { pos: p, expected: None })
}

fn parse_named(toks: &Vec<Token>, p: usize) -> (r: Result<(Expression, usize), SyntaxError>)
    requires
        p <= toks.len(),
    ensures
        agrees(r, p_named(lx(toks), p as int)),
    decreases toks.len() - p, 0int,
{
    let n = match name_of(toks, p) {
        None => return Err(SyntaxError { pos: p, expected: None }),
        Some(n) => n,
    };
    if !matches!(peek(toks, p, 1), Some(Token::OpenParen)) {
        return Ok((Expression::Variable(n), p + 1));
    }
    match parse_args(toks, p + 2) {
        Err(e) => Err(e),
        Ok((args, q)) => Ok((Expression::FunctionCall(n, args), q)),
    }
}

#[verifier::spinoff_prover]
#[verifier::rlimit(100)]
fn parse_group(toks: &Vec<Token>, p: usize) -> (r: Result<(Expression, usize), SyntaxError>)
    requires
        p <= toks.len(),
    ensures
        agrees(r, p_group(lx(toks), p as int)),
    decreases toks.len() - p, 0int,
{
    if let None = peek(toks, p, 0) {
        return Err(SyntaxError { pos: p, expected: None });
    }
    let (e, q) = match parse_expr(toks, p + 1) {
        Err(e) => return Err(e),
        Ok(x) => x,
    };
    if matches!(peek(toks, q, 0), Some(Token::CloseParen)) {
        Ok((e, q + 1))
    } else {
        Err(SyntaxError { pos: q, expected: Some(Token::CloseParen) })
    }
}

fn literal_at(t: &Token) -> (r: Option<Expression>)
    ensures
        r is Some <==> literal_of(lexeme_of(*t)) is Some,
        r matches Some(e) ==> literal_of(lexeme_of(*t)) == Some(expr_view(e)),
{
    match t {
        Token::Integer(v) => Some(Expression::Int(*v)),
        Token::Character(v) => Some(Expression::Char(*v)),
        Token::MLStr(v) => Some(Expression::MLStr(*v)),
        _ => None,
    }
}

/// The arguments of a call, from just after its opening parenthesis.
fn parse_args(toks: &Vec<Token>, p: usize) -> (r: Result<(Vec<Expression>, usize), SyntaxError>)
    requires
        p <= toks.len(),
    ensures
        match (r, p_args(lx(toks), p as int, Seq::empty())) {
            (Ok((v, q)), Ok((a, k))) => exprs_view(v@) == a && q == k,
            (Err(x), Err(y)) => x == y,
            _ => false,
        },
    decreases toks.len() - p, 40int,
{
    let mut args: Vec<Expression> = Vec::new();
    let mut q = p;
    proof {
        lemma_exprs_view_push(args@, Expression::Int(0));
        assert(exprs_view(args@) =~= Seq::<ExprV>::empty());
    }
    loop
        invariant
            p <= q <= toks.len(),
            q == p || args.len() > 0,
            p_args(lx(toks), p as int, Seq::empty()) == p_args(
                lx(toks),
                q as int,
                exprs_view(args@),
            ),
        decreases toks.len() - q,
    {
        proof {
            lemma_exprs_view_push(args@, Expression::Int(0));
        }
        if args.len() == 0 && matches!(peek(toks, q, 0), Some(Token::CloseParen)) {
            return Ok((args, q + 1));
        }
        let (a, q2) = match parse_assign(toks, q) {
            Err(e) => return Err(e),
            Ok(x) => x,
        };
        if !(q < q2 && q2 <= toks.len()) {
            return Err(SyntaxError { pos: q, expected: None });
        }
        proof {
            lemma_exprs_view_push(args@, a);
        }
        if matches!(peek(toks, q2, 0), Some(Token::Comma)) {
            args.push(a);
            q = q2 + 1;
        } else if matches!(peek(toks, q2, 0), Some(Token::CloseParen)) {
            args.push(a);
            return Ok((args, q2 + 1));
        } else {
            return Err(SyntaxError { pos: q2, expected: Some(Token::CloseParen) });
        }
    }
}

pub open spec fn stmt_agrees(r: Result<(Statement, usize), SyntaxError>, s: Parsed<StmtV>) -> bool {
    match (r, s) {
        (Ok((st, q)), Ok((v, k))) => stmt_view(st) == v && q == k,
        (Err(a), Err(b)) => a == b,
        _ => false,
    }
}

fn size_at(toks: &Vec<Token>, p: usize) -> (r: Option<Size>)
    ensures
        r == size_of(lx(toks), p as int),
{
    match peek(toks, p, 0) {
        Some(Token::KwInt) => Some(Size::Int),
        Some(Token::KwByte) => Some(Size::Byte),
        _ => None,
    }
}

fn type_at(toks: &Vec<Token>, p: usize) -> (r: Option<Type>)
    ensures
        r == type_of(lx(toks), p as int),
{
    match peek(toks, p, 0) {
        Some(Token::KwBool) => Some(Type::Bool),
        Some(Token::KwStr) => Some(Type::Str),
        Some(Token::KwVoid) => Some(Type::Void),
        Some(Token::KwInt) => Some(Type::Int),
        Some(Token::KwMlstr) => Some(Type::Mlstr),
        Some(Token::KwChar) => Some(Type::Char),
        _ => None,
    }
}

#[verifier::spinoff_prover]
#[verifier::rlimit(100)]
pub fn parse_stmt(toks: &Vec<Token>, p: usize) -> (r: Result<(Statement, usize), SyntaxError>)
    requires
        p <= toks.len(),
    ensures
        stmt_agrees(r, p_stmt(lx(toks), p as int)),
    decreases toks.len() - p, 1int,
{
    let t = match peek(toks, p, 0) {
        None => return Err(SyntaxError { pos: p, expected: None }),
        Some(t) => t,
    };
    if matches!(t, Token::Return) {
        let (e, q) = match parse_expr(toks, p + 1) {
            Err(e) => return Err(e),
            Ok(x) => x,
        };
        return if matches!(peek(toks, q, 0), Some(Token::Semicolon)) {
            Ok((Statement::Return(e), q + 1))
        } else {
            Err(SyntaxError { pos: q, expected: Some(Token::Semicolon) })
        };
    }
    if matches!(t, Token::If) || matches!(t, Token::While) {
        return parse_cond(toks, p);
    }
    if matches!(t, Token::OpenBrace) {
        return match parse_block(toks, p + 1) {
            Err(e) => Err(e),
            Ok((ss, q)) => {
                proof {
                    assert(stmt_view(Statement::Compound(ss)) == StmtV::Compound(stmts_view(ss@)));
                }
                Ok((Statement::Compound(ss), q))
            },
        };
    }
    if size_at(toks, p).is_some() {
        return parse_declare(toks, p);
    }
    let (e, q) = match parse_expr(toks, p) {
        Err(e) => return Err(e),
        Ok(x) => x,
    };
    if matches!(peek(toks, q, 0), Some(Token::Semicolon)) {
        Ok((Statement::Exp(e), q + 1))
    } else {
        Err(SyntaxError { pos: q, expected: Some(Token::Semicolon) })
    }
}

fn parse_cond(toks: &Vec<Token>, p: usize) -> (r: Result<(Statement, usize), SyntaxError>)
    requires
        p < toks.len(),
    ensures
        stmt_agrees(r, p_cond(lx(toks), p as int)),
    decreases toks.len() - p, 0int,
{
    let is_while = matches!(peek(toks, p, 0), Some(Token::While));
    if !matches!(peek(toks, p, 1), Some(Token::OpenParen)) {
        return Err(SyntaxError { pos: p + 1, expected: Some(Token::OpenParen) });
    }
    let (c, q) = match parse_expr(toks, p + 2) {
        Err(e) => return Err(e),
        Ok(x) => x,
    };
    if !matches!(peek(toks, q, 0), Some(Token::CloseParen)) {
        return Err(SyntaxError { pos: q, expected: Some(Token::CloseParen) });
    }
    let (body, q2) = match parse_stmt(toks, q + 1) {
        Err(e) => return Err(e),
        Ok(x) => x,
    };
    if is_while {
        return Ok((Statement::While(c, Box::new(body)), q2));
    }
    if q < q2 && q2 <= toks.len() && matches!(peek(toks, q2, 0), Some(Token::Else)) {
        return match parse_stmt(toks, q2 + 1) {
            Err(e) => Err(e),
            Ok((f, q3)) => Ok((Statement::If(c, Box::new(body), Some(Box::new(f))), q3)),
        };
    }
    Ok((Statement::If(c, Box::new(body), None), q2))
}

/// The statements of a block from just after its opening brace.
pub fn parse_block(toks: &Vec<Token>, p: usize) -> (r: Result<(Vec<Statement>, usize), SyntaxError>)
    requires
        p <= toks.len(),
    ensures
        match (r, p_block(lx(toks), p as int, Seq::empty())) {
            (Ok((v, q)), Ok((a, k))) => stmts_view(v@) == a && q == k,
            (Err(x), Err(y)) => x == y,
            _ => false,
        },
    decreases toks.len() - p, 2int,
{
    let mut out: Vec<Statement> = Vec::new();
    let mut q = p;
    proof {
        lemma_stmts_view_push(out@, Statement::Exp(Expression::Int(0)));
        assert(stmts_view(out@) =~= Seq::<StmtV>::empty());
    }
    loop
        invariant
            p <= q <= toks.len(),
            p_block(lx(toks), p as int, Seq::empty()) == p_block(
                lx(toks),
                q as int,
                stmts_view(out@),
            ),
        decreases toks.len() - q,
    {
        match peek(toks, q, 0) {
            None => return Err(SyntaxError { pos: q, expected: Some(Token::CloseBrace) }),
            Some(Token::CloseBrace) => return Ok((out, q + 1)),
            _ => {},
        }
        let (st, q2) = match parse_stmt(toks, q) {
            Err(e) => return Err(e),
            Ok(x) => x,
        };
        if !(q < q2 && q2 <= toks.len()) {
            return Err(SyntaxError { pos: q, expected: None });
        }
        proof {
            lemma_stmts_view_push(out@, st);
        }
        out.push(st);
        q = q2;
    }
}

fn parse_declare(toks: &Vec<Token>, p: usize) -> (r: Result<(Statement, usize), SyntaxError>)
    requires
        p <= toks.len(),
    ensures
        stmt_agrees(r, p_declare(lx(toks), p as int)),
{
    let size = match size_at(toks, p) {
        None => return Err(SyntaxError { pos: p, expected: None }),
        Some(s) => s,
    };
    let name = match name_of(toks, p + 1) {
        None => return Err(SyntaxError { pos: p + 1, expected: None }),
        Some(n) => n,
    };
    let v = Variable { name, size };
    if matches!(peek(toks, p, 2), Some(Token::Semicolon)) {
        return Ok((Statement::Declare(v, None), p + 3));
    }
    if !matches!(peek(toks, p, 2), Some(Token::Assign)) {
        return Err(SyntaxError { pos: p + 2, expected: Some(Token::Semicolon) });
    }
    match parse_assign(toks, p + 3) {
        Err(e) => Err(e),
        Ok((e, q)) => if matches!(peek(toks, q, 0), Some(Token::Semicolon)) {
            Ok((Statement::Declare(v, Some(e)), q + 1))
        } else {
            Err(SyntaxError { pos: q, expected: Some(Token::Semicolon) })
        },
    }
}

fn parse_params(toks: &Vec<Token>, p: usize) -> (r: Result<(Vec<Variable>, usize), SyntaxError>)
    requires
        p <= toks.len(),
    ensures
        match (r, p_params(lx(toks), p as int, Seq::empty())) {
            (Ok((v, q)), Ok((a, k))) => vars_view(v@) == a && q == k,
            (Err(x), Err(y)) => x == y,
            _ => false,
        },
{
    let mut out: Vec<Variable> = Vec::new();
    let mut q = p;
    proof {
        assert(vars_view(out@) =~= Seq::<VarV>::empty());
    }
    loop
        invariant
            p <= q <= toks.len(),
            p_params(lx(toks), p as int, Seq::empty()) == p_params(
                lx(toks),
                q as int,
                vars_view(out@),
            ),
        decreases toks.len() - q,
    {
        if peek(toks, q, 0).is_none() {
            return Err(SyntaxError { pos: q, expected: None });
        }
        if out.len() == 0 && matches!(peek(toks, q, 0), Some(Token::CloseParen)) {
            return Ok((out, q + 1));
        }
        let size = match size_at(toks, q) {
            None => return Err(SyntaxError { pos: q, expected: None }),
            Some(s) => s,
        };
        let name = match name_of(toks, q + 1) {
            None => return Err(SyntaxError { pos: q, expected: None }),
            Some(n) => n,
        };
        let v = Variable { name, size };
        let ghost old_out = out@;
        out.push(v);
        proof {
            assert(vars_view(out@) =~= vars_view(old_out).push(var_view(v)));
        }
        if matches!(peek(toks, q, 2), Some(Token::Comma)) {
            q = q + 3;
        } else if matches!(peek(toks, q, 2), Some(Token::CloseParen)) {
            return Ok((out, q + 3));
        } else {
            return Err(SyntaxError { pos: q + 2, expected: Some(Token::CloseParen) });
        }
    }
}

pub fn parse_function(toks: &Vec<Token>, p: usize) -> (r: Result<(Function, usize), SyntaxError>)
    requires
        p <= toks.len(),
    ensures
        match (r, p_function(lx(toks), p as int)) {
            (Ok((f, q)), Ok((v, k))) => function_view(f) == v && q == k,
            (Err(x), Err(y)) => x == y,
            _ => false,
        },
{
    let is_async = matches!(peek(toks, p, 0), Some(Token::Async));
    let s = if is_async {
        p + 1
    } else {
        p
    };
    let name = match name_of(toks, s) {
        None => return Err(SyntaxError { pos: s, expected: None }),
        Some(n) => n,
    };
    if !matches!(peek(toks, s, 1), Some(Token::OpenParen)) {
        return Err(SyntaxError { pos: s + 1, expected: Some(Token::OpenParen) });
    }
    let (arguments, q) = match parse_params(toks, s + 2) {
        Err(e) => return Err(e),
        Ok(x) => x,
    };
    if !matches!(peek(toks, q, 0), Some(Token::Colon)) {
        return Err(SyntaxError { pos: q, expected: Some(Token::Colon) });
    }
    let return_type = match type_at(toks, q + 1) {
        None => return Err(SyntaxError { pos: q + 1, expected: None }),
        Some(t) => t,
    };
    if !matches!(peek(toks, q, 2), Some(Token::OpenBrace)) {
        return Err(SyntaxError { pos: q + 2, expected: Some(Token::OpenBrace) });
    }
    match parse_block(toks, q + 3) {
        Err(e) => Err(e),
        Ok((statements, k)) => Ok(
            (Function { is_async, name, return_type, arguments, statements }, k),
        ),
    }
}

fn parse_path(toks: &Vec<Token>, p: usize) -> (r: Result<(Vec<String>, usize), SyntaxError>)
    requires
        p <= toks.len(),
    ensures
        match (r, p_path(lx(toks), p as int, Seq::empty())) {
            (Ok((v, q)), Ok((a, k))) => names_view(v@) == a && q == k,
            (Err(x), Err(y)) => x == y,
            _ => false,
        },
{
    let mut out: Vec<String> = Vec::new();
    let mut q = p;
    proof {
        assert(names_view(out@) =~= Seq::<Seq<char>>::empty());
    }
    loop
        invariant
            p <= q <= toks.len(),
            p_path(lx(toks), p as int, Seq::empty()) == p_path(
                lx(toks),
                q as int,
                names_view(out@),
            ),
        decreases toks.len() - q,
    {
        let name = match name_of(toks, q) {
            None => return Err(SyntaxError { pos: q, expected: None }),
            Some(n) => n,
        };
        let ghost old_out = out@;
        let ghost nv = name@;
        out.push(name);
        proof {
            assert(names_view(out@) =~= names_view(old_out).push(nv));
        }
        if matches!(peek(toks, q, 1), Some(Token::Dot)) {
            q = q + 2;
        } else if matches!(peek(toks, q, 1), Some(Token::Semicolon)) {
            return Ok((out, q + 2));
        } else {
            return Err(SyntaxError { pos: q + 1, expected: Some(Token::Semicolon) });
        }
    }
}

fn function_starts_at(toks: &Vec<Token>, p: usize) -> (r: bool)
    ensures
        r == function_starts(lx(toks), p as int),
{
    if matches!(peek(toks, p, 0), Some(Token::Async)) {
        return true;
    }
    if !(matches!(peek(toks, p, 0), Some(Token::Identifier(_))) && matches!(
        peek(toks, p, 1),
        Some(Token::OpenParen),
    )) {
        return false;
    }
    match peek(toks, p, 2) {
        Some(Token::KwInt) | Some(Token::KwByte) => true,
        Some(Token::CloseParen) => matches!(peek(toks, p, 3), Some(Token::Colon)),
        _ => false,
    }
}

/// Builds the program that a token sequence spells.
#[verifier::spinoff_prover]
#[verifier::rlimit(100)]
pub fn parse_program(toks: &Vec<Token>) -> (r: Result<Program, SyntaxError>)
    ensures
        match (r, p_program(lx(toks))) {
            (Ok(pr), Ok(v)) => program_view(pr) == v,
            (Err(x), Err(y)) => x == y,
            _ => false,
        },
{
    let mut prog = Program { imports: Vec::new(), func: Vec::new(), globals: Vec::new() };
    let mut q: usize = 0;
    proof {
        assert(imports_view(prog.imports@) =~= Seq::empty());
        assert(functions_view(prog.func@) =~= Seq::empty());
        lemma_stmts_view_push(prog.globals@, Statement::Exp(Expression::Int(0)));
        assert(stmts_view(prog.globals@) =~= Seq::empty());
        assert(program_view(prog) == (ProgramV {
            imports: Seq::empty(),
            func: Seq::empty(),
            globals: Seq::empty(),
        }));
    }
    loop
        invariant
            q <= toks.len(),
            p_program(lx(toks)) == p_items(lx(toks), q as int, program_view(prog)),
        decreases toks.len() - q,
    {
        if q >= toks.len() {
            return Ok(prog);
        }
        proof {
            lemma_stmts_view_push(prog.globals@, Statement::Exp(Expression::Int(0)));
        }
        let ghost before = program_view(prog);
        if matches!(peek(toks, q, 0), Some(Token::Import)) && prog.func.len() == 0
            && prog.globals.len() == 0 {
            let (path, q2) = match parse_path(toks, q + 1) {
                Err(e) => return Err(e),
                Ok(x) => x,
            };
            if !(q < q2 && q2 <= toks.len()) {
                return Err(SyntaxError { pos: q, expected: None });
            }
            let ghost old_imports = prog.imports@;
            let imp = Import { name: path };
            prog.imports.push(imp);
            proof {
                assert(imports_view(prog.imports@) =~= imports_view(old_imports).push(
                    names_view(imp.name@),
                ));
            }
            q = q2;
        } else if function_starts_at(toks, q) {
            let (f, q2) = match parse_function(toks, q) {
                Err(e) => return Err(e),
                Ok(x) => x,
            };
            if !(q < q2 && q2 <= toks.len()) {
                return Err(SyntaxError { pos: q, expected: None });
            }
            let ghost old_func = prog.func@;
            let ghost fv = function_view(f);
            prog.func.push(f);
            proof {
                assert(functions_view(prog.func@) =~= functions_view(old_func).push(fv));
            }
            q = q2;
        } else {
            let (st, q2) = match parse_stmt(toks, q) {
                Err(e) => return Err(e),
                Ok(x) => x,
            };
            if !(q < q2 && q2 <= toks.len()) {
                return Err(SyntaxError { pos: q, expected: None });
            }
            proof {
                lemma_stmts_view_push(prog.globals@, st);
            }
            prog.globals.push(st);
            q = q2;
        }
    }
}

/// A token that does not fit the grammar where it stands.
#[derive(Debug, Clone, PartialEq, Eq)]
pub struct ParseError {
    /// Index of the offending token; the token count when input ran out.
    pub pos: usize,
    /// The token that was required here, when one particular token was.
    pub expected: Option<Token>,
    /// The token met at `pos`; `None` at the end of input.
    pub found: Option<Token>,
}

/// The token at index `p`, if there is one.
pub open spec fn token_at(ts: Seq<Token>, p: int) -> Option<Token> {
    if 0 <= p < ts.len() {
        Some(ts[p])
    } else {
        None
    }
}

/// `x` reports the grammar's error `e` on the tokens `ts`.
pub open spec fn reports(x: ParseError, e: SyntaxError, ts: Seq<Token>) -> bool {
    x.pos == e.pos && x.expected == e.expected && x.found == token_at(ts, e.pos as int)
}

/// A parser over one token sequence; it keeps no state between parses.
pub struct Parser {
    pub tokens: Vec<Token>,
}

impl Parser {
    pub fn new(tokens: Vec<Token>) -> (r: Parser)
        ensures
            r.tokens == tokens,
    {
        Parser { tokens }
    }

    /// The program that the tokens spell, or the first token that does not fit.
    pub fn parse(&self) -> (r: Result<Program, ParseError>)
        ensures
            match (r, p_program(lexemes_of(self.tokens@))) {
                (Ok(pr), Ok(v)) => program_view(pr) == v,
                (Err(x), Err(e)) => reports(x, e, self.tokens@),
                _ => false,
            },
    {
        match parse_program(&self.tokens) {
            Ok(p) => Ok(p),
            Err(e) => {
                let found = if e.pos < self.tokens.len() {
                    Some(self.tokens[e.pos].duplicate())
                } else {
                    None
                };
                Err(ParseError { pos: e.pos, expected: e.expected, found })
            },
        }
    }
}

/// Parsing is a function of the tokens: two programs that both meet the
/// contract of `parse` on one token sequence have the same structure.
pub proof fn lemma_parse_deterministic(toks: Seq<Token>, a: Program, b: Program)
    requires
        p_program(lexemes_of(toks)) == Ok::<ProgramV, SyntaxError>(program_view(a)),
        p_program(lexemes_of(toks)) == Ok::<ProgramV, SyntaxError>(program_view(b)),
    ensures
        program_view(a) == program_view(b),
{
}

} // verus!
