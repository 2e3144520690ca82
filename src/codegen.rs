use crate::model::{
    expr_view, exprs_view, function_view, functions_view, imports_view, lemma_exprs_view_prefix,
    lemma_exprs_view_push, lemma_stmts_view_prefix,
    lemma_stmts_view_push, names_view, program_view, stmt_view, stmts_view, var_view, vars_view,
    ExprV, FunctionV, ProgramV, StmtV, VarV,
};
use crate::ops::{BinOp, Expression, Function, Program, Size, Statement, Type, UnOp, Variable};
use vstd::prelude::*;
use vstd::string::StringExecFns;

verus! {

broadcast use {vstd::std_specs::vec::group_vec_axioms, vstd::seq::group_seq_axioms};

/// A node that has no translation into the target language.
#[derive(Debug, Clone, Copy, PartialEq, Eq, Structural)]
pub enum CodegenError {
    /// A multi-line string literal, of which only its code is kept.
    UnsupportedLiteral(u64),
}

/// How functions marked `async` are emitted.
#[derive(Debug, Clone, Copy, PartialEq, Eq, Structural)]
pub enum AsyncMode {
    /// As `async fn`.
    Native,
    /// As plain functions, each preceded by a comment that records the marker.
    Blocking,
}

pub open spec fn digit_char(d: nat) -> char {
    if d == 0 { '0' } else if d == 1 { '1' } else if d == 2 { '2' } else if d == 3 { '3' }
    else if d == 4 { '4' } else if d == 5 { '5' } else if d == 6 { '6' } else if d == 7 { '7' }
    else if d == 8 { '8' } else { '9' }
}

/// The decimal digits of `n`, without leading zeros.
pub open spec fn decimal(n: nat) -> Seq<char>
    decreases n,
{
    if n < 10 {
        seq![digit_char(n)]
    } else {
        decimal(n / 10).push(digit_char(n % 10))
    }
}

pub open spec fn size_text(s: Size) -> Seq<char> {
    match s {
        Size::Int => "i64"@,
        Size::Byte => "u8"@,
    }
}

pub open spec fn type_text(t: Type) -> Seq<char> {
    match t {
        Type::Bool => "bool"@,
        Type::Str => "String"@,
        Type::Void => "()"@,
        Type::Int => "i64"@,
        Type::Mlstr => "&'static str"@,
        Type::Char => "char"@,
    }
}

/// The target operator of an arithmetic or bitwise operator.
pub open spec fn arith_text(op: BinOp) -> Seq<char> {
    match op {
        BinOp::Addition => " + "@,
        BinOp::Subtraction => " - "@,
        BinOp::Multiplication => " * "@,
        BinOp::Division => " / "@,
        BinOp::Modulus => " % "@,
        BinOp::LessThan => " < "@,
        BinOp::LessThanOrEqual => " <= "@,
        BinOp::GreaterThan => " > "@,
        BinOp::GreaterThanOrEqual => " >= "@,
        BinOp::Equal => " == "@,
        BinOp::NotEqual => " != "@,
        BinOp::BitwiseLeft => " << "@,
        BinOp::BitwiseRight => " >> "@,
        BinOp::BitwiseAnd => " & "@,
        BinOp::BitwiseXor => " ^ "@,
        BinOp::BitwiseOr => " | "@,
        BinOp::And => " != 0) && ("@,
        BinOp::Or => " != 0) || ("@,
        BinOp::Comma => "; "@,
    }
}

/// Comparisons and logical operators yield `bool` in the target, turned back into an integer.
pub open spec fn is_boolean(op: BinOp) -> bool {
    match op {
        BinOp::LessThan | BinOp::LessThanOrEqual | BinOp::GreaterThan
        | BinOp::GreaterThanOrEqual | BinOp::Equal | BinOp::NotEqual => true,
        _ => false,
    }
}

/// The text of a binary operation on the translated operands `l` and `r`.
pub open spec fn binop_text(op: BinOp, l: Seq<char>, r: Seq<char>) -> Seq<char> {
    if op == BinOp::Comma {
        "{ "@ + l + "; "@ + r + " }"@
    } else if op == BinOp::And || op == BinOp::Or {
        "(((" @ + l + arith_text(op) + r + " != 0)) as i64)"@
    } else if is_boolean(op) {
        "((" @ + l + arith_text(op) + r + ") as i64)"@
    } else {
        "("@ + l + arith_text(op) + r + ")"@
    }
}

pub open spec fn unop_text(op: UnOp, x: Seq<char>) -> Seq<char> {
    match op {
        UnOp::Negation => "(-"@ + x + ")"@,
        UnOp::BitComp => "(!"@ + x + ")"@,
        UnOp::LogicalNeg => "(("@ + x + " == 0) as i64)"@,
    }
}

/// The target text of an expression.
pub open spec fn gen_expr(e: ExprV) -> Result<Seq<char>, CodegenError>
    decreases e,
{
    match e {
        ExprV::BinOp(op, l, r) => match (gen_expr(*l), gen_expr(*r)) {
            (Ok(a), Ok(b)) => Ok(binop_text(op, a, b)),
            (Err(x), _) => Err(x),
            (_, Err(x)) => Err(x),
        },
        ExprV::UnOp(op, x) => match gen_expr(*x) {
            Ok(a) => Ok(unop_text(op, a)),
            Err(x) => Err(x),
        },
        ExprV::Int(v) => Ok(decimal(v as nat)),
        ExprV::Char(v) => Ok(decimal(v as nat)),
        ExprV::MLStr(v) => Err(CodegenError::UnsupportedLiteral(v)),
        ExprV::Call(n, args) => match gen_args(args) {
            Ok(a) => Ok(n + "("@ + a + ")"@),
            Err(x) => Err(x),
        },
        ExprV::Var(n) => Ok(n),
        ExprV::VarRef(n) => Ok("(&"@ + n + ")"@),
        ExprV::Assign(n, x) => match gen_expr(*x) {
            Ok(a) => Ok("{ "@ + n + " = "@ + a + "; "@ + n + " }"@),
            Err(x) => Err(x),
        },
        ExprV::AssignPostfix(n, x) => match gen_expr(*x) {
            Ok(a) => Ok("{ let prev = "@ + n + "; "@ + n + " = "@ + a + "; prev }"@),
            Err(x) => Err(x),
        },
        ExprV::Ternary(c, t, f) => match (gen_expr(*c), gen_expr(*t), gen_expr(*f)) {
            (Ok(a), Ok(b), Ok(d)) => Ok(
                "(if "@ + a + " != 0 { "@ + b + " } else { "@ + d + " })"@,
            ),
            (Err(x), _, _) => Err(x),
            (_, Err(x), _) => Err(x),
            (_, _, Err(x)) => Err(x),
        },
    }
}

/// Call arguments, separated by commas.
pub open spec fn gen_args(args: Seq<ExprV>) -> Result<Seq<char>, CodegenError>
    decreases args,
{
    if args.len() == 0 {
        Ok(Seq::empty())
    } else {
        match (gen_args(args.subrange(0, args.len() - 1)), gen_expr(args[args.len() - 1])) {
            (Ok(a), Ok(b)) => Ok(
                if args.len() == 1 {
                    b
                } else {
                    a + ", "@ + b
                },
            ),
            (Err(x), _) => Err(x),
            (_, Err(x)) => Err(x),
        }
    }
}

/// The target text of a statement, one line or block per statement.
pub open spec fn gen_stmt(s: StmtV) -> Result<Seq<char>, CodegenError>
    decreases s,
{
    match s {
        StmtV::Declare(v, None) => Ok(
            "let mut "@ + v.name + ": "@ + size_text(v.size) + " = 0;\n"@,
        ),
        StmtV::Declare(v, Some(e)) => match gen_expr(e) {
            Ok(a) => Ok(
                "let mut "@ + v.name + ": "@ + size_text(v.size) + " = ("@ + a + ") as "@
                    + size_text(v.size) + ";\n"@,
            ),
            Err(x) => Err(x),
        },
        StmtV::Return(e) => match gen_expr(e) {
            Ok(a) => Ok("return "@ + a + ";\n"@),
            Err(x) => Err(x),
        },
        StmtV::If(c, t, None) => match (gen_expr(c), gen_stmt(*t)) {
            (Ok(a), Ok(b)) => Ok("if "@ + a + " != 0 {\n"@ + b + "}\n"@),
            (Err(x), _) => Err(x),
            (_, Err(x)) => Err(x),
        },
        StmtV::If(c, t, Some(f)) => match (gen_expr(c), gen_stmt(*t), gen_stmt(*f)) {
            (Ok(a), Ok(b), Ok(d)) => Ok(
                "if "@ + a + " != 0 {\n"@ + b + "} else {\n"@ + d + "}\n"@,
            ),
            (Err(x), _, _) => Err(x),
            (_, Err(x), _) => Err(x),
            (_, _, Err(x)) => Err(x),
        },
        StmtV::While(c, b) => match (gen_expr(c), gen_stmt(*b)) {
            (Ok(a), Ok(d)) => Ok("while "@ + a + " != 0 {\n"@ + d + "}\n"@),
            (Err(x), _) => Err(x),
            (_, Err(x)) => Err(x),
        },
        StmtV::Exp(e) => match gen_expr(e) {
            Ok(a) => Ok(a + ";\n"@),
            Err(x) => Err(x),
        },
        StmtV::Compound(ss) => match gen_stmts(ss) {
            Ok(a) => Ok("{\n"@ + a + "}\n"@),
            Err(x) => Err(x),
        },
    }
}

/// The statements one after another, or the first that has no translation.
pub open spec fn gen_stmts(ss: Seq<StmtV>) -> Result<Seq<char>, CodegenError>
    decreases ss,
{
    if ss.len() == 0 {
        Ok(Seq::empty())
    } else {
        match (gen_stmts(ss.subrange(0, ss.len() - 1)), gen_stmt(ss[ss.len() - 1])) {
            (Ok(a), Ok(b)) => Ok(a + b),
            (Err(x), _) => Err(x),
            (_, Err(x)) => Err(x),
        }
    }
}

pub open spec fn params_text(vs: Seq<VarV>) -> Seq<char>
    decreases vs.len(),
{
    if vs.len() == 0 {
        Seq::empty()
    } else {
        let last = vs[vs.len() - 1];
        let one = last.name + ": "@ + size_text(last.size);
        if vs.len() == 1 {
            one
        } else {
            params_text(vs.subrange(0, vs.len() - 1)) + ", "@ + one
        }
    }
}

/// What stands before `fn` in a function's signature.
pub open spec fn async_prefix(is_async: bool, mode: AsyncMode) -> Seq<char> {
    if !is_async {
        Seq::empty()
    } else if mode == AsyncMode::Native {
        "async "@
    } else {
        "// async: emitted as a blocking function\n"@
    }
}

pub open spec fn gen_function(f: FunctionV, mode: AsyncMode) -> Result<Seq<char>, CodegenError> {
    match gen_stmts(f.statements) {
        Ok(body) => Ok(
            async_prefix(f.is_async, mode) + "fn "@ + f.name + "("@ + params_text(f.arguments)
                + ") -> "@ + type_text(f.return_type) + " {\n"@ + body + "}\n"@,
        ),
        Err(x) => Err(x),
    }
}

pub open spec fn gen_functions(fs: Seq<FunctionV>, mode: AsyncMode) -> Result<Seq<char>, CodegenError>
    decreases fs.len(),
{
    if fs.len() == 0 {
        Ok(Seq::empty())
    } else {
        match (gen_functions(fs.subrange(0, fs.len() - 1), mode), gen_function(fs[fs.len() - 1], mode)) {
            (Ok(a), Ok(b)) => Ok(a + b),
            (Err(x), _) => Err(x),
            (_, Err(x)) => Err(x),
        }
    }
}

pub open spec fn path_text(path: Seq<Seq<char>>) -> Seq<char>
    decreases path.len(),
{
    if path.len() == 0 {
        Seq::empty()
    } else if path.len() == 1 {
        path[0]
    } else {
        path_text(path.subrange(0, path.len() - 1)) + "::"@ + path[path.len() - 1]
    }
}

pub open spec fn imports_text(is: Seq<Seq<Seq<char>>>) -> Seq<char>
    decreases is.len(),
{
    if is.len() == 0 {
        Seq::empty()
    } else {
        imports_text(is.subrange(0, is.len() - 1)) + "use "@ + path_text(is[is.len() - 1])
            + ";\n"@
    }
}

/// The target text of a whole program: imports, functions, then the global
/// statements as the body of `main` when there are any.
pub open spec fn gen_program(p: ProgramV, mode: AsyncMode) -> Result<Seq<char>, CodegenError> {
    match (gen_functions(p.func, mode), gen_stmts(p.globals)) {
        (Ok(fs), Ok(gs)) => Ok(
            imports_text(p.imports) + fs + if p.globals.len() == 0 {
                Seq::empty()
            } else {
                "fn main() {\n"@ + gs + "}\n"@
            },
        ),
        (Err(x), _) => Err(x),
        (_, Err(x)) => Err(x),
    }
}

fn digit_str(d: u64) -> (r: &'static str)
    requires
        d < 10,
    ensures
        r@ == seq![digit_char(d as nat)],
{
    if d == 0 {
        proof {
            reveal_strlit("0");
        }
        return "0";
    }
    if d == 1 {
        proof {
            reveal_strlit("1");
        }
        return "1";
    }
    if d == 2 {
        proof {
            reveal_strlit("2");
        }
        return "2";
    }
    if d == 3 {
        proof {
            reveal_strlit("3");
        }
        return "3";
    }
    if d == 4 {
        proof {
            reveal_strlit("4");
        }
        return "4";
    }
    if d == 5 {
        proof {
            reveal_strlit("5");
        }
        return "5";
    }
    if d == 6 {
        proof {
            reveal_strlit("6");
        }
        return "6";
    }
    if d == 7 {
        proof {
            reveal_strlit("7");
        }
        return "7";
    }
    if d == 8 {
        proof {
            reveal_strlit("8");
        }
        return "8";
    }
    proof {
        reveal_strlit("9");
    }
    "9"
}

fn push_decimal(v: u64, out: &mut String)
    ensures
        final(out)@ == old(out)@ + decimal(v as nat),
    decreases v,
{
    if v < 10 {
        out.append(digit_str(v));
    } else {
        push_decimal(v / 10, out);
        out.append(digit_str(v % 10));
        proof {
            assert(decimal(v as nat) == decimal((v / 10) as nat).push(digit_char((v % 10) as nat)));
        }
        assert(final(out)@ =~= old(out)@ + decimal(v as nat));
    }
}

fn arith_str(op: BinOp) -> (r: &'static str)
    ensures
        r@ == arith_text(op),
{
    match op {
        BinOp::Addition => " + ",
        BinOp::Subtraction => " - ",
        BinOp::Multiplication => " * ",
        BinOp::Division => " / ",
        BinOp::Modulus => " % ",
        BinOp::LessThan => " < ",
        BinOp::LessThanOrEqual => " <= ",
        BinOp::GreaterThan => " > ",
        BinOp::GreaterThanOrEqual => " >= ",
        BinOp::Equal => " == ",
        BinOp::NotEqual => " != ",
        BinOp::BitwiseLeft => " << ",
        BinOp::BitwiseRight => " >> ",
        BinOp::BitwiseAnd => " & ",
        BinOp::BitwiseXor => " ^ ",
        BinOp::BitwiseOr => " | ",
        BinOp::And => " != 0) && (",
        BinOp::Or => " != 0) || (",
        BinOp::Comma => "; ",
    }
}

pub open spec fn emitted(r: Result<(), CodegenError>, before: Seq<char>, after: Seq<char>, g: Result<Seq<char>, CodegenError>) -> bool {
    match g {
        Ok(t) => r is Ok && after == before + t,
        Err(x) => r == Err::<(), CodegenError>(x),
    }
}

/// Appends the target text of an expression.
#[verifier::spinoff_prover]
#[verifier::rlimit(100)]
pub fn emit_expr(e: &Expression, out: &mut String) -> (r: Result<(), CodegenError>)
    ensures
        emitted(r, old(out)@, final(out)@, gen_expr(expr_view(*e))),
    decreases e,
{
    let ghost start = out@;
    match e {
        Expression::BinOp(op, l, r) => {
            let op = *op;
            let (open, mid, close) = if matches!(op, BinOp::Comma) {
                ("{ ", "; ", " }")
            } else if matches!(op, BinOp::And) || matches!(op, BinOp::Or) {
                ("(((", arith_str(op), " != 0)) as i64)")
            } else if matches!(op, BinOp::LessThan) || matches!(op, BinOp::LessThanOrEqual)
                || matches!(op, BinOp::GreaterThan) || matches!(op, BinOp::GreaterThanOrEqual)
                || matches!(op, BinOp::Equal) || matches!(op, BinOp::NotEqual) {
                ("((", arith_str(op), ") as i64)")
            } else {
                ("(", arith_str(op), ")")
            };
            out.append(open);
            let ghost m0 = out@;
            emit_expr(l, out)?;
            let ghost m1 = out@;
            out.append(mid);
            let ghost m2 = out@;
            emit_expr(r, out)?;
            let ghost m3 = out@;
            out.append(close);
            proof {
                let a = gen_expr(expr_view(**l))->Ok_0;
                let b = gen_expr(expr_view(**r))->Ok_0;
                assert(out@ =~= start + binop_text(op, a, b));
            }
            Ok(())
        },
        Expression::UnOp(op, x) => {
            let (open, close) = match op {
                UnOp::Negation => ("(-", ")"),
                UnOp::BitComp => ("(!", ")"),
                UnOp::LogicalNeg => ("((", " == 0) as i64)"),
            };
            out.append(open);
            emit_expr(x, out)?;
            out.append(close);
            proof {
                let a = gen_expr(expr_view(**x))->Ok_0;
                assert(out@ =~= start + unop_text(*op, a));
            }
            Ok(())
        },
        Expression::Int(v) => {
            push_decimal(*v as u64, out);
            Ok(())
        },
        Expression::Char(v) => {
            push_decimal(*v, out);
            Ok(())
        },
        Expression::MLStr(v) => Err(CodegenError::UnsupportedLiteral(*v)),
        Expression::FunctionCall(n, args) => {
            out.append(n.as_str());
            out.append("(");
            emit_args(args, out)?;
            out.append(")");
            proof {
                let a = gen_args(exprs_view(args@))->Ok_0;
                assert(out@ =~= start + (n@ + "("@ + a + ")"@));
            }
            Ok(())
        },
        Expression::Variable(n) => {
            out.append(n.as_str());
            Ok(())
        },
        Expression::VariableRef(n) => {
            out.append("(&");
            out.append(n.as_str());
            out.append(")");
            assert(out@ =~= start + ("(&"@ + n@ + ")"@));
            Ok(())
        },
        Expression::Assign(n, x) => {
            out.append("{ ");
            out.append(n.as_str());
            out.append(" = ");
            emit_expr(x, out)?;
            out.append("; ");
            out.append(n.as_str());
            out.append(" }");
            proof {
                let a = gen_expr(expr_view(**x))->Ok_0;
                assert(out@ =~= start + ("{ "@ + n@ + " = "@ + a + "; "@ + n@ + " }"@));
            }
            Ok(())
        },
        Expression::AssignPostfix(n, x) => {
            out.append("{ let prev = ");
            out.append(n.as_str());
            out.append("; ");
            out.append(n.as_str());
            out.append(" = ");
            emit_expr(x, out)?;
            out.append("; prev }");
            proof {
                let a = gen_expr(expr_view(**x))->Ok_0;
                assert(out@ =~= start + ("{ let prev = "@ + n@ + "; "@ + n@ + " = "@ + a
                    + "; prev }"@));
            }
            Ok(())
        },
        Expression::Ternary(c, t, f) => {
            out.append("(if ");
            emit_expr(c, out)?;
            out.append(" != 0 { ");
            emit_expr(t, out)?;
            out.append(" } else { ");
            emit_expr(f, out)?;
            out.append(" })");
            proof {
                let a = gen_expr(expr_view(**c))->Ok_0;
                let b = gen_expr(expr_view(**t))->Ok_0;
                let d = gen_expr(expr_view(**f))->Ok_0;
                assert(out@ =~= start + ("(if "@ + a + " != 0 { "@ + b + " } else { "@ + d
                    + " })"@));
            }
            Ok(())
        },
    }
}

proof fn lemma_gen_args_err(s: Seq<ExprV>, k: int)
    requires
        0 <= k <= s.len(),
        gen_args(s.subrange(0, k)) is Err,
    ensures
        gen_args(s) == gen_args(s.subrange(0, k)),
    decreases s.len() - k,
{
    if k == s.len() {
        assert(s.subrange(0, k) =~= s);
    } else {
        let t = s.subrange(0, s.len() - 1);
        assert(t.subrange(0, k) =~= s.subrange(0, k));
        lemma_gen_args_err(t, k);
    }
}

/// Appends call arguments, separated by commas.
fn emit_args(args: &Vec<Expression>, out: &mut String) -> (r: Result<(), CodegenError>)
    ensures
        emitted(r, old(out)@, final(out)@, gen_args(exprs_view(args@))),
    decreases args,
{
    let ghost m = out@;
    let mut i: usize = 0;
    proof {
        assert(args@.subrange(0, 0) =~= Seq::<Expression>::empty());
        assert(exprs_view(Seq::<Expression>::empty()) =~= Seq::<ExprV>::empty());
    }
    while i < args.len()
        invariant
            i <= args.len(),
            gen_args(exprs_view(args@.subrange(0, i as int))) is Ok,
            out@ == m + gen_args(exprs_view(args@.subrange(0, i as int)))->Ok_0,
        decreases args.len() - i,
    {
        let ghost before = out@;
        let ghost pre = args@.subrange(0, i as int);
        proof {
            assert(args@.subrange(0, i + 1) =~= pre.push(args@[i as int]));
            lemma_exprs_view_push(pre, args@[i as int]);
        }
        let ghost ev = exprs_view(args@.subrange(0, i + 1));
        proof {
            assert(ev.subrange(0, ev.len() - 1) =~= exprs_view(pre));
        }
        if i > 0 {
            out.append(", ");
        }
        let r = emit_expr(&args[i], out);
        if r.is_err() {
            proof {
                lemma_exprs_view_push(args@, Expression::Int(0));
                assert(exprs_view(args@).subrange(0, i + 1) =~= ev) by {
                    lemma_exprs_view_prefix(args@, i + 1);
                }
                lemma_gen_args_err(exprs_view(args@), i + 1);
            }
            return r;
        }
        proof {
            assert(out@ =~= m + gen_args(ev)->Ok_0);
        }
        i = i + 1;
    }
    proof {
        assert(args@.subrange(0, args.len() as int) =~= args@);
    }
    Ok(())
}

fn size_str(sz: Size) -> (r: &'static str)
    ensures
        r@ == size_text(sz),
{
    match sz {
        Size::Int => "i64",
        Size::Byte => "u8",
    }
}

fn type_str(t: Type) -> (r: &'static str)
    ensures
        r@ == type_text(t),
{
    match t {
        Type::Bool => "bool",
        Type::Str => "String",
        Type::Void => "()",
        Type::Int => "i64",
        Type::Mlstr => "&'static str",
        Type::Char => "char",
    }
}

/// Appends the target text of a statement.
#[verifier::spinoff_prover]
#[verifier::rlimit(100)]
pub fn emit_stmt(st: &Statement, out: &mut String) -> (r: Result<(), CodegenError>)
    ensures
        emitted(r, old(out)@, final(out)@, gen_stmt(stmt_view(*st))),
    decreases st,
{
    let ghost start = out@;
    match st {
        Statement::Declare(v, None) => {
            out.append("let mut ");
            out.append(v.name.as_str());
            out.append(": ");
            out.append(size_str(v.size));
            out.append(" = 0;\n");
            assert(out@ =~= start + ("let mut "@ + v.name@ + ": "@ + size_text(v.size)
                + " = 0;\n"@));
            Ok(())
        },
        Statement::Declare(v, Some(e)) => {
            out.append("let mut ");
            out.append(v.name.as_str());
            out.append(": ");
            out.append(size_str(v.size));
            out.append(" = (");
            emit_expr(e, out)?;
            out.append(") as ");
            out.append(size_str(v.size));
            out.append(";\n");
            proof {
                let a = gen_expr(expr_view(*e))->Ok_0;
                assert(out@ =~= start + ("let mut "@ + v.name@ + ": "@ + size_text(v.size)
                    + " = ("@ + a + ") as "@ + size_text(v.size) + ";\n"@));
            }
            Ok(())
        },
        Statement::Return(e) => {
            out.append("return ");
            emit_expr(e, out)?;
            out.append(";\n");
            proof {
                let a = gen_expr(expr_view(*e))->Ok_0;
                assert(out@ =~= start + ("return "@ + a + ";\n"@));
            }
            Ok(())
        },
        Statement::If(c, t, f) => {
            out.append("if ");
            emit_expr(c, out)?;
            out.append(" != 0 {\n");
            emit_stmt(t, out)?;
            match f {
                None => {
                    out.append("}\n");
                    proof {
                        let a = gen_expr(expr_view(*c))->Ok_0;
                        let b = gen_stmt(stmt_view(**t))->Ok_0;
                        assert(out@ =~= start + ("if "@ + a + " != 0 {\n"@ + b + "}\n"@));
                    }
                },
                Some(fb) => {
                    out.append("} else {\n");
                    emit_stmt(fb, out)?;
                    out.append("}\n");
                    proof {
                        let a = gen_expr(expr_view(*c))->Ok_0;
                        let b = gen_stmt(stmt_view(**t))->Ok_0;
                        let d = gen_stmt(stmt_view(**fb))->Ok_0;
                        assert(out@ =~= start + ("if "@ + a + " != 0 {\n"@ + b + "} else {\n"@
                            + d + "}\n"@));
                    }
                },
            }
            Ok(())
        },
        Statement::While(c, b) => {
            out.append("while ");
            emit_expr(c, out)?;
            out.append(" != 0 {\n");
            emit_stmt(b, out)?;
            out.append("}\n");
            proof {
                let a = gen_expr(expr_view(*c))->Ok_0;
                let d = gen_stmt(stmt_view(**b))->Ok_0;
                assert(out@ =~= start + ("while "@ + a + " != 0 {\n"@ + d + "}\n"@));
            }
            Ok(())
        },
        Statement::Exp(e) => {
            emit_expr(e, out)?;
            out.append(";\n");
            proof {
                let a = gen_expr(expr_view(*e))->Ok_0;
                assert(out@ =~= start + (a + ";\n"@));
            }
            Ok(())
        },
        Statement::Compound(ss) => {
            out.append("{\n");
            emit_stmts(ss, out)?;
            out.append("}\n");
            proof {
                let a = gen_stmts(stmts_view(ss@))->Ok_0;
                assert(out@ =~= start + ("{\n"@ + a + "}\n"@));
            }
            Ok(())
        },
    }
}

proof fn lemma_gen_stmts_err(s: Seq<StmtV>, k: int)
    requires
        0 <= k <= s.len(),
        gen_stmts(s.subrange(0, k)) is Err,
    ensures
        gen_stmts(s) == gen_stmts(s.subrange(0, k)),
    decreases s.len() - k,
{
    if k == s.len() {
        assert(s.subrange(0, k) =~= s);
    } else {
        let t = s.subrange(0, s.len() - 1);
        assert(t.subrange(0, k) =~= s.subrange(0, k));
        lemma_gen_stmts_err(t, k);
    }
}

/// Appends statements one after another.
pub fn emit_stmts(ss: &Vec<Statement>, out: &mut String) -> (r: Result<(), CodegenError>)
    ensures
        emitted(r, old(out)@, final(out)@, gen_stmts(stmts_view(ss@))),
    decreases ss,
{
    let ghost m = out@;
    let mut i: usize = 0;
    proof {
        assert(ss@.subrange(0, 0) =~= Seq::<Statement>::empty());
        assert(stmts_view(Seq::<Statement>::empty()) =~= Seq::<StmtV>::empty());
    }
    while i < ss.len()
        invariant
            i <= ss.len(),
            gen_stmts(stmts_view(ss@.subrange(0, i as int))) is Ok,
            out@ == m + gen_stmts(stmts_view(ss@.subrange(0, i as int)))->Ok_0,
        decreases ss.len() - i,
    {
        let ghost pre = ss@.subrange(0, i as int);
        proof {
            assert(ss@.subrange(0, i + 1) =~= pre.push(ss@[i as int]));
            lemma_stmts_view_push(pre, ss@[i as int]);
        }
        let ghost ev = stmts_view(ss@.subrange(0, i + 1));
        proof {
            assert(ev.subrange(0, ev.len() - 1) =~= stmts_view(pre));
        }
        let r = emit_stmt(&ss[i], out);
        if r.is_err() {
            proof {
                lemma_stmts_view_push(ss@, Statement::Exp(Expression::Int(0)));
                assert(stmts_view(ss@).subrange(0, i + 1) =~= ev) by {
                    lemma_stmts_view_prefix(ss@, i + 1);
                }
                lemma_gen_stmts_err(stmts_view(ss@), i + 1);
            }
            return r;
        }
        proof {
            assert(out@ =~= m + gen_stmts(ev)->Ok_0);
        }
        i = i + 1;
    }
    proof {
        assert(ss@.subrange(0, ss.len() as int) =~= ss@);
    }
    Ok(())
}

fn emit_params(vs: &Vec<Variable>, out: &mut String)
    ensures
        final(out)@ == old(out)@ + params_text(vars_view(vs@)),
{
    let ghost m = out@;
    let mut i: usize = 0;
    proof {
        assert(vars_view(vs@.subrange(0, 0)) =~= Seq::<VarV>::empty());
    }
    while i < vs.len()
        invariant
            i <= vs.len(),
            out@ == m + params_text(vars_view(vs@.subrange(0, i as int))),
        decreases vs.len() - i,
    {
        let ghost w = vars_view(vs@.subrange(0, i + 1));
        proof {
            assert(w.subrange(0, w.len() - 1) =~= vars_view(vs@.subrange(0, i as int)));
            assert(w[w.len() - 1] == var_view(vs@[i as int]));
        }
        if i > 0 {
            out.append(", ");
        }
        out.append(vs[i].name.as_str());
        out.append(": ");
        out.append(size_str(vs[i].size));
        proof {
            assert(out@ =~= m + params_text(w));
        }
        i = i + 1;
    }
    proof {
        assert(vs@.subrange(0, vs.len() as int) =~= vs@);
    }
}

/// Appends the target text of a function.
pub fn emit_function(f: &Function, mode: AsyncMode, out: &mut String) -> (r: Result<
    (),
    CodegenError,
>)
    ensures
        emitted(r, old(out)@, final(out)@, gen_function(function_view(*f), mode)),
{
    let ghost start = out@;
    if f.is_async {
        if matches!(mode, AsyncMode::Native) {
            out.append("async ");
        } else {
            out.append("// async: emitted as a blocking function\n");
        }
    }
    let ghost pre = out@;
    assert(pre =~= start + async_prefix(f.is_async, mode));
    out.append("fn ");
    out.append(f.name.as_str());
    out.append("(");
    emit_params(&f.arguments, out);
    out.append(") -> ");
    out.append(type_str(f.return_type));
    out.append(" {\n");
    emit_stmts(&f.statements, out)?;
    out.append("}\n");
    proof {
        let body = gen_stmts(stmts_view(f.statements@))->Ok_0;
        assert(out@ =~= start + (async_prefix(f.is_async, mode) + "fn "@ + f.name@ + "("@
            + params_text(vars_view(f.arguments@)) + ") -> "@ + type_text(f.return_type)
            + " {\n"@ + body + "}\n"@));
    }
    Ok(())
}

fn emit_path(path: &Vec<String>, out: &mut String)
    ensures
        final(out)@ == old(out)@ + path_text(names_view(path@)),
{
    let ghost m = out@;
    let mut i: usize = 0;
    proof {
        assert(names_view(path@.subrange(0, 0)) =~= Seq::<Seq<char>>::empty());
    }
    while i < path.len()
        invariant
            i <= path.len(),
            out@ == m + path_text(names_view(path@.subrange(0, i as int))),
        decreases path.len() - i,
    {
        let ghost w = names_view(path@.subrange(0, i + 1));
        proof {
            assert(w.subrange(0, w.len() - 1) =~= names_view(path@.subrange(0, i as int)));
        }
        if i > 0 {
            out.append("::");
        }
        out.append(path[i].as_str());
        proof {
            assert(out@ =~= m + path_text(w));
        }
        i = i + 1;
    }
    proof {
        assert(path@.subrange(0, path.len() as int) =~= path@);
    }
}

proof fn lemma_gen_functions_err(s: Seq<FunctionV>, mode: AsyncMode, k: int)
    requires
        0 <= k <= s.len(),
        gen_functions(s.subrange(0, k), mode) is Err,
    ensures
        gen_functions(s, mode) == gen_functions(s.subrange(0, k), mode),
    decreases s.len() - k,
{
    if k == s.len() {
        assert(s.subrange(0, k) =~= s);
    } else {
        let t = s.subrange(0, s.len() - 1);
        assert(t.subrange(0, k) =~= s.subrange(0, k));
        lemma_gen_functions_err(t, mode, k);
    }
}

/// Emits target-language source for a parsed program.
pub struct RustCompiler {
    pub program: Program,
    pub mode: AsyncMode,
}

impl RustCompiler {
    /// A compiler for `program` that emits `async fn` for async functions.
    pub fn new(program: Program) -> (r: RustCompiler)
        ensures
            r.program == program,
            r.mode == AsyncMode::Native,
    {
        RustCompiler { program, mode: AsyncMode::Native }
    }

    /// A compiler for `program` with the given treatment of async functions.
    pub fn with_mode(program: Program, mode: AsyncMode) -> (r: RustCompiler)
        ensures
            r.program == program,
            r.mode == mode,
    {
        RustCompiler { program, mode }
    }

    /// The whole target text, or the first node without a translation.
    pub fn compile(&self) -> (r: Result<String, CodegenError>)
        ensures
            match gen_program(program_view(self.program), self.mode) {
                Ok(t) => r matches Ok(s) && s@ == t,
                Err(x) => r == Err::<String, CodegenError>(x),
            },
    {
        let mut out = String::new();
        let mut i: usize = 0;
        proof {
            assert(imports_view(self.program.imports@.subrange(0, 0)) =~= Seq::<Seq<Seq<char>>>::empty());
        }
        while i < self.program.imports.len()
            invariant
                i <= self.program.imports.len(),
                out@ == imports_text(imports_view(self.program.imports@.subrange(0, i as int))),
            decreases self.program.imports.len() - i,
        {
            let ghost w = imports_view(self.program.imports@.subrange(0, i + 1));
            proof {
                assert(w.subrange(0, w.len() - 1) =~= imports_view(
                    self.program.imports@.subrange(0, i as int),
                ));
            }
            out.append("use ");
            emit_path(&self.program.imports[i].name, &mut out);
            out.append(";\n");
            proof {
                assert(out@ =~= imports_text(w));
            }
            i = i + 1;
        }
        proof {
            assert(self.program.imports@.subrange(0, self.program.imports.len() as int) =~= self.program.imports@);
        }
        let ghost m = out@;
        let ghost fv = functions_view(self.program.func@);
        let mut j: usize = 0;
        proof {
            assert(functions_view(self.program.func@.subrange(0, 0)) =~= Seq::<FunctionV>::empty());
        }
        while j < self.program.func.len()
            invariant
                j <= self.program.func.len(),
                fv == functions_view(self.program.func@),
                gen_functions(functions_view(self.program.func@.subrange(0, j as int)), self.mode) is Ok,
                out@ == m + gen_functions(
                    functions_view(self.program.func@.subrange(0, j as int)),
                    self.mode,
                )->Ok_0,
            decreases self.program.func.len() - j,
        {
            let ghost w = functions_view(self.program.func@.subrange(0, j + 1));
            proof {
                assert(w.subrange(0, w.len() - 1) =~= functions_view(
                    self.program.func@.subrange(0, j as int),
                ));
                assert(w[w.len() - 1] == function_view(self.program.func@[j as int]));
            }
            let r = emit_function(&self.program.func[j], self.mode, &mut out);
            if let Err(x) = r {
                proof {
                    assert(gen_functions(w, self.mode) == Err::<Seq<char>, CodegenError>(x));
                    assert(fv.subrange(0, j + 1) =~= w);
                    lemma_gen_functions_err(fv, self.mode, j + 1);
                    assert(gen_functions(fv, self.mode) == Err::<Seq<char>, CodegenError>(x));
                }
                return Err(x);
            }
            proof {
                assert(out@ =~= m + gen_functions(w, self.mode)->Ok_0);
            }
            j = j + 1;
        }
        proof {
            assert(self.program.func@.subrange(0, self.program.func.len() as int) =~= self.program.func@);
        }
        if self.program.globals.len() > 0 {
            let ghost before = out@;
            out.append("fn main() {\n");
            match emit_stmts(&self.program.globals, &mut out) {
                Err(x) => return Err(x),
                Ok(()) => {},
            }
            out.append("}\n");
            proof {
                lemma_stmts_view_push(self.program.globals@, Statement::Exp(Expression::Int(0)));
                let gs = gen_stmts(stmts_view(self.program.globals@))->Ok_0;
                assert(out@ =~= before + ("fn main() {\n"@ + gs + "}\n"@));
            }
        } else {
            proof {
                lemma_stmts_view_push(self.program.globals@, Statement::Exp(Expression::Int(0)));
                assert(stmts_view(self.program.globals@) =~= Seq::<StmtV>::empty());
                assert(out@ =~= out@ + Seq::<char>::empty());
            }
        }
        Ok(out)
    }
}

/// Generation is a function of the program's structure: any two outputs that
/// meet the contract of `compile` for one program and mode are the same text.
pub proof fn lemma_codegen_deterministic(p: Program, mode: AsyncMode, a: String, b: String)
    requires
        gen_program(program_view(p), mode) == Ok::<Seq<char>, CodegenError>(a@),
        gen_program(program_view(p), mode) == Ok::<Seq<char>, CodegenError>(b@),
    ensures
        a@ == b@,
{
}

/// An async function emitted for a target without native async is the
/// synchronous function preceded by a marker comment, and it translates
/// exactly when its native form does.
pub proof fn lemma_async_degrades(f: FunctionV)
    requires
        f.is_async,
    ensures
        gen_function(f, AsyncMode::Blocking) is Ok <==> gen_function(f, AsyncMode::Native) is Ok,
        gen_function(f, AsyncMode::Blocking) matches Ok(t) ==> t == "// async: emitted as a blocking function\n"@
            + gen_function(FunctionV { is_async: false, ..f }, AsyncMode::Blocking)->Ok_0,
{
    let g = FunctionV { is_async: false, ..f };
    if let Ok(t) = gen_function(f, AsyncMode::Blocking) {
        assert(t =~= "// async: emitted as a blocking function\n"@ + gen_function(g, AsyncMode::Blocking)->Ok_0);
    }
}

} // verus!
