use crate::ops::{BinOp, Expression, Function, Import, Program, Size, Statement, Type, UnOp, Variable};
use vstd::prelude::*;

verus! {

broadcast use {vstd::std_specs::vec::group_vec_axioms, vstd::seq::group_seq_axioms};

/// The structure of an expression, with names as character sequences.
pub enum ExprV {
    BinOp(BinOp, Box<ExprV>, Box<ExprV>),
    UnOp(UnOp, Box<ExprV>),
    Int(u32),
    Char(u64),
    MLStr(u64),
    Call(Seq<char>, Seq<ExprV>),
    Var(Seq<char>),
    VarRef(Seq<char>),
    Assign(Seq<char>, Box<ExprV>),
    AssignPostfix(Seq<char>, Box<ExprV>),
    Ternary(Box<ExprV>, Box<ExprV>, Box<ExprV>),
}

pub struct VarV {
    pub name: Seq<char>,
    pub size: Size,
}

pub enum StmtV {
    Declare(VarV, Option<ExprV>),
    Return(ExprV),
    If(ExprV, Box<StmtV>, Option<Box<StmtV>>),
    While(ExprV, Box<StmtV>),
    Exp(ExprV),
    Compound(Seq<StmtV>),
}

pub struct FunctionV {
    pub is_async: bool,
    pub name: Seq<char>,
    pub return_type: Type,
    pub arguments: Seq<VarV>,
    pub statements: Seq<StmtV>,
}

pub struct ProgramV {
    pub imports: Seq<Seq<Seq<char>>>,
    pub func: Seq<FunctionV>,
    pub globals: Seq<StmtV>,
}

pub open spec fn expr_view(e: Expression) -> ExprV
    decreases e,
{
    match e {
        Expression::BinOp(op, l, r) => ExprV::BinOp(
            op,
            Box::new(expr_view(*l)),
            Box::new(expr_view(*r)),
        ),
        Expression::UnOp(op, x) => ExprV::UnOp(op, Box::new(expr_view(*x))),
        Expression::Int(v) => ExprV::Int(v),
        Expression::Char(v) => ExprV::Char(v),
        Expression::MLStr(v) => ExprV::MLStr(v),
        Expression::FunctionCall(n, args) => ExprV::Call(n@, exprs_view(args@)),
        Expression::Variable(n) => ExprV::Var(n@),
        Expression::VariableRef(n) => ExprV::VarRef(n@),
        Expression::Assign(n, x) => ExprV::Assign(n@, Box::new(expr_view(*x))),
        Expression::AssignPostfix(n, x) => ExprV::AssignPostfix(n@, Box::new(expr_view(*x))),
        Expression::Ternary(c, t, f) => ExprV::Ternary(
            Box::new(expr_view(*c)),
            Box::new(expr_view(*t)),
            Box::new(expr_view(*f)),
        ),
    }
}

pub open spec fn exprs_view(es: Seq<Expression>) -> Seq<ExprV>
    decreases es,
{
    if es.len() == 0 {
        Seq::empty()
    } else {
        exprs_view(es.subrange(0, es.len() - 1)).push(expr_view(es[es.len() - 1]))
    }
}

pub open spec fn var_view(v: Variable) -> VarV {
    VarV { name: v.name@, size: v.size }
}

pub open spec fn stmt_view(s: Statement) -> StmtV
    decreases s,
{
    match s {
        Statement::Declare(v, init) => StmtV::Declare(
            var_view(v),
            match init {
                Some(e) => Some(expr_view(e)),
                None => None,
            },
        ),
        Statement::Return(e) => StmtV::Return(expr_view(e)),
        Statement::If(c, t, f) => StmtV::If(
            expr_view(c),
            Box::new(stmt_view(*t)),
            match f {
                Some(b) => Some(Box::new(stmt_view(*b))),
                None => None,
            },
        ),
        Statement::While(c, b) => StmtV::While(expr_view(c), Box::new(stmt_view(*b))),
        Statement::Exp(e) => StmtV::Exp(expr_view(e)),
        Statement::Compound(ss) => StmtV::Compound(stmts_view(ss@)),
    }
}

pub open spec fn stmts_view(ss: Seq<Statement>) -> Seq<StmtV>
    decreases ss,
{
    if ss.len() == 0 {
        Seq::empty()
    } else {
        stmts_view(ss.subrange(0, ss.len() - 1)).push(stmt_view(ss[ss.len() - 1]))
    }
}

pub open spec fn vars_view(vs: Seq<Variable>) -> Seq<VarV> {
    vs.map_values(|v: Variable| var_view(v))
}

pub open spec fn names_view(ns: Seq<String>) -> Seq<Seq<char>> {
    ns.map_values(|n: String| n@)
}

pub open spec fn imports_view(is: Seq<Import>) -> Seq<Seq<Seq<char>>> {
    is.map_values(|i: Import| names_view(i.name@))
}

pub open spec fn functions_view(fs: Seq<Function>) -> Seq<FunctionV> {
    fs.map_values(|f: Function| function_view(f))
}

pub open spec fn function_view(f: Function) -> FunctionV {
    FunctionV {
        is_async: f.is_async,
        name: f.name@,
        return_type: f.return_type,
        arguments: vars_view(f.arguments@),
        statements: stmts_view(f.statements@),
    }
}

pub open spec fn program_view(p: Program) -> ProgramV {
    ProgramV {
        imports: imports_view(p.imports@),
        func: functions_view(p.func@),
        globals: stmts_view(p.globals@),
    }
}

pub proof fn lemma_exprs_view_push(s: Seq<Expression>, e: Expression)
    ensures
        exprs_view(s.push(e)) == exprs_view(s).push(expr_view(e)),
        exprs_view(s).len() == s.len(),
    decreases s.len(),
{
    assert(s.push(e).subrange(0, s.len() as int) =~= s);
    if s.len() > 0 {
        lemma_exprs_view_push(s.subrange(0, s.len() - 1), s[s.len() - 1]);
        assert(s.subrange(0, s.len() - 1).push(s[s.len() - 1]) =~= s);
    }
}

pub proof fn lemma_stmts_view_push(s: Seq<Statement>, e: Statement)
    ensures
        stmts_view(s.push(e)) == stmts_view(s).push(stmt_view(e)),
        stmts_view(s).len() == s.len(),
    decreases s.len(),
{
    assert(s.push(e).subrange(0, s.len() as int) =~= s);
    if s.len() > 0 {
        lemma_stmts_view_push(s.subrange(0, s.len() - 1), s[s.len() - 1]);
        assert(s.subrange(0, s.len() - 1).push(s[s.len() - 1]) =~= s);
    }
}

pub proof fn lemma_exprs_view_prefix(s: Seq<Expression>, k: int)
    requires
        0 <= k <= s.len(),
    ensures
        exprs_view(s).subrange(0, k) == exprs_view(s.subrange(0, k)),
    decreases s.len(),
{
    lemma_exprs_view_push(s, Expression::Int(0));
    lemma_exprs_view_push(s.subrange(0, k), Expression::Int(0));
    if k == s.len() {
        assert(s.subrange(0, k) =~= s);
        assert(exprs_view(s).subrange(0, k) =~= exprs_view(s));
    } else {
        let t = s.subrange(0, s.len() - 1);
        lemma_exprs_view_prefix(t, k);
        assert(t.subrange(0, k) =~= s.subrange(0, k));
        assert(exprs_view(s).subrange(0, k) =~= exprs_view(t).subrange(0, k));
    }
}

pub proof fn lemma_stmts_view_prefix(s: Seq<Statement>, k: int)
    requires
        0 <= k <= s.len(),
    ensures
        stmts_view(s).subrange(0, k) == stmts_view(s.subrange(0, k)),
    decreases s.len(),
{
    lemma_stmts_view_push(s, Statement::Exp(Expression::Int(0)));
    lemma_stmts_view_push(s.subrange(0, k), Statement::Exp(Expression::Int(0)));
    if k == s.len() {
        assert(s.subrange(0, k) =~= s);
        assert(stmts_view(s).subrange(0, k) =~= stmts_view(s));
    } else {
        let t = s.subrange(0, s.len() - 1);
        lemma_stmts_view_prefix(t, k);
        assert(t.subrange(0, k) =~= s.subrange(0, k));
        assert(stmts_view(s).subrange(0, k) =~= stmts_view(t).subrange(0, k));
    }
}

impl Expression {
    /// A structurally equal copy of this expression.
    pub fn duplicate(&self) -> (r: Expression)
        ensures
            expr_view(r) == expr_view(*self),
        decreases self,
    {
        match self {
            Expression::BinOp(op, l, r) => Expression::BinOp(
                *op,
                Box::new(l.duplicate()),
                Box::new(r.duplicate()),
            ),
            Expression::UnOp(op, x) => Expression::UnOp(*op, Box::new(x.duplicate())),
            Expression::Int(v) => Expression::Int(*v),
            Expression::Char(v) => Expression::Char(*v),
            Expression::MLStr(v) => Expression::MLStr(*v),
            Expression::FunctionCall(n, args) => Expression::FunctionCall(
                n.clone(),
                duplicate_all(args),
            ),
            Expression::Variable(n) => Expression::Variable(n.clone()),
            Expression::VariableRef(n) => Expression::VariableRef(n.clone()),
            Expression::Assign(n, x) => Expression::Assign(n.clone(), Box::new(x.duplicate())),
            Expression::AssignPostfix(n, x) => Expression::AssignPostfix(
                n.clone(),
                Box::new(x.duplicate()),
            ),
            Expression::Ternary(c, t, f) => Expression::Ternary(
                Box::new(c.duplicate()),
                Box::new(t.duplicate()),
                Box::new(f.duplicate()),
            ),
        }
    }
}

/// Structurally equal copies of call arguments, in order.
fn duplicate_all(args: &Vec<Expression>) -> (r: Vec<Expression>)
    ensures
        exprs_view(r@) == exprs_view(args@),
    decreases args,
{
    let mut out: Vec<Expression> = Vec::new();
    let mut i: usize = 0;
    proof {
        lemma_exprs_view_push(out@, Expression::Int(0));
        assert(exprs_view(out@) =~= exprs_view(args@.subrange(0, 0)));
    }
    while i < args.len()
        invariant
            i <= args.len(),
            exprs_view(out@) == exprs_view(args@.subrange(0, i as int)),
        decreases args.len() - i,
    {
        let a = args[i].duplicate();
        proof {
            lemma_exprs_view_push(out@, a);
            lemma_exprs_view_push(args@.subrange(0, i as int), args@[i as int]);
            assert(args@.subrange(0, i as int).push(args@[i as int]) =~= args@.subrange(0, i + 1));
        }
        out.push(a);
        i = i + 1;
    }
    proof {
        assert(args@.subrange(0, args.len() as int) =~= args@);
    }
    out
}

impl Statement {
    /// A structurally equal copy of this statement.
    pub fn duplicate(&self) -> (r: Statement)
        ensures
            stmt_view(r) == stmt_view(*self),
        decreases self,
    {
        match self {
            Statement::Declare(v, init) => {
                let var = Variable { name: v.name.clone(), size: v.size };
                match init {
                    Some(e) => Statement::Declare(var, Some(e.duplicate())),
                    None => Statement::Declare(var, None),
                }
            },
            Statement::Return(e) => Statement::Return(e.duplicate()),
            Statement::If(c, t, f) => {
                let f2 = match f {
                    Some(b) => Some(Box::new(b.duplicate())),
                    None => None,
                };
                Statement::If(c.duplicate(), Box::new(t.duplicate()), f2)
            },
            Statement::While(c, b) => Statement::While(c.duplicate(), Box::new(b.duplicate())),
            Statement::Exp(e) => Statement::Exp(e.duplicate()),
            Statement::Compound(ss) => Statement::Compound(duplicate_stmts(ss)),
        }
    }
}

/// Structurally equal copies of statements, in order.
fn duplicate_stmts(ss: &Vec<Statement>) -> (r: Vec<Statement>)
    ensures
        stmts_view(r@) == stmts_view(ss@),
    decreases ss,
{
    let mut out: Vec<Statement> = Vec::new();
    let mut i: usize = 0;
    proof {
        lemma_stmts_view_push(out@, Statement::Exp(Expression::Int(0)));
        assert(stmts_view(out@) =~= stmts_view(ss@.subrange(0, 0)));
    }
    while i < ss.len()
        invariant
            i <= ss.len(),
            stmts_view(out@) == stmts_view(ss@.subrange(0, i as int)),
        decreases ss.len() - i,
    {
        let a = ss[i].duplicate();
        proof {
            lemma_stmts_view_push(out@, a);
            lemma_stmts_view_push(ss@.subrange(0, i as int), ss@[i as int]);
            assert(ss@.subrange(0, i as int).push(ss@[i as int]) =~= ss@.subrange(0, i + 1));
        }
        out.push(a);
        i = i + 1;
    }
    proof {
        assert(ss@.subrange(0, ss.len() as int) =~= ss@);
    }
    out
}

} // verus!
