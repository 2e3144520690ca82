use crate::token::Token;
use vstd::prelude::*;

verus! {

/// Storage width of a declared variable.
#[derive(Debug, Clone, Copy, PartialEq, Eq, Structural)]
pub enum Size {
    Int,
    Byte,
}

/// A declared variable or a function parameter.
#[derive(Debug, Clone, PartialEq, Eq)]
pub struct Variable {
    pub name: String,
    pub size: Size,
}

/// A dotted module path, one component per segment.
#[derive(Debug, Clone, PartialEq, Eq)]
pub struct Import {
    pub name: Vec<String>,
}

/// The root of a parsed source file.
#[derive(Debug, PartialEq, Eq)]
pub struct Program {
    pub imports: Vec<Import>,
    pub func: Vec<Function>,
    pub globals: Vec<Statement>,
}

/// The value types that source programs can name.
#[derive(Debug, Clone, Copy, PartialEq, Eq, Structural)]
pub enum Type {
    Bool,
    Str,
    Void,
    Int,
    Mlstr,
    Char,
}

#[derive(Debug, PartialEq, Eq)]
pub struct Function {
    pub is_async: bool,
    pub name: String,
    pub return_type: Type,
    pub arguments: Vec<Variable>,
    pub statements: Vec<Statement>,
}

#[derive(Debug, PartialEq, Eq)]
pub enum Expression {
    BinOp(BinOp, Box<Expression>, Box<Expression>),
    UnOp(UnOp, Box<Expression>),
    Int(u32),
    Char(u64),
    MLStr(u64),
    FunctionCall(String, Vec<Expression>),
    Variable(String),
    VariableRef(String),
    Assign(String, Box<Expression>),
    AssignPostfix(String, Box<Expression>),
    Ternary(Box<Expression>, Box<Expression>, Box<Expression>),
}

#[derive(Debug, PartialEq, Eq)]
pub enum Statement {
    Declare(Variable, Option<Expression>),
    Return(Expression),
    If(Expression, Box<Statement>, Option<Box<Statement>>),
    While(Expression, Box<Statement>),
    Exp(Expression),
    Compound(Vec<Statement>),
}

#[derive(Debug, Clone, Copy, PartialEq, Eq, Structural)]
pub enum UnOp {
    Negation,
    BitComp,
    LogicalNeg,
}

#[derive(Debug, Clone, Copy, PartialEq, Eq, Structural)]
pub enum BinOp {
    Addition,
    Subtraction,
    Multiplication,
    Division,
    Modulus,
    LessThan,
    LessThanOrEqual,
    GreaterThan,
    GreaterThanOrEqual,
    Equal,
    NotEqual,
    And,
    Or,
    BitwiseLeft,
    BitwiseRight,
    BitwiseAnd,
    BitwiseXor,
    BitwiseOr,
    Comma,
}

/// A token was asked to become an operator that it does not denote.
#[derive(Debug, Clone)]
pub struct ConversionError {
    pub token: Token,
}

/// The binary operator that a token denotes, if any.
pub open spec fn binop_of(t: Token) -> Option<BinOp> {
    match t {
        Token::Multiplication => Some(BinOp::Multiplication),
        Token::Division => Some(BinOp::Division),
        Token::Modulus => Some(BinOp::Modulus),
        Token::Addition => Some(BinOp::Addition),
        Token::Negation => Some(BinOp::Subtraction),
        Token::LessThan => Some(BinOp::LessThan),
        Token::LessThanOrEqual => Some(BinOp::LessThanOrEqual),
        Token::GreaterThan => Some(BinOp::GreaterThan),
        Token::GreaterThanOrEqual => Some(BinOp::GreaterThanOrEqual),
        Token::Equal => Some(BinOp::Equal),
        Token::NotEqual => Some(BinOp::NotEqual),
        Token::And => Some(BinOp::And),
        Token::Or => Some(BinOp::Or),
        Token::BitwiseLeft => Some(BinOp::BitwiseLeft),
        Token::BitwiseRight => Some(BinOp::BitwiseRight),
        Token::BitwiseAnd => Some(BinOp::BitwiseAnd),
        Token::BitwiseXor => Some(BinOp::BitwiseXor),
        Token::BitwiseOr => Some(BinOp::BitwiseOr),
        Token::Comma => Some(BinOp::Comma),
        _ => None,
    }
}

/// The unary operator that a token denotes, if any.
pub open spec fn unop_of(t: Token) -> Option<UnOp> {
    match t {
        Token::Negation => Some(UnOp::Negation),
        Token::LogicalNeg => Some(UnOp::LogicalNeg),
        Token::BitComp => Some(UnOp::BitComp),
        _ => None,
    }
}

impl BinOp {
    /// Converts an operator token; any other token is refused.
    pub fn from_token(token: Token) -> (r: Result<BinOp, ConversionError>)
        ensures
            binop_of(token) matches Some(op) ==> r == Ok::<BinOp, ConversionError>(op),
            binop_of(token) is None ==> r == Err::<BinOp, ConversionError>((ConversionError { token })),
    {
        match token {
            Token::Multiplication => Ok(BinOp::Multiplication),
            Token::Division => Ok(BinOp::Division),
            Token::Modulus => Ok(BinOp::Modulus),
            Token::Addition => Ok(BinOp::Addition),
            Token::Negation => Ok(BinOp::Subtraction),
            Token::LessThan => Ok(BinOp::LessThan),
            Token::LessThanOrEqual => Ok(BinOp::LessThanOrEqual),
            Token::GreaterThan => Ok(BinOp::GreaterThan),
            Token::GreaterThanOrEqual => Ok(BinOp::GreaterThanOrEqual),
            Token::Equal => Ok(BinOp::Equal),
            Token::NotEqual => Ok(BinOp::NotEqual),
            Token::And => Ok(BinOp::And),
            Token::Or => Ok(BinOp::Or),
            Token::BitwiseLeft => Ok(BinOp::BitwiseLeft),
            Token::BitwiseRight => Ok(BinOp::BitwiseRight),
            Token::BitwiseAnd => Ok(BinOp::BitwiseAnd),
            Token::BitwiseXor => Ok(BinOp::BitwiseXor),
            Token::BitwiseOr => Ok(BinOp::BitwiseOr),
            Token::Comma => Ok(BinOp::Comma),
            other => Err(ConversionError { token: other }),
        }
    }
}

impl UnOp {
    /// Converts one of `-`, `!`, `~`; any other token is refused.
    pub fn from_token(token: Token) -> (r: Result<UnOp, ConversionError>)
        ensures
            unop_of(token) matches Some(op) ==> r == Ok::<UnOp, ConversionError>(op),
            unop_of(token) is None ==> r == Err::<UnOp, ConversionError>((ConversionError { token })),
    {
        match token {
            Token::Negation => Ok(UnOp::Negation),
            Token::LogicalNeg => Ok(UnOp::LogicalNeg),
            Token::BitComp => Ok(UnOp::BitComp),
            other => Err(ConversionError { token: other }),
        }
    }
}

/// Operator conversion is total on the operator tokens and refuses all others:
/// whatever token comes in, the result is the operator it denotes or an error
/// carrying that very token, and two conversions of one token agree.
pub proof fn lemma_conversion_total(t: Token)
    ensures
        binop_of(t) is None <==> !(t is Multiplication || t is Division || t is Modulus
            || t is Addition || t is Negation || t is LessThan || t is LessThanOrEqual
            || t is GreaterThan || t is GreaterThanOrEqual || t is Equal || t is NotEqual
            || t is And || t is Or || t is BitwiseLeft || t is BitwiseRight || t is BitwiseAnd
            || t is BitwiseXor || t is BitwiseOr || t is Comma),
        unop_of(t) is None <==> !(t is Negation || t is LogicalNeg || t is BitComp),
{
}

} // verus!
