use torqc::codegen::{AsyncMode, CodegenError, RustCompiler};
use torqc::commands::{Compile, CompileError};
use torqc::ops::{BinOp, Expression, Program, Size, Statement, Type, UnOp};
use torqc::parser::{parse_expr, ParseError, Parser};
use torqc::token::{LexicalError, Token};
use torqc::tokenizer::tokenize;

fn expr_of(text: &str) -> Expression {
    let toks = tokenize(text).unwrap();
    let (e, q) = parse_expr(&toks, 0).unwrap();
    assert_eq!(q, toks.len());
    e
}

fn lit(v: u32) -> Box<Expression> {
    Box::new(Expression::Int(v))
}

fn var(n: &str) -> Box<Expression> {
    Box::new(Expression::Variable(n.to_string()))
}

#[test]
fn binop_conversion_accepts_operators() {
    assert_eq!(BinOp::from_token(Token::Addition).unwrap(), BinOp::Addition);
    assert_eq!(BinOp::from_token(Token::Negation).unwrap(), BinOp::Subtraction);
    assert_eq!(BinOp::from_token(Token::Comma).unwrap(), BinOp::Comma);
    assert_eq!(UnOp::from_token(Token::BitComp).unwrap(), UnOp::BitComp);
    assert_eq!(UnOp::from_token(Token::Negation).unwrap(), UnOp::Negation);
}

#[test]
fn conversion_refuses_other_tokens() {
    let e = BinOp::from_token(Token::Semicolon).unwrap_err();
    assert_eq!(e.token, Token::Semicolon);
    let e = UnOp::from_token(Token::Addition).unwrap_err();
    assert_eq!(e.token, Token::Addition);
    assert!(BinOp::from_token(Token::Identifier("x".to_string())).is_err());
}

#[test]
fn multiplication_binds_tighter() {
    let expected = Expression::BinOp(
        BinOp::Addition,
        lit(1),
        Box::new(Expression::BinOp(BinOp::Multiplication, lit(2), lit(3))),
    );
    assert_eq!(expr_of("1+2*3"), expected);
}

#[test]
fn subtraction_is_left_associative() {
    let expected = Expression::BinOp(
        BinOp::Subtraction,
        Box::new(Expression::BinOp(BinOp::Subtraction, lit(1), lit(2))),
        lit(3),
    );
    assert_eq!(expr_of("1-2-3"), expected);
}

#[test]
fn ternary_nests_in_else_branch() {
    let expected = Expression::Ternary(
        var("a"),
        var("b"),
        Box::new(Expression::Ternary(var("c"), var("d"), var("e"))),
    );
    assert_eq!(expr_of("a?b:c?d:e"), expected);
}

#[test]
fn tokenizing_and_parsing_twice_agree() {
    let text = "f(int a): int { return a << 2 >= 1 && !a; }";
    let t1 = tokenize(text).unwrap();
    let t2 = tokenize(text).unwrap();
    assert_eq!(t1, t2);
    let p1 = Parser::new(t1.clone()).parse().unwrap();
    let p2 = Parser::new(t1).parse().unwrap();
    assert_eq!(p1, p2);
}

#[test]
fn unclosed_condition_is_a_parse_error() {
    let toks = tokenize("if (1").unwrap();
    let r = Parser::new(toks).parse();
    assert_eq!(r, Err(ParseError { pos: 3, expected: Some(Token::CloseParen), found: None }));
}

#[test]
fn generation_twice_is_identical() {
    let text = "import std.io; f(int a, byte b): int { while (a) a--; return a ? b : 0; } f(1, 2);";
    let a = Compile::run(text, AsyncMode::Native).unwrap();
    let b = Compile::run(text, AsyncMode::Native).unwrap();
    assert_eq!(a, b);
    assert!(a.starts_with("use std::io;\nfn f(a: i64, b: u8) -> i64 {\n"));
}

#[test]
fn async_without_native_support_is_marked() {
    let text = "async f(): int { return 1; }";
    let blocking = Compile::run(text, AsyncMode::Blocking).unwrap();
    assert_eq!(
        blocking,
        "// async: emitted as a blocking function\nfn f() -> i64 {\nreturn 1;\n}\n"
    );
    let native = Compile::run(text, AsyncMode::Native).unwrap();
    assert_eq!(native, "async fn f() -> i64 {\nreturn 1;\n}\n");
}

#[test]
fn globals_become_main() {
    let out = Compile::run("x = 42;", AsyncMode::Native).unwrap();
    assert_eq!(out, "fn main() {\n{ x = 42; x };\n}\n");
}

#[test]
fn comparison_and_logic_text() {
    let out = Compile::run("a < 10 || !b;", AsyncMode::Native).unwrap();
    assert_eq!(
        out,
        "fn main() {\n(((((a < 10) as i64) != 0) || (((b == 0) as i64) != 0)) as i64);\n}\n"
    );
}

#[test]
fn declarations_and_branches() {
    let out = Compile::run("byte c = 'x'; if (c) { c++; } else c = -1;", AsyncMode::Native)
        .unwrap();
    assert_eq!(
        out,
        "fn main() {\nlet mut c: u8 = (120) as u8;\nif c != 0 {\n{\n{ let prev = c; c = (c + 1); prev };\n}\n} else {\n{ c = (-1); c };\n}\n}\n"
    );
}

#[test]
fn identifiers_and_keywords() {
    let toks = tokenize("while foo_1 int").unwrap();
    assert_eq!(
        toks,
        vec![Token::While, Token::Identifier("foo_1".to_string()), Token::KwInt]
    );
}

#[test]
fn greedy_operators() {
    let toks = tokenize("<=<<<==&&&").unwrap();
    assert_eq!(
        toks,
        vec![
            Token::LessThanOrEqual,
            Token::BitwiseLeft,
            Token::LessThanOrEqual,
            Token::Assign,
            Token::And,
            Token::BitwiseAnd,
        ]
    );
}

#[test]
fn unknown_character_is_lexical_error() {
    assert_eq!(tokenize("a @ b"), Err(LexicalError { pos: 2 }));
    assert_eq!(tokenize("4294967296"), Err(LexicalError { pos: 0 }));
    assert_eq!(tokenize("4294967295").unwrap(), vec![Token::Integer(4294967295)]);
    assert_eq!(tokenize("`open"), Err(LexicalError { pos: 0 }));
    assert_eq!(
        Compile::run("#", AsyncMode::Native),
        Err(CompileError::Lexical(LexicalError { pos: 0 }))
    );
}

#[test]
fn multiline_string_has_no_translation() {
    let toks = tokenize("  `a\nb`").unwrap();
    assert_eq!(toks, vec![Token::MLStr(2)]);
    assert_eq!(
        Compile::run("x = `a\nb`;", AsyncMode::Native),
        Err(CompileError::Codegen(CodegenError::UnsupportedLiteral(4)))
    );
}

#[test]
fn empty_input_gives_empty_program() {
    assert_eq!(tokenize("").unwrap(), vec![]);
    let p = Parser::new(vec![]).parse().unwrap();
    assert_eq!(p, Program { imports: vec![], func: vec![], globals: vec![] });
    assert_eq!(RustCompiler::new(p).compile().unwrap(), "");
}

#[test]
fn function_structure() {
    let toks = tokenize("g(byte x): void { byte y; }").unwrap();
    let p = Parser::new(toks).parse().unwrap();
    assert_eq!(p.func.len(), 1);
    let f = &p.func[0];
    assert_eq!(f.name, "g");
    assert!(!f.is_async);
    assert_eq!(f.return_type, Type::Void);
    assert_eq!(f.arguments[0].size, Size::Byte);
    assert!(matches!(&f.statements[0], Statement::Declare(v, None) if v.name == "y"));
}

#[test]
fn missing_semicolon_is_reported() {
    let r = Parser::new(tokenize("return 1").unwrap()).parse();
    assert_eq!(r, Err(ParseError { pos: 2, expected: Some(Token::Semicolon), found: None }));
    let r = Compile::run("f(1", AsyncMode::Native);
    assert_eq!(
        r,
        Err(CompileError::Parse(ParseError { pos: 3, expected: Some(Token::CloseParen), found: None }))
    );
}

#[test]
fn compile_help_lists_flags() {
    colored::control::set_override(true);
    let text = torqc::commands::Compile::help();
    assert!(text.contains(" - Compiles the given file\n"));
    assert!(text.contains(" - Compiles to rust code\n  "));
    assert!(text.contains("\u{1b}["));
    assert!(!text.contains("Usage: torqc [commands]"));
    colored::control::set_override(false);
    let plain = torqc::commands::Compile::help();
    assert!(plain.starts_with("torqc 0.1.0\n    \nUsage: torqc [commands] [flags]\n"));
    assert!(plain.contains("* --userust        - Compiles to rust code\n  "));
}

#[test]
fn general_help_lists_commands() {
    colored::control::set_override(false);
    let plain = torqc::commands::Help::help();
    assert!(plain.starts_with("volt 0.1.0\n    \nDisplays help information.\nUsage: volt [commands] [flags]\n"));
    assert!(plain.contains("* cache - Push changes to a github repository the easy way.\n"));
    assert!(plain.ends_with("* clone - Clone a github repository and get setup with all required dependencies.\n  "));
}

#[test]
fn parse_error_names_the_token_met() {
    let r = Parser::new(tokenize("x = (1 ; y").unwrap()).parse();
    assert_eq!(
        r,
        Err(ParseError { pos: 4, expected: Some(Token::CloseParen), found: Some(Token::Semicolon) })
    );
    let r = Parser::new(tokenize("while (a) ) b").unwrap()).parse();
    assert_eq!(r, Err(ParseError { pos: 4, expected: None, found: Some(Token::CloseParen) }));
}

#[test]
fn tokens_carry_source_offsets() {
    let (toks, offs) = torqc::tokenizer::tokenize_spanned("  ab <= 7\n;").unwrap();
    assert_eq!(
        toks,
        vec![
            Token::Identifier("ab".to_string()),
            Token::LessThanOrEqual,
            Token::Integer(7),
            Token::Semicolon,
        ]
    );
    assert_eq!(offs, vec![2, 5, 8, 10]);
}

#[test]
fn copies_are_structurally_equal() {
    let e = expr_of("f(a, 1 + 2) ? -b : (c = 3)");
    assert_eq!(e.duplicate(), e);
    let p = Parser::new(tokenize("int x = 1; { while (x) x--; if (x) return f(x); else x = 2; }").unwrap())
        .parse();
    let prog = match p {
        Ok(prog) => prog,
        Err(e) => panic!("{:?}", e),
    };
    for s in &prog.globals {
        assert_eq!(&s.duplicate(), s);
    }
}
