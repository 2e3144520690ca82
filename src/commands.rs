use crate::codegen::{gen_program, AsyncMode, CodegenError, RustCompiler};
use crate::grammar::{p_program, SyntaxError};
use crate::parser::{ParseError, Parser};
use crate::token::{lex, lexeme_of, Lexeme, LexicalError};
use crate::tokenizer::tokenize;
use colored::Colorize;
use vstd::prelude::*;
use vstd::string::StringExecFns;

verus! {

/// The first failure of a compile, from whichever stage met it.
#[derive(Debug, Clone, PartialEq, Eq)]
pub enum CompileError {
    Lexical(LexicalError),
    Parse(ParseError),
    Codegen(CodegenError),
}

/// A compile failure with the offending token seen as a lexeme.
pub enum Failure {
    Lexical(LexicalError),
    Parse(SyntaxError, Option<Lexeme>),
    Codegen(CodegenError),
}

pub open spec fn failure_of(e: CompileError) -> Failure {
    match e {
        CompileError::Lexical(x) => Failure::Lexical(x),
        CompileError::Parse(x) => Failure::Parse(
            SyntaxError { pos: x.pos, expected: x.expected },
            match x.found {
                Some(t) => Some(lexeme_of(t)),
                None => None,
            },
        ),
        CompileError::Codegen(x) => Failure::Codegen(x),
    }
}

/// The text-to-text pipeline: tokens, then a program, then target source.
pub open spec fn pipeline(text: Seq<char>, mode: AsyncMode) -> Result<Seq<char>, Failure> {
    match lex(text) {
        Err(e) => Err(Failure::Lexical(e)),
        Ok(ls) => match p_program(ls) {
            Err(e) => Err(
                Failure::Parse(
                    e,
                    if (e.pos as int) < ls.len() {
                        Some(ls[e.pos as int])
                    } else {
                        None
                    },
                ),
            ),
            Ok(pv) => match gen_program(pv, mode) {
                Err(e) => Err(Failure::Codegen(e)),
                Ok(t) => Ok(t),
            },
        },
    }
}

/// The text contains no escape character.
pub open spec fn plain(s: Seq<char>) -> bool {
    forall|i: int| 0 <= i < s.len() ==> s[i] != '\u{1b}'
}

/// `r` is `s` either as it is or wrapped in the terminal escapes of style `code`.
pub open spec fn styled(r: Seq<char>, s: Seq<char>, code: Seq<char>) -> bool {
    r == s || r == "\u{1b}["@ + code + "m"@ + s + "\u{1b}[0m"@
}

/// Relies on colored's `Colorize::bright_green` then `bold`, rendered by
/// `to_string`: plain when colouring is off, else wrapped in `ESC[1;92m` and
/// `ESC[0m` (the text is escaped only where it holds a reset sequence).
#[verifier::external_body]
fn green_bold(s: &str) -> (r: String)
    ensures
        plain(s@) ==> styled(r@, s@, "1;92"@),
{
    s.bright_green().bold().to_string()
}

/// Relies on colored's `Colorize::bright_purple`, rendered by `to_string`:
/// plain when colouring is off, else wrapped in `ESC[95m` and `ESC[0m`.
#[verifier::external_body]
fn purple(s: &str) -> (r: String)
    ensures
        plain(s@) ==> styled(r@, s@, "95"@),
{
    s.bright_purple().to_string()
}

/// Relies on colored's `Colorize::bright_blue`, rendered by `to_string`:
/// plain when colouring is off, else wrapped in `ESC[94m` and `ESC[0m`.
#[verifier::external_body]
fn blue(s: &str) -> (r: String)
    ensures
        plain(s@) ==> styled(r@, s@, "94"@),
{
    s.bright_blue().to_string()
}

/// Relies on colored's `Colorize::bright_magenta` then `bold`, rendered by
/// `to_string`: plain when colouring is off, else wrapped in `ESC[1;95m` and `ESC[0m`.
#[verifier::external_body]
fn magenta_bold(s: &str) -> (r: String)
    ensures
        plain(s@) ==> styled(r@, s@, "1;95"@),
{
    s.bright_magenta().bold().to_string()
}

/// The usage text of the `compile` command around its highlighted pieces.
pub open spec fn compile_help_text(ps: Seq<Seq<char>>) -> Seq<char>
    recommends
        ps.len() == 16,
{
    "torqc "@
        + ps[0]
        + "\n    \nUsage: "@
        + ps[1]
        + " "@
        + ps[2]
        + " "@
        + ps[3]
        + "\nCommands:\n  "@
        + ps[4]
        + " "@
        + ps[5]
        + " - Compiles the given file\nFlags: \n  "@
        + ps[6]
        + " "@
        + ps[7]
        + " - uses clang (default)\n  "@
        + ps[8]
        + " "@
        + ps[9]
        + " - uses gcc\n  "@
        + ps[10]
        + " "@
        + ps[11]
        + " - verbose output\n  "@
        + ps[12]
        + " "@
        + ps[13]
        + " - Builds for deployement\n  "@
        + ps[14]
        + " "@
        + ps[15]
        + " - Compiles to rust code\n  "@
}

/// Each highlighted piece of the usage text of the `compile` command is its text, plain or in its style.
pub open spec fn compile_help_pieces(ps: Seq<Seq<char>>) -> bool {
    &&& ps.len() == 16
    &&& styled(ps[0], "0.1.0"@, "1;92"@)
    &&& styled(ps[1], "torqc"@, "1;92"@)
    &&& styled(ps[2], "[commands]"@, "95"@)
    &&& styled(ps[3], "[flags]"@, "95"@)
    &&& styled(ps[4], "*"@, "1;95"@)
    &&& styled(ps[5], "<filename>"@, "94"@)
    &&& styled(ps[6], "*"@, "1;95"@)
    &&& styled(ps[7], "--useclang, -ucg"@, "94"@)
    &&& styled(ps[8], "*"@, "1;95"@)
    &&& styled(ps[9], "--usegcc, -ugcc "@, "94"@)
    &&& styled(ps[10], "*"@, "1;95"@)
    &&& styled(ps[11], "--verbose, -vb  "@, "94"@)
    &&& styled(ps[12], "*"@, "1;95"@)
    &&& styled(ps[13], "--release, -r   "@, "94"@)
    &&& styled(ps[14], "*"@, "1;95"@)
    &&& styled(ps[15], "--userust       "@, "94"@)
}

/// Lays out the usage text of the `compile` command around its highlighted pieces, in order.
pub fn compile_help_with(pieces: &Vec<String>) -> (r: String)
    requires
        pieces.len() == 16,
    ensures
        r@ == compile_help_text(pieces@.map_values(|p: String| p@)),
{
    let mut out = String::new();
    out.append("torqc ");
    out.append(pieces[0].as_str());
    out.append("\n    \nUsage: ");
    out.append(pieces[1].as_str());
    out.append(" ");
    out.append(pieces[2].as_str());
    out.append(" ");
    out.append(pieces[3].as_str());
    out.append("\nCommands:\n  ");
    out.append(pieces[4].as_str());
    out.append(" ");
    out.append(pieces[5].as_str());
    out.append(" - Compiles the given file\nFlags: \n  ");
    out.append(pieces[6].as_str());
    out.append(" ");
    out.append(pieces[7].as_str());
    out.append(" - uses clang (default)\n  ");
    out.append(pieces[8].as_str());
    out.append(" ");
    out.append(pieces[9].as_str());
    out.append(" - uses gcc\n  ");
    out.append(pieces[10].as_str());
    out.append(" ");
    out.append(pieces[11].as_str());
    out.append(" - verbose output\n  ");
    out.append(pieces[12].as_str());
    out.append(" ");
    out.append(pieces[13].as_str());
    out.append(" - Builds for deployement\n  ");
    out.append(pieces[14].as_str());
    out.append(" ");
    out.append(pieces[15].as_str());
    out.append(" - Compiles to rust code\n  ");
    proof {
        let ps = pieces@.map_values(|p: String| p@);
        assert(out@ =~= compile_help_text(ps));
    }
    out
}

/// The general usage text around its highlighted pieces.
pub open spec fn help_text(ps: Seq<Seq<char>>) -> Seq<char>
    recommends
        ps.len() == 18,
{
    "volt "@
        + ps[0]
        + "\n    \nDisplays help information.\nUsage: "@
        + ps[1]
        + " "@
        + ps[2]
        + " "@
        + ps[3]
        + "\nCommands:\n  "@
        + ps[4]
        + " "@
        + ps[5]
        + " - Install all dependencies for a project.\n  "@
        + ps[6]
        + " "@
        + ps[7]
        + " - Interactively create or update a package.json file for a project.\n  "@
        + ps[8]
        + " "@
        + ps[9]
        + " - Add a dependency to a project.\n  "@
        + ps[10]
        + " "@
        + ps[11]
        + " - Remove a dependency from the package.json file for a project.\n  "@
        + ps[12]
        + " "@
        + ps[13]
        + " - Push changes to a github repository the easy way.\n  "@
        + ps[14]
        + " "@
        + ps[15]
        + " - Clean the volt cache files and metadata.\n  "@
        + ps[16]
        + " "@
        + ps[17]
        + " - Clone a github repository and get setup with all required dependencies.\n  "@
}

/// Each highlighted piece of the general usage text is its text, plain or in its style.
pub open spec fn help_pieces(ps: Seq<Seq<char>>) -> bool {
    &&& ps.len() == 18
    &&& styled(ps[0], "0.1.0"@, "1;92"@)
    &&& styled(ps[1], "volt"@, "1;92"@)
    &&& styled(ps[2], "[commands]"@, "95"@)
    &&& styled(ps[3], "[flags]"@, "95"@)
    &&& styled(ps[4], "*"@, "1;95"@)
    &&& styled(ps[5], "install"@, "94"@)
    &&& styled(ps[6], "*"@, "1;95"@)
    &&& styled(ps[7], "init"@, "94"@)
    &&& styled(ps[8], "*"@, "1;95"@)
    &&& styled(ps[9], "add"@, "94"@)
    &&& styled(ps[10], "*"@, "1;95"@)
    &&& styled(ps[11], "remove"@, "94"@)
    &&& styled(ps[12], "*"@, "1;95"@)
    &&& styled(ps[13], "cache"@, "94"@)
    &&& styled(ps[14], "*"@, "1;95"@)
    &&& styled(ps[15], "deploy"@, "94"@)
    &&& styled(ps[16], "*"@, "1;95"@)
    &&& styled(ps[17], "clone"@, "94"@)
}

/// Lays out the general usage text around its highlighted pieces, in order.
pub fn help_with(pieces: &Vec<String>) -> (r: String)
    requires
        pieces.len() == 18,
    ensures
        r@ == help_text(pieces@.map_values(|p: String| p@)),
{
    let mut out = String::new();
    out.append("volt ");
    out.append(pieces[0].as_str());
    out.append("\n    \nDisplays help information.\nUsage: ");
    out.append(pieces[1].as_str());
    out.append(" ");
    out.append(pieces[2].as_str());
    out.append(" ");
    out.append(pieces[3].as_str());
    out.append("\nCommands:\n  ");
    out.append(pieces[4].as_str());
    out.append(" ");
    out.append(pieces[5].as_str());
    out.append(" - Install all dependencies for a project.\n  ");
    out.append(pieces[6].as_str());
    out.append(" ");
    out.append(pieces[7].as_str());
    out.append(" - Interactively create or update a package.json file for a project.\n  ");
    out.append(pieces[8].as_str());
    out.append(" ");
    out.append(pieces[9].as_str());
    out.append(" - Add a dependency to a project.\n  ");
    out.append(pieces[10].as_str());
    out.append(" ");
    out.append(pieces[11].as_str());
    out.append(" - Remove a dependency from the package.json file for a project.\n  ");
    out.append(pieces[12].as_str());
    out.append(" ");
    out.append(pieces[13].as_str());
    out.append(" - Push changes to a github repository the easy way.\n  ");
    out.append(pieces[14].as_str());
    out.append(" ");
    out.append(pieces[15].as_str());
    out.append(" - Clean the volt cache files and metadata.\n  ");
    out.append(pieces[16].as_str());
    out.append(" ");
    out.append(pieces[17].as_str());
    out.append(" - Clone a github repository and get setup with all required dependencies.\n  ");
    proof {
        let ps = pieces@.map_values(|p: String| p@);
        assert(out@ =~= help_text(ps));
    }
    out
}

/// The `compile` command.
pub struct Compile;

impl Compile {
    /// The usage text of the `compile` command, with its highlighted pieces as colored renders them.
    pub fn help() -> (r: String)
        ensures
            exists|ps: Seq<Seq<char>>| compile_help_pieces(ps) && r@ == compile_help_text(ps),
    {
        let mut pieces: Vec<String> = Vec::new();
        proof {
            reveal_strlit("0.1.0");
        }
        pieces.push(green_bold("0.1.0"));
        proof {
            reveal_strlit("torqc");
        }
        pieces.push(green_bold("torqc"));
        proof {
            reveal_strlit("[commands]");
        }
        pieces.push(purple("[commands]"));
        proof {
            reveal_strlit("[flags]");
        }
        pieces.push(purple("[flags]"));
        proof {
            reveal_strlit("*");
        }
        pieces.push(magenta_bold("*"));
        proof {
            reveal_strlit("<filename>");
        }
        pieces.push(blue("<filename>"));
        proof {
            reveal_strlit("*");
        }
        pieces.push(magenta_bold("*"));
        proof {
            reveal_strlit("--useclang, -ucg");
        }
        pieces.push(blue("--useclang, -ucg"));
        proof {
            reveal_strlit("*");
        }
        pieces.push(magenta_bold("*"));
        proof {
            reveal_strlit("--usegcc, -ugcc ");
        }
        pieces.push(blue("--usegcc, -ugcc "));
        proof {
            reveal_strlit("*");
        }
        pieces.push(magenta_bold("*"));
        proof {
            reveal_strlit("--verbose, -vb  ");
        }
        pieces.push(blue("--verbose, -vb  "));
        proof {
            reveal_strlit("*");
        }
        pieces.push(magenta_bold("*"));
        proof {
            reveal_strlit("--release, -r   ");
        }
        pieces.push(blue("--release, -r   "));
        proof {
            reveal_strlit("*");
        }
        pieces.push(magenta_bold("*"));
        proof {
            reveal_strlit("--userust       ");
        }
        pieces.push(blue("--userust       "));
        let r = compile_help_with(&pieces);
        proof {
            let ps = pieces@.map_values(|p: String| p@);
            assert(compile_help_pieces(ps));
        }
        r
    }

    /// Translates comment-free source text into target-language source.
    pub fn run(source: &str, mode: AsyncMode) -> (r: Result<String, CompileError>)
        ensures
            match pipeline(source@, mode) {
                Ok(t) => r matches Ok(s) && s@ == t,
                Err(e) => r matches Err(x) && failure_of(x) == e,
            },
    {
        let tokens = match tokenize(source) {
            Err(e) => return Err(CompileError::Lexical(e)),
            Ok(t) => t,
        };
        let parser = Parser::new(tokens);
        let program = match parser.parse() {
            Err(e) => return Err(CompileError::Parse(e)),
            Ok(p) => p,
        };
        let compiler = RustCompiler::with_mode(program, mode);
        match compiler.compile() {
            Err(e) => Err(CompileError::Codegen(e)),
            Ok(s) => Ok(s),
        }
    }
}

/// The `help` command.
pub struct Help;

impl Help {
    /// The general usage text, with its highlighted pieces as colored renders them.
    pub fn help() -> (r: String)
        ensures
            exists|ps: Seq<Seq<char>>| help_pieces(ps) && r@ == help_text(ps),
    {
        let mut pieces: Vec<String> = Vec::new();
        proof {
            reveal_strlit("0.1.0");
        }
        pieces.push(green_bold("0.1.0"));
        proof {
            reveal_strlit("volt");
        }
        pieces.push(green_bold("volt"));
        proof {
            reveal_strlit("[commands]");
        }
        pieces.push(purple("[commands]"));
        proof {
            reveal_strlit("[flags]");
        }
        pieces.push(purple("[flags]"));
        proof {
            reveal_strlit("*");
        }
        pieces.push(magenta_bold("*"));
        proof {
            reveal_strlit("install");
        }
        pieces.push(blue("install"));
        proof {
            reveal_strlit("*");
        }
        pieces.push(magenta_bold("*"));
        proof {
            reveal_strlit("init");
        }
        pieces.push(blue("init"));
        proof {
            reveal_strlit("*");
        }
        pieces.push(magenta_bold("*"));
        proof {
            reveal_strlit("add");
        }
        pieces.push(blue("add"));
        proof {
            reveal_strlit("*");
        }
        pieces.push(magenta_bold("*"));
        proof {
            reveal_strlit("remove");
        }
        pieces.push(blue("remove"));
        proof {
            reveal_strlit("*");
        }
        pieces.push(magenta_bold("*"));
        proof {
            reveal_strlit("cache");
        }
        pieces.push(blue("cache"));
        proof {
            reveal_strlit("*");
        }
        pieces.push(magenta_bold("*"));
        proof {
            reveal_strlit("deploy");
        }
        pieces.push(blue("deploy"));
        proof {
            reveal_strlit("*");
        }
        pieces.push(magenta_bold("*"));
        proof {
            reveal_strlit("clone");
        }
        pieces.push(blue("clone"));
        let r = help_with(&pieces);
        proof {
            let ps = pieces@.map_values(|p: String| p@);
            assert(help_pieces(ps));
        }
        r
    }
}

/// Compiling is a function of the text: two outputs that both meet the
/// contract of `Compile::run` for one text and mode are the same text.
pub proof fn lemma_compile_deterministic(text: Seq<char>, mode: AsyncMode, a: String, b: String)
    requires
        pipeline(text, mode) == Ok::<Seq<char>, Failure>(a@),
        pipeline(text, mode) == Ok::<Seq<char>, Failure>(b@),
    ensures
        a@ == b@,
{
}

} // verus!
