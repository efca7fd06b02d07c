pub mod ast;
pub mod lexer;
pub mod parser;
pub mod typechecker;
pub mod codegen;
pub mod optimizer;
pub mod error;

use vstd::prelude::*;
use vstd::utf8::encode_utf8;
use crate::lexer::{Tok, TokenV, byte_off, lex, lex_spec, tokens_view};
use crate::parser::{parse, parse_spec};
use crate::typechecker::{check_program_spec, typecheck};
use crate::codegen::{gen_program, generate_ir};
use crate::optimizer::{directives, optimize, tier};

verus! {

/// An error of one stage of the pipeline, with its message.
#[derive(Debug)]
pub enum CompilerError {
    LexerError(String),
    ParserError(String),
    TypeError(String),
    CodegenError(String),
}

/// The stages of the pipeline, by which its errors are told apart.
pub enum Stage {
    Lex,
    Parse,
    Check,
    Generate,
}

pub open spec fn stage_of(e: CompilerError) -> Stage {
    match e {
        CompilerError::LexerError(_) => Stage::Lex,
        CompilerError::ParserError(_) => Stage::Parse,
        CompilerError::TypeError(_) => Stage::Check,
        CompilerError::CodegenError(_) => Stage::Generate,
    }
}

/// The tokens, as the parser sees them, of the lexing model's tokens of `s`.
pub open spec fn token_views(ms: Seq<Tok>, s: Seq<char>) -> Seq<TokenV> {
    ms.map_values(
        |m: Tok|
            TokenV {
                token: m.kind,
                text: s.subrange(m.start, m.end),
                start: byte_off(s, m.start) as usize,
                end: byte_off(s, m.end) as usize,
            },
    )
}

/// What compiling source text `s` at `opt_level` gives: the annotated C text,
/// or the stage that rejected it.
pub open spec fn compile_spec(s: Seq<char>, opt_level: u8) -> Result<Seq<char>, Stage> {
    match lex_spec(s) {
        Err(_) => Err(Stage::Lex),
        Ok(ms) => match parse_spec(token_views(ms, s)) {
            Err(_) => Err(Stage::Parse),
            Ok(prog) => match check_program_spec(prog) {
                Some(_) => Err(Stage::Check),
                None => match gen_program(prog) {
                    None => Err(Stage::Generate),
                    Some(c) => Ok(directives(tier(opt_level)) + c),
                },
            },
        },
    }
}

/// Compiles source text to C text annotated for an optimization tier:
/// lexing, parsing, type checking, lowering, then the tier's directives.
pub fn compile_source(source: &str, opt_level: u8) -> (r: Result<String, CompilerError>)
    requires
        encode_utf8(source@).len() <= usize::MAX,
    ensures
        match compile_spec(source@, opt_level) {
            Ok(c) => r is Ok && r->Ok_0@ == c,
            Err(st) => r is Err && stage_of(r->Err_0) == st,
        },
{
    let tokens = match lex(source) {
        Ok(t) => t,
        Err(e) => return Err(CompilerError::LexerError(e.to_string())),
    };
    proof {
        let ms = lex_spec(source@)->Ok_0;
        assert(tokens_view(tokens@) =~= token_views(ms, source@));
    }
    let ast = match parse(tokens) {
        Ok(p) => p,
        Err(e) => return Err(CompilerError::ParserError(e.to_string())),
    };
    let typed = match typecheck(ast) {
        Ok(p) => p,
        Err(e) => return Err(CompilerError::TypeError(e.to_string())),
    };
    let code = match generate_ir(typed) {
        Ok(c) => c,
        Err(e) => return Err(CompilerError::CodegenError(e.to_string())),
    };
    match optimize(code, opt_level) {
        Ok(c) => Ok(c),
        Err(e) => Err(CompilerError::CodegenError(e.to_string())),
    }
}

} // verus!
