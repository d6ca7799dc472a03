//! A compiler for a small subset of C: a single `int NAME(void)` function
//! whose body is one `return` statement over integer-literal arithmetic.
//!
//! The pipeline has three stages: [`lexer::tokenize`] turns source text into
//! tokens, [`parser::parse_token_stream`] turns tokens into an abstract syntax
//! tree, and [`compiler::compile_ast`] turns the tree into x86-64 assembly
//! text. Each stage carries a contract relating its result to a mathematical
//! model of the stage, so the whole pipeline is verified end to end.

use vstd::prelude::*;

pub mod ast;
pub mod compiler;
pub mod lexer;
pub mod parser;
pub mod token;

verus! {

use crate::compiler::asm_program;
use crate::lexer::lex;
use crate::parser::ParseError;
use crate::parser::Parsed;
use crate::parser::sp_parse_program;

/// Run the compilation pipeline, taking source code to assembly text, or to
/// the parse error that stopped it: the result is the assembly of the
/// program that the token sequence of `source` parses to, or the error that
/// parsing it reports.
pub fn compile_source(source: &str) -> (r: Result<String, ParseError>)
    requires
        source@.len() < usize::MAX,
    ensures
        match r {
            Ok(assembly) => (sp_parse_program(lex(source@), 0) matches Parsed::Done { value, next }
                && assembly@ == asm_program(value)),
            Err(e) => sp_parse_program(lex(source@), 0) == (Parsed::<
                crate::ast::ProgramModel,
            >::Fail { token: e@.token, message: e@.message }),
        },
{
    let tokens = lexer::tokenize(source);
    match parser::parse_token_stream(tokens) {
        Ok(tree) => Ok(compiler::compile_ast(tree)),
        Err(e) => Err(e),
    }
}

} // verus!
