pub mod ast;
pub mod codegen;
pub mod codegen_spec;
pub mod error;
pub mod grammar;
pub mod laws;
pub mod lexer;
pub mod parser;
pub mod text;
pub mod token;

use vstd::prelude::*;
use crate::ast::{stmts_view, Program, StmtV};
use crate::codegen::CodeGenerator;
use crate::codegen_spec::{program_code, GenState};
use crate::error::CompileError;
use crate::grammar::{p_source, PErr};
use crate::lexer::Lexer;
use crate::parser::{err_matches, Parser};

verus! {

/// What compiling `input` may give: the error that lexing or parsing meets
/// first, or else the text that generation gives for a program whose view is
/// the parsed one, or the error that generation meets.
pub open spec fn compiles_to(input: Seq<char>, r: Result<String, CompileError>) -> bool {
    match p_source(input) {
        Err(pe) => r matches Err(e) && err_matches(e, pe),
        Ok(vs) => exists|p: Program|
            #[trigger] stmts_view(p.body@, p.body@.len() as int) == vs && match program_code(GenState::fresh(), p.body@) {
                Ok(st) => r matches Ok(t) && t@ == st.out,
                Err(e) => r == Err::<String, CompileError>(e),
            },
    }
}

/// Compiles source text to the text of a stack-machine module: lexing and
/// parsing as `p_source` describes, then generation as `program_code`
/// describes, from a fresh generator. The first error stops it.
pub fn compile(input: &str) -> (r: Result<String, CompileError>)
    requires
        input@.len() < usize::MAX,
    ensures
        compiles_to(input@, r),
{
    let lexer = Lexer::new(input);
    let mut parser = Parser::new(lexer)?;
    proof {
        parser.lemma_in_text();
    }
    let program = parser.parse_program()?;
    let ghost vs = stmts_view(program.body@, program.body@.len() as int);
    assert(p_source(input@) == Ok::<Seq<StmtV>, PErr>(vs));
    let mut codegen = CodeGenerator::new();
    let r = codegen.generate(&program);
    assert(stmts_view(program.body@, program.body@.len() as int) == vs);
    match r {
        Ok(out) => Ok(out),
        Err(e) => Err(e),
    }
}

} // verus!
