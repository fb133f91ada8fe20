use crate::asm_ast::{assembly_fix, spec_assembly_fix};
use crate::asm_text::{program_text, write_program};
use crate::errors::{CompilerError, ErrorKind};
use crate::lexer::{lex, names_view, spec_lex};
use crate::parser::{spec_parse_program, Parser};
use crate::program::spec_generate;
use vstd::prelude::*;

verus! {

/// What compiling a source text gives: the assembly text of the program, or
/// the kind of the first error met by the lexer and parser, the semantic
/// passes or the code generator.
pub open spec fn spec_compile(source: Seq<char>) -> Result<Seq<char>, ErrorKind> {
    let (tokens, names) = spec_lex(source);
    match spec_parse_program(tokens) {
        Err(k) => Err(k),
        Ok(p) => match spec_generate(p) {
            Err(k) => Err(k),
            Ok(code) => Ok(program_text(names, spec_assembly_fix(code))),
        },
    }
}

/// Compiles a C source text to x86-64 assembly (AT&T syntax).
pub fn compile(source: String) -> (r: Result<String, CompilerError>)
    ensures
        match spec_compile(source@) {
            Ok(text) => r matches Ok(s) && s@ == text,
            Err(k) => r matches Err(e) && e.kind() == k,
        },
{
    let ghost src = source@;
    let (tokens, names) = lex(source);
    let mut parser = Parser::new(tokens);
    let program = parser.parse_program()?;
    let code = program.generate()?;
    let fixed = assembly_fix(code);
    let out = write_program(&fixed, &names);
    proof {
        assert(names_view(names@) == spec_lex(src).1);
    }
    Ok(out)
}

} // verus!
