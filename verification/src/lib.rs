//! A small C compiler: lexer, parser, semantic passes, three-address code and
//! x86-64 assembly generation, each stage verified against a functional model.

pub mod errors;
pub mod lexer;
pub mod ast;
pub mod parser;
pub mod symbols;
pub mod resolve;
pub mod typecheck;
pub mod tac;
pub mod tac_generator;
pub mod gen_laws;
pub mod jump_laws;
pub mod asm_ast;
pub mod asm_text;
pub mod program;
pub mod compiler;

pub use crate::compiler::compile;
pub use crate::errors::CompilerError;
