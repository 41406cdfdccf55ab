//! A small register machine and the assembler for its instruction language.
pub mod instruction;
pub mod vm;
pub mod lexer;
pub mod assembler;
pub mod repl;
