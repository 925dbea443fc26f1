//! A small expression language: a bytecode compiler and a stack virtual
//! machine, with the runtime value model and its operator table.
pub mod location;
pub mod cursor;
pub mod token;
pub mod lexer;
pub mod parser;
pub mod value;
pub mod op;
pub mod chunk;
pub mod ast;
pub mod compiler;
pub mod codegen;
pub mod vm;
