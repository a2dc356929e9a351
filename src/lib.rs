pub mod ast;
pub mod climbing;
pub mod lexer;
pub mod parser;
pub mod spans;
pub mod token;
