pub mod ast;
pub mod printer;
