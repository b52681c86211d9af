pub mod ast;
pub mod code;
pub mod codegen;
pub mod externs;
pub mod laws;
pub mod naming;
