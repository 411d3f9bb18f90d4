pub mod value;
pub mod eval;
pub mod expr;
pub mod node;
pub mod trim;
pub mod print;
pub mod mapper;
pub mod decode;
pub mod codegen;
pub mod laws;
