pub mod ops;
pub mod token;
pub mod tokenizer;
pub mod model;
pub mod grammar;
pub mod parser;
pub mod codegen;
pub mod commands;
