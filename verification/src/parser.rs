pub mod lexer;
pub mod model;
pub mod model_mapper;
pub mod parser;
