pub mod ast;
pub mod model;
pub mod model_builder;
pub mod laws;
pub mod lowering;
pub mod model_json;
pub mod parser;
pub mod peg_parser;
pub mod text;
