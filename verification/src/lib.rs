pub mod acquire;
pub mod args;
pub mod invocations;
pub mod parse;
pub mod registry;
pub mod config;
pub mod resolver;
pub mod terminal;
pub mod text;
pub mod tokenizer;

