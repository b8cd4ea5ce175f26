//! Core of a line-oriented command interpreter: a tokenizer that resolves
//! quoting and escaping, a parser that builds an argument vector plus
//! redirections, and the dispatch/redirection engine that applies and
//! restores stream handles around one command invocation.

pub mod commands;
pub mod context;
pub mod engine;
pub mod parse;
pub mod path_lookup;
pub mod registry;
pub mod split_argv;
pub mod text;
pub mod tokenize;
