//! An interactive command shell: lexer, command builder, variable store and
//! the decision logic of the pipeline execution engine.
pub mod builtins;
pub mod commands;
pub mod config;
pub mod scanner;
pub mod shell;
pub mod unicode;
pub mod vars;
pub mod wish;

pub use config::Config;
pub use shell::Shell;
