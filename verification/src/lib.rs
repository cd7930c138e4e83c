pub mod builtin;
pub mod command;
pub mod environment;
pub mod evaluate;
pub mod shell;
pub mod text;
pub mod token;
