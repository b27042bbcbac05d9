pub mod command;
pub mod context;
pub mod laws;
pub mod resolver;
pub mod strutil;
