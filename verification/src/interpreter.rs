pub mod commands;
pub mod expressions;
pub mod memory;
