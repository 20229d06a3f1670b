pub mod interpreter;
pub mod lexical;
pub mod syntatic;
