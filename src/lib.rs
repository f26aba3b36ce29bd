pub mod parser;
pub mod scanner;
