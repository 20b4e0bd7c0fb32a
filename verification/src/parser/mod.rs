pub mod errors;
pub mod keywords;
pub mod token;
pub mod lexer;
pub mod packrat;
