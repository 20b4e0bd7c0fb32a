pub mod ast;
pub mod cache;
pub mod chars;
pub mod desugar;
pub mod hir;
pub mod ir;
pub mod ir_compiler;
pub mod lexer;
pub mod name_map;
pub mod name_space;
pub mod parser;
pub mod primitive;
pub mod resolve;
pub mod scope;
pub mod span;
pub mod type_check;
pub mod vm;
