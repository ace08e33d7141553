pub mod error;
pub mod extract;
pub mod ffi;
pub mod graph;
pub mod items;
pub mod lang;
pub mod laws;
pub mod parse;
pub mod symbol;
pub mod syntax;
pub mod text;
