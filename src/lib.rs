//! Schema compiler and query translation core: a parser for the schema
//! language, an import loader, a resolver, and a translator from filter
//! documents to SQL fragments.
pub mod text;
pub mod value;
pub mod encode;
pub mod schema;
pub mod relation;
pub mod query;
pub mod diagnostics;
pub mod render;
pub mod lexer;
pub mod ast;
pub mod expr;
pub mod grammar;
pub mod parser;
pub mod loader;
pub mod resolver;
pub mod decode;
pub mod pipeline;
pub mod property;
pub mod conf;
