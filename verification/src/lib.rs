//! Lexers and a schema-driven deserializer for CCSDS Keyword Value Notation,
//! and points in UTC.

pub mod decimal;
pub mod deserializer;
pub mod grammar;
pub mod iso;
pub mod laws;
pub mod number;
pub mod parser;
pub mod scanner;
pub mod schema;
pub mod text;
pub mod utc;
