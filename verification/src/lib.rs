//! Result projection for repository queries: turns the grouped rows that a
//! query evaluation produced into ordered, schema-shaped output records.

pub mod error;
pub mod flatten;
pub mod laws;
pub mod ordered_map;
pub mod projector;
pub mod record;
pub mod registry;
pub mod render;
pub mod schema;
pub mod statement;
pub mod text;
pub mod value;
