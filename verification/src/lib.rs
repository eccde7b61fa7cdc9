//! A schema-driven façade for a prefix-based text-search engine.
//!
//! A record type declares, once, which of its fields are full-text indexed
//! (under which prefix and alias) and which carry faceted values.  Compiling
//! that declaration yields two correlated artifacts: an index program (the
//! exact steps that turn one record into a searchable document) and a query
//! configuration (the prefix table and language settings that resolve field
//! names in query text back to the very structures the program produced).

pub mod engine;
pub mod laws;
pub mod program;
pub mod schema;
pub mod stoplist;

pub use engine::{DbError, QueryParserError, Search, SearchError};
pub use program::{DocOp, IndexProgram, RecordView, Step};
pub use schema::{DocData, DocId, FieldConfig, QueryConfig, Schema, SchemaError, StructConfig};
pub use stoplist::StopList;
