//! A lightweight object-relational layer over a relational database.
//!
//! The crate models table schemas, converts between database rows and a
//! structured value type, and assembles parameterized SQL statements from
//! fluent builder state.  All statement construction and row decoding is
//! verified; executing statements against a live connection, and the
//! serde step between typed records and the structured value type, are
//! left to the surrounding application.

pub mod codec;
pub mod error;
pub mod idgen;
pub mod lex;
pub mod query;
pub mod query_builder;
pub mod schema;
pub mod sql;
pub mod table;
pub mod value;

pub use crate::codec::Param;
pub use crate::codec::Row;
pub use crate::error::OrmError;
pub use crate::query::Query;
pub use crate::query_builder::QueryBuilder;
pub use crate::schema::ColumnSchema;
pub use crate::schema::TableSchema;
pub use crate::sql::Statement;
pub use crate::table::OrmStruct;
pub use crate::table::Record;
pub use crate::table::Table;
pub use crate::value::DynValue;
