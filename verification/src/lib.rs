//! Verified core of a database query builder and of the attribute grammar
//! that its derive macros read.

pub mod ast;
pub mod attrs;
pub mod from_sql_row;
pub mod insertable;
pub mod numeric;
pub mod options;
pub mod parsers;
pub mod query_builder;
pub mod select_by;
pub mod syntax;
pub mod tokens;
pub mod util;
