//! Schema editing for a relational table: a reducer that folds the user's
//! edits into a minimal pending change-set, and compilers from that set (and
//! from row edits) to SQL statements.

pub mod ddl;
pub mod dml;
pub mod form;
pub mod schema;
pub mod table_info;
pub mod ui;
