//! A row-filtering library for tab-delimited text.
//!
//! The library compiles a user-supplied boolean expression once, validates it
//! against a synthetic row, and then filters data rows one by one: each row's
//! referenced columns are coerced to their declared types, the expression is
//! evaluated against those values, and rows for which it holds are kept.
//! A run summary reports totals, skipped lines and invalid lines.

pub mod coerce;
pub mod context;
pub mod digits;
pub mod engine;
pub mod filter;
pub mod membership;
pub mod report;
pub mod scan;
pub mod util;
pub mod value;

pub use engine::create_function_context;
pub use filter::filter_with_expression;
pub use filter::CompileError;
pub use filter::CompiledExpression;
pub use filter::RowFilter;
pub use filter::RunStats;
pub use scan::get_used_columns;
pub use util::get_tmp_dir;
pub use value::ColumnType;
pub use value::TypedValue;
pub use value::ValueModel;
