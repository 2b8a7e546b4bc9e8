//! The filter tree and its SQL rendering.

pub mod filter_group;
pub mod filter_type;
pub mod join_column_filter;
pub mod join_table_filter;
pub mod joined_table;
pub mod laws;
pub mod ops;
pub mod render;
pub mod shape;
pub mod sql_builder;
pub mod table_filter;
pub mod value;
pub mod value_filter;

pub use filter_group::FilterGroup;
pub use filter_type::FilterType;
pub use join_column_filter::JoinColumnFilter;
pub use join_table_filter::JoinTableFilter;
pub use joined_table::JoinedTable;
pub use ops::Combinator;
pub use ops::Operation;
pub use table_filter::TableFilter;
pub use value::SqlValue;
pub use value_filter::ValueFilter;
pub use sql_builder::SqlVisitor;
pub use sql_builder::compile;
