pub mod cell_value;
pub mod column_map;
pub mod column_mapper;
pub mod index_map;
mod registry;
pub mod specs;
pub mod table_map;
pub mod table_map_errors;

pub use crate::table_map::TableMap;
