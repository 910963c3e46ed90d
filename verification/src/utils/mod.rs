pub mod text;
pub mod number;
pub mod identifiers;
pub mod values;
pub mod pagination;
pub mod types;
pub mod connstr;
