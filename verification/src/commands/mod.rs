pub mod merge;
pub mod query;
