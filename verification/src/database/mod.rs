pub mod records;
pub mod order;
pub mod adding;
pub mod read;
pub mod laws;
