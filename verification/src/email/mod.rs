pub mod sending;
