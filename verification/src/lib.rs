//! Ingestion and synchronisation engine for a Reddit reading desk: credentials,
//! query planning, normalisation of raw items, merging across sort facets,
//! flattening of reply trees and the store of saved posts, search results and
//! comments.

pub mod text;
pub mod settings;
pub mod database;
pub mod models;
pub mod commands;
pub mod ai;
pub mod email;
