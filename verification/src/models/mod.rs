pub mod identity;
pub mod search;
pub mod flatten;
pub mod facets;
pub mod auth;
pub mod comments;
