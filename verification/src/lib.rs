//! Documentation library server logic: configuration layering, documentation
//! fetching plans, page listing, search, paging and tool-call handling.

pub mod text;
pub mod paths;
pub mod config;
pub mod fetch;
pub mod json;
pub mod docs;
pub mod tools;
pub mod server;
pub mod embedded;
