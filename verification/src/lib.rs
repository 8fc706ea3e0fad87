//! Querying iHerb product data: the request, cache, parsing and rendering
//! rules of the `iherb-cli` tool, with their contracts.

pub mod batch;
pub mod browser;
pub mod cache;
pub mod cli;
pub mod clock;
pub mod config;
pub mod dom;
pub mod error;
pub mod fetch;
pub mod json;
pub mod model;
pub mod output;
pub mod text;
pub mod scraper;
pub mod targets;
