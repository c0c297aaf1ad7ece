//! Configuration-driven extraction of mod records from web pages, change
//! detection across runs, and a versioned page-snapshot cache.

pub mod text;
pub mod urls;
pub mod model;
pub mod detect;
pub mod html;
pub mod extract;
pub mod marker;
pub mod pick;
pub mod cache;
pub mod notify;
pub mod parser;
pub mod files;
