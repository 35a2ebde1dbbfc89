//! Markdown rendering of search, extract and usage results.
pub mod ellipsis;
pub mod extract;
pub mod infobox;
pub mod search;
pub mod text_helpers;
pub mod usage;
