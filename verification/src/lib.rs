//! Verified core of a Model Context Protocol server for the Kagi Search API.
use vstd::prelude::*;

pub mod api;
pub mod cache;
pub mod config;
pub mod domain;
pub mod fallback;
pub mod format;
pub mod guard;
pub mod logging;
pub mod metrics;
pub mod pages;
pub mod parse;
pub mod text;

verus! {
} // verus!
