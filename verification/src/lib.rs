use vstd::prelude::*;

pub mod text;
pub mod docs_parser;
pub mod modules_overview;
pub mod cache;
pub mod cargo_tools;
pub mod mcp;
pub mod tools;
pub mod rust_book;
pub mod error_index;
pub mod config;
pub mod context_engine;
pub mod web_ui;

verus! {
} // verus!
